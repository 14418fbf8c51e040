//! The decisions of the interactive loop: what a submitted line asks for,
//! how a reply is shown, and where the shell connects.
use vstd::prelude::*;
use vstd::string::{StrSliceExecFns, StringExecFns};

use crate::remote::{trim, trim_text};
use crate::server::CommandResponse;
use crate::text::{has_prefix, same_text, split_whitespace, texts, tokens};

verus! {

/// What a submitted line asks for, as the contracts see it.
pub enum ShellStepModel {
    Skip,
    Quit,
    Help,
    HelpService(Seq<char>),
    Usage,
    Execute(Seq<char>, Seq<char>, Seq<Seq<char>>),
}

/// What a submitted line asks for.
#[derive(Debug, Clone, PartialEq, Eq)]
pub enum ShellStep {
    /// Nothing but whitespace: prompt again.
    Skip,
    /// `quit` or `exit`.
    Quit,
    /// `help`: print the whole catalog.
    Help,
    /// `help <service>`: print one service's detail.
    HelpService(String),
    /// A single word that is no builtin: print the usage notice.
    Usage,
    /// Run `action` of `service` with the remaining tokens as arguments.
    Execute { service: String, action: String, args: Vec<String> },
}

impl View for ShellStep {
    type V = ShellStepModel;

    open spec fn view(&self) -> ShellStepModel {
        match self {
            ShellStep::Skip => ShellStepModel::Skip,
            ShellStep::Quit => ShellStepModel::Quit,
            ShellStep::Help => ShellStepModel::Help,
            ShellStep::HelpService(s) => ShellStepModel::HelpService(s@),
            ShellStep::Usage => ShellStepModel::Usage,
            ShellStep::Execute { service, action, args } => ShellStepModel::Execute(
                service@,
                action@,
                texts(args@),
            ),
        }
    }
}

/// What the submitted `line` asks for.
pub open spec fn shell_step(line: Seq<char>) -> ShellStepModel {
    let l = trim(line);
    let t = tokens(l);
    if t.len() == 0 {
        ShellStepModel::Skip
    } else if l == "quit"@ || l == "exit"@ {
        ShellStepModel::Quit
    } else if t[0] == "help"@ {
        if t.len() >= 2 {
            ShellStepModel::HelpService(t[1])
        } else {
            ShellStepModel::Help
        }
    } else if t.len() < 2 {
        ShellStepModel::Usage
    } else {
        ShellStepModel::Execute(t[0], t[1], t.skip(2))
    }
}

/// Decides what a submitted line asks for.
pub fn interpret_line(line: &str) -> (r: ShellStep)
    ensures
        r@ == shell_step(line@),
{
    let l = trim_text(line);
    let mut parts = split_whitespace(l.as_str());
    let ghost t = texts(parts@);
    if parts.len() == 0 {
        return ShellStep::Skip;
    }
    if same_text(l.as_str(), "quit") || same_text(l.as_str(), "exit") {
        return ShellStep::Quit;
    }
    assert(t[0] == parts@[0]@);
    if same_text(parts[0].as_str(), "help") {
        if parts.len() >= 2 {
            assert(t[1] == parts@[1]@);
            return ShellStep::HelpService(parts[1].clone());
        }
        return ShellStep::Help;
    }
    if parts.len() < 2 {
        return ShellStep::Usage;
    }
    assert(t[1] == parts@[1]@);
    let args = parts.split_off(2);
    assert(texts(args@) =~= t.skip(2));
    let action = parts.pop().unwrap();
    let service = parts.pop().unwrap();
    ShellStep::Execute { service, action, args }
}

/// The text shown for a reply: the message, or the message after `Error: `
/// when the execution failed.
pub open spec fn response_text(success: bool, message: Seq<char>) -> Seq<char> {
    if success {
        message
    } else {
        "Error: "@ + message
    }
}

/// Renders a reply for the user.
pub fn render_response(resp: &CommandResponse) -> (r: String)
    ensures
        r@ == response_text(resp.success, resp.message@),
{
    if resp.success {
        resp.message.clone()
    } else {
        let mut out = String::from_str("Error: ");
        out.append(resp.message.as_str());
        out
    }
}

/// Where to connect or listen, as the contracts see it.
pub enum EndpointModel {
    Network(Seq<char>),
    LocalSocket(Seq<char>),
}

/// Where to connect or listen.
#[derive(Debug, Clone, PartialEq, Eq)]
pub enum Endpoint {
    /// A network address; for a client, a URI.
    Network(String),
    /// A local socket path.
    LocalSocket(String),
}

impl View for Endpoint {
    type V = EndpointModel;

    open spec fn view(&self) -> EndpointModel {
        match self {
            Endpoint::Network(a) => EndpointModel::Network(a@),
            Endpoint::LocalSocket(p) => EndpointModel::LocalSocket(p@),
        }
    }
}

/// Where a server listens: an address that holds a `:` is a network socket
/// address (e.g. `[::1]:50051`), anything else a local socket path.
pub open spec fn listen_endpoint(addr: Seq<char>) -> EndpointModel {
    if addr.contains(':') {
        EndpointModel::Network(addr)
    } else {
        EndpointModel::LocalSocket(addr)
    }
}

/// Where a client connects: a network address becomes an `http://` URI
/// unless it already names its scheme; anything else is a local socket path.
pub open spec fn connect_endpoint(addr: Seq<char>) -> EndpointModel {
    if addr.contains(':') {
        if "http://"@.is_prefix_of(addr) || "https://"@.is_prefix_of(addr) {
            EndpointModel::Network(addr)
        } else {
            EndpointModel::Network("http://"@ + addr)
        }
    } else {
        EndpointModel::LocalSocket(addr)
    }
}

/// Whether the address holds a `:`.
pub fn is_network_address(addr: &str) -> (r: bool)
    ensures
        r == addr@.contains(':'),
{
    let n = addr.unicode_len();
    let mut i: usize = 0;
    while i < n
        invariant
            n == addr@.len(),
            i <= n,
            forall|j: int| 0 <= j < i ==> addr@[j] != ':',
        decreases n - i,
    {
        if addr.get_char(i) == ':' {
            assert(addr@[i as int] == ':');
            return true;
        }
        i = i + 1;
    }
    false
}

/// Where a server given `addr` listens.
pub fn listen_address(addr: &str) -> (r: Endpoint)
    ensures
        r@ == listen_endpoint(addr@),
{
    if is_network_address(addr) {
        Endpoint::Network(addr.to_owned())
    } else {
        Endpoint::LocalSocket(addr.to_owned())
    }
}

/// Interactive shell that connects to a server at an address.
pub struct NexusCli {
    addr: String,
}

impl NexusCli {
    pub closed spec fn spec_addr(&self) -> Seq<char> {
        self.addr@
    }

    pub fn new(addr: &str) -> (r: Self)
        ensures
            r.spec_addr() == addr@,
    {
        NexusCli { addr: addr.to_owned() }
    }

    pub fn addr(&self) -> (r: &str)
        ensures
            r@ == self.spec_addr(),
    {
        self.addr.as_str()
    }

    /// Where the shell connects.
    pub fn endpoint(&self) -> (r: Endpoint)
        ensures
            r@ == connect_endpoint(self.spec_addr()),
    {
        let a = self.addr.as_str();
        if is_network_address(a) {
            if has_prefix(a, "http://") || has_prefix(a, "https://") {
                Endpoint::Network(a.to_owned())
            } else {
                let mut uri = String::from_str("http://");
                uri.append(a);
                Endpoint::Network(uri)
            }
        } else {
            Endpoint::LocalSocket(a.to_owned())
        }
    }
}

} // verus!
