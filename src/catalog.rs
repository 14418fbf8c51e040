//! The catalog model: services, their commands and the commands' positional
//! arguments, each with a mathematical view.
use vstd::prelude::*;
use vstd::string::StrSliceExecFns;

use crate::text::same_text;

verus! {

/// What an argument is, as the contracts see it.
pub struct ArgModel {
    pub name: Seq<char>,
    pub hint: Seq<char>,
    pub completer: Seq<char>,
    pub description: Seq<char>,
}

/// What a command is, as the contracts see it.
pub struct CommandModel {
    pub name: Seq<char>,
    pub args: Seq<ArgModel>,
    pub description: Seq<char>,
}

/// What a service is, as the contracts see it.
pub struct ServiceModel {
    pub name: Seq<char>,
    pub description: Seq<char>,
    pub commands: Seq<CommandModel>,
}

/// Metadata about a single argument on a command.
#[derive(Debug, Clone, PartialEq, Eq)]
pub struct ArgInfo {
    pub name: String,
    /// Display hint shown to the user (e.g. "volume name"). Falls back to `name` if empty.
    pub hint: String,
    /// Completer reference in "service.command" form (e.g. "block.list"), or empty.
    pub completer: String,
    /// Human-readable description of this argument.
    pub description: String,
}

/// Metadata about a single command on a service.
#[derive(Debug, Clone, PartialEq, Eq)]
pub struct CommandInfo {
    pub name: String,
    pub args: Vec<ArgInfo>,
    pub description: String,
}

/// One entry of the catalog: a service with its commands.
#[derive(Debug, Clone, PartialEq, Eq)]
pub struct ServiceInfo {
    pub name: String,
    pub description: String,
    pub commands: Vec<CommandInfo>,
}

impl View for ArgInfo {
    type V = ArgModel;

    open spec fn view(&self) -> ArgModel {
        ArgModel {
            name: self.name@,
            hint: self.hint@,
            completer: self.completer@,
            description: self.description@,
        }
    }
}

pub open spec fn arg_models(v: Seq<ArgInfo>) -> Seq<ArgModel> {
    v.map_values(|a: ArgInfo| a@)
}

impl View for CommandInfo {
    type V = CommandModel;

    open spec fn view(&self) -> CommandModel {
        CommandModel { name: self.name@, args: arg_models(self.args@), description: self.description@ }
    }
}

pub open spec fn command_models(v: Seq<CommandInfo>) -> Seq<CommandModel> {
    v.map_values(|c: CommandInfo| c@)
}

impl View for ServiceInfo {
    type V = ServiceModel;

    open spec fn view(&self) -> ServiceModel {
        ServiceModel {
            name: self.name@,
            description: self.description@,
            commands: command_models(self.commands@),
        }
    }
}

pub open spec fn service_models(v: Seq<ServiceInfo>) -> Seq<ServiceModel> {
    v.map_values(|s: ServiceInfo| s@)
}

/// The label an argument is shown under: its hint, or its name when the
/// hint is empty.
pub open spec fn arg_label(a: ArgModel) -> Seq<char> {
    if a.hint.len() == 0 {
        a.name
    } else {
        a.hint
    }
}

/// The first service of the catalog with the given name.
pub open spec fn lookup_service(s: Seq<ServiceModel>, name: Seq<char>) -> Option<ServiceModel>
    decreases s.len(),
{
    if s.len() == 0 {
        None
    } else if s[0].name == name {
        Some(s[0])
    } else {
        lookup_service(s.drop_first(), name)
    }
}

/// The first command of the list with the given name.
pub open spec fn lookup_command(c: Seq<CommandModel>, name: Seq<char>) -> Option<CommandModel>
    decreases c.len(),
{
    if c.len() == 0 {
        None
    } else if c[0].name == name {
        Some(c[0])
    } else {
        lookup_command(c.drop_first(), name)
    }
}

/// The arguments declared for `command` of `service`, if both are known.
pub open spec fn lookup_args(s: Seq<ServiceModel>, service: Seq<char>, command: Seq<char>) -> Option<
    Seq<ArgModel>,
> {
    match lookup_service(s, service) {
        Some(svc) => match lookup_command(svc.commands, command) {
            Some(cmd) => Some(cmd.args),
            None => None,
        },
        None => None,
    }
}

/// `lookup_service` finds the first service of that name, and only misses
/// when no service has it.
pub proof fn lemma_lookup_service(s: Seq<ServiceModel>, name: Seq<char>)
    ensures
        lookup_service(s, name) is None <==> forall|i: int| 0 <= i < s.len() ==> #[trigger] s[i].name != name,
        lookup_service(s, name) is Some ==> exists|i: int|
            0 <= i < s.len() && lookup_service(s, name) == Some(#[trigger] s[i]) && s[i].name == name,
    decreases s.len(),
{
    if s.len() > 0 {
        lemma_lookup_service(s.drop_first(), name);
        if s[0].name != name {
            if lookup_service(s, name) is None {
                assert forall|i: int| 0 <= i < s.len() implies #[trigger] s[i].name != name by {
                    if i > 0 {
                        assert(s[i] == s.drop_first()[i - 1]);
                    }
                }
            } else {
                assert(exists|i: int| 0 <= i < s.drop_first().len() && s.drop_first()[i].name == name);
                let k = choose|i: int| 0 <= i < s.drop_first().len() && s.drop_first()[i].name == name;
                assert(s[k + 1] == s.drop_first()[k]);
            }
            if lookup_service(s, name) is Some {
                let i = choose|i: int|
                    0 <= i < s.drop_first().len() && lookup_service(s.drop_first(), name) == Some(
                        #[trigger] s.drop_first()[i],
                    ) && s.drop_first()[i].name == name;
                assert(s[i + 1] == s.drop_first()[i]);
            }
        } else {
            assert(s[0].name == name);
        }
    }
}

impl ArgInfo {
    pub fn new(name: &str, hint: &str, completer: &str, description: &str) -> (r: ArgInfo)
        ensures
            r@ == (ArgModel {
                name: name@,
                hint: hint@,
                completer: completer@,
                description: description@,
            }),
    {
        ArgInfo {
            name: name.to_owned(),
            hint: hint.to_owned(),
            completer: completer.to_owned(),
            description: description.to_owned(),
        }
    }

    /// Display label: the hint if set, otherwise the parameter name.
    pub fn label(&self) -> (r: &str)
        ensures
            r@ == arg_label(self@),
    {
        if self.hint.as_str().unicode_len() == 0 {
            self.name.as_str()
        } else {
            self.hint.as_str()
        }
    }

    pub fn duplicate(&self) -> (r: ArgInfo)
        ensures
            r@ == self@,
    {
        ArgInfo {
            name: self.name.clone(),
            hint: self.hint.clone(),
            completer: self.completer.clone(),
            description: self.description.clone(),
        }
    }
}

pub fn duplicate_args(v: &Vec<ArgInfo>) -> (r: Vec<ArgInfo>)
    ensures
        arg_models(r@) == arg_models(v@),
{
    let mut r: Vec<ArgInfo> = Vec::new();
    let mut i: usize = 0;
    while i < v.len()
        invariant
            i <= v@.len(),
            r@.len() == i,
            forall|j: int| 0 <= j < i ==> #[trigger] r@[j]@ == v@[j]@,
        decreases v@.len() - i,
    {
        r.push(v[i].duplicate());
        i = i + 1;
    }
    assert(arg_models(r@) =~= arg_models(v@));
    r
}

impl CommandInfo {
    pub fn duplicate(&self) -> (r: CommandInfo)
        ensures
            r@ == self@,
    {
        CommandInfo {
            name: self.name.clone(),
            args: duplicate_args(&self.args),
            description: self.description.clone(),
        }
    }
}

pub fn duplicate_commands(v: &Vec<CommandInfo>) -> (r: Vec<CommandInfo>)
    ensures
        command_models(r@) == command_models(v@),
{
    let mut r: Vec<CommandInfo> = Vec::new();
    let mut i: usize = 0;
    while i < v.len()
        invariant
            i <= v@.len(),
            r@.len() == i,
            forall|j: int| 0 <= j < i ==> #[trigger] r@[j]@ == v@[j]@,
        decreases v@.len() - i,
    {
        r.push(v[i].duplicate());
        i = i + 1;
    }
    assert(command_models(r@) =~= command_models(v@));
    r
}

/// Index of the first service named `name`.
pub fn find_service(services: &[ServiceInfo], name: &str) -> (r: Option<usize>)
    ensures
        match r {
            Some(i) => i < services@.len() && lookup_service(service_models(services@), name@)
                == Some(services@[i as int]@),
            None => lookup_service(service_models(services@), name@) is None,
        },
{
    let ghost all = service_models(services@);
    let mut i: usize = 0;
    assert(all.skip(0) =~= all);
    while i < services.len()
        invariant
            all == service_models(services@),
            i <= services@.len(),
            lookup_service(all, name@) == lookup_service(all.skip(i as int), name@),
        decreases services@.len() - i,
    {
        assert(all.skip(i as int)[0] == services@[i as int]@);
        if same_text(services[i].name.as_str(), name) {
            return Some(i);
        }
        assert(all.skip(i as int).drop_first() =~= all.skip(i + 1));
        i = i + 1;
    }
    None
}

/// Index of the first command named `name`.
pub fn find_command(commands: &Vec<CommandInfo>, name: &str) -> (r: Option<usize>)
    ensures
        match r {
            Some(i) => i < commands@.len() && lookup_command(command_models(commands@), name@)
                == Some(commands@[i as int]@),
            None => lookup_command(command_models(commands@), name@) is None,
        },
{
    let ghost all = command_models(commands@);
    let mut i: usize = 0;
    assert(all.skip(0) =~= all);
    while i < commands.len()
        invariant
            all == command_models(commands@),
            i <= commands@.len(),
            lookup_command(all, name@) == lookup_command(all.skip(i as int), name@),
        decreases commands@.len() - i,
    {
        assert(all.skip(i as int)[0] == commands@[i as int]@);
        if same_text(commands[i].name.as_str(), name) {
            return Some(i);
        }
        assert(all.skip(i as int).drop_first() =~= all.skip(i + 1));
        i = i + 1;
    }
    None
}

} // verus!
