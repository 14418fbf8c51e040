//! The client-side completion engine: classifies the partially typed line at
//! the cursor against the cached catalog, and produces the candidates for the
//! token under the cursor or the inline hint of the arguments still to type.
use vstd::prelude::*;
use vstd::string::{StrSliceExecFns, StringExecFns};

use crate::catalog::{
    arg_label, arg_models, find_command, find_service, lookup_args, lookup_service,
    service_models, ArgInfo, ArgModel, CommandInfo, CommandModel, ServiceInfo, ServiceModel,
};
use crate::remote::{split_completer, split_reference};
use crate::text::{
    char_is_space, ends_in_space, has_prefix, insert_sorted, lemma_spans_bounds, same_text,
    split_whitespace, strictly_sorted, texts, tokens,
};

verus! {

/// The outcome of a completion request, as the contracts see it.
pub enum CompletionModel {
    /// Replace from this offset with one of these candidates.
    Ready(int, Seq<Seq<char>>),
    /// Replace from this offset with the values that start with this prefix,
    /// once the zero-argument command `service.command` has answered.
    Remote(int, Seq<char>, Seq<char>, Seq<char>),
}

/// The outcome of a completion request. Offsets count characters.
#[derive(Debug, Clone, PartialEq, Eq)]
pub enum Completion {
    /// Replace the text from `start` to the cursor with one of `candidates`.
    Ready { start: usize, candidates: Vec<String> },
    /// The candidates are those that the zero-argument command
    /// `service.command` returns and that start with `prefix`; they replace
    /// the text from `start` to the cursor.
    Remote { start: usize, prefix: String, service: String, command: String },
}

impl View for Completion {
    type V = CompletionModel;

    open spec fn view(&self) -> CompletionModel {
        match self {
            Completion::Ready { start, candidates } => CompletionModel::Ready(
                *start as int,
                texts(candidates@),
            ),
            Completion::Remote { start, prefix, service, command } => CompletionModel::Remote(
                *start as int,
                prefix@,
                service@,
                command@,
            ),
        }
    }
}

pub open spec fn service_names(cat: Seq<ServiceModel>) -> Seq<Seq<char>> {
    cat.map_values(|s: ServiceModel| s.name)
}

pub open spec fn command_names(c: Seq<CommandModel>) -> Seq<Seq<char>> {
    c.map_values(|c: CommandModel| c.name)
}

/// `c` lists, sorted and once each, the names that start with `prefix`.
pub open spec fn sorted_listing(c: Seq<Seq<char>>, names: Seq<Seq<char>>, prefix: Seq<char>) -> bool {
    &&& strictly_sorted(c)
    &&& forall|t: Seq<char>| #[trigger]
        c.contains(t) <==> names.contains(t) && prefix.is_prefix_of(t)
}

/// The builtin verbs that start with `p`, in lexicographic order.
pub open spec fn builtin_matches(p: Seq<char>) -> Seq<Seq<char>> {
    (if p.is_prefix_of("exit"@) {
        seq!["exit"@]
    } else {
        Seq::empty()
    }) + (if p.is_prefix_of("help"@) {
        seq!["help"@]
    } else {
        Seq::empty()
    }) + (if p.is_prefix_of("quit"@) {
        seq!["quit"@]
    } else {
        Seq::empty()
    })
}

/// Candidates for the first word: the sorted matching service names, then
/// the sorted matching builtin verbs.
pub open spec fn first_word_listing(c: Seq<Seq<char>>, cat: Seq<ServiceModel>, p: Seq<char>) -> bool {
    let b = builtin_matches(p);
    &&& c.len() >= b.len()
    &&& c.skip(c.len() - b.len()) == b
    &&& sorted_listing(c.take(c.len() - b.len()), service_names(cat), p)
}

/// The token `k` of `t`, or the empty text when there is none.
pub open spec fn token_or_empty(t: Seq<Seq<char>>, k: int) -> Seq<char> {
    if 0 <= k < t.len() {
        t[k]
    } else {
        Seq::empty()
    }
}

/// Completion at an argument position: `t` has the service and command as
/// its first two tokens.
pub open spec fn arg_completion(cat: Seq<ServiceModel>, t: Seq<Seq<char>>, ws: bool, pos: int) -> CompletionModel {
    let idx = if ws {
        t.len() - 2
    } else {
        t.len() - 3
    };
    let p = if ws {
        Seq::empty()
    } else {
        t.last()
    };
    if t.len() >= 2 && lookup_args(cat, t[0], t[1]) is Some {
        let args = lookup_args(cat, t[0], t[1])->0;
        if 0 <= idx < args.len() && args[idx].completer.len() > 0 {
            match split_completer(args[idx].completer) {
                Some((svc, cmd)) => CompletionModel::Remote(pos - p.len(), p, svc, cmd),
                None => CompletionModel::Ready(pos - p.len(), Seq::empty()),
            }
        } else {
            CompletionModel::Ready(pos, Seq::empty())
        }
    } else {
        CompletionModel::Ready(pos, Seq::empty())
    }
}

/// `out` is the completion of `line` with the cursor at `pos`.
pub open spec fn completes(cat: Seq<ServiceModel>, line: Seq<char>, pos: int, out: CompletionModel) -> bool {
    let s = line.subrange(0, pos);
    let t = tokens(s);
    let ws = ends_in_space(s);
    let second = t.len() == 1 || (t.len() == 2 && !ws);
    if t.len() == 0 || (t.len() == 1 && !ws) {
        let p = token_or_empty(t, 0);
        out matches CompletionModel::Ready(start, c) && start == pos - p.len()
            && first_word_listing(c, cat, p)
    } else if second && t[0] == "help"@ {
        let p = token_or_empty(t, 1);
        out matches CompletionModel::Ready(start, c) && start == pos - p.len() && sorted_listing(
            c,
            service_names(cat),
            p,
        )
    } else if second && lookup_service(cat, t[0]) is Some {
        let p = token_or_empty(t, 1);
        out matches CompletionModel::Ready(start, c) && start == pos - p.len() && sorted_listing(
            c,
            command_names(lookup_service(cat, t[0])->0.commands),
            p,
        )
    } else {
        out == arg_completion(cat, t, ws, pos)
    }
}

/// The placeholders `<label>` of the arguments, separated by single spaces.
pub open spec fn labels_text(a: Seq<ArgModel>) -> Seq<char>
    decreases a.len(),
{
    if a.len() == 0 {
        Seq::empty()
    } else if a.len() == 1 {
        "<"@ + arg_label(a[0]) + ">"@
    } else {
        labels_text(a.drop_last()) + " "@ + ("<"@ + arg_label(a.last()) + ">"@)
    }
}

/// The inline hint for `line` with the cursor at `pos`: the placeholders of
/// the arguments not yet typed, after a space when the cursor is still on a
/// token; none before the command is fixed or once every argument is typed.
pub open spec fn hint_text(cat: Seq<ServiceModel>, line: Seq<char>, pos: int) -> Option<Seq<char>> {
    let s = line.subrange(0, pos);
    let t = tokens(s);
    if t.len() < 2 {
        None
    } else {
        match lookup_args(cat, t[0], t[1]) {
            None => None,
            Some(args) => if t.len() - 2 >= args.len() {
                None
            } else {
                let body = labels_text(args.skip(t.len() - 2));
                Some(
                    if ends_in_space(s) {
                        body
                    } else {
                        " "@ + body
                    },
                )
            },
        }
    }
}

/// `s.take(i + 1)` holds what `s.take(i)` holds and `s[i]`.
proof fn lemma_take_contains<A>(s: Seq<A>, i: int, x: A)
    requires
        0 <= i < s.len(),
    ensures
        s.take(i + 1).contains(x) <==> s.take(i).contains(x) || s[i] == x,
{
    if s.take(i + 1).contains(x) {
        let k = choose|k: int| 0 <= k < i + 1 && #[trigger] s.take(i + 1)[k] == x;
        if k < i {
            assert(s.take(i)[k] == x);
        }
    }
    if s.take(i).contains(x) {
        let k = choose|k: int| 0 <= k < i && #[trigger] s.take(i)[k] == x;
        assert(s.take(i + 1)[k] == x);
    }
    if s[i] == x {
        assert(s.take(i + 1)[i] == x);
    }
}

/// The names that start with `prefix`, sorted, each once.
pub fn sorted_matches(names: &Vec<String>, prefix: &str) -> (r: Vec<String>)
    ensures
        sorted_listing(texts(r@), texts(names@), prefix@),
{
    let ghost all = texts(names@);
    let mut r: Vec<String> = Vec::new();
    let mut i: usize = 0;
    while i < names.len()
        invariant
            all == texts(names@),
            i <= names@.len(),
            strictly_sorted(texts(r@)),
            forall|t: Seq<char>| #[trigger]
                texts(r@).contains(t) <==> all.take(i as int).contains(t) && prefix@.is_prefix_of(t),
        decreases names@.len() - i,
    {
        let ghost before = texts(r@);
        let name = &names[i];
        proof {
            assert(all[i as int] == name@);
            assert forall|t: Seq<char>| #[trigger]
                all.take(i + 1).contains(t) <==> all.take(i as int).contains(t) || all[i as int] == t by {
                lemma_take_contains(all, i as int, t);
            }
        }
        if has_prefix(name.as_str(), prefix) {
            insert_sorted(&mut r, name.clone());
        }
        i = i + 1;
    }
    assert(all.take(names@.len() as int) =~= all);
    r
}

/// The builtin verbs that start with `prefix`.
pub fn builtin_candidates(prefix: &str) -> (r: Vec<String>)
    ensures
        texts(r@) == builtin_matches(prefix@),
{
    let mut r: Vec<String> = Vec::new();
    let ghost b0 = if prefix@.is_prefix_of("exit"@) {
        seq!["exit"@]
    } else {
        Seq::<Seq<char>>::empty()
    };
    let ghost b1 = if prefix@.is_prefix_of("help"@) {
        seq!["help"@]
    } else {
        Seq::<Seq<char>>::empty()
    };
    let ghost b2 = if prefix@.is_prefix_of("quit"@) {
        seq!["quit"@]
    } else {
        Seq::<Seq<char>>::empty()
    };
    if has_prefix("exit", prefix) {
        r.push("exit".to_owned());
    }
    assert(texts(r@) =~= b0);
    if has_prefix("help", prefix) {
        r.push("help".to_owned());
    }
    assert(texts(r@) =~= b0 + b1);
    if has_prefix("quit", prefix) {
        r.push("quit".to_owned());
    }
    assert(texts(r@) =~= b0 + b1 + b2);
    r
}

/// Whether the text ends in whitespace.
pub fn ends_with_space(s: &str) -> (r: bool)
    ensures
        r == ends_in_space(s@),
{
    let n = s.unicode_len();
    n > 0 && char_is_space(s.get_char(n - 1))
}

/// Nothing to offer; the text from `start` to the cursor stays.
fn no_candidates(start: usize) -> (r: Completion)
    ensures
        r@ == CompletionModel::Ready(start as int, Seq::empty()),
{
    let none: Vec<String> = Vec::new();
    assert(texts(none@) =~= Seq::<Seq<char>>::empty());
    Completion::Ready { start, candidates: none }
}

/// The parsed catalog, cached read-only by the client for the session.
pub struct CompletionEngine {
    services: Vec<ServiceInfo>,
}

impl CompletionEngine {
    pub closed spec fn spec_catalog(&self) -> Seq<ServiceModel> {
        service_models(self.services@)
    }

    /// Keeps the catalog fetched at connection time.
    pub fn from_services(services: Vec<ServiceInfo>) -> (r: Self)
        ensures
            r.spec_catalog() == service_models(services@),
    {
        CompletionEngine { services }
    }

    /// The names of the catalog's services, in catalog order.
    fn service_name_list(&self) -> (r: Vec<String>)
        ensures
            texts(r@) == service_names(self.spec_catalog()),
    {
        let mut r: Vec<String> = Vec::new();
        let mut i: usize = 0;
        while i < self.services.len()
            invariant
                i <= self.services@.len(),
                r@.len() == i,
                forall|j: int| 0 <= j < i ==> #[trigger] r@[j]@ == self.services@[j].name@,
            decreases self.services@.len() - i,
        {
            r.push(self.services[i].name.clone());
            i = i + 1;
        }
        assert(texts(r@) =~= service_names(self.spec_catalog()));
        r
    }

    /// Candidates for the first word: services, then builtin verbs.
    fn first_word(&self, prefix: &str) -> (r: Vec<String>)
        ensures
            first_word_listing(texts(r@), self.spec_catalog(), prefix@),
    {
        let mut r = sorted_matches(&self.service_name_list(), prefix);
        let ghost head = texts(r@);
        let mut b = builtin_candidates(prefix);
        let ghost tail = texts(b@);
        r.append(&mut b);
        assert(texts(r@) =~= head + tail);
        assert(texts(r@).skip(texts(r@).len() - tail.len()) =~= tail);
        assert(texts(r@).take(texts(r@).len() - tail.len()) =~= head);
        r
    }

    /// Completion at an argument position, once service and command are
    /// typed.
    fn complete_argument(&self, parts: &Vec<String>, ws: bool, pos: usize) -> (r: Completion)
        requires
            forall|k: int| 0 <= k < parts@.len() ==> #[trigger] parts@[k]@.len() <= pos,
        ensures
            r@ == arg_completion(self.spec_catalog(), texts(parts@), ws, pos as int),
    {
        let ghost t = texts(parts@);
        let ghost cat = self.spec_catalog();
        let n = parts.len();
        if n < 2 {
            return no_candidates(pos);
        }
        assert(t[0] == parts@[0]@ && t[1] == parts@[1]@);
        let i = match find_service(self.services.as_slice(), parts[0].as_str()) {
            Some(i) => i,
            None => {
                return no_candidates(pos);
            },
        };
        let commands = &self.services[i].commands;
        let j = match find_command(commands, parts[1].as_str()) {
            Some(j) => j,
            None => {
                return no_candidates(pos);
            },
        };
        let args = &commands[j].args;
        assert(lookup_args(cat, t[0], t[1]) == Some(arg_models(args@)));
        if !ws && n < 3 {
            return no_candidates(pos);
        }
        let idx = if ws {
            n - 2
        } else {
            n - 3
        };
        if idx >= args.len() || args[idx].completer.as_str().unicode_len() == 0 {
            return no_candidates(pos);
        }
        proof {
            reveal_strlit("");
        }
        let prefix: &str = if ws {
            ""
        } else {
            parts[n - 1].as_str()
        };
        assert(prefix@ == (if ws {
            Seq::<char>::empty()
        } else {
            t.last()
        }));
        let start = pos - prefix.unicode_len();
        assert(arg_models(args@)[idx as int] == args@[idx as int]@);
        match split_reference(args[idx].completer.as_str()) {
            Some((service, command)) => Completion::Remote {
                start,
                prefix: prefix.to_owned(),
                service,
                command,
            },
            None => no_candidates(start),
        }
    }

    /// Completes the token under the cursor; `pos` counts characters.
    pub fn complete(&self, line: &str, pos: usize) -> (r: Completion)
        requires
            pos <= line@.len(),
        ensures
            completes(self.spec_catalog(), line@, pos as int, r@),
    {
        let s = line.substring_char(0, pos);
        let parts = split_whitespace(s);
        let ws = ends_with_space(s);
        let n = parts.len();
        let ghost t = texts(parts@);
        proof {
            reveal_strlit("");
            lemma_spans_bounds(s@);
            assert(t == tokens(s@));
            assert(t.len() == parts@.len());
            assert(tokens(s@).len() == crate::text::spans(s@).len());
            assert forall|k: int| 0 <= k < parts@.len() implies #[trigger] parts@[k]@.len()
                <= pos by {
                assert(t[k] == parts@[k]@);
                assert(tokens(s@)[k] == s@.subrange(
                    crate::text::spans(s@)[k].0,
                    crate::text::spans(s@)[k].1,
                ));
                assert(0 <= crate::text::spans(s@)[k].0 < crate::text::spans(s@)[k].1 <= s@.len());
            }
        }
        if n == 0 || (n == 1 && !ws) {
            let prefix: &str = if n == 0 {
                ""
            } else {
                parts[0].as_str()
            };
            assert(prefix@ == token_or_empty(t, 0));
            let start = pos - prefix.unicode_len();
            return Completion::Ready { start, candidates: self.first_word(prefix) };
        }
        let second = n == 1 || (n == 2 && !ws);
        if second && same_text(parts[0].as_str(), "help") {
            let prefix: &str = if n == 2 {
                parts[1].as_str()
            } else {
                ""
            };
            assert(prefix@ == token_or_empty(t, 1));
            let start = pos - prefix.unicode_len();
            let names = self.service_name_list();
            return Completion::Ready { start, candidates: sorted_matches(&names, prefix) };
        }
        if second {
            if let Some(i) = find_service(self.services.as_slice(), parts[0].as_str()) {
                let prefix: &str = if n == 2 {
                    parts[1].as_str()
                } else {
                    ""
                };
                assert(prefix@ == token_or_empty(t, 1));
                let start = pos - prefix.unicode_len();
                let names = command_name_list(&self.services[i].commands);
                return Completion::Ready { start, candidates: sorted_matches(&names, prefix) };
            }
        }
        self.complete_argument(&parts, ws, pos)
    }

    /// The inline hint of the arguments still to type; `pos` counts
    /// characters.
    pub fn hint(&self, line: &str, pos: usize) -> (r: Option<String>)
        requires
            pos <= line@.len(),
        ensures
            match r {
                Some(h) => hint_text(self.spec_catalog(), line@, pos as int) == Some(h@),
                None => hint_text(self.spec_catalog(), line@, pos as int) is None,
            },
    {
        let s = line.substring_char(0, pos);
        let parts = split_whitespace(s);
        let n = parts.len();
        let ghost t = texts(parts@);
        let ghost cat = self.spec_catalog();
        if n < 2 {
            return None;
        }
        assert(t[0] == parts@[0]@ && t[1] == parts@[1]@);
        let i = match find_service(self.services.as_slice(), parts[0].as_str()) {
            Some(i) => i,
            None => {
                return None;
            },
        };
        let commands = &self.services[i].commands;
        let j = match find_command(commands, parts[1].as_str()) {
            Some(j) => j,
            None => {
                return None;
            },
        };
        let args = &commands[j].args;
        let ghost models = arg_models(args@);
        assert(lookup_args(cat, t[0], t[1]) == Some(models));
        let typed = n - 2;
        if typed >= args.len() {
            return None;
        }
        let mut out = if ends_with_space(s) {
            String::new()
        } else {
            String::from_str(" ")
        };
        push_labels_from(&mut out, args, typed);
        Some(out)
    }
}

/// Appends the placeholders of `args[from..]` to `out`.
pub fn push_labels_from(out: &mut String, args: &Vec<ArgInfo>, from: usize)
    requires
        from <= args@.len(),
    ensures
        final(out)@ == old(out)@ + labels_text(arg_models(args@).skip(from as int)),
{
    let ghost models = arg_models(args@);
    let ghost lead = out@;
    let mut k: usize = from;
    assert(models.subrange(from as int, from as int) =~= Seq::<ArgModel>::empty());
    assert(lead + Seq::<char>::empty() =~= lead);
    while k < args.len()
        invariant
            models == arg_models(args@),
            from <= k <= args@.len(),
            out@ == lead + labels_text(models.subrange(from as int, k as int)),
        decreases args@.len() - k,
    {
        let ghost part = models.subrange(from as int, k + 1);
        assert(part.drop_last() =~= models.subrange(from as int, k as int));
        assert(part.last() == args@[k as int]@);
        if k > from {
            out.append(" ");
        }
        out.append("<");
        out.append(args[k].label());
        out.append(">");
        proof {
            if k > from {
                assert(out@ =~= lead + (labels_text(part.drop_last()) + " "@ + ("<"@ + arg_label(
                    part.last(),
                ) + ">"@)));
            } else {
                assert(part.len() == 1 && part[0] == part.last());
                assert(out@ =~= lead + ("<"@ + arg_label(part[0]) + ">"@));
            }
        }
        k = k + 1;
    }
    assert(models.subrange(from as int, args@.len() as int) =~= models.skip(from as int));
}

/// The names of a service's commands, in declaration order.
fn command_name_list(commands: &Vec<CommandInfo>) -> (r: Vec<String>)
    ensures
        texts(r@) == command_names(crate::catalog::command_models(commands@)),
{
    let mut r: Vec<String> = Vec::new();
    let mut i: usize = 0;
    while i < commands.len()
        invariant
            i <= commands@.len(),
            r@.len() == i,
            forall|j: int| 0 <= j < i ==> #[trigger] r@[j]@ == commands@[j].name@,
        decreases commands@.len() - i,
    {
        r.push(commands[i].name.clone());
        i = i + 1;
    }
    assert(texts(r@) =~= command_names(crate::catalog::command_models(commands@)));
    r
}

} // verus!
