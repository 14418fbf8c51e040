//! The text of the shell's `help` and `help <service>` builtins, one line
//! per element.
use vstd::prelude::*;
use vstd::string::{StrSliceExecFns, StringExecFns};

use crate::catalog::{
    arg_label, arg_models, command_models, find_service, lemma_lookup_service, lookup_service,
    service_models, ArgInfo, ArgModel, CommandInfo, CommandModel, ServiceInfo, ServiceModel,
};
use crate::completion::{labels_text, push_labels_from};
use crate::text::texts;

verus! {

/// `": " + d`, or only `":"` when `d` is empty.
pub open spec fn colon_description(d: Seq<char>) -> Seq<char> {
    if d.len() == 0 {
        ":"@
    } else {
        ": "@ + d
    }
}

/// The line of a command in the overview.
pub open spec fn overview_command_line(c: CommandModel) -> Seq<char> {
    "    "@ + c.name + " "@ + labels_text(c.args) + (if c.description.len() == 0 {
        Seq::empty()
    } else {
        " - "@ + c.description
    })
}

/// The lines of a service in the overview: its name, then one line per
/// command.
pub open spec fn overview_service_lines(s: ServiceModel) -> Seq<Seq<char>> {
    seq!["  "@ + s.name + colon_description(s.description)] + s.commands.map_values(
        |c: CommandModel| overview_command_line(c),
    )
}

/// The lines that `help` prints.
pub open spec fn overview_lines(cat: Seq<ServiceModel>) -> Seq<Seq<char>>
    decreases cat.len(),
{
    if cat.len() == 0 {
        seq!["Available commands:"@]
    } else {
        overview_lines(cat.drop_last()) + overview_service_lines(cat.last())
    }
}

/// The note on an argument in a service's detail: its label, description
/// and completer, when it has a description or a completer.
pub open spec fn arg_note_lines(a: ArgModel) -> Seq<Seq<char>> {
    if a.description.len() == 0 && a.completer.len() == 0 {
        Seq::empty()
    } else {
        seq![
            "    <"@ + arg_label(a) + ">"@ + (if a.description.len() == 0 {
                Seq::empty()
            } else {
                " - "@ + a.description
            }) + (if a.completer.len() == 0 {
                Seq::empty()
            } else {
                " - (completions from "@ + a.completer + ")"@
            }),
        ]
    }
}

pub open spec fn arg_notes(a: Seq<ArgModel>) -> Seq<Seq<char>>
    decreases a.len(),
{
    if a.len() == 0 {
        Seq::empty()
    } else {
        arg_notes(a.drop_last()) + arg_note_lines(a.last())
    }
}

/// The lines of a command in a service's detail.
pub open spec fn detail_command_lines(c: CommandModel) -> Seq<Seq<char>> {
    seq!["  "@ + c.name + " "@ + labels_text(c.args)] + (if c.description.len() == 0 {
        Seq::empty()
    } else {
        seq!["    "@ + c.description]
    }) + arg_notes(c.args) + seq![Seq::empty()]
}

pub open spec fn detail_commands(c: Seq<CommandModel>) -> Seq<Seq<char>>
    decreases c.len(),
{
    if c.len() == 0 {
        Seq::empty()
    } else {
        detail_commands(c.drop_last()) + detail_command_lines(c.last())
    }
}

/// The lines that `help <name>` prints.
pub open spec fn detail_lines(cat: Seq<ServiceModel>, name: Seq<char>) -> Seq<Seq<char>> {
    match lookup_service(cat, name) {
        None => seq!["Unknown service '"@ + name + "'. Type 'help' to list all services."@],
        Some(s) => seq![s.name + colon_description(s.description), Seq::empty()] + detail_commands(
            s.commands,
        ),
    }
}

/// `x` stands verbatim somewhere in `line`.
pub open spec fn occurs_in(x: Seq<char>, line: Seq<char>) -> bool {
    exists|k: int| 0 <= k && k + x.len() <= line.len() && #[trigger] line.subrange(k, k + x.len()) == x
}

/// `x` stands verbatim in one of the `lines`.
pub open spec fn shown_in(x: Seq<char>, lines: Seq<Seq<char>>) -> bool {
    exists|i: int| 0 <= i < lines.len() && occurs_in(x, #[trigger] lines[i])
}

proof fn lemma_occurs_between(p: Seq<char>, x: Seq<char>, q: Seq<char>)
    ensures
        occurs_in(x, p + x + q),
{
    assert((p + x + q).subrange(p.len() as int, (p.len() + x.len()) as int) =~= x);
}

proof fn lemma_occurs_transitive(x: Seq<char>, y: Seq<char>, z: Seq<char>)
    requires
        occurs_in(x, y),
        occurs_in(y, z),
    ensures
        occurs_in(x, z),
{
    let k1 = choose|k: int| 0 <= k && k + x.len() <= y.len() && #[trigger] y.subrange(k, k + x.len()) == x;
    let k2 = choose|k: int| 0 <= k && k + y.len() <= z.len() && #[trigger] z.subrange(k, k + y.len()) == y;
    assert(z.subrange(k2 + k1, k2 + k1 + x.len()) =~= y.subrange(k1, k1 + x.len()));
}

proof fn lemma_empty_occurs(x: Seq<char>, line: Seq<char>)
    requires
        x.len() == 0,
    ensures
        occurs_in(x, line),
{
    let k: int = 0;
    assert(line.subrange(k, k + x.len()) =~= x);
}

/// The placeholder line shows every argument's label.
proof fn lemma_labels_show_each(a: Seq<ArgModel>, k: int)
    requires
        0 <= k < a.len(),
    ensures
        occurs_in(arg_label(a[k]), labels_text(a)),
    decreases a.len(),
{
    let l = arg_label(a[k]);
    if a.len() == 1 {
        lemma_occurs_between("<"@, l, ">"@);
    } else if k == a.len() - 1 {
        lemma_occurs_between(labels_text(a.drop_last()) + " "@ + "<"@, l, ">"@);
        assert(labels_text(a.drop_last()) + " "@ + "<"@ + l + ">"@ =~= labels_text(a));
    } else {
        lemma_labels_show_each(a.drop_last(), k);
        assert(a.drop_last()[k] == a[k]);
        let rest = " "@ + ("<"@ + arg_label(a.last()) + ">"@);
        lemma_occurs_between(Seq::empty(), labels_text(a.drop_last()), rest);
        assert(Seq::<char>::empty() + labels_text(a.drop_last()) + rest =~= labels_text(a));
        lemma_occurs_transitive(l, labels_text(a.drop_last()), labels_text(a));
    }
}

/// Every note line of an argument stands among the notes of its command.
proof fn lemma_arg_notes_contain(a: Seq<ArgModel>, k: int, m: int)
    requires
        0 <= k < a.len(),
        0 <= m < arg_note_lines(a[k]).len(),
    ensures
        arg_notes(a).contains(arg_note_lines(a[k])[m]),
    decreases a.len(),
{
    let prev = arg_notes(a.drop_last());
    let last = arg_note_lines(a.last());
    assert(arg_notes(a) == prev + last);
    if k == a.len() - 1 {
        assert((prev + last)[prev.len() + m] == last[m]);
    } else {
        assert(a.drop_last()[k] == a[k]);
        lemma_arg_notes_contain(a.drop_last(), k, m);
        let i = choose|i: int| 0 <= i < prev.len() && prev[i] == arg_note_lines(a[k])[m];
        assert((prev + last)[i] == prev[i]);
    }
}

/// Every detail line of a command stands among the details of its service.
proof fn lemma_detail_commands_contain(c: Seq<CommandModel>, j: int, m: int)
    requires
        0 <= j < c.len(),
        0 <= m < detail_command_lines(c[j]).len(),
    ensures
        detail_commands(c).contains(detail_command_lines(c[j])[m]),
    decreases c.len(),
{
    let prev = detail_commands(c.drop_last());
    let last = detail_command_lines(c.last());
    assert(detail_commands(c) == prev + last);
    if j == c.len() - 1 {
        assert((prev + last)[prev.len() + m] == last[m]);
    } else {
        assert(c.drop_last()[j] == c[j]);
        lemma_detail_commands_contain(c.drop_last(), j, m);
        let i = choose|i: int| 0 <= i < prev.len() && prev[i] == detail_command_lines(c[j])[m];
        assert((prev + last)[i] == prev[i]);
    }
}

/// A line of `lines` that shows `x` makes `x` shown in `lines`.
proof fn lemma_shown_by(x: Seq<char>, lines: Seq<Seq<char>>, line: Seq<char>)
    requires
        lines.contains(line),
        occurs_in(x, line),
    ensures
        shown_in(x, lines),
{
    let i = choose|i: int| 0 <= i < lines.len() && lines[i] == line;
    assert(occurs_in(x, lines[i]));
}

/// What `help <name>` prints for a service of the catalog shows each of
/// the command's texts verbatim.
proof fn lemma_command_shown(s: ServiceModel, j: int)
    requires
        0 <= j < s.commands.len(),
    ensures
        ({
            let lines = seq![s.name + colon_description(s.description), Seq::empty()]
                + detail_commands(s.commands);
            let c = s.commands[j];
            &&& shown_in(c.name, lines)
            &&& shown_in(c.description, lines)
            &&& forall|k: int|
                0 <= k < c.args.len() ==> {
                    &&& shown_in(arg_label(#[trigger] c.args[k]), lines)
                    &&& shown_in(c.args[k].description, lines)
                    &&& shown_in(c.args[k].completer, lines)
                }
        }),
{
    let head = seq![s.name + colon_description(s.description), Seq::<char>::empty()];
    let body = detail_commands(s.commands);
    let lines = head + body;
    let c = s.commands[j];
    let dl = detail_command_lines(c);
    assert forall|m: int| 0 <= m < dl.len() implies lines.contains(#[trigger] dl[m]) by {
        lemma_detail_commands_contain(s.commands, j, m);
        let i = choose|i: int| 0 <= i < body.len() && body[i] == dl[m];
        assert(lines[head.len() + i] == body[i]);
    }
    let first = "  "@ + c.name + " "@ + labels_text(c.args);
    assert(dl[0] == first);
    lemma_occurs_between("  "@, c.name, " "@ + labels_text(c.args));
    assert("  "@ + c.name + (" "@ + labels_text(c.args)) =~= first);
    lemma_shown_by(c.name, lines, first);
    if c.description.len() == 0 {
        lemma_empty_occurs(c.description, first);
        lemma_shown_by(c.description, lines, first);
    } else {
        assert(dl[1] == "    "@ + c.description);
        lemma_occurs_between("    "@, c.description, Seq::empty());
        assert("    "@ + c.description + Seq::<char>::empty() =~= "    "@ + c.description);
        lemma_shown_by(c.description, lines, dl[1]);
    }
    let desc_lines: Seq<Seq<char>> = if c.description.len() == 0 {
        Seq::empty()
    } else {
        seq!["    "@ + c.description]
    };
    assert forall|k: int| 0 <= k < c.args.len() implies {
        &&& shown_in(arg_label(#[trigger] c.args[k]), lines)
        &&& shown_in(c.args[k].description, lines)
        &&& shown_in(c.args[k].completer, lines)
    } by {
        let a = c.args[k];
        lemma_labels_show_each(c.args, k);
        lemma_occurs_between("  "@ + c.name + " "@, labels_text(c.args), Seq::empty());
        assert("  "@ + c.name + " "@ + labels_text(c.args) + Seq::<char>::empty() =~= first);
        lemma_occurs_transitive(arg_label(a), labels_text(c.args), first);
        lemma_shown_by(arg_label(a), lines, first);
        if a.description.len() == 0 && a.completer.len() == 0 {
            lemma_empty_occurs(a.description, first);
            lemma_empty_occurs(a.completer, first);
            lemma_shown_by(a.description, lines, first);
            lemma_shown_by(a.completer, lines, first);
        } else {
            let note = arg_note_lines(a)[0];
            lemma_arg_notes_contain(c.args, k, 0);
            let notes = arg_notes(c.args);
            let i = choose|i: int| 0 <= i < notes.len() && notes[i] == note;
            let pre = seq![first] + desc_lines;
            assert(dl =~= pre + notes + seq![Seq::<char>::empty()]);
            assert(dl[pre.len() + i] == note);
            assert(lines.contains(note)) by {
                assert(lines.contains(dl[pre.len() + i]));
            }
            let lead = "    <"@ + arg_label(a) + ">"@;
            let d_part = if a.description.len() == 0 {
                Seq::<char>::empty()
            } else {
                " - "@ + a.description
            };
            let c_part = if a.completer.len() == 0 {
                Seq::<char>::empty()
            } else {
                " - (completions from "@ + a.completer + ")"@
            };
            assert(note == lead + d_part + c_part);
            if a.description.len() == 0 {
                lemma_empty_occurs(a.description, note);
            } else {
                lemma_occurs_between(lead + " - "@, a.description, c_part);
                assert(lead + " - "@ + a.description + c_part =~= note);
            }
            lemma_shown_by(a.description, lines, note);
            if a.completer.len() == 0 {
                lemma_empty_occurs(a.completer, note);
            } else {
                lemma_occurs_between(lead + d_part + " - (completions from "@, a.completer, ")"@);
                assert(lead + d_part + " - (completions from "@ + a.completer + ")"@ =~= note);
            }
            lemma_shown_by(a.completer, lines, note);
        }
    }
}

/// Rendering a catalog whose services have distinct names with
/// `help <service>` loses nothing: the detail of each service shows its name
/// and description, and every command's name and description and every
/// argument's label (its hint, or its name when the hint is empty),
/// description and completer, each verbatim.
pub proof fn service_help_shows_every_text(cat: Seq<ServiceModel>, i: int)
    requires
        0 <= i < cat.len(),
        forall|a: int, b: int|
            0 <= a < b < cat.len() ==> #[trigger] cat[a].name != #[trigger] cat[b].name,
    ensures
        ({
            let lines = detail_lines(cat, cat[i].name);
            let s = cat[i];
            &&& shown_in(s.name, lines)
            &&& shown_in(s.description, lines)
            &&& forall|j: int|
                0 <= j < s.commands.len() ==> {
                    let c = #[trigger] s.commands[j];
                    &&& shown_in(c.name, lines)
                    &&& shown_in(c.description, lines)
                    &&& forall|k: int|
                        0 <= k < c.args.len() ==> {
                            &&& shown_in(arg_label(#[trigger] c.args[k]), lines)
                            &&& shown_in(c.args[k].description, lines)
                            &&& shown_in(c.args[k].completer, lines)
                        }
                }
        }),
{
    let s = cat[i];
    lemma_lookup_service(cat, s.name);
    let found = lookup_service(cat, s.name)->0;
    let w = choose|w: int| 0 <= w < cat.len() && lookup_service(cat, s.name) == Some(#[trigger] cat[w]) && cat[w].name == s.name;
    assert(w == i) by {
        if w < i {
            assert(cat[w].name != cat[i].name);
        } else if w > i {
            assert(cat[i].name != cat[w].name);
        }
    }
    let lines = detail_lines(cat, s.name);
    let line0 = s.name + colon_description(s.description);
    assert(lines[0] == line0);
    lemma_occurs_between(Seq::empty(), s.name, colon_description(s.description));
    assert(Seq::<char>::empty() + s.name + colon_description(s.description) =~= line0);
    assert(occurs_in(s.name, lines[0]));
    if s.description.len() == 0 {
        lemma_empty_occurs(s.description, line0);
    } else {
        lemma_occurs_between(s.name + ": "@, s.description, Seq::empty());
        assert(s.name + ": "@ + s.description + Seq::<char>::empty() =~= line0);
    }
    assert(occurs_in(s.description, lines[0]));
    assert forall|j: int| 0 <= j < s.commands.len() implies {
        let c = #[trigger] s.commands[j];
        &&& shown_in(c.name, lines)
        &&& shown_in(c.description, lines)
        &&& forall|k: int|
            0 <= k < c.args.len() ==> {
                &&& shown_in(arg_label(#[trigger] c.args[k]), lines)
                &&& shown_in(c.args[k].description, lines)
                &&& shown_in(c.args[k].completer, lines)
            }
    } by {
        lemma_command_shown(s, j);
    }
}

/// Appends `": " + d`, or `":"` when `d` is empty.
fn push_colon_description(out: &mut String, d: &str)
    ensures
        final(out)@ == old(out)@ + colon_description(d@),
{
    if d.unicode_len() == 0 {
        out.append(":");
    } else {
        out.append(": ");
        out.append(d);
        assert(final(out)@ =~= old(out)@ + colon_description(d@));
    }
}

/// The line of a command in the overview.
fn overview_command(c: &CommandInfo) -> (r: String)
    ensures
        r@ == overview_command_line(c@),
{
    let mut line = String::from_str("    ");
    line.append(c.name.as_str());
    line.append(" ");
    push_labels_from(&mut line, &c.args, 0);
    assert(arg_models(c.args@).skip(0) =~= arg_models(c.args@));
    if c.description.as_str().unicode_len() > 0 {
        line.append(" - ");
        line.append(c.description.as_str());
    }
    assert(line@ =~= overview_command_line(c@));
    line
}

/// The lines `help` prints: every service with its commands.
pub fn help_lines(services: &[ServiceInfo]) -> (r: Vec<String>)
    ensures
        texts(r@) == overview_lines(service_models(services@)),
{
    let ghost cat = service_models(services@);
    let mut r: Vec<String> = Vec::new();
    r.push(String::from_str("Available commands:"));
    let mut i: usize = 0;
    assert(cat.take(0) =~= Seq::<ServiceModel>::empty());
    assert(texts(r@) =~= overview_lines(cat.take(0)));
    while i < services.len()
        invariant
            cat == service_models(services@),
            i <= services@.len(),
            texts(r@) == overview_lines(cat.take(i as int)),
        decreases services@.len() - i,
    {
        let svc = &services[i];
        let ghost before = texts(r@);
        let mut head = String::from_str("  ");
        head.append(svc.name.as_str());
        push_colon_description(&mut head, svc.description.as_str());
        r.push(head);
        let ghost cmds = command_models(svc.commands@);
        let mut j: usize = 0;
        while j < svc.commands.len()
            invariant
                cmds == command_models(svc.commands@),
                j <= svc.commands@.len(),
                texts(r@) == before + seq![head@] + cmds.take(j as int).map_values(
                    |c: CommandModel| overview_command_line(c),
                ),
            decreases svc.commands@.len() - j,
        {
            let line = overview_command(&svc.commands[j]);
            let ghost prev = texts(r@);
            r.push(line);
            assert(texts(r@) =~= prev.push(line@));
            assert(cmds[j as int] == svc.commands@[j as int]@);
            assert(cmds.take(j + 1).map_values(|c: CommandModel| overview_command_line(c))
                =~= cmds.take(j as int).map_values(|c: CommandModel| overview_command_line(c)).push(
                line@,
            ));
            j = j + 1;
        }
        proof {
            assert(cmds.take(svc.commands@.len() as int) =~= cmds);
            assert(cat.take(i + 1).drop_last() =~= cat.take(i as int));
            assert(cat.take(i + 1).last() == svc@);
            assert(texts(r@) =~= overview_lines(cat.take(i as int)) + overview_service_lines(svc@));
        }
        i = i + 1;
    }
    assert(cat.take(services@.len() as int) =~= cat);
    r
}

/// The note on an argument, when it has a description or a completer.
fn push_arg_note(r: &mut Vec<String>, a: &ArgInfo)
    ensures
        texts(final(r)@) == texts(old(r)@) + arg_note_lines(a@),
{
    let has_desc = a.description.as_str().unicode_len() > 0;
    let has_comp = a.completer.as_str().unicode_len() > 0;
    if has_desc || has_comp {
        let mut line = String::from_str("    <");
        line.append(a.label());
        line.append(">");
        if has_desc {
            line.append(" - ");
            line.append(a.description.as_str());
        }
        if has_comp {
            line.append(" - (completions from ");
            line.append(a.completer.as_str());
            line.append(")");
        }
        assert(line@ =~= arg_note_lines(a@)[0]);
        let ghost prev = texts(r@);
        r.push(line);
        assert(texts(r@) =~= prev.push(line@));
        assert(texts(r@) =~= texts(old(r)@) + arg_note_lines(a@));
    } else {
        assert(texts(r@) =~= texts(old(r)@) + arg_note_lines(a@));
    }
}

/// The lines of a command in a service's detail.
#[verifier::rlimit(30)]
fn push_command_detail(r: &mut Vec<String>, c: &CommandInfo)
    ensures
        texts(final(r)@) == texts(old(r)@) + detail_command_lines(c@),
{
    let mut line = String::from_str("  ");
    line.append(c.name.as_str());
    line.append(" ");
    push_labels_from(&mut line, &c.args, 0);
    assert(arg_models(c.args@).skip(0) =~= arg_models(c.args@));
    let ghost first = seq!["  "@ + c@.name + " "@ + labels_text(c@.args)];
    assert(line@ =~= first[0]);
    let ghost desc = if c@.description.len() == 0 {
        Seq::<Seq<char>>::empty()
    } else {
        seq!["    "@ + c@.description]
    };
    r.push(line);
    assert(texts(r@) =~= texts(old(r)@) + first);
    if c.description.as_str().unicode_len() > 0 {
        let mut d = String::from_str("    ");
        d.append(c.description.as_str());
        let ghost prev = texts(r@);
        r.push(d);
        assert(texts(r@) =~= prev.push(d@));
    }
    assert(texts(r@) =~= texts(old(r)@) + first + desc);
    let ghost mid = texts(r@);
    let ghost args = arg_models(c.args@);
    let mut k: usize = 0;
    assert(args.take(0) =~= Seq::<ArgModel>::empty());
    assert(mid + arg_notes(args.take(0)) =~= mid);
    while k < c.args.len()
        invariant
            args == arg_models(c.args@),
            k <= c.args@.len(),
            texts(r@) == mid + arg_notes(args.take(k as int)),
        decreases c.args@.len() - k,
    {
        push_arg_note(r, &c.args[k]);
        assert(args.take(k + 1).drop_last() =~= args.take(k as int));
        assert(args.take(k + 1).last() == c.args@[k as int]@);
        assert(texts(r@) =~= mid + arg_notes(args.take(k + 1)));
        k = k + 1;
    }
    assert(args.take(c.args@.len() as int) =~= args);
    let ghost notes = texts(r@);
    r.push(String::new());
    assert(texts(r@) =~= notes.push(Seq::empty()));
    assert(texts(r@) =~= texts(old(r)@) + first + desc + arg_notes(c@.args) + seq![
        Seq::<char>::empty(),
    ]);
}

/// The lines `help <name>` prints: the first service of that name with each
/// command, its arguments' labels, descriptions and completers; or a notice
/// that no service has that name.
pub fn service_help_lines(services: &[ServiceInfo], name: &str) -> (r: Vec<String>)
    ensures
        texts(r@) == detail_lines(service_models(services@), name@),
{
    let mut r: Vec<String> = Vec::new();
    let i = match find_service(services, name) {
        Some(i) => i,
        None => {
            let mut line = String::from_str("Unknown service '");
            line.append(name);
            line.append("'. Type 'help' to list all services.");
            r.push(line);
            assert(texts(r@) =~= detail_lines(service_models(services@), name@));
            return r;
        },
    };
    let svc = &services[i];
    let mut head = svc.name.clone();
    push_colon_description(&mut head, svc.description.as_str());
    r.push(head);
    r.push(String::new());
    let ghost top = texts(r@);
    let ghost cmds = command_models(svc.commands@);
    let mut j: usize = 0;
    assert(cmds.take(0) =~= Seq::<CommandModel>::empty());
    assert(top + detail_commands(cmds.take(0)) =~= top);
    while j < svc.commands.len()
        invariant
            cmds == command_models(svc.commands@),
            j <= svc.commands@.len(),
            texts(r@) == top + detail_commands(cmds.take(j as int)),
        decreases svc.commands@.len() - j,
    {
        push_command_detail(&mut r, &svc.commands[j]);
        assert(cmds.take(j + 1).drop_last() =~= cmds.take(j as int));
        assert(cmds.take(j + 1).last() == svc.commands@[j as int]@);
        assert(texts(r@) =~= top + detail_commands(cmds.take(j + 1)));
        j = j + 1;
    }
    assert(cmds.take(svc.commands@.len() as int) =~= cmds);
    assert(texts(r@) =~= detail_lines(service_models(services@), name@));
    r
}

} // verus!
