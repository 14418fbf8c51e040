use libnexus::completion::{Completion, CompletionEngine};
use libnexus::remote::{matching_candidates, remote_candidates, split_reference};
use libnexus::services::{Block, Pool, Volume};
use libnexus::{CommandResponse, NexusServer};

fn engine() -> CompletionEngine {
    let server = NexusServer::new().register(Volume).register(Pool).register(Block);
    CompletionEngine::from_services(server.list_services())
}

fn ready(c: Completion) -> (usize, Vec<String>) {
    match c {
        Completion::Ready { start, candidates } => (start, candidates),
        other => panic!("expected local candidates, got {:?}", other),
    }
}

fn at_end(e: &CompletionEngine, line: &str) -> Completion {
    e.complete(line, line.chars().count())
}

#[test]
fn first_word_prefix_selects_services() {
    let (start, c) = ready(at_end(&engine(), "vol"));
    assert_eq!(start, 0);
    assert!(c.contains(&"volume".to_string()));
    assert!(!c.contains(&"pool".to_string()));
    assert!(!c.contains(&"block".to_string()));
    assert_eq!(c, vec!["volume".to_string()]);
}

#[test]
fn empty_line_lists_services_then_builtins() {
    let (start, c) = ready(at_end(&engine(), ""));
    assert_eq!(start, 0);
    assert_eq!(c, vec!["block", "pool", "volume", "exit", "help", "quit"]);
}

#[test]
fn first_word_matches_builtins() {
    assert_eq!(ready(at_end(&engine(), "q")).1, vec!["quit"]);
    assert_eq!(ready(at_end(&engine(), "he")).1, vec!["help"]);
    assert_eq!(ready(at_end(&engine(), "  e")), (2, vec!["exit".to_string()]));
    assert!(ready(at_end(&engine(), "zz")).1.is_empty());
}

#[test]
fn help_second_word_completes_services_only() {
    assert_eq!(ready(at_end(&engine(), "help ")), (5, vec!["block".to_string(), "pool".to_string(), "volume".to_string()]));
    assert_eq!(ready(at_end(&engine(), "help p")), (5, vec!["pool".to_string()]));
}

#[test]
fn second_word_completes_commands_sorted() {
    assert_eq!(ready(at_end(&engine(), "volume ")), (7, vec!["create".to_string(), "delete".to_string(), "list".to_string()]));
    assert_eq!(ready(at_end(&engine(), "volume d")), (7, vec!["delete".to_string()]));
    assert_eq!(ready(at_end(&engine(), "nosuch ")), (7, vec![]));
}

#[test]
fn argument_with_completer_asks_remote() {
    let e = engine();
    let c = at_end(&e, "volume create myvol sd");
    assert_eq!(
        c,
        Completion::Remote { start: 20, prefix: "sd".to_string(), service: "block".to_string(), command: "list".to_string() }
    );
    let c = at_end(&e, "volume create myvol ");
    assert_eq!(
        c,
        Completion::Remote { start: 20, prefix: String::new(), service: "block".to_string(), command: "list".to_string() }
    );
}

#[test]
fn argument_without_completer_has_no_candidates() {
    let e = engine();
    assert_eq!(ready(at_end(&e, "volume create my")), (16, vec![]));
    assert_eq!(ready(at_end(&e, "volume create a b ")), (18, vec![]));
    assert_eq!(ready(at_end(&e, "pool create ")), (12, vec![]));
}

#[test]
fn cursor_inside_line_uses_text_before_it() {
    let e = engine();
    let (start, c) = ready(e.complete("vol create", 3));
    assert_eq!(start, 0);
    assert_eq!(c, vec!["volume"]);
}

#[test]
fn remote_reply_yields_matching_values() {
    let reply = CommandResponse { success: true, message: "sda, sdb, sdc".to_string() };
    assert_eq!(remote_candidates(Some(&reply), "sd"), vec!["sda", "sdb", "sdc"]);
    let block = CommandResponse { success: true, message: Block.list() };
    assert_eq!(remote_candidates(Some(&block), "sd"), vec!["sda", "sdb", "sdc"]);
    assert_eq!(remote_candidates(Some(&block), ""), vec!["sda", "sdb", "sdc", "nvme0n1"]);
}

#[test]
fn unreachable_completer_yields_nothing() {
    assert!(remote_candidates(None, "sd").is_empty());
    let failed = CommandResponse { success: false, message: "unknown service 'blk'".to_string() };
    assert!(remote_candidates(Some(&failed), "").is_empty());
}

#[test]
fn reply_values_are_trimmed_and_empties_dropped() {
    assert_eq!(matching_candidates(" a ,, b,\tc ,", ""), vec!["a", "b", "c"]);
    assert_eq!(matching_candidates("x1, y1, x2", "x"), vec!["x1", "x2"]);
    assert!(matching_candidates("", "").is_empty());
}

#[test]
fn completer_reference_splits_on_first_dot() {
    assert_eq!(split_reference("block.list"), Some(("block".to_string(), "list".to_string())));
    assert_eq!(split_reference("a.b.c"), Some(("a".to_string(), "b.c".to_string())));
    assert_eq!(split_reference("nodot"), None);
}

#[test]
fn hint_shows_remaining_arguments() {
    let e = engine();
    let line = "volume create ";
    assert_eq!(e.hint(line, line.len()), Some("<volume name> <device>".to_string()));
    let line = "volume create myvol ";
    assert_eq!(e.hint(line, line.len()), Some("<device>".to_string()));
    let line = "volume create myvol";
    assert_eq!(e.hint(line, line.len()), Some(" <device>".to_string()));
    let line = "volume create myvol sda ";
    assert_eq!(e.hint(line, line.len()), None);
}

#[test]
fn hint_needs_service_and_command() {
    let e = engine();
    assert_eq!(e.hint("volume", 6), None);
    assert_eq!(e.hint("volume resize ", 14), None);
    assert_eq!(e.hint("block list ", 11), None);
    assert_eq!(e.hint("block info", 10), Some(" <device>".to_string()));
}
