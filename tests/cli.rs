use libnexus::cli::{interpret_line, listen_address, render_response, Endpoint, ShellStep};
use libnexus::{CommandResponse, NexusCli, DEFAULT_ENDPOINT};

#[test]
fn blank_lines_are_skipped() {
    assert_eq!(interpret_line(""), ShellStep::Skip);
    assert_eq!(interpret_line("   \t "), ShellStep::Skip);
}

#[test]
fn quit_and_exit_end_the_session() {
    assert_eq!(interpret_line("quit"), ShellStep::Quit);
    assert_eq!(interpret_line("  exit  "), ShellStep::Quit);
    assert_eq!(
        interpret_line("quit now"),
        ShellStep::Execute { service: "quit".to_string(), action: "now".to_string(), args: vec![] }
    );
}

#[test]
fn help_with_and_without_service() {
    assert_eq!(interpret_line("help"), ShellStep::Help);
    assert_eq!(interpret_line("help volume"), ShellStep::HelpService("volume".to_string()));
    assert_eq!(interpret_line(" help  pool extra"), ShellStep::HelpService("pool".to_string()));
}

#[test]
fn single_word_prints_usage() {
    assert_eq!(interpret_line("volume"), ShellStep::Usage);
}

#[test]
fn command_line_splits_into_call() {
    assert_eq!(
        interpret_line("  volume   create v1\tsda "),
        ShellStep::Execute {
            service: "volume".to_string(),
            action: "create".to_string(),
            args: vec!["v1".to_string(), "sda".to_string()],
        }
    );
    assert_eq!(
        interpret_line("block list"),
        ShellStep::Execute { service: "block".to_string(), action: "list".to_string(), args: vec![] }
    );
}

#[test]
fn responses_render_with_error_prefix() {
    let ok = CommandResponse { success: true, message: "done".to_string() };
    assert_eq!(render_response(&ok), "done");
    let bad = CommandResponse { success: false, message: "unknown service 'x'".to_string() };
    assert_eq!(render_response(&bad), "Error: unknown service 'x'");
}

#[test]
fn client_endpoints() {
    assert_eq!(NexusCli::new("[::1]:50051").endpoint(), Endpoint::Network("http://[::1]:50051".to_string()));
    assert_eq!(NexusCli::new("https://host:443").endpoint(), Endpoint::Network("https://host:443".to_string()));
    assert_eq!(NexusCli::new(DEFAULT_ENDPOINT).endpoint(), Endpoint::LocalSocket("/tmp/nexus.sock".to_string()));
    assert_eq!(NexusCli::new("abc").addr(), "abc");
}

#[test]
fn server_endpoints() {
    assert_eq!(listen_address("[::1]:50051"), Endpoint::Network("[::1]:50051".to_string()));
    assert_eq!(listen_address("/tmp/nexus.sock"), Endpoint::LocalSocket("/tmp/nexus.sock".to_string()));
}
