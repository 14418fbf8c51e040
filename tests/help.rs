use libnexus::help::{help_lines, service_help_lines};
use libnexus::services::{Block, Pool, Volume};
use libnexus::{ArgInfo, CommandInfo, NexusServer, ServiceInfo};

fn storage_catalog() -> Vec<ServiceInfo> {
    NexusServer::new().register(Volume).register(Pool).register(Block).list_services()
}

fn tagged(name: &str, description: &str) -> ServiceInfo {
    ServiceInfo {
        name: name.to_string(),
        description: description.to_string(),
        commands: vec![
            CommandInfo {
                name: format!("{}-run", name),
                args: vec![
                    ArgInfo::new("target", "", "", "what to run against"),
                    ArgInfo::new("level", "verbosity level", "", ""),
                    ArgInfo::new("source", "origin", "other.list", "where it comes from"),
                ],
                description: format!("Runs {} with a long description that must not be cut", name),
            },
            CommandInfo { name: "noop".to_string(), args: vec![], description: String::new() },
        ],
    }
}

#[test]
fn overview_lists_every_service_and_command() {
    let lines = help_lines(&storage_catalog());
    assert_eq!(
        lines,
        vec![
            "Available commands:",
            "  volume:",
            "    create <volume name> <device> - Create a new volume on the specified disk.",
            "    delete <name> - Delete an existing volume.",
            "    list  - List all volumes.",
            "  pool:",
            "    create <name> - Create a new storage pool.",
            "    destroy <name> - Destroy a storage pool.",
            "  block:",
            "    list  - List all block devices.",
            "    info <device> - Show info for a block device.",
        ]
    );
}

#[test]
fn service_detail_shows_arguments() {
    let lines = service_help_lines(&storage_catalog(), "volume");
    assert_eq!(
        lines,
        vec![
            "volume:",
            "",
            "  create <volume name> <device>",
            "    Create a new volume on the specified disk.",
            "    <device> - (completions from block.list)",
            "",
            "  delete <name>",
            "    Delete an existing volume.",
            "",
            "  list ",
            "    List all volumes.",
            "",
        ]
    );
}

#[test]
fn service_detail_of_unknown_service() {
    let lines = service_help_lines(&storage_catalog(), "disk");
    assert_eq!(lines, vec!["Unknown service 'disk'. Type 'help' to list all services."]);
}

#[test]
fn catalog_round_trip_keeps_every_text() {
    let catalog = vec![
        tagged("alpha", "First service, described at length"),
        tagged("beta", ""),
        tagged("gamma", "Third"),
    ];
    for svc in &catalog {
        let text = service_help_lines(&catalog, &svc.name).join("\n");
        assert!(text.contains(&svc.name));
        assert!(text.contains(&svc.description));
        for cmd in &svc.commands {
            assert!(text.contains(&cmd.name));
            assert!(text.contains(&cmd.description));
            for arg in &cmd.args {
                assert!(text.contains(arg.label()));
                assert!(text.contains(&arg.description));
                assert!(text.contains(&arg.completer));
            }
        }
    }
    let alpha = service_help_lines(&catalog, "alpha");
    assert_eq!(alpha[0], "alpha: First service, described at length");
    assert_eq!(alpha[2], "  alpha-run <target> <verbosity level> <origin>");
    assert_eq!(alpha[3], "    Runs alpha with a long description that must not be cut");
    assert_eq!(alpha[4], "    <target> - what to run against");
    assert_eq!(alpha[5], "    <origin> - where it comes from - (completions from other.list)");
    assert_eq!(service_help_lines(&catalog, "beta")[0], "beta:");
    let overview = help_lines(&catalog);
    assert_eq!(overview[1], "  alpha: First service, described at length");
    assert_eq!(overview[2], "    alpha-run <target> <verbosity level> <origin> - Runs alpha with a long description that must not be cut");
    assert_eq!(overview[3], "    noop ");
}

#[test]
fn label_falls_back_to_name() {
    assert_eq!(ArgInfo::new("disk", "", "", "").label(), "disk");
    assert_eq!(ArgInfo::new("disk", "device", "", "").label(), "device");
}
