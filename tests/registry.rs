use libnexus::registry::DispatchError;
use libnexus::services::{Block, Pool, Volume};
use libnexus::{CommandResponse, NexusServer, Registry, Service};

fn storage_server() -> NexusServer {
    NexusServer::new().register(Volume).register(Pool).register(Block)
}

fn args(v: &[&str]) -> Vec<String> {
    v.iter().map(|s| s.to_string()).collect()
}

#[test]
fn listing_has_one_entry_per_registered_name() {
    let server = storage_server();
    let first = server.list_services();
    let names: Vec<&str> = first.iter().map(|s| s.name.as_str()).collect();
    assert_eq!(names, vec!["volume", "pool", "block"]);
    let second = server.list_services();
    assert_eq!(first, second);
}

#[test]
fn listing_carries_command_metadata() {
    let server = storage_server();
    let catalog = server.list_services();
    let volume = &catalog[0];
    assert_eq!(volume.commands.len(), 3);
    let create = &volume.commands[0];
    assert_eq!(create.name, "create");
    assert_eq!(create.description, "Create a new volume on the specified disk.");
    assert_eq!(create.args.len(), 2);
    assert_eq!(create.args[0].name, "name");
    assert_eq!(create.args[0].hint, "volume name");
    assert_eq!(create.args[1].name, "disk");
    assert_eq!(create.args[1].hint, "device");
    assert_eq!(create.args[1].completer, "block.list");
}

#[test]
fn registry_rows_match_registration() {
    let mut registry = Registry::new();
    assert!(!registry.has_service("pool"));
    registry.register(Pool);
    assert!(registry.has_service("pool"));
    let rows = registry.list_services();
    assert_eq!(rows.len(), 1);
    assert_eq!(rows[0].0, "pool");
    assert_eq!(rows[0].1, "");
    assert_eq!(rows[0].2.len(), 2);
    assert_eq!(rows[0].2[1].name, "destroy");
}

#[test]
fn execute_unknown_service() {
    let server = storage_server();
    let r = server.execute("disk", "list", vec![]);
    assert_eq!(r, CommandResponse { success: false, message: "unknown service 'disk'".to_string() });
}

#[test]
fn execute_unknown_command() {
    let server = storage_server();
    let r = server.execute("volume", "resize", args(&["v1"]));
    assert_eq!(r, CommandResponse { success: false, message: "unknown command 'resize'".to_string() });
}

#[test]
fn execute_missing_argument_names_first_unbound_parameter() {
    let server = storage_server();
    let r = server.execute("volume", "create", args(&["v1"]));
    assert!(!r.success);
    assert_eq!(r.message, "missing argument 'disk' (expected 2 args)");
    let r = server.execute("volume", "create", vec![]);
    assert_eq!(r.message, "missing argument 'name' (expected 2 args)");
}

#[test]
fn execute_runs_handler() {
    let server = storage_server();
    let r = server.execute("volume", "create", args(&["v1", "sda"]));
    assert_eq!(r, CommandResponse { success: true, message: "Volume 'v1' created on disk 'sda'".to_string() });
    let r = server.execute("block", "list", vec![]);
    assert_eq!(r.message, "sda, sdb, sdc, nvme0n1");
    let r = server.execute("pool", "destroy", args(&["tank"]));
    assert_eq!(r.message, "Pool 'tank' destroyed");
}

#[test]
fn execute_passes_extra_arguments_through() {
    let server = storage_server();
    let r = server.execute("volume", "delete", args(&["v1", "extra", "more"]));
    assert_eq!(r, CommandResponse { success: true, message: "Volume 'v1' deleted".to_string() });
}

#[test]
fn registry_execute_reports_faults() {
    let mut registry = Registry::new();
    registry.register(Block);
    assert_eq!(registry.execute("volume", "list", vec![]), Err(DispatchError::UnknownService("volume".to_string())));
    assert_eq!(registry.execute("block", "eject", vec![]), Err(DispatchError::UnknownCommand("eject".to_string())));
    assert_eq!(
        registry.execute("block", "info", vec![]),
        Err(DispatchError::MissingArgument { name: "device".to_string(), expected: 1 })
    );
    assert_eq!(registry.execute("block", "info", args(&["sdb"])), Ok("Block device 'sdb': size=500G, type=SSD".to_string()));
}

#[test]
fn dispatch_error_messages() {
    assert_eq!(DispatchError::UnknownService("x".to_string()).message(), "unknown service 'x'");
    assert_eq!(DispatchError::UnknownCommand("y".to_string()).message(), "unknown command 'y'");
    assert_eq!(
        DispatchError::MissingArgument { name: "size".to_string(), expected: 12 }.message(),
        "missing argument 'size' (expected 12 args)"
    );
    assert_eq!(DispatchError::Failed("boom".to_string()).message(), "boom");
}

#[test]
fn services_answer_directly() {
    assert_eq!(Volume.name(), "volume");
    assert_eq!(Volume.list(), "vol0, vol1, vol2");
    assert_eq!(Volume.execute("list", vec![]), Ok("vol0, vol1, vol2".to_string()));
    assert_eq!(Volume.execute("grow", vec![]), Err("unknown command 'grow'".to_string()));
    assert_eq!(Pool.create("p0"), "Pool 'p0' created");
    assert_eq!(Pool.execute("create", vec![]), Err("missing argument 'name' (expected 1 args)".to_string()));
    assert_eq!(Block.info("nvme0n1"), "Block device 'nvme0n1': size=500G, type=SSD");
    assert_eq!(Block.commands().len(), 2);
    assert_eq!(Pool.description(), "");
}
