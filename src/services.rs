//! Example storage services, written as explicit command tables with a
//! dispatch over action names.
use vstd::prelude::*;
use vstd::string::StringExecFns;

use crate::catalog::{command_models, ArgInfo, ArgModel, CommandInfo, CommandModel};
use crate::registry::{fault_message, DispatchError, DispatchFault, Service};
use crate::text::same_text;

verus! {

/// An argument with only a name.
pub open spec fn plain_arg(name: Seq<char>) -> ArgModel {
    ArgModel { name, hint: ""@, completer: ""@, description: ""@ }
}

/// The reply of a handler that was given too few arguments.
pub open spec fn missing(name: Seq<char>, expected: nat) -> Result<Seq<char>, Seq<char>> {
    Err(fault_message(DispatchFault::MissingArgument(name, expected)))
}

/// The reply of a handler asked for an action it does not have.
pub open spec fn unknown(action: Seq<char>) -> Result<Seq<char>, Seq<char>> {
    Err(fault_message(DispatchFault::UnknownCommand(action)))
}

pub open spec fn result_text(r: Result<String, String>) -> Result<Seq<char>, Seq<char>> {
    match r {
        Ok(m) => Ok(m@),
        Err(m) => Err(m@),
    }
}

fn missing_argument(name: &str, expected: usize) -> (r: Result<String, String>)
    ensures
        result_text(r) == missing(name@, expected as nat),
{
    Err(DispatchError::MissingArgument { name: name.to_owned(), expected }.message())
}

fn unknown_command(action: &str) -> (r: Result<String, String>)
    ensures
        result_text(r) == unknown(action@),
{
    Err(DispatchError::UnknownCommand(action.to_owned()).message())
}

/// `'` + `x` + `'`.
pub open spec fn quoted(x: Seq<char>) -> Seq<char> {
    "'"@ + x + "'"@
}

fn push_quoted(out: &mut String, x: &str)
    ensures
        final(out)@ == old(out)@ + quoted(x@),
{
    out.append("'");
    out.append(x);
    out.append("'");
    assert(final(out)@ =~= old(out)@ + quoted(x@));
}

/// Volumes carved out of block devices.
pub struct Volume;

pub open spec fn volume_commands() -> Seq<CommandModel> {
    seq![
        CommandModel {
            name: "create"@,
            args: seq![
                ArgModel {
                    name: "name"@,
                    hint: "volume name"@,
                    completer: ""@,
                    description: ""@,
                },
                ArgModel {
                    name: "disk"@,
                    hint: "device"@,
                    completer: "block.list"@,
                    description: ""@,
                },
            ],
            description: "Create a new volume on the specified disk."@,
        },
        CommandModel {
            name: "delete"@,
            args: seq![plain_arg("name"@)],
            description: "Delete an existing volume."@,
        },
        CommandModel { name: "list"@, args: seq![], description: "List all volumes."@ },
    ]
}

/// What the volume service replies to `action` with `args`.
pub open spec fn volume_reply(action: Seq<char>, args: Seq<Seq<char>>) -> Result<
    Seq<char>,
    Seq<char>,
> {
    if action == "create"@ {
        if args.len() < 1 {
            missing("name"@, 2)
        } else if args.len() < 2 {
            missing("disk"@, 2)
        } else {
            Ok("Volume "@ + quoted(args[0]) + " created on disk "@ + quoted(args[1]))
        }
    } else if action == "delete"@ {
        if args.len() < 1 {
            missing("name"@, 1)
        } else {
            Ok("Volume "@ + quoted(args[0]) + " deleted"@)
        }
    } else if action == "list"@ {
        Ok("vol0, vol1, vol2"@)
    } else {
        unknown(action)
    }
}

impl Volume {
    /// Create a new volume on the specified disk.
    pub fn create(&self, name: &str, disk: &str) -> (r: String)
        ensures
            r@ == "Volume "@ + quoted(name@) + " created on disk "@ + quoted(disk@),
    {
        let mut out = String::from_str("Volume ");
        push_quoted(&mut out, name);
        out.append(" created on disk ");
        push_quoted(&mut out, disk);
        out
    }

    /// Delete an existing volume.
    pub fn delete(&self, name: &str) -> (r: String)
        ensures
            r@ == "Volume "@ + quoted(name@) + " deleted"@,
    {
        let mut out = String::from_str("Volume ");
        push_quoted(&mut out, name);
        out.append(" deleted");
        out
    }

    /// List all volumes.
    pub fn list(&self) -> (r: String)
        ensures
            r@ == "vol0, vol1, vol2"@,
    {
        String::from_str("vol0, vol1, vol2")
    }
}

impl Service for Volume {
    open spec fn spec_name(&self) -> Seq<char> {
        "volume"@
    }

    open spec fn spec_description(&self) -> Seq<char> {
        ""@
    }

    open spec fn spec_commands(&self) -> Seq<CommandModel> {
        volume_commands()
    }

    fn name(&self) -> (r: &str) {
        "volume"
    }

    fn description(&self) -> (r: &str) {
        ""
    }

    fn commands(&self) -> (r: Vec<CommandInfo>) {
        let mut r: Vec<CommandInfo> = Vec::new();
        let mut create_args: Vec<ArgInfo> = Vec::new();
        create_args.push(ArgInfo::new("name", "volume name", "", ""));
        create_args.push(ArgInfo::new("disk", "device", "block.list", ""));
        r.push(
            CommandInfo {
                name: String::from_str("create"),
                args: create_args,
                description: String::from_str("Create a new volume on the specified disk."),
            },
        );
        let mut delete_args: Vec<ArgInfo> = Vec::new();
        delete_args.push(ArgInfo::new("name", "", "", ""));
        r.push(
            CommandInfo {
                name: String::from_str("delete"),
                args: delete_args,
                description: String::from_str("Delete an existing volume."),
            },
        );
        r.push(
            CommandInfo {
                name: String::from_str("list"),
                args: Vec::new(),
                description: String::from_str("List all volumes."),
            },
        );
        assert(crate::catalog::arg_models(r@[0].args@) =~= volume_commands()[0].args);
        assert(crate::catalog::arg_models(r@[1].args@) =~= volume_commands()[1].args);
        assert(crate::catalog::arg_models(r@[2].args@) =~= volume_commands()[2].args);
        assert(command_models(r@) =~= volume_commands());
        r
    }

    fn execute(&self, action: &str, args: Vec<String>) -> (r: Result<String, String>)
        ensures
            result_text(r) == volume_reply(action@, crate::text::texts(args@)),
    {
        if same_text(action, "create") {
            if args.len() < 1 {
                return missing_argument("name", 2);
            }
            if args.len() < 2 {
                return missing_argument("disk", 2);
            }
            Ok(self.create(args[0].as_str(), args[1].as_str()))
        } else if same_text(action, "delete") {
            if args.len() < 1 {
                return missing_argument("name", 1);
            }
            Ok(self.delete(args[0].as_str()))
        } else if same_text(action, "list") {
            Ok(self.list())
        } else {
            unknown_command(action)
        }
    }
}

/// Storage pools.
pub struct Pool;

pub open spec fn pool_commands() -> Seq<CommandModel> {
    seq![
        CommandModel {
            name: "create"@,
            args: seq![plain_arg("name"@)],
            description: "Create a new storage pool."@,
        },
        CommandModel {
            name: "destroy"@,
            args: seq![plain_arg("name"@)],
            description: "Destroy a storage pool."@,
        },
    ]
}

/// What the pool service replies to `action` with `args`.
pub open spec fn pool_reply(action: Seq<char>, args: Seq<Seq<char>>) -> Result<
    Seq<char>,
    Seq<char>,
> {
    if action == "create"@ {
        if args.len() < 1 {
            missing("name"@, 1)
        } else {
            Ok("Pool "@ + quoted(args[0]) + " created"@)
        }
    } else if action == "destroy"@ {
        if args.len() < 1 {
            missing("name"@, 1)
        } else {
            Ok("Pool "@ + quoted(args[0]) + " destroyed"@)
        }
    } else {
        unknown(action)
    }
}

impl Pool {
    /// Create a new storage pool.
    pub fn create(&self, name: &str) -> (r: String)
        ensures
            r@ == "Pool "@ + quoted(name@) + " created"@,
    {
        let mut out = String::from_str("Pool ");
        push_quoted(&mut out, name);
        out.append(" created");
        out
    }

    /// Destroy a storage pool.
    pub fn destroy(&self, name: &str) -> (r: String)
        ensures
            r@ == "Pool "@ + quoted(name@) + " destroyed"@,
    {
        let mut out = String::from_str("Pool ");
        push_quoted(&mut out, name);
        out.append(" destroyed");
        out
    }
}

impl Service for Pool {
    open spec fn spec_name(&self) -> Seq<char> {
        "pool"@
    }

    open spec fn spec_description(&self) -> Seq<char> {
        ""@
    }

    open spec fn spec_commands(&self) -> Seq<CommandModel> {
        pool_commands()
    }

    fn name(&self) -> (r: &str) {
        "pool"
    }

    fn description(&self) -> (r: &str) {
        ""
    }

    fn commands(&self) -> (r: Vec<CommandInfo>) {
        let mut r: Vec<CommandInfo> = Vec::new();
        let mut create_args: Vec<ArgInfo> = Vec::new();
        create_args.push(ArgInfo::new("name", "", "", ""));
        r.push(
            CommandInfo {
                name: String::from_str("create"),
                args: create_args,
                description: String::from_str("Create a new storage pool."),
            },
        );
        let mut destroy_args: Vec<ArgInfo> = Vec::new();
        destroy_args.push(ArgInfo::new("name", "", "", ""));
        r.push(
            CommandInfo {
                name: String::from_str("destroy"),
                args: destroy_args,
                description: String::from_str("Destroy a storage pool."),
            },
        );
        assert(crate::catalog::arg_models(r@[0].args@) =~= pool_commands()[0].args);
        assert(crate::catalog::arg_models(r@[1].args@) =~= pool_commands()[1].args);
        assert(command_models(r@) =~= pool_commands());
        r
    }

    fn execute(&self, action: &str, args: Vec<String>) -> (r: Result<String, String>)
        ensures
            result_text(r) == pool_reply(action@, crate::text::texts(args@)),
    {
        if same_text(action, "create") {
            if args.len() < 1 {
                return missing_argument("name", 1);
            }
            Ok(self.create(args[0].as_str()))
        } else if same_text(action, "destroy") {
            if args.len() < 1 {
                return missing_argument("name", 1);
            }
            Ok(self.destroy(args[0].as_str()))
        } else {
            unknown_command(action)
        }
    }
}

/// Block devices.
pub struct Block;

pub open spec fn block_commands() -> Seq<CommandModel> {
    seq![
        CommandModel { name: "list"@, args: seq![], description: "List all block devices."@ },
        CommandModel {
            name: "info"@,
            args: seq![plain_arg("device"@)],
            description: "Show info for a block device."@,
        },
    ]
}

/// What the block service replies to `action` with `args`.
pub open spec fn block_reply(action: Seq<char>, args: Seq<Seq<char>>) -> Result<
    Seq<char>,
    Seq<char>,
> {
    if action == "list"@ {
        Ok("sda, sdb, sdc, nvme0n1"@)
    } else if action == "info"@ {
        if args.len() < 1 {
            missing("device"@, 1)
        } else {
            Ok("Block device "@ + quoted(args[0]) + ": size=500G, type=SSD"@)
        }
    } else {
        unknown(action)
    }
}

impl Block {
    /// List all block devices.
    pub fn list(&self) -> (r: String)
        ensures
            r@ == "sda, sdb, sdc, nvme0n1"@,
    {
        String::from_str("sda, sdb, sdc, nvme0n1")
    }

    /// Show info for a block device.
    pub fn info(&self, device: &str) -> (r: String)
        ensures
            r@ == "Block device "@ + quoted(device@) + ": size=500G, type=SSD"@,
    {
        let mut out = String::from_str("Block device ");
        push_quoted(&mut out, device);
        out.append(": size=500G, type=SSD");
        out
    }
}

impl Service for Block {
    open spec fn spec_name(&self) -> Seq<char> {
        "block"@
    }

    open spec fn spec_description(&self) -> Seq<char> {
        ""@
    }

    open spec fn spec_commands(&self) -> Seq<CommandModel> {
        block_commands()
    }

    fn name(&self) -> (r: &str) {
        "block"
    }

    fn description(&self) -> (r: &str) {
        ""
    }

    fn commands(&self) -> (r: Vec<CommandInfo>) {
        let mut r: Vec<CommandInfo> = Vec::new();
        r.push(
            CommandInfo {
                name: String::from_str("list"),
                args: Vec::new(),
                description: String::from_str("List all block devices."),
            },
        );
        let mut info_args: Vec<ArgInfo> = Vec::new();
        info_args.push(ArgInfo::new("device", "", "", ""));
        r.push(
            CommandInfo {
                name: String::from_str("info"),
                args: info_args,
                description: String::from_str("Show info for a block device."),
            },
        );
        assert(crate::catalog::arg_models(r@[0].args@) =~= block_commands()[0].args);
        assert(crate::catalog::arg_models(r@[1].args@) =~= block_commands()[1].args);
        assert(command_models(r@) =~= block_commands());
        r
    }

    fn execute(&self, action: &str, args: Vec<String>) -> (r: Result<String, String>)
        ensures
            result_text(r) == block_reply(action@, crate::text::texts(args@)),
    {
        if same_text(action, "list") {
            Ok(self.list())
        } else if same_text(action, "info") {
            if args.len() < 1 {
                return missing_argument("device", 1);
            }
            Ok(self.info(args[0].as_str()))
        } else {
            unknown_command(action)
        }
    }
}

} // verus!
