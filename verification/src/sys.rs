//! Settling block-device partition nodes after repartitioning.
//!
//! `systemd-repart` may return before newly created `/dev/...` partition
//! nodes are usable by the mounts that follow. The kernel and udev are asked
//! to settle them with three helper commands, run in order; a failure of any
//! of them is only worth a warning, since the repartitioning itself succeeded.

use vstd::prelude::*;
use vstd::string::*;

use crate::command::{command_is, push_arg, strings, CommandLine};

verus! {

/// A command line of `program` with two arguments.
fn command(program: &str, arg1: &str, arg2: &str) -> (cmd: CommandLine)
    ensures
        command_is(cmd, program@, seq![arg1@, arg2@]),
{
    let mut args: Vec<String> = Vec::new();
    push_arg(&mut args, arg1);
    push_arg(&mut args, arg2);
    proof {
        assert(strings(args@) =~= seq![arg1@, arg2@]);
    }
    CommandLine { program: String::from_str(program), args }
}

/// The commands that make the kernel and udev settle the partition nodes of
/// `blockdev`, in the order they are run: re-read the partition table,
/// update the kernel's partition list, and wait for udev for at most ten
/// seconds.
pub fn partition_refresh_commands(blockdev: &str) -> (cmds: Vec<CommandLine>)
    ensures
        cmds.len() == 3,
        command_is(cmds[0], "blockdev"@, seq!["--rereadpt"@, blockdev@]),
        command_is(cmds[1], "partx"@, seq!["--update"@, blockdev@]),
        command_is(cmds[2], "udevadm"@, seq!["settle"@, "--timeout=10"@]),
{
    let mut cmds: Vec<CommandLine> = Vec::new();
    cmds.push(command("blockdev", "--rereadpt", blockdev));
    cmds.push(command("partx", "--update", blockdev));
    cmds.push(command("udevadm", "settle", "--timeout=10"));
    cmds
}

} // verus!
