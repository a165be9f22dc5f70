use libreadymade::sys::partition_refresh_commands;

#[test]
fn partition_nodes_are_settled_in_order() {
    let cmds = partition_refresh_commands("/dev/sda");
    assert_eq!(cmds.len(), 3);
    assert_eq!(cmds[0].program, "blockdev");
    assert_eq!(cmds[0].args, ["--rereadpt", "/dev/sda"]);
    assert_eq!(cmds[1].program, "partx");
    assert_eq!(cmds[1].args, ["--update", "/dev/sda"]);
    assert_eq!(cmds[2].program, "udevadm");
    assert_eq!(cmds[2].args, ["settle", "--timeout=10"]);
}
