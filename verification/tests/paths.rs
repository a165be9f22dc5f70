use libreadymade::initial_setup::first_boot_marker_path;
use libreadymade::keyboard::xorg_keyboard_conf_path;
use libreadymade::language::locale_conf_path;
use libreadymade::paths::{join_below, path_within};

#[test]
fn joins_with_one_separator() {
    assert_eq!(join_below("/mnt/target", "etc/locale.conf"), "/mnt/target/etc/locale.conf");
    assert_eq!(join_below("/", "etc/locale.conf"), "/etc/locale.conf");
    assert_eq!(join_below("/mnt/target/", "var/tmp"), "/mnt/target/var/tmp");
}

#[test]
fn module_files_lie_below_the_target_root() {
    let root = "/sysroot/ostree/deploy/default/deploy/deployment-checksum.0";
    assert_eq!(locale_conf_path(root), format!("{root}/etc/locale.conf"));
    assert_eq!(
        xorg_keyboard_conf_path(root),
        format!("{root}/etc/X11/xorg.conf.d/00-keyboard.conf")
    );
    assert_eq!(first_boot_marker_path(root), format!("{root}/.unconfigured"));
    assert!(path_within(&locale_conf_path(root), root));
    assert!(path_within(&locale_conf_path(root), "/sysroot"));
    assert_eq!(locale_conf_path("/"), "/etc/locale.conf");
}

#[test]
fn within_compares_whole_components() {
    assert!(path_within("/sysroot", "/sysroot"));
    assert!(path_within("/sysroot/a", "/sysroot"));
    assert!(path_within("/a", "/"));
    assert!(!path_within("/sysrootx", "/sysroot"));
    assert!(!path_within("/sys", "/sysroot"));
    assert!(!path_within("/other/sysroot", "/sysroot"));
}
