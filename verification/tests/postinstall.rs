use libreadymade::initial_setup::InitialSetup;
use libreadymade::keyboard::Keyboard;
use libreadymade::language::Language;
use libreadymade::postinstall::{
    active_boot_link, select_deployment, DeploymentCandidate, Module, ResolveError,
};

const SYSROOT: &str = "/sysroot";

fn candidate(path: &str, has_composefs_marker: bool) -> DeploymentCandidate {
    DeploymentCandidate { path: path.to_string(), has_composefs_marker }
}

#[test]
fn active_loader_selects_its_boot_link() {
    assert_eq!(active_boot_link("loader.0").unwrap(), "boot.0");
    assert_eq!(active_boot_link("loader.1").unwrap(), "boot.1");
}

#[test]
fn unexpected_loader_target_is_refused() {
    for name in ["loader.2", "loader.", "loader", "boot.1", "loader.10", ""] {
        match active_boot_link(name) {
            Err(ResolveError::UnexpectedLoaderTarget(n)) => assert_eq!(n, name),
            other => panic!("unexpected result {:?}", other),
        }
    }
}

#[test]
fn single_deployment_is_chosen() {
    let deployment = "/sysroot/ostree/deploy/default/deploy/deployment-checksum.0";
    let cands = vec![candidate(deployment, true)];
    assert_eq!(select_deployment(SYSROOT, &cands).unwrap(), deployment);
}

#[test]
fn deployment_reached_through_several_slots_counts_once() {
    let deployment = "/sysroot/ostree/deploy/default/deploy/a.0";
    let cands = vec![
        candidate(deployment, true),
        candidate("/elsewhere/b.0", true),
        candidate(deployment, true),
        candidate("/sysroot/ostree/deploy/default/deploy/c.0", false),
    ];
    assert_eq!(select_deployment(SYSROOT, &cands).unwrap(), deployment);
}

#[test]
fn no_deployment_is_an_error() {
    assert!(matches!(select_deployment(SYSROOT, &vec![]), Err(ResolveError::NoActiveDeployment)));
    let cands = vec![candidate("/outside/a.0", true), candidate("/sysroot/a.0", false)];
    assert!(matches!(select_deployment(SYSROOT, &cands), Err(ResolveError::NoActiveDeployment)));
}

#[test]
fn several_deployments_are_ambiguous() {
    let cands = vec![
        candidate("/sysroot/a.0", true),
        candidate("/sysroot/b.0", true),
        candidate("/sysroot/a.0", true),
        candidate("/sysroot/c.0", true),
    ];
    assert!(matches!(select_deployment(SYSROOT, &cands), Err(ResolveError::AmbiguousDeployments(3))));
}

#[test]
fn modules_report_their_names() {
    assert_eq!(Module::InitialSetup(InitialSetup).name(), "InitialSetup");
    let keyboard = Keyboard { layout: "br".to_string(), variant: None };
    assert_eq!(Module::Keyboard(keyboard).name(), "Keyboard");
    let language = Language { lang: "pt_BR".to_string() };
    assert_eq!(Module::Language(language).name(), "Language");
}

#[test]
fn a_sibling_with_the_same_prefix_is_outside_the_sysroot() {
    let cands = vec![candidate("/sysrootx/a.0", true), candidate("/sysroot/a.0", true)];
    assert_eq!(select_deployment(SYSROOT, &cands).unwrap(), "/sysroot/a.0");
    let only_sibling = vec![candidate("/sysroot2/ostree/deploy/a.0", true)];
    assert!(matches!(select_deployment(SYSROOT, &only_sibling), Err(ResolveError::NoActiveDeployment)));
}

#[test]
fn a_deployment_under_the_root_directory_is_inside() {
    let cands = vec![candidate("/ostree/deploy/default/deploy/a.0", true)];
    assert_eq!(select_deployment("/", &cands).unwrap(), "/ostree/deploy/default/deploy/a.0");
}
