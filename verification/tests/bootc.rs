use libreadymade::bootc::{run_outcome, Bootc, BootcError, BootcStage, CryptData};
use libreadymade::command::{CommandLine, RunStatus};

fn bootc() -> Bootc {
    Bootc {
        imgref: "quay.io/example/os:latest".to_string(),
        target_imgref: Some("registry/os:stable".to_string()),
        enforce_sigpolicy: true,
        kargs: vec!["quiet".to_string(), "rhgb".to_string()],
        args: vec!["--skip-finalize".to_string()],
    }
}

#[test]
fn finalizes_the_customized_target_with_bootc() {
    let command = Bootc::bootc_finalize_command("/mnt/target");
    assert_eq!(command.program, "bootc");
    assert_eq!(command.args, ["install", "finalize", "/mnt/target"]);
}

#[test]
fn copy_command_carries_every_option_in_order() {
    let crypt = Some(CryptData { cmdline_opts: vec!["rd.luks.uuid=1234".to_string()] });
    let command = bootc().bootc_copy_command("/run/readymade-bootc-x", &crypt);
    assert_eq!(command.program, "bootc");
    assert_eq!(
        command.args,
        [
            "install",
            "to-filesystem",
            "--source-imgref",
            "quay.io/example/os:latest",
            "--karg",
            "rd.luks.uuid=1234",
            "/run/readymade-bootc-x",
            "--target-imgref",
            "registry/os:stable",
            "--karg",
            "quiet",
            "--karg",
            "rhgb",
            "--enforce-container-sigpolicy",
            "--skip-finalize",
        ]
    );
}

#[test]
fn copy_command_without_options() {
    let plain = Bootc {
        imgref: "img".to_string(),
        target_imgref: None,
        enforce_sigpolicy: false,
        kargs: vec![],
        args: vec![],
    };
    let command = plain.bootc_copy_command("/t", &None);
    assert_eq!(command.args, ["install", "to-filesystem", "--source-imgref", "img", "/t"]);
}

#[test]
fn copy_runs_the_copy_command_and_succeeds_on_exit_code_zero() {
    let b = bootc();
    let expected = b.bootc_copy_command("/t", &None);
    let result = b.bootc_copy("/t", None, |cmd: &CommandLine| {
        assert_eq!(cmd.program, expected.program);
        assert_eq!(cmd.args, expected.args);
        RunStatus::Exited(Some(0))
    });
    assert!(result.is_ok());
}

#[test]
fn copy_reports_a_failing_bootc() {
    let result = bootc().bootc_copy("/t", None, |_: &CommandLine| RunStatus::Exited(Some(1)));
    assert!(matches!(result, Err(BootcError::Failed(BootcStage::InstallToFilesystem, Some(1)))));
    let result = bootc().bootc_copy("/t", None, |_: &CommandLine| RunStatus::Exited(None));
    assert!(matches!(result, Err(BootcError::Failed(BootcStage::InstallToFilesystem, None))));
}

#[test]
fn copy_reports_a_bootc_that_could_not_start() {
    let result = bootc().bootc_copy("/t", None, |_: &CommandLine| {
        RunStatus::NotStarted("No such file or directory".to_string())
    });
    match result {
        Err(BootcError::CouldNotExecute(BootcStage::InstallToFilesystem, reason)) => {
            assert_eq!(reason, "No such file or directory")
        }
        other => panic!("unexpected result {:?}", other),
    }
}

#[test]
fn finalize_runs_the_finalize_command() {
    let result = Bootc::bootc_finalize("/mnt/target", |cmd: &CommandLine| {
        assert_eq!(cmd.program, "bootc");
        assert_eq!(cmd.args, ["install", "finalize", "/mnt/target"]);
        RunStatus::Exited(Some(0))
    });
    assert!(result.is_ok());
    let result = Bootc::bootc_finalize("/mnt/target", |_: &CommandLine| RunStatus::Exited(Some(2)));
    assert!(matches!(result, Err(BootcError::Failed(BootcStage::InstallFinalize, Some(2)))));
}

#[test]
fn only_exit_code_zero_is_success() {
    assert!(run_outcome(BootcStage::InstallFinalize, RunStatus::Exited(Some(0))).is_ok());
    assert!(matches!(
        run_outcome(BootcStage::InstallFinalize, RunStatus::Exited(Some(-1))),
        Err(BootcError::Failed(BootcStage::InstallFinalize, Some(-1)))
    ));
}
