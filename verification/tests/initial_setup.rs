use libreadymade::initial_setup::{
    is_immutable, next_marker_step, without_immutable, MarkerEvent, MarkerFailure, MarkerStep,
    FS_IMMUTABLE_FL,
};

fn run(events: &[MarkerEvent]) -> Vec<MarkerStep> {
    let mut step = MarkerStep::CreateMarker;
    let mut trace = vec![step];
    for event in events {
        step = next_marker_step(step, *event);
        trace.push(step);
    }
    trace
}

#[test]
fn marker_created_at_once_touches_no_flags() {
    assert_eq!(run(&[MarkerEvent::Succeeded]), vec![MarkerStep::CreateMarker, MarkerStep::Created]);
}

#[test]
fn mutable_root_reports_the_creation_error() {
    let trace = run(&[MarkerEvent::Failed, MarkerEvent::Succeeded, MarkerEvent::FlagsRead(0x1000)]);
    assert_eq!(trace.last(), Some(&MarkerStep::Failed(MarkerFailure::CreateMarker)));
}

#[test]
fn immutable_root_is_cleared_then_restored() {
    let flags = 0x1000 | FS_IMMUTABLE_FL;
    let trace = run(&[
        MarkerEvent::Failed,
        MarkerEvent::Succeeded,
        MarkerEvent::FlagsRead(flags),
        MarkerEvent::Succeeded,
        MarkerEvent::Succeeded,
        MarkerEvent::Succeeded,
    ]);
    assert_eq!(
        trace,
        vec![
            MarkerStep::CreateMarker,
            MarkerStep::OpenRoot,
            MarkerStep::ReadFlags,
            MarkerStep::ClearImmutable { original: flags },
            MarkerStep::CreateMarkerAgain { original: flags },
            MarkerStep::RestoreFlags { original: flags, created: true },
            MarkerStep::Created,
        ]
    );
}

#[test]
fn flags_are_restored_even_when_the_second_creation_fails() {
    let flags = FS_IMMUTABLE_FL;
    let trace = run(&[
        MarkerEvent::Failed,
        MarkerEvent::Succeeded,
        MarkerEvent::FlagsRead(flags),
        MarkerEvent::Succeeded,
        MarkerEvent::Failed,
        MarkerEvent::Succeeded,
    ]);
    assert_eq!(trace[5], MarkerStep::RestoreFlags { original: flags, created: false });
    assert_eq!(trace[6], MarkerStep::Failed(MarkerFailure::CreateMarkerAgain));
}

#[test]
fn restore_error_takes_precedence() {
    let step = MarkerStep::RestoreFlags { original: FS_IMMUTABLE_FL, created: false };
    assert_eq!(next_marker_step(step, MarkerEvent::Failed), MarkerStep::Failed(MarkerFailure::RestoreFlags));
}

#[test]
fn each_failing_step_is_reported() {
    assert_eq!(
        next_marker_step(MarkerStep::OpenRoot, MarkerEvent::Failed),
        MarkerStep::Failed(MarkerFailure::OpenRoot)
    );
    assert_eq!(
        next_marker_step(MarkerStep::ReadFlags, MarkerEvent::Failed),
        MarkerStep::Failed(MarkerFailure::ReadFlags)
    );
    assert_eq!(
        next_marker_step(MarkerStep::ClearImmutable { original: 0x10 }, MarkerEvent::Failed),
        MarkerStep::Failed(MarkerFailure::ClearImmutable)
    );
    assert_eq!(
        next_marker_step(MarkerStep::Created, MarkerEvent::Failed),
        MarkerStep::Created
    );
}

#[test]
fn clearing_touches_only_the_immutable_bit() {
    assert_eq!(without_immutable(0x10), 0);
    assert_eq!(without_immutable(0x80010), 0x80000);
    assert_eq!(without_immutable(0x80000), 0x80000);
    assert_eq!(without_immutable(-1), !0x10);
    assert!(is_immutable(0x80010));
    assert!(!is_immutable(0x80000));
}
