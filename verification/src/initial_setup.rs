//! The first-boot marker that starts the initial-setup wizard.
//!
//! OSTree protects the deployment directory with `FS_IMMUTABLE_FL` while
//! keeping `/etc` writable. Creating `.unconfigured` there may therefore need
//! the immutable bit cleared for a moment: only that bit is cleared, and the
//! exact original flags are restored even when the creation fails.
//!
//! The file-system work is the caller's: [`next_marker_step`] says what to do
//! next, given what the last step gave.

use vstd::prelude::*;
use vstd::string::*;

use crate::paths::{join_below, joined};

verus! {

/// Ask the installed system to run its initial-setup wizard on first boot.
#[derive(Debug, Clone, Copy, PartialEq, Eq, Structural)]
pub struct InitialSetup;

impl InitialSetup {
    /// The name under which this module is reported.
    pub fn name(&self) -> (n: &'static str)
        ensures
            n@ == "InitialSetup"@,
    {
        "InitialSetup"
    }
}

/// Where the first-boot marker of the system rooted at `root` lives.
pub open spec fn first_boot_marker_file(root: Seq<char>) -> Seq<char> {
    joined(root, ".unconfigured"@)
}

/// Where the first-boot marker of the system rooted at `root` lives:
/// `.unconfigured` directly below that root.
pub fn first_boot_marker_path(root: &str) -> (path: String)
    ensures
        path@ == first_boot_marker_file(root@),
{
    join_below(root, ".unconfigured")
}

/// The inode flag that makes a directory immutable (`FS_IMMUTABLE_FL`).
pub const FS_IMMUTABLE_FL: i64 = 0x10;

/// Whether inode flags mark the directory immutable.
pub open spec fn spec_is_immutable(flags: i64) -> bool {
    flags & FS_IMMUTABLE_FL != 0
}

/// The same flags with the immutable bit cleared.
pub open spec fn spec_without_immutable(flags: i64) -> i64 {
    flags & !FS_IMMUTABLE_FL
}

/// Whether inode flags mark the directory immutable.
pub fn is_immutable(flags: i64) -> (res: bool)
    ensures
        res == spec_is_immutable(flags),
{
    flags & FS_IMMUTABLE_FL != 0
}

/// The same flags with the immutable bit cleared.
pub fn without_immutable(flags: i64) -> (res: i64)
    ensures
        res == spec_without_immutable(flags),
{
    flags & !FS_IMMUTABLE_FL
}

/// The step of marker creation that failed, and whose error is reported.
#[derive(Debug, Clone, Copy, PartialEq, Eq, Structural)]
pub enum MarkerFailure {
    /// Creating the marker failed and the root is not immutable.
    CreateMarker,
    /// The root directory could not be opened.
    OpenRoot,
    /// The root's inode flags could not be read.
    ReadFlags,
    /// The immutable bit could not be cleared.
    ClearImmutable,
    /// The marker could not be created even with the bit cleared.
    CreateMarkerAgain,
    /// The original flags could not be written back.
    RestoreFlags,
}

/// What the caller does next to create the first-boot marker.
#[derive(Debug, Clone, Copy, PartialEq, Eq, Structural)]
pub enum MarkerStep {
    /// Create the marker file in the root.
    CreateMarker,
    /// Open the root directory.
    OpenRoot,
    /// Read the root directory's inode flags.
    ReadFlags,
    /// Write `without_immutable(original)` as the root's inode flags.
    ClearImmutable { original: i64 },
    /// Create the marker file again.
    CreateMarkerAgain { original: i64 },
    /// Write `original` back as the root's inode flags; `created` tells
    /// whether the second creation succeeded.
    RestoreFlags { original: i64, created: bool },
    /// The marker exists; nothing is left to do.
    Created,
    /// The marker could not be created; nothing is left to do.
    Failed(MarkerFailure),
}

/// What the last step gave.
#[derive(Debug, Clone, Copy, PartialEq, Eq, Structural)]
pub enum MarkerEvent {
    Succeeded,
    Failed,
    /// Reading the inode flags succeeded with these flags.
    FlagsRead(i64),
}

/// The step that follows `step` when it gave `event`.
///
/// A `FlagsRead` event counts as success at any step but `ReadFlags`, and a
/// plain success of `ReadFlags`, which gives no flags, as its failure.
pub open spec fn marker_transition(step: MarkerStep, event: MarkerEvent) -> MarkerStep {
    let ok = !(event is Failed);
    match step {
        MarkerStep::CreateMarker => if ok {
            MarkerStep::Created
        } else {
            MarkerStep::OpenRoot
        },
        MarkerStep::OpenRoot => if ok {
            MarkerStep::ReadFlags
        } else {
            MarkerStep::Failed(MarkerFailure::OpenRoot)
        },
        MarkerStep::ReadFlags => match event {
            MarkerEvent::FlagsRead(flags) => if spec_is_immutable(flags) {
                MarkerStep::ClearImmutable { original: flags }
            } else {
                MarkerStep::Failed(MarkerFailure::CreateMarker)
            },
            _ => MarkerStep::Failed(MarkerFailure::ReadFlags),
        },
        MarkerStep::ClearImmutable { original } => if ok {
            MarkerStep::CreateMarkerAgain { original }
        } else {
            MarkerStep::Failed(MarkerFailure::ClearImmutable)
        },
        MarkerStep::CreateMarkerAgain { original } => MarkerStep::RestoreFlags {
            original,
            created: ok,
        },
        MarkerStep::RestoreFlags { original, created } => if !ok {
            MarkerStep::Failed(MarkerFailure::RestoreFlags)
        } else if created {
            MarkerStep::Created
        } else {
            MarkerStep::Failed(MarkerFailure::CreateMarkerAgain)
        },
        MarkerStep::Created => MarkerStep::Created,
        MarkerStep::Failed(failure) => MarkerStep::Failed(failure),
    }
}

/// The step that follows `step` when it gave `event`; see
/// [`marker_transition`]. Marker creation starts at
/// [`MarkerStep::CreateMarker`] and ends at [`MarkerStep::Created`] or
/// [`MarkerStep::Failed`].
pub fn next_marker_step(step: MarkerStep, event: MarkerEvent) -> (next: MarkerStep)
    ensures
        next == marker_transition(step, event),
{
    let ok = match event {
        MarkerEvent::Failed => false,
        _ => true,
    };
    match step {
        MarkerStep::CreateMarker => if ok {
            MarkerStep::Created
        } else {
            MarkerStep::OpenRoot
        },
        MarkerStep::OpenRoot => if ok {
            MarkerStep::ReadFlags
        } else {
            MarkerStep::Failed(MarkerFailure::OpenRoot)
        },
        MarkerStep::ReadFlags => match event {
            MarkerEvent::FlagsRead(flags) => if is_immutable(flags) {
                MarkerStep::ClearImmutable { original: flags }
            } else {
                MarkerStep::Failed(MarkerFailure::CreateMarker)
            },
            _ => MarkerStep::Failed(MarkerFailure::ReadFlags),
        },
        MarkerStep::ClearImmutable { original } => if ok {
            MarkerStep::CreateMarkerAgain { original }
        } else {
            MarkerStep::Failed(MarkerFailure::ClearImmutable)
        },
        MarkerStep::CreateMarkerAgain { original } => MarkerStep::RestoreFlags {
            original,
            created: ok,
        },
        MarkerStep::RestoreFlags { original, created } => if !ok {
            MarkerStep::Failed(MarkerFailure::RestoreFlags)
        } else if created {
            MarkerStep::Created
        } else {
            MarkerStep::Failed(MarkerFailure::CreateMarkerAgain)
        },
        MarkerStep::Created => MarkerStep::Created,
        MarkerStep::Failed(failure) => MarkerStep::Failed(failure),
    }
}

/// The steps taken from `step` when the steps give `events` in turn.
pub open spec fn marker_trace(step: MarkerStep, events: Seq<MarkerEvent>) -> Seq<MarkerStep>
    decreases events.len(),
{
    if events.len() == 0 {
        seq![step]
    } else {
        seq![step] + marker_trace(marker_transition(step, events[0]), events.drop_first())
    }
}

proof fn lemma_marker_trace_steps(step: MarkerStep, events: Seq<MarkerEvent>)
    ensures
        marker_trace(step, events).len() == events.len() + 1,
        marker_trace(step, events)[0] == step,
        forall|i: int|
            0 <= i < events.len() ==> #[trigger] marker_trace(step, events)[i + 1]
                == marker_transition(marker_trace(step, events)[i], events[i]),
    decreases events.len(),
{
    if events.len() > 0 {
        let next = marker_transition(step, events[0]);
        let rest = events.drop_first();
        lemma_marker_trace_steps(next, rest);
        let t = marker_trace(step, events);
        assert forall|i: int| 0 <= i < events.len() implies #[trigger] t[i + 1]
            == marker_transition(t[i], events[i]) by {
            if i > 0 {
                assert(t[i + 1] == marker_trace(next, rest)[i]);
                assert(t[i] == marker_trace(next, rest)[i - 1]);
                assert(events[i] == rest[i - 1]);
            }
        }
    }
}

/// Clearing the immutable bit changes no other flag, and leaves the
/// directory mutable; setting the bit again gives back immutable flags.
pub proof fn lemma_clearing_changes_only_the_immutable_bit(flags: i64)
    ensures
        !spec_is_immutable(spec_without_immutable(flags)),
        spec_without_immutable(flags) | FS_IMMUTABLE_FL == flags | FS_IMMUTABLE_FL,
        spec_is_immutable(flags) ==> spec_without_immutable(flags) | FS_IMMUTABLE_FL == flags,
{
    assert((flags & !0x10i64) & 0x10i64 == 0) by (bit_vector);
    assert((flags & !0x10i64) | 0x10i64 == flags | 0x10i64) by (bit_vector);
    assert(flags & 0x10i64 != 0 ==> (flags & !0x10i64) | 0x10i64 == flags) by (bit_vector);
}

/// Once the immutable bit has been cleared, marker creation does not finish
/// before the original flags have been written back, whether or not the
/// marker could then be created: the step after a successful clearing is
/// the second creation, and the step after that restores exactly the flags
/// that were read.
pub proof fn lemma_cleared_flags_are_restored(events: Seq<MarkerEvent>, k: int)
    requires
        0 <= k < events.len(),
        marker_trace(MarkerStep::CreateMarker, events)[k] is ClearImmutable,
        !(events[k] is Failed),
        marker_trace(MarkerStep::CreateMarker, events).last() is Created || marker_trace(
            MarkerStep::CreateMarker,
            events,
        ).last() is Failed,
    ensures
        k + 1 < events.len(),
        marker_trace(MarkerStep::CreateMarker, events)[k + 2] == (MarkerStep::RestoreFlags {
            original: marker_trace(MarkerStep::CreateMarker, events)[k]->ClearImmutable_original,
            created: !(events[k + 1] is Failed),
        }),
{
    let t = marker_trace(MarkerStep::CreateMarker, events);
    lemma_marker_trace_steps(MarkerStep::CreateMarker, events);
    let o = t[k]->ClearImmutable_original;
    assert(t[k + 1] == marker_transition(t[k], events[k]));
    assert(t[k + 1] == MarkerStep::CreateMarkerAgain { original: o });
    if k + 1 == events.len() {
        assert(t.last() == t[k + 1]);
        assert(false);
    }
    let j = k + 1;
    assert(t[j + 1] == marker_transition(t[j], events[j]));
}

proof fn lemma_marker_trace_finished_stays(events: Seq<MarkerEvent>, i: int, j: int)
    requires
        0 <= i <= j <= events.len(),
    ensures
        marker_trace(MarkerStep::CreateMarker, events)[i] is Created ==> marker_trace(
            MarkerStep::CreateMarker,
            events,
        )[j] is Created,
        marker_trace(MarkerStep::CreateMarker, events)[i] is Failed ==> marker_trace(
            MarkerStep::CreateMarker,
            events,
        )[j] is Failed,
    decreases j - i,
{
    lemma_marker_trace_steps(MarkerStep::CreateMarker, events);
    if i < j {
        let t = marker_trace(MarkerStep::CreateMarker, events);
        let k = j - 1;
        lemma_marker_trace_finished_stays(events, i, k);
        assert(t[k + 1] == marker_transition(t[k], events[k]));
    }
}

/// A run that creates the marker either creates it at once, writing no
/// inode flags, or reads the flags, clears the immutable bit, creates the
/// marker, and writes back exactly the flags it read; no other flags are
/// ever written. So a successful run leaves the root's flags as it found
/// them, and another run on the same root starts from the same flags.
pub proof fn lemma_created_run_leaves_flags_as_read(events: Seq<MarkerEvent>)
    requires
        marker_trace(MarkerStep::CreateMarker, events).last() is Created,
    ensures
        ({
            let t = marker_trace(MarkerStep::CreateMarker, events);
            ||| t[1] is Created
            ||| {
                &&& events.len() >= 6
                &&& events[2] is FlagsRead
                &&& t[3] == MarkerStep::ClearImmutable { original: events[2]->FlagsRead_0 }
                &&& t[5] == MarkerStep::RestoreFlags {
                    original: events[2]->FlagsRead_0,
                    created: true,
                }
                &&& !(events[5] is Failed)
                &&& t[6] is Created
            }
        }),
        forall|i: int|
            0 <= i <= events.len() ==> {
                &&& (#[trigger] marker_trace(MarkerStep::CreateMarker, events)[i] is ClearImmutable
                    ==> i == 3)
                &&& (marker_trace(MarkerStep::CreateMarker, events)[i] is RestoreFlags ==> i == 5)
            },
{
    let t = marker_trace(MarkerStep::CreateMarker, events);
    let n = events.len() as int;
    lemma_marker_trace_steps(MarkerStep::CreateMarker, events);
    assert(t.last() == t[n]);
    assert(n >= 1);
    let s0: int = 0;
    assert(t[s0 + 1] == marker_transition(t[s0], events[s0]));
    if t[1] is Created {
        assert forall|i: int| 0 <= i <= n implies {
            &&& (#[trigger] t[i] is ClearImmutable ==> i == 3)
            &&& (t[i] is RestoreFlags ==> i == 5)
        } by {
            if i >= 1 {
                lemma_marker_trace_finished_stays(events, 1, i);
            }
        }
    } else {
        // Any failure is final, and the run ends with the marker created.
        assert forall|i: int| 0 <= i <= n implies !(#[trigger] t[i] is Failed) by {
            if t[i] is Failed {
                lemma_marker_trace_finished_stays(events, i, n);
            }
        }
        assert(t[1] == MarkerStep::OpenRoot);
        assert(n >= 2);
        let s1: int = 1;
        assert(t[s1 + 1] == marker_transition(t[s1], events[s1]));
        assert(t[2] == MarkerStep::ReadFlags);
        assert(n >= 3);
        let s2: int = 2;
        assert(t[s2 + 1] == marker_transition(t[s2], events[s2]));
        assert(events[2] is FlagsRead);
        let o = events[2]->FlagsRead_0;
        assert(t[3] == MarkerStep::ClearImmutable { original: o });
        assert(n >= 4);
        let s3: int = 3;
        assert(t[s3 + 1] == marker_transition(t[s3], events[s3]));
        assert(t[4] == MarkerStep::CreateMarkerAgain { original: o });
        assert(n >= 5);
        let s4: int = 4;
        assert(t[s4 + 1] == marker_transition(t[s4], events[s4]));
        assert(t[5] is RestoreFlags);
        assert(n >= 6);
        let s5: int = 5;
        assert(t[s5 + 1] == marker_transition(t[s5], events[s5]));
        assert(t[6] is Created);
        assert(t[5] == MarkerStep::RestoreFlags { original: o, created: true });
        assert forall|i: int| 0 <= i <= n implies {
            &&& (#[trigger] t[i] is ClearImmutable ==> i == 3)
            &&& (t[i] is RestoreFlags ==> i == 5)
        } by {
            if i >= 6 {
                lemma_marker_trace_finished_stays(events, 6, i);
            }
        }
    }
}

} // verus!
