//! Snapshot policy: a pure decision over the trigger mode and which named
//! snapshots exist on the disk image.

use vstd::prelude::*;

verus! {

/// Per-app policy governing which snapshot loads at boot and whether one is
/// saved at teardown. Fixed at packaging time.
#[derive(Debug, Clone, Copy, PartialEq, Eq, Structural)]
pub enum AppSnapshotTriggerMode {
    /// Load the most recent available state and save a fresh one at teardown.
    OnClose,
    /// Always load the packaged initial state, never save.
    Never,
    /// Always cold boot, never load and never save.
    NeverLoad,
}

/// What the orchestrator loads when the VM boots.
#[derive(Debug, Clone, Copy, PartialEq, Eq, Structural)]
pub enum BootAction {
    /// Boot without loading any snapshot.
    ColdBoot,
    /// Boot loading the named snapshot.
    LoadTag(BootTag),
}

/// The two well-known tags a boot decision can name.
#[derive(Debug, Clone, Copy, PartialEq, Eq, Structural)]
pub enum BootTag {
    Init,
    OnClose,
}

/// A user-facing notice that accompanies some boot decisions.
#[derive(Debug, Clone, Copy, PartialEq, Eq, Structural)]
pub enum BootNotice {
    /// Nothing to report.
    Quiet,
    /// The most recent state was absent; the packaged state is used instead.
    InitFallback,
    /// No state at all: first-ever launch of this app.
    FirstLaunch,
}

/// A fatal pre-boot configuration fault.
#[derive(Debug, Clone, Copy, PartialEq, Eq, Structural)]
pub enum PolicyError {
    /// The packaged initial snapshot is required by the mode but missing.
    NotPackagedCorrectly,
}

/// A boot decision together with its notice.
#[derive(Debug, Clone, Copy, PartialEq, Eq, Structural)]
pub struct BootDecision {
    pub action: BootAction,
    pub notice: BootNotice,
}

/// What the teardown sequence does about snapshots.
#[derive(Debug, Clone, Copy, PartialEq, Eq, Structural)]
pub enum TeardownAction {
    /// Quit without saving.
    NoSave,
    /// Delete any stale on-close tag, then save a fresh one.
    SaveOnClose,
}

/// The boot decision table as a spec function: for each trigger mode and each
/// combination of present tags, exactly one decision.
pub open spec fn spec_boot_decision(
    mode: AppSnapshotTriggerMode,
    has_onclose: bool,
    has_init: bool,
) -> Result<BootDecision, PolicyError> {
    match mode {
        AppSnapshotTriggerMode::NeverLoad => Ok(
            BootDecision { action: BootAction::ColdBoot, notice: BootNotice::Quiet },
        ),
        AppSnapshotTriggerMode::Never => if has_init {
            Ok(BootDecision { action: BootAction::LoadTag(BootTag::Init), notice: BootNotice::Quiet })
        } else {
            Err(PolicyError::NotPackagedCorrectly)
        },
        AppSnapshotTriggerMode::OnClose => if has_onclose {
            Ok(
                BootDecision {
                    action: BootAction::LoadTag(BootTag::OnClose),
                    notice: BootNotice::Quiet,
                },
            )
        } else if has_init {
            Ok(
                BootDecision {
                    action: BootAction::LoadTag(BootTag::Init),
                    notice: BootNotice::InitFallback,
                },
            )
        } else {
            Ok(BootDecision { action: BootAction::ColdBoot, notice: BootNotice::FirstLaunch })
        },
    }
}

/// Decide what to load at boot from the trigger mode and which of the two
/// well-known tags exist on the disk image.
pub fn choose_boot_action(mode: AppSnapshotTriggerMode, has_onclose: bool, has_init: bool) -> (r:
    Result<BootDecision, PolicyError>)
    ensures
        r == spec_boot_decision(mode, has_onclose, has_init),
{
    match mode {
        AppSnapshotTriggerMode::NeverLoad => Ok(
            BootDecision { action: BootAction::ColdBoot, notice: BootNotice::Quiet },
        ),
        AppSnapshotTriggerMode::Never => {
            if has_init {
                Ok(
                    BootDecision {
                        action: BootAction::LoadTag(BootTag::Init),
                        notice: BootNotice::Quiet,
                    },
                )
            } else {
                Err(PolicyError::NotPackagedCorrectly)
            }
        },
        AppSnapshotTriggerMode::OnClose => {
            if has_onclose {
                Ok(
                    BootDecision {
                        action: BootAction::LoadTag(BootTag::OnClose),
                        notice: BootNotice::Quiet,
                    },
                )
            } else if has_init {
                Ok(
                    BootDecision {
                        action: BootAction::LoadTag(BootTag::Init),
                        notice: BootNotice::InitFallback,
                    },
                )
            } else {
                Ok(BootDecision { action: BootAction::ColdBoot, notice: BootNotice::FirstLaunch })
            }
        },
    }
}

/// The snapshots taken at packaging time, in order: the packaged initial
/// state always (except for a mode that never loads), and a first on-close
/// state for the mode that will keep loading the most recent one.
pub fn packaging_snapshot_plan(mode: AppSnapshotTriggerMode) -> (v: Vec<BootTag>)
    ensures
        v@ == match mode {
            AppSnapshotTriggerMode::OnClose => seq![BootTag::Init, BootTag::OnClose],
            AppSnapshotTriggerMode::Never => seq![BootTag::Init],
            AppSnapshotTriggerMode::NeverLoad => Seq::<BootTag>::empty(),
        },
{
    let mut v: Vec<BootTag> = Vec::new();
    match mode {
        AppSnapshotTriggerMode::OnClose => {
            v.push(BootTag::Init);
            v.push(BootTag::OnClose);
            proof {
                assert(v@ =~= seq![BootTag::Init, BootTag::OnClose]);
            }
        },
        AppSnapshotTriggerMode::Never => {
            v.push(BootTag::Init);
            proof {
                assert(v@ =~= seq![BootTag::Init]);
            }
        },
        AppSnapshotTriggerMode::NeverLoad => {},
    }
    v
}

/// The teardown decision as a spec function: only `OnClose` saves.
pub open spec fn spec_teardown_decision(mode: AppSnapshotTriggerMode) -> TeardownAction {
    match mode {
        AppSnapshotTriggerMode::OnClose => TeardownAction::SaveOnClose,
        AppSnapshotTriggerMode::Never => TeardownAction::NoSave,
        AppSnapshotTriggerMode::NeverLoad => TeardownAction::NoSave,
    }
}

/// Decide whether teardown saves a fresh on-close snapshot.
pub fn choose_teardown_action(mode: AppSnapshotTriggerMode) -> (r: TeardownAction)
    ensures
        r == spec_teardown_decision(mode),
        r == TeardownAction::SaveOnClose <==> mode == AppSnapshotTriggerMode::OnClose,
{
    match mode {
        AppSnapshotTriggerMode::OnClose => TeardownAction::SaveOnClose,
        AppSnapshotTriggerMode::Never => TeardownAction::NoSave,
        AppSnapshotTriggerMode::NeverLoad => TeardownAction::NoSave,
    }
}

} // verus!
