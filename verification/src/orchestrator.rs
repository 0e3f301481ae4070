//! Launch orchestrator: the top-level control flow as a state machine.
//!
//! The surrounding program owns the processes and sockets; it performs the
//! action the machine hands out, reports what happened as an event, and the
//! verified step function decides what comes next. The sequence is: try to
//! attach to a live session; otherwise wait out a prior session mid-shutdown,
//! pick a port, decide the boot snapshot, spawn the VM, wait for its control
//! socket while watching the process, start the broker, attach the local
//! client, wait for all viewers to leave, run the teardown snapshot policy,
//! and quit the VM (force-killing it if the quit command itself fails).

use vstd::prelude::*;
use crate::policy::{AppSnapshotTriggerMode, BootDecision, PolicyError, spec_boot_decision};

verus! {

/// A fatal condition of the launch sequence.
#[derive(Debug, Clone, Copy, PartialEq, Eq, Structural)]
pub enum LaunchError {
    /// A required packaged snapshot is missing (detected before any spawn).
    NotPackagedCorrectly,
    /// The VM process exited before its control socket ever answered.
    VmDiedBeforeReady,
    /// The VM process could not be spawned.
    SpawnFailed,
    /// The teardown snapshot save failed.
    TeardownFailed,
}

/// How an attempt to attach to a live session's broker socket ended.
#[derive(Debug, Clone, Copy, PartialEq, Eq, Structural)]
pub enum AttachOutcome {
    /// Attached; the client session ran to completion.
    Attached,
    /// Connection refused with nobody listening: a stale socket file left by
    /// a crashed session, to be removed before going on.
    Refused,
    /// Any other failure: nobody home, go on and start a session.
    OtherFailure,
}

/// What the orchestrator observed after performing the pending action.
#[derive(Debug, Clone, Copy, PartialEq, Eq, Structural)]
pub enum LaunchEvent {
    AttachResult(AttachOutcome),
    /// The stale broker socket file was removed (best-effort).
    StaleRemoved,
    /// Whether a prior session's control socket still answers.
    PriorProbe(bool),
    PortChosen(u16),
    /// Which of the two well-known tags exist on the disk image.
    TagsProbed { has_onclose: bool, has_init: bool },
    SpawnResult(bool),
    /// One readiness poll: has the VM process exited, and does the control
    /// socket accept a connection.
    ReadyProbe { vm_exited: bool, socket_ready: bool },
    BrokerStarted,
    /// The local display client finished (its failure is not fatal).
    LocalClientDone,
    /// The broker's shutdown signal: the last viewer left.
    AllClientsGone,
    /// Whether the teardown snapshot sequence succeeded.
    TeardownDone(bool),
    /// Whether the quit command was accepted.
    QuitResult(bool),
    VmExited,
}

/// Where the launch sequence stands.
#[derive(Debug, Clone, Copy, PartialEq, Eq, Structural)]
pub enum LaunchState {
    /// Try to attach to an already-running session.
    TryAttach,
    /// Remove the stale broker socket file of a crashed session.
    CleanupStale,
    /// A prior session may be mid-shutdown: wait until its control socket no
    /// longer answers.
    AwaitPriorTeardown,
    /// Pick a free display port.
    ChoosePort,
    /// Probe the disk tags and decide the boot snapshot.
    DecideBoot { port: u16 },
    /// Spawn the VM process with the decided boot action.
    SpawnVm { port: u16, boot: BootDecision },
    /// Poll the control socket while watching the VM process.
    AwaitReady { port: u16 },
    /// Start the broker service on the session socket.
    StartBroker { port: u16 },
    /// Attach the local display client through the broker.
    AttachLocalClient { port: u16 },
    /// Wait for the broker's shutdown signal.
    AwaitClientsGone,
    /// Run the teardown snapshot policy.
    RunTeardownPolicy,
    /// Ask the VM to quit over the control socket.
    Quit,
    /// Wait for the VM process to exit after a clean quit.
    AwaitVmExit,
    /// The quit command failed: force-kill the VM process.
    ForceKill,
    Done,
    Failed(LaunchError),
}

/// What the surrounding program must do next.
#[derive(Debug, Clone, Copy, PartialEq, Eq, Structural)]
pub enum LaunchAction {
    /// Connect to the broker socket and run a client session.
    ConnectBroker,
    /// Remove the stale broker socket file.
    RemoveStaleSocket,
    /// Probe whether a prior session's control socket still answers (with a
    /// short pause between probes).
    ProbePriorSession,
    /// Ask the system for a free port.
    PickPort,
    /// Ask which of the two well-known tags exist on the disk image.
    ProbeTags,
    /// Spawn the VM process, loading what the boot decision says.
    SpawnVmProcess { port: u16, boot: BootDecision },
    /// Poll the control socket once, checking the VM process too.
    ProbeReady,
    /// Bind the session socket and serve the port to each client.
    StartBrokerService { port: u16 },
    /// Attach the local display client.
    AttachLocal { port: u16 },
    /// Block until the broker signals that the last client left.
    AwaitShutdownSignal,
    /// Run the teardown snapshot sequence.
    RunTeardown,
    /// Send the quit command over the control socket.
    SendQuit,
    /// Wait for the VM process to exit.
    WaitVmExit,
    /// Kill the VM process, accepting the loss of a graceful save.
    KillVm,
    /// Nothing is left to do.
    Finish,
    /// Report the fatal condition and stop.
    Report(LaunchError),
}

/// The action pending in a state: what the machine is waiting to hear about.
pub open spec fn spec_state_action(s: LaunchState) -> LaunchAction {
    match s {
        LaunchState::TryAttach => LaunchAction::ConnectBroker,
        LaunchState::CleanupStale => LaunchAction::RemoveStaleSocket,
        LaunchState::AwaitPriorTeardown => LaunchAction::ProbePriorSession,
        LaunchState::ChoosePort => LaunchAction::PickPort,
        LaunchState::DecideBoot { port } => LaunchAction::ProbeTags,
        LaunchState::SpawnVm { port, boot } => LaunchAction::SpawnVmProcess { port, boot },
        LaunchState::AwaitReady { port } => LaunchAction::ProbeReady,
        LaunchState::StartBroker { port } => LaunchAction::StartBrokerService { port },
        LaunchState::AttachLocalClient { port } => LaunchAction::AttachLocal { port },
        LaunchState::AwaitClientsGone => LaunchAction::AwaitShutdownSignal,
        LaunchState::RunTeardownPolicy => LaunchAction::RunTeardown,
        LaunchState::Quit => LaunchAction::SendQuit,
        LaunchState::AwaitVmExit => LaunchAction::WaitVmExit,
        LaunchState::ForceKill => LaunchAction::KillVm,
        LaunchState::Done => LaunchAction::Finish,
        LaunchState::Failed(e) => LaunchAction::Report(e),
    }
}

/// The transition relation: from a state and the event answering its pending
/// action, the next state and next action. An event a state does not expect
/// leaves the state alone and repeats its pending action; `Done` and `Failed`
/// absorb everything.
pub open spec fn spec_launch_step(
    s: LaunchState,
    e: LaunchEvent,
    mode: AppSnapshotTriggerMode,
) -> (LaunchState, LaunchAction) {
    match (s, e) {
        (LaunchState::TryAttach, LaunchEvent::AttachResult(outcome)) => match outcome {
            AttachOutcome::Attached => (LaunchState::Done, LaunchAction::Finish),
            AttachOutcome::Refused => (LaunchState::CleanupStale, LaunchAction::RemoveStaleSocket),
            AttachOutcome::OtherFailure => (
                LaunchState::AwaitPriorTeardown,
                LaunchAction::ProbePriorSession,
            ),
        },
        (LaunchState::CleanupStale, LaunchEvent::StaleRemoved) => (
            LaunchState::AwaitPriorTeardown,
            LaunchAction::ProbePriorSession,
        ),
        (LaunchState::AwaitPriorTeardown, LaunchEvent::PriorProbe(answers)) => if answers {
            (LaunchState::AwaitPriorTeardown, LaunchAction::ProbePriorSession)
        } else {
            (LaunchState::ChoosePort, LaunchAction::PickPort)
        },
        (LaunchState::ChoosePort, LaunchEvent::PortChosen(port)) => (
            LaunchState::DecideBoot { port },
            LaunchAction::ProbeTags,
        ),
        (
            LaunchState::DecideBoot { port },
            LaunchEvent::TagsProbed { has_onclose, has_init },
        ) => match spec_boot_decision(mode, has_onclose, has_init) {
            Ok(boot) => (
                LaunchState::SpawnVm { port, boot },
                LaunchAction::SpawnVmProcess { port, boot },
            ),
            Err(PolicyError::NotPackagedCorrectly) => (
                LaunchState::Failed(LaunchError::NotPackagedCorrectly),
                LaunchAction::Report(LaunchError::NotPackagedCorrectly),
            ),
        },
        (LaunchState::SpawnVm { port, boot }, LaunchEvent::SpawnResult(spawned)) => if spawned {
            (LaunchState::AwaitReady { port }, LaunchAction::ProbeReady)
        } else {
            (
                LaunchState::Failed(LaunchError::SpawnFailed),
                LaunchAction::Report(LaunchError::SpawnFailed),
            )
        },
        (
            LaunchState::AwaitReady { port },
            LaunchEvent::ReadyProbe { vm_exited, socket_ready },
        ) => if vm_exited {
            (
                LaunchState::Failed(LaunchError::VmDiedBeforeReady),
                LaunchAction::Report(LaunchError::VmDiedBeforeReady),
            )
        } else if socket_ready {
            (LaunchState::StartBroker { port }, LaunchAction::StartBrokerService { port })
        } else {
            (LaunchState::AwaitReady { port }, LaunchAction::ProbeReady)
        },
        (LaunchState::StartBroker { port }, LaunchEvent::BrokerStarted) => (
            LaunchState::AttachLocalClient { port },
            LaunchAction::AttachLocal { port },
        ),
        (LaunchState::AttachLocalClient { port }, LaunchEvent::LocalClientDone) => (
            LaunchState::AwaitClientsGone,
            LaunchAction::AwaitShutdownSignal,
        ),
        (LaunchState::AwaitClientsGone, LaunchEvent::AllClientsGone) => (
            LaunchState::RunTeardownPolicy,
            LaunchAction::RunTeardown,
        ),
        (LaunchState::RunTeardownPolicy, LaunchEvent::TeardownDone(saved)) => if saved {
            (LaunchState::Quit, LaunchAction::SendQuit)
        } else {
            (
                LaunchState::Failed(LaunchError::TeardownFailed),
                LaunchAction::Report(LaunchError::TeardownFailed),
            )
        },
        (LaunchState::Quit, LaunchEvent::QuitResult(accepted)) => if accepted {
            (LaunchState::AwaitVmExit, LaunchAction::WaitVmExit)
        } else {
            (LaunchState::ForceKill, LaunchAction::KillVm)
        },
        (LaunchState::AwaitVmExit, LaunchEvent::VmExited) => (
            LaunchState::Done,
            LaunchAction::Finish,
        ),
        (LaunchState::ForceKill, LaunchEvent::VmExited) => (LaunchState::Done, LaunchAction::Finish),
        (_, _) => (s, spec_state_action(s)),
    }
}

/// The state after a whole trace of events.
pub open spec fn spec_launch_run(
    s: LaunchState,
    evs: Seq<LaunchEvent>,
    mode: AppSnapshotTriggerMode,
) -> LaunchState
    decreases evs.len(),
{
    if evs.len() == 0 {
        s
    } else {
        spec_launch_run(spec_launch_step(s, evs[0], mode).0, evs.drop_first(), mode)
    }
}

/// A failed launch is final: every further event leaves the failure in place
/// and keeps reporting it.
pub proof fn lemma_failed_absorbs(err: LaunchError, e: LaunchEvent, mode: AppSnapshotTriggerMode)
    ensures
        spec_launch_step(LaunchState::Failed(err), e, mode) == (
            LaunchState::Failed(err),
            LaunchAction::Report(err),
        ),
{
}

/// A readiness probe that finds the VM process gone reports the death —
/// distinct from ordinary slow startup — and fails the launch.
pub proof fn lemma_vm_exit_reports_death(
    port: u16,
    socket_ready: bool,
    mode: AppSnapshotTriggerMode,
)
    ensures
        spec_launch_step(
            LaunchState::AwaitReady { port },
            LaunchEvent::ReadyProbe { vm_exited: true, socket_ready },
            mode,
        ) == (
            LaunchState::Failed(LaunchError::VmDiedBeforeReady),
            LaunchAction::Report(LaunchError::VmDiedBeforeReady),
        ),
{
}

/// The readiness signal: the VM still runs and its control socket answers.
pub open spec fn spec_is_ready_signal(e: LaunchEvent) -> bool {
    e == (LaunchEvent::ReadyProbe { vm_exited: false, socket_ready: true })
}

/// Whether any step along the trace hands out the start-broker action.
pub open spec fn spec_emits_start_broker(
    s: LaunchState,
    evs: Seq<LaunchEvent>,
    mode: AppSnapshotTriggerMode,
) -> bool
    decreases evs.len(),
{
    if evs.len() == 0 {
        false
    } else {
        ||| spec_launch_step(s, evs[0], mode).1 matches LaunchAction::StartBrokerService { .. }
        ||| spec_emits_start_broker(spec_launch_step(s, evs[0], mode).0, evs.drop_first(), mode)
    }
}

/// The broker is started only on the readiness signal: a launch whose
/// readiness probes never find the control socket ready — in particular one
/// whose VM process dies first — never hands out the start-broker action.
pub proof fn lemma_no_broker_without_ready(
    s: LaunchState,
    evs: Seq<LaunchEvent>,
    mode: AppSnapshotTriggerMode,
)
    requires
        !(s matches LaunchState::StartBroker { .. }),
        forall|k: int| 0 <= k < evs.len() ==> !spec_is_ready_signal(#[trigger] evs[k]),
    ensures
        !spec_emits_start_broker(s, evs, mode),
        !(spec_launch_run(s, evs, mode) matches LaunchState::StartBroker { .. }),
    decreases evs.len(),
{
    if evs.len() > 0 {
        let (s1, a1) = spec_launch_step(s, evs[0], mode);
        assert(!spec_is_ready_signal(evs[0]));
        assert(!(s1 matches LaunchState::StartBroker { .. }));
        assert(!(a1 matches LaunchAction::StartBrokerService { .. }));
        lemma_no_broker_without_ready(s1, evs.drop_first(), mode);
    }
}

/// Whether any step along the trace hands out the teardown action.
pub open spec fn spec_emits_teardown(
    s: LaunchState,
    evs: Seq<LaunchEvent>,
    mode: AppSnapshotTriggerMode,
) -> bool
    decreases evs.len(),
{
    if evs.len() == 0 {
        false
    } else {
        ||| spec_launch_step(s, evs[0], mode).1 == LaunchAction::RunTeardown
        ||| spec_emits_teardown(spec_launch_step(s, evs[0], mode).0, evs.drop_first(), mode)
    }
}

/// The teardown snapshot work begins only once the broker has signalled that
/// the last client left: a launch that never hears the all-clients-gone event
/// never hands out the teardown action.
pub proof fn lemma_no_teardown_while_clients_remain(
    s: LaunchState,
    evs: Seq<LaunchEvent>,
    mode: AppSnapshotTriggerMode,
)
    requires
        s != LaunchState::RunTeardownPolicy,
        forall|k: int| 0 <= k < evs.len() ==> #[trigger] evs[k] != LaunchEvent::AllClientsGone,
    ensures
        !spec_emits_teardown(s, evs, mode),
        spec_launch_run(s, evs, mode) != LaunchState::RunTeardownPolicy,
    decreases evs.len(),
{
    if evs.len() > 0 {
        let (s1, a1) = spec_launch_step(s, evs[0], mode);
        assert(evs[0] != LaunchEvent::AllClientsGone);
        assert(s1 != LaunchState::RunTeardownPolicy);
        assert(a1 != LaunchAction::RunTeardown);
        lemma_no_teardown_while_clients_remain(s1, evs.drop_first(), mode);
    }
}

/// A probe whose tags give a successful boot decision under this mode.
pub open spec fn spec_is_ok_boot_probe(e: LaunchEvent, mode: AppSnapshotTriggerMode) -> bool {
    match e {
        LaunchEvent::TagsProbed { has_onclose, has_init } => spec_boot_decision(
            mode,
            has_onclose,
            has_init,
        ) is Ok,
        _ => false,
    }
}

/// Whether any step along the trace hands out the spawn action.
pub open spec fn spec_emits_spawn(
    s: LaunchState,
    evs: Seq<LaunchEvent>,
    mode: AppSnapshotTriggerMode,
) -> bool
    decreases evs.len(),
{
    if evs.len() == 0 {
        false
    } else {
        ||| spec_launch_step(s, evs[0], mode).1 matches LaunchAction::SpawnVmProcess { .. }
        ||| spec_emits_spawn(spec_launch_step(s, evs[0], mode).0, evs.drop_first(), mode)
    }
}

/// The VM is spawned only after a successful boot decision: a launch in which
/// no tag probe yields one never hands out the spawn action.
pub proof fn lemma_no_spawn_without_boot_decision(
    s: LaunchState,
    evs: Seq<LaunchEvent>,
    mode: AppSnapshotTriggerMode,
)
    requires
        !(s matches LaunchState::SpawnVm { .. }),
        forall|k: int| 0 <= k < evs.len() ==> !spec_is_ok_boot_probe(#[trigger] evs[k], mode),
    ensures
        !spec_emits_spawn(s, evs, mode),
        !(spec_launch_run(s, evs, mode) matches LaunchState::SpawnVm { .. }),
    decreases evs.len(),
{
    if evs.len() > 0 {
        let (s1, a1) = spec_launch_step(s, evs[0], mode);
        assert(!spec_is_ok_boot_probe(evs[0], mode));
        assert(!(s1 matches LaunchState::SpawnVm { .. }));
        assert(!(a1 matches LaunchAction::SpawnVmProcess { .. }));
        lemma_no_spawn_without_boot_decision(s1, evs.drop_first(), mode);
    }
}

/// In `Never` mode with the packaged initial snapshot missing, the launch
/// fails with `NotPackagedCorrectly` before any process is spawned: no trace
/// whose tag probes all lack the init tag ever hands out the spawn action.
pub proof fn lemma_never_mode_missing_init_never_spawns(evs: Seq<LaunchEvent>)
    requires
        forall|k: int| 0 <= k < evs.len() ==> ((#[trigger] evs[k]) matches
            LaunchEvent::TagsProbed { has_onclose, has_init } ==> !has_init),
    ensures
        !spec_emits_spawn(LaunchState::TryAttach, evs, AppSnapshotTriggerMode::Never),
{
    assert forall|k: int| 0 <= k < evs.len() implies !spec_is_ok_boot_probe(
        #[trigger] evs[k],
        AppSnapshotTriggerMode::Never,
    ) by {
        match evs[k] {
            LaunchEvent::TagsProbed { has_onclose, has_init } => {
                assert(!has_init);
            },
            _ => {},
        }
    }
    lemma_no_spawn_without_boot_decision(
        LaunchState::TryAttach,
        evs,
        AppSnapshotTriggerMode::Never,
    );
}

/// The action pending in a state.
pub fn state_action(s: LaunchState) -> (a: LaunchAction)
    ensures
        a == spec_state_action(s),
{
    match s {
        LaunchState::TryAttach => LaunchAction::ConnectBroker,
        LaunchState::CleanupStale => LaunchAction::RemoveStaleSocket,
        LaunchState::AwaitPriorTeardown => LaunchAction::ProbePriorSession,
        LaunchState::ChoosePort => LaunchAction::PickPort,
        LaunchState::DecideBoot { port: _ } => LaunchAction::ProbeTags,
        LaunchState::SpawnVm { port, boot } => LaunchAction::SpawnVmProcess { port, boot },
        LaunchState::AwaitReady { port: _ } => LaunchAction::ProbeReady,
        LaunchState::StartBroker { port } => LaunchAction::StartBrokerService { port },
        LaunchState::AttachLocalClient { port } => LaunchAction::AttachLocal { port },
        LaunchState::AwaitClientsGone => LaunchAction::AwaitShutdownSignal,
        LaunchState::RunTeardownPolicy => LaunchAction::RunTeardown,
        LaunchState::Quit => LaunchAction::SendQuit,
        LaunchState::AwaitVmExit => LaunchAction::WaitVmExit,
        LaunchState::ForceKill => LaunchAction::KillVm,
        LaunchState::Done => LaunchAction::Finish,
        LaunchState::Failed(e) => LaunchAction::Report(e),
    }
}

/// The state every launch starts in, with its first action.
pub fn launch_start() -> (r: (LaunchState, LaunchAction))
    ensures
        r.0 == LaunchState::TryAttach,
        r.1 == LaunchAction::ConnectBroker,
{
    (LaunchState::TryAttach, LaunchAction::ConnectBroker)
}

/// One orchestrator step: the next state and the next action to perform.
pub fn launch_step(s: LaunchState, e: LaunchEvent, mode: AppSnapshotTriggerMode) -> (r: (
    LaunchState,
    LaunchAction,
))
    ensures
        r == spec_launch_step(s, e, mode),
{
    match (s, e) {
        (LaunchState::TryAttach, LaunchEvent::AttachResult(outcome)) => match outcome {
            AttachOutcome::Attached => (LaunchState::Done, LaunchAction::Finish),
            AttachOutcome::Refused => (LaunchState::CleanupStale, LaunchAction::RemoveStaleSocket),
            AttachOutcome::OtherFailure => (
                LaunchState::AwaitPriorTeardown,
                LaunchAction::ProbePriorSession,
            ),
        },
        (LaunchState::CleanupStale, LaunchEvent::StaleRemoved) => (
            LaunchState::AwaitPriorTeardown,
            LaunchAction::ProbePriorSession,
        ),
        (LaunchState::AwaitPriorTeardown, LaunchEvent::PriorProbe(answers)) => {
            if answers {
                (LaunchState::AwaitPriorTeardown, LaunchAction::ProbePriorSession)
            } else {
                (LaunchState::ChoosePort, LaunchAction::PickPort)
            }
        },
        (LaunchState::ChoosePort, LaunchEvent::PortChosen(port)) => (
            LaunchState::DecideBoot { port },
            LaunchAction::ProbeTags,
        ),
        (
            LaunchState::DecideBoot { port },
            LaunchEvent::TagsProbed { has_onclose, has_init },
        ) => {
            match crate::policy::choose_boot_action(mode, has_onclose, has_init) {
                Ok(boot) => (
                    LaunchState::SpawnVm { port, boot },
                    LaunchAction::SpawnVmProcess { port, boot },
                ),
                Err(PolicyError::NotPackagedCorrectly) => (
                    LaunchState::Failed(LaunchError::NotPackagedCorrectly),
                    LaunchAction::Report(LaunchError::NotPackagedCorrectly),
                ),
            }
        },
        (LaunchState::SpawnVm { port, boot: _ }, LaunchEvent::SpawnResult(spawned)) => {
            if spawned {
                (LaunchState::AwaitReady { port }, LaunchAction::ProbeReady)
            } else {
                (
                    LaunchState::Failed(LaunchError::SpawnFailed),
                    LaunchAction::Report(LaunchError::SpawnFailed),
                )
            }
        },
        (
            LaunchState::AwaitReady { port },
            LaunchEvent::ReadyProbe { vm_exited, socket_ready },
        ) => {
            if vm_exited {
                (
                    LaunchState::Failed(LaunchError::VmDiedBeforeReady),
                    LaunchAction::Report(LaunchError::VmDiedBeforeReady),
                )
            } else if socket_ready {
                (LaunchState::StartBroker { port }, LaunchAction::StartBrokerService { port })
            } else {
                (LaunchState::AwaitReady { port }, LaunchAction::ProbeReady)
            }
        },
        (LaunchState::StartBroker { port }, LaunchEvent::BrokerStarted) => (
            LaunchState::AttachLocalClient { port },
            LaunchAction::AttachLocal { port },
        ),
        (LaunchState::AttachLocalClient { port: _ }, LaunchEvent::LocalClientDone) => (
            LaunchState::AwaitClientsGone,
            LaunchAction::AwaitShutdownSignal,
        ),
        (LaunchState::AwaitClientsGone, LaunchEvent::AllClientsGone) => (
            LaunchState::RunTeardownPolicy,
            LaunchAction::RunTeardown,
        ),
        (LaunchState::RunTeardownPolicy, LaunchEvent::TeardownDone(saved)) => {
            if saved {
                (LaunchState::Quit, LaunchAction::SendQuit)
            } else {
                (
                    LaunchState::Failed(LaunchError::TeardownFailed),
                    LaunchAction::Report(LaunchError::TeardownFailed),
                )
            }
        },
        (LaunchState::Quit, LaunchEvent::QuitResult(accepted)) => {
            if accepted {
                (LaunchState::AwaitVmExit, LaunchAction::WaitVmExit)
            } else {
                (LaunchState::ForceKill, LaunchAction::KillVm)
            }
        },
        (LaunchState::AwaitVmExit, LaunchEvent::VmExited) => (
            LaunchState::Done,
            LaunchAction::Finish,
        ),
        (LaunchState::ForceKill, LaunchEvent::VmExited) => (
            LaunchState::Done,
            LaunchAction::Finish,
        ),
        (_, _) => {
            let a = state_action(s);
            (s, a)
        },
    }
}

} // verus!
