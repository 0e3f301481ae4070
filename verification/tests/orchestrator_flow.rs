use appack::orchestrator::{
    launch_start, launch_step, AttachOutcome, LaunchAction, LaunchError, LaunchEvent, LaunchState,
};
use appack::policy::{AppSnapshotTriggerMode, BootAction, BootTag};

#[test]
fn attach_to_live_session_finishes_immediately() {
    let (s, a) = launch_start();
    assert_eq!(a, LaunchAction::ConnectBroker);
    let (s, a) = launch_step(
        s,
        LaunchEvent::AttachResult(AttachOutcome::Attached),
        AppSnapshotTriggerMode::OnClose,
    );
    assert_eq!(s, LaunchState::Done);
    assert_eq!(a, LaunchAction::Finish);
}

#[test]
fn stale_socket_is_removed_before_going_on() {
    let mode = AppSnapshotTriggerMode::OnClose;
    let (s, _) = launch_start();
    let (s, a) = launch_step(s, LaunchEvent::AttachResult(AttachOutcome::Refused), mode);
    assert_eq!(s, LaunchState::CleanupStale);
    assert_eq!(a, LaunchAction::RemoveStaleSocket);
    let (s, a) = launch_step(s, LaunchEvent::StaleRemoved, mode);
    assert_eq!(s, LaunchState::AwaitPriorTeardown);
    assert_eq!(a, LaunchAction::ProbePriorSession);
}

#[test]
fn prior_session_is_waited_out() {
    let mode = AppSnapshotTriggerMode::Never;
    let s = LaunchState::AwaitPriorTeardown;
    let (s, a) = launch_step(s, LaunchEvent::PriorProbe(true), mode);
    assert_eq!(s, LaunchState::AwaitPriorTeardown);
    assert_eq!(a, LaunchAction::ProbePriorSession);
    let (s, a) = launch_step(s, LaunchEvent::PriorProbe(false), mode);
    assert_eq!(s, LaunchState::ChoosePort);
    assert_eq!(a, LaunchAction::PickPort);
}

#[test]
fn never_mode_without_init_fails_before_any_spawn() {
    let mode = AppSnapshotTriggerMode::Never;
    let (s, _) = launch_start();
    let (s, _) = launch_step(s, LaunchEvent::AttachResult(AttachOutcome::OtherFailure), mode);
    let (s, _) = launch_step(s, LaunchEvent::PriorProbe(false), mode);
    let (s, a) = launch_step(s, LaunchEvent::PortChosen(4321), mode);
    assert_eq!(s, LaunchState::DecideBoot { port: 4321 });
    assert_eq!(a, LaunchAction::ProbeTags);
    // the packaged initial snapshot is missing: fatal, nothing was spawned
    let (s, a) = launch_step(
        s,
        LaunchEvent::TagsProbed { has_onclose: false, has_init: false },
        mode,
    );
    assert_eq!(s, LaunchState::Failed(LaunchError::NotPackagedCorrectly));
    assert_eq!(a, LaunchAction::Report(LaunchError::NotPackagedCorrectly));
    // the failure is final: a stray later event changes nothing
    let (s, a) = launch_step(s, LaunchEvent::VmExited, mode);
    assert_eq!(s, LaunchState::Failed(LaunchError::NotPackagedCorrectly));
    assert_eq!(a, LaunchAction::Report(LaunchError::NotPackagedCorrectly));
}

#[test]
fn vm_death_before_ready_is_fatal_and_broker_never_starts() {
    let mode = AppSnapshotTriggerMode::NeverLoad;
    let s = LaunchState::AwaitReady { port: 5000 };
    // a slow start keeps polling
    let (s, a) = launch_step(
        s,
        LaunchEvent::ReadyProbe { vm_exited: false, socket_ready: false },
        mode,
    );
    assert_eq!(s, LaunchState::AwaitReady { port: 5000 });
    assert_eq!(a, LaunchAction::ProbeReady);
    // the VM process exits before the socket answers: reported as its own
    // condition, and no step from here on starts the broker
    let (s, a) = launch_step(
        s,
        LaunchEvent::ReadyProbe { vm_exited: true, socket_ready: false },
        mode,
    );
    assert_eq!(s, LaunchState::Failed(LaunchError::VmDiedBeforeReady));
    assert_eq!(a, LaunchAction::Report(LaunchError::VmDiedBeforeReady));
    let (s, a) = launch_step(s, LaunchEvent::BrokerStarted, mode);
    assert_eq!(s, LaunchState::Failed(LaunchError::VmDiedBeforeReady));
    assert!(a != LaunchAction::StartBrokerService { port: 5000 });
}

#[test]
fn full_session_walkthrough() {
    let mode = AppSnapshotTriggerMode::OnClose;
    let (s, _) = launch_start();
    let (s, _) = launch_step(s, LaunchEvent::AttachResult(AttachOutcome::OtherFailure), mode);
    let (s, _) = launch_step(s, LaunchEvent::PriorProbe(false), mode);
    let (s, _) = launch_step(s, LaunchEvent::PortChosen(3390), mode);
    let (s, a) = launch_step(
        s,
        LaunchEvent::TagsProbed { has_onclose: true, has_init: true },
        mode,
    );
    match (&s, &a) {
        (
            LaunchState::SpawnVm { port, boot },
            LaunchAction::SpawnVmProcess { port: ap, boot: ab },
        ) => {
            assert_eq!(*port, 3390);
            assert_eq!(*ap, 3390);
            assert_eq!(boot.action, BootAction::LoadTag(BootTag::OnClose));
            assert_eq!(ab.action, BootAction::LoadTag(BootTag::OnClose));
        },
        _ => panic!("expected a spawn"),
    }
    let (s, a) = launch_step(s, LaunchEvent::SpawnResult(true), mode);
    assert_eq!(s, LaunchState::AwaitReady { port: 3390 });
    assert_eq!(a, LaunchAction::ProbeReady);
    let (s, a) = launch_step(
        s,
        LaunchEvent::ReadyProbe { vm_exited: false, socket_ready: true },
        mode,
    );
    assert_eq!(s, LaunchState::StartBroker { port: 3390 });
    assert_eq!(a, LaunchAction::StartBrokerService { port: 3390 });
    let (s, a) = launch_step(s, LaunchEvent::BrokerStarted, mode);
    assert_eq!(s, LaunchState::AttachLocalClient { port: 3390 });
    assert_eq!(a, LaunchAction::AttachLocal { port: 3390 });
    let (s, a) = launch_step(s, LaunchEvent::LocalClientDone, mode);
    assert_eq!(s, LaunchState::AwaitClientsGone);
    assert_eq!(a, LaunchAction::AwaitShutdownSignal);
    let (s, a) = launch_step(s, LaunchEvent::AllClientsGone, mode);
    assert_eq!(s, LaunchState::RunTeardownPolicy);
    assert_eq!(a, LaunchAction::RunTeardown);
    let (s, a) = launch_step(s, LaunchEvent::TeardownDone(true), mode);
    assert_eq!(s, LaunchState::Quit);
    assert_eq!(a, LaunchAction::SendQuit);
    let (s, a) = launch_step(s, LaunchEvent::QuitResult(true), mode);
    assert_eq!(s, LaunchState::AwaitVmExit);
    assert_eq!(a, LaunchAction::WaitVmExit);
    let (s, a) = launch_step(s, LaunchEvent::VmExited, mode);
    assert_eq!(s, LaunchState::Done);
    assert_eq!(a, LaunchAction::Finish);
}

#[test]
fn failed_spawn_is_fatal() {
    let mode = AppSnapshotTriggerMode::NeverLoad;
    let s = LaunchState::SpawnVm {
        port: 1,
        boot: appack::policy::BootDecision {
            action: BootAction::ColdBoot,
            notice: appack::policy::BootNotice::Quiet,
        },
    };
    let (s, a) = launch_step(s, LaunchEvent::SpawnResult(false), mode);
    assert_eq!(s, LaunchState::Failed(LaunchError::SpawnFailed));
    assert_eq!(a, LaunchAction::Report(LaunchError::SpawnFailed));
}

#[test]
fn failed_teardown_is_fatal() {
    let mode = AppSnapshotTriggerMode::OnClose;
    let (s, a) = launch_step(
        LaunchState::RunTeardownPolicy,
        LaunchEvent::TeardownDone(false),
        mode,
    );
    assert_eq!(s, LaunchState::Failed(LaunchError::TeardownFailed));
    assert_eq!(a, LaunchAction::Report(LaunchError::TeardownFailed));
}

#[test]
fn refused_quit_falls_back_to_kill() {
    let mode = AppSnapshotTriggerMode::OnClose;
    let (s, a) = launch_step(LaunchState::Quit, LaunchEvent::QuitResult(false), mode);
    assert_eq!(s, LaunchState::ForceKill);
    assert_eq!(a, LaunchAction::KillVm);
    let (s, a) = launch_step(s, LaunchEvent::VmExited, mode);
    assert_eq!(s, LaunchState::Done);
    assert_eq!(a, LaunchAction::Finish);
}

#[test]
fn unexpected_events_repeat_the_pending_action() {
    let mode = AppSnapshotTriggerMode::OnClose;
    let (s, a) = launch_step(LaunchState::ChoosePort, LaunchEvent::VmExited, mode);
    assert_eq!(s, LaunchState::ChoosePort);
    assert_eq!(a, LaunchAction::PickPort);
}
