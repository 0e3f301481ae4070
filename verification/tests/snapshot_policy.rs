use appack::policy::{
    choose_boot_action, choose_teardown_action, packaging_snapshot_plan, AppSnapshotTriggerMode,
    BootAction, BootDecision, BootNotice, BootTag, PolicyError, TeardownAction,
};

fn decision(action: BootAction, notice: BootNotice) -> BootDecision {
    BootDecision { action, notice }
}

#[test]
fn boot_table_never_load() {
    // NeverLoad cold boots whatever tags exist
    for &(onclose, init) in &[(false, false), (false, true), (true, false), (true, true)] {
        assert_eq!(
            choose_boot_action(AppSnapshotTriggerMode::NeverLoad, onclose, init),
            Ok(decision(BootAction::ColdBoot, BootNotice::Quiet))
        );
    }
}

#[test]
fn boot_table_never_with_init() {
    for &onclose in &[false, true] {
        assert_eq!(
            choose_boot_action(AppSnapshotTriggerMode::Never, onclose, true),
            Ok(decision(BootAction::LoadTag(BootTag::Init), BootNotice::Quiet))
        );
    }
}

#[test]
fn boot_table_never_missing_init_is_fatal() {
    for &onclose in &[false, true] {
        assert_eq!(
            choose_boot_action(AppSnapshotTriggerMode::Never, onclose, false),
            Err(PolicyError::NotPackagedCorrectly)
        );
    }
}

#[test]
fn boot_table_onclose_present() {
    for &init in &[false, true] {
        assert_eq!(
            choose_boot_action(AppSnapshotTriggerMode::OnClose, true, init),
            Ok(decision(BootAction::LoadTag(BootTag::OnClose), BootNotice::Quiet))
        );
    }
}

#[test]
fn boot_table_onclose_falls_back_to_init() {
    assert_eq!(
        choose_boot_action(AppSnapshotTriggerMode::OnClose, false, true),
        Ok(decision(BootAction::LoadTag(BootTag::Init), BootNotice::InitFallback))
    );
}

#[test]
fn boot_table_onclose_first_launch_cold_boots() {
    assert_eq!(
        choose_boot_action(AppSnapshotTriggerMode::OnClose, false, false),
        Ok(decision(BootAction::ColdBoot, BootNotice::FirstLaunch))
    );
}

#[test]
fn teardown_only_onclose_saves() {
    assert_eq!(
        choose_teardown_action(AppSnapshotTriggerMode::OnClose),
        TeardownAction::SaveOnClose
    );
    assert_eq!(choose_teardown_action(AppSnapshotTriggerMode::Never), TeardownAction::NoSave);
    assert_eq!(choose_teardown_action(AppSnapshotTriggerMode::NeverLoad), TeardownAction::NoSave);
}

#[test]
fn packaging_plan_per_mode() {
    assert_eq!(
        packaging_snapshot_plan(AppSnapshotTriggerMode::OnClose),
        vec![BootTag::Init, BootTag::OnClose]
    );
    assert_eq!(packaging_snapshot_plan(AppSnapshotTriggerMode::Never), vec![BootTag::Init]);
    assert_eq!(packaging_snapshot_plan(AppSnapshotTriggerMode::NeverLoad), Vec::<BootTag>::new());
}

#[test]
fn well_known_tags() {
    assert_eq!(appack::tag_init(), "appack-init");
    assert_eq!(appack::tag_onclose(), "appack-onclose");
}
