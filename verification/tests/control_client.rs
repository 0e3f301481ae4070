use appack::control::{
    check_block_devices, delete_snapshot_run, has_snapshot, output_lists_snapshot,
    poll_to_conclusion, run_teardown, save_snapshot_run, JobStatus, JobView, SnapshotError,
};
use appack::policy::{choose_boot_action, AppSnapshotTriggerMode, BootAction, BootTag};

fn job(status: JobStatus) -> Option<JobView> {
    Some(JobView { status, error: None })
}

fn failed_job(error: &str) -> Option<JobView> {
    Some(JobView { status: JobStatus::Concluded, error: Some(error.to_string()) })
}

#[test]
fn device_check_requires_exactly_one() {
    assert_eq!(check_block_devices(1), Ok(()));
    assert_eq!(check_block_devices(0), Err(SnapshotError::NoBlockDevice));
    assert_eq!(check_block_devices(2), Err(SnapshotError::MultipleBlockDevices));
    assert_eq!(check_block_devices(7), Err(SnapshotError::MultipleBlockDevices));
}

#[test]
fn polling_succeeds_only_after_conclusion() {
    // scripted sequence: created, running, waiting, concluded (no error)
    let script = vec![
        job(JobStatus::Created),
        job(JobStatus::Running),
        job(JobStatus::Waiting),
        job(JobStatus::Concluded),
    ];
    assert_eq!(poll_to_conclusion(&script), Some(Ok(())));

    // without the conclusion the client is still waiting, not successful
    let unfinished = vec![job(JobStatus::Created), job(JobStatus::Running), job(JobStatus::Waiting)];
    assert_eq!(poll_to_conclusion(&unfinished), None);
}

#[test]
fn polling_wraps_the_exact_error_text() {
    let script = vec![job(JobStatus::Created), failed_job("disk full")];
    assert_eq!(
        poll_to_conclusion(&script),
        Some(Err(SnapshotError::JobFailed(Some("disk full".to_string()))))
    );
}

#[test]
fn polling_fails_closed_on_unknown_status() {
    let script = vec![job(JobStatus::Other)];
    assert_eq!(poll_to_conclusion(&script), Some(Err(SnapshotError::JobFailed(None))));
}

#[test]
fn polling_fails_when_the_job_is_missing() {
    let script = vec![job(JobStatus::Created), None];
    assert_eq!(poll_to_conclusion(&script), Some(Err(SnapshotError::JobNotFound)));
}

#[test]
fn pending_counts_as_in_progress() {
    let script = vec![job(JobStatus::Pending), job(JobStatus::Concluded)];
    assert_eq!(poll_to_conclusion(&script), Some(Ok(())));
}

#[test]
fn save_twice_fails_without_a_second_submission() {
    let mut tags: Vec<String> = Vec::new();
    let tag = "appack-init".to_string();
    let script = vec![job(JobStatus::Concluded)];

    let first = save_snapshot_run(&mut tags, &tag, 1, &script);
    assert!(first.submitted);
    assert_eq!(first.result, Some(Ok(())));
    assert_eq!(tags, vec!["appack-init".to_string()]);

    let second = save_snapshot_run(&mut tags, &tag, 1, &script);
    assert!(!second.submitted);
    assert_eq!(second.result, Some(Err(SnapshotError::SnapshotExists)));
    assert_eq!(tags, vec!["appack-init".to_string()]);
}

#[test]
fn delete_of_missing_tag_submits_nothing() {
    let mut tags: Vec<String> = vec!["appack-init".to_string()];
    let tag = "appack-onclose".to_string();
    let script = vec![job(JobStatus::Concluded)];

    let r = delete_snapshot_run(&mut tags, &tag, 1, &script);
    assert!(!r.submitted);
    assert_eq!(r.result, Some(Err(SnapshotError::SnapshotNotFound)));
    assert_eq!(tags, vec!["appack-init".to_string()]);
}

#[test]
fn delete_removes_the_tag() {
    let mut tags: Vec<String> = vec!["appack-init".to_string(), "appack-onclose".to_string()];
    let tag = "appack-onclose".to_string();
    let script = vec![job(JobStatus::Running), job(JobStatus::Concluded)];

    let r = delete_snapshot_run(&mut tags, &tag, 1, &script);
    assert!(r.submitted);
    assert_eq!(r.result, Some(Ok(())));
    assert_eq!(tags, vec!["appack-init".to_string()]);
}

#[test]
fn save_refused_without_exactly_one_device() {
    let mut tags: Vec<String> = Vec::new();
    let tag = "appack-init".to_string();
    let script = vec![job(JobStatus::Concluded)];

    let none = save_snapshot_run(&mut tags, &tag, 0, &script);
    assert!(!none.submitted);
    assert_eq!(none.result, Some(Err(SnapshotError::NoBlockDevice)));

    let many = save_snapshot_run(&mut tags, &tag, 3, &script);
    assert!(!many.submitted);
    assert_eq!(many.result, Some(Err(SnapshotError::MultipleBlockDevices)));
    assert!(tags.is_empty());
}

#[test]
fn failed_save_leaves_no_tag() {
    let mut tags: Vec<String> = Vec::new();
    let tag = "appack-onclose".to_string();
    let script = vec![failed_job("io error")];

    let r = save_snapshot_run(&mut tags, &tag, 1, &script);
    assert!(r.submitted);
    assert_eq!(r.result, Some(Err(SnapshotError::JobFailed(Some("io error".to_string())))));
    assert!(tags.is_empty());
}

#[test]
fn full_session_cold_boot_then_onclose_boot() {
    // first launch: OnClose mode, no tags at all: cold boot
    let mut tags: Vec<String> = Vec::new();
    let mode = AppSnapshotTriggerMode::OnClose;
    let boot1 = choose_boot_action(
        mode,
        has_snapshot(&tags, "appack-onclose"),
        has_snapshot(&tags, "appack-init"),
    )
    .unwrap();
    assert_eq!(boot1.action, BootAction::ColdBoot);

    // all clients gone: teardown deletes the absent on-close tag (not found,
    // ignored) and saves a fresh one
    let delete_script: Vec<Option<JobView>> = Vec::new();
    let save_script = vec![job(JobStatus::Running), job(JobStatus::Concluded)];
    let r = run_teardown(mode, &mut tags, 1, &delete_script, &save_script);
    assert_eq!(r, Some(Ok(())));
    assert_eq!(tags, vec!["appack-onclose".to_string()]);

    // second launch: the saved state is loaded
    let boot2 = choose_boot_action(
        mode,
        has_snapshot(&tags, "appack-onclose"),
        has_snapshot(&tags, "appack-init"),
    )
    .unwrap();
    assert_eq!(boot2.action, BootAction::LoadTag(BootTag::OnClose));
}

#[test]
fn teardown_replaces_a_stale_onclose_tag() {
    let mut tags: Vec<String> = vec!["appack-init".to_string(), "appack-onclose".to_string()];
    let delete_script = vec![job(JobStatus::Concluded)];
    let save_script = vec![job(JobStatus::Concluded)];
    let r = run_teardown(
        AppSnapshotTriggerMode::OnClose,
        &mut tags,
        1,
        &delete_script,
        &save_script,
    );
    assert_eq!(r, Some(Ok(())));
    assert_eq!(tags, vec!["appack-init".to_string(), "appack-onclose".to_string()]);
}

#[test]
fn teardown_saves_nothing_outside_onclose_mode() {
    let mut tags: Vec<String> = vec!["appack-init".to_string()];
    let delete_script = vec![job(JobStatus::Concluded)];
    let save_script = vec![job(JobStatus::Concluded)];
    for mode in [AppSnapshotTriggerMode::Never, AppSnapshotTriggerMode::NeverLoad] {
        let r = run_teardown(mode, &mut tags, 1, &delete_script, &save_script);
        assert_eq!(r, Some(Ok(())));
        assert_eq!(tags, vec!["appack-init".to_string()]);
    }
}

#[test]
fn listing_scan_wants_the_exact_tag() {
    let listing = "ID TAG            VM SIZE DATE\n1  appack-init    512M    2024-01-01";
    assert!(output_lists_snapshot(listing, "appack-init"));
    assert!(!output_lists_snapshot(listing, "appack-onclose"));
    assert!(!output_lists_snapshot("x appack-initial y", "appack-init"));
}

#[test]
fn tag_match_is_exact() {
    let tags = vec!["appack-init".to_string()];
    assert!(has_snapshot(&tags, "appack-init"));
    assert!(!has_snapshot(&tags, "appack-ini"));
    assert!(!has_snapshot(&tags, "appack-init2"));
    assert!(!has_snapshot(&Vec::new(), "appack-init"));
}
