//! Snapshot control client, modelled over plain values.
//!
//! The running VM exposes a control socket; the surrounding program issues
//! commands on it and reports back what it observed. The decision logic —
//! the exactly-one-device rule, the existence pre-checks that make retries
//! idempotent, and the fail-closed job polling — lives here and is verified
//! over those observations. A poll script (`Vec<Option<JobView>>`) stands for
//! the successive `query-jobs` answers, projected to the job of interest.

use vstd::prelude::*;
use vstd::string::StringExecFns;
use crate::policy::{AppSnapshotTriggerMode, TeardownAction, choose_teardown_action};
use crate::text::str_eq;
use crate::{spec_tag_onclose, tag_onclose};

verus! {

/// The status a polled job reports.
#[derive(Debug, Clone, Copy, PartialEq, Eq, Structural)]
pub enum JobStatus {
    Created,
    Running,
    Waiting,
    Pending,
    Concluded,
    /// Any status outside the recognized set (treated fail-closed).
    Other,
}

/// One `query-jobs` answer, projected to the job of interest.
#[derive(Debug, Clone, PartialEq, Eq)]
pub struct JobView {
    pub status: JobStatus,
    /// Error text carried by a concluded job, if any.
    pub error: Option<String>,
}

/// Failures of the snapshot operations.
#[derive(Debug, Clone, PartialEq, Eq)]
pub enum SnapshotError {
    /// A save was requested for a tag that already exists.
    SnapshotExists,
    /// A delete was requested for a tag that does not exist.
    SnapshotNotFound,
    /// The job concluded carrying the given error text, or was observed in an
    /// unrecognized state (`None`).
    JobFailed(Option<String>),
    /// A poll did not find the job at all.
    JobNotFound,
    /// No block device with media inserted.
    NoBlockDevice,
    /// More than one block device with media inserted.
    MultipleBlockDevices,
}

/// Exactly one block device must participate in snapshot operations.
pub open spec fn spec_device_check(inserted_count: usize) -> Result<(), SnapshotError> {
    if inserted_count == 1 {
        Ok(())
    } else if inserted_count == 0 {
        Err(SnapshotError::NoBlockDevice)
    } else {
        Err(SnapshotError::MultipleBlockDevices)
    }
}

/// Check the number of block devices with media inserted: any count other
/// than one is a configuration fault, not retried.
pub fn check_block_devices(inserted_count: usize) -> (r: Result<(), SnapshotError>)
    ensures
        r == spec_device_check(inserted_count),
        r is Ok <==> inserted_count == 1,
{
    if inserted_count == 1 {
        Ok(())
    } else if inserted_count == 0 {
        Err(SnapshotError::NoBlockDevice)
    } else {
        Err(SnapshotError::MultipleBlockDevices)
    }
}

/// Whether the tag list of the disk image holds this exact tag.
pub open spec fn spec_has_tag(tags: Seq<Seq<char>>, tag: Seq<char>) -> bool {
    exists|i: int| 0 <= i < tags.len() && tags[i] == tag
}

/// Whether the disk image's snapshot list holds an exact match of `tag`.
/// Inspects only; mutates nothing.
pub fn has_snapshot(tags: &Vec<String>, tag: &str) -> (b: bool)
    ensures
        b == spec_has_tag(tags.deep_view(), tag@),
{
    let mut i: usize = 0;
    while i < tags.len()
        invariant
            i <= tags@.len(),
            forall|k: int| 0 <= k < i ==> tags@[k]@ != tag@,
        decreases tags@.len() - i,
    {
        if str_eq(tags[i].as_str(), tag) {
            assert(tags.deep_view()[i as int] == tags@[i as int]@);
            return true;
        }
        i += 1;
    }
    assert(forall|k: int|
        0 <= k < tags.deep_view().len() ==> tags.deep_view()[k] == tags@[k]@);
    false
}

/// Whether the image tool's snapshot listing names this tag: it does exactly
/// when ` <tag> ` (with a space on both sides, as the listing's columns
/// leave) occurs in the output.
pub fn output_lists_snapshot(listing: &str, tag: &str) -> (b: bool)
    ensures
        b == (crate::template::spec_find_from(listing@, " "@ + tag@ + " "@, 0) is Some),
{
    let pat = String::from_str(" ").concat(tag).concat(" ");
    proof {
        assert(pat@ =~= " "@ + tag@ + " "@);
    }
    let v = crate::text::str_to_chars(listing);
    let pv = crate::text::str_to_chars(pat.as_str());
    match crate::template::find_from(&v, &pv, 0) {
        Some(_) => true,
        None => false,
    }
}

/// What one poll observation means for the waiting caller.
pub open spec fn spec_poll_verdict(obs: Option<JobView>) -> PollVerdict {
    match obs {
        None => PollVerdict::Missing,
        Some(j) => match j.status {
            JobStatus::Concluded => match j.error {
                Some(e) => PollVerdict::Failed(Some(e)),
                None => PollVerdict::Done,
            },
            JobStatus::Created => PollVerdict::KeepWaiting,
            JobStatus::Running => PollVerdict::KeepWaiting,
            JobStatus::Waiting => PollVerdict::KeepWaiting,
            JobStatus::Pending => PollVerdict::KeepWaiting,
            JobStatus::Other => PollVerdict::Failed(None),
        },
    }
}

/// The verdict of a single poll observation.
#[derive(Debug, Clone, PartialEq, Eq)]
pub enum PollVerdict {
    /// The job is still in progress; poll again.
    KeepWaiting,
    /// The job concluded without error.
    Done,
    /// The job concluded with this error text, or (`None`) was observed in an
    /// unrecognized state; fail-closed either way.
    Failed(Option<String>),
    /// The poll did not find the job.
    Missing,
}

/// Classify one poll observation. Recognized non-terminal states mean keep
/// waiting; a concluded job carries success or its error text; anything else
/// fails closed.
pub fn classify_job_poll(obs: &Option<JobView>) -> (v: PollVerdict)
    ensures
        v == spec_poll_verdict(*obs),
{
    match obs {
        None => PollVerdict::Missing,
        Some(j) => match j.status {
            JobStatus::Concluded => match &j.error {
                Some(e) => PollVerdict::Failed(Some(e.clone())),
                None => PollVerdict::Done,
            },
            JobStatus::Created => PollVerdict::KeepWaiting,
            JobStatus::Running => PollVerdict::KeepWaiting,
            JobStatus::Waiting => PollVerdict::KeepWaiting,
            JobStatus::Pending => PollVerdict::KeepWaiting,
            JobStatus::Other => PollVerdict::Failed(None),
        },
    }
}

/// The outcome of polling a job over a script of observations: `None` when
/// the script ends while the job is still in progress, otherwise the result
/// decided by the first decisive observation.
pub open spec fn spec_poll_outcome(script: Seq<Option<JobView>>) -> Option<
    Result<(), SnapshotError>,
>
    decreases script.len(),
{
    if script.len() == 0 {
        None
    } else {
        match spec_poll_verdict(script[0]) {
            PollVerdict::KeepWaiting => spec_poll_outcome(script.drop_first()),
            PollVerdict::Done => Some(Ok(())),
            PollVerdict::Failed(e) => Some(Err(SnapshotError::JobFailed(e))),
            PollVerdict::Missing => Some(Err(SnapshotError::JobNotFound)),
        }
    }
}

/// Poll the job to conclusion over a script of observations. The real client
/// blocks and polls at a fixed interval; its decisions per observation are
/// exactly these.
pub fn poll_to_conclusion(script: &Vec<Option<JobView>>) -> (r: Option<
    Result<(), SnapshotError>,
>)
    ensures
        r == spec_poll_outcome(script@),
{
    let mut i: usize = 0;
    proof {
        assert(script@.skip(0) =~= script@);
    }
    while i < script.len()
        invariant
            i <= script@.len(),
            spec_poll_outcome(script@) == spec_poll_outcome(script@.skip(i as int)),
        decreases script@.len() - i,
    {
        proof {
            assert(script@.skip(i as int)[0] == script@[i as int]);
            assert(script@.skip(i as int).drop_first() =~= script@.skip(i as int + 1));
        }
        let verdict = classify_job_poll(&script[i]);
        match verdict {
            PollVerdict::KeepWaiting => {
                i += 1;
            },
            PollVerdict::Done => {
                return Some(Ok(()));
            },
            PollVerdict::Failed(e) => {
                return Some(Err(SnapshotError::JobFailed(e)));
            },
            PollVerdict::Missing => {
                return Some(Err(SnapshotError::JobNotFound));
            },
        }
    }
    None
}

/// The tag list with every exact match of `tag` removed, order otherwise
/// kept.
pub open spec fn spec_remove_tag(tags: Seq<Seq<char>>, tag: Seq<char>) -> Seq<Seq<char>>
    decreases tags.len(),
{
    if tags.len() == 0 {
        Seq::empty()
    } else {
        let rest = spec_remove_tag(tags.drop_first(), tag);
        if tags[0] == tag {
            rest
        } else {
            seq![tags[0]] + rest
        }
    }
}

/// After removal the tag is gone; every other tag is untouched.
pub proof fn lemma_remove_tag(tags: Seq<Seq<char>>, tag: Seq<char>)
    ensures
        !spec_has_tag(spec_remove_tag(tags, tag), tag),
        forall|t: Seq<char>| t != tag ==> #[trigger] spec_has_tag(spec_remove_tag(tags, tag), t)
            == spec_has_tag(tags, t),
    decreases tags.len(),
{
    if tags.len() == 0 {
    } else {
        lemma_remove_tag(tags.drop_first(), tag);
        let removed = spec_remove_tag(tags, tag);
        let rest = spec_remove_tag(tags.drop_first(), tag);
        assert forall|t: Seq<char>| spec_has_tag(tags.drop_first(), t) implies spec_has_tag(
            tags,
            t,
        ) by {
            let i = choose|i: int| 0 <= i < tags.drop_first().len() && tags.drop_first()[i] == t;
            assert(tags[i + 1] == t);
        }
        if tags[0] == tag {
            assert forall|t: Seq<char>| t != tag && spec_has_tag(tags, t) implies spec_has_tag(
                removed,
                t,
            ) by {
                let i = choose|i: int| 0 <= i < tags.len() && tags[i] == t;
                assert(tags.drop_first()[i - 1] == t);
                assert(spec_has_tag(tags.drop_first(), t));
                assert(spec_has_tag(rest, t));
            }
        } else {
            assert(removed[0] == tags[0]);
            assert forall|t: Seq<char>| t != tag && spec_has_tag(tags, t) implies spec_has_tag(
                removed,
                t,
            ) by {
                let i = choose|i: int| 0 <= i < tags.len() && tags[i] == t;
                if i == 0 {
                    assert(removed[0] == t);
                } else {
                    assert(tags.drop_first()[i - 1] == t);
                    assert(spec_has_tag(tags.drop_first(), t));
                    assert(spec_has_tag(rest, t));
                    let j = choose|j: int| 0 <= j < rest.len() && rest[j] == t;
                    assert(removed[j + 1] == t);
                }
            }
            assert forall|t: Seq<char>| spec_has_tag(removed, t) && t != tag implies spec_has_tag(
                tags,
                t,
            ) by {
                let i = choose|i: int| 0 <= i < removed.len() && removed[i] == t;
                if i == 0 {
                    assert(tags[0] == t);
                } else {
                    assert(rest[i - 1] == t);
                    assert(spec_has_tag(rest, t));
                    assert(spec_has_tag(tags.drop_first(), t));
                    let j = choose|j: int|
                        0 <= j < tags.drop_first().len() && tags.drop_first()[j] == t;
                    assert(tags[j + 1] == t);
                }
            }
            assert(!spec_has_tag(removed, tag)) by {
                if spec_has_tag(removed, tag) {
                    let i = choose|i: int| 0 <= i < removed.len() && removed[i] == tag;
                    if i > 0 {
                        assert(rest[i - 1] == tag);
                    }
                }
            }
        }
    }
}

/// Remove every exact match of `tag` from the tag list, keeping the order of
/// the rest.
pub fn remove_tag(tags: &mut Vec<String>, tag: &str)
    ensures
        final(tags).deep_view() == spec_remove_tag(old(tags).deep_view(), tag@),
{
    let ghost all = tags.deep_view();
    let mut out: Vec<String> = Vec::new();
    let mut i: usize = 0;
    proof {
        assert(all.skip(0) =~= all);
        assert(out.deep_view() + spec_remove_tag(all.skip(0), tag@) =~= spec_remove_tag(
            all,
            tag@,
        ));
    }
    while i < tags.len()
        invariant
            i <= tags@.len(),
            all == tags.deep_view(),
            all.len() == tags@.len(),
            forall|k: int| 0 <= k < all.len() ==> all[k] == tags@[k]@,
            out.deep_view() + spec_remove_tag(all.skip(i as int), tag@) == spec_remove_tag(
                all,
                tag@,
            ),
        decreases tags@.len() - i,
    {
        proof {
            assert(all.skip(i as int)[0] == all[i as int]);
            assert(all.skip(i as int).drop_first() =~= all.skip(i as int + 1));
        }
        let ghost out_before = out.deep_view();
        if !str_eq(tags[i].as_str(), tag) {
            out.push(tags[i].clone());
            proof {
                assert(out.deep_view() =~= out_before.push(all[i as int]));
                assert(out.deep_view() + spec_remove_tag(all.skip(i as int + 1), tag@) =~= (
                out_before + (seq![all[i as int]] + spec_remove_tag(
                    all.skip(i as int + 1),
                    tag@,
                ))));
            }
        }
        i += 1;
    }
    proof {
        assert(all.skip(tags@.len() as int) =~= Seq::<Seq<char>>::empty());
        assert(out.deep_view() + spec_remove_tag(all.skip(tags@.len() as int), tag@)
            =~= out.deep_view());
    }
    *tags = out;
}

/// What a save operation answers, given the tag list seen through the single
/// block device and the job-poll script: the device check, then the existence
/// pre-check that makes retries idempotent, then the poll outcome.
pub open spec fn spec_save_result(
    tags: Seq<Seq<char>>,
    tag: Seq<char>,
    inserted_count: usize,
    script: Seq<Option<JobView>>,
) -> Option<Result<(), SnapshotError>> {
    if inserted_count != 1 {
        Some(spec_device_check(inserted_count))
    } else if spec_has_tag(tags, tag) {
        Some(Err(SnapshotError::SnapshotExists))
    } else {
        spec_poll_outcome(script)
    }
}

/// The tag list after a save operation: unchanged unless the save was
/// submitted and its job concluded without error, in which case the tag is
/// appended.
pub open spec fn spec_tags_after_save(
    tags: Seq<Seq<char>>,
    tag: Seq<char>,
    inserted_count: usize,
    script: Seq<Option<JobView>>,
) -> Seq<Seq<char>> {
    if inserted_count == 1 && !spec_has_tag(tags, tag) && spec_poll_outcome(script) == Some(
        Ok::<(), SnapshotError>(()),
    ) {
        tags.push(tag)
    } else {
        tags
    }
}

/// What a delete operation answers: the device check, then the fail-fast
/// check that the tag exists, then the poll outcome.
pub open spec fn spec_delete_result(
    tags: Seq<Seq<char>>,
    tag: Seq<char>,
    inserted_count: usize,
    script: Seq<Option<JobView>>,
) -> Option<Result<(), SnapshotError>> {
    if inserted_count != 1 {
        Some(spec_device_check(inserted_count))
    } else if !spec_has_tag(tags, tag) {
        Some(Err(SnapshotError::SnapshotNotFound))
    } else {
        spec_poll_outcome(script)
    }
}

/// The tag list after a delete operation: unchanged unless the delete was
/// submitted and its job concluded without error, in which case every exact
/// match of the tag is removed.
pub open spec fn spec_tags_after_delete(
    tags: Seq<Seq<char>>,
    tag: Seq<char>,
    inserted_count: usize,
    script: Seq<Option<JobView>>,
) -> Seq<Seq<char>> {
    if inserted_count == 1 && spec_has_tag(tags, tag) && spec_poll_outcome(script) == Some(
        Ok::<(), SnapshotError>(()),
    ) {
        spec_remove_tag(tags, tag)
    } else {
        tags
    }
}

/// What a snapshot operation did: whether the mutation command was submitted
/// to the protocol at all, and how it ended (`None`: the poll script ran out
/// while the job was still in progress).
#[derive(Debug, PartialEq, Eq)]
pub struct SnapshotOpReport {
    pub submitted: bool,
    pub result: Option<Result<(), SnapshotError>>,
}

/// Save a snapshot under `tag`. Fails fast with `SnapshotExists` — submitting
/// no job — when the tag already exists, so a retry after a crash never
/// silently clobbers state. Otherwise the save is submitted and polled to
/// conclusion; only a job concluded without error puts the tag on the disk.
pub fn save_snapshot_run(
    tags: &mut Vec<String>,
    tag: &String,
    inserted_count: usize,
    script: &Vec<Option<JobView>>,
) -> (o: SnapshotOpReport)
    ensures
        o.submitted <==> (inserted_count == 1 && !spec_has_tag(old(tags).deep_view(), tag@)),
        o.result == spec_save_result(old(tags).deep_view(), tag@, inserted_count, script@),
        final(tags).deep_view() == spec_tags_after_save(
            old(tags).deep_view(),
            tag@,
            inserted_count,
            script@,
        ),
{
    let ghost tags0 = tags.deep_view();
    if let Err(e) = check_block_devices(inserted_count) {
        return SnapshotOpReport { submitted: false, result: Some(Err(e)) };
    }
    if has_snapshot(tags, tag.as_str()) {
        return SnapshotOpReport { submitted: false, result: Some(Err(SnapshotError::SnapshotExists)) };
    }
    let result = poll_to_conclusion(script);
    let succeeded = match &result {
        Some(r) => r.is_ok(),
        None => false,
    };
    if succeeded {
        proof {
            assert(result->Some_0->Ok_0 == ());
            assert(spec_poll_outcome(script@) == Some(Ok::<(), SnapshotError>(())));
        }
        tags.push(tag.clone());
        proof {
            assert(tags.deep_view() =~= tags0.push(tag@));
        }
    }
    SnapshotOpReport { submitted: true, result }
}

/// Delete the snapshot under `tag`. Fails fast with `SnapshotNotFound` —
/// submitting no job — when the tag is absent. Otherwise the delete is
/// submitted and polled to conclusion; only a job concluded without error
/// removes the tag from the disk.
pub fn delete_snapshot_run(
    tags: &mut Vec<String>,
    tag: &String,
    inserted_count: usize,
    script: &Vec<Option<JobView>>,
) -> (o: SnapshotOpReport)
    ensures
        o.submitted <==> (inserted_count == 1 && spec_has_tag(old(tags).deep_view(), tag@)),
        o.result == spec_delete_result(old(tags).deep_view(), tag@, inserted_count, script@),
        final(tags).deep_view() == spec_tags_after_delete(
            old(tags).deep_view(),
            tag@,
            inserted_count,
            script@,
        ),
{
    if let Err(e) = check_block_devices(inserted_count) {
        return SnapshotOpReport { submitted: false, result: Some(Err(e)) };
    }
    if !has_snapshot(tags, tag.as_str()) {
        return SnapshotOpReport {
            submitted: false,
            result: Some(Err(SnapshotError::SnapshotNotFound)),
        };
    }
    let result = poll_to_conclusion(script);
    let succeeded = match &result {
        Some(r) => r.is_ok(),
        None => false,
    };
    if succeeded {
        proof {
            assert(result->Some_0->Ok_0 == ());
            assert(spec_poll_outcome(script@) == Some(Ok::<(), SnapshotError>(())));
        }
        remove_tag(tags, tag.as_str());
    }
    SnapshotOpReport { submitted: true, result }
}

/// The teardown snapshot sequence. Only the `OnClose` mode saves: it first
/// deletes any pre-existing on-close tag — best-effort, a failure there is
/// not fatal — then saves a fresh one; the save's outcome is the sequence's
/// outcome. The other modes touch nothing and succeed.
pub fn run_teardown(
    mode: AppSnapshotTriggerMode,
    tags: &mut Vec<String>,
    inserted_count: usize,
    delete_script: &Vec<Option<JobView>>,
    save_script: &Vec<Option<JobView>>,
) -> (r: Option<Result<(), SnapshotError>>)
    ensures
        mode != AppSnapshotTriggerMode::OnClose ==> final(tags).deep_view() == old(
            tags,
        ).deep_view() && r == Some(Ok::<(), SnapshotError>(())),
        mode == AppSnapshotTriggerMode::OnClose ==> {
            let mid = spec_tags_after_delete(
                old(tags).deep_view(),
                spec_tag_onclose(),
                inserted_count,
                delete_script@,
            );
            &&& final(tags).deep_view() == spec_tags_after_save(
                mid,
                spec_tag_onclose(),
                inserted_count,
                save_script@,
            )
            &&& r == spec_save_result(mid, spec_tag_onclose(), inserted_count, save_script@)
        },
{
    match choose_teardown_action(mode) {
        TeardownAction::NoSave => Some(Ok(())),
        TeardownAction::SaveOnClose => {
            let onclose = String::from_str(tag_onclose());
            let _deleted = delete_snapshot_run(tags, &onclose, inserted_count, delete_script);
            let saved = save_snapshot_run(tags, &onclose, inserted_count, save_script);
            saved.result
        },
    }
}

/// Saving the same tag twice in a row cannot succeed twice: a successful save
/// puts the tag on the disk, and a save is refused — with `SnapshotExists`,
/// submitting no job — exactly when the tag is present.
pub proof fn lemma_save_twice_fails(
    tags: Seq<Seq<char>>,
    tag: Seq<char>,
    script1: Seq<Option<JobView>>,
    script2: Seq<Option<JobView>>,
)
    requires
        spec_save_result(tags, tag, 1, script1) == Some(Ok::<(), SnapshotError>(())),
    ensures
        spec_save_result(
            spec_tags_after_save(tags, tag, 1, script1),
            tag,
            1,
            script2,
        ) == Some(Err::<(), SnapshotError>(SnapshotError::SnapshotExists)),
        spec_tags_after_save(
            spec_tags_after_save(tags, tag, 1, script1),
            tag,
            1,
            script2,
        ) == spec_tags_after_save(tags, tag, 1, script1),
{
    let tags1 = spec_tags_after_save(tags, tag, 1, script1);
    assert(tags1 == tags.push(tag));
    assert(tags1[tags.len() as int] == tag);
}

/// A successful on-close teardown leaves the on-close tag on the disk, so
/// the boot decision of the next launch in `OnClose` mode loads exactly that
/// saved state.
pub proof fn lemma_teardown_enables_onclose_boot(
    tags: Seq<Seq<char>>,
    inserted_count: usize,
    delete_script: Seq<Option<JobView>>,
    save_script: Seq<Option<JobView>>,
)
    requires
        ({
            let mid = spec_tags_after_delete(
                tags,
                crate::spec_tag_onclose(),
                inserted_count,
                delete_script,
            );
            spec_save_result(mid, crate::spec_tag_onclose(), inserted_count, save_script) == Some(
                Ok::<(), SnapshotError>(()),
            )
        }),
    ensures
        ({
            let mid = spec_tags_after_delete(
                tags,
                crate::spec_tag_onclose(),
                inserted_count,
                delete_script,
            );
            let after = spec_tags_after_save(
                mid,
                crate::spec_tag_onclose(),
                inserted_count,
                save_script,
            );
            spec_has_tag(after, crate::spec_tag_onclose())
        }),
        forall|has_init: bool|
            crate::policy::spec_boot_decision(
                crate::policy::AppSnapshotTriggerMode::OnClose,
                true,
                has_init,
            ) == Ok::<crate::policy::BootDecision, crate::policy::PolicyError>(
                crate::policy::BootDecision {
                    action: crate::policy::BootAction::LoadTag(crate::policy::BootTag::OnClose),
                    notice: crate::policy::BootNotice::Quiet,
                },
            ),
{
    let tag = crate::spec_tag_onclose();
    let mid = spec_tags_after_delete(tags, tag, inserted_count, delete_script);
    let after = spec_tags_after_save(mid, tag, inserted_count, save_script);
    assert(after == mid.push(tag));
    assert(after[mid.len() as int] == tag);
}

/// Success of the polling loop requires that the script actually shows the
/// job concluded without error; no other sequence of observations is ever
/// reported as success.
pub proof fn lemma_poll_success_needs_conclusion(script: Seq<Option<JobView>>)
    ensures
        spec_poll_outcome(script) == Some(Ok::<(), SnapshotError>(())) ==> exists|i: int|
            0 <= i < script.len() && ((#[trigger] script[i]) matches Some(j)
                && j.status == JobStatus::Concluded && j.error is None),
    decreases script.len(),
{
    if script.len() > 0 {
        match spec_poll_verdict(script[0]) {
            PollVerdict::KeepWaiting => {
                lemma_poll_success_needs_conclusion(script.drop_first());
                if spec_poll_outcome(script) == Some(Ok::<(), SnapshotError>(())) {
                    let i = choose|i: int|
                        0 <= i < script.drop_first().len() && ((#[trigger] script.drop_first()[i])
                            matches Some(j) && j.status == JobStatus::Concluded && j.error is None);
                    assert(script[i + 1] == script.drop_first()[i]);
                }
            },
            _ => {},
        }
    }
}

} // verus!
