//! The course of a publish job: export, thumbnail, upload, then publish;
//! which stage follows which, what the job's status reads meanwhile, and
//! when a half-made upload has to be removed again. The work of each stage
//! (FFmpeg, the cloud service) is done by the caller.

use vstd::prelude::*;

verus! {

/// The stage a publish run is in; each names the work done next.
#[derive(Clone, Copy, Debug, PartialEq, Eq, Structural)]
pub enum PublishStep {
    /// Encode the selection to the export file.
    Exporting,
    /// Grab the thumbnail from the export.
    MakingThumbnail,
    /// Ask the cloud service for an upload.
    CreatingUpload,
    /// Upload the video.
    UploadingVideo,
    /// Upload the thumbnail.
    UploadingThumbnail,
    /// Tell the service the upload is complete.
    CompletingUpload,
    /// Look the published clip up in the cloud library.
    FindingRemote,
    /// Delete the half-published remote clip after a failure.
    RemovingRemote,
    /// Published.
    Finished,
    /// Given up; the job is marked failed.
    Failed,
}

/// Whether the cloud holds a clip for the run at this stage (the upload
/// was created and the run has not ended).
pub open spec fn holds_remote(step: PublishStep) -> bool {
    step == PublishStep::UploadingVideo || step == PublishStep::UploadingThumbnail || step
        == PublishStep::CompletingUpload || step == PublishStep::FindingRemote
}

pub open spec fn is_terminal(step: PublishStep) -> bool {
    step == PublishStep::Finished || step == PublishStep::Failed
}

/// The stage after `step`, given whether its work succeeded. A failure
/// ends the run, passing through `RemovingRemote` when the cloud already
/// holds the clip; removal is attempted once, whatever its result.
pub open spec fn advance_spec(step: PublishStep, succeeded: bool) -> PublishStep {
    match step {
        PublishStep::Exporting => if succeeded {
            PublishStep::MakingThumbnail
        } else {
            PublishStep::Failed
        },
        PublishStep::MakingThumbnail => if succeeded {
            PublishStep::CreatingUpload
        } else {
            PublishStep::Failed
        },
        PublishStep::CreatingUpload => if succeeded {
            PublishStep::UploadingVideo
        } else {
            PublishStep::Failed
        },
        PublishStep::UploadingVideo => if succeeded {
            PublishStep::UploadingThumbnail
        } else {
            PublishStep::RemovingRemote
        },
        PublishStep::UploadingThumbnail => if succeeded {
            PublishStep::CompletingUpload
        } else {
            PublishStep::RemovingRemote
        },
        PublishStep::CompletingUpload => if succeeded {
            PublishStep::FindingRemote
        } else {
            PublishStep::RemovingRemote
        },
        PublishStep::FindingRemote => if succeeded {
            PublishStep::Finished
        } else {
            PublishStep::RemovingRemote
        },
        PublishStep::RemovingRemote => PublishStep::Failed,
        PublishStep::Finished => PublishStep::Finished,
        PublishStep::Failed => PublishStep::Failed,
    }
}

/// The stage a publish run moves to once the work of `step` finished.
pub fn publish_advance(step: PublishStep, succeeded: bool) -> (r: PublishStep)
    ensures
        r == advance_spec(step, succeeded),
{
    match step {
        PublishStep::Exporting => if succeeded {
            PublishStep::MakingThumbnail
        } else {
            PublishStep::Failed
        },
        PublishStep::MakingThumbnail => if succeeded {
            PublishStep::CreatingUpload
        } else {
            PublishStep::Failed
        },
        PublishStep::CreatingUpload => if succeeded {
            PublishStep::UploadingVideo
        } else {
            PublishStep::Failed
        },
        PublishStep::UploadingVideo => if succeeded {
            PublishStep::UploadingThumbnail
        } else {
            PublishStep::RemovingRemote
        },
        PublishStep::UploadingThumbnail => if succeeded {
            PublishStep::CompletingUpload
        } else {
            PublishStep::RemovingRemote
        },
        PublishStep::CompletingUpload => if succeeded {
            PublishStep::FindingRemote
        } else {
            PublishStep::RemovingRemote
        },
        PublishStep::FindingRemote => if succeeded {
            PublishStep::Finished
        } else {
            PublishStep::RemovingRemote
        },
        PublishStep::RemovingRemote => PublishStep::Failed,
        PublishStep::Finished => PublishStep::Finished,
        PublishStep::Failed => PublishStep::Failed,
    }
}

/// The status the job records while the run is at `step`.
pub open spec fn status_spec(step: PublishStep) -> Seq<char> {
    match step {
        PublishStep::Exporting | PublishStep::MakingThumbnail | PublishStep::CreatingUpload =>
            "transcoding"@,
        PublishStep::UploadingVideo | PublishStep::UploadingThumbnail
        | PublishStep::CompletingUpload | PublishStep::FindingRemote | PublishStep::RemovingRemote =>
            "uploading"@,
        PublishStep::Finished => "complete"@,
        PublishStep::Failed => "failed"@,
    }
}

pub fn publish_status(step: PublishStep) -> (r: &'static str)
    ensures
        r@ == status_spec(step),
{
    match step {
        PublishStep::Exporting | PublishStep::MakingThumbnail | PublishStep::CreatingUpload =>
            "transcoding",
        PublishStep::UploadingVideo | PublishStep::UploadingThumbnail
        | PublishStep::CompletingUpload | PublishStep::FindingRemote | PublishStep::RemovingRemote =>
            "uploading",
        PublishStep::Finished => "complete",
        PublishStep::Failed => "failed",
    }
}

/// Where a run that starts at `step` ends up when the work of its stages
/// has the given outcomes, in order; it stays put once outcomes run out.
pub open spec fn run_from(step: PublishStep, outcomes: Seq<bool>) -> PublishStep
    decreases outcomes.len(),
{
    if outcomes.len() == 0 || is_terminal(step) {
        step
    } else {
        run_from(advance_spec(step, outcomes[0]), outcomes.drop_first())
    }
}

/// How far a stage lies along the run.
pub open spec fn rank(step: PublishStep) -> int {
    match step {
        PublishStep::Exporting => 0,
        PublishStep::MakingThumbnail => 1,
        PublishStep::CreatingUpload => 2,
        PublishStep::UploadingVideo => 3,
        PublishStep::UploadingThumbnail => 4,
        PublishStep::CompletingUpload => 5,
        PublishStep::FindingRemote => 6,
        PublishStep::RemovingRemote => 7,
        PublishStep::Finished => 8,
        PublishStep::Failed => 8,
    }
}

/// Every stage moves the run forward, so a run ends after at most eight
/// stages whatever their outcomes.
pub proof fn lemma_publish_runs_end(step: PublishStep, outcomes: Seq<bool>)
    ensures
        !is_terminal(step) ==> rank(advance_spec(step, true)) > rank(step) && rank(
            advance_spec(step, false),
        ) > rank(step),
        outcomes.len() >= 8 - rank(step) ==> is_terminal(run_from(step, outcomes)),
    decreases outcomes.len(),
{
    if outcomes.len() > 0 && !is_terminal(step) {
        lemma_publish_runs_end(advance_spec(step, outcomes[0]), outcomes.drop_first());
    }
}

proof fn lemma_failed_runs_stay_failed(step: PublishStep, outcomes: Seq<bool>)
    requires
        step == PublishStep::RemovingRemote || step == PublishStep::Failed,
    ensures
        run_from(step, outcomes) != PublishStep::Finished,
    decreases outcomes.len(),
{
    if outcomes.len() > 0 && !is_terminal(step) {
        lemma_failed_runs_stay_failed(advance_spec(step, outcomes[0]), outcomes.drop_first());
    }
}

proof fn lemma_publish_chain(step: PublishStep, outcomes: Seq<bool>)
    requires
        rank(step) <= 6,
        outcomes.len() >= 7 - rank(step),
    ensures
        run_from(step, outcomes) == PublishStep::Finished <==> forall|i: int|
            0 <= i < 7 - rank(step) ==> #[trigger] outcomes[i],
    decreases 7 - rank(step),
{
    let rest = outcomes.drop_first();
    let next = advance_spec(step, outcomes[0]);
    if !outcomes[0] {
        lemma_failed_runs_stay_failed(next, rest);
    } else if rank(step) == 6 {
        assert(next == PublishStep::Finished);
        assert(run_from(next, rest) == PublishStep::Finished);
    } else {
        assert(rank(next) == rank(step) + 1);
        lemma_publish_chain(next, rest);
        if forall|i: int| 0 <= i < 7 - rank(next) ==> #[trigger] rest[i] {
            assert forall|i: int| 0 <= i < 7 - rank(step) implies #[trigger] outcomes[i] by {
                if i > 0 {
                    assert(outcomes[i] == rest[i - 1]);
                }
            }
        }
        if forall|i: int| 0 <= i < 7 - rank(step) ==> #[trigger] outcomes[i] {
            assert forall|i: int| 0 <= i < 7 - rank(next) implies #[trigger] rest[i] by {
                assert(rest[i] == outcomes[i + 1]);
            }
        }
    }
}

/// A run from the start publishes exactly when its seven stages all succeed.
pub proof fn lemma_published_only_when_all_succeed(outcomes: Seq<bool>)
    requires
        outcomes.len() >= 7,
    ensures
        run_from(PublishStep::Exporting, outcomes) == PublishStep::Finished <==> forall|i: int|
            0 <= i < 7 ==> #[trigger] outcomes[i],
{
    lemma_publish_chain(PublishStep::Exporting, outcomes);
}

/// A failure while the cloud holds the clip always leads to its removal;
/// a failure before the upload was created has nothing to remove.
pub proof fn lemma_failures_remove_remote(step: PublishStep)
    ensures
        holds_remote(step) ==> advance_spec(step, false) == PublishStep::RemovingRemote,
        !holds_remote(step) && step != PublishStep::Finished ==> advance_spec(step, false)
            == PublishStep::Failed,
        advance_spec(PublishStep::RemovingRemote, true) == PublishStep::Failed,
{
}

} // verus!
