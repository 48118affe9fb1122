use clip_engine::publish::{publish_advance, publish_status, PublishStep};

fn run(outcomes: &[bool]) -> (PublishStep, Vec<&'static str>) {
    let mut step = PublishStep::Exporting;
    let mut statuses = vec![publish_status(step)];
    for &ok in outcomes {
        if matches!(step, PublishStep::Finished | PublishStep::Failed) {
            break;
        }
        step = publish_advance(step, ok);
        statuses.push(publish_status(step));
    }
    (step, statuses)
}

#[test]
fn a_run_where_everything_works_is_published() {
    let (end, statuses) = run(&[true; 7]);
    assert_eq!(end, PublishStep::Finished);
    assert_eq!(statuses.first(), Some(&"transcoding"));
    assert_eq!(statuses[3], "uploading");
    assert_eq!(statuses.last(), Some(&"complete"));
}

#[test]
fn failures_before_the_upload_just_fail() {
    assert_eq!(publish_advance(PublishStep::Exporting, false), PublishStep::Failed);
    assert_eq!(publish_advance(PublishStep::MakingThumbnail, false), PublishStep::Failed);
    assert_eq!(publish_advance(PublishStep::CreatingUpload, false), PublishStep::Failed);
    let (end, statuses) = run(&[true, false, true]);
    assert_eq!(end, PublishStep::Failed);
    assert_eq!(statuses.last(), Some(&"failed"));
}

#[test]
fn failures_after_the_upload_remove_the_remote_clip() {
    for step in [
        PublishStep::UploadingVideo,
        PublishStep::UploadingThumbnail,
        PublishStep::CompletingUpload,
        PublishStep::FindingRemote,
    ] {
        assert_eq!(publish_advance(step, false), PublishStep::RemovingRemote);
    }
    assert_eq!(publish_advance(PublishStep::RemovingRemote, true), PublishStep::Failed);
    assert_eq!(publish_advance(PublishStep::RemovingRemote, false), PublishStep::Failed);
    let (end, _) = run(&[true, true, true, true, false, true]);
    assert_eq!(end, PublishStep::Failed);
}

#[test]
fn finished_and_failed_runs_stay_put() {
    assert_eq!(publish_advance(PublishStep::Finished, false), PublishStep::Finished);
    assert_eq!(publish_advance(PublishStep::Failed, true), PublishStep::Failed);
    assert_eq!(publish_status(PublishStep::RemovingRemote), "uploading");
}
