use clip_engine::models::{bundled_tool, choose_tool, AppPaths};
use clip_engine::commands::{
    any_job_active, app_config, begin_preview, finish_preview, PreviewFields, clip_removal_plan, job_removal_plan, publish_job_plan, audio_selection_valid, audio_track_labels, export_config, job_is_active,
    join_path, new_job_identity, output_name, preview_files, preview_is_current, supported,
    upload_title, within_directory, failed_job, new_clip_id,
};

#[test]
fn supported_recordings_by_extension() {
    assert!(supported("/v/a.mkv"));
    assert!(supported("/v/a.WebM"));
    assert!(supported("/v/a.b.mov"));
    assert!(!supported("/v/a.mp3"));
    assert!(!supported("/v/avi"));
}

#[test]
fn audio_track_labels_split_and_trim() {
    assert_eq!(
        audio_track_labels(None),
        vec!["Game / System".to_string(), "Discord".to_string(), "Microphone".to_string()]
    );
    assert_eq!(
        audio_track_labels(Some(" a , b,,c ".to_string())),
        vec!["a".to_string(), "b".to_string(), "".to_string(), "c".to_string()]
    );
    assert_eq!(audio_track_labels(Some(String::new())), vec!["".to_string()]);
}

#[test]
fn export_profile_is_1080p120() {
    let config = export_config("h264_nvenc".to_string(), 20);
    assert_eq!((config.width, config.height, config.fps, config.crf), (1920, 1080, 120, 20));
    assert_eq!(config.codec, "h264_nvenc");
}

#[test]
fn previews_are_rebuilt_only_when_needed() {
    assert!(preview_is_current(false, "ready", true, true));
    assert!(!preview_is_current(true, "ready", true, true));
    assert!(!preview_is_current(false, "ready", true, false));
    assert!(preview_is_current(true, "processing", false, false));
    assert!(!preview_is_current(false, "failed", true, true));
}

#[test]
fn active_jobs_block_deletion() {
    assert!(job_is_active("queued"));
    assert!(job_is_active("transcoding"));
    assert!(job_is_active("uploading"));
    assert!(!job_is_active("complete"));
    assert!(!job_is_active("failed"));
    assert!(any_job_active(&vec!["complete".to_string(), "uploading".to_string()]));
    assert!(!any_job_active(&vec!["complete".to_string(), "failed".to_string()]));
    assert!(!any_job_active(&vec![]));
}

#[test]
fn audio_selections_must_name_clip_tracks() {
    assert!(audio_selection_valid(&vec![1, 2], &vec![2, 1]));
    assert!(audio_selection_valid(&vec![1, 2], &vec![]));
    assert!(!audio_selection_valid(&vec![1, 2], &vec![3]));
}

#[test]
fn job_names_and_titles() {
    assert_eq!(
        output_name("../../Round Win!!.mkv", "0123456789abcdef"),
        "round-win-01234567.mp4"
    );
    let (id, name) = new_job_identity("Ace.mkv");
    assert_eq!(id.len(), 36);
    assert_eq!(name, format!("ace-{}.mp4", &id[..8]));
    let (other, _) = new_job_identity("Ace.mkv");
    assert_ne!(id, other);
    assert_eq!(upload_title("Ace round.final.mkv"), "Ace round.final");
    assert_eq!(upload_title(""), "");
}

#[test]
fn paths_join_like_the_platform() {
    assert_eq!(join_path("/data/previews", "a.mp4"), "/data/previews/a.mp4");
    assert_eq!(join_path("/data/previews/", "a.mp4"), "/data/previews/a.mp4");
    assert_eq!(join_path("", "a.mp4"), "a.mp4");
    assert_eq!(join_path("/data", "/abs.mp4"), "/abs.mp4");
    assert_eq!(
        preview_files("/p", "id"),
        ("/p/id.mp4".to_string(), "/p/id.jpg".to_string())
    );
    assert!(within_directory("/p/id.mp4", "/p"));
    assert!(within_directory("/p/./id.mp4", "/p/"));
    assert!(!within_directory("/px/id.mp4", "/p"));
    assert!(!within_directory("id.mp4", "/p"));
}

#[test]
fn app_paths_live_under_the_data_folder() {
    let paths = AppPaths::layout("/data", "/videos/Inbox", "ffmpeg".to_string(), "ffprobe".to_string());
    assert_eq!(paths.database, "/data/clip-engine.sqlite3");
    assert_eq!(paths.previews, "/data/previews");
    assert_eq!(paths.exports, "/data/exports");
    assert_eq!(paths.source, "/videos/Inbox");
    assert_eq!(bundled_tool("/opt/res", "ffmpeg"), "/opt/res/binaries/ffmpeg");
    assert_eq!(choose_tool(Some("/x/ffmpeg".to_string()), false, "/b/ffmpeg".to_string(), true, "ffmpeg"), "/x/ffmpeg");
    assert_eq!(choose_tool(None, false, "/b/ffmpeg".to_string(), true, "ffmpeg"), "/b/ffmpeg");
    assert_eq!(choose_tool(None, true, "/b/ffmpeg".to_string(), true, "ffmpeg"), "ffmpeg");
    assert_eq!(choose_tool(None, false, "/b/ffmpeg".to_string(), false, "ffmpeg"), "ffmpeg");
}

#[test]
fn deleting_a_clip_removes_only_app_files() {
    let jobs = vec![
        ("complete".to_string(), "ace-01234567.mp4".to_string()),
        ("failed".to_string(), "/elsewhere/old.mp4".to_string()),
    ];
    let plan = clip_removal_plan(Some("/d/previews/id.mp4"), "id", &jobs, "/d/previews", "/d/exports").unwrap();
    assert_eq!(
        plan,
        vec![
            "/d/previews/id.mp4".to_string(),
            "/d/previews/id.jpg".to_string(),
            "/d/exports/ace-01234567.mp4".to_string(),
        ]
    );
    let elsewhere = clip_removal_plan(Some("/videos/id.mp4"), "id", &vec![], "/d/previews", "/d/exports").unwrap();
    assert_eq!(elsewhere, vec!["/d/previews/id.jpg".to_string()]);
    let busy = vec![("uploading".to_string(), "x.mp4".to_string())];
    assert_eq!(
        clip_removal_plan(None, "id", &busy, "/d/previews", "/d/exports"),
        Err("Wait for active work to finish before deleting this clip.".to_string())
    );
}

#[test]
fn deleting_a_published_version() {
    assert_eq!(
        job_removal_plan("complete", "a.mp4", "/d/exports"),
        Ok(Some("/d/exports/a.mp4".to_string()))
    );
    assert_eq!(job_removal_plan("failed", "/etc/passwd", "/d/exports"), Ok(None));
    assert_eq!(
        job_removal_plan("queued", "a.mp4", "/d/exports"),
        Err("Wait for active work to finish.".to_string())
    );
}

#[test]
fn publish_requests_are_checked_in_order() {
    let tracks = vec![1_i64, 2];
    assert_eq!(
        publish_job_plan(false, false, &tracks, &vec![9], "c1", "a.mkv", "t".to_string()).map(|j| j.id),
        Err("Sign in with an invitation before publishing.".to_string())
    );
    assert_eq!(
        publish_job_plan(true, false, &tracks, &vec![9], "c1", "a.mkv", "t".to_string()).map(|j| j.id),
        Err("The trim selection is invalid.".to_string())
    );
    assert_eq!(
        publish_job_plan(true, true, &tracks, &vec![2, 9], "c1", "a.mkv", "t".to_string()).map(|j| j.id),
        Err("An audio selection is invalid.".to_string())
    );
    let job = publish_job_plan(true, true, &tracks, &vec![2], "c1", "Round Win.mkv", "2024-01-01T00:00:00Z".to_string()).unwrap();
    assert_eq!(job.id.len(), 36);
    assert_eq!(job.output_name, format!("round-win-{}.mp4", &job.id[..8]));
    assert_eq!(job.clip_id, "c1");
    assert_eq!(job.status, "queued");
    assert_eq!(job.created_at, "2024-01-01T00:00:00Z");
    assert!(job.published_at.is_none() && job.expires_at.is_none() && job.url.is_none());
    assert!(job.media_url.is_none() && job.thumbnail_url.is_none());
    assert!(job.remote_clip_id.is_none() && job.error.is_none());
}

#[test]
fn config_uses_stored_settings_and_defaults() {
    let config = app_config(
        "/v/Inbox".to_string(),
        None,
        true,
        false,
        None,
        Some("http://127.0.0.1:1/t".to_string()),
        "linux".to_string(),
        "libx264".to_string(),
        20,
    );
    assert_eq!(config.audio_track_labels.len(), 3);
    assert!(config.r2_configured);
    assert_eq!(config.api_base_url, "https://api.clips.dab.dev");
    assert_eq!(config.public_base_url.as_deref(), Some("https://clips.dab.dev"));
    assert_eq!((config.export.width, config.export.height, config.export.fps), (1920, 1080, 120));
    let stored = app_config(
        String::new(),
        Some("A,B".to_string()),
        false,
        true,
        Some("https://api.example".to_string()),
        None,
        "linux".to_string(),
        "h264_nvenc".to_string(),
        23,
    );
    assert_eq!(stored.audio_track_labels, vec!["A".to_string(), "B".to_string()]);
    assert_eq!(stored.api_base_url, "https://api.example");
    assert!(!stored.r2_configured && stored.pending_access_request);
}

#[test]
fn previews_run_one_at_a_time() {
    let ready = PreviewFields { status: "ready".to_string(), path: Some("/p/a.mp4".to_string()), error: None };
    let (kept, started) = begin_preview(ready, false, true, true);
    assert!(!started);
    assert_eq!(kept.path.as_deref(), Some("/p/a.mp4"));
    let stale = PreviewFields { status: "failed".to_string(), path: None, error: Some("x".to_string()) };
    let (marked, started) = begin_preview(stale, false, false, false);
    assert!(started);
    assert_eq!(marked.status, "processing");
    assert!(marked.error.is_none());
    // a second request while it is being made starts nothing, even forced
    let (_, again) = begin_preview(marked, true, false, false);
    assert!(!again);
    let done = finish_preview(Ok("/p/a.mp4".to_string()));
    assert_eq!((done.status.as_str(), done.path.as_deref()), ("ready", Some("/p/a.mp4")));
    let failed = finish_preview(Err("ffmpeg".to_string()));
    assert_eq!((failed.status.as_str(), failed.error.as_deref()), ("failed", Some("ffmpeg")));
}

#[test]
fn failed_runs_record_the_error_and_forget_the_remote_clip() {
    let tracks = vec![0, 1];
    let mut job = publish_job_plan(true, true, &tracks, &vec![1], "c1", "a.mkv", "t0".to_string()).unwrap();
    job.status = "uploading".to_string();
    job.remote_clip_id = Some("remote-9".to_string());
    let id = job.id.clone();
    let output = job.output_name.clone();
    let failed = failed_job(job, "Upload failed: 500".to_string());
    assert_eq!(failed.status, "failed");
    assert_eq!(failed.error.as_deref(), Some("Upload failed: 500"));
    assert!(failed.remote_clip_id.is_none());
    assert_eq!(failed.id, id);
    assert_eq!(failed.output_name, output);
    assert_eq!(failed.clip_id, "c1");
    assert_eq!(failed.created_at, "t0");
}

#[test]
fn clip_ids_are_fresh_v4_uuids() {
    let a = new_clip_id();
    let b = new_clip_id();
    assert_eq!(a.len(), 36);
    assert_eq!(&a[14..15], "4");
    assert_ne!(a, b);
}
