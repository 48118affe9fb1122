use clip_engine::media::{
    audio_tracks_from_streams, clip_name, detect_encoder_choice, encoder_candidate_name,
    created_at, pick_created_at, export_args, fingerprint, preview_plan, safe_base_name, thumbnail_args, video_stream_position,
};
use clip_engine::models::{ProbeStream, ProbeTags};

#[test]
fn output_names_are_safe() {
    assert_eq!(safe_base_name("../../Round Win!!.mkv"), "round-win");
}

#[test]
fn safe_names_fall_back_and_stay_short() {
    assert_eq!(safe_base_name("!!!.mp4"), "clip");
    assert_eq!(safe_base_name(""), "clip");
    assert_eq!(safe_base_name("ÄÖ.mp4"), "clip");
    assert_eq!(safe_base_name("--Ace__Clutch--.mov"), "ace-clutch");
    assert_eq!(safe_base_name("Team FIGHT 2.final.mkv"), "team-fight-2-final");
    let long = "a".repeat(80) + ".mkv";
    assert_eq!(safe_base_name(&long), "a".repeat(60));
    let dashed = "a".repeat(59) + " b.mkv";
    assert_eq!(safe_base_name(&dashed), "a".repeat(59));
}

#[test]
fn safe_names_are_slugs() {
    for name in ["Round Win!!.mkv", "x", "  spaced  out  .mp4", "a-b--c.webm", "12:30 ace.mov"] {
        let slug = safe_base_name(name);
        assert!(!slug.is_empty() && slug.len() <= 60);
        assert!(slug.chars().all(|c| c.is_ascii_alphanumeric() || c == '-'));
        assert!(!slug.starts_with('-') && !slug.ends_with('-'));
        assert!(!slug.contains("--"));
    }
}

#[test]
fn output_fps_never_upsamples_past_source() {
    let args = export_args("in.mkv", "out.mp4", "0.000000", "1.000000", &vec![], 60, "libx264", 20);
    assert!(args.iter().any(|value| value.ends_with("fps=60")));
}

#[test]
fn export_args_for_a_single_track_on_libx264() {
    let args = export_args("in.mkv", "out.mp4", "2.500000", "10.000000", &vec![3], 30, "libx264", 20);
    let expected: Vec<String> = [
        "-y", "-hide_banner", "-loglevel", "warning", "-ss", "2.500000", "-i", "in.mkv", "-t",
        "10.000000", "-map", "0:v:0", "-vf",
        "scale=1920:1080:force_original_aspect_ratio=decrease:flags=lanczos,pad=1920:1080:(ow-iw)/2:(oh-ih)/2,fps=30",
        "-c:v", "libx264", "-preset", "slow", "-crf", "20", "-maxrate", "30M", "-bufsize", "60M",
        "-profile:v", "high", "-pix_fmt", "yuv420p", "-map", "0:3", "-c:a", "aac", "-b:a", "192k",
        "-movflags", "+faststart", "-progress", "pipe:1", "-nostats", "out.mp4",
    ]
    .iter()
    .map(|s| s.to_string())
    .collect();
    assert_eq!(args, expected);
}

#[test]
fn export_args_mix_tracks_and_pick_hardware_options() {
    let args = export_args("in.mkv", "out.mp4", "0.000000", "1.000000", &vec![1, 2], 60, "h264_nvenc", 23);
    let position = args.iter().position(|a| a == "-filter_complex").unwrap();
    assert_eq!(
        args[position + 1],
        "[0:1]aresample=async=1:first_pts=0[a0];[0:2]aresample=async=1:first_pts=0[a1];[a0][a1]amix=inputs=2:duration=longest:normalize=1[aout]"
    );
    assert!(args.windows(2).any(|w| w[0] == "-g" && w[1] == "120"));
    assert!(args.windows(2).any(|w| w[0] == "-cq" && w[1] == "23"));
    assert!(args.windows(2).any(|w| w[0] == "-multipass" && w[1] == "fullres"));
    assert!(args.windows(2).any(|w| w[0] == "-spatial-aq" && w[1] == "1"));
    assert!(args.windows(2).any(|w| w[0] == "-map" && w[1] == "[aout]"));

    let silent = export_args("in.mkv", "out.mp4", "0.000000", "1.000000", &vec![], 24, "h264_qsv", 25);
    assert!(silent.contains(&"-an".to_string()));
    assert!(silent.windows(2).any(|w| w[0] == "-global_quality" && w[1] == "25"));
    let amf = export_args("in.mkv", "out.mp4", "0.000000", "1.000000", &vec![], 24, "h264_amf", 18);
    assert!(amf.windows(2).any(|w| w[0] == "-qp_p" && w[1] == "18"));
}

fn stream(index: i64, kind: &str, title: Option<&str>) -> ProbeStream {
    ProbeStream {
        index,
        codec_type: kind.to_string(),
        codec_name: if kind == "audio" { Some("aac".to_string()) } else { None },
        width: None,
        height: None,
        avg_frame_rate: None,
        r_frame_rate: None,
        channels: if kind == "audio" { Some(2) } else { None },
        channel_layout: None,
        tags: title.map(|t| ProbeTags {
            title: Some(t.to_string()),
            language: Some("eng".to_string()),
            creation_time: None,
        }),
    }
}

#[test]
fn audio_tracks_number_audio_streams_in_order() {
    let streams = vec![
        stream(0, "video", None),
        stream(1, "audio", Some("Game")),
        stream(2, "subtitle", None),
        stream(3, "audio", None),
    ];
    let tracks = audio_tracks_from_streams(&streams);
    assert_eq!(tracks.len(), 2);
    assert_eq!((tracks[0].stream_index, tracks[0].ordinal), (1, 0));
    assert_eq!(tracks[0].title.as_deref(), Some("Game"));
    assert_eq!(tracks[0].language.as_deref(), Some("eng"));
    assert_eq!(tracks[0].codec, "aac");
    assert_eq!(tracks[0].channels, 2);
    assert_eq!((tracks[1].stream_index, tracks[1].ordinal), (3, 1));
    assert_eq!(tracks[1].title, None);
    assert_eq!(video_stream_position(&streams), Some(0));
    let audio_only = vec![stream(1, "audio", None), stream(2, "data", None)];
    assert_eq!(video_stream_position(&audio_only), None);
}

#[test]
fn clip_names_and_fingerprints() {
    assert_eq!(clip_name(Some("Ace".to_string()), "/v/a.mkv"), "Ace");
    assert_eq!(clip_name(None, "/v/a.mkv"), "a.mkv");
    assert_eq!(clip_name(None, "/"), "Untitled clip");
    assert_eq!(fingerprint("/v/a.mkv", 1024, 1700000000000), "/v/a.mkv:1024:1700000000000");
}

#[test]
fn previews_are_written_to_working_files() {
    let plan = preview_plan("/v/a.mkv", "/p/id.mp4", "/p/id.jpg");
    assert_eq!(plan.temporary_output, "/p/id.working.mp4");
    assert_eq!(plan.temporary_thumbnail, "/p/id.working.jpg");
    assert_eq!(plan.video_args.last().unwrap(), "/p/id.working.mp4");
    assert_eq!(plan.thumbnail_args.last().unwrap(), "/p/id.working.jpg");
    assert!(plan.video_args.contains(&"/v/a.mkv".to_string()));
    assert!(plan.video_args.contains(&"scale=-2:720:flags=fast_bilinear,fps=30".to_string()));
    let thumb = thumbnail_args("3.000", "/v/a.mkv", "/t.jpg");
    assert_eq!(thumb[5], "3.000");
    assert_eq!(thumb.last().unwrap(), "/t.jpg");
}

#[test]
fn encoder_detection_takes_the_first_that_works() {
    assert_eq!(encoder_candidate_name(0), "h264_nvenc");
    assert_eq!(encoder_candidate_name(1), "h264_qsv");
    assert_eq!(encoder_candidate_name(2), "h264_amf");
    assert_eq!(detect_encoder_choice(&vec![false, true, true]), "h264_qsv");
    assert_eq!(detect_encoder_choice(&vec![false, false, false]), "libx264");
    assert_eq!(detect_encoder_choice(&vec![]), "libx264");
    assert_eq!(detect_encoder_choice(&vec![true]), "h264_nvenc");
}

#[test]
fn safe_names_are_fixed_points() {
    for name in ["../../Round Win!!.mkv", "ABC.mkv", "Ä big DEAL.webm", "x", "clip.final.mp4"] {
        let once = safe_base_name(name);
        assert_eq!(safe_base_name(&once), once);
        assert!(!once.chars().any(|c| c.is_ascii_uppercase()));
    }
    assert_eq!(safe_base_name("ABC.mkv"), "abc");
}

#[test]
fn creation_time_prefers_the_tag_then_the_file_then_now() {
    assert_eq!(
        created_at(Some("2024-05-01T10:00:00.000000Z".to_string()), Some((0, 0)), (86_400, 0)).as_deref(),
        Some("2024-05-01T10:00:00.000000Z")
    );
    assert_eq!(created_at(None, Some((0, 0)), (86_400, 0)).as_deref(), Some("1970-01-01T00:00:00+00:00"));
    assert_eq!(
        created_at(None, Some((1_700_000_000, 500_000_000)), (0, 0)).as_deref(),
        Some("2023-11-14T22:13:20.500+00:00")
    );
    assert_eq!(created_at(None, None, (86_400, 0)).as_deref(), Some("1970-01-02T00:00:00+00:00"));
    assert_eq!(created_at(None, Some((i64::MAX, 0)), (86_400, 0)).as_deref(), Some("1970-01-02T00:00:00+00:00"));
    assert_eq!(
        pick_created_at(None, None, Some("n".to_string())).as_deref(),
        Some("n")
    );
    assert_eq!(pick_created_at(None, Some("m".to_string()), Some("n".to_string())).as_deref(), Some("m"));
    assert_eq!(pick_created_at(None, None, None), None);
}
