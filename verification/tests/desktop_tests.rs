use clip_engine::startup::launch_at_login_choice;
use clip_engine::encoders::{
    encoder_display_name, encoder_selected_label, encoder_setting_capability,
    encoder_supports_property, visible_setting_rows, EncoderCapability, EncoderSettingCapability,
    RateControl, SettingRow,
};
use clip_engine::library::{
    clip_belongs_in_inbox, condensed_release_notes, default_clip_title, ensure_mp4_path,
    expiry_label, expiry_label_at, import_candidates, inbox_clips, published_version_count, offer_update, up_to_date_notice, compact_duration, is_cli_flag, is_import_file, is_importable,
    publish_stage_label, replay_notice, track_name, update_restart_note, valid_selection,
};
use clip_engine::models::AudioTrack;
use clip_engine::player::{audio_already_matches, audio_setup, is_remote_media, map_requested, AudioSetup};
use clip_engine::recorder::{
    ensure_audio_route_names, ensure_default_audio_routes, ensure_playback_device_labels,
    fallback_audio_route_name, next_audio_track, AudioRoute, AudioSourceCapability, AudioSourceKind,
};
use clip_engine::startup::{
    is_background_requested, launch_entry, quoted_executable, startup_arguments, BACKGROUND_ARG,
    LAUNCHER_NAME, Platform,
};
use clip_engine::tray::{
    action_for_menu_id, poll_actions, recording_icon_image, TrayAction, TrayClick, TrayClickKind,
    QUIT_ID, SHOW_ID,
};

// ---------------------------------------------------------------------------
// Launch at login
// ---------------------------------------------------------------------------

#[test]
fn background_argument_is_detected_without_matching_video_paths() {
    assert!(is_background_requested(&["clip-engine", BACKGROUND_ARG]));
    assert!(!is_background_requested(&["clip-engine", "recording.mp4"]));
}

#[test]
fn startup_command_uses_background_mode() {
    assert_eq!(startup_arguments(), [BACKGROUND_ARG]);
}

#[test]
fn startup_command_quotes_paths_with_spaces() {
    let path = quoted_executable(Platform::Linux, "/opt/Dabs Clip Engine/clip-engine");
    assert_eq!(path, "\"/opt/Dabs Clip Engine/clip-engine\"");
}

#[test]
fn quoted_executables_escape_shell_characters() {
    assert_eq!(quoted_executable(Platform::Linux, r#"/a"b\c`d$e"#), r#""/a\"b\\c\`d\$e""#);
    assert_eq!(quoted_executable(Platform::Linux, ""), "\"\"");
    assert_eq!(quoted_executable(Platform::Windows, r#"C:\A "B"\x$"#), r#""C:\A \"B\"\x$""#);
    assert_eq!(quoted_executable(Platform::Other, r#"/a"b"#), r#""/a"b""#);
}

#[test]
fn launch_entry_runs_the_quoted_executable_in_background() {
    let entry = launch_entry(Platform::Linux, "/opt/My App/clip").unwrap();
    assert_eq!(entry.name, LAUNCHER_NAME);
    assert_eq!(entry.command, "\"/opt/My App/clip\"");
    assert_eq!(entry.args, vec![BACKGROUND_ARG.to_string()]);
    assert_eq!(
        launch_entry(Platform::Other, "/x").map(|e| e.command),
        Err("launch at login is not supported on this platform".to_string())
    );
}

// ---------------------------------------------------------------------------
// Library view rules
// ---------------------------------------------------------------------------

#[test]
fn cli_flags_are_detected() {
    assert!(is_cli_flag("--help"));
    assert!(is_cli_flag("/S"));
    assert!(is_cli_flag("/UPDATE"));
    assert!(!is_cli_flag(r"C:\clips\round.mkv"));
    assert!(!is_cli_flag("round.mp4"));
}

#[test]
fn startup_args_keep_video_paths() {
    let candidates = import_candidates(&[
        "clip-engine",
        "/S",
        r"D:\Videos\highlight.mkv",
        "--ignored",
        "notes.txt",
        "take.mp4",
    ]);
    let paths: Vec<String> = candidates.into_iter().filter(|p| is_import_file(p)).collect();
    assert_eq!(paths, vec![r"D:\Videos\highlight.mkv".to_string(), "take.mp4".to_string()]);
}

#[test]
fn importable_extensions_ignore_case() {
    assert!(is_importable("/v/a.MKV"));
    assert!(is_importable("/v/a.m4v"));
    assert!(!is_importable("/v/a.txt"));
    assert!(!is_importable("/v/mkv"));
    assert!(!is_importable("/v/.mkv"));
}

#[test]
fn default_titles_use_the_trimmed_stem() {
    assert_eq!(default_clip_title("  Ace round  .mp4"), "Ace round");
    assert_eq!(default_clip_title("clip.final.mkv"), "clip.final");
    assert_eq!(default_clip_title("   .mkv"), "Untitled clip");
    assert_eq!(default_clip_title(".mkv"), ".mkv");
    assert_eq!(default_clip_title(""), "Untitled clip");
    assert_eq!(default_clip_title("  "), "Untitled clip");
}

#[test]
fn export_paths_end_in_mp4() {
    assert_eq!(ensure_mp4_path("/e/a.MP4".to_string()), "/e/a.MP4");
    assert_eq!(ensure_mp4_path("/e/a.mkv".to_string()), "/e/a.mp4");
    assert_eq!(ensure_mp4_path("/e/a".to_string()), "/e/a.mp4");
}

#[test]
fn inbox_membership() {
    assert!(clip_belongs_in_inbox("/in/a.mkv", "/in", Some("/default")));
    assert!(!clip_belongs_in_inbox("/default/a.mkv", "/in", Some("/default")));
    assert!(clip_belongs_in_inbox("/elsewhere/a.mkv", "/in", Some("/default")));
    assert!(clip_belongs_in_inbox("/default/a.mkv", "/in", None));
    assert!(!clip_belongs_in_inbox("/inbox2/a.mkv", "/in", Some("/")));
}

#[test]
fn release_notes_are_condensed() {
    assert_eq!(condensed_release_notes("   "), "");
    assert_eq!(condensed_release_notes("  a\nb  "), "a\nb");
    assert_eq!(condensed_release_notes("1\n2\n3\n4\n5\n6\n7\n8"), "1\n2\n3\n4\n5\n6");
    assert_eq!(condensed_release_notes("a\r\nb"), "a\nb");
    let long = "x".repeat(400);
    let short = condensed_release_notes(&long);
    assert_eq!(short.chars().count(), 361);
    assert!(short.ends_with('…'));
    assert_eq!(condensed_release_notes(&"y".repeat(360)), "y".repeat(360));
}

#[test]
fn track_names_prefer_title_then_language() {
    let mut track = AudioTrack {
        stream_index: 1,
        ordinal: 0,
        codec: "aac".to_string(),
        channels: 2,
        channel_layout: None,
        title: Some("  Game  ".to_string()),
        language: Some("eng".to_string()),
    };
    assert_eq!(track_name(&track), "Game");
    track.title = Some("  ".to_string());
    assert_eq!(track_name(&track), "eng");
    track.language = Some(" UND ".to_string());
    assert_eq!(track_name(&track), "Audio 1");
    track.language = None;
    track.ordinal = 2;
    assert_eq!(track_name(&track), "Audio 3");
}

#[test]
fn notices_and_selection() {
    assert!(update_restart_note("Clip Engine").starts_with("Clip Engine will close automatically"));
    assert_eq!(replay_notice(0), None);
    assert!(replay_notice(1).is_some());
    let visible = vec!["a".to_string(), "b".to_string()];
    assert_eq!(valid_selection(Some("b"), &visible), (Some("b".to_string()), false));
    assert_eq!(valid_selection(Some("z"), &visible), (Some("a".to_string()), true));
    assert_eq!(valid_selection(None, &visible), (Some("a".to_string()), true));
    assert_eq!(valid_selection(Some("z"), &vec![]), (None, true));
}

#[test]
fn publish_stages_are_named() {
    assert_eq!(publish_stage_label("queued", None), "Queued");
    assert_eq!(publish_stage_label("transcoding", Some((1080, 60))), "Exporting 1080p60");
    assert_eq!(publish_stage_label("transcoding", None), "Exporting");
    assert_eq!(publish_stage_label("uploading", None), "Uploading");
    assert_eq!(publish_stage_label("complete", None), "Published");
    assert_eq!(publish_stage_label("failed", None), "Failed");
    assert_eq!(publish_stage_label("paused", None), "Working");
}

#[test]
fn expiry_labels_round_days_up() {
    let day: i64 = 86_400_000;
    assert_eq!(expiry_label_at(None, None, 0), "Expiry pending");
    assert_eq!(expiry_label_at(Some("soon"), None, 0), "soon");
    assert_eq!(expiry_label_at(Some("t"), Some(1000), 1000), "Expired");
    assert_eq!(expiry_label_at(Some("t"), Some(1), 0), "Expires in 1 day");
    assert_eq!(expiry_label_at(Some("t"), Some(day), 0), "Expires in 1 day");
    assert_eq!(expiry_label_at(Some("t"), Some(day + 1), 0), "Expires in 2 days");
    assert_eq!(expiry_label_at(Some("t"), Some(7 * day), 0), "Expires in 7 days");
}

#[test]
fn expiry_labels_read_the_timestamp() {
    assert_eq!(expiry_label(None), "Expiry pending");
    assert_eq!(expiry_label(Some("next week")), "next week");
    assert_eq!(expiry_label(Some("2001-01-01T00:00:00Z")), "Expired");
    assert!(expiry_label(Some("9999-01-01T00:00:00+00:00")).starts_with("Expires in "));
}

// ---------------------------------------------------------------------------
// Player
// ---------------------------------------------------------------------------

#[test]
fn remote_media_is_http() {
    assert!(is_remote_media("http://127.0.0.1:1/x"));
    assert!(is_remote_media("https://example.com/x.mp4"));
    assert!(!is_remote_media("/home/a.mp4"));
    assert!(!is_remote_media("HTTP://x"));
}

#[test]
fn requested_streams_map_to_player_tracks() {
    let available = [(1_i64, 10_i64), (2, 11), (4, 12)];
    assert_eq!(map_requested(&available, &[4, 1]), vec![10, 12]);
    // an unknown stream falls back to the track at its position
    assert_eq!(map_requested(&available, &[9]), vec![10]);
    assert_eq!(map_requested(&available, &[1, 9]), vec![10, 11]);
    assert_eq!(map_requested(&available, &[7, 8, 9, 5]), vec![10, 11, 12]);
    assert_eq!(map_requested(&[], &[1]), Vec::<i64>::new());
}

#[test]
fn audio_setup_follows_the_mapping() {
    assert!(matches!(audio_setup(&vec![]), AudioSetup::Off));
    assert!(matches!(audio_setup(&vec![3]), AudioSetup::Track { id: 3 }));
    match audio_setup(&vec![1, 2]) {
        AudioSetup::Mix { graph, fallback } => {
            assert_eq!(graph, "[aid1][aid2]amix=inputs=2:duration=longest:normalize=1[ao]");
            assert_eq!(fallback, 1);
        }
        _ => panic!("expected a mix"),
    }
    assert!(audio_already_matches(&vec![], "", Some("no"), None));
    assert!(!audio_already_matches(&vec![], "", Some("1"), Some(1)));
    assert!(audio_already_matches(&vec![2], "", None, Some(2)));
    assert!(!audio_already_matches(&vec![2], "x", None, Some(2)));
    assert!(audio_already_matches(&vec![1, 2], "[aid1][aid2]amix=inputs=2:duration=longest:normalize=1[ao]", None, None));
    assert!(!audio_already_matches(&vec![1, 2], "[aid1]amix=inputs=1", None, None));
}

// ---------------------------------------------------------------------------
// Recorder audio routing
// ---------------------------------------------------------------------------

fn source(id: &str, label: &str, kind: AudioSourceKind, available: bool) -> AudioSourceCapability {
    AudioSourceCapability { id: id.to_string(), label: label.to_string(), kind, available }
}

fn route(id: &str, track: u8, name: &str) -> AudioRoute {
    AudioRoute { source_id: id.to_string(), track, track_name: name.to_string(), enabled: true }
}

#[test]
fn next_track_is_the_lowest_free_one() {
    assert_eq!(next_audio_track(&vec![]), 1);
    assert_eq!(next_audio_track(&vec![route("a", 1, ""), route("b", 3, "")]), 2);
    let full: Vec<AudioRoute> = (1..=6).map(|t| route("x", t, "")).collect();
    assert_eq!(next_audio_track(&full), 6);
}

#[test]
fn fallback_route_names() {
    assert_eq!(fallback_audio_route_name("application: game.exe ", 2), "game.exe");
    assert_eq!(fallback_audio_route_name("application:  ", 2), "Track 2");
    assert_eq!(fallback_audio_route_name("playback:abc", 2), "Playback device");
    assert_eq!(fallback_audio_route_name("system:default", 1), "System audio");
    assert_eq!(fallback_audio_route_name("microphone:x", 4), "Default microphone");
    assert_eq!(fallback_audio_route_name("other", 5), "Track 5");
}

#[test]
fn default_routes_cover_system_and_microphone() {
    let sources = vec![
        source("system:out", "System", AudioSourceKind::System, true),
        source("microphone:in", "Mic", AudioSourceKind::Microphone, true),
        source("playback:x", "Speakers", AudioSourceKind::PlaybackDevice, true),
        source("microphone:off", "Off", AudioSourceKind::Microphone, false),
    ];
    let mut routes = vec![route("microphone:in", 1, "Voice")];
    ensure_default_audio_routes(&mut routes, &sources);
    assert_eq!(routes.len(), 2);
    assert_eq!(routes[0].track_name, "Voice");
    assert_eq!(routes[1].source_id, "system:out");
    assert_eq!(routes[1].track, 2);
    assert_eq!(routes[1].track_name, "System");
    assert!(routes[1].enabled);
    // a second pass adds nothing
    ensure_default_audio_routes(&mut routes, &sources);
    assert_eq!(routes.len(), 2);
}

#[test]
fn blank_route_names_are_filled() {
    let sources = vec![source("system:out", "System", AudioSourceKind::System, true)];
    let mut routes = vec![route("system:out", 1, " "), route("playback:z", 2, ""), route("x", 3, "Keep")];
    ensure_audio_route_names(&mut routes, &sources);
    assert_eq!(routes[0].track_name, "System");
    assert_eq!(routes[1].track_name, "Playback device");
    assert_eq!(routes[2].track_name, "Keep");
}

#[test]
fn playback_devices_get_labels() {
    let mut sources = vec![
        source("playback: {0.0.1} ", "", AudioSourceKind::PlaybackDevice, true),
        source("playback:", " ", AudioSourceKind::PlaybackDevice, true),
        source("playback:y", "Named", AudioSourceKind::PlaybackDevice, true),
        source("system:z", "", AudioSourceKind::System, true),
    ];
    ensure_playback_device_labels(&mut sources);
    assert_eq!(sources[0].label, "Playback endpoint ({0.0.1})");
    assert_eq!(sources[1].label, "Playback device");
    assert_eq!(sources[2].label, "Named");
    assert_eq!(sources[3].label, "");
    // labelling again changes nothing
    ensure_playback_device_labels(&mut sources);
    assert_eq!(sources[0].label, "Playback endpoint ({0.0.1})");
    assert_eq!(sources[1].label, "Playback device");
}

// ---------------------------------------------------------------------------
// Encoder settings
// ---------------------------------------------------------------------------

fn encoders() -> Vec<EncoderCapability> {
    vec![
        EncoderCapability {
            id: "nvenc".to_string(),
            label: "NVENC".to_string(),
            hardware: true,
            settings: vec![
                EncoderSettingCapability { key: "preset".to_string() },
                EncoderSettingCapability { key: "tune".to_string() },
            ],
        },
        EncoderCapability {
            id: "x264".to_string(),
            label: "x264".to_string(),
            hardware: false,
            settings: vec![],
        },
    ]
}

#[test]
fn encoder_labels() {
    let list = encoders();
    assert_eq!(encoder_display_name(&list[0]), "NVENC (hardware)");
    assert_eq!(encoder_display_name(&list[1]), "x264");
    assert_eq!(encoder_selected_label(" ", &list, true), "Automatic");
    assert_eq!(encoder_selected_label("AUTO", &list, false), "Choose an encoder");
    assert_eq!(encoder_selected_label("nvenc", &list, true), "NVENC (hardware)");
    assert_eq!(encoder_selected_label("qsv", &list, true), "qsv");
}

#[test]
fn encoder_properties_and_settings() {
    let list = encoders();
    assert!(encoder_supports_property(&list, "nvenc", &["tune"]));
    assert!(!encoder_supports_property(&list, "nvenc", &["profile"]));
    assert!(encoder_supports_property(&list, "x264", &["profile"]));
    assert!(encoder_supports_property(&list, " auto ", &["profile"]));
    assert!(!encoder_supports_property(&list, "qsv", &["preset"]));
    assert!(!encoder_supports_property(&vec![], "auto", &["preset"]));

    assert_eq!(
        encoder_setting_capability(&list, " nvenc ", &["profile", "tune", "preset"]).map(|s| s.key.as_str()),
        Some("tune")
    );
    assert!(encoder_setting_capability(&list, "auto", &["tune"]).is_none());
    assert!(encoder_setting_capability(&list, "x264", &["tune"]).is_none());
    assert!(encoder_setting_capability(&list, "qsv", &["tune"]).is_none());
}

// ---------------------------------------------------------------------------
// Tray
// ---------------------------------------------------------------------------

#[test]
fn tray_menu_ids_map_to_actions() {
    assert_eq!(action_for_menu_id(SHOW_ID), Some(TrayAction::Show));
    assert_eq!(action_for_menu_id("clip-engine.start"), Some(TrayAction::StartRecorder));
    assert_eq!(action_for_menu_id("clip-engine.stop"), Some(TrayAction::StopRecorder));
    assert_eq!(action_for_menu_id("clip-engine.save"), Some(TrayAction::SaveReplay));
    assert_eq!(action_for_menu_id(QUIT_ID), Some(TrayAction::Quit));
    assert_eq!(action_for_menu_id("other"), None);
}

#[test]
fn recording_icon_has_a_red_status_dot() {
    let image: Vec<u8> = [0u8, 0, 0, 255].repeat(100 * 100);
    let recording = recording_icon_image(&image, 100, 100);
    assert!(recording
        .chunks(4)
        .any(|pixel| pixel[0] > 200 && pixel[1] < 80 && pixel[2] < 80));
}

#[test]
fn recording_badge_sits_in_the_top_right_corner() {
    let image: Vec<u8> = [0u8, 0, 0, 255].repeat(100 * 100);
    let recording = recording_icon_image(&image, 100, 100);
    let pixel = |x: usize, y: usize| &recording[(y * 100 + x) * 4..(y * 100 + x) * 4 + 4];
    // radius 10, ring to 12, centre (86, 14)
    assert_eq!(pixel(86, 14), &[235, 45, 55, 255]);
    assert_eq!(pixel(86 + 11, 14), &[35, 20, 22, 255]);
    assert_eq!(pixel(0, 0), &[0, 0, 0, 255]);
    assert_eq!(pixel(50, 50), &[0, 0, 0, 255]);
    let empty: Vec<u8> = vec![];
    assert!(recording_icon_image(&empty, 0, 7).is_empty());
    let tiny = vec![9u8; 4];
    assert_eq!(recording_icon_image(&tiny, 1, 1), vec![9u8; 4]);
}

#[test]
fn launch_at_login_defaults_to_on() {
    assert_eq!(launch_at_login_choice(None), (true, true));
    assert_eq!(launch_at_login_choice(Some("false")), (false, false));
    assert_eq!(launch_at_login_choice(Some("true")), (true, false));
    assert_eq!(launch_at_login_choice(Some("False")), (true, false));
}

#[test]
fn tray_polls_clicks_then_menu_events() {
    let clicks = vec![
        TrayClick { kind: TrayClickKind::Click, left: true, released: false },
        TrayClick { kind: TrayClickKind::Click, left: true, released: true },
        TrayClick { kind: TrayClickKind::Click, left: false, released: true },
        TrayClick { kind: TrayClickKind::DoubleClick, left: true, released: false },
        TrayClick { kind: TrayClickKind::Other, left: true, released: true },
    ];
    let menu = vec!["clip-engine.save".to_string(), "nope".to_string(), QUIT_ID.to_string()];
    assert_eq!(
        poll_actions(&clicks, &menu),
        vec![TrayAction::Show, TrayAction::Show, TrayAction::SaveReplay, TrayAction::Quit]
    );
    assert!(poll_actions(&vec![], &vec![]).is_empty());
}

#[test]
fn inbox_lists_and_publish_counts() {
    let paths = vec![
        "/in/a.mkv".to_string(),
        "/default/b.mkv".to_string(),
        "/other/c.mkv".to_string(),
    ];
    assert_eq!(inbox_clips(&paths, "/in", Some("/default")), vec![0, 2]);
    assert_eq!(inbox_clips(&paths, "/in", None), vec![0, 1, 2]);
    let jobs = vec![
        ("a".to_string(), "complete".to_string()),
        ("a".to_string(), "failed".to_string()),
        ("b".to_string(), "complete".to_string()),
        ("a".to_string(), "complete".to_string()),
    ];
    assert_eq!(published_version_count(&jobs, "a"), 2);
    assert_eq!(published_version_count(&jobs, "c"), 0);
}

#[test]
fn update_prompts_respect_snoozing() {
    assert!(offer_update(false, None, "1.2.0"));
    assert!(!offer_update(false, Some("1.2.0"), "1.2.0"));
    assert!(offer_update(false, Some("1.1.0"), "1.2.0"));
    assert!(offer_update(true, Some("1.2.0"), "1.2.0"));
    assert_eq!(up_to_date_notice("Clip Engine", "1.2.0"), "Clip Engine 1.2.0 is current.");
}

#[test]
fn compact_durations() {
    assert_eq!(compact_duration(0), "0:00");
    assert_eq!(compact_duration(59), "0:59");
    assert_eq!(compact_duration(61), "1:01");
    assert_eq!(compact_duration(3599), "59:59");
    assert_eq!(compact_duration(3600), "1:00:00");
    assert_eq!(compact_duration(3 * 3600 + 5 * 60 + 9), "3:05:09");
}

#[test]
fn advanced_settings_rows_follow_mode_and_encoder() {
    let list = encoders();
    // NVENC reports only preset and tune: rate control is managed.
    assert_eq!(
        visible_setting_rows(&list, "nvenc", RateControl::Cqp),
        vec![
            SettingRow::VideoEncoder,
            SettingRow::RateControlManaged,
            SettingRow::Preset,
            SettingRow::Tuning,
            SettingRow::Container,
            SettingRow::CustomOptions,
        ]
    );
    let qsv = vec![EncoderCapability {
        id: "qsv".to_string(),
        label: "QSV".to_string(),
        hardware: true,
        settings: vec![
            EncoderSettingCapability { key: "rc".to_string() },
            EncoderSettingCapability { key: "cqp".to_string() },
            EncoderSettingCapability { key: "bitrate_kbps".to_string() },
            EncoderSettingCapability { key: "max_bitrate".to_string() },
            EncoderSettingCapability { key: "bf".to_string() },
        ],
    }];
    let rows = |rc| visible_setting_rows(&qsv, "qsv", rc);
    assert_eq!(
        rows(RateControl::Cqp),
        vec![
            SettingRow::VideoEncoder,
            SettingRow::RateControl,
            SettingRow::TargetQuality,
            SettingRow::BFrames,
            SettingRow::Container,
            SettingRow::CustomOptions,
        ]
    );
    assert_eq!(
        rows(RateControl::Cbr),
        vec![
            SettingRow::VideoEncoder,
            SettingRow::RateControl,
            SettingRow::Bitrate,
            SettingRow::BFrames,
            SettingRow::Container,
            SettingRow::CustomOptions,
        ]
    );
    assert_eq!(
        rows(RateControl::Vbr),
        vec![
            SettingRow::VideoEncoder,
            SettingRow::RateControl,
            SettingRow::Bitrate,
            SettingRow::MaxBitrate,
            SettingRow::BFrames,
            SettingRow::Container,
            SettingRow::CustomOptions,
        ]
    );
    assert_eq!(
        rows(RateControl::Cqvbr),
        vec![
            SettingRow::VideoEncoder,
            SettingRow::RateControl,
            SettingRow::TargetQuality,
            SettingRow::Bitrate,
            SettingRow::MaxBitrate,
            SettingRow::BFrames,
            SettingRow::Container,
            SettingRow::CustomOptions,
        ]
    );
    // x264 lists no settings, so it accepts every property.
    assert_eq!(visible_setting_rows(&list, "x264", RateControl::Vbr).len(), 2 + 14 + 2);
}
