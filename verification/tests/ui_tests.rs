use clip_engine::dialogs::{
    banner_job, shows_update_banner, JobRow, account_button, offers_access_management, shows_access_status, update_button, AccountClick,
    access_entry_matches, access_entry_shown, filter_label, filter_status, member_actions, pending_heading,
    AccessFilter, auth_form, auth_submit, auth_title, can_confirm_publish, failure_text, publish_dialog, AuthSubmit,
};
use clip_engine::ui::{dismiss_error, dismiss_notice, expire_toasts, on_message, TOAST_MILLIS, AuthMode, ExportModal, UiAction, UiMessage, UiState, UpdateModal};

const NOW: u64 = 1_000;

fn state() -> UiState {
    UiState {
        app_name: "Clip Engine".to_string(),
        current_version: "1.2.0".to_string(),
        show_recorder: false,
        busy: true,
        recorder_loading: true,
        recorder_loaded: false,
        update_checking: true,
        error: None,
        error_until: None,
        notice: None,
        notice_until: None,
        selected: Some("old".to_string()),
        editor_open: true,
        user: None,
        auth: None,
        access_request: None,
        show_pending: false,
        cloud_clips: vec![],
        admin_users: vec![],
        admin_requests: vec![],
        show_access: false,
        created_reset: None,
        export: Some(ExportModal::Working { quality_label: "1080p".to_string() }),
        update: Some(UpdateModal::Downloading { received: 1, total: 9 }),
        available_update: Some("1.3.0".to_string()),
    }
}

#[test]
fn errors_stop_running_work() {
    let (s, actions) = on_message(state(), UiMessage::Error("boom".to_string()), NOW);
    assert_eq!(s.error.as_deref(), Some("boom"));
    assert!(!s.busy && !s.recorder_loading && !s.update_checking);
    assert!(s.export.is_none());
    assert_eq!(s.update, Some(UpdateModal::Prompt));
    assert!(actions.is_empty());
    let mut recording = state();
    recording.show_recorder = true;
    let (_, actions) = on_message(recording, UiMessage::Error("x".to_string()), NOW);
    assert_eq!(actions, vec![UiAction::RefreshRecorder]);
}

#[test]
fn imports_select_the_first_clip() {
    let (s, actions) = on_message(state(), UiMessage::Imported(vec!["a".to_string(), "b".to_string()]), NOW);
    assert_eq!(s.selected.as_deref(), Some("a"));
    assert!(!s.editor_open && !s.busy);
    assert_eq!(actions, vec![UiAction::ReloadLibrary]);
    let (s, _) = on_message(state(), UiMessage::Imported(vec![]), NOW);
    assert_eq!(s.selected.as_deref(), Some("old"));
    assert!(s.editor_open);
    let (s, _) = on_message(state(), UiMessage::RecorderImported(vec!["a".to_string(), "b".to_string()]), NOW);
    assert_eq!(s.notice.as_deref(), Some("2 replays saved and added to your library."));
    let (s, _) = on_message(state(), UiMessage::RecorderImported(vec!["a".to_string()]), NOW);
    assert_eq!(s.notice.as_deref(), Some("Replay saved and added to your library."));
}

#[test]
fn signing_in_and_out() {
    let (s, actions) = on_message(state(), UiMessage::User("dab".to_string()), NOW);
    assert_eq!(s.user.as_deref(), Some("dab"));
    assert!(s.auth.is_none() && !s.show_pending);
    assert_eq!(actions, vec![UiAction::ReloadConfig]);
    let mut signed_in = state();
    signed_in.cloud_clips = vec!["c".to_string()];
    let (s, _) = on_message(signed_in, UiMessage::LoggedOut, NOW);
    assert!(s.user.is_none() && s.cloud_clips.is_empty());
    assert_eq!(s.auth, Some(AuthMode::Login));
    let (s, _) = on_message(state(), UiMessage::AccessRequest(None), NOW);
    assert_eq!(s.auth, Some(AuthMode::Request));
    let (s, _) = on_message(state(), UiMessage::AccessRequest(Some("r".to_string())), NOW);
    assert!(s.show_pending);
}

#[test]
fn update_checks_and_installs() {
    let mut idle = state();
    idle.update = None;
    let (s, _) = on_message(
        idle,
        UiMessage::UpdateAvailable { version: Some("1.3.0".to_string()), manual: false, snoozed: Some("1.3.0".to_string()) },
        NOW,
    );
    assert!(s.update.is_none() && !s.update_checking);
    let (s, _) = on_message(
        state(),
        UiMessage::UpdateAvailable { version: Some("1.3.0".to_string()), manual: true, snoozed: Some("1.3.0".to_string()) },
        NOW,
    );
    assert_eq!(s.update, Some(UpdateModal::Prompt));
    let (s, _) = on_message(state(), UiMessage::UpdateAvailable { version: None, manual: true, snoozed: None }, NOW);
    assert_eq!(s.notice.as_deref(), Some("Clip Engine 1.2.0 is current."));
    assert!(s.available_update.is_none());
    let (s, _) = on_message(state(), UiMessage::UpdateProgress { received: 5, total: 9 }, NOW);
    assert_eq!(s.update, Some(UpdateModal::Downloading { received: 5, total: 9 }));
    let (s, actions) = on_message(state(), UiMessage::UpdateDownloaded, NOW);
    assert_eq!(s.update, Some(UpdateModal::Installing));
    assert_eq!(actions, vec![UiAction::PausePlayer, UiAction::ShutdownRecorder, UiAction::InstallUpdate]);
    let mut unknown = state();
    unknown.available_update = None;
    let (_, actions) = on_message(unknown, UiMessage::UpdateDownloaded, NOW);
    assert!(actions.is_empty());
    let (s, _) = on_message(state(), UiMessage::InstallFailed("disk".to_string()), NOW);
    assert_eq!(s.update, Some(UpdateModal::Prompt));
    assert_eq!(s.error.as_deref(), Some("disk"));
}

#[test]
fn other_replies() {
    let (s, actions) = on_message(state(), UiMessage::RecorderRefreshed, NOW);
    assert!(s.recorder_loaded && !s.recorder_loading && !s.busy);
    assert_eq!(actions, vec![UiAction::ApplyRecorderCapabilities]);
    let (s, _) = on_message(state(), UiMessage::ExportDone("/e/a.mp4".to_string()), NOW);
    assert!(matches!(s.export, Some(ExportModal::Done { ref path }) if path == "/e/a.mp4"));
    let (s, _) = on_message(state(), UiMessage::Busy(false), NOW);
    assert!(!s.busy);
    let (s, _) = on_message(state(), UiMessage::ExportProgress, NOW);
    assert!(s.busy && matches!(s.export, Some(ExportModal::Working { .. })));
    let (s, _) = on_message(state(), UiMessage::Admin(vec!["u".to_string()], vec![]), NOW);
    assert!(s.show_access && s.admin_users.len() == 1);
    let (s, _) = on_message(state(), UiMessage::PasswordReset("link".to_string()), NOW);
    assert_eq!(s.created_reset.as_deref(), Some("link"));
    let (s, _) = on_message(state(), UiMessage::Notice("hi".to_string()), NOW);
    assert_eq!(s.notice.as_deref(), Some("hi"));
    let (s, actions) = on_message(state(), UiMessage::Refresh, NOW);
    assert!(!s.busy);
    assert_eq!(actions, vec![UiAction::ReloadLibrary]);
    let (s, _) = on_message(state(), UiMessage::CloudClips(vec!["x".to_string()]), NOW);
    assert_eq!(s.cloud_clips, vec!["x".to_string()]);
}

#[test]
fn toasts_expire_after_their_time() {
    let (s, _) = on_message(state(), UiMessage::Error("boom".to_string()), NOW);
    assert_eq!(s.error_until, Some(NOW + 5000));
    assert_eq!(TOAST_MILLIS, 5000);
    let s = expire_toasts(s, NOW + 4999);
    assert_eq!(s.error.as_deref(), Some("boom"));
    let s = expire_toasts(s, NOW + 5000);
    assert!(s.error.is_none() && s.error_until.is_none());
    let (s, _) = on_message(state(), UiMessage::Notice("hi".to_string()), NOW);
    assert_eq!(s.notice_until, Some(NOW + 5000));
    let s = expire_toasts(s, NOW + 6000);
    assert!(s.notice.is_none() && s.notice_until.is_none());
    let (s, _) = on_message(state(), UiMessage::InstallFailed("disk".to_string()), 7);
    assert_eq!(s.error_until, Some(5007));
    let (s, _) = on_message(state(), UiMessage::RecorderImported(vec!["a".to_string()]), 7);
    assert_eq!(s.notice_until, Some(5007));
    let (s, _) = on_message(state(), UiMessage::RecorderImported(vec![]), 7);
    assert!(s.notice_until.is_none());
    let (s, _) = on_message(state(), UiMessage::UpdateAvailable { version: None, manual: true, snoozed: None }, 7);
    assert_eq!(s.notice_until, Some(5007));
    let (s, _) = on_message(state(), UiMessage::UpdateAvailable { version: None, manual: false, snoozed: None }, 7);
    assert!(s.notice_until.is_none());
}

#[test]
fn sign_in_dialog_titles_and_buttons() {
    assert_eq!(auth_title(1, Some(AuthMode::Login)), "Forgot your password?");
    assert_eq!(auth_title(2, None), "Choose a new password");
    assert_eq!(auth_title(0, Some(AuthMode::Login)), "Sign in");
    assert_eq!(auth_title(0, Some(AuthMode::Request)), "Create account");
    let login = auth_form(Some(AuthMode::Login), false, false);
    assert_eq!(login.submit_label, "Sign in");
    assert!(login.submit_enabled && login.offers_reset && !login.asks_display_name);
    let request = auth_form(Some(AuthMode::Request), false, false);
    assert_eq!(request.submit_label, "Request access");
    assert!(request.asks_display_name && request.asks_confirmation && !request.shows_pending_note);
    let sending = auth_form(Some(AuthMode::Request), true, false);
    assert_eq!(sending.submit_label, "Access requested");
    assert!(!sending.submit_enabled && sending.shows_pending_note && !sending.offers_sign_out);
    let pending = auth_form(Some(AuthMode::Request), false, true);
    assert_eq!(pending.submit_label, "Awaiting owner approval");
    assert!(!pending.submit_enabled && pending.offers_sign_out);
    assert_eq!(auth_submit(Some(AuthMode::Request), "a", "b"), AuthSubmit::Mismatch);
    assert_eq!(auth_submit(Some(AuthMode::Request), "a", "a"), AuthSubmit::RequestAccess);
    assert_eq!(auth_submit(Some(AuthMode::Login), "a", "b"), AuthSubmit::Login);
}

#[test]
fn publish_dialog_titles() {
    assert_eq!(publish_dialog(true, None), ("Name this clip", true));
    assert_eq!(publish_dialog(false, None), ("Publishing", true));
    assert_eq!(publish_dialog(false, Some("uploading".to_string())), ("Publishing", false));
    assert_eq!(publish_dialog(false, Some("queued".to_string())), ("Publishing", false));
    assert_eq!(publish_dialog(false, Some("complete".to_string())), ("Published", true));
    assert_eq!(publish_dialog(false, Some("failed".to_string())), ("Publish failed", true));
    assert_eq!(failure_text(None), "Publishing failed.");
    assert_eq!(failure_text(Some("quota".to_string())), "quota");
    assert!(!can_confirm_publish("  \t "));
    assert!(can_confirm_publish(" Ace "));
}

#[test]
fn access_dialogs() {
    assert_eq!(pending_heading("approved"), "Your access was approved");
    assert_eq!(pending_heading("denied"), "Your request was declined");
    assert_eq!(pending_heading("pending"), "Awaiting owner approval");
    assert_eq!(filter_status(AccessFilter::Denied), "denied");
    assert_eq!(filter_label(AccessFilter::Denied), "Declined");
    assert!(access_entry_shown(AccessFilter::Pending, "pending", "Dab", "Dabs Clips", ""));
    assert!(access_entry_shown(AccessFilter::Pending, "pending", "Dab", "Dabs Clips", "BS CL"));
    assert!(access_entry_shown(AccessFilter::Active, "active", "ÉMILE", "x", "émile"));
    assert!(!access_entry_shown(AccessFilter::Pending, "pending", "Dab", "Dabs Clips", "zed"));
    assert!(!access_entry_shown(AccessFilter::Active, "pending", "Dab", "Dabs Clips", ""));
    assert!(access_entry_matches(AccessFilter::Revoked, "revoked", "ann smith", "n s"));
    assert!(!access_entry_matches(AccessFilter::Revoked, "revoked", "ann smith", "N S"));
    let me = member_actions(Some("u1"), "u1", "active");
    assert!(!me.can_reset_password && !me.can_toggle);
    let other = member_actions(Some("u1"), "u2", "active");
    assert!(other.can_reset_password && other.can_toggle);
    assert_eq!((other.toggle_label, other.next_status), ("Revoke", "revoked"));
    let revoked = member_actions(None, "u2", "revoked");
    assert!(!revoked.can_reset_password && revoked.can_toggle);
    assert_eq!((revoked.toggle_label, revoked.next_status), ("Restore", "active"));
}

#[test]
fn top_bar_buttons() {
    assert_eq!(account_button(true, Some("Dab".to_string()), false, false), ("Dab".to_string(), AccountClick::ToggleAccount));
    assert_eq!(account_button(true, None, true, true), ("Connected".to_string(), AccountClick::ToggleAccount));
    assert_eq!(account_button(false, None, true, true), ("Approval pending".to_string(), AccountClick::ShowPending));
    assert_eq!(account_button(false, None, true, false), ("Sign in to publish".to_string(), AccountClick::ShowPending));
    assert_eq!(account_button(false, None, false, false), ("Sign in to publish".to_string(), AccountClick::OpenSignIn));
    assert_eq!(update_button(true, false), ("Update available", true, true));
    assert_eq!(update_button(false, true), ("Checking\u{2026}", false, false));
    assert_eq!(update_button(false, false), ("Check for updates", true, false));
    assert!(shows_access_status(true, true, false, false));
    assert!(!shows_access_status(true, true, false, true));
    assert!(!shows_access_status(true, true, true, false));
    assert!(offers_access_management(Some("owner")));
    assert!(!offers_access_management(Some("member")));
    assert!(!offers_access_management(None));
}

fn job(id: &str, clip_id: &str, status: &str) -> JobRow {
    JobRow { id: id.to_string(), clip_id: clip_id.to_string(), status: status.to_string() }
}

#[test]
fn status_banners() {
    let jobs = vec![
        job("j1", "c2", "uploading"),
        job("j2", "c1", "complete"),
        job("j3", "c1", "transcoding"),
        job("j4", "c1", "queued"),
    ];
    assert_eq!(banner_job(Some("c1"), &jobs, None), Some(2));
    assert_eq!(banner_job(Some("c1"), &jobs, Some("j3")), Some(3));
    assert_eq!(banner_job(Some("c3"), &jobs, None), None);
    assert_eq!(banner_job(None, &jobs, None), None);
    assert!(shows_update_banner(true, None));
    assert!(shows_update_banner(true, Some(UpdateModal::Prompt)));
    assert!(!shows_update_banner(true, Some(UpdateModal::Installing)));
    assert!(!shows_update_banner(true, Some(UpdateModal::Downloading { received: 1, total: 2 })));
    assert!(!shows_update_banner(false, None));
    let (s, _) = on_message(state(), UiMessage::Error("boom".to_string()), NOW);
    let s = dismiss_error(s);
    assert!(s.error.is_none() && s.error_until.is_none());
    let (s, _) = on_message(state(), UiMessage::Notice("hi".to_string()), NOW);
    let s = dismiss_notice(s);
    assert!(s.notice.is_none() && s.notice_until.is_none());
}
