//! How the desktop window reacts to the messages its background work sends
//! back: busy and loading flags, the error and notice toasts and when they
//! go away, the export and update dialogs, the selected clip, the signed-in
//! user and the sign-in dialog. Each message, with the time it arrives,
//! gives the next state and the engine work to do (reloading the library,
//! refreshing the recorder, reloading the configuration, installing an
//! update). The caller performs the actions in order, then adopts the
//! returned state; it passes the state through `expire_toasts` as time goes
//! by.

use vstd::prelude::*;
use vstd::string::StringExecFns;
use crate::text::string_views;
use crate::models::opt_view;
use crate::library::{
    offer_update, offer_update_spec, replay_notice, replay_notice_spec, up_to_date_notice,
    up_to_date_spec,
};

verus! {

/// Which sign-in dialog is open.
#[derive(Clone, Copy, Debug, PartialEq, Eq, Structural)]
pub enum AuthMode {
    Request,
    Login,
}

/// The export dialog: an export running (its progress, a floating-point
/// fraction, is kept by the caller) or done.
#[derive(Debug)]
pub enum ExportModal {
    Working { quality_label: String },
    Done { path: String },
}

/// The update dialog.
#[derive(Clone, Copy, Debug, PartialEq, Eq, Structural)]
pub enum UpdateModal {
    Prompt,
    Downloading { received: u64, total: u64 },
    Installing,
}

/// The window's state that messages change. Lists and records of the
/// cloud service are held by their ids; `editor_open` stands for the open
/// editor and its time field, which a new selection closes.
#[derive(Debug)]
pub struct UiState {
    pub app_name: String,
    pub current_version: String,
    pub show_recorder: bool,
    pub busy: bool,
    pub recorder_loading: bool,
    pub recorder_loaded: bool,
    pub update_checking: bool,
    pub error: Option<String>,
    /// When the error toast goes away, in milliseconds of the caller's clock.
    pub error_until: Option<u64>,
    pub notice: Option<String>,
    /// When the notice toast goes away, in milliseconds of the caller's clock.
    pub notice_until: Option<u64>,
    pub selected: Option<String>,
    pub editor_open: bool,
    pub user: Option<String>,
    pub auth: Option<AuthMode>,
    pub access_request: Option<String>,
    pub show_pending: bool,
    pub cloud_clips: Vec<String>,
    pub admin_users: Vec<String>,
    pub admin_requests: Vec<String>,
    pub show_access: bool,
    pub created_reset: Option<String>,
    pub export: Option<ExportModal>,
    pub update: Option<UpdateModal>,
    pub available_update: Option<String>,
}

/// A message from background work.
#[derive(Debug)]
pub enum UiMessage {
    Error(String),
    Notice(String),
    Refresh,
    Imported(Vec<String>),
    User(String),
    LoggedOut,
    CloudClips(Vec<String>),
    AccessRequest(Option<String>),
    Admin(Vec<String>, Vec<String>),
    PasswordReset(String),
    Busy(bool),
    /// Export progress; the fraction itself is applied by the caller.
    ExportProgress,
    ExportDone(String),
    /// The result of an update check: the newer version if any, whether the
    /// user asked for the check, and the version the user snoozed.
    UpdateAvailable { version: Option<String>, manual: bool, snoozed: Option<String> },
    UpdateProgress { received: u64, total: u64 },
    UpdateDownloaded,
    /// Installing a downloaded update failed.
    InstallFailed(String),
    RecorderRefreshed,
    RecorderImported(Vec<String>),
}

/// Engine work a message calls for.
#[derive(Clone, Copy, Debug, PartialEq, Eq, Structural)]
pub enum UiAction {
    /// Reload clips and jobs (and re-check the selection).
    ReloadLibrary,
    /// Read the recorder's capabilities and status again, labelling
    /// playback devices.
    RefreshRecorder,
    /// Read the configuration again.
    ReloadConfig,
    /// Adopt refreshed recorder capabilities: label playback devices,
    /// normalise the recorder configuration, add default routes and names.
    ApplyRecorderCapabilities,
    PausePlayer,
    ShutdownRecorder,
    /// Install the downloaded update and quit.
    InstallUpdate,
}

/// The export dialog as values.
pub enum ExportShown {
    Working(Seq<char>),
    Done(Seq<char>),
}

/// `UiState` as values.
#[verifier::ext_equal]
pub struct UiView {
    pub app_name: Seq<char>,
    pub current_version: Seq<char>,
    pub show_recorder: bool,
    pub busy: bool,
    pub recorder_loading: bool,
    pub recorder_loaded: bool,
    pub update_checking: bool,
    pub error: Option<Seq<char>>,
    pub error_until: Option<u64>,
    pub notice: Option<Seq<char>>,
    pub notice_until: Option<u64>,
    pub selected: Option<Seq<char>>,
    pub editor_open: bool,
    pub user: Option<Seq<char>>,
    pub auth: Option<AuthMode>,
    pub access_request: Option<Seq<char>>,
    pub show_pending: bool,
    pub cloud_clips: Seq<Seq<char>>,
    pub admin_users: Seq<Seq<char>>,
    pub admin_requests: Seq<Seq<char>>,
    pub show_access: bool,
    pub created_reset: Option<Seq<char>>,
    pub export: Option<ExportShown>,
    pub update: Option<UpdateModal>,
    pub available_update: Option<Seq<char>>,
}

pub open spec fn export_view(e: Option<ExportModal>) -> Option<ExportShown> {
    match e {
        Some(ExportModal::Working { quality_label }) => Some(ExportShown::Working(quality_label@)),
        Some(ExportModal::Done { path }) => Some(ExportShown::Done(path@)),
        None => None,
    }
}

impl View for UiState {
    type V = UiView;

    open spec fn view(&self) -> UiView {
        UiView {
            app_name: self.app_name@,
            current_version: self.current_version@,
            show_recorder: self.show_recorder,
            busy: self.busy,
            recorder_loading: self.recorder_loading,
            recorder_loaded: self.recorder_loaded,
            update_checking: self.update_checking,
            error: opt_view(self.error),
            error_until: self.error_until,
            notice: opt_view(self.notice),
            notice_until: self.notice_until,
            selected: opt_view(self.selected),
            editor_open: self.editor_open,
            user: opt_view(self.user),
            auth: self.auth,
            access_request: opt_view(self.access_request),
            show_pending: self.show_pending,
            cloud_clips: string_views(self.cloud_clips@),
            admin_users: string_views(self.admin_users@),
            admin_requests: string_views(self.admin_requests@),
            show_access: self.show_access,
            created_reset: opt_view(self.created_reset),
            export: export_view(self.export),
            update: self.update,
            available_update: opt_view(self.available_update),
        }
    }
}

/// The first of newly imported clips becomes the selection, closing the
/// editor.
pub open spec fn select_first(s: UiView, ids: Seq<Seq<char>>) -> UiView {
    if ids.len() > 0 {
        UiView { selected: Some(ids[0]), editor_open: false, ..s }
    } else {
        s
    }
}

/// How long a toast stays up, in milliseconds.
pub const TOAST_MILLIS: u64 = 5000;

/// When a toast shown at `now` goes away.
pub open spec fn toast_deadline(now: u64) -> Option<u64> {
    Some((now + TOAST_MILLIS) as u64)
}

/// The state after `msg`, received at `now` (milliseconds of the caller's
/// clock).
pub open spec fn next_ui(s: UiView, msg: UiMessage, now: u64) -> UiView {
    match msg {
        UiMessage::Error(v) => UiView {
            error: Some(v@),
            error_until: toast_deadline(now),
            busy: false,
            recorder_loading: false,
            update_checking: false,
            export: match s.export {
                Some(ExportShown::Working(_)) => None,
                other => other,
            },
            update: match s.update {
                Some(UpdateModal::Downloading { .. }) => Some(UpdateModal::Prompt),
                other => other,
            },
            ..s
        },
        UiMessage::Notice(v) => UiView {
            notice: Some(v@),
            notice_until: toast_deadline(now),
            busy: false,
            ..s
        },
        UiMessage::Refresh => UiView { busy: false, ..s },
        UiMessage::Imported(ids) => select_first(UiView { busy: false, ..s }, string_views(ids@)),
        UiMessage::User(u) => UiView {
            user: Some(u@),
            auth: None,
            access_request: None,
            show_pending: false,
            busy: false,
            ..s
        },
        UiMessage::LoggedOut => UiView {
            user: None,
            access_request: None,
            show_pending: false,
            cloud_clips: Seq::<Seq<char>>::empty(),
            auth: Some(AuthMode::Login),
            busy: false,
            ..s
        },
        UiMessage::CloudClips(c) => UiView { cloud_clips: string_views(c@), ..s },
        UiMessage::AccessRequest(r) => match r {
            None => UiView {
                access_request: None,
                show_pending: false,
                auth: Some(AuthMode::Request),
                busy: false,
                ..s
            },
            Some(x) => UiView { access_request: Some(x@), show_pending: true, busy: false, ..s },
        },
        UiMessage::Admin(users, requests) => UiView {
            admin_users: string_views(users@),
            admin_requests: string_views(requests@),
            show_access: true,
            busy: false,
            ..s
        },
        UiMessage::PasswordReset(r) => UiView { created_reset: Some(r@), busy: false, ..s },
        UiMessage::Busy(b) => UiView { busy: b, ..s },
        UiMessage::ExportProgress => s,
        UiMessage::ExportDone(p) => UiView { export: Some(ExportShown::Done(p@)), busy: false, ..s },
        UiMessage::UpdateAvailable { version, manual, snoozed } => match version {
            Some(v) => UiView {
                update_checking: false,
                available_update: Some(v@),
                update: if offer_update_spec(manual, opt_view(snoozed), v@) {
                    Some(UpdateModal::Prompt)
                } else {
                    s.update
                },
                ..s
            },
            None => UiView {
                update_checking: false,
                available_update: None,
                notice: if manual {
                    Some(up_to_date_spec(s.app_name, s.current_version))
                } else {
                    s.notice
                },
                notice_until: if manual {
                    toast_deadline(now)
                } else {
                    s.notice_until
                },
                ..s
            },
        },
        UiMessage::UpdateProgress { received, total } => UiView {
            update: match s.update {
                Some(UpdateModal::Downloading { .. }) => Some(
                    UpdateModal::Downloading { received, total },
                ),
                other => other,
            },
            ..s
        },
        UiMessage::UpdateDownloaded => if s.available_update is Some {
            UiView { update: Some(UpdateModal::Installing), ..s }
        } else {
            s
        },
        UiMessage::InstallFailed(e) => UiView {
            update: Some(UpdateModal::Prompt),
            error: Some(e@),
            error_until: toast_deadline(now),
            ..s
        },
        UiMessage::RecorderRefreshed => UiView {
            recorder_loaded: true,
            recorder_loading: false,
            busy: false,
            ..s
        },
        UiMessage::RecorderImported(ids) => {
            let t = select_first(UiView { busy: false, ..s }, string_views(ids@));
            match replay_notice_spec(ids@.len() as usize) {
                Some(n) => UiView { notice: Some(n), notice_until: toast_deadline(now), ..t },
                None => t,
            }
        },
    }
}

/// The engine work `msg` calls for, in order.
pub open spec fn ui_actions(s: UiView, msg: UiMessage) -> Seq<UiAction> {
    match msg {
        UiMessage::Error(_) => if s.show_recorder {
            seq![UiAction::RefreshRecorder]
        } else {
            Seq::<UiAction>::empty()
        },
        UiMessage::Refresh => seq![UiAction::ReloadLibrary],
        UiMessage::Imported(_) => seq![UiAction::ReloadLibrary],
        UiMessage::RecorderImported(_) => seq![UiAction::ReloadLibrary],
        UiMessage::User(_) => seq![UiAction::ReloadConfig],
        UiMessage::LoggedOut => seq![UiAction::ReloadConfig],
        UiMessage::AccessRequest(_) => seq![UiAction::ReloadConfig],
        UiMessage::RecorderRefreshed => seq![UiAction::ApplyRecorderCapabilities],
        UiMessage::UpdateDownloaded => if s.available_update is Some {
            seq![UiAction::PausePlayer, UiAction::ShutdownRecorder, UiAction::InstallUpdate]
        } else {
            Seq::<UiAction>::empty()
        },
        _ => Seq::<UiAction>::empty(),
    }
}


fn first_id(ids: &Vec<String>) -> (r: Option<String>)
    ensures
        opt_view(r) == (if ids@.len() > 0 {
            Some(ids@[0]@)
        } else {
            None::<Seq<char>>
        }),
{
    if ids.len() > 0 {
        Some(ids[0].clone())
    } else {
        None
    }
}

fn as_str_option(o: &Option<String>) -> (r: Option<&str>)
    ensures
        match r {
            Some(t) => opt_view(*o) == Some(t@),
            None => o is None,
        },
{
    match o {
        Some(t) => Some(t.as_str()),
        None => None,
    }
}

fn on_error(state: UiState, v: String, now: u64) -> (r: (UiState, Vec<UiAction>))
    requires
        now <= u64::MAX - TOAST_MILLIS,
    ensures
        r.0@ == next_ui(state@, UiMessage::Error(v), now),
        r.1@ == ui_actions(state@, UiMessage::Error(v)),
{
    let ghost before = state@;
    let ghost m = UiMessage::Error(v);
    let mut s = state;
    let mut actions: Vec<UiAction> = Vec::new();
        s.error = Some(v);
        s.error_until = Some(now + TOAST_MILLIS);
        s.busy = false;
        s.recorder_loading = false;
        s.update_checking = false;
        if s.show_recorder {
            actions.push(UiAction::RefreshRecorder);
        }
        let working = match &s.export {
            Some(ExportModal::Working { .. }) => true,
            _ => false,
        };
        if working {
            s.export = None;
        }
        let downloading = match s.update {
            Some(UpdateModal::Downloading { .. }) => true,
            _ => false,
        };
        if downloading {
            s.update = Some(UpdateModal::Prompt);
        }
    assert(s@ =~= next_ui(before, m, now));
    assert(actions@ =~= ui_actions(before, m));
    (s, actions)
}

fn on_notice(state: UiState, v: String, now: u64) -> (r: (UiState, Vec<UiAction>))
    requires
        now <= u64::MAX - TOAST_MILLIS,
    ensures
        r.0@ == next_ui(state@, UiMessage::Notice(v), now),
        r.1@ == ui_actions(state@, UiMessage::Notice(v)),
{
    let ghost before = state@;
    let ghost m = UiMessage::Notice(v);
    let mut s = state;
    let mut actions: Vec<UiAction> = Vec::new();
        s.notice = Some(v);
        s.notice_until = Some(now + TOAST_MILLIS);
        s.busy = false;
    assert(s@ =~= next_ui(before, m, now));
    assert(actions@ =~= ui_actions(before, m));
    (s, actions)
}

fn on_imported(state: UiState, ids: Vec<String>, now: u64) -> (r: (UiState, Vec<UiAction>))
    ensures
        r.0@ == next_ui(state@, UiMessage::Imported(ids), now),
        r.1@ == ui_actions(state@, UiMessage::Imported(ids)),
{
    let ghost before = state@;
    let ghost m = UiMessage::Imported(ids);
    let mut s = state;
    let mut actions: Vec<UiAction> = Vec::new();
        s.busy = false;
        actions.push(UiAction::ReloadLibrary);
        let first = first_id(&ids);
        if first.is_some() {
            s.selected = first;
            s.editor_open = false;
        }
    assert(s@ =~= next_ui(before, m, now));
    assert(actions@ =~= ui_actions(before, m));
    (s, actions)
}

fn on_user(state: UiState, u: String, now: u64) -> (r: (UiState, Vec<UiAction>))
    ensures
        r.0@ == next_ui(state@, UiMessage::User(u), now),
        r.1@ == ui_actions(state@, UiMessage::User(u)),
{
    let ghost before = state@;
    let ghost m = UiMessage::User(u);
    let mut s = state;
    let mut actions: Vec<UiAction> = Vec::new();
        s.user = Some(u);
        s.auth = None;
        s.access_request = None;
        s.show_pending = false;
        s.busy = false;
        actions.push(UiAction::ReloadConfig);
    assert(s@ =~= next_ui(before, m, now));
    assert(actions@ =~= ui_actions(before, m));
    (s, actions)
}

fn on_logged_out(state: UiState, now: u64) -> (r: (UiState, Vec<UiAction>))
    ensures
        r.0@ == next_ui(state@, UiMessage::LoggedOut, now),
        r.1@ == ui_actions(state@, UiMessage::LoggedOut),
{
    let ghost before = state@;
    let ghost m = UiMessage::LoggedOut;
    let mut s = state;
    let mut actions: Vec<UiAction> = Vec::new();
        s.user = None;
        s.access_request = None;
        s.show_pending = false;
        s.cloud_clips = Vec::new();
        s.auth = Some(AuthMode::Login);
        s.busy = false;
        actions.push(UiAction::ReloadConfig);
    assert(s@ =~= next_ui(before, m, now));
    assert(actions@ =~= ui_actions(before, m));
    (s, actions)
}

fn on_access_request(state: UiState, request: Option<String>, now: u64) -> (r: (UiState, Vec<UiAction>))
    ensures
        r.0@ == next_ui(state@, UiMessage::AccessRequest(request), now),
        r.1@ == ui_actions(state@, UiMessage::AccessRequest(request)),
{
    let ghost before = state@;
    let ghost m = UiMessage::AccessRequest(request);
    let mut s = state;
    let mut actions: Vec<UiAction> = Vec::new();
        match request {
            None => {
                s.access_request = None;
                s.show_pending = false;
                s.auth = Some(AuthMode::Request);
            },
            Some(x) => {
                s.access_request = Some(x);
                s.show_pending = true;
            },
        }
        s.busy = false;
        actions.push(UiAction::ReloadConfig);
    assert(s@ =~= next_ui(before, m, now));
    assert(actions@ =~= ui_actions(before, m));
    (s, actions)
}

fn on_admin(state: UiState, users: Vec<String>, requests: Vec<String>, now: u64) -> (r: (UiState, Vec<UiAction>))
    ensures
        r.0@ == next_ui(state@, UiMessage::Admin(users, requests), now),
        r.1@ == ui_actions(state@, UiMessage::Admin(users, requests)),
{
    let ghost before = state@;
    let ghost m = UiMessage::Admin(users, requests);
    let mut s = state;
    let mut actions: Vec<UiAction> = Vec::new();
        s.admin_users = users;
        s.admin_requests = requests;
        s.show_access = true;
        s.busy = false;
    assert(s@ =~= next_ui(before, m, now));
    assert(actions@ =~= ui_actions(before, m));
    (s, actions)
}

fn on_update_available(state: UiState, version: Option<String>, manual: bool, snoozed: Option<String>, now: u64) -> (r: (UiState, Vec<UiAction>))
    requires
        now <= u64::MAX - TOAST_MILLIS,
    ensures
        r.0@ == next_ui(state@, UiMessage::UpdateAvailable { version, manual, snoozed }, now),
        r.1@ == ui_actions(state@, UiMessage::UpdateAvailable { version, manual, snoozed }),
{
    let ghost before = state@;
    let ghost m = UiMessage::UpdateAvailable { version, manual, snoozed };
    let mut s = state;
    let mut actions: Vec<UiAction> = Vec::new();
        s.update_checking = false;
        match version {
            Some(v) => {
                let offer = offer_update(manual, as_str_option(&snoozed), v.as_str());
                s.available_update = Some(v);
                if offer {
                    s.update = Some(UpdateModal::Prompt);
                }
            },
            None => {
                s.available_update = None;
                if manual {
                    let n = up_to_date_notice(s.app_name.as_str(), s.current_version.as_str());
                    s.notice = Some(n);
                    s.notice_until = Some(now + TOAST_MILLIS);
                }
            },
        }
    assert(s@ =~= next_ui(before, m, now));
    assert(actions@ =~= ui_actions(before, m));
    (s, actions)
}

fn on_recorder_imported(state: UiState, ids: Vec<String>, now: u64) -> (r: (UiState, Vec<UiAction>))
    requires
        now <= u64::MAX - TOAST_MILLIS,
    ensures
        r.0@ == next_ui(state@, UiMessage::RecorderImported(ids), now),
        r.1@ == ui_actions(state@, UiMessage::RecorderImported(ids)),
{
    let ghost before = state@;
    let ghost m = UiMessage::RecorderImported(ids);
    let mut s = state;
    let mut actions: Vec<UiAction> = Vec::new();
        s.busy = false;
        actions.push(UiAction::ReloadLibrary);
        let first = first_id(&ids);
        if first.is_some() {
            s.selected = first;
            s.editor_open = false;
        }
        match replay_notice(ids.len()) {
            Some(n) => {
                s.notice = Some(n);
                s.notice_until = Some(now + TOAST_MILLIS);
            },
            None => {},
        }
    assert(s@ =~= next_ui(before, m, now));
    assert(actions@ =~= ui_actions(before, m));
    (s, actions)
}

/// The messages that change one or two plain fields.
fn on_simple(state: UiState, msg: UiMessage, now: u64) -> (r: (UiState, Vec<UiAction>))
    requires
        now <= u64::MAX - TOAST_MILLIS,
        !(msg is Error || msg is Notice || msg is Imported || msg is User || msg is LoggedOut
            || msg is AccessRequest || msg is Admin || msg is UpdateAvailable
            || msg is RecorderImported),
    ensures
        r.0@ == next_ui(state@, msg, now),
        r.1@ == ui_actions(state@, msg),
{
    let ghost before = state@;
    let ghost m = msg;
    let mut s = state;
    let mut actions: Vec<UiAction> = Vec::new();
    match msg {
        UiMessage::Refresh => {
            s.busy = false;
            actions.push(UiAction::ReloadLibrary);
        },
        UiMessage::CloudClips(c) => {
            s.cloud_clips = c;
        },
        UiMessage::PasswordReset(r) => {
            s.created_reset = Some(r);
            s.busy = false;
        },
        UiMessage::Busy(b) => {
            s.busy = b;
        },
        UiMessage::ExportDone(p) => {
            s.export = Some(ExportModal::Done { path: p });
            s.busy = false;
        },
        UiMessage::UpdateProgress { received, total } => {
            let downloading = match s.update {
                Some(UpdateModal::Downloading { .. }) => true,
                _ => false,
            };
            if downloading {
                s.update = Some(UpdateModal::Downloading { received, total });
            }
        },
        UiMessage::UpdateDownloaded => {
            if s.available_update.is_some() {
                s.update = Some(UpdateModal::Installing);
                actions.push(UiAction::PausePlayer);
                actions.push(UiAction::ShutdownRecorder);
                actions.push(UiAction::InstallUpdate);
            }
        },
        UiMessage::InstallFailed(e) => {
            s.update = Some(UpdateModal::Prompt);
            s.error = Some(e);
            s.error_until = Some(now + TOAST_MILLIS);
        },
        UiMessage::RecorderRefreshed => {
            s.recorder_loaded = true;
            s.recorder_loading = false;
            s.busy = false;
            actions.push(UiAction::ApplyRecorderCapabilities);
        },
        _ => {},
    }
    assert(s@ =~= next_ui(before, m, now));
    assert(actions@ =~= ui_actions(before, m));
    (s, actions)
}

/// The window with the toasts whose time is up at `now` dismissed.
pub open spec fn expire_toasts_spec(s: UiView, now: u64) -> UiView {
    let e = if s.error_until is Some && now >= s.error_until->0 {
        UiView { error: None, error_until: None, ..s }
    } else {
        s
    };
    if e.notice_until is Some && now >= e.notice_until->0 {
        UiView { notice: None, notice_until: None, ..e }
    } else {
        e
    }
}

/// Dismisses the error and the notice whose deadlines have passed at `now`.
pub fn expire_toasts(state: UiState, now: u64) -> (r: UiState)
    ensures
        r@ == expire_toasts_spec(state@, now),
{
    let ghost before = state@;
    let mut s = state;
    let error_over = match s.error_until {
        Some(until) => now >= until,
        None => false,
    };
    if error_over {
        s.error = None;
        s.error_until = None;
    }
    let notice_over = match s.notice_until {
        Some(until) => now >= until,
        None => false,
    };
    if notice_over {
        s.notice = None;
        s.notice_until = None;
    }
    assert(s@ =~= expire_toasts_spec(before, now));
    s
}

/// The error toast closed by hand: no error and no deadline.
pub fn dismiss_error(state: UiState) -> (r: UiState)
    ensures
        r@ == (UiView { error: None, error_until: None, ..state@ }),
{
    let mut s = state;
    s.error = None;
    s.error_until = None;
    s
}

/// The notice toast closed by hand: no notice and no deadline.
pub fn dismiss_notice(state: UiState) -> (r: UiState)
    ensures
        r@ == (UiView { notice: None, notice_until: None, ..state@ }),
{
    let mut s = state;
    s.notice = None;
    s.notice_until = None;
    s
}

/// The window's reaction to one message: the next state and the engine
/// work to do.
pub fn on_message(state: UiState, msg: UiMessage, now: u64) -> (r: (UiState, Vec<UiAction>))
    requires
        now <= u64::MAX - TOAST_MILLIS,
    ensures
        r.0@ == next_ui(state@, msg, now),
        r.1@ == ui_actions(state@, msg),
{
    match msg {
        UiMessage::Error(v) => on_error(state, v, now),
        UiMessage::Notice(v) => on_notice(state, v, now),
        UiMessage::Imported(ids) => on_imported(state, ids, now),
        UiMessage::User(u) => on_user(state, u, now),
        UiMessage::LoggedOut => on_logged_out(state, now),
        UiMessage::AccessRequest(r) => on_access_request(state, r, now),
        UiMessage::Admin(users, requests) => on_admin(state, users, requests, now),
        UiMessage::UpdateAvailable { version, manual, snoozed } => on_update_available(
            state,
            version,
            manual,
            snoozed,
            now,
        ),
        UiMessage::RecorderImported(ids) => on_recorder_imported(state, ids, now),
        other => on_simple(state, other, now),
    }
}


/// Every reply to a request the window made clears the busy flag.
pub proof fn lemma_replies_clear_busy(s: UiView, msg: UiMessage, now: u64)
    requires
        msg is Error || msg is Notice || msg is Refresh || msg is Imported || msg is User
            || msg is LoggedOut || msg is AccessRequest || msg is Admin || msg is PasswordReset
            || msg is ExportDone || msg is RecorderRefreshed || msg is RecorderImported,
    ensures
        !next_ui(s, msg, now).busy,
{
}

/// An error is shown with its toast deadline, stops the busy and loading
/// indicators, and closes a running export or a download in progress (back
/// to the update prompt).
pub proof fn lemma_errors_stop_running_work(s: UiView, message: String, now: u64)
    requires
        now <= u64::MAX - TOAST_MILLIS,
    ensures
        ({
            let t = next_ui(s, UiMessage::Error(message), now);
            &&& t.error == Some(message@)
            &&& t.error_until == Some((now + TOAST_MILLIS) as u64)
            &&& !t.busy && !t.recorder_loading && !t.update_checking
            &&& !(t.export matches Some(ExportShown::Working(_)))
            &&& !(t.update matches Some(UpdateModal::Downloading { .. }))
        }),
{
}

/// An error toast stays up for its full time and is gone after it; a
/// notice toast likewise.
pub proof fn lemma_toasts_last_their_time(
    s: UiView,
    message: String,
    now: u64,
    later: u64,
)
    requires
        now <= u64::MAX - TOAST_MILLIS,
    ensures
        expire_toasts_spec(next_ui(s, UiMessage::Error(message), now), later).error == (if later
            < now + TOAST_MILLIS {
            Some(message@)
        } else {
            None::<Seq<char>>
        }),
        expire_toasts_spec(next_ui(s, UiMessage::Notice(message), now), later).notice == (if later
            < now + TOAST_MILLIS {
            Some(message@)
        } else {
            None::<Seq<char>>
        }),
{
}

/// Signing in closes the sign-in dialog; signing out forgets the user and
/// the cloud clips and opens the sign-in dialog.
pub proof fn lemma_sign_in_and_out(s: UiView, user: String, now: u64)
    ensures
        next_ui(s, UiMessage::User(user), now).user == Some(user@),
        next_ui(s, UiMessage::User(user), now).auth is None,
        next_ui(s, UiMessage::LoggedOut, now).user is None,
        next_ui(s, UiMessage::LoggedOut, now).auth == Some(AuthMode::Login),
        next_ui(s, UiMessage::LoggedOut, now).cloud_clips.len() == 0,
{
}

/// An update is installed only after its download, and only when the
/// window knows of an available update.
pub proof fn lemma_install_needs_update(s: UiView, msg: UiMessage)
    ensures
        ui_actions(s, msg).contains(UiAction::InstallUpdate) ==> msg is UpdateDownloaded
            && s.available_update is Some,
{
    if ui_actions(s, msg).contains(UiAction::InstallUpdate) {
        let i = choose|i: int|
            0 <= i < ui_actions(s, msg).len() && ui_actions(s, msg)[i] == UiAction::InstallUpdate;
        assert(ui_actions(s, msg)[i] == UiAction::InstallUpdate);
    }
}

} // verus!
