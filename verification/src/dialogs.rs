//! What the sign-in, access-status, access-management and publish dialogs
//! show: their titles, which entries, fields and buttons appear, which
//! button is enabled, and what a submission does.

use vstd::prelude::*;
use vstd::string::StringExecFns;
use crate::text::{chars_of, contains_vec, has_infix, seq_eq, trim, trim_vec};
use crate::media::{to_lowercase, unicode_lowercase};
use crate::models::opt_view;
use crate::ui::{AuthMode, UpdateModal};

verus! {

/// The title of the sign-in dialog. `forgot_step` is 0 for the ordinary
/// dialog, 1 while the forgotten-password token is asked for and 2 while a
/// new password is chosen.
pub open spec fn auth_title_spec(forgot_step: u8, mode: Option<AuthMode>) -> Seq<char> {
    if forgot_step == 1 {
        "Forgot your password?"@
    } else if forgot_step == 2 {
        "Choose a new password"@
    } else if mode == Some(AuthMode::Login) {
        "Sign in"@
    } else {
        "Create account"@
    }
}

pub fn auth_title(forgot_step: u8, mode: Option<AuthMode>) -> (r: &'static str)
    ensures
        r@ == auth_title_spec(forgot_step, mode),
{
    if forgot_step == 1 {
        "Forgot your password?"
    } else if forgot_step == 2 {
        "Choose a new password"
    } else if mode == Some(AuthMode::Login) {
        "Sign in"
    } else {
        "Create account"
    }
}

/// The ordinary sign-in dialog: the label and state of its submit button
/// and which of its optional parts appear.
pub struct AuthForm {
    pub submit_label: &'static str,
    pub submit_enabled: bool,
    /// The display-name field and the password confirmation (new accounts).
    pub asks_display_name: bool,
    pub asks_confirmation: bool,
    /// The "Forgot my password" link (signing in).
    pub offers_reset: bool,
    /// "Your request is pending owner approval."
    pub shows_pending_note: bool,
    /// The "Sign out this device" button.
    pub offers_sign_out: bool,
}

/// The submit button's label: "Sign in" when signing in; for a new account
/// it tells whether the request awaits the owner, is being sent, or can be
/// made.
pub open spec fn submit_label_spec(mode: Option<AuthMode>, busy: bool, access_pending: bool) -> Seq<
    char,
> {
    if mode == Some(AuthMode::Login) {
        "Sign in"@
    } else if access_pending {
        "Awaiting owner approval"@
    } else if busy {
        "Access requested"@
    } else {
        "Request access"@
    }
}

/// The ordinary sign-in dialog for the open mode, whether work is running
/// and whether the device's access request is pending.
pub fn auth_form(mode: Option<AuthMode>, busy: bool, access_pending: bool) -> (r: AuthForm)
    ensures
        r.submit_label@ == submit_label_spec(mode, busy, access_pending),
        r.submit_enabled == (!busy && !access_pending),
        r.asks_display_name == (mode == Some(AuthMode::Request)),
        r.asks_confirmation == (mode == Some(AuthMode::Request)),
        r.offers_reset == (mode == Some(AuthMode::Login)),
        r.shows_pending_note == (mode == Some(AuthMode::Request) && (busy || access_pending)),
        r.offers_sign_out == (mode == Some(AuthMode::Request) && access_pending),
{
    let login = mode == Some(AuthMode::Login);
    let request = mode == Some(AuthMode::Request);
    let submit_label = if login {
        "Sign in"
    } else if access_pending {
        "Awaiting owner approval"
    } else if busy {
        "Access requested"
    } else {
        "Request access"
    };
    AuthForm {
        submit_label,
        submit_enabled: !busy && !access_pending,
        asks_display_name: request,
        asks_confirmation: request,
        offers_reset: login,
        shows_pending_note: request && (busy || access_pending),
        offers_sign_out: request && access_pending,
    }
}

/// What submitting the sign-in dialog does.
#[derive(Clone, Copy, Debug, PartialEq, Eq, Structural)]
pub enum AuthSubmit {
    /// "Passwords do not match." is shown and nothing is sent.
    Mismatch,
    /// The credentials are sent to sign in.
    Login,
    /// An access request is sent.
    RequestAccess,
}

/// A new account needs the password typed twice alike; signing in sends at
/// once.
pub open spec fn auth_submit_spec(mode: Option<AuthMode>, password: Seq<char>, confirm: Seq<char>) -> AuthSubmit {
    if mode == Some(AuthMode::Request) && password != confirm {
        AuthSubmit::Mismatch
    } else if mode == Some(AuthMode::Login) {
        AuthSubmit::Login
    } else {
        AuthSubmit::RequestAccess
    }
}

pub fn auth_submit(mode: Option<AuthMode>, password: &str, confirm: &str) -> (r: AuthSubmit)
    ensures
        r == auth_submit_spec(mode, password@, confirm@),
{
    let same = seq_eq(&chars_of(password), &chars_of(confirm));
    if mode == Some(AuthMode::Request) && !same {
        AuthSubmit::Mismatch
    } else if mode == Some(AuthMode::Login) {
        AuthSubmit::Login
    } else {
        AuthSubmit::RequestAccess
    }
}

/// Whether a publish job's status is one of the running ones.
pub open spec fn publish_running(status: Seq<char>) -> bool {
    status == "queued"@ || status == "transcoding"@ || status == "uploading"@
}

/// The publish dialog's title: naming the clip, or the state of its job
/// (absent while the job is being created).
pub open spec fn publish_title_spec(naming: bool, status: Option<Seq<char>>) -> Seq<char> {
    if naming {
        "Name this clip"@
    } else if status == Some("complete"@) {
        "Published"@
    } else if status == Some("failed"@) {
        "Publish failed"@
    } else {
        "Publishing"@
    }
}

/// The publish dialog's title and whether it can be closed: not while its
/// job is running.
pub fn publish_dialog(naming: bool, job_status: Option<String>) -> (r: (&'static str, bool))
    ensures
        r.0@ == publish_title_spec(naming, opt_view(job_status)),
        r.1 == !(!naming && opt_view(job_status) is Some && publish_running(
            opt_view(job_status)->0,
        )),
{
    let (complete, failed, running) = match &job_status {
        Some(s) => {
            let v = chars_of(s.as_str());
            let q = chars_of("queued");
            let t = chars_of("transcoding");
            let u = chars_of("uploading");
            let c = chars_of("complete");
            let f = chars_of("failed");
            let is_c = seq_eq(&v, &c);
            let is_f = seq_eq(&v, &f);
            let run = seq_eq(&v, &q) || seq_eq(&v, &t) || seq_eq(&v, &u);
            (is_c, is_f, run)
        },
        None => (false, false, false),
    };
    let title = if naming {
        "Name this clip"
    } else if complete {
        "Published"
    } else if failed {
        "Publish failed"
    } else {
        "Publishing"
    };
    (title, naming || !running)
}

/// The message a failed publish shows: its error, or a general one.
pub open spec fn failure_text_spec(error: Option<Seq<char>>) -> Seq<char> {
    match error {
        Some(e) => e,
        None => "Publishing failed."@,
    }
}

pub fn failure_text(error: Option<String>) -> (r: String)
    ensures
        r@ == failure_text_spec(opt_view(error)),
{
    match error {
        Some(e) => e,
        None => String::from_str("Publishing failed."),
    }
}

/// "Publish" can be pressed once the clip's name holds more than blanks.
pub fn can_confirm_publish(title: &str) -> (r: bool)
    ensures
        r == (trim(title@).len() > 0),
{
    trim_vec(&chars_of(title)).len() > 0
}

/// The heading of the access-status dialog for the device's request.
pub open spec fn pending_heading_spec(status: Seq<char>) -> Seq<char> {
    if status == "approved"@ {
        "Your access was approved"@
    } else if status == "denied"@ {
        "Your request was declined"@
    } else {
        "Awaiting owner approval"@
    }
}

pub fn pending_heading(status: &str) -> (r: &'static str)
    ensures
        r@ == pending_heading_spec(status@),
{
    let v = chars_of(status);
    if seq_eq(&v, &chars_of("approved")) {
        "Your access was approved"
    } else if seq_eq(&v, &chars_of("denied")) {
        "Your request was declined"
    } else {
        "Awaiting owner approval"
    }
}

/// The tabs of the access-management dialog.
#[derive(Clone, Copy, Debug, PartialEq, Eq, Structural)]
pub enum AccessFilter {
    Pending,
    Active,
    Revoked,
    Denied,
}

/// The status of the requests or members a tab lists.
pub open spec fn filter_status_spec(filter: AccessFilter) -> Seq<char> {
    match filter {
        AccessFilter::Pending => "pending"@,
        AccessFilter::Active => "active"@,
        AccessFilter::Revoked => "revoked"@,
        AccessFilter::Denied => "denied"@,
    }
}

pub fn filter_status(filter: AccessFilter) -> (r: &'static str)
    ensures
        r@ == filter_status_spec(filter),
{
    match filter {
        AccessFilter::Pending => "pending",
        AccessFilter::Active => "active",
        AccessFilter::Revoked => "revoked",
        AccessFilter::Denied => "denied",
    }
}

/// The tab's label.
pub fn filter_label(filter: AccessFilter) -> (r: &'static str)
    ensures
        r@ == (match filter {
            AccessFilter::Pending => "Pending"@,
            AccessFilter::Active => "Active"@,
            AccessFilter::Revoked => "Revoked"@,
            AccessFilter::Denied => "Declined"@,
        }),
{
    match filter {
        AccessFilter::Pending => "Pending",
        AccessFilter::Active => "Active",
        AccessFilter::Revoked => "Revoked",
        AccessFilter::Denied => "Declined",
    }
}

/// Whether an entry with `status` belongs on the tab and its lowercased
/// `username display-name` text holds the lowercased search text.
pub fn access_entry_matches(filter: AccessFilter, status: &str, lowered_entry: &str, lowered_query: &str) -> (r:
    bool)
    ensures
        r == (status@ == filter_status_spec(filter) && has_infix(lowered_entry@, lowered_query@)),
{
    seq_eq(&chars_of(status), &chars_of(filter_status(filter))) && contains_vec(
        &chars_of(lowered_entry),
        &chars_of(lowered_query),
    )
}

/// The text an access entry is searched by: `username display-name`.
pub open spec fn entry_text(username: Seq<char>, display_name: Seq<char>) -> Seq<char> {
    username + seq![' '] + display_name
}

/// Whether the access-management dialog lists a request or member on the
/// tab: its status is the tab's, and its username and display name, joined
/// by a space, hold the search text, both compared in lower case.
pub fn access_entry_shown(
    filter: AccessFilter,
    status: &str,
    username: &str,
    display_name: &str,
    query: &str,
) -> (r: bool)
    ensures
        r == (status@ == filter_status_spec(filter) && has_infix(
            unicode_lowercase(entry_text(username@, display_name@)),
            unicode_lowercase(query@),
        )),
{
    let mut text = String::from_str(username);
    text.append(" ");
    text.append(display_name);
    proof {
        reveal_strlit(" ");
        assert(text@ =~= entry_text(username@, display_name@));
    }
    let lowered_entry = to_lowercase(text.as_str());
    let lowered_query = to_lowercase(query);
    access_entry_matches(filter, status, lowered_entry.as_str(), lowered_query.as_str())
}

/// What the access-management dialog offers for a member.
pub struct MemberActions {
    /// "Reset password": for an active member other than the signed-in user.
    pub can_reset_password: bool,
    /// "Revoke" for an active member, else "Restore".
    pub toggle_label: &'static str,
    /// The status the toggle sets.
    pub next_status: &'static str,
    /// The toggle is offered for anyone but the signed-in user.
    pub can_toggle: bool,
}

/// Whether the member is the signed-in user.
pub open spec fn is_self(current_user: Option<Seq<char>>, member_id: Seq<char>) -> bool {
    current_user == Some(member_id)
}

pub fn member_actions(current_user: Option<&str>, member_id: &str, status: &str) -> (r: MemberActions)
    ensures
        ({
            let current = match current_user {
                Some(u) => Some(u@),
                None => None::<Seq<char>>,
            };
            let active = status@ == "active"@;
            &&& r.can_reset_password == (!is_self(current, member_id@) && active)
            &&& r.can_toggle == !is_self(current, member_id@)
            &&& r.toggle_label@ == (if active { "Revoke"@ } else { "Restore"@ })
            &&& r.next_status@ == (if active { "revoked"@ } else { "active"@ })
        }),
{
    let me = match current_user {
        Some(u) => seq_eq(&chars_of(u), &chars_of(member_id)),
        None => false,
    };
    let active = seq_eq(&chars_of(status), &chars_of("active"));
    MemberActions {
        can_reset_password: !me && active,
        toggle_label: if active { "Revoke" } else { "Restore" },
        next_status: if active { "revoked" } else { "active" },
        can_toggle: !me,
    }
}

/// What the account button of the top bar does when pressed.
#[derive(Clone, Copy, Debug, PartialEq, Eq, Structural)]
pub enum AccountClick {
    /// Open or close the account row.
    ToggleAccount,
    /// Show the access-status dialog.
    ShowPending,
    /// Open the sign-in dialog.
    OpenSignIn,
}

/// The account button's label: the signed-in user's display name (or
/// "Connected" before it is known), else whether the device's request
/// awaits approval, else an invitation to sign in.
pub open spec fn account_label_spec(
    authenticated: bool,
    display_name: Option<Seq<char>>,
    access_pending: bool,
) -> Seq<char> {
    if authenticated {
        match display_name {
            Some(n) => n,
            None => "Connected"@,
        }
    } else if access_pending {
        "Approval pending"@
    } else {
        "Sign in to publish"@
    }
}

/// The account button: its label and what pressing it does.
pub fn account_button(
    authenticated: bool,
    display_name: Option<String>,
    has_access_request: bool,
    access_pending: bool,
) -> (r: (String, AccountClick))
    ensures
        r.0@ == account_label_spec(authenticated, opt_view(display_name), access_pending),
        r.1 == (if authenticated {
            AccountClick::ToggleAccount
        } else if has_access_request {
            AccountClick::ShowPending
        } else {
            AccountClick::OpenSignIn
        }),
{
    let label = if authenticated {
        match display_name {
            Some(n) => n,
            None => String::from_str("Connected"),
        }
    } else if access_pending {
        String::from_str("Approval pending")
    } else {
        String::from_str("Sign in to publish")
    };
    let click = if authenticated {
        AccountClick::ToggleAccount
    } else if has_access_request {
        AccountClick::ShowPending
    } else {
        AccountClick::OpenSignIn
    };
    (label, click)
}

/// The update button of the account row: its label, whether it is enabled
/// (not while a check runs), and whether pressing it opens the update
/// prompt (an update is known) rather than starting a check.
pub fn update_button(update_available: bool, update_checking: bool) -> (r: (&'static str, bool, bool))
    ensures
        r.0@ == (if update_available {
            "Update available"@
        } else if update_checking {
            "Checking\u{2026}"@
        } else {
            "Check for updates"@
        }),
        r.1 == !update_checking,
        r.2 == update_available,
{
    let label = if update_available {
        "Update available"
    } else if update_checking {
        "Checking\u{2026}"
    } else {
        "Check for updates"
    };
    (label, !update_checking, update_available)
}

/// The access-status dialog shows while asked for, for a device that has a
/// request, is not signed in and has no sign-in dialog open.
pub fn shows_access_status(
    show_pending: bool,
    has_access_request: bool,
    authenticated: bool,
    sign_in_open: bool,
) -> (r: bool)
    ensures
        r == (show_pending && has_access_request && !authenticated && !sign_in_open),
{
    show_pending && has_access_request && !authenticated && !sign_in_open
}

/// "Manage access" is offered to the owner only.
pub fn offers_access_management(role: Option<&str>) -> (r: bool)
    ensures
        r == (match role {
            Some(x) => x@ == "owner"@,
            None => false,
        }),
{
    match role {
        Some(x) => seq_eq(&chars_of(x), &chars_of("owner")),
        None => false,
    }
}

/// A publish job as the status banner sees it.
pub struct JobRow {
    pub id: String,
    pub clip_id: String,
    pub status: String,
}

/// Whether the status banner may follow `job`: a running job of the
/// selected clip that the publish dialog is not already following.
pub open spec fn banner_follows(selected: Seq<char>, followed_by_dialog: Option<Seq<char>>, job: JobRow) -> bool {
    &&& job.clip_id@ == selected
    &&& publish_running(job.status@)
    &&& followed_by_dialog != Some(job.id@)
}

/// The job the status banner shows progress for: the first job the banner
/// may follow, if a clip is selected.
pub fn banner_job(selected: Option<&str>, jobs: &Vec<JobRow>, followed_by_dialog: Option<&str>) -> (r: Option<usize>)
    ensures
        match selected {
            None => r is None,
            Some(sel) => {
                let t = match followed_by_dialog {
                    Some(x) => Some(x@),
                    None => None::<Seq<char>>,
                };
                match r {
                    Some(i) => i < jobs@.len() && banner_follows(sel@, t, jobs@[i as int]) && forall|j: int|
                        0 <= j < i ==> !banner_follows(sel@, t, #[trigger] jobs@[j]),
                    None => forall|j: int|
                        0 <= j < jobs@.len() ==> !banner_follows(sel@, t, #[trigger] jobs@[j]),
                }
            },
        },
{
    let sel = match selected {
        Some(x) => x,
        None => {
            return None;
        },
    };
    let ghost t = match followed_by_dialog {
        Some(x) => Some(x@),
        None => None::<Seq<char>>,
    };
    let sel_chars = chars_of(sel);
    for i in 0..jobs.len()
        invariant
            selected == Some(sel),
            sel_chars@ == sel@,
            t == (match followed_by_dialog {
                Some(x) => Some(x@),
                None => None::<Seq<char>>,
            }),
            forall|j: int| 0 <= j < i ==> !banner_follows(sel@, t, #[trigger] jobs@[j]),
    {
        let job = &jobs[i];
        let status = chars_of(job.status.as_str());
        let running = seq_eq(&status, &chars_of("queued")) || seq_eq(&status, &chars_of("transcoding"))
            || seq_eq(&status, &chars_of("uploading"));
        let mine = seq_eq(&chars_of(job.clip_id.as_str()), &sel_chars);
        let followed = match followed_by_dialog {
            Some(x) => seq_eq(&chars_of(x), &chars_of(job.id.as_str())),
            None => false,
        };
        if mine && running && !followed {
            return Some(i);
        }
    }
    None
}

/// The banner offering a known update shows unless the update is being
/// downloaded or installed.
pub fn shows_update_banner(update_available: bool, update: Option<UpdateModal>) -> (r: bool)
    ensures
        r == (update_available && !(update matches Some(UpdateModal::Downloading { .. }))
            && update != Some(UpdateModal::Installing)),
{
    update_available && match update {
        Some(UpdateModal::Downloading { .. }) => false,
        Some(UpdateModal::Installing) => false,
        _ => true,
    }
}

} // verus!
