//! Rules of the desktop library view: which recordings belong to the inbox,
//! which start-up arguments are files, default titles and file names, track
//! names, release-note summaries and notices.

use vstd::prelude::*;
use vstd::string::StringExecFns;
use crate::text::{
    chars_of, eq_ignore_case, eq_ignore_case_str, eq_str, extend_decimal, extend_signed,
    extend_str, has_prefix, is_white, join, join_vec, signed_decimal, split, split_vec,
    starts_with_str, string_of, string_views, subvec, trim, trim_end, trim_start, trim_vec, views,
    decimal, push_string,
};
use crate::paths::{
    extension, extension_vec, file_stem, file_stem_vec, path_starts_with, path_starts_with_vec,
    with_extension, with_extension_vec,
};
use crate::models::{AudioTrack, opt_view};
use crate::commands::{is_video_extension, is_video_path};

verus! {

// ---------------------------------------------------------------------------
// Release notes
// ---------------------------------------------------------------------------

/// A trailing carriage return removed.
pub open spec fn strip_cr(p: Seq<char>) -> Seq<char> {
    if p.len() > 0 && p.last() == '\r' {
        p.drop_last()
    } else {
        p
    }
}

/// `str::lines`: pieces between `\n`, a final empty piece dropped, and a
/// `\r` right before a `\n` removed.
pub open spec fn lines(s: Seq<char>) -> Seq<Seq<char>> {
    if s.len() == 0 {
        Seq::<Seq<char>>::empty()
    } else {
        let ps = split(s, '\n');
        let kept = if s.last() == '\n' {
            ps.drop_last()
        } else {
            ps
        };
        Seq::new(
            kept.len(),
            |i: int|
                if i < ps.len() - 1 {
                    strip_cr(kept[i])
                } else {
                    kept[i]
                },
        )
    }
}

/// `condensed_release_notes`: the first six lines of the trimmed notes, cut
/// to 360 characters with an ellipsis when longer.
pub open spec fn condensed_notes_spec(notes: Seq<char>) -> Seq<char> {
    let t = trim(notes);
    if t.len() == 0 {
        Seq::<char>::empty()
    } else {
        let ls = lines(t);
        let first = join(
            if ls.len() > 6 {
                ls.take(6)
            } else {
                ls
            },
            '\n',
        );
        if first.len() > 360 {
            first.take(360).push('…')
        } else {
            first
        }
    }
}

proof fn lemma_trim_end_last(s: Seq<char>)
    ensures
        trim_end(s).len() > 0 ==> !is_white(trim_end(s).last()),
        trim_end(s).len() <= s.len(),
    decreases s.len(),
{
    if s.len() > 0 && is_white(s.last()) {
        lemma_trim_end_last(s.drop_last());
    }
}

pub fn condensed_release_notes(notes: &str) -> (r: String)
    ensures
        r@ == condensed_notes_spec(notes@),
        r@.len() <= 361,
{
    let nv = chars_of(notes);
    let t = trim_vec(&nv);
    if t.len() == 0 {
        return String::new();
    }
    proof {
        lemma_trim_end_last(trim_start(nv@));
        assert(t@.last() != '\n');
    }
    let ps = split_vec(&t, '\n');
    let ghost psv = views(ps@);
    let n = if ps.len() > 6 {
        6
    } else {
        ps.len()
    };
    let mut first: Vec<Vec<char>> = Vec::new();
    for i in 0..n
        invariant
            n <= ps.len(),
            psv == views(ps@),
            psv == split(t@, '\n'),
            views(first@) =~= Seq::new(
                i as nat,
                |k: int|
                    if k < psv.len() - 1 {
                        strip_cr(psv[k])
                    } else {
                        psv[k]
                    },
            ),
    {
        let p = &ps[i];
        let ghost before = first@;
        let q = if i + 1 < ps.len() && p.len() > 0 && p[p.len() - 1] == '\r' {
            subvec(p, 0, p.len() - 1)
        } else {
            subvec(p, 0, p.len())
        };
        assert(q@ =~= (if (i as int) < psv.len() - 1 {
            strip_cr(psv[i as int])
        } else {
            psv[i as int]
        }));
        first.push(q);
        assert(views(first@) =~= views(before).push(q@));
    }
    let ghost ls = lines(t@);
    assert(views(first@) =~= (if ls.len() > 6 {
        ls.take(6)
    } else {
        ls
    }));
    let joined = join_vec(&first, '\n');
    if joined.len() > 360 {
        let mut short = subvec(&joined, 0, 360);
        short.push('…');
        string_of(&short)
    } else {
        string_of(&joined)
    }
}

// ---------------------------------------------------------------------------
// Titles, paths, arguments
// ---------------------------------------------------------------------------

/// `default_clip_title`: the trimmed stem of the clip's file name, or
/// `Untitled clip` when that is empty.
pub open spec fn default_title_spec(name: Seq<char>) -> Seq<char> {
    match file_stem(name) {
        Some(s) => if trim(s).len() > 0 {
            trim(s)
        } else {
            "Untitled clip"@
        },
        None => "Untitled clip"@,
    }
}

pub fn default_clip_title(name: &str) -> (r: String)
    ensures
        r@ == default_title_spec(name@),
{
    let v = chars_of(name);
    match file_stem_vec(&v) {
        Some(s) => {
            let t = trim_vec(&s);
            if t.len() > 0 {
                string_of(&t)
            } else {
                String::from_str("Untitled clip")
            }
        },
        None => String::from_str("Untitled clip"),
    }
}

/// `ensure_mp4_path`: the path itself when its extension is `mp4` in any
/// case, else the path with its extension replaced by `mp4`.
pub open spec fn ensure_mp4_spec(path: Seq<char>) -> Seq<char> {
    match extension(path) {
        Some(e) => if eq_ignore_case(e, "mp4"@) {
            path
        } else {
            with_extension(path, "mp4"@)
        },
        None => with_extension(path, "mp4"@),
    }
}

pub fn ensure_mp4_path(path: String) -> (r: String)
    ensures
        r@ == ensure_mp4_spec(path@),
{
    let v = chars_of(path.as_str());
    match extension_vec(&v) {
        Some(e) => if eq_ignore_case_str(&e, "mp4") {
            return path;
        },
        None => {},
    }
    let ext = chars_of("mp4");
    string_of(&with_extension_vec(&v, &ext))
}

/// `clip_belongs_in_inbox`: clips under the configured inbox belong to it;
/// clips under the default inbox (when a different folder is configured)
/// do not; anything else, imported from elsewhere, does.
pub open spec fn belongs_in_inbox_spec(
    path: Seq<char>,
    inbox: Seq<char>,
    default_inbox: Option<Seq<char>>,
) -> bool {
    if path_starts_with(path, inbox) {
        true
    } else {
        match default_inbox {
            Some(d) => !path_starts_with(path, d),
            None => true,
        }
    }
}

pub fn clip_belongs_in_inbox(path: &str, inbox: &str, default_inbox: Option<&str>) -> (r: bool)
    ensures
        r == belongs_in_inbox_spec(
            path@,
            inbox@,
            match default_inbox {
                Some(d) => Some(d@),
                None => None,
            },
        ),
{
    let p = chars_of(path);
    if path_starts_with_vec(&p, &chars_of(inbox)) {
        return true;
    }
    match default_inbox {
        Some(d) => !path_starts_with_vec(&p, &chars_of(d)),
        None => true,
    }
}

/// `is_importable`: the same test as the import command's `supported`.
pub fn is_importable(path: &str) -> (r: bool)
    ensures
        r == is_video_path(path@),
{
    crate::commands::supported(path)
}

/// Installer and command-line switches that are not files.
pub open spec fn is_cli_flag_spec(arg: Seq<char>) -> bool {
    has_prefix(arg, "-"@) || arg == "/S"@ || arg == "/NS"@ || arg == "/UPDATE"@ || arg == "/P"@
        || arg == "/R"@
}

pub fn is_cli_flag(arg: &str) -> (r: bool)
    ensures
        r == is_cli_flag_spec(arg@),
{
    let a = chars_of(arg);
    starts_with_str(&a, "-") || eq_str(&a, "/S") || eq_str(&a, "/NS") || eq_str(&a, "/UPDATE")
        || eq_str(&a, "/P") || eq_str(&a, "/R")
}

/// The start-up arguments after the program name that are not switches,
/// in order.
pub open spec fn candidate_args(args: Seq<Seq<char>>) -> Seq<Seq<char>>
    decreases args.len(),
{
    if args.len() <= 1 {
        Seq::<Seq<char>>::empty()
    } else {
        let rest = candidate_args(args.drop_last());
        if is_cli_flag_spec(args.last()) {
            rest
        } else {
            rest.push(args.last())
        }
    }
}

/// The start-up arguments taken as files or folders to import: all but the
/// program name and command-line flags.
pub fn import_candidates(args: &[&str]) -> (r: Vec<String>)
    ensures
        string_views(r@) == candidate_args(Seq::new(args@.len(), |i: int| args@[i]@)),
{
    let ghost all = Seq::new(args@.len(), |i: int| args@[i]@);
    let mut r: Vec<String> = Vec::new();
    if args.len() <= 1 {
        return r;
    }
    assert(all.take(1).len() == 1);
    for i in 1..args.len()
        invariant
            all == Seq::new(args@.len(), |i: int| args@[i]@),
            1 <= i <= args.len(),
            string_views(r@) == candidate_args(all.take(i as int)),
    {
        assert(all.take(i + 1).drop_last() =~= all.take(i as int));
        assert(all.take(i + 1).last() == args@[i as int]@);
        if !is_cli_flag(args[i]) {
            push_string(&mut r, String::from_str(args[i]));
        }
    }
    assert(all.take(args.len() as int) =~= all);
    r
}

/// Whether a start-up argument that is not a folder is imported: it is a
/// recording by its extension.
pub fn is_import_file(path: &str) -> (r: bool)
    ensures
        r == is_video_path(path@),
{
    is_importable(path)
}

/// `track_name`: the trimmed title, else the trimmed language unless it is
/// `und`, else `Audio n` counting from one.
pub open spec fn track_name_spec(title: Option<Seq<char>>, language: Option<Seq<char>>, ordinal: i64) -> Seq<
    char,
> {
    match title {
        Some(t) if trim(t).len() > 0 => trim(t),
        _ => match language {
            Some(l) if trim(l).len() > 0 && !eq_ignore_case(trim(l), "und"@) => trim(l),
            _ => "Audio "@ + signed_decimal(ordinal + 1),
        },
    }
}

pub fn track_name(track: &AudioTrack) -> (r: String)
    requires
        track.ordinal < i64::MAX,
    ensures
        r@ == track_name_spec(opt_view(track.title), opt_view(track.language), track.ordinal),
{
    match &track.title {
        Some(t) => {
            let tv = trim_vec(&chars_of(t.as_str()));
            if tv.len() > 0 {
                return string_of(&tv);
            }
        },
        None => {},
    }
    match &track.language {
        Some(l) => {
            let lv = trim_vec(&chars_of(l.as_str()));
            if lv.len() > 0 && !eq_ignore_case_str(&lv, "und") {
                return string_of(&lv);
            }
        },
        None => {},
    }
    let mut v = chars_of("Audio ");
    extend_signed(&mut v, track.ordinal + 1);
    string_of(&v)
}

// ---------------------------------------------------------------------------
// Notices and selection
// ---------------------------------------------------------------------------

/// `update_restart_note` for the given product name.
pub open spec fn restart_note_spec(app_name: Seq<char>) -> Seq<char> {
    app_name
        + " will close automatically once the update is installed. The new version takes effect the next time you launch."@
}

pub fn update_restart_note(app_name: &str) -> (r: String)
    ensures
        r@ == restart_note_spec(app_name@),
{
    let mut v = chars_of(app_name);
    extend_str(
        &mut v,
        " will close automatically once the update is installed. The new version takes effect the next time you launch.",
    );
    string_of(&v)
}

/// The notice after saving replays into the library.
pub open spec fn replay_notice_spec(count: usize) -> Option<Seq<char>> {
    if count == 1 {
        Some("Replay saved and added to your library."@)
    } else if count > 1 {
        Some(decimal(count as nat) + " replays saved and added to your library."@)
    } else {
        None
    }
}

pub fn replay_notice(count: usize) -> (r: Option<String>)
    ensures
        opt_view(r) == replay_notice_spec(count),
{
    if count == 1 {
        Some(String::from_str("Replay saved and added to your library."))
    } else if count > 1 {
        let mut v: Vec<char> = Vec::new();
        extend_decimal(&mut v, count as u128);
        extend_str(&mut v, " replays saved and added to your library.");
        Some(string_of(&v))
    } else {
        None
    }
}

/// The selection after the library changes: kept while its clip is still
/// shown, otherwise the first shown clip (or nothing).
pub open spec fn selection_spec(selected: Option<Seq<char>>, visible: Seq<Seq<char>>) -> Option<
    Seq<char>,
> {
    match selected {
        Some(s) if visible.contains(s) => Some(s),
        _ => if visible.len() > 0 {
            Some(visible[0])
        } else {
            None
        },
    }
}

/// The library's selection after its list changed; `changed` tells whether
/// the editor must be reset.
pub fn valid_selection(selected: Option<&str>, visible: &Vec<String>) -> (r: (Option<String>, bool))
    ensures
        opt_view(r.0) == selection_spec(
            match selected {
                Some(s) => Some(s@),
                None => None,
            },
            string_views(visible@),
        ),
        r.1 == !(selected matches Some(s) && string_views(visible@).contains(s@)),
{
    let ghost vs = string_views(visible@);
    match selected {
        Some(s) => {
            let sv = chars_of(s);
            for i in 0..visible.len()
                invariant
                    selected == Some(s),
                    vs == string_views(visible@),
                    sv@ == s@,
                    forall|j: int| 0 <= j < i ==> vs[j] != s@,
            {
                assert(vs[i as int] == visible@[i as int]@);
                if eq_str(&chars_of(visible[i].as_str()), s) {
                    assert(vs[i as int] == s@);
                    assert(vs.contains(s@));
                    return (Some(String::from_str(s)), false);
                }
            }
            assert(!vs.contains(s@));
        },
        None => {},
    }
    if visible.len() > 0 {
        (Some(visible[0].clone()), true)
    } else {
        (None, true)
    }
}


// ---------------------------------------------------------------------------
// Publish jobs and their links
// ---------------------------------------------------------------------------

/// `publish_stage_label`: the stage shown for a publish job with the given
/// status; an export in progress names its profile (height and frame rate).
pub open spec fn stage_label_spec(status: Seq<char>, export: Option<(i64, i64)>) -> Seq<char> {
    if status == "queued"@ {
        "Queued"@
    } else if status == "transcoding"@ {
        match export {
            Some((height, fps)) => "Exporting "@ + signed_decimal(height as int) + "p"@
                + signed_decimal(fps as int),
            None => "Exporting"@,
        }
    } else if status == "uploading"@ {
        "Uploading"@
    } else if status == "complete"@ {
        "Published"@
    } else if status == "failed"@ {
        "Failed"@
    } else {
        "Working"@
    }
}

pub fn publish_stage_label(status: &str, export: Option<(i64, i64)>) -> (r: String)
    ensures
        r@ == stage_label_spec(status@, export),
{
    let s = chars_of(status);
    let mut out: Vec<char> = Vec::new();
    if eq_str(&s, "queued") {
        extend_str(&mut out, "Queued");
    } else if eq_str(&s, "transcoding") {
        match export {
            Some((height, fps)) => {
                extend_str(&mut out, "Exporting ");
                extend_signed(&mut out, height);
                extend_str(&mut out, "p");
                extend_signed(&mut out, fps);
            },
            None => {
                extend_str(&mut out, "Exporting");
            },
        }
    } else if eq_str(&s, "uploading") {
        extend_str(&mut out, "Uploading");
    } else if eq_str(&s, "complete") {
        extend_str(&mut out, "Published");
    } else if eq_str(&s, "failed") {
        extend_str(&mut out, "Failed");
    } else {
        extend_str(&mut out, "Working");
    }
    string_of(&out)
}

/// Milliseconds in a day.
pub const DAY_MILLIS: i128 = 86_400_000;

/// `expiry_label` once the expiry has been read: `parsed` is the expiry in
/// milliseconds since the Unix epoch when it parsed, `now` the current time
/// in the same unit. Days left are rounded up.
pub open spec fn expiry_label_spec(expires_at: Option<Seq<char>>, parsed: Option<i64>, now: i64) -> Seq<
    char,
> {
    match expires_at {
        None => "Expiry pending"@,
        Some(text) => match parsed {
            None => text,
            Some(at) => if at - now <= 0 {
                "Expired"@
            } else {
                let days = (at - now + DAY_MILLIS - 1) / (DAY_MILLIS as int);
                if days == 1 {
                    "Expires in "@ + decimal(days as nat) + " day"@
                } else {
                    "Expires in "@ + decimal(days as nat) + " days"@
                }
            },
        },
    }
}

pub fn expiry_label_at(expires_at: Option<&str>, parsed: Option<i64>, now: i64) -> (r: String)
    ensures
        r@ == expiry_label_spec(opt_str_view(expires_at), parsed, now),
{
    let mut out: Vec<char> = Vec::new();
    match expires_at {
        None => {
            out = chars_of("Expiry pending");
        },
        Some(text) => match parsed {
            None => {
                out = chars_of(text);
            },
            Some(at) => {
                let left: i128 = at as i128 - now as i128;
                if left <= 0 {
                    out = chars_of("Expired");
                } else {
                    let days: i128 = (left + DAY_MILLIS - 1) / DAY_MILLIS;
                    out = chars_of("Expires in ");
                    extend_decimal(&mut out, days as u128);
                    if days == 1 {
                        extend_str(&mut out, " day");
                    } else {
                        extend_str(&mut out, " days");
                    }
                }
            },
        },
    }
    string_of(&out)
}

pub open spec fn opt_str_view(o: Option<&str>) -> Option<Seq<char>> {
    match o {
        Some(s) => Some(s@),
        None => None,
    }
}

/// The instant an RFC 3339 timestamp names, in milliseconds since the Unix
/// epoch, as chrono reads it; `None` when it is not RFC 3339.
pub uninterp spec fn rfc3339_millis(text: Seq<char>) -> Option<i64>;

/// `chrono::DateTime::parse_from_rfc3339` followed by `timestamp_millis`:
/// its result is `rfc3339_millis` of the text.
#[verifier::external_body]
fn parse_rfc3339_millis(text: &str) -> (r: Option<i64>)
    ensures
        r == rfc3339_millis(text@),
{
    chrono::DateTime::parse_from_rfc3339(text).ok().map(|t| t.timestamp_millis())
}

/// `chrono::Utc::now().timestamp_millis()`: the clock; nothing is promised
/// of the value.
#[verifier::external_body]
fn now_millis() -> (r: i64) {
    chrono::Utc::now().timestamp_millis()
}

/// The expiry of a published link as chrono reads it.
pub open spec fn parsed_expiry(expires_at: Option<&str>) -> Option<i64> {
    match expires_at {
        Some(t) => rfc3339_millis(t@),
        None => None,
    }
}

/// `expiry_label`: how long a published link stays up, read against the
/// clock at the time of the call.
pub fn expiry_label(expires_at: Option<&str>) -> (r: String)
    ensures
        exists|now: i64|
            r@ == #[trigger] expiry_label_spec(
                opt_str_view(expires_at),
                parsed_expiry(expires_at),
                now,
            ),
{
    match expires_at {
        None => expiry_label_at(None, None, 0),
        Some(text) => {
            let parsed = parse_rfc3339_millis(text);
            let now = now_millis();
            expiry_label_at(Some(text), parsed, now)
        },
    }
}


// ---------------------------------------------------------------------------
// Library lists
// ---------------------------------------------------------------------------

/// The positions of the clips (given by their source paths) that the
/// inbox shows, in order.
pub open spec fn inbox_positions(
    paths: Seq<Seq<char>>,
    inbox: Seq<char>,
    default_inbox: Option<Seq<char>>,
) -> Seq<usize>
    decreases paths.len(),
{
    if paths.len() == 0 {
        Seq::<usize>::empty()
    } else {
        let rest = inbox_positions(paths.drop_last(), inbox, default_inbox);
        if belongs_in_inbox_spec(paths.last(), inbox, default_inbox) {
            rest.push((paths.len() - 1) as usize)
        } else {
            rest
        }
    }
}

/// `inbox_clips`: which clips the inbox lists.
pub fn inbox_clips(source_paths: &Vec<String>, inbox: &str, default_inbox: Option<&str>) -> (r: Vec<
    usize,
>)
    ensures
        r@ == inbox_positions(string_views(source_paths@), inbox@, opt_str_view(default_inbox)),
{
    let ghost ps = string_views(source_paths@);
    let mut r: Vec<usize> = Vec::new();
    for i in 0..source_paths.len()
        invariant
            ps == string_views(source_paths@),
            r@ == inbox_positions(ps.take(i as int), inbox@, opt_str_view(default_inbox)),
    {
        assert(ps.take(i + 1).drop_last() =~= ps.take(i as int));
        assert(ps.take(i + 1).last() == source_paths@[i as int]@);
        if clip_belongs_in_inbox(source_paths[i].as_str(), inbox, default_inbox) {
            r.push(i);
        }
    }
    assert(ps.take(source_paths.len() as int) =~= ps);
    r
}

/// How many of the jobs (clip id, status) are completed publishes of `clip_id`.
pub open spec fn published_count_spec(jobs: Seq<(Seq<char>, Seq<char>)>, clip_id: Seq<char>) -> nat
    decreases jobs.len(),
{
    if jobs.len() == 0 {
        0
    } else {
        published_count_spec(jobs.drop_last(), clip_id) + if jobs.last().0 == clip_id
            && jobs.last().1 == "complete"@ {
            1nat
        } else {
            0nat
        }
    }
}

pub open spec fn job_views(jobs: Seq<(String, String)>) -> Seq<(Seq<char>, Seq<char>)> {
    Seq::new(jobs.len(), |i: int| (jobs[i].0@, jobs[i].1@))
}

/// `published_version_count`: the completed publishes of a clip.
pub fn published_version_count(jobs: &Vec<(String, String)>, clip_id: &str) -> (r: usize)
    ensures
        r == published_count_spec(job_views(jobs@), clip_id@),
{
    let ghost js = job_views(jobs@);
    let id = chars_of(clip_id);
    let mut count: usize = 0;
    for i in 0..jobs.len()
        invariant
            js == job_views(jobs@),
            id@ == clip_id@,
            count == published_count_spec(js.take(i as int), clip_id@),
            count <= i,
    {
        assert(js.take(i + 1).drop_last() =~= js.take(i as int));
        assert(js.take(i + 1).last() == js[i as int]);
        let job_clip = chars_of(jobs[i].0.as_str());
        let status = chars_of(jobs[i].1.as_str());
        if crate::text::seq_eq(&job_clip, &id) && eq_str(&status, "complete") {
            count = count + 1;
        }
    }
    assert(js.take(jobs.len() as int) =~= js);
    count
}


// ---------------------------------------------------------------------------
// Updates
// ---------------------------------------------------------------------------

/// Whether an available update is offered: always when the check was asked
/// for, otherwise unless the user snoozed exactly that version.
pub open spec fn offer_update_spec(manual: bool, snoozed: Option<Seq<char>>, version: Seq<char>) -> bool {
    manual || !(snoozed == Some(version))
}

pub fn offer_update(manual: bool, snoozed: Option<&str>, version: &str) -> (r: bool)
    ensures
        r == offer_update_spec(manual, opt_str_view(snoozed), version@),
{
    if manual {
        return true;
    }
    match snoozed {
        Some(v) => !crate::text::seq_eq(&chars_of(v), &chars_of(version)),
        None => true,
    }
}

/// The notice after a requested check found nothing newer.
pub open spec fn up_to_date_spec(app_name: Seq<char>, version: Seq<char>) -> Seq<char> {
    app_name + seq![' '] + version + " is current."@
}

pub fn up_to_date_notice(app_name: &str, version: &str) -> (r: String)
    ensures
        r@ == up_to_date_spec(app_name@, version@),
{
    let mut v = chars_of(app_name);
    v.push(' ');
    let ghost a = v@;
    extend_str(&mut v, version);
    extend_str(&mut v, " is current.");
    assert(v@ =~= app_name@ + seq![' '] + version@ + " is current."@);
    string_of(&v)
}


// ---------------------------------------------------------------------------
// Durations
// ---------------------------------------------------------------------------

/// Two digits, with a leading zero below ten.
pub open spec fn two_digits(n: nat) -> Seq<char> {
    if n < 10 {
        seq!['0'] + decimal(n)
    } else {
        decimal(n)
    }
}

/// A duration of `total` whole seconds as `h:mm:ss`, or `m:ss` under an hour.
pub open spec fn compact_duration_spec(total: nat) -> Seq<char> {
    let hours = total / 3600;
    let minutes = (total % 3600) / 60;
    let secs = total % 60;
    if hours > 0 {
        decimal(hours) + seq![':'] + two_digits(minutes) + seq![':'] + two_digits(secs)
    } else {
        decimal(minutes) + seq![':'] + two_digits(secs)
    }
}

fn extend_two_digits(v: &mut Vec<char>, n: u64)
    requires
        n < 100,
    ensures
        final(v)@ == old(v)@ + two_digits(n as nat),
{
    if n < 10 {
        v.push('0');
        extend_decimal(v, n as u128);
        assert(v@ =~= old(v)@ + (seq!['0'] + decimal(n as nat)));
    } else {
        extend_decimal(v, n as u128);
    }
}

/// A compact duration, once the seconds are rounded to a whole number.
pub fn compact_duration(total: u64) -> (r: String)
    ensures
        r@ == compact_duration_spec(total as nat),
{
    let hours = total / 3600;
    let minutes = (total % 3600) / 60;
    let secs = total % 60;
    let mut v: Vec<char> = Vec::new();
    if hours > 0 {
        extend_decimal(&mut v, hours as u128);
        v.push(':');
        extend_two_digits(&mut v, minutes);
        v.push(':');
        extend_two_digits(&mut v, secs);
        assert(v@ =~= decimal(hours as nat) + seq![':'] + two_digits(minutes as nat) + seq![':']
            + two_digits(secs as nat));
    } else {
        extend_decimal(&mut v, minutes as u128);
        v.push(':');
        extend_two_digits(&mut v, secs);
        assert(v@ =~= decimal(minutes as nat) + seq![':'] + two_digits(secs as nat));
    }
    string_of(&v)
}

} // verus!
