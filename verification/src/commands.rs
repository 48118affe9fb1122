//! The rules behind the desktop commands: which files are recordings, the
//! configuration reported to the front end, when previews are rebuilt, when
//! work blocks a deletion, and how a publish job is named.

use vstd::prelude::*;
use vstd::string::StringExecFns;
use crate::text::{
    chars_of, eq_str, extend, extend_str, has_prefix, lower_ascii, lower_ascii_vec, split,
    split_vec, string_of, string_views, trim, trim_vec, views,
};
use crate::paths::{extension, extension_vec, file_stem, file_stem_vec, path_starts_with, path_starts_with_vec};
use crate::models::{AppConfig, ExportConfig, opt_view};
use crate::media::{safe_base_name, safe_base_name_spec};
use crate::ids::{new_v4_text, v4_text};

verus! {

/// The extensions the app imports, compared in lowercase.
pub open spec fn is_video_extension(e: Seq<char>) -> bool {
    let l = lower_ascii(e);
    l == "mkv"@ || l == "mp4"@ || l == "mov"@ || l == "webm"@ || l == "avi"@ || l == "m4v"@
}

/// Whether a path names a recording the app can import.
pub open spec fn is_video_path(path: Seq<char>) -> bool {
    match extension(path) {
        Some(e) => is_video_extension(e),
        None => false,
    }
}

/// `supported`: whether `path` has a video extension.
pub fn supported(path: &str) -> (r: bool)
    ensures
        r == is_video_path(path@),
{
    let pv = chars_of(path);
    match extension_vec(&pv) {
        Some(e) => {
            let l = lower_ascii_vec(&e);
            eq_str(&l, "mkv") || eq_str(&l, "mp4") || eq_str(&l, "mov") || eq_str(&l, "webm")
                || eq_str(&l, "avi") || eq_str(&l, "m4v")
        },
        None => false,
    }
}

/// The recordings the app imports are exactly the paths whose extension,
/// in any ASCII case, is one of mkv, mp4, mov, webm, avi and m4v; a path
/// without an extension is never imported.
pub proof fn lemma_imported_extensions(path: Seq<char>)
    ensures
        match extension(path) {
            Some(e) => is_video_path(path) <==> {
                let l = lower_ascii(e);
                ||| l == "mkv"@
                ||| l == "mp4"@
                ||| l == "mov"@
                ||| l == "webm"@
                ||| l == "avi"@
                ||| l == "m4v"@
            },
            None => !is_video_path(path),
        },
{
}

pub open spec fn default_track_labels() -> Seq<char> {
    "Game / System,Discord,Microphone"@
}

/// The audio track labels: the stored setting (or the default list) split
/// at commas, each label trimmed.
pub open spec fn track_labels_spec(setting: Option<Seq<char>>) -> Seq<Seq<char>> {
    let text = match setting {
        Some(s) => s,
        None => default_track_labels(),
    };
    let pieces = split(text, ',');
    Seq::new(pieces.len(), |i: int| trim(pieces[i]))
}

pub fn audio_track_labels(setting: Option<String>) -> (r: Vec<String>)
    ensures
        string_views(r@) == track_labels_spec(opt_view(setting)),
{
    let text = match setting {
        Some(s) => chars_of(s.as_str()),
        None => chars_of("Game / System,Discord,Microphone"),
    };
    let pieces = split_vec(&text, ',');
    let ghost ps = views(pieces@);
    let mut r: Vec<String> = Vec::new();
    for i in 0..pieces.len()
        invariant
            ps == views(pieces@),
            string_views(r@) =~= Seq::new(i as nat, |j: int| trim(ps[j])),
    {
        let ghost before = r@;
        r.push(string_of(&trim_vec(&pieces[i])));
        assert(string_views(r@) =~= string_views(before).push(trim(ps[i as int])));
    }
    r
}

/// The export profile: 1920x1080 at 120 fps with the detected encoder.
pub fn export_config(codec: String, quality: i64) -> (r: ExportConfig)
    ensures
        r.width == 1920 && r.height == 1080 && r.fps == 120 && r.codec@ == codec@ && r.crf
            == quality,
{
    ExportConfig { width: 1920, height: 1080, fps: 120, codec, crf: quality }
}

/// Whether a preview request can keep the clip as it is: its preview is
/// ready and both files exist (unless forced), or one is being made.
pub open spec fn preview_is_current_spec(
    force: bool,
    status: Seq<char>,
    preview_exists: bool,
    thumbnail_exists: bool,
) -> bool {
    (!force && status == "ready"@ && preview_exists && thumbnail_exists) || status
        == "processing"@
}

/// Whether a preview request keeps the clip as it is; when it does not, the
/// clip is marked `processing` and a new preview is made.
pub fn preview_is_current(
    force: bool,
    status: &str,
    preview_exists: bool,
    thumbnail_exists: bool,
) -> (r: bool)
    ensures
        r == preview_is_current_spec(force, status@, preview_exists, thumbnail_exists),
{
    let s = chars_of(status);
    (!force && eq_str(&s, "ready") && preview_exists && thumbnail_exists) || eq_str(
        &s,
        "processing",
    )
}

/// Job states during which the job's files are in use.
pub open spec fn is_active_status(status: Seq<char>) -> bool {
    status == "queued"@ || status == "transcoding"@ || status == "uploading"@
}

pub fn job_is_active(status: &str) -> (r: bool)
    ensures
        r == is_active_status(status@),
{
    let s = chars_of(status);
    eq_str(&s, "queued") || eq_str(&s, "transcoding") || eq_str(&s, "uploading")
}

/// Whether any job of a clip is still working (which blocks deleting it).
pub fn any_job_active(statuses: &Vec<String>) -> (r: bool)
    ensures
        r == exists|i: int| 0 <= i < statuses@.len() && is_active_status(#[trigger] statuses@[i]@),
{
    for i in 0..statuses.len()
        invariant
            forall|j: int| 0 <= j < i ==> !is_active_status(#[trigger] statuses@[j]@),
    {
        if job_is_active(statuses[i].as_str()) {
            return true;
        }
    }
    false
}

/// Whether every requested audio stream is one of the clip's tracks.
pub fn audio_selection_valid(track_indexes: &Vec<i64>, requested: &Vec<i64>) -> (r: bool)
    ensures
        r == forall|i: int| 0 <= i < requested@.len() ==> track_indexes@.contains(#[trigger] requested@[i]),
{
    for i in 0..requested.len()
        invariant
            forall|j: int| 0 <= j < i ==> track_indexes@.contains(#[trigger] requested@[j]),
    {
        let mut found = false;
        for k in 0..track_indexes.len()
            invariant
                i < requested.len(),
                found == exists|m: int| 0 <= m < k && track_indexes@[m] == requested@[i as int],
        {
            if track_indexes[k] == requested[i] {
                found = true;
            }
        }
        if !found {
            assert(!track_indexes@.contains(requested@[i as int]));
            return false;
        }
    }
    true
}

/// The export file name of a publish job: the clip's safe name, a dash,
/// the first eight characters of the job id, `.mp4`.
pub open spec fn output_name_spec(clip_name: Seq<char>, job_id: Seq<char>) -> Seq<char> {
    safe_base_name_spec(clip_name) + seq!['-'] + job_id.take(8) + ".mp4"@
}

pub fn output_name(clip_name: &str, job_id: &str) -> (r: String)
    requires
        job_id@.len() >= 8,
    ensures
        r@ == output_name_spec(clip_name@, job_id@),
{
    let base = safe_base_name(clip_name);
    let mut v = chars_of(base.as_str());
    v.push('-');
    let id = chars_of(job_id);
    extend(&mut v, &crate::text::subvec(&id, 0, 8));
    extend_str(&mut v, ".mp4");
    assert(v@ =~= safe_base_name_spec(clip_name@) + seq!['-'] + job_id@.take(8) + ".mp4"@);
    string_of(&v)
}

/// A new publish job's identity: a random id and the output name made
/// from it.
pub fn new_job_identity(clip_name: &str) -> (r: (String, String))
    ensures
        v4_text(r.0@),
        r.1@ == output_name_spec(clip_name@, r.0@),
{
    let id = new_v4_text();
    let name = output_name(clip_name, id.as_str());
    (id, name)
}

/// The title sent with an upload: the stem of the clip's name (empty when
/// it has none).
pub open spec fn upload_title_spec(clip_name: Seq<char>) -> Seq<char> {
    match file_stem(clip_name) {
        Some(s) => s,
        None => Seq::<char>::empty(),
    }
}

pub fn upload_title(clip_name: &str) -> (r: String)
    ensures
        r@ == upload_title_spec(clip_name@),
{
    let v = chars_of(clip_name);
    match file_stem_vec(&v) {
        Some(s) => string_of(&s),
        None => String::new(),
    }
}

/// `PathBuf::join` on Unix: an absolute `name` replaces the base, else a
/// `/` separates them unless the base is empty or already ends with one.
pub open spec fn join_path_spec(base: Seq<char>, name: Seq<char>) -> Seq<char> {
    if name.len() > 0 && name[0] == '/' {
        name
    } else if base.len() == 0 || base.last() == '/' {
        base + name
    } else {
        base.push('/') + name
    }
}

pub fn join_path(base: &str, name: &str) -> (r: String)
    ensures
        r@ == join_path_spec(base@, name@),
{
    let b = chars_of(base);
    let n = chars_of(name);
    if n.len() > 0 && n[0] == '/' {
        return string_of(&n);
    }
    let mut v = crate::text::subvec(&b, 0, b.len());
    if !(b.len() == 0 || b[b.len() - 1] == '/') {
        v.push('/');
    }
    extend(&mut v, &n);
    string_of(&v)
}

/// Whether a file may be removed as part of a directory's contents: it lies
/// under that directory component by component.
pub fn within_directory(path: &str, directory: &str) -> (r: bool)
    ensures
        r == path_starts_with(path@, directory@),
{
    path_starts_with_vec(&chars_of(path), &chars_of(directory))
}

/// The preview video and thumbnail of clip `id`.
pub fn preview_files(previews: &str, id: &str) -> (r: (String, String))
    ensures
        r.0@ == join_path_spec(previews@, id@ + ".mp4"@),
        r.1@ == join_path_spec(previews@, id@ + ".jpg"@),
{
    let mut a = chars_of(id);
    extend_str(&mut a, ".mp4");
    let mut b = chars_of(id);
    extend_str(&mut b, ".jpg");
    let sa = string_of(&a);
    let sb = string_of(&b);
    (join_path(previews, sa.as_str()), join_path(previews, sb.as_str()))
}


// ---------------------------------------------------------------------------
// Deleting clips and published versions
// ---------------------------------------------------------------------------

/// The refusal while a clip still has work running.
pub open spec fn clip_busy_message() -> Seq<char> {
    "Wait for active work to finish before deleting this clip."@
}

/// The refusal while a published version is still being made.
pub open spec fn job_busy_message() -> Seq<char> {
    "Wait for active work to finish."@
}

/// `path`, when it lies inside `directory`.
pub open spec fn inside(path: Seq<char>, directory: Seq<char>) -> Seq<Seq<char>> {
    if path_starts_with(path, directory) {
        seq![path]
    } else {
        Seq::<Seq<char>>::empty()
    }
}

/// The export files of the given output names that lie in `exports`.
pub open spec fn export_removals(outputs: Seq<Seq<char>>, exports: Seq<char>) -> Seq<Seq<char>>
    decreases outputs.len(),
{
    if outputs.len() == 0 {
        Seq::<Seq<char>>::empty()
    } else {
        export_removals(outputs.drop_last(), exports) + inside(
            join_path_spec(exports, outputs.last()),
            exports,
        )
    }
}

/// The files deleting a clip removes: its preview and its thumbnail when
/// they lie in the previews folder, and the exports of its jobs that lie in
/// the exports folder. The recording itself is never among them.
pub open spec fn clip_removals(
    preview_path: Option<Seq<char>>,
    id: Seq<char>,
    outputs: Seq<Seq<char>>,
    previews: Seq<char>,
    exports: Seq<char>,
) -> Seq<Seq<char>> {
    (match preview_path {
        Some(p) => inside(p, previews),
        None => Seq::<Seq<char>>::empty(),
    }) + inside(join_path_spec(previews, id + ".jpg"@), previews) + export_removals(outputs, exports)
}

fn push_if_inside(files: &mut Vec<String>, path: String, directory: &str)
    ensures
        string_views(final(files)@) == string_views(old(files)@) + inside(path@, directory@),
{
    let ghost before = string_views(files@);
    let ghost p = path@;
    if within_directory(path.as_str(), directory) {
        files.push(path);
        assert(string_views(files@) =~= before + seq![p]);
    } else {
        assert(string_views(files@) =~= before + Seq::<Seq<char>>::empty());
    }
}

/// Deleting a clip: refused while any job of the clip (given as
/// status and output name) is active, else the files to remove.
pub fn clip_removal_plan(
    preview_path: Option<&str>,
    id: &str,
    jobs: &Vec<(String, String)>,
    previews: &str,
    exports: &str,
) -> (r: Result<Vec<String>, String>)
    ensures
        match r {
            Err(message) => message@ == clip_busy_message() && exists|i: int|
                0 <= i < jobs@.len() && is_active_status(#[trigger] jobs@[i].0@),
            Ok(files) => (forall|i: int|
                0 <= i < jobs@.len() ==> !is_active_status(#[trigger] jobs@[i].0@)) && string_views(
                files@,
            ) == clip_removals(
                match preview_path {
                    Some(p) => Some(p@),
                    None => None,
                },
                id@,
                Seq::new(jobs@.len(), |i: int| jobs@[i].1@),
                previews@,
                exports@,
            ),
        },
{
    for i in 0..jobs.len()
        invariant
            forall|j: int| 0 <= j < i ==> !is_active_status(#[trigger] jobs@[j].0@),
    {
        if job_is_active(jobs[i].0.as_str()) {
            return Err(String::from_str("Wait for active work to finish before deleting this clip."));
        }
    }
    let mut files: Vec<String> = Vec::new();
    match preview_path {
        Some(p) => push_if_inside(&mut files, String::from_str(p), previews),
        None => {},
    }
    let mut thumb = chars_of(id);
    extend_str(&mut thumb, ".jpg");
    let thumb_name = string_of(&thumb);
    push_if_inside(&mut files, join_path(previews, thumb_name.as_str()), previews);
    let ghost head = string_views(files@);
    let ghost outputs = Seq::new(jobs@.len(), |i: int| jobs@[i].1@);
    for i in 0..jobs.len()
        invariant
            outputs == Seq::new(jobs@.len(), |i: int| jobs@[i].1@),
            string_views(files@) == head + export_removals(outputs.take(i as int), exports@),
    {
        assert(outputs.take(i + 1).drop_last() =~= outputs.take(i as int));
        assert(outputs.take(i + 1).last() == jobs@[i as int].1@);
        push_if_inside(&mut files, join_path(exports, jobs[i].1.as_str()), exports);
        assert(string_views(files@) =~= head + export_removals(outputs.take(i + 1), exports@));
    }
    assert(outputs.take(jobs.len() as int) =~= outputs);
    Ok(files)
}

/// Deleting a published version: refused while the job is active, else the export
/// file to remove when it lies in the exports folder.
pub fn job_removal_plan(status: &str, output_name: &str, exports: &str) -> (r: Result<
    Option<String>,
    String,
>)
    ensures
        match r {
            Err(message) => message@ == job_busy_message() && is_active_status(status@),
            Ok(file) => !is_active_status(status@) && match file {
                Some(f) => seq![f@] == inside(join_path_spec(exports@, output_name@), exports@),
                None => inside(join_path_spec(exports@, output_name@), exports@).len() == 0,
            },
        },
{
    if job_is_active(status) {
        return Err(String::from_str("Wait for active work to finish."));
    }
    let output = join_path(exports, output_name);
    if within_directory(output.as_str(), exports) {
        Ok(Some(output))
    } else {
        Ok(None)
    }
}

proof fn lemma_export_removals_inside(outputs: Seq<Seq<char>>, exports: Seq<char>)
    ensures
        forall|i: int|
            0 <= i < export_removals(outputs, exports).len() ==> path_starts_with(
                #[trigger] export_removals(outputs, exports)[i],
                exports,
            ),
    decreases outputs.len(),
{
    if outputs.len() > 0 {
        lemma_export_removals_inside(outputs.drop_last(), exports);
        let rest = export_removals(outputs.drop_last(), exports);
        let last = inside(join_path_spec(exports, outputs.last()), exports);
        assert forall|i: int|
            0 <= i < export_removals(outputs, exports).len() implies path_starts_with(
            #[trigger] export_removals(outputs, exports)[i],
            exports,
        ) by {
            if i < rest.len() {
                assert(export_removals(outputs, exports)[i] == rest[i]);
            } else {
                assert(export_removals(outputs, exports)[i] == last[i - rest.len()]);
            }
        }
    }
}

/// Deleting a clip only ever removes files under the previews or the
/// exports folder, compared component by component as `Path::starts_with`
/// does (`..` is not resolved).
pub proof fn lemma_clip_removals_stay_in_app_folders(
    preview_path: Option<Seq<char>>,
    id: Seq<char>,
    outputs: Seq<Seq<char>>,
    previews: Seq<char>,
    exports: Seq<char>,
)
    ensures
        forall|i: int|
            0 <= i < clip_removals(preview_path, id, outputs, previews, exports).len() ==> {
                let f = #[trigger] clip_removals(preview_path, id, outputs, previews, exports)[i];
                path_starts_with(f, previews) || path_starts_with(f, exports)
            },
{
    lemma_export_removals_inside(outputs, exports);
    let a = match preview_path {
        Some(p) => inside(p, previews),
        None => Seq::<Seq<char>>::empty(),
    };
    let b = inside(join_path_spec(previews, id + ".jpg"@), previews);
    let c = export_removals(outputs, exports);
    let all = clip_removals(preview_path, id, outputs, previews, exports);
    assert(all == a + b + c);
    assert forall|i: int| 0 <= i < all.len() implies {
        let f = #[trigger] all[i];
        path_starts_with(f, previews) || path_starts_with(f, exports)
    } by {
        if i < a.len() {
            assert(all[i] == a[i]);
        } else if i < a.len() + b.len() {
            assert(all[i] == b[i - a.len()]);
        } else {
            assert(all[i] == c[i - a.len() - b.len()]);
        }
    }
}


// ---------------------------------------------------------------------------
// Starting a publish
// ---------------------------------------------------------------------------

/// Why a publish request is refused, checked in this order: not signed
/// in, a trim outside the clip, an audio stream the clip does not have.
pub open spec fn publish_refusal(
    authenticated: bool,
    trim_valid: bool,
    tracks: Seq<i64>,
    requested: Seq<i64>,
) -> Option<Seq<char>> {
    if !authenticated {
        Some("Sign in with an invitation before publishing."@)
    } else if !trim_valid {
        Some("The trim selection is invalid."@)
    } else if !(forall|i: int| 0 <= i < requested.len() ==> tracks.contains(#[trigger] requested[i])) {
        Some("An audio selection is invalid."@)
    } else {
        None
    }
}

/// The text fields of a publish job record. Its progress and trim
/// selection are floating point and are filled in by the caller.
#[derive(Debug)]
pub struct PublishJobFields {
    pub id: String,
    pub clip_id: String,
    pub status: String,
    pub created_at: String,
    pub output_name: String,
    pub published_at: Option<String>,
    pub expires_at: Option<String>,
    pub url: Option<String>,
    pub media_url: Option<String>,
    pub thumbnail_url: Option<String>,
    pub remote_clip_id: Option<String>,
    pub error: Option<String>,
}

/// Starting a publish: the refusal, or the new job: a fresh id, the
/// clip's id, status `queued`, the creation time given, the output name
/// made from the clip's name and the id, and nothing published yet.
/// `trim_valid` is whether the selection lies inside the clip.
pub fn publish_job_plan(
    authenticated: bool,
    trim_valid: bool,
    tracks: &Vec<i64>,
    requested: &Vec<i64>,
    clip_id: &str,
    clip_name: &str,
    created_at: String,
) -> (r: Result<PublishJobFields, String>)
    ensures
        match r {
            Err(message) => publish_refusal(authenticated, trim_valid, tracks@, requested@) == Some(
                message@,
            ),
            Ok(job) => {
                &&& publish_refusal(authenticated, trim_valid, tracks@, requested@) is None
                &&& v4_text(job.id@)
                &&& job.clip_id@ == clip_id@
                &&& job.status@ == "queued"@
                &&& job.created_at@ == created_at@
                &&& job.output_name@ == output_name_spec(clip_name@, job.id@)
                &&& job.published_at is None && job.expires_at is None && job.url is None
                &&& job.media_url is None && job.thumbnail_url is None
                &&& job.remote_clip_id is None && job.error is None
            },
        },
{
    if !authenticated {
        return Err(String::from_str("Sign in with an invitation before publishing."));
    }
    if !trim_valid {
        return Err(String::from_str("The trim selection is invalid."));
    }
    if !audio_selection_valid(tracks, requested) {
        return Err(String::from_str("An audio selection is invalid."));
    }
    let (id, output_name) = new_job_identity(clip_name);
    Ok(
        PublishJobFields {
            id,
            clip_id: String::from_str(clip_id),
            status: String::from_str("queued"),
            created_at,
            output_name,
            published_at: None,
            expires_at: None,
            url: None,
            media_url: None,
            thumbnail_url: None,
            remote_clip_id: None,
            error: None,
        },
    )
}

/// A publish run that failed: the job is marked `failed` with the error's
/// message, and its remote clip (which the caller removes from the cloud) is
/// forgotten; every other field stays as it was.
pub fn failed_job(job: PublishJobFields, message: String) -> (r: PublishJobFields)
    ensures
        r.status@ == "failed"@,
        opt_view(r.error) == Some(message@),
        r.remote_clip_id is None,
        r.id@ == job.id@,
        r.clip_id@ == job.clip_id@,
        r.created_at@ == job.created_at@,
        r.output_name@ == job.output_name@,
        opt_view(r.published_at) == opt_view(job.published_at),
        opt_view(r.expires_at) == opt_view(job.expires_at),
        opt_view(r.url) == opt_view(job.url),
        opt_view(r.media_url) == opt_view(job.media_url),
        opt_view(r.thumbnail_url) == opt_view(job.thumbnail_url),
{
    PublishJobFields {
        status: String::from_str("failed"),
        error: Some(message),
        remote_clip_id: None,
        ..job
    }
}

/// A fresh clip id: random version-4 UUID text.
pub fn new_clip_id() -> (r: String)
    ensures
        v4_text(r@),
{
    new_v4_text()
}

// ---------------------------------------------------------------------------
// Configuration for the front end
// ---------------------------------------------------------------------------

/// The configuration reported to the front end, given what it reads: the inbox folder, the stored
/// track labels and API address, whether the session is signed in and has
/// a pending access request, the media server's address, the platform, and
/// the encoder and quality in use.
pub fn app_config(
    source_directory: String,
    stored_labels: Option<String>,
    authenticated: bool,
    pending_access_request: bool,
    stored_api_base_url: Option<String>,
    media_base_url: Option<String>,
    platform: String,
    encoder: String,
    quality: i64,
) -> (r: AppConfig)
    ensures
        r.source_directory@ == source_directory@,
        string_views(r.audio_track_labels@) == track_labels_spec(opt_view(stored_labels)),
        r.authenticated == authenticated,
        r.pending_access_request == pending_access_request,
        r.r2_configured == authenticated,
        opt_view(r.public_base_url) == Some("https://clips.dab.dev"@),
        r.api_base_url@ == (match stored_api_base_url {
            Some(u) => u@,
            None => "https://api.clips.dab.dev"@,
        }),
        opt_view(r.media_base_url) == opt_view(media_base_url),
        r.platform@ == platform@,
        r.export.width == 1920 && r.export.height == 1080 && r.export.fps == 120,
        r.export.codec@ == encoder@ && r.export.crf == quality,
{
    AppConfig {
        source_directory,
        audio_track_labels: audio_track_labels(stored_labels),
        authenticated,
        pending_access_request,
        r2_configured: authenticated,
        public_base_url: Some(String::from_str("https://clips.dab.dev")),
        api_base_url: match stored_api_base_url {
            Some(u) => u,
            None => String::from_str("https://api.clips.dab.dev"),
        },
        media_base_url,
        platform,
        export: export_config(encoder, quality),
    }
}


// ---------------------------------------------------------------------------
// Preview status of a clip
// ---------------------------------------------------------------------------

/// The preview fields of a clip record.
#[derive(Debug)]
pub struct PreviewFields {
    pub status: String,
    pub path: Option<String>,
    pub error: Option<String>,
}

/// A preview request: the clip unchanged when its preview is current or
/// being made (`false`), else the clip marked `processing` with its old
/// preview and error cleared, and a new preview to make (`true`).
pub fn begin_preview(
    current: PreviewFields,
    force: bool,
    preview_exists: bool,
    thumbnail_exists: bool,
) -> (r: (PreviewFields, bool))
    ensures
        r.1 == !preview_is_current_spec(force, current.status@, preview_exists, thumbnail_exists),
        !r.1 ==> r.0 == current,
        r.1 ==> r.0.status@ == "processing"@ && r.0.path is None && r.0.error is None,
{
    if preview_is_current(force, current.status.as_str(), preview_exists, thumbnail_exists) {
        (current, false)
    } else {
        (PreviewFields { status: String::from_str("processing"), path: None, error: None }, true)
    }
}

/// The fields once making the preview ended: `ready` with the preview's
/// path, or `failed` with the error.
pub fn finish_preview(outcome: Result<String, String>) -> (r: PreviewFields)
    ensures
        match outcome {
            Ok(path) => r.status@ == "ready"@ && opt_view(r.path) == Some(path@) && r.error is None,
            Err(error) => r.status@ == "failed"@ && r.path is None && opt_view(r.error) == Some(error@),
        },
{
    match outcome {
        Ok(path) => PreviewFields { status: String::from_str("ready"), path: Some(path), error: None },
        Err(error) => PreviewFields { status: String::from_str("failed"), path: None, error: Some(error) },
    }
}

/// A clip whose preview is being made counts as current whatever is asked,
/// so `begin_preview` starts nothing for it; as a started preview leaves
/// the clip `processing`, a clip's previews are made one at a time.
pub proof fn lemma_one_preview_at_a_time(force: bool, preview_exists: bool, thumbnail_exists: bool)
    ensures
        preview_is_current_spec(force, "processing"@, preview_exists, thumbnail_exists),
{
}

} // verus!
