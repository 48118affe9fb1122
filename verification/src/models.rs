//! Records shared by the library and the desktop shell. Floating-point
//! records (clips, selections, publish jobs) live with the shell.

use vstd::prelude::*;
use vstd::string::StringExecFns;
use crate::commands::{join_path, join_path_spec};

verus! {

/// One audio stream of a recording.
#[derive(Debug)]
pub struct AudioTrack {
    pub stream_index: i64,
    pub ordinal: i64,
    pub codec: String,
    pub channels: i64,
    pub channel_layout: Option<String>,
    pub title: Option<String>,
    pub language: Option<String>,
}

/// The export profile reported to the front end.
#[derive(Debug)]
pub struct ExportConfig {
    pub width: i64,
    pub height: i64,
    pub fps: i64,
    pub codec: String,
    pub crf: i64,
}

/// Configuration reported to the front end.
#[derive(Debug)]
pub struct AppConfig {
    pub source_directory: String,
    pub audio_track_labels: Vec<String>,
    pub authenticated: bool,
    pub pending_access_request: bool,
    pub r2_configured: bool,
    pub public_base_url: Option<String>,
    pub api_base_url: String,
    pub media_base_url: Option<String>,
    pub platform: String,
    pub export: ExportConfig,
}

/// What FFprobe reports about a file.
#[derive(Debug)]
pub struct ProbeResult {
    pub streams: Vec<ProbeStream>,
    pub format: ProbeFormat,
}

/// One stream in an FFprobe report.
#[derive(Debug)]
pub struct ProbeStream {
    pub index: i64,
    pub codec_type: String,
    pub codec_name: Option<String>,
    pub width: Option<i64>,
    pub height: Option<i64>,
    pub avg_frame_rate: Option<String>,
    pub r_frame_rate: Option<String>,
    pub channels: Option<i64>,
    pub channel_layout: Option<String>,
    pub tags: Option<ProbeTags>,
}

/// The container section of an FFprobe report.
#[derive(Debug)]
pub struct ProbeFormat {
    pub duration: Option<String>,
    pub tags: Option<ProbeTags>,
}

/// Metadata tags in an FFprobe report.
#[derive(Debug)]
pub struct ProbeTags {
    pub title: Option<String>,
    pub language: Option<String>,
    pub creation_time: Option<String>,
}

/// Where the application keeps its files.
#[derive(Debug)]
pub struct AppPaths {
    pub data: String,
    pub database: String,
    pub source: String,
    pub previews: String,
    pub exports: String,
    pub ffmpeg: String,
    pub ffprobe: String,
}

/// The local media server, known by its base URL.
#[derive(Debug)]
pub struct MediaServer {
    pub base_url: String,
}

/// The view of an optional string.
pub open spec fn opt_view(o: Option<String>) -> Option<Seq<char>> {
    match o {
        Some(s) => Some(s@),
        None => None,
    }
}

/// A copy of an optional string.
pub fn clone_opt(o: &Option<String>) -> (r: Option<String>)
    ensures
        opt_view(r) == opt_view(*o),
{
    match o {
        Some(s) => Some(s.clone()),
        None => None,
    }
}


/// Which FFmpeg tool to run: an explicit override, else the bundled copy
/// when it exists and the build does not prefer the one on `PATH`, else the
/// bare `name`, looked up on `PATH`.
pub open spec fn tool_choice(
    override_path: Option<Seq<char>>,
    prefer_path: bool,
    bundled: Seq<char>,
    bundled_exists: bool,
    name: Seq<char>,
) -> Seq<char> {
    match override_path {
        Some(p) => p,
        None => if !prefer_path && bundled_exists {
            bundled
        } else {
            name
        },
    }
}

pub fn choose_tool(
    override_path: Option<String>,
    prefer_path: bool,
    bundled: String,
    bundled_exists: bool,
    name: &str,
) -> (r: String)
    ensures
        r@ == tool_choice(opt_view(override_path), prefer_path, bundled@, bundled_exists, name@),
{
    match override_path {
        Some(p) => p,
        None => if !prefer_path && bundled_exists {
            bundled
        } else {
            String::from_str(name)
        },
    }
}

/// Where the bundle ships the tool `name`: `binaries/name` in the resource
/// folder.
pub fn bundled_tool(resource: &str, name: &str) -> (r: String)
    ensures
        r@ == join_path_spec(join_path_spec(resource@, "binaries"@), name@),
{
    let binaries = join_path(resource, "binaries");
    join_path(binaries.as_str(), name)
}

impl AppPaths {
    /// The layout `AppPaths::new` sets up under the data folder: the
    /// database file and the previews and exports folders.
    pub fn layout(data: &str, source: &str, ffmpeg: String, ffprobe: String) -> (r: AppPaths)
        ensures
            r.data@ == data@,
            r.source@ == source@,
            r.database@ == join_path_spec(data@, "clip-engine.sqlite3"@),
            r.previews@ == join_path_spec(data@, "previews"@),
            r.exports@ == join_path_spec(data@, "exports"@),
            r.ffmpeg@ == ffmpeg@,
            r.ffprobe@ == ffprobe@,
    {
        AppPaths {
            data: String::from_str(data),
            database: join_path(data, "clip-engine.sqlite3"),
            source: String::from_str(source),
            previews: join_path(data, "previews"),
            exports: join_path(data, "exports"),
            ffmpeg,
            ffprobe,
        }
    }
}

} // verus!
