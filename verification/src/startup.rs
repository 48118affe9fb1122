//! Launch at login: the arguments the autostart entry passes and how the
//! executable path is quoted for it (Linux desktop-entry rules).

use vstd::prelude::*;
use vstd::string::StringExecFns;
use crate::text::{chars_of, string_of};

verus! {

/// The argument that starts the app hidden in the tray.
pub const BACKGROUND_ARG: &'static str = "--background";

/// The setting that records whether the app launches at login.
pub const LAUNCH_AT_LOGIN_SETTING: &'static str = "launch_at_login";

/// Whether the process was started in background mode: some argument is
/// exactly `--background`.
pub fn is_background_requested(args: &[&str]) -> (r: bool)
    ensures
        r == exists|i: int| 0 <= i < args@.len() && (#[trigger] args@[i])@ == BACKGROUND_ARG@,
{
    let flag = chars_of(BACKGROUND_ARG);
    for i in 0..args.len()
        invariant
            flag@ == BACKGROUND_ARG@,
            forall|j: int| 0 <= j < i ==> (#[trigger] args@[j])@ != BACKGROUND_ARG@,
    {
        let a = chars_of(args[i]);
        if crate::text::seq_eq(&a, &flag) {
            return true;
        }
    }
    false
}

/// The arguments the login entry starts the app with.
pub fn startup_arguments() -> (r: [&'static str; 1])
    ensures
        r[0]@ == BACKGROUND_ARG@,
{
    [BACKGROUND_ARG]
}

/// The desktop platforms the login entry is written for.
#[derive(Clone, Copy, Debug, PartialEq, Eq, Structural)]
pub enum Platform {
    Linux,
    Windows,
    Other,
}

/// Whether a character of the executable path is escaped by a backslash:
/// `\`, `"`, `` ` `` and `$` in a Linux desktop entry, `"` on Windows,
/// nothing elsewhere.
pub open spec fn needs_escape(platform: Platform, c: char) -> bool {
    match platform {
        Platform::Linux => c == '\\' || c == '"' || c == '`' || c == '$',
        Platform::Windows => c == '"',
        Platform::Other => false,
    }
}

/// The text written for one character of the executable path.
pub open spec fn escape_char(platform: Platform, c: char) -> Seq<char> {
    if needs_escape(platform, c) {
        seq!['\\', c]
    } else {
        seq![c]
    }
}

pub open spec fn escaped(platform: Platform, s: Seq<char>) -> Seq<char>
    decreases s.len(),
{
    if s.len() == 0 {
        Seq::<char>::empty()
    } else {
        escaped(platform, s.drop_last()) + escape_char(platform, s.last())
    }
}

/// `quoted_executable`: the path in double quotes, escaped for the platform.
pub open spec fn quoted_executable_spec(platform: Platform, path: Seq<char>) -> Seq<char> {
    seq!['"'] + escaped(platform, path) + seq!['"']
}

pub fn quoted_executable(platform: Platform, path: &str) -> (r: String)
    ensures
        r@ == quoted_executable_spec(platform, path@),
{
    let p = chars_of(path);
    let mut out: Vec<char> = Vec::new();
    out.push('"');
    for i in 0..p.len()
        invariant
            out@ == seq!['"'] + escaped(platform, p@.take(i as int)),
    {
        let c = p[i];
        assert(p@.take(i + 1).drop_last() =~= p@.take(i as int));
        let ghost before = out@;
        let escape = match platform {
            Platform::Linux => c == '\\' || c == '"' || c == '`' || c == '$',
            Platform::Windows => c == '"',
            Platform::Other => false,
        };
        if escape {
            out.push('\\');
        }
        out.push(c);
        assert(out@ =~= before + escape_char(platform, c));
    }
    assert(p@.take(p.len() as int) =~= p@);
    out.push('"');
    string_of(&out)
}

/// The name the login entry is registered under.
pub const LAUNCHER_NAME: &'static str = "Dabs Clip Engine";

/// What the login entry runs: its name, the quoted executable and the
/// arguments.
#[derive(Debug)]
pub struct LaunchEntry {
    pub name: String,
    pub command: String,
    pub args: Vec<String>,
}

/// Launch at login is offered on Linux and Windows only.
pub open spec fn unsupported_platform_message() -> Seq<char> {
    "launch at login is not supported on this platform"@
}

/// The login entry for the executable at `executable`, or the refusal on a
/// platform without one.
pub fn launch_entry(platform: Platform, executable: &str) -> (r: Result<LaunchEntry, String>)
    ensures
        match r {
            Ok(entry) => platform != Platform::Other && entry.name@ == LAUNCHER_NAME@
                && entry.command@ == quoted_executable_spec(platform, executable@)
                && entry.args@.len() == 1 && entry.args@[0]@ == BACKGROUND_ARG@,
            Err(message) => platform == Platform::Other && message@ == unsupported_platform_message(),
        },
{
    if platform == Platform::Other {
        return Err(String::from_str("launch at login is not supported on this platform"));
    }
    let startup = startup_arguments();
    let mut args: Vec<String> = Vec::new();
    args.push(string_of(&chars_of(startup[0])));
    Ok(
        LaunchEntry {
            name: string_of(&chars_of(LAUNCHER_NAME)),
            command: quoted_executable(platform, executable),
            args,
        },
    )
}

/// Whether launch at login is on, given the stored setting: anything but
/// `false` means on, and a missing setting means on and is to be stored as
/// `true` (the second value).
pub open spec fn launch_at_login_spec(stored: Option<Seq<char>>) -> (bool, bool) {
    match stored {
        Some(v) => (v != "false"@, false),
        None => (true, true),
    }
}

pub fn launch_at_login_choice(stored: Option<&str>) -> (r: (bool, bool))
    ensures
        r == launch_at_login_spec(
            match stored {
                Some(v) => Some(v@),
                None => None,
            },
        ),
{
    match stored {
        Some(v) => (!crate::text::eq_str(&chars_of(v), "false"), false),
        None => (true, true),
    }
}

} // verus!
