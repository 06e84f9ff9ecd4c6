//! Managing the index daemon: who may, what it is started with, and what is told.

use crate::args::DaemonAction;
use crate::drive;
use crate::drive::DriveLetter;
use crate::error;
use crate::error::{fail, CliError};
use crate::json;
use crate::platform;
use crate::platform::{join_path, Platform};
use crate::text;
use crate::text::{cat3, cat4, cat5, push_line, same, show_u64, starts_with, strings};
use vstd::prelude::*;

verus! {

// ---- who may manage the daemon ----

/// Whether anyone may ask for an action: it changes nothing, or it asks for rights by itself.
pub open spec fn open_to_all(action: DaemonAction) -> bool {
    match action {
        DaemonAction::Status { .. } => true,
        DaemonAction::StatusDrives => true,
        DaemonAction::Start { elevate, .. } => elevate,
        _ => false,
    }
}

/// What a caller without rights is told on Windows.
pub const WINDOWS_REFUSAL: &'static str =
    "Daemon management commands require an elevated (Administrator) shell.\n\nuffsd runs with admin privileges to read the NTFS Master File Table.\nA non-elevated process must not stop or restart it \u{2014} doing so would\nkill the running daemon with no way to bring it back.\n\nTo run this command, pick one:\n  1. Relaunch PowerShell / cmd as Administrator\n     (right-click \u{2192} \"Run as administrator\"), then retry.\n  2. For `daemon start`, add --elevate to get a UAC prompt:\n       uffs --daemon start --elevate\n  3. Install the broker service (one-time setup, no future UAC):\n       uffs-broker --install";

/// What a caller without rights is told on Unix.
pub const UNIX_REFUSAL: &'static str =
    "Daemon management commands require root privileges.\n\nuffsd runs as root to read raw filesystem data.\nA non-root process must not stop or restart it \u{2014} doing so would\nkill the running daemon with no way to bring it back.\n\nTo run this command, prefix it with sudo:\n   sudo uffs --daemon <subcommand>";

/// What a caller without rights is told elsewhere.
pub const OTHER_REFUSAL: &'static str =
    "Daemon management commands require elevated privileges.\nPlease run this command as a privileged user.";

/// What a caller without rights is told.
pub open spec fn refusal_text(platform: Platform) -> Seq<char> {
    match platform {
        Platform::Windows => WINDOWS_REFUSAL@,
        Platform::MacOs => UNIX_REFUSAL@,
        Platform::Unix => UNIX_REFUSAL@,
        Platform::Other => OTHER_REFUSAL@,
    }
}

/// Why an action is refused, if it is: it changes something, the caller lacks rights, and the daemon
/// that runs could not be brought back without them.
pub fn management_refusal(
    platform: Platform,
    action: &DaemonAction,
    elevated: bool,
    needs_elevation: bool,
) -> (res: Option<CliError>)
    ensures
        if open_to_all(*action) || elevated || !needs_elevation {
            res is None
        } else {
            res is Some && res->Some_0@ == error::plain(refusal_text(platform))
        },
{
    let open = match action {
        DaemonAction::Status { .. } => true,
        DaemonAction::StatusDrives => true,
        DaemonAction::Start { elevate, .. } => *elevate,
        _ => false,
    };
    if open || elevated || !needs_elevation {
        return None;
    }
    let text = match platform {
        Platform::Windows => WINDOWS_REFUSAL,
        Platform::MacOs => UNIX_REFUSAL,
        Platform::Unix => UNIX_REFUSAL,
        Platform::Other => OTHER_REFUSAL,
    };
    Some(fail(text.to_owned()))
}

/// Whether managing the daemon takes rights on Unix: its PID file is there and belongs to another
/// user.  Without one there is no daemon to protect.
pub fn daemon_owner_needs_elevation(pid_file_owner: Option<u32>, caller_euid: u32) -> (res: bool)
    ensures
        res == match pid_file_owner {
            Some(owner) => owner != caller_euid,
            None => false,
        },
{
    match pid_file_owner {
        Some(owner) => owner != caller_euid,
        None => false,
    }
}

/// Whether what a launch state says of its rights is that there were none.  A launch state that does
/// not say counts as one with rights.
pub fn says_non_elevated(elevated: Option<bool>) -> (res: bool)
    ensures
        res == (elevated == Some(false)),
{
    match elevated {
        Some(elevated) => !elevated,
        None => false,
    }
}

/// Whether the launch state of the daemon, if there is one, records a start without rights.  Where it
/// does not say, it does not.
pub fn launch_state_says_non_elevated(launch_state: &Option<String>) -> (res: bool)
    ensures
        res == match *launch_state {
            Some(raw) => json::json_bool_field(raw@, "elevated"@) == Some(false),
            None => false,
        },
        res ==> launch_state is Some && json::json_has_field(
            launch_state->Some_0@,
            "elevated"@,
        ),
{
    match launch_state {
        Some(raw) => says_non_elevated(json::bool_field(raw, "elevated")),
        None => false,
    }
}

/// Whether managing the daemon takes rights on Windows: there is a daemon, it was not started without
/// rights, and no broker would serve it after a restart.
pub fn windows_management_needs_elevation(
    pid_file_exists: bool,
    started_without_rights: bool,
    broker_serving: bool,
) -> (res: bool)
    ensures
        res == (pid_file_exists && !started_without_rights && !broker_serving),
{
    pid_file_exists && !started_without_rights && !broker_serving
}

/// What is known of the daemon that runs, as far as it decides who may manage it.
#[derive(Debug, Clone, Copy, PartialEq, Eq, Structural)]
pub enum Protection {
    /// On Unix: the owner of its PID file, if that is there, and the user who asks.
    Owned {
        /// The owner of the PID file.
        pid_file_owner: Option<u32>,
        /// The user who asks.
        caller_euid: u32,
    },
    /// On Windows: its PID file, its launch state and the broker.
    Launched {
        /// Whether the PID file is there.
        pid_file_exists: bool,
        /// Whether it was started without rights.
        started_without_rights: bool,
        /// Whether the broker would serve it after a restart.
        broker_serving: bool,
    },
    /// Elsewhere nothing is known.
    Unknown,
}

/// Whether changing anything about the daemon that runs takes rights: it could not be brought back
/// without them.  Where nothing is known it does.
pub open spec fn is_protected(protection: Protection) -> bool {
    match protection {
        Protection::Owned { pid_file_owner, caller_euid } => match pid_file_owner {
            Some(owner) => owner != caller_euid,
            None => false,
        },
        Protection::Launched { pid_file_exists, started_without_rights, broker_serving } =>
            pid_file_exists && !started_without_rights && !broker_serving,
        Protection::Unknown => true,
    }
}

/// Whether changing anything about the daemon that runs takes rights.
pub fn mutating_management_needs_elevation(protection: Protection) -> (res: bool)
    ensures
        res == is_protected(protection),
{
    match protection {
        Protection::Owned { pid_file_owner, caller_euid } => daemon_owner_needs_elevation(
            pid_file_owner,
            caller_euid,
        ),
        Protection::Launched { pid_file_exists, started_without_rights, broker_serving } =>
            windows_management_needs_elevation(
            pid_file_exists,
            started_without_rights,
            broker_serving,
        ),
        Protection::Unknown => true,
    }
}

// ---- start ----

/// A value of an environment variable; one that is set to the empty text counts as not set.
pub open spec fn meaningful(value: Option<Seq<char>>) -> Option<Seq<char>> {
    match value {
        Some(value) => if value.len() == 0 {
            None
        } else {
            Some(value)
        },
        None => None,
    }
}

/// A value of an environment variable; one that is set to the empty text counts as not set.
pub fn non_empty_env(value: Option<String>) -> (res: Option<String>)
    ensures
        error::shown(res) == meaningful(error::shown(value)),
{
    match value {
        Some(value) => {
            let empty = same(&value, "");
            proof {
                reveal_strlit("");
                assert(value@.len() == 0 ==> value@ =~= ""@);
            }
            if empty {
                None
            } else {
                Some(value)
            }
        },
        None => None,
    }
}

/// What the environment says about logs.
#[derive(Debug)]
pub struct LogEnvironment {
    /// `RUST_LOG`.
    pub rust_log: Option<String>,
    /// `UFFS_LOG`.
    pub uffs_log: Option<String>,
    /// `UFFS_LOG_DIR`.
    pub uffs_log_dir: Option<String>,
}

/// The log level of the daemon: the argument, and where that is the default what the environment
/// says.
pub open spec fn effective_level(level: Seq<char>, env: LogEnvironment) -> Seq<char> {
    if level != "info"@ {
        level
    } else {
        match meaningful(error::shown(env.uffs_log)) {
            Some(level) => level,
            None => match meaningful(error::shown(env.rust_log)) {
                Some(level) => level,
                None => level,
            },
        }
    }
}

/// The log file of the daemon: the argument, or one in the directory that the environment names.
pub open spec fn effective_file(
    platform: Platform,
    log_file: Option<Seq<char>>,
    env: LogEnvironment,
) -> Option<Seq<char>> {
    match log_file {
        Some(file) => Some(file),
        None => match meaningful(error::shown(env.uffs_log_dir)) {
            Some(dir) => Some(platform::joined(platform, dir, "uffsd.log"@)),
            None => None,
        },
    }
}

fn env_value(value: &Option<String>) -> (res: Option<String>)
    ensures
        error::shown(res) == meaningful(error::shown(*value)),
{
    match value {
        Some(value) => non_empty_env(Some(value.clone())),
        None => None,
    }
}

/// The log level of the daemon.
pub fn effective_log_level(log_level: &str, env: &LogEnvironment) -> (res: String)
    ensures
        res@ == effective_level(log_level@, *env),
{
    if !same(log_level, "info") {
        return log_level.to_owned();
    }
    match env_value(&env.uffs_log) {
        Some(level) => level,
        None => match env_value(&env.rust_log) {
            Some(level) => level,
            None => log_level.to_owned(),
        },
    }
}

/// The log file of the daemon.
pub fn effective_log_file(
    platform: Platform,
    log_file: &Option<String>,
    env: &LogEnvironment,
) -> (res: Option<String>)
    ensures
        error::shown(res) == effective_file(platform, error::shown(*log_file), *env),
{
    match log_file {
        Some(file) => Some(file.clone()),
        None => match env_value(&env.uffs_log_dir) {
            Some(dir) => Some(join_path(platform, &dir, "uffsd.log")),
            None => None,
        },
    }
}

/// Values as options, each behind the name of the option.
pub open spec fn options(name: Seq<char>, values: Seq<Seq<char>>) -> Seq<Seq<char>>
    decreases values.len(),
{
    if values.len() == 0 {
        Seq::empty()
    } else {
        options(name, values.drop_last()) + seq![name, values.last()]
    }
}

pub(crate) fn push_options(out: &mut Vec<String>, name: &str, values: &Vec<String>)
    ensures
        text::texts(final(out)@) == text::texts(old(out)@) + options(
            name@,
            text::texts(values@),
        ),
{
    let ghost before = text::texts(out@);
    let ghost shown = text::texts(values@);
    let mut i: usize = 0;
    proof {
        assert(shown.take(0) =~= Seq::empty());
        assert(before + options(name@, shown.take(0)) =~= before);
    }
    while i < values.len()
        invariant
            i <= values@.len(),
            shown == text::texts(values@),
            text::texts(out@) == before + options(name@, shown.take(i as int)),
        decreases values@.len() - i,
    {
        push_line(out, name.to_owned());
        push_line(out, values[i].clone());
        proof {
            assert(shown.take(i + 1).drop_last() =~= shown.take(i as int));
            assert(shown.take(i + 1).last() == values@[i as int]@);
            assert(text::texts(out@) =~= before + options(name@, shown.take(i + 1)));
        }
        i += 1;
    }
    assert(shown.take(i as int) =~= shown);
}

/// An optional value as an option.
pub open spec fn option(name: Seq<char>, value: Option<Seq<char>>) -> Seq<Seq<char>> {
    match value {
        Some(value) => seq![name, value],
        None => Seq::empty(),
    }
}

pub(crate) fn push_option(out: &mut Vec<String>, name: &str, value: &Option<String>)
    ensures
        text::texts(final(out)@) == text::texts(old(out)@) + option(name@, error::shown(*value)),
{
    let ghost before = text::texts(out@);
    if let Some(value) = value {
        push_line(out, name.to_owned());
        push_line(out, value.clone());
    }
    assert(text::texts(out@) =~= before + option(name@, error::shown(*value)));
}

/// The arguments that the daemon is started with.
pub open spec fn start_args(
    platform: Platform,
    mft_files: Seq<Seq<char>>,
    data_dir: Option<Seq<char>>,
    drives: Seq<DriveLetter>,
    no_cache: bool,
    log_level: Seq<char>,
    log_file: Option<Seq<char>>,
    env: LogEnvironment,
) -> Seq<Seq<char>> {
    let level = effective_level(log_level, env);
    option("--data-dir"@, data_dir) + options("--mft-file"@, mft_files) + options(
        "--drive"@,
        drive::drive_texts(drives),
    ) + (if no_cache {
        seq!["--no-cache"@]
    } else {
        Seq::empty()
    }) + (if level != "info"@ {
        seq!["--log-level"@, level]
    } else {
        Seq::empty()
    }) + option("--log-file"@, effective_file(platform, log_file, env))
}

/// What starting the daemon does.
#[derive(Debug)]
pub enum StartStep {
    /// It runs already.
    AlreadyRunning,
    /// It cannot be started.
    Refuse(CliError),
    /// It is started with these arguments.
    Spawn(Vec<String>),
}

/// What is told when the daemon runs already.
pub const ALREADY_RUNNING: &'static str =
    "Daemon is already running. Use `uffs --daemon restart` to reload.";

/// Why the daemon is not started without data off Windows.
pub const NO_SOURCES: &'static str =
    "No MFT data sources specified.\nProvide --mft-file <path> or --data-dir <path>.";

/// What is told before the daemon is started.
pub const STARTING: &'static str = "Starting daemon...";

/// What is told once the daemon is ready.
pub const STARTED: &'static str = "Daemon started and ready.";

/// What starting the daemon does, and what is told before it.
pub fn daemon_start(
    platform: Platform,
    running: bool,
    quiet: bool,
    mft_files: &Vec<String>,
    data_dir: &Option<String>,
    drives: &[DriveLetter],
    no_cache: bool,
    log_level: &str,
    log_file: &Option<String>,
    env: &LogEnvironment,
) -> (res: (Option<&'static str>, StartStep))
    ensures
        ({
            let args = start_args(
                platform,
                text::texts(mft_files@),
                error::shown(*data_dir),
                drives@,
                no_cache,
                log_level@,
                error::shown(*log_file),
                *env,
            );
            if running {
                &&& res.1 == StartStep::AlreadyRunning
                &&& quiet ==> res.0 is None
                &&& !quiet ==> res.0 is Some && res.0->Some_0@ == ALREADY_RUNNING@
            } else if platform != Platform::Windows && args.len() == 0 {
                &&& res.1 matches StartStep::Refuse(err)
                &&& err@ == error::plain(NO_SOURCES@)
                &&& res.0 is None
            } else {
                &&& res.1 matches StartStep::Spawn(spawn)
                &&& text::texts(spawn@) == args
                &&& quiet ==> res.0 is None
                &&& !quiet ==> res.0 is Some && res.0->Some_0@ == STARTING@
            }
        }),
{
    if running {
        let note = if quiet {
            None
        } else {
            Some(ALREADY_RUNNING)
        };
        return (note, StartStep::AlreadyRunning);
    }
    let mut args: Vec<String> = Vec::new();
    assert(text::texts(args@) =~= Seq::empty());
    push_option(&mut args, "--data-dir", data_dir);
    push_options(&mut args, "--mft-file", mft_files);
    push_options(&mut args, "--drive", &drive::show_drives(drives));
    if no_cache {
        push_line(&mut args, "--no-cache".to_owned());
    }
    let level = effective_log_level(log_level, env);
    if !same(&level, "info") {
        push_line(&mut args, "--log-level".to_owned());
        push_line(&mut args, level);
    }
    push_option(&mut args, "--log-file", &effective_log_file(platform, log_file, env));
    proof {
        assert(text::texts(args@) =~= start_args(
            platform,
            text::texts(mft_files@),
            error::shown(*data_dir),
            drives@,
            no_cache,
            log_level@,
            error::shown(*log_file),
            *env,
        ));
        assert(args@.len() == text::texts(args@).len());
    }
    if platform != Platform::Windows && args.len() == 0 {
        return (None, StartStep::Refuse(fail(NO_SOURCES.to_owned())));
    }
    let note = if quiet {
        None
    } else {
        Some(STARTING)
    };
    (note, StartStep::Spawn(args))
}

/// Whether the start of the daemon is traced: at the two finest log levels, unless it is silent.
pub fn wants_diagnostics(level: &str, quiet: bool) -> (res: bool)
    ensures
        res == ((level@ == "debug"@ || level@ == "trace"@) && !quiet),
{
    (same(level, "debug") || same(level, "trace")) && !quiet
}

// ---- stop and kill ----

/// What is told after the daemon was asked to stop: `reached` whether it could be.
pub fn daemon_stop(reached: bool) -> (res: &'static str)
    ensures
        reached ==> res@ == "Daemon shutdown requested."@,
        !reached ==> res@ == "Daemon is not running."@,
{
    if reached {
        "Daemon shutdown requested."
    } else {
        "Daemon is not running."
    }
}

/// What is told when the daemon was reached and did not take the request.
pub const STOP_FAILURE: &'static str =
    "Shutdown RPC failed \u{2014} try `uffs --daemon kill` instead";

/// The process that is killed: what the PID file names, and else what the daemon says of itself.
pub fn kill_target(from_file: Option<u32>, from_status: Option<u32>) -> (res: Option<u32>)
    ensures
        res == match from_file {
            Some(pid) => Some(pid),
            None => from_status,
        },
{
    match from_file {
        Some(pid) => Some(pid),
        None => from_status,
    }
}

/// What is told before the daemon is killed; nothing in silence.
pub fn kill_announcement(target: Option<u32>, quiet: bool) -> (res: Option<String>)
    ensures
        error::shown(res) == if quiet {
            None
        } else {
            match target {
                Some(pid) => Some("Killing daemon (PID "@ + text::decimal(pid as nat) + ")..."@),
                None => Some("No daemon found (no PID file, no socket connection)."@),
            }
        },
{
    if quiet {
        return None;
    }
    match target {
        Some(pid) => Some(cat3("Killing daemon (PID ", &show_u64(pid as u64), ")...")),
        None => Some("No daemon found (no PID file, no socket connection).".to_owned()),
    }
}

/// What is told after the daemon was killed.
pub const KILLED: &'static str = "Daemon killed. PID file and socket cleaned up.";

/// What is told after what the daemon left was cleared: nothing where there was none to kill, and
/// nothing in silence.
pub fn kill_report(target: Option<u32>, quiet: bool) -> (res: Option<&'static str>)
    ensures
        match res {
            Some(told) => target is Some && !quiet && told@ == KILLED@,
            None => target is None || quiet,
        },
{
    if target.is_some() && !quiet {
        Some(KILLED)
    } else {
        None
    }
}

/// The command that kills a process: a program and its arguments; none on other platforms.
pub open spec fn kill_args(platform: Platform, pid: u32) -> Seq<Seq<char>> {
    match platform {
        Platform::Windows => seq!["taskkill"@, "/F"@, "/PID"@, text::decimal(pid as nat)],
        Platform::MacOs => seq!["kill"@, "-9"@, text::decimal(pid as nat)],
        Platform::Unix => seq!["kill"@, "-9"@, text::decimal(pid as nat)],
        Platform::Other => Seq::empty(),
    }
}

/// The command that kills a process: a program and its arguments; none on other platforms.
pub fn kill_pid(platform: Platform, pid: u32) -> (res: Vec<String>)
    ensures
        text::texts(res@) == kill_args(platform, pid),
{
    let shown = show_u64(pid as u64);
    let res: Vec<String> = match platform {
        Platform::Windows => strings(&["taskkill", "/F", "/PID", shown.as_str()]),
        Platform::MacOs => strings(&["kill", "-9", shown.as_str()]),
        Platform::Unix => strings(&["kill", "-9", shown.as_str()]),
        Platform::Other => Vec::new(),
    };
    assert(text::texts(res@) =~= kill_args(platform, pid));
    res
}

// ---- restart ----

/// The files among the sources of the loaded drives, as options.
pub open spec fn restart_args(sources: Seq<Seq<char>>) -> Seq<Seq<char>>
    decreases sources.len(),
{
    if sources.len() == 0 {
        Seq::empty()
    } else {
        let before = restart_args(sources.drop_last());
        if text::begins(sources.last(), "file:"@) {
            before + seq!["--mft-file"@, sources.last().skip(5)]
        } else {
            before
        }
    }
}

/// The arguments that the daemon is started with again: the files among the sources of the drives
/// that it had loaded.
pub fn restart_spawn_args(sources: &Vec<String>) -> (res: Vec<String>)
    ensures
        text::texts(res@) == restart_args(text::texts(sources@)),
{
    let ghost shown = text::texts(sources@);
    let mut res: Vec<String> = Vec::new();
    let mut i: usize = 0;
    proof {
        assert(shown.take(0) =~= Seq::empty());
        assert(text::texts(res@) =~= Seq::empty());
    }
    while i < sources.len()
        invariant
            i <= sources@.len(),
            shown == text::texts(sources@),
            text::texts(res@) == restart_args(shown.take(i as int)),
        decreases sources@.len() - i,
    {
        let source = &sources[i];
        proof {
            assert(shown.take(i + 1).drop_last() =~= shown.take(i as int));
            assert(shown.take(i + 1).last() == source@);
        }
        if starts_with(source, "file:") {
            let chars = text::chars_of(source);
            proof {
                reveal_strlit("file:");
            }
            let path = text::from_chars(&chars, 5, chars.len());
            assert(path@ =~= source@.skip(5));
            let ghost before = text::texts(res@);
            push_line(&mut res, "--mft-file".to_owned());
            push_line(&mut res, path);
            assert(text::texts(res@) =~= before + seq!["--mft-file"@, source@.skip(5)]);
        }
        i += 1;
    }
    assert(shown.take(i as int) =~= shown);
    res
}

/// How many arguments name a source.
pub open spec fn source_count(args: Seq<Seq<char>>) -> nat
    decreases args.len(),
{
    if args.len() == 0 {
        0
    } else {
        source_count(args.drop_last()) + if args.last() == "--mft-file"@ || args.last()
            == "--data-dir"@ {
            1nat
        } else {
            0
        }
    }
}

/// What is told before the daemon is started again.
pub fn restart_announcement(args: &Vec<String>) -> (res: String)
    ensures
        res@ == "Restarting daemon with "@ + text::decimal(source_count(text::texts(args@)))
            + " data source(s)..."@,
{
    let ghost shown = text::texts(args@);
    let mut count: usize = 0;
    let mut i: usize = 0;
    while i < args.len()
        invariant
            i <= args@.len(),
            shown == text::texts(args@),
            count == source_count(shown.take(i as int)),
            count <= i,
        decreases args@.len() - i,
    {
        proof {
            assert(shown.take(i + 1).drop_last() =~= shown.take(i as int));
            assert(shown.take(i + 1).last() == args@[i as int]@);
        }
        if same(&args[i], "--mft-file") || same(&args[i], "--data-dir") {
            count += 1;
        }
        i += 1;
    }
    assert(shown.take(i as int) =~= shown);
    cat3("Restarting daemon with ", &show_u64(count as u64), " data source(s)...")
}

/// What the daemon is doing.
#[derive(Debug)]
pub enum DaemonStatus {
    /// It answers searches.
    Ready,
    /// It loads its drives.
    Loading {
        /// How many are loaded.
        drives_loaded: usize,
        /// How many there are.
        drives_total: usize,
    },
    /// It reads drives again.
    Refreshing {
        /// The drives.
        drives: Vec<DriveLetter>,
    },
}

/// How the state of a daemon that was started again is shown.
pub open spec fn state_text(status: DaemonStatus) -> Seq<char> {
    match status {
        DaemonStatus::Loading { drives_loaded, drives_total } => "Loading ("@ + text::decimal(
            drives_loaded as nat,
        ) + "/"@ + text::decimal(drives_total as nat) + " drives)"@,
        DaemonStatus::Ready => "Ready"@,
        DaemonStatus::Refreshing { .. } => "Refreshing"@,
    }
}

/// What is told after the daemon was started again: what it says of itself, if it says something.
pub fn restart_report(reply: &Option<(u32, DaemonStatus)>) -> (res: String)
    ensures
        res@ == match *reply {
            Some((pid, status)) => "Daemon restarted (PID "@ + text::decimal(pid as nat)
                + "), status: "@ + state_text(status),
            None => "Daemon restarted."@,
        },
{
    match reply {
        Some((pid, status)) => {
            let state = match status {
                DaemonStatus::Loading { drives_loaded, drives_total } => cat5(
                    "Loading (",
                    &show_u64(*drives_loaded as u64),
                    "/",
                    &show_u64(*drives_total as u64),
                    " drives)",
                ),
                DaemonStatus::Ready => "Ready".to_owned(),
                DaemonStatus::Refreshing { .. } => "Refreshing".to_owned(),
            };
            cat4("Daemon restarted (PID ", &show_u64(*pid as u64), "), status: ", &state)
        },
        None => "Daemon restarted.".to_owned(),
    }
}

/// What is told before the daemon is stopped for a restart.
pub fn restart_stopping(pid: u32) -> (res: String)
    ensures
        res@ == "Stopping daemon (PID "@ + text::decimal(pid as nat) + ")..."@,
{
    cat3("Stopping daemon (PID ", &show_u64(pid as u64), ")...")
}

/// What is told when the daemon could not be stopped for a restart.
pub fn restart_stop_failure(pid: u32) -> (res: String)
    ensures
        res@ == "Graceful shutdown of PID "@ + text::decimal(pid as nat)
            + " failed.\nRun `uffs --daemon kill` first, then retry."@,
{
    cat3(
        "Graceful shutdown of PID ",
        &show_u64(pid as u64),
        " failed.\nRun `uffs --daemon kill` first, then retry.",
    )
}

/// A step of a restart.
#[derive(Debug, Clone, Copy, PartialEq, Eq, Structural)]
pub enum RestartStep {
    /// Reach the daemon that runs.
    Reach,
    /// Ask it for its drives, to load their files again.
    AskDrives,
    /// Ask it to end, and give it a second.
    Stop,
    /// Clear the files that it left.
    Clear,
    /// Start a daemon with the files.
    Start,
    /// Wait until it is ready.
    Await,
    /// Tell what it says of itself, if it says something.
    Report,
}

/// What follows a step of a restart.
#[derive(Debug, Clone, Copy, PartialEq, Eq, Structural)]
pub enum RestartNext {
    /// Another step.
    Do(RestartStep),
    /// There was no daemon to restart; that is told.
    NothingToRestart,
    /// The restart failed at a step.
    Fail(RestartStep),
    /// The restart is done.
    Done,
}

/// What follows the last step of a restart, and whether that step succeeded.  That files could not be
/// cleared does not matter.
pub open spec fn restart_next(last: Option<(RestartStep, bool)>) -> RestartNext {
    match last {
        None => RestartNext::Do(RestartStep::Reach),
        Some((RestartStep::Reach, false)) => RestartNext::NothingToRestart,
        Some((RestartStep::Reach, true)) => RestartNext::Do(RestartStep::AskDrives),
        Some((RestartStep::AskDrives, true)) => RestartNext::Do(RestartStep::Stop),
        Some((RestartStep::Stop, true)) => RestartNext::Do(RestartStep::Clear),
        Some((RestartStep::Clear, _)) => RestartNext::Do(RestartStep::Start),
        Some((RestartStep::Start, true)) => RestartNext::Do(RestartStep::Await),
        Some((RestartStep::Await, true)) => RestartNext::Do(RestartStep::Report),
        Some((RestartStep::Report, _)) => RestartNext::Done,
        Some((step, false)) => RestartNext::Fail(step),
    }
}

/// What follows the last step of a restart.
pub fn next_restart_step(last: Option<(RestartStep, bool)>) -> (res: RestartNext)
    ensures
        res == restart_next(last),
{
    match last {
        None => RestartNext::Do(RestartStep::Reach),
        Some((step, done)) => match step {
            RestartStep::Reach => if done {
                RestartNext::Do(RestartStep::AskDrives)
            } else {
                RestartNext::NothingToRestart
            },
            RestartStep::AskDrives => if done {
                RestartNext::Do(RestartStep::Stop)
            } else {
                RestartNext::Fail(step)
            },
            RestartStep::Stop => if done {
                RestartNext::Do(RestartStep::Clear)
            } else {
                RestartNext::Fail(step)
            },
            RestartStep::Clear => RestartNext::Do(RestartStep::Start),
            RestartStep::Start => if done {
                RestartNext::Do(RestartStep::Await)
            } else {
                RestartNext::Fail(step)
            },
            RestartStep::Await => if done {
                RestartNext::Do(RestartStep::Report)
            } else {
                RestartNext::Fail(step)
            },
            RestartStep::Report => RestartNext::Done,
        },
    }
}

/// What is told when a restart failed at a step; `pid` is the process of the daemon that ran.
pub open spec fn restart_failure_text(step: RestartStep, pid: u32) -> Seq<char> {
    match step {
        RestartStep::AskDrives => "Failed to query drives before restart"@,
        RestartStep::Stop => "Graceful shutdown of PID "@ + text::decimal(pid as nat)
            + " failed.\nRun `uffs --daemon kill` first, then retry."@,
        RestartStep::Start => "Failed to start restarted daemon"@,
        RestartStep::Await => "Restarted daemon did not become ready in time"@,
        _ => ""@,
    }
}

/// What is told when a restart failed at a step.
pub fn restart_failure(step: RestartStep, pid: u32) -> (res: String)
    ensures
        res@ == restart_failure_text(step, pid),
{
    match step {
        RestartStep::AskDrives => "Failed to query drives before restart".to_owned(),
        RestartStep::Stop => restart_stop_failure(pid),
        RestartStep::Start => "Failed to start restarted daemon".to_owned(),
        RestartStep::Await => "Restarted daemon did not become ready in time".to_owned(),
        _ => "".to_owned(),
    }
}

/// What is told when there is no daemon to restart.
pub const NOTHING_TO_RESTART: &'static str =
    "Daemon is not running \u{2014} nothing to restart.";

// ---- laws ----

/// The daemon is never started with an empty log level, nor with a log file whose directory is the
/// empty text: a variable that is set to the empty text counts as not set.
pub proof fn law_empty_variables_do_not_count(
    platform: Platform,
    level: Seq<char>,
    log_file: Option<Seq<char>>,
    env: LogEnvironment,
)
    requires
        level.len() > 0,
    ensures
        effective_level(level, env).len() > 0,
        effective_file(platform, log_file, env) is Some && log_file is None ==> {
            &&& meaningful(error::shown(env.uffs_log_dir)) is Some
            &&& meaningful(error::shown(env.uffs_log_dir))->Some_0.len() > 0
        },
{
}

/// Every file that the daemon had loaded is loaded again, under its own path.
pub proof fn law_restart_keeps_the_files(sources: Seq<Seq<char>>, path: Seq<char>, k: int)
    requires
        0 <= k < sources.len(),
        sources[k] == "file:"@ + path,
    ensures
        exists|i: int|
            0 <= i < restart_args(sources).len() - 1 && #[trigger] restart_args(sources)[i]
                == "--mft-file"@ && restart_args(sources)[i + 1] == path,
    decreases sources.len(),
{
    reveal_strlit("file:");
    let before = restart_args(sources.drop_last());
    if k == sources.len() - 1 {
        assert(("file:"@ + path).subrange(0, 5) =~= "file:"@);
        assert(("file:"@ + path).skip(5) =~= path);
        let i = before.len() as int;
        assert(restart_args(sources)[i] == "--mft-file"@);
        assert(restart_args(sources)[i + 1] == path);
    } else {
        law_restart_keeps_the_files(sources.drop_last(), path, k);
        let i = choose|i: int|
            0 <= i < before.len() - 1 && #[trigger] before[i] == "--mft-file"@ && before[i + 1]
                == path;
        assert(restart_args(sources)[i] == before[i]);
        assert(restart_args(sources)[i + 1] == before[i + 1]);
    }
}

/// A restart clears what the daemon left only after the daemon took the request to end, and starts
/// another only after that; so a daemon that does not end is not replaced.
pub proof fn law_a_running_daemon_is_not_replaced(last: Option<(RestartStep, bool)>)
    ensures
        restart_next(last) == RestartNext::Do(RestartStep::Clear) <==> last == Some(
            (RestartStep::Stop, true),
        ),
        restart_next(last) == RestartNext::Do(RestartStep::Start) <==> (last matches Some((step, _))
            && step == RestartStep::Clear),
{
}

/// Whether an action changes what a daemon does: everything but showing it does, and starting it with
/// a prompt for more rights asks for itself.
pub open spec fn changes_the_daemon(action: DaemonAction) -> bool {
    match action {
        DaemonAction::Stop => true,
        DaemonAction::Kill => true,
        DaemonAction::Restart => true,
        DaemonAction::Load { .. } => true,
        DaemonAction::Hibernate { .. } => true,
        DaemonAction::Preload { .. } => true,
        DaemonAction::Forget { .. } => true,
        DaemonAction::Start { elevate, .. } => !elevate,
        DaemonAction::Status { .. } => false,
        DaemonAction::StatusDrives => false,
    }
}

/// Nobody without rights changes a daemon that takes them: an action is refused exactly where it
/// changes the daemon, the caller has no more rights, and the daemon is protected.  The refusal is
/// that of the platform.
pub proof fn law_protected_daemons_are_left_alone(
    platform: Platform,
    action: &DaemonAction,
    elevated: bool,
    needs_elevation: bool,
    res: Option<CliError>,
)
    requires
        call_ensures(management_refusal, (platform, action, elevated, needs_elevation), res),
    ensures
        res is Some <==> changes_the_daemon(*action) && !elevated && needs_elevation,
        res matches Some(err) ==> err.cause is None && err.message@ == (if platform
            == Platform::Windows {
            WINDOWS_REFUSAL@
        } else if platform == Platform::Other {
            OTHER_REFUSAL@
        } else {
            UNIX_REFUSAL@
        }),
{
}

/// A daemon is protected exactly where it belongs to another user; or, where it is known how it was
/// started, where it is there, was started with more rights and no broker could bring it back; or
/// where nothing is known.
pub proof fn law_whose_daemon_is_protected(
    owner: Option<u32>,
    caller: u32,
    exists_file: bool,
    started_without_rights: bool,
    broker_serving: bool,
    owned: bool,
    launched: bool,
    unknown: bool,
)
    requires
        call_ensures(
            mutating_management_needs_elevation,
            (Protection::Owned { pid_file_owner: owner, caller_euid: caller },),
            owned,
        ),
        call_ensures(
            mutating_management_needs_elevation,
            (Protection::Launched {
                pid_file_exists: exists_file,
                started_without_rights,
                broker_serving,
            },),
            launched,
        ),
        call_ensures(mutating_management_needs_elevation, (Protection::Unknown,), unknown),
    ensures
        owned <==> owner is Some && owner->Some_0 != caller,
        !exists_file || started_without_rights || broker_serving <==> !launched,
        unknown,
{
}

/// What decides the log level of a daemon: the argument, unless it is `info`; then `UFFS_LOG`, then
/// `RUST_LOG`, each where it is set and not empty.  The log file is the one that was named, else the
/// one in the log directory, where that is set and not empty.
pub proof fn law_arguments_win_over_the_environment(
    platform: Platform,
    level: &str,
    file: &Option<String>,
    env: &LogEnvironment,
    found: String,
    at: Option<String>,
)
    requires
        call_ensures(effective_log_level, (level, env), found),
        call_ensures(effective_log_file, (platform, file, env), at),
    ensures
        ({
            let set = |value: Option<String>| value is Some && value->Some_0@.len() > 0;
            &&& level@ != "info"@ ==> found@ == level@
            &&& level@ == "info"@ && set(env.uffs_log) ==> found@ == env.uffs_log->Some_0@
            &&& level@ == "info"@ && !set(env.uffs_log) && set(env.rust_log) ==> found@
                == env.rust_log->Some_0@
            &&& level@ == "info"@ && !set(env.uffs_log) && !set(env.rust_log) ==> found@ == "info"@
            &&& file matches Some(named) ==> at is Some && at->Some_0@ == named@
            &&& *file is None && set(env.uffs_log_dir) ==> at is Some && at->Some_0@
                == platform::joined(platform, env.uffs_log_dir->Some_0@, "uffsd.log"@)
            &&& *file is None && !set(env.uffs_log_dir) ==> at is None
        }),
{
}

/// Options with their values stand in pairs, in the order of the values.
pub proof fn lemma_options(name: Seq<char>, values: Seq<Seq<char>>, k: int)
    ensures
        options(name, values).len() == 2 * values.len(),
        0 <= k < values.len() ==> options(name, values)[2 * k] == name && options(name, values)[2 * k
            + 1] == values[k],
    decreases values.len(),
{
    if values.len() > 0 {
        let before = values.drop_last();
        lemma_options(name, before, k);
        let all = options(name, values);
        let some = options(name, before);
        assert(all =~= some + seq![name, values.last()]);
        if 0 <= k < before.len() {
            assert(all[2 * k] == some[2 * k]);
            assert(all[2 * k + 1] == some[2 * k + 1]);
        } else if k == before.len() {
            assert(all[2 * k] == name);
            assert(all[2 * k + 1] == values.last());
        }
    }
}

/// A daemon that is started is handed exactly what was asked for, each option with its own value:
/// the data directory, the files and the drives in their order, whether to skip the cache, the log
/// level where it is not `info`, and the log file.
#[verifier::rlimit(80)]
pub proof fn law_a_daemon_is_started_as_asked(
    platform: Platform,
    running: bool,
    quiet: bool,
    mft_files: &Vec<String>,
    data_dir: &Option<String>,
    drives: &[DriveLetter],
    no_cache: bool,
    log_level: &str,
    log_file: &Option<String>,
    env: &LogEnvironment,
    res: (Option<&'static str>, StartStep),
    k: int,
)
    requires
        call_ensures(
            daemon_start,
            (
                platform,
                running,
                quiet,
                mft_files,
                data_dir,
                drives,
                no_cache,
                log_level,
                log_file,
                env,
            ),
            res,
        ),
    ensures
        running <==> res.1 is AlreadyRunning,
        res.1 is Refuse ==> platform != Platform::Windows && mft_files@.len() == 0 && *data_dir
            is None && drives@.len() == 0 && !no_cache && *log_file is None,
        quiet ==> res.0 is None,
        res.1 is Refuse ==> res.1->Refuse_0.message@ == NO_SOURCES@,
        !running && platform == Platform::Windows ==> res.1 is Spawn,
        !running && (mft_files@.len() > 0 || *data_dir is Some) ==> res.1 is Spawn,
        res.1 matches StartStep::Spawn(args) ==> {
            let level = effective_level(log_level@, *env);
            let file = effective_file(platform, error::shown(*log_file), *env);
            let files_at = if *data_dir is Some { 2int } else { 0 };
            let drives_at = files_at + 2 * mft_files@.len();
            let cache_at = drives_at + 2 * drives@.len();
            let level_at = cache_at + (if no_cache { 1int } else { 0 });
            let file_at = level_at + (if level != "info"@ { 2int } else { 0 });
            &&& args@.len() == file_at + (if file is Some { 2int } else { 0 })
            &&& data_dir matches Some(dir) ==> args@[0]@ == "--data-dir"@ && args@[1]@ == dir@
            &&& 0 <= k < mft_files@.len() ==> args@[files_at + 2 * k]@ == "--mft-file"@
                && args@[files_at + 2 * k + 1]@ == mft_files@[k]@
            &&& 0 <= k < drives@.len() ==> args@[drives_at + 2 * k]@ == "--drive"@
                && args@[drives_at + 2 * k + 1]@ == seq![drives@[k].letter()]
            &&& no_cache ==> args@[cache_at]@ == "--no-cache"@
            &&& level != "info"@ ==> args@[level_at]@ == "--log-level"@ && args@[level_at + 1]@
                == level
            &&& file matches Some(path) ==> args@[file_at]@ == "--log-file"@ && args@[file_at + 1]@
                == path
        },
{
    let files = text::texts(mft_files@);
    let letters = drive::drive_texts(drives@);
    lemma_options("--mft-file"@, files, k);
    lemma_options("--drive"@, letters, k);
    assert(files.len() == mft_files@.len());
    assert(letters.len() == drives@.len());
    if 0 <= k < files.len() {
        assert(files[k] == mft_files@[k]@);
    }
    if 0 <= k < letters.len() {
        assert(letters[k] == seq![drives@[k].letter()]);
    }
    if let StartStep::Spawn(args) = res.1 {
        let list = text::texts(args@);
        let level = effective_level(log_level@, *env);
        let file = effective_file(platform, error::shown(*log_file), *env);
        let p1 = option("--data-dir"@, error::shown(*data_dir));
        let p2 = options("--mft-file"@, files);
        let p3 = options("--drive"@, letters);
        let p4 = if no_cache {
            seq!["--no-cache"@]
        } else {
            Seq::empty()
        };
        let p5 = if level != "info"@ {
            seq!["--log-level"@, level]
        } else {
            Seq::empty()
        };
        let p6 = option("--log-file"@, file);
        assert(list == p1 + p2 + p3 + p4 + p5 + p6);
        assert(list.len() == args@.len());
        assert(forall|i: int| 0 <= i < args@.len() ==> #[trigger] list[i] == args@[i]@);
        let files_at = p1.len() as int;
        let drives_at = files_at + p2.len();
        let cache_at = drives_at + p3.len();
        let level_at = cache_at + p4.len();
        let file_at = level_at + p5.len();
        if *data_dir is Some {
            assert(list[0] == p1[0] && list[1] == p1[1]);
        }
        if 0 <= k < files.len() {
            assert(list[files_at + 2 * k] == p2[2 * k]);
            assert(list[files_at + 2 * k + 1] == p2[2 * k + 1]);
        }
        if 0 <= k < letters.len() {
            assert(list[drives_at + 2 * k] == p3[2 * k]);
            assert(list[drives_at + 2 * k + 1] == p3[2 * k + 1]);
        }
        if no_cache {
            assert(list[cache_at] == p4[0]);
        }
        if level != "info"@ {
            assert(list[level_at] == p5[0] && list[level_at + 1] == p5[1]);
        }
        if file is Some {
            assert(list[file_at] == p6[0] && list[file_at + 1] == p6[1]);
        }
    }
}

/// Which daemon is killed: the one of the file, else the one that answers; and what is told of it,
/// if anything is to be told.
pub proof fn law_which_daemon_is_killed(
    from_file: Option<u32>,
    from_status: Option<u32>,
    quiet: bool,
    platform: Platform,
    pid: u32,
    target: Option<u32>,
    told: Option<&'static str>,
    command: Vec<String>,
)
    requires
        call_ensures(kill_target, (from_file, from_status), target),
        call_ensures(kill_report, (target, quiet), told),
        call_ensures(kill_pid, (platform, pid), command),
    ensures
        from_file is Some ==> target == from_file,
        from_file is None ==> target == from_status,
        told is Some <==> target is Some && !quiet,
        platform == Platform::Windows ==> text::texts(command@) == seq![
            "taskkill"@,
            "/F"@,
            "/PID"@,
            text::decimal(pid as nat),
        ],
        platform == Platform::MacOs || platform == Platform::Unix ==> text::texts(command@) == seq![
            "kill"@,
            "-9"@,
            text::decimal(pid as nat),
        ],
{
}

/// The sources of a restart are those of a part and those of the rest, in order; a file is handed on
/// with its own path, and anything else is found again by the daemon itself.
pub proof fn law_sources_are_handed_on_in_order(
    a: Seq<Seq<char>>,
    b: Seq<Seq<char>>,
    path: Seq<char>,
    other: Seq<char>,
)
    requires
        !text::begins(other, "file:"@),
    ensures
        restart_args(a + b) == restart_args(a) + restart_args(b),
        restart_args(seq!["file:"@ + path]) == seq!["--mft-file"@, path],
        restart_args(seq![other]) == Seq::<Seq<char>>::empty(),
    decreases b.len(),
{
    reveal_with_fuel(restart_args, 2);
    let file = "file:"@ + path;
    reveal_strlit("file:");
    assert(file.subrange(0, 5) =~= "file:"@);
    assert(file.skip(5) =~= path);
    assert(seq![file].drop_last() =~= Seq::empty());
    assert(seq![other].drop_last() =~= Seq::empty());
    assert(restart_args(seq![file]) =~= seq!["--mft-file"@, path]);
    assert(restart_args(seq![other]) =~= Seq::empty());
    if b.len() == 0 {
        assert(a + b =~= a);
        assert(restart_args(a + b) =~= restart_args(a) + restart_args(b));
    } else {
        law_sources_are_handed_on_in_order(a, b.drop_last(), path, other);
        assert((a + b).drop_last() =~= a + b.drop_last());
        assert((a + b).last() == b.last());
        assert(restart_args(a + b) =~= restart_args(a) + restart_args(b));
    }
}

/// A restart goes its way step by step: it reaches the daemon, asks for its drives, stops it, clears
/// what it left, starts it, waits for it and tells of it, each only after the one before succeeded;
/// there is nothing to restart where the daemon is not reached, and any other failure ends it.
pub proof fn law_the_way_of_a_restart(step: RestartStep, ok: bool, first: RestartNext, next: RestartNext)
    requires
        call_ensures(next_restart_step, (None,), first),
        call_ensures(next_restart_step, (Some((step, ok)),), next),
    ensures
        first == RestartNext::Do(RestartStep::Reach),
        step == RestartStep::Reach && !ok ==> next is NothingToRestart,
        step == RestartStep::Reach && ok ==> next == RestartNext::Do(RestartStep::AskDrives),
        step == RestartStep::AskDrives && ok ==> next == RestartNext::Do(RestartStep::Stop),
        step == RestartStep::Stop && ok ==> next == RestartNext::Do(RestartStep::Clear),
        step == RestartStep::Clear ==> next == RestartNext::Do(RestartStep::Start),
        step == RestartStep::Start && ok ==> next == RestartNext::Do(RestartStep::Await),
        step == RestartStep::Await && ok ==> next == RestartNext::Do(RestartStep::Report),
        next is Done <==> step == RestartStep::Report,
        next matches RestartNext::Fail(failed) ==> failed == step && !ok,
        !ok && (step == RestartStep::AskDrives || step == RestartStep::Stop || step
            == RestartStep::Start || step == RestartStep::Await) ==> next is Fail,
{
}

/// What is told of a stop, of a restart, and of what a restarted daemon does.
pub proof fn law_what_is_told_of_the_daemon(
    reached: bool,
    stopped: &'static str,
    reply: &Option<(u32, DaemonStatus)>,
    report: String,
)
    requires
        call_ensures(daemon_stop, (reached,), stopped),
        call_ensures(restart_report, (reply,), report),
    ensures
        stopped@ == (if reached {
            "Daemon shutdown requested."@
        } else {
            "Daemon is not running."@
        }),
        *reply is None ==> report@ == "Daemon restarted."@,
        reply matches Some((pid, status)) ==> report@ == "Daemon restarted (PID "@ + text::decimal(
            pid as nat,
        ) + "), status: "@ + (match status {
            DaemonStatus::Ready => "Ready"@,
            DaemonStatus::Refreshing { .. } => "Refreshing"@,
            DaemonStatus::Loading { drives_loaded, drives_total } => "Loading ("@ + text::decimal(
                drives_loaded as nat,
            ) + "/"@ + text::decimal(drives_total as nat) + " drives)"@,
        }),
{
}

} // verus!
