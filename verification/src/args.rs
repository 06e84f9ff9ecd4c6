//! The command line of the subcommands that run on the client side.
//!
//! A parser is stated as a walk over the arguments: for each of them, what it adds to what has been
//! read so far, and whether it takes the next one with it.

use crate::drive;
use crate::drive::{extend_drives_from_csv, extend_drives_from_letters, DriveLetter};
use crate::error;
use crate::error::{fail, CliError};
use crate::text;
use crate::text::{cat3, parse_u32, same};
use vstd::prelude::*;

verus! {

/// The subcommands that are dispatched locally.
#[derive(Debug, Clone, Copy, PartialEq, Eq, Structural)]
pub enum Commands {
    /// Stats subcommand.
    Stats,
    /// Aggregate subcommand.
    Aggregate,
    /// Daemon management.
    Daemon,
    /// MCP management.
    Mcp,
    /// System status.
    SystemStatus,
}

/// An action of the daemon subcommand.
#[derive(Debug)]
pub enum DaemonAction {
    /// Start the daemon.
    Start {
        /// Raw MFT files.
        mft_file: Vec<String>,
        /// Data directory.
        data_dir: Option<String>,
        /// Drives to load.
        drives: Vec<DriveLetter>,
        /// Skip file cache.
        no_cache: bool,
        /// Log level.
        log_level: String,
        /// Log file path.
        log_file: Option<String>,
        /// Request a UAC prompt on Windows when the current process is not elevated.
        elevate: bool,
    },
    /// Show daemon status.
    Status {
        /// Long view: everything, with the performance counters.
        verbose: bool,
        /// Emit JSON instead of the human view.
        json: bool,
    },
    /// Gracefully stop.
    Stop,
    /// Hard kill.
    Kill,
    /// Stop then restart.
    Restart,
    /// Load further MFT files or drives into a running daemon.
    Load {
        /// Raw MFT files to load.
        mft_file: Vec<String>,
        /// Data directory to discover a drive in.
        data_dir: Option<String>,
        /// Drives to load.
        drives: Vec<DriveLetter>,
        /// Skip cache when loading.
        no_cache: bool,
    },
    /// Demote loaded drives to cold.
    Hibernate {
        /// Drives to hibernate; none means all loaded ones.
        drives: Vec<DriveLetter>,
    },
    /// Promote drives to hot and pin them.
    Preload {
        /// Drives to preload, at least one.
        drives: Vec<DriveLetter>,
        /// How long to pin, where it is not the default.
        pin_minutes: Option<u32>,
    },
    /// Evict drives and delete their caches.
    Forget {
        /// Drives to forget, at least one.
        drives: Vec<DriveLetter>,
        /// Hibernate drives that are in use first.
        force: bool,
    },
    /// Tier and telemetry of every drive.
    StatusDrives,
}

/// The contents of a [`DaemonAction`].
#[verifier::ext_equal]
pub enum ActionView {
    /// Start the daemon.
    Start(StartView),
    /// Show daemon status: the long view, and as JSON.
    Status(bool, bool),
    /// Gracefully stop.
    Stop,
    /// Hard kill.
    Kill,
    /// Stop then restart.
    Restart,
    /// Load further MFT files or drives.
    Load(LoadView),
    /// Demote loaded drives.
    Hibernate(Seq<DriveLetter>),
    /// Promote drives and pin them.
    Preload(Seq<DriveLetter>, Option<u32>),
    /// Evict drives; with force.
    Forget(Seq<DriveLetter>, bool),
    /// Tier and telemetry of every drive.
    StatusDrives,
}

/// What the start action holds.
#[verifier::ext_equal]
pub struct StartView {
    /// Raw MFT files.
    pub mft_file: Seq<Seq<char>>,
    /// Data directory.
    pub data_dir: Option<Seq<char>>,
    /// Drives to load.
    pub drives: Seq<DriveLetter>,
    /// Skip file cache.
    pub no_cache: bool,
    /// Log level.
    pub log_level: Seq<char>,
    /// Log file path.
    pub log_file: Option<Seq<char>>,
    /// Request a UAC prompt.
    pub elevate: bool,
}

/// What the load action holds.
#[verifier::ext_equal]
pub struct LoadView {
    /// Raw MFT files.
    pub mft_file: Seq<Seq<char>>,
    /// Data directory.
    pub data_dir: Option<Seq<char>>,
    /// Drives to load.
    pub drives: Seq<DriveLetter>,
    /// Skip cache.
    pub no_cache: bool,
}

impl View for DaemonAction {
    type V = ActionView;

    open spec fn view(&self) -> ActionView {
        match *self {
            DaemonAction::Start {
                mft_file,
                data_dir,
                drives,
                no_cache,
                log_level,
                log_file,
                elevate,
            } => ActionView::Start(
                StartView {
                    mft_file: text::texts(mft_file@),
                    data_dir: error::shown(data_dir),
                    drives: drives@,
                    no_cache,
                    log_level: log_level@,
                    log_file: error::shown(log_file),
                    elevate,
                },
            ),
            DaemonAction::Status { verbose, json } => ActionView::Status(verbose, json),
            DaemonAction::Stop => ActionView::Stop,
            DaemonAction::Kill => ActionView::Kill,
            DaemonAction::Restart => ActionView::Restart,
            DaemonAction::Load { mft_file, data_dir, drives, no_cache } => ActionView::Load(
                LoadView {
                    mft_file: text::texts(mft_file@),
                    data_dir: error::shown(data_dir),
                    drives: drives@,
                    no_cache,
                },
            ),
            DaemonAction::Hibernate { drives } => ActionView::Hibernate(drives@),
            DaemonAction::Preload { drives, pin_minutes } => ActionView::Preload(
                drives@,
                pin_minutes,
            ),
            DaemonAction::Forget { drives, force } => ActionView::Forget(drives@, force),
            DaemonAction::StatusDrives => ActionView::StatusDrives,
        }
    }
}

// ---- values ----

/// The parts of a comma-separated value, each without the white space around it.
pub open spec fn csv_parts(value: Seq<char>) -> Seq<Seq<char>> {
    text::split_at_char(value, ',').map_values(|part: Seq<char>| text::trimmed(part))
}

/// The parts of a comma-separated value, each without the white space around it.
pub fn split_csv(value: &str) -> (res: Vec<String>)
    ensures
        text::texts(res@) == csv_parts(value@),
{
    let parts = text::split(value, ',');
    let ghost shown = text::texts(parts@);
    let mut res: Vec<String> = Vec::new();
    let mut i: usize = 0;
    while i < parts.len()
        invariant
            i <= parts@.len(),
            shown == text::texts(parts@),
            text::texts(res@) == shown.take(i as int).map_values(
                |part: Seq<char>| text::trimmed(part),
            ),
        decreases parts@.len() - i,
    {
        let ghost before = text::texts(res@);
        res.push(text::trim(&parts[i]));
        proof {
            assert(shown[i as int] == parts@[i as int]@);
            assert(text::texts(res@) =~= before.push(text::trimmed(shown[i as int])));
            assert(shown.take(i + 1).map_values(|part: Seq<char>| text::trimmed(part))
                =~= before.push(text::trimmed(shown[i as int])));
        }
        i += 1;
    }
    assert(shown.take(i as int) =~= shown);
    res
}

// ---- status ----

/// Whether any of the arguments is one of two spellings.
pub open spec fn any_of(args: Seq<String>, first: Seq<char>, second: Seq<char>) -> bool {
    text::listed(args, first) || text::listed(args, second)
}

/// Parse the arguments of the status action.
pub fn parse_daemon_status(rest: &[String]) -> (res: DaemonAction)
    ensures
        res@ == ActionView::Status(
            any_of(rest@, "-v"@, "--verbose"@),
            text::listed(rest@, "--json"@),
        ),
{
    DaemonAction::Status {
        verbose: text::has(rest, "-v") || text::has(rest, "--verbose"),
        json: text::has(rest, "--json"),
    }
}

// ---- start ----

/// What the start action holds before any argument.
pub open spec fn start_default() -> StartView {
    StartView {
        mft_file: Seq::empty(),
        data_dir: None,
        drives: Seq::empty(),
        no_cache: false,
        log_level: "info"@,
        log_file: None,
        elevate: false,
    }
}

/// Whether an option of the start action takes a value.
pub open spec fn start_takes_value(arg: Seq<char>) -> bool {
    arg == "--mft-file"@ || arg == "--data-dir"@ || arg == "--drive"@ || arg == "--log-level"@
        || arg == "--log-file"@
}

/// What an option of the start action with its value adds.
pub open spec fn start_with_value(acc: StartView, arg: Seq<char>, value: Seq<char>) -> StartView {
    if arg == "--mft-file"@ {
        StartView { mft_file: csv_parts(value), ..acc }
    } else if arg == "--data-dir"@ {
        StartView { data_dir: Some(value), ..acc }
    } else if arg == "--drive"@ {
        StartView { drives: acc.drives + drive::letter_drives(value), ..acc }
    } else if arg == "--log-level"@ {
        StartView { log_level: value, ..acc }
    } else {
        StartView { log_file: Some(value), ..acc }
    }
}

/// What an option of the start action without a value adds; an unknown one adds nothing.
pub open spec fn start_with_flag(acc: StartView, arg: Seq<char>) -> StartView {
    if arg == "--no-cache"@ {
        StartView { no_cache: true, ..acc }
    } else if arg == "--elevate"@ {
        StartView { elevate: true, ..acc }
    } else {
        acc
    }
}

/// What the start action holds once the arguments from `i` on have been read.  An option at the end
/// whose value is missing adds nothing.
pub open spec fn start_from(acc: StartView, args: Seq<Seq<char>>, i: int) -> StartView
    decreases args.len() - i,
{
    if i < 0 || i >= args.len() {
        acc
    } else if start_takes_value(args[i]) {
        if i + 1 < args.len() {
            start_from(start_with_value(acc, args[i], args[i + 1]), args, i + 2)
        } else {
            acc
        }
    } else {
        start_from(start_with_flag(acc, args[i]), args, i + 1)
    }
}

/// Parse the arguments of the start action.
pub fn parse_daemon_start(rest: &[String]) -> (res: DaemonAction)
    ensures
        res@ == ActionView::Start(start_from(start_default(), text::texts(rest@), 0)),
{
    let mut mft_file: Vec<String> = Vec::new();
    let mut data_dir: Option<String> = None;
    let mut drives: Vec<DriveLetter> = Vec::new();
    let mut no_cache = false;
    let mut log_level = "info".to_owned();
    let mut log_file: Option<String> = None;
    let mut elevate = false;
    let mut i: usize = 0;
    let ghost args = text::texts(rest@);
    proof {
        assert(text::texts(mft_file@) =~= Seq::empty());
        assert(drives@ =~= Seq::empty());
    }
    while i < rest.len()
        invariant
            i <= rest@.len(),
            args == text::texts(rest@),
            start_from(
                StartView {
                    mft_file: text::texts(mft_file@),
                    data_dir: error::shown(data_dir),
                    drives: drives@,
                    no_cache,
                    log_level: log_level@,
                    log_file: error::shown(log_file),
                    elevate,
                },
                args,
                i as int,
            ) == start_from(start_default(), args, 0),
        decreases rest@.len() - i,
    {
        let arg = &rest[i];
        let takes_value = same(arg, "--mft-file") || same(arg, "--data-dir") || same(arg, "--drive")
            || same(arg, "--log-level") || same(arg, "--log-file");
        assert(args[i as int] == arg@);
        if takes_value {
            i += 1;
            if i < rest.len() {
                let value = &rest[i];
                assert(args[i as int] == value@);
                if same(arg, "--mft-file") {
                    mft_file = split_csv(value);
                } else if same(arg, "--data-dir") {
                    data_dir = Some(value.clone());
                } else if same(arg, "--drive") {
                    extend_drives_from_letters(&mut drives, value);
                } else if same(arg, "--log-level") {
                    log_level = value.clone();
                } else {
                    log_file = Some(value.clone());
                }
                i += 1;
            }
        } else {
            if same(arg, "--no-cache") {
                no_cache = true;
            } else if same(arg, "--elevate") {
                elevate = true;
            }
            i += 1;
        }
    }
    DaemonAction::Start { mft_file, data_dir, drives, no_cache, log_level, log_file, elevate }
}

// ---- load ----

/// What the load action holds before any argument.
pub open spec fn load_default() -> LoadView {
    LoadView { mft_file: Seq::empty(), data_dir: None, drives: Seq::empty(), no_cache: false }
}

/// Whether an argument is one of the two options for a drive.
pub open spec fn is_drive_option(arg: Seq<char>) -> bool {
    arg == "--drive"@ || arg == "-d"@
}

/// What the load action holds once the arguments from `i` on have been read.  An option at the end
/// whose value is missing adds nothing, and so does an unknown one.
pub open spec fn load_from(acc: LoadView, args: Seq<Seq<char>>, i: int) -> LoadView
    decreases args.len() - i,
{
    if i < 0 || i >= args.len() {
        acc
    } else if args[i] == "--mft-file"@ || args[i] == "--data-dir"@ || is_drive_option(args[i]) {
        if i + 1 >= args.len() {
            acc
        } else if args[i] == "--mft-file"@ {
            load_from(
                LoadView { mft_file: acc.mft_file + csv_parts(args[i + 1]), ..acc },
                args,
                i + 2,
            )
        } else if args[i] == "--data-dir"@ {
            load_from(LoadView { data_dir: Some(args[i + 1]), ..acc }, args, i + 2)
        } else {
            load_from(
                LoadView { drives: acc.drives + drive::csv_drives(args[i + 1]), ..acc },
                args,
                i + 2,
            )
        }
    } else if args[i] == "--no-cache"@ {
        load_from(LoadView { no_cache: true, ..acc }, args, i + 1)
    } else {
        load_from(acc, args, i + 1)
    }
}

/// Parse the arguments of the load action.
pub fn parse_daemon_load(rest: &[String]) -> (res: DaemonAction)
    ensures
        res@ == ActionView::Load(load_from(load_default(), text::texts(rest@), 0)),
{
    let mut mft_file: Vec<String> = Vec::new();
    let mut data_dir: Option<String> = None;
    let mut drives: Vec<DriveLetter> = Vec::new();
    let mut no_cache = false;
    let mut i: usize = 0;
    let ghost args = text::texts(rest@);
    proof {
        assert(text::texts(mft_file@) =~= Seq::empty());
        assert(drives@ =~= Seq::empty());
    }
    while i < rest.len()
        invariant
            i <= rest@.len(),
            args == text::texts(rest@),
            load_from(
                LoadView {
                    mft_file: text::texts(mft_file@),
                    data_dir: error::shown(data_dir),
                    drives: drives@,
                    no_cache,
                },
                args,
                i as int,
            ) == load_from(load_default(), args, 0),
        decreases rest@.len() - i,
    {
        let arg = &rest[i];
        assert(args[i as int] == arg@);
        if same(arg, "--mft-file") || same(arg, "--data-dir") || same(arg, "--drive") || same(
            arg,
            "-d",
        ) {
            i += 1;
            if i < rest.len() {
                let value = &rest[i];
                assert(args[i as int] == value@);
                if same(arg, "--mft-file") {
                    let mut parts = split_csv(value);
                    let ghost before = text::texts(mft_file@);
                    let ghost added = text::texts(parts@);
                    mft_file.append(&mut parts);
                    assert(text::texts(mft_file@) =~= before + added);
                } else if same(arg, "--data-dir") {
                    data_dir = Some(value.clone());
                } else {
                    extend_drives_from_csv(&mut drives, value);
                }
                i += 1;
            }
        } else {
            if same(arg, "--no-cache") {
                no_cache = true;
            }
            i += 1;
        }
    }
    DaemonAction::Load { mft_file, data_dir, drives, no_cache }
}

// ---- actions on drives ----

/// What an action on drives has read so far.
#[verifier::ext_equal]
pub struct DrivesView {
    /// The drives.
    pub drives: Seq<DriveLetter>,
    /// The pin, which only the preload action reads.
    pub pin_minutes: Option<u32>,
    /// The force flag, which only the forget action reads.
    pub force: bool,
}

/// Which action on drives is being read.
#[derive(Debug, Clone, Copy, PartialEq, Eq, Structural)]
pub enum DrivesAction {
    /// The hibernate action.
    Hibernate,
    /// The preload action.
    Preload,
    /// The forget action.
    Forget,
}

/// What an action on drives holds before any argument.
pub open spec fn drives_default() -> DrivesView {
    DrivesView { drives: Seq::empty(), pin_minutes: None, force: false }
}

/// Whether an argument is one of the three options for drives.
pub open spec fn is_drives_option(arg: Seq<char>) -> bool {
    arg == "--drive"@ || arg == "-d"@ || arg == "--drives"@
}

/// Whether an argument is one of the two options for the pin.
pub open spec fn is_pin_option(action: DrivesAction, arg: Seq<char>) -> bool {
    action == DrivesAction::Preload && (arg == "--pin-minutes"@ || arg == "--pin"@)
}

/// Whether an argument is one of the two force flags.
pub open spec fn is_force_flag(action: DrivesAction, arg: Seq<char>) -> bool {
    action == DrivesAction::Forget && (arg == "--force"@ || arg == "-f"@)
}

/// The number of minutes that a value stands for, if it stands for one.
pub open spec fn minutes(value: Seq<char>) -> Option<u32> {
    match text::number(value, 0, u32::MAX as nat) {
        Ok(n) => Some(n as u32),
        Err(_) => None,
    }
}

/// What an action on drives holds once the arguments from `i` on have been read.  Whatever is no
/// option names drives itself.
pub open spec fn drives_from(
    acc: DrivesView,
    action: DrivesAction,
    args: Seq<Seq<char>>,
    i: int,
) -> DrivesView
    decreases args.len() - i,
{
    if i < 0 || i >= args.len() {
        acc
    } else if is_drives_option(args[i]) {
        if i + 1 < args.len() {
            drives_from(
                DrivesView { drives: acc.drives + drive::csv_drives(args[i + 1]), ..acc },
                action,
                args,
                i + 2,
            )
        } else {
            acc
        }
    } else if is_pin_option(action, args[i]) {
        if i + 1 < args.len() {
            drives_from(
                DrivesView { pin_minutes: minutes(args[i + 1]), ..acc },
                action,
                args,
                i + 2,
            )
        } else {
            acc
        }
    } else if is_force_flag(action, args[i]) {
        drives_from(DrivesView { force: true, ..acc }, action, args, i + 1)
    } else {
        drives_from(
            DrivesView { drives: acc.drives + drive::csv_drives(args[i]), ..acc },
            action,
            args,
            i + 1,
        )
    }
}

/// What the arguments of an action on drives hold.
struct DriveArgs {
    drives: Vec<DriveLetter>,
    pin_minutes: Option<u32>,
    force: bool,
}

impl View for DriveArgs {
    type V = DrivesView;

    closed spec fn view(&self) -> DrivesView {
        DrivesView { drives: self.drives@, pin_minutes: self.pin_minutes, force: self.force }
    }
}

fn parse_drive_args(action: DrivesAction, rest: &[String]) -> (res: DriveArgs)
    ensures
        res@ == drives_from(drives_default(), action, text::texts(rest@), 0),
{
    let mut acc = DriveArgs { drives: Vec::new(), pin_minutes: None, force: false };
    let mut i: usize = 0;
    let ghost args = text::texts(rest@);
    assert(acc@ =~= drives_default());
    while i < rest.len()
        invariant
            i <= rest@.len(),
            args == text::texts(rest@),
            drives_from(acc@, action, args, i as int) == drives_from(
                drives_default(),
                action,
                args,
                0,
            ),
        decreases rest@.len() - i,
    {
        let arg = &rest[i];
        assert(args[i as int] == arg@);
        if same(arg, "--drive") || same(arg, "-d") || same(arg, "--drives") {
            i += 1;
            if i < rest.len() {
                assert(args[i as int] == rest@[i as int]@);
                extend_drives_from_csv(&mut acc.drives, &rest[i]);
                i += 1;
            }
        } else if action == DrivesAction::Preload && (same(arg, "--pin-minutes") || same(
            arg,
            "--pin",
        )) {
            i += 1;
            if i < rest.len() {
                assert(args[i as int] == rest@[i as int]@);
                acc.pin_minutes = match parse_u32(&rest[i]) {
                    Ok(n) => Some(n),
                    Err(_) => None,
                };
                i += 1;
            }
        } else if action == DrivesAction::Forget && (same(arg, "--force") || same(arg, "-f")) {
            acc.force = true;
            i += 1;
        } else {
            extend_drives_from_csv(&mut acc.drives, arg);
            i += 1;
        }
    }
    acc
}

/// Parse the arguments of the hibernate action; no drive means every loaded one.
pub fn parse_daemon_hibernate(rest: &[String]) -> (res: DaemonAction)
    ensures
        res@ == ActionView::Hibernate(
            drives_from(drives_default(), DrivesAction::Hibernate, text::texts(rest@), 0).drives,
        ),
{
    DaemonAction::Hibernate { drives: parse_drive_args(DrivesAction::Hibernate, rest).drives }
}

/// Parse the arguments of the preload action, which needs a drive.
pub fn parse_daemon_preload(rest: &[String]) -> (res: Result<DaemonAction, CliError>)
    ensures
        ({
            let read = drives_from(
                drives_default(),
                DrivesAction::Preload,
                text::texts(rest@),
                0,
            );
            if read.drives.len() == 0 {
                res is Err && res->Err_0@ == error::plain(
                    "`uffs --daemon preload` requires at least one drive letter; see `uffs --daemon preload --help`"@,
                )
            } else {
                res is Ok && res->Ok_0@ == ActionView::Preload(read.drives, read.pin_minutes)
            }
        }),
{
    let read = parse_drive_args(DrivesAction::Preload, rest);
    if read.drives.len() == 0 {
        return Err(
            fail(
                "`uffs --daemon preload` requires at least one drive letter; see `uffs --daemon preload --help`".to_owned(),
            ),
        );
    }
    Ok(DaemonAction::Preload { drives: read.drives, pin_minutes: read.pin_minutes })
}

/// Parse the arguments of the forget action, which needs a drive.
pub fn parse_daemon_forget(rest: &[String]) -> (res: Result<DaemonAction, CliError>)
    ensures
        ({
            let read = drives_from(
                drives_default(),
                DrivesAction::Forget,
                text::texts(rest@),
                0,
            );
            if read.drives.len() == 0 {
                res is Err && res->Err_0@ == error::plain(
                    "`uffs --daemon forget` requires at least one drive letter; see `uffs --daemon forget --help`"@,
                )
            } else {
                res is Ok && res->Ok_0@ == ActionView::Forget(read.drives, read.force)
            }
        }),
{
    let read = parse_drive_args(DrivesAction::Forget, rest);
    if read.drives.len() == 0 {
        return Err(
            fail(
                "`uffs --daemon forget` requires at least one drive letter; see `uffs --daemon forget --help`".to_owned(),
            ),
        );
    }
    Ok(DaemonAction::Forget { drives: read.drives, force: read.force })
}

// ---- all actions ----

/// What the stats action, which is gone, is answered.
pub open spec fn stats_action_text() -> Seq<char> {
    "`--daemon stats` has been folded into `--daemon status -v` (or `--daemon status --json` for the machine-readable form)."@
}

/// What an unknown action is answered.
pub open spec fn unknown_action_text(action: Seq<char>) -> Seq<char> {
    "Unknown daemon action: '"@ + action
        + "'. Use: start, status, stop, kill, restart, load, hibernate, preload, forget, status_drives"@
}

/// What the arguments of the daemon subcommand come to: the action that the first one names, with
/// the others as its arguments.  Without arguments the status is shown.
pub open spec fn daemon_action(args: Seq<String>) -> Result<ActionView, error::ErrorView> {
    let action = if args.len() == 0 {
        "status"@
    } else {
        args[0]@
    };
    let rest = if args.len() == 0 {
        args
    } else {
        args.drop_first()
    };
    let shown = text::texts(rest);
    let preload = drives_from(drives_default(), DrivesAction::Preload, shown, 0);
    let forget = drives_from(drives_default(), DrivesAction::Forget, shown, 0);
    if action == "start"@ {
        Ok(ActionView::Start(start_from(start_default(), shown, 0)))
    } else if action == "status"@ {
        Ok(
            ActionView::Status(
                any_of(rest, "-v"@, "--verbose"@),
                text::listed(rest, "--json"@),
            ),
        )
    } else if action == "stats"@ {
        Err(error::plain(stats_action_text()))
    } else if action == "stop"@ {
        Ok(ActionView::Stop)
    } else if action == "kill"@ {
        Ok(ActionView::Kill)
    } else if action == "restart"@ {
        Ok(ActionView::Restart)
    } else if action == "load"@ {
        Ok(ActionView::Load(load_from(load_default(), shown, 0)))
    } else if action == "hibernate"@ {
        Ok(
            ActionView::Hibernate(
                drives_from(drives_default(), DrivesAction::Hibernate, shown, 0).drives,
            ),
        )
    } else if action == "preload"@ {
        if preload.drives.len() == 0 {
            Err(
                error::plain(
                    "`uffs --daemon preload` requires at least one drive letter; see `uffs --daemon preload --help`"@,
                ),
            )
        } else {
            Ok(ActionView::Preload(preload.drives, preload.pin_minutes))
        }
    } else if action == "forget"@ {
        if forget.drives.len() == 0 {
            Err(
                error::plain(
                    "`uffs --daemon forget` requires at least one drive letter; see `uffs --daemon forget --help`"@,
                ),
            )
        } else {
            Ok(ActionView::Forget(forget.drives, forget.force))
        }
    } else if action == "status_drives"@ || action == "status-drives"@ {
        Ok(ActionView::StatusDrives)
    } else {
        Err(error::plain(unknown_action_text(action)))
    }
}

/// Parse the arguments of the daemon subcommand.
pub fn parse_daemon_action(args: &[String]) -> (res: Result<DaemonAction, CliError>)
    ensures
        match (res, daemon_action(args@)) {
            (Ok(found), Ok(action)) => found@ == action,
            (Err(found), Err(err)) => found@ == err,
            _ => false,
        },
{
    let action: &str = if args.len() == 0 {
        "status"
    } else {
        args[0].as_str()
    };
    let rest: &[String] = if args.len() == 0 {
        args
    } else {
        let rest = vstd::slice::slice_subrange(args, 1, args.len());
        assert(rest@ =~= args@.drop_first());
        rest
    };
    if same(action, "start") {
        Ok(parse_daemon_start(rest))
    } else if same(action, "status") {
        Ok(parse_daemon_status(rest))
    } else if same(action, "stats") {
        Err(
            fail(
                "`--daemon stats` has been folded into `--daemon status -v` (or `--daemon status --json` for the machine-readable form).".to_owned(),
            ),
        )
    } else if same(action, "stop") {
        Ok(DaemonAction::Stop)
    } else if same(action, "kill") {
        Ok(DaemonAction::Kill)
    } else if same(action, "restart") {
        Ok(DaemonAction::Restart)
    } else if same(action, "load") {
        Ok(parse_daemon_load(rest))
    } else if same(action, "hibernate") {
        Ok(parse_daemon_hibernate(rest))
    } else if same(action, "preload") {
        parse_daemon_preload(rest)
    } else if same(action, "forget") {
        parse_daemon_forget(rest)
    } else if same(action, "status_drives") || same(action, "status-drives") {
        Ok(DaemonAction::StatusDrives)
    } else {
        Err(
            fail(
                cat3(
                    "Unknown daemon action: '",
                    action,
                    "'. Use: start, status, stop, kill, restart, load, hibernate, preload, forget, status_drives",
                ),
            ),
        )
    }
}

// ---- laws ----

proof fn lemma_action_words()
    ensures
        "start"@ != "stats"@,
        "status"@ != "forget"@,
        "stop"@ != "kill"@,
        "stop"@ != "load"@,
        "kill"@ != "load"@,
        "restart"@ != "preload"@,
        "start"@.len() == 5,
        "stats"@.len() == 5,
        "status"@.len() == 6,
        "forget"@.len() == 6,
        "stop"@.len() == 4,
        "kill"@.len() == 4,
        "load"@.len() == 4,
        "restart"@.len() == 7,
        "preload"@.len() == 7,
        "hibernate"@.len() == 9,
        "status_drives"@.len() == 13,
        "status-drives"@.len() == 13,
{
    reveal_strlit("start");
    reveal_strlit("stats");
    reveal_strlit("status");
    reveal_strlit("forget");
    reveal_strlit("stop");
    reveal_strlit("kill");
    reveal_strlit("load");
    reveal_strlit("restart");
    reveal_strlit("preload");
    reveal_strlit("hibernate");
    reveal_strlit("status_drives");
    reveal_strlit("status-drives");
    assert("start"@[3] != "stats"@[3]);
    assert("status"@[0] != "forget"@[0]);
    assert("stop"@[0] != "kill"@[0]);
    assert("stop"@[0] != "load"@[0]);
    assert("kill"@[0] != "load"@[0]);
    assert("restart"@[0] != "preload"@[0]);
}

/// The first word of the arguments of the daemon subcommand names the action, each word its own:
/// what comes of a call is the action of that name if and only if that is the first word, so no two
/// words lead to the same action.  Without a word the status is shown.  The words that need drives
/// lead to nothing else either, and any other word is refused.
pub proof fn law_each_word_names_its_action(args: &[String], res: Result<DaemonAction, CliError>)
    requires
        call_ensures(parse_daemon_action, (args,), res),
    ensures
        ({
            let word = |w: Seq<char>| args@.len() > 0 && args@[0]@ == w;
            &&& (res matches Ok(action) && action is Start) <==> word("start"@)
            &&& (res matches Ok(action) && action is Status) <==> args@.len() == 0 || word("status"@)
            &&& (res matches Ok(action) && action is Stop) <==> word("stop"@)
            &&& (res matches Ok(action) && action is Kill) <==> word("kill"@)
            &&& (res matches Ok(action) && action is Restart) <==> word("restart"@)
            &&& (res matches Ok(action) && action is Load) <==> word("load"@)
            &&& (res matches Ok(action) && action is Hibernate) <==> word("hibernate"@)
            &&& (res matches Ok(action) && action is Preload) <==> word("preload"@) && res is Ok
            &&& (res matches Ok(action) && action is Forget) <==> word("forget"@) && res is Ok
            &&& (res matches Ok(action) && action is StatusDrives) <==> word("status_drives"@) || word(
                "status-drives"@,
            )
            &&& word("stats"@) ==> res is Err
        }),
{
    lemma_action_words();
}

proof fn lemma_start_shift(acc: StartView, head: Seq<Seq<char>>, tail: Seq<Seq<char>>, i: int)
    requires
        0 <= i,
    ensures
        start_from(acc, head + tail, head.len() + i) == start_from(acc, tail, i),
    decreases tail.len() - i,
{
    let args = head + tail;
    let n = head.len() as int;
    if i < tail.len() {
        assert(args[n + i] == tail[i]);
        if start_takes_value(tail[i]) {
            if i + 1 < tail.len() {
                assert(args[n + i + 1] == tail[i + 1]);
                lemma_start_shift(start_with_value(acc, tail[i], tail[i + 1]), head, tail, i + 2);
            }
        } else {
            lemma_start_shift(start_with_flag(acc, tail[i]), head, tail, i + 1);
        }
    }
}

/// What the start action holds where `later` was read behind `acc`, but for the log level.
spec fn started(acc: StartView, later: StartView, log_level: Seq<char>) -> StartView {
    StartView {
        mft_file: if later.mft_file.len() > 0 {
            later.mft_file
        } else {
            acc.mft_file
        },
        data_dir: if later.data_dir is Some {
            later.data_dir
        } else {
            acc.data_dir
        },
        drives: acc.drives + later.drives,
        no_cache: acc.no_cache || later.no_cache,
        log_level,
        log_file: if later.log_file is Some {
            later.log_file
        } else {
            acc.log_file
        },
        elevate: acc.elevate || later.elevate,
    }
}

proof fn lemma_csv_parts_some(value: Seq<char>)
    ensures
        csv_parts(value).len() > 0,
    decreases value.len(),
{
    if value.len() > 0 {
        lemma_csv_parts_some(value.drop_last());
    }
}

proof fn lemma_start_words()
    ensures
        "--mft-file"@ != "--data-dir"@,
        "--mft-file"@ != "--log-file"@,
        "--data-dir"@ != "--log-file"@,
        "--mft-file"@ != "--no-cache"@,
        "--data-dir"@ != "--no-cache"@,
        "--log-file"@ != "--no-cache"@,
        "--elevate"@.len() == 9,
        "--log-level"@.len() == 11,
        "--mft-file"@.len() == 10,
        "--data-dir"@.len() == 10,
        "--log-file"@.len() == 10,
        "--no-cache"@.len() == 10,
        "--drive"@.len() == 7,
        "--drives"@.len() == 8,
        "-d"@.len() == 2,
        "-f"@.len() == 2,
        "-d"@ != "-f"@,
        "--force"@.len() == 7,
        "--drive"@ != "--force"@,
        "--pin"@.len() == 5,
        "--pin-minutes"@.len() == 13,
{
    reveal_strlit("--mft-file");
    reveal_strlit("--data-dir");
    reveal_strlit("--log-file");
    reveal_strlit("--no-cache");
    reveal_strlit("--elevate");
    reveal_strlit("--log-level");
    reveal_strlit("--drive");
    reveal_strlit("--drives");
    reveal_strlit("-d");
    reveal_strlit("-f");
    reveal_strlit("--force");
    reveal_strlit("--pin");
    reveal_strlit("--pin-minutes");
    assert("--mft-file"@[2] != "--data-dir"@[2]);
    assert("--mft-file"@[2] != "--log-file"@[2]);
    assert("--data-dir"@[2] != "--log-file"@[2]);
    assert("--mft-file"@[2] != "--no-cache"@[2]);
    assert("--data-dir"@[2] != "--no-cache"@[2]);
    assert("--log-file"@[2] != "--no-cache"@[2]);
    assert("-d"@[1] != "-f"@[1]);
    assert("--drive"@[2] != "--force"@[2]);
}

proof fn lemma_same_level(one: StartView, other: StartView, args: Seq<Seq<char>>, i: int)
    requires
        0 <= i,
        one.log_level == other.log_level,
    ensures
        start_from(one, args, i).log_level == start_from(other, args, i).log_level,
    decreases args.len() - i,
{
    if i < args.len() {
        if start_takes_value(args[i]) {
            if i + 1 < args.len() {
                let v = args[i + 1];
                lemma_same_level(
                    start_with_value(one, args[i], v),
                    start_with_value(other, args[i], v),
                    args,
                    i + 2,
                );
            }
        } else {
            lemma_same_level(
                start_with_flag(one, args[i]),
                start_with_flag(other, args[i]),
                args,
                i + 1,
            );
        }
    }
}

proof fn lemma_started(acc: StartView, args: Seq<Seq<char>>, i: int)
    requires
        0 <= i,
    ensures
        ({
            let whole = start_from(acc, args, i);
            let later = start_from(start_default(), args, i);
            &&& whole == started(acc, later, whole.log_level)
            &&& later.log_level != "info"@ ==> whole.log_level == later.log_level
            &&& whole.log_level == later.log_level || whole.log_level == acc.log_level
            &&& (forall|k: int| i <= k < args.len() ==> #[trigger] args[k] != "--log-level"@)
                ==> whole.log_level == acc.log_level
        }),
    decreases args.len() - i,
{
    lemma_start_words();
    let base = start_default();
    if i >= args.len() {
        assert(acc.drives + base.drives =~= acc.drives);
    } else if start_takes_value(args[i]) {
        if i + 1 < args.len() {
            let v = args[i + 1];
            lemma_csv_parts_some(v);
            let one = start_with_value(acc, args[i], v);
            let other = start_with_value(base, args[i], v);
            lemma_started(one, args, i + 2);
            lemma_started(other, args, i + 2);
            if args[i] == "--log-level"@ {
                lemma_same_level(one, other, args, i + 2);
            }
            let rest = start_from(base, args, i + 2);
            assert(acc.drives + base.drives =~= acc.drives);
            assert(base.drives + drive::letter_drives(v) =~= drive::letter_drives(v));
            assert(acc.drives + (drive::letter_drives(v) + rest.drives) =~= acc.drives
                + drive::letter_drives(v) + rest.drives);
            assert(base.drives + rest.drives =~= rest.drives);
        } else {
            assert(acc.drives + base.drives =~= acc.drives);
        }
    } else {
        let one = start_with_flag(acc, args[i]);
        let other = start_with_flag(base, args[i]);
        lemma_started(one, args, i + 1);
        lemma_started(other, args, i + 1);
        let rest = start_from(base, args, i + 1);
        assert(base.drives + rest.drives =~= rest.drives);
    }
}

/// An option before the other arguments of the start action sets what it names and nothing else; a
/// later option of the same kind overrides it, but drives add up.  `one` is what the other arguments
/// come to alone.
pub proof fn law_start_options_set_what_they_name(
    option: Seq<char>,
    value: Seq<char>,
    tail: &[String],
    rest: &[String],
    one: DaemonAction,
    both: DaemonAction,
)
    requires
        call_ensures(parse_daemon_start, (tail,), one),
        call_ensures(parse_daemon_start, (rest,), both),
        text::texts(rest@) == seq![option, value] + text::texts(tail@),
        option == "--mft-file"@ || option == "--data-dir"@ || option == "--drive"@ || option
            == "--log-level"@ || option == "--log-file"@,
    ensures
        ({
            let a = one@->Start_0;
            let b = both@->Start_0;
            &&& one@ is Start && both@ is Start
            &&& b.no_cache == a.no_cache && b.elevate == a.elevate
            &&& b.mft_file == (if option == "--mft-file"@ && a.mft_file.len() == 0 {
                csv_parts(value)
            } else {
                a.mft_file
            })
            &&& b.data_dir == (if option == "--data-dir"@ && a.data_dir is None {
                Some(value)
            } else {
                a.data_dir
            })
            &&& b.log_file == (if option == "--log-file"@ && a.log_file is None {
                Some(value)
            } else {
                a.log_file
            })
            &&& b.drives == (if option == "--drive"@ {
                drive::letter_drives(value) + a.drives
            } else {
                a.drives
            })
            &&& option != "--log-level"@ ==> b.log_level == a.log_level
            &&& option == "--log-level"@ && a.log_level != "info"@ ==> b.log_level == a.log_level
            &&& option == "--log-level"@ && (forall|k: int|
                0 <= k < tail@.len() ==> #[trigger] tail@[k]@ != "--log-level"@) ==> b.log_level
                == value
        }),
{
    lemma_start_words();
    let args = text::texts(rest@);
    let more = text::texts(tail@);
    let head = seq![option, value];
    let acc = start_with_value(start_default(), option, value);
    assert(args[0] == option && args[1] == value);
    assert(start_from(start_default(), args, 0) == start_from(acc, args, 2));
    lemma_start_shift(acc, head, more, 0);
    lemma_started(acc, more, 0);
    let a = one@->Start_0;
    assert(Seq::<DriveLetter>::empty() + a.drives =~= a.drives);
    assert(acc.drives =~= (if option == "--drive"@ {
        drive::letter_drives(value)
    } else {
        Seq::empty()
    }));
    assert forall|k: int| 0 <= k < more.len() && (forall|q: int|
        0 <= q < tail@.len() ==> #[trigger] tail@[q]@ != "--log-level"@) implies #[trigger] more[k]
        != "--log-level"@ by {
        assert(more[k] == tail@[k]@);
    }
}

/// A flag before the other arguments of the start action sets what it names and nothing else, and so
/// does anything else that is no option: it sets nothing.  Without arguments nothing is set, and the
/// log level is `info`.
pub proof fn law_start_flags_set_what_they_name(
    flag: Seq<char>,
    tail: &[String],
    rest: &[String],
    one: DaemonAction,
    both: DaemonAction,
)
    requires
        call_ensures(parse_daemon_start, (tail,), one),
        call_ensures(parse_daemon_start, (rest,), both),
        text::texts(rest@) == seq![flag] + text::texts(tail@),
        flag != "--mft-file"@ && flag != "--data-dir"@ && flag != "--drive"@ && flag
            != "--log-level"@ && flag != "--log-file"@,
    ensures
        ({
            let a = one@->Start_0;
            let b = both@->Start_0;
            &&& b == (StartView {
                no_cache: a.no_cache || flag == "--no-cache"@,
                elevate: a.elevate || flag == "--elevate"@,
                ..a
            })
            &&& tail@.len() == 0 ==> a == (StartView {
                mft_file: Seq::empty(),
                data_dir: None,
                drives: Seq::empty(),
                no_cache: false,
                log_level: "info"@,
                log_file: None,
                elevate: false,
            })
        }),
{
    lemma_start_words();
    let args = text::texts(rest@);
    let more = text::texts(tail@);
    let acc = start_with_flag(start_default(), flag);
    assert(args[0] == flag);
    assert(start_from(start_default(), args, 0) == start_from(acc, args, 1));
    lemma_start_shift(acc, seq![flag], more, 0);
    lemma_started(acc, more, 0);
    let a = one@->Start_0;
    assert(Seq::<DriveLetter>::empty() + a.drives =~= a.drives);
}

proof fn lemma_load_shift(acc: LoadView, head: Seq<Seq<char>>, tail: Seq<Seq<char>>, i: int)
    requires
        0 <= i,
    ensures
        load_from(acc, head + tail, head.len() + i) == load_from(acc, tail, i),
    decreases tail.len() - i,
{
    let args = head + tail;
    let n = head.len() as int;
    if i < tail.len() {
        assert(args[n + i] == tail[i]);
        if i + 1 < tail.len() {
            assert(args[n + i + 1] == tail[i + 1]);
            let v = tail[i + 1];
            lemma_load_shift(
                LoadView { mft_file: acc.mft_file + csv_parts(v), ..acc },
                head,
                tail,
                i + 2,
            );
            lemma_load_shift(LoadView { data_dir: Some(v), ..acc }, head, tail, i + 2);
            lemma_load_shift(
                LoadView { drives: acc.drives + drive::csv_drives(v), ..acc },
                head,
                tail,
                i + 2,
            );
        }
        lemma_load_shift(LoadView { no_cache: true, ..acc }, head, tail, i + 1);
        lemma_load_shift(acc, head, tail, i + 1);
    }
}

proof fn lemma_loaded(acc: LoadView, args: Seq<Seq<char>>, i: int)
    requires
        0 <= i,
    ensures
        ({
            let later = load_from(load_default(), args, i);
            load_from(acc, args, i) == (LoadView {
                mft_file: acc.mft_file + later.mft_file,
                data_dir: if later.data_dir is Some {
                    later.data_dir
                } else {
                    acc.data_dir
                },
                drives: acc.drives + later.drives,
                no_cache: acc.no_cache || later.no_cache,
            })
        }),
    decreases args.len() - i,
{
    lemma_start_words();
    let base = load_default();
    assert(acc.drives + base.drives =~= acc.drives);
    assert(acc.mft_file + base.mft_file =~= acc.mft_file);
    if i < args.len() {
        if args[i] == "--mft-file"@ || args[i] == "--data-dir"@ || is_drive_option(args[i]) {
            if i + 1 < args.len() {
                let v = args[i + 1];
                let rest = load_from(base, args, i + 2);
                assert(base.drives + rest.drives =~= rest.drives);
                assert(base.mft_file + rest.mft_file =~= rest.mft_file);
                if args[i] == "--mft-file"@ {
                    lemma_loaded(
                        LoadView { mft_file: acc.mft_file + csv_parts(v), ..acc },
                        args,
                        i + 2,
                    );
                    lemma_loaded(
                        LoadView { mft_file: base.mft_file + csv_parts(v), ..base },
                        args,
                        i + 2,
                    );
                    assert(base.mft_file + csv_parts(v) =~= csv_parts(v));
                    assert(acc.mft_file + csv_parts(v) + rest.mft_file =~= acc.mft_file + (
                    csv_parts(v) + rest.mft_file));
                } else if args[i] == "--data-dir"@ {
                    lemma_loaded(LoadView { data_dir: Some(v), ..acc }, args, i + 2);
                    lemma_loaded(LoadView { data_dir: Some(v), ..base }, args, i + 2);
                } else {
                    let d = drive::csv_drives(v);
                    lemma_loaded(LoadView { drives: acc.drives + d, ..acc }, args, i + 2);
                    lemma_loaded(LoadView { drives: base.drives + d, ..base }, args, i + 2);
                    assert(base.drives + d =~= d);
                    assert(acc.drives + d + rest.drives =~= acc.drives + (d + rest.drives));
                }
            }
        } else if args[i] == "--no-cache"@ {
            let rest = load_from(base, args, i + 1);
            assert(base.drives + rest.drives =~= rest.drives);
            assert(base.mft_file + rest.mft_file =~= rest.mft_file);
            lemma_loaded(LoadView { no_cache: true, ..acc }, args, i + 1);
            lemma_loaded(LoadView { no_cache: true, ..base }, args, i + 1);
        } else {
            lemma_loaded(acc, args, i + 1);
        }
    }
}

/// An option before the other arguments of the load action adds what it names to what those come to
/// alone: files and drives add up, a later data directory overrides an earlier one, and a flag sets
/// what it names.
pub proof fn law_load_options_add_what_they_name(
    option: Seq<char>,
    value: Seq<char>,
    tail: &[String],
    rest: &[String],
    flagged: &[String],
    one: DaemonAction,
    both: DaemonAction,
    flag: DaemonAction,
)
    requires
        call_ensures(parse_daemon_load, (tail,), one),
        call_ensures(parse_daemon_load, (rest,), both),
        call_ensures(parse_daemon_load, (flagged,), flag),
        text::texts(rest@) == seq![option, value] + text::texts(tail@),
        text::texts(flagged@) == seq!["--no-cache"@] + text::texts(tail@),
        option == "--mft-file"@ || option == "--data-dir"@ || option == "--drive"@ || option
            == "-d"@,
    ensures
        ({
            let a = one@->Load_0;
            let b = both@->Load_0;
            &&& one@ is Load && both@ is Load && flag@ is Load
            &&& b.no_cache == a.no_cache
            &&& b.mft_file == (if option == "--mft-file"@ {
                csv_parts(value) + a.mft_file
            } else {
                a.mft_file
            })
            &&& b.data_dir == (if option == "--data-dir"@ && a.data_dir is None {
                Some(value)
            } else {
                a.data_dir
            })
            &&& b.drives == (if option == "--drive"@ || option == "-d"@ {
                drive::csv_drives(value) + a.drives
            } else {
                a.drives
            })
            &&& flag@->Load_0 == (LoadView { no_cache: true, ..a })
            &&& tail@.len() == 0 ==> a == (LoadView {
                mft_file: Seq::empty(),
                data_dir: None,
                drives: Seq::empty(),
                no_cache: false,
            })
        }),
{
    lemma_start_words();
    let base = load_default();
    let more = text::texts(tail@);
    let a = one@->Load_0;
    let args = text::texts(rest@);
    assert(args[0] == option && args[1] == value);
    let acc = if option == "--mft-file"@ {
        LoadView { mft_file: base.mft_file + csv_parts(value), ..base }
    } else if option == "--data-dir"@ {
        LoadView { data_dir: Some(value), ..base }
    } else {
        LoadView { drives: base.drives + drive::csv_drives(value), ..base }
    };
    assert(load_from(base, args, 0) == load_from(acc, args, 2));
    lemma_load_shift(acc, seq![option, value], more, 0);
    lemma_loaded(acc, more, 0);
    assert(base.mft_file + csv_parts(value) =~= csv_parts(value));
    assert(base.drives + drive::csv_drives(value) =~= drive::csv_drives(value));
    assert(base.mft_file + a.mft_file =~= a.mft_file);
    assert(base.drives + a.drives =~= a.drives);
    let cold = LoadView { no_cache: true, ..base };
    let short = text::texts(flagged@);
    assert(short[0] == "--no-cache"@);
    assert(load_from(base, short, 0) == load_from(cold, short, 1));
    lemma_load_shift(cold, seq!["--no-cache"@], more, 0);
    lemma_loaded(cold, more, 0);
}

proof fn lemma_drives_shift(
    acc: DrivesView,
    action: DrivesAction,
    head: Seq<Seq<char>>,
    tail: Seq<Seq<char>>,
    i: int,
)
    requires
        0 <= i,
    ensures
        drives_from(acc, action, head + tail, head.len() + i) == drives_from(acc, action, tail, i),
    decreases tail.len() - i,
{
    let args = head + tail;
    let n = head.len() as int;
    if i < tail.len() {
        assert(args[n + i] == tail[i]);
        if i + 1 < tail.len() {
            assert(args[n + i + 1] == tail[i + 1]);
            let v = tail[i + 1];
            lemma_drives_shift(
                DrivesView { drives: acc.drives + drive::csv_drives(v), ..acc },
                action,
                head,
                tail,
                i + 2,
            );
            lemma_drives_shift(
                DrivesView { pin_minutes: minutes(v), ..acc },
                action,
                head,
                tail,
                i + 2,
            );
        }
        lemma_drives_shift(DrivesView { force: true, ..acc }, action, head, tail, i + 1);
        lemma_drives_shift(
            DrivesView { drives: acc.drives + drive::csv_drives(tail[i]), ..acc },
            action,
            head,
            tail,
            i + 1,
        );
    }
}

proof fn lemma_drives_read(acc: DrivesView, action: DrivesAction, args: Seq<Seq<char>>, i: int)
    requires
        0 <= i,
    ensures
        ({
            let whole = drives_from(acc, action, args, i);
            let later = drives_from(drives_default(), action, args, i);
            &&& whole.drives == acc.drives + later.drives
            &&& whole.force == (acc.force || later.force)
            &&& later.pin_minutes is Some ==> whole.pin_minutes == later.pin_minutes
            &&& (forall|k: int|
                i <= k < args.len() ==> #[trigger] args[k] != "--pin"@ && args[k]
                    != "--pin-minutes"@) ==> whole.pin_minutes == acc.pin_minutes
        }),
    decreases args.len() - i,
{
    lemma_start_words();
    let base = drives_default();
    assert(acc.drives + base.drives =~= acc.drives);
    if i < args.len() {
        if is_drives_option(args[i]) {
            if i + 1 < args.len() {
                let d = drive::csv_drives(args[i + 1]);
                let rest = drives_from(base, action, args, i + 2);
                lemma_drives_read(DrivesView { drives: acc.drives + d, ..acc }, action, args, i + 2);
                lemma_drives_read(
                    DrivesView { drives: base.drives + d, ..base },
                    action,
                    args,
                    i + 2,
                );
                lemma_same_pin(
                    DrivesView { drives: base.drives + d, ..base },
                    base,
                    action,
                    args,
                    i + 2,
                );
                assert(base.drives + d =~= d);
                assert(acc.drives + d + rest.drives =~= acc.drives + (d + rest.drives));
            }
        } else if is_pin_option(action, args[i]) {
            if i + 1 < args.len() {
                let m = minutes(args[i + 1]);
                let rest = drives_from(base, action, args, i + 2);
                lemma_drives_read(DrivesView { pin_minutes: m, ..acc }, action, args, i + 2);
                lemma_drives_read(DrivesView { pin_minutes: m, ..base }, action, args, i + 2);
                lemma_same_pin(
                    DrivesView { pin_minutes: m, ..acc },
                    DrivesView { pin_minutes: m, ..base },
                    action,
                    args,
                    i + 2,
                );
                assert(base.drives + rest.drives =~= rest.drives);
            }
        } else if is_force_flag(action, args[i]) {
            let rest = drives_from(base, action, args, i + 1);
            lemma_drives_read(DrivesView { force: true, ..acc }, action, args, i + 1);
            lemma_drives_read(DrivesView { force: true, ..base }, action, args, i + 1);
            lemma_same_pin(DrivesView { force: true, ..base }, base, action, args, i + 1);
            assert(base.drives + rest.drives =~= rest.drives);
        } else {
            let d = drive::csv_drives(args[i]);
            let rest = drives_from(base, action, args, i + 1);
            lemma_drives_read(DrivesView { drives: acc.drives + d, ..acc }, action, args, i + 1);
            lemma_drives_read(DrivesView { drives: base.drives + d, ..base }, action, args, i + 1);
            lemma_same_pin(DrivesView { drives: base.drives + d, ..base }, base, action, args, i + 1);
            assert(base.drives + d =~= d);
            assert(acc.drives + d + rest.drives =~= acc.drives + (d + rest.drives));
        }
    }
}

/// The drives of an action add up, in the order in which they are named, behind an option or not;
/// an action that needs drives fails exactly where none is named.  Forgetting is forced exactly where
/// that is asked for, and preloading takes the minutes that are asked for.
pub proof fn law_actions_on_drives_read_their_arguments(
    word: Seq<char>,
    tail: &[String],
    rest: &[String],
    one: DaemonAction,
    both: DaemonAction,
    kept: Result<DaemonAction, CliError>,
    more_kept: Result<DaemonAction, CliError>,
    gone: Result<DaemonAction, CliError>,
    more_gone: Result<DaemonAction, CliError>,
)
    requires
        call_ensures(parse_daemon_hibernate, (tail,), one),
        call_ensures(parse_daemon_hibernate, (rest,), both),
        call_ensures(parse_daemon_preload, (tail,), kept),
        call_ensures(parse_daemon_preload, (rest,), more_kept),
        call_ensures(parse_daemon_forget, (tail,), gone),
        call_ensures(parse_daemon_forget, (rest,), more_gone),
        text::texts(rest@) == seq![word] + text::texts(tail@),
        word != "--drive"@ && word != "-d"@ && word != "--drives"@ && word != "--pin"@ && word
            != "--pin-minutes"@,
    ensures
        one@ is Hibernate && both@ is Hibernate,
        both@->Hibernate_0 == drive::csv_drives(word) + one@->Hibernate_0,
        tail@.len() == 0 ==> one@->Hibernate_0.len() == 0 && kept is Err && gone is Err,
        kept matches Ok(a) ==> {
            &&& more_kept matches Ok(b)
            &&& b@->Preload_0 == drive::csv_drives(word) + a@->Preload_0
            &&& b@->Preload_1 == a@->Preload_1
            &&& a@ is Preload && b@ is Preload
            &&& a@->Preload_0.len() > 0
        },
        gone matches Ok(a) ==> {
            &&& more_gone matches Ok(b)
            &&& a@ is Forget && b@ is Forget
            &&& word != "--force"@ && word != "-f"@ ==> b@->Forget_0 == drive::csv_drives(word)
                + a@->Forget_0 && b@->Forget_1 == a@->Forget_1
            &&& word == "--force"@ || word == "-f"@ ==> b@->Forget_0 == a@->Forget_0
                && b@->Forget_1
            &&& a@->Forget_0.len() > 0
        },
        drive::csv_drives(word).len() > 0 ==> more_kept is Ok && (word == "--force"@ || word
            == "-f"@ || more_gone is Ok),
{
    lemma_start_words();
    let base = drives_default();
    let more = text::texts(tail@);
    let args = text::texts(rest@);
    let d = drive::csv_drives(word);
    assert(args[0] == word);
    let named = DrivesView { drives: base.drives + d, ..base };
    assert(base.drives + d =~= d);
    lemma_drives_shift(named, DrivesAction::Hibernate, seq![word], more, 0);
    lemma_drives_shift(named, DrivesAction::Preload, seq![word], more, 0);
    lemma_drives_shift(named, DrivesAction::Forget, seq![word], more, 0);
    lemma_drives_read(named, DrivesAction::Hibernate, more, 0);
    lemma_drives_read(named, DrivesAction::Preload, more, 0);
    lemma_drives_read(named, DrivesAction::Forget, more, 0);
    let forced = DrivesView { force: true, ..base };
    lemma_drives_shift(forced, DrivesAction::Forget, seq![word], more, 0);
    lemma_drives_read(forced, DrivesAction::Forget, more, 0);
    let a = drives_from(base, DrivesAction::Forget, more, 0);
    assert(base.drives + a.drives =~= a.drives);
    lemma_same_pin(named, base, DrivesAction::Preload, more, 0);
}

proof fn lemma_same_pin(
    one: DrivesView,
    other: DrivesView,
    action: DrivesAction,
    args: Seq<Seq<char>>,
    i: int,
)
    requires
        0 <= i,
        one.pin_minutes == other.pin_minutes,
    ensures
        drives_from(one, action, args, i).pin_minutes == drives_from(
            other,
            action,
            args,
            i,
        ).pin_minutes,
    decreases args.len() - i,
{
    if i < args.len() {
        if is_drives_option(args[i]) {
            if i + 1 < args.len() {
                let d = drive::csv_drives(args[i + 1]);
                lemma_same_pin(
                    DrivesView { drives: one.drives + d, ..one },
                    DrivesView { drives: other.drives + d, ..other },
                    action,
                    args,
                    i + 2,
                );
            }
        } else if is_pin_option(action, args[i]) {
            if i + 1 < args.len() {
                let m = minutes(args[i + 1]);
                lemma_same_pin(
                    DrivesView { pin_minutes: m, ..one },
                    DrivesView { pin_minutes: m, ..other },
                    action,
                    args,
                    i + 2,
                );
            }
        } else if is_force_flag(action, args[i]) {
            lemma_same_pin(
                DrivesView { force: true, ..one },
                DrivesView { force: true, ..other },
                action,
                args,
                i + 1,
            );
        } else {
            let d = drive::csv_drives(args[i]);
            lemma_same_pin(
                DrivesView { drives: one.drives + d, ..one },
                DrivesView { drives: other.drives + d, ..other },
                action,
                args,
                i + 1,
            );
        }
    }
}

/// The minutes of a preload, and the drives behind an option, are read as they are named, where no
/// later option names other minutes.
pub proof fn law_preload_takes_its_minutes(
    option: Seq<char>,
    value: Seq<char>,
    n: u32,
    tail: &[String],
    rest: &[String],
    one: Result<DaemonAction, CliError>,
    both: Result<DaemonAction, CliError>,
)
    requires
        call_ensures(parse_daemon_preload, (tail,), one),
        call_ensures(parse_daemon_preload, (rest,), both),
        text::texts(rest@) == seq![option, value] + text::texts(tail@),
        forall|k: int|
            0 <= k < tail@.len() ==> #[trigger] tail@[k]@ != "--pin"@ && tail@[k]@
                != "--pin-minutes"@,
        one is Ok,
    ensures
        (option == "--pin"@ || option == "--pin-minutes"@) && value == text::decimal(n as nat) ==> {
            &&& both matches Ok(b)
            &&& b@ == ActionView::Preload(one->Ok_0@->Preload_0, Some(n))
        },
        option == "--drive"@ || option == "-d"@ || option == "--drives"@ ==> {
            &&& both matches Ok(b)
            &&& b@ == ActionView::Preload(
                drive::csv_drives(value) + one->Ok_0@->Preload_0,
                None::<u32>,
            )
        },
{
    lemma_start_words();
    let base = drives_default();
    let more = text::texts(tail@);
    let args = text::texts(rest@);
    assert(args[0] == option && args[1] == value);
    assert forall|k: int| 0 <= k < more.len() implies #[trigger] more[k] != "--pin"@ && more[k]
        != "--pin-minutes"@ by {
        assert(more[k] == tail@[k]@);
    }
    let action = DrivesAction::Preload;
    lemma_drives_read(base, action, more, 0);
    let a = drives_from(base, action, more, 0);
    assert(base.drives + a.drives =~= a.drives);
    let pinned = DrivesView { pin_minutes: minutes(value), ..base };
    lemma_drives_shift(pinned, action, seq![option, value], more, 0);
    lemma_drives_read(pinned, action, more, 0);
    let d = drive::csv_drives(value);
    let named = DrivesView { drives: base.drives + d, ..base };
    assert(base.drives + d =~= d);
    lemma_drives_shift(named, action, seq![option, value], more, 0);
    lemma_drives_read(named, action, more, 0);
    if value == text::decimal(n as nat) {
        text::lemma_digits(n as nat, 0, u32::MAX as nat, false);
        assert(text::is_digit(value[0]));
    }
}

/// What stands behind the word of an action is read as the arguments of that action.
pub proof fn law_the_rest_goes_to_the_action(
    args: &[String],
    rest: &[String],
    res: Result<DaemonAction, CliError>,
    start: DaemonAction,
    load: DaemonAction,
    hibernate: DaemonAction,
    preload: Result<DaemonAction, CliError>,
    forget: Result<DaemonAction, CliError>,
    k: int,
)
    requires
        args@.len() > 0,
        rest@ == args@.drop_first(),
        call_ensures(parse_daemon_action, (args,), res),
        call_ensures(parse_daemon_start, (rest,), start),
        call_ensures(parse_daemon_load, (rest,), load),
        call_ensures(parse_daemon_hibernate, (rest,), hibernate),
        call_ensures(parse_daemon_preload, (rest,), preload),
        call_ensures(parse_daemon_forget, (rest,), forget),
    ensures
        args@[0]@ == "start"@ ==> (res matches Ok(action) && action@ == start@),
        args@[0]@ == "load"@ ==> (res matches Ok(action) && action@ == load@),
        args@[0]@ == "hibernate"@ ==> (res matches Ok(action) && action@ == hibernate@),
        args@[0]@ == "preload"@ ==> match (res, preload) {
            (Ok(action), Ok(wanted)) => action@ == wanted@,
            (Err(err), Err(wanted)) => err@ == wanted@,
            _ => false,
        },
        args@[0]@ == "forget"@ ==> match (res, forget) {
            (Ok(action), Ok(wanted)) => action@ == wanted@,
            (Err(err), Err(wanted)) => err@ == wanted@,
            _ => false,
        },
        args@[0]@ == "status"@ ==> {
            &&& res matches Ok(action)
            &&& action is Status
            &&& 1 <= k < args@.len() && (args@[k]@ == "-v"@ || args@[k]@ == "--verbose"@)
                ==> action->verbose
            &&& 1 <= k < args@.len() && args@[k]@ == "--json"@ ==> action->json
            &&& (forall|q: int|
                1 <= q < args@.len() ==> #[trigger] args@[q]@ != "-v"@ && args@[q]@ != "--verbose"@)
                ==> !action->verbose
            &&& (forall|q: int| 1 <= q < args@.len() ==> #[trigger] args@[q]@ != "--json"@)
                ==> !action->json
        },
{
    lemma_action_words();
    if 1 <= k < args@.len() {
        assert(rest@[k - 1]@ == args@[k]@);
    }
    assert forall|q: int| 0 <= q < rest@.len() implies #[trigger] rest@[q]@ == args@[q + 1]@ by {}
}

/// A value with commas is cut at each of them, in order, and every part is without the white space
/// around it.
pub proof fn law_a_list_is_cut_at_its_commas(value: &str, res: Vec<String>, k: int)
    requires
        call_ensures(split_csv, (value,), res),
    ensures
        ({
            let parts = text::split_at_char(value@, ',');
            &&& res@.len() == parts.len()
            &&& 0 <= k < parts.len() ==> res@[k]@ == text::trimmed(parts[k])
        }),
{
    assert(res@.len() == text::texts(res@).len());
    if 0 <= k < res@.len() {
        assert(text::texts(res@)[k] == res@[k]@);
    }
}

} // verus!
