//! Keeping the daemon running: it is started at login and never ends for want of work.
//!
//! What turning this on or off takes on a platform is a list of steps, which are taken in order.

use crate::daemon_mgmt;
use crate::daemon_mgmt::{push_option, push_options};
use crate::drive;
use crate::drive::DriveLetter;
use crate::error;
use crate::error::{fail, CliError};
use crate::platform;
use crate::platform::{join_path, Platform};
use crate::text;
use crate::text::{cat2, cat3, cat5, has_whitespace, join, push_line, replace, strings, trim};
use vstd::prelude::*;

verus! {

/// What is asked for.
#[derive(Debug, Clone, Copy, PartialEq, Eq, Structural)]
pub enum ResidentMode {
    /// Turn it on.
    On,
    /// Turn it off.
    Off,
    /// Tell whether it is on.
    Status,
}

/// The name of the agent on macOS.
pub const LABEL: &'static str = "com.skyllc.uffs.daemon";

/// The registry key of what is started at login on Windows.
pub const RUN_KEY: &'static str = "HKCU\\Software\\Microsoft\\Windows\\CurrentVersion\\Run";

/// The registry value of the daemon on Windows.
pub const RUN_VALUE: &'static str = "UFFSDaemon";

/// The name of the unit on Linux.
pub const UNIT: &'static str = "uffs-daemon.service";

// ---- what is started ----

/// Why the daemon cannot be kept running without data off Windows.
pub const NO_SOURCES: &'static str =
    "No MFT data sources specified.\nThe resident daemon needs data to serve at login:\n  uffs --daemon resident on --data-dir <path>\n  uffs --daemon resident on --mft-file <path>";

/// Why the daemon cannot be kept running, if so: off Windows it needs data.
pub fn sources_refusal(platform: Platform, mft_files: &Vec<String>, data_dir: &Option<String>) -> (res:
    Option<CliError>)
    ensures
        if platform != Platform::Windows && mft_files@.len() == 0 && *data_dir is None {
            res is Some && res->Some_0@ == error::plain(NO_SOURCES@)
        } else {
            res is None
        },
{
    if platform != Platform::Windows && mft_files.len() == 0 && data_dir.is_none() {
        Some(fail(NO_SOURCES.to_owned()))
    } else {
        None
    }
}

/// The arguments of a daemon that is kept running: it never ends for want of work, it has its data,
/// and a log in a place that does not depend on where it is started.
pub open spec fn resident_args(
    platform: Platform,
    mft_files: Seq<Seq<char>>,
    data_dir: Option<Seq<char>>,
    drives: Seq<DriveLetter>,
    log_dir: Seq<char>,
) -> Seq<Seq<char>> {
    seq!["--no-retire"@] + daemon_mgmt::option("--data-dir"@, data_dir) + daemon_mgmt::options(
        "--mft-file"@,
        mft_files,
    ) + daemon_mgmt::options("--drive"@, drive::drive_texts(drives)) + seq![
        "--log-file"@,
        platform::joined(platform, log_dir, "uffsd.log"@),
    ]
}

/// The arguments of a daemon that is kept running.
pub fn daemon_argv(
    platform: Platform,
    mft_files: &Vec<String>,
    data_dir: &Option<String>,
    drives: &[DriveLetter],
    log_dir: &str,
) -> (res: Vec<String>)
    ensures
        text::texts(res@) == resident_args(
            platform,
            text::texts(mft_files@),
            error::shown(*data_dir),
            drives@,
            log_dir@,
        ),
{
    let mut res = strings(&["--no-retire"]);
    assert(text::texts(res@) =~= seq!["--no-retire"@]);
    push_option(&mut res, "--data-dir", data_dir);
    push_options(&mut res, "--mft-file", mft_files);
    push_options(&mut res, "--drive", &drive::show_drives(drives));
    push_line(&mut res, "--log-file".to_owned());
    push_line(&mut res, join_path(platform, log_dir, "uffsd.log"));
    assert(text::texts(res@) =~= resident_args(
        platform,
        text::texts(mft_files@),
        error::shown(*data_dir),
        drives@,
        log_dir@,
    ));
    res
}

/// What the marker holds that later starts read: the arguments, each in a line.
pub open spec fn marker_text(argv: Seq<Seq<char>>) -> Seq<char> {
    text::joined(argv, "\n"@) + "\n"@
}

/// What the marker holds.
pub fn marker_content(argv: &Vec<String>) -> (res: String)
    ensures
        res@ == marker_text(text::texts(argv@)),
{
    cat2(&join(argv, "\n"), "\n")
}

// ---- macOS ----

/// A text in an XML document.
pub open spec fn escaped(raw: Seq<char>) -> Seq<char> {
    text::replaced(
        text::replaced(text::replaced(raw, '&', "&amp;"@), '<', "&lt;"@),
        '>',
        "&gt;"@,
    )
}

/// A text in an XML document.
pub fn xml_escape(raw: &str) -> (res: String)
    ensures
        res@ == escaped(raw@),
{
    let ampersands = replace(raw, '&', "&amp;");
    let lesses = replace(&ampersands, '<', "&lt;");
    replace(&lesses, '>', "&gt;")
}

/// The elements of arguments.
pub open spec fn string_elements(args: Seq<Seq<char>>) -> Seq<char>
    decreases args.len(),
{
    if args.len() == 0 {
        Seq::empty()
    } else {
        string_elements(args.drop_last()) + ("        <string>"@ + escaped(args.last())
            + "</string>\n"@)
    }
}

/// What stands before the arguments in the description of the agent.
pub const PLIST_START: &'static str =
    "<?xml version=\"1.0\" encoding=\"UTF-8\"?>\n<!DOCTYPE plist PUBLIC \"-//Apple//DTD PLIST 1.0//EN\" \"http://www.apple.com/DTDs/PropertyList-1.0.dtd\">\n<plist version=\"1.0\">\n<dict>\n    <key>Label</key>\n    <string>com.skyllc.uffs.daemon</string>\n    <key>ProgramArguments</key>\n    <array>\n";

/// What stands behind the arguments in the description of the agent: it is started at login, and
/// again after a crash but not after a clean end.
pub const PLIST_MIDDLE: &'static str =
    "    </array>\n    <key>RunAtLoad</key>\n    <true/>\n    <key>KeepAlive</key>\n    <dict>\n        <key>SuccessfulExit</key>\n        <false/>\n    </dict>\n    <key>ThrottleInterval</key>\n    <integer>30</integer>\n    <key>StandardErrorPath</key>\n    <string>";

/// What ends the description of the agent.
pub const PLIST_END: &'static str = "</string>\n</dict>\n</plist>\n";

/// The description of the agent.
pub open spec fn plist_text(exe: Seq<char>, argv: Seq<Seq<char>>, stderr_log: Seq<char>) -> Seq<char> {
    PLIST_START@ + string_elements(seq![exe] + argv) + PLIST_MIDDLE@ + escaped(stderr_log)
        + PLIST_END@
}

/// The description of the agent.
pub fn launch_agent_plist(exe: &str, argv: &Vec<String>, stderr_log: &str) -> (res: String)
    ensures
        res@ == plist_text(exe@, text::texts(argv@), stderr_log@),
{
    let ghost args = seq![exe@] + text::texts(argv@);
    let mut arguments = cat3("        <string>", &xml_escape(exe), "</string>\n");
    let mut i: usize = 0;
    proof {
        assert(string_elements(args.take(1).drop_last()) =~= Seq::empty());
        assert(args.take(1).last() == exe@);
        assert(arguments@ =~= string_elements(args.take(1)));
    }
    while i < argv.len()
        invariant
            i <= argv@.len(),
            args == seq![exe@] + text::texts(argv@),
            arguments@ == string_elements(args.take(i + 1)),
        decreases argv@.len() - i,
    {
        let element = cat3("        <string>", &xml_escape(&argv[i]), "</string>\n");
        arguments.append(&element);
        proof {
            assert(args.take(i + 2).drop_last() =~= args.take(i + 1));
            assert(args.take(i + 2).last() == argv@[i as int]@);
        }
        i += 1;
    }
    assert(args.take(i + 1) =~= args);
    cat5(PLIST_START, &arguments, PLIST_MIDDLE, &xml_escape(stderr_log), PLIST_END)
}

/// Where the description of the agent is kept.
pub open spec fn plist_place(home: Seq<char>) -> Seq<char> {
    platform::joined(
        Platform::MacOs,
        platform::joined(Platform::MacOs, home, "Library/LaunchAgents"@),
        "com.skyllc.uffs.daemon.plist"@,
    )
}

/// Where the description of the agent is kept.
pub fn plist_path(home: &Option<String>) -> (res: Result<String, CliError>)
    ensures
        match *home {
            Some(home) => res is Ok && res->Ok_0@ == plist_place(home@),
            None => res is Err && res->Err_0@ == error::plain("HOME is not set"@),
        },
{
    match home {
        Some(home) => Ok(
            join_path(
                Platform::MacOs,
                &join_path(Platform::MacOs, home, "Library/LaunchAgents"),
                "com.skyllc.uffs.daemon.plist",
            ),
        ),
        None => Err(fail("HOME is not set".to_owned())),
    }
}

/// Where the agent writes its errors, in the directory of logs.
pub fn stderr_log(log_dir: &str) -> (res: String)
    ensures
        res@ == platform::joined(Platform::MacOs, log_dir@, "uffsd.launchd.err.log"@),
{
    join_path(Platform::MacOs, log_dir, "uffsd.launchd.err.log")
}

/// The domain of the agent, by the number of the user as a tool tells it.
pub fn gui_domain(uid: &str) -> (res: String)
    ensures
        res@ == "gui/"@ + text::trimmed(uid@),
{
    cat2("gui/", &trim(uid))
}

// ---- Windows ----

/// Whether a text holds white space.
pub open spec fn spaced(value: Seq<char>) -> bool {
    exists|i: int| 0 <= i < value.len() && #[trigger] text::is_space(value[i])
}

/// An argument in quotes, if it holds white space.
pub open spec fn run_part(arg: Seq<char>) -> Seq<char> {
    if spaced(arg) {
        "\""@ + arg + "\""@
    } else {
        arg
    }
}

/// The command line that is started at login: the executable in quotes, each argument in quotes if
/// it holds white space.
pub open spec fn run_line(exe: Seq<char>, argv: Seq<Seq<char>>) -> Seq<char> {
    text::joined(
        seq!["\""@ + exe + "\""@] + argv.map_values(|arg: Seq<char>| run_part(arg)),
        " "@,
    )
}

/// The command line that is started at login.
pub fn run_command_line(exe: &str, argv: &Vec<String>) -> (res: String)
    ensures
        res@ == run_line(exe@, text::texts(argv@)),
{
    let ghost wanted = seq!["\""@ + exe@ + "\""@] + text::texts(argv@).map_values(
        |arg: Seq<char>| run_part(arg),
    );
    let mut parts: Vec<String> = Vec::new();
    assert(text::texts(parts@) =~= Seq::empty());
    push_line(&mut parts, cat3("\"", exe, "\""));
    let mut i: usize = 0;
    assert(text::texts(parts@) =~= wanted.take(1));
    while i < argv.len()
        invariant
            i <= argv@.len(),
            wanted == seq!["\""@ + exe@ + "\""@] + text::texts(argv@).map_values(
                |arg: Seq<char>| run_part(arg),
            ),
            text::texts(parts@) == wanted.take(i + 1),
        decreases argv@.len() - i,
    {
        let arg = &argv[i];
        assert(wanted[i + 1] == run_part(arg@));
        if has_whitespace(arg) {
            push_line(&mut parts, cat3("\"", arg, "\""));
        } else {
            push_line(&mut parts, arg.clone());
        }
        assert(text::texts(parts@) =~= wanted.take(i + 2));
        i += 1;
    }
    assert(wanted.take(i + 1) =~= wanted);
    join(&parts, " ")
}

// ---- Linux ----

/// The command of the unit: every part in quotes.
pub open spec fn exec_text(exe: Seq<char>, argv: Seq<Seq<char>>) -> Seq<char> {
    text::joined((seq![exe] + argv).map_values(|token: Seq<char>| "\""@ + token + "\""@), " "@)
}

/// The unit: it is started at login, and again after a crash but not after a clean end.
pub open spec fn unit_text(exe: Seq<char>, argv: Seq<Seq<char>>) -> Seq<char> {
    "[Unit]\nDescription=UFFS resident search daemon\n\n[Service]\nExecStart="@ + exec_text(exe, argv)
        + "\nRestart=on-failure\nRestartSec=10\n\n[Install]\nWantedBy=default.target\n"@
}

/// The unit.
pub fn systemd_unit(exe: &str, argv: &Vec<String>) -> (res: String)
    ensures
        res@ == unit_text(exe@, text::texts(argv@)),
{
    let ghost wanted = (seq![exe@] + text::texts(argv@)).map_values(
        |token: Seq<char>| "\""@ + token + "\""@,
    );
    let mut parts: Vec<String> = Vec::new();
    assert(text::texts(parts@) =~= Seq::empty());
    push_line(&mut parts, cat3("\"", exe, "\""));
    let mut i: usize = 0;
    assert(text::texts(parts@) =~= wanted.take(1));
    while i < argv.len()
        invariant
            i <= argv@.len(),
            wanted == (seq![exe@] + text::texts(argv@)).map_values(
                |token: Seq<char>| "\""@ + token + "\""@,
            ),
            text::texts(parts@) == wanted.take(i + 1),
        decreases argv@.len() - i,
    {
        push_line(&mut parts, cat3("\"", &argv[i], "\""));
        proof {
            assert(wanted[i + 1] == "\""@ + argv@[i as int]@ + "\""@);
            assert(text::texts(parts@) =~= wanted.take(i + 2));
        }
        i += 1;
    }
    assert(wanted.take(i + 1) =~= wanted);
    cat3(
        "[Unit]\nDescription=UFFS resident search daemon\n\n[Service]\nExecStart=",
        &join(&parts, " "),
        "\nRestart=on-failure\nRestartSec=10\n\n[Install]\nWantedBy=default.target\n",
    )
}

/// Where the unit is kept, by the directory of settings.
pub open spec fn unit_place(base: Seq<char>) -> Seq<char> {
    platform::joined(
        Platform::Unix,
        platform::joined(Platform::Unix, base, "systemd/user"@),
        UNIT@,
    )
}

/// Where the unit is kept.
pub fn unit_path(xdg_config_home: &Option<String>, home: &Option<String>) -> (res: Result<
    String,
    CliError,
>)
    ensures
        match (*xdg_config_home, *home) {
            (Some(base), _) => res is Ok && res->Ok_0@ == unit_place(base@),
            (None, Some(home)) => res is Ok && res->Ok_0@ == unit_place(
                platform::joined(Platform::Unix, home@, ".config"@),
            ),
            (None, None) => res is Err && res->Err_0@ == error::plain(
                "neither XDG_CONFIG_HOME nor HOME is set"@,
            ),
        },
{
    let base = match xdg_config_home {
        Some(base) => base.clone(),
        None => match home {
            Some(home) => join_path(Platform::Unix, home, ".config"),
            None => {
                return Err(fail("neither XDG_CONFIG_HOME nor HOME is set".to_owned()));
            },
        },
    };
    Ok(join_path(Platform::Unix, &join_path(Platform::Unix, &base, "systemd/user"), UNIT))
}

// ---- steps ----

/// A step of turning residency on or off.
#[derive(Debug)]
pub enum ResidentStep {
    /// Write a file, with the directories it lies in.
    WriteFile {
        /// The file.
        path: String,
        /// Its contents.
        content: String,
    },
    /// Remove a file.
    RemoveFile(String),
    /// Run a tool, which must succeed.
    Run {
        /// The tool.
        program: &'static str,
        /// Its arguments.
        args: Vec<String>,
    },
    /// Run a tool, which may fail.
    TryRun {
        /// The tool.
        program: &'static str,
        /// Its arguments.
        args: Vec<String>,
    },
    /// Start the daemon and wait until it is ready.
    StartDaemon,
    /// Tell something.
    Tell(String),
}

/// The contents of a [`ResidentStep`].
#[verifier::ext_equal]
pub enum StepView {
    /// Write a file.
    WriteFile(Seq<char>, Seq<char>),
    /// Remove a file.
    RemoveFile(Seq<char>),
    /// Run a tool, which must succeed.
    Run(Seq<char>, Seq<Seq<char>>),
    /// Run a tool, which may fail.
    TryRun(Seq<char>, Seq<Seq<char>>),
    /// Start the daemon.
    StartDaemon,
    /// Tell something.
    Tell(Seq<char>),
}

impl View for ResidentStep {
    type V = StepView;

    open spec fn view(&self) -> StepView {
        match *self {
            ResidentStep::WriteFile { path, content } => StepView::WriteFile(path@, content@),
            ResidentStep::RemoveFile(path) => StepView::RemoveFile(path@),
            ResidentStep::Run { program, args } => StepView::Run(program@, text::texts(args@)),
            ResidentStep::TryRun { program, args } => StepView::TryRun(
                program@,
                text::texts(args@),
            ),
            ResidentStep::StartDaemon => StepView::StartDaemon,
            ResidentStep::Tell(text) => StepView::Tell(text@),
        }
    }
}

/// The contents of steps.
pub open spec fn step_views(steps: Seq<ResidentStep>) -> Seq<StepView> {
    steps.map_values(|step: ResidentStep| step@)
}

fn push_step(out: &mut Vec<ResidentStep>, step: ResidentStep)
    ensures
        step_views(final(out)@) == step_views(old(out)@).push(step@),
{
    let ghost before = step_views(out@);
    out.push(step);
    assert(step_views(out@) =~= before.push(step@));
}

/// What is told when a daemon runs already; `manager` says who will take over.
pub open spec fn untouched_text(manager: Seq<char>) -> Seq<char> {
    "A daemon is already running; leaving it untouched.\nThe resident "@ + manager
        + " takes over at next login,\nor right away after: uffs --daemon stop && uffs --daemon resident on"@
}

fn untouched(manager: &str) -> (res: String)
    ensures
        res@ == untouched_text(manager@),
{
    cat3(
        "A daemon is already running; leaving it untouched.\nThe resident ",
        manager,
        " takes over at next login,\nor right away after: uffs --daemon stop && uffs --daemon resident on",
    )
}

/// The place of the login item on Windows.
pub open spec fn run_place() -> Seq<char> {
    RUN_KEY@ + "\\"@ + RUN_VALUE@
}

/// The place of the login item on Windows.
pub fn run_item() -> (res: String)
    ensures
        res@ == run_place(),
{
    cat3(RUN_KEY, "\\", RUN_VALUE)
}

/// What turning residency on takes on Windows.
pub open spec fn windows_on(exe: Seq<char>, argv: Seq<Seq<char>>, running: bool) -> Seq<StepView> {
    seq![
        StepView::Run(
            "reg"@,
            seq![
                "add"@,
                RUN_KEY@,
                "/v"@,
                RUN_VALUE@,
                "/t"@,
                "REG_SZ"@,
                "/d"@,
                run_line(exe, argv),
                "/f"@,
            ],
        ),
        StepView::Tell("Login item installed: "@ + run_place()),
    ] + if running {
        seq![StepView::Tell(untouched_text("configuration"@))]
    } else {
        seq![
            StepView::Tell("Starting resident daemon..."@),
            StepView::StartDaemon,
            StepView::Tell("Resident daemon started and ready."@),
        ]
    }
}

/// What turning residency on takes on Windows.
pub fn turn_on_windows(exe: &str, argv: &Vec<String>, running: bool) -> (res: Vec<ResidentStep>)
    ensures
        step_views(res@) == windows_on(exe@, text::texts(argv@), running),
{
    let line = run_command_line(exe, argv);
    let args = strings(
        &["add", RUN_KEY, "/v", RUN_VALUE, "/t", "REG_SZ", "/d", line.as_str(), "/f"],
    );
    assert(text::texts(args@) =~= seq![
        "add"@,
        RUN_KEY@,
        "/v"@,
        RUN_VALUE@,
        "/t"@,
        "REG_SZ"@,
        "/d"@,
        line@,
        "/f"@,
    ]);
    let mut res: Vec<ResidentStep> = Vec::new();
    assert(step_views(res@) =~= Seq::empty());
    push_step(&mut res, ResidentStep::Run { program: "reg", args });
    let place = run_item();
    push_step(&mut res, ResidentStep::Tell(cat2("Login item installed: ", &place)));
    if running {
        push_step(&mut res, ResidentStep::Tell(untouched("configuration")));
    } else {
        push_step(&mut res, ResidentStep::Tell("Starting resident daemon...".to_owned()));
        push_step(&mut res, ResidentStep::StartDaemon);
        push_step(
            &mut res,
            ResidentStep::Tell("Resident daemon started and ready.".to_owned()),
        );
    }
    assert(step_views(res@) =~= windows_on(exe@, text::texts(argv@), running));
    res
}

/// What turning residency on takes on macOS.
pub open spec fn macos_on(
    plist: Seq<char>,
    content: Seq<char>,
    domain: Seq<char>,
    running: bool,
) -> Seq<StepView> {
    seq![
        StepView::WriteFile(plist, content),
        StepView::Tell("Login item installed: "@ + plist),
    ] + if running {
        seq![StepView::Tell(untouched_text("(launchd-managed) daemon"@))]
    } else {
        seq![
            StepView::TryRun("launchctl"@, seq!["bootout"@, domain + "/"@ + LABEL@]),
            StepView::Run("launchctl"@, seq!["bootstrap"@, domain, plist]),
            StepView::Tell("Resident daemon started (launchd-managed)."@),
        ]
    }
}

/// What turning residency on takes on macOS; `domain` is that of [`gui_domain`].
pub fn turn_on_macos(
    exe: &str,
    argv: &Vec<String>,
    plist: &str,
    stderr_log: &str,
    domain: &str,
    running: bool,
) -> (res: Vec<ResidentStep>)
    ensures
        step_views(res@) == macos_on(
            plist@,
            plist_text(exe@, text::texts(argv@), stderr_log@),
            domain@,
            running,
        ),
{
    let content = launch_agent_plist(exe, argv, stderr_log);
    let ghost wanted = macos_on(plist@, content@, domain@, running);
    let mut res: Vec<ResidentStep> = Vec::new();
    assert(step_views(res@) =~= Seq::empty());
    push_step(&mut res, ResidentStep::WriteFile { path: plist.to_owned(), content });
    push_step(&mut res, ResidentStep::Tell(cat2("Login item installed: ", plist)));
    if running {
        push_step(&mut res, ResidentStep::Tell(untouched("(launchd-managed) daemon")));
    } else {
        let service = cat3(domain, "/", LABEL);
        let out = strings(&["bootout", service.as_str()]);
        assert(text::texts(out@) =~= seq!["bootout"@, service@]);
        push_step(&mut res, ResidentStep::TryRun { program: "launchctl", args: out });
        let load = strings(&["bootstrap", domain, plist]);
        assert(text::texts(load@) =~= seq!["bootstrap"@, domain@, plist@]);
        push_step(&mut res, ResidentStep::Run { program: "launchctl", args: load });
        push_step(
            &mut res,
            ResidentStep::Tell("Resident daemon started (launchd-managed).".to_owned()),
        );
    }
    assert(step_views(res@) =~= wanted);
    res
}

/// What turning residency on takes on Linux.
pub open spec fn linux_on(unit: Seq<char>, content: Seq<char>, running: bool) -> Seq<StepView> {
    seq![
        StepView::WriteFile(unit, content),
        StepView::Run("systemctl"@, seq!["--user"@, "daemon-reload"@]),
        StepView::Run("systemctl"@, seq!["--user"@, "enable"@, UNIT@]),
        StepView::Tell("Login item installed: "@ + unit),
    ] + if running {
        seq![StepView::Tell(untouched_text("(systemd-managed) daemon"@))]
    } else {
        seq![
            StepView::Run("systemctl"@, seq!["--user"@, "start"@, UNIT@]),
            StepView::Tell("Resident daemon started (systemd-managed)."@),
        ]
    }
}

fn user_unit_args(verb: &str) -> (res: Vec<String>)
    ensures
        text::texts(res@) == seq!["--user"@, verb@, UNIT@],
{
    let res = strings(&["--user", verb, UNIT]);
    assert(text::texts(res@) =~= seq!["--user"@, verb@, UNIT@]);
    res
}

fn reload_args() -> (res: Vec<String>)
    ensures
        text::texts(res@) == seq!["--user"@, "daemon-reload"@],
{
    let res = strings(&["--user", "daemon-reload"]);
    assert(text::texts(res@) =~= seq!["--user"@, "daemon-reload"@]);
    res
}

/// What turning residency on takes on Linux.
pub fn turn_on_linux(exe: &str, argv: &Vec<String>, unit: &str, running: bool) -> (res: Vec<
    ResidentStep,
>)
    ensures
        step_views(res@) == linux_on(unit@, unit_text(exe@, text::texts(argv@)), running),
{
    let content = systemd_unit(exe, argv);
    let ghost wanted = linux_on(unit@, content@, running);
    let mut res: Vec<ResidentStep> = Vec::new();
    assert(step_views(res@) =~= Seq::empty());
    push_step(&mut res, ResidentStep::WriteFile { path: unit.to_owned(), content });
    push_step(&mut res, ResidentStep::Run { program: "systemctl", args: reload_args() });
    push_step(&mut res, ResidentStep::Run { program: "systemctl", args: user_unit_args("enable") });
    push_step(&mut res, ResidentStep::Tell(cat2("Login item installed: ", unit)));
    if running {
        push_step(&mut res, ResidentStep::Tell(untouched("(systemd-managed) daemon")));
    } else {
        push_step(
            &mut res,
            ResidentStep::Run { program: "systemctl", args: user_unit_args("start") },
        );
        push_step(
            &mut res,
            ResidentStep::Tell("Resident daemon started (systemd-managed).".to_owned()),
        );
    }
    assert(step_views(res@) =~= wanted);
    res
}

/// What turning residency off takes: `item` is the place of the login item, `installed` whether it
/// is there, `domain` that of the agent on macOS, if it is known.
pub open spec fn off_steps(
    platform: Platform,
    item: Seq<char>,
    installed: bool,
    domain: Option<Seq<char>>,
) -> Seq<StepView> {
    let none = seq![StepView::Tell("No login item installed."@)];
    let gone = StepView::Tell("Login item removed: "@ + item);
    match platform {
        Platform::Windows => if installed {
            seq![
                StepView::Run("reg"@, seq!["delete"@, RUN_KEY@, "/v"@, RUN_VALUE@, "/f"@]),
                gone,
            ]
        } else {
            none
        },
        Platform::MacOs => (match domain {
            Some(domain) => seq![
                StepView::TryRun("launchctl"@, seq!["bootout"@, domain + "/"@ + LABEL@]),
            ],
            None => Seq::empty(),
        }) + if installed {
            seq![StepView::RemoveFile(item), gone]
        } else {
            none
        },
        _ => if installed {
            seq![
                StepView::TryRun("systemctl"@, seq!["--user"@, "disable"@, UNIT@]),
                StepView::RemoveFile(item),
                StepView::TryRun("systemctl"@, seq!["--user"@, "daemon-reload"@]),
                gone,
            ]
        } else {
            none
        },
    }
}

/// Why residency cannot be turned on or off on a platform, if so.
pub fn unsupported(platform: Platform) -> (res: Option<CliError>)
    ensures
        platform == Platform::Other <==> res is Some,
        res is Some ==> res->Some_0@ == error::plain(
            "resident mode is not supported on this platform"@,
        ),
{
    match platform {
        Platform::Other => Some(
            fail("resident mode is not supported on this platform".to_owned()),
        ),
        _ => None,
    }
}

/// What turning residency off takes.
pub fn turn_off(
    platform: Platform,
    item: &str,
    installed: bool,
    domain: &Option<String>,
) -> (res: Vec<ResidentStep>)
    ensures
        step_views(res@) == off_steps(platform, item@, installed, error::shown(*domain)),
{
    let ghost wanted = off_steps(platform, item@, installed, error::shown(*domain));
    let mut res: Vec<ResidentStep> = Vec::new();
    assert(step_views(res@) =~= Seq::empty());
    if platform == Platform::MacOs {
        if let Some(domain) = domain {
            let service = cat3(domain, "/", LABEL);
            let out = strings(&["bootout", service.as_str()]);
            assert(text::texts(out@) =~= seq!["bootout"@, service@]);
            push_step(&mut res, ResidentStep::TryRun { program: "launchctl", args: out });
        }
    }
    if !installed {
        push_step(&mut res, ResidentStep::Tell("No login item installed.".to_owned()));
        assert(step_views(res@) =~= wanted);
        return res;
    }
    match platform {
        Platform::Windows => {
            let args = strings(&["delete", RUN_KEY, "/v", RUN_VALUE, "/f"]);
            assert(text::texts(args@) =~= seq!["delete"@, RUN_KEY@, "/v"@, RUN_VALUE@, "/f"@]);
            push_step(&mut res, ResidentStep::Run { program: "reg", args });
        },
        Platform::MacOs => push_step(&mut res, ResidentStep::RemoveFile(item.to_owned())),
        _ => {
            push_step(
                &mut res,
                ResidentStep::TryRun { program: "systemctl", args: user_unit_args("disable") },
            );
            push_step(&mut res, ResidentStep::RemoveFile(item.to_owned()));
            push_step(
                &mut res,
                ResidentStep::TryRun { program: "systemctl", args: reload_args() },
            );
        },
    }
    push_step(&mut res, ResidentStep::Tell(cat2("Login item removed: ", item)));
    assert(step_views(res@) =~= wanted);
    res
}

// ---- what is told ----

/// What is told once residency is on.
pub const ON_NOTE: &'static str =
    "\nUFFS is now resident: uffsd starts at login with --no-retire\n(never exits on idle; memory tiering still parks unused drives),\nand every auto-started daemon inherits the resident lifetime.\nUndo with: uffs --daemon resident off";

/// What is told once residency is off and a daemon still runs.
pub const STILL_RUNNING_NOTE: &'static str =
    "A daemon is still running; it is unaffected.\nStop it with: uffs --daemon stop";

/// What is told about the state of residency.
pub open spec fn status_text(item: Option<Seq<char>>, marker: bool, running: bool) -> Seq<Seq<char>> {
    seq![
        match item {
            Some(item) => "Login item:  installed ("@ + item + ")"@,
            None => "Login item:  not installed"@,
        },
        if marker {
            "Auto-spawn:  resident (revived daemons keep --no-retire)"@
        } else {
            "Auto-spawn:  default (idle retire)"@
        },
        if running {
            "Daemon:      running (details: uffs --daemon status)"@
        } else {
            "Daemon:      not running"@
        },
    ]
}

/// What is told about the state of residency.
pub fn resident_status(item: &Option<String>, marker: bool, running: bool) -> (res: Vec<String>)
    ensures
        text::texts(res@) == status_text(error::shown(*item), marker, running),
{
    let mut res: Vec<String> = Vec::new();
    assert(text::texts(res@) =~= Seq::empty());
    match item {
        Some(item) => push_line(&mut res, cat3("Login item:  installed (", item, ")")),
        None => push_line(&mut res, "Login item:  not installed".to_owned()),
    }
    let spawn = if marker {
        "Auto-spawn:  resident (revived daemons keep --no-retire)"
    } else {
        "Auto-spawn:  default (idle retire)"
    };
    push_line(&mut res, spawn.to_owned());
    let daemon = if running {
        "Daemon:      running (details: uffs --daemon status)"
    } else {
        "Daemon:      not running"
    };
    push_line(&mut res, daemon.to_owned());
    assert(text::texts(res@) =~= status_text(error::shown(*item), marker, running));
    res
}

/// What is told when a tool failed.
pub fn tool_failure(program: &str, args: &Vec<String>, stderr: &str) -> (res: CliError)
    ensures
        res@ == error::plain(
            program@ + " "@ + text::joined(text::texts(args@), " "@) + " failed: "@
                + text::trimmed(stderr@),
        ),
{
    fail(cat5(program, " ", &join(args, " "), " failed: ", &trim(stderr)))
}

/// What is told when the executable of the daemon is not found.
pub fn exe_not_found(exe: &str) -> (res: String)
    ensures
        res@ == "Cannot locate the daemon binary ("@ + exe@
            + ").\nInstall uffsd next to uffs, or add it to PATH."@,
{
    cat3(
        "Cannot locate the daemon binary (",
        exe,
        ").\nInstall uffsd next to uffs, or add it to PATH.",
    )
}

// ---- laws ----

/// Whether a text holds a character.
pub open spec fn holds(value: Seq<char>, c: char) -> bool {
    exists|i: int| 0 <= i < value.len() && #[trigger] value[i] == c
}

proof fn lemma_split_plain(value: Seq<char>, c: char)
    requires
        !holds(value, c),
    ensures
        text::split_at_char(value, c) == seq![value],
    decreases value.len(),
{
    if value.len() == 0 {
        assert(value =~= Seq::empty());
    } else {
        assert(value.last() == value[value.len() - 1]);
        assert forall|i: int| 0 <= i < value.drop_last().len() implies #[trigger] value.drop_last()[i]
            != c by {
            assert(value[i] != c);
        }
        lemma_split_plain(value.drop_last(), c);
        assert(value.drop_last().push(value.last()) =~= value);
        assert(seq![value.drop_last()].drop_last().push(value) =~= seq![value]);
    }
}

proof fn lemma_split_append(before: Seq<char>, value: Seq<char>, c: char)
    requires
        !holds(value, c),
    ensures
        text::split_at_char(before + seq![c] + value, c) == text::split_at_char(before, c).push(
            value,
        ),
    decreases value.len(),
{
    let all = before + seq![c] + value;
    if value.len() == 0 {
        assert(all.drop_last() =~= before);
        assert(all.last() == c);
        assert(value =~= Seq::empty());
    } else {
        let rest = value.drop_last();
        assert(value.last() == value[value.len() - 1]);
        assert forall|i: int| 0 <= i < rest.len() implies #[trigger] rest[i] != c by {
            assert(value[i] != c);
        }
        lemma_split_append(before, rest, c);
        assert(all.drop_last() =~= before + seq![c] + rest);
        assert(all.last() == value.last());
        assert(rest.push(value.last()) =~= value);
        let pieces = text::split_at_char(before, c);
        assert(pieces.push(rest).drop_last() =~= pieces);
    }
}

/// The lines of a marker are the arguments, if no argument holds a line break.
pub proof fn law_marker_lines_are_the_arguments(argv: Seq<Seq<char>>)
    requires
        argv.len() > 0,
        forall|i: int| 0 <= i < argv.len() ==> !holds(#[trigger] argv[i], '\n'),
    ensures
        text::split_at_char(marker_text(argv), '\n') == argv.push(Seq::empty()),
{
    reveal_strlit("\n");
    lemma_joined_lines(argv);
    let text = text::joined(argv, "\n"@);
    assert(marker_text(argv) =~= text + seq!['\n'] + Seq::empty());
    lemma_split_append(text, Seq::empty(), '\n');
}

proof fn lemma_joined_lines(argv: Seq<Seq<char>>)
    requires
        argv.len() > 0,
        forall|i: int| 0 <= i < argv.len() ==> !holds(#[trigger] argv[i], '\n'),
    ensures
        text::split_at_char(text::joined(argv, "\n"@), '\n') == argv,
    decreases argv.len(),
{
    reveal_strlit("\n");
    if argv.len() == 1 {
        lemma_split_plain(argv[0], '\n');
        assert(argv =~= seq![argv[0]]);
    } else {
        let before = argv.drop_last();
        assert forall|i: int| 0 <= i < before.len() implies !holds(#[trigger] before[i], '\n') by {
            assert(before[i] == argv[i]);
        }
        assert(argv.last() == argv[argv.len() - 1]);
        lemma_joined_lines(before);
        assert("\n"@ =~= seq!['\n']);
        lemma_split_append(text::joined(before, "\n"@), argv.last(), '\n');
        assert(argv =~= before.push(argv.last()));
    }
}

proof fn lemma_replaced(value: Seq<char>, from: char, to: Seq<char>, c: char)
    requires
        !holds(to, c),
        c == from || !holds(value, c),
    ensures
        !holds(text::replaced(value, from, to), c),
    decreases value.len(),
{
    if value.len() > 0 {
        let rest = value.drop_last();
        if c != from {
            assert forall|i: int| 0 <= i < rest.len() implies #[trigger] rest[i] != c by {
                assert(value[i] != c);
            }
            assert(value[value.len() - 1] != c);
        }
        lemma_replaced(rest, from, to, c);
        let before = text::replaced(rest, from, to);
        let after = text::replaced(value, from, to);
        assert forall|i: int| 0 <= i < after.len() implies #[trigger] after[i] != c by {
            if i < before.len() {
                assert(after[i] == before[i]);
            } else if value.last() == from {
                assert(after[i] == to[i - before.len()]);
            }
        }
    }
}

/// A text in an XML document opens and closes no element.
pub proof fn law_escaped_text_has_no_brackets(raw: Seq<char>)
    ensures
        !holds(escaped(raw), '<'),
        !holds(escaped(raw), '>'),
{
    reveal_strlit("&amp;");
    reveal_strlit("&lt;");
    reveal_strlit("&gt;");
    let first = text::replaced(raw, '&', "&amp;"@);
    let second = text::replaced(first, '<', "&lt;"@);
    lemma_replaced(first, '<', "&lt;"@, '<');
    lemma_replaced(second, '>', "&gt;"@, '<');
    lemma_replaced(second, '>', "&gt;"@, '>');
}

/// The arguments of a daemon that is kept running begin by saying that it never ends for want of
/// work.
pub proof fn law_resident_daemons_never_retire(
    platform: Platform,
    mft_files: Seq<Seq<char>>,
    data_dir: Option<Seq<char>>,
    drives: Seq<DriveLetter>,
    log_dir: Seq<char>,
)
    ensures
        resident_args(platform, mft_files, data_dir, drives, log_dir).len() >= 3,
        resident_args(platform, mft_files, data_dir, drives, log_dir)[0] == "--no-retire"@,
{
}

/// A daemon that is kept running is handed what was asked for, each option with its own value, behind
/// the word that it never ends for want of work; and it logs to a file of its own in the log
/// directory.
pub proof fn law_a_resident_daemon_is_started_as_asked(
    platform: Platform,
    mft_files: &Vec<String>,
    data_dir: &Option<String>,
    drives: &[DriveLetter],
    log_dir: &str,
    res: Vec<String>,
    k: int,
)
    requires
        call_ensures(daemon_argv, (platform, mft_files, data_dir, drives, log_dir), res),
    ensures
        ({
            let files_at = if *data_dir is Some { 3int } else { 1 };
            let drives_at = files_at + 2 * mft_files@.len();
            let file_at = drives_at + 2 * drives@.len();
            &&& res@.len() == file_at + 2
            &&& res@[0]@ == "--no-retire"@
            &&& data_dir matches Some(dir) ==> res@[1]@ == "--data-dir"@ && res@[2]@ == dir@
            &&& 0 <= k < mft_files@.len() ==> res@[files_at + 2 * k]@ == "--mft-file"@
                && res@[files_at + 2 * k + 1]@ == mft_files@[k]@
            &&& 0 <= k < drives@.len() ==> res@[drives_at + 2 * k]@ == "--drive"@
                && res@[drives_at + 2 * k + 1]@ == seq![drives@[k].letter()]
            &&& res@[file_at]@ == "--log-file"@
            &&& res@[file_at + 1]@ == platform::joined(platform, log_dir@, "uffsd.log"@)
        }),
{
    let files = text::texts(mft_files@);
    let letters = drive::drive_texts(drives@);
    daemon_mgmt::lemma_options("--mft-file"@, files, k);
    daemon_mgmt::lemma_options("--drive"@, letters, k);
    assert(files.len() == mft_files@.len());
    assert(letters.len() == drives@.len());
    if 0 <= k < files.len() {
        assert(files[k] == mft_files@[k]@);
    }
    if 0 <= k < letters.len() {
        assert(letters[k] == seq![drives@[k].letter()]);
    }
    let p0 = seq!["--no-retire"@];
    let p1 = daemon_mgmt::option("--data-dir"@, error::shown(*data_dir));
    let p2 = daemon_mgmt::options("--mft-file"@, files);
    let p3 = daemon_mgmt::options("--drive"@, letters);
    let p4 = seq!["--log-file"@, platform::joined(platform, log_dir@, "uffsd.log"@)];
    let list = text::texts(res@);
    assert(list == p0 + p1 + p2 + p3 + p4);
    assert(list.len() == res@.len());
    assert(forall|i: int| 0 <= i < res@.len() ==> #[trigger] list[i] == res@[i]@);
    let files_at = 1 + p1.len() as int;
    let drives_at = files_at + p2.len();
    let file_at = drives_at + p3.len();
    assert(list[0] == p0[0]);
    if *data_dir is Some {
        assert(list[1] == p1[0] && list[2] == p1[1]);
    }
    if 0 <= k < files.len() {
        assert(list[files_at + 2 * k] == p2[2 * k]);
        assert(list[files_at + 2 * k + 1] == p2[2 * k + 1]);
    }
    if 0 <= k < letters.len() {
        assert(list[drives_at + 2 * k] == p3[2 * k]);
        assert(list[drives_at + 2 * k + 1] == p3[2 * k + 1]);
    }
    assert(list[file_at] == p4[0] && list[file_at + 1] == p4[1]);
}

/// In an XML document a text stands character by character as it is, but for the three that have a
/// meaning there, each of which stands as its own name.
pub proof fn law_escaping_goes_by_character(a: Seq<char>, b: Seq<char>, c: char)
    ensures
        escaped(a + b) == escaped(a) + escaped(b),
        escaped(seq![c]) == (if c == '&' {
            "&amp;"@
        } else if c == '<' {
            "&lt;"@
        } else if c == '>' {
            "&gt;"@
        } else {
            seq![c]
        }),
        escaped(Seq::empty()) == Seq::<char>::empty(),
{
    let a1 = text::replaced(a, '&', "&amp;"@);
    let b1 = text::replaced(b, '&', "&amp;"@);
    let a2 = text::replaced(a1, '<', "&lt;"@);
    let b2 = text::replaced(b1, '<', "&lt;"@);
    text::law_replacing_goes_by_character(a, b, c, '&', "&amp;"@);
    text::law_replacing_goes_by_character(a1, b1, c, '<', "&lt;"@);
    text::law_replacing_goes_by_character(a2, b2, c, '>', "&gt;"@);
    text::law_replacing_goes_by_character(a, b, c, '<', "&lt;"@);
    text::law_replacing_goes_by_character(a, b, c, '>', "&gt;"@);
    lemma_names_stand();
}

/// The names of the characters are changed by no later step.
proof fn lemma_names_stand()
    ensures
        text::replaced("&amp;"@, '<', "&lt;"@) == "&amp;"@,
        text::replaced("&amp;"@, '>', "&gt;"@) == "&amp;"@,
        text::replaced("&lt;"@, '>', "&gt;"@) == "&lt;"@,
{
    reveal_strlit("&amp;");
    reveal_strlit("&lt;");
    lemma_unreplaced("&amp;"@, '<', "&lt;"@);
    lemma_unreplaced("&amp;"@, '>', "&gt;"@);
    lemma_unreplaced("&lt;"@, '>', "&gt;"@);
}

proof fn lemma_unreplaced(value: Seq<char>, from: char, to: Seq<char>)
    requires
        forall|k: int| 0 <= k < value.len() ==> #[trigger] value[k] != from,
    ensures
        text::replaced(value, from, to) == value,
    decreases value.len(),
{
    if value.len() > 0 {
        let rest = value.drop_last();
        assert forall|k: int| 0 <= k < rest.len() implies #[trigger] rest[k] != from by {
            assert(rest[k] == value[k]);
        }
        lemma_unreplaced(rest, from, to);
        assert(value.last() == value[value.len() - 1]);
        assert(rest + seq![value.last()] =~= value);
    } else {
        assert(value =~= Seq::empty());
    }
    assert(text::replaced(value, from, to) =~= value);
}

/// The program and its arguments stand in a launch agent one after the other, each in an element of
/// its own, between the parts that are always the same; and what goes wrong goes to the given file.
pub proof fn law_a_launch_agent_holds_the_arguments(
    exe: &str,
    argv: &Vec<String>,
    stderr_log: &str,
    res: String,
    a: Seq<Seq<char>>,
    b: Seq<Seq<char>>,
    one: Seq<char>,
)
    requires
        call_ensures(launch_agent_plist, (exe, argv, stderr_log), res),
    ensures
        res@ == PLIST_START@ + (("        <string>"@ + escaped(exe@) + "</string>\n"@)
            + string_elements(text::texts(argv@))) + PLIST_MIDDLE@ + escaped(stderr_log@)
            + PLIST_END@,
        string_elements(a + b) == string_elements(a) + string_elements(b),
        string_elements(seq![one]) == "        <string>"@ + escaped(one) + "</string>\n"@,
    decreases b.len(),
{
    lemma_elements(seq![exe@], text::texts(argv@), exe@);
    lemma_elements(a, b, one);
}

proof fn lemma_elements(a: Seq<Seq<char>>, b: Seq<Seq<char>>, one: Seq<char>)
    ensures
        string_elements(a + b) == string_elements(a) + string_elements(b),
        string_elements(seq![one]) == "        <string>"@ + escaped(one) + "</string>\n"@,
    decreases b.len(),
{
    reveal_with_fuel(string_elements, 2);
    assert(seq![one].drop_last() =~= Seq::empty());
    assert(string_elements(seq![one]) =~= "        <string>"@ + escaped(one) + "</string>\n"@);
    if b.len() == 0 {
        assert(a + b =~= a);
        assert(string_elements(a + b) =~= string_elements(a) + string_elements(b));
    } else {
        lemma_elements(a, b.drop_last(), one);
        assert((a + b).drop_last() =~= a + b.drop_last());
        assert((a + b).last() == b.last());
        assert(string_elements(a + b) =~= string_elements(a) + string_elements(b));
    }
}

/// The line of a login item on Windows is the program in quotes and then every argument in its
/// order, with a blank before each: one with white space in it in quotes, any other as it is.
pub proof fn law_the_line_of_a_login_item(
    exe: &str,
    argv: &Vec<String>,
    more: &Vec<String>,
    last: Seq<char>,
    one: String,
    both: String,
)
    requires
        call_ensures(run_command_line, (exe, argv), one),
        call_ensures(run_command_line, (exe, more), both),
        text::texts(more@) == text::texts(argv@).push(last),
    ensures
        argv@.len() == 0 ==> one@ == "\""@ + exe@ + "\""@,
        both@ == one@ + " "@ + (if exists|k: int| 0 <= k < last.len() && text::is_space(#[trigger] last[k]) {
            "\""@ + last + "\""@
        } else {
            last
        }),
{
    let part = |arg: Seq<char>| run_part(arg);
    let head = seq!["\""@ + exe@ + "\""@];
    let list = head + text::texts(argv@).map_values(part);
    let longer = head + text::texts(more@).map_values(part);
    assert(longer =~= list.push(run_part(last)));
    assert(longer.drop_last() =~= list);
    if argv@.len() == 0 {
        assert(list =~= head);
    }
    assert(spaced(last) == exists|k: int| 0 <= k < last.len() && text::is_space(#[trigger] last[k]));
}

/// The unit of a login item on Linux holds the program and then every argument in its order, each in
/// quotes and with a blank before it, and starts the daemon again after a failure only.
pub proof fn law_the_unit_of_a_login_item(
    exe: &str,
    argv: &Vec<String>,
    more: &Vec<String>,
    last: Seq<char>,
    one: String,
    both: String,
    line: Seq<char>,
)
    requires
        call_ensures(systemd_unit, (exe, argv), one),
        call_ensures(systemd_unit, (exe, more), both),
        text::texts(more@) == text::texts(argv@).push(last),
        one@ == "[Unit]\nDescription=UFFS resident search daemon\n\n[Service]\nExecStart="@ + line
            + "\nRestart=on-failure\nRestartSec=10\n\n[Install]\nWantedBy=default.target\n"@,
    ensures
        argv@.len() == 0 ==> line == "\""@ + exe@ + "\""@,
        both@ == "[Unit]\nDescription=UFFS resident search daemon\n\n[Service]\nExecStart="@ + (line
            + " "@ + ("\""@ + last + "\""@))
            + "\nRestart=on-failure\nRestartSec=10\n\n[Install]\nWantedBy=default.target\n"@,
{
    let start = "[Unit]\nDescription=UFFS resident search daemon\n\n[Service]\nExecStart="@;
    let end = "\nRestart=on-failure\nRestartSec=10\n\n[Install]\nWantedBy=default.target\n"@;
    let quote = |token: Seq<char>| "\""@ + token + "\""@;
    let list = (seq![exe@] + text::texts(argv@)).map_values(quote);
    let longer = (seq![exe@] + text::texts(more@)).map_values(quote);
    let wanted = exec_text(exe@, text::texts(argv@));
    let n = start.len() as int;
    assert((start + line + end).len() == (start + wanted + end).len());
    assert(line =~= (start + line + end).subrange(n, n + line.len()));
    assert(wanted =~= (start + wanted + end).subrange(n, n + line.len()));
    assert(longer =~= list.push("\""@ + last + "\""@));
    assert(longer.drop_last() =~= list);
    if argv@.len() == 0 {
        assert(list =~= seq!["\""@ + exe@ + "\""@]);
    }
}

/// A login item that is turned on is put in place first, and then the daemon is started exactly
/// where none runs: one that runs is left untouched.
pub proof fn law_a_running_daemon_is_left_untouched(
    exe: &str,
    argv: &Vec<String>,
    plist: &str,
    stderr_log: &str,
    domain: &str,
    unit: &str,
    running: bool,
    windows: Vec<ResidentStep>,
    macos: Vec<ResidentStep>,
    linux: Vec<ResidentStep>,
    k: int,
)
    requires
        call_ensures(turn_on_windows, (exe, argv, running), windows),
        call_ensures(turn_on_macos, (exe, argv, plist, stderr_log, domain, running), macos),
        call_ensures(turn_on_linux, (exe, argv, unit, running), linux),
    ensures
        windows@.len() == (if running { 3int } else { 5 }),
        0 <= k < windows@.len() ==> (windows@[k] is StartDaemon <==> !running && k == 3),
        windows@[0]@ == StepView::Run(
            "reg"@,
            seq![
                "add"@,
                "HKCU\\Software\\Microsoft\\Windows\\CurrentVersion\\Run"@,
                "/v"@,
                "UFFSDaemon"@,
                "/t"@,
                "REG_SZ"@,
                "/d"@,
                run_line(exe@, text::texts(argv@)),
                "/f"@,
            ],
        ),
        macos@.len() == (if running { 3int } else { 5 }),
        macos@[0]@ == StepView::WriteFile(
            plist@,
            plist_text(exe@, text::texts(argv@), stderr_log@),
        ),
        0 <= k < macos@.len() && macos@[k] is Run ==> !running && k == 3,
        !running ==> macos@[2]@ == StepView::TryRun(
            "launchctl"@,
            seq!["bootout"@, domain@ + "/"@ + "com.skyllc.uffs.daemon"@],
        ) && macos@[3]@ == StepView::Run("launchctl"@, seq!["bootstrap"@, domain@, plist@]),
        linux@.len() == (if running { 5int } else { 6 }),
        linux@[0]@ == StepView::WriteFile(unit@, unit_text(exe@, text::texts(argv@))),
        linux@[1]@ == StepView::Run("systemctl"@, seq!["--user"@, "daemon-reload"@]),
        linux@[2]@ == StepView::Run("systemctl"@, seq!["--user"@, "enable"@, "uffs-daemon.service"@]),
        !running ==> linux@[4]@ == StepView::Run(
            "systemctl"@,
            seq!["--user"@, "start"@, "uffs-daemon.service"@],
        ),
        running ==> linux@[4] is Tell && windows@[2] is Tell && macos@[2] is Tell,
{
    let w = step_views(windows@);
    let m = step_views(macos@);
    let l = step_views(linux@);
    assert(w.len() == windows@.len() && m.len() == macos@.len() && l.len() == linux@.len());
    assert(forall|i: int| 0 <= i < w.len() ==> #[trigger] w[i] == windows@[i]@);
    assert(forall|i: int| 0 <= i < m.len() ==> #[trigger] m[i] == macos@[i]@);
    assert(forall|i: int| 0 <= i < l.len() ==> #[trigger] l[i] == linux@[i]@);
    assert(w[0] == windows@[0]@ && w[2] == windows@[2]@);
    assert(m[0] == macos@[0]@ && m[2] == macos@[2]@);
    assert(l[0] == linux@[0]@ && l[1] == linux@[1]@ && l[2] == linux@[2]@ && l[4] == linux@[4]@);
    if !running {
        assert(w[3] == windows@[3]@ && w[4] == windows@[4]@);
        assert(m[3] == macos@[3]@ && m[4] == macos@[4]@);
    }
    if 0 <= k < windows@.len() {
        assert(w[k] == windows@[k]@);
    }
    if 0 <= k < macos@.len() {
        assert(m[k] == macos@[k]@);
    }
}

/// Turning a login item off removes it exactly where it is there, by the means of the platform, and
/// tells which of the two was the case.
pub proof fn law_turning_off_removes_the_item(
    platform: Platform,
    item: &str,
    installed: bool,
    domain: &Option<String>,
    res: Vec<ResidentStep>,
)
    requires
        call_ensures(turn_off, (platform, item, installed, domain), res),
    ensures
        ({
            let steps = step_views(res@);
            &&& steps.len() > 0
            &&& steps.last() == (if installed {
                StepView::Tell("Login item removed: "@ + item@)
            } else {
                StepView::Tell("No login item installed."@)
            })
            &&& platform != Platform::Windows ==> (steps.contains(StepView::RemoveFile(item@))
                <==> installed)
            &&& platform == Platform::Windows && installed ==> steps[0] == StepView::Run(
                "reg"@,
                seq![
                    "delete"@,
                    "HKCU\\Software\\Microsoft\\Windows\\CurrentVersion\\Run"@,
                    "/v"@,
                    "UFFSDaemon"@,
                    "/f"@,
                ],
            )
            &&& platform == Platform::MacOs && domain is Some ==> steps[0] == StepView::TryRun(
                "launchctl"@,
                seq!["bootout"@, domain->Some_0@ + "/"@ + "com.skyllc.uffs.daemon"@],
            )
        }),
{
    let steps = step_views(res@);
    if installed && platform != Platform::Windows {
        if platform == Platform::MacOs {
            assert(steps[steps.len() - 2] == StepView::RemoveFile(item@));
        } else {
            assert(steps[1] == StepView::RemoveFile(item@));
        }
    }
    if !installed && platform != Platform::Windows {
        assert forall|i: int| 0 <= i < steps.len() implies steps[i] != StepView::RemoveFile(item@) by {}
    }
}

/// Data to serve is asked for exactly where it must be named: not on Windows.  What is kept running
/// is told line by line: the login item, how a daemon is revived, and whether one runs.
pub proof fn law_what_residency_needs_and_tells(
    platform: Platform,
    mft_files: &Vec<String>,
    data_dir: &Option<String>,
    refused: Option<CliError>,
    item: &Option<String>,
    marker: bool,
    running: bool,
    told: Vec<String>,
)
    requires
        call_ensures(sources_refusal, (platform, mft_files, data_dir), refused),
        call_ensures(resident_status, (item, marker, running), told),
    ensures
        refused is Some <==> platform != Platform::Windows && mft_files@.len() == 0 && *data_dir
            is None,
        told@.len() == 3,
        *item is None ==> told@[0]@ == "Login item:  not installed"@,
        item matches Some(at) ==> told@[0]@ == "Login item:  installed ("@ + at@ + ")"@,
        told@[1]@ == (if marker {
            "Auto-spawn:  resident (revived daemons keep --no-retire)"@
        } else {
            "Auto-spawn:  default (idle retire)"@
        }),
        told@[2]@ == (if running {
            "Daemon:      running (details: uffs --daemon status)"@
        } else {
            "Daemon:      not running"@
        }),
{
    let lines = text::texts(told@);
    assert(lines.len() == told@.len());
    assert(lines[0] == told@[0]@ && lines[1] == told@[1]@ && lines[2] == told@[2]@);
}

} // verus!
