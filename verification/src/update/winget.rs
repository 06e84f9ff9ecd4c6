//! Having WinGet upgrade a package whose executables run.
//!
//! WinGet cannot replace what runs from the package.  So the daemon is stopped and the broker service
//! cycled around the upgrade, and where this very program is part of the package the upgrade is put
//! off until it has ended.

use crate::broker_service::SERVICE_NAME;
use crate::error;
use crate::error::{fail, CliError};
use crate::model::{BinaryInfo, Channel, Component, DetectionReport, InstallRoot, RunningProcess, Scope};
use crate::platform;
use crate::platform::{is_in, Platform};
use crate::text;
use crate::text::{cat2, cat3, cat4, cat5, push_line, replace, same, strings};
use crate::uninstall::effects;
use crate::uninstall::plan::WINGET_PACKAGE_ID;
use vstd::prelude::*;

verus! {

/// The first root that WinGet manages.
pub open spec fn managed_root(roots: Seq<InstallRoot>, from: int) -> Option<int>
    decreases roots.len() - from,
{
    if from < 0 || from >= roots.len() {
        None
    } else if roots[from].channel == Channel::WinGet {
        Some(from)
    } else {
        managed_root(roots, from + 1)
    }
}

/// The first root that WinGet manages.
pub fn winget_root(report: &DetectionReport) -> (res: Option<&InstallRoot>)
    ensures
        match (res, managed_root(report.roots@, 0)) {
            (Some(root), Some(at)) => 0 <= at < report.roots@.len() && *root == report.roots@[at],
            (None, None) => true,
            _ => false,
        },
{
    let mut i: usize = 0;
    while i < report.roots.len()
        invariant
            i <= report.roots@.len(),
            managed_root(report.roots@, i as int) == managed_root(report.roots@, 0),
        decreases report.roots@.len() - i,
    {
        if report.roots[i].channel == Channel::WinGet {
            return Some(&report.roots[i]);
        }
        i += 1;
    }
    None
}

/// A version without a leading `v`.
pub open spec fn bare_version(version: Seq<char>) -> Seq<char> {
    if version.len() > 0 && version[0] == 'v' {
        version.skip(1)
    } else {
        version
    }
}

/// Whether some executable reports a version, and each that does reports the wanted one.
pub open spec fn is_current(binaries: Seq<BinaryInfo>, latest: Seq<char>) -> bool {
    &&& exists|i: int| 0 <= i < binaries.len() && (#[trigger] binaries[i]).version is Some
    &&& forall|i: int|
        0 <= i < binaries.len() && (#[trigger] binaries[i]).version is Some
            ==> binaries[i].version->Some_0@ == bare_version(latest)
}

/// Whether a root is up to date.
pub fn root_is_current(root: &InstallRoot, latest: &str) -> (res: bool)
    ensures
        res == is_current(root.binaries@, latest@),
{
    let chars = text::chars_of(latest);
    let start: usize = if chars.len() > 0 && chars[0] == 'v' {
        1
    } else {
        0
    };
    let want = text::from_chars(&chars, start, chars.len());
    assert(want@ =~= bare_version(latest@));
    let mut found = false;
    let mut i: usize = 0;
    while i < root.binaries.len()
        invariant
            i <= root.binaries@.len(),
            want@ == bare_version(latest@),
            found == exists|k: int|
                0 <= k < i && (#[trigger] root.binaries@[k]).version is Some,
            forall|k: int|
                0 <= k < i && (#[trigger] root.binaries@[k]).version is Some
                    ==> root.binaries@[k].version->Some_0@ == bare_version(latest@),
        decreases root.binaries@.len() - i,
    {
        if let Some(version) = &root.binaries[i].version {
            assert(root.binaries@[i as int].version is Some);
            if !same(version, &want) {
                return false;
            }
            found = true;
        }
        i += 1;
    }
    found
}

/// Whether a component runs from a directory.
pub open spec fn runs_in(
    platform: Platform,
    running: Seq<RunningProcess>,
    component: Component,
    dir: Seq<char>,
) -> bool {
    exists|i: int|
        0 <= i < running.len() && (#[trigger] running[i]).component == component
            && running[i].image_path is Some && platform::lies_in(
            platform,
            running[i].image_path->Some_0@,
            dir,
        )
}

/// Whether a component runs from a directory.
pub fn component_inside(
    platform: Platform,
    report: &DetectionReport,
    component: Component,
    dir: &str,
) -> (res: bool)
    ensures
        res == runs_in(platform, report.running@, component, dir@),
{
    let mut i: usize = 0;
    while i < report.running.len()
        invariant
            i <= report.running@.len(),
            forall|k: int|
                0 <= k < i ==> !((#[trigger] report.running@[k]).component == component
                    && report.running@[k].image_path is Some && platform::lies_in(
                    platform,
                    report.running@[k].image_path->Some_0@,
                    dir@,
                )),
        decreases report.running@.len() - i,
    {
        let process = &report.running[i];
        if process.component == component {
            if let Some(image) = &process.image_path {
                if is_in(platform, image, dir) {
                    assert(report.running@[i as int].component == component);
                    return true;
                }
            }
        }
        i += 1;
    }
    false
}

/// What the WinGet part of an update does.
#[derive(Debug)]
pub enum WingetStep {
    /// Nothing: WinGet manages no root, or it is up to date, or there is no WinGet.
    Nothing,
    /// It tells to go on in another terminal.
    Tell(&'static str),
    /// It upgrades the package.
    Upgrade(UpgradePlan),
}

/// How a package is upgraded.
#[derive(Debug)]
pub struct UpgradePlan {
    /// Its directory.
    pub dir: String,
    /// Whom it is for.
    pub scope: Scope,
    /// What is told before.
    pub announcement: String,
    /// Whether the daemon is stopped for it, and started again.
    pub stop_daemon: bool,
    /// Whether the broker service is stopped for it, and started again.
    pub cycle_broker: bool,
    /// Whether it is put off until this program has ended.
    pub deferred: bool,
}

/// What is told where a package of one user cannot be upgraded with Administrator rights.
pub const WRONG_TERMINAL: &'static str =
    "\nThe winget package updates from a NORMAL (non-admin) terminal \u{2014} winget\nrefuses user-scope changes in elevated sessions. Run there:\n    uffs --update";

/// What the WinGet part of an update does.  `own_exe` is this program, `broker_installed` whether
/// the broker service is registered.  Every path is given without the prefix of long paths.
pub fn orchestrate(
    platform: Platform,
    report: &DetectionReport,
    latest: &str,
    elevated: bool,
    own_exe: &Option<String>,
    broker_installed: bool,
) -> (res: WingetStep)
    ensures
        match managed_root(report.roots@, 0) {
            None => res == WingetStep::Nothing,
            Some(at) => {
                let root = report.roots@[at];
                if platform != Platform::Windows || is_current(root.binaries@, latest@) {
                    res == WingetStep::Nothing
                } else if root.scope == Scope::User && elevated {
                    res matches WingetStep::Tell(note) && note@ == WRONG_TERMINAL@
                } else {
                    &&& res matches WingetStep::Upgrade(plan)
                    &&& plan.dir@ == root.dir@
                    &&& plan.scope == root.scope
                    &&& plan.announcement@ == "\nUpdating the winget package \u{2192} "@ + latest@
                        + " (via winget) \u{2026}"@
                    &&& plan.stop_daemon == runs_in(
                        platform,
                        report.running@,
                        Component::Daemon,
                        root.dir@,
                    )
                    &&& plan.cycle_broker == (broker_installed && runs_in(
                        platform,
                        report.running@,
                        Component::Broker,
                        root.dir@,
                    ))
                    &&& plan.deferred == match *own_exe {
                        Some(exe) => platform::lies_in(platform, exe@, root.dir@),
                        None => false,
                    }
                }
            },
        },
{
    if platform != Platform::Windows {
        return WingetStep::Nothing;
    }
    match winget_root(report) {
        None => WingetStep::Nothing,
        Some(root) => {
            if root_is_current(root, latest) {
                return WingetStep::Nothing;
            }
            if root.scope == Scope::User && elevated {
                return WingetStep::Tell(WRONG_TERMINAL);
            }
            let deferred = match own_exe {
                Some(exe) => is_in(platform, exe, &root.dir),
                None => false,
            };
            WingetStep::Upgrade(
                UpgradePlan {
                    dir: root.dir.clone(),
                    scope: root.scope,
                    announcement: cat3(
                        "\nUpdating the winget package \u{2192} ",
                        latest,
                        " (via winget) \u{2026}",
                    ),
                    stop_daemon: component_inside(platform, report, Component::Daemon, &root.dir),
                    cycle_broker: broker_installed && component_inside(
                        platform,
                        report,
                        Component::Broker,
                        &root.dir,
                    ),
                    deferred,
                },
            )
        },
    }
}

// ---- the broker service ----

/// How the broker service is cycled around an upgrade.
#[derive(Debug, Clone, Copy, PartialEq, Eq, Structural)]
pub enum BrokerCycle {
    /// Not at all.
    NotInvolved,
    /// By this process.
    Direct,
    /// By a helper with more rights, which waits for a file.
    Helper,
}

/// How the broker service is cycled around an upgrade: by this process where it has the rights.
pub fn broker_cycle(cycle_broker: bool, elevated: bool) -> (res: BrokerCycle)
    ensures
        res == if !cycle_broker {
            BrokerCycle::NotInvolved
        } else if elevated {
            BrokerCycle::Direct
        } else {
            BrokerCycle::Helper
        },
{
    if !cycle_broker {
        BrokerCycle::NotInvolved
    } else if elevated {
        BrokerCycle::Direct
    } else {
        BrokerCycle::Helper
    }
}

/// What is told before the broker service is cycled.
pub fn cycle_announcement(cycle: BrokerCycle) -> (res: Option<&'static str>)
    ensures
        match cycle {
            BrokerCycle::NotInvolved => res is None,
            BrokerCycle::Direct => res is Some && res->Some_0@
                == "  stopping the broker service for the upgrade\u{2026}"@,
            BrokerCycle::Helper => res is Some && res->Some_0@
                == "  the broker service runs from the winget package \u{2014} cycling it around the\n  upgrade (Windows shows one UAC prompt)\u{2026}"@,
        },
{
    match cycle {
        BrokerCycle::NotInvolved => None,
        BrokerCycle::Direct => Some("  stopping the broker service for the upgrade\u{2026}"),
        BrokerCycle::Helper => Some(
            "  the broker service runs from the winget package \u{2014} cycling it around the\n  upgrade (Windows shows one UAC prompt)\u{2026}",
        ),
    }
}

/// The name of the file that the helper waits for, in the directory of temporary files.
pub fn release_file_name(pid: u32) -> (res: String)
    ensures
        res@ == "uffs-broker-cycle-"@ + text::decimal(pid as nat) + ".release"@,
{
    cat3("uffs-broker-cycle-", &text::show_u64(pid as u64), ".release")
}

/// How many seconds the helper is given to stop the broker service.
pub const STOP_WAIT_SECONDS: u32 = 60;

/// How many seconds the helper waits for the upgrade before it starts the broker service anyway.
pub const RELEASE_WAIT_SECONDS: u32 = 600;

/// How many milliseconds pass between two looks.
pub const POLL_MILLIS: u64 = 500;

/// What a wait comes to.
#[derive(Debug, Clone, Copy, PartialEq, Eq, Structural)]
pub enum Wait {
    /// What was waited for has come.
    Come,
    /// Time is up.
    Up,
    /// Neither; look again.
    Again,
}

/// What a look comes to, `elapsed` milliseconds after the wait began.  What was waited for counts
/// even when time is up.
pub fn look(come: bool, elapsed: u64, seconds: u32) -> (res: Wait)
    ensures
        res == if come {
            Wait::Come
        } else if elapsed >= seconds * 1000 {
            Wait::Up
        } else {
            Wait::Again
        },
{
    if come {
        Wait::Come
    } else if elapsed >= seconds as u64 * 1000 {
        Wait::Up
    } else {
        Wait::Again
    }
}

/// What the file is given when the upgrade is done.
pub const RELEASE_DONE: &'static str = "done";

/// What the file is given when the upgrade is given up.
pub const RELEASE_ABORT: &'static str = "abort";

/// Why the upgrade is given up when the helper did not stop the broker service in time.
pub const BROKER_DID_NOT_STOP: &'static str =
    "the broker service did not stop (UAC declined?) \u{2014} run `uffs --update` from an Administrator terminal, or stop the service and retry";

/// Why the upgrade is given up when the helper could not be started.
pub const HELPER_NOT_LAUNCHED: &'static str =
    "could not launch the elevated broker-cycle helper (UAC declined?)";

/// Why a helper does not cycle the broker service, if so: there is none here, or the rights are
/// missing.
pub fn cycle_helper_refusal(platform: Platform, elevated: bool) -> (res: Option<CliError>)
    ensures
        if platform != Platform::Windows {
            res is Some && res->Some_0@ == error::plain(
                "broker-cycle-helper is Windows-only (there is no broker service here)"@,
            )
        } else if !elevated {
            res is Some && res->Some_0@ == error::plain(
                "broker-cycle-helper must run elevated (it is spawned via a UAC prompt by `uffs --update`)"@,
            )
        } else {
            res is None
        },
{
    if platform != Platform::Windows {
        Some(
            fail("broker-cycle-helper is Windows-only (there is no broker service here)".to_owned()),
        )
    } else if !elevated {
        Some(
            fail(
                "broker-cycle-helper must run elevated (it is spawned via a UAC prompt by `uffs --update`)".to_owned(),
            ),
        )
    } else {
        None
    }
}

/// The script that starts the helper with more rights.
pub open spec fn helper_script_text(exe: Seq<char>, release_file: Seq<char>) -> Seq<char> {
    "Start-Process -FilePath '"@ + effects::powershell_quoted(exe)
        + "' -ArgumentList '--update','broker-cycle-helper','"@ + effects::powershell_quoted(
        release_file,
    ) + "' -Verb RunAs -WindowStyle Hidden"@
}

/// The script that starts the helper with more rights.
pub fn helper_script(exe: &str, release_file: &str) -> (res: String)
    ensures
        res@ == helper_script_text(exe@, release_file@),
{
    cat5(
        "Start-Process -FilePath '",
        &replace(exe, '\'', "''"),
        "' -ArgumentList '--update','broker-cycle-helper','",
        &replace(release_file, '\'', "''"),
        "' -Verb RunAs -WindowStyle Hidden",
    )
}

// ---- the upgrade ----

/// The arguments of the upgrade.
pub open spec fn upgrade_args_text(scope: Scope) -> Seq<Seq<char>> {
    seq![
        "upgrade"@,
        "--id"@,
        WINGET_PACKAGE_ID@,
        "--silent"@,
        "--accept-source-agreements"@,
    ] + match scope {
        Scope::Machine => seq!["--scope"@, "machine"@],
        Scope::User => seq!["--scope"@, "user"@],
        Scope::Unknown => Seq::empty(),
    }
}

/// The arguments of the upgrade.
pub fn upgrade_args(scope: Scope) -> (res: Vec<String>)
    ensures
        text::texts(res@) == upgrade_args_text(scope),
{
    let mut res = strings(
        &["upgrade", "--id", WINGET_PACKAGE_ID, "--silent", "--accept-source-agreements"],
    );
    assert(text::texts(res@) =~= seq![
        "upgrade"@,
        "--id"@,
        WINGET_PACKAGE_ID@,
        "--silent"@,
        "--accept-source-agreements"@,
    ]);
    match scope {
        Scope::Machine => {
            push_line(&mut res, "--scope".to_owned());
            push_line(&mut res, "machine".to_owned());
        },
        Scope::User => {
            push_line(&mut res, "--scope".to_owned());
            push_line(&mut res, "user".to_owned());
        },
        Scope::Unknown => {},
    }
    assert(text::texts(res@) =~= upgrade_args_text(scope));
    res
}

/// Whether an upgrade succeeded; `status` is how WinGet ended, in words.
pub fn upgrade_result(success: bool, status: &str) -> (res: Result<(), CliError>)
    ensures
        match res {
            Ok(_) => success,
            Err(err) => !success && err@ == error::plain("winget upgrade exited with "@ + status@),
        },
{
    if success {
        Ok(())
    } else {
        Err(fail(cat2("winget upgrade exited with ", status)))
    }
}

/// The first part of the script of an upgrade that is put off: it waits about two seconds, and
/// upgrades.
pub open spec fn deferred_upgrade(scope: Scope) -> Seq<char> {
    "ping 127.0.0.1 -n 3 >nul & winget upgrade --id "@ + WINGET_PACKAGE_ID@
        + " --silent --accept-source-agreements"@ + (match scope {
        Scope::Machine => " --scope machine"@,
        Scope::User => " --scope user"@,
        Scope::Unknown => ""@,
    })
}

/// The part of a script that writes the file for which a helper waits.
pub open spec fn release_leg(file: Seq<char>) -> Seq<char> {
    " & echo done > \""@ + file + "\""@
}

/// The part of a script that starts the broker service.
pub open spec fn start_leg() -> Seq<char> {
    " & sc start "@ + SERVICE_NAME@
}

/// The end of the script of an upgrade that is put off.
pub const DEFERRED_END: &'static str = " & rem deferred winget upgrade";

/// The script of an upgrade that is put off: it waits about two seconds, upgrades, and then lets the
/// helper go on, if there is one.
pub open spec fn deferred_text(scope: Scope, release_file: Option<Seq<char>>) -> Seq<char> {
    deferred_upgrade(scope) + (match release_file {
        Some(file) => release_leg(file),
        None => Seq::empty(),
    }) + DEFERRED_END@
}

/// The script of an upgrade that is put off where the broker service was stopped without a helper:
/// it waits about two seconds, upgrades, writes the file, and starts the service.
pub open spec fn deferred_restart_text(scope: Scope, release_file: Seq<char>) -> Seq<char> {
    deferred_upgrade(scope) + release_leg(release_file) + start_leg() + DEFERRED_END@
}

fn deferred_upgrade_of(scope: Scope) -> (res: String)
    ensures
        res@ == deferred_upgrade(scope),
{
    let scope_arg = match scope {
        Scope::Machine => " --scope machine",
        Scope::User => " --scope user",
        Scope::Unknown => "",
    };
    cat4(
        "ping 127.0.0.1 -n 3 >nul & winget upgrade --id ",
        WINGET_PACKAGE_ID,
        " --silent --accept-source-agreements",
        scope_arg,
    )
}

/// The script of an upgrade that is put off.
pub fn deferred_script(scope: Scope, release_file: &Option<String>) -> (res: String)
    ensures
        res@ == deferred_text(scope, error::shown(*release_file)),
{
    let release = match release_file {
        Some(file) => cat3(" & echo done > \"", file, "\""),
        None => String::new(),
    };
    cat3(&deferred_upgrade_of(scope), &release, DEFERRED_END)
}

/// The script of an upgrade that is put off where the broker service was stopped without a helper.
pub fn deferred_restart_script(scope: Scope, release_file: &str) -> (res: String)
    ensures
        res@ == deferred_restart_text(scope, release_file@),
{
    cat4(
        &deferred_upgrade_of(scope),
        &cat3(" & echo done > \"", release_file, "\""),
        &cat2(" & sc start ", SERVICE_NAME),
        DEFERRED_END,
    )
}

/// What is told when an upgrade is put off.
pub const DEFERRED_NOTE: &'static str =
    "\nwinget finishes the update once this process exits (the running uffs.exe\nis part of the winget package). The daemon restarts on the next search.";

/// What is told after an upgrade: `failure` is why it did not complete.
pub fn upgrade_report(latest: &str, failure: &Option<String>) -> (res: String)
    ensures
        res@ == match *failure {
            None => "\u{2713} winget package updated to "@ + latest@ + "."@,
            Some(err) => "\u{26a0} winget upgrade did not complete ("@ + err@
                + ").\n   Re-run `uffs --update`, or `winget upgrade "@ + WINGET_PACKAGE_ID@
                + "` directly."@,
        },
{
    match failure {
        None => cat3("\u{2713} winget package updated to ", latest, "."),
        Some(err) => cat5(
            "\u{26a0} winget upgrade did not complete (",
            err,
            ").\n   Re-run `uffs --update`, or `winget upgrade ",
            WINGET_PACKAGE_ID,
            "` directly.",
        ),
    }
}

/// What is told when the broker service could not be started again.
pub fn restart_failure(err: &str) -> (res: String)
    ensures
        res@ == "\u{26a0} could not restart the broker service ("@ + err@ + ")."@,
{
    cat3("\u{26a0} could not restart the broker service (", err, ").")
}

// ---- the order ----

/// What an upgrade does, one after the other.
#[derive(Debug, Clone, Copy, PartialEq, Eq, Structural)]
pub enum UpgradeStep {
    /// Stop the daemon.
    StopDaemon,
    /// Stop the broker service.
    StopBroker,
    /// Start the helper and wait until it has stopped the broker service.
    SpawnHelper,
    /// Have WinGet upgrade the package.
    Upgrade,
    /// Have WinGet upgrade the package once this process has ended.
    Defer,
    /// Have WinGet upgrade the package once this process has ended, and start the broker service
    /// again then.
    DeferAndStart,
    /// Have WinGet upgrade the package once this process has ended, and let the helper go on then.
    DeferAndRelease,
    /// Start the broker service again.
    StartBroker,
    /// Let the helper start the broker service again.
    ReleaseHelper,
    /// Tell how the upgrade went.
    Report,
    /// Start the daemon again.
    StartDaemon,
}

/// The steps before the upgrade.
pub open spec fn steps_before(stop_daemon: bool, cycle: BrokerCycle) -> Seq<UpgradeStep> {
    (if stop_daemon {
        seq![UpgradeStep::StopDaemon]
    } else {
        Seq::empty()
    }) + (match cycle {
        BrokerCycle::NotInvolved => Seq::empty(),
        BrokerCycle::Direct => seq![UpgradeStep::StopBroker],
        BrokerCycle::Helper => seq![UpgradeStep::SpawnHelper],
    })
}

/// The steps from the upgrade on.
pub open spec fn steps_from(stop_daemon: bool, cycle: BrokerCycle, deferred: bool) -> Seq<
    UpgradeStep,
> {
    if deferred {
        seq![
            match cycle {
                BrokerCycle::NotInvolved => UpgradeStep::Defer,
                BrokerCycle::Direct => UpgradeStep::DeferAndStart,
                BrokerCycle::Helper => UpgradeStep::DeferAndRelease,
            },
        ]
    } else {
        seq![UpgradeStep::Upgrade] + (match cycle {
            BrokerCycle::NotInvolved => Seq::empty(),
            BrokerCycle::Direct => seq![UpgradeStep::StartBroker],
            BrokerCycle::Helper => seq![UpgradeStep::ReleaseHelper],
        }) + seq![UpgradeStep::Report] + (if stop_daemon {
            seq![UpgradeStep::StartDaemon]
        } else {
            Seq::empty()
        })
    }
}

/// What an upgrade does, one after the other.
pub fn upgrade_steps(stop_daemon: bool, cycle: BrokerCycle, deferred: bool) -> (res: Vec<
    UpgradeStep,
>)
    ensures
        res@ == steps_before(stop_daemon, cycle) + steps_from(stop_daemon, cycle, deferred),
{
    let mut res: Vec<UpgradeStep> = Vec::new();
    if stop_daemon {
        res.push(UpgradeStep::StopDaemon);
    }
    match cycle {
        BrokerCycle::NotInvolved => {},
        BrokerCycle::Direct => res.push(UpgradeStep::StopBroker),
        BrokerCycle::Helper => res.push(UpgradeStep::SpawnHelper),
    }
    if deferred {
        res.push(
            match cycle {
                BrokerCycle::NotInvolved => UpgradeStep::Defer,
                BrokerCycle::Direct => UpgradeStep::DeferAndStart,
                BrokerCycle::Helper => UpgradeStep::DeferAndRelease,
            },
        );
    } else {
        res.push(UpgradeStep::Upgrade);
        match cycle {
            BrokerCycle::NotInvolved => {},
            BrokerCycle::Direct => res.push(UpgradeStep::StartBroker),
            BrokerCycle::Helper => res.push(UpgradeStep::ReleaseHelper),
        }
        res.push(UpgradeStep::Report);
        if stop_daemon {
            res.push(UpgradeStep::StartDaemon);
        }
    }
    assert(res@ =~= steps_before(stop_daemon, cycle) + steps_from(stop_daemon, cycle, deferred));
    res
}

// ---- laws ----

/// An upgrade leaves nothing stopped that it stopped.  The broker service is started again, by this
/// process or by the helper, after the upgrade, if and only if it was stopped before it, whether or
/// not the upgrade is put off.  So is the daemon where the upgrade is not put off; else the next
/// search starts it.
pub proof fn law_nothing_stays_stopped(stop_daemon: bool, cycle: BrokerCycle, deferred: bool)
    ensures
        ({
            let before = steps_before(stop_daemon, cycle);
            let after = steps_from(stop_daemon, cycle, deferred);
            &&& before.contains(UpgradeStep::StopBroker) <==> after.contains(
                if deferred {
                    UpgradeStep::DeferAndStart
                } else {
                    UpgradeStep::StartBroker
                },
            )
            &&& before.contains(UpgradeStep::SpawnHelper) <==> after.contains(
                if deferred {
                    UpgradeStep::DeferAndRelease
                } else {
                    UpgradeStep::ReleaseHelper
                },
            )
            &&& !deferred ==> (before.contains(UpgradeStep::StopDaemon) <==> after.contains(
                UpgradeStep::StartDaemon,
            ))
        }),
{
    let before = steps_before(stop_daemon, cycle);
    let after = steps_from(stop_daemon, cycle, deferred);
    if stop_daemon {
        assert(before[0] == UpgradeStep::StopDaemon);
        if !deferred {
            assert(after[after.len() - 1] == UpgradeStep::StartDaemon);
        }
    }
    let k = if deferred {
        0int
    } else {
        1
    };
    match cycle {
        BrokerCycle::NotInvolved => {},
        BrokerCycle::Direct => {
            assert(before[before.len() - 1] == UpgradeStep::StopBroker);
            assert(after[k] is StartBroker || after[k] is DeferAndStart);
        },
        BrokerCycle::Helper => {
            assert(before[before.len() - 1] == UpgradeStep::SpawnHelper);
            assert(after[k] is ReleaseHelper || after[k] is DeferAndRelease);
        },
    }
}

/// The scripts of an upgrade that is put off bring the broker service back behind the upgrade: the
/// one lets a waiting helper go on, the other starts the service itself.
pub proof fn law_deferred_upgrade_brings_the_broker_back(scope: Scope, file: Seq<char>)
    ensures
        text::begins(deferred_text(scope, Some(file)), deferred_upgrade(scope)),
        text::stands_at(
            deferred_text(scope, Some(file)),
            release_leg(file),
            deferred_upgrade(scope).len() as int,
        ),
        text::begins(deferred_restart_text(scope, file), deferred_upgrade(scope)),
        text::stands_at(
            deferred_restart_text(scope, file),
            start_leg(),
            (deferred_upgrade(scope) + release_leg(file)).len() as int,
        ),
{
    let upgrade = deferred_upgrade(scope);
    let release = release_leg(file);
    let n = upgrade.len() as int;
    let m = n + release.len();
    let released = deferred_text(scope, Some(file));
    assert(released.subrange(0, n) =~= upgrade);
    assert(released.subrange(n, m) =~= release);
    let restarted = deferred_restart_text(scope, file);
    assert(restarted.subrange(0, n) =~= upgrade);
    assert(restarted.subrange(m, m + start_leg().len()) =~= start_leg());
}

/// Whether a process is a component whose executable lies in a directory.
pub open spec fn runs_from(
    platform: Platform,
    process: RunningProcess,
    component: Component,
    dir: Seq<char>,
) -> bool {
    process.component == component && (process.image_path matches Some(image) && platform::lies_in(
        platform,
        image@,
        dir,
    ))
}

/// Everything that runs from the package is stopped around its upgrade, wherever it stands among
/// what runs, and nothing else is: the daemon, and the broker service where it is registered.  The
/// upgrade is put off exactly where this program lies in the package.
pub proof fn law_what_runs_from_the_package_is_stopped(
    platform: Platform,
    report: &DetectionReport,
    latest: &str,
    elevated: bool,
    own_exe: &Option<String>,
    broker_installed: bool,
    res: WingetStep,
    i: int,
)
    requires
        call_ensures(
            orchestrate,
            (platform, report, latest, elevated, own_exe, broker_installed),
            res,
        ),
        res is Upgrade,
    ensures
        ({
            let plan = res->Upgrade_0;
            let running = report.running@;
            &&& 0 <= i < running.len() && runs_from(
                platform,
                running[i],
                Component::Daemon,
                plan.dir@,
            ) ==> plan.stop_daemon
            &&& 0 <= i < running.len() && broker_installed && runs_from(
                platform,
                running[i],
                Component::Broker,
                plan.dir@,
            ) ==> plan.cycle_broker
            &&& plan.stop_daemon ==> exists|k: int|
                0 <= k < running.len() && runs_from(
                    platform,
                    #[trigger] running[k],
                    Component::Daemon,
                    plan.dir@,
                )
            &&& plan.cycle_broker ==> broker_installed && exists|k: int|
                0 <= k < running.len() && runs_from(
                    platform,
                    #[trigger] running[k],
                    Component::Broker,
                    plan.dir@,
                )
            &&& plan.deferred <==> (own_exe matches Some(exe) && platform::lies_in(
                platform,
                exe@,
                plan.dir@,
            ))
        }),
{
    let at = managed_root(report.roots@, 0)->Some_0;
    let dir = report.roots@[at].dir@;
    let running = report.running@;
    if runs_in(platform, running, Component::Daemon, dir) {
        let k = choose|k: int|
            0 <= k < running.len() && (#[trigger] running[k]).component == Component::Daemon
                && running[k].image_path is Some && platform::lies_in(
                platform,
                running[k].image_path->Some_0@,
                dir,
            );
        assert(runs_from(platform, running[k], Component::Daemon, dir));
    }
    if runs_in(platform, running, Component::Broker, dir) {
        let k = choose|k: int|
            0 <= k < running.len() && (#[trigger] running[k]).component == Component::Broker
                && running[k].image_path is Some && platform::lies_in(
                platform,
                running[k].image_path->Some_0@,
                dir,
            );
        assert(runs_from(platform, running[k], Component::Broker, dir));
    }
}

proof fn lemma_managed_root(roots: Seq<InstallRoot>, from: int)
    requires
        0 <= from,
    ensures
        match managed_root(roots, from) {
            Some(at) => from <= at < roots.len() && roots[at].channel == Channel::WinGet
                && forall|j: int| from <= j < at ==> (#[trigger] roots[j]).channel != Channel::WinGet,
            None => forall|j: int|
                from <= j < roots.len() ==> (#[trigger] roots[j]).channel != Channel::WinGet,
        },
    decreases roots.len() - from,
{
    if from < roots.len() && roots[from].channel != Channel::WinGet {
        lemma_managed_root(roots, from + 1);
    }
}

/// What is upgraded is the first root that WinGet manages, for whom it is, and only on Windows.
/// Nothing is done where there is none, or where each executable in it that reports a version, and
/// one does, reports the wanted one, with or without a leading `v`.  A package of one user is left to
/// a terminal without Administrator rights, and only there.
pub proof fn law_the_managed_root_is_upgraded(
    platform: Platform,
    report: &DetectionReport,
    latest: &str,
    elevated: bool,
    own_exe: &Option<String>,
    broker_installed: bool,
    res: WingetStep,
    i: int,
)
    requires
        call_ensures(
            orchestrate,
            (platform, report, latest, elevated, own_exe, broker_installed),
            res,
        ),
        0 <= i < report.roots@.len(),
        forall|j: int| 0 <= j < i ==> (#[trigger] report.roots@[j]).channel != Channel::WinGet,
    ensures
        ({
            let root = report.roots@[i];
            let wanted = |version: Seq<char>|
                latest@ == seq!['v'] + version || (latest@ == version && (version.len() == 0
                    || version[0] != 'v'));
            &&& res is Upgrade && root.channel == Channel::WinGet ==> res->Upgrade_0.dir@ == root.dir@
                && res->Upgrade_0.scope == root.scope
            &&& root.channel == Channel::WinGet && res is Upgrade ==> platform == Platform::Windows
            &&& root.channel == Channel::WinGet && platform == Platform::Windows && (exists|k: int|
                0 <= k < root.binaries@.len() && (#[trigger] root.binaries@[k]).version is Some
                    && !wanted(root.binaries@[k].version->Some_0@)) ==> if root.scope == Scope::User
                && elevated {
                res is Tell
            } else {
                res is Upgrade
            }
            &&& root.channel == Channel::WinGet && platform == Platform::Windows && (forall|k: int|
                0 <= k < root.binaries@.len() ==> (#[trigger] root.binaries@[k]).version is None)
                ==> if root.scope == Scope::User && elevated {
                res is Tell
            } else {
                res is Upgrade
            }
            &&& root.channel == Channel::WinGet && (exists|k: int|
                0 <= k < root.binaries@.len() && (#[trigger] root.binaries@[k]).version is Some)
                && (forall|k: int|
                0 <= k < root.binaries@.len() && (#[trigger] root.binaries@[k]).version is Some
                    ==> wanted(root.binaries@[k].version->Some_0@)) ==> res is Nothing
        }),
        (forall|j: int|
            0 <= j < report.roots@.len() ==> (#[trigger] report.roots@[j]).channel
                != Channel::WinGet) ==> res is Nothing,
        platform != Platform::Windows ==> res is Nothing,
{
    lemma_managed_root(report.roots@, 0);
    let root = report.roots@[i];
    let bare = bare_version(latest@);
    assert forall|version: Seq<char>| true implies (#[trigger] version.len() >= 0 && (version
        == bare <==> (latest@ == seq!['v'] + version || (latest@ == version && (version.len() == 0
        || version[0] != 'v'))))) by {
        if latest@ == seq!['v'] + version {
            assert(latest@.skip(1) =~= version);
        }
        if version == bare && latest@.len() > 0 && latest@[0] == 'v' {
            assert(latest@ =~= seq!['v'] + version);
        }
    }
}

/// The place of a step among those of an upgrade: what stops something, the upgrade, and what starts
/// it again and tells of it.
pub open spec fn place(step: UpgradeStep) -> int {
    match step {
        UpgradeStep::StopDaemon => 0,
        UpgradeStep::StopBroker | UpgradeStep::SpawnHelper => 1,
        UpgradeStep::Upgrade | UpgradeStep::Defer | UpgradeStep::DeferAndStart
        | UpgradeStep::DeferAndRelease => 2,
        UpgradeStep::StartBroker | UpgradeStep::ReleaseHelper => 3,
        UpgradeStep::Report => 4,
        UpgradeStep::StartDaemon => 5,
    }
}

/// What is stopped for an upgrade is stopped before it, and started again after it; no step is done
/// twice.
pub proof fn law_the_order_of_an_upgrade(
    stop_daemon: bool,
    cycle: BrokerCycle,
    deferred: bool,
    res: Vec<UpgradeStep>,
    i: int,
    j: int,
)
    requires
        call_ensures(upgrade_steps, (stop_daemon, cycle, deferred), res),
        0 <= i < j < res@.len(),
    ensures
        place(res@[i]) < place(res@[j]),
{
    lemma_steps(stop_daemon, cycle, deferred);
}

/// Which steps an upgrade takes: the daemon is started again where it was stopped, the broker by
/// whoever stopped it, with rights here and else through a helper; and an upgrade that is put off
/// carries the start of the broker with it.
pub proof fn law_what_is_stopped_is_started_again(
    stop_daemon: bool,
    cycle_broker: bool,
    elevated: bool,
    cycle: BrokerCycle,
    deferred: bool,
    res: Vec<UpgradeStep>,
    step: UpgradeStep,
)
    requires
        call_ensures(broker_cycle, (cycle_broker, elevated), cycle),
        call_ensures(upgrade_steps, (stop_daemon, cycle, deferred), res),
    ensures
        res@.contains(step) <==> match step {
            UpgradeStep::StopDaemon => stop_daemon,
            UpgradeStep::StopBroker => cycle_broker && elevated,
            UpgradeStep::SpawnHelper => cycle_broker && !elevated,
            UpgradeStep::Upgrade => !deferred,
            UpgradeStep::Report => !deferred,
            UpgradeStep::StartDaemon => !deferred && stop_daemon,
            UpgradeStep::StartBroker => !deferred && cycle_broker && elevated,
            UpgradeStep::ReleaseHelper => !deferred && cycle_broker && !elevated,
            UpgradeStep::Defer => deferred && !cycle_broker,
            UpgradeStep::DeferAndStart => deferred && cycle_broker && elevated,
            UpgradeStep::DeferAndRelease => deferred && cycle_broker && !elevated,
        },
{
    lemma_steps(stop_daemon, cycle, deferred);
    let steps = res@;
    let d = if stop_daemon {
        1int
    } else {
        0
    };
    let b = if cycle_broker {
        1int
    } else {
        0
    };
    let at = match step {
        UpgradeStep::StopDaemon => 0,
        UpgradeStep::StopBroker | UpgradeStep::SpawnHelper => d,
        UpgradeStep::Upgrade | UpgradeStep::Defer | UpgradeStep::DeferAndStart
        | UpgradeStep::DeferAndRelease => d + b,
        UpgradeStep::StartBroker | UpgradeStep::ReleaseHelper => d + b + 1,
        UpgradeStep::Report => d + b + 1 + b,
        UpgradeStep::StartDaemon => d + b + 1 + b + 1,
    };
    if steps.contains(step) {
        let k = choose|k: int| 0 <= k < steps.len() && steps[k] == step;
        assert(0 <= k <= 5);
    }
    if 0 <= at < steps.len() && steps[at] == step {
        assert(steps.contains(step));
    }
}

proof fn lemma_steps(stop_daemon: bool, cycle: BrokerCycle, deferred: bool)
    ensures
        ({
            let steps = steps_before(stop_daemon, cycle) + steps_from(stop_daemon, cycle, deferred);
            let d = if stop_daemon {
                1int
            } else {
                0
            };
            let b = if cycle == BrokerCycle::NotInvolved {
                0int
            } else {
                1
            };
            &&& steps.len() == (if deferred {
                d + b + 1
            } else {
                d + b + 1 + b + 1 + d
            })
            &&& stop_daemon ==> steps[0] == UpgradeStep::StopDaemon
            &&& cycle == BrokerCycle::Direct ==> steps[d] == UpgradeStep::StopBroker
            &&& cycle == BrokerCycle::Helper ==> steps[d] == UpgradeStep::SpawnHelper
            &&& !deferred ==> steps[d + b] == UpgradeStep::Upgrade && steps[d + b + 1 + b]
                == UpgradeStep::Report
            &&& deferred ==> steps[d + b] == match cycle {
                BrokerCycle::NotInvolved => UpgradeStep::Defer,
                BrokerCycle::Direct => UpgradeStep::DeferAndStart,
                BrokerCycle::Helper => UpgradeStep::DeferAndRelease,
            }
            &&& !deferred && cycle == BrokerCycle::Direct ==> steps[d + b + 1]
                == UpgradeStep::StartBroker
            &&& !deferred && cycle == BrokerCycle::Helper ==> steps[d + b + 1]
                == UpgradeStep::ReleaseHelper
            &&& !deferred && stop_daemon ==> steps[d + b + 1 + b + 1] == UpgradeStep::StartDaemon
        }),
{
}

/// Something is waited for until it has come, and no longer than the given seconds.
pub proof fn law_how_long_is_waited(come: bool, elapsed: u64, seconds: u32, res: Wait)
    requires
        call_ensures(look, (come, elapsed, seconds), res),
    ensures
        res == Wait::Come <==> come,
        res == Wait::Again <==> !come && elapsed < 1000 * seconds,
        STOP_WAIT_SECONDS == 60 && RELEASE_WAIT_SECONDS == 600 && POLL_MILLIS == 500,
{
}

/// The helper runs on Windows and with rights, and nowhere else.
pub proof fn law_who_may_help(platform: Platform, elevated: bool, res: Option<CliError>)
    requires
        call_ensures(cycle_helper_refusal, (platform, elevated), res),
    ensures
        res is None <==> platform == Platform::Windows && elevated,
{
}

/// The package is upgraded by its id, without questions, and within its scope where that is known;
/// put off, the same command waits for the end of this process, and what follows is done in order.
pub proof fn law_how_the_package_is_upgraded(
    scope: Scope,
    res: Vec<String>,
    release_file: &Option<String>,
    script: String,
    file: &str,
    restart: String,
)
    requires
        call_ensures(upgrade_args, (scope,), res),
        call_ensures(deferred_script, (scope, release_file), script),
        call_ensures(deferred_restart_script, (scope, file), restart),
    ensures
        ({
            let plain = seq![
                "upgrade"@,
                "--id"@,
                "SkyLLC.UFFS"@,
                "--silent"@,
                "--accept-source-agreements"@,
            ];
            let start = "ping 127.0.0.1 -n 3 >nul & winget upgrade --id "@ + "SkyLLC.UFFS"@
                + " --silent --accept-source-agreements"@;
            let wanted = match scope {
                Scope::Machine => start + " --scope machine"@,
                Scope::User => start + " --scope user"@,
                Scope::Unknown => start,
            };
            let end = " & rem deferred winget upgrade"@;
            &&& scope == Scope::Unknown ==> text::texts(res@) == plain
            &&& scope == Scope::User ==> text::texts(res@) == plain + seq!["--scope"@, "user"@]
            &&& scope == Scope::Machine ==> text::texts(res@) == plain + seq!["--scope"@, "machine"@]
            &&& *release_file is None ==> script@ == wanted + end
            &&& *release_file is Some ==> script@ == wanted + (" & echo done > \""@
                + release_file->Some_0@ + "\""@) + end
            &&& restart@ == wanted + (" & echo done > \""@ + file@ + "\""@) + (" & sc start "@
                + SERVICE_NAME@) + end
        }),
{
    reveal_strlit("");
    let start = "ping 127.0.0.1 -n 3 >nul & winget upgrade --id "@ + "SkyLLC.UFFS"@
        + " --silent --accept-source-agreements"@;
    assert(start + ""@ =~= start);
    let upgrade = deferred_upgrade(scope);
    assert(upgrade + Seq::<char>::empty() =~= upgrade);
    if scope == Scope::Unknown {
        assert(text::texts(res@) =~= seq![
            "upgrade"@,
            "--id"@,
            "SkyLLC.UFFS"@,
            "--silent"@,
            "--accept-source-agreements"@,
        ]);
    }
}

/// What is told at the end names the version or the failure, and an upgrade succeeded exactly where
/// the command did.
pub proof fn law_what_is_told_of_an_upgrade(
    success: bool,
    status: &str,
    res: Result<(), CliError>,
    latest: &str,
    failure: &Option<String>,
    told: String,
)
    requires
        call_ensures(upgrade_result, (success, status), res),
        call_ensures(upgrade_report, (latest, failure), told),
    ensures
        res is Ok <==> success,
        res matches Err(err) ==> err@ == error::plain("winget upgrade exited with "@ + status@),
        *failure is None ==> told@ == "\u{2713} winget package updated to "@ + latest@ + "."@,
        failure matches Some(err) ==> told@ == "\u{26a0} winget upgrade did not complete ("@ + err@
            + ").\n   Re-run `uffs --update`, or `winget upgrade "@ + "SkyLLC.UFFS"@
            + "` directly."@,
{
}

} // verus!
