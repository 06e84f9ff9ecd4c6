//! Whether the index daemon covers every drive before the search for stray files, and what is told
//! when it has to be started again for that.

use crate::args;
use crate::args::DaemonAction;
use crate::drive;
use crate::drive::{show_drives, DriveLetter};
use crate::text;
use crate::text::{cat3, cat4, cat5, join, push_line, same, show_u64};
use vstd::prelude::*;

verus! {

/// The drives that are not among the managed ones, in their order.
pub open spec fn uncovered(all: Seq<DriveLetter>, managed: Seq<DriveLetter>) -> Seq<DriveLetter>
    decreases all.len(),
{
    if all.len() == 0 {
        Seq::empty()
    } else if managed.contains(all.last()) {
        uncovered(all.drop_last(), managed)
    } else {
        uncovered(all.drop_last(), managed).push(all.last())
    }
}

fn holds_drive(drives: &[DriveLetter], drive: DriveLetter) -> (res: bool)
    ensures
        res == drives@.contains(drive),
{
    let mut i: usize = 0;
    while i < drives.len()
        invariant
            i <= drives@.len(),
            forall|k: int| 0 <= k < i ==> drives@[k] != drive,
        decreases drives@.len() - i,
    {
        if drives[i] == drive {
            return true;
        }
        i += 1;
    }
    false
}

/// The drives that are not among the managed ones.
pub fn missing_drives(all: &[DriveLetter], managed: &[DriveLetter]) -> (res: Vec<DriveLetter>)
    ensures
        res@ == uncovered(all@, managed@),
{
    let mut res: Vec<DriveLetter> = Vec::new();
    let mut i: usize = 0;
    assert(all@.take(0) =~= Seq::empty());
    while i < all.len()
        invariant
            i <= all@.len(),
            res@ == uncovered(all@.take(i as int), managed@),
        decreases all@.len() - i,
    {
        assert(all@.take(i + 1).drop_last() =~= all@.take(i as int));
        if !holds_drive(managed, all[i]) {
            res.push(all[i]);
        }
        i += 1;
    }
    assert(all@.take(i as int) =~= all@);
    res
}

/// The version of the daemon, if it answers with another than this program's.
pub open spec fn stale(daemon: Option<Seq<char>>, own: Seq<char>) -> Option<Seq<char>> {
    match daemon {
        Some(version) => if version == own {
            None
        } else {
            Some(version)
        },
        None => None,
    }
}

/// The version of the daemon, if it answers with another than this program's.
pub fn daemon_version_mismatch(daemon: Option<String>, own: &str) -> (res: Option<String>)
    ensures
        crate::error::shown(res) == stale(crate::error::shown(daemon), own@),
{
    match daemon {
        Some(version) => if same(&version, own) {
            None
        } else {
            Some(version)
        },
        None => None,
    }
}

/// Whether the daemon has to be started again: a drive is missing, or it is of another version.
/// Where there is no drive there is nothing to cover.
pub open spec fn needs_reload(
    all: Seq<DriveLetter>,
    managed: Seq<DriveLetter>,
    stale_version: Option<Seq<char>>,
) -> bool {
    all.len() > 0 && (uncovered(all, managed).len() > 0 || stale_version is Some)
}

/// Whether the daemon covers every drive as it is.
pub fn coverage_complete(
    all: &[DriveLetter],
    managed: &[DriveLetter],
    stale_version: &Option<String>,
) -> (res: bool)
    ensures
        res == !needs_reload(all@, managed@, crate::error::shown(*stale_version)),
{
    if all.len() == 0 {
        return true;
    }
    stale_version.is_none() && missing_drives(all, managed).len() == 0
}

/// Why the daemon is started again.
pub open spec fn reason_text(
    missing: Seq<DriveLetter>,
    stale_version: Option<Seq<char>>,
    own: Seq<char>,
) -> Seq<char> {
    let list = text::joined(drive::drive_texts(missing), ", "@);
    match stale_version {
        Some(theirs) => if missing.len() == 0 {
            "it was running v"@ + theirs + ", not this CLI's v"@ + own
        } else {
            "it was running v"@ + theirs + ", not this CLI's v"@ + own + (", and was missing "@
                + list)
        },
        None => "it was missing "@ + list,
    }
}

/// Why the daemon is started again.
pub fn reload_reason(
    missing: &[DriveLetter],
    stale_version: &Option<String>,
    own: &str,
) -> (res: String)
    ensures
        res@ == reason_text(missing@, crate::error::shown(*stale_version), own@),
{
    let list = join(&show_drives(missing), ", ");
    match stale_version {
        Some(theirs) => if missing.len() == 0 {
            cat4("it was running v", theirs, ", not this CLI's v", own)
        } else {
            cat5(
                "it was running v",
                theirs,
                ", not this CLI's v",
                own,
                &text::cat2(", and was missing ", &list),
            )
        },
        None => text::cat2("it was missing ", &list),
    }
}

/// What is told, where everything is told at once, before the daemon is started again.
pub open spec fn announcement_text(reason: Seq<char>) -> Seq<char> {
    "\nThe daemon needs a reload before the deep sweep ("@ + reason
        + ").\nReloading it (stop + start):"@
}

/// What is told, where everything is told at once, before the daemon is started again.
pub fn reload_announcement(reason: &str) -> (res: String)
    ensures
        res@ == announcement_text(reason@),
{
    cat3(
        "\nThe daemon needs a reload before the deep sweep (",
        reason,
        ").\nReloading it (stop + start):",
    )
}

/// How a daemon is begun to be started again.
#[derive(Debug)]
pub struct ReloadStart {
    /// Why that is done.
    pub reason: String,
    /// What is told before it, where everything is told at once.
    pub announcement: Option<String>,
}

/// Begins to start the daemon again, where it has to be.
pub fn begin_reload(
    quiet: bool,
    all: &[DriveLetter],
    managed: &[DriveLetter],
    stale_version: &Option<String>,
    own: &str,
) -> (res: Option<ReloadStart>)
    ensures
        ({
            let stale = crate::error::shown(*stale_version);
            let reason = reason_text(uncovered(all@, managed@), stale, own@);
            match res {
                Some(start) => {
                    &&& needs_reload(all@, managed@, stale)
                    &&& start.reason@ == reason
                    &&& crate::error::shown(start.announcement) == if quiet {
                        None
                    } else {
                        Some(announcement_text(reason))
                    }
                },
                None => !needs_reload(all@, managed@, stale),
            }
        }),
{
    if coverage_complete(all, managed, stale_version) {
        return None;
    }
    let reason = reload_reason(&missing_drives(all, managed), stale_version, own);
    let announcement = if quiet {
        None
    } else {
        Some(reload_announcement(&reason))
    };
    Some(ReloadStart { reason, announcement })
}

// ---- stopping the daemon ----

/// A step of stopping the daemon before it is started again.
#[derive(Debug, Clone, Copy, PartialEq, Eq, Structural)]
pub enum HaltStep {
    /// Ask it to end.  This takes no rights, whatever rights the daemon has.
    Ask,
    /// Wait until it has ended, after it took the request.
    WaitForAsk,
    /// Look whether it has ended.
    LookAfterAsk,
    /// Run the command that kills it, which can take rights.
    Kill,
    /// Wait until it has ended, after the command succeeded.
    WaitForKill,
    /// Look once more whether it has ended.
    LookAfterKill,
}

/// What follows a step of stopping the daemon.
#[derive(Debug, Clone, Copy, PartialEq, Eq, Structural)]
pub enum HaltNext {
    /// Another step.
    Do(HaltStep),
    /// Nothing; whether the daemon has ended.
    End(bool),
}

/// What follows the last step of stopping the daemon: of a request or a command whether it succeeded,
/// of a look whether the daemon has ended.
pub open spec fn halt_next(last: Option<(HaltStep, bool)>) -> HaltNext {
    match last {
        None => HaltNext::Do(HaltStep::Ask),
        Some((HaltStep::Ask, true)) => HaltNext::Do(HaltStep::WaitForAsk),
        Some((HaltStep::Ask, false)) => HaltNext::Do(HaltStep::LookAfterAsk),
        Some((HaltStep::WaitForAsk, _)) => HaltNext::Do(HaltStep::LookAfterAsk),
        Some((HaltStep::LookAfterAsk, true)) => HaltNext::End(true),
        Some((HaltStep::LookAfterAsk, false)) => HaltNext::Do(HaltStep::Kill),
        Some((HaltStep::Kill, true)) => HaltNext::Do(HaltStep::WaitForKill),
        Some((HaltStep::Kill, false)) => HaltNext::Do(HaltStep::LookAfterKill),
        Some((HaltStep::WaitForKill, _)) => HaltNext::Do(HaltStep::LookAfterKill),
        Some((HaltStep::LookAfterKill, down)) => HaltNext::End(down),
    }
}

/// What follows the last step of stopping the daemon.
pub fn next_halt_step(last: Option<(HaltStep, bool)>) -> (res: HaltNext)
    ensures
        res == halt_next(last),
{
    match last {
        None => HaltNext::Do(HaltStep::Ask),
        Some((HaltStep::Ask, done)) => if done {
            HaltNext::Do(HaltStep::WaitForAsk)
        } else {
            HaltNext::Do(HaltStep::LookAfterAsk)
        },
        Some((HaltStep::WaitForAsk, _)) => HaltNext::Do(HaltStep::LookAfterAsk),
        Some((HaltStep::LookAfterAsk, down)) => if down {
            HaltNext::End(true)
        } else {
            HaltNext::Do(HaltStep::Kill)
        },
        Some((HaltStep::Kill, done)) => if done {
            HaltNext::Do(HaltStep::WaitForKill)
        } else {
            HaltNext::Do(HaltStep::LookAfterKill)
        },
        Some((HaltStep::WaitForKill, _)) => HaltNext::Do(HaltStep::LookAfterKill),
        Some((HaltStep::LookAfterKill, down)) => HaltNext::End(down),
    }
}

/// Whether the daemon has ended is told as a look found it; it is never killed after a look that found
/// it gone.
pub proof fn law_a_halt_is_seen(last: Option<(HaltStep, bool)>)
    ensures
        halt_next(last) matches HaltNext::End(down) ==> {
            &&& last matches Some((step, seen))
            &&& step == HaltStep::LookAfterAsk || step == HaltStep::LookAfterKill
            &&& down == seen
        },
        halt_next(last) == HaltNext::Do(HaltStep::Kill) ==> last == Some(
            (HaltStep::LookAfterAsk, false),
        ),
{
}

/// How many milliseconds a daemon is given to end: one that is still there would count as running.
pub const SHUTDOWN_WAIT_MILLIS: u64 = 15_000;

/// How many milliseconds pass between two looks for it.
pub const SHUTDOWN_POLL_MILLIS: u64 = 500;

/// Whether a daemon that was told to end is looked for again, `elapsed` milliseconds after.
pub fn still_waits(elapsed: u64, down: bool) -> (res: bool)
    ensures
        res == (elapsed < SHUTDOWN_WAIT_MILLIS && !down),
{
    elapsed < SHUTDOWN_WAIT_MILLIS && !down
}

/// What is shown while the daemon is started, where everything is told at once.
pub const STARTING_LABEL: &'static str =
    "starting the index daemon (a cold cache can take up to ~90 s)";

/// What is told when the daemon could not be stopped.
pub const STOP_FAILED_NOTE: &'static str =
    "\nNote: could not stop the running daemon.\nThe deep sweep will scan the drives already indexed.";

/// What is told when the daemon could not be started.
pub open spec fn start_failure_text(elevate_daemon: bool, err: Seq<char>) -> Seq<char> {
    if elevate_daemon {
        "\nNote: the elevated index daemon a full deep sweep needs could not be\nstarted (the UAC prompt was likely declined: "@
            + err + ").\nThe deep sweep will scan the drives already indexed."@
    } else {
        "\nNote: the index daemon could not be started ("@ + err
            + ").\nThe deep sweep will scan the drives already indexed."@
    }
}

/// What is told when the daemon could not be started.
pub fn start_failure_note(elevate_daemon: bool, err: &str) -> (res: String)
    ensures
        res@ == start_failure_text(elevate_daemon, err@),
{
    if elevate_daemon {
        cat3(
            "\nNote: the elevated index daemon a full deep sweep needs could not be\nstarted (the UAC prompt was likely declined: ",
            err,
            ").\nThe deep sweep will scan the drives already indexed.",
        )
    } else {
        cat3(
            "\nNote: the index daemon could not be started (",
            err,
            ").\nThe deep sweep will scan the drives already indexed.",
        )
    }
}

/// How it went to start the daemon again.
#[derive(Debug)]
pub enum Reload {
    /// It could not be stopped.
    NotStopped,
    /// It could not be started, for a reason.
    NotStarted(String),
    /// It was started, and manages these drives now.
    Started(Vec<DriveLetter>),
}

/// What is told of how it went.  That the daemon was started again is told only once it was, and only
/// where that was not told before.
pub open spec fn reload_text(
    quiet: bool,
    elevate_daemon: bool,
    reason: Seq<char>,
    all: Seq<DriveLetter>,
    reload: Reload,
) -> Seq<Seq<char>> {
    match reload {
        Reload::NotStopped => seq![STOP_FAILED_NOTE@],
        Reload::NotStarted(err) => seq![start_failure_text(elevate_daemon, err@)],
        Reload::Started(managed) => (if quiet {
            seq![
                "\nNote: the index daemon was restarted for the deep sweep ("@ + reason + ")."@,
            ]
        } else {
            Seq::empty()
        }) + (if uncovered(all, managed@).len() > 0 {
            seq![
                "  daemon covers "@ + text::decimal(
                    (all.len() - uncovered(all, managed@).len()) as nat,
                ) + " of "@ + text::decimal(all.len())
                    + " drive(s); the deep sweep will scan those."@,
            ]
        } else {
            Seq::empty()
        }),
    }
}

proof fn lemma_uncovered_len(all: Seq<DriveLetter>, managed: Seq<DriveLetter>)
    ensures
        uncovered(all, managed).len() <= all.len(),
    decreases all.len(),
{
    if all.len() > 0 {
        lemma_uncovered_len(all.drop_last(), managed);
    }
}

/// What is told of how it went to start the daemon again.
pub fn reload_narration(
    quiet: bool,
    elevate_daemon: bool,
    reason: &str,
    all: &[DriveLetter],
    reload: &Reload,
) -> (res: Vec<String>)
    ensures
        text::texts(res@) == reload_text(quiet, elevate_daemon, reason@, all@, *reload),
{
    let mut res: Vec<String> = Vec::new();
    assert(text::texts(res@) =~= Seq::empty());
    match reload {
        Reload::NotStopped => push_line(&mut res, STOP_FAILED_NOTE.to_owned()),
        Reload::NotStarted(err) => push_line(&mut res, start_failure_note(elevate_daemon, err)),
        Reload::Started(managed) => {
            if quiet {
                push_line(
                    &mut res,
                    cat3(
                        "\nNote: the index daemon was restarted for the deep sweep (",
                        reason,
                        ").",
                    ),
                );
            }
            let missing: usize = missing_drives(all, managed).len();
            proof {
                lemma_uncovered_len(all@, managed@);
            }
            if missing > 0 {
                push_line(
                    &mut res,
                    cat5(
                        "  daemon covers ",
                        &show_u64((all.len() - missing) as u64),
                        " of ",
                        &show_u64(all.len() as u64),
                        " drive(s); the deep sweep will scan those.",
                    ),
                );
            }
        },
    }
    assert(text::texts(res@) =~= reload_text(quiet, elevate_daemon, reason@, all@, *reload));
    res
}

/// The action that starts the daemon with every drive, the cache and the default log.
pub fn start_action(elevate: bool) -> (res: DaemonAction)
    ensures
        res@ == args::ActionView::Start(
            args::StartView {
                mft_file: Seq::empty(),
                data_dir: None,
                drives: Seq::empty(),
                no_cache: false,
                log_level: "info"@,
                log_file: None,
                elevate,
            },
        ),
{
    let res = DaemonAction::Start {
        mft_file: Vec::new(),
        data_dir: None,
        drives: Vec::new(),
        no_cache: false,
        log_level: "info".to_owned(),
        log_file: None,
        elevate,
    };
    assert(res@->Start_0.mft_file =~= Seq::empty());
    res
}

/// What is uncovered is exactly the drives that are not managed.
pub proof fn law_uncovered_drives_are_not_managed(
    all: Seq<DriveLetter>,
    managed: Seq<DriveLetter>,
    drive: DriveLetter,
)
    ensures
        uncovered(all, managed).contains(drive) <==> all.contains(drive) && !managed.contains(
            drive,
        ),
    decreases all.len(),
{
    if all.len() > 0 {
        let before = all.drop_last();
        law_uncovered_drives_are_not_managed(before, managed, drive);
        assert(all =~= before.push(all.last()));
        if managed.contains(all.last()) {
            assert(all.contains(drive) <==> before.contains(drive) || drive == all.last()) by {
                if before.contains(drive) {
                    let k = choose|k: int| 0 <= k < before.len() && before[k] == drive;
                    assert(all[k] == drive);
                }
                if drive == all.last() {
                    assert(all[all.len() - 1] == drive);
                }
            }
        } else {
            let rest = uncovered(before, managed);
            let now = rest.push(all.last());
            assert(now.contains(drive) <==> rest.contains(drive) || drive == all.last()) by {
                if rest.contains(drive) {
                    let k = choose|k: int| 0 <= k < rest.len() && rest[k] == drive;
                    assert(now[k] == drive);
                }
                if drive == all.last() {
                    assert(now[now.len() - 1] == drive);
                }
            }
            assert(all.contains(drive) <==> before.contains(drive) || drive == all.last()) by {
                if before.contains(drive) {
                    let k = choose|k: int| 0 <= k < before.len() && before[k] == drive;
                    assert(all[k] == drive);
                }
                if drive == all.last() {
                    assert(all[all.len() - 1] == drive);
                }
            }
        }
    }
}

/// The daemon is loaded anew exactly where there are drives and it misses one of them or is of
/// another version than this program; what is missing are those of the drives that it does not
/// manage, in their order.
pub proof fn law_when_the_daemon_is_loaded_anew(
    quiet: bool,
    all: &[DriveLetter],
    managed: &[DriveLetter],
    theirs: Option<String>,
    own: &str,
    other: Option<String>,
    missing: Vec<DriveLetter>,
    complete: bool,
    start: Option<ReloadStart>,
)
    requires
        call_ensures(daemon_version_mismatch, (theirs, own), other),
        call_ensures(missing_drives, (all, managed), missing),
        call_ensures(coverage_complete, (all, managed, &other), complete),
        call_ensures(begin_reload, (quiet, all, managed, &other, own), start),
    ensures
        missing@ == all@.filter(|drive: DriveLetter| !managed@.contains(drive)),
        other is Some <==> theirs is Some && theirs->Some_0@ != own@,
        other is Some ==> other->Some_0@ == theirs->Some_0@,
        complete <==> all@.len() == 0 || (missing@.len() == 0 && other is None),
        start is Some <==> !complete,
        start matches Some(begun) ==> (begun.announcement is Some <==> !quiet),
{
    lemma_uncovered(all@, managed@);
}

proof fn lemma_uncovered(all: Seq<DriveLetter>, managed: Seq<DriveLetter>)
    ensures
        uncovered(all, managed) == all.filter(|drive: DriveLetter| !managed.contains(drive)),
    decreases all.len(),
{
    reveal(Seq::filter);
    if all.len() > 0 {
        lemma_uncovered(all.drop_last(), managed);
    }
    assert(uncovered(all, managed) =~= all.filter(|drive: DriveLetter| !managed.contains(drive)));
}

/// The reason that is told names what is the case, the other version, the missing drives, or both.
pub proof fn law_the_reason_names_what_is_the_case(
    missing: &[DriveLetter],
    theirs: &Option<String>,
    own: &str,
    res: String,
)
    requires
        call_ensures(reload_reason, (missing, theirs, own), res),
    ensures
        ({
            let drives = text::joined(
                missing@.map_values(|drive: DriveLetter| seq![drive.letter()]),
                ", "@,
            );
            &&& *theirs is None ==> res@ == "it was missing "@ + drives
            &&& theirs matches Some(version) ==> if missing@.len() == 0 {
                res@ == "it was running v"@ + version@ + ", not this CLI's v"@ + own@
            } else {
                res@ == "it was running v"@ + version@ + ", not this CLI's v"@ + own@ + (
                ", and was missing "@ + drives)
            }
        }),
{
    assert(drive::drive_texts(missing@) =~= missing@.map_values(
        |drive: DriveLetter| seq![drive.letter()],
    ));
}

/// The daemon is brought to an end by asking it, and killed only where a look after that still finds
/// it; each is waited for where it went well, and a look decides whether it is down.
pub proof fn law_the_way_to_an_end(done: bool, first: HaltNext, step: HaltStep, next: HaltNext)
    requires
        call_ensures(next_halt_step, (None,), first),
        call_ensures(next_halt_step, (Some((step, done)),), next),
    ensures
        first == HaltNext::Do(HaltStep::Ask),
        step == HaltStep::Ask ==> next == HaltNext::Do(
            if done {
                HaltStep::WaitForAsk
            } else {
                HaltStep::LookAfterAsk
            },
        ),
        step == HaltStep::WaitForAsk ==> next == HaltNext::Do(HaltStep::LookAfterAsk),
        step == HaltStep::LookAfterAsk ==> next == (if done {
            HaltNext::End(true)
        } else {
            HaltNext::Do(HaltStep::Kill)
        }),
        step == HaltStep::Kill ==> next == HaltNext::Do(
            if done {
                HaltStep::WaitForKill
            } else {
                HaltStep::LookAfterKill
            },
        ),
        step == HaltStep::WaitForKill ==> next == HaltNext::Do(HaltStep::LookAfterKill),
        step == HaltStep::LookAfterKill ==> next == HaltNext::End(done),
{
}

/// What is told of loading the daemon anew: that it could not be stopped or started, why; where it
/// was, quietly, the reason; and how many of the drives are covered exactly where some are not.
pub proof fn law_what_is_told_of_the_daemon(
    quiet: bool,
    elevate: bool,
    reason: &str,
    all: &[DriveLetter],
    reload: &Reload,
    res: Vec<String>,
)
    requires
        call_ensures(reload_narration, (quiet, elevate, reason, all, reload), res),
    ensures
        *reload is NotStopped ==> res@.len() == 1 && res@[0]@
            == "\nNote: could not stop the running daemon.\nThe deep sweep will scan the drives already indexed."@,
        *reload is NotStarted ==> res@.len() == 1,
        reload matches Reload::NotStarted(err) ==> (!elevate ==> res@[0]@
            == "\nNote: the index daemon could not be started ("@ + err@
            + ").\nThe deep sweep will scan the drives already indexed."@),
        reload matches Reload::Started(managed) ==> {
            let covered = all@.filter(|drive: DriveLetter| !managed@.contains(drive)).len();
            &&& res@.len() == (if quiet {
                1nat
            } else {
                0
            }) + (if covered > 0 {
                1nat
            } else {
                0
            })
            &&& quiet ==> res@[0]@ == "\nNote: the index daemon was restarted for the deep sweep ("@
                + reason@ + ")."@
            &&& covered > 0 ==> res@[res@.len() - 1]@ == "  daemon covers "@ + text::decimal(
                (all@.len() - covered) as nat,
            ) + " of "@ + text::decimal(all@.len()) + " drive(s); the deep sweep will scan those."@
        },
{
    let lines = text::texts(res@);
    assert(lines.len() == res@.len());
    assert(forall|i: int| 0 <= i < res@.len() ==> #[trigger] lines[i] == res@[i]@);
    if res@.len() > 0 {
        assert(lines[0] == res@[0]@);
        assert(lines[lines.len() - 1] == res@[res@.len() - 1]@);
    }
    if let Reload::Started(managed) = *reload {
        lemma_uncovered(all@, managed@);
    }
}

/// The daemon that is started for a search has no sources, options or log file of its own, and asks
/// for more rights exactly where that was chosen; it is waited for until it is down, fifteen seconds
/// at most.
pub proof fn law_how_the_daemon_is_started(elevate: bool, res: DaemonAction, elapsed: u64, down: bool, waits: bool)
    requires
        call_ensures(start_action, (elevate,), res),
        call_ensures(still_waits, (elapsed, down), waits),
    ensures
        res is Start,
        res->elevate == elevate,
        res->Start_mft_file@.len() == 0 && res->Start_drives@.len() == 0,
        waits <==> !down && elapsed < 15_000,
{
    assert(text::texts(res->Start_mft_file@).len() == res->Start_mft_file@.len());
}

} // verus!
