//! What the effects of an uninstallation are asked to do: names, command lines, scripts and the
//! meaning of what comes back.

use super::remove;
use super::remove::{EffectError, ElevationDeclined};
use crate::model::Scope;
use crate::platform;
use crate::platform::{join_path, Platform};
use crate::text;
use crate::text::{
    cat2, cat3, cat5, cat6, eq_ignore_ascii_case, join, push_line, replace, show_i64, show_u64,
    strings,
};
use vstd::prelude::*;

verus! {

/// The name of the file that holds an executable.
pub open spec fn exe_name(platform: Platform, stem: Seq<char>) -> Seq<char> {
    if platform == Platform::Windows {
        stem + ".exe"@
    } else {
        stem
    }
}

/// The name of the file that holds an executable.
pub fn exe_file_name(platform: Platform, stem: &str) -> (res: String)
    ensures
        res@ == exe_name(platform, stem@),
{
    if platform == Platform::Windows {
        cat2(stem, ".exe")
    } else {
        stem.to_owned()
    }
}

/// A program and its arguments.
#[derive(Debug)]
pub struct CommandLine {
    /// The program.
    pub program: &'static str,
    /// Its arguments.
    pub args: Vec<String>,
    /// What running it is called when it fails.
    pub what: String,
}

/// The contents of a [`CommandLine`].
#[verifier::ext_equal]
pub struct CommandView {
    /// The program.
    pub program: Seq<char>,
    /// Its arguments.
    pub args: Seq<Seq<char>>,
    /// What running it is called when it fails.
    pub what: Seq<char>,
}

impl View for CommandLine {
    type V = CommandView;

    open spec fn view(&self) -> CommandView {
        CommandView { program: self.program@, args: text::texts(self.args@), what: self.what@ }
    }
}

// ---- deleting executables ----

/// Whether a path is one of those that run now; the case of ASCII letters does not count.
pub open spec fn runs_now(self_paths: Seq<Seq<char>>, path: Seq<char>) -> bool {
    exists|i: int|
        0 <= i < self_paths.len() && text::lowered(#[trigger] self_paths[i]) == text::lowered(path)
}

/// Whether a path is one of those that run now.
pub fn is_self(self_paths: &Vec<String>, path: &str) -> (res: bool)
    ensures
        res == runs_now(text::texts(self_paths@), path@),
{
    let ghost shown = text::texts(self_paths@);
    let mut i: usize = 0;
    while i < self_paths.len()
        invariant
            i <= self_paths@.len(),
            shown == text::texts(self_paths@),
            forall|k: int|
                0 <= k < i ==> text::lowered(#[trigger] shown[k]) != text::lowered(path@),
        decreases self_paths@.len() - i,
    {
        assert(shown[i as int] == self_paths@[i as int]@);
        if eq_ignore_ascii_case(&self_paths[i], path) {
            return true;
        }
        i += 1;
    }
    false
}

/// The files of executables in a directory, but for those that run now, which cannot be deleted in
/// place.
pub open spec fn deletable(
    platform: Platform,
    self_paths: Seq<Seq<char>>,
    dir: Seq<char>,
    stems: Seq<Seq<char>>,
) -> Seq<Seq<char>>
    decreases stems.len(),
{
    if stems.len() == 0 {
        Seq::empty()
    } else {
        let before = deletable(platform, self_paths, dir, stems.drop_last());
        let path = platform::joined(platform, dir, exe_name(platform, stems.last()));
        if runs_now(self_paths, path) {
            before
        } else {
            before.push(path)
        }
    }
}

/// The files of executables in a directory that can be deleted in place.
pub fn files_to_delete(
    platform: Platform,
    self_paths: &Vec<String>,
    dir: &str,
    stems: &[String],
) -> (res: Vec<String>)
    ensures
        text::texts(res@) == deletable(
            platform,
            text::texts(self_paths@),
            dir@,
            text::texts(stems@),
        ),
{
    let ghost names = text::texts(stems@);
    let mut res: Vec<String> = Vec::new();
    let mut i: usize = 0;
    proof {
        assert(names.take(0) =~= Seq::empty());
        assert(text::texts(res@) =~= Seq::empty());
    }
    while i < stems.len()
        invariant
            i <= stems@.len(),
            names == text::texts(stems@),
            text::texts(res@) == deletable(
                platform,
                text::texts(self_paths@),
                dir@,
                names.take(i as int),
            ),
        decreases stems@.len() - i,
    {
        proof {
            assert(names.take(i + 1).drop_last() =~= names.take(i as int));
            assert(names.take(i + 1).last() == stems@[i as int]@);
        }
        let path = join_path(platform, dir, &exe_file_name(platform, &stems[i]));
        if !is_self(self_paths, &path) {
            push_line(&mut res, path);
        }
        i += 1;
    }
    assert(names.take(i as int) =~= names);
    res
}

/// A file that could not be deleted, and why.
#[derive(Debug)]
pub struct FailedDelete {
    /// The file.
    pub path: String,
    /// Why it could not be deleted.
    pub error: String,
}

/// The texts of failures.
pub open spec fn failure_texts(failures: Seq<FailedDelete>) -> Seq<Seq<char>> {
    failures.map_values(|failure: FailedDelete| failure.path@ + ": "@ + failure.error@)
}

/// What deleting `total` executables comes to, after `failures` failed again.
pub open spec fn deleted_reply(failures: Seq<FailedDelete>, total: nat) -> remove::ReplyView {
    if failures.len() == 0 {
        remove::ReplyView::Done
    } else {
        remove::ReplyView::Failed(
            "could not remove "@ + text::decimal(failures.len()) + " of "@ + text::decimal(total)
                + " file(s): "@ + text::joined(failure_texts(failures), "; "@),
        )
    }
}

/// The result of deleting some executables, after what failed was tried once more: `failures` is
/// what failed again, `total` how many there were to delete.
pub fn delete_result(failures: &Vec<FailedDelete>, total: usize) -> (res: Result<(), EffectError>)
    ensures
        remove::reply_view(res) == deleted_reply(failures@, total as nat),
{
    if failures.len() == 0 {
        return Ok(());
    }
    let mut lines: Vec<String> = Vec::new();
    let ghost shown = failure_texts(failures@);
    let mut i: usize = 0;
    assert(text::texts(lines@) =~= shown.take(0));
    while i < failures.len()
        invariant
            i <= failures@.len(),
            shown == failure_texts(failures@),
            text::texts(lines@) == shown.take(i as int),
        decreases failures@.len() - i,
    {
        push_line(&mut lines, cat3(&failures[i].path, ": ", &failures[i].error));
        assert(text::texts(lines@) =~= shown.take(i + 1));
        i += 1;
    }
    assert(shown.take(i as int) =~= shown);
    Err(
        EffectError::Failed(
            cat6(
                "could not remove ",
                &show_u64(failures.len() as u64),
                " of ",
                &show_u64(total as u64),
                " file(s): ",
                &join(&lines, "; "),
            ),
        ),
    )
}

/// How many milliseconds pass before what could not be deleted is tried once more: a process that
/// was just stopped can hold its file for a moment.
pub const RETRY_SETTLE_MILLIS: u64 = 750;

/// What follows a pass over executables that are to be deleted.
#[derive(Debug)]
pub enum DeleteNext {
    /// After [`RETRY_SETTLE_MILLIS`], one more pass over the files that were not deleted.
    Retry(Vec<String>),
    /// Nothing; this is the result.
    End(Result<(), EffectError>),
}

/// What follows a pass over executables that are to be deleted: `failures` is what failed in it,
/// `total` how many there were in all.  What failed in the first pass is tried once more.
pub fn after_deletes(retried: bool, failures: &Vec<FailedDelete>, total: usize) -> (res: DeleteNext)
    ensures
        match res {
            DeleteNext::Retry(paths) => !retried && failures@.len() > 0 && text::texts(paths@)
                == failures@.map_values(|failure: FailedDelete| failure.path@),
            DeleteNext::End(result) => (retried || failures@.len() == 0) && remove::reply_view(result)
                == deleted_reply(failures@, total as nat),
        },
{
    if retried || failures.len() == 0 {
        return DeleteNext::End(delete_result(failures, total));
    }
    let mut paths: Vec<String> = Vec::new();
    let ghost wanted = failures@.map_values(|failure: FailedDelete| failure.path@);
    let mut i: usize = 0;
    assert(text::texts(paths@) =~= wanted.take(0));
    while i < failures.len()
        invariant
            i <= failures@.len(),
            wanted == failures@.map_values(|failure: FailedDelete| failure.path@),
            text::texts(paths@) == wanted.take(i as int),
        decreases failures@.len() - i,
    {
        push_line(&mut paths, failures[i].path.clone());
        assert(text::texts(paths@) =~= wanted.take(i + 1));
        i += 1;
    }
    assert(wanted.take(i as int) =~= wanted);
    DeleteNext::Retry(paths)
}

/// The result of one removal: what is not there needs no removal.
pub fn removal_result(error: Option<String>, confirmed_absent: bool) -> (res: Option<String>)
    ensures
        res == if confirmed_absent {
            None
        } else {
            error
        },
{
    if confirmed_absent {
        None
    } else {
        error
    }
}

/// The failure of something that was to be done, and why it failed.
pub fn failed(what: &str, error: &str) -> (res: EffectError)
    ensures
        res matches EffectError::Failed(told) && told@ == what@ + ": "@ + error@,
{
    EffectError::Failed(cat3(what, ": ", error))
}

/// The result of removing a file or a directory; `error` is what the attempt came back with.
pub fn removed(path: &str, error: Option<String>, confirmed_absent: bool) -> (res: Result<
    (),
    EffectError,
>)
    ensures
        remove::reply_view(res) == match error {
            Some(error) => if confirmed_absent {
                remove::ReplyView::Done
            } else {
                remove::ReplyView::Failed("removing "@ + path@ + ": "@ + error@)
            },
            None => remove::ReplyView::Done,
        },
{
    match removal_result(error, confirmed_absent) {
        Some(error) => Err(failed(&cat2("removing ", path), &error)),
        None => Ok(()),
    }
}

// ---- commands ----

/// The command that stops a process.
pub fn stop_command(platform: Platform, pid: u32) -> (res: CommandLine)
    ensures
        res@.what == "stop of pid "@ + text::decimal(pid as nat),
        platform == Platform::Windows ==> res@.program == "taskkill"@ && res@.args
            == seq!["/PID"@, text::decimal(pid as nat), "/T"@, "/F"@],
        platform != Platform::Windows ==> res@.program == "kill"@ && res@.args
            == seq![text::decimal(pid as nat)],
{
    let shown = show_u64(pid as u64);
    let what = cat2("stop of pid ", &shown);
    if platform == Platform::Windows {
        let res = CommandLine {
            program: "taskkill",
            args: strings(&["/PID", shown.as_str(), "/T", "/F"]),
            what,
        };
        assert(res@.args =~= seq!["/PID"@, shown@, "/T"@, "/F"@]);
        res
    } else {
        let res = CommandLine { program: "kill", args: strings(&[shown.as_str()]), what };
        assert(res@.args =~= seq![shown@]);
        res
    }
}

/// The command that hands a package to WinGet for its removal.
pub open spec fn winget_uninstall_args(package_id: Seq<char>, scope: Scope) -> Seq<Seq<char>> {
    seq!["uninstall"@, "--id"@, package_id, "--silent"@, "--accept-source-agreements"@] + match scope {
        Scope::Machine => seq!["--scope"@, "machine"@],
        Scope::User => seq!["--scope"@, "user"@],
        Scope::Unknown => Seq::empty(),
    }
}

/// The command that hands a package to WinGet for its removal.
pub fn winget_uninstall(package_id: &str, scope: Scope) -> (res: CommandLine)
    ensures
        res@.program == "winget"@,
        res@.args == winget_uninstall_args(package_id@, scope),
        res@.what == "winget uninstall "@ + package_id@,
{
    let mut args = strings(
        &["uninstall", "--id", package_id, "--silent", "--accept-source-agreements"],
    );
    assert(text::texts(args@) =~= seq![
        "uninstall"@,
        "--id"@,
        package_id@,
        "--silent"@,
        "--accept-source-agreements"@,
    ]);
    match scope {
        Scope::Machine => {
            push_line(&mut args, "--scope".to_owned());
            push_line(&mut args, "machine".to_owned());
        },
        Scope::User => {
            push_line(&mut args, "--scope".to_owned());
            push_line(&mut args, "user".to_owned());
        },
        Scope::Unknown => {},
    }
    assert(text::texts(args@) =~= winget_uninstall_args(package_id@, scope));
    CommandLine { program: "winget", args, what: cat2("winget uninstall ", package_id) }
}

/// The command that deletes a service.
pub fn delete_service_command(service: &str) -> (res: CommandLine)
    ensures
        res@ == (CommandView {
            program: "sc"@,
            args: seq!["delete"@, service@],
            what: "sc delete "@ + service@,
        }),
{
    let res = CommandLine {
        program: "sc",
        args: strings(&["delete", service]),
        what: cat2("sc delete ", service),
    };
    assert(res@.args =~= seq!["delete"@, service@]);
    res
}

/// Why a service cannot be removed off Windows.
pub fn no_service_here(service: &str) -> (res: EffectError)
    ensures
        res matches EffectError::Failed(error) && error@ == "cannot remove service "@ + service@
            + ": the broker is Windows-only"@,
{
    EffectError::Failed(
        cat3("cannot remove service ", service, ": the broker is Windows-only"),
    )
}

/// A text for a single-quoted string of PowerShell: each quote is doubled.
pub open spec fn powershell_quoted(value: Seq<char>) -> Seq<char> {
    text::replaced(value, '\'', "''"@)
}

/// The script that removes a directory from the PATH of the user and of the machine, and writes
/// neither unless it holds the directory.
pub open spec fn path_script(dir: Seq<char>) -> Seq<char> {
    "$d='"@ + powershell_quoted(dir)
        + "'; foreach($t in 'User','Machine'){ $p=[Environment]::GetEnvironmentVariable('Path',$t); if($p){ $new=($p -split ';' | Where-Object { $_ -and ($_ -ne $d) }) -join ';'; if($new -ne $p){ [Environment]::SetEnvironmentVariable('Path',$new,$t) } } }"@
}

/// The arguments that run a script in PowerShell.
pub open spec fn powershell_args(script: Seq<char>) -> Seq<Seq<char>> {
    seq!["-NoProfile"@, "-NonInteractive"@, "-Command"@, script]
}

fn powershell(script: String, what: String) -> (res: CommandLine)
    ensures
        res@.program == "powershell"@,
        res@.args == powershell_args(script@),
        res@.what == what@,
{
    let res = CommandLine {
        program: "powershell",
        args: strings(&["-NoProfile", "-NonInteractive", "-Command", script.as_str()]),
        what,
    };
    assert(res@.args =~= powershell_args(script@));
    res
}

/// The command that removes a directory from PATH on Windows.
pub fn remove_path_command(dir: &str) -> (res: CommandLine)
    ensures
        res@.program == "powershell"@,
        res@.args == powershell_args(path_script(dir@)),
        res@.what == "removing "@ + dir@ + " from PATH"@,
{
    powershell(
        cat3(
            "$d='",
            &replace(dir, '\'', "''"),
            "'; foreach($t in 'User','Machine'){ $p=[Environment]::GetEnvironmentVariable('Path',$t); if($p){ $new=($p -split ';' | Where-Object { $_ -and ($_ -ne $d) }) -join ';'; if($new -ne $p){ [Environment]::SetEnvironmentVariable('Path',$new,$t) } } }",
        ),
        cat3("removing ", dir, " from PATH"),
    )
}

/// What is told about PATH where the shell owns it.
pub open spec fn path_hint_text(dir: Seq<char>) -> Seq<char> {
    "  note: "@ + dir
        + " was a UFFS-only directory; if you added it to your shell PATH (~/.profile or ~/.zshrc), you can remove that line now"@
}

/// What is told about PATH where the shell owns it.
pub fn path_hint(dir: &str) -> (res: String)
    ensures
        res@ == path_hint_text(dir@),
{
    cat3(
        "  note: ",
        dir,
        " was a UFFS-only directory; if you added it to your shell PATH (~/.profile or ~/.zshrc), you can remove that line now",
    )
}

/// The commands that delete files in a script.
pub open spec fn del_texts(paths: Seq<Seq<char>>) -> Seq<Seq<char>> {
    paths.map_values(|path: Seq<char>| "del /f /q \""@ + path + "\""@)
}

/// The script that waits until this process has ended, about two seconds, and then deletes files.
pub open spec fn self_delete_text(paths: Seq<Seq<char>>) -> Seq<char> {
    "ping 127.0.0.1 -n 3 >nul & "@ + text::joined(del_texts(paths), " & "@)
        + " & rem self-delete"@
}

/// The script that deletes files once this process has ended; none where there is nothing to delete.
pub fn self_delete_script(paths: &Vec<String>) -> (res: Option<String>)
    ensures
        match res {
            Some(script) => paths@.len() > 0 && script@ == self_delete_text(text::texts(paths@)),
            None => paths@.len() == 0,
        },
{
    if paths.len() == 0 {
        return None;
    }
    let ghost shown = del_texts(text::texts(paths@));
    let mut deletes: Vec<String> = Vec::new();
    let mut i: usize = 0;
    assert(text::texts(deletes@) =~= shown.take(0));
    while i < paths.len()
        invariant
            i <= paths@.len(),
            shown == del_texts(text::texts(paths@)),
            text::texts(deletes@) == shown.take(i as int),
        decreases paths@.len() - i,
    {
        push_line(&mut deletes, cat3("del /f /q \"", &paths[i], "\""));
        proof {
            assert(text::texts(paths@)[i as int] == paths@[i as int]@);
            assert(text::texts(deletes@) =~= shown.take(i + 1));
        }
        i += 1;
    }
    assert(shown.take(i as int) =~= shown);
    Some(cat3("ping 127.0.0.1 -n 3 >nul & ", &join(&deletes, " & "), " & rem self-delete"))
}

// ---- the helper with more rights ----

/// The exit code of the launching script when the rights were not obtained.
pub const UAC_NOT_GRANTED_EXIT: i32 = 223;

/// The script that starts this program again with more rights to remove a service.
pub open spec fn uac_script(exe: Seq<char>, service: Seq<char>) -> Seq<char> {
    "try { $p = Start-Process -FilePath '"@ + powershell_quoted(exe)
        + "' -ArgumentList '--uninstall','--remove-service-helper','"@ + powershell_quoted(service)
        + "' -Verb RunAs -Wait -PassThru -WindowStyle Hidden; exit $p.ExitCode } catch { exit 223 }"@
}

/// Where a service is removed.
#[derive(Debug, Clone, Copy, PartialEq, Eq, Structural)]
pub enum ServiceRoute {
    /// In a process that is started with more rights.
    Helper,
    /// In this process.
    Here,
    /// There are no services.
    Nowhere,
}

/// Where a service is removed.  A process is started for it only where that was chosen and this one
/// lacks the rights.
pub fn service_route(platform: Platform, elevate_via_uac: bool, elevated: bool) -> (res:
    ServiceRoute)
    ensures
        res == if platform != Platform::Windows {
            ServiceRoute::Nowhere
        } else if elevate_via_uac && !elevated {
            ServiceRoute::Helper
        } else {
            ServiceRoute::Here
        },
{
    if platform != Platform::Windows {
        ServiceRoute::Nowhere
    } else if elevate_via_uac && !elevated {
        ServiceRoute::Helper
    } else {
        ServiceRoute::Here
    }
}

/// What finding this program for the helper is called when it fails.
pub const UAC_EXE_LOOKUP: &'static str = "locating uffs.exe for the elevated helper";

/// What starting the helper is called when it fails.
pub const UAC_SPAWN: &'static str = "spawning the elevated service-removal helper";

/// The command that starts this program again with more rights to remove a service.
pub fn uac_command(exe: &str, service: &str) -> (res: CommandLine)
    ensures
        res@.program == "powershell"@,
        res@.args == powershell_args(uac_script(exe@, service@)),
        res@.what == UAC_SPAWN@,
{
    powershell(
        cat5(
            "try { $p = Start-Process -FilePath '",
            &replace(exe, '\'', "''"),
            "' -ArgumentList '--uninstall','--remove-service-helper','",
            &replace(service, '\'', "''"),
            "' -Verb RunAs -Wait -PassThru -WindowStyle Hidden; exit $p.ExitCode } catch { exit 223 }",
        ),
        UAC_SPAWN.to_owned(),
    )
}

/// An exit code as it is shown, if there is one.
pub open spec fn exit_text(code: Option<i32>) -> Seq<char> {
    match code {
        Some(code) => "Some("@ + text::signed_decimal(code as int) + ")"@,
        None => "None"@,
    }
}

/// What the exit of the helper means: `still_installed` tells whether the service was found
/// afterwards.
pub fn uac_result(code: Option<i32>, still_installed: bool, service: &str) -> (res: Result<
    (),
    EffectError,
>)
    ensures
        remove::reply_view(res) == if code == Some(0i32) {
            if still_installed {
                remove::ReplyView::Failed(
                    "elevated helper reported success but service "@ + service@
                        + " is still installed"@,
                )
            } else {
                remove::ReplyView::Done
            }
        } else if code == Some(UAC_NOT_GRANTED_EXIT) {
            remove::ReplyView::Declined
        } else {
            remove::ReplyView::Failed(
                "elevated service-removal helper failed (exit "@ + exit_text(code) + ") \u{2014} "@
                    + service@ + " may still be installed"@,
            )
        },
{
    match code {
        Some(0) => if still_installed {
            Err(
                EffectError::Failed(
                    cat3(
                        "elevated helper reported success but service ",
                        service,
                        " is still installed",
                    ),
                ),
            )
        } else {
            Ok(())
        },
        Some(223) => Err(EffectError::Declined(ElevationDeclined)),
        other => {
            let shown = match other {
                Some(code) => cat3("Some(", &show_i64(code as i64), ")"),
                None => "None".to_owned(),
            };
            Err(
                EffectError::Failed(
                    cat5(
                        "elevated service-removal helper failed (exit ",
                        &shown,
                        ") \u{2014} ",
                        service,
                        " may still be installed",
                    ),
                ),
            )
        },
    }
}

/// How a command that was run without output ended.
#[derive(Debug)]
pub enum Ended {
    /// It succeeded.
    Well,
    /// It did not succeed; how it exited.
    Badly(String),
    /// It was not started; why.
    NotStarted(String),
}

/// The result of a command that was run without output.
pub fn exit_result(what: &str, ended: Ended) -> (res: Result<(), EffectError>)
    ensures
        remove::reply_view(res) == match ended {
            Ended::Well => remove::ReplyView::Done,
            Ended::Badly(status) => remove::ReplyView::Failed(
                what@ + " exited with "@ + status@,
            ),
            Ended::NotStarted(error) => remove::ReplyView::Failed(
                "spawning "@ + what@ + ": "@ + error@,
            ),
        },
{
    match ended {
        Ended::Well => Ok(()),
        Ended::Badly(status) => Err(EffectError::Failed(cat3(what, " exited with ", &status))),
        Ended::NotStarted(error) => Err(failed(&cat2("spawning ", what), &error)),
    }
}

// ---- stopping a process ----

/// A step of stopping a process.
#[derive(Debug, Clone, Copy, PartialEq, Eq, Structural)]
pub enum StopStep {
    /// Ask the daemon to end.  This takes no rights, so it ends one that has more of them too.
    Ask,
    /// Run the command that looks for the daemon and ends it.
    Handler,
    /// End the process by its id.
    Terminate,
    /// Wait until the daemon is gone and its file is no longer locked.
    Wait,
}

/// What follows a step of stopping a process.
#[derive(Debug, Clone, Copy, PartialEq, Eq, Structural)]
pub enum StopNext {
    /// Another step.
    Do(StopStep),
    /// Nothing; the result is that of the last step.
    End,
}

/// What follows the last step of stopping a process, and whether that step succeeded.  The process id
/// of a daemon can be out of date, so it is the last resort.
pub open spec fn stop_next(daemon: bool, last: Option<(StopStep, bool)>) -> StopNext {
    match last {
        None => StopNext::Do(
            if daemon {
                StopStep::Ask
            } else {
                StopStep::Terminate
            },
        ),
        Some((StopStep::Ask, done)) => StopNext::Do(
            if done {
                StopStep::Wait
            } else {
                StopStep::Handler
            },
        ),
        Some((StopStep::Handler, done)) => StopNext::Do(
            if done {
                StopStep::Wait
            } else {
                StopStep::Terminate
            },
        ),
        Some((StopStep::Terminate, done)) => if daemon && done {
            StopNext::Do(StopStep::Wait)
        } else {
            StopNext::End
        },
        Some((StopStep::Wait, _)) => StopNext::End,
    }
}

/// What follows the last step of stopping a process.
pub fn next_stop_step(component: &str, last: Option<(StopStep, bool)>) -> (res: StopNext)
    ensures
        res == stop_next(component@ == "daemon"@, last),
{
    let daemon = text::same(component, "daemon");
    match last {
        None => if daemon {
            StopNext::Do(StopStep::Ask)
        } else {
            StopNext::Do(StopStep::Terminate)
        },
        Some((StopStep::Ask, done)) => if done {
            StopNext::Do(StopStep::Wait)
        } else {
            StopNext::Do(StopStep::Handler)
        },
        Some((StopStep::Handler, done)) => if done {
            StopNext::Do(StopStep::Wait)
        } else {
            StopNext::Do(StopStep::Terminate)
        },
        Some((StopStep::Terminate, done)) => if daemon && done {
            StopNext::Do(StopStep::Wait)
        } else {
            StopNext::End
        },
        Some((StopStep::Wait, _)) => StopNext::End,
    }
}

/// How many milliseconds a stopped daemon is waited for.
pub const DOWN_WAIT_MILLIS: u64 = 10_000;

/// How many milliseconds pass between two looks for it.
pub const DOWN_POLL_MILLIS: u64 = 250;

/// How many milliseconds are given to the system afterwards: a file stays locked for a moment after
/// the daemon is gone.
pub const IMAGE_SETTLE_MILLIS: u64 = 500;

/// Whether a stopped daemon is looked for again, `elapsed` milliseconds after the wait began.
pub fn keeps_waiting(elapsed: u64, reachable: bool) -> (res: bool)
    ensures
        res == (elapsed < DOWN_WAIT_MILLIS && reachable),
{
    elapsed < DOWN_WAIT_MILLIS && reachable
}

// ---- laws ----

/// Stopping a daemon ends well only after it was waited for, so that its file can be deleted next;
/// and it fails only where ending it by its id failed.
pub proof fn law_a_stopped_daemon_is_waited_for(last: Option<(StopStep, bool)>)
    requires
        stop_next(true, last) == StopNext::End,
    ensures
        last matches Some((step, done)) && (step == StopStep::Wait || (step == StopStep::Terminate
            && !done)),
{
}

/// No executable that runs now is deleted in place.
pub proof fn law_running_executables_stay(
    platform: Platform,
    self_paths: Seq<Seq<char>>,
    dir: Seq<char>,
    stems: Seq<Seq<char>>,
    i: int,
)
    requires
        0 <= i < deletable(platform, self_paths, dir, stems).len(),
    ensures
        !runs_now(self_paths, deletable(platform, self_paths, dir, stems)[i]),
    decreases stems.len(),
{
    let before = deletable(platform, self_paths, dir, stems.drop_last());
    if i < before.len() {
        law_running_executables_stay(platform, self_paths, dir, stems.drop_last(), i);
    }
}

/// How many quotes stand directly before place `k`.
pub open spec fn quotes_before(value: Seq<char>, k: int) -> nat
    decreases k,
{
    if 0 < k <= value.len() && value[k - 1] == '\'' {
        1 + quotes_before(value, k - 1)
    } else {
        0
    }
}

proof fn lemma_quotes_before(value: Seq<char>, tail: Seq<char>, k: int)
    requires
        0 <= k <= value.len(),
    ensures
        quotes_before(value + tail, k) == quotes_before(value, k),
    decreases k,
{
    if k > 0 {
        lemma_quotes_before(value, tail, k - 1);
    }
}

/// In a text for a single-quoted string of PowerShell the quotes come in even runs: before its
/// end, and before each character that is no quote, stands an even number of them.
pub proof fn law_quotes_come_in_even_runs(value: Seq<char>, k: int)
    requires
        0 <= k <= powershell_quoted(value).len(),
        k < powershell_quoted(value).len() ==> powershell_quoted(value)[k] != '\'',
    ensures
        quotes_before(powershell_quoted(value), k) % 2 == 0,
    decreases value.len(),
{
    if value.len() > 0 {
        reveal_strlit("''");
        let all = powershell_quoted(value);
        let before = powershell_quoted(value.drop_last());
        let n = before.len() as int;
        let tail = all.skip(n);
        assert(all =~= before + tail);
        law_quotes_come_in_even_runs(value.drop_last(), n);
        lemma_quotes_before(before, tail, n);
        if k < n {
            law_quotes_come_in_even_runs(value.drop_last(), k);
            lemma_quotes_before(before, tail, k);
        } else if k == n + 2 {
            assert(quotes_before(all, n + 1) == 1 + quotes_before(all, n));
        }
    }
}

/// The files of executables are deleted in their order, each in its directory and under its own file
/// name, but for those that run now.
pub proof fn law_every_other_executable_is_deleted(
    platform: Platform,
    self_paths: &Vec<String>,
    dir: &str,
    stems: &[String],
    res: Vec<String>,
    i: int,
)
    requires
        call_ensures(files_to_delete, (platform, self_paths, dir, stems), res),
    ensures
        ({
            let paths = text::texts(stems@).map_values(
                |stem: Seq<char>|
                    platform::joined(
                        platform,
                        dir@,
                        if platform == Platform::Windows {
                            stem + ".exe"@
                        } else {
                            stem
                        },
                    ),
            );
            let free = |path: Seq<char>|
                forall|k: int|
                    0 <= k < self_paths@.len() ==> text::lowered((#[trigger] self_paths@[k])@)
                        != text::lowered(path);
            text::texts(res@) == paths.filter(free)
        }),
{
    let place = |stem: Seq<char>|
        platform::joined(
            platform,
            dir@,
            if platform == Platform::Windows {
                stem + ".exe"@
            } else {
                stem
            },
        );
    let free = |path: Seq<char>|
        forall|k: int|
            0 <= k < self_paths@.len() ==> text::lowered((#[trigger] self_paths@[k])@)
                != text::lowered(path);
    lemma_deletable(platform, self_paths@, dir@, text::texts(stems@), place, free);
}

proof fn lemma_deletable(
    platform: Platform,
    self_paths: Seq<String>,
    dir: Seq<char>,
    stems: Seq<Seq<char>>,
    place: spec_fn(Seq<char>) -> Seq<char>,
    free: spec_fn(Seq<char>) -> bool,
)
    requires
        forall|stem: Seq<char>| #[trigger]
            place(stem) == platform::joined(platform, dir, exe_name(platform, stem)),
        forall|path: Seq<char>| #[trigger]
            free(path) == forall|k: int|
                0 <= k < self_paths.len() ==> text::lowered((#[trigger] self_paths[k])@)
                    != text::lowered(path),
    ensures
        deletable(platform, text::texts(self_paths), dir, stems) == stems.map_values(place).filter(
            free,
        ),
    decreases stems.len(),
{
    reveal(Seq::filter);
    let paths = stems.map_values(place);
    let shown = text::texts(self_paths);
    if stems.len() > 0 {
        let rest = stems.drop_last();
        lemma_deletable(platform, self_paths, dir, rest, place, free);
        assert(paths.drop_last() =~= rest.map_values(place));
        let path = place(stems.last());
        assert(paths.last() == path);
        assert(forall|k: int| 0 <= k < self_paths.len() ==> #[trigger] shown[k] == self_paths[k]@);
        if runs_now(shown, path) {
            let k = choose|k: int|
                0 <= k < shown.len() && text::lowered(#[trigger] shown[k]) == text::lowered(path);
            assert(text::lowered(self_paths[k]@) == text::lowered(path));
            assert(!free(path));
        } else {
            assert forall|k: int| 0 <= k < self_paths.len() implies text::lowered(
                (#[trigger] self_paths[k])@,
            ) != text::lowered(path) by {
                assert(shown[k] == self_paths[k]@);
            }
            assert(free(path));
        }
    }
    assert(deletable(platform, shown, dir, stems) =~= paths.filter(free));
}

/// A removal counts as done where it took place or where there is nothing left to remove, and else it
/// failed, with the place and the reason.
pub proof fn law_what_is_absent_is_removed(
    path: &str,
    error: Option<String>,
    absent: bool,
    reason: Option<String>,
    res: Result<(), EffectError>,
)
    requires
        call_ensures(removal_result, (error, absent), reason),
        call_ensures(removed, (path, error, absent), res),
    ensures
        reason is Some <==> error is Some && !absent,
        reason is Some ==> reason == error,
        res is Ok <==> error is None || absent,
        res matches Err(EffectError::Failed(told)) ==> told@ == "removing "@ + path@ + ": "@
            + error->Some_0@,
        !(res matches Err(EffectError::Declined(_))),
{
}

/// Deleting executables failed exactly where some are still there; the failure tells how many of how
/// many, and each with its path and its reason, in order.  What failed is tried once more, and only
/// once.
pub proof fn law_what_could_not_be_deleted_is_told(
    failures: &Vec<FailedDelete>,
    total: usize,
    retried: bool,
    res: Result<(), EffectError>,
    next: DeleteNext,
    k: int,
)
    requires
        call_ensures(delete_result, (failures, total), res),
        call_ensures(after_deletes, (retried, failures, total), next),
    ensures
        res is Ok <==> failures@.len() == 0,
        res matches Err(err) ==> {
            let parts = failures@.map_values(
                |failure: FailedDelete| failure.path@ + ": "@ + failure.error@,
            );
            &&& err matches EffectError::Failed(told)
            &&& told@ == "could not remove "@ + text::decimal(failures@.len()) + " of "@
                + text::decimal(total as nat) + " file(s): "@ + text::joined(parts, "; "@)
        },
        next is Retry <==> !retried && failures@.len() > 0,
        next matches DeleteNext::Retry(paths) ==> paths@.len() == failures@.len() && (0 <= k
            < failures@.len() ==> paths@[k]@ == failures@[k].path@),
        next matches DeleteNext::End(end) ==> (end is Ok <==> failures@.len() == 0),
{
    assert(failure_texts(failures@) =~= failures@.map_values(
        |failure: FailedDelete| failure.path@ + ": "@ + failure.error@,
    ));
    if let DeleteNext::Retry(paths) = next {
        assert(text::texts(paths@).len() == paths@.len());
        if 0 <= k < failures@.len() {
            assert(text::texts(paths@)[k] == paths@[k]@);
        }
    }
}

/// The commands of a removal: which program is run with which arguments.
pub proof fn law_the_commands_of_a_removal(
    platform: Platform,
    pid: u32,
    stop: CommandLine,
    package: &str,
    scope: Scope,
    winget: CommandLine,
    service: &str,
    delete: CommandLine,
    dir: &str,
    path: CommandLine,
)
    requires
        call_ensures(stop_command, (platform, pid), stop),
        call_ensures(winget_uninstall, (package, scope), winget),
        call_ensures(delete_service_command, (service,), delete),
        call_ensures(remove_path_command, (dir,), path),
    ensures
        platform == Platform::Windows ==> stop.program@ == "taskkill"@ && text::texts(stop.args@)
            == seq!["/PID"@, text::decimal(pid as nat), "/T"@, "/F"@],
        platform != Platform::Windows ==> stop.program@ == "kill"@ && text::texts(stop.args@)
            == seq![text::decimal(pid as nat)],
        winget.program@ == "winget"@,
        text::texts(winget.args@) == seq![
            "uninstall"@,
            "--id"@,
            package@,
            "--silent"@,
            "--accept-source-agreements"@,
        ] + (match scope {
            Scope::Machine => seq!["--scope"@, "machine"@],
            Scope::User => seq!["--scope"@, "user"@],
            Scope::Unknown => Seq::empty(),
        }),
        delete.program@ == "sc"@ && text::texts(delete.args@) == seq!["delete"@, service@],
        path.program@ == "powershell"@ && text::texts(path.args@).len() == 4,
        text::begins(text::texts(path.args@)[3], "$d='"@ + powershell_quoted(dir@) + "'"@),
{
    let head = "$d='"@ + powershell_quoted(dir@) + "'"@;
    reveal_strlit("'");
    let rest = "'; foreach($t in 'User','Machine'){ $p=[Environment]::GetEnvironmentVariable('Path',$t); if($p){ $new=($p -split ';' | Where-Object { $_ -and ($_ -ne $d) }) -join ';'; if($new -ne $p){ [Environment]::SetEnvironmentVariable('Path',$new,$t) } } }"@;
    reveal_strlit("'; foreach($t in 'User','Machine'){ $p=[Environment]::GetEnvironmentVariable('Path',$t); if($p){ $new=($p -split ';' | Where-Object { $_ -and ($_ -ne $d) }) -join ';'; if($new -ne $p){ [Environment]::SetEnvironmentVariable('Path',$new,$t) } } }");
    let script = path_script(dir@);
    assert(script.subrange(0, head.len() as int) =~= head);
}

/// How the broker service is removed: by a helper exactly where rights are to be obtained and are not
/// there yet, on Windows; here where they are; and nowhere else.  What the helper comes to: it is done
/// only where it ended well and the service is gone, and it was declined only by its own sign.
pub proof fn law_how_the_service_is_removed(
    platform: Platform,
    via_uac: bool,
    elevated: bool,
    route: ServiceRoute,
    code: Option<i32>,
    still: bool,
    service: &str,
    res: Result<(), EffectError>,
)
    requires
        call_ensures(service_route, (platform, via_uac, elevated), route),
        call_ensures(uac_result, (code, still, service), res),
    ensures
        route == ServiceRoute::Helper <==> platform == Platform::Windows && via_uac && !elevated,
        route == ServiceRoute::Here <==> platform == Platform::Windows && !(via_uac && !elevated),
        res is Ok <==> code == Some(0i32) && !still,
        (res matches Err(EffectError::Declined(_))) <==> code == Some(223i32),
{
    if res is Ok {
        assert(remove::reply_view(res) is Done);
    }
    if code == Some(0i32) && !still {
        assert(remove::reply_view(res) is Done);
    }
}

/// A daemon is stopped by asking it, then by its handler, then by its id, each only where the one
/// before failed, and it is waited for once one of them succeeded; any other process is ended by its
/// id at once.
pub proof fn law_how_a_process_is_stopped(
    component: &str,
    done: bool,
    first: StopNext,
    asked: StopNext,
    handled: StopNext,
    ended: StopNext,
    waited: StopNext,
)
    requires
        call_ensures(next_stop_step, (component, None), first),
        call_ensures(next_stop_step, (component, Some((StopStep::Ask, done))), asked),
        call_ensures(next_stop_step, (component, Some((StopStep::Handler, done))), handled),
        call_ensures(next_stop_step, (component, Some((StopStep::Terminate, done))), ended),
        call_ensures(next_stop_step, (component, Some((StopStep::Wait, done))), waited),
    ensures
        component@ == "daemon"@ ==> first == StopNext::Do(StopStep::Ask),
        component@ != "daemon"@ ==> first == StopNext::Do(StopStep::Terminate),
        done ==> asked == StopNext::Do(StopStep::Wait) && handled == StopNext::Do(StopStep::Wait),
        !done ==> asked == StopNext::Do(StopStep::Handler) && handled == StopNext::Do(
            StopStep::Terminate,
        ),
        component@ == "daemon"@ && done ==> ended == StopNext::Do(StopStep::Wait),
        component@ != "daemon"@ || !done ==> ended == StopNext::End,
        waited == StopNext::End,
{
}

/// A process that ends well is a success, any other end a failure with what was to be done; and a
/// daemon is waited for as long as it can be reached, ten seconds at most.
pub proof fn law_how_an_end_is_judged(
    what: &str,
    ended: Ended,
    res: Result<(), EffectError>,
    elapsed: u64,
    reachable: bool,
    waits: bool,
)
    requires
        call_ensures(exit_result, (what, ended), res),
        call_ensures(keeps_waiting, (elapsed, reachable), waits),
    ensures
        res is Ok <==> ended is Well,
        ended matches Ended::Badly(status) ==> (res matches Err(EffectError::Failed(told)) && told@
            == what@ + " exited with "@ + status@),
        ended matches Ended::NotStarted(error) ==> (res matches Err(EffectError::Failed(told))
            && told@ == "spawning "@ + what@ + ": "@ + error@),
        waits <==> reachable && elapsed < 10_000,
{
}

/// The script that deletes executables after their end deletes each of them, in order, and nothing
/// else; and there is none where there is nothing to delete.
pub proof fn law_executables_delete_themselves_later(
    paths: &Vec<String>,
    more: &Vec<String>,
    last: Seq<char>,
    one: Option<String>,
    both: Option<String>,
    list: Seq<char>,
)
    requires
        call_ensures(self_delete_script, (paths,), one),
        call_ensures(self_delete_script, (more,), both),
        text::texts(more@) == text::texts(paths@).push(last),
    ensures
        one is None <==> paths@.len() == 0,
        both is Some,
        paths@.len() == 0 ==> both->Some_0@ == "ping 127.0.0.1 -n 3 >nul & "@ + ("del /f /q \""@ + last
            + "\""@) + " & rem self-delete"@,
        one matches Some(script) && script@ == "ping 127.0.0.1 -n 3 >nul & "@ + list
            + " & rem self-delete"@ ==> both->Some_0@ == "ping 127.0.0.1 -n 3 >nul & "@ + (list
            + " & "@ + ("del /f /q \""@ + last + "\""@)) + " & rem self-delete"@,
{
    let before = del_texts(text::texts(paths@));
    let after = del_texts(text::texts(more@));
    let del = "del /f /q \""@ + last + "\""@;
    assert(more@.len() == text::texts(more@).len());
    assert(after =~= before.push(del));
    assert(after.drop_last() =~= before);
    if paths@.len() == 0 {
        assert(after =~= seq![del]);
    } else if let Some(script) = one {
        let start = "ping 127.0.0.1 -n 3 >nul & "@;
        let end = " & rem self-delete"@;
        let wanted = text::joined(before, " & "@);
        if script@ == start + list + end {
            let n = start.len() as int;
            assert((start + list + end).len() == (start + wanted + end).len());
            assert(list =~= (start + list + end).subrange(n, n + list.len()));
            assert(wanted =~= (start + wanted + end).subrange(n, n + list.len()));
        }
    }
}

} // verus!
