//! Registration of the access broker as a Windows service: what is asked of the service tool, what
//! its answers mean, and how the broker reacts to service controls.

use crate::spinner;
use crate::text;
use crate::text::{cat2, cat3, cat4, contains, strings, trim};
use vstd::prelude::*;

verus! {

/// Registered name of the broker service.
pub const SERVICE_NAME: &'static str = "UffsAccessBroker";

/// Display name of the broker service.
pub const SERVICE_DISPLAY_NAME: &'static str = "UFFS Access Broker";

/// Both outputs of the service tool in one line: it writes most of its diagnostics to the first.
pub open spec fn combined_output(stdout: Seq<char>, stderr: Seq<char>) -> Seq<char> {
    text::trimmed(text::trimmed(stdout) + " "@ + text::trimmed(stderr))
}

/// Combine both outputs of the service tool for an error message.
pub fn sc_output(stdout: &str, stderr: &str) -> (res: String)
    ensures
        res@ == combined_output(stdout@, stderr@),
{
    trim(&cat3(&trim(stdout), " ", &trim(stderr)))
}

/// Whether a failed deletion just says that the service does not exist: by the exit code, or by
/// the text where the code is not surfaced.
pub fn absent_service_signal(exit_code: Option<i32>, sc_text: &str) -> (res: bool)
    ensures
        res == (exit_code == Some(1060i32) || text::occurs(sc_text@, "1060"@)),
{
    let by_code = match exit_code {
        Some(code) => code == 1060,
        None => false,
    };
    by_code || contains(sc_text, "1060")
}

// ---- installing ----

/// Why the service cannot be installed, if the process is not elevated.
pub fn install_refusal(elevated: bool) -> (res: Option<String>)
    ensures
        elevated == res is None,
        res is Some ==> res->Some_0@
            == "installing the broker service requires Administrator.\nOpen an elevated terminal (right-click PowerShell or cmd → \"Run as administrator\") and re-run:\n    uffs-broker --install"@,
{
    if elevated {
        None
    } else {
        Some(
            "installing the broker service requires Administrator.\nOpen an elevated terminal (right-click PowerShell or cmd → \"Run as administrator\") and re-run:\n    uffs-broker --install".to_owned(),
        )
    }
}

/// What is said before the service is registered.
pub const INSTALLING: &'static str = "Installing the UFFS Access Broker service...";

/// What stands before the verdict of registering the service.
pub const REGISTERING: &'static str =
    "  registering the service (a security scan can take up to a minute)... ";

/// What stands before the verdict of starting the service.
pub const STARTING: &'static str = "  starting the service (waiting for it to warm up)... ";

/// The line of a step that takes time, with the glyph of a frame.
pub open spec fn step_text(label: Seq<char>, frame: nat) -> Seq<char> {
    "\r"@ + label + spinner::glyph_text(frame) + " "@
}

/// The line of a step that takes time, with the glyph of a frame.
pub fn step_line(label: &str, frame: usize) -> (res: String)
    ensures
        res@ == step_text(label@, frame as nat),
{
    cat4("\r", label, spinner::glyph(frame), " ")
}

/// What is drawn once the step is done: the bare line, for the verdict to follow.
pub fn step_done(label: &str) -> (res: String)
    ensures
        res@ == "\r"@ + label@,
{
    cat2("\r", label)
}

/// The verdict of a step.
pub fn verdict(success: bool) -> (res: &'static str)
    ensures
        res@ == if success {
            "ok"@
        } else {
            "failed"@
        },
{
    if success {
        "ok"
    } else {
        "failed"
    }
}

/// The arguments that register the service.  An option and its value are separate arguments: the
/// service tool takes an option name up to its equals sign, and a value in the same argument would
/// become part of the registered path.
pub fn create_args(exe: &str) -> (res: Vec<String>)
    ensures
        text::texts(res@) == seq![
            "create"@,
            SERVICE_NAME@,
            "binPath="@,
            exe@,
            "start="@,
            "auto"@,
            "DisplayName="@,
            SERVICE_DISPLAY_NAME@,
        ],
{
    let res = strings(
        &[
            "create",
            SERVICE_NAME,
            "binPath=",
            exe,
            "start=",
            "auto",
            "DisplayName=",
            SERVICE_DISPLAY_NAME,
        ],
    );
    assert(text::texts(res@) =~= seq![
        "create"@,
        SERVICE_NAME@,
        "binPath="@,
        exe@,
        "start="@,
        "auto"@,
        "DisplayName="@,
        SERVICE_DISPLAY_NAME@,
    ]);
    res
}

/// What is said when the registration failed.
pub fn create_failure(stdout: &str, stderr: &str) -> (res: String)
    ensures
        res@ == "Install failed (sc create): "@ + combined_output(stdout@, stderr@)
            + "\n(If the service already exists, run `uffs-broker --uninstall` first.)"@,
{
    cat3(
        "Install failed (sc create): ",
        &sc_output(stdout, stderr),
        "\n(If the service already exists, run `uffs-broker --uninstall` first.)",
    )
}

/// What is said after the registered service was started, or could not be for the given reason.
pub fn start_report(started: Result<(), String>) -> (res: String)
    ensures
        res@ == match started {
            Ok(_) =>
                "UFFS Access Broker installed and started (auto-start on boot).\nNon-elevated `uffs` searches will now use the broker for volume access — no more UAC prompts."@,
            Err(reason) =>
                "Service installed (auto-start on boot), but starting it failed: "@ + reason@
                    + "\nStart it manually from an elevated shell with:\n    sc.exe start UffsAccessBroker"@,
        },
{
    match started {
        Ok(()) =>
            "UFFS Access Broker installed and started (auto-start on boot).\nNon-elevated `uffs` searches will now use the broker for volume access — no more UAC prompts.".to_owned(),
        Err(reason) => cat3(
            "Service installed (auto-start on boot), but starting it failed: ",
            &reason,
            "\nStart it manually from an elevated shell with:\n    sc.exe start UffsAccessBroker",
        ),
    }
}

// ---- uninstalling ----

/// What is said when there is no service to remove.
pub const NOTHING_TO_REMOVE: &'static str = "Broker service is not installed — nothing to remove.";

/// What removing the service begins with.
#[derive(Debug, Clone, Copy, PartialEq, Eq, Structural)]
pub enum UninstallStep {
    /// There is no service: the requested state holds already, and no rights are needed for it.
    NothingToRemove,
    /// Administrator rights are missing.
    NeedsAdministrator,
    /// Stop the service and then delete it; a deletion of a running service would be deferred.
    StopAndDelete,
}

/// What removing the service begins with.
pub fn uninstall_step(installed: bool, elevated: bool) -> (step: UninstallStep)
    ensures
        step == (if !installed {
            UninstallStep::NothingToRemove
        } else if !elevated {
            UninstallStep::NeedsAdministrator
        } else {
            UninstallStep::StopAndDelete
        }),
{
    if !installed {
        UninstallStep::NothingToRemove
    } else if !elevated {
        UninstallStep::NeedsAdministrator
    } else {
        UninstallStep::StopAndDelete
    }
}

/// Why the service cannot be removed without Administrator rights.
pub const UNINSTALL_REFUSAL: &'static str =
    "removing the broker service requires Administrator.\nOpen an elevated terminal and re-run:\n    uffs-broker --uninstall";

/// What a deletion of the service comes to: a missing service is what was asked for.
pub fn delete_report(success: bool, exit_code: Option<i32>, stdout: &str, stderr: &str) -> (res:
    Result<&'static str, String>)
    ensures
        ({
            let output = combined_output(stdout@, stderr@);
            if success {
                res matches Ok(said) && said@ == "Service uninstalled."@
            } else if exit_code == Some(1060i32) || text::occurs(output, "1060"@) {
                res matches Ok(said) && said@ == NOTHING_TO_REMOVE@
            } else {
                res matches Err(said) && said@ == "Uninstall failed: "@ + output
            }
        }),
{
    if success {
        return Ok("Service uninstalled.");
    }
    let output = sc_output(stdout, stderr);
    if absent_service_signal(exit_code, &output) {
        return Ok(NOTHING_TO_REMOVE);
    }
    Err(cat2("Uninstall failed: ", &output))
}

// ---- running as a service ----

/// The service control that asks for a stop.
pub const SERVICE_CONTROL_STOP: u32 = 1;

/// The service control that asks for the current state.
pub const SERVICE_CONTROL_INTERROGATE: u32 = 4;

/// The service control that announces a shutdown of the system.
pub const SERVICE_CONTROL_SHUTDOWN: u32 = 5;

/// The controls accepted while running, as flags: a stop (1) and a shutdown (4).
pub const ACCEPTED_CONTROLS: u32 = 5;

/// What to do about a service control.
#[derive(Debug, Clone, Copy, PartialEq, Eq, Structural)]
pub enum ControlAction {
    /// Have the accept loop end, report that a stop is pending, and wake the loop.
    Stop,
    /// Report that the service is running and takes [`ACCEPTED_CONTROLS`].
    ReportRunning,
    /// Nothing.
    Ignore,
}

/// What to do about a service control.
pub fn control_action(control: u32) -> (res: ControlAction)
    ensures
        res == (if control == SERVICE_CONTROL_STOP || control == SERVICE_CONTROL_SHUTDOWN {
            ControlAction::Stop
        } else if control == SERVICE_CONTROL_INTERROGATE {
            ControlAction::ReportRunning
        } else {
            ControlAction::Ignore
        }),
{
    if control == SERVICE_CONTROL_STOP || control == SERVICE_CONTROL_SHUTDOWN {
        ControlAction::Stop
    } else if control == SERVICE_CONTROL_INTERROGATE {
        ControlAction::ReportRunning
    } else {
        ControlAction::Ignore
    }
}

/// How far a service has come, as it is reported.
#[derive(Debug, Clone, Copy, PartialEq, Eq, Structural)]
pub enum ServicePhase {
    /// It is about to serve.
    Starting,
    /// It serves.
    Running,
    /// It was asked to end.
    Stopping,
    /// It has ended.
    Stopped,
}

/// What is reported of a service.
#[derive(Debug, Clone, Copy, PartialEq, Eq, Structural)]
pub struct ServiceReport {
    /// The number of its state.
    pub state: u32,
    /// The controls that it takes, as flags.
    pub controls: u32,
}

/// What is reported of a service.  Only while it serves does it take controls.
pub open spec fn report_of(phase: ServicePhase) -> ServiceReport {
    match phase {
        ServicePhase::Stopped => ServiceReport { state: 1, controls: 0 },
        ServicePhase::Starting => ServiceReport { state: 2, controls: 0 },
        ServicePhase::Stopping => ServiceReport { state: 3, controls: 0 },
        ServicePhase::Running => ServiceReport { state: 4, controls: ACCEPTED_CONTROLS },
    }
}

/// What is reported of a service.
pub fn service_report(phase: ServicePhase) -> (res: ServiceReport)
    ensures
        res == report_of(phase),
{
    match phase {
        ServicePhase::Stopped => ServiceReport { state: 1, controls: 0 },
        ServicePhase::Starting => ServiceReport { state: 2, controls: 0 },
        ServicePhase::Stopping => ServiceReport { state: 3, controls: 0 },
        ServicePhase::Running => ServiceReport { state: 4, controls: ACCEPTED_CONTROLS },
    }
}

/// The error of a process that was not started as a service.
pub const ERROR_FAILED_SERVICE_CONTROLLER_CONNECT: u32 = 1063;

/// What handing a process over to the service manager came to.
#[derive(Debug)]
pub enum HandOver {
    /// It served until it was stopped.
    Served,
    /// It was started by hand; how it is used is shown.
    ShowUsage,
    /// It failed.
    Failed(String),
}

/// What handing a process over to the service manager came to: nothing went wrong, or an error with
/// its number and its text.
pub fn run_as_service(error: Option<(u32, String)>) -> (res: HandOver)
    ensures
        match error {
            None => res == HandOver::Served,
            Some((code, text)) => if code == ERROR_FAILED_SERVICE_CONTROLLER_CONNECT {
                res == HandOver::ShowUsage
            } else {
                res matches HandOver::Failed(told) && told@
                    == "StartServiceCtrlDispatcherW failed: "@ + text@
            },
        },
{
    match error {
        None => HandOver::Served,
        Some((code, text)) => if code == ERROR_FAILED_SERVICE_CONTROLLER_CONNECT {
            HandOver::ShowUsage
        } else {
            HandOver::Failed(cat2("StartServiceCtrlDispatcherW failed: ", &text))
        },
    }
}

/// Only a service that serves takes controls, so one that is asked to end takes no more of them; and
/// no two phases are reported alike.
pub proof fn law_a_stopping_service_takes_no_controls(phase: ServicePhase, other: ServicePhase)
    ensures
        report_of(phase).controls != 0 <==> phase == ServicePhase::Running,
        report_of(phase).state == report_of(other).state <==> phase == other,
{
}

/// A stop and a shutdown end the service, a question is answered, and every other control is passed
/// over.
pub proof fn law_what_a_control_does(control: u32, res: ControlAction)
    requires
        call_ensures(control_action, (control,), res),
    ensures
        res == ControlAction::Stop <==> control == 1 || control == 5,
        res == ControlAction::ReportRunning <==> control == 4,
{
}

/// The service is removed exactly where it is there and the rights are; and where it turns out to be
/// gone, the removal counts as done.
pub proof fn law_when_the_service_is_removed(
    installed: bool,
    elevated: bool,
    step: UninstallStep,
    success: bool,
    exit_code: Option<i32>,
    stdout: &str,
    stderr: &str,
    told: Result<&'static str, String>,
    refused: Option<String>,
)
    requires
        call_ensures(uninstall_step, (installed, elevated), step),
        call_ensures(delete_report, (success, exit_code, stdout, stderr), told),
        call_ensures(install_refusal, (elevated,), refused),
    ensures
        step == UninstallStep::StopAndDelete <==> installed && elevated,
        step == UninstallStep::NothingToRemove <==> !installed,
        step == UninstallStep::NeedsAdministrator <==> installed && !elevated,
        success ==> (told matches Ok(said) && said@ == "Service uninstalled."@),
        !success && exit_code == Some(1060i32) ==> (told matches Ok(said) && said@
            == NOTHING_TO_REMOVE@),
        told is Err ==> !success && exit_code != Some(1060i32),
        told matches Err(said) ==> text::begins(said@, "Uninstall failed: "@),
        refused is Some <==> !elevated,
{
    if let Err(said) = told {
        let head = "Uninstall failed: "@;
        assert(said@.subrange(0, head.len() as int) =~= head);
    }
}

/// The service is registered under its own name, with the given executable, to start with the
/// machine.
pub proof fn law_how_the_service_is_registered(exe: &str, res: Vec<String>)
    requires
        call_ensures(create_args, (exe,), res),
    ensures
        text::texts(res@) == seq![
            "create"@,
            "UffsAccessBroker"@,
            "binPath="@,
            exe@,
            "start="@,
            "auto"@,
            "DisplayName="@,
            "UFFS Access Broker"@,
        ],
{
}

/// A process that was started by hand shows how it is used; any other failure is told, and none is
/// told where there was none.
pub proof fn law_a_start_by_hand_shows_the_usage(code: u32, text: String, served: HandOver, res: HandOver)
    requires
        call_ensures(run_as_service, (None,), served),
        call_ensures(run_as_service, (Some((code, text)),), res),
    ensures
        served is Served,
        res is ShowUsage <==> code == 1063,
        code != 1063 ==> (res matches HandOver::Failed(told) && told@
            == "StartServiceCtrlDispatcherW failed: "@ + text@),
{
}

/// The service is reported by the numbers of the service manager: stopped, starting, stopping and
/// running are one to four, and only a running one takes a stop and a shutdown.
pub proof fn law_how_the_service_is_reported(phase: ServicePhase, res: ServiceReport)
    requires
        call_ensures(service_report, (phase,), res),
    ensures
        res.state == 1 <==> phase == ServicePhase::Stopped,
        res.state == 2 <==> phase == ServicePhase::Starting,
        res.state == 3 <==> phase == ServicePhase::Stopping,
        res.state == 4 <==> phase == ServicePhase::Running,
        res.controls == (if phase == ServicePhase::Running {
            5
        } else {
            0u32
        }),
{
}

} // verus!
