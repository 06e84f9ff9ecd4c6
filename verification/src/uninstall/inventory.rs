//! What an uninstallation is asked for, and what there is besides executables.

use vstd::prelude::*;

verus! {

/// Which part of an installation is removed.
#[derive(Debug, Clone, Copy, PartialEq, Eq, Structural)]
pub enum UninstallScope {
    /// What is for the user alone.
    User,
    /// What is for the whole machine.
    Machine,
    /// Everything.
    All,
}

/// The options of an uninstallation.
#[derive(Debug, Clone)]
pub struct UninstallArgs {
    /// Show the analysis and the plan, change nothing.
    pub dry_run: bool,
    /// Skip the confirmation.
    pub assume_yes: bool,
    /// Keep settings.
    pub keep_config: bool,
    /// Skip the search for stray files on every drive.
    pub no_deep_sweep: bool,
    /// Do not edit PATH.
    pub no_path: bool,
    /// Which part is removed.
    pub scope: UninstallScope,
    /// Emit the analysis and the plan as JSON.
    pub json: bool,
    /// Show details.
    pub verbose: bool,
    /// Show the help.
    pub help: bool,
    /// The service that this process, started with more rights, removes.
    pub admin_helper_service: Option<String>,
}

impl Default for UninstallArgs {
    fn default() -> (res: Self)
        ensures
            !res.dry_run,
            !res.assume_yes,
            !res.keep_config,
            !res.no_deep_sweep,
            !res.no_path,
            res.scope == UninstallScope::All,
            !res.json,
            !res.verbose,
            !res.help,
            res.admin_helper_service is None,
    {
        UninstallArgs {
            dry_run: false,
            assume_yes: false,
            keep_config: false,
            no_deep_sweep: false,
            no_path: false,
            scope: UninstallScope::All,
            json: false,
            verbose: false,
            help: false,
            admin_helper_service: None,
        }
    }
}

/// What a directory of the product holds.
#[derive(Debug, Clone, Copy, PartialEq, Eq, Structural)]
pub enum ArtifactKind {
    /// Data.
    Data,
    /// Caches.
    Cache,
    /// Settings.
    Config,
    /// What an earlier release left.
    Legacy,
}

impl ArtifactKind {
    /// How the kind is shown.
    pub open spec fn text(self) -> Seq<char> {
        match self {
            ArtifactKind::Data => "data"@,
            ArtifactKind::Cache => "cache"@,
            ArtifactKind::Config => "config"@,
            ArtifactKind::Legacy => "legacy"@,
        }
    }

    /// How the kind is shown.
    pub fn label(self) -> (res: &'static str)
        ensures
            res@ == self.text(),
    {
        match self {
            ArtifactKind::Data => "data",
            ArtifactKind::Cache => "cache",
            ArtifactKind::Config => "config",
            ArtifactKind::Legacy => "legacy",
        }
    }
}

/// A directory of the product that holds no executables.
#[derive(Debug, Clone)]
pub struct ArtifactDir {
    /// What it holds.
    pub kind: ArtifactKind,
    /// The directory.
    pub path: String,
    /// Whether it exists.
    pub exists: bool,
    /// How many bytes it holds.
    pub size_bytes: u64,
}

/// Whether the broker service is registered.
#[derive(Debug, Clone, Copy, PartialEq, Eq, Structural)]
pub enum BrokerServiceState {
    /// It is.
    Installed,
    /// It is not.
    Absent,
}

impl BrokerServiceState {
    /// How the state is shown.
    pub open spec fn text(self) -> Seq<char> {
        match self {
            BrokerServiceState::Installed => "installed"@,
            BrokerServiceState::Absent => "absent"@,
        }
    }

    /// How the state is shown.
    pub fn label(self) -> (res: &'static str)
        ensures
            res@ == self.text(),
    {
        match self {
            BrokerServiceState::Installed => "installed",
            BrokerServiceState::Absent => "absent",
        }
    }
}

/// What there is besides executables.
#[derive(Debug, Clone)]
pub struct Inventory {
    /// The directories.
    pub dirs: Vec<ArtifactDir>,
    /// Whether the broker service is registered.
    pub broker_service: BrokerServiceState,
}

/// A file of the product that was found outside of every known place.
#[derive(Debug, Clone)]
pub struct StrayHit {
    /// The file.
    pub path: String,
    /// The version it reports, if it is an executable that reports one.
    pub version: Option<String>,
}

/// Each kind of directory and each state of the service has its own word.
pub proof fn law_each_has_its_own_word(
    kind: ArtifactKind,
    state: BrokerServiceState,
    of_kind: &'static str,
    of_state: &'static str,
)
    requires
        call_ensures(ArtifactKind::label, (kind,), of_kind),
        call_ensures(BrokerServiceState::label, (state,), of_state),
    ensures
        of_kind@ == "data"@ <==> kind == ArtifactKind::Data,
        of_kind@ == "cache"@ <==> kind == ArtifactKind::Cache,
        of_kind@ == "config"@ <==> kind == ArtifactKind::Config,
        of_kind@ == "legacy"@ <==> kind == ArtifactKind::Legacy,
        of_state@ == "installed"@ <==> state == BrokerServiceState::Installed,
        of_state@ == "absent"@ <==> state == BrokerServiceState::Absent,
{
    reveal_strlit("data");
    reveal_strlit("cache");
    reveal_strlit("config");
    reveal_strlit("legacy");
    reveal_strlit("installed");
    reveal_strlit("absent");
    assert("data"@.len() == 4 && "cache"@.len() == 5 && "config"@.len() == 6 && "legacy"@.len()
        == 6);
    assert("config"@[0] == 'c' && "legacy"@[0] == 'l');
    assert("installed"@.len() == 9 && "absent"@.len() == 6);
}

} // verus!
