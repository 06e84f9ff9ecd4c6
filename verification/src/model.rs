//! What the detection of an installation finds: install roots and running processes.

use vstd::prelude::*;

verus! {

/// The channel that placed an installation.
#[derive(Debug, Clone, Copy, PartialEq, Eq, Structural)]
pub enum Channel {
    /// Placed and managed by WinGet.
    WinGet,
    /// Placed by hand.
    Unmanaged,
    /// The output of a local build.
    DevBuild,
    /// Could not be classified.
    Unknown,
}

impl Channel {
    /// How the channel is shown.
    pub open spec fn text(self) -> Seq<char> {
        match self {
            Channel::WinGet => "winget"@,
            Channel::Unmanaged => "unmanaged"@,
            Channel::DevBuild => "dev-build"@,
            Channel::Unknown => "unknown"@,
        }
    }

    /// How the channel is shown.
    pub fn label(self) -> (res: &'static str)
        ensures
            res@ == self.text(),
    {
        match self {
            Channel::WinGet => "winget",
            Channel::Unmanaged => "unmanaged",
            Channel::DevBuild => "dev-build",
            Channel::Unknown => "unknown",
        }
    }
}

/// Whom an installation is for.
#[derive(Debug, Clone, Copy, PartialEq, Eq, Structural)]
pub enum Scope {
    /// One user.
    User,
    /// The whole machine.
    Machine,
    /// Could not be told.
    Unknown,
}

impl Scope {
    /// How the scope is shown.
    pub open spec fn text(self) -> Seq<char> {
        match self {
            Scope::User => "user"@,
            Scope::Machine => "machine"@,
            Scope::Unknown => "-"@,
        }
    }

    /// How the scope is shown.
    pub fn label(self) -> (res: &'static str)
        ensures
            res@ == self.text(),
    {
        match self {
            Scope::User => "user",
            Scope::Machine => "machine",
            Scope::Unknown => "-",
        }
    }
}

/// A part of the product that runs as a process of its own.
#[derive(Debug, Clone, Copy, PartialEq, Eq, Structural)]
pub enum Component {
    /// The index daemon.
    Daemon,
    /// The access broker, a service.
    Broker,
    /// An MCP server.
    Mcp,
}

impl Component {
    /// How the component is shown.
    pub open spec fn text(self) -> Seq<char> {
        match self {
            Component::Daemon => "daemon"@,
            Component::Broker => "broker"@,
            Component::Mcp => "mcp"@,
        }
    }

    /// How the component is shown.
    pub fn label(self) -> (res: &'static str)
        ensures
            res@ == self.text(),
    {
        match self {
            Component::Daemon => "daemon",
            Component::Broker => "broker",
            Component::Mcp => "mcp",
        }
    }
}

/// What led to an install root.
#[derive(Debug, Clone, Copy, PartialEq, Eq, Structural)]
pub enum Anchor {
    /// The executable that is running.
    Invoker,
    /// A running component.
    Process(Component),
    /// The place where WinGet keeps its packages.
    Winget,
}

/// One executable of the product in an install root.
#[derive(Debug, Clone)]
pub struct BinaryInfo {
    /// Its name, without the suffix of executables.
    pub name: String,
    /// The version it reports, if it reports one.
    pub version: Option<String>,
}

/// A directory that holds executables of the product.
#[derive(Debug, Clone)]
pub struct InstallRoot {
    /// The directory.
    pub dir: String,
    /// The channel that placed it.
    pub channel: Channel,
    /// Whom it is for.
    pub scope: Scope,
    /// What led to it.
    pub anchored_by: Vec<Anchor>,
    /// The executables in it.
    pub binaries: Vec<BinaryInfo>,
    /// Whether the current user can write to the directory without more rights.
    pub user_writable: bool,
}

/// A running process of the product.
#[derive(Debug, Clone)]
pub struct RunningProcess {
    /// The component that it runs.
    pub component: Component,
    /// Its process id.
    pub pid: u32,
    /// The path of its executable, if that could be read.
    pub image_path: Option<String>,
    /// Its command line, if that could be read.
    pub command_line: Option<String>,
    /// The version it reports, if it reports one.
    pub version: Option<String>,
}

/// What the detection found.
#[derive(Debug, Clone)]
pub struct DetectionReport {
    /// The install roots.
    pub roots: Vec<InstallRoot>,
    /// The running processes.
    pub running: Vec<RunningProcess>,
}

/// Each channel, scope and component has its own word.
pub proof fn law_each_has_its_own_word(
    channel: Channel,
    scope: Scope,
    component: Component,
    of_channel: &'static str,
    of_scope: &'static str,
    of_component: &'static str,
)
    requires
        call_ensures(Channel::label, (channel,), of_channel),
        call_ensures(Scope::label, (scope,), of_scope),
        call_ensures(Component::label, (component,), of_component),
    ensures
        of_channel@ == "winget"@ <==> channel == Channel::WinGet,
        of_channel@ == "unmanaged"@ <==> channel == Channel::Unmanaged,
        of_channel@ == "dev-build"@ <==> channel == Channel::DevBuild,
        of_channel@ == "unknown"@ <==> channel == Channel::Unknown,
        of_scope@ == "user"@ <==> scope == Scope::User,
        of_scope@ == "machine"@ <==> scope == Scope::Machine,
        of_scope@ == "-"@ <==> scope == Scope::Unknown,
        of_component@ == "daemon"@ <==> component == Component::Daemon,
        of_component@ == "broker"@ <==> component == Component::Broker,
        of_component@ == "mcp"@ <==> component == Component::Mcp,
{
    reveal_strlit("winget");
    reveal_strlit("unmanaged");
    reveal_strlit("dev-build");
    reveal_strlit("unknown");
    reveal_strlit("user");
    reveal_strlit("machine");
    reveal_strlit("-");
    reveal_strlit("daemon");
    reveal_strlit("broker");
    reveal_strlit("mcp");
    assert("winget"@.len() == 6 && "unmanaged"@.len() == 9 && "dev-build"@.len() == 9
        && "unknown"@.len() == 7);
    assert("unmanaged"@[0] == 'u' && "dev-build"@[0] == 'd');
    assert("user"@.len() == 4 && "machine"@.len() == 7 && "-"@.len() == 1);
    assert("daemon"@.len() == 6 && "broker"@.len() == 6 && "mcp"@.len() == 3);
    assert("daemon"@[0] == 'd' && "broker"@[0] == 'b');
}

} // verus!
