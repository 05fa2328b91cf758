//! The service unit of the daemon, on each platform, and its life cycle.
//!
//! | Platform | File                                           | Tool               |
//! |----------|------------------------------------------------|--------------------|
//! | macOS    | `~/Library/LaunchAgents/dev.ctxd.daemon.plist` | `launchctl`        |
//! | Linux    | `~/.config/systemd/user/ctxd.service`          | `systemctl --user` |
//!
//! Every operation may be repeated: installing the same unit changes nothing, and
//! stopping what does not run is no error.

pub mod linux;
pub mod macos;
pub mod null;

use crate::onboard::service::linux::Systemd;
use crate::onboard::service::macos::Launchd;
use crate::onboard::service::null::NullBackend;
use crate::path;
use crate::text;
use vstd::prelude::*;

verus! {

/// An operating system.
#[derive(Debug, Clone, Copy, PartialEq, Eq, Structural)]
pub enum Platform {
    /// macOS.
    MacOs,
    /// Linux.
    Linux,
    /// Windows.
    Windows,
    /// Any other.
    Other,
}

/// Whether the platform has a service backend.
pub fn is_supported(platform: Platform) -> (r: bool)
    ensures
        r == (platform is MacOs || platform is Linux),
{
    match platform {
        Platform::MacOs | Platform::Linux => true,
        _ => false,
    }
}

/// What to install.
#[derive(Debug, Clone)]
pub struct ServiceSpec {
    /// Absolute path of the `ctxd` binary.
    pub binary: String,
    /// Arguments after `serve`.
    pub args: Vec<String>,
    /// Start when the user logs in.
    pub at_login: bool,
    /// Working directory of the process.
    pub working_dir: String,
    /// Where output goes on macOS.
    pub log_dir: String,
    /// Identifier of the service.
    pub label: String,
}

/// What an install changed.
#[derive(Debug, Clone, Copy, PartialEq, Eq, Structural)]
pub enum InstallAction {
    /// The unit was written for the first time.
    Created,
    /// The unit held something else.
    Updated,
    /// The unit was already there.
    Unchanged,
}

impl InstallAction {
    /// The word for the action.
    pub open spec fn word(self) -> Seq<char> {
        match self {
            InstallAction::Created => "created"@,
            InstallAction::Updated => "updated"@,
            InstallAction::Unchanged => "unchanged"@,
        }
    }

    /// The word for the action.
    pub fn as_str(self) -> (r: &'static str)
        ensures
            r@ == self.word(),
    {
        match self {
            InstallAction::Created => "created",
            InstallAction::Updated => "updated",
            InstallAction::Unchanged => "unchanged",
        }
    }
}

/// Outcome of an install.
#[derive(Debug)]
pub struct InstallReport {
    /// What changed.
    pub action: InstallAction,
    /// The unit.
    pub unit_path: String,
}

/// State of a service.
#[derive(Debug, Clone, Copy, PartialEq, Eq, Structural)]
pub enum ServiceStatus {
    /// There is no unit.
    NotInstalled,
    /// There is a unit, and it does not run.
    Stopped,
    /// It runs, under this process where that is known.
    Running {
        /// The process.
        pid: Option<u32>,
    },
}

/// What was found at the path of a unit.
#[derive(Debug)]
pub enum Existing {
    /// Nothing.
    Missing,
    /// This text.
    Text(String),
    /// Something that is no text.
    NotText,
}

/// What an install of `unit` over what is there changes.
pub open spec fn install_change(existing: Existing, unit: Seq<char>) -> InstallAction {
    match existing {
        Existing::Missing => InstallAction::Created,
        Existing::Text(t) => if t@ == unit {
            InstallAction::Unchanged
        } else {
            InstallAction::Updated
        },
        Existing::NotText => InstallAction::Updated,
    }
}

/// What an install of `unit` changes. The file is written unless nothing changes.
pub fn install_action(existing: &Existing, unit: &str) -> (r: InstallAction)
    ensures
        r == install_change(*existing, unit@),
{
    match existing {
        Existing::Missing => InstallAction::Created,
        Existing::Text(t) => if text::same(t, unit) {
            InstallAction::Unchanged
        } else {
            InstallAction::Updated
        },
        Existing::NotText => InstallAction::Updated,
    }
}

/// Installing a unit a second time changes nothing.
pub proof fn law_second_install_changes_nothing(written: String)
    ensures
        install_change(Existing::Text(written), written@) == InstallAction::Unchanged,
{
}

/// Where a file is written before it takes its place under its own name.
pub fn atomic_temp_path(target: &str, pid: u32) -> (r: String)
    ensures
        r@ == path::joined(
            path::parent_of(target@),
            "."@ + (if path::has_file_name(target@) {
                path::last_component(target@)
            } else {
                "unit"@
            }) + ".tmp."@ + text::digits(pid as nat),
        ),
{
    let dir = path::parent(target);
    let name = match path::file_name(target) {
        Some(n) => n,
        None => String::from_str("unit"),
    };
    let mut temp = String::from_str(".");
    temp.append(&name);
    temp.append(".tmp.");
    let digits = text::unsigned_text(pid as u64);
    temp.append(&digits);
    path::join(&dir, &temp)
}

/// What a tool printed.
#[derive(Debug)]
pub struct ToolOutput {
    /// Whether it reported success.
    pub success: bool,
    /// Standard output.
    pub stdout: String,
    /// Standard error.
    pub stderr: String,
}

/// The message on a tool that failed.
pub open spec fn tool_message(what: Seq<char>, out: ToolOutput) -> Seq<char> {
    what + " failed:\n  stderr: "@ + out.stderr@ + "\n  stdout: "@ + out.stdout@
}

pub(crate) fn tool_failure(what: &str, out: &ToolOutput) -> (r: String)
    ensures
        r@ == tool_message(what@, *out),
{
    let mut s = String::from_str(what);
    s.append(" failed:\n  stderr: ");
    s.append(&out.stderr);
    s.append("\n  stdout: ");
    s.append(&out.stdout);
    s
}

/// `what` occurs in `s`.
pub open spec fn mentions(s: Seq<char>, what: Seq<char>) -> bool {
    exists|i: int| text::occurs_at(s, what, i)
}

/// The backend of a platform.
#[derive(Debug)]
pub enum ServiceBackend {
    /// launchd.
    Launchd(Launchd),
    /// systemd, for the user.
    Systemd(Systemd),
    /// None.
    Null(NullBackend),
}

impl ServiceBackend {
    /// The name of the backend.
    pub open spec fn name_text(self) -> Seq<char> {
        match self {
            ServiceBackend::Launchd(_) => "launchd"@,
            ServiceBackend::Systemd(_) => "systemd-user"@,
            ServiceBackend::Null(_) => "null"@,
        }
    }

    /// The name of the backend.
    pub fn name(&self) -> (r: &'static str)
        ensures
            r@ == self.name_text(),
    {
        match self {
            ServiceBackend::Launchd(_) => "launchd",
            ServiceBackend::Systemd(_) => "systemd-user",
            ServiceBackend::Null(_) => "null",
        }
    }

    /// The path of the unit; empty where there is no backend.
    pub fn unit_path(&self) -> (r: String)
        ensures
            r@ == match *self {
                ServiceBackend::Launchd(b) => b.plist_path@,
                ServiceBackend::Systemd(b) => b.unit_path@,
                ServiceBackend::Null(_) => Seq::empty(),
            },
    {
        match self {
            ServiceBackend::Launchd(b) => String::from_str(&b.plist_path),
            ServiceBackend::Systemd(b) => String::from_str(&b.unit_path),
            ServiceBackend::Null(_) => {
                let s = String::new();
                assert(s@ =~= Seq::empty());
                s
            },
        }
    }
}

/// The backend of a platform, for the user with this home directory.
pub fn detect_backend(label: &str, platform: Platform, home: Option<&str>) -> (r: Result<
    ServiceBackend,
    String,
>)
    ensures
        match platform {
            Platform::MacOs => match home {
                Some(h) => r matches Ok(ServiceBackend::Launchd(b)) && b.serves(label@, h@),
                None => r matches Err(e) && e@ == "$HOME not set"@,
            },
            Platform::Linux => match home {
                Some(h) => r matches Ok(ServiceBackend::Systemd(b)) && b.serves(label@, h@),
                None => r matches Err(e) && e@ == "$HOME not set"@,
            },
            _ => r matches Ok(ServiceBackend::Null(b)) && b.label@ == label@,
        },
{
    match platform {
        Platform::MacOs => match home {
            Some(h) => Ok(ServiceBackend::Launchd(Launchd::new(label, h))),
            None => Err(String::from_str("$HOME not set")),
        },
        Platform::Linux => match home {
            Some(h) => Ok(ServiceBackend::Systemd(Systemd::new(label, h))),
            None => Err(String::from_str("$HOME not set")),
        },
        _ => Ok(ServiceBackend::Null(NullBackend::new(String::from_str(label)))),
    }
}

/// A unit is written exactly where it is not there as it should be: it is created where there is
/// nothing, left where it holds this text, and replaced where it holds anything else.
pub proof fn law_what_an_install_changes(existing: &Existing, unit: &str, r: InstallAction)
    requires
        call_ensures(install_action, (existing, unit), r),
    ensures
        r is Created <==> existing is Missing,
        r is Unchanged <==> (*existing matches Existing::Text(t) && t@ == unit@),
        r is Updated <==> existing is NotText || (*existing matches Existing::Text(t) && t@
            != unit@),
{
}

/// A platform has a backend exactly where it is supported; launchd on macOS and systemd on
/// Linux, for the service of this label. Both need a home directory.
pub proof fn law_supported_platforms_have_a_backend(
    label: &str,
    platform: Platform,
    home: Option<&str>,
    supported: bool,
    r: Result<ServiceBackend, String>,
)
    requires
        call_ensures(is_supported, (platform,), supported),
        call_ensures(detect_backend, (label, platform, home), r),
    ensures
        r is Err <==> supported && home is None,
        r matches Ok(b) ==> (b is Null <==> !supported),
        r matches Ok(b) ==> (b is Launchd <==> platform is MacOs) && (b is Systemd
            <==> platform is Linux),
        r matches Ok(ServiceBackend::Launchd(b)) ==> b.label@ == label@,
        r matches Ok(ServiceBackend::Null(b)) ==> b.label@ == label@,
{
}

} // verus!
