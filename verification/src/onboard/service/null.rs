//! The backend of a platform without services.

use crate::onboard::service::{InstallReport, ServiceSpec, ServiceStatus};
use vstd::prelude::*;

verus! {

/// A backend on which every change fails.
#[derive(Debug)]
pub struct NullBackend {
    /// The service asked for.
    pub label: String,
}

impl NullBackend {
    /// A backend for a service.
    pub fn new(label: String) -> (r: Self)
        ensures
            r.label == label,
    {
        NullBackend { label }
    }

    /// Why a change fails.
    pub open spec fn refusal(&self) -> Seq<char> {
        "service install for label `"@ + self.label@
            + "` not supported on this platform yet (v0.4 ships macOS + Linux; Windows is planned for v0.5). Run `ctxd serve` in a foreground terminal as a workaround."@
    }

    fn unsupported(&self) -> (r: String)
        ensures
            r@ == self.refusal(),
    {
        let mut s = String::from_str("service install for label `");
        s.append(&self.label);
        s.append(
            "` not supported on this platform yet (v0.4 ships macOS + Linux; Windows is planned for v0.5). Run `ctxd serve` in a foreground terminal as a workaround.",
        );
        s
    }

    /// Fails.
    pub fn install(&self, _spec: &ServiceSpec) -> (r: Result<InstallReport, String>)
        ensures
            r matches Err(e) && e@ == self.refusal(),
    {
        Err(self.unsupported())
    }

    /// Fails.
    pub fn start(&self) -> (r: Result<(), String>)
        ensures
            r matches Err(e) && e@ == self.refusal(),
    {
        Err(self.unsupported())
    }

    /// Fails.
    pub fn stop(&self) -> (r: Result<(), String>)
        ensures
            r matches Err(e) && e@ == self.refusal(),
    {
        Err(self.unsupported())
    }

    /// Fails.
    pub fn uninstall(&self) -> (r: Result<(), String>)
        ensures
            r matches Err(e) && e@ == self.refusal(),
    {
        Err(self.unsupported())
    }

    /// Nothing is installed.
    pub fn status(&self) -> (r: Result<ServiceStatus, String>)
        ensures
            r == Ok::<ServiceStatus, String>(ServiceStatus::NotInstalled),
    {
        Ok(ServiceStatus::NotInstalled)
    }
}

/// Where there are no services nothing can be changed, and nothing is installed.
pub proof fn law_nothing_without_services(
    backend: &NullBackend,
    spec: &ServiceSpec,
    installed: Result<InstallReport, String>,
    started: Result<(), String>,
    stopped: Result<(), String>,
    removed: Result<(), String>,
    status: Result<ServiceStatus, String>,
)
    requires
        call_ensures(NullBackend::install, (backend, spec), installed),
        call_ensures(NullBackend::start, (backend,), started),
        call_ensures(NullBackend::stop, (backend,), stopped),
        call_ensures(NullBackend::uninstall, (backend,), removed),
        call_ensures(NullBackend::status, (backend,), status),
    ensures
        installed is Err && started is Err && stopped is Err && removed is Err,
        status matches Ok(s) && s is NotInstalled,
{
}

} // verus!
