//! `ctxd doctor`: diagnostic checks, each with a hint on what to do where it fails.

use crate::json::Json;
use crate::onboard::protocol;
use crate::onboard::protocol::DoctorSummary;
use crate::onboard::service::ServiceStatus;
use crate::outside;
use crate::pidfile::DaemonState;
use crate::text;
use crate::textmap::TextMap;
use crate::time::Timestamp;
use vstd::prelude::*;

verus! {

/// Outcome of a check.
#[derive(Debug, Clone, Copy, PartialEq, Eq, Structural)]
pub enum CheckStatus {
    /// The check passed.
    Passed,
    /// Something is odd.
    Warn,
    /// The check failed.
    Failed,
    /// The check was left out.
    Skipped,
}

impl CheckStatus {
    /// The word for the status.
    pub open spec fn word(self) -> Seq<char> {
        match self {
            CheckStatus::Passed => "ok"@,
            CheckStatus::Warn => "warn"@,
            CheckStatus::Failed => "failed"@,
            CheckStatus::Skipped => "skipped"@,
        }
    }

    /// The word for the status.
    pub fn as_str(self) -> (r: &'static str)
        ensures
            r@ == self.word(),
    {
        match self {
            CheckStatus::Passed => "ok",
            CheckStatus::Warn => "warn",
            CheckStatus::Failed => "failed",
            CheckStatus::Skipped => "skipped",
        }
    }

    /// The sign for the status.
    pub open spec fn sign(self) -> Seq<char> {
        match self {
            CheckStatus::Passed => "  ✓"@,
            CheckStatus::Warn => "  !"@,
            CheckStatus::Failed => "  ✗"@,
            CheckStatus::Skipped => "  ↷"@,
        }
    }

    fn marker(self) -> (r: &'static str)
        ensures
            r@ == self.sign(),
    {
        match self {
            CheckStatus::Passed => "  ✓",
            CheckStatus::Warn => "  !",
            CheckStatus::Failed => "  ✗",
            CheckStatus::Skipped => "  ↷",
        }
    }
}

/// Result of a check.
#[derive(Debug)]
pub struct Check {
    /// Name of the check.
    pub name: String,
    /// Its outcome.
    pub status: CheckStatus,
    /// What to do about it.
    pub remediation: Option<String>,
    /// Data that belongs to it; null for none.
    pub detail: Json,
}

impl Check {
    /// The check has this name, this outcome and this hint.
    pub open spec fn says(
        self,
        name: Seq<char>,
        status: CheckStatus,
        remediation: Option<Seq<char>>,
    ) -> bool {
        &&& self.name@ == name
        &&& self.status == status
        &&& protocol::text_view(self.remediation) == remediation
    }

    fn new(name: &str, status: CheckStatus, remediation: Option<String>, detail: Json) -> (r: Self)
        ensures
            r.says(name@, status, protocol::text_view(remediation)),
            r.detail == detail,
    {
        Check { name: String::from_str(name), status, remediation, detail }
    }

    /// The value is the JSON form of the check. What is not given is left out.
    pub open spec fn is_written(self, v: Json) -> bool {
        let m = v.members();
        &&& v is Object
        &&& protocol::named(m, set!["name"@, "status"@], set!["remediation"@, "detail"@])
        &&& m["name"@].is_text(self.name@)
        &&& m["status"@].is_text(self.status.word())
        &&& protocol::optional_text(m, "remediation"@, protocol::text_view(self.remediation))
        &&& m.dom().contains("detail"@) <==> !(self.detail is Null)
        &&& m.dom().contains("detail"@) ==> m["detail"@] == self.detail
    }

    /// The JSON form of the check.
    pub fn into_json(self) -> (r: Json)
        ensures
            self.is_written(r),
    {
        proof {
            reveal_strlit("name");
            reveal_strlit("status");
            reveal_strlit("remediation");
            reveal_strlit("detail");
            assert("name"@.len() == 4 && "status"@.len() == 6 && "remediation"@.len() == 11);
            assert("detail"@.len() == 6 && "status"@[0] == 's' && "detail"@[0] == 'd');
        }
        let mut m: TextMap<Json> = TextMap::new();
        m.insert("name", Json::text(&self.name));
        m.insert("status", Json::text(self.status.as_str()));
        match &self.remediation {
            Some(x) => {
                m.insert("remediation", Json::text(x));
            },
            None => {},
        }
        let null = match &self.detail {
            Json::Null => true,
            _ => false,
        };
        if !null {
            m.insert("detail", self.detail);
        }
        Json::Object(m)
    }
}

/// Counts of a run.
#[derive(Debug, Clone, Copy, PartialEq, Eq, Structural)]
pub struct Summary {
    /// All checks.
    pub total: u32,
    /// Those that passed.
    pub ok: u32,
    /// Those with a warning.
    pub warnings: u32,
    /// Those that failed.
    pub failed: u32,
    /// Those left out.
    pub skipped: u32,
}

/// How many checks have a status.
pub open spec fn count(checks: Seq<Check>, status: CheckStatus) -> nat
    decreases checks.len(),
{
    if checks.len() == 0 {
        0
    } else {
        count(checks.drop_last(), status) + if checks.last().status == status {
            1nat
        } else {
            0
        }
    }
}

/// Every check has one of the four statuses.
pub proof fn law_counts_add_up(checks: Seq<Check>)
    ensures
        count(checks, CheckStatus::Passed) + count(checks, CheckStatus::Warn) + count(
            checks,
            CheckStatus::Failed,
        ) + count(checks, CheckStatus::Skipped) == checks.len(),
    decreases checks.len(),
{
    if checks.len() > 0 {
        law_counts_add_up(checks.drop_last());
    }
}

impl Summary {
    /// The summary counts these checks.
    pub open spec fn counts(self, checks: Seq<Check>) -> bool {
        &&& self.total == checks.len()
        &&& self.ok == count(checks, CheckStatus::Passed)
        &&& self.warnings == count(checks, CheckStatus::Warn)
        &&& self.failed == count(checks, CheckStatus::Failed)
        &&& self.skipped == count(checks, CheckStatus::Skipped)
    }

    /// Counts checks.
    pub fn from_checks(checks: &[Check]) -> (r: Self)
        requires
            checks@.len() <= u32::MAX,
        ensures
            r.counts(checks@),
    {
        let mut s = Summary { total: 0, ok: 0, warnings: 0, failed: 0, skipped: 0 };
        let mut i: usize = 0;
        while i < checks.len()
            invariant
                i <= checks@.len() <= u32::MAX,
                s.counts(checks@.take(i as int)),
            decreases checks.len() - i,
        {
            proof {
                law_counts_add_up(checks@.take(i as int));
                let t = checks@.take(i + 1);
                assert(t.drop_last() =~= checks@.take(i as int));
                assert(t.last() == checks@[i as int]);
            }
            s.total = s.total + 1;
            match checks[i].status {
                CheckStatus::Passed => {
                    s.ok = s.ok + 1;
                },
                CheckStatus::Warn => {
                    s.warnings = s.warnings + 1;
                },
                CheckStatus::Failed => {
                    s.failed = s.failed + 1;
                },
                CheckStatus::Skipped => {
                    s.skipped = s.skipped + 1;
                },
            }
            i += 1;
        }
        assert(checks@.take(checks@.len() as int) =~= checks@);
        s
    }

    /// Whether no check failed.
    pub fn all_ok(&self) -> (r: bool)
        ensures
            r == (self.failed == 0),
    {
        self.failed == 0
    }

    /// The counts that a run of onboarding reports.
    pub fn for_outcome(&self) -> (r: DoctorSummary)
        ensures
            r == (DoctorSummary {
                total: self.total,
                ok: self.ok,
                warnings: self.warnings,
                failed: self.failed,
            }),
    {
        DoctorSummary {
            total: self.total,
            ok: self.ok,
            warnings: self.warnings,
            failed: self.failed,
        }
    }
}

impl Default for Summary {
    fn default() -> (r: Self)
        ensures
            r == (Summary { total: 0, ok: 0, warnings: 0, failed: 0, skipped: 0 }),
    {
        Summary { total: 0, ok: 0, warnings: 0, failed: 0, skipped: 0 }
    }
}

/// A moment in nanoseconds.
pub open spec fn nanos(t: Timestamp) -> int {
    t.secs * 1_000_000_000 + t.nanos
}

/// Whole seconds from one moment to another; none where that lies before.
pub open spec fn seconds_between(from: Timestamp, to: Timestamp) -> nat {
    if nanos(to) <= nanos(from) {
        0
    } else {
        ((nanos(to) - nanos(from)) / 1_000_000_000) as nat
    }
}

fn uptime(from: Timestamp, to: Timestamp) -> (r: u64)
    ensures
        r == if seconds_between(from, to) <= u64::MAX {
            seconds_between(from, to)
        } else {
            u64::MAX as nat
        },
{
    let a: i128 = from.secs as i128 * 1_000_000_000 + from.nanos as i128;
    let b: i128 = to.secs as i128 * 1_000_000_000 + to.nanos as i128;
    if b <= a {
        0
    } else {
        let s: i128 = (b - a) / 1_000_000_000;
        if s > 0xffff_ffff_ffff_ffff {
            0xffff_ffff_ffff_ffff
        } else {
            s as u64
        }
    }
}

/// The hint on a daemon that does not answer.
pub open spec fn unresponsive_hint(pid: u32) -> Seq<char> {
    "daemon at pid "@ + text::digits(pid as nat)
        + " owns the pidfile but /health is not responding; consider `kill "@ + text::digits(
        pid as nat,
    ) + "` and restarting via `ctxd serve`"@
}

/// The hint on a pidfile of a dead process.
pub open spec fn stale_hint(pid: u32) -> Seq<char> {
    "stale pidfile from prior daemon (pid "@ + text::digits(pid as nat)
        + " no longer running); will be overwritten on next `ctxd serve`"@
}

/// What the check `daemon-running` answers.
pub open spec fn daemon_check(state: DaemonState, now: Timestamp, c: Check) -> bool {
    let m = c.detail.members();
    match state {
        DaemonState::Running(f) => {
            &&& c.says("daemon-running"@, CheckStatus::Passed, None)
            &&& c.detail.has_members(set!["pid"@, "admin_url"@, "version"@, "uptime_s"@])
            &&& m["pid"@] == Json::Unsigned(f.pid as u64)
            &&& m["admin_url"@].is_text("http://"@ + f.admin_bind@)
            &&& m["version"@].is_text(f.version@)
            &&& m["uptime_s"@] is Unsigned
            &&& seconds_between(f.started_at, now) <= u64::MAX ==> m["uptime_s"@]->Unsigned_0
                == seconds_between(f.started_at, now)
        },
        DaemonState::Unresponsive(f) => {
            &&& c.says("daemon-running"@, CheckStatus::Warn, Some(unresponsive_hint(f.pid)))
            &&& protocol::named(m, set!["pid"@, "admin_bind"@], set!["started_at"@])
            &&& c.detail is Object
            &&& m["pid"@] == Json::Unsigned(f.pid as u64)
            &&& m["admin_bind"@].is_text(f.admin_bind@)
            &&& protocol::optional_text(m, "started_at"@, outside::instant_text(f.started_at))
        },
        DaemonState::Stale(f) => {
            &&& c.says("daemon-running"@, CheckStatus::Warn, Some(stale_hint(f.pid)))
            &&& c.detail.has_members(set!["stale_pid"@])
            &&& m["stale_pid"@] == Json::Unsigned(f.pid as u64)
        },
        DaemonState::NotRunning => c.says(
            "daemon-running"@,
            CheckStatus::Failed,
            Some("start the daemon with `ctxd serve` (or run `ctxd onboard`)"@),
        ) && c.detail is Null,
    }
}

/// `daemon-running`: a daemon holds the pidfile and answers.
pub fn check_daemon_running(state: &DaemonState, now: Timestamp) -> (r: Check)
    ensures
        daemon_check(*state, now, r),
{
    proof {
        reveal_strlit("pid");
        reveal_strlit("admin_url");
        reveal_strlit("version");
        reveal_strlit("uptime_s");
        reveal_strlit("admin_bind");
        reveal_strlit("started_at");
        assert("pid"@.len() == 3 && "admin_url"@.len() == 9 && "version"@.len() == 7);
        assert("uptime_s"@.len() == 8 && "admin_bind"@.len() == 10 && "started_at"@.len() == 10);
        assert("admin_bind"@[0] == 'a' && "started_at"@[0] == 's');
    }
    match state {
        DaemonState::Running(f) => {
            let mut url = String::from_str("http://");
            url.append(&f.admin_bind);
            let mut m: TextMap<Json> = TextMap::new();
            m.insert("pid", Json::Unsigned(f.pid as u64));
            m.insert("admin_url", Json::text(&url));
            m.insert("version", Json::text(&f.version));
            m.insert("uptime_s", Json::Unsigned(uptime(f.started_at, now)));
            assert(m@.dom() =~= set!["pid"@, "admin_url"@, "version"@, "uptime_s"@]);
            Check::new("daemon-running", CheckStatus::Passed, None, Json::Object(m))
        },
        DaemonState::Unresponsive(f) => {
            let pid = text::unsigned_text(f.pid as u64);
            let mut hint = String::from_str("daemon at pid ");
            hint.append(&pid);
            hint.append(" owns the pidfile but /health is not responding; consider `kill ");
            hint.append(&pid);
            hint.append("` and restarting via `ctxd serve`");
            let mut m: TextMap<Json> = TextMap::new();
            m.insert("pid", Json::Unsigned(f.pid as u64));
            m.insert("admin_bind", Json::text(&f.admin_bind));
            match outside::format_instant(f.started_at) {
                Some(t) => {
                    m.insert("started_at", Json::text(&t));
                },
                None => {},
            }
            Check::new("daemon-running", CheckStatus::Warn, Some(hint), Json::Object(m))
        },
        DaemonState::Stale(f) => {
            let pid = text::unsigned_text(f.pid as u64);
            let mut hint = String::from_str("stale pidfile from prior daemon (pid ");
            hint.append(&pid);
            hint.append(" no longer running); will be overwritten on next `ctxd serve`");
            let mut m: TextMap<Json> = TextMap::new();
            m.insert("stale_pid", Json::Unsigned(f.pid as u64));
            assert(m@.dom() =~= set!["stale_pid"@]);
            Check::new("daemon-running", CheckStatus::Warn, Some(hint), Json::Object(m))
        },
        DaemonState::NotRunning => Check::new(
            "daemon-running",
            CheckStatus::Failed,
            Some(String::from_str("start the daemon with `ctxd serve` (or run `ctxd onboard`)")),
            Json::Null,
        ),
    }
}

/// What opening the database gave.
#[derive(Debug)]
pub enum StorageProbe {
    /// There is no file.
    Missing,
    /// It opened.
    Opened,
    /// It did not open.
    Failed(String),
}

/// The object with this one member of text.
pub open spec fn tells(v: Json, name: Seq<char>, value: Seq<char>) -> bool {
    v.has_members(set![name]) && v.members()[name].is_text(value)
}

fn telling(name: &str, value: &str) -> (r: Json)
    ensures
        tells(r, name@, value@),
{
    let mut m: TextMap<Json> = TextMap::new();
    m.insert(name, Json::text(value));
    assert(m@.dom() =~= set![name@]);
    Json::Object(m)
}

/// What the check `storage-healthy` answers.
pub open spec fn storage_check(db_path: Seq<char>, probe: StorageProbe, c: Check) -> bool {
    match probe {
        StorageProbe::Missing => c.says(
            "storage-healthy"@,
            CheckStatus::Skipped,
            Some("no DB at "@ + db_path + " yet — first `ctxd serve` will create it"@),
        ) && c.detail is Null,
        StorageProbe::Opened => c.says("storage-healthy"@, CheckStatus::Passed, None) && tells(
            c.detail,
            "path"@,
            db_path,
        ),
        StorageProbe::Failed(e) => c.says(
            "storage-healthy"@,
            CheckStatus::Failed,
            Some(
                "the SQLite DB cannot be opened — check file permissions, disk space, or restore from a backup"@,
            ),
        ) && tells(c.detail, "error"@, e@),
    }
}

/// `storage-healthy`: the database opens.
pub fn check_storage_healthy(db_path: &str, probe: &StorageProbe) -> (r: Check)
    ensures
        storage_check(db_path@, *probe, r),
{
    match probe {
        StorageProbe::Missing => {
            let mut hint = String::from_str("no DB at ");
            hint.append(db_path);
            hint.append(" yet — first `ctxd serve` will create it");
            Check::new("storage-healthy", CheckStatus::Skipped, Some(hint), Json::Null)
        },
        StorageProbe::Opened => Check::new(
            "storage-healthy",
            CheckStatus::Passed,
            None,
            telling("path", db_path),
        ),
        StorageProbe::Failed(e) => Check::new(
            "storage-healthy",
            CheckStatus::Failed,
            Some(
                String::from_str(
                    "the SQLite DB cannot be opened — check file permissions, disk space, or restore from a backup",
                ),
            ),
            telling("error", e),
        ),
    }
}

/// What counting the events gave.
#[derive(Debug)]
pub enum EventProbe {
    /// There is no database.
    Missing,
    /// It does not open.
    Unopened,
    /// This many.
    Counted(u64),
    /// They could not be counted.
    Failed(String),
}

/// The object with this count.
pub open spec fn counts_events(v: Json, n: u64) -> bool {
    v.has_members(set!["event_count"@]) && v.members()["event_count"@] == Json::Unsigned(n)
}

/// What the check `events-present` answers.
pub open spec fn events_check(probe: EventProbe, c: Check) -> bool {
    match probe {
        EventProbe::Missing => c.says(
            "events-present"@,
            CheckStatus::Skipped,
            Some("no DB yet — onboard step seed-subjects writes 3 events to /me/**"@),
        ) && c.detail is Null,
        EventProbe::Unopened => c.says(
            "events-present"@,
            CheckStatus::Skipped,
            Some("storage-healthy must pass first"@),
        ) && c.detail is Null,
        EventProbe::Counted(n) => counts_events(c.detail, n) && if n > 0 {
            c.says("events-present"@, CheckStatus::Passed, None)
        } else {
            c.says(
                "events-present"@,
                CheckStatus::Warn,
                Some(
                    "the log is empty — run `ctxd onboard` (step seed-subjects) to populate /me/**"@,
                ),
            )
        },
        EventProbe::Failed(e) => c.says(
            "events-present"@,
            CheckStatus::Failed,
            Some("could not count events; storage may be corrupt"@),
        ) && tells(c.detail, "error"@, e@),
    }
}

/// `events-present`: the log is not empty.
pub fn check_events_present(probe: &EventProbe) -> (r: Check)
    ensures
        events_check(*probe, r),
{
    match probe {
        EventProbe::Missing => Check::new(
            "events-present",
            CheckStatus::Skipped,
            Some(
                String::from_str(
                    "no DB yet — onboard step seed-subjects writes 3 events to /me/**",
                ),
            ),
            Json::Null,
        ),
        EventProbe::Unopened => Check::new(
            "events-present",
            CheckStatus::Skipped,
            Some(String::from_str("storage-healthy must pass first")),
            Json::Null,
        ),
        EventProbe::Counted(n) => {
            let mut m: TextMap<Json> = TextMap::new();
            m.insert("event_count", Json::Unsigned(*n));
            assert(m@.dom() =~= set!["event_count"@]);
            if *n > 0 {
                Check::new("events-present", CheckStatus::Passed, None, Json::Object(m))
            } else {
                Check::new(
                    "events-present",
                    CheckStatus::Warn,
                    Some(
                        String::from_str(
                            "the log is empty — run `ctxd onboard` (step seed-subjects) to populate /me/**",
                        ),
                    ),
                    Json::Object(m),
                )
            }
        },
        EventProbe::Failed(e) => Check::new(
            "events-present",
            CheckStatus::Failed,
            Some(String::from_str("could not count events; storage may be corrupt")),
            telling("error", e),
        ),
    }
}

/// What asking for the service gave.
#[derive(Debug)]
pub enum ServiceProbe {
    /// The platform has no services.
    Unsupported,
    /// There is no backend.
    NoBackend(String),
    /// The backend answered.
    Answered {
        /// Name of the backend.
        backend: String,
        /// Path of the unit.
        unit_path: String,
        /// Its status, or an error.
        status: Result<ServiceStatus, String>,
    },
}

/// The hint on a unit that does not run.
pub open spec fn stopped_hint(backend: Seq<char>) -> Seq<char> {
    "service unit installed but not running — start with `ctxd onboard --only service-start` or `"@
        + (if backend == "launchd"@ {
        "launchctl bootstrap gui/$UID <plist>"@
    } else {
        "systemctl --user start ctxd"@
    }) + "`"@
}

/// What the check `service-installed` answers. A missing service is the user's choice, so
/// the check never fails.
pub open spec fn service_check(probe: ServiceProbe, c: Check) -> bool {
    let m = c.detail.members();
    match probe {
        ServiceProbe::Unsupported => c.says(
            "service-installed"@,
            CheckStatus::Skipped,
            Some(
                "service install not supported on this OS yet (v0.4 ships macOS + Linux); run `ctxd serve` in a foreground terminal as a workaround"@,
            ),
        ) && c.detail is Null,
        ServiceProbe::NoBackend(e) => c.says(
            "service-installed"@,
            CheckStatus::Warn,
            Some("could not initialise service backend; check $HOME"@),
        ) && tells(c.detail, "error"@, e@),
        ServiceProbe::Answered { backend, unit_path, status } => match status {
            Ok(ServiceStatus::Running { pid }) => {
                &&& c.says("service-installed"@, CheckStatus::Passed, None)
                &&& c.detail.has_members(set!["backend"@, "unit_path"@, "state"@, "pid"@])
                &&& m["backend"@].is_text(backend@)
                &&& m["unit_path"@].is_text(unit_path@)
                &&& m["state"@].is_text("running"@)
                &&& m["pid"@] == match pid {
                    Some(p) => Json::Unsigned(p as u64),
                    None => Json::Null,
                }
            },
            Ok(ServiceStatus::Stopped) => {
                &&& c.says(
                    "service-installed"@,
                    CheckStatus::Warn,
                    Some(stopped_hint(backend@)),
                )
                &&& c.detail.has_members(set!["backend"@, "unit_path"@, "state"@])
                &&& m["backend"@].is_text(backend@)
                &&& m["unit_path"@].is_text(unit_path@)
                &&& m["state"@].is_text("stopped"@)
            },
            Ok(ServiceStatus::NotInstalled) => {
                &&& c.says(
                    "service-installed"@,
                    CheckStatus::Warn,
                    Some(
                        "no service installed — run `ctxd onboard --only service-install,service-start` to install and start"@,
                    ),
                )
                &&& c.detail.has_members(set!["backend"@, "expected_unit_path"@])
                &&& m["backend"@].is_text(backend@)
                &&& m["expected_unit_path"@].is_text(unit_path@)
            },
            Err(e) => c.says(
                "service-installed"@,
                CheckStatus::Warn,
                Some("service backend ("@ + backend@ + ") error"@),
            ) && tells(c.detail, "error"@, e@),
        },
    }
}

/// `service-installed`: the unit is there and runs.
pub fn check_service_installed(probe: &ServiceProbe) -> (r: Check)
    ensures
        service_check(*probe, r),
        r.status != CheckStatus::Failed,
{
    proof {
        reveal_strlit("backend");
        reveal_strlit("unit_path");
        reveal_strlit("state");
        reveal_strlit("pid");
        reveal_strlit("expected_unit_path");
        assert("backend"@.len() == 7 && "unit_path"@.len() == 9 && "state"@.len() == 5);
        assert("pid"@.len() == 3 && "expected_unit_path"@.len() == 18);
    }
    let (backend, unit_path, status) = match probe {
        ServiceProbe::Unsupported => {
            return Check::new(
                "service-installed",
                CheckStatus::Skipped,
                Some(
                    String::from_str(
                        "service install not supported on this OS yet (v0.4 ships macOS + Linux); run `ctxd serve` in a foreground terminal as a workaround",
                    ),
                ),
                Json::Null,
            );
        },
        ServiceProbe::NoBackend(e) => {
            return Check::new(
                "service-installed",
                CheckStatus::Warn,
                Some(String::from_str("could not initialise service backend; check $HOME")),
                telling("error", e),
            );
        },
        ServiceProbe::Answered { backend, unit_path, status } => (backend, unit_path, status),
    };
    match status {
        Ok(ServiceStatus::Running { pid }) => {
            let mut m: TextMap<Json> = TextMap::new();
            m.insert("backend", Json::text(backend));
            m.insert("unit_path", Json::text(unit_path));
            m.insert("state", Json::text("running"));
            m.insert(
                "pid",
                match pid {
                    Some(p) => Json::Unsigned(*p as u64),
                    None => Json::Null,
                },
            );
            assert(m@.dom() =~= set!["backend"@, "unit_path"@, "state"@, "pid"@]);
            Check::new("service-installed", CheckStatus::Passed, None, Json::Object(m))
        },
        Ok(ServiceStatus::Stopped) => {
            let mut hint = String::from_str(
                "service unit installed but not running — start with `ctxd onboard --only service-start` or `",
            );
            hint.append(
                if text::same(backend, "launchd") {
                    "launchctl bootstrap gui/$UID <plist>"
                } else {
                    "systemctl --user start ctxd"
                },
            );
            hint.append("`");
            let mut m: TextMap<Json> = TextMap::new();
            m.insert("backend", Json::text(backend));
            m.insert("unit_path", Json::text(unit_path));
            m.insert("state", Json::text("stopped"));
            assert(m@.dom() =~= set!["backend"@, "unit_path"@, "state"@]);
            Check::new("service-installed", CheckStatus::Warn, Some(hint), Json::Object(m))
        },
        Ok(ServiceStatus::NotInstalled) => {
            let mut m: TextMap<Json> = TextMap::new();
            m.insert("backend", Json::text(backend));
            m.insert("expected_unit_path", Json::text(unit_path));
            assert(m@.dom() =~= set!["backend"@, "expected_unit_path"@]);
            Check::new(
                "service-installed",
                CheckStatus::Warn,
                Some(
                    String::from_str(
                        "no service installed — run `ctxd onboard --only service-install,service-start` to install and start",
                    ),
                ),
                Json::Object(m),
            )
        },
        Err(e) => {
            let mut hint = String::from_str("service backend (");
            hint.append(backend);
            hint.append(") error");
            Check::new(
                "service-installed",
                CheckStatus::Warn,
                Some(hint),
                telling("error", e),
            )
        },
    }
}

/// What a check that does not exist yet answers.
pub open spec fn stub_check(name: Seq<char>, reason: Seq<char>, c: Check) -> bool {
    c.says(name, CheckStatus::Skipped, Some("not yet wired ("@ + reason + ")"@)) && c.detail is Null
}

fn stub(name: &str, reason: &str) -> (r: Check)
    ensures
        stub_check(name@, reason@, r),
{
    let mut hint = String::from_str("not yet wired (");
    hint.append(reason);
    hint.append(")");
    Check::new(name, CheckStatus::Skipped, Some(hint), Json::Null)
}

/// What the checks were answered.
#[derive(Debug)]
pub struct Probes {
    /// The daemon.
    pub daemon: DaemonState,
    /// The database.
    pub storage: StorageProbe,
    /// Its events.
    pub events: EventProbe,
    /// The service.
    pub service: ServiceProbe,
    /// The time.
    pub now: Timestamp,
}

/// The checks of a run, in order.
pub open spec fn checked(db_path: Seq<char>, p: Probes, c: Seq<Check>) -> bool {
    &&& c.len() == 9
    &&& daemon_check(p.daemon, p.now, c[0])
    &&& storage_check(db_path, p.storage, c[1])
    &&& events_check(p.events, c[2])
    &&& service_check(p.service, c[3])
    &&& stub_check(
        text::kebab("claude_desktop_config"@),
        "phase 2B — client config writers not yet wired"@,
        c[4],
    )
    &&& stub_check(
        text::kebab("claude_code_config"@),
        "phase 2B — client config writers not yet wired"@,
        c[5],
    )
    &&& stub_check(
        "codex-config"@,
        "phase 2B — Codex paste-instructions writer not yet wired"@,
        c[6],
    )
    &&& stub_check(
        "caps-valid"@,
        "phase 2A — capability file-pointer minting not yet wired"@,
        c[7],
    )
    &&& stub_check(
        "adapters"@,
        "phase 3B — in-process adapter spawning + skills.toml not yet wired"@,
        c[8],
    )
}

/// Runs every check on what the probes answered.
pub fn run(db_path: &str, probes: &Probes) -> (r: Vec<Check>)
    ensures
        checked(db_path@, *probes, r@),
{
    let mut c: Vec<Check> = Vec::new();
    c.push(check_daemon_running(&probes.daemon, probes.now));
    c.push(check_storage_healthy(db_path, &probes.storage));
    c.push(check_events_present(&probes.events));
    c.push(check_service_installed(&probes.service));
    c.push(stub(&text::to_kebab("claude_desktop_config"), "phase 2B — client config writers not yet wired"));
    c.push(stub(&text::to_kebab("claude_code_config"), "phase 2B — client config writers not yet wired"));
    c.push(stub("codex-config", "phase 2B — Codex paste-instructions writer not yet wired"));
    c.push(stub("caps-valid", "phase 2A — capability file-pointer minting not yet wired"));
    c.push(
        stub("adapters", "phase 3B — in-process adapter spawning + skills.toml not yet wired"),
    );
    c
}

/// Every check that did not pass says what to do about it.
pub proof fn law_failures_carry_a_hint(db_path: Seq<char>, p: Probes, c: Seq<Check>, i: int)
    requires
        checked(db_path, p, c),
        0 <= i < c.len(),
        c[i].status != CheckStatus::Passed,
    ensures
        c[i].remediation is Some,
{
}

/// Without a daemon a run always has a failure.
pub proof fn law_no_daemon_fails_the_run(db_path: Seq<char>, p: Probes, c: Seq<Check>)
    requires
        checked(db_path, p, c),
        p.daemon is NotRunning,
    ensures
        count(c, CheckStatus::Failed) > 0,
{
    assert(c[0].status == CheckStatus::Failed);
    lemma_counted(c, 0);
}

proof fn lemma_counted(c: Seq<Check>, i: int)
    requires
        0 <= i < c.len(),
    ensures
        count(c, c[i].status) > 0,
    decreases c.len(),
{
    if i < c.len() - 1 {
        lemma_counted(c.drop_last(), i);
    }
}

/// The lines for one check: its sign and name, the hint where it did not pass, and the
/// detail where it failed. `detail` is the detail as JSON text.
pub open spec fn check_lines(c: Check, detail: Seq<char>) -> Seq<char> {
    c.status.sign() + " "@ + c.name@ + "\n"@ + (match c.remediation {
        Some(r) => if c.status != CheckStatus::Passed {
            "      "@ + r@ + "\n"@
        } else {
            Seq::empty()
        },
        None => Seq::empty(),
    }) + if c.status == CheckStatus::Failed && !(c.detail is Null) {
        "      detail: "@ + detail + "\n"@
    } else {
        Seq::empty()
    }
}

/// The lines for the first checks.
pub open spec fn all_lines(c: Seq<Check>, details: Seq<Seq<char>>, n: nat) -> Seq<char>
    decreases n,
{
    if n == 0 {
        Seq::empty()
    } else {
        all_lines(c, details, (n - 1) as nat) + check_lines(c[n - 1], details[n - 1])
    }
}

/// The last line: the counts.
pub open spec fn tally(s: Summary) -> Seq<char> {
    "\n  "@ + text::digits(s.ok as nat) + "/"@ + text::digits(s.total as nat) + " ok, "@
        + text::digits(s.warnings as nat) + " warning, "@ + text::digits(s.failed as nat)
        + " failed, "@ + text::digits(s.skipped as nat) + " skipped\n"@
}

fn append_number(s: &mut String, n: u32)
    ensures
        final(s)@ == old(s)@ + text::digits(n as nat),
{
    let d = text::unsigned_text(n as u64);
    s.append(&d);
}

fn render_check(c: &Check, detail: &str) -> (r: String)
    ensures
        r@ == check_lines(*c, detail@),
{
    let mut s = String::from_str(c.status.marker());
    s.append(" ");
    s.append(&c.name);
    s.append("\n");
    let mut hint = String::new();
    assert(hint@ =~= Seq::empty());
    match &c.remediation {
        Some(x) => {
            if c.status != CheckStatus::Passed {
                hint = String::from_str("      ");
                hint.append(x);
                hint.append("\n");
            }
        },
        None => {},
    }
    s.append(&hint);
    let null = match &c.detail {
        Json::Null => true,
        _ => false,
    };
    let mut more = String::new();
    assert(more@ =~= Seq::empty());
    if c.status == CheckStatus::Failed && !null {
        more = String::from_str("      detail: ");
        more.append(detail);
        more.append("\n");
    }
    s.append(&more);
    s
}

/// Writes the checks for people, and whether none failed. `details` are the details as
/// JSON text, one for each check.
pub fn render_human(checks: &[Check], details: &[String]) -> (r: (String, bool))
    requires
        checks@.len() == details@.len() <= u32::MAX,
    ensures
        exists|s: Summary| #[trigger]
            s.counts(checks@) && r.0@ == all_lines(
                checks@,
                text::views(details@),
                checks@.len(),
            ) + tally(s) && r.1 == (s.failed == 0),
{
    let ghost texts = text::views(details@);
    let mut out = String::new();
    let mut i: usize = 0;
    assert(out@ =~= all_lines(checks@, texts, 0));
    while i < checks.len()
        invariant
            i <= checks@.len() == details@.len(),
            texts == text::views(details@),
            out@ == all_lines(checks@, texts, i as nat),
        decreases checks.len() - i,
    {
        assert(texts[i as int] == details@[i as int]@);
        let lines = render_check(&checks[i], &details[i]);
        out.append(&lines);
        i += 1;
    }
    let s = Summary::from_checks(checks);
    let mut last = String::from_str("\n  ");
    append_number(&mut last, s.ok);
    last.append("/");
    append_number(&mut last, s.total);
    last.append(" ok, ");
    append_number(&mut last, s.warnings);
    last.append(" warning, ");
    append_number(&mut last, s.failed);
    last.append(" failed, ");
    append_number(&mut last, s.skipped);
    last.append(" skipped\n");
    out.append(&last);
    assert(s.counts(checks@));
    (out, s.all_ok())
}

/// The value holds these counts.
pub open spec fn is_summary(v: Json, s: Summary) -> bool {
    &&& v.has_members(set!["total"@, "ok"@, "warnings"@, "failed"@, "skipped"@])
    &&& v.members()["total"@] == Json::Unsigned(s.total as u64)
    &&& v.members()["ok"@] == Json::Unsigned(s.ok as u64)
    &&& v.members()["warnings"@] == Json::Unsigned(s.warnings as u64)
    &&& v.members()["failed"@] == Json::Unsigned(s.failed as u64)
    &&& v.members()["skipped"@] == Json::Unsigned(s.skipped as u64)
}

fn summary_json(s: Summary) -> (r: Json)
    ensures
        is_summary(r, s),
{
    proof {
        reveal_strlit("total");
        reveal_strlit("ok");
        reveal_strlit("warnings");
        reveal_strlit("failed");
        reveal_strlit("skipped");
        assert("total"@.len() == 5 && "ok"@.len() == 2 && "warnings"@.len() == 8);
        assert("failed"@.len() == 6 && "skipped"@.len() == 7);
    }
    let mut m: TextMap<Json> = TextMap::new();
    m.insert("total", Json::Unsigned(s.total as u64));
    m.insert("ok", Json::Unsigned(s.ok as u64));
    m.insert("warnings", Json::Unsigned(s.warnings as u64));
    m.insert("failed", Json::Unsigned(s.failed as u64));
    m.insert("skipped", Json::Unsigned(s.skipped as u64));
    assert(m@.dom() =~= set!["total"@, "ok"@, "warnings"@, "failed"@, "skipped"@]);
    Json::Object(m)
}

/// The value is the report on these checks: each of them, and the counts.
pub open spec fn is_report(v: Json, checks: Seq<Check>) -> bool {
    &&& v.has_members(set!["checks"@, "summary"@])
    &&& v.members()["checks"@] is Array
    &&& v.members()["checks"@].elements().len() == checks.len()
    &&& forall|i: int|
        0 <= i < checks.len() ==> checks[i].is_written(
            #[trigger] v.members()["checks"@].elements()[i],
        )
    &&& exists|s: Summary| #[trigger] s.counts(checks) && is_summary(v.members()["summary"@], s)
}

/// The report on checks, as JSON.
pub fn report_json(checks: Vec<Check>) -> (r: Json)
    requires
        checks@.len() <= u32::MAX,
    ensures
        is_report(r, checks@),
{
    proof {
        reveal_strlit("checks");
        reveal_strlit("summary");
        assert("checks"@.len() == 6 && "summary"@.len() == 7);
    }
    let ghost all = checks@;
    let s = Summary::from_checks(checks.as_slice());
    let mut list: Vec<Json> = Vec::new();
    let mut rest = checks;
    assert(all.skip(0) =~= all);
    while rest.len() > 0
        invariant
            list@.len() + rest@.len() == all.len(),
            rest@ == all.skip(list@.len() as int),
            forall|i: int| 0 <= i < list@.len() ==> all[i].is_written(#[trigger] list@[i]),
        decreases rest@.len(),
    {
        let ghost n = list@.len() as int;
        let c = rest.remove(0);
        assert(c == all[n]);
        assert(rest@ =~= all.skip(n + 1));
        list.push(c.into_json());
    }
    let mut m: TextMap<Json> = TextMap::new();
    m.insert("checks", Json::Array(list));
    m.insert("summary", summary_json(s));
    assert(m@.dom() =~= set!["checks"@, "summary"@]);
    assert(s.counts(all));
    Json::Object(m)
}

/// What each check says of what was found. The daemon passes exactly where it answers and
/// fails exactly where there is none; the database passes where it opens and fails where it
/// does not; the events pass where there are any; the service passes exactly where it runs, and
/// never fails.
pub proof fn law_checks_say_what_was_found(db_path: &str, p: &Probes, r: Vec<Check>)
    requires
        call_ensures(run, (db_path, p), r),
    ensures
        r@.len() == 9,
        r@[0].status is Passed <==> p.daemon is Running,
        r@[0].status is Failed <==> p.daemon is NotRunning,
        r@[1].status is Passed <==> p.storage is Opened,
        r@[1].status is Failed <==> p.storage is Failed,
        r@[2].status is Passed <==> (p.events matches EventProbe::Counted(n) && n > 0),
        r@[2].status is Failed <==> p.events is Failed,
        r@[3].status is Passed <==> (p.service matches ServiceProbe::Answered { status, .. } && (
        status matches Ok(s) && s is Running)),
        !(r@[3].status is Failed),
        forall|i: int| 4 <= i < 9 ==> (#[trigger] r@[i]).status is Skipped,
{
    assert(checked(db_path@, *p, r@));
}

/// A run is in order exactly where no check failed: the count of failures, the answer for
/// people and the counts in the report tell the same.
pub proof fn law_one_failure_is_told_everywhere(
    checks: &[Check],
    s: Summary,
    counted: &Summary,
    ok: bool,
    details: &[String],
    written: (String, bool),
)
    requires
        checks@.len() == details@.len() <= u32::MAX,
        call_ensures(Summary::from_checks, (checks,), s),
        *counted == s,
        call_ensures(Summary::all_ok, (counted,), ok),
        call_ensures(render_human, (checks, details), written),
    ensures
        ok <==> forall|i: int|
            0 <= i < checks@.len() ==> (#[trigger] checks@[i]).status != CheckStatus::Failed,
        written.1 == ok,
        s.total == checks@.len(),
        s.ok + s.warnings + s.failed + s.skipped == s.total,
{
    law_counts_add_up(checks@);
    lemma_none_counted(checks@, CheckStatus::Failed);
}

proof fn lemma_none_counted(c: Seq<Check>, status: CheckStatus)
    ensures
        count(c, status) == 0 <==> forall|i: int|
            0 <= i < c.len() ==> (#[trigger] c[i]).status != status,
    decreases c.len(),
{
    if c.len() > 0 {
        let init = c.drop_last();
        lemma_none_counted(init, status);
        if forall|i: int| 0 <= i < c.len() ==> (#[trigger] c[i]).status != status {
            assert forall|i: int| 0 <= i < init.len() implies (#[trigger] init[i]).status
                != status by {
                assert(init[i] == c[i]);
            }
            assert(c[c.len() - 1].status != status);
        }
        if count(c, status) == 0 {
            assert forall|i: int| 0 <= i < c.len() implies (#[trigger] c[i]).status != status by {
                if i < init.len() {
                    assert(init[i] == c[i]);
                }
            }
        }
    }
}

/// What is told of a daemon that runs: its process, its address, its version, and the whole seconds
/// since it was started, none where the clock stands before that.
pub proof fn law_what_is_told_of_a_daemon(
    state: &DaemonState,
    now: Timestamp,
    r: Check,
)
    requires
        call_ensures(check_daemon_running, (state, now), r),
    ensures
        r.name@ == "daemon-running"@,
        *state matches DaemonState::Running(f) ==> {
            let m = r.detail.members();
            &&& m["pid"@] == Json::Unsigned(f.pid as u64)
            &&& m["version"@].is_text(f.version@)
            &&& m["admin_url"@].is_text("http://"@ + f.admin_bind@)
            &&& f.started_at.nanos == now.nanos && 0 <= now.secs - f.started_at.secs
                ==> m["uptime_s"@] == Json::Unsigned((now.secs - f.started_at.secs) as u64)
            &&& now.secs < f.started_at.secs && f.started_at.nanos == now.nanos ==> m["uptime_s"@]
                == Json::Unsigned(0)
        },
        *state matches DaemonState::Unresponsive(f) ==> r.detail.members()["pid"@]
            == Json::Unsigned(f.pid as u64),
        *state matches DaemonState::Stale(f) ==> r.detail.members()["stale_pid"@]
            == Json::Unsigned(f.pid as u64),
{
    if let DaemonState::Running(f) = *state {
        let d = now.secs - f.started_at.secs;
        if f.started_at.nanos == now.nanos {
            assert(nanos(now) - nanos(f.started_at) == d * 1_000_000_000);
            if d > 0 {
                assert((d * 1_000_000_000) / 1_000_000_000 == d);
                assert(seconds_between(f.started_at, now) == d);
            } else {
                assert(seconds_between(f.started_at, now) == 0);
            }
        }
    }
}

/// The report counts what it lists: as many checks, each by its name and its word, and the counts
/// of the summary.
pub proof fn law_the_report_lists_every_check(
    checks: Vec<Check>,
    listed: &[Check],
    s: Summary,
    r: Json,
    i: int,
)
    requires
        checks@.len() <= u32::MAX,
        listed@ == checks@,
        call_ensures(Summary::from_checks, (listed,), s),
        call_ensures(report_json, (checks,), r),
    ensures
        r.members()["checks"@].elements().len() == checks@.len(),
        0 <= i < checks@.len() ==> r.members()["checks"@].elements()[i].members()["name"@].is_text(
            checks@[i].name@,
        ) && r.members()["checks"@].elements()[i].members()["status"@].is_text(
            checks@[i].status.word(),
        ),
        r.members()["summary"@].members()["failed"@] == Json::Unsigned(s.failed as u64),
        r.members()["summary"@].members()["ok"@] == Json::Unsigned(s.ok as u64),
        r.members()["summary"@].members()["warnings"@] == Json::Unsigned(s.warnings as u64),
        r.members()["summary"@].members()["skipped"@] == Json::Unsigned(s.skipped as u64),
        r.members()["summary"@].members()["total"@] == Json::Unsigned(s.total as u64),
{
    if 0 <= i < checks@.len() {
        assert(checks@[i].is_written(r.members()["checks"@].elements()[i]));
    }
}

/// For people every check has a line with its name and, where it did not pass, with the hint.
pub proof fn law_people_are_told_every_check(
    checks: &[Check],
    details: &[String],
    r: (String, bool),
    i: int,
)
    requires
        checks@.len() == details@.len() <= u32::MAX,
        call_ensures(render_human, (checks, details), r),
        0 <= i < checks@.len(),
    ensures
        exists|k: int| #[trigger]
            text::occurs_at(
                r.0@,
                checks@[i].status.sign() + " "@ + checks@[i].name@ + "\n"@,
                k,
            ),
        checks@[i].status != CheckStatus::Passed ==> (checks@[i].remediation matches Some(h)
            ==> exists|k: int| #[trigger] text::occurs_at(r.0@, "      "@ + h@ + "\n"@, k)),
{
    let s = choose|s: Summary| #[trigger]
        s.counts(checks@) && r.0@ == all_lines(
            checks@,
            text::views(details@),
            checks@.len(),
        ) + tally(s);
    let all = all_lines(checks@, text::views(details@), checks@.len());
    let c = checks@[i];
    let lines = check_lines(c, text::views(details@)[i]);
    let at = lemma_lines_listed(checks@, text::views(details@), checks@.len(), i);
    let none = Seq::<char>::empty();
    assert(r.0@ =~= none + all + tally(s));
    let head = c.status.sign() + " "@ + c.name@ + "\n"@;
    let rest = lines.skip(head.len() as int);
    assert(lines =~= none + head + rest);
    text::lemma_within(none, head, rest);
    lemma_found_in_part(all, lines, at, head, 0);
    text::lemma_within_part(none, all, tally(s), head, at);
    if let Some(h) = c.remediation {
        if c.status != CheckStatus::Passed {
            let hint = "      "@ + h@ + "\n"@;
            let tail = lines.skip((head + hint).len() as int);
            assert(lines =~= head + hint + tail);
            text::lemma_within(head, hint, tail);
            lemma_found_in_part(all, lines, at, hint, head.len() as int);
            text::lemma_within_part(none, all, tally(s), hint, at + head.len());
        }
    }
}

proof fn lemma_lines_listed(c: Seq<Check>, details: Seq<Seq<char>>, n: nat, i: int) -> (k: int)
    requires
        0 <= i < n,
    ensures
        text::occurs_at(all_lines(c, details, n), check_lines(c[i], details[i]), k),
    decreases n,
{
    let all = all_lines(c, details, n);
    let init = all_lines(c, details, (n - 1) as nat);
    let none = Seq::<char>::empty();
    let last = check_lines(c[n - 1], details[n - 1]);
    if i == n - 1 {
        assert(all =~= init + last + none);
        text::lemma_within(init, last, none);
        init.len() as int
    } else {
        let k = lemma_lines_listed(c, details, (n - 1) as nat, i);
        assert(all =~= none + init + last);
        text::lemma_within_part(none, init, last, check_lines(c[i], details[i]), k);
        k
    }
}

proof fn lemma_found_in_part(s: Seq<char>, part: Seq<char>, at: int, d: Seq<char>, k: int)
    requires
        text::occurs_at(s, part, at),
        text::occurs_at(part, d, k),
    ensures
        text::occurs_at(s, d, at + k),
{
    assert forall|i: int| 0 <= i < d.len() implies s.subrange(at + k, at + k + d.len())[i]
        == d[i] by {
        assert(s.subrange(at, at + part.len())[k + i] == part[k + i]);
        assert(part.subrange(k, k + d.len())[i] == d[i]);
    }
    assert(s.subrange(at + k, at + k + d.len()) =~= d);
}

} // verus!
