//! The order and the rules of `ctxd onboard` and `ctxd offboard`.
//!
//! Each step is left out, skipped with a reason, or run. A dry run skips every step but
//! the doctor. `--only` leaves out every step that it does not list.

use crate::json::Json;
use crate::onboard::caps;
use crate::onboard::caps::ClientId;
use crate::onboard::clients;
use crate::onboard::clients::ApplyAction;
use crate::onboard::protocol;
use crate::onboard::protocol::{DoctorSummary, Emission, Emitter, Outcome, OutputMode, StepName, StepStatus};
use crate::onboard::service;
use crate::onboard::service::{InstallAction, ServiceSpec};
use crate::path;
use crate::pidfile;
use crate::pidfile::DaemonState;
use crate::text;
use crate::textmap::TextMap;
use vstd::prelude::*;

verus! {

/// Milliseconds that a started service has until it answers.
pub const START_TIMEOUT_MS: u64 = 10_000;

/// Milliseconds between two looks at a starting service.
pub const START_POLL_MS: u64 = 100;

/// What the user chose for an adapter.
#[derive(Debug)]
pub enum AdapterChoice {
    /// Not to enable it.
    Skip,
    /// To be asked.
    Interactive,
    /// To use this token.
    Token(String),
}

impl Default for AdapterChoice {
    fn default() -> (r: Self)
        ensures
            r is Skip,
    {
        AdapterChoice::Skip
    }
}

/// Configuration of a run.
#[derive(Debug)]
pub struct PipelineConfig {
    /// How to report progress.
    pub mode: OutputMode,
    /// Never ask.
    pub headless: bool,
    /// Plan only.
    pub dry_run: bool,
    /// Leave the adapters alone.
    pub skip_adapters: bool,
    /// Leave the service alone.
    pub skip_service: bool,
    /// Start the service at login.
    pub at_login: bool,
    /// Mint narrower tokens.
    pub strict_scopes: bool,
    /// Write the hooks of the coding client.
    pub with_hooks: bool,
    /// The Gmail adapter.
    pub gmail: AdapterChoice,
    /// The GitHub adapter.
    pub github: AdapterChoice,
    /// Paths for the file system adapter.
    pub fs: Vec<String>,
    /// The steps to run; all where none are listed.
    pub only: Option<Vec<StepName>>,
    /// The database.
    pub db_path: String,
    /// Address of the admin API.
    pub bind: String,
    /// Address of the wire protocol.
    pub wire_bind: String,
}

impl PipelineConfig {
    /// The step belongs to the run.
    pub open spec fn lists(self, step: StepName) -> bool {
        match self.only {
            Some(v) => v@.contains(step),
            None => true,
        }
    }

    /// Whether the step belongs to the run.
    pub fn includes(&self, step: StepName) -> (r: bool)
        ensures
            r == self.lists(step),
    {
        match &self.only {
            Some(v) => {
                let mut i: usize = 0;
                while i < v.len()
                    invariant
                        i <= v@.len(),
                        self.lists(step) == v@.contains(step),
                        forall|j: int| 0 <= j < i ==> v@[j] != step,
                    decreases v.len() - i,
                {
                    if v[i] == step {
                        return true;
                    }
                    i += 1;
                }
                false
            },
            None => true,
        }
    }
}

/// The steps, in the order in which they run.
pub open spec fn step_sequence() -> Seq<StepName> {
    seq![
        StepName::Snapshot,
        StepName::ServiceInstall,
        StepName::ServiceStart,
        StepName::ConfigureClients,
        StepName::MintCapabilities,
        StepName::SeedSubjects,
        StepName::ConfigureAdapters,
        StepName::Doctor,
    ]
}

/// The steps, in the order in which they run.
pub fn steps() -> (r: Vec<StepName>)
    ensures
        r@ == step_sequence(),
{
    let mut v: Vec<StepName> = Vec::new();
    v.push(StepName::Snapshot);
    v.push(StepName::ServiceInstall);
    v.push(StepName::ServiceStart);
    v.push(StepName::ConfigureClients);
    v.push(StepName::MintCapabilities);
    v.push(StepName::SeedSubjects);
    v.push(StepName::ConfigureAdapters);
    v.push(StepName::Doctor);
    assert(v@ =~= step_sequence());
    v
}

/// What becomes of a step.
#[derive(Debug, Clone, Copy)]
pub enum StepPlan {
    /// It is left out, without a word.
    Absent,
    /// It is skipped, for this reason.
    Skip(&'static str),
    /// It is run.
    Run,
}

/// The reason for which a step of the run is skipped.
pub open spec fn skip_reason(cfg: PipelineConfig, step: StepName, supported: bool) -> Option<
    Seq<char>,
> {
    match step {
        StepName::Doctor => None,
        StepName::ServiceInstall | StepName::ServiceStart => if cfg.skip_service {
            Some("--skip-service"@)
        } else if !supported {
            Some(
                if step is ServiceInstall {
                    "service install not supported on this OS yet (Windows in v0.5)"@
                } else {
                    "service install not supported on this OS yet"@
                },
            )
        } else if cfg.dry_run {
            Some("dry-run"@)
        } else {
            None
        },
        StepName::ConfigureAdapters => if cfg.skip_adapters {
            Some("--skip-adapters"@)
        } else if cfg.dry_run {
            Some("dry-run"@)
        } else if cfg.fs@.len() == 0 {
            Some("phase 3B — adapter spawning not yet wired"@)
        } else {
            None
        },
        _ => if cfg.dry_run {
            Some("dry-run"@)
        } else {
            None
        },
    }
}

/// The plan of a step.
pub open spec fn planned(cfg: PipelineConfig, step: StepName, supported: bool, p: StepPlan) -> bool {
    if !cfg.lists(step) {
        p is Absent
    } else {
        match skip_reason(cfg, step, supported) {
            Some(reason) => p matches StepPlan::Skip(s) && s@ == reason,
            None => p is Run,
        }
    }
}

/// What becomes of a step. `supported` tells whether the platform has services.
pub fn plan_step(cfg: &PipelineConfig, step: StepName, supported: bool) -> (r: StepPlan)
    ensures
        planned(*cfg, step, supported, r),
{
    if !cfg.includes(step) {
        return StepPlan::Absent;
    }
    match step {
        StepName::Doctor => StepPlan::Run,
        StepName::ServiceInstall | StepName::ServiceStart => {
            if cfg.skip_service {
                StepPlan::Skip("--skip-service")
            } else if !supported {
                if step == StepName::ServiceInstall {
                    StepPlan::Skip("service install not supported on this OS yet (Windows in v0.5)")
                } else {
                    StepPlan::Skip("service install not supported on this OS yet")
                }
            } else if cfg.dry_run {
                StepPlan::Skip("dry-run")
            } else {
                StepPlan::Run
            }
        },
        StepName::ConfigureAdapters => {
            if cfg.skip_adapters {
                StepPlan::Skip("--skip-adapters")
            } else if cfg.dry_run {
                StepPlan::Skip("dry-run")
            } else if cfg.fs.len() == 0 {
                StepPlan::Skip("phase 3B — adapter spawning not yet wired")
            } else {
                StepPlan::Run
            }
        },
        _ => {
            if cfg.dry_run {
                StepPlan::Skip("dry-run")
            } else {
                StepPlan::Run
            }
        },
    }
}

/// A dry run runs the doctor, which changes nothing, and no other step.
pub proof fn law_dry_run_only_diagnoses(
    cfg: PipelineConfig,
    step: StepName,
    supported: bool,
    p: StepPlan,
)
    requires
        cfg.dry_run,
        planned(cfg, step, supported, p),
        p is Run,
    ensures
        step is Doctor,
{
}

/// With `--only`, exactly the listed steps are heard of.
pub proof fn law_only_the_listed_steps_appear(
    cfg: PipelineConfig,
    listed: Vec<StepName>,
    step: StepName,
    supported: bool,
    p: StepPlan,
)
    requires
        cfg.only == Some(listed),
        planned(cfg, step, supported, p),
    ensures
        !(p is Absent) <==> listed@.contains(step),
{
}

/// Without `--only`, every step is heard of.
pub proof fn law_every_step_appears(
    cfg: PipelineConfig,
    step: StepName,
    supported: bool,
    p: StepPlan,
)
    requires
        cfg.only is None,
        planned(cfg, step, supported, p),
    ensures
        !(p is Absent),
{
}

/// What is written when a step is reached: that it begins, and, where it is skipped, why.
pub open spec fn opening(mode: OutputMode, step: StepName, p: StepPlan, out: Seq<Emission>) -> bool {
    match p {
        StepPlan::Absent => out.len() == 0,
        StepPlan::Run => out.len() == 1 && announced(mode, step, out[0]),
        StepPlan::Skip(reason) => out.len() == 2 && announced(mode, step, out[0]) && skipped_for(
            mode,
            step,
            reason@,
            out[1],
        ),
    }
}

/// The output says that the step is skipped, and why.
pub open spec fn skipped_for(mode: OutputMode, step: StepName, reason: Seq<char>, e: Emission) -> bool {
    exists|m: protocol::SkillMessage|
        protocol::is_step(m, step, StepStatus::Skipped) && protocol::says_one(
            m->detail,
            "reason"@,
            reason,
        ) && #[trigger] protocol::emitted(mode, m, e)
}

/// The output says that the step begins.
pub open spec fn announced(mode: OutputMode, step: StepName, e: Emission) -> bool {
    exists|m: protocol::SkillMessage|
        protocol::is_step(m, step, StepStatus::Started) && m->detail is Null
            && #[trigger] protocol::emitted(mode, m, e)
}

/// What to write when a step is reached.
pub fn open_step(emitter: &Emitter, step: StepName, plan: StepPlan) -> (r: Vec<Emission>)
    ensures
        opening(emitter.output(), step, plan, r@),
{
    let mut out: Vec<Emission> = Vec::new();
    match plan {
        StepPlan::Absent => {},
        StepPlan::Run => {
            let first = emitter.step_started(step);
            assert(announced(emitter.output(), step, first));
            out.push(first);
        },
        StepPlan::Skip(reason) => {
            let first = emitter.step_started(step);
            assert(announced(emitter.output(), step, first));
            let second = emitter.step_skipped(step, reason);
            assert(skipped_for(emitter.output(), step, reason@, second));
            out.push(first);
            out.push(second);
        },
    }
    out
}

/// The words that the service passes to `ctxd serve`.
pub open spec fn service_args(cfg: PipelineConfig) -> Seq<Seq<char>> {
    seq!["--db"@, cfg.db_path@, "--bind"@, cfg.bind@, "--wire-bind"@, cfg.wire_bind@]
}

/// The service to install.
pub fn service_spec(cfg: &PipelineConfig, binary: &str, working_dir: &str, log_dir: &str, label: &str)
    -> (r: ServiceSpec)
    ensures
        r.binary@ == binary@,
        text::views(r.args@) == service_args(*cfg),
        r.at_login == cfg.at_login,
        r.working_dir@ == working_dir@,
        r.log_dir@ == log_dir@,
        r.label@ == label@,
{
    let mut args: Vec<String> = Vec::new();
    args.push(String::from_str("--db"));
    args.push(String::from_str(&cfg.db_path));
    args.push(String::from_str("--bind"));
    args.push(String::from_str(&cfg.bind));
    args.push(String::from_str("--wire-bind"));
    args.push(String::from_str(&cfg.wire_bind));
    assert(text::views(args@) =~= service_args(*cfg));
    ServiceSpec {
        binary: String::from_str(binary),
        args,
        at_login: cfg.at_login,
        working_dir: String::from_str(working_dir),
        log_dir: String::from_str(log_dir),
        label: String::from_str(label),
    }
}

/// The detail of an installed service.
pub open spec fn is_install_detail(
    v: Json,
    backend: Seq<char>,
    spec: ServiceSpec,
    unit_path: Seq<char>,
    action: InstallAction,
) -> bool {
    let m = v.members();
    &&& v.has_members(
        set!["platform"@, "service_name"@, "binary_path"@, "unit_path"@, "action"@, "at_login"@],
    )
    &&& m["platform"@].is_text(backend)
    &&& m["service_name"@].is_text(spec.label@)
    &&& m["binary_path"@].is_text(spec.binary@)
    &&& m["unit_path"@].is_text(unit_path)
    &&& m["action"@].is_text(action.word())
    &&& m["at_login"@] == Json::Bool(spec.at_login)
}

/// Tells of an installed service.
pub fn install_detail(backend: &str, spec: &ServiceSpec, unit_path: &str, action: InstallAction)
    -> (r: Json)
    ensures
        is_install_detail(r, backend@, *spec, unit_path@, action),
{
    proof {
        reveal_strlit("platform");
        reveal_strlit("service_name");
        reveal_strlit("binary_path");
        reveal_strlit("unit_path");
        reveal_strlit("action");
        reveal_strlit("at_login");
        assert("platform"@.len() == 8 && "service_name"@.len() == 12 && "binary_path"@.len() == 11);
        assert("unit_path"@.len() == 9 && "action"@.len() == 6 && "at_login"@.len() == 8);
        assert("platform"@[0] == 'p' && "at_login"@[0] == 'a');
    }
    let mut m: TextMap<Json> = TextMap::new();
    m.insert("platform", Json::text(backend));
    m.insert("service_name", Json::text(&spec.label));
    m.insert("binary_path", Json::text(&spec.binary));
    m.insert("unit_path", Json::text(unit_path));
    m.insert("action", Json::text(action.as_str()));
    m.insert("at_login", Json::Bool(spec.at_login));
    assert(m@.dom() =~= set![
        "platform"@,
        "service_name"@,
        "binary_path"@,
        "unit_path"@,
        "action"@,
        "at_login"@,
    ]);
    Json::Object(m)
}

/// What to do while a service starts.
#[derive(Debug)]
pub enum StartWait {
    /// It answers, at this URL, in this version.
    Ready {
        /// The URL.
        http_url: String,
        /// The version.
        version: String,
    },
    /// Look again.
    Again,
    /// It took too long.
    TimedOut,
}

/// What to do while a service starts: done once it answers, given up after ten seconds.
pub fn await_service(state: DaemonState, elapsed_ms: u64) -> (r: StartWait)
    ensures
        match state {
            DaemonState::Running(f) => r matches StartWait::Ready { http_url, version } && http_url@
                == "http://"@ + f.admin_bind@ && version@ == f.version@,
            _ => if elapsed_ms >= START_TIMEOUT_MS {
                r is TimedOut
            } else {
                r is Again
            },
        },
{
    match state {
        DaemonState::Running(f) => {
            let mut http_url = String::from_str("http://");
            http_url.append(&f.admin_bind);
            StartWait::Ready { http_url, version: f.version }
        },
        _ => {
            if elapsed_ms >= START_TIMEOUT_MS {
                StartWait::TimedOut
            } else {
                StartWait::Again
            }
        },
    }
}

/// The message on a service that takes too long.
pub fn start_timeout_message(backend: &str) -> (r: String)
    ensures
        r@ == "daemon did not become healthy within 10s — check `"@ + backend@
            + " status` and the launchd / systemd log"@,
{
    let mut s = String::from_str("daemon did not become healthy within 10s — check `");
    s.append(backend);
    s.append(" status` and the launchd / systemd log");
    s
}

/// Tells of a started service.
pub fn start_detail(http_url: &str, version: &str, uptime_ms: u64) -> (r: Json)
    ensures
        r.has_members(set!["http_url"@, "version"@, "uptime_ms"@]),
        r.members()["http_url"@].is_text(http_url@),
        r.members()["version"@].is_text(version@),
        r.members()["uptime_ms"@] == Json::Unsigned(uptime_ms),
{
    proof {
        reveal_strlit("http_url");
        reveal_strlit("version");
        reveal_strlit("uptime_ms");
        assert("http_url"@.len() == 8 && "version"@.len() == 7 && "uptime_ms"@.len() == 9);
    }
    let mut m: TextMap<Json> = TextMap::new();
    m.insert("http_url", Json::text(http_url));
    m.insert("version", Json::text(version));
    m.insert("uptime_ms", Json::Unsigned(uptime_ms));
    assert(m@.dom() =~= set!["http_url"@, "version"@, "uptime_ms"@]);
    Json::Object(m)
}

/// What became of a client's configuration.
#[derive(Debug)]
pub struct ClientOutcome {
    /// The client.
    pub client: ClientId,
    /// What was done; `None` where it failed.
    pub action: Option<ApplyAction>,
}

impl ClientOutcome {
    /// The configuration was written or found right.
    pub open spec fn is_configured(self) -> bool {
        self.action matches Some(a) && a != ApplyAction::ManualPending
    }

    /// The word for what became of it.
    pub open spec fn word(self) -> Seq<char> {
        match self.action {
            None => "failed"@,
            Some(ApplyAction::ManualPending) => "manual-pending"@,
            Some(_) => "configured"@,
        }
    }

    fn as_str(&self) -> (r: &'static str)
        ensures
            r@ == self.word(),
    {
        match self.action {
            None => "failed",
            Some(ApplyAction::ManualPending) => "manual-pending",
            Some(_) => "configured",
        }
    }
}

/// The clients, by slug, with the word for what became of each. The last outcome of a
/// client counts.
pub open spec fn client_words(outcomes: Seq<ClientOutcome>) -> Map<Seq<char>, Seq<char>>
    decreases outcomes.len(),
{
    if outcomes.len() == 0 {
        Map::empty()
    } else {
        client_words(outcomes.drop_last()).insert(
            outcomes.last().client.slug_text(),
            outcomes.last().word(),
        )
    }
}

/// The value is an object of these texts.
pub open spec fn is_text_object(v: Json, m: Map<Seq<char>, Seq<char>>) -> bool {
    &&& v is Object
    &&& v.members().dom() == m.dom()
    &&& forall|k: Seq<char>| #[trigger] m.dom().contains(k) ==> v.members()[k].is_text(m[k])
}

/// Tells of the configured clients.
pub fn clients_detail(outcomes: &[ClientOutcome]) -> (r: Json)
    ensures
        r.has_members(set!["clients"@]),
        is_text_object(r.members()["clients"@], client_words(outcomes@)),
{
    let mut words: TextMap<Json> = TextMap::new();
    let mut i: usize = 0;
    assert(words@.dom() =~= client_words(outcomes@.take(0)).dom());
    while i < outcomes.len()
        invariant
            i <= outcomes@.len(),
            words@.dom() == client_words(outcomes@.take(i as int)).dom(),
            forall|k: Seq<char>| #[trigger]
                words@.dom().contains(k) ==> words@[k].is_text(
                    client_words(outcomes@.take(i as int))[k],
                ),
        decreases outcomes.len() - i,
    {
        let o = &outcomes[i];
        proof {
            let t = outcomes@.take(i + 1);
            assert(t.drop_last() =~= outcomes@.take(i as int));
            assert(t.last() == *o);
        }
        words.insert(&o.client.slug(), Json::text(o.as_str()));
        assert(words@.dom() =~= client_words(outcomes@.take(i + 1)).dom());
        i += 1;
    }
    assert(outcomes@.take(outcomes@.len() as int) =~= outcomes@);
    let mut m: TextMap<Json> = TextMap::new();
    m.insert("clients", Json::Object(words));
    assert(m@.dom() =~= set!["clients"@]);
    Json::Object(m)
}

/// The slugs of the clients whose configuration was written or found right.
pub open spec fn configured_slugs(outcomes: Seq<ClientOutcome>) -> Seq<Seq<char>>
    decreases outcomes.len(),
{
    if outcomes.len() == 0 {
        Seq::empty()
    } else {
        let init = configured_slugs(outcomes.drop_last());
        if outcomes.last().is_configured() {
            init.push(outcomes.last().client.slug_text())
        } else {
            init
        }
    }
}

fn list_configured(outcomes: &[ClientOutcome]) -> (r: Vec<String>)
    ensures
        text::views(r@) == configured_slugs(outcomes@),
{
    let mut v: Vec<String> = Vec::new();
    let mut i: usize = 0;
    assert(text::views(v@) =~= configured_slugs(outcomes@.take(0)));
    while i < outcomes.len()
        invariant
            i <= outcomes@.len(),
            text::views(v@) == configured_slugs(outcomes@.take(i as int)),
        decreases outcomes.len() - i,
    {
        let o = &outcomes[i];
        proof {
            let t = outcomes@.take(i + 1);
            assert(t.drop_last() =~= outcomes@.take(i as int));
            assert(t.last() == *o);
        }
        let yes = match o.action {
            Some(ApplyAction::ManualPending) => false,
            Some(_) => true,
            None => false,
        };
        if yes {
            let ghost before = v@;
            let name = o.client.slug();
            v.push(name);
            assert(text::views(v@) =~= text::views(before).push(o.client.slug_text()));
        }
        i += 1;
    }
    assert(outcomes@.take(outcomes@.len() as int) =~= outcomes@);
    v
}

/// No step is pending or failed.
pub open spec fn all_settled(statuses: Seq<StepStatus>) -> bool {
    forall|i: int|
        0 <= i < statuses.len() ==> #[trigger] statuses[i] != StepStatus::ManualPending
            && statuses[i] != StepStatus::Failed
}

/// What a run accomplished, from the last status of each of its steps.
pub fn finish(
    statuses: &[StepStatus],
    clients: &[ClientOutcome],
    adapters: Vec<String>,
    doctor: DoctorSummary,
) -> (r: Outcome)
    ensures
        r.onboarded == all_settled(statuses@),
        text::views(r.clients_configured@) == configured_slugs(clients@),
        r.adapters_enabled == adapters,
        r.doctor == doctor,
{
    let mut onboarded = true;
    let mut i: usize = 0;
    while i < statuses.len()
        invariant
            i <= statuses@.len(),
            onboarded == all_settled(statuses@.take(i as int)),
        decreases statuses.len() - i,
    {
        let pending = statuses[i] == StepStatus::ManualPending || statuses[i]
            == StepStatus::Failed;
        proof {
            let s = statuses@.take(i as int);
            let t = statuses@.take(i + 1);
            assert(t[i as int] == statuses@[i as int]);
            assert forall|j: int| 0 <= j < i implies #[trigger] t[j] == s[j] by {}
            if all_settled(t) {
                assert forall|j: int| 0 <= j < s.len() implies #[trigger] s[j]
                    != StepStatus::ManualPending && s[j] != StepStatus::Failed by {
                    assert(t[j] == s[j]);
                }
            }
        }
        if pending {
            onboarded = false;
        }
        i += 1;
    }
    assert(statuses@.take(statuses@.len() as int) =~= statuses@);
    Outcome {
        onboarded,
        clients_configured: list_configured(clients),
        adapters_enabled: adapters,
        doctor,
    }
}

/// The status with which the doctor ends: warnings count as success.
pub fn doctor_status(summary: &DoctorSummary) -> (r: StepStatus)
    ensures
        r == if summary.failed > 0 {
            StepStatus::Failed
        } else {
            StepStatus::Succeeded
        },
{
    if summary.failed > 0 {
        StepStatus::Failed
    } else {
        StepStatus::Succeeded
    }
}

/// A run in which the doctor found a failure has not onboarded.
pub proof fn law_a_failed_check_is_no_success(statuses: Seq<StepStatus>, i: int, doctor: DoctorSummary)
    requires
        0 <= i < statuses.len(),
        statuses[i] == if doctor.failed > 0 {
            StepStatus::Failed
        } else {
            StepStatus::Succeeded
        },
        doctor.failed > 0,
    ensures
        !all_settled(statuses),
{
}

/// What `ctxd offboard` does.
#[derive(Debug)]
pub struct OffboardPlan {
    /// What becomes of the service: `Skip`, or `Run` to uninstall it.
    pub service: StepPlan,
    /// Restore the configuration of the clients from the latest snapshot.
    pub restore_configs: bool,
    /// Remove the capability files.
    pub remove_caps: bool,
    /// Files to remove.
    pub purge: Vec<String>,
}

/// The file beside the database that holds a part of the vector index.
pub open spec fn sidecar(db: Seq<char>, ext: Seq<char>) -> Seq<char> {
    let name = if path::has_file_name(db) {
        path::last_component(db)
    } else {
        Seq::empty()
    };
    path::beside(db, name + "."@ + ext)
}

/// What a purge removes: the database, its pidfile and the vector index.
pub open spec fn purged(db: Seq<char>) -> Seq<Seq<char>> {
    seq![
        db,
        pidfile::pidfile_of(db),
        sidecar(db, "hnsw.data"@),
        sidecar(db, "hnsw.graph"@),
        sidecar(db, "hnsw.map"@),
        sidecar(db, "hnsw.meta"@),
    ]
}

fn sidecar_path(db_path: &str, ext: &str) -> (r: String)
    ensures
        r@ == sidecar(db_path@, ext@),
{
    let mut name = match path::file_name(db_path) {
        Some(n) => n,
        None => {
            let n = String::new();
            assert(n@ =~= Seq::empty());
            n
        },
    };
    name.append(".");
    name.append(ext);
    path::with_file_name(db_path, &name)
}

fn purge_files(db_path: &str) -> (r: Vec<String>)
    ensures
        text::views(r@) == purged(db_path@),
{
    let mut v: Vec<String> = Vec::new();
    v.push(String::from_str(db_path));
    v.push(pidfile::pidfile_path(db_path));
    v.push(sidecar_path(db_path, "hnsw.data"));
    v.push(sidecar_path(db_path, "hnsw.graph"));
    v.push(sidecar_path(db_path, "hnsw.map"));
    v.push(sidecar_path(db_path, "hnsw.meta"));
    assert(text::views(v@) =~= purged(db_path@));
    v
}

/// The plan of `ctxd offboard`.
pub open spec fn offboarding(cfg: PipelineConfig, purge: bool, supported: bool, p: OffboardPlan)
    -> bool {
    &&& if cfg.skip_service || !supported {
        p.service matches StepPlan::Skip(s) && s@ == "skip-service or unsupported platform"@
    } else if cfg.dry_run {
        p.service matches StepPlan::Skip(s) && s@ == "dry-run"@
    } else {
        p.service is Run
    }
    &&& p.restore_configs == !cfg.dry_run
    &&& p.remove_caps == !cfg.dry_run
    &&& text::views(p.purge@) == if purge && !cfg.dry_run {
        purged(cfg.db_path@)
    } else {
        Seq::empty()
    }
}

/// What `ctxd offboard` does. The database goes only where a purge is asked for.
pub fn plan_offboard(cfg: &PipelineConfig, purge: bool, supported: bool) -> (r: OffboardPlan)
    ensures
        offboarding(*cfg, purge, supported, r),
{
    let service = if cfg.skip_service || !supported {
        StepPlan::Skip("skip-service or unsupported platform")
    } else if cfg.dry_run {
        StepPlan::Skip("dry-run")
    } else {
        StepPlan::Run
    };
    let files: Vec<String> = if purge && !cfg.dry_run {
        purge_files(&cfg.db_path)
    } else {
        let none: Vec<String> = Vec::new();
        assert(text::views(none@) =~= Seq::empty());
        none
    };
    OffboardPlan {
        service,
        restore_configs: !cfg.dry_run,
        remove_caps: !cfg.dry_run,
        purge: files,
    }
}

/// A dry run of `ctxd offboard` removes nothing, not even with `--purge`.
pub proof fn law_offboard_dry_run_touches_nothing(
    cfg: PipelineConfig,
    purge: bool,
    supported: bool,
    p: OffboardPlan,
)
    requires
        cfg.dry_run,
        offboarding(cfg, purge, supported, p),
    ensures
        p.service is Skip,
        !p.restore_configs && !p.remove_caps,
        p.purge@.len() == 0,
{
    assert(text::views(p.purge@).len() == p.purge@.len());
}

/// On a platform with services, an offboard that is no dry run and is not told to leave the
/// service alone uninstalls it, with and without `--purge`, and otherwise the service stays.
/// The client configurations are restored, and the capability files removed, in every run that
/// is no dry run. The plans with and without `--purge` differ in the files to remove and in
/// nothing else; those files are the database and what lies beside it.
pub proof fn law_purge_adds_only_the_files(
    cfg: &PipelineConfig,
    supported: bool,
    kept: OffboardPlan,
    purged: OffboardPlan,
)
    requires
        call_ensures(plan_offboard, (cfg, false, supported), kept),
        call_ensures(plan_offboard, (cfg, true, supported), purged),
    ensures
        kept.service is Run <==> supported && !cfg.dry_run && !cfg.skip_service,
        purged.service is Run <==> supported && !cfg.dry_run && !cfg.skip_service,
        !(kept.service is Run) ==> kept.service is Skip,
        kept.service matches StepPlan::Skip(a) ==> (purged.service matches StepPlan::Skip(b) && a@
            == b@),
        kept.restore_configs == !cfg.dry_run && purged.restore_configs == !cfg.dry_run,
        kept.remove_caps == !cfg.dry_run && purged.remove_caps == !cfg.dry_run,
        kept.purge@.len() == 0,
        cfg.dry_run ==> purged.purge@.len() == 0,
        !cfg.dry_run ==> purged.purge@.len() == 6 && purged.purge@[0]@ == cfg.db_path@,
{
    assert(text::views(kept.purge@).len() == kept.purge@.len());
    assert(text::views(purged.purge@).len() == purged.purge@.len());
    if !cfg.dry_run {
        assert(text::views(purged.purge@)[0] == purged.purge@[0]@);
    }
}

/// The plan of a step is told by the flags that are the step's own: a step that is left out of
/// `--only` is not heard of; a step of the run is run where the run is no dry run and nothing
/// that concerns this step is against it, and else it is skipped. Only `--skip-service` and a
/// platform without services concern the two service steps, and only `--skip-adapters` and
/// the want of a path the adapters; the doctor always runs.
pub proof fn law_each_step_has_its_own_flags(
    cfg: &PipelineConfig,
    step: StepName,
    supported: bool,
    p: StepPlan,
)
    requires
        call_ensures(plan_step, (cfg, step, supported), p),
    ensures
        p is Absent <==> (cfg.only matches Some(listed) && !listed@.contains(step)),
        p is Absent || p is Run || p is Skip,
        p is Absent || (p is Run <==> step is Doctor || (!cfg.dry_run && (step is ServiceInstall
            || step is ServiceStart ==> supported && !cfg.skip_service) && (
        step is ConfigureAdapters ==> !cfg.skip_adapters && cfg.fs@.len() > 0))),
{
}

/// The steps come each once; the snapshot before everything that it guards, the service is
/// installed before it is started, and the doctor looks last.
pub proof fn law_steps_come_in_order(r: Vec<StepName>)
    requires
        call_ensures(steps, (), r),
    ensures
        r@.no_duplicates(),
        forall|s: StepName| #[trigger] r@.contains(s),
        r@[0] is Snapshot,
        r@.last() is Doctor,
        exists|i: int|
            0 < i < r@.len() - 1 && (#[trigger] r@[i]) is ServiceInstall && r@[i + 1] is ServiceStart,
{
    assert(r@.len() == 8);
    assert(r@[1] is ServiceInstall && r@[2] is ServiceStart);
    assert forall|s: StepName| #[trigger] r@.contains(s) by {
        let i: int = match s {
            StepName::Snapshot => 0,
            StepName::ServiceInstall => 1,
            StepName::ServiceStart => 2,
            StepName::ConfigureClients => 3,
            StepName::MintCapabilities => 4,
            StepName::SeedSubjects => 5,
            StepName::ConfigureAdapters => 6,
            StepName::Doctor => 7,
        };
        assert(r@[i] == s);
    }
}

/// Without `--purge` the database stays.
pub proof fn law_data_goes_only_on_purge(cfg: PipelineConfig, supported: bool, p: OffboardPlan)
    requires
        offboarding(cfg, false, supported, p),
    ensures
        p.purge@.len() == 0,
{
    assert(text::views(p.purge@).len() == p.purge@.len());
}

/// The log message of a purge.
pub fn purge_message(db_path: &str) -> (r: String)
    ensures
        r@ == "purging DB at "@ + db_path@,
{
    let mut s = String::from_str("purging DB at ");
    s.append(db_path);
    s
}

/// The outcome of `ctxd offboard`.
pub fn offboarded() -> (r: Outcome)
    ensures
        !r.onboarded,
        r.clients_configured@.len() == 0 && r.adapters_enabled@.len() == 0,
        r.doctor == (DoctorSummary { total: 0, ok: 0, warnings: 0, failed: 0 }),
{
    Outcome {
        onboarded: false,
        clients_configured: Vec::new(),
        adapters_enabled: Vec::new(),
        doctor: DoctorSummary { total: 0, ok: 0, warnings: 0, failed: 0 },
    }
}

/// The service runs `ctxd serve` on the configured database and at the configured addresses:
/// each stands right behind its flag, and reading the words from left to right gives it back.
pub proof fn law_service_words_read_back(
    cfg: &PipelineConfig,
    binary: &str,
    working_dir: &str,
    log_dir: &str,
    label: &str,
    r: ServiceSpec,
)
    requires
        call_ensures(service_spec, (cfg, binary, working_dir, log_dir, label), r),
    ensures
        r.binary@ == binary@ && r.label@ == label@,
        r.working_dir@ == working_dir@ && r.log_dir@ == log_dir@,
        r.at_login == cfg.at_login,
        clients::flag_value(text::views(r.args@), "--db"@) == Some(cfg.db_path@),
        clients::flag_value(text::views(r.args@), "--bind"@) == Some(cfg.bind@),
        clients::flag_value(text::views(r.args@), "--wire-bind"@) == Some(cfg.wire_bind@),
{
    let words = text::views(r.args@);
    reveal_strlit("--cap-file");
    reveal_strlit("--db");
    reveal_strlit("--bind");
    reveal_strlit("--wire-bind");
    assert("--cap-file"@.len() == 10 && "--db"@.len() == 4);
    assert("--bind"@.len() == 6 && "--wire-bind"@.len() == 11);
    let two = words.skip(2);
    let four = two.skip(2);
    assert(words[0] == "--db"@ && words[1] == cfg.db_path@);
    assert(two =~= seq!["--bind"@, cfg.bind@, "--wire-bind"@, cfg.wire_bind@]);
    assert(four =~= seq!["--wire-bind"@, cfg.wire_bind@]);
    reveal_with_fuel(clients::flag_value, 4);
    assert(clients::flag_value(four, "--wire-bind"@) == Some(cfg.wire_bind@));
}

/// A starting service is waited for until it answers, and for ten seconds at most: whatever the
/// time, one that answers is ready, at the address that its pidfile names.
pub proof fn law_a_start_is_waited_for(state: DaemonState, elapsed_ms: u64, r: StartWait)
    requires
        call_ensures(await_service, (state, elapsed_ms), r),
    ensures
        r is Ready <==> state is Running,
        r is TimedOut <==> !(state is Running) && elapsed_ms >= 10_000,
        r matches StartWait::Ready { http_url, version } ==> (state matches DaemonState::Running(f)
            && http_url@ == "http://"@ + f.admin_bind@ && version@ == f.version@),
{
}

/// A run has onboarded exactly where none of its steps is pending or failed, whatever the
/// clients and adapters came to. A client is listed exactly where its configuration was
/// written or found right.
pub proof fn law_when_a_run_has_onboarded(
    statuses: &[StepStatus],
    outcomes: &[ClientOutcome],
    adapters: Vec<String>,
    doctor: DoctorSummary,
    r: Outcome,
    client: ClientId,
)
    requires
        call_ensures(finish, (statuses, outcomes, adapters, doctor), r),
    ensures
        r.onboarded <==> forall|i: int|
            0 <= i < statuses@.len() ==> !((#[trigger] statuses@[i]) is ManualPending)
                && !(statuses@[i] is Failed),
        text::views(r.clients_configured@).contains(client.slug_text()) <==> exists|i: int|
            0 <= i < outcomes@.len() && (#[trigger] outcomes@[i]).client == client && (
            outcomes@[i].action matches Some(a) && !(a is ManualPending)),
        r.adapters_enabled == adapters,
        r.doctor == doctor,
{
    lemma_configured(outcomes@, client);
}

proof fn lemma_configured(outcomes: Seq<ClientOutcome>, client: ClientId)
    ensures
        configured_slugs(outcomes).contains(client.slug_text()) <==> exists|i: int|
            0 <= i < outcomes.len() && (#[trigger] outcomes[i]).client == client
                && outcomes[i].is_configured(),
    decreases outcomes.len(),
{
    ClientId::law_slugs_are_distinct();
    let slug = client.slug_text();
    if outcomes.len() > 0 {
        let init = outcomes.drop_last();
        let last = outcomes.last();
        let rest = configured_slugs(init);
        lemma_configured(init, client);
        if rest.contains(slug) {
            let i = choose|i: int|
                0 <= i < init.len() && (#[trigger] init[i]).client == client
                    && init[i].is_configured();
            assert(outcomes[i] == init[i]);
        }
        if exists|i: int|
            0 <= i < outcomes.len() && (#[trigger] outcomes[i]).client == client
                && outcomes[i].is_configured() {
            let i = choose|i: int|
                0 <= i < outcomes.len() && (#[trigger] outcomes[i]).client == client
                    && outcomes[i].is_configured();
            if i < init.len() {
                assert(init[i] == outcomes[i]);
            }
        }
        if last.is_configured() {
            let all = rest.push(last.client.slug_text());
            assert(all[rest.len() as int] == last.client.slug_text());
            if rest.contains(slug) {
                let k = choose|k: int| 0 <= k < rest.len() && rest[k] == slug;
                assert(all[k] == slug);
            }
            if all.contains(slug) && last.client != client {
                let k = choose|k: int| 0 <= k < all.len() && all[k] == slug;
                assert(rest[k] == slug);
            }
            if last.client == client {
                assert(outcomes[outcomes.len() - 1].client == client);
            }
        }
    }
}

/// The doctor ends a run well exactly where no check failed; warnings do no harm.
pub proof fn law_warnings_are_no_failure(summary: &DoctorSummary, r: StepStatus)
    requires
        call_ensures(doctor_status, (summary,), r),
    ensures
        r is Failed <==> summary.failed > 0,
        r is Succeeded <==> summary.failed == 0,
{
}

/// What is written when a step is reached: nothing of a step that is left out, that it begins of
/// one that is run, and of one that is skipped also why. This is said of the lines for
/// programs.
pub proof fn law_a_step_is_announced(
    emitter: &Emitter,
    step: StepName,
    plan: StepPlan,
    r: Vec<Emission>,
)
    requires
        emitter.output() is Skill,
        call_ensures(open_step, (emitter, step, plan), r),
    ensures
        plan is Absent <==> r@.len() == 0,
        plan is Run <==> r@.len() == 1,
        plan is Skip <==> r@.len() == 2,
        r@.len() > 0 ==> (r@[0] matches Emission::Line(v) && v.members()["step"@].is_text(
            step.slug_text(),
        ) && v.members()["status"@].is_text("started"@)),
        plan matches StepPlan::Skip(reason) ==> (r@[1] matches Emission::Line(v)
            && v.members()["step"@].is_text(step.slug_text()) && v.members()["status"@].is_text(
            "skipped"@,
        ) && v.members()["detail"@].members()["reason"@].is_text(reason@)),
{
}

/// What is told of a service is what was installed and what answers.
pub proof fn law_details_tell_the_service(
    backend: &str,
    spec: &ServiceSpec,
    unit_path: &str,
    action: InstallAction,
    installed: Json,
    http_url: &str,
    version: &str,
    uptime_ms: u64,
    started: Json,
)
    requires
        call_ensures(install_detail, (backend, spec, unit_path, action), installed),
        call_ensures(start_detail, (http_url, version, uptime_ms), started),
    ensures
        installed.members()["platform"@].is_text(backend@),
        installed.members()["service_name"@].is_text(spec.label@),
        installed.members()["binary_path"@].is_text(spec.binary@),
        installed.members()["unit_path"@].is_text(unit_path@),
        installed.members()["at_login"@] == Json::Bool(spec.at_login),
        action is Created ==> installed.members()["action"@].is_text("created"@),
        action is Updated ==> installed.members()["action"@].is_text("updated"@),
        action is Unchanged ==> installed.members()["action"@].is_text("unchanged"@),
        started.members()["http_url"@].is_text(http_url@),
        started.members()["version"@].is_text(version@),
        started.members()["uptime_ms"@] == Json::Unsigned(uptime_ms),
{
}

/// The word for a client whose configuration was tried once: that it failed, waits for the user,
/// or is configured.
pub proof fn law_what_is_told_of_a_client(outcome: ClientOutcome, one: &[ClientOutcome], r: Json)
    requires
        one@ == seq![outcome],
        call_ensures(clients_detail, (one,), r),
    ensures
        ({
            let v = r.members()["clients"@].members()[outcome.client.slug_text()];
            &&& outcome.action is None ==> v.is_text("failed"@)
            &&& outcome.action matches Some(a) ==> (a is ManualPending ==> v.is_text(
                "manual-pending"@,
            ))
            &&& outcome.action matches Some(a) ==> (!(a is ManualPending) ==> v.is_text(
                "configured"@,
            ))
        }),
{
    reveal_with_fuel(client_words, 2);
    let m = client_words(one@);
    assert(one@.drop_last() =~= Seq::<ClientOutcome>::empty());
    assert(one@.last() == outcome);
    assert(m.dom().contains(outcome.client.slug_text()));
}

/// An offboard leaves nothing onboarded.
pub proof fn law_an_offboard_leaves_nothing(r: Outcome)
    requires
        call_ensures(offboarded, (), r),
    ensures
        !r.onboarded,
        r.clients_configured@.len() == 0 && r.adapters_enabled@.len() == 0,
        r.doctor.total == 0,
{
}

/// What a purge removes of a database in a directory: the database, its pidfile and the four
/// parts of its index, each under the database's name with its own ending.
pub proof fn law_what_a_purge_removes(
    cfg: &PipelineConfig,
    supported: bool,
    plan: OffboardPlan,
    dir: Seq<char>,
    name: Seq<char>,
)
    requires
        call_ensures(plan_offboard, (cfg, true, supported), plan),
        !cfg.dry_run,
        cfg.db_path@ == dir + "/"@ + name,
        dir.len() > 0 && path::without_tail(dir) == dir && dir.last() != '/',
        path::is_name(name) && name != "."@ && name != ".."@,
    ensures
        plan.purge@.len() == 6,
        plan.purge@[0]@ == cfg.db_path@,
        plan.purge@[1]@ == cfg.db_path@ + ".pid"@,
        plan.purge@[2]@ == cfg.db_path@ + ".hnsw.data"@,
        plan.purge@[3]@ == cfg.db_path@ + ".hnsw.graph"@,
        plan.purge@[4]@ == cfg.db_path@ + ".hnsw.map"@,
        plan.purge@[5]@ == cfg.db_path@ + ".hnsw.meta"@,
{
    let db = cfg.db_path@;
    let v = text::views(plan.purge@);
    assert(v.len() == plan.purge@.len());
    assert(v[0] == plan.purge@[0]@ && v[1] == plan.purge@[1]@ && v[2] == plan.purge@[2]@);
    assert(v[3] == plan.purge@[3]@ && v[4] == plan.purge@[4]@ && v[5] == plan.purge@[5]@);
    path::lemma_parts_of(db, dir, name);
    assert(name.contains(name[0]));
    reveal_strlit("/");
    reveal_strlit(".");
    reveal_strlit(".pid");
    reveal_strlit("hnsw.data");
    reveal_strlit("hnsw.graph");
    reveal_strlit("hnsw.map");
    reveal_strlit("hnsw.meta");
    reveal_strlit(".hnsw.data");
    reveal_strlit(".hnsw.graph");
    reveal_strlit(".hnsw.map");
    reveal_strlit(".hnsw.meta");
    assert(v[1] =~= db + ".pid"@);
    assert(v[2] =~= db + ".hnsw.data"@);
    assert(v[3] =~= db + ".hnsw.graph"@);
    assert(v[4] =~= db + ".hnsw.map"@);
    assert(v[5] =~= db + ".hnsw.meta"@);
}

} // verus!
