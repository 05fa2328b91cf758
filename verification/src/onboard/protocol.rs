//! `--skill-mode` messages: the versioned contract between `ctxd onboard` and a program
//! in front of it.
//!
//! Each message is one line of JSON. It carries its kind and the version of the
//! protocol; a reader refuses a version that it does not know. The same messages have a
//! form for people.

use crate::json::Json;
use crate::outside;
use crate::text;
use crate::textmap::TextMap;
use crate::time::Timestamp;
use vstd::prelude::*;

verus! {

/// Version of the protocol. Any change that breaks a reader raises it.
pub const PROTOCOL_VERSION: u8 = 1;

/// The steps of `ctxd onboard`, in the order in which they run.
#[derive(Debug, Clone, Copy, PartialEq, Eq, Hash, Structural)]
pub enum StepName {
    /// Record the state before anything changes.
    Snapshot,
    /// Install the daemon as a service of the user.
    ServiceInstall,
    /// Start the service and wait until it answers.
    ServiceStart,
    /// Write the entries of the clients.
    ConfigureClients,
    /// Mint a capability token per client.
    MintCapabilities,
    /// Populate `/me/**`.
    SeedSubjects,
    /// Enable adapters.
    ConfigureAdapters,
    /// Run the diagnostic checks.
    Doctor,
}

impl StepName {
    /// The slug of the step.
    pub open spec fn slug_text(self) -> Seq<char> {
        match self {
            StepName::Snapshot => "snapshot"@,
            StepName::ServiceInstall => "service-install"@,
            StepName::ServiceStart => "service-start"@,
            StepName::ConfigureClients => "configure-clients"@,
            StepName::MintCapabilities => "mint-capabilities"@,
            StepName::SeedSubjects => "seed-subjects"@,
            StepName::ConfigureAdapters => "configure-adapters"@,
            StepName::Doctor => "doctor"@,
        }
    }

    /// The slug of the step.
    pub fn slug(self) -> (r: &'static str)
        ensures
            r@ == self.slug_text(),
    {
        match self {
            StepName::Snapshot => "snapshot",
            StepName::ServiceInstall => "service-install",
            StepName::ServiceStart => "service-start",
            StepName::ConfigureClients => "configure-clients",
            StepName::MintCapabilities => "mint-capabilities",
            StepName::SeedSubjects => "seed-subjects",
            StepName::ConfigureAdapters => "configure-adapters",
            StepName::Doctor => "doctor",
        }
    }

    /// Two steps with the same slug are the same step.
    pub proof fn law_slugs_are_distinct()
        ensures
            forall|a: StepName, b: StepName| a.slug_text() == b.slug_text() ==> a == b,
    {
        reveal_strlit("snapshot");
        reveal_strlit("service-install");
        reveal_strlit("service-start");
        reveal_strlit("configure-clients");
        reveal_strlit("mint-capabilities");
        reveal_strlit("seed-subjects");
        reveal_strlit("configure-adapters");
        reveal_strlit("doctor");
        assert forall|a: StepName, b: StepName| a.slug_text() == b.slug_text() implies a == b by {
            let x = a.slug_text();
            let y = b.slug_text();
            assert(x.len() == y.len());
            assert(x[0] == y[0]);
            assert(x[2] == y[2]);
        }
    }
}

/// Status of a step.
#[derive(Debug, Clone, Copy, PartialEq, Eq, Structural)]
pub enum StepStatus {
    /// The step begins.
    Started,
    /// The step is done.
    Succeeded,
    /// The step was left out on purpose.
    Skipped,
    /// The user has to do something before the step is done.
    ManualPending,
    /// The step failed.
    Failed,
}

impl StepStatus {
    /// The word for the status.
    pub open spec fn word(self) -> Seq<char> {
        match self {
            StepStatus::Started => "started"@,
            StepStatus::Succeeded => "ok"@,
            StepStatus::Skipped => "skipped"@,
            StepStatus::ManualPending => "manual-pending"@,
            StepStatus::Failed => "failed"@,
        }
    }

    /// The word for the status.
    pub fn as_str(self) -> (r: &'static str)
        ensures
            r@ == self.word(),
    {
        match self {
            StepStatus::Started => "started",
            StepStatus::Succeeded => "ok",
            StepStatus::Skipped => "skipped",
            StepStatus::ManualPending => "manual-pending",
            StepStatus::Failed => "failed",
        }
    }

    /// The sign for the status.
    pub open spec fn sign(self) -> Seq<char> {
        match self {
            StepStatus::Started => "  …"@,
            StepStatus::Succeeded => "  ✓"@,
            StepStatus::Skipped => "  ↷"@,
            StepStatus::ManualPending => "  !"@,
            StepStatus::Failed => "  ✗"@,
        }
    }

    fn marker(self) -> (r: &'static str)
        ensures
            r@ == self.sign(),
    {
        match self {
            StepStatus::Started => "  …",
            StepStatus::Succeeded => "  ✓",
            StepStatus::Skipped => "  ↷",
            StepStatus::ManualPending => "  !",
            StepStatus::Failed => "  ✗",
        }
    }
}

/// Severity of a log message.
#[derive(Debug, Clone, Copy, PartialEq, Eq, Structural)]
pub enum LogLevel {
    /// For developers.
    Debug,
    /// For everyone.
    Info,
    /// Something is odd.
    Warn,
    /// Something is wrong.
    Error,
}

impl LogLevel {
    /// The word for the level.
    pub open spec fn word(self) -> Seq<char> {
        match self {
            LogLevel::Debug => "debug"@,
            LogLevel::Info => "info"@,
            LogLevel::Warn => "warn"@,
            LogLevel::Error => "error"@,
        }
    }

    /// The word for the level.
    pub fn as_str(self) -> (r: &'static str)
        ensures
            r@ == self.word(),
    {
        match self {
            LogLevel::Debug => "debug",
            LogLevel::Info => "info",
            LogLevel::Warn => "warn",
            LogLevel::Error => "error",
        }
    }

    /// What stands before a log message for people.
    pub open spec fn lead(self) -> Seq<char> {
        match self {
            LogLevel::Debug => "    debug"@,
            LogLevel::Info => "    info "@,
            LogLevel::Warn => "    warn "@,
            LogLevel::Error => "    error"@,
        }
    }

    fn prefix(self) -> (r: &'static str)
        ensures
            r@ == self.lead(),
    {
        match self {
            LogLevel::Debug => "    debug",
            LogLevel::Info => "    info ",
            LogLevel::Warn => "    warn ",
            LogLevel::Error => "    error",
        }
    }
}

/// Counts of a run of the doctor.
#[derive(Debug, Clone, Copy)]
pub struct DoctorSummary {
    /// Checks performed.
    pub total: u32,
    /// Checks that passed.
    pub ok: u32,
    /// Checks with a warning.
    pub warnings: u32,
    /// Checks that failed.
    pub failed: u32,
}

impl Default for DoctorSummary {
    fn default() -> (r: Self)
        ensures
            r == (DoctorSummary { total: 0, ok: 0, warnings: 0, failed: 0 }),
    {
        DoctorSummary { total: 0, ok: 0, warnings: 0, failed: 0 }
    }
}

/// What a run accomplished.
#[derive(Debug)]
pub struct Outcome {
    /// No step is pending or failed.
    pub onboarded: bool,
    /// Slugs of the clients whose configuration was written or found right.
    pub clients_configured: Vec<String>,
    /// Slugs of the adapters enabled.
    pub adapters_enabled: Vec<String>,
    /// Counts of the closing checks.
    pub doctor: DoctorSummary,
}

/// One message.
#[derive(Debug)]
pub enum SkillMessage {
    /// A step changed its status.
    Step {
        /// Version of the protocol.
        protocol: u8,
        /// The step.
        step: StepName,
        /// Its status.
        status: StepStatus,
        /// Data that belongs to the step; null for none.
        detail: Json,
    },
    /// Something for the user to see, with no answer expected.
    Notice {
        /// Version of the protocol.
        protocol: u8,
        /// Identifier.
        id: String,
        /// Text.
        message: String,
        /// A page to visit.
        action_url: Option<String>,
        /// A code to enter there.
        action_code: Option<String>,
        /// When the code expires.
        expires_at: Option<Timestamp>,
    },
    /// A log line.
    Log {
        /// Version of the protocol.
        protocol: u8,
        /// Severity.
        level: LogLevel,
        /// Text.
        message: String,
    },
    /// The run is over.
    Done {
        /// Version of the protocol.
        protocol: u8,
        /// What it accomplished.
        outcome: Outcome,
    },
    /// The run was given up.
    Error {
        /// Version of the protocol.
        protocol: u8,
        /// The step that failed.
        step: StepName,
        /// Why.
        message: String,
        /// What to do about it.
        remediation: Option<String>,
    },
}

impl SkillMessage {
    /// The kind of the message.
    pub open spec fn kind(self) -> Seq<char> {
        match self {
            SkillMessage::Step { .. } => "step"@,
            SkillMessage::Notice { .. } => "notice"@,
            SkillMessage::Log { .. } => "log"@,
            SkillMessage::Done { .. } => "done"@,
            SkillMessage::Error { .. } => "error"@,
        }
    }

    /// The version that the message carries.
    pub open spec fn version(self) -> u8 {
        match self {
            SkillMessage::Step { protocol, .. } => protocol,
            SkillMessage::Notice { protocol, .. } => protocol,
            SkillMessage::Log { protocol, .. } => protocol,
            SkillMessage::Done { protocol, .. } => protocol,
            SkillMessage::Error { protocol, .. } => protocol,
        }
    }
}

/// A member that is there exactly where a text is given, and then is that text.
pub open spec fn optional_text(
    m: Map<Seq<char>, Json>,
    name: Seq<char>,
    value: Option<Seq<char>>,
) -> bool {
    match value {
        Some(s) => m.dom().contains(name) && m[name].is_text(s),
        None => !m.dom().contains(name),
    }
}

/// The text of an optional string.
pub open spec fn text_view(s: Option<String>) -> Option<Seq<char>> {
    match s {
        Some(x) => Some(x@),
        None => None,
    }
}

/// The text of an optional moment.
pub open spec fn moment_view(t: Option<Timestamp>) -> Option<Seq<char>> {
    match t {
        Some(x) => outside::instant_text(x),
        None => None,
    }
}

/// The text of the moment reads as that moment, in a year of four digits.
pub open spec fn reads_back(t: Option<Timestamp>) -> bool {
    t matches Some(x) ==> (outside::four_digit_year(x) ==> (outside::instant_text(x) matches Some(s)
        && outside::rfc3339_time(s) == outside::reads_as_time(x)))
}

/// The members are these, apart from some that may be absent.
pub open spec fn named(
    m: Map<Seq<char>, Json>,
    always: Set<Seq<char>>,
    sometimes: Set<Seq<char>>,
) -> bool {
    always.subset_of(m.dom()) && m.dom().subset_of(always.union(sometimes))
}

/// The value is this summary.
pub open spec fn is_doctor_summary(v: Json, d: DoctorSummary) -> bool {
    &&& v.has_members(set!["total"@, "ok"@, "warnings"@, "failed"@])
    &&& v.members()["total"@] == Json::Unsigned(d.total as u64)
    &&& v.members()["ok"@] == Json::Unsigned(d.ok as u64)
    &&& v.members()["warnings"@] == Json::Unsigned(d.warnings as u64)
    &&& v.members()["failed"@] == Json::Unsigned(d.failed as u64)
}

/// The value is this outcome.
pub open spec fn is_outcome(v: Json, o: Outcome) -> bool {
    &&& v.has_members(
        set!["onboarded"@, "clients_configured"@, "adapters_enabled"@, "doctor"@],
    )
    &&& v.members()["onboarded"@] == Json::Bool(o.onboarded)
    &&& v.members()["clients_configured"@].is_texts(text::views(o.clients_configured@))
    &&& v.members()["adapters_enabled"@].is_texts(text::views(o.adapters_enabled@))
    &&& is_doctor_summary(v.members()["doctor"@], o.doctor)
}

/// The value is the JSON form of a message: its kind, its version, and the fields of its
/// kind. What is not given is left out.
pub open spec fn is_message(v: Json, msg: SkillMessage) -> bool {
    let m = v.members();
    &&& v is Object
    &&& m.dom().contains("kind"@) && m["kind"@].is_text(msg.kind())
    &&& m.dom().contains("protocol"@) && m["protocol"@] == Json::Unsigned(msg.version() as u64)
    &&& match msg {
        SkillMessage::Step { protocol, step, status, detail } => {
            &&& named(m, set!["kind"@, "protocol"@, "step"@, "status"@], set!["detail"@])
            &&& m["step"@].is_text(step.slug_text())
            &&& m["status"@].is_text(status.word())
            &&& m.dom().contains("detail"@) <==> !(detail is Null)
            &&& m.dom().contains("detail"@) ==> m["detail"@] == detail
        },
        SkillMessage::Notice { protocol, id, message, action_url, action_code, expires_at } => {
            &&& named(
                m,
                set!["kind"@, "protocol"@, "id"@, "message"@],
                set!["action_url"@, "action_code"@, "expires_at"@],
            )
            &&& m["id"@].is_text(id@)
            &&& m["message"@].is_text(message@)
            &&& optional_text(m, "action_url"@, text_view(action_url))
            &&& optional_text(m, "action_code"@, text_view(action_code))
            &&& optional_text(m, "expires_at"@, moment_view(expires_at))
            &&& reads_back(expires_at)
        },
        SkillMessage::Log { protocol, level, message } => {
            &&& named(m, set!["kind"@, "protocol"@, "level"@, "message"@], Set::empty())
            &&& m["level"@].is_text(level.word())
            &&& m["message"@].is_text(message@)
        },
        SkillMessage::Done { protocol, outcome } => {
            &&& named(m, set!["kind"@, "protocol"@, "outcome"@], Set::empty())
            &&& is_outcome(m["outcome"@], outcome)
        },
        SkillMessage::Error { protocol, step, message, remediation } => {
            &&& named(
                m,
                set!["kind"@, "protocol"@, "step"@, "message"@],
                set!["remediation"@],
            )
            &&& m["step"@].is_text(step.slug_text())
            &&& m["message"@].is_text(message@)
            &&& optional_text(m, "remediation"@, text_view(remediation))
        },
    }
}

proof fn reveal_names()
    ensures
        "kind"@.len() == 4 && "protocol"@.len() == 8 && "step"@.len() == 4 && "status"@.len() == 6,
        "detail"@.len() == 6 && "id"@.len() == 2 && "message"@.len() == 7 && "action_url"@.len()
            == 10,
        "action_code"@.len() == 11 && "expires_at"@.len() == 10 && "level"@.len() == 5,
        "outcome"@.len() == 7 && "remediation"@.len() == 11,
        "kind"@[0] == 'k' && "step"@[0] == 's' && "status"@[0] == 's' && "detail"@[0] == 'd',
        "message"@[0] == 'm' && "outcome"@[0] == 'o' && "action_url"@[0] == 'a' && "expires_at"@[0]
            == 'e',
        "action_code"@[0] == 'a' && "remediation"@[0] == 'r',
{
    reveal_strlit("kind");
    reveal_strlit("protocol");
    reveal_strlit("step");
    reveal_strlit("status");
    reveal_strlit("detail");
    reveal_strlit("id");
    reveal_strlit("message");
    reveal_strlit("action_url");
    reveal_strlit("action_code");
    reveal_strlit("expires_at");
    reveal_strlit("level");
    reveal_strlit("outcome");
    reveal_strlit("remediation");
}

fn doctor_json(d: DoctorSummary) -> (r: Json)
    ensures
        is_doctor_summary(r, d),
{
    proof {
        reveal_strlit("total");
        reveal_strlit("ok");
        reveal_strlit("warnings");
        reveal_strlit("failed");
        assert("total"@.len() == 5 && "ok"@.len() == 2);
        assert("warnings"@.len() == 8 && "failed"@.len() == 6);
    }
    let mut m: TextMap<Json> = TextMap::new();
    m.insert("total", Json::Unsigned(d.total as u64));
    m.insert("ok", Json::Unsigned(d.ok as u64));
    m.insert("warnings", Json::Unsigned(d.warnings as u64));
    m.insert("failed", Json::Unsigned(d.failed as u64));
    assert(m@.dom() =~= set!["total"@, "ok"@, "warnings"@, "failed"@]);
    Json::Object(m)
}

fn outcome_json(o: &Outcome) -> (r: Json)
    ensures
        is_outcome(r, *o),
{
    proof {
        reveal_strlit("onboarded");
        reveal_strlit("clients_configured");
        reveal_strlit("adapters_enabled");
        reveal_strlit("doctor");
        assert("onboarded"@.len() == 9 && "clients_configured"@.len() == 18);
        assert("adapters_enabled"@.len() == 16 && "doctor"@.len() == 6);
    }
    let mut m: TextMap<Json> = TextMap::new();
    m.insert("onboarded", Json::Bool(o.onboarded));
    m.insert("clients_configured", Json::texts(o.clients_configured.as_slice()));
    m.insert("adapters_enabled", Json::texts(o.adapters_enabled.as_slice()));
    m.insert("doctor", doctor_json(o.doctor));
    assert(m@.dom() =~= set![
        "onboarded"@,
        "clients_configured"@,
        "adapters_enabled"@,
        "doctor"@,
    ]);
    assert(o.clients_configured@.map_values(|x: String| x@) == text::views(
        o.clients_configured@,
    ));
    assert(o.adapters_enabled@.map_values(|x: String| x@) == text::views(o.adapters_enabled@));
    Json::Object(m)
}

fn insert_optional(m: &mut TextMap<Json>, name: &str, value: &Option<String>)
    requires
        !old(m)@.dom().contains(name@),
    ensures
        optional_text(final(m)@, name@, text_view(*value)),
        final(m)@.dom() == if value is Some {
            old(m)@.dom().insert(name@)
        } else {
            old(m)@.dom()
        },
        forall|k: Seq<char>|
            k != name@ && old(m)@.dom().contains(k) ==> #[trigger] final(m)@[k] == old(m)@[k],
{
    match value {
        Some(s) => {
            m.insert(name, Json::text(s));
        },
        None => {},
    }
}

fn headed(kind: &str, protocol: u8) -> (r: TextMap<Json>)
    ensures
        r@.dom() == set!["kind"@, "protocol"@],
        r@["kind"@].is_text(kind@),
        r@["protocol"@] == Json::Unsigned(protocol as u64),
{
    proof {
        reveal_names();
    }
    let mut m: TextMap<Json> = TextMap::new();
    m.insert("kind", Json::text(kind));
    m.insert("protocol", Json::Unsigned(protocol as u64));
    assert(m@.dom() =~= set!["kind"@, "protocol"@]);
    m
}

impl SkillMessage {
    /// The JSON form of the message.
    #[verifier::rlimit(40)]
    pub fn into_json(self) -> (r: Json)
        ensures
            is_message(r, self),
    {
        proof {
            reveal_names();
        }
        match self {
            SkillMessage::Step { protocol, step, status, detail } => {
                let mut m = headed("step", protocol);
                m.insert("step", Json::text(step.slug()));
                m.insert("status", Json::text(status.as_str()));
                let null = match &detail {
                    Json::Null => true,
                    _ => false,
                };
                if !null {
                    m.insert("detail", detail);
                }
                Json::Object(m)
            },
            SkillMessage::Notice { protocol, id, message, action_url, action_code, expires_at } => {
                let mut m = headed("notice", protocol);
                m.insert("id", Json::text(&id));
                m.insert("message", Json::text(&message));
                insert_optional(&mut m, "action_url", &action_url);
                insert_optional(&mut m, "action_code", &action_code);
                let until: Option<String> = match expires_at {
                    Some(t) => outside::format_instant(t),
                    None => None,
                };
                assert(text_view(until) == moment_view(expires_at));
                insert_optional(&mut m, "expires_at", &until);
                Json::Object(m)
            },
            SkillMessage::Log { protocol, level, message } => {
                let mut m = headed("log", protocol);
                m.insert("level", Json::text(level.as_str()));
                m.insert("message", Json::text(&message));
                Json::Object(m)
            },
            SkillMessage::Done { protocol, outcome } => {
                let mut m = headed("done", protocol);
                m.insert("outcome", outcome_json(&outcome));
                Json::Object(m)
            },
            SkillMessage::Error { protocol, step, message, remediation } => {
                let mut m = headed("error", protocol);
                m.insert("step", Json::text(step.slug()));
                m.insert("message", Json::text(&message));
                insert_optional(&mut m, "remediation", &remediation);
                Json::Object(m)
            },
        }
    }
}

/// Two moments are the same, as far as years of four digits go.
pub open spec fn same_moment(a: Option<Timestamp>, b: Option<Timestamp>) -> bool {
    match (a, b) {
        (Some(x), Some(y)) => outside::four_digit_year(x) && outside::four_digit_year(y) ==> x
            == y,
        (Some(x), None) => !outside::four_digit_year(x),
        (None, Some(y)) => !outside::four_digit_year(y),
        (None, None) => true,
    }
}

/// Two outcomes say the same.
pub open spec fn same_outcome(a: Outcome, b: Outcome) -> bool {
    &&& a.onboarded == b.onboarded
    &&& text::views(a.clients_configured@) == text::views(b.clients_configured@)
    &&& text::views(a.adapters_enabled@) == text::views(b.adapters_enabled@)
    &&& a.doctor == b.doctor
}

/// Two messages say the same.
pub open spec fn same_message(a: SkillMessage, b: SkillMessage) -> bool {
    &&& a.version() == b.version()
    &&& match (a, b) {
        (
            SkillMessage::Step { step: s, status: t, detail: d, .. },
            SkillMessage::Step { step, status, detail, .. },
        ) => s == step && t == status && d == detail,
        (
            SkillMessage::Notice {
                id: i,
                message: m,
                action_url: u,
                action_code: c,
                expires_at: e,
                ..
            },
            SkillMessage::Notice { id, message, action_url, action_code, expires_at, .. },
        ) => {
            &&& i@ == id@ && m@ == message@
            &&& text_view(u) == text_view(action_url)
            &&& text_view(c) == text_view(action_code)
            &&& same_moment(e, expires_at)
        },
        (
            SkillMessage::Log { level: l, message: m, .. },
            SkillMessage::Log { level, message, .. },
        ) => l == level && m@ == message@,
        (SkillMessage::Done { outcome: o, .. }, SkillMessage::Done { outcome, .. }) => same_outcome(
            o,
            outcome,
        ),
        (
            SkillMessage::Error { step: s, message: m, remediation: r, .. },
            SkillMessage::Error { step, message, remediation, .. },
        ) => s == step && m@ == message@ && text_view(r) == text_view(remediation),
        _ => false,
    }
}

proof fn lemma_kinds_are_distinct(a: SkillMessage, b: SkillMessage)
    requires
        a.kind() == b.kind(),
    ensures
        a is Step == b is Step,
        a is Notice == b is Notice,
        a is Log == b is Log,
        a is Done == b is Done,
        a is Error == b is Error,
{
    reveal_strlit("step");
    reveal_strlit("notice");
    reveal_strlit("log");
    reveal_strlit("done");
    reveal_strlit("error");
    assert("step"@.len() == 4 && "notice"@.len() == 6 && "log"@.len() == 3);
    assert("done"@.len() == 4 && "error"@.len() == 5);
    assert("step"@[0] == 's' && "done"@[0] == 'd');
}

proof fn lemma_words_are_distinct()
    ensures
        forall|a: StepStatus, b: StepStatus| a.word() == b.word() ==> a == b,
        forall|a: LogLevel, b: LogLevel| a.word() == b.word() ==> a == b,
{
    reveal_strlit("started");
    reveal_strlit("ok");
    reveal_strlit("skipped");
    reveal_strlit("manual-pending");
    reveal_strlit("failed");
    reveal_strlit("debug");
    reveal_strlit("info");
    reveal_strlit("warn");
    reveal_strlit("error");
    assert forall|a: StepStatus, b: StepStatus| a.word() == b.word() implies a == b by {
        let x = a.word();
        let y = b.word();
        assert(x.len() == y.len());
        assert(x[1] == y[1]);
    }
    assert forall|a: LogLevel, b: LogLevel| a.word() == b.word() implies a == b by {
        let x = a.word();
        let y = b.word();
        assert(x.len() == y.len());
        assert(x[0] == y[0]);
    }
}

proof fn lemma_texts_are_one(v: Json, a: Seq<Seq<char>>, b: Seq<Seq<char>>)
    requires
        v.is_texts(a),
        v.is_texts(b),
    ensures
        a == b,
{
    assert forall|i: int| 0 <= i < a.len() implies a[i] == b[i] by {
        assert(v.elements()[i].is_text(a[i]));
        assert(v.elements()[i].is_text(b[i]));
    }
    assert(a =~= b);
}

/// What is written of a message reads back: two messages with the same JSON form say the
/// same. Moments are told apart in the years of four digits.
pub proof fn law_json_tells_messages_apart(v: Json, a: SkillMessage, b: SkillMessage)
    requires
        is_message(v, a),
        is_message(v, b),
    ensures
        same_message(a, b),
{
    lemma_kinds_are_distinct(a, b);
    lemma_words_are_distinct();
    StepName::law_slugs_are_distinct();
    let m = v.members();
    if let SkillMessage::Done { outcome: o, .. } = a {
        if let SkillMessage::Done { outcome, .. } = b {
            let w = m["outcome"@].members();
            lemma_texts_are_one(
                w["clients_configured"@],
                text::views(o.clients_configured@),
                text::views(outcome.clients_configured@),
            );
            lemma_texts_are_one(
                w["adapters_enabled"@],
                text::views(o.adapters_enabled@),
                text::views(outcome.adapters_enabled@),
            );
        }
    }
}

/// What follows the name of a step in its line for people.
pub open spec fn step_extra(detail: Json) -> Seq<char> {
    let m = detail.members();
    if m.dom().contains("reason"@) && m["reason"@] is Text {
        "  ("@ + m["reason"@]->Text_0@ + ")"@
    } else if m.dom().contains("instructions"@) && m["instructions"@] is Text {
        "\n      "@ + m["instructions"@]->Text_0@
    } else {
        Seq::empty()
    }
}

/// The lines for people: what goes to standard output and what to standard error.
pub open spec fn human_lines(msg: SkillMessage) -> (Seq<char>, Seq<char>) {
    match msg {
        SkillMessage::Step { protocol, step, status, detail } => (
            status.sign() + " "@ + step.slug_text() + step_extra(detail) + "\n"@,
            Seq::empty(),
        ),
        SkillMessage::Notice { protocol, id, message, action_url, action_code, expires_at } => (
            "  ℹ "@ + message@ + "\n"@ + match (action_url, action_code) {
                (Some(url), Some(code)) => "      visit "@ + url@ + " and enter code: "@ + code@
                    + "\n"@,
                _ => Seq::empty(),
            },
            Seq::empty(),
        ),
        SkillMessage::Log { protocol, level, message } => (
            level.lead() + " "@ + message@ + "\n"@,
            Seq::empty(),
        ),
        SkillMessage::Done { protocol, outcome } => (
            "\n  done — "@ + text::digits(outcome.clients_configured@.len())
                + " client(s) configured, "@ + text::digits(outcome.adapters_enabled@.len())
                + " adapter(s) enabled\n  doctor: "@ + text::digits(outcome.doctor.ok as nat)
                + "/"@ + text::digits(outcome.doctor.total as nat) + " ok, "@ + text::digits(
                outcome.doctor.warnings as nat,
            ) + " warn, "@ + text::digits(outcome.doctor.failed as nat) + " fail\n"@,
            Seq::empty(),
        ),
        SkillMessage::Error { protocol, step, message, remediation } => (
            Seq::empty(),
            "  ✗ "@ + step.slug_text() + " — "@ + message@ + "\n"@ + match remediation {
                Some(x) => "    fix: "@ + x@ + "\n"@,
                None => Seq::empty(),
            },
        ),
    }
}

fn append_number(s: &mut String, n: u64)
    ensures
        final(s)@ == old(s)@ + text::digits(n as nat),
{
    let d = text::unsigned_text(n);
    s.append(&d);
}

fn extra_text(detail: &Json) -> (r: String)
    ensures
        r@ == step_extra(*detail),
{
    match detail.get("reason") {
        Some(Json::Text(reason)) => {
            let mut s = String::from_str("  (");
            s.append(reason);
            s.append(")");
            return s;
        },
        _ => {},
    }
    match detail.get("instructions") {
        Some(Json::Text(text)) => {
            let mut s = String::from_str("\n      ");
            s.append(text);
            s
        },
        _ => {
            let s = String::new();
            assert(s@ =~= Seq::empty());
            s
        },
    }
}

/// Writes the lines for people: standard output, then standard error.
pub fn render_human(msg: &SkillMessage) -> (r: (String, String))
    ensures
        (r.0@, r.1@) == human_lines(*msg),
{
    let nothing = String::new();
    assert(nothing@ =~= Seq::empty());
    match msg {
        SkillMessage::Step { step, status, detail, .. } => {
            let mut s = String::from_str(status.marker());
            s.append(" ");
            s.append(step.slug());
            let extra = extra_text(detail);
            s.append(&extra);
            s.append("\n");
            (s, nothing)
        },
        SkillMessage::Notice { message, action_url, action_code, .. } => {
            let mut s = String::from_str("  ℹ ");
            s.append(message);
            s.append("\n");
            let ghost first = s@;
            match (action_url, action_code) {
                (Some(url), Some(code)) => {
                    let mut t = String::from_str("      visit ");
                    t.append(url);
                    t.append(" and enter code: ");
                    t.append(code);
                    t.append("\n");
                    s.append(&t);
                },
                _ => {
                    assert(first + Seq::empty() =~= first);
                },
            }
            (s, nothing)
        },
        SkillMessage::Log { level, message, .. } => {
            let mut s = String::from_str(level.prefix());
            s.append(" ");
            s.append(message);
            s.append("\n");
            (s, nothing)
        },
        SkillMessage::Done { outcome, .. } => {
            let mut s = String::from_str("\n  done — ");
            append_number(&mut s, outcome.clients_configured.len() as u64);
            s.append(" client(s) configured, ");
            append_number(&mut s, outcome.adapters_enabled.len() as u64);
            s.append(" adapter(s) enabled\n  doctor: ");
            append_number(&mut s, outcome.doctor.ok as u64);
            s.append("/");
            append_number(&mut s, outcome.doctor.total as u64);
            s.append(" ok, ");
            append_number(&mut s, outcome.doctor.warnings as u64);
            s.append(" warn, ");
            append_number(&mut s, outcome.doctor.failed as u64);
            s.append(" fail\n");
            (s, nothing)
        },
        SkillMessage::Error { step, message, remediation, .. } => {
            let mut s = String::from_str("  ✗ ");
            s.append(step.slug());
            s.append(" — ");
            s.append(message);
            s.append("\n");
            let ghost first = s@;
            match remediation {
                Some(x) => {
                    let mut t = String::from_str("    fix: ");
                    t.append(x);
                    t.append("\n");
                    s.append(&t);
                },
                None => {
                    assert(first + Seq::empty() =~= first);
                },
            }
            (nothing, s)
        },
    }
}

/// How messages are written.
#[derive(Debug, Clone, Copy, PartialEq, Eq, Structural)]
pub enum OutputMode {
    /// Lines of JSON.
    Skill,
    /// Lines for people.
    Human,
    /// Nothing.
    Null,
}

/// What a message becomes.
#[derive(Debug)]
pub enum Emission {
    /// A line of JSON on standard output.
    Line(Json),
    /// Text for standard output and for standard error.
    Lines(String, String),
    /// Nothing.
    Silence,
}

/// Turns messages into output.
#[derive(Debug, Clone, Copy)]
pub struct Emitter {
    mode: OutputMode,
}

/// What a message becomes in a mode.
pub open spec fn emitted(mode: OutputMode, msg: SkillMessage, e: Emission) -> bool {
    match mode {
        OutputMode::Skill => e matches Emission::Line(v) && is_message(v, msg),
        OutputMode::Human => e matches Emission::Lines(out, err) && (out@, err@) == human_lines(msg),
        OutputMode::Null => e is Silence,
    }
}

/// A message about a step, in the present version.
pub open spec fn is_step(m: SkillMessage, step: StepName, status: StepStatus) -> bool {
    m matches SkillMessage::Step { protocol, step: s, status: t, detail } && protocol
        == PROTOCOL_VERSION && s == step && t == status
}

impl Emitter {
    /// The mode.
    pub closed spec fn output(&self) -> OutputMode {
        self.mode
    }

    /// An emitter for a mode.
    pub fn new(mode: OutputMode) -> (r: Self)
        ensures
            r.output() == mode,
    {
        Emitter { mode }
    }

    /// The mode.
    pub fn mode(&self) -> (r: OutputMode)
        ensures
            r == self.output(),
    {
        self.mode
    }

    /// Turns a message into output.
    pub fn emit(&self, msg: SkillMessage) -> (r: Emission)
        ensures
            emitted(self.output(), msg, r),
    {
        match self.mode {
            OutputMode::Skill => Emission::Line(msg.into_json()),
            OutputMode::Human => {
                let (out, err) = render_human(&msg);
                Emission::Lines(out, err)
            },
            OutputMode::Null => Emission::Silence,
        }
    }

    /// A step begins.
    pub fn step_started(&self, step: StepName) -> (r: Emission)
        ensures
            exists|m: SkillMessage|
                is_step(m, step, StepStatus::Started) && m->detail is Null && #[trigger] emitted(
                    self.output(),
                    m,
                    r,
                ),
    {
        let m = SkillMessage::Step {
            protocol: PROTOCOL_VERSION,
            step,
            status: StepStatus::Started,
            detail: Json::Null,
        };
        self.emit(m)
    }

    /// A step is done.
    pub fn step_ok(&self, step: StepName, detail: Json) -> (r: Emission)
        ensures
            exists|m: SkillMessage|
                is_step(m, step, StepStatus::Succeeded) && m->detail == detail
                    && #[trigger] emitted(self.output(), m, r),
    {
        let m = SkillMessage::Step {
            protocol: PROTOCOL_VERSION,
            step,
            status: StepStatus::Succeeded,
            detail,
        };
        self.emit(m)
    }

    /// A step is left out for a reason.
    pub fn step_skipped(&self, step: StepName, reason: &str) -> (r: Emission)
        ensures
            exists|m: SkillMessage|
                is_step(m, step, StepStatus::Skipped) && says_one(m->detail, "reason"@, reason@)
                    && #[trigger] emitted(self.output(), m, r),
    {
        let m = SkillMessage::Step {
            protocol: PROTOCOL_VERSION,
            step,
            status: StepStatus::Skipped,
            detail: saying("reason", reason),
        };
        self.emit(m)
    }

    /// A step waits for the user.
    pub fn step_manual_pending(&self, step: StepName, instructions: &str) -> (r: Emission)
        ensures
            exists|m: SkillMessage|
                is_step(m, step, StepStatus::ManualPending) && says_one(
                    m->detail,
                    "instructions"@,
                    instructions@,
                ) && #[trigger] emitted(self.output(), m, r),
    {
        let m = SkillMessage::Step {
            protocol: PROTOCOL_VERSION,
            step,
            status: StepStatus::ManualPending,
            detail: saying("instructions", instructions),
        };
        self.emit(m)
    }

    /// A step failed.
    pub fn step_failed(&self, step: StepName) -> (r: Emission)
        ensures
            exists|m: SkillMessage|
                is_step(m, step, StepStatus::Failed) && m->detail is Null && #[trigger] emitted(
                    self.output(),
                    m,
                    r,
                ),
    {
        let m = SkillMessage::Step {
            protocol: PROTOCOL_VERSION,
            step,
            status: StepStatus::Failed,
            detail: Json::Null,
        };
        self.emit(m)
    }

    /// A notice for the user.
    pub fn notice(&self, id: &str, message: &str) -> (r: Emission)
        ensures
            exists|m: SkillMessage|
                is_notice(m, id@, message@, None, None, None) && #[trigger] emitted(
                    self.output(),
                    m,
                    r,
                ),
    {
        let m = SkillMessage::Notice {
            protocol: PROTOCOL_VERSION,
            id: String::from_str(id),
            message: String::from_str(message),
            action_url: None,
            action_code: None,
            expires_at: None,
        };
        self.emit(m)
    }

    /// A notice with a page to visit and a code to enter there.
    pub fn notice_with_action(
        &self,
        id: &str,
        message: &str,
        action_url: &str,
        action_code: &str,
        expires_at: Option<Timestamp>,
    ) -> (r: Emission)
        ensures
            exists|m: SkillMessage|
                is_notice(m, id@, message@, Some(action_url@), Some(action_code@), expires_at)
                    && #[trigger] emitted(self.output(), m, r),
    {
        let m = SkillMessage::Notice {
            protocol: PROTOCOL_VERSION,
            id: String::from_str(id),
            message: String::from_str(message),
            action_url: Some(String::from_str(action_url)),
            action_code: Some(String::from_str(action_code)),
            expires_at,
        };
        self.emit(m)
    }

    /// A log line.
    pub fn log(&self, level: LogLevel, message: &str) -> (r: Emission)
        ensures
            exists|m: SkillMessage|
                (m matches SkillMessage::Log { protocol, level: l, message: t } && protocol
                    == PROTOCOL_VERSION && l == level && t@ == message@) && #[trigger] emitted(
                    self.output(),
                    m,
                    r,
                ),
    {
        let m = SkillMessage::Log {
            protocol: PROTOCOL_VERSION,
            level,
            message: String::from_str(message),
        };
        self.emit(m)
    }

    /// The run is over.
    pub fn done(&self, outcome: Outcome) -> (r: Emission)
        ensures
            emitted(
                self.output(),
                SkillMessage::Done { protocol: PROTOCOL_VERSION, outcome },
                r,
            ),
    {
        self.emit(SkillMessage::Done { protocol: PROTOCOL_VERSION, outcome })
    }

    /// The run is given up.
    pub fn error(&self, step: StepName, message: &str, remediation: Option<String>) -> (r: Emission)
        ensures
            exists|m: SkillMessage|
                (m matches SkillMessage::Error { protocol, step: s, message: t, remediation: f }
                    && protocol == PROTOCOL_VERSION && s == step && t@ == message@ && f
                    == remediation) && #[trigger] emitted(self.output(), m, r),
    {
        let m = SkillMessage::Error {
            protocol: PROTOCOL_VERSION,
            step,
            message: String::from_str(message),
            remediation,
        };
        self.emit(m)
    }
}

/// A notice in the present version.
pub open spec fn is_notice(
    m: SkillMessage,
    id: Seq<char>,
    message: Seq<char>,
    url: Option<Seq<char>>,
    code: Option<Seq<char>>,
    expires: Option<Timestamp>,
) -> bool {
    m matches SkillMessage::Notice {
        protocol,
        id: i,
        message: t,
        action_url,
        action_code,
        expires_at,
    } && protocol == PROTOCOL_VERSION && i@ == id && t@ == message && text_view(action_url) == url
        && text_view(action_code) == code && expires_at == expires
}

/// The object with this one member of text.
pub open spec fn says_one(body: Json, name: Seq<char>, value: Seq<char>) -> bool {
    body.has_members(set![name]) && body.members()[name].is_text(value)
}

fn saying(name: &str, value: &str) -> (r: Json)
    ensures
        says_one(r, name@, value@),
{
    let mut m: TextMap<Json> = TextMap::new();
    m.insert(name, Json::text(value));
    assert(m@.dom() =~= set![name@]);
    Json::Object(m)
}

/// What a message becomes. For a program it is a line that tells the kind of the message and the
/// version of the protocol; for people it goes to standard error where it is an error, and
/// to standard output where it is not; and in silence it is nothing.
pub proof fn law_where_a_message_goes(emitter: &Emitter, msg: SkillMessage, r: Emission)
    requires
        call_ensures(Emitter::emit, (emitter, msg), r),
    ensures
        r is Line <==> emitter.output() is Skill,
        r is Lines <==> emitter.output() is Human,
        r is Silence <==> emitter.output() is Null,
        r matches Emission::Line(v) ==> v.members()["kind"@].is_text(msg.kind())
            && v.members()["protocol"@] == Json::Unsigned(msg.version() as u64),
        r matches Emission::Lines(out, err) ==> (msg is Error ==> out@.len() == 0 && err@.len() > 0)
            && (!(msg is Error) ==> err@.len() == 0 && out@.len() > 0),
{
    reveal_strlit("\n");
    reveal_strlit("  ℹ ");
    reveal_strlit("\n  done — ");
    reveal_strlit("  ✗ ");
    if let Emission::Lines(out, err) = r {
        match msg {
            SkillMessage::Step { protocol, step, status, detail } => {
                let head = status.sign() + " "@ + step.slug_text() + step_extra(detail);
                assert(out@ == head + "\n"@);
            },
            SkillMessage::Log { protocol, level, message } => {
                assert(out@ == level.lead() + " "@ + message@ + "\n"@);
            },
            _ => {},
        }
    }
}

/// For a program each of the five things that can be said of a step is told by its own word, of
/// that step.
pub proof fn law_each_status_has_its_word(
    emitter: &Emitter,
    step: StepName,
    detail: Json,
    reason: &str,
    instructions: &str,
    started: Emission,
    done: Emission,
    skipped: Emission,
    pending: Emission,
    failed: Emission,
)
    requires
        emitter.output() is Skill,
        call_ensures(Emitter::step_started, (emitter, step), started),
        call_ensures(Emitter::step_ok, (emitter, step, detail), done),
        call_ensures(Emitter::step_skipped, (emitter, step, reason), skipped),
        call_ensures(Emitter::step_manual_pending, (emitter, step, instructions), pending),
        call_ensures(Emitter::step_failed, (emitter, step), failed),
    ensures
        started matches Emission::Line(v) && v.members()["status"@].is_text("started"@)
            && v.members()["step"@].is_text(step.slug_text()),
        done matches Emission::Line(v) && v.members()["status"@].is_text("ok"@)
            && v.members()["step"@].is_text(step.slug_text()) && (!(detail is Null)
            ==> v.members()["detail"@] == detail),
        skipped matches Emission::Line(v) && v.members()["status"@].is_text("skipped"@)
            && v.members()["step"@].is_text(step.slug_text())
            && v.members()["detail"@].members()["reason"@].is_text(reason@),
        pending matches Emission::Line(v) && v.members()["status"@].is_text("manual-pending"@)
            && v.members()["step"@].is_text(step.slug_text())
            && v.members()["detail"@].members()["instructions"@].is_text(instructions@),
        failed matches Emission::Line(v) && v.members()["status"@].is_text("failed"@)
            && v.members()["step"@].is_text(step.slug_text()),
{
}

/// Two messages with the same JSON form say the same. Moments are told apart in the years of
/// four digits.
pub proof fn law_messages_are_told_apart(a: SkillMessage, b: SkillMessage, v: Json)
    requires
        call_ensures(SkillMessage::into_json, (a,), v),
        call_ensures(SkillMessage::into_json, (b,), v),
    ensures
        same_message(a, b),
{
    law_json_tells_messages_apart(v, a, b);
}

/// For a program a notice, a log line, an end and an error tell what they were given.
pub proof fn law_each_message_tells_its_text(
    emitter: &Emitter,
    id: &str,
    message: &str,
    url: &str,
    code: &str,
    notice: Emission,
    acted: Emission,
    level: LogLevel,
    logged: Emission,
    outcome: Outcome,
    done: Emission,
    step: StepName,
    fix: Option<String>,
    failed: Emission,
)
    requires
        emitter.output() is Skill,
        call_ensures(Emitter::notice, (emitter, id, message), notice),
        call_ensures(Emitter::notice_with_action, (emitter, id, message, url, code, None), acted),
        call_ensures(Emitter::log, (emitter, level, message), logged),
        call_ensures(Emitter::done, (emitter, outcome), done),
        call_ensures(Emitter::error, (emitter, step, message, fix), failed),
    ensures
        notice matches Emission::Line(v) && v.members()["id"@].is_text(id@)
            && v.members()["message"@].is_text(message@) && !v.members().dom().contains(
            "action_url"@,
        ) && !v.members().dom().contains("action_code"@),
        acted matches Emission::Line(v) && v.members()["id"@].is_text(id@)
            && v.members()["message"@].is_text(message@) && v.members()["action_url"@].is_text(url@)
            && v.members()["action_code"@].is_text(code@),
        logged matches Emission::Line(v) && v.members()["level"@].is_text(level.word())
            && v.members()["message"@].is_text(message@),
        done matches Emission::Line(v) && v.members()["outcome"@].members()["onboarded"@]
            == Json::Bool(outcome.onboarded)
            && v.members()["outcome"@].members()["clients_configured"@].is_texts(
            text::views(outcome.clients_configured@),
        ) && v.members()["outcome"@].members()["adapters_enabled"@].is_texts(
            text::views(outcome.adapters_enabled@),
        ),
        failed matches Emission::Line(v) && v.members()["step"@].is_text(step.slug_text())
            && v.members()["message"@].is_text(message@),
        failed matches Emission::Line(v) ==> (fix matches Some(f)
            ==> v.members()["remediation"@].is_text(f@)),
{
}

/// For people a step is told by its sign and its slug, and where it is skipped for a reason or
/// waits for the user, by that; a notice, a log line and an error by their text.
pub proof fn law_people_are_told_what_happens(msg: &SkillMessage, r: (String, String))
    requires
        call_ensures(render_human, (msg,), r),
    ensures
        *msg matches SkillMessage::Step { step, status, .. } ==> (status.sign() + " "@
            + step.slug_text()).is_prefix_of(r.0@),
        *msg matches SkillMessage::Step { detail, .. } ==> (detail.members().dom().contains(
            "reason"@,
        ) ==> (detail.members()["reason"@] matches Json::Text(t) ==> ("  ("@ + t@ + ")\n"@).is_suffix_of(
            r.0@,
        ))),
        *msg matches SkillMessage::Log { level, message, .. } ==> (level.lead() + " "@
            + message@).is_prefix_of(r.0@),
        *msg matches SkillMessage::Notice { message, .. } ==> ("  ℹ "@ + message@).is_prefix_of(
            r.0@,
        ),
        *msg matches SkillMessage::Error { step, message, .. } ==> ("  ✗ "@ + step.slug_text()
            + " — "@ + message@).is_prefix_of(r.1@),
{
    reveal_strlit(")");
    reveal_strlit("\n");
    reveal_strlit(")\n");
    match *msg {
        SkillMessage::Step { protocol, step, status, detail } => {
            let h = status.sign() + " "@ + step.slug_text();
            assert(r.0@.take(h.len() as int) =~= h);
            if detail.members().dom().contains("reason"@) {
                if let Json::Text(t) = detail.members()["reason"@] {
                    let e = "  ("@ + t@ + ")\n"@;
                    assert(r.0@.skip(r.0@.len() - e.len()) =~= e);
                }
            }
        },
        SkillMessage::Log { protocol, level, message } => {
            let h = level.lead() + " "@ + message@;
            assert(r.0@.take(h.len() as int) =~= h);
        },
        SkillMessage::Notice { protocol, id, message, action_url, action_code, expires_at } => {
            let h = "  ℹ "@ + message@;
            assert(r.0@.take(h.len() as int) =~= h);
        },
        SkillMessage::Error { protocol, step, message, remediation } => {
            let h = "  ✗ "@ + step.slug_text() + " — "@ + message@;
            assert(r.1@.take(h.len() as int) =~= h);
        },
        _ => {},
    }
}

} // verus!
