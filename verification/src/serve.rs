//! The daemon's start-up, as decisions between outside steps.
//!
//! [`next`] tells what to do after each event. Whoever drives the daemon performs the
//! action and hands back what came of it, until the action is [`ServeAction::Wait`],
//! [`ServeAction::Fail`], [`ServeAction::ServeMinimal`] or [`ServeAction::Proxy`].

use crate::embedder;
use crate::embedder::{EmbedderChoice, EmbedderFeatures, EmbedderOpts, EmbedderPlan};
use crate::json::Json;
use crate::outside;
use crate::pidfile;
use crate::pidfile::{DaemonState, PidFile};
use crate::storage_selector;
use crate::storage_selector::{SelectError, StorageFeatures, StorageKind, StorageSpec, StoreTarget};
use crate::text;
use crate::textmap::TextMap;
use crate::time::Timestamp;
use vstd::prelude::*;

verus! {

/// Configuration of the daemon.
#[derive(Debug, Clone)]
pub struct ServeConfig {
    /// Address of the HTTP admin API, such as `127.0.0.1:7777`.
    pub bind: String,
    /// Address of the wire protocol. `None` starts no wire server.
    pub wire_bind: Option<String>,
    /// Run the MCP server on stdio.
    pub mcp_stdio: bool,
    /// Address of a legacy MCP SSE transport.
    pub mcp_sse: Option<String>,
    /// Address of a streamable-HTTP MCP transport.
    pub mcp_http: Option<String>,
    /// Require a capability token on the HTTP transports.
    pub require_auth: bool,
    /// Embedder backend: `null`, `openai` or `ollama`.
    pub embedder: String,
    /// Overrides the embedder model.
    pub embedder_model: Option<String>,
    /// Overrides the embedder base URL.
    pub embedder_url: Option<String>,
    /// API key of the embedder.
    pub embedder_api_key: Option<String>,
    /// Storage backend: `sqlite`, `postgres` or `duckdb-object`.
    pub storage: String,
    /// URI of a backend other than SQLite.
    pub storage_uri: Option<String>,
    /// Start federation: signing key, peers and replication.
    pub federation: bool,
    /// Path of the SQLite database. `Some` turns the pidfile on.
    pub db_path: Option<String>,
    /// Files with capability tokens for a subprocess that relays to a running daemon.
    pub cap_files: Vec<String>,
}

/// What the build and the process bring along.
#[derive(Debug)]
pub struct Host {
    /// Optional storage backends.
    pub storage: StorageFeatures,
    /// Optional embedders.
    pub embedders: EmbedderFeatures,
    /// This process.
    pub pid: u32,
    /// This version.
    pub version: String,
    /// The time.
    pub now: Timestamp,
}

/// What came of an action.
#[derive(Debug)]
pub enum ServeEvent {
    /// The start.
    Begin,
    /// The admin address was read, or was no socket address.
    AddressResolved(Result<(), String>),
    /// The pidfile was looked at.
    Probed(DaemonState),
    /// The embedder was built and the vector index opened.
    IndexOpened(Result<(), String>),
    /// The admin port was bound, at this address, or could not be.
    Listening {
        /// The address asked for.
        addr: String,
        /// The address bound.
        outcome: Result<String, String>,
    },
    /// The pidfile was written.
    PidfileWritten {
        /// The address bound.
        bound: String,
        /// What came of it.
        written: Result<(), String>,
    },
    /// Supervisors were told.
    Announced,
    /// The signing key was loaded or made.
    IdentityLoaded(Result<(), String>),
    /// The wire server runs, or its address was none.
    WireStarted(Result<(), String>),
    /// The SSE transport runs, or its address was none.
    SseStarted(Result<(), String>),
    /// The streamable-HTTP transport runs, or its address was none.
    HttpStarted(Result<(), String>),
    /// The stdio transport runs.
    StdioStarted,
    /// The adapters of the manifest run.
    AdaptersSpawned,
}

/// What to do next.
#[derive(Debug)]
pub enum ServeAction {
    /// Open this store and serve the minimal admin API only.
    ServeMinimal {
        /// The store.
        target: StoreTarget,
    },
    /// Read the admin address.
    ResolveAddress,
    /// Look at the pidfile of this database.
    Probe {
        /// The database.
        db_path: String,
    },
    /// Relay stdio to the running daemon.
    Proxy {
        /// Where the daemon listens.
        admin_bind: String,
        /// The file with the token.
        cap_file: String,
    },
    /// Build the embedder and open the vector index.
    OpenIndex {
        /// The embedder.
        embedder: EmbedderPlan,
    },
    /// Bind the admin port.
    Listen,
    /// Write the pidfile.
    WritePidfile {
        /// Its contents.
        contents: PidFile,
    },
    /// Tell supervisors, and write this line to standard error.
    Announce {
        /// The line.
        marker: String,
    },
    /// Load or make the signing key.
    LoadIdentity,
    /// Start the wire server.
    StartWire {
        /// Its address.
        bind: String,
        /// With persisted peers enrolled and replication started.
        federated: bool,
    },
    /// Start the SSE transport.
    StartSse {
        /// Its address.
        bind: String,
        /// Whether a token is required.
        auth_required: bool,
    },
    /// Start the streamable-HTTP transport.
    StartHttp {
        /// Its address.
        bind: String,
        /// Whether a token is required.
        auth_required: bool,
    },
    /// Start the stdio transport.
    StartStdio,
    /// Start the adapters of the manifest.
    SpawnAdapters,
    /// Everything runs.
    Wait,
    /// Give up.
    Fail {
        /// The error.
        message: String,
        /// What caused it.
        cause: Option<String>,
    },
}

impl ServeAction {
    /// Gives up with this message and this cause.
    pub open spec fn fails(self, message: Seq<char>, cause: Option<Seq<char>>) -> bool {
        match self {
            ServeAction::Fail { message: m, cause: c } => m@ == message && match (c, cause) {
                (Some(a), Some(b)) => a@ == b,
                (None, None) => true,
                _ => false,
            },
            _ => false,
        }
    }

    fn fail(message: &str) -> (r: Self)
        ensures
            r.fails(message@, None),
    {
        ServeAction::Fail { message: String::from_str(message), cause: None }
    }

    fn fail_with(message: &str, cause: String) -> (r: Self)
        ensures
            r.fails(message@, Some(cause@)),
    {
        ServeAction::Fail { message: String::from_str(message), cause: Some(cause) }
    }
}

/// The line that tells where the daemon listens.
pub open spec fn ready_line(admin_url: Seq<char>, wire_url: Option<Seq<char>>) -> Seq<char> {
    match wire_url {
        Some(w) => "ctxd-ready: "@ + admin_url + " (wire "@ + w + ")"@,
        None => "ctxd-ready: "@ + admin_url,
    }
}

/// Writes the line that tells where the daemon listens.
pub fn ready_marker(admin_url: &str, wire_url: Option<&str>) -> (r: String)
    ensures
        r@ == ready_line(
            admin_url@,
            match wire_url {
                Some(w) => Some(w@),
                None => None,
            },
        ),
{
    let mut s = String::from_str("ctxd-ready: ");
    s.append(admin_url);
    match wire_url {
        Some(w) => {
            s.append(" (wire ");
            s.append(w);
            s.append(")");
        },
        None => {},
    }
    s
}

/// The moment as text; nothing where the calendar does not reach it.
pub open spec fn started_text(t: Timestamp) -> Seq<char> {
    match outside::rfc3339_text(t) {
        Some(s) => s,
        None => Seq::empty(),
    }
}

/// The message on a start beside a running daemon.
pub open spec fn already_running(f: PidFile) -> Seq<char> {
    "ctxd is already running:\n  pid:        "@ + text::digits(f.pid as nat)
        + "\n  admin URL:  http://"@ + f.admin_bind@ + "\n  started:    "@ + started_text(
        f.started_at,
    ) + "\n  version:    "@ + f.version@ + "\n\nStop it first (`kill "@ + text::digits(
        f.pid as nat,
    )
        + "` or `ctxd offboard --service-only`), or pass --bind 127.0.0.1:0 with a separate --db to start an additional daemon on a different port."@
}

fn running_message(f: &PidFile) -> (r: String)
    ensures
        r@ == already_running(*f),
{
    let pid = text::unsigned_text(f.pid as u64);
    let started = match outside::format_rfc3339(f.started_at) {
        Some(s) => s,
        None => String::new(),
    };
    assert(started@ =~= started_text(f.started_at));
    let mut s = String::from_str("ctxd is already running:\n  pid:        ");
    s.append(&pid);
    s.append("\n  admin URL:  http://");
    s.append(&f.admin_bind);
    s.append("\n  started:    ");
    s.append(&started);
    s.append("\n  version:    ");
    s.append(&f.version);
    s.append("\n\nStop it first (`kill ");
    s.append(&pid);
    s.append(
        "` or `ctxd offboard --service-only`), or pass --bind 127.0.0.1:0 with a separate --db to start an additional daemon on a different port.",
    );
    s
}

/// The first action: the minimal server for a backend other than SQLite.
pub open spec fn begun(cfg: ServeConfig, host: Host, a: ServeAction) -> bool {
    match storage_selector::kind_named(cfg.storage@) {
        None => a.fails(
            "unknown --storage value `"@ + cfg.storage@
                + "` (expected sqlite | postgres | duckdb-object)"@,
            None,
        ),
        Some(StorageKind::Sqlite) => a is ResolveAddress,
        Some(kind) => exists|spec: StorageSpec, r: Result<StoreTarget, SelectError>|
            {
                &&& spec.kind == kind
                &&& spec.sqlite_path is None
                &&& match (spec.uri, cfg.storage_uri) {
                    (Some(x), Some(y)) => x@ == y@,
                    (None, None) => true,
                    _ => false,
                }
                &&& #[trigger] storage_selector::selection(spec, host.storage, r)
                &&& match r {
                    Ok(t) => a == (ServeAction::ServeMinimal { target: t }),
                    Err(e) => a.fails("select_store: "@ + e.message(), None),
                }
            },
    }
}

fn copied(s: &Option<String>) -> (r: Option<String>)
    ensures
        match (r, *s) {
            (Some(x), Some(y)) => x@ == y@,
            (None, None) => true,
            _ => false,
        },
{
    match s {
        Some(x) => Some(String::from_str(x)),
        None => None,
    }
}

fn begin(cfg: &ServeConfig, host: &Host) -> (a: ServeAction)
    ensures
        begun(*cfg, *host, a),
{
    match StorageKind::parse(&cfg.storage) {
        Err(e) => ServeAction::Fail { message: e, cause: None },
        Ok(kind) => {
            if kind == StorageKind::Sqlite {
                return ServeAction::ResolveAddress;
            }
            let spec = StorageSpec { kind, sqlite_path: None, uri: copied(&cfg.storage_uri) };
            let r = storage_selector::select_store(&spec, host.storage);
            assert(storage_selector::selection(spec, host.storage, r));
            match r {
                Ok(target) => ServeAction::ServeMinimal { target },
                Err(e) => {
                    let mut m = String::from_str("select_store: ");
                    let text = e.to_string();
                    m.append(&text);
                    ServeAction::Fail { message: m, cause: None }
                },
            }
        },
    }
}

/// The action that follows the look at the pidfile: refuse, relay, or go on to the
/// embedder.
pub open spec fn after_probe(cfg: ServeConfig, host: Host, state: DaemonState, a: ServeAction) -> bool {
    match state {
        DaemonState::Running(f) => if cfg.mcp_stdio && cfg.cap_files@.len() > 0 {
            a matches ServeAction::Proxy { admin_bind, cap_file } && admin_bind@ == f.admin_bind@
                && cap_file@ == cfg.cap_files@[0]@
        } else {
            a.fails(already_running(f), None)
        },
        _ => embeds(cfg, host, a),
    }
}

/// The action that opens the index with the configured embedder.
pub open spec fn embeds(cfg: ServeConfig, host: Host, a: ServeAction) -> bool {
    let name = text::ascii_lowered(cfg.embedder@);
    match embedder::provider_named(name) {
        None => a.fails(
            "unknown embedder '"@ + name + "' (expected null|openai|ollama)"@,
            None,
        ),
        Some(choice) => exists|opts: EmbedderOpts, r: Result<EmbedderPlan, String>|
            {
                &&& same_text(opts.model, cfg.embedder_model)
                &&& same_text(opts.url, cfg.embedder_url)
                &&& same_text(opts.api_key, cfg.embedder_api_key)
                &&& opts.dimensions is None
                &&& #[trigger] embedder::planned(choice, opts, host.embedders, r)
                &&& match r {
                    Ok(plan) => a == (ServeAction::OpenIndex { embedder: plan }),
                    Err(e) => a.fails("failed to construct embedder"@, Some(e@)),
                }
            },
    }
}

/// Both are absent, or hold the same text.
pub open spec fn same_text(a: Option<String>, b: Option<String>) -> bool {
    match (a, b) {
        (Some(x), Some(y)) => x@ == y@,
        (None, None) => true,
        _ => false,
    }
}

fn choose_embedder(cfg: &ServeConfig, host: &Host) -> (a: ServeAction)
    ensures
        embeds(*cfg, *host, a),
{
    match EmbedderChoice::parse(&cfg.embedder) {
        Err(e) => ServeAction::Fail { message: e, cause: None },
        Ok(choice) => {
            let opts = EmbedderOpts {
                model: copied(&cfg.embedder_model),
                url: copied(&cfg.embedder_url),
                api_key: copied(&cfg.embedder_api_key),
                dimensions: None,
            };
            let ghost o = opts;
            let r = embedder::build_embedder(choice, opts, host.embedders);
            assert(embedder::planned(choice, o, host.embedders, r));
            match r {
                Ok(plan) => ServeAction::OpenIndex { embedder: plan },
                Err(e) => ServeAction::fail_with("failed to construct embedder", e),
            }
        },
    }
}

/// The pidfile that the daemon writes once it listens.
pub open spec fn own_pidfile(cfg: ServeConfig, host: Host, bound: Seq<char>, f: PidFile) -> bool {
    &&& f.pid == host.pid
    &&& f.admin_bind@ == bound
    &&& same_text(f.wire_bind, cfg.wire_bind)
    &&& f.version@ == host.version@
    &&& f.started_at == host.now
    &&& cfg.db_path matches Some(p) && f.db_path@ == p@
}

/// The action that tells supervisors where the daemon listens.
pub open spec fn announces(cfg: ServeConfig, bound: Seq<char>, a: ServeAction) -> bool {
    a matches ServeAction::Announce { marker } && marker@ == ready_line(
        "http://"@ + bound,
        match cfg.wire_bind {
            Some(w) => Some("tcp://"@ + w@),
            None => None,
        },
    )
}

fn announce(cfg: &ServeConfig, bound: &str) -> (a: ServeAction)
    ensures
        announces(*cfg, bound@, a),
{
    let mut admin_url = String::from_str("http://");
    admin_url.append(bound);
    match &cfg.wire_bind {
        Some(w) => {
            let mut wire_url = String::from_str("tcp://");
            wire_url.append(w);
            ServeAction::Announce { marker: ready_marker(&admin_url, Some(&wire_url)) }
        },
        None => ServeAction::Announce { marker: ready_marker(&admin_url, None) },
    }
}

/// The message where federation has no wire transport.
pub open spec fn no_wire_message() -> Seq<char> {
    "federation=true requires wire_bind to be set; federation cannot be bootstrapped without the wire transport"@
}

/// The action after the announcement: the signing key, the wire server, or what follows
/// it.
pub open spec fn after_announce(cfg: ServeConfig, a: ServeAction) -> bool {
    if cfg.federation {
        a is LoadIdentity
    } else {
        match cfg.wire_bind {
            Some(w) => a matches ServeAction::StartWire { bind, federated } && bind@ == w@
                && !federated,
            None => after_wire(cfg, a),
        }
    }
}

/// The action after the wire server.
pub open spec fn after_wire(cfg: ServeConfig, a: ServeAction) -> bool {
    match cfg.mcp_sse {
        Some(b) => a matches ServeAction::StartSse { bind, auth_required } && bind@ == b@
            && auth_required == cfg.require_auth,
        None => after_sse(cfg, a),
    }
}

/// The action after the SSE transport.
pub open spec fn after_sse(cfg: ServeConfig, a: ServeAction) -> bool {
    match cfg.mcp_http {
        Some(b) => a matches ServeAction::StartHttp { bind, auth_required } && bind@ == b@
            && auth_required == cfg.require_auth,
        None => after_http(cfg, a),
    }
}

/// The action after the streamable-HTTP transport. Stdio asks for no token.
pub open spec fn after_http(cfg: ServeConfig, a: ServeAction) -> bool {
    if cfg.mcp_stdio {
        a is StartStdio
    } else {
        a is SpawnAdapters
    }
}

fn start_stdio(cfg: &ServeConfig) -> (a: ServeAction)
    ensures
        after_http(*cfg, a),
{
    if cfg.mcp_stdio {
        ServeAction::StartStdio
    } else {
        ServeAction::SpawnAdapters
    }
}

fn start_http(cfg: &ServeConfig) -> (a: ServeAction)
    ensures
        after_sse(*cfg, a),
{
    match &cfg.mcp_http {
        Some(b) => ServeAction::StartHttp {
            bind: String::from_str(b),
            auth_required: cfg.require_auth,
        },
        None => start_stdio(cfg),
    }
}

fn start_sse(cfg: &ServeConfig) -> (a: ServeAction)
    ensures
        after_wire(*cfg, a),
{
    match &cfg.mcp_sse {
        Some(b) => ServeAction::StartSse {
            bind: String::from_str(b),
            auth_required: cfg.require_auth,
        },
        None => start_http(cfg),
    }
}

/// The action that follows an event.
pub open spec fn follows(cfg: ServeConfig, host: Host, event: ServeEvent, a: ServeAction) -> bool {
    match event {
        ServeEvent::Begin => begun(cfg, host, a),
        ServeEvent::AddressResolved(Err(e)) => a.fails("invalid bind address"@, Some(e@)),
        ServeEvent::AddressResolved(Ok(_)) => match cfg.db_path {
            Some(p) => a matches ServeAction::Probe { db_path } && db_path@ == p@,
            None => embeds(cfg, host, a),
        },
        ServeEvent::Probed(state) => after_probe(cfg, host, state, a),
        ServeEvent::IndexOpened(Err(e)) => a.fails(
            "failed to open HNSW vector index"@,
            Some(e@),
        ),
        ServeEvent::IndexOpened(Ok(_)) => a is Listen,
        ServeEvent::Listening { addr, outcome: Err(e) } => a.fails(
            "bind HTTP admin to "@ + addr@,
            Some(e@),
        ),
        ServeEvent::Listening { addr, outcome: Ok(bound) } => if cfg.db_path is Some {
            a matches ServeAction::WritePidfile { contents } && own_pidfile(
                cfg,
                host,
                bound@,
                contents,
            )
        } else {
            announces(cfg, bound@, a)
        },
        ServeEvent::PidfileWritten { bound, written: Err(e) } => a.fails(
            "install pidfile"@,
            Some(e@),
        ),
        ServeEvent::PidfileWritten { bound, written: Ok(_) } => announces(cfg, bound@, a),
        ServeEvent::Announced => after_announce(cfg, a),
        ServeEvent::IdentityLoaded(Err(e)) => a.fails("bad signing key: "@ + e@, None),
        ServeEvent::IdentityLoaded(Ok(_)) => match cfg.wire_bind {
            Some(w) => a matches ServeAction::StartWire { bind, federated } && bind@ == w@
                && federated,
            None => a.fails(no_wire_message(), None),
        },
        ServeEvent::WireStarted(Err(e)) => a.fails("invalid wire bind address"@, Some(e@)),
        ServeEvent::WireStarted(Ok(_)) => after_wire(cfg, a),
        ServeEvent::SseStarted(Err(e)) => a.fails("invalid --mcp-sse address"@, Some(e@)),
        ServeEvent::SseStarted(Ok(_)) => after_sse(cfg, a),
        ServeEvent::HttpStarted(Err(e)) => a.fails("invalid --mcp-http address"@, Some(e@)),
        ServeEvent::HttpStarted(Ok(_)) => after_http(cfg, a),
        ServeEvent::StdioStarted => a is SpawnAdapters,
        ServeEvent::AdaptersSpawned => a is Wait,
    }
}

/// What to do after an event.
pub fn next(cfg: &ServeConfig, host: &Host, event: ServeEvent) -> (a: ServeAction)
    ensures
        follows(*cfg, *host, event, a),
{
    match event {
        ServeEvent::Begin => begin(cfg, host),
        ServeEvent::AddressResolved(Err(e)) => ServeAction::fail_with("invalid bind address", e),
        ServeEvent::AddressResolved(Ok(_)) => match &cfg.db_path {
            Some(p) => ServeAction::Probe { db_path: String::from_str(p) },
            None => choose_embedder(cfg, host),
        },
        ServeEvent::Probed(state) => match state {
            DaemonState::Running(f) => {
                if cfg.mcp_stdio && cfg.cap_files.len() > 0 {
                    let cap_file = String::from_str(&cfg.cap_files[0]);
                    return ServeAction::Proxy { admin_bind: f.admin_bind, cap_file };
                }
                ServeAction::Fail { message: running_message(&f), cause: None }
            },
            _ => choose_embedder(cfg, host),
        },
        ServeEvent::IndexOpened(Err(e)) => ServeAction::fail_with(
            "failed to open HNSW vector index",
            e,
        ),
        ServeEvent::IndexOpened(Ok(_)) => ServeAction::Listen,
        ServeEvent::Listening { addr, outcome: Err(e) } => {
            let mut m = String::from_str("bind HTTP admin to ");
            m.append(&addr);
            ServeAction::fail_with(&m, e)
        },
        ServeEvent::Listening { addr, outcome: Ok(bound) } => match &cfg.db_path {
            Some(p) => ServeAction::WritePidfile {
                contents: PidFile {
                    pid: host.pid,
                    admin_bind: bound,
                    wire_bind: copied(&cfg.wire_bind),
                    version: String::from_str(&host.version),
                    started_at: host.now,
                    db_path: String::from_str(p),
                },
            },
            None => announce(cfg, &bound),
        },
        ServeEvent::PidfileWritten { bound, written: Err(e) } => ServeAction::fail_with(
            "install pidfile",
            e,
        ),
        ServeEvent::PidfileWritten { bound, written: Ok(_) } => announce(cfg, &bound),
        ServeEvent::Announced => if cfg.federation {
            ServeAction::LoadIdentity
        } else {
            match &cfg.wire_bind {
                Some(w) => ServeAction::StartWire { bind: String::from_str(w), federated: false },
                None => start_sse(cfg),
            }
        },
        ServeEvent::IdentityLoaded(Err(e)) => {
            let mut m = String::from_str("bad signing key: ");
            m.append(&e);
            ServeAction::Fail { message: m, cause: None }
        },
        ServeEvent::IdentityLoaded(Ok(_)) => match &cfg.wire_bind {
            Some(w) => ServeAction::StartWire { bind: String::from_str(w), federated: true },
            None => ServeAction::fail(
                "federation=true requires wire_bind to be set; federation cannot be bootstrapped without the wire transport",
            ),
        },
        ServeEvent::WireStarted(Err(e)) => ServeAction::fail_with("invalid wire bind address", e),
        ServeEvent::WireStarted(Ok(_)) => start_sse(cfg),
        ServeEvent::SseStarted(Err(e)) => ServeAction::fail_with("invalid --mcp-sse address", e),
        ServeEvent::SseStarted(Ok(_)) => start_http(cfg),
        ServeEvent::HttpStarted(Err(e)) => ServeAction::fail_with("invalid --mcp-http address", e),
        ServeEvent::HttpStarted(Ok(_)) => start_stdio(cfg),
        ServeEvent::StdioStarted => ServeAction::SpawnAdapters,
        ServeEvent::AdaptersSpawned => ServeAction::Wait,
    }
}

/// A daemon that finds another one running on its database binds no port: it relays to
/// the other, or gives up.
pub proof fn law_a_second_daemon_stands_back(
    cfg: ServeConfig,
    host: Host,
    running: PidFile,
    a: ServeAction,
)
    requires
        follows(cfg, host, ServeEvent::Probed(DaemonState::Running(running)), a),
    ensures
        a is Proxy || a is Fail,
        a matches ServeAction::Proxy { admin_bind, .. } ==> admin_bind@ == running.admin_bind@,
{
}

/// The pidfile is written only once the port is bound, and names this process and the
/// bound address.
pub proof fn law_pidfile_follows_the_bind(
    cfg: ServeConfig,
    host: Host,
    event: ServeEvent,
    contents: PidFile,
)
    requires
        follows(cfg, host, event, ServeAction::WritePidfile { contents }),
    ensures
        event matches ServeEvent::Listening { outcome: Ok(bound), .. } && contents.admin_bind@
            == bound@,
        contents.pid == host.pid,
{
}

/// Supervisors are told only once the port is bound, and, where the daemon has a pidfile,
/// once that is written.
pub proof fn law_ready_comes_last(cfg: ServeConfig, host: Host, event: ServeEvent, marker: String)
    requires
        follows(cfg, host, event, ServeAction::Announce { marker }),
    ensures
        match event {
            ServeEvent::Listening { outcome: Ok(_), .. } => cfg.db_path is None,
            ServeEvent::PidfileWritten { written: Ok(_), .. } => true,
            _ => false,
        },
{
}

/// The source that the MCP server gives its events: the address asked for.
pub fn mcp_source(addr: &str) -> (r: String)
    ensures
        r@ == "ctxd://"@ + addr@,
{
    let mut s = String::from_str("ctxd://");
    s.append(addr);
    s
}

/// Configuration of the dashboard: the admin API alone.
pub fn dashboard_config(bind: &str, db_path: &str) -> (r: ServeConfig)
    ensures
        r.bind@ == bind@,
        r.wire_bind is None && r.mcp_sse is None && r.mcp_http is None,
        !r.mcp_stdio && !r.require_auth && !r.federation,
        r.embedder@ == "null"@,
        r.embedder_model is None && r.embedder_url is None && r.embedder_api_key is None,
        r.storage@ == "sqlite"@ && r.storage_uri is None,
        r.db_path matches Some(p) && p@ == db_path@,
        r.cap_files@.len() == 0,
{
    ServeConfig {
        bind: String::from_str(bind),
        wire_bind: None,
        mcp_stdio: false,
        mcp_sse: None,
        mcp_http: None,
        require_auth: false,
        embedder: String::from_str("null"),
        embedder_model: None,
        embedder_url: None,
        embedder_api_key: None,
        storage: String::from_str("sqlite"),
        storage_uri: None,
        federation: false,
        db_path: Some(String::from_str(db_path)),
        cap_files: Vec::new(),
    }
}

/// The event that an action leads to where all goes well. No daemon was found on the
/// database where one was looked for.
pub open spec fn goes_well(a: ServeAction, e: ServeEvent) -> bool {
    match a {
        ServeAction::ResolveAddress => e matches ServeEvent::AddressResolved(Ok(_)),
        ServeAction::Probe { .. } => e == ServeEvent::Probed(DaemonState::NotRunning),
        ServeAction::OpenIndex { .. } => e matches ServeEvent::IndexOpened(Ok(_)),
        ServeAction::Listen => e matches ServeEvent::Listening { outcome: Ok(_), .. },
        ServeAction::WritePidfile { .. } => e matches ServeEvent::PidfileWritten {
            written: Ok(_),
            ..
        },
        ServeAction::Announce { .. } => e is Announced,
        ServeAction::LoadIdentity => e matches ServeEvent::IdentityLoaded(Ok(_)),
        ServeAction::StartWire { .. } => e matches ServeEvent::WireStarted(Ok(_)),
        ServeAction::StartSse { .. } => e matches ServeEvent::SseStarted(Ok(_)),
        ServeAction::StartHttp { .. } => e matches ServeEvent::HttpStarted(Ok(_)),
        ServeAction::StartStdio => e is StdioStarted,
        ServeAction::SpawnAdapters => e is AdaptersSpawned,
        _ => false,
    }
}

/// A start in which all goes well, up to the wait: each action is what follows the event, and
/// each event what the action before it led to.
pub open spec fn start_run(
    cfg: &ServeConfig,
    host: &Host,
    events: Seq<ServeEvent>,
    actions: Seq<ServeAction>,
) -> bool {
    &&& events.len() == actions.len()
    &&& actions.len() > 0
    &&& events[0] is Begin
    &&& actions.last() is Wait
    &&& forall|i: int|
        0 <= i < actions.len() ==> call_ensures(
            next,
            (cfg, host, #[trigger] events[i]),
            #[trigger] actions[i],
        )
    &&& forall|i: int|
        0 <= i < actions.len() - 1 ==> goes_well(#[trigger] actions[i], events[i + 1])
}

/// The place of an event in a start.
spec fn stage(e: ServeEvent) -> int {
    match e {
        ServeEvent::Begin => 0,
        ServeEvent::AddressResolved(_) => 1,
        ServeEvent::Probed(_) => 2,
        ServeEvent::IndexOpened(_) => 3,
        ServeEvent::Listening { .. } => 4,
        ServeEvent::PidfileWritten { .. } => 5,
        ServeEvent::Announced => 6,
        ServeEvent::IdentityLoaded(_) => 7,
        ServeEvent::WireStarted(_) => 8,
        ServeEvent::SseStarted(_) => 9,
        ServeEvent::HttpStarted(_) => 10,
        ServeEvent::StdioStarted => 11,
        ServeEvent::AdaptersSpawned => 12,
    }
}

/// Some action of a start, from the `n`th on, is of the kind.
spec fn later(actions: Seq<ServeAction>, n: int, kind: spec_fn(ServeAction) -> bool) -> bool {
    exists|i: int| n <= i < actions.len() && kind(#[trigger] actions[i])
}

proof fn lemma_step(
    cfg: &ServeConfig,
    host: &Host,
    events: Seq<ServeEvent>,
    actions: Seq<ServeAction>,
    n: int,
    kind: spec_fn(ServeAction) -> bool,
)
    requires
        start_run(cfg, host, events, actions),
        0 <= n < actions.len(),
        !(actions[n] is Wait),
    ensures
        n + 1 < actions.len(),
        follows(*cfg, *host, events[n + 1], actions[n + 1]),
        goes_well(actions[n], events[n + 1]),
        later(actions, n, kind) <==> kind(actions[n]) || later(actions, n + 1, kind),
{
    assert(call_ensures(next, (cfg, host, events[n + 1]), actions[n + 1]));
    if later(actions, n, kind) && !kind(actions[n]) {
        let i = choose|i: int| n <= i < actions.len() && kind(#[trigger] actions[i]);
        assert(n + 1 <= i);
    }
    if later(actions, n + 1, kind) {
        let i = choose|i: int| n + 1 <= i < actions.len() && kind(#[trigger] actions[i]);
        assert(n <= i < actions.len() && kind(actions[i]));
    }
}

/// What is still to be started after an event, as the configuration has it.
spec fn still_due(cfg: ServeConfig, e: ServeEvent, a: ServeAction) -> bool {
    match a {
        ServeAction::WritePidfile { .. } => stage(e) < 5 && cfg.db_path is Some,
        ServeAction::Announce { .. } => stage(e) < 6,
        ServeAction::StartWire { bind, federated } => stage(e) < 8 && federated == cfg.federation
            && (cfg.wire_bind matches Some(w) && w@ == bind@),
        ServeAction::StartSse { bind, auth_required } => stage(e) < 9 && auth_required
            == cfg.require_auth && (cfg.mcp_sse matches Some(b) && b@ == bind@),
        ServeAction::StartHttp { bind, auth_required } => stage(e) < 10 && auth_required
            == cfg.require_auth && (cfg.mcp_http matches Some(b) && b@ == bind@),
        ServeAction::StartStdio => stage(e) < 11 && cfg.mcp_stdio,
        ServeAction::SpawnAdapters => stage(e) < 12,
        _ => true,
    }
}

proof fn lemma_a_start_goes_on(
    cfg: &ServeConfig,
    host: &Host,
    events: Seq<ServeEvent>,
    actions: Seq<ServeAction>,
    n: int,
)
    requires
        start_run(cfg, host, events, actions),
        0 <= n < actions.len(),
        stage(events[n]) == 7 ==> cfg.federation,
        n > 0 ==> goes_well(actions[n - 1], events[n]),
    ensures
        forall|i: int| n <= i < actions.len() ==> still_due(*cfg, events[n], #[trigger] actions[i]),
        stage(events[n]) < 5 && cfg.db_path is Some ==> later(
            actions,
            n,
            |a: ServeAction| a is WritePidfile,
        ),
        stage(events[n]) < 6 ==> later(actions, n, |a: ServeAction| a is Announce),
        stage(events[n]) < 8 && cfg.wire_bind is Some ==> later(
            actions,
            n,
            |a: ServeAction| a is StartWire,
        ),
        stage(events[n]) < 9 && cfg.mcp_sse is Some ==> later(
            actions,
            n,
            |a: ServeAction| a is StartSse,
        ),
        stage(events[n]) < 10 && cfg.mcp_http is Some ==> later(
            actions,
            n,
            |a: ServeAction| a is StartHttp,
        ),
        stage(events[n]) < 11 && cfg.mcp_stdio ==> later(
            actions,
            n,
            |a: ServeAction| a is StartStdio,
        ),
        stage(events[n]) < 12 ==> later(actions, n, |a: ServeAction| a is SpawnAdapters),
        stage(events[n]) < 8 && cfg.federation ==> cfg.wire_bind is Some,
    decreases actions.len() - n,
{
    assert(call_ensures(next, (cfg, host, events[n]), actions[n]));
    assert(follows(*cfg, *host, events[n], actions[n]));
    if actions[n] is Wait {
        assert(stage(events[n]) == 12);
        assert(n == actions.len() - 1) by {
            if n < actions.len() - 1 {
                assert(goes_well(actions[n], events[n + 1]));
            }
        }
    } else {
        lemma_step(cfg, host, events, actions, n, |a: ServeAction| a is WritePidfile);
        lemma_step(cfg, host, events, actions, n, |a: ServeAction| a is Announce);
        lemma_step(cfg, host, events, actions, n, |a: ServeAction| a is StartWire);
        lemma_step(cfg, host, events, actions, n, |a: ServeAction| a is StartSse);
        lemma_step(cfg, host, events, actions, n, |a: ServeAction| a is StartHttp);
        lemma_step(cfg, host, events, actions, n, |a: ServeAction| a is StartStdio);
        lemma_step(cfg, host, events, actions, n, |a: ServeAction| a is SpawnAdapters);
        lemma_a_start_goes_on(cfg, host, events, actions, n + 1);
        assert forall|i: int| n <= i < actions.len() implies still_due(
            *cfg,
            events[n],
            #[trigger] actions[i],
        ) by {
            if i > n {
                assert(still_due(*cfg, events[n + 1], actions[i]));
            }
        }
    }
}

/// A start that goes well starts what is configured and nothing else. Each transport runs
/// where its address, or for stdio its flag, is given, at that address; the HTTP ones ask
/// for a token exactly where that is asked for; the wire server is federated exactly where
/// federation is on, which needs it; the pidfile is written exactly where there is a
/// database; and the adapters are started, and supervisors told, in any case.
pub proof fn law_a_start_starts_what_is_configured(
    cfg: &ServeConfig,
    host: &Host,
    events: Seq<ServeEvent>,
    actions: Seq<ServeAction>,
)
    requires
        start_run(cfg, host, events, actions),
    ensures
        (exists|i: int| 0 <= i < actions.len() && (#[trigger] actions[i]) is StartWire)
            <==> cfg.wire_bind is Some,
        (exists|i: int| 0 <= i < actions.len() && (#[trigger] actions[i]) is StartSse)
            <==> cfg.mcp_sse is Some,
        (exists|i: int| 0 <= i < actions.len() && (#[trigger] actions[i]) is StartHttp)
            <==> cfg.mcp_http is Some,
        (exists|i: int| 0 <= i < actions.len() && (#[trigger] actions[i]) is StartStdio)
            <==> cfg.mcp_stdio,
        (exists|i: int| 0 <= i < actions.len() && (#[trigger] actions[i]) is WritePidfile)
            <==> cfg.db_path is Some,
        exists|i: int| 0 <= i < actions.len() && (#[trigger] actions[i]) is Announce,
        exists|i: int| 0 <= i < actions.len() && (#[trigger] actions[i]) is SpawnAdapters,
        cfg.federation ==> cfg.wire_bind is Some,
        forall|i: int|
            0 <= i < actions.len() ==> (#[trigger] actions[i] matches ServeAction::StartWire {
                bind,
                federated,
            } ==> federated == cfg.federation && bind@ == cfg.wire_bind->0@),
        forall|i: int|
            0 <= i < actions.len() ==> (#[trigger] actions[i] matches ServeAction::StartSse {
                bind,
                auth_required,
            } ==> auth_required == cfg.require_auth && bind@ == cfg.mcp_sse->0@),
        forall|i: int|
            0 <= i < actions.len() ==> (#[trigger] actions[i] matches ServeAction::StartHttp {
                bind,
                auth_required,
            } ==> auth_required == cfg.require_auth && bind@ == cfg.mcp_http->0@),
{
    lemma_a_start_goes_on(cfg, host, events, actions, 0);
    assert forall|i: int| 0 <= i < actions.len() implies still_due(
        *cfg,
        events[0],
        #[trigger] actions[i],
    ) by {}
}

/// A daemon that finds another one running on its database relays to it where it was started
/// on stdio with a capability file, the first one, and gives up where not. With no other that
/// runs it goes on.
pub proof fn law_who_relays(cfg: &ServeConfig, host: &Host, state: DaemonState, a: ServeAction)
    requires
        call_ensures(next, (cfg, host, ServeEvent::Probed(state)), a),
    ensures
        a is Proxy <==> state is Running && cfg.mcp_stdio && cfg.cap_files@.len() > 0,
        a matches ServeAction::Proxy { admin_bind, cap_file } ==> (
        state matches DaemonState::Running(f) && admin_bind@ == f.admin_bind@ && cap_file@
            == cfg.cap_files@[0]@),
        state is Running ==> a is Proxy || a is Fail,
        !(state is Running) ==> a is OpenIndex || a is Fail,
{
}

/// Only SQLite gets the whole daemon; any other store the minimal server, and an unknown one
/// none.
pub proof fn law_only_sqlite_is_served_whole(cfg: &ServeConfig, host: &Host, a: ServeAction)
    requires
        call_ensures(next, (cfg, host, ServeEvent::Begin), a),
    ensures
        a is ResolveAddress <==> cfg.storage@ == "sqlite"@,
        a is ResolveAddress || a is ServeMinimal || a is Fail,
        a is ServeMinimal ==> cfg.storage@ == "postgres"@ || cfg.storage@ == "duckdb-object"@
            || cfg.storage@ == "duckdb_object"@,
{
}

/// The line for supervisors begins with the address at which the daemon listens, and names the
/// wire address where there is one.
pub proof fn law_the_marker_names_the_addresses(
    admin_url: &str,
    wire_url: Option<&str>,
    r: String,
)
    requires
        call_ensures(ready_marker, (admin_url, wire_url), r),
    ensures
        ("ctxd-ready: "@ + admin_url@).is_prefix_of(r@),
        wire_url is None ==> r@ == "ctxd-ready: "@ + admin_url@,
        wire_url matches Some(w) ==> exists|i: int| #[trigger] text::occurs_at(r@, w@, i),
{
    let head = "ctxd-ready: "@ + admin_url@;
    assert(r@.take(head.len() as int) =~= head);
    if let Some(w) = wire_url {
        let at = (head + " (wire "@).len() as int;
        assert(r@.subrange(at, at + w@.len()) =~= w@);
        assert(text::occurs_at(r@, w@, at));
    }
}

/// The dashboard is the admin API on the database and nothing else.
pub proof fn law_the_dashboard_is_the_admin_api(bind: &str, db_path: &str, r: ServeConfig)
    requires
        call_ensures(dashboard_config, (bind, db_path), r),
    ensures
        r.bind@ == bind@,
        r.db_path matches Some(p) && p@ == db_path@,
        r.wire_bind is None && r.mcp_sse is None && r.mcp_http is None,
        !r.mcp_stdio && !r.federation,
        r.storage@ == "sqlite"@ && r.embedder@ == "null"@,
{
}

/// The embedder that the index is opened with is made of the settings of the configuration, each
/// of its own: the model, the URL and the key.
pub proof fn law_the_embedder_is_the_configured_one(
    cfg: &ServeConfig,
    host: &Host,
    event: ServeEvent,
    plan: EmbedderPlan,
)
    requires
        call_ensures(next, (cfg, host, event), (ServeAction::OpenIndex { embedder: plan })),
    ensures
        plan is Null <==> text::ascii_lowered(cfg.embedder@) == "null"@,
        plan is OpenAi <==> text::ascii_lowered(cfg.embedder@) == "openai"@,
        plan is Ollama <==> text::ascii_lowered(cfg.embedder@) == "ollama"@,
        plan matches EmbedderPlan::OpenAi { api_key, url, model, dimensions } ==> same_text(
            api_key,
            cfg.embedder_api_key,
        ) && same_text(url, cfg.embedder_url) && same_text(model, cfg.embedder_model),
        plan matches EmbedderPlan::Ollama { url, model, dimensions } ==> same_text(
            url,
            cfg.embedder_url,
        ) && same_text(model, cfg.embedder_model),
{
    reveal_strlit("null");
    reveal_strlit("openai");
    reveal_strlit("ollama");
    assert("null"@[0] == 'n' && "openai"@[1] == 'p' && "ollama"@[1] == 'l');
}

/// The store that the minimal server opens is the one that the configuration names.
pub proof fn law_the_store_is_the_configured_one(
    cfg: &ServeConfig,
    host: &Host,
    event: ServeEvent,
    target: StoreTarget,
)
    requires
        call_ensures(next, (cfg, host, event), (ServeAction::ServeMinimal { target })),
    ensures
        event is Begin,
        !(target is SqliteFile),
        target matches StoreTarget::PostgresServer(u) ==> cfg.storage@ == "postgres"@ && (
        cfg.storage_uri matches Some(x) && u@ == x@),
        target is LocalObjects ==> cfg.storage_uri is Some,
{
}

/// The pidfile holds this process, where it listens, on what, since when and in which version; and
/// supervisors are told where it listens.
pub proof fn law_the_pidfile_tells_the_daemon(
    cfg: &ServeConfig,
    host: &Host,
    addr: String,
    bound: String,
    a: ServeAction,
    b: ServeAction,
)
    requires
        call_ensures(
            next,
            (cfg, host, (ServeEvent::Listening { addr, outcome: Ok(bound) })),
            a,
        ),
        call_ensures(
            next,
            (cfg, host, (ServeEvent::PidfileWritten { bound, written: Ok(()) })),
            b,
        ),
    ensures
        cfg.db_path matches Some(p) ==> (a matches ServeAction::WritePidfile { contents }
            && contents.pid == host.pid && contents.admin_bind@ == bound@ && contents.db_path@ == p@
            && contents.version@ == host.version@ && contents.started_at == host.now && same_text(
            contents.wire_bind,
            cfg.wire_bind,
        )),
        cfg.db_path is None ==> (a matches ServeAction::Announce { marker } && (
        "ctxd-ready: "@ + ("http://"@ + bound@)).is_prefix_of(marker@)),
        b matches ServeAction::Announce { marker } && ("ctxd-ready: "@ + ("http://"@
            + bound@)).is_prefix_of(marker@),
{
    let head = "ctxd-ready: "@ + ("http://"@ + bound@);
    if let ServeAction::Announce { marker } = a {
        assert(marker@.take(head.len() as int) =~= head);
    }
    if let ServeAction::Announce { marker } = b {
        assert(marker@.take(head.len() as int) =~= head);
    }
}

} // verus!
