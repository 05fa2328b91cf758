//! The daemon: rate windows, backends, the MCP proxy, the pidfile, startup and the
//! command line.

use ctxd::cap::engine::CapEngine;
use ctxd::cap::error::CapError;
use ctxd::cap::operation::Operation;
use ctxd::cap::state::ApprovalDecision;
use ctxd::cli::{
    check_migration_target, check_peer_key, hook_event, hook_warning, manual_peer_key,
    parse_decision, parse_only, parse_operation, parse_operations, parse_step,
    port_in_use_message, split_list, split_trimmed, verify_answer, watch_exit_code, watch_url,
    KeyRefusal,
};
use ctxd::embedder::{
    build_embedder, EmbedderChoice, EmbedderFeatures, EmbedderOpts, EmbedderPlan,
    DEFAULT_DIMENSIONS,
};
use ctxd::json;
use ctxd::json::Json;
use ctxd::mcp_proxy::{
    derive_mcp_url, relay, request_body, rpc_error, DaemonReply, Relay, PROXY_ERROR_CODE,
};
use ctxd::minimal::{
    append_reply, append_request, health_reply, read_reply, read_request, Fault,
};
use ctxd::onboard::protocol::StepName;
use ctxd::path;
use ctxd::pidfile::{
    detect, health_probe, health_request, pidfile_path, remove_if_ours, temp_path, DaemonState,
    PidFile,
};
use ctxd::rate_limit::RateLimiter;
use ctxd::serve::{
    dashboard_config, mcp_source, next, ready_marker, Host, ServeAction, ServeConfig, ServeEvent,
};
use ctxd::storage_selector::{
    open_duckobj, select_store, SelectError, StorageFeatures, StorageKind, StorageSpec,
    StoreTarget,
};
use ctxd::text;
use ctxd::textmap::TextMap;
use ctxd::time::Timestamp;

fn object(members: Vec<(&str, Json)>) -> Json {
    let mut map = TextMap::new();
    for (name, value) in members {
        map.insert(name, value);
    }
    Json::Object(map)
}

fn texts(v: &[&str]) -> Vec<String> {
    v.iter().map(|s| s.to_string()).collect()
}

fn said<'a>(v: &'a Json, name: &str) -> &'a str {
    v.get(name).and_then(|x| x.as_str()).expect("a text")
}

fn pidfile(pid: u32) -> PidFile {
    PidFile {
        pid,
        admin_bind: "127.0.0.1:7777".to_string(),
        wire_bind: None,
        version: "0.4.0".to_string(),
        started_at: Timestamp { secs: 1_700_000_000, nanos: 0 },
        db_path: "/data/ctxd.db".to_string(),
    }
}

#[test]
fn allows_within_limit() {
    let mut limiter = RateLimiter::new();
    for _ in 0..10 {
        assert!(limiter.check("token-1", 10));
    }
}

#[test]
fn rejects_over_limit() {
    let mut limiter = RateLimiter::new();
    for _ in 0..5 {
        assert!(limiter.check("token-1", 5));
    }
    assert!(!limiter.check("token-1", 5));
}

#[test]
fn separate_tokens_tracked_independently() {
    let mut limiter = RateLimiter::new();
    for _ in 0..3 {
        assert!(limiter.check("token-a", 3));
    }
    assert!(!limiter.check("token-a", 3));
    assert!(limiter.check("token-b", 3));
}

#[test]
fn a_limit_of_nothing_admits_nothing() {
    let mut limiter = RateLimiter::new();
    assert!(!limiter.check_at("t", 0, 0));
    assert!(!limiter.check_at("t", 0, 5_000_000_000));
    assert!(limiter.check_at("t", 2, 5_000_000_000));
    assert!(!limiter.check_at("t", 0, 9_000_000_000));
}

#[test]
fn a_window_lasts_one_second() {
    let mut limiter = RateLimiter::default();
    assert!(limiter.check_at("t", 1, 500));
    assert!(!limiter.check_at("t", 1, 501));
    assert!(!limiter.check_at("t", 1, 1_000_000_499));
    assert!(limiter.check_at("t", 1, 1_000_000_500));
}

#[test]
fn kind_parses_canonical_forms() {
    assert_eq!(StorageKind::parse("sqlite").unwrap(), StorageKind::Sqlite);
    assert_eq!(StorageKind::parse("postgres").unwrap(), StorageKind::Postgres);
    assert_eq!(StorageKind::parse("duckdb-object").unwrap(), StorageKind::DuckdbObject);
    assert_eq!(StorageKind::parse("duckdb_object").unwrap(), StorageKind::DuckdbObject);
    assert!(StorageKind::parse("nope").is_err());
}

fn storage(kind: StorageKind, uri: Option<&str>) -> StorageSpec {
    StorageSpec {
        kind,
        sqlite_path: Some("/data/ctxd.db".to_string()),
        uri: uri.map(|s| s.to_string()),
    }
}

#[test]
fn stores_are_selected_by_kind_and_build() {
    let all = StorageFeatures { postgres: true, duckdb_object: true };
    let none = StorageFeatures { postgres: false, duckdb_object: false };
    assert!(matches!(
        select_store(&storage(StorageKind::Sqlite, None), none),
        Ok(StoreTarget::SqliteFile(p)) if p == "/data/ctxd.db"
    ));
    assert!(matches!(
        select_store(&storage(StorageKind::Postgres, Some("postgres://h/db")), all),
        Ok(StoreTarget::PostgresServer(u)) if u == "postgres://h/db"
    ));
    assert!(matches!(
        select_store(&storage(StorageKind::Postgres, Some("postgres://h/db")), none),
        Err(SelectError::FeatureDisabled { .. })
    ));
    assert!(matches!(
        select_store(&storage(StorageKind::Postgres, None), all),
        Err(SelectError::MissingUri { .. })
    ));
    assert!(matches!(
        open_duckobj("file:///srv/objects"),
        Ok(StoreTarget::LocalObjects(p)) if p == "/srv/objects"
    ));
    match open_duckobj("s3://bucket") {
        Err(e) => assert!(!e.to_string().is_empty()),
        Ok(_) => panic!("only local objects can be opened"),
    }
}

#[test]
fn parse_choices() {
    assert_eq!(EmbedderChoice::parse("null").unwrap(), EmbedderChoice::Null);
    assert_eq!(EmbedderChoice::parse("OPENAI").unwrap(), EmbedderChoice::OpenAi);
    assert!(EmbedderChoice::parse("bogus").is_err());
}

#[test]
fn parse_unknown_provider_errors() {
    assert!(EmbedderChoice::parse("bigml").is_err());
}

#[test]
fn parse_known_providers() {
    assert_eq!(EmbedderChoice::parse("null").unwrap(), EmbedderChoice::Null);
    assert_eq!(EmbedderChoice::parse("openai").unwrap(), EmbedderChoice::OpenAi);
    assert_eq!(EmbedderChoice::parse("ollama").unwrap(), EmbedderChoice::Ollama);
}

const NO_PROVIDERS: EmbedderFeatures = EmbedderFeatures { openai: false, ollama: false };
const ALL_PROVIDERS: EmbedderFeatures = EmbedderFeatures { openai: true, ollama: true };

#[test]
fn embedder_null_choice_constructs_null_embedder() {
    let plan = build_embedder(
        EmbedderChoice::Null,
        EmbedderOpts { dimensions: Some(16), ..Default::default() },
        NO_PROVIDERS,
    )
    .unwrap();
    assert!(matches!(plan, EmbedderPlan::Null { size: 16 }));
}

#[test]
fn embedder_registry_null_choice_constructs_null_embedder() {
    let plan = build_embedder(
        EmbedderChoice::Null,
        EmbedderOpts { dimensions: Some(8), ..Default::default() },
        NO_PROVIDERS,
    )
    .unwrap();
    assert!(matches!(plan, EmbedderPlan::Null { size: 8 }));
    let plan =
        build_embedder(EmbedderChoice::Null, EmbedderOpts::default(), NO_PROVIDERS).unwrap();
    assert!(matches!(plan, EmbedderPlan::Null { size } if size == DEFAULT_DIMENSIONS));
}

#[test]
fn openai_choice_constructs_openai_embedder() {
    let plan = build_embedder(
        EmbedderChoice::OpenAi,
        EmbedderOpts {
            api_key: Some("test-key".to_string()),
            url: Some("http://localhost:1".to_string()),
            model: Some("custom-model".to_string()),
            dimensions: Some(1024),
        },
        ALL_PROVIDERS,
    )
    .unwrap();
    match plan {
        EmbedderPlan::OpenAi { api_key, url, model, dimensions } => {
            assert_eq!(api_key.as_deref(), Some("test-key"));
            assert_eq!(url.as_deref(), Some("http://localhost:1"));
            assert_eq!(model.as_deref(), Some("custom-model"));
            assert_eq!(dimensions, Some(1024));
        }
        other => panic!("expected OpenAi, got {other:?}"),
    }
    assert!(build_embedder(EmbedderChoice::OpenAi, EmbedderOpts::default(), NO_PROVIDERS).is_err());
}

#[test]
fn ollama_choice_constructs_ollama_embedder() {
    let plan = build_embedder(
        EmbedderChoice::Ollama,
        EmbedderOpts {
            url: Some("http://localhost:1".to_string()),
            model: Some("nomic-embed-text".to_string()),
            dimensions: Some(768),
            ..Default::default()
        },
        ALL_PROVIDERS,
    )
    .unwrap();
    assert!(matches!(plan, EmbedderPlan::Ollama { dimensions: Some(768), .. }));
    assert!(build_embedder(EmbedderChoice::Ollama, EmbedderOpts::default(), NO_PROVIDERS).is_err());
}

#[test]
fn derive_mcp_url_swaps_7777_for_7780() {
    assert_eq!(derive_mcp_url("127.0.0.1:7777"), "http://127.0.0.1:7780/mcp");
}

#[test]
fn derive_mcp_url_offsets_other_ports_by_3() {
    assert_eq!(derive_mcp_url("127.0.0.1:8000"), "http://127.0.0.1:8003/mcp");
}

#[test]
fn derive_mcp_url_passes_through_no_port() {
    assert_eq!(derive_mcp_url("nohost"), "http://nohost/mcp");
}

#[test]
fn blank_lines_are_not_sent() {
    assert_eq!(request_body("  {\"a\":1}\r\n"), Some("{\"a\":1}".to_string()));
    assert_eq!(request_body(" \n"), None);
}

fn answer(content_type: Option<&str>, body: &str) -> DaemonReply {
    DaemonReply::Answer {
        success: true,
        status: "200 OK".to_string(),
        content_type: content_type.map(|s| s.to_string()),
        body: body.to_string(),
    }
}

fn frames(reply: DaemonReply) -> Vec<String> {
    match relay(reply) {
        Relay::Frames(f) => f,
        Relay::Failure(m) => panic!("{m}"),
    }
}

#[test]
fn answers_become_lines() {
    assert_eq!(
        frames(answer(Some("application/json"), "{\n\"a\":1}\n")),
        texts(&["{\"a\":1}"])
    );
    assert_eq!(
        frames(answer(
            Some("text/event-stream; charset=utf-8"),
            "event: message\ndata: {\"a\":1}\n\ndata:\ndata: two\r\n"
        )),
        texts(&["{\"a\":1}", "two"])
    );
    assert!(frames(answer(None, "  \n")).is_empty());
}

#[test]
fn failures_become_errors() {
    let failure = |reply| match relay(reply) {
        Relay::Failure(m) => m,
        Relay::Frames(f) => panic!("{f:?}"),
    };
    assert_eq!(failure(DaemonReply::Unsent("refused".to_string())), "ctxd proxy: refused");
    assert_eq!(
        failure(DaemonReply::Unreadable("cut".to_string())),
        "ctxd proxy: read body: cut"
    );
    assert_eq!(
        failure(DaemonReply::Answer {
            success: false,
            status: "401 Unauthorized".to_string(),
            content_type: None,
            body: "no token".to_string(),
        }),
        "ctxd proxy: daemon returned 401 Unauthorized: no token"
    );
    let v = rpc_error(Some(object(vec![("id", Json::Unsigned(7))])), "boom");
    assert!(matches!(v.get("id"), Some(Json::Unsigned(7))));
    let error = v.get("error").unwrap();
    assert!(matches!(error.get("code"), Some(Json::Negative(c)) if *c == PROXY_ERROR_CODE));
    assert_eq!(said(error, "message"), "boom");
    assert!(matches!(rpc_error(None, "boom").get("id"), Some(Json::Null)));
}

#[test]
fn pidfile_path_appends_pid_suffix() {
    assert_eq!(pidfile_path("/var/lib/ctxd/ctxd.db"), "/var/lib/ctxd/ctxd.db.pid");
}

#[test]
fn pidfile_path_handles_relative_db() {
    assert_eq!(pidfile_path("ctxd.db"), "ctxd.db.pid");
}

#[test]
fn pidfile_path_handles_no_filename() {
    let p = pidfile_path("/");
    assert_eq!(path::file_name(&p).unwrap(), "ctxd.db.pid");
}

#[test]
fn remove_if_ours_does_nothing_when_not_ours() {
    assert!(!remove_if_ours(Some(&pidfile(999_999)), 12));
    assert!(!remove_if_ours(None, 12));
    assert!(remove_if_ours(Some(&pidfile(12)), 12));
}

#[test]
fn detect_no_pidfile_is_not_running() {
    let state = detect(None, true, true);
    assert!(matches!(state, DaemonState::NotRunning));
    assert!(!state.blocks_startup());
    assert!(state.pidfile().is_none());
}

#[test]
fn detect_stale_pidfile_with_dead_pid() {
    let state = detect(Some(pidfile(999_999_999)), false, false);
    assert!(matches!(state, DaemonState::Stale(_)));
    assert!(!state.blocks_startup());
    assert_eq!(state.pidfile().map(|f| f.pid), Some(999_999_999));
}

#[test]
fn detect_unresponsive_when_pid_alive_but_health_fails() {
    let state = detect(Some(pidfile(5)), true, false);
    assert!(matches!(state, DaemonState::Unresponsive(_)));
    assert!(state.blocks_startup());
    assert!(matches!(detect(Some(pidfile(5)), true, true), DaemonState::Running(_)));
}

#[test]
fn health_is_a_status_of_200() {
    assert!(health_request("127.0.0.1:7777").starts_with("GET /health HTTP/1.1\r\n"));
    assert!(health_request("127.0.0.1:7777").contains("Host: 127.0.0.1:7777\r\n"));
    assert!(health_probe("HTTP/1.1 200 OK\r\n"));
    assert!(!health_probe("HTTP/1.1 503 Busy\r\n"));
    assert!(!health_probe(""));
}

#[test]
fn temp_files_stand_beside_the_pidfile() {
    let t = temp_path("/data/ctxd.db", 42);
    assert_eq!(path::parent(&t), "/data");
    assert!(t.contains("42"));
}

#[test]
fn paths_agree_with_the_standard_library() {
    for p in [
        "/a/b.db", "b.db", "/", "", "/a/", "/a//b", "a/..", "..", ".", "/a/./b", "a/b/", "//x",
        "./a", "a/.", "/..",
    ] {
        let std_path = std::path::Path::new(p);
        assert_eq!(
            path::file_name(p),
            std_path.file_name().map(|s| s.to_string_lossy().into_owned()),
            "file_name of {p:?}"
        );
        assert_eq!(
            std::path::PathBuf::from(path::with_file_name(p, "new")),
            std_path.with_file_name("new"),
            "with_file_name of {p:?}"
        );
        if let Some(parent) = std_path.parent() {
            assert_eq!(std::path::Path::new(&path::parent(p)), parent, "parent of {p:?}");
        }
    }
    for (base, rest) in [("/a", "b"), ("/a/", "b"), ("", "b"), ("/a", "/b"), ("/", "b")] {
        assert_eq!(
            path::join(base, rest),
            std::path::Path::new(base).join(rest).to_string_lossy().into_owned()
        );
    }
}

fn config() -> ServeConfig {
    ServeConfig {
        bind: "127.0.0.1:7777".to_string(),
        wire_bind: Some("127.0.0.1:7778".to_string()),
        mcp_stdio: false,
        mcp_sse: None,
        mcp_http: Some("127.0.0.1:7780".to_string()),
        require_auth: true,
        embedder: "null".to_string(),
        embedder_model: None,
        embedder_url: None,
        embedder_api_key: None,
        storage: "sqlite".to_string(),
        storage_uri: None,
        federation: false,
        db_path: Some("/data/ctxd.db".to_string()),
        cap_files: vec![],
    }
}

fn host() -> Host {
    Host {
        storage: StorageFeatures { postgres: true, duckdb_object: true },
        embedders: NO_PROVIDERS,
        pid: 77,
        version: "0.4.0".to_string(),
        now: Timestamp { secs: 1_700_000_000, nanos: 0 },
    }
}

fn failure(a: ServeAction) -> String {
    match a {
        ServeAction::Fail { message, .. } => message,
        other => panic!("expected Fail, got {other:?}"),
    }
}

#[test]
fn startup_runs_through_its_stages() {
    let cfg = config();
    let h = host();
    assert!(matches!(next(&cfg, &h, ServeEvent::Begin), ServeAction::ResolveAddress));
    assert!(matches!(
        next(&cfg, &h, ServeEvent::AddressResolved(Ok(()))),
        ServeAction::Probe { db_path } if db_path == "/data/ctxd.db"
    ));
    assert!(matches!(
        next(&cfg, &h, ServeEvent::Probed(DaemonState::NotRunning)),
        ServeAction::OpenIndex { embedder: EmbedderPlan::Null { size: 384 } }
    ));
    assert!(matches!(next(&cfg, &h, ServeEvent::IndexOpened(Ok(()))), ServeAction::Listen));
    let bound = || ServeEvent::Listening {
        addr: "127.0.0.1:7777".to_string(),
        outcome: Ok("127.0.0.1:7777".to_string()),
    };
    match next(&cfg, &h, bound()) {
        ServeAction::WritePidfile { contents } => {
            assert_eq!(contents.pid, 77);
            assert_eq!(contents.admin_bind, "127.0.0.1:7777");
            assert_eq!(contents.wire_bind.as_deref(), Some("127.0.0.1:7778"));
            assert_eq!(contents.db_path, "/data/ctxd.db");
        }
        other => panic!("expected WritePidfile, got {other:?}"),
    }
    match next(
        &cfg,
        &h,
        ServeEvent::PidfileWritten { bound: "127.0.0.1:7777".to_string(), written: Ok(()) },
    ) {
        ServeAction::Announce { marker } => {
            assert_eq!(
                marker,
                ready_marker("http://127.0.0.1:7777", Some("tcp://127.0.0.1:7778"))
            );
            assert!(marker.contains("http://127.0.0.1:7777"));
        }
        other => panic!("expected Announce, got {other:?}"),
    }
    assert!(matches!(
        next(&cfg, &h, ServeEvent::Announced),
        ServeAction::StartWire { bind, federated: false } if bind == "127.0.0.1:7778"
    ));
    assert!(matches!(
        next(&cfg, &h, ServeEvent::WireStarted(Ok(()))),
        ServeAction::StartHttp { bind, auth_required: true } if bind == "127.0.0.1:7780"
    ));
    assert!(matches!(
        next(&cfg, &h, ServeEvent::HttpStarted(Ok(()))),
        ServeAction::SpawnAdapters
    ));
    assert!(matches!(next(&cfg, &h, ServeEvent::AdaptersSpawned), ServeAction::Wait));
}

#[test]
fn a_second_daemon_stands_back() {
    let running = || ServeEvent::Probed(DaemonState::Running(pidfile(5)));
    let mut cfg = config();
    let message = failure(next(&cfg, &host(), running()));
    assert!(message.contains("already running"), "{message}");
    cfg.mcp_stdio = true;
    cfg.cap_files = texts(&["/caps/a.bk", "/caps/b.bk"]);
    assert!(matches!(
        next(&cfg, &host(), running()),
        ServeAction::Proxy { admin_bind, cap_file }
            if admin_bind == "127.0.0.1:7777" && cap_file == "/caps/a.bk"
    ));
}

#[test]
fn startup_failures_are_reported() {
    let mut cfg = config();
    assert_eq!(
        failure(next(&cfg, &host(), ServeEvent::AddressResolved(Err("bad".to_string())))),
        "invalid bind address"
    );
    cfg.embedder = "bogus".to_string();
    assert_eq!(
        failure(next(&cfg, &host(), ServeEvent::Probed(DaemonState::NotRunning))),
        "unknown embedder 'bogus' (expected null|openai|ollama)"
    );
    cfg.embedder = "openai".to_string();
    assert_eq!(
        failure(next(&cfg, &host(), ServeEvent::Probed(DaemonState::NotRunning))),
        "failed to construct embedder"
    );
    cfg.storage = "nope".to_string();
    let message = failure(next(&cfg, &host(), ServeEvent::Begin));
    assert!(message.contains("expected sqlite | postgres | duckdb-object"), "{message}");
    cfg.storage = "postgres".to_string();
    let message = failure(next(&cfg, &host(), ServeEvent::Begin));
    assert!(message.starts_with("select_store: "), "{message}");
    cfg.storage_uri = Some("postgres://h/db".to_string());
    assert!(matches!(
        next(&cfg, &host(), ServeEvent::Begin),
        ServeAction::ServeMinimal { target: StoreTarget::PostgresServer(_) }
    ));
}

#[test]
fn federation_needs_the_wire() {
    let mut cfg = config();
    cfg.federation = true;
    assert!(matches!(next(&cfg, &host(), ServeEvent::Announced), ServeAction::LoadIdentity));
    assert!(matches!(
        next(&cfg, &host(), ServeEvent::IdentityLoaded(Ok(()))),
        ServeAction::StartWire { federated: true, .. }
    ));
    cfg.wire_bind = None;
    let message = failure(next(&cfg, &host(), ServeEvent::IdentityLoaded(Ok(()))));
    assert!(message.contains("requires wire_bind"), "{message}");
}

#[test]
fn the_dashboard_serves_the_admin_api_alone() {
    let cfg = dashboard_config("127.0.0.1:7777", "/data/ctxd.db");
    assert_eq!(cfg.bind, "127.0.0.1:7777");
    assert_eq!(cfg.db_path.as_deref(), Some("/data/ctxd.db"));
    assert!(cfg.wire_bind.is_none() && cfg.mcp_http.is_none() && !cfg.mcp_stdio);
    assert!(mcp_source("127.0.0.1:7777").contains("127.0.0.1:7777"));
}

#[test]
fn minimal_api() {
    let r = append_request(object(vec![
        ("subject", Json::text("/a")),
        ("type", Json::text("note")),
        ("data", Json::Unsigned(1)),
    ]));
    assert_eq!((r.subject.as_str(), r.event_type.as_str()), ("/a", "note"));
    assert!(json::same(&r.data, &Json::Unsigned(1)));
    let bare = append_request(Json::Null);
    assert_eq!((bare.subject.as_str(), bare.event_type.as_str()), ("/", "event"));
    assert!(json::same(&bare.data, &object(vec![])));
    assert_eq!(read_request(Some("/a"), Some("1")), ("/a".to_string(), true));
    assert_eq!(read_request(None, Some("yes")), ("/".to_string(), false));
    let ok = append_reply(Ok("id-1".to_string()));
    assert_eq!((ok.status, said(&ok.body, "id")), (200, "id-1"));
    let bad = append_reply(Err(Fault::Subject("bad subject".to_string())));
    assert_eq!((bad.status, said(&bad.body, "error")), (400, "bad subject"));
    let broken = read_reply(Err(Fault::Store("io".to_string())));
    assert_eq!((broken.status, said(&broken.body, "error")), (500, "io"));
    assert_eq!(said(&health_reply().body, "mode"), "minimal");
}

#[test]
fn lists_are_split() {
    assert_eq!(split_trimmed("a, b,,c "), texts(&["a", "b", "", "c"]));
    assert_eq!(split_list("a, b,,c "), texts(&["a", "b", "c"]));
    assert_eq!(parse_step("doctor"), Some(StepName::Doctor));
    assert_eq!(parse_step("dance"), None);
    assert_eq!(
        parse_only("snapshot, dance, doctor"),
        vec![StepName::Snapshot, StepName::Doctor]
    );
}

#[test]
fn operations_are_parsed() {
    assert_eq!(
        parse_operations("read, write").unwrap(),
        vec![Operation::Read, Operation::Write]
    );
    assert!(parse_operations("read,fly").is_err());
    assert_eq!(parse_operation("search").unwrap(), Operation::Search);
    assert!(parse_operation("fly").is_err());
}

#[test]
fn verdicts_are_told() {
    assert!(verify_answer("read", "/a", &Ok(())).contains("read"));
    let denied = verify_answer("read", "/a", &Err(CapError::Denied("no".to_string())));
    assert_eq!(denied, "DENIED: authorization denied: no");
}

#[test]
fn peer_keys_are_checked() {
    let key = "AB".repeat(32);
    assert_eq!(manual_peer_key(Some(&key)).unwrap(), vec![0xab; 32]);
    assert!(matches!(manual_peer_key(None), Err(KeyRefusal::Missing)));
    match manual_peer_key(Some("abcd")) {
        Err(e) => assert_eq!(
            e.to_string(),
            "public key must be 32 bytes (64 hex chars); got 2"
        ),
        Ok(_) => panic!("two bytes are no key"),
    }
    assert!(matches!(manual_peer_key(Some("zz")), Err(KeyRefusal::NotHex(_))));
    assert!(check_peer_key(&[0xab; 32], &key).is_ok());
    assert_eq!(
        check_peer_key(&[1], "02").unwrap_err(),
        "remote pubkey 01 does not match expected 02"
    );
}

#[test]
fn decisions_and_targets() {
    assert_eq!(parse_decision("ALLOW").unwrap(), ApprovalDecision::Allow);
    assert_eq!(parse_decision("deny").unwrap(), ApprovalDecision::Deny);
    assert_eq!(
        parse_decision("maybe").unwrap_err(),
        "--decision must be 'allow' or 'deny', got 'maybe'"
    );
    assert!(check_migration_target("0.3").is_ok());
    assert!(check_migration_target("0.2").is_err());
}

#[test]
fn a_taken_port_is_explained() {
    let m = port_in_use_message(
        "127.0.0.1:7777",
        &texts(&["failed to bind", "Address already in use (os error 98)"]),
    )
    .expect("a message");
    assert!(m.starts_with("port 127.0.0.1:7777 is already in use"));
    assert_eq!(port_in_use_message("b", &texts(&["permission denied"])), None);
}

#[test]
fn hooks_are_best_effort() {
    let e = hook_event("session-start", Some(object(vec![]))).unwrap();
    assert_eq!(e.subject, "/me/sessions/session-start");
    assert!(hook_event("", Some(Json::Null)).is_err());
    assert!(hook_event("a/b", Some(Json::Null)).is_err());
    assert!(hook_event("stop", None).is_err());
    assert_eq!(hook_warning("x"), "ctxd hook: x (best-effort, ignored)");
}

#[test]
fn watching_finds_the_daemon() {
    assert_eq!(watch_url(Some("http://h:1"), None).unwrap(), "http://h:1");
    assert_eq!(watch_url(None, Some(&pidfile(1))).unwrap(), "http://127.0.0.1:7777");
    assert!(watch_url(None, None).unwrap_err().contains("daemon not running"));
    assert_eq!(watch_exit_code(0), 2);
    assert_eq!(watch_exit_code(3), 0);
}

#[test]
fn texts_agree_with_the_standard_library() {
    for s in ["", " a b ", "\u{3000}x\n", "a\r\nb\n\nc\r", "\n", "x"] {
        assert_eq!(text::trim(s), s.trim());
        assert_eq!(text::trim_start(s), s.trim_start());
        assert_eq!(text::split_lines(s), s.lines().map(|l| l.to_string()).collect::<Vec<_>>());
        assert_eq!(text::to_ascii_lowercase(s), s.to_ascii_lowercase());
        assert_eq!(
            text::split(s, 'b'),
            s.split('b').map(|l| l.to_string()).collect::<Vec<_>>()
        );
    }
    for n in ["0", "65535", "65536", "", "+5", "-1", "007", "18446744073709551616"] {
        assert_eq!(
            text::parse_unsigned(n, 65535),
            n.parse::<u16>().ok().map(|v| v as u64),
            "{n:?}"
        );
    }
    assert_eq!(text::unsigned_text(u64::MAX), u64::MAX.to_string());
    assert_eq!(text::signed_text(i64::MIN), i64::MIN.to_string());
    assert_eq!(text::replace("a--b---", "--", "+"), "a--b---".replace("--", "+"));
    assert_eq!(text::trim_start_matches("//a//", "/"), "a//");
    assert_eq!(text::trim_end_matches("//a//", "/"), "//a");
}

#[test]
fn maps_keep_one_value_per_key() {
    let mut m: TextMap<u32> = TextMap::new();
    m.insert("b", 1);
    m.insert("a", 2);
    m.insert("b", 3);
    assert_eq!(m.len(), 2);
    assert_eq!(m.get("b"), Some(&3));
    assert_eq!(m.remove("b"), Some(3));
    assert!(!m.contains("b") && m.contains("a"));
    assert_eq!(m.remove("b"), None);
}

#[test]
fn json_values_are_compared_by_content() {
    let a = object(vec![("x", Json::Unsigned(1)), ("y", Json::texts(&texts(&["p"])))]);
    let b = object(vec![("y", Json::texts(&texts(&["p"]))), ("x", Json::Unsigned(1))]);
    assert!(json::same(&a, &b));
    assert!(!json::same(&a, &object(vec![("x", Json::Unsigned(1))])));
    assert!(!json::same(&Json::Unsigned(1), &Json::Text("1".to_string())));
}

#[test]
fn an_engine_by_default_is_a_new_one() {
    let a = CapEngine::default();
    let b = CapEngine::default();
    assert_ne!(a.private_key_bytes(), b.private_key_bytes());
    assert_eq!(a.public_key().to_bytes().len(), 32);
}
