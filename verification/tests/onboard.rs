//! Onboarding: capabilities, client configuration, messages, seeds, snapshots, the doctor
//! and the pipeline.

use ctxd::cap::engine::CapEngine;
use ctxd::cap::error::CapError;
use ctxd::cap::operation::Operation;
use ctxd::json;
use ctxd::json::Json;
use ctxd::onboard::caps::{
    cap_file_path, cap_token, mint_for_client, verify_persisted, CapFile, ClientId,
};
use ctxd::onboard::clients::{
    apply_all, apply_mcp_entry, build_mcp_args, build_mcp_entry, config_temp_path,
    configured_clients, event_slug, install_claude_code_hooks, render_codex_snippet,
    upsert_mcp_entry, verify_mcp_entry, ApplyAction, ClaudeCode, ClaudeDesktop, ClientSpec,
    ClientWriter, Codex, NewContents,
};
use ctxd::onboard::doctor;
use ctxd::onboard::doctor::{
    check_daemon_running, check_events_present, check_service_installed, check_storage_healthy,
    report_json, run, Check, CheckStatus, EventProbe, Probes, ServiceProbe, StorageProbe, Summary,
};
use ctxd::onboard::paths::{ProjectPaths, Surroundings, SERVICE_LABEL};
use ctxd::onboard::pipeline::{
    await_service, clients_detail, finish, offboarded, open_step, plan_offboard, plan_step,
    purge_message, service_spec, start_timeout_message, steps, AdapterChoice, ClientOutcome,
    PipelineConfig, StartWait, StepPlan, START_TIMEOUT_MS,
};
use ctxd::onboard::protocol;
use ctxd::onboard::protocol::{
    DoctorSummary, Emission, Emitter, LogLevel, Outcome, OutputMode, SkillMessage, StepName,
    StepStatus, PROTOCOL_VERSION,
};
use ctxd::onboard::seeds::{
    about_payload, choose_hostname, git_value, preferences_payload, profile_payload, seed,
    seed_force, ProfileFacts, Seeded, SEED_SOURCE,
};
use ctxd::onboard::service::{Platform, ServiceStatus};
use ctxd::onboard::skills::{manifest_for, spawn_from_manifest, FsSkill, SkillsToml};
use ctxd::onboard::snapshot::{
    capture, latest_snapshot, restore_action, snapshot_one, snapshot_path, ClientConfigSnapshot,
    ClientFile, FileRead, RestoreAction, RestoreOutcome, RestoreReport,
};
use ctxd::path;
use ctxd::pidfile::{DaemonState, PidFile};
use ctxd::textmap::TextMap;
use ctxd::time::Timestamp;

fn settled<T>(mut call: impl FnMut() -> Result<T, CapError>) -> Result<T, CapError> {
    for _ in 0..400 {
        match call() {
            Err(CapError::Biscuit(biscuit_auth::error::Token::RunLimit(_))) => {}
            other => return other,
        }
    }
    call()
}

/// The product's name with hyphens, as its slugs have it.
fn hyphens(s: &str) -> String {
    s.replace('_', "-")
}

fn object(members: Vec<(&str, Json)>) -> Json {
    let mut map = TextMap::new();
    for (name, value) in members {
        map.insert(name, value);
    }
    Json::Object(map)
}

fn texts(v: &[&str]) -> Vec<String> {
    v.iter().map(|s| s.to_string()).collect()
}

fn at<'a>(v: &'a Json, path: &[&str]) -> Option<&'a Json> {
    let mut here = v;
    for name in path {
        here = here.get(name)?;
    }
    Some(here)
}

fn said<'a>(v: &'a Json, path: &[&str]) -> &'a str {
    at(v, path).and_then(|x| x.as_str()).expect("a text")
}

fn now() -> Timestamp {
    Timestamp { secs: 1_700_000_000, nanos: 0 }
}

fn pidfile() -> PidFile {
    PidFile {
        pid: 12,
        admin_bind: "127.0.0.1:7777".to_string(),
        wire_bind: None,
        version: "0.4.0".to_string(),
        started_at: now(),
        db_path: "/data/ctxd.db".to_string(),
    }
}

fn line(e: Emission) -> Json {
    match e {
        Emission::Line(v) => v,
        other => panic!("expected a line, got {other:?}"),
    }
}

// Capabilities.

#[test]
fn slugs_are_kebab_case() {
    assert_eq!(ClientId::ClaudeDesktop.slug(), hyphens("claude_desktop"));
    assert_eq!(ClientId::ClaudeCode.slug(), hyphens("claude_code"));
    assert_eq!(ClientId::Codex.slug(), "codex");
    assert_eq!(ClientId::GmailAdapter.slug(), "gmail-adapter");
    assert_eq!(ClientId::GithubAdapter.slug(), "github-adapter");
    assert_eq!(ClientId::FsAdapter.slug(), "fs-adapter");
}

#[test]
fn strict_clients_drop_write_and_subjects() {
    for c in [ClientId::ClaudeDesktop, ClientId::ClaudeCode, ClientId::Codex] {
        let strict = c.default_operations(true);
        let normal = c.default_operations(false);
        assert!(strict.contains(&Operation::Read));
        assert!(strict.contains(&Operation::Search));
        assert!(!strict.contains(&Operation::Write), "strict {c:?} must NOT have Write");
        assert!(!strict.contains(&Operation::Subjects), "strict {c:?} must NOT have Subjects");
        assert!(normal.contains(&Operation::Write));
        assert!(normal.contains(&Operation::Subjects));
    }
}

#[test]
fn adapters_have_write_only() {
    for a in [ClientId::GmailAdapter, ClientId::GithubAdapter, ClientId::FsAdapter] {
        let ops = a.default_operations(false);
        assert_eq!(ops, vec![Operation::Write]);
        assert!(a.default_scope(false).starts_with("/me/"));
        assert!(a.default_scope(false).len() > "/me/**".len());
    }
}

#[test]
fn read_cap_file_trims_trailing_newline() {
    assert_eq!(cap_token("abc\n"), "abc");
}

#[test]
fn mint_and_verify_round_trips_with_explicit_path() {
    let engine = CapEngine::new();
    let token = engine
        .mint(
            ClientId::ClaudeDesktop.default_scope(false),
            &ClientId::ClaudeDesktop.default_operations(false),
            None,
            None,
            None,
        )
        .unwrap();
    let b64 = CapEngine::token_to_base64(&token);
    let read = cap_token(&format!("{b64}\n"));
    let bytes = CapEngine::token_from_base64(&read).unwrap();
    settled(|| engine.verify(&bytes, "/me/**", Operation::Read, None)).unwrap();
    settled(|| engine.verify(&bytes, "/me/**", Operation::Write, None)).unwrap();
}

#[test]
fn strict_token_rejects_write() {
    let engine = CapEngine::new();
    let token = engine
        .mint(
            ClientId::ClaudeCode.default_scope(true),
            &ClientId::ClaudeCode.default_operations(true),
            None,
            None,
            None,
        )
        .unwrap();
    settled(|| engine.verify(&token, "/me/**", Operation::Read, None))
        .expect("strict token should grant Read");
    settled(|| engine.verify(&token, "/me/**", Operation::Write, None))
        .expect_err("strict token must NOT grant Write");
}

#[test]
fn persisted_tokens_are_judged() {
    let engine = CapEngine::new();
    let b64 = mint_for_client(&engine, ClientId::Codex, false).unwrap();
    let mut good = verify_persisted(&engine, ClientId::Codex, "/caps", CapFile::Contents(b64.clone()));
    for _ in 0..400 {
        if good.verifies_default_op {
            break;
        }
        good = verify_persisted(&engine, ClientId::Codex, "/caps", CapFile::Contents(b64.clone()));
    }
    assert!(good.present && good.decodes && good.verifies_default_op && good.error.is_none());
    assert_eq!(good.path, cap_file_path("/caps", ClientId::Codex));
    assert_eq!(good.path, "/caps/codex.bk");
    let missing = verify_persisted(&engine, ClientId::Codex, "/caps", CapFile::Missing);
    assert!(!missing.present && !missing.decodes && !missing.verifies_default_op);
    let garbled = verify_persisted(
        &engine,
        ClientId::Codex,
        "/caps",
        CapFile::Contents("***".to_string()),
    );
    assert!(garbled.present && !garbled.decodes && garbled.error.is_some());
    let foreign = verify_persisted(
        &CapEngine::new(),
        ClientId::Codex,
        "/caps",
        CapFile::Contents(b64),
    );
    assert!(foreign.present && foreign.decodes && !foreign.verifies_default_op);
    let unread = verify_persisted(
        &engine,
        ClientId::Codex,
        "/caps",
        CapFile::Unreadable("denied".to_string()),
    );
    assert!(!unread.verifies_default_op && unread.error.is_some());
}

// Client configuration.

fn client_spec(with_hooks: bool) -> ClientSpec {
    ClientSpec {
        binary: "/opt/ctxd".to_string(),
        db_path: "/data/ctxd.db".to_string(),
        with_hooks,
    }
}

fn entry(command: &str) -> Json {
    object(vec![("command", Json::text(command))])
}

#[test]
fn upsert_creates_entry_when_config_is_empty() {
    let e = || object(vec![("command", Json::text("ctxd")), ("args", Json::Array(vec![]))]);
    let (cfg, action) = upsert_mcp_entry(object(vec![]), e());
    assert_eq!(action, ApplyAction::EntryAdded);
    assert!(json::same(at(&cfg, &["mcpServers", "ctxd"]).unwrap(), &e()));
}

#[test]
fn upsert_preserves_other_servers() {
    let cfg = object(vec![(
        "mcpServers",
        object(vec![("filesystem", entry("/usr/bin/something"))]),
    )]);
    let (cfg, _) = upsert_mcp_entry(cfg, entry("ctxd"));
    assert!(matches!(at(&cfg, &["mcpServers", "filesystem"]), Some(Json::Object(_))));
    assert!(json::same(at(&cfg, &["mcpServers", "ctxd"]).unwrap(), &entry("ctxd")));
}

#[test]
fn upsert_is_idempotent_when_entry_matches() {
    let e = || {
        object(vec![
            ("command", Json::text("ctxd")),
            ("args", Json::texts(&texts(&["serve"]))),
        ])
    };
    let cfg = object(vec![("mcpServers", object(vec![("ctxd", e())]))]);
    let (_, action) = upsert_mcp_entry(cfg, e());
    assert_eq!(action, ApplyAction::Unchanged);
}

#[test]
fn upsert_updates_when_entry_differs() {
    let cfg = object(vec![("mcpServers", object(vec![("ctxd", entry("/old/path"))]))]);
    let (cfg, action) = upsert_mcp_entry(cfg, entry("/new/path"));
    assert_eq!(action, ApplyAction::EntryUpdated);
    assert_eq!(said(&cfg, &["mcpServers", "ctxd", "command"]), "/new/path");
}

#[test]
fn build_mcp_args_uses_cap_file_not_inline_token() {
    let cap = "/caps/codex.bk";
    let args = build_mcp_args(&client_spec(false), cap);
    assert!(args.contains(&"--cap-file".to_string()), "{args:?}");
    assert!(args.iter().any(|a| a == cap), "{args:?}");
    assert!(!args.contains(&"--cap".to_string()), "{args:?}");
}

#[test]
fn render_codex_snippet_is_pasteable_toml() {
    let s = render_codex_snippet(&client_spec(false), "/caps/codex.bk");
    assert!(s.contains("[mcp_servers.ctxd]"));
    assert!(s.contains("command = "));
    assert!(s.contains("args = ["));
    assert!(s.contains("--cap-file"));
    let parsed: toml::Table = toml::from_str(&s).expect("valid TOML");
    let server = parsed["mcp_servers"]["ctxd"].as_table().expect("a table");
    assert_eq!(server["command"].as_str(), Some("/opt/ctxd"));
}

#[test]
fn install_hooks_writes_four_events() {
    let cfg =
        install_claude_code_hooks(object(vec![]), &client_spec(true), "/caps/x.bk").unwrap();
    for event in ["SessionStart", "UserPromptSubmit", "PreCompact", "Stop"] {
        assert!(matches!(at(&cfg, &["hooks", event]), Some(Json::Array(_))), "{event}");
    }
    let groups = at(&cfg, &["hooks", "SessionStart"]).and_then(|v| v.as_array()).unwrap();
    let hooks = groups[0].get("hooks").and_then(|v| v.as_array()).unwrap();
    let cmd = said(&hooks[0], &["command"]);
    assert!(cmd.contains("hook"));
    assert!(cmd.contains("session-start"));
    assert_eq!(event_slug("SessionStart"), "session-start");
}

#[test]
fn applying_twice_changes_nothing() {
    let spec = client_spec(false);
    let (written, action) = apply_mcp_entry(None, &spec, "/caps/a.bk");
    assert_eq!(action, ApplyAction::Created);
    let config = match written {
        NewContents::Config(v) => v,
        _ => panic!("a new config is written"),
    };
    assert!(verify_mcp_entry(Some(&config), &spec, "/caps/a.bk"));
    assert!(!verify_mcp_entry(Some(&config), &spec, "/caps/b.bk"));
    assert!(!verify_mcp_entry(None, &spec, "/caps/a.bk"));
    let (again, action) = apply_mcp_entry(Some(config), &spec, "/caps/a.bk");
    assert_eq!(action, ApplyAction::Unchanged);
    assert!(matches!(again, NewContents::Keep));
    let e = build_mcp_entry(&spec, "/caps/a.bk");
    assert_eq!(said(&e, &["command"]), "/opt/ctxd");
}

#[test]
fn codex_is_left_to_the_user() {
    let (contents, action) = Codex.apply(None, &client_spec(false), "/caps/codex.bk").unwrap();
    assert_eq!(action, ApplyAction::ManualPending);
    assert!(matches!(contents, NewContents::Snippet(s) if s.contains("[mcp_servers.ctxd]")));
    assert!(!Codex.detect(true));
    assert!(Codex.verify(Some(&object(vec![])), &client_spec(false), "/caps/codex.bk"));
    assert!(!Codex.verify(None, &client_spec(false), "/caps/codex.bk"));
    assert_eq!(
        configured_clients(),
        vec![ClientId::ClaudeDesktop, ClientId::ClaudeCode, ClientId::Codex]
    );
}

#[test]
fn hooks_are_written_beside_an_entry_that_is_there() {
    let plain = client_spec(false);
    let (contents, action) = ClaudeCode.apply(None, &plain, "/caps/a.bk").unwrap();
    assert_eq!(action, ApplyAction::Created);
    let config = match contents {
        NewContents::Config(v) => v,
        _ => panic!("a new config is written"),
    };
    assert!(at(&config, &["hooks"]).is_none());
    let (contents, action) = ClaudeCode.apply(Some(config), &client_spec(true), "/caps/a.bk").unwrap();
    assert_eq!(action, ApplyAction::EntryUpdated);
    let config = match contents {
        NewContents::Config(v) => v,
        _ => panic!("the hooks are written"),
    };
    for event in ["SessionStart", "UserPromptSubmit", "PreCompact", "Stop"] {
        assert!(matches!(at(&config, &["hooks", event]), Some(Json::Array(_))), "{event}");
    }
    assert!(ClaudeCode.verify(Some(&config), &plain, "/caps/a.bk"));
}

#[test]
fn every_client_is_configured_in_order() {
    let spec = client_spec(true);
    let broken = Err("not JSON".to_string());
    let mut applied = apply_all(&spec, "/caps", broken, Ok(Some(object(vec![])))).into_iter();
    let (client, outcome) = applied.next().unwrap();
    assert_eq!(client, ClientId::ClaudeDesktop);
    assert_eq!(outcome.err().unwrap(), "not JSON");
    let (client, outcome) = applied.next().unwrap();
    assert_eq!(client, ClientId::ClaudeCode);
    let (contents, action) = outcome.ok().unwrap();
    assert_eq!(action, ApplyAction::EntryAdded);
    let config = match contents {
        NewContents::Config(v) => v,
        _ => panic!("a new config is written"),
    };
    let cap_file = cap_file_path("/caps", ClientId::ClaudeCode);
    assert!(ClaudeCode.verify(Some(&config), &spec, &cap_file));
    assert!(!ClaudeDesktop.verify(Some(&config), &spec, "/caps/other.bk"));
    assert!(at(&config, &["hooks", "Stop"]).is_some());
    let (kept, action) = ClaudeCode.apply(Some(config), &spec, &cap_file).unwrap();
    assert_eq!(action, ApplyAction::Unchanged);
    assert!(matches!(kept, NewContents::Keep));
    let (client, outcome) = applied.next().unwrap();
    assert_eq!(client, ClientId::Codex);
    assert_eq!(outcome.ok().unwrap().1, ApplyAction::ManualPending);
    assert!(applied.next().is_none());
    assert!(ClaudeDesktop.detect(true) && !ClaudeDesktop.detect(false));
    assert_eq!(ClaudeDesktop.client_id(), ClientId::ClaudeDesktop);
    assert_eq!(config_temp_path("/home/me/c.json", 7), "/home/me/.ctxd-client-7.tmp");
}

// Messages.

#[test]
fn protocol_version_is_one() {
    assert_eq!(PROTOCOL_VERSION, 1);
}

#[test]
fn step_started_serialises_with_protocol_field() {
    let v = SkillMessage::Step {
        protocol: PROTOCOL_VERSION,
        step: StepName::ServiceInstall,
        status: StepStatus::Started,
        detail: Json::Null,
    }
    .into_json();
    assert_eq!(said(&v, &["kind"]), "step");
    assert!(matches!(v.get("protocol"), Some(Json::Unsigned(1))));
    assert_eq!(said(&v, &["step"]), "service-install");
    assert_eq!(said(&v, &["status"]), "started");
    assert!(v.get("detail").is_none());
}

#[test]
fn step_ok_includes_detail() {
    let slug = hyphens("claude_desktop");
    let v = SkillMessage::Step {
        protocol: PROTOCOL_VERSION,
        step: StepName::ConfigureClients,
        status: StepStatus::Succeeded,
        detail: object(vec![(
            "clients",
            object(vec![(slug.as_str(), Json::text("configured"))]),
        )]),
    }
    .into_json();
    assert_eq!(said(&v, &["status"]), "ok");
    assert_eq!(said(&v, &["detail", "clients", &slug]), "configured");
}

#[test]
fn notice_omits_optional_fields_when_unset() {
    let v = SkillMessage::Notice {
        protocol: PROTOCOL_VERSION,
        id: "info".to_string(),
        message: "hi".to_string(),
        action_url: None,
        action_code: None,
        expires_at: None,
    }
    .into_json();
    assert_eq!(said(&v, &["kind"]), "notice");
    assert!(v.get("action_url").is_none(), "action_url should be omitted");
    assert!(v.get("action_code").is_none(), "action_code should be omitted");
    assert!(v.get("expires_at").is_none(), "expires_at should be omitted");
}

#[test]
fn notices_carry_their_action() {
    let e = Emitter::new(OutputMode::Skill);
    let v = line(e.notice_with_action(
        "gmail-oauth",
        "visit the URL and enter the code",
        "https://google.com/device",
        "ABCD-EFGH",
        Some(now()),
    ));
    assert_eq!(said(&v, &["id"]), "gmail-oauth");
    assert_eq!(said(&v, &["action_url"]), "https://google.com/device");
    assert_eq!(said(&v, &["action_code"]), "ABCD-EFGH");
    assert_eq!(said(&v, &["expires_at"]), "2023-11-14T22:13:20Z");
}

#[test]
fn done_includes_outcome() {
    let slug = hyphens("claude_desktop");
    let v = SkillMessage::Done {
        protocol: PROTOCOL_VERSION,
        outcome: Outcome {
            onboarded: true,
            clients_configured: vec![slug.clone()],
            adapters_enabled: texts(&["fs"]),
            doctor: DoctorSummary { total: 8, ok: 8, warnings: 0, failed: 0 },
        },
    }
    .into_json();
    assert_eq!(said(&v, &["kind"]), "done");
    assert!(matches!(at(&v, &["outcome", "onboarded"]), Some(Json::Bool(true))));
    assert!(matches!(at(&v, &["outcome", "doctor", "ok"]), Some(Json::Unsigned(8))));
    let clients = at(&v, &["outcome", "clients_configured"]).and_then(|c| c.as_array()).unwrap();
    assert_eq!(clients[0].as_str().unwrap(), &slug);
}

#[test]
fn error_omits_remediation_when_unset() {
    let v = SkillMessage::Error {
        protocol: PROTOCOL_VERSION,
        step: StepName::ServiceStart,
        message: "port in use".to_string(),
        remediation: None,
    }
    .into_json();
    assert_eq!(said(&v, &["kind"]), "error");
    assert_eq!(said(&v, &["step"]), "service-start");
    assert!(v.get("remediation").is_none());
}

#[test]
fn step_slugs_are_kebab_case_and_stable() {
    assert_eq!(StepName::Snapshot.slug(), "snapshot");
    assert_eq!(StepName::ServiceInstall.slug(), "service-install");
    assert_eq!(StepName::ServiceStart.slug(), "service-start");
    assert_eq!(StepName::ConfigureClients.slug(), "configure-clients");
    assert_eq!(StepName::MintCapabilities.slug(), "mint-capabilities");
    assert_eq!(StepName::SeedSubjects.slug(), "seed-subjects");
    assert_eq!(StepName::ConfigureAdapters.slug(), "configure-adapters");
    assert_eq!(StepName::Doctor.slug(), "doctor");
}

#[test]
fn null_emitter_is_silent() {
    let e = Emitter::new(OutputMode::Null);
    let all = vec![
        e.step_started(StepName::Snapshot),
        e.step_ok(StepName::Snapshot, object(vec![])),
        e.step_skipped(StepName::Snapshot, "not needed"),
        e.step_manual_pending(StepName::ConfigureClients, "paste this"),
        e.step_failed(StepName::ServiceStart),
        e.notice("id", "hi"),
        e.notice_with_action("id", "msg", "https://x", "CODE", None),
        e.log(LogLevel::Info, "log line"),
        e.error(StepName::ServiceStart, "boom", Some("retry".to_string())),
        e.done(Outcome {
            onboarded: false,
            clients_configured: vec![],
            adapters_enabled: vec![],
            doctor: DoctorSummary::default(),
        }),
    ];
    for emission in all {
        assert!(matches!(emission, Emission::Silence));
    }
}

#[test]
fn people_get_lines() {
    let (out, err) = protocol::render_human(&SkillMessage::Error {
        protocol: PROTOCOL_VERSION,
        step: StepName::ServiceStart,
        message: "boom".to_string(),
        remediation: Some("retry".to_string()),
    });
    assert!(out.is_empty() || err.is_empty());
    let all = format!("{out}{err}");
    assert!(all.contains("boom") && all.contains("retry"), "{all}");
    let e = Emitter::new(OutputMode::Human);
    match e.step_started(StepName::Doctor) {
        Emission::Lines(out, err) => assert!(format!("{out}{err}").contains("doctor")),
        other => panic!("expected lines, got {other:?}"),
    }
}

// Paths.

fn surroundings(platform: Platform) -> Surroundings {
    Surroundings {
        platform,
        data_override: None,
        config_override: None,
        home: Some("/home/me".to_string()),
        user_profile: None,
        app_data: None,
        project: Some(ProjectPaths {
            data: "/home/me/.local/share/ctxd".to_string(),
            config: "/home/me/.config/ctxd".to_string(),
            state: Some("/home/me/.local/state/ctxd".to_string()),
        }),
    }
}

#[test]
fn paths_resolve_under_home() {
    for platform in [Platform::Linux, Platform::MacOs] {
        let s = surroundings(platform);
        assert!(!s.data_dir().unwrap().is_empty());
        assert!(!s.config_dir().unwrap().is_empty());
        assert!(!s.log_dir().unwrap().is_empty());
        assert!(s.default_db_path().unwrap().contains('/'));
        assert!(s.caps_dir().unwrap().ends_with("/caps"));
        assert!(s.adapter_tokens_dir().unwrap().ends_with("/adapter-tokens"));
        assert!(s.snapshots_dir().unwrap().ends_with("/onboard-snapshots"));
        assert!(s.claude_desktop_config().unwrap().ends_with("/claude_desktop_config.json"));
        assert!(s.claude_code_config().unwrap().ends_with("/settings.json"));
    }
}

#[test]
fn default_db_path_is_under_data_dir() {
    let s = surroundings(Platform::Linux);
    let db = s.default_db_path().unwrap();
    let data = s.data_dir().unwrap();
    assert!(std::path::Path::new(&db).starts_with(&data), "{db:?} should be under {data:?}");
    assert_eq!(path::file_name(&db).unwrap(), "ctxd.db");
}

#[test]
fn macos_data_dir_matches_homebrew_canonical() {
    let p = surroundings(Platform::MacOs).data_dir().unwrap();
    assert!(p.ends_with("Library/Application Support/ctxd"), "got {p:?}");
}

#[test]
fn service_label_uses_reverse_dns() {
    assert!(SERVICE_LABEL.starts_with("dev.ctxd"));
}

#[test]
fn directories_can_be_overridden() {
    let mut s = surroundings(Platform::Linux);
    s.data_override = Some("/elsewhere".to_string());
    assert_eq!(s.data_dir().unwrap(), "/elsewhere");
    assert_eq!(s.default_db_path().unwrap(), "/elsewhere/ctxd.db");
    let mut homeless = surroundings(Platform::Linux);
    homeless.home = None;
    homeless.project = None;
    assert!(homeless.data_dir().is_err());
}

#[test]
fn logs_have_a_directory_of_their_own() {
    let mut s = surroundings(Platform::Linux);
    assert_eq!(s.log_dir().unwrap(), "/home/me/.local/state/ctxd/logs");
    s.project = Some(ProjectPaths {
        data: "/d".to_string(),
        config: "/c".to_string(),
        state: Some("/s/ctxd".to_string()),
    });
    assert_eq!(s.log_dir().unwrap(), "/s/ctxd/logs");
    assert_eq!(surroundings(Platform::MacOs).log_dir().unwrap(), "/home/me/Library/Logs/ctxd");
    let mut w = surroundings(Platform::Windows);
    assert_eq!(w.log_dir().unwrap_err(), "%APPDATA% not set");
    w.app_data = Some("/roaming".to_string());
    assert_eq!(w.log_dir().unwrap(), "/roaming/ctxd/logs");
    assert_eq!(w.data_dir().unwrap(), "/roaming/ctxd/data");
    assert_eq!(w.config_dir().unwrap(), "/roaming/ctxd/config");
    assert!(w.claude_code_config().unwrap().starts_with("/roaming/"));
}

// Seeds.

fn facts() -> ProfileFacts {
    ProfileFacts {
        hostname: Some("box".to_string()),
        os: "linux".to_string(),
        arch: "x86_64".to_string(),
        git_user_name: None,
        git_user_email: Some("me@example.org".to_string()),
        now: now(),
    }
}

#[test]
fn profile_payload_has_required_keys() {
    let v = profile_payload(&facts());
    assert!(v.get("hostname").is_some());
    assert!(v.get("platform").is_some());
    assert!(v.get("onboarded_at").is_some());
    assert!(said(&v, &["platform"]).contains("linux"));
}

#[test]
fn preferences_payload_has_hint_and_text() {
    let v = preferences_payload();
    assert_eq!(said(&v, &["hint"]), "preferences-empty");
    assert!(said(&v, &["text"]).contains("AI"));
}

#[test]
fn about_payload_has_welcome_hint() {
    assert_eq!(said(&about_payload(), &["hint"]), "welcome");
}

#[test]
fn seed_writes_three_subjects_on_empty_store() {
    let (events, report) =
        seed(Seeded { profile: false, preferences: false, about: false }, &facts());
    assert_eq!(report.created, texts(&["/me/profile", "/me/preferences", "/me/about"]));
    assert!(report.skipped.is_empty());
    assert_eq!(events.len(), 3);
    assert_eq!(SEED_SOURCE, "ctxd://onboard");
}

#[test]
fn seed_is_idempotent() {
    let (events, report) =
        seed(Seeded { profile: true, preferences: true, about: true }, &facts());
    assert!(events.is_empty() && report.created.is_empty());
    assert_eq!(report.skipped.len(), 3);
}

#[test]
fn seed_force_writes_a_second_event() {
    let (events, report) = seed_force(&facts());
    assert_eq!(events.len(), 3);
    assert_eq!(report.created.len(), 3);
    assert!(events.iter().any(|e| e.subject == "/me/profile"));
}

#[test]
fn host_and_git_values_are_read() {
    assert_eq!(
        choose_hostname(Some("env".to_string()), Some("sys".to_string())),
        Some("env".to_string())
    );
    assert_eq!(choose_hostname(None, Some("sys".to_string())), Some("sys".to_string()));
    assert_eq!(choose_hostname(None, None), None);
    assert_eq!(git_value(true, "Ada\n"), Some("Ada".to_string()));
    assert_eq!(git_value(true, "\n"), None);
    assert_eq!(git_value(false, "Ada\n"), None);
}

// Skills.

#[test]
fn spawn_from_manifest_with_no_fs_paths_returns_zero_handles() {
    let m = SkillsToml {
        fs: Some(FsSkill { enabled: true, paths: vec![] }),
        gmail: None,
        github: None,
    };
    assert!(spawn_from_manifest(&m).is_empty(), "no paths, no handles");
}

#[test]
fn spawn_from_manifest_with_disabled_fs_returns_zero_handles() {
    let m = SkillsToml {
        fs: Some(FsSkill { enabled: false, paths: texts(&["/tmp/x"]) }),
        gmail: None,
        github: None,
    };
    assert!(spawn_from_manifest(&m).is_empty(), "disabled, no handles");
}

#[test]
fn spawn_from_manifest_with_enabled_fs_spawns_one_handle_per_path() {
    let m = SkillsToml {
        fs: Some(FsSkill { enabled: true, paths: texts(&["/a", "/b"]) }),
        gmail: None,
        github: None,
    };
    assert_eq!(spawn_from_manifest(&m), texts(&["/a", "/b"]));
    assert_eq!(spawn_from_manifest(&manifest_for(&texts(&["/c"]))), texts(&["/c"]));
}

#[test]
fn empty_manifest_is_default() {
    let m = SkillsToml::default();
    assert!(m.fs.is_none() && m.gmail.is_none() && m.github.is_none());
}

// Snapshots.

fn config_snapshot(existed: bool, contents: Option<&[u8]>) -> ClientConfigSnapshot {
    ClientConfigSnapshot {
        client: "test".to_string(),
        path: "/c.json".to_string(),
        existed,
        contents: contents.map(|b| b.to_vec()),
    }
}

#[test]
fn capture_returns_a_v1_snapshot_with_db_path() {
    let snap = capture(
        "/data/ctxd.db",
        DaemonState::NotRunning,
        ClientFile { path: "/d.json".to_string(), read: FileRead::Missing },
        ClientFile { path: "/c.json".to_string(), read: FileRead::Found(b"{}".to_vec()) },
        now(),
    );
    assert_eq!(snap.version, 1);
    assert_eq!(snap.db_path, "/data/ctxd.db");
    assert!(snap.running_daemon.is_none());
    assert_eq!(snap.client_configs.len(), 2);
    assert!(!snap.client_configs[0].existed && snap.client_configs[1].existed);
    let running = capture(
        "/data/ctxd.db",
        DaemonState::Running(pidfile()),
        ClientFile { path: "/d.json".to_string(), read: FileRead::Missing },
        ClientFile { path: "/c.json".to_string(), read: FileRead::Missing },
        now(),
    );
    assert_eq!(running.running_daemon.map(|d| d.pid), Some(12));
}

#[test]
fn snapshot_one_records_existed_when_file_present() {
    let s = snapshot_one("test", "/c.json", FileRead::Found(b"hello".to_vec()));
    assert!(s.existed);
    assert_eq!(s.contents.as_deref(), Some(&b"hello"[..]));
}

#[test]
fn snapshot_one_records_missing_when_file_absent() {
    let s = snapshot_one("test", "/nope.json", FileRead::Missing);
    assert!(!s.existed);
    assert!(s.contents.is_none());
}

#[test]
fn a_file_that_could_not_be_read_is_left() {
    let s = snapshot_one("test", "/locked.json", FileRead::Failed);
    assert!(s.existed && s.contents.is_none());
    assert!(matches!(restore_action(&s), RestoreAction::Leave));
    let mut report = RestoreReport::default();
    report.note(&s, RestoreOutcome::Left);
    assert_eq!(report.skipped, texts(&["test"]));
}

#[test]
fn restore_writes_back_existing_contents() {
    let config = config_snapshot(true, Some(b"original"));
    assert!(matches!(restore_action(&config), RestoreAction::WriteBack));
    let mut report = RestoreReport::default();
    report.note(&config, RestoreOutcome::Written);
    assert_eq!(report.restored, texts(&["test"]));
    assert!(report.skipped.is_empty());
}

#[test]
fn restore_removes_files_that_didnt_exist_before() {
    let config = config_snapshot(false, None);
    assert!(matches!(restore_action(&config), RestoreAction::Remove));
    let mut report = RestoreReport::default();
    report.note(&config, RestoreOutcome::Removed);
    assert_eq!(report.restored, texts(&["test"]));
}

#[test]
fn restore_is_noop_when_target_already_matches_pre_state() {
    let config = config_snapshot(false, None);
    let mut report = RestoreReport::default();
    report.note(&config, RestoreOutcome::AlreadyGone);
    assert_eq!(report.skipped, texts(&["test"]));
    assert!(report.restored.is_empty());
}

#[test]
fn the_latest_snapshot_has_the_greatest_name() {
    let early = snapshot_path("/s", Timestamp { secs: 1_600_000_000, nanos: 0 }).unwrap();
    let late = snapshot_path("/s", now()).unwrap();
    assert_eq!(late, "/s/2023-11-14T22-13-20Z.json");
    assert_eq!(latest_snapshot(&[late.clone(), early.clone()]), Some(0));
    assert_eq!(latest_snapshot(&[early, late]), Some(1));
    assert_eq!(latest_snapshot(&[]), None);
}

// The doctor.

fn probes() -> Probes {
    Probes {
        daemon: DaemonState::NotRunning,
        storage: StorageProbe::Missing,
        events: EventProbe::Missing,
        service: ServiceProbe::Unsupported,
        now: now(),
    }
}

#[test]
fn doctor_run_returns_all_known_checks() {
    let checks = run("/data/ctxd.db", &probes());
    let names: Vec<&str> = checks.iter().map(|c| c.name.as_str()).collect();
    let desktop = hyphens("claude_desktop_config");
    let code = hyphens("claude_code_config");
    assert_eq!(
        names,
        vec![
            "daemon-running",
            "storage-healthy",
            "events-present",
            "service-installed",
            &desktop,
            &code,
            "codex-config",
            "caps-valid",
            "adapters",
        ]
    );
}

#[test]
fn fresh_install_doctor_failures_carry_remediations() {
    let checks = run("/data/ctxd.db", &probes());
    for c in &checks {
        if c.status == CheckStatus::Failed {
            assert!(c.remediation.is_some(), "failed check `{}` has no remediation", c.name);
        }
    }
    let daemon = checks.iter().find(|c| c.name == "daemon-running").unwrap();
    assert_eq!(daemon.status, CheckStatus::Failed);
    assert!(Summary::from_checks(&checks).skipped >= 5);
}

#[test]
fn storage_healthy_passes_on_real_db() {
    let check = check_storage_healthy("/data/ctxd.db", &StorageProbe::Opened);
    assert_eq!(check.status, CheckStatus::Passed);
    let broken =
        check_storage_healthy("/data/ctxd.db", &StorageProbe::Failed("locked".to_string()));
    assert_eq!(broken.status, CheckStatus::Failed);
}

#[test]
fn events_present_warns_on_empty_db() {
    assert_eq!(check_events_present(&EventProbe::Counted(0)).status, CheckStatus::Warn);
    assert_eq!(check_events_present(&EventProbe::Counted(3)).status, CheckStatus::Passed);
}

fn check(name: &str, status: CheckStatus) -> Check {
    Check { name: name.to_string(), status, remediation: None, detail: Json::Null }
}

#[test]
fn summary_rolls_up_correctly() {
    let checks = vec![
        check("a", CheckStatus::Passed),
        check("b", CheckStatus::Failed),
        check("c", CheckStatus::Skipped),
        check("d", CheckStatus::Warn),
    ];
    let s = Summary::from_checks(&checks);
    assert_eq!(s.total, 4);
    assert_eq!(s.ok, 1);
    assert_eq!(s.warnings, 1);
    assert_eq!(s.failed, 1);
    assert_eq!(s.skipped, 1);
    assert!(!s.all_ok());
}

#[test]
fn all_ok_tolerates_warn_and_skip() {
    let s = Summary { total: 3, ok: 1, warnings: 1, failed: 0, skipped: 1 };
    assert!(s.all_ok());
}

#[test]
fn check_serialises_with_kebab_case_status() {
    let v = check("x", CheckStatus::Passed).into_json();
    assert_eq!(said(&v, &["status"]), "ok");
    assert!(v.get("remediation").is_none());
    assert!(v.get("detail").is_none());
}

#[test]
fn a_running_daemon_passes() {
    let check = check_daemon_running(
        &DaemonState::Running(pidfile()),
        Timestamp { secs: 1_700_000_060, nanos: 0 },
    );
    assert_eq!(check.status, CheckStatus::Passed);
    assert_eq!(
        check_daemon_running(&DaemonState::Stale(pidfile()), now()).status,
        CheckStatus::Warn
    );
}

#[test]
fn services_are_diagnosed() {
    let answered = |status| {
        check_service_installed(&ServiceProbe::Answered {
            backend: "launchd".to_string(),
            unit_path: "/u.plist".to_string(),
            status,
        })
        .status
    };
    assert_eq!(answered(Ok(ServiceStatus::Running { pid: Some(1) })), CheckStatus::Passed);
    assert_eq!(answered(Ok(ServiceStatus::NotInstalled)), CheckStatus::Warn);
    assert_eq!(answered(Ok(ServiceStatus::Stopped)), CheckStatus::Warn);
    assert_eq!(answered(Err("broken".to_string())), CheckStatus::Warn);
    assert_eq!(
        check_service_installed(&ServiceProbe::NoBackend("no home".to_string())).status,
        CheckStatus::Warn
    );
    assert_eq!(
        check_service_installed(&ServiceProbe::Unsupported).status,
        CheckStatus::Skipped
    );
}

#[test]
fn doctor_reports() {
    let checks = vec![check("a", CheckStatus::Passed), check("b", CheckStatus::Failed)];
    let (text, ok) = doctor::render_human(&checks, &texts(&["", ""]));
    assert!(!ok);
    assert!(text.contains('a') && text.contains('b'));
    let v = report_json(checks);
    assert!(v.get("checks").and_then(|c| c.as_array()).map(|c| c.len()) == Some(2));
}

// The pipeline.

fn cfg() -> PipelineConfig {
    PipelineConfig {
        mode: OutputMode::Null,
        headless: true,
        dry_run: false,
        skip_adapters: true,
        skip_service: true,
        at_login: false,
        strict_scopes: false,
        with_hooks: false,
        gmail: AdapterChoice::Skip,
        github: AdapterChoice::Skip,
        fs: vec![],
        only: None,
        db_path: "/data/ctxd.db".to_string(),
        bind: "127.0.0.1:0".to_string(),
        wire_bind: "127.0.0.1:0".to_string(),
    }
}

#[test]
fn skip_service_skips_install_and_start() {
    let c = cfg();
    assert!(matches!(plan_step(&c, StepName::ServiceInstall, true), StepPlan::Skip(_)));
    assert!(matches!(plan_step(&c, StepName::ServiceStart, true), StepPlan::Skip(_)));
    let checks = run(&c.db_path, &probes());
    let doctor = Summary::from_checks(&checks).for_outcome();
    let statuses = [StepStatus::Skipped, ctxd::onboard::pipeline::doctor_status(&doctor)];
    let outcome = finish(&statuses, &[], vec![], doctor);
    assert!(!outcome.onboarded);
    assert!(outcome.doctor.total >= 9);
}

#[test]
fn pipeline_dry_run_makes_no_mutations() {
    let mut c = cfg();
    c.dry_run = true;
    c.skip_service = false;
    for step in steps() {
        let plan = plan_step(&c, step, true);
        if step == StepName::Doctor {
            assert!(matches!(plan, StepPlan::Run));
        } else {
            assert!(matches!(plan, StepPlan::Skip(_)), "{step:?}");
        }
    }
}

#[test]
fn only_filter_runs_subset() {
    let mut c = cfg();
    c.only = Some(vec![StepName::Snapshot, StepName::Doctor]);
    for step in steps() {
        let listed = step == StepName::Snapshot || step == StepName::Doctor;
        assert_eq!(c.includes(step), listed);
        assert_eq!(matches!(plan_step(&c, step, true), StepPlan::Absent), !listed);
    }
}

#[test]
fn skipped_steps_are_told_and_absent_ones_are_not() {
    let e = Emitter::new(OutputMode::Skill);
    assert!(open_step(&e, StepName::Snapshot, StepPlan::Absent).is_empty());
    let mut skipped = open_step(&e, StepName::Snapshot, StepPlan::Skip("dry-run"));
    let last = line(skipped.pop().expect("a message"));
    assert_eq!(said(&last, &["status"]), "skipped");
    let mut run = open_step(&e, StepName::Snapshot, StepPlan::Run);
    assert_eq!(said(&line(run.pop().expect("a message")), &["status"]), "started");
}

#[test]
fn offboard_dry_run_does_not_touch_disk() {
    let mut c = cfg();
    c.dry_run = true;
    let plan = plan_offboard(&c, true, true);
    assert!(plan.purge.is_empty() && !plan.restore_configs && !plan.remove_caps);
    assert!(!matches!(plan.service, StepPlan::Run));
}

#[test]
fn offboard_purge_removes_db_and_sidecars() {
    let plan = plan_offboard(&cfg(), true, true);
    for p in [
        "/data/ctxd.db",
        "/data/ctxd.db.hnsw.data",
        "/data/ctxd.db.hnsw.graph",
        "/data/ctxd.db.pid",
    ] {
        assert!(plan.purge.contains(&p.to_string()), "{p} in {:?}", plan.purge);
    }
    assert!(plan_offboard(&cfg(), false, true).purge.is_empty());
    assert!(purge_message("/data/ctxd.db").contains("/data/ctxd.db"));
    assert!(!offboarded().onboarded);
}

#[test]
fn the_service_is_waited_for() {
    match await_service(DaemonState::Running(pidfile()), 5) {
        StartWait::Ready { http_url, version } => {
            assert_eq!(http_url, "http://127.0.0.1:7777");
            assert_eq!(version, "0.4.0");
        }
        other => panic!("expected Ready, got {other:?}"),
    }
    assert!(matches!(await_service(DaemonState::NotRunning, 0), StartWait::Again));
    assert!(matches!(
        await_service(DaemonState::NotRunning, START_TIMEOUT_MS),
        StartWait::TimedOut
    ));
    assert!(start_timeout_message("launchd").contains("launchd"));
}

#[test]
fn the_service_runs_the_daemon_on_the_database() {
    let spec = service_spec(&cfg(), "/opt/ctxd", "/data", "/logs", SERVICE_LABEL);
    assert_eq!(spec.binary, "/opt/ctxd");
    assert!(spec.args.contains(&"/data/ctxd.db".to_string()));
    assert!(spec.args.contains(&"--bind".to_string()));
    assert_eq!(spec.label, SERVICE_LABEL);
}

#[test]
fn outcomes_follow_the_steps() {
    let clean = DoctorSummary { total: 9, ok: 9, warnings: 0, failed: 0 };
    let outcome = finish(
        &[StepStatus::Succeeded, StepStatus::Skipped],
        &[
            ClientOutcome { client: ClientId::Codex, action: Some(ApplyAction::ManualPending) },
            ClientOutcome { client: ClientId::ClaudeCode, action: Some(ApplyAction::Created) },
            ClientOutcome { client: ClientId::ClaudeDesktop, action: None },
        ],
        texts(&["fs"]),
        clean,
    );
    assert!(outcome.onboarded);
    assert!(outcome.clients_configured.contains(&hyphens("claude_code")));
    assert!(!outcome.clients_configured.contains(&hyphens("claude_desktop")));
    assert_eq!(outcome.adapters_enabled, texts(&["fs"]));
    assert!(!finish(&[StepStatus::Failed], &[], vec![], clean).onboarded);
    assert!(!finish(&[StepStatus::ManualPending], &[], vec![], clean).onboarded);
    let detail = clients_detail(&[ClientOutcome {
        client: ClientId::ClaudeCode,
        action: Some(ApplyAction::Created),
    }]);
    assert!(at(&detail, &["clients", &hyphens("claude_code")]).is_some());
}
