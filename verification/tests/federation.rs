//! The wire protocol's decisions, and federation between peers.

use ctxd::cap::engine::CapEngine;
use ctxd::cap::error::CapError;
use ctxd::cap::operation::Operation;
use ctxd::event::{Event, Peer, PeerCursor};
use ctxd::federation::backfill::{
    missing_parents, next_fetch, next_missing, plan_backfill, stall_error,
};
use ctxd::federation::handshake::{mint_for_peer, parse_welcome, Reply};
use ctxd::federation::manager::{
    any_covers, enrolled_from, find_peer, select_events, AppendOutcome, EnrolledPeer, PeerManager,
};
use ctxd::federation::policy::{
    check_frame_length, next_backoff, AutoAcceptPolicy, FederationError, MAX_FRAME,
};
use ctxd::federation::replay::{is_dialable, replay_order, replay_range, resume_point};
use ctxd::json;
use ctxd::json::Json;
use ctxd::protocol::{
    dispatch, handle_grant, parse_grant_operations, subject_matches_pattern, Request, Response,
    Step,
};
use ctxd::textmap::TextMap;
use ctxd::time::Timestamp;

fn settled<T>(mut call: impl FnMut() -> Result<T, CapError>) -> Result<T, CapError> {
    for _ in 0..400 {
        match call() {
            Err(CapError::Biscuit(biscuit_auth::error::Token::RunLimit(_))) => {}
            other => return other,
        }
    }
    call()
}

fn object(members: Vec<(&str, Json)>) -> Json {
    let mut map = TextMap::new();
    for (name, value) in members {
        map.insert(name, value);
    }
    Json::Object(map)
}

fn texts(v: &[&str]) -> Vec<String> {
    v.iter().map(|s| s.to_string()).collect()
}

fn event(id: &str, subject: &str, secs: i64, parents: &[&str]) -> Event {
    Event {
        id: id.to_string(),
        source: "test".to_string(),
        subject: subject.to_string(),
        event_type: "demo".to_string(),
        time: Timestamp { secs, nanos: 0 },
        data: Json::Null,
        parents: texts(parents),
        signature: None,
    }
}

#[test]
fn subject_pattern_matching() {
    assert!(subject_matches_pattern("/test/hello", "/**"));
    assert!(subject_matches_pattern("/test/hello", "/test/**"));
    assert!(subject_matches_pattern("/test/hello", "/test/*"));
    assert!(subject_matches_pattern("/test/hello", "/test/hello"));
    assert!(!subject_matches_pattern("/test/hello", "/other/**"));
    assert!(!subject_matches_pattern("/test/a/b", "/test/*"));
    assert!(subject_matches_pattern("/test/a/b", "/test/**"));
}

#[test]
fn wire_protocol_grant_returns_valid_base64_biscuit() {
    let engine = CapEngine::new();
    let reply = dispatch(
        &engine,
        Request::Grant {
            subject: "/**".to_string(),
            operations: texts(&["read", "write"]),
            expiry: None,
        },
        false,
    );
    let data = match reply {
        Step::Reply(Response::Data { data }) => data,
        other => panic!("expected data, got {other:?}"),
    };
    let token = data.get("token").and_then(|t| t.as_str()).expect("token");
    let bytes = CapEngine::token_from_base64(token).expect("base64");
    settled(|| engine.verify(&bytes, "/test", Operation::Read, None)).expect("verify");
}

#[test]
fn requests_are_dispatched_by_kind() {
    let engine = CapEngine::new();
    assert!(matches!(
        dispatch(&engine, Request::Ping, false),
        Step::Reply(Response::Pong)
    ));
    match dispatch(
        &engine,
        Request::Pub {
            subject: "/a".to_string(),
            event_type: "t".to_string(),
            data: Json::Bool(true),
        },
        false,
    ) {
        Step::Publish { subject, event_type, data } => {
            assert_eq!(subject, "/a");
            assert_eq!(event_type, "t");
            assert!(json::same(&data, &Json::Bool(true)));
        }
        other => panic!("expected Publish, got {other:?}"),
    }
    match dispatch(&engine, Request::Sub { subject_pattern: "/a/**".to_string() }, false) {
        Step::Stream { pattern } => assert_eq!(pattern, "/a/**"),
        other => panic!("expected Stream, got {other:?}"),
    }
    let query = |view: &str| {
        dispatch(
            &engine,
            Request::Query { subject_pattern: "/a".to_string(), view: view.to_string() },
            false,
        )
    };
    assert!(matches!(query("log"), Step::ReadLog { subject } if subject == "/a"));
    assert!(matches!(query("kv"), Step::ReadKey { key } if key == "/a"));
    assert!(matches!(query("fts"), Step::Search { text } if text == "/a"));
    assert!(matches!(query("nope"), Step::Reply(Response::Error { .. })));
}

#[test]
fn only_a_subscription_ends_the_exchange() {
    let engine = CapEngine::new();
    assert!(dispatch(&engine, Request::Ping, false).connection_continues());
    assert!(!dispatch(&engine, Request::Sub { subject_pattern: "/**".to_string() }, false)
        .connection_continues());
}

#[test]
fn peer_requests_need_federation() {
    let engine = CapEngine::new();
    let fetch = || Request::PeerFetchEvents { event_ids: texts(&["a"]) };
    assert!(matches!(
        dispatch(&engine, fetch(), false),
        Step::Reply(Response::Error { .. })
    ));
    match dispatch(&engine, fetch(), true) {
        Step::Fetch { event_ids } => assert_eq!(event_ids, texts(&["a"])),
        other => panic!("expected Fetch, got {other:?}"),
    }
    for reply_only in [Request::PeerWelcome, Request::PeerAck, Request::PeerCursor] {
        assert!(matches!(
            dispatch(&engine, reply_only, true),
            Step::Reply(Response::Error { .. })
        ));
    }
}

#[test]
fn grants_refuse_unknown_words() {
    let engine = CapEngine::new();
    assert!(parse_grant_operations(&texts(&["read", "fly"])).is_err());
    assert_eq!(
        parse_grant_operations(&texts(&["read", "search"])).unwrap(),
        vec![Operation::Read, Operation::Search]
    );
    match handle_grant(&engine, "/**", &texts(&["read"]), &Some("tomorrow".to_string())) {
        Response::Error { .. } => {}
        other => panic!("expected an error, got {other:?}"),
    }
    match handle_grant(&engine, "/**", &texts(&["read"]), &Some("2999-01-01T00:00:00Z".to_string()))
    {
        Response::Data { .. } => {}
        other => panic!("expected a token, got {other:?}"),
    }
}

#[test]
fn auto_accept_policy_parsing() {
    assert!(matches!(AutoAcceptPolicy::from_setting(None), AutoAcceptPolicy::Deny));
    assert!(matches!(AutoAcceptPolicy::from_setting(Some("true")), AutoAcceptPolicy::Any));
    match AutoAcceptPolicy::from_setting(Some("allowlist:abc,DEF")) {
        AutoAcceptPolicy::Allowlist(set) => {
            assert!(set.contains(&"abc".to_string()));
            assert!(set.contains(&"def".to_string()));
        }
        other => panic!("expected Allowlist, got {other:?}"),
    }
    assert!(matches!(AutoAcceptPolicy::from_setting(Some("no")), AutoAcceptPolicy::Deny));
}

#[test]
fn allowlist_match_is_case_insensitive() {
    let p = AutoAcceptPolicy::Allowlist(vec!["abcdef".to_string()]);
    assert!(p.allows("ABCDEF"));
    assert!(p.allows("abcdef"));
    assert!(!p.allows("123"));
    assert!(AutoAcceptPolicy::Any.allows("123"));
    assert!(!AutoAcceptPolicy::Deny.allows("123"));
}

#[test]
fn backoff_doubles_up_to_a_minute() {
    assert_eq!(next_backoff(1), 2);
    assert_eq!(next_backoff(16), 32);
    assert_eq!(next_backoff(32), 60);
    assert_eq!(next_backoff(60), 60);
    assert_eq!(next_backoff(u64::MAX), 60);
}

#[test]
fn frames_are_bounded() {
    assert_eq!(check_frame_length(MAX_FRAME), Ok(MAX_FRAME as usize));
    assert!(check_frame_length(MAX_FRAME + 1).is_err());
}

#[test]
fn federation_error_messages() {
    assert!(FederationError::CapScopeViolation { subject: "/x".to_string() }
        .to_string()
        .contains("/x"));
    assert!(FederationError::HandshakeRejected("no".to_string()).to_string().contains("no"));
    assert!(FederationError::io("broken").to_string().contains("broken"));
}

#[test]
fn replay_goes_by_time_then_id() {
    let ordered = replay_order(
        vec![
            event("c", "/a/x", 2, &[]),
            event("b", "/a/y", 1, &[]),
            event("d", "/other", 1, &[]),
            event("a", "/a/z", 2, &[]),
        ],
        "/a/**",
        None,
    );
    let ids: Vec<&str> = ordered.iter().map(|e| e.id.as_str()).collect();
    assert_eq!(ids, vec!["b", "a", "c"]);
}

#[test]
fn replay_begins_behind_the_cursor() {
    let first = event("b", "/a/y", 1, &[]);
    let since = first.time;
    let later = replay_order(vec![event("c", "/a/x", 2, &[]), first], "/a/**", Some(since));
    let ids: Vec<&str> = later.iter().map(|e| e.id.as_str()).collect();
    assert_eq!(ids, vec!["c"]);
}

#[test]
fn replay_ranges() {
    assert_eq!(replay_range("/**"), ("/".to_string(), true));
    assert_eq!(replay_range("/a/**"), ("/a".to_string(), true));
    assert_eq!(replay_range("/a/b"), ("/a/b".to_string(), false));
    assert_eq!(replay_range("/work/*"), ("/work".to_string(), true));
    assert_eq!(replay_range("/*"), ("/".to_string(), true));
}

#[test]
fn resume_points_are_read_from_the_cursor() {
    let reply = object(vec![(
        "last_event_time",
        Json::text("1970-01-01T00:00:07.5Z"),
    )]);
    let at = resume_point(&reply).expect("a time");
    assert_eq!((at.secs, at.nanos), (7, 500_000_000));
    assert!(resume_point(&object(vec![("last_event_time", Json::Null)])).is_none());
    assert!(resume_point(&object(vec![("last_event_time", Json::text("soon"))])).is_none());
}

#[test]
fn placeholder_addresses_are_not_dialed() {
    assert!(is_dialable("127.0.0.1:7778"));
    assert!(!is_dialable("inbound:abc"));
}

#[test]
fn backfill_applies_parents_before_children() {
    assert_eq!(
        missing_parents(&texts(&["a"]), &texts(&["a", "b", "c"])),
        texts(&["b", "c"])
    );
    let plan = plan_backfill(
        &texts(&["root"]),
        vec![
            event("child", "/a", 2, &["parent"]),
            event("parent", "/a", 1, &["root"]),
            event("orphan", "/a", 3, &["lost"]),
        ],
    );
    let applied: Vec<&str> = plan.apply.iter().map(|e| e.id.as_str()).collect();
    assert_eq!(applied, vec!["parent", "child"]);
    let stalled: Vec<&str> = plan.stalled.iter().map(|e| e.id.as_str()).collect();
    assert_eq!(stalled, vec!["orphan"]);
    assert_eq!(next_missing(&texts(&["root"]), &plan), texts(&["lost"]));
    assert!(stall_error(1).to_string().contains('1'));
}

#[test]
fn backfill_goes_on_until_the_chain_closes() {
    let held = texts(&[]);
    let parent = || event("p", "/a", 2, &["g", "g"]);
    let plan = plan_backfill(&held, vec![parent()]);
    assert!(plan.apply.is_empty());
    assert_eq!(next_missing(&held, &plan), texts(&["g"]));
    assert_eq!(next_fetch(&held, &plan, true), Some(texts(&["g"])));
    assert_eq!(next_fetch(&held, &plan, false), None);
    let plan = plan_backfill(&held, vec![parent(), event("g", "/a", 1, &[])]);
    let applied: Vec<&str> = plan.apply.iter().map(|e| e.id.as_str()).collect();
    assert_eq!(applied, vec!["g", "p"]);
    assert!(plan.stalled.is_empty() && next_missing(&held, &plan).is_empty());
    assert_eq!(next_fetch(&held, &plan, true), None);
}

fn peer(id: &str, we_grant: &[&str], grants_us: &[&str]) -> EnrolledPeer {
    EnrolledPeer {
        peer_id: id.to_string(),
        remote_pubkey: vec![7; 32],
        remote_grants_us: texts(grants_us),
        we_grant_remote: texts(we_grant),
        cap_from_remote: None,
        cap_for_remote: None,
    }
}

fn manager(policy: AutoAcceptPolicy) -> PeerManager {
    PeerManager::new(CapEngine::new(), "here".to_string(), policy)
}

#[test]
fn events_do_not_go_back_to_where_they_came_from() {
    let mut m = manager(AutoAcceptPolicy::Deny);
    m.enroll(peer("p", &[], &["/a/**"]));
    m.enroll(peer("q", &[], &["/a/**"]));
    m.enroll(peer("r", &["/a/**"], &["/b/**"]));
    let p = m.peer("p").unwrap();
    assert!(m.should_forward(p, "/a/x", "here"));
    assert!(!m.should_forward(p, "/a/x", "p"));
    assert!(!m.should_forward(p, "/b/x", "here"));
    let (origin, targets) = m.fan_out("/a/x", "");
    assert_eq!(origin, "here");
    assert_eq!(targets.len(), 2);
    assert!(targets.contains(&"p".to_string()) && targets.contains(&"q".to_string()));
    let (origin, targets) = m.fan_out("/a/x", "q");
    assert_eq!(origin, "q");
    assert_eq!(targets, texts(&["p"]));
}

#[test]
fn enrolling_replaces_and_unenrolling_removes() {
    let mut m = manager(AutoAcceptPolicy::Deny);
    m.enroll(peer("p", &["/a/**"], &[]));
    m.enroll(peer("p", &["/b/**"], &[]));
    assert_eq!(m.list_peers().len(), 1);
    assert_eq!(m.peer("p").unwrap().we_grant_remote, texts(&["/b/**"]));
    m.unenroll("p");
    assert!(m.peer("p").is_none());
    assert_eq!(m.local_peer_id(), "here");
}

#[test]
fn inbound_events_need_a_peer_a_scope_and_a_signature() {
    let mut m = manager(AutoAcceptPolicy::Deny);
    m.enroll(peer("p", &["/a/**"], &["/a/**"]));
    let inside = Event { signature: Some("sig".to_string()), ..event("e", "/a/x", 1, &[]) };
    assert!(m.verify_inbound("stranger", &inside, true).is_err());
    assert!(matches!(
        m.verify_inbound("p", &inside, false),
        Err(FederationError::Signature(_))
    ));
    assert!(m.verify_inbound("p", &inside, true).is_ok());
    let outside = Event { signature: Some("sig".to_string()), ..event("e", "/b/x", 1, &[]) };
    assert!(matches!(
        m.verify_inbound("p", &outside, true),
        Err(FederationError::CapScopeViolation { subject }) if subject == "/b/x"
    ));
}

#[test]
fn a_stored_event_moves_the_cursor_and_is_announced() {
    let mut m = manager(AutoAcceptPolicy::Deny);
    m.enroll(peer("p", &["/a/**"], &["/a/**"]));
    let e = event("e1", "/a/x", 5, &[]);
    let outcome = m.after_append("p", &e, &AppendOutcome::Stored).unwrap();
    assert!(outcome.announce);
    assert_eq!(outcome.cursor.peer_id, "p");
    assert_eq!(outcome.cursor.last_event_id.as_deref(), Some("e1"));
    let again = m
        .after_append("p", &e, &AppendOutcome::Failed("UNIQUE constraint failed: events.id".to_string()))
        .unwrap();
    assert!(!again.announce);
    assert!(m.after_append("p", &e, &AppendOutcome::Failed("disk full".to_string())).is_err());
}

#[test]
fn cursors_are_reported() {
    let m = manager(AutoAcceptPolicy::Deny);
    let cursor = PeerCursor {
        peer_id: "p".to_string(),
        subject_pattern: "/**".to_string(),
        last_event_id: Some("e9".to_string()),
        last_event_time: Some(Timestamp { secs: 1, nanos: 0 }),
    };
    let reply = m.cursor_reply("p", "/**", Some(&cursor));
    assert_eq!(reply.get("last_event_id").and_then(|v| v.as_str()).unwrap(), "e9");
    let at = resume_point(&reply).expect("a time");
    assert_eq!(at.secs, 1);
    let empty = m.cursor_reply("p", "/**", None);
    assert!(matches!(empty.get("last_event_id"), Some(Json::Null)));
}

#[test]
fn events_and_peers_are_found_by_id() {
    let picked = select_events(
        vec![event("a", "/x", 1, &[]), event("b", "/x", 2, &[]), event("c", "/x", 3, &[])],
        &texts(&["c", "a", "zz"]),
    );
    let ids: Vec<&str> = picked.iter().map(|e| e.id.as_str()).collect();
    assert_eq!(ids, vec!["a", "c"]);
    let row = |id: &str| Peer {
        peer_id: id.to_string(),
        url: "u".to_string(),
        public_key: vec![1],
        granted_subjects: texts(&["/a/**"]),
        auto_accepted: false,
    };
    assert_eq!(find_peer(&[row("p"), row("q")], "q"), Some(1));
    assert_eq!(find_peer(&[row("p")], "z"), None);
    let enrolled = enrolled_from(row("p"));
    assert_eq!(enrolled.peer_id, "p");
    assert_eq!(enrolled.we_grant_remote, texts(&["/a/**"]));
    assert!(any_covers(&texts(&["/b/**", "/a/*"]), "/a/x"));
    assert!(!any_covers(&[], "/a/x"));
}

#[test]
fn tokens_for_peers_cover_their_subjects() {
    let engine = CapEngine::new();
    assert!(mint_for_peer(&engine, &[]).unwrap().is_none());
    let token = mint_for_peer(&engine, &texts(&["/a/**"])).unwrap().expect("a token");
    settled(|| engine.verify(&token, "/a/x", Operation::Peer, None)).expect("peer right");
    assert!(settled(|| engine.verify(&token, "/b/x", Operation::Peer, None)).is_err());
}

#[test]
fn a_handshake_carries_both_tokens() {
    let here = manager(AutoAcceptPolicy::Any);
    let there = PeerManager::new(CapEngine::new(), "there".to_string(), AutoAcceptPolicy::Any);
    let (hello, cap_for_remote) =
        here.begin_handshake(&texts(&["/a/**"]), &[1; 32]).expect("hello");
    assert_eq!(hello.peer_id, "here");
    assert_eq!(hello.subjects, texts(&["/a/**"]));
    let judged = there
        .judge_hello(&hello.peer_id, &hello.public_key, &hello.offered_cap, &hello.subjects, None)
        .expect("accepted");
    assert_eq!(judged.row.peer_id, "here");
    assert!(judged.row.auto_accepted);
    let welcome = there.welcome(&[2; 32], &hello.subjects, &judged.enrolled.cap_for_remote);
    let read = parse_welcome(&welcome).expect("welcome");
    assert_eq!(read.peer_id, "there");
    assert_eq!(read.public_key, vec![2; 32]);
    let finished = here
        .finish_handshake("there", "host:1", &hello.subjects, cap_for_remote, &Reply::Data(welcome))
        .expect("enrolled");
    assert_eq!(finished.row.url, "host:1");
    assert_eq!(finished.enrolled.peer_id, "there");
    assert!(finished.enrolled.cap_from_remote.is_some());
}

#[test]
fn handshakes_are_refused_by_policy_and_by_the_remote() {
    let here = manager(AutoAcceptPolicy::Deny);
    assert!(matches!(
        here.judge_hello("there", &[1; 32], "", &texts(&["/a/**"]), None),
        Err(FederationError::HandshakeRejected(_))
    ));
    assert!(here
        .finish_handshake(
            "there",
            "host:1",
            &texts(&["/a/**"]),
            None,
            &Reply::Refused("go away".to_string())
        )
        .is_err());
    assert!(here
        .finish_handshake(
            "there",
            "host:1",
            &texts(&["/a/**"]),
            None,
            &Reply::Other("pong".to_string())
        )
        .is_err());
    assert!(parse_welcome(&Json::Null).is_err());
}
