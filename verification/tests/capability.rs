//! Capability tokens: minting, verifying, attenuating, and third-party blocks.

use ctxd::cap::datalog::Caveat;
use ctxd::cap::engine::CapEngine;
use ctxd::cap::error::CapError;
use ctxd::cap::glob::glob_match_subject;
use ctxd::cap::keys::{BiscuitKeyPair, BiscuitPrivateKey, BiscuitPublicKey, KeyAlgorithm};
use ctxd::cap::operation::Operation;
use ctxd::time::Timestamp;

/// Repeats a call whose evaluation ran out of its time slice.
fn settled<T>(mut call: impl FnMut() -> Result<T, CapError>) -> Result<T, CapError> {
    for _ in 0..400 {
        match call() {
            Err(CapError::Biscuit(biscuit_auth::error::Token::RunLimit(_))) => {}
            other => return other,
        }
    }
    call()
}

fn verify(
    engine: &CapEngine,
    token: &[u8],
    subject: &str,
    op: Operation,
    event_type: Option<&str>,
) -> Result<(), CapError> {
    settled(|| engine.verify(token, subject, op, event_type))
}

fn verify_multi(
    engine: &CapEngine,
    token: &[u8],
    trust: &[BiscuitPublicKey],
    subject: &str,
    op: Operation,
) -> Result<(), CapError> {
    settled(|| engine.verify_multi(token, trust, subject, op))
}

fn hours_from_now(hours: i64) -> Timestamp {
    Timestamp { secs: chrono::Utc::now().timestamp() + hours * 3600, nanos: 0 }
}

#[test]
fn mint_and_verify() {
    let engine = CapEngine::new();
    let token = engine
        .mint("/**", &[Operation::Read, Operation::Write], None, None, None)
        .unwrap();
    verify(&engine, &token, "/test/hello", Operation::Read, None).unwrap();
    verify(&engine, &token, "/test/hello", Operation::Write, None).unwrap();
}

#[test]
fn verify_rejects_wrong_operation() {
    let engine = CapEngine::new();
    let token = engine.mint("/**", &[Operation::Read], None, None, None).unwrap();
    assert!(verify(&engine, &token, "/test/hello", Operation::Write, None).is_err());
}

#[test]
fn scoped_subject_pattern() {
    let engine = CapEngine::new();
    let token = engine.mint("/test/**", &[Operation::Read], None, None, None).unwrap();
    verify(&engine, &token, "/test/hello", Operation::Read, None).unwrap();
    verify(&engine, &token, "/test/a/b/c", Operation::Read, None).unwrap();
    assert!(verify(&engine, &token, "/other/hello", Operation::Read, None).is_err());
}

#[test]
fn base64_roundtrip() {
    let engine = CapEngine::new();
    let token = engine.mint("/**", &[Operation::Read], None, None, None).unwrap();
    let encoded = CapEngine::token_to_base64(&token);
    let decoded = CapEngine::token_from_base64(&encoded).unwrap();
    assert_eq!(token, decoded);
    verify(&engine, &decoded, "/test/hello", Operation::Read, None).unwrap();
}

#[test]
fn expired_token_rejected() {
    let engine = CapEngine::new();
    let past = hours_from_now(-1);
    let token = engine.mint("/**", &[Operation::Read], Some(past), None, None).unwrap();
    assert!(verify(&engine, &token, "/test/hello", Operation::Read, None).is_err());
}

#[test]
fn private_key_persistence() {
    let engine = CapEngine::new();
    let key_bytes = engine.private_key_bytes();
    let engine2 = CapEngine::from_private_key(&key_bytes).unwrap();
    let token = engine.mint("/**", &[Operation::Read], None, None, None).unwrap();
    verify(&engine2, &token, "/test/hello", Operation::Read, None).unwrap();
}

#[test]
fn glob_matching() {
    assert!(glob_match_subject("/**", "/anything"));
    assert!(glob_match_subject("/test/**", "/test/hello"));
    assert!(glob_match_subject("/test/**", "/test/a/b/c"));
    assert!(!glob_match_subject("/test/**", "/other"));
    assert!(glob_match_subject("/test/*", "/test/hello"));
    assert!(!glob_match_subject("/test/*", "/test/a/b"));
    assert!(glob_match_subject("/test/hello", "/test/hello"));
    assert!(!glob_match_subject("/test/hello", "/test/other"));
}

#[test]
fn attenuate_restricts_subject() {
    let engine = CapEngine::new();
    let token = engine
        .mint("/**", &[Operation::Read, Operation::Write], None, None, None)
        .unwrap();
    let attenuated = engine
        .attenuate(&token, "/test/**", &[Operation::Read, Operation::Write])
        .unwrap();
    verify(&engine, &attenuated, "/test/hello", Operation::Read, None).unwrap();
    assert!(verify(&engine, &attenuated, "/other/hello", Operation::Read, None).is_err());
}

#[test]
fn attenuate_restricts_operations() {
    let engine = CapEngine::new();
    let token = engine
        .mint("/**", &[Operation::Read, Operation::Write], None, None, None)
        .unwrap();
    let attenuated = engine.attenuate(&token, "/**", &[Operation::Read]).unwrap();
    verify(&engine, &attenuated, "/test/hello", Operation::Read, None).unwrap();
    assert!(verify(&engine, &attenuated, "/test/hello", Operation::Write, None).is_err());
}

#[test]
fn kind_allowed_caveat() {
    let engine = CapEngine::new();
    let token = engine
        .mint(
            "/**",
            &[Operation::Read, Operation::Write],
            None,
            Some(&["ctx.note"]),
            None,
        )
        .unwrap();
    verify(&engine, &token, "/test/hello", Operation::Write, Some("ctx.note")).unwrap();
    assert!(verify(&engine, &token, "/test/hello", Operation::Write, Some("ctx.file")).is_err());
}

#[test]
fn datalog_injection_prevented() {
    let engine = CapEngine::new();
    let malicious_subject = r#"/**", "admin"); allow if true; //"#;
    let result = engine.mint(malicious_subject, &[Operation::Read], None, None, None);
    assert!(result.is_err(), "should reject malicious subject_glob");

    let malicious_kind = r#"ctx.note"); allow if true; //"#;
    let result = engine.mint("/**", &[Operation::Read], None, Some(&[malicious_kind]), None);
    assert!(result.is_err(), "should reject malicious kind_allowed");

    let token = engine.mint("/**", &[Operation::Read], None, None, None).unwrap();
    let result = engine.verify(&token, malicious_subject, Operation::Read, None);
    assert!(result.is_err(), "should reject malicious subject in verify");

    let result = engine.verify(&token, "/test", Operation::Read, Some(malicious_kind));
    assert!(result.is_err(), "should reject malicious event_type");
}

#[test]
fn rate_limit_fact_stored() {
    let engine = CapEngine::new();
    let token = engine.mint("/**", &[Operation::Read], None, None, Some(100)).unwrap();
    verify(&engine, &token, "/test/hello", Operation::Read, None).unwrap();
    let caveats = settled(|| engine.extract_stateful_caveats(&token)).unwrap();
    assert_eq!(caveats.rate_limit_ops_per_sec, Some(100));
}

#[test]
fn different_root_keys_cannot_cross_verify() {
    let engine_a = CapEngine::new();
    let engine_b = CapEngine::new();
    let token_a = engine_a.mint("/**", &[Operation::Read], None, None, None).unwrap();
    assert!(
        verify(&engine_b, &token_a, "/test/hello", Operation::Read, None).is_err(),
        "token from engine A should not verify with engine B"
    );
    let token_b = engine_b.mint("/**", &[Operation::Read], None, None, None).unwrap();
    assert!(
        verify(&engine_a, &token_b, "/test/hello", Operation::Read, None).is_err(),
        "token from engine B should not verify with engine A"
    );
}

#[test]
fn attenuate_chain_root_to_scope_a_to_scope_b() {
    let engine = CapEngine::new();
    let root_token = engine
        .mint("/**", &[Operation::Read, Operation::Write], None, None, None)
        .unwrap();
    let scope_a = engine
        .attenuate(&root_token, "/work/**", &[Operation::Read, Operation::Write])
        .unwrap();
    let scope_b = engine
        .attenuate(&scope_a, "/work/team1/**", &[Operation::Read])
        .unwrap();
    verify(&engine, &scope_b, "/work/team1/doc", Operation::Read, None).unwrap();
    assert!(verify(&engine, &scope_b, "/work/team1/doc", Operation::Write, None).is_err());
    assert!(verify(&engine, &scope_b, "/work/team2/doc", Operation::Read, None).is_err());
    assert!(verify(&engine, &scope_b, "/other/doc", Operation::Read, None).is_err());
}

#[test]
fn datalog_injection_all_patterns_blocked() {
    let engine = CapEngine::new();
    let injection_patterns: Vec<(&str, &str)> = vec![
        ("double quote", "/**\"; allow if true;//"),
        ("close paren", "/**); allow if true;//"),
        ("semicolon", "/**; allow if true"),
        ("newline", "/**\nallow if true"),
    ];
    for (desc, pattern) in &injection_patterns {
        assert!(
            engine.mint(pattern, &[Operation::Read], None, None, None).is_err(),
            "mint should reject {desc} injection in subject_glob"
        );
    }

    let kind_injections: Vec<&str> = vec![
        "ctx.note\"; allow if true;//",
        "ctx.note); allow if true;//",
        "ctx.note; allow if true",
        "ctx.note\nallow if true",
    ];
    for malicious_kind in &kind_injections {
        assert!(
            engine
                .mint("/**", &[Operation::Read], None, Some(&[malicious_kind]), None)
                .is_err(),
            "mint should reject injection in kind_allowed: {malicious_kind}"
        );
    }

    let token = engine.mint("/**", &[Operation::Read], None, None, None).unwrap();
    for (desc, pattern) in &injection_patterns {
        assert!(
            engine.verify(&token, pattern, Operation::Read, None).is_err(),
            "verify should reject {desc} injection in subject"
        );
    }
    for malicious_etype in &kind_injections {
        assert!(
            engine
                .verify(&token, "/test", Operation::Read, Some(malicious_etype))
                .is_err(),
            "verify should reject injection in event_type: {malicious_etype}"
        );
    }
}

#[test]
fn multiple_caveats_enforced_simultaneously() {
    let engine = CapEngine::new();
    let future_expiry = hours_from_now(1);
    let token = engine
        .mint(
            "/work/**",
            &[Operation::Read, Operation::Write],
            Some(future_expiry),
            Some(&["ctx.note"]),
            None,
        )
        .unwrap();
    verify(&engine, &token, "/work/doc", Operation::Read, Some("ctx.note")).unwrap();
    assert!(verify(&engine, &token, "/other/doc", Operation::Read, Some("ctx.note")).is_err());
    assert!(verify(&engine, &token, "/work/doc", Operation::Admin, Some("ctx.note")).is_err());
    assert!(verify(&engine, &token, "/work/doc", Operation::Read, Some("ctx.file")).is_err());
    assert!(verify(&engine, &token, "/work/doc", Operation::Read, None).is_err());

    let past_expiry = hours_from_now(-1);
    let expired_token = engine
        .mint(
            "/work/**",
            &[Operation::Read],
            Some(past_expiry),
            Some(&["ctx.note"]),
            None,
        )
        .unwrap();
    assert!(
        verify(&engine, &expired_token, "/work/doc", Operation::Read, Some("ctx.note")).is_err()
    );
}

#[test]
fn attenuate_with_invalid_subject_rejected() {
    let engine = CapEngine::new();
    let token = engine.mint("/**", &[Operation::Read], None, None, None).unwrap();
    assert!(engine
        .attenuate(&token, "/test\"; allow if true;//**", &[Operation::Read])
        .is_err());
}

#[test]
fn three_authority_chain_end_to_end() {
    let engine_a = CapEngine::new();
    let kp_b = BiscuitKeyPair::new();
    let kp_c = BiscuitKeyPair::new();
    let token_a = engine_a
        .mint("/**", &[Operation::Read, Operation::Write], None, None, None)
        .expect("mint");
    let token_b = engine_a
        .attenuate_with_block(
            &token_a,
            &kp_b.private(),
            &[
                Caveat::SubjectPrefix("/work/**".to_string()),
                Caveat::OperationsAtMost(vec![Operation::Read, Operation::Write]),
            ],
        )
        .expect("B attenuates");
    let token_c = engine_a
        .attenuate_with_block(
            &token_b,
            &kp_c.private(),
            &[
                Caveat::SubjectPrefix("/work/team1/**".to_string()),
                Caveat::OperationsAtMost(vec![Operation::Read]),
            ],
        )
        .expect("C attenuates");
    let trust = vec![kp_b.public(), kp_c.public()];
    verify_multi(&engine_a, &token_c, &trust, "/work/team1/doc", Operation::Read)
        .expect("read should be allowed under full trust");
}

#[test]
fn wrong_authority_key_in_trust_set_is_rejected() {
    let engine = CapEngine::new();
    let kp_b = BiscuitKeyPair::new();
    let kp_c = BiscuitKeyPair::new();
    let kp_unrelated = BiscuitKeyPair::new();
    let token = engine.mint("/**", &[Operation::Read], None, None, None).expect("mint");
    let token_b = engine
        .attenuate_with_block(
            &token,
            &kp_b.private(),
            &[Caveat::SubjectPrefix("/work/**".to_string())],
        )
        .expect("B");
    let token_c = engine
        .attenuate_with_block(
            &token_b,
            &kp_c.private(),
            &[Caveat::OperationsAtMost(vec![Operation::Read])],
        )
        .expect("C");
    let bad_trust = vec![kp_unrelated.public(), kp_c.public()];
    let result = verify_multi(&engine, &token_c, &bad_trust, "/work/foo", Operation::Read);
    assert!(
        result.is_err(),
        "verification must fail when an intermediate authority is wrong"
    );
}

#[test]
fn missing_intermediate_authority_is_rejected() {
    let engine = CapEngine::new();
    let kp_b = BiscuitKeyPair::new();
    let kp_c = BiscuitKeyPair::new();
    let token = engine.mint("/**", &[Operation::Read], None, None, None).expect("mint");
    let token_b = engine
        .attenuate_with_block(
            &token,
            &kp_b.private(),
            &[Caveat::SubjectPrefix("/work/**".to_string())],
        )
        .expect("B");
    let token_c = engine
        .attenuate_with_block(
            &token_b,
            &kp_c.private(),
            &[Caveat::OperationsAtMost(vec![Operation::Read])],
        )
        .expect("C");
    let trust_missing_b = vec![kp_c.public()];
    let result = verify_multi(&engine, &token_c, &trust_missing_b, "/work/x", Operation::Read);
    assert!(
        result.is_err(),
        "verification must loud-fail when an intermediate authority is absent"
    );
}

#[test]
fn widening_attempt_outside_b_scope_is_rejected() {
    let engine = CapEngine::new();
    let kp_b = BiscuitKeyPair::new();
    let token = engine
        .mint("/**", &[Operation::Read, Operation::Write], None, None, None)
        .expect("mint");
    let token_b = engine
        .attenuate_with_block(
            &token,
            &kp_b.private(),
            &[Caveat::SubjectPrefix("/work/**".to_string())],
        )
        .expect("B");
    let trust = vec![kp_b.public()];
    verify_multi(&engine, &token_b, &trust, "/work/team1/doc", Operation::Read)
        .expect("inside scope ok");
    let result = verify_multi(&engine, &token_b, &trust, "/home/x", Operation::Read);
    assert!(
        result.is_err(),
        "verification must reject access outside attenuated scope"
    );
}

#[test]
fn expired_chain_is_rejected() {
    let engine = CapEngine::new();
    let kp_b = BiscuitKeyPair::new();
    let token = engine.mint("/**", &[Operation::Read], None, None, None).expect("mint");
    let past = hours_from_now(-1);
    let token_b = engine
        .attenuate_with_block(&token, &kp_b.private(), &[Caveat::ExpiresAt(past)])
        .expect("B");
    let trust = vec![kp_b.public()];
    let result = verify_multi(&engine, &token_b, &trust, "/x", Operation::Read);
    assert!(
        result.is_err(),
        "expired third-party block must reject verification"
    );
}

#[test]
fn empty_trust_set_falls_back_to_authority_only() {
    let engine = CapEngine::new();
    let token = engine.mint("/work/**", &[Operation::Read], None, None, None).expect("mint");
    verify_multi(&engine, &token, &[], "/work/doc", Operation::Read)
        .expect("plain root token must verify with empty trust set");
    let result = verify_multi(&engine, &token, &[], "/home/x", Operation::Read);
    assert!(
        result.is_err(),
        "scope outside root cap must fail even with empty trust"
    );
}

#[test]
fn expiry_is_the_last_valid_second() {
    let engine = CapEngine::new();
    let at = Timestamp { secs: 1_700_000_000, nanos: 0 };
    let token = engine.mint("/**", &[Operation::Read], Some(at), None, None).unwrap();
    let read = |now: i64| settled(|| engine.verify_at(&token, "/a", Operation::Read, None, now));
    read(1_699_999_999).unwrap();
    read(1_700_000_000).unwrap();
    assert!(read(1_700_000_001).is_err());
}

#[test]
fn rights_name_the_operation_that_is_missing() {
    let engine = CapEngine::new();
    let token = engine.mint("/work/**", &[Operation::Read], None, None, None).unwrap();
    match verify(&engine, &token, "/home", Operation::Read, None) {
        Err(e) => assert!(e.to_string().contains("/home"), "{}", e.to_string()),
        Ok(()) => panic!("the subject lies outside the grant"),
    }
}

#[test]
fn unsafe_text_is_named_in_the_denial() {
    let engine = CapEngine::new();
    match engine.mint("/a;", &[Operation::Read], None, None, None) {
        Err(CapError::Denied(m)) => assert!(m.contains("subject_glob"), "{m}"),
        _ => panic!("expected a denial"),
    }
    let kp = BiscuitKeyPair::new();
    let token = engine.mint("/**", &[Operation::Read], None, None, None).unwrap();
    match engine.attenuate_with_block(
        &token,
        &kp.private(),
        &[Caveat::SubjectPrefix("/a)".to_string())],
    ) {
        Err(CapError::Denied(m)) => assert!(m.contains("subject_prefix"), "{m}"),
        _ => panic!("expected a denial"),
    }
}

#[test]
fn token_ids_are_uuids_and_survive_attenuation() {
    let engine = CapEngine::new();
    let token = engine.mint("/**", &[Operation::Read], None, None, None).unwrap();
    let id = settled(|| engine.extract_token_id(&token)).unwrap().expect("an id");
    assert!(uuid::Uuid::parse_str(&id).is_ok());
    let narrowed = engine.attenuate(&token, "/a/**", &[Operation::Read]).unwrap();
    assert_eq!(settled(|| engine.extract_token_id(&narrowed)).unwrap(), Some(id));
    let other = engine.mint("/**", &[Operation::Read], None, None, None).unwrap();
    assert_ne!(
        settled(|| engine.extract_token_id(&other)).unwrap(),
        settled(|| engine.extract_token_id(&token)).unwrap()
    );
}

#[test]
fn a_revoked_token_is_denied() {
    let engine = CapEngine::new();
    let token = engine.mint("/**", &[Operation::Read], None, None, None).unwrap();
    let id = settled(|| engine.extract_token_id(&token)).unwrap().expect("an id");
    settled(|| {
        engine.verify_with_revocation(&token, "/a", Operation::Read, None, |_: &str| false)
    })
    .unwrap();
    let revoked = id.clone();
    let answer = settled(|| {
        let revoked = revoked.clone();
        engine.verify_with_revocation(&token, "/a", Operation::Read, None, move |i: &str| {
            i == revoked
        })
    });
    match answer {
        Err(CapError::Denied(m)) => assert_eq!(m, format!("token {id} has been revoked")),
        other => panic!("expected a denial, got {other:?}"),
    }
}

#[test]
fn broken_tokens_and_keys_are_refused() {
    let engine = CapEngine::new();
    assert!(matches!(
        engine.verify(b"not a token", "/a", Operation::Read, None),
        Err(CapError::Biscuit(_))
    ));
    assert!(matches!(
        engine.attenuate(b"not a token", "/a/**", &[Operation::Read]),
        Err(CapError::Biscuit(_))
    ));
    assert!(matches!(CapEngine::token_from_base64("***"), Err(CapError::Base64(_))));
    assert!(CapEngine::from_private_key(&[1, 2, 3]).is_err());
    assert!(BiscuitPublicKey::from_bytes(&[1, 2, 3], KeyAlgorithm::Ed25519).is_err());
}

#[test]
fn base64_is_the_url_safe_alphabet_without_padding() {
    let encoded = CapEngine::token_to_base64(&[0xfb, 0xff, 0xfe, 1]);
    assert_eq!(CapEngine::token_from_base64(&encoded).unwrap(), vec![0xfb, 0xff, 0xfe, 1]);
    assert_eq!(encoded, "-__-AQ");
}

#[test]
fn keys_round_trip_through_their_bytes() {
    let pair = BiscuitKeyPair::new();
    let bytes = pair.private().to_bytes();
    let again = BiscuitPrivateKey::from_bytes(&bytes, KeyAlgorithm::Ed25519).unwrap();
    assert_eq!(again.to_bytes(), bytes);
    assert_eq!(again.public().to_bytes(), pair.public().to_bytes());
    let public = pair.public().to_bytes();
    let read = BiscuitPublicKey::from_bytes(&public, KeyAlgorithm::Ed25519).unwrap();
    assert_eq!(read.to_bytes(), public);
    let text = pair.public().to_text();
    assert!(text.starts_with("ed25519/"));
    assert_eq!(text.len(), "ed25519/".len() + 64);
}

#[test]
fn operation_names_read_back() {
    let all = [
        Operation::Read,
        Operation::Write,
        Operation::Subjects,
        Operation::Search,
        Operation::Admin,
        Operation::Peer,
        Operation::Subscribe,
    ];
    for op in all {
        assert_eq!(Operation::from_name(op.as_str()), Some(op));
        assert_eq!(op.to_string(), op.as_str());
    }
    assert_eq!(Operation::from_name("fly"), None);
}

#[test]
fn error_messages() {
    assert_eq!(
        CapError::BudgetExceeded { currency: "USD".to_string(), spent: 11, limit: -2 }.to_string(),
        "budget exceeded for USD: 11 > -2"
    );
    assert_eq!(CapError::RateLimited { ops_per_sec: 5 }.to_string(), "rate limit exceeded: 5 ops/sec");
    assert_eq!(CapError::Denied("no".to_string()).to_string(), "authorization denied: no");
    assert_eq!(
        CapError::ApprovalDenied { approval_id: "a".to_string() }.to_string(),
        "approval denied: a"
    );
    assert_eq!(
        CapError::ApprovalTimeout { approval_id: "a".to_string() }.to_string(),
        "approval timed out: a"
    );
}
