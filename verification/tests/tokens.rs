//! What tokens hold, as the token library prints it.

use biscuit_auth::UnverifiedBiscuit;
use ctxd::cap::datalog::{
    prefix_of_glob, render_attenuation, render_caveat_block, render_grant, Caveat,
};
use ctxd::cap::biscuit::Answer;
use ctxd::cap::engine::{check_rights, check_trust, conclude, CapEngine, Judgement};
use ctxd::cap::error::CapError;
use ctxd::cap::keys::{BiscuitKeyPair, BiscuitPrivateKey, KeyAlgorithm};
use ctxd::cap::operation::Operation;
use ctxd::cap::state::BudgetLimit;
use ctxd::time::Timestamp;

fn settled<T>(mut call: impl FnMut() -> Result<T, CapError>) -> Result<T, CapError> {
    for _ in 0..400 {
        match call() {
            Err(CapError::Biscuit(biscuit_auth::error::Token::RunLimit(_))) => {}
            other => return other,
        }
    }
    call()
}

fn printed(token: &[u8], block: usize) -> String {
    UnverifiedBiscuit::from(token).unwrap().print_block_source(block).unwrap()
}

fn id_of(engine: &CapEngine, token: &[u8]) -> String {
    settled(|| engine.extract_token_id(token)).unwrap().expect("an id")
}

#[test]
fn a_minted_token_prints_as_it_was_written() {
    let engine = CapEngine::new();
    let budget = BudgetLimit { currency: "USD".to_string(), amount_micro_units: i64::MAX };
    let ops = [Operation::Read, Operation::Write, Operation::Read];
    let kinds = ["ctx.note", "ctx.note", "ctx.file"];
    let approvals = [Operation::Write, Operation::Admin];
    let token = engine
        .mint_full(
            "/work/**",
            &ops,
            Some(Timestamp { secs: 1_700_000_000, nanos: 5 }),
            Some(&kinds),
            Some(u32::MAX),
            Some(&budget),
            &approvals,
        )
        .unwrap();
    let code = render_grant(
        &id_of(&engine, &token),
        "/work/**",
        &ops,
        Some(1_700_000_000),
        Some(&kinds),
        Some(u32::MAX),
        Some(("USD", i64::MAX)),
        &approvals,
    );
    assert_eq!(printed(&token, 0), code);
}

#[test]
fn a_bare_token_prints_as_it_was_written() {
    let engine = CapEngine::new();
    for secs in [i64::MIN, -1, 0, 253_402_300_800, i64::MAX] {
        let at = Timestamp { secs, nanos: 0 };
        let token = engine.mint("", &[], Some(at), Some(&[]), None).unwrap();
        let code =
            render_grant(&id_of(&engine, &token), "", &[], Some(secs), Some(&[]), None, None, &[]);
        assert_eq!(printed(&token, 0), code);
    }
}

#[test]
fn odd_texts_print_as_they_were_written() {
    let engine = CapEngine::new();
    for glob in [
        "/a b", "/\u{e9}", "/\u{1f600}/**", "/tab\there", "/nul\u{0}", "/cr\r", "//", "/*/**", "$x",
        "/a'b", "hex:00", "{a}", "#c", "(", "/<>/&", "\u{2028}", "true", " ", "/a,b", "/a:b",
    ] {
        let token = engine.mint(glob, &[Operation::Read], None, Some(&[glob]), None).unwrap();
        let code = render_grant(
            &id_of(&engine, &token),
            glob,
            &[Operation::Read],
            None,
            Some(&[glob]),
            None,
            None,
            &[],
        );
        assert_eq!(printed(&token, 0), code, "{glob:?}");
    }
}

#[test]
fn appended_blocks_print_as_they_were_written() {
    let engine = CapEngine::new();
    let token = engine.mint("/**", &[Operation::Read], None, None, None).unwrap();
    for (glob, ops) in [
        ("/test/**", vec![Operation::Read, Operation::Write]),
        ("/**", vec![]),
        ("/a b\u{e9}/*", vec![Operation::Read]),
        ("", vec![Operation::Admin, Operation::Admin]),
    ] {
        let narrowed = engine.attenuate(&token, glob, &ops).unwrap();
        assert_eq!(printed(&narrowed, 0), printed(&token, 0));
        assert_eq!(printed(&narrowed, 1), render_attenuation(&ops, &prefix_of_glob(glob)), "{glob:?}");
    }
}

#[test]
fn blocks_of_third_parties_print_as_they_were_written() {
    let engine = CapEngine::new();
    let token = engine.mint("/**", &[Operation::Read], None, None, None).unwrap();
    let third = BiscuitKeyPair::new();
    let caveats = [
        Caveat::SubjectPrefix("/work/**".to_string()),
        Caveat::OperationsAtMost(vec![Operation::Read, Operation::Peer]),
        Caveat::ExpiresAt(Timestamp { secs: 2_000_000_000, nanos: 0 }),
    ];
    let signed = engine.attenuate_with_block(&token, &third.private(), &caveats).unwrap();
    let authority = hex::encode(third.public().to_bytes());
    assert_eq!(printed(&signed, 1), render_caveat_block(&authority, &caveats).unwrap());
    let keys = UnverifiedBiscuit::from(&signed).unwrap().external_public_keys();
    assert_eq!(keys.len(), 2);
    assert!(keys[0].is_none());
    assert_eq!(keys[1].as_ref().map(|k| k.to_bytes().to_vec()), Some(third.public().to_bytes()));
}

fn judgement(mut call: impl FnMut() -> Judgement) -> Judgement {
    for _ in 0..400 {
        match call() {
            Judgement::Unsettled(_) => {}
            other => return other,
        }
    }
    call()
}

#[test]
fn a_fresh_token_is_good_for_its_grant() {
    let engine = CapEngine::new();
    let token = engine
        .mint(
            "/work/**",
            &[Operation::Read, Operation::Write],
            Some(Timestamp { secs: 100, nanos: 0 }),
            Some(&["ctx.note"]),
            None,
        )
        .unwrap();
    let judge = |subject: &str, op: Operation, kind: Option<&str>, now: i64| {
        judgement(|| engine.judge_at(&token, subject, op, kind, now))
    };
    let note = Some("ctx.note");
    for now in [i64::MIN, 0, 100] {
        assert!(matches!(judge("/work/a/b", Operation::Read, note, now), Judgement::Accepted));
    }
    assert!(matches!(judge("/work/**", Operation::Write, note, 1), Judgement::Accepted));
    assert!(matches!(judge("/work/a", Operation::Read, note, 101), Judgement::Refused(_)));
    assert!(matches!(judge("/work/a", Operation::Read, Some("ctx.file"), 1), Judgement::Refused(_)));
    match judge("/work/a", Operation::Read, None, 1) {
        Judgement::Denied(m) => assert_eq!(
            m,
            "token has kind_allowed restriction but no event_type provided for verification"
        ),
        other => panic!("{other:?}"),
    }
    match judge("/home/a", Operation::Read, note, 1) {
        Judgement::Denied(m) => assert_eq!(m, "no matching right for 'read' on '/home/a'"),
        other => panic!("{other:?}"),
    }
    match judge("/work/\"", Operation::Read, note, 1) {
        Judgement::Denied(m) => {
            assert_eq!(m, "subject contains invalid characters for capability tokens")
        }
        other => panic!("{other:?}"),
    }
    match judge("/work/a", Operation::Read, Some("a)"), 1) {
        Judgement::Denied(m) => {
            assert_eq!(m, "event_type contains invalid characters for capability tokens")
        }
        other => panic!("{other:?}"),
    }
    assert!(matches!(
        judgement(|| engine.judge_at(&token[1..], "/work/a", Operation::Read, note, 1)),
        Judgement::Invalid(_)
    ));
}

#[test]
fn a_restricted_token_is_good_for_what_is_left() {
    let engine = CapEngine::new();
    let token = engine.mint("/**", &[Operation::Read, Operation::Write], None, None, None).unwrap();
    let once = engine.attenuate(&token, "/work/**", &[Operation::Read]).unwrap();
    let twice = engine.attenuate(&once, "/work/a/*", &[Operation::Read, Operation::Write]).unwrap();
    let judge = |t: &[u8], subject: &str, op: Operation| {
        judgement(|| engine.judge_at(t, subject, op, None, 0))
    };
    assert!(matches!(judge(&twice, "/work/a/x", Operation::Read), Judgement::Accepted));
    assert!(matches!(judge(&once, "/work/b", Operation::Read), Judgement::Accepted));
    assert!(matches!(judge(&twice, "/work/b", Operation::Read), Judgement::Refused(_)));
    assert!(matches!(judge(&twice, "/work/a/x", Operation::Write), Judgement::Refused(_)));
    let nothing = engine.attenuate(&token, "/**", &[]).unwrap();
    assert!(matches!(judge(&nothing, "/a", Operation::Read), Judgement::Refused(_)));
}

#[test]
fn trusted_third_parties_leave_what_they_admit() {
    let engine = CapEngine::new();
    let token = engine.mint("/work/**", &[Operation::Read, Operation::Write], None, None, None).unwrap();
    let mut secret = [0u8; 32];
    secret[31] = 7;
    let first = BiscuitPrivateKey::from_bytes(&secret, KeyAlgorithm::Secp256r1).unwrap();
    let second = BiscuitPrivateKey::from_bytes(&secret, KeyAlgorithm::Ed25519).unwrap();
    let one = engine
        .attenuate_with_block(&token, &first, &[Caveat::OperationsAtMost(vec![Operation::Read])])
        .unwrap();
    let two = engine
        .attenuate_with_block(
            &one,
            &second,
            &[
                Caveat::SubjectPrefix("/work/a/**".to_string()),
                Caveat::ExpiresAt(Timestamp { secs: 50, nanos: 0 }),
            ],
        )
        .unwrap();
    let both = [first.public(), second.public()];
    let judge = |t: &[u8], subject: &str, op: Operation, now: i64| {
        judgement(|| engine.judge_multi_at(t, &both, subject, op, now))
    };
    assert!(matches!(judge(&two, "/work/a/x", Operation::Read, 50), Judgement::Accepted));
    assert!(matches!(judge(&one, "/work/b", Operation::Read, 51), Judgement::Accepted));
    assert!(matches!(judge(&two, "/work/a/x", Operation::Read, 51), Judgement::Refused(_)));
    assert!(matches!(judge(&two, "/work/a/x", Operation::Write, 50), Judgement::Refused(_)));
    assert!(matches!(judge(&two, "/work/b", Operation::Read, 50), Judgement::Refused(_)));
    match judge(&two, "/home", Operation::Read, 50) {
        Judgement::Denied(m) => assert_eq!(
            m,
            "no matching right for 'read' on '/home' under trust set of 2 authorities"
        ),
        other => panic!("{other:?}"),
    }
    match engine.judge_multi_at(&two, &[first.public()], "/work/a/x", Operation::Read, 0) {
        Judgement::Denied(m) => assert_eq!(
            m,
            format!(
                "third-party block signed by {} is not in the trust set",
                hex::encode(second.public().to_bytes())
            )
        ),
        other => panic!("{other:?}"),
    }
    assert!(matches!(
        engine.judge_multi_at(&two[2..], &both, "/work/a/x", Operation::Read, 0),
        Judgement::Invalid(_)
    ));
}

#[test]
fn rights_are_checked_by_pattern_and_operation() {
    let rights = vec![
        ("/a/**".to_string(), "read".to_string()),
        ("/b/*".to_string(), "write".to_string()),
    ];
    let none: Vec<String> = vec![];
    let some = vec!["ctx.note".to_string()];
    assert!(check_rights(&rights, &none, "/a/x/y", Operation::Read, None).is_ok());
    assert!(check_rights(&rights, &some, "/b/x", Operation::Write, Some("anything")).is_ok());
    assert_eq!(
        check_rights(&rights, &none, "/b/x/y", Operation::Write, None).unwrap_err(),
        "no matching right for 'write' on '/b/x/y'"
    );
    assert_eq!(
        check_rights(&rights, &none, "/a/x", Operation::Write, None).unwrap_err(),
        "no matching right for 'write' on '/a/x'"
    );
    assert_eq!(
        check_rights(&rights, &some, "/a/x", Operation::Read, None).unwrap_err(),
        "token has kind_allowed restriction but no event_type provided for verification"
    );
}

#[test]
fn the_first_untrusted_third_party_is_named() {
    let known = BiscuitKeyPair::new().public();
    let other = BiscuitKeyPair::new().public();
    let listed = |k: &[u8]| Some((KeyAlgorithm::Ed25519, k.to_vec()));
    let externals = vec![None, listed(&known.to_bytes()), listed(&other.to_bytes()), listed(&[1])];
    assert!(check_trust(&vec![None, None], &[]).is_ok());
    assert_eq!(
        check_trust(&externals, &[known]).unwrap_err(),
        format!(
            "third-party block signed by {} is not in the trust set",
            hex::encode(other.to_bytes())
        )
    );
}

#[test]
fn the_answers_of_a_token_are_put_together() {
    let rights = vec![("/a/**".to_string(), "read".to_string())];
    let none: Vec<String> = vec![];
    let refused = || Answer::Refused(biscuit_auth::error::Token::InternalError);
    let ask = |first: Answer, subject: &str, second: Answer| {
        conclude(first, &rights, &none, subject, Operation::Read, None, second)
    };
    assert!(matches!(ask(Answer::Allowed, "/b", refused()), Judgement::Accepted));
    assert!(matches!(ask(refused(), "/a/x", Answer::Allowed), Judgement::Accepted));
    assert!(matches!(ask(refused(), "/a/x", refused()), Judgement::Refused(_)));
    assert!(matches!(
        ask(refused(), "/b", Answer::Allowed),
        Judgement::Denied(m) if m == "no matching right for 'read' on '/b'"
    ));
    let failed = Answer::Failed(biscuit_auth::error::Token::InternalError);
    assert!(matches!(ask(refused(), "/a", failed), Judgement::Invalid(_)));
}

#[test]
fn an_unrevoked_token_is_verified() {
    let engine = CapEngine::new();
    let token = engine.mint("/a/**", &[Operation::Read], None, None, None).unwrap();
    let id = id_of(&engine, &token);
    let asked = |subject: &str, revoked: bool| {
        settled(|| {
            engine.verify_with_revocation(&token, subject, Operation::Read, None, |t| {
                assert_eq!(t, id);
                revoked
            })
        })
    };
    assert!(asked("/a/x", false).is_ok());
    assert!(matches!(
        asked("/a/x", true),
        Err(CapError::Denied(m)) if m == format!("token {id} has been revoked")
    ));
    assert!(matches!(
        asked("/a\"", false),
        Err(CapError::Denied(m)) if m == "subject contains invalid characters for capability tokens"
    ));
}

/// A library error that is none of the time it takes.
fn is_library_error<T>(r: Result<T, CapError>) -> bool {
    matches!(r, Err(CapError::Biscuit(_)))
}

#[test]
fn texts_with_escapes_mean_what_they_say() {
    let engine = CapEngine::new();
    let budget = BudgetLimit { currency: r"U\\S\nD".to_string(), amount_micro_units: 7 };
    let token = engine
        .mint_full(
            r"/a\\b",
            &[Operation::Read],
            None,
            Some(&[r"k\\"]),
            None,
            Some(&budget),
            &[],
        )
        .unwrap();
    let caveats = settled(|| engine.extract_stateful_caveats(&token)).unwrap();
    assert_eq!(caveats.budget_limit.unwrap().currency, "U\\S\nD");
    let ask = |subject: &str, kind: &str| {
        settled(|| engine.verify(&token, subject, Operation::Read, Some(kind)))
    };
    assert!(ask(r"/a\\b", r"k\\").is_ok(), "named by what it says");
    assert!(matches!(ask(r"/a\\c", r"k\\"), Err(CapError::Denied(_))));
    assert!(is_library_error(ask(r"/a\b", r"k\\")), "no such escape");
    assert!(is_library_error(ask(r"/a\\b", r"k\")), "the quote is escaped");
    let wide = engine.mint(r"/a\\/**", &[Operation::Read], None, None, None).unwrap();
    let under = settled(|| engine.verify(&wide, r"/a\\/x", Operation::Read, None));
    assert!(matches!(under, Err(CapError::Denied(_))), "a pattern meets the text as written");
}

#[test]
fn texts_that_are_no_strings_are_refused() {
    let engine = CapEngine::new();
    let read = [Operation::Read];
    for glob in [r"/a\x", r"/a\", r"\/**", r"/\\\"] {
        assert!(is_library_error(engine.mint(glob, &read, None, None, None)), "{glob}");
        assert!(engine.mint(glob, &[], None, None, None).is_ok(), "{glob} is not written");
    }
    for kinds in [
        &[r"a\"][..],
        &[r"a\", ","],
        &[r"a\", ",", ", "],
        &[r"a\", ",", r",\"],
        &[r"a\", "", ""],
        &[r"a\", ", 5"],
        &[r"a\", " <- x"],
    ] {
        for currency in ["USD", ",", r",\", ""] {
            let budget = BudgetLimit { currency: currency.to_string(), amount_micro_units: 1 };
            let minted =
                engine.mint_full("/**", &[], None, Some(kinds), None, Some(&budget), &[]);
            assert!(is_library_error(minted), "{kinds:?} {currency}");
            let minted =
                engine.mint_full("/**", &[], None, Some(kinds), None, None, &[Operation::Read]);
            assert!(is_library_error(minted), "{kinds:?}");
        }
    }
    let token = engine.mint("/**", &read, None, None, None).unwrap();
    for glob in [r"/a\", r"/a\x", r"\/*"] {
        assert!(is_library_error(engine.attenuate(&token, glob, &read)), "{glob}");
        assert!(is_library_error(engine.verify(&token, glob, Operation::Read, None)), "{glob}");
        assert!(is_library_error(engine.verify(&token, ",", Operation::Read, Some(glob))));
    }
    assert!(engine.attenuate(&token, r"\/**n", &read).is_ok(), "the path is an escape");
    let key = BiscuitKeyPair::new().private();
    for prefixes in [&[r"a\"][..], &[r"a\", " + "], &[r"a\", " + ", " || "], &[r"a\", ", "]] {
        let caveats: Vec<Caveat> =
            prefixes.iter().map(|p| Caveat::SubjectPrefix(p.to_string())).collect();
        let made = engine.attenuate_with_block(&token, &key, &caveats);
        assert!(is_library_error(made), "{prefixes:?}");
    }
}

#[test]
fn the_token_before_an_attenuation_allows_as_much() {
    let engine = CapEngine::new();
    let ops = [Operation::Read, Operation::Write];
    let earlier = engine.mint("/work/**", &ops, None, None, None).unwrap();
    let later = engine.attenuate(&earlier, "/work/a/**", &[Operation::Read]).unwrap();
    for subject in ["/work/a/x", "/work/b", "/home"] {
        for op in ops {
            let narrow = settled(|| engine.verify(&later, subject, op, None)).is_ok();
            let wide = settled(|| engine.verify(&earlier, subject, op, None)).is_ok();
            assert!(!narrow || wide, "{subject} {op:?}");
            assert_eq!(narrow, subject == "/work/a/x" && op == Operation::Read);
        }
    }
}
