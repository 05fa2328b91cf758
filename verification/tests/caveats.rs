//! Caveats that need state: rates, budgets and approvals.

use ctxd::cap::engine::CapEngine;
use ctxd::cap::error::CapError;
use ctxd::cap::operation::Operation;
use ctxd::cap::state::{
    ApprovalDecision, BudgetLimit, CaveatState, InMemoryCaveatState, OperationCost,
};
use ctxd::cap::stateful::{settle_approval, wait_step};
use std::time::{Duration, Instant};

/// Repeats a call whose evaluation ran out of its time slice: that comes before
/// anything is charged.
fn settled<T>(mut call: impl FnMut() -> Result<T, CapError>) -> Result<T, CapError> {
    for _ in 0..400 {
        match call() {
            Err(CapError::Biscuit(biscuit_auth::error::Token::RunLimit(_))) => {}
            other => return other,
        }
    }
    call()
}

/// Stands in for the state where none is given.
fn without_state(engine: &CapEngine, token: &[u8], op: Operation) -> Result<(), CapError> {
    settled(|| {
        engine.verify_with_state::<InMemoryCaveatState>(token, "/work/x", op, None, None, 1_000)
    })
}

fn at(
    engine: &CapEngine,
    token: &[u8],
    op: Operation,
    state: &mut InMemoryCaveatState,
    now: i64,
) -> Result<bool, CapError> {
    settled(|| {
        engine.admit_request(token, "/work/x", op, None, Some(&mut *state), now, "appr-1")
    })
}

#[test]
fn rate_limit_admits_first_n_blocks_n_plus_one() {
    let engine = CapEngine::new();
    let token = engine.mint("/**", &[Operation::Read], None, None, Some(5)).expect("mint");
    let mut state = InMemoryCaveatState::new();
    for i in 1..=5 {
        at(&engine, &token, Operation::Read, &mut state, 1_000)
            .unwrap_or_else(|e| panic!("hit {i} should succeed but got {e:?}"));
    }
    match at(&engine, &token, Operation::Read, &mut state, 1_000) {
        Err(CapError::RateLimited { ops_per_sec }) => assert_eq!(ops_per_sec, 5),
        other => panic!("expected RateLimited, got {other:?}"),
    }
}

#[test]
fn rate_limit_resets_on_next_window() {
    let engine = CapEngine::new();
    let token = engine.mint("/**", &[Operation::Read], None, None, Some(2)).expect("mint");
    let mut state = InMemoryCaveatState::new();
    for _ in 0..2 {
        at(&engine, &token, Operation::Read, &mut state, 1_000).unwrap();
    }
    assert!(matches!(
        at(&engine, &token, Operation::Read, &mut state, 1_000),
        Err(CapError::RateLimited { ops_per_sec: 2 })
    ));
    at(&engine, &token, Operation::Read, &mut state, 1_001)
        .expect("post-rollover hit should succeed");
}

#[test]
fn rate_limit_absent_means_unlimited() {
    let engine = CapEngine::new();
    let token = engine.mint("/**", &[Operation::Read], None, None, None).expect("mint");
    let mut state = InMemoryCaveatState::new();
    for _ in 0..50 {
        settled(|| {
            engine.verify_with_state(
                &token,
                "/work/x",
                Operation::Read,
                None,
                Some(&mut state),
                5_000,
            )
        })
        .expect("should never rate-limit when fact is absent");
    }
}

#[test]
fn budget_limit_blocks_eleventh_write() {
    let engine = CapEngine::new();
    let budget = BudgetLimit { currency: "USD".to_string(), amount_micro_units: 10_000 };
    let token = engine
        .mint_full("/**", &[Operation::Write], None, None, None, Some(&budget), &[])
        .expect("mint");
    let mut state = InMemoryCaveatState::new();
    for i in 0..10 {
        settled(|| {
            engine.verify_with_state(
                &token,
                "/work/x",
                Operation::Write,
                None,
                Some(&mut state),
                5_000,
            )
        })
        .unwrap_or_else(|e| panic!("write {i} should succeed but got {e:?}"));
    }
    let token_id = settled(|| engine.extract_token_id(&token))
        .expect("token_id query")
        .expect("token has token_id fact");
    assert_eq!(state.budget_get(&token_id, "USD").unwrap(), 10_000);
    let res = settled(|| {
        engine.verify_with_state(
            &token,
            "/work/x",
            Operation::Write,
            None,
            Some(&mut state),
            5_000,
        )
    });
    match res {
        Err(CapError::BudgetExceeded { currency, spent, limit }) => {
            assert_eq!(currency, "USD");
            assert_eq!(spent, 11_000);
            assert_eq!(limit, 10_000);
        }
        other => panic!("expected BudgetExceeded, got {other:?}"),
    }
}

#[test]
fn budget_limit_zero_cost_op_does_not_charge() {
    let engine = CapEngine::new();
    let budget = BudgetLimit { currency: "USD".to_string(), amount_micro_units: 1 };
    let token = engine
        .mint_full(
            "/**",
            &[Operation::Read, Operation::Write],
            None,
            None,
            None,
            Some(&budget),
            &[],
        )
        .expect("mint");
    let mut state = InMemoryCaveatState::new();
    for _ in 0..10 {
        settled(|| {
            engine.verify_with_state(
                &token,
                "/work/x",
                Operation::Read,
                None,
                Some(&mut state),
                5_000,
            )
        })
        .expect("read with zero cost");
    }
    assert_eq!(OperationCost(OperationCost::READ).as_i64(), 0);
}

#[test]
fn budget_with_none_state_returns_ok() {
    let engine = CapEngine::new();
    let budget = BudgetLimit { currency: "USD".to_string(), amount_micro_units: 1 };
    let token = engine
        .mint_full("/**", &[Operation::Write], None, None, None, Some(&budget), &[])
        .expect("mint");
    for _ in 0..10 {
        without_state(&engine, &token, Operation::Write)
            .expect("write with no state should succeed");
    }
}

#[test]
fn budget_facts_round_trip_through_extract() {
    let engine = CapEngine::new();
    let budget = BudgetLimit {
        currency: "OPENAI_TOKENS".to_string(),
        amount_micro_units: 5_000_000,
    };
    let token = engine
        .mint_full("/**", &[Operation::Write], None, None, None, Some(&budget), &[])
        .expect("mint");
    let stateful = settled(|| engine.extract_stateful_caveats(&token)).expect("extract");
    assert_eq!(
        stateful.budget_limit.as_ref().map(|b| &b.currency[..]),
        Some("OPENAI_TOKENS")
    );
    assert_eq!(
        stateful.budget_limit.as_ref().map(|b| b.amount_micro_units),
        Some(5_000_000)
    );
}

#[test]
fn read_and_subjects_are_free() {
    assert_eq!(OperationCost::from(Operation::Read).0, 0);
    assert_eq!(OperationCost::from(Operation::Subjects).0, 0);
}

#[test]
fn write_and_search_have_baseline_cost() {
    assert_eq!(OperationCost::from(Operation::Write).0, OperationCost::WRITE);
    assert_eq!(OperationCost::from(Operation::Search).0, OperationCost::SEARCH);
    assert!(OperationCost::WRITE >= 1_000);
    assert!(OperationCost::SEARCH >= 1_000);
}

#[test]
fn timeline_costs_more_than_write() {
    assert!(OperationCost::TIMELINE > OperationCost::WRITE);
    assert_eq!(OperationCost::TIMELINE, 2_000);
}

#[test]
fn entities_and_related_are_cheaper_than_writes() {
    assert!(OperationCost::ENTITIES <= OperationCost::WRITE);
    assert!(OperationCost::RELATED <= OperationCost::WRITE);
    assert_eq!(OperationCost::ENTITIES, 500);
    assert_eq!(OperationCost::RELATED, 500);
}

#[test]
fn admin_peer_subscribe_are_free() {
    assert_eq!(OperationCost::from(Operation::Admin).0, 0);
    assert_eq!(OperationCost::from(Operation::Peer).0, 0);
    assert_eq!(OperationCost::from(Operation::Subscribe).0, 0);
}

#[test]
fn cost_fits_in_i64() {
    let costs = [
        OperationCost::READ,
        OperationCost::WRITE,
        OperationCost::SUBJECTS,
        OperationCost::SEARCH,
        OperationCost::ENTITIES,
        OperationCost::RELATED,
        OperationCost::TIMELINE,
        OperationCost::ADMIN,
        OperationCost::PEER,
        OperationCost::SUBSCRIBE,
    ];
    for c in costs {
        assert!(OperationCost(c).as_i64() >= 0);
    }
}

#[test]
fn costs_beyond_the_signed_range_saturate() {
    assert_eq!(OperationCost(u64::MAX).as_i64(), i64::MAX);
    let mut st = InMemoryCaveatState::new();
    assert_eq!(st.budget_increment("t", "USD", i64::MAX).unwrap(), i64::MAX);
    assert_eq!(st.budget_increment("t", "USD", 1).unwrap(), i64::MAX);
}

#[test]
fn budget_increments_monotonically() {
    let mut st = InMemoryCaveatState::new();
    assert_eq!(st.budget_increment("tok-1", "USD", 100).unwrap(), 100);
    assert_eq!(st.budget_increment("tok-1", "USD", 250).unwrap(), 350);
    assert_eq!(st.budget_get("tok-1", "USD").unwrap(), 350);
    assert_eq!(st.budget_get("tok-1", "OPENAI_TOKENS").unwrap(), 0);
}

#[test]
fn budget_limit_check_rejects_overage() {
    let limit = BudgetLimit { currency: "USD".to_string(), amount_micro_units: 1_000_000 };
    assert!(limit.check(999_999).is_ok());
    assert!(limit.check(1_000_000).is_ok());
    assert!(limit.check(1_000_001).is_err());
}

#[test]
fn approval_lifecycle() {
    let mut st = InMemoryCaveatState::new();
    st.approval_request("appr-1", "tok-1", "write", "/work/x").unwrap();
    assert_eq!(st.approval_status("appr-1").unwrap(), ApprovalDecision::Pending);
    st.approval_decide("appr-1", ApprovalDecision::Allow).unwrap();
    assert_eq!(st.approval_status("appr-1").unwrap(), ApprovalDecision::Allow);
    assert!(st.approval_status("nope").is_err());
}

fn approval_token(engine: &CapEngine) -> Vec<u8> {
    engine
        .mint_full("/**", &[Operation::Write], None, None, None, None, &[Operation::Write])
        .expect("mint")
}

fn decided_by(
    engine: &CapEngine,
    token: &[u8],
    state: &mut InMemoryCaveatState,
) -> Result<(), CapError> {
    settled(|| {
        engine.verify_with_state(
            token,
            "/work/x",
            Operation::Write,
            None,
            Some(&mut *state),
            5_000,
        )
    })
}

/// Waits as a verifier does, while an approver decides after some looks at the state.
fn wait_for(
    state: &mut InMemoryCaveatState,
    approval_id: &str,
    timeout: Duration,
    decides: Option<ApprovalDecision>,
) -> ApprovalDecision {
    let started = Instant::now();
    let mut looks = 0;
    loop {
        let status = state.approval_status(approval_id).expect("status");
        let waited = started.elapsed().as_millis() as u64;
        if let Some(decision) = wait_step(status, waited, timeout.as_millis() as u64) {
            return decision;
        }
        looks += 1;
        if let (3, Some(decision)) = (looks, decides) {
            state.approval_decide(approval_id, decision).expect("decide");
        }
    }
}

/// A verification whose approval is decided while the verifier waits.
fn decided_meanwhile(decision: ApprovalDecision) -> (String, Result<(), CapError>) {
    let engine = CapEngine::new();
    let token = approval_token(&engine);
    let mut state = InMemoryCaveatState::new();
    assert!(at(&engine, &token, Operation::Write, &mut state, 1_000).unwrap());
    let approval_id = state.test_first_pending_approval().expect("a pending approval");
    let d = wait_for(&mut state, &approval_id, Duration::from_secs(5), Some(decision));
    let answer = settle_approval(&approval_id, d);
    (approval_id, answer)
}

#[test]
fn verify_blocks_then_allow_decides() {
    decided_meanwhile(ApprovalDecision::Allow).1.expect("verify");
    let engine = CapEngine::new();
    let token = approval_token(&engine);
    let mut state = InMemoryCaveatState::new();
    state.foresee(ApprovalDecision::Allow, 4_000);
    state.foresee(ApprovalDecision::Deny, 0);
    decided_by(&engine, &token, &mut state).expect("verify");
    assert_eq!(state.test_first_pending_approval(), None);
    assert!(
        matches!(
            decided_by(&engine, &token, &mut state),
            Err(CapError::ApprovalDenied { .. })
        ),
        "an old approval is no approval"
    );
}

#[test]
fn verify_blocks_then_deny_decides() {
    match decided_meanwhile(ApprovalDecision::Deny) {
        (id, Err(CapError::ApprovalDenied { approval_id })) => assert_eq!(id, approval_id),
        other => panic!("expected ApprovalDenied, got {other:?}"),
    }
    let engine = CapEngine::new();
    let token = approval_token(&engine);
    let mut state = InMemoryCaveatState::new();
    state.foresee(ApprovalDecision::Deny, 4_000);
    match decided_by(&engine, &token, &mut state) {
        Err(CapError::ApprovalDenied { approval_id }) => {
            assert_eq!(state.approval_status(&approval_id).unwrap(), ApprovalDecision::Deny);
            assert_eq!(state.last_wait(&approval_id), Some(5_000));
        }
        other => panic!("expected ApprovalDenied, got {other:?}"),
    }
}

#[test]
fn an_approval_after_the_timeout_comes_too_late() {
    let engine = CapEngine::new();
    let token = approval_token(&engine);
    let mut state = InMemoryCaveatState::new();
    state.foresee(ApprovalDecision::Allow, 5_001);
    match decided_by(&engine, &token, &mut state) {
        Err(CapError::ApprovalTimeout { approval_id }) => {
            assert_eq!(state.approval_status(&approval_id).unwrap(), ApprovalDecision::Pending);
            assert_eq!(state.last_wait(&approval_id), Some(5_000));
            assert_eq!(state.approval_wait(&approval_id, 1).unwrap(), ApprovalDecision::Allow);
        }
        other => panic!("expected ApprovalTimeout, got {other:?}"),
    }
}

#[test]
fn a_wait_ends_with_a_decision_or_its_time() {
    assert_eq!(wait_step(ApprovalDecision::Pending, 99, 100), None);
    assert_eq!(
        wait_step(ApprovalDecision::Pending, 100, 100),
        Some(ApprovalDecision::Pending)
    );
    assert_eq!(wait_step(ApprovalDecision::Deny, 0, 100), Some(ApprovalDecision::Deny));
}

#[test]
fn the_rate_is_asked_about_the_operation() {
    let engine = CapEngine::new();
    let token = engine.mint("/**", &[Operation::Search], None, None, Some(5)).expect("mint");
    let mut state = InMemoryCaveatState::new();
    at(&engine, &token, Operation::Search, &mut state, 1_000).unwrap();
    let id = settled(|| engine.extract_token_id(&token)).unwrap().unwrap();
    assert_eq!(state.last_check(&id), Some("search"));
}

#[test]
fn an_admitted_request_waits_for_its_approval() {
    let engine = CapEngine::new();
    let token = approval_token(&engine);
    let mut state = InMemoryCaveatState::new();
    assert!(at(&engine, &token, Operation::Write, &mut state, 1_000).unwrap());
    assert_eq!(state.test_first_pending_approval(), Some("appr-1".to_string()));
    state.approval_decide("appr-1", ApprovalDecision::Allow).expect("decide");
    settle_approval("appr-1", state.approval_wait("appr-1", 5_000).unwrap()).expect("verify");
}

#[test]
fn unsafe_texts_are_denied_before_anything_is_charged() {
    let engine = CapEngine::new();
    let token = approval_token(&engine);
    let mut state = InMemoryCaveatState::new();
    let ask = |state: &mut InMemoryCaveatState, subject: &str, kind: Option<&str>| {
        engine.verify_with_state_at(
            &token,
            subject,
            Operation::Write,
            kind,
            Some(state),
            1,
            1_000,
            "appr-2",
        )
    };
    assert!(matches!(
        ask(&mut state, "/a\"", None),
        Err(CapError::Denied(m)) if m == "subject contains invalid characters for capability tokens"
    ));
    assert!(matches!(
        ask(&mut state, "/a", Some("b;")),
        Err(CapError::Denied(m))
            if m == "event_type contains invalid characters for capability tokens"
    ));
    assert_eq!(state.test_first_pending_approval(), None);
}

#[test]
fn verify_returns_approval_timeout() {
    let engine = CapEngine::new();
    let token = approval_token(&engine);
    let mut state = InMemoryCaveatState::new();
    let timeout = Duration::from_millis(100);
    assert!(at(&engine, &token, Operation::Write, &mut state, 1_000).unwrap());
    let started = Instant::now();
    let decision = wait_for(&mut state, "appr-1", timeout, None);
    let result = settle_approval("appr-1", decision);
    let elapsed = started.elapsed();
    match result {
        Err(CapError::ApprovalTimeout { approval_id }) => {
            assert!(!approval_id.is_empty(), "approval id must be populated");
        }
        other => panic!("expected ApprovalTimeout, got {other:?}"),
    }
    assert!(elapsed >= timeout, "returned in {elapsed:?}, before timeout {timeout:?}");
    assert!(elapsed < Duration::from_secs(2), "took {elapsed:?}, far longer than expected");
    let result = settled(|| {
        engine.verify_with_state(
            &token,
            "/work/x",
            Operation::Write,
            None,
            Some(&mut state),
            100,
        )
    });
    match result {
        Err(CapError::ApprovalTimeout { approval_id }) => {
            assert_eq!(state.last_wait(&approval_id), Some(100));
        }
        other => panic!("expected ApprovalTimeout, got {other:?}"),
    }
}

#[test]
fn approval_without_state_is_refused() {
    let engine = CapEngine::new();
    let token = approval_token(&engine);
    assert!(matches!(
        without_state(&engine, &token, Operation::Write),
        Err(CapError::ApprovalStateMissing)
    ));
}

#[test]
fn a_refused_rate_charges_nothing() {
    let engine = CapEngine::new();
    let budget = BudgetLimit { currency: "USD".to_string(), amount_micro_units: 10_000 };
    let token = engine
        .mint_full("/**", &[Operation::Write], None, None, Some(1), Some(&budget), &[])
        .expect("mint");
    let mut state = InMemoryCaveatState::new();
    at(&engine, &token, Operation::Write, &mut state, 7).unwrap();
    assert!(matches!(
        at(&engine, &token, Operation::Write, &mut state, 7),
        Err(CapError::RateLimited { ops_per_sec: 1 })
    ));
    let id = settled(|| engine.extract_token_id(&token)).unwrap().unwrap();
    assert_eq!(state.budget_get(&id, "USD").unwrap(), 1_000);
}

#[test]
fn decision_words() {
    assert_eq!(ApprovalDecision::from_word("allow"), Some(ApprovalDecision::Allow));
    assert_eq!(ApprovalDecision::from_word("deny"), Some(ApprovalDecision::Deny));
    assert_eq!(ApprovalDecision::from_word("perhaps"), None);
}

#[test]
fn a_negative_budget_is_refused() {
    let engine = CapEngine::new();
    let budget = BudgetLimit { currency: "USD".to_string(), amount_micro_units: -5 };
    match engine.mint_full("/**", &[Operation::Write], None, None, None, Some(&budget), &[]) {
        Err(CapError::Denied(m)) => assert!(m.contains("non-negative"), "{m}"),
        other => panic!("expected a denial, got {other:?}"),
    }
}
