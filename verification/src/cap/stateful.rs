//! Enforcement of the caveats that need state: rate, budget and approval.

use crate::cap::biscuit;
use crate::cap::datalog;
use crate::cap::datalog::{Grant, Request};
use crate::cap::engine;
use crate::cap::engine::{CapEngine, StatefulCaveats};
use crate::cap::error::CapError;
use crate::cap::operation::Operation;
use crate::cap::state;
use crate::cap::state::{ApprovalDecision, CaveatState, OperationCost};
use crate::outside;
use crate::outside::{clock_now, new_uuid};
use vstd::prelude::*;

verus! {

/// The operation's cost as a signed number.
pub open spec fn cost_of(op: Operation) -> i64 {
    OperationCost::of(op).0 as i64
}

impl Grant {
    /// The currency of its budget.
    pub open spec fn currency(self) -> Seq<char>
        recommends
            self.budget is Some,
    {
        let b = self.budget->0;
        datalog::said(b.0)
    }

    /// The amount of its budget.
    pub open spec fn limit(self) -> i64
        recommends
            self.budget is Some,
    {
        let b = self.budget->0;
        b.1
    }
}

impl StatefulCaveats {
    /// The rate is used up in this second.
    pub open spec fn rate_used_up<S: CaveatState>(
        self,
        before: &S,
        token_id: Seq<char>,
        now: i64,
    ) -> bool {
        self.rate_limit_ops_per_sec matches Some(n) && before.hits(token_id, now) >= n
    }

    /// The operation is charged to a budget.
    pub open spec fn charges(self, op: Operation) -> bool {
        self.budget_limit is Some && cost_of(op) > 0
    }

    /// The spend after the charge.
    pub open spec fn total_after<S: CaveatState>(
        self,
        before: &S,
        token_id: Seq<char>,
        op: Operation,
    ) -> i64 {
        state::saturate(
            before.spent(token_id, self.budget_limit->0.currency@) + cost_of(op),
        )
    }

    /// The charge exceeds the budget.
    pub open spec fn over_budget<S: CaveatState>(
        self,
        before: &S,
        token_id: Seq<char>,
        op: Operation,
    ) -> bool {
        self.charges(op) && self.total_after(before, token_id, op)
            > self.budget_limit->0.amount_micro_units
    }

    /// The operation needs an approval.
    pub open spec fn needs_approval(self, op: Operation) -> bool {
        self.requires_approval@.contains(op)
    }
}

fn needs_approval(caveats: &StatefulCaveats, op: Operation) -> (r: bool)
    ensures
        r == caveats.needs_approval(op),
{
    let mut i: usize = 0;
    while i < caveats.requires_approval.len()
        invariant
            i <= caveats.requires_approval@.len(),
            forall|j: int| 0 <= j < i ==> caveats.requires_approval@[j] != op,
        decreases caveats.requires_approval.len() - i,
    {
        if caveats.requires_approval[i] == op {
            return true;
        }
        i += 1;
    }
    false
}

/// What enforcing the caveats of a token answers, and what becomes of the state.
///
/// First the rate: where it is used up, nothing is charged. Then the budget: the
/// charge is made before it is held against the limit, and stays. Then the
/// approval: a request for this token, operation and subject is recorded under the
/// given id. The answer says whether a decision on that request has to be waited for.
pub open spec fn enforced<S: CaveatState>(
    caveats: StatefulCaveats,
    token_id: Seq<char>,
    subject: Seq<char>,
    op: Operation,
    now: i64,
    approval_id: Seq<char>,
    before: &S,
    after: &S,
    r: Result<bool, CapError>,
) -> bool {
    match r {
        Ok(pending) => {
            &&& !caveats.rate_used_up(before, token_id, now)
            &&& counted(caveats, token_id, now, before, after)
            &&& held_against_rate(caveats, token_id, op, before, after)
            &&& same_waits(before, after)
            &&& !caveats.over_budget(before, token_id, op)
            &&& charged(caveats, token_id, op, before, after)
            &&& pending == caveats.needs_approval(op)
            &&& forall|a: Seq<char>| #[trigger]
                after.decision(a) == if pending && a == approval_id {
                    Some(before.decision(a).unwrap_or(ApprovalDecision::Pending))
                } else {
                    before.decision(a)
                }
            &&& forall|a: Seq<char>| #[trigger]
                after.request(a) == if pending && a == approval_id && before.decision(a) is None {
                    Some((token_id, op.name(), subject))
                } else {
                    before.request(a)
                }
        },
        Err(e) => before.reliable() ==> held_against_rate(caveats, token_id, op, before, after)
            && same_waits(before, after) && {
            ||| {
                &&& caveats.rate_used_up(before, token_id, now)
                &&& e matches CapError::RateLimited { ops_per_sec }
                &&& Some(ops_per_sec) == caveats.rate_limit_ops_per_sec
                &&& after.hits(token_id, now) == before.hits(token_id, now)
                &&& forall|t: Seq<char>, c: Seq<char>| #[trigger]
                    after.spent(t, c) == before.spent(t, c)
                &&& same_approvals(before, after)
            }
            ||| {
                &&& !caveats.rate_used_up(before, token_id, now)
                &&& counted(caveats, token_id, now, before, after)
                &&& caveats.over_budget(before, token_id, op)
                &&& charged(caveats, token_id, op, before, after)
                &&& e matches CapError::BudgetExceeded { currency, spent, limit }
                &&& currency@ == caveats.budget_limit->0.currency@
                &&& spent == caveats.total_after(before, token_id, op)
                &&& limit == caveats.budget_limit->0.amount_micro_units
                &&& same_approvals(before, after)
            }
        },
    }
}

/// The request was counted, where the token has a rate; no other token's count changed.
pub open spec fn counted<S: CaveatState>(
    caveats: StatefulCaveats,
    token_id: Seq<char>,
    now: i64,
    before: &S,
    after: &S,
) -> bool {
    &&& caveats.rate_limit_ops_per_sec is Some ==> after.hits(token_id, now) == before.hits(
        token_id,
        now,
    ) + 1
    &&& forall|t: Seq<char>, s: i64|
        t != token_id || caveats.rate_limit_ops_per_sec is None ==> #[trigger] after.hits(t, s)
            == before.hits(t, s)
}

/// This operation was held against the rate of the token, where it has one, and no other was.
pub open spec fn held_against_rate<S: CaveatState>(
    caveats: StatefulCaveats,
    token_id: Seq<char>,
    op: Operation,
    before: &S,
    after: &S,
) -> bool {
    forall|t: Seq<char>| #[trigger]
        after.checked(t) == if t == token_id && caveats.rate_limit_ops_per_sec is Some {
            Some(op.name())
        } else {
            before.checked(t)
        }
}

/// No approval was waited for.
pub open spec fn same_waits<S: CaveatState>(before: &S, after: &S) -> bool {
    forall|a: Seq<char>| #[trigger] after.waited(a) == before.waited(a)
}

/// The operation was charged, where it costs and the token has a budget; no other account
/// changed.
pub open spec fn charged<S: CaveatState>(
    caveats: StatefulCaveats,
    token_id: Seq<char>,
    op: Operation,
    before: &S,
    after: &S,
) -> bool {
    forall|t: Seq<char>, c: Seq<char>| #[trigger]
        after.spent(t, c) == if caveats.charges(op) && t == token_id && c
            == caveats.budget_limit->0.currency@ {
            caveats.total_after(before, token_id, op)
        } else {
            before.spent(t, c)
        }
}

/// Neither a request nor a decision changed.
pub open spec fn same_approvals<S: CaveatState>(before: &S, after: &S) -> bool {
    &&& forall|a: Seq<char>| #[trigger] after.decision(a) == before.decision(a)
    &&& forall|a: Seq<char>| #[trigger] after.request(a) == before.request(a)
}

/// Enforces the stateful caveats of a token that has passed its static checks.
pub fn enforce<S: CaveatState>(
    caveats: &StatefulCaveats,
    token_id: &str,
    subject: &str,
    operation: Operation,
    now: i64,
    approval_id: &str,
    state: &mut S,
) -> (r: Result<bool, CapError>)
    ensures
        enforced(
            *caveats,
            token_id@,
            subject@,
            operation,
            now,
            approval_id@,
            old(state),
            final(state),
            r,
        ),
        old(state).reliable() ==> final(state).reliable(),
{
    if let Some(n) = caveats.rate_limit_ops_per_sec {
        match state.rate_check(token_id, operation.as_str(), n, now) {
            Ok(true) => {},
            Ok(false) => {
                return Err(CapError::RateLimited { ops_per_sec: n });
            },
            Err(e) => {
                return Err(e);
            },
        }
    }
    if let Some(budget) = &caveats.budget_limit {
        let cost: i64 = OperationCost::from(operation).as_i64();
        if cost > 0 {
            match state.budget_increment(token_id, &budget.currency, cost) {
                Ok(total) => {
                    match budget.check(total) {
                        Ok(_) => {},
                        Err(e) => {
                            return Err(e);
                        },
                    }
                },
                Err(e) => {
                    return Err(e);
                },
            }
        }
    }
    if needs_approval(caveats, operation) {
        match state.approval_request(approval_id, token_id, operation.as_str(), subject) {
            Ok(_) => {},
            Err(e) => {
                return Err(e);
            },
        }
        return Ok(true);
    }
    Ok(false)
}

/// Turns the decision on an approval into the answer to the request that needed
/// it: an approval that is still pending has timed out.
pub fn settle_approval(approval_id: &str, decision: ApprovalDecision) -> (r: Result<(), CapError>)
    ensures
        match decision {
            ApprovalDecision::Allow => r is Ok,
            ApprovalDecision::Deny => r matches Err(CapError::ApprovalDenied { approval_id: id })
                && id@ == approval_id@,
            ApprovalDecision::Pending => r matches Err(
                CapError::ApprovalTimeout { approval_id: id },
            ) && id@ == approval_id@,
        },
{
    match decision {
        ApprovalDecision::Allow => Ok(()),
        ApprovalDecision::Deny => Err(
            CapError::ApprovalDenied { approval_id: String::from_str(approval_id) },
        ),
        ApprovalDecision::Pending => Err(
            CapError::ApprovalTimeout { approval_id: String::from_str(approval_id) },
        ),
    }
}

/// Whether a wait for an approval is over after so many milliseconds, and with which decision:
/// as soon as there is one, and with none once the time has run out.
pub fn wait_step(decision: ApprovalDecision, waited_ms: u64, timeout_ms: u64) -> (r: Option<
    ApprovalDecision,
>)
    ensures
        r == if decision == ApprovalDecision::Pending && waited_ms < timeout_ms {
            None
        } else {
            Some(decision)
        },
{
    if decision == ApprovalDecision::Pending && waited_ms < timeout_ms {
        None
    } else {
        Some(decision)
    }
}

/// What admitting a request without a state answers: what the static checks answer, where
/// they refuse; that the operation needs an approval, which nobody could give; else that
/// nothing is to be waited for.
pub open spec fn admitted_without_state(
    root: Seq<u8>,
    token: Seq<u8>,
    q: Request,
    r: Result<bool, CapError>,
) -> bool {
    ||| r matches Err(e) && engine::verdict(root, token, q, Err(e))
    ||| {
        &&& engine::verdict(root, token, q, Ok(()))
        &&& match r {
            Ok(pending) => !pending && (has_no_id(root, token) || exists|c: StatefulCaveats| #[trigger]
                engine::states_caveats(root, token, c) && !c.needs_approval(q.operation)),
            Err(e) => engine::is_fault(root, token, e) || (e is ApprovalStateMissing && exists|
                c: StatefulCaveats,
            | #[trigger]
                engine::states_caveats(root, token, c) && c.needs_approval(q.operation)),
        }
    }
}

/// The token names no id, and so was not minted here.
pub open spec fn has_no_id(root: Seq<u8>, token: Seq<u8>) -> bool {
    engine::names_token(root, token, Ok(None))
}

/// What admitting a request answers, and what becomes of the state: what the static checks
/// answer, where they refuse, and an error of the token library, both with the state as it
/// was; else what enforcing the token's caveats answers.
pub open spec fn admitted<S: CaveatState>(
    root: Seq<u8>,
    token: Seq<u8>,
    q: Request,
    approval_id: Seq<char>,
    before: &S,
    after: &S,
    r: Result<bool, CapError>,
) -> bool {
    ||| r matches Err(e) && engine::verdict(root, token, q, Err(e)) && *after == *before
    ||| {
        &&& engine::verdict(root, token, q, Ok(()))
        &&& {
            ||| r matches Err(e) && engine::is_fault(root, token, e) && *after == *before
            ||| r == Ok::<bool, CapError>(false) && has_no_id(root, token) && *after == *before
            ||| exists|id: Seq<char>, c: StatefulCaveats|
                engine::is_id_of(root, token, id) && engine::states_caveats(root, token, c)
                    && #[trigger] enforced(
                    c,
                    id,
                    q.subject,
                    q.operation,
                    q.now,
                    approval_id,
                    before,
                    after,
                    r,
                )
        }
    }
}

/// What the decision on an approval makes of the request that needed it. The decision was
/// waited for with this timeout.
pub open spec fn settled<S: CaveatState>(
    approval_id: Seq<char>,
    timeout_ms: u64,
    before: &S,
    after: &S,
    r: Result<(), CapError>,
) -> bool {
    &&& r is Ok ==> after.decision(approval_id) == Some(ApprovalDecision::Allow)
    &&& r is Ok || before.reliable() ==> after.request(approval_id) == before.request(approval_id)
    &&& r is Ok || before.reliable() ==> after.waited(approval_id) == Some(timeout_ms)
    &&& before.reliable() ==> match after.decision(approval_id) {
        Some(ApprovalDecision::Allow) => r is Ok,
        Some(ApprovalDecision::Deny) => r matches Err(
            CapError::ApprovalDenied { approval_id: id },
        ) && id@ == approval_id,
        Some(ApprovalDecision::Pending) => r matches Err(
            CapError::ApprovalTimeout { approval_id: id },
        ) && id@ == approval_id,
        None => false,
    }
}

/// What a verification with a state answers, and what becomes of the state: what admitting
/// the request answers, and, where an approval is needed, what the decision on the request
/// recorded under this id, waited for with this timeout, makes of it.
pub open spec fn stateful_verdict<S: CaveatState>(
    root: Seq<u8>,
    token: Seq<u8>,
    q: Request,
    approval_id: Seq<char>,
    timeout_ms: u64,
    before: &S,
    after: &S,
    r: Result<(), CapError>,
) -> bool {
    exists|asked: S, a: Result<bool, CapError>| #[trigger]
        admitted(root, token, q, approval_id, before, &asked, a) && (before.reliable()
            ==> asked.reliable()) && match a {
            Err(e) => r == Err::<(), CapError>(e) && *after == asked,
            Ok(false) => r is Ok && *after == asked,
            Ok(true) => settled(approval_id, timeout_ms, &asked, after, r),
        }
}

/// What a verification without a state answers.
pub open spec fn stateless_verdict(
    root: Seq<u8>,
    token: Seq<u8>,
    q: Request,
    r: Result<(), CapError>,
) -> bool {
    exists|a: Result<bool, CapError>| #[trigger]
        admitted_without_state(root, token, q, a) && match a {
            Err(e) => r == Err::<(), CapError>(e),
            Ok(_) => r is Ok,
        }
}

/// The request names no text that a token cannot hold; else the denial.
pub open spec fn denies_unsafe(q: Request, r: Result<(), CapError>) -> bool {
    &&& !datalog::safe(q.subject) ==> (r matches Err(e) && e.denies(
        datalog::unsafe_message("subject"@),
    ))
    &&& datalog::safe(q.subject) && (q.event_type matches Some(t) && !datalog::safe(t)) ==> (
    r matches Err(e) && e.denies(datalog::unsafe_message("event_type"@)))
}

impl CapEngine {
    /// Admits a request as far as that goes without waiting: the static checks
    /// first, then rate and budget. Where the operation needs an approval, a
    /// request is recorded under `approval_id`, and the answer is `true`: the caller
    /// waits for the decision and puts it to [`settle_approval`].
    ///
    /// A token without an id has no stateful caveats. Without a state, budgets and
    /// rates are observed but not enforced; an operation that needs approval is
    /// refused.
    pub fn admit_request<S: CaveatState>(
        &self,
        token: &[u8],
        subject: &str,
        operation: Operation,
        event_type: Option<&str>,
        state: Option<&mut S>,
        now: i64,
        approval_id: &str,
    ) -> (r: Result<bool, CapError>)
        ensures
            match state {
                None => admitted_without_state(
                    self.root(),
                    token@,
                    datalog::request_of(now, subject@, operation, event_type),
                    r,
                ),
                Some(s) => admitted(
                    self.root(),
                    token@,
                    datalog::request_of(now, subject@, operation, event_type),
                    approval_id@,
                    &*s,
                    final(s),
                    r,
                ) && ((*s).reliable() ==> final(s).reliable()),
            },
    {
        match self.verify_at(token, subject, operation, event_type, now) {
            Ok(_) => {},
            Err(e) => {
                return Err(e);
            },
        }
        let token_id = match self.extract_token_id(token) {
            Ok(Some(id)) => id,
            Ok(None) => {
                return Ok(false);
            },
            Err(e) => {
                return Err(e);
            },
        };
        let caveats = match self.extract_stateful_caveats(token) {
            Ok(c) => c,
            Err(e) => {
                return Err(e);
            },
        };
        match state {
            None => {
                assert(engine::states_caveats(self.root(), token@, caveats));
                if needs_approval(&caveats, operation) {
                    Err(CapError::ApprovalStateMissing)
                } else {
                    Ok(false)
                }
            },
            Some(s) => enforce(&caveats, &token_id, subject, operation, now, approval_id, s),
        }
    }

    /// Verify a capability token at a given second, enforcing its stateful caveats
    /// against `state`. An approval is asked for under `approval_id`.
    pub fn verify_with_state_at<S: CaveatState>(
        &self,
        token: &[u8],
        subject: &str,
        operation: Operation,
        event_type: Option<&str>,
        state: Option<&mut S>,
        approval_timeout_ms: u64,
        now: i64,
        approval_id: &str,
    ) -> (r: Result<(), CapError>)
        ensures
            denies_unsafe(datalog::request_of(now, subject@, operation, event_type), r),
            match state {
                None => stateless_verdict(
                    self.root(),
                    token@,
                    datalog::request_of(now, subject@, operation, event_type),
                    r,
                ),
                Some(s) => stateful_verdict(
                    self.root(),
                    token@,
                    datalog::request_of(now, subject@, operation, event_type),
                    approval_id@,
                    approval_timeout_ms,
                    &*s,
                    final(s),
                    r,
                ),
            },
    {
        match state {
            None => {
                let a = self.admit_request::<S>(
                    token,
                    subject,
                    operation,
                    event_type,
                    None,
                    now,
                    approval_id,
                );
                let ghost a0 = a;
                match a {
                    Ok(_) => Ok(()),
                    Err(e) => Err(e),
                }
            },
            Some(s) => {
                let a = self.admit_request(
                    token,
                    subject,
                    operation,
                    event_type,
                    Some(s),
                    now,
                    approval_id,
                );
                let ghost a0 = a;
                let ghost asked = *s;
                match a {
                    Ok(false) => Ok(()),
                    Ok(true) => {
                        match s.approval_wait(approval_id, approval_timeout_ms) {
                            Ok(d) => settle_approval(approval_id, d),
                            Err(e) => Err(e),
                        }
                    },
                    Err(e) => Err(e),
                }
            },
        }
    }

    /// Verify a capability token at the time of the machine's clock, enforcing
    /// its stateful caveats against `state`. An approval is asked for under a fresh id
    /// and waited for, for at most `approval_timeout_ms` milliseconds.
    pub fn verify_with_state<S: CaveatState>(
        &self,
        token: &[u8],
        subject: &str,
        operation: Operation,
        event_type: Option<&str>,
        state: Option<&mut S>,
        approval_timeout_ms: u64,
    ) -> (r: Result<(), CapError>)
        ensures
            denies_unsafe(datalog::request_of(0, subject@, operation, event_type), r),
            match state {
                None => exists|now: i64| #[trigger]
                    stateless_verdict(
                        self.root(),
                        token@,
                        datalog::request_of(now, subject@, operation, event_type),
                        r,
                    ),
                Some(s) => exists|now: i64, a: Seq<char>|
                    outside::is_uuid_text(a) && #[trigger] stateful_verdict(
                        self.root(),
                        token@,
                        datalog::request_of(now, subject@, operation, event_type),
                        a,
                        approval_timeout_ms,
                        &*s,
                        final(s),
                        r,
                    ),
            },
    {
        let now: i64 = clock_now().secs;
        let approval_id = new_uuid();
        self.verify_with_state_at(
            token,
            subject,
            operation,
            event_type,
            state,
            approval_timeout_ms,
            now,
            &approval_id,
        )
    }
}

// ---------------------------------------------------------------------------
// Laws
// ---------------------------------------------------------------------------

/// The static checks let the request pass, and no call of the token library failed.
pub open spec fn reached_the_caveats(r: Result<bool, CapError>) -> bool {
    r matches Err(e) ==> !(e is Biscuit) && !(e is Denied)
}

/// The budget decides: a request of a minted token with a budget that reaches its caveats,
/// and whose rate is not used up, is admitted exactly where the spend with its cost fits the
/// budget, and is else refused with that spend. The charge is made either way, and no other
/// account changes.
pub proof fn law_the_budget_decides<S: CaveatState>(
    root: Seq<u8>,
    token: Seq<u8>,
    g: Grant,
    q: Request,
    approval_id: Seq<char>,
    before: &S,
    after: &S,
    r: Result<bool, CapError>,
)
    requires
        admitted(root, token, q, approval_id, before, after, r),
        biscuit::minted_as(root, token, g),
        before.reliable(),
        reached_the_caveats(r),
        g.rate matches Some(n) ==> before.hits(g.id, q.now) < n,
        g.budget is Some,
        cost_of(q.operation) > 0,
    ensures
        ({
            let total = state::saturate(
                before.spent(g.id, g.currency()) + cost_of(q.operation),
            );
            &&& r is Ok <==> total <= g.limit()
            &&& r matches Err(e) ==> (e matches CapError::BudgetExceeded {
                currency,
                spent,
                limit,
            } && currency@ == g.currency() && spent == total && limit == g.limit())
            &&& forall|t: Seq<char>, c: Seq<char>| #[trigger]
                after.spent(t, c) == if t == g.id && c == g.currency() {
                    total
                } else {
                    before.spent(t, c)
                }
        }),
{
}

/// The rate decides: a request of a minted token with a rate that reaches its caveats is
/// refused with the rate exactly where as many were counted in its second. Such a request
/// is neither counted nor charged; any other is counted.
pub proof fn law_the_rate_decides<S: CaveatState>(
    root: Seq<u8>,
    token: Seq<u8>,
    g: Grant,
    q: Request,
    approval_id: Seq<char>,
    before: &S,
    after: &S,
    r: Result<bool, CapError>,
)
    requires
        admitted(root, token, q, approval_id, before, after, r),
        biscuit::minted_as(root, token, g),
        before.reliable(),
        reached_the_caveats(r),
        g.rate is Some,
    ensures
        ({
            let used_up = before.hits(g.id, q.now) >= g.rate->0;
            &&& (r matches Err(e) && e is RateLimited) <==> used_up
            &&& r matches Err(CapError::RateLimited { ops_per_sec }) ==> ops_per_sec == g.rate->0
            &&& after.hits(g.id, q.now) == before.hits(g.id, q.now) + if used_up {
                0int
            } else {
                1
            }
            &&& used_up ==> forall|t: Seq<char>, c: Seq<char>| #[trigger]
                after.spent(t, c) == before.spent(t, c)
            &&& g.budget is None && !used_up ==> r is Ok
        }),
{
}

/// A verification of a minted token that needs no approval waits for none: it answers what
/// admitting the request answers, and leaves the state as that does. So the laws of the
/// budget and of the rate hold of it.
pub proof fn law_without_an_approval_nothing_is_waited_for<S: CaveatState>(
    root: Seq<u8>,
    token: Seq<u8>,
    g: Grant,
    q: Request,
    approval_id: Seq<char>,
    timeout_ms: u64,
    before: &S,
    after: &S,
    r: Result<(), CapError>,
)
    requires
        stateful_verdict(root, token, q, approval_id, timeout_ms, before, after, r),
        biscuit::minted_as(root, token, g),
        !g.approvals.contains(q.operation),
    ensures
        admitted(
            root,
            token,
            q,
            approval_id,
            before,
            after,
            match r {
                Ok(_) => Ok(false),
                Err(e) => Err(e),
            },
        ),
{
    let (asked, a) = choose|asked: S, a: Result<bool, CapError>| #[trigger]
        admitted(root, token, q, approval_id, before, &asked, a) && match a {
            Err(e) => r == Err::<(), CapError>(e) && *after == asked,
            Ok(false) => r is Ok && *after == asked,
            Ok(true) => settled(approval_id, timeout_ms, &asked, after, r),
        };
    assert(a != Ok::<bool, CapError>(true));
}

/// A request for an approval was made and waited for: it was accepted, or refused by the
/// decision or for want of one.
pub open spec fn reached_the_approval(r: Result<(), CapError>) -> bool {
    r matches Err(e) ==> e is ApprovalDenied || e is ApprovalTimeout
}

/// The decision on this request decides it: a request that needs an approval is accepted
/// exactly where the approval recorded under the id of this verification is allowed once the
/// wait is over, denied where it is denied, and timed out where there is no decision. The wait
/// is made with the caller's timeout. Where the id was free, that approval was asked for this
/// token, operation and subject.
pub proof fn law_the_approval_decides<S: CaveatState>(
    root: Seq<u8>,
    token: Seq<u8>,
    g: Grant,
    q: Request,
    approval_id: Seq<char>,
    timeout_ms: u64,
    before: &S,
    after: &S,
    r: Result<(), CapError>,
)
    requires
        stateful_verdict(root, token, q, approval_id, timeout_ms, before, after, r),
        biscuit::minted_as(root, token, g),
        g.approvals.contains(q.operation),
        r is Ok || before.reliable(),
        reached_the_approval(r),
    ensures
        match after.decision(approval_id) {
            Some(ApprovalDecision::Allow) => r is Ok,
            Some(ApprovalDecision::Deny) => r matches Err(
                CapError::ApprovalDenied { approval_id: id },
            ) && id@ == approval_id,
            Some(ApprovalDecision::Pending) => r matches Err(
                CapError::ApprovalTimeout { approval_id: id },
            ) && id@ == approval_id,
            None => false,
        },
        after.waited(approval_id) == Some(timeout_ms),
        before.decision(approval_id) is None ==> after.request(approval_id) == Some(
            (g.id, q.operation.name(), q.subject),
        ),
{
}

/// Without a state an operation that needs an approval is never accepted; any other is
/// answered as its static checks are, unless a call of the token library fails.
pub proof fn law_without_a_state(
    root: Seq<u8>,
    token: Seq<u8>,
    g: Grant,
    q: Request,
    r: Result<(), CapError>,
)
    requires
        stateless_verdict(root, token, q, r),
        biscuit::minted_as(root, token, g),
    ensures
        g.approvals.contains(q.operation) ==> r is Err,
        r matches Err(e) ==> e is Biscuit || engine::verdict(root, token, q, r) || (
        e is ApprovalStateMissing && g.approvals.contains(q.operation)),
        r is Ok ==> engine::verdict(root, token, q, Ok(())),
{
}

/// Without a state a permitted request is accepted, whatever the budget and the rate and
/// however many came before, unless its operation needs an approval: that is refused for want
/// of a state. Only an evaluation that is given up ends otherwise.
pub proof fn law_a_permitted_request_needs_no_state(
    root: Seq<u8>,
    token: Seq<u8>,
    g: Grant,
    q: Request,
    r: Result<(), CapError>,
)
    requires
        stateless_verdict(root, token, q, r),
        biscuit::minted_as(root, token, g),
        biscuit::legible(root, token),
        q.safe(),
        q.quotable(),
        g.admits(q),
        g.covers(q),
        biscuit::blocks_admit(root, token, q),
    ensures
        match r {
            Ok(_) => !g.approvals.contains(q.operation),
            Err(e) => engine::gave_up(e) || (e is ApprovalStateMissing && g.approvals.contains(
                q.operation,
            )),
        },
{
}

/// Requests of one token that were all admitted, one after the other: the states between
/// them, one more than there are requests.
pub open spec fn admitted_run<S: CaveatState>(
    root: Seq<u8>,
    token: Seq<u8>,
    requests: Seq<Request>,
    approval_ids: Seq<Seq<char>>,
    answers: Seq<bool>,
    states: Seq<S>,
) -> bool {
    &&& states.len() == requests.len() + 1
    &&& approval_ids.len() == requests.len() && answers.len() == requests.len()
    &&& forall|i: int|
        0 <= i < requests.len() ==> admitted(
            root,
            token,
            #[trigger] requests[i],
            approval_ids[i],
            &states[i],
            &states[i + 1],
            Ok(answers[i]),
        )
}

/// What the operations of requests cost together.
pub open spec fn cost_of_all(requests: Seq<Request>) -> int
    decreases requests.len(),
{
    if requests.len() == 0 {
        0
    } else {
        cost_of_all(requests.drop_last()) + cost_of(requests.last().operation)
    }
}

/// The requests that the budget of a minted token admits cost no more than its amount
/// together, whatever else they need, and all of their cost is on the account. A budget of
/// the largest amount that can be written is left out: the account cannot tell more.
pub proof fn law_admitted_operations_fit_the_budget<S: CaveatState>(
    root: Seq<u8>,
    token: Seq<u8>,
    g: Grant,
    requests: Seq<Request>,
    approval_ids: Seq<Seq<char>>,
    answers: Seq<bool>,
    states: Seq<S>,
)
    requires
        admitted_run(root, token, requests, approval_ids, answers, states),
        biscuit::minted_as(root, token, g),
        g.budget matches Some(b) && 0 <= b.1 < i64::MAX && states[0].spent(g.id, g.currency()) == 0,
    ensures
        cost_of_all(requests) <= g.limit(),
        states.last().spent(g.id, g.currency()) == cost_of_all(requests),
    decreases requests.len(),
{
    let currency = g.currency();
    if requests.len() > 0 {
        let n = requests.len() - 1;
        let init = requests.drop_last();
        assert forall|i: int| 0 <= i < init.len() implies admitted(
            root,
            token,
            #[trigger] init[i],
            approval_ids.drop_last()[i],
            &states.drop_last()[i],
            &states.drop_last()[i + 1],
            Ok(answers.drop_last()[i]),
        ) by {
            assert(init[i] == requests[i]);
        }
        law_admitted_operations_fit_the_budget(
            root,
            token,
            g,
            init,
            approval_ids.drop_last(),
            answers.drop_last(),
            states.drop_last(),
        );
        let q = requests[n];
        assert(states.drop_last().last() == states[n]);
        assert(admitted(
            root,
            token,
            q,
            approval_ids[n],
            &states[n],
            &states[n + 1],
            Ok(answers[n]),
        ));
        let (id, c) = choose|id: Seq<char>, c: StatefulCaveats|
            engine::is_id_of(root, token, id) && engine::states_caveats(root, token, c)
                && #[trigger] enforced(
                c,
                id,
                q.subject,
                q.operation,
                q.now,
                approval_ids[n],
                &states[n],
                &states[n + 1],
                Ok(answers[n]),
            );
        assert(c.reflects(g));
        assert(states[n + 1].spent(g.id, currency) == if c.charges(q.operation) {
            c.total_after(&states[n], g.id, q.operation)
        } else {
            states[n].spent(g.id, currency)
        });
    }
}

/// A wait for an approval ends as soon as there is a decision, with that decision; without one
/// it ends exactly when the time has run out, and then with none.
pub proof fn law_a_wait_ends(
    decision: ApprovalDecision,
    waited_ms: u64,
    timeout_ms: u64,
    r: Option<ApprovalDecision>,
)
    requires
        call_ensures(wait_step, (decision, waited_ms, timeout_ms), r),
    ensures
        !(decision is Pending) ==> r == Some(decision),
        decision is Pending ==> (r is Some <==> waited_ms >= timeout_ms),
        r matches Some(d) ==> d == decision,
{
}

/// Only an approval that is given lets the request pass: a denial and an approval that is
/// still open when the wait is over refuse it, each with its own error and the id of the
/// approval.
pub proof fn law_only_an_approval_passes(
    approval_id: &str,
    decision: ApprovalDecision,
    r: Result<(), CapError>,
)
    requires
        call_ensures(settle_approval, (approval_id, decision), r),
    ensures
        r is Ok <==> decision is Allow,
        (r matches Err(CapError::ApprovalDenied { approval_id: id }) && id@ == approval_id@)
            <==> decision is Deny,
        (r matches Err(CapError::ApprovalTimeout { approval_id: id }) && id@ == approval_id@)
            <==> decision is Pending,
{
}

} // verus!
