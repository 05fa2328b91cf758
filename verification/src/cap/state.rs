//! State behind the caveats that a token alone cannot enforce: budgets, rates
//! and human approvals.

use crate::cap::error::CapError;
use crate::cap::operation::Operation;
use crate::textmap::TextMap;
use vstd::prelude::*;

verus! {

/// A human approval decision.
#[derive(Debug, Clone, Copy, PartialEq, Eq, Structural)]
pub enum ApprovalDecision {
    /// The approval is outstanding: no decision yet.
    Pending,
    /// The human explicitly allowed the operation.
    Allow,
    /// The human explicitly denied the operation.
    Deny,
}

impl ApprovalDecision {
    /// The decision that an operator's word stands for: `allow` or `deny`.
    pub fn from_word(word: &str) -> (r: Option<ApprovalDecision>)
        ensures
            r == (if word@ == "allow"@ {
                Some(ApprovalDecision::Allow)
            } else if word@ == "deny"@ {
                Some(ApprovalDecision::Deny)
            } else {
                None
            }),
    {
        if crate::text::same(word, "allow") {
            Some(ApprovalDecision::Allow)
        } else if crate::text::same(word, "deny") {
            Some(ApprovalDecision::Deny)
        } else {
            None
        }
    }
}

/// The cost of an operation in micro-units.
#[derive(Debug, Clone, Copy, PartialEq, Eq, Structural)]
pub struct OperationCost(pub u64);

impl OperationCost {
    /// Reads are free.
    pub const READ: u64 = 0;

    /// A write.
    pub const WRITE: u64 = 1_000;

    /// Listing subjects is free.
    pub const SUBJECTS: u64 = 0;

    /// A search.
    pub const SEARCH: u64 = 1_000;

    /// An entity lookup.
    pub const ENTITIES: u64 = 500;

    /// A lookup of related entities.
    pub const RELATED: u64 = 500;

    /// A scan over time.
    pub const TIMELINE: u64 = 2_000;

    /// Administration is gated by capability, not by budget.
    pub const ADMIN: u64 = 0;

    /// Federation is gated by capability, not by budget.
    pub const PEER: u64 = 0;

    /// Subscribing is gated by capability, not by budget.
    pub const SUBSCRIBE: u64 = 0;

    /// The cost of an operation.
    pub open spec fn of(op: Operation) -> OperationCost {
        match op {
            Operation::Read => OperationCost(OperationCost::READ),
            Operation::Write => OperationCost(OperationCost::WRITE),
            Operation::Subjects => OperationCost(OperationCost::SUBJECTS),
            Operation::Search => OperationCost(OperationCost::SEARCH),
            Operation::Admin => OperationCost(OperationCost::ADMIN),
            Operation::Peer => OperationCost(OperationCost::PEER),
            Operation::Subscribe => OperationCost(OperationCost::SUBSCRIBE),
        }
    }

    /// The cost as a signed number; the largest one where it does not fit.
    pub fn as_i64(&self) -> (r: i64)
        ensures
            r == (if self.0 <= i64::MAX {
                self.0 as i64
            } else {
                i64::MAX
            }),
    {
        if self.0 <= i64::MAX as u64 {
            self.0 as i64
        } else {
            i64::MAX
        }
    }

    /// Reading and listing cost nothing, writing and searching at least a
    /// thousand micro-units, and a scan over time more than a write.
    pub proof fn law_cost_order()
        ensures
            OperationCost::of(Operation::Read).0 == 0,
            OperationCost::of(Operation::Subjects).0 == 0,
            OperationCost::of(Operation::Write).0 >= 1_000,
            OperationCost::of(Operation::Search).0 >= 1_000,
            OperationCost::TIMELINE > OperationCost::WRITE,
            OperationCost::ENTITIES <= OperationCost::WRITE,
            OperationCost::RELATED <= OperationCost::WRITE,
            OperationCost::of(Operation::Admin).0 == 0,
            OperationCost::of(Operation::Peer).0 == 0,
            OperationCost::of(Operation::Subscribe).0 == 0,
    {
    }
}

impl From<Operation> for OperationCost {
    fn from(op: Operation) -> (r: OperationCost) {
        match op {
            Operation::Read => OperationCost(OperationCost::READ),
            Operation::Write => OperationCost(OperationCost::WRITE),
            Operation::Subjects => OperationCost(OperationCost::SUBJECTS),
            Operation::Search => OperationCost(OperationCost::SEARCH),
            Operation::Admin => OperationCost(OperationCost::ADMIN),
            Operation::Peer => OperationCost(OperationCost::PEER),
            Operation::Subscribe => OperationCost(OperationCost::SUBSCRIBE),
        }
    }
}

impl vstd::std_specs::convert::FromSpecImpl<Operation> for OperationCost {
    open spec fn obeys_from_spec() -> bool {
        true
    }

    open spec fn from_spec(op: Operation) -> OperationCost {
        OperationCost::of(op)
    }
}

/// A budget limit expressed in micro-units of a currency.
#[derive(Debug)]
pub struct BudgetLimit {
    /// Free-form currency code, e.g. `"USD"` or `"OPENAI_TOKENS"`.
    pub currency: String,
    /// Hard cap in micro-units of the currency.
    pub amount_micro_units: i64,
}

impl BudgetLimit {
    /// Check that the spend after a charge stays within the budget.
    pub fn check(&self, total_after_increment: i64) -> (r: Result<(), CapError>)
        ensures
            r is Ok <==> total_after_increment <= self.amount_micro_units,
            r matches Err(e) ==> {
                &&& e matches CapError::BudgetExceeded { currency, spent, limit }
                &&& currency@ == self.currency@
                &&& spent == total_after_increment
                &&& limit == self.amount_micro_units
            },
    {
        if total_after_increment > self.amount_micro_units {
            Err(
                CapError::BudgetExceeded {
                    currency: self.currency.clone(),
                    spent: total_after_increment,
                    limit: self.amount_micro_units,
                },
            )
        } else {
            Ok(())
        }
    }
}

/// The signed 64-bit number nearest to `n`.
pub open spec fn saturate(n: int) -> i64 {
    if n > i64::MAX {
        i64::MAX
    } else if n < i64::MIN {
        i64::MIN
    } else {
        n as i64
    }
}

fn saturating_sum(a: i64, b: i64) -> (r: i64)
    ensures
        r == saturate(a + b),
{
    match a.checked_add(b) {
        Some(n) => n,
        None => if b > 0 {
            i64::MAX
        } else {
            i64::MIN
        },
    }
}

/// An approval that somebody asked for.
#[derive(Debug)]
pub struct PendingApproval {
    /// The id under which the decision is recorded.
    pub approval_id: String,
    /// The token that needs the approval.
    pub token_id: String,
    /// The operation to be approved.
    pub operation: String,
    /// The subject to be acted on.
    pub subject: String,
}

/// How a request counts against a rate: it passes while the count is below the rate, and
/// the count grows by what passes.
pub open spec fn rate_step(before: nat, rate: nat, admitted: bool, after: nat) -> bool {
    &&& admitted == (before < rate)
    &&& after == before + if admitted {
        1nat
    } else {
        0nat
    }
}

/// State backing for stateful caveats.
pub trait CaveatState {
    /// What a token has spent in a currency.
    spec fn spent(&self, token_id: Seq<char>, currency: Seq<char>) -> i64;

    /// The operations admitted for a token in one second of the clock.
    spec fn hits(&self, token_id: Seq<char>, second: i64) -> nat;

    /// The state answers every call, and keeps doing so.
    spec fn reliable(&self) -> bool;

    /// The decision recorded for an approval; `None` where nobody asked.
    spec fn decision(&self, approval_id: Seq<char>) -> Option<ApprovalDecision>;

    /// What an approval was asked for: the token, the operation and the subject.
    spec fn request(&self, approval_id: Seq<char>) -> Option<(Seq<char>, Seq<char>, Seq<char>)>;

    /// The milliseconds that the last wait for an approval was given; `None` where nobody
    /// waited.
    spec fn waited(&self, approval_id: Seq<char>) -> Option<u64>;

    /// The operation that was last held against the rate of a token.
    spec fn checked(&self, token_id: Seq<char>) -> Option<Seq<char>>;

    /// Charge `amount_micro_units` against a `(token_id, currency)` budget and
    /// return the new total. The caller checks the returned total against the
    /// caveat's declared limit.
    fn budget_increment(
        &mut self,
        token_id: &str,
        currency: &str,
        amount_micro_units: i64,
    ) -> (r: Result<i64, CapError>)
        ensures
            old(self).reliable() ==> r is Ok && final(self).reliable(),
            r matches Ok(total) ==> {
                &&& total == saturate(old(self).spent(token_id@, currency@) + amount_micro_units)
                &&& final(self).spent(token_id@, currency@) == total
                &&& forall|t: Seq<char>, c: Seq<char>|
                    (t != token_id@ || c != currency@) ==> #[trigger] final(self).spent(t, c)
                        == old(self).spent(t, c)
                &&& forall|t: Seq<char>, s: i64| #[trigger]
                    final(self).hits(t, s) == old(self).hits(t, s)
                &&& forall|a: Seq<char>| #[trigger]
                    final(self).decision(a) == old(self).decision(a)
                &&& forall|a: Seq<char>| #[trigger]
                    final(self).request(a) == old(self).request(a)
                &&& forall|a: Seq<char>| #[trigger] final(self).waited(a) == old(self).waited(a)
                &&& forall|t: Seq<char>| #[trigger] final(self).checked(t) == old(self).checked(t)
            },
    ;

    /// Current budget total for a `(token_id, currency)` pair.
    fn budget_get(&self, token_id: &str, currency: &str) -> (r: Result<i64, CapError>)
        ensures
            self.reliable() ==> r is Ok,
            r matches Ok(total) ==> total == self.spent(token_id@, currency@),
    ;

    /// Admit an operation of `token_id` in the second `now`, if fewer than
    /// `rate_ops_per_sec` were admitted in it. Returns `Ok(true)` when the
    /// operation can proceed, `Ok(false)` when it must be rejected.
    fn rate_check(
        &mut self,
        token_id: &str,
        op: &str,
        rate_ops_per_sec: u32,
        now: i64,
    ) -> (r: Result<bool, CapError>)
        ensures
            old(self).reliable() ==> r is Ok && final(self).reliable(),
            r matches Ok(admitted) ==> {
                &&& rate_step(
                    old(self).hits(token_id@, now),
                    rate_ops_per_sec as nat,
                    admitted,
                    final(self).hits(token_id@, now),
                )
                &&& forall|t: Seq<char>, s: i64|
                    t != token_id@ ==> #[trigger] final(self).hits(t, s) == old(self).hits(t, s)
                &&& forall|t: Seq<char>, c: Seq<char>| #[trigger]
                    final(self).spent(t, c) == old(self).spent(t, c)
                &&& forall|a: Seq<char>| #[trigger]
                    final(self).decision(a) == old(self).decision(a)
                &&& forall|a: Seq<char>| #[trigger]
                    final(self).request(a) == old(self).request(a)
                &&& forall|a: Seq<char>| #[trigger] final(self).waited(a) == old(self).waited(a)
                &&& forall|t: Seq<char>| #[trigger]
                    final(self).checked(t) == if t == token_id@ {
                        Some(op@)
                    } else {
                        old(self).checked(t)
                    }
            },
    ;

    /// Record a pending approval request. What is already recorded under the id stays.
    fn approval_request(
        &mut self,
        approval_id: &str,
        token_id: &str,
        operation: &str,
        subject: &str,
    ) -> (r: Result<(), CapError>)
        ensures
            old(self).reliable() ==> r is Ok && final(self).reliable(),
            r is Ok ==> {
                &&& final(self).decision(approval_id@) == Some(
                    old(self).decision(approval_id@).unwrap_or(ApprovalDecision::Pending),
                )
                &&& final(self).request(approval_id@) == if old(self).decision(
                    approval_id@,
                ) is None {
                    Some((token_id@, operation@, subject@))
                } else {
                    old(self).request(approval_id@)
                }
                &&& forall|a: Seq<char>|
                    a != approval_id@ ==> #[trigger] final(self).request(a) == old(self).request(a)
                &&& forall|a: Seq<char>|
                    a != approval_id@ ==> #[trigger] final(self).decision(a) == old(self).decision(
                        a,
                    )
                &&& forall|t: Seq<char>, c: Seq<char>| #[trigger]
                    final(self).spent(t, c) == old(self).spent(t, c)
                &&& forall|t: Seq<char>, s: i64| #[trigger]
                    final(self).hits(t, s) == old(self).hits(t, s)
                &&& forall|a: Seq<char>| #[trigger] final(self).waited(a) == old(self).waited(a)
                &&& forall|t: Seq<char>| #[trigger] final(self).checked(t) == old(self).checked(t)
            },
    ;

    /// Fetch the current decision for an approval. An approval that nobody asked
    /// for is an error.
    fn approval_status(&self, approval_id: &str) -> (r: Result<ApprovalDecision, CapError>)
        ensures
            self.reliable() && self.decision(approval_id@) is Some ==> r is Ok,
            r matches Ok(d) ==> self.decision(approval_id@) == Some(d),
            self.decision(approval_id@) is None ==> r is Err,
    ;

    /// Record an approval decision.
    fn approval_decide(&mut self, approval_id: &str, decision: ApprovalDecision) -> (r: Result<
        (),
        CapError,
    >)
        ensures
            old(self).reliable() ==> r is Ok && final(self).reliable(),
            r is Ok ==> {
                &&& final(self).decision(approval_id@) == Some(decision)
                &&& forall|a: Seq<char>| #[trigger]
                    final(self).request(a) == old(self).request(a)
                &&& forall|a: Seq<char>|
                    a != approval_id@ ==> #[trigger] final(self).decision(a) == old(self).decision(
                        a,
                    )
                &&& forall|t: Seq<char>, c: Seq<char>| #[trigger]
                    final(self).spent(t, c) == old(self).spent(t, c)
                &&& forall|t: Seq<char>, s: i64| #[trigger]
                    final(self).hits(t, s) == old(self).hits(t, s)
                &&& forall|a: Seq<char>| #[trigger] final(self).waited(a) == old(self).waited(a)
                &&& forall|t: Seq<char>| #[trigger] final(self).checked(t) == old(self).checked(t)
            },
    ;

    /// Wait for a decision, for at most `timeout_ms` milliseconds, and return it;
    /// `Pending` where the time ran out first.
    fn approval_wait(&mut self, approval_id: &str, timeout_ms: u64) -> (r: Result<
        ApprovalDecision,
        CapError,
    >)
        ensures
            old(self).reliable() && old(self).decision(approval_id@) is Some ==> r is Ok,
            old(self).reliable() ==> final(self).reliable(),
            r matches Ok(d) ==> final(self).decision(approval_id@) == Some(d),
            r is Ok ==> final(self).request(approval_id@) == old(self).request(approval_id@),
            r is Ok ==> final(self).waited(approval_id@) == Some(timeout_ms),
    ;
}

/// In-memory backing for tests and simple single-process daemons. Whoever waits for an
/// approval has the state to itself, so what the approver will say meanwhile, and how long
/// that takes, is told to the state beforehand.
#[derive(Debug)]
pub struct InMemoryCaveatState {
    budgets: TextMap<TextMap<i64>>,
    windows: TextMap<(i64, u32)>,
    checks: TextMap<String>,
    coming: Vec<(ApprovalDecision, u64)>,
    waits: TextMap<u64>,
    approvals: TextMap<(Option<PendingApproval>, ApprovalDecision)>,
}

impl InMemoryCaveatState {
    /// Create a fresh in-memory backing.
    pub fn new() -> (r: Self)
        ensures
            forall|t: Seq<char>, c: Seq<char>| #[trigger] r.spent(t, c) == 0,
            forall|t: Seq<char>, s: i64| #[trigger] r.hits(t, s) == 0,
            forall|a: Seq<char>| #[trigger] r.decision(a) is None,
            forall|a: Seq<char>| #[trigger] r.request(a) is None,
            forall|a: Seq<char>| #[trigger] r.waited(a) is None,
            forall|t: Seq<char>| #[trigger] r.checked(t) is None,
            r.coming() == Seq::<(ApprovalDecision, u64)>::empty(),
    {
        InMemoryCaveatState {
            budgets: TextMap::new(),
            windows: TextMap::new(),
            checks: TextMap::new(),
            coming: Vec::new(),
            waits: TextMap::new(),
            approvals: TextMap::new(),
        }
    }

    /// What the approver will say to the requests that are waited for, in order, and after how
    /// many milliseconds of waiting.
    pub closed spec fn coming(&self) -> Seq<(ApprovalDecision, u64)> {
        self.coming@
    }

    /// The approver will say this to the next request that is waited for and not foreseen yet,
    /// after so many milliseconds of waiting.
    pub fn foresee(&mut self, decision: ApprovalDecision, after_ms: u64)
        ensures
            final(self).coming() == old(self).coming().push((decision, after_ms)),
            forall|t: Seq<char>, c: Seq<char>| #[trigger]
                final(self).spent(t, c) == old(self).spent(t, c),
            forall|t: Seq<char>, s: i64| #[trigger]
                final(self).hits(t, s) == old(self).hits(t, s),
            forall|a: Seq<char>| #[trigger] final(self).decision(a) == old(self).decision(a),
            forall|a: Seq<char>| #[trigger] final(self).request(a) == old(self).request(a),
            forall|a: Seq<char>| #[trigger] final(self).waited(a) == old(self).waited(a),
            forall|t: Seq<char>| #[trigger] final(self).checked(t) == old(self).checked(t),
    {
        self.coming.push((decision, after_ms));
    }

    /// The milliseconds that the last wait for an approval was given.
    pub fn last_wait(&self, approval_id: &str) -> (r: Option<u64>)
        ensures
            r == self.waited(approval_id@),
    {
        match self.waits.get(approval_id) {
            Some(ms) => Some(*ms),
            None => None,
        }
    }

    /// The operation that was last held against the rate of a token.
    pub fn last_check(&self, token_id: &str) -> (r: Option<&str>)
        ensures
            match r {
                Some(op) => self.checked(token_id@) == Some(op@),
                None => self.checked(token_id@) is None,
            },
    {
        match self.checks.get(token_id) {
            Some(op) => Some(op.as_str()),
            None => None,
        }
    }

    /// The id of an approval that waits for a decision.
    pub fn test_first_pending_approval(&self) -> (r: Option<String>)
        ensures
            match r {
                Some(id) => self.decision(id@) == Some(ApprovalDecision::Pending),
                None => forall|a: Seq<char>| #[trigger]
                    self.decision(a) != Some(ApprovalDecision::Pending),
            },
    {
        let mut i: usize = 0;
        while i < self.approvals.len()
            invariant
                i <= self.approvals.keys().len(),
                forall|j: int|
                    0 <= j < i ==> self.decision(#[trigger] self.approvals.keys()[j]) != Some(
                        ApprovalDecision::Pending,
                    ),
            decreases self.approvals.keys().len() - i,
        {
            let e = self.approvals.entry(i);
            if e.1.1 == ApprovalDecision::Pending {
                return Some(e.0.clone());
            }
            i += 1;
        }
        proof {
            self.approvals.lemma_keys();
            assert forall|a: Seq<char>| #[trigger] self.decision(a) != Some(
                ApprovalDecision::Pending,
            ) by {
                if self.approvals@.dom().contains(a) {
                    assert(self.approvals.keys().contains(a));
                }
            }
        }
        None
    }
}

impl Default for InMemoryCaveatState {
    fn default() -> (r: Self)
        ensures
            forall|t: Seq<char>, c: Seq<char>| #[trigger] r.spent(t, c) == 0,
            forall|t: Seq<char>, s: i64| #[trigger] r.hits(t, s) == 0,
            forall|a: Seq<char>| #[trigger] r.decision(a) is None,
            forall|a: Seq<char>| #[trigger] r.request(a) is None,
            forall|a: Seq<char>| #[trigger] r.waited(a) is None,
            forall|t: Seq<char>| #[trigger] r.checked(t) is None,
            r.coming() == Seq::<(ApprovalDecision, u64)>::empty(),
    {
        Self::new()
    }
}

impl CaveatState for InMemoryCaveatState {
    open spec fn reliable(&self) -> bool {
        true
    }

    closed spec fn spent(&self, token_id: Seq<char>, currency: Seq<char>) -> i64 {
        if self.budgets@.dom().contains(token_id) && self.budgets@[token_id]@.dom().contains(
            currency,
        ) {
            self.budgets@[token_id]@[currency]
        } else {
            0
        }
    }

    closed spec fn hits(&self, token_id: Seq<char>, second: i64) -> nat {
        if self.windows@.dom().contains(token_id) && self.windows@[token_id].0 == second {
            self.windows@[token_id].1 as nat
        } else {
            0
        }
    }

    closed spec fn decision(&self, approval_id: Seq<char>) -> Option<ApprovalDecision> {
        if self.approvals@.dom().contains(approval_id) {
            Some(self.approvals@[approval_id].1)
        } else {
            None
        }
    }

    closed spec fn request(&self, approval_id: Seq<char>) -> Option<
        (Seq<char>, Seq<char>, Seq<char>),
    > {
        if self.approvals@.dom().contains(approval_id) {
            match self.approvals@[approval_id].0 {
                Some(p) => Some((p.token_id@, p.operation@, p.subject@)),
                None => None,
            }
        } else {
            None
        }
    }

    closed spec fn waited(&self, approval_id: Seq<char>) -> Option<u64> {
        if self.waits@.dom().contains(approval_id) {
            Some(self.waits@[approval_id])
        } else {
            None
        }
    }

    closed spec fn checked(&self, token_id: Seq<char>) -> Option<Seq<char>> {
        if self.checks@.dom().contains(token_id) {
            Some(self.checks@[token_id]@)
        } else {
            None
        }
    }

    fn budget_increment(
        &mut self,
        token_id: &str,
        currency: &str,
        amount_micro_units: i64,
    ) -> (r: Result<i64, CapError>)
        ensures
            r is Ok,
    {
        let mut inner: TextMap<i64> = match self.budgets.remove(token_id) {
            Some(m) => m,
            None => TextMap::new(),
        };
        let before: i64 = match inner.get(currency) {
            Some(n) => *n,
            None => 0,
        };
        let total: i64 = saturating_sum(before, amount_micro_units);
        inner.insert(currency, total);
        self.budgets.insert(token_id, inner);
        Ok(total)
    }

    fn budget_get(&self, token_id: &str, currency: &str) -> (r: Result<i64, CapError>)
        ensures
            r is Ok,
    {
        match self.budgets.get(token_id) {
            Some(m) => match m.get(currency) {
                Some(n) => Ok(*n),
                None => Ok(0),
            },
            None => Ok(0),
        }
    }

    fn rate_check(
        &mut self,
        token_id: &str,
        op: &str,
        rate_ops_per_sec: u32,
        now: i64,
    ) -> (r: Result<bool, CapError>)
        ensures
            r is Ok,
    {
        self.checks.insert(token_id, String::from_str(op));
        let seen: u32 = match self.windows.get(token_id) {
            Some(w) => if w.0 == now {
                w.1
            } else {
                0
            },
            None => 0,
        };
        if seen < rate_ops_per_sec {
            self.windows.insert(token_id, (now, seen + 1));
            Ok(true)
        } else {
            Ok(false)
        }
    }

    fn approval_request(
        &mut self,
        approval_id: &str,
        token_id: &str,
        operation: &str,
        subject: &str,
    ) -> (r: Result<(), CapError>)
        ensures
            r is Ok,
    {
        if !self.approvals.contains(approval_id) {
            self.approvals.insert(
                approval_id,
                (
                    Some(
                        PendingApproval {
                            approval_id: String::from_str(approval_id),
                            token_id: String::from_str(token_id),
                            operation: String::from_str(operation),
                            subject: String::from_str(subject),
                        },
                    ),
                    ApprovalDecision::Pending,
                ),
            );
        }
        Ok(())
    }

    fn approval_status(&self, approval_id: &str) -> (r: Result<ApprovalDecision, CapError>)
        ensures
            match r {
                Ok(d) => self.decision(approval_id@) == Some(d),
                Err(e) => self.decision(approval_id@) is None && e.denies(
                    "no such approval: "@ + approval_id@,
                ),
            },
    {
        match self.approvals.get(approval_id) {
            Some(a) => Ok(a.1),
            None => Err(
                CapError::Denied(String::from_str("no such approval: ").concat(approval_id)),
            ),
        }
    }

    fn approval_decide(&mut self, approval_id: &str, decision: ApprovalDecision) -> (r: Result<
        (),
        CapError,
    >)
        ensures
            r is Ok,
            final(self).coming() == old(self).coming(),
    {
        let request: Option<PendingApproval> = match self.approvals.remove(approval_id) {
            Some(a) => a.0,
            None => None,
        };
        self.approvals.insert(approval_id, (request, decision));
        Ok(())
    }

    /// Where the request is not decided yet and the next of the foreseen decisions comes within
    /// the time, that one is recorded; where it comes later, it comes by so much sooner from
    /// then on. Nobody else can decide while this call has the state to itself, so else the
    /// decision is the one that stands when the call comes.
    fn approval_wait(&mut self, approval_id: &str, timeout_ms: u64) -> (r: Result<
        ApprovalDecision,
        CapError,
    >)
        ensures
            r is Ok <==> old(self).decision(approval_id@) is Some,
            ({
                let open = old(self).decision(approval_id@) == Some(ApprovalDecision::Pending)
                    && old(self).coming().len() > 0;
                let next = old(self).coming()[0];
                let in_time = open && next.1 <= timeout_ms;
                &&& final(self).coming() == if in_time {
                    old(self).coming().skip(1)
                } else if open {
                    old(self).coming().update(0, (next.0, (next.1 - timeout_ms) as u64))
                } else {
                    old(self).coming()
                }
                &&& forall|a: Seq<char>| #[trigger]
                    final(self).decision(a) == if in_time && a == approval_id@ {
                        Some(next.0)
                    } else {
                        old(self).decision(a)
                    }
            }),
            forall|a: Seq<char>| #[trigger] final(self).request(a) == old(self).request(a),
            forall|a: Seq<char>| #[trigger]
                final(self).waited(a) == if a == approval_id@ {
                    Some(timeout_ms)
                } else {
                    old(self).waited(a)
                },
            forall|t: Seq<char>| #[trigger] final(self).checked(t) == old(self).checked(t),
            forall|t: Seq<char>, c: Seq<char>| #[trigger]
                final(self).spent(t, c) == old(self).spent(t, c),
            forall|t: Seq<char>, s: i64| #[trigger]
                final(self).hits(t, s) == old(self).hits(t, s),
    {
        self.waits.insert(approval_id, timeout_ms);
        match self.approval_status(approval_id) {
            Ok(ApprovalDecision::Pending) => {
                if self.coming.len() == 0 {
                    return Ok(ApprovalDecision::Pending);
                }
                let (decision, after_ms) = self.coming.remove(0);
                assert(self.coming@ =~= old(self).coming().skip(1));
                if after_ms <= timeout_ms {
                    match self.approval_decide(approval_id, decision) {
                        Ok(_) => Ok(decision),
                        Err(e) => Err(e),
                    }
                } else {
                    self.coming.insert(0, (decision, after_ms - timeout_ms));
                    assert(self.coming@ =~= old(self).coming().update(
                        0,
                        (decision, (after_ms - timeout_ms) as u64),
                    ));
                    Ok(ApprovalDecision::Pending)
                }
            },
            other => other,
        }
    }
}

/// Charging only ever raises a budget: after any charge that is not negative the
/// total is at least what it was.
pub proof fn law_budget_is_monotone(before: i64, amount: i64)
    requires
        amount >= 0,
    ensures
        saturate(before + amount) >= before,
{
}

/// An operator decides with one of two words.
pub proof fn law_two_words_decide(word: &str, r: Option<ApprovalDecision>)
    requires
        call_ensures(ApprovalDecision::from_word, (word,), r),
    ensures
        r == Some(ApprovalDecision::Allow) <==> word@ == "allow"@,
        r == Some(ApprovalDecision::Deny) <==> word@ == "deny"@,
        r != Some(ApprovalDecision::Pending),
{
    reveal_strlit("allow");
    reveal_strlit("deny");
    assert("allow"@[0] == 'a' && "deny"@[0] == 'd');
}

/// A budget holds exactly as long as the spend does not exceed it: a spend of the whole amount
/// is within it. The refusal tells the spend and the amount.
pub proof fn law_a_budget_holds_to_its_amount(
    budget: &BudgetLimit,
    total: i64,
    r: Result<(), CapError>,
)
    requires
        call_ensures(BudgetLimit::check, (budget, total), r),
    ensures
        total == budget.amount_micro_units ==> r is Ok,
        total < budget.amount_micro_units ==> r is Ok,
        total > budget.amount_micro_units ==> (r matches Err(CapError::BudgetExceeded {
            currency,
            spent,
            limit,
        }) && currency@ == budget.currency@ && spent == total && limit
            == budget.amount_micro_units),
{
}

/// What the operations cost: writing and searching a thousand micro-units each, looking up
/// entities and what relates to them half of that, a scan over time twice as much; and reading,
/// listing, administering, federating and subscribing nothing.
pub proof fn law_what_operations_cost(op: Operation)
    ensures
        OperationCost::of(op).0 == if op is Write || op is Search {
            1_000u64
        } else {
            0u64
        },
        OperationCost::ENTITIES == 500 && OperationCost::RELATED == 500,
        OperationCost::TIMELINE == 2_000,
{
}

} // verus!
