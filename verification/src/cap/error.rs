//! Errors of the capability engine.

use crate::text;
use vstd::prelude::*;

verus! {

/// The error type of the token library (`biscuit_auth::error::Token`), carried
/// through unread.
#[verifier::external_type_specification]
#[verifier::external_body]
pub struct ExTokenError(biscuit_auth::error::Token);

/// Errors from the capability engine.
#[derive(Debug)]
pub enum CapError {
    /// Biscuit token error.
    Biscuit(biscuit_auth::error::Token),
    /// Authorization denied.
    Denied(String),
    /// Base64 decoding error.
    Base64(String),
    /// A budget caveat declared a cap that the cumulative cost of all prior
    /// verifies plus this one exceeds.
    BudgetExceeded {
        /// Currency code declared on the caveat.
        currency: String,
        /// Cumulative spend after the charge, in micro-units.
        spent: i64,
        /// Declared cap in micro-units.
        limit: i64,
    },
    /// The rate that the token declares is used up in the current second.
    RateLimited {
        /// The declared cap.
        ops_per_sec: u32,
    },
    /// The required approval was explicitly denied.
    ApprovalDenied {
        /// The approval id that was denied.
        approval_id: String,
    },
    /// The required approval was not decided within the timeout.
    ApprovalTimeout {
        /// The approval id that timed out.
        approval_id: String,
    },
    /// The token requires human approval but the verifier was given no state
    /// to enforce it against.
    ApprovalStateMissing,
}

/// Renders a token error (the `Display` impl of `biscuit_auth::error::Token`).
/// Nothing is claimed of the text.
#[verifier::external_body]
fn token_error_text(e: &biscuit_auth::error::Token) -> (r: String) {
    e.to_string()
}

impl CapError {
    /// The error is a denial with this message.
    pub open spec fn denies(self, message: Seq<char>) -> bool {
        self matches CapError::Denied(m) && m@ == message
    }

    /// The message of an error that does not come from the token library.
    pub open spec fn message(self) -> Seq<char>
        recommends
            !(self is Biscuit),
    {
        match self {
            CapError::Biscuit(_) => Seq::empty(),
            CapError::Denied(m) => "authorization denied: "@ + m@,
            CapError::Base64(m) => "base64 error: "@ + m@,
            CapError::BudgetExceeded { currency, spent, limit } => "budget exceeded for "@
                + currency@ + ": "@ + text::decimal(spent as int) + " > "@ + text::decimal(
                limit as int,
            ),
            CapError::RateLimited { ops_per_sec } => "rate limit exceeded: "@ + text::digits(
                ops_per_sec as nat,
            ) + " ops/sec"@,
            CapError::ApprovalDenied { approval_id } => "approval denied: "@ + approval_id@,
            CapError::ApprovalTimeout { approval_id } => "approval timed out: "@ + approval_id@,
            CapError::ApprovalStateMissing =>
                "token carries requires_approval but no CaveatState was provided to enforce it"@,
        }
    }

    /// The message shown to a user.
    pub fn to_string(&self) -> (r: String)
        ensures
            match *self {
                CapError::Biscuit(_) => "biscuit error: "@.is_prefix_of(r@),
                e => r@ == e.message(),
            },
    {
        match self {
            CapError::Biscuit(e) => {
                let tail = token_error_text(e);
                let r = String::from_str("biscuit error: ").concat(&tail);
                assert(r@.subrange(0, "biscuit error: "@.len() as int) =~= "biscuit error: "@);
                r
            },
            CapError::Denied(m) => String::from_str("authorization denied: ").concat(m),
            CapError::Base64(m) => String::from_str("base64 error: ").concat(m),
            CapError::BudgetExceeded { currency, spent, limit } => String::from_str(
                "budget exceeded for ",
            ).concat(currency).concat(": ").concat(&text::signed_text(*spent)).concat(" > ").concat(
                &text::signed_text(*limit),
            ),
            CapError::RateLimited { ops_per_sec } => String::from_str(
                "rate limit exceeded: ",
            ).concat(&text::unsigned_text(*ops_per_sec as u64)).concat(" ops/sec"),
            CapError::ApprovalDenied { approval_id } => String::from_str(
                "approval denied: ",
            ).concat(approval_id),
            CapError::ApprovalTimeout { approval_id } => String::from_str(
                "approval timed out: ",
            ).concat(approval_id),
            CapError::ApprovalStateMissing => String::from_str(
                "token carries requires_approval but no CaveatState was provided to enforce it",
            ),
        }
    }
}

impl From<biscuit_auth::error::Token> for CapError {
    fn from(e: biscuit_auth::error::Token) -> (r: CapError) {
        CapError::Biscuit(e)
    }
}

impl vstd::std_specs::convert::FromSpecImpl<biscuit_auth::error::Token> for CapError {
    open spec fn obeys_from_spec() -> bool {
        true
    }

    open spec fn from_spec(e: biscuit_auth::error::Token) -> CapError {
        CapError::Biscuit(e)
    }
}

/// The message of an error tells what it is about: the reason of a denial, the currency of a
/// budget, the id of an approval; and it tells one kind from another.
pub proof fn law_messages_tell_the_reason(e: &CapError, r: String)
    requires
        call_ensures(CapError::to_string, (e,), r),
    ensures
        *e matches CapError::Denied(m) ==> m@.is_suffix_of(r@) && "authorization denied: "@.is_prefix_of(
            r@,
        ),
        *e matches CapError::Base64(m) ==> m@.is_suffix_of(r@) && "base64 error: "@.is_prefix_of(r@),
        *e matches CapError::ApprovalDenied { approval_id } ==> approval_id@.is_suffix_of(r@)
            && "approval denied: "@.is_prefix_of(r@),
        *e matches CapError::ApprovalTimeout { approval_id } ==> approval_id@.is_suffix_of(r@)
            && "approval timed out: "@.is_prefix_of(r@),
        *e matches CapError::BudgetExceeded { currency, spent, limit } ==> ("budget exceeded for "@
            + currency@).is_prefix_of(r@) && text::decimal(limit as int).is_suffix_of(r@),
        e is Biscuit ==> "biscuit error: "@.is_prefix_of(r@),
{
    let s = r@;
    match *e {
        CapError::Denied(m) => {
            let h = "authorization denied: "@;
            assert(s.take(h.len() as int) =~= h);
            assert(s.skip(s.len() - m@.len()) =~= m@);
        },
        CapError::Base64(m) => {
            let h = "base64 error: "@;
            assert(s.take(h.len() as int) =~= h);
            assert(s.skip(s.len() - m@.len()) =~= m@);
        },
        CapError::ApprovalDenied { approval_id } => {
            let h = "approval denied: "@;
            assert(s.take(h.len() as int) =~= h);
            assert(s.skip(s.len() - approval_id@.len()) =~= approval_id@);
        },
        CapError::ApprovalTimeout { approval_id } => {
            let h = "approval timed out: "@;
            assert(s.take(h.len() as int) =~= h);
            assert(s.skip(s.len() - approval_id@.len()) =~= approval_id@);
        },
        CapError::BudgetExceeded { currency, spent, limit } => {
            let h = "budget exceeded for "@ + currency@;
            let t = text::decimal(limit as int);
            assert(s.take(h.len() as int) =~= h);
            assert(s.skip(s.len() - t.len()) =~= t);
        },
        _ => {},
    }
}

} // verus!
