//! The capability engine.

use crate::cap::biscuit;
use crate::cap::biscuit::{
    append_block, append_signed_block, authorize, hex_encode, list_external_keys, mint_token,
    query_amounts, query_numbers, query_pairs, query_texts, Answer, Fault, GaveUp,
};
use crate::cap::datalog;
use crate::cap::datalog::{
    is_safe, prefix_of_glob, render_attenuation, render_caveat_block, render_direct, render_grant,
    render_granted, unsafe_text, validate_datalog_safe, Caveat, Grant, Request,
};
use crate::cap::error::CapError;
use crate::cap::glob;
use crate::cap::glob::glob_match_subject;
use crate::cap::keys::{BiscuitPrivateKey, BiscuitPublicKey, KeyAlgorithm};
use crate::cap::operation::Operation;
use crate::cap::state::BudgetLimit;
use crate::outside;
use crate::outside::{base64_decode, base64_encode, clock_now, new_uuid};
use crate::text;
use crate::time::Timestamp;
use biscuit_auth::error::Token;
use vstd::prelude::*;
use vstd::slice::slice_to_vec;

verus! {

/// The capability engine. Holds the root key for minting tokens.
#[derive(Debug)]
pub struct CapEngine {
    secret: Vec<u8>,
}

impl View for CapEngine {
    type V = Seq<u8>;

    /// The bytes of the root private key.
    closed spec fn view(&self) -> Seq<u8> {
        self.secret@
    }
}

/// Some right has this operation and a pattern that covers the subject.
pub open spec fn matching_right(
    rights: Set<(Seq<char>, Seq<char>)>,
    op: Seq<char>,
    subject: Seq<char>,
) -> bool {
    exists|p: Seq<char>| #[trigger] glob::glob_matches(p, subject) && rights.contains((p, op))
}

/// The refusal of a request without an event type by a token for certain types.
pub open spec fn kind_message() -> Seq<char> {
    "token has kind_allowed restriction but no event_type provided for verification"@
}

/// The refusal of a request for which the token has no right.
pub open spec fn no_right_message(op: Seq<char>, subject: Seq<char>) -> Seq<char> {
    "no matching right for '"@ + op + "' on '"@ + subject + "'"@
}

impl Grant {
    /// The grant has the operation and a pattern that covers the subject.
    pub open spec fn covers(self, q: Request) -> bool {
        self.operations.contains(q.operation) && glob::glob_matches(
            datalog::said(self.glob),
            q.subject,
        )
    }

    /// The grant covers the request or names its subject. The one follows from the other
    /// where the subject has no escapes: a pattern is held against the subject as it is
    /// written, a name against what it says.
    pub open spec fn reaches(self, q: Request) -> bool {
        self.covers(q) || self.names(q)
    }

    /// The grant reaches the request, and its time and event type pass.
    pub open spec fn permits(self, q: Request) -> bool {
        self.admits(q) && self.reaches(q)
    }
}

/// What an accepted request says of the token: if it was minted from a grant, the
/// grant covers the request, and every restriction added since admits it.
pub open spec fn allowed(root: Seq<u8>, token: Seq<u8>, q: Request) -> bool {
    forall|g: Grant| #[trigger] biscuit::minted_as(root, token, g) ==> g.permits(q)
        && biscuit::blocks_admit(root, token, q)
}

/// Why the token library was asked and agreed: the token names the subject or
/// everything; or one of its rights covers the subject, no event type is missing,
/// and its checks hold with that right given.
pub open spec fn agreed(root: Seq<u8>, token: Seq<u8>, q: Request) -> bool {
    ||| biscuit::authorizes(root, token, datalog::direct_code(q, ""@))
    ||| {
        &&& matching_right(biscuit::found_pairs(root, token, biscuit::rights_rule()), q.operation.name(), q.subject)
        &&& q.event_type is None ==> biscuit::found_texts(root, token, biscuit::kinds_rule()) == Set::<
            Seq<char>,
        >::empty()
        &&& biscuit::authorizes(root, token, datalog::granted_code(q, ""@))
    }
}

/// Decides, from the rights and the event types that a token names, whether the
/// request may be put to its checks as one that the token has a right to.
pub fn check_rights(
    rights: &Vec<(String, String)>,
    kinds: &Vec<String>,
    subject: &str,
    operation: Operation,
    event_type: Option<&str>,
) -> (r: Result<(), String>)
    ensures
        match r {
            Ok(_) => {
                &&& matching_right(biscuit::pair_set(rights@), operation.name(), subject@)
                &&& event_type is None ==> kinds@.len() == 0
            },
            Err(m) => if event_type is None && kinds@.len() > 0 {
                m@ == kind_message()
            } else {
                &&& !matching_right(biscuit::pair_set(rights@), operation.name(), subject@)
                &&& m@ == no_right_message(operation.name(), subject@)
            },
        },
{
    if event_type.is_none() && kinds.len() > 0 {
        return Err(
            String::from_str(
                "token has kind_allowed restriction but no event_type provided for verification",
            ),
        );
    }
    let ghost rows = rights@.map_values(|r: (String, String)| (r.0@, r.1@));
    let mut i: usize = 0;
    while i < rights.len()
        invariant
            i <= rights@.len(),
            rows == rights@.map_values(|r: (String, String)| (r.0@, r.1@)),
            forall|j: int|
                0 <= j < i ==> !((#[trigger] rights@[j]).1@ == operation.name() && glob::glob_matches(
                    rights@[j].0@,
                    subject@,
                )),
            event_type is None ==> kinds@.len() == 0,
        decreases rights.len() - i,
    {
        if text::same(&rights[i].1, operation.as_str()) && glob_match_subject(
            &rights[i].0,
            subject,
        ) {
            proof {
                assert(rows[i as int] == (rights@[i as int].0@, operation.name()));
                assert(biscuit::pair_set(rights@).contains((rights@[i as int].0@, operation.name())));
            }
            return Ok(());
        }
        i += 1;
    }
    proof {
        if matching_right(biscuit::pair_set(rights@), operation.name(), subject@) {
            let p = choose|p: Seq<char>| #[trigger]
                glob::glob_matches(p, subject@) && biscuit::pair_set(rights@).contains((p, operation.name()));
            assert(rows.contains((p, operation.name())));
            let j = choose|j: int| 0 <= j < rows.len() && rows[j] == (p, operation.name());
            assert(rights@[j].0@ == p);
            assert(false);
        }
    }
    Err(
        String::from_str("no matching right for '").concat(operation.as_str()).concat(
            "' on '",
        ).concat(subject).concat("'"),
    )
}

/// The first refusal of a request to mint, where there is one.
pub open spec fn mint_refusal(
    glob: Seq<char>,
    kinds: Option<&[&str]>,
    budget: Option<&BudgetLimit>,
) -> Option<Seq<char>> {
    if !datalog::safe(glob) {
        Some(datalog::unsafe_message("subject_glob"@))
    } else if kinds matches Some(ks) && exists|i: int|
        0 <= i < ks@.len() && !datalog::safe((#[trigger] ks@[i])@) {
        Some(datalog::unsafe_message("kind_allowed"@))
    } else if budget matches Some(b) && !datalog::safe(b.currency@) {
        Some(datalog::unsafe_message("budget_limit.currency"@))
    } else if budget matches Some(b) && b.amount_micro_units < 0 {
        Some("budget_limit.amount_micro_units must be non-negative"@)
    } else {
        None
    }
}

/// A budget as currency and amount.
pub open spec fn budget_view(budget: Option<&BudgetLimit>) -> Option<(Seq<char>, i64)> {
    match budget {
        Some(b) => Some((b.currency@, b.amount_micro_units)),
        None => None,
    }
}

/// The second in which a token expires.
pub open spec fn expiry_view(expires_at: Option<Timestamp>) -> Option<i64> {
    match expires_at {
        Some(t) => Some(t.secs),
        None => None,
    }
}

/// A UUID needs no quoting.
pub proof fn lemma_uuid_is_plain(id: Seq<char>)
    requires
        outside::is_uuid_text(id),
    ensures
        datalog::safe(id),
        datalog::plain(id),
{
    assert forall|c: char| id.contains(c) implies crate::outside::is_uuid_char(c) by {
        let i = choose|i: int| 0 <= i < id.len() && id[i] == c;
        assert(crate::outside::is_uuid_char(id[i]));
    }
}

/// Every text that a mint puts between quotes is quotable.
pub open spec fn mint_quotable(
    glob: Seq<char>,
    operations: Seq<Operation>,
    kinds: Option<&[&str]>,
    budget: Option<&BudgetLimit>,
) -> bool {
    &&& operations.len() > 0 ==> datalog::quotable(glob)
    &&& kinds matches Some(ks) ==> forall|i: int|
        0 <= i < ks@.len() ==> datalog::quotable((#[trigger] ks@[i])@)
    &&& budget matches Some(b) ==> datalog::quotable(b.currency@)
}

/// What a mint answers: the first refusal, where there is one; else, where all texts are
/// quotable, a token with one block, minted from exactly this grant under some fresh id,
/// which can be attenuated; else an error of the token library.
pub open spec fn minted(
    root: Seq<u8>,
    r: Result<Vec<u8>, CapError>,
    glob: Seq<char>,
    operations: Seq<Operation>,
    expires_at: Option<Timestamp>,
    kinds: Option<&[&str]>,
    rate: Option<u32>,
    budget: Option<&BudgetLimit>,
    approvals: Seq<Operation>,
) -> bool {
    match r {
        Ok(t) => {
            &&& mint_refusal(glob, kinds, budget) is None
            &&& mint_quotable(glob, operations, kinds, budget)
            &&& biscuit::external_keys(root, t@) == seq![None::<(KeyAlgorithm, Seq<u8>)>]
            &&& exists|id: Seq<char>|
                #![trigger outside::is_uuid_text(id)]
                {
                    let g = datalog::grant_of(
                        id,
                        glob,
                        operations,
                        expiry_view(expires_at),
                        kinds,
                        rate,
                        budget_view(budget),
                        approvals,
                    );
                    outside::is_uuid_text(id) && biscuit::minted_as(root, t@, g)
                        && biscuit::block_sources(root, t@).len() == 1 && biscuit::extendable(
                        root,
                        t@,
                    )
                }
        },
        Err(e) => match mint_refusal(glob, kinds, budget) {
            Some(m) => e.denies(m),
            None => e is Biscuit && !mint_quotable(glob, operations, kinds, budget),
        },
    }
}

/// How a verification ends.
#[derive(Debug)]
pub enum Judgement {
    /// The request is accepted.
    Accepted,
    /// The request is denied, with the reason.
    Denied(String),
    /// A check of the token fails.
    Refused(Token),
    /// The token library gave up at its limit of time or work.
    Unsettled(GaveUp),
    /// The token could not be read or evaluated.
    Invalid(Token),
}

impl Judgement {
    /// The result is what the judgement is reported as.
    pub open spec fn reported_as(self, r: Result<(), CapError>) -> bool {
        match self {
            Judgement::Accepted => r is Ok,
            Judgement::Denied(m) => r == Err::<(), CapError>(CapError::Denied(m)),
            Judgement::Refused(e) => r == Err::<(), CapError>(CapError::Biscuit(e)),
            Judgement::Unsettled(g) => r == Err::<(), CapError>(CapError::Biscuit(g.cause())),
            Judgement::Invalid(e) => r == Err::<(), CapError>(CapError::Biscuit(e)),
        }
    }

    /// The judgement as a result: every error of the token library is reported alike.
    pub fn into_result(self) -> (r: Result<(), CapError>)
        ensures
            self.reported_as(r),
    {
        match self {
            Judgement::Accepted => Ok(()),
            Judgement::Denied(m) => Err(CapError::Denied(m)),
            Judgement::Refused(e) => Err(CapError::Biscuit(e)),
            Judgement::Unsettled(g) => Err(CapError::Biscuit(g.into_error())),
            Judgement::Invalid(e) => Err(CapError::Biscuit(e)),
        }
    }
}

/// What is made of a token's answers: the first one decides where it allows; else the
/// rights and event types that the token names; else the second.
pub open spec fn concludes(
    direct: Answer,
    rights: Set<(Seq<char>, Seq<char>)>,
    kinds: nat,
    subject: Seq<char>,
    operation: Operation,
    event_type: Option<&str>,
    granted: Answer,
    j: Judgement,
) -> bool {
    if direct is Allowed {
        j is Accepted
    } else if event_type is None && kinds > 0 {
        j matches Judgement::Denied(m) && m@ == kind_message()
    } else if !matching_right(rights, operation.name(), subject) {
        j matches Judgement::Denied(m) && m@ == no_right_message(operation.name(), subject)
    } else {
        follows_answer(granted, j)
    }
}

/// The judgement that an answer of the token stands for.
pub open spec fn follows_answer(answer: Answer, j: Judgement) -> bool {
    match answer {
        Answer::Allowed => j is Accepted,
        Answer::Refused(e) => j == Judgement::Refused(e),
        Answer::Unsettled(g) => j == Judgement::Unsettled(g),
        Answer::Failed(e) => j == Judgement::Invalid(e),
    }
}

fn judgement_of(answer: Answer) -> (r: Judgement)
    ensures
        follows_answer(answer, r),
{
    match answer {
        Answer::Allowed => Judgement::Accepted,
        Answer::Refused(e) => Judgement::Refused(e),
        Answer::Unsettled(g) => Judgement::Unsettled(g),
        Answer::Failed(e) => Judgement::Invalid(e),
    }
}

/// Judges a request by what the token answered when it was asked itself, by the rights
/// and event types that it names, and by what it answered with a right given.
pub fn conclude(
    direct: Answer,
    rights: &Vec<(String, String)>,
    kinds: &Vec<String>,
    subject: &str,
    operation: Operation,
    event_type: Option<&str>,
    granted: Answer,
) -> (r: Judgement)
    ensures
        concludes(
            direct,
            biscuit::pair_set(rights@),
            kinds@.len(),
            subject@,
            operation,
            event_type,
            granted,
            r,
        ),
{
    if matches!(direct, Answer::Allowed) {
        return Judgement::Accepted;
    }
    match check_rights(rights, kinds, subject, operation, event_type) {
        Ok(_) => judgement_of(granted),
        Err(m) => Judgement::Denied(m),
    }
}

/// What a refusal by the token's checks says: they do not hold, even with the right
/// given; a minted token to which only restrictions were appended has one that the
/// request fails.
pub open spec fn fails_a_check(
    root: Seq<u8>,
    token: Seq<u8>,
    q: Request,
    scope: Seq<char>,
) -> bool {
    &&& !biscuit::authorizes(root, token, datalog::granted_code(q, scope))
    &&& forall|g: Grant| #[trigger]
        biscuit::minted_as(root, token, g) && biscuit::legible(root, token) ==> !(g.admits(q)
            && biscuit::blocks_admit(root, token, q))
}

/// What an unreadable token says: it was not minted, or more than restrictions were
/// appended to it.
pub open spec fn is_unreadable(root: Seq<u8>, token: Seq<u8>) -> bool {
    forall|g: Grant| #[trigger]
        biscuit::minted_as(root, token, g) ==> !biscuit::legible(root, token)
}

/// How a verification may end.
///
/// A text that is not safe is denied, and one that is not quotable is an error of the token
/// library. Otherwise the request is accepted only if the token library agreed, and then
/// only what the token was minted for and what every later restriction admits. A denial says
/// that no right covers the request, or that the event type is missing; a refusal
/// that a check fails. The token library may also give up when an evaluation
/// takes too long.
pub open spec fn judged(root: Seq<u8>, token: Seq<u8>, q: Request, j: Judgement) -> bool {
    if !datalog::safe(q.subject) {
        j matches Judgement::Denied(m) && m@ == datalog::unsafe_message("subject"@)
    } else if q.event_type matches Some(t) && !datalog::safe(t) {
        j matches Judgement::Denied(m) && m@ == datalog::unsafe_message("event_type"@)
    } else if !q.quotable() {
        j is Invalid
    } else {
        match j {
            Judgement::Accepted => agreed(root, token, q) && allowed(root, token, q),
            Judgement::Denied(m) => {
                ||| {
                    &&& m@ == kind_message()
                    &&& q.event_type is None
                    &&& biscuit::found_texts(root, token, biscuit::kinds_rule()) != Set::<
                        Seq<char>,
                    >::empty()
                    &&& forall|g: Grant| #[trigger]
                        biscuit::minted_as(root, token, g) ==> g.kinds is Some
                }
                ||| {
                    &&& m@ == no_right_message(q.operation.name(), q.subject)
                    &&& !matching_right(
                        biscuit::found_pairs(root, token, biscuit::rights_rule()),
                        q.operation.name(),
                        q.subject,
                    )
                    &&& forall|g: Grant| #[trigger]
                        biscuit::minted_as(root, token, g) ==> !g.covers(q)
                }
            },
            Judgement::Refused(_) => fails_a_check(root, token, q, ""@),
            Judgement::Unsettled(_) => true,
            Judgement::Invalid(_) => is_unreadable(root, token),
        }
    }
}

/// What a verification answers: one of the judgements it may end with, as a result.
pub open spec fn verdict(
    root: Seq<u8>,
    token: Seq<u8>,
    q: Request,
    r: Result<(), CapError>,
) -> bool {
    exists|j: Judgement| #[trigger] judged(root, token, q, j) && j.reported_as(r)
}

/// The later token allows nothing that the earlier one does not, and names the
/// same rights, caveats and id.
pub open spec fn narrowed(root: Seq<u8>, earlier: Seq<u8>, later: Seq<u8>) -> bool {
    &&& biscuit::same_authority(root, earlier, later)
    &&& biscuit::external_keys(root, later) == biscuit::external_keys(root, earlier).push(None)
    &&& forall|q: Request| q.safe() && #[trigger] agreed(root, later, q) ==> agreed(root, earlier, q)
}

/// The text is an id that the token names; of a minted token the id of its grant.
pub open spec fn is_id_of(root: Seq<u8>, token: Seq<u8>, id: Seq<char>) -> bool {
    &&& biscuit::found_texts(root, token, biscuit::token_id_rule()).contains(id)
    &&& forall|g: Grant| #[trigger] biscuit::minted_as(root, token, g) ==> id == g.id
}

/// What the extraction of a token's id answers: one of the ids that the token
/// names, or none where it names none; of a minted token the id of its grant.
pub open spec fn names_token(
    root: Seq<u8>,
    token: Seq<u8>,
    r: Result<Option<String>, CapError>,
) -> bool {
    match r {
        Ok(Some(id)) => is_id_of(root, token, id@),
        Ok(None) => {
            &&& biscuit::found_texts(root, token, biscuit::token_id_rule()) == Set::<
                Seq<char>,
            >::empty()
            &&& forall|g: Grant| !#[trigger] biscuit::minted_as(root, token, g)
        },
        Err(e) => is_fault(root, token, e),
    }
}

/// The error is that of a query of the token library, and its reason holds of the token.
pub open spec fn is_fault(root: Seq<u8>, token: Seq<u8>, e: CapError) -> bool {
    exists|f: Fault| #[trigger] f.explained(root, token) && e == CapError::Biscuit(f.cause())
}

/// The error says that the token library gave an evaluation up.
pub open spec fn gave_up(e: CapError) -> bool {
    exists|g: GaveUp| e == CapError::Biscuit(#[trigger] g.cause())
}

/// What the extraction of a token's stateful caveats answers.
pub open spec fn extracts(
    root: Seq<u8>,
    token: Seq<u8>,
    r: Result<StatefulCaveats, CapError>,
) -> bool {
    match r {
        Ok(c) => states_caveats(root, token, c),
        Err(e) => is_fault(root, token, e),
    }
}

/// What the stateful caveats of a token are: those that it names, one budget and one
/// rate where it names several; of a minted token those of its grant.
pub open spec fn states_caveats(root: Seq<u8>, token: Seq<u8>, c: StatefulCaveats) -> bool {
    &&& c.budget_limit is None <==> biscuit::found_amounts(root, token, biscuit::budget_rule())
        == Set::<(Seq<char>, i64)>::empty()
    &&& c.budget_limit matches Some(b) ==> biscuit::found_amounts(
        root,
        token,
        biscuit::budget_rule(),
    ).contains((b.currency@, b.amount_micro_units))
    &&& forall|op: Operation| #[trigger]
        c.requires_approval@.contains(op) <==> biscuit::found_texts(
            root,
            token,
            biscuit::approvals_rule(),
        ).contains(op.name())
    &&& c.rate_limit_ops_per_sec is None <==> biscuit::found_numbers(
        root,
        token,
        biscuit::rate_rule(),
    ) == Set::<i64>::empty()
    &&& c.rate_limit_ops_per_sec matches Some(n) ==> exists|m: i64|
        biscuit::found_numbers(root, token, biscuit::rate_rule()).contains(m) && n == clamp_rate(m)
    &&& forall|g: Grant| #[trigger] biscuit::minted_as(root, token, g) ==> c.reflects(g)
}

proof fn lemma_single_text(rows: Seq<String>)
    ensures
        forall|i: int| 0 <= i < rows.len() ==> biscuit::text_set(rows).contains(#[trigger] rows[i]@),
{
    let m = rows.map_values(|r: String| r@);
    assert forall|i: int| 0 <= i < rows.len() implies biscuit::text_set(rows).contains(
        #[trigger] rows[i]@,
    ) by {
        assert(m[i] == rows[i]@);
        assert(m.contains(m[i]));
    }
}

proof fn lemma_empty_texts(rows: Seq<String>)
    ensures
        rows.len() == 0 <==> biscuit::text_set(rows) == Set::<Seq<char>>::empty(),
{
    let m = rows.map_values(|r: String| r@);
    if rows.len() > 0 {
        assert(m.contains(m[0]));
        assert(m.to_set().contains(m[0]));
    } else {
        assert(m.to_set() =~= Set::<Seq<char>>::empty());
    }
}

impl Default for CapEngine {
    fn default() -> (r: Self)
        ensures
            r@.len() == 32,
    {
        CapEngine::new()
    }
}

impl CapEngine {
    #[verifier::type_invariant]
    spec fn wf(self) -> bool {
        self.secret@.len() == 32
    }

    /// The root public key.
    pub open spec fn root(&self) -> Seq<u8> {
        biscuit::root_of(self@)
    }

    /// Create a new capability engine with a fresh root key pair.
    pub fn new() -> (r: Self)
        ensures
            r@.len() == 32,
    {
        CapEngine { secret: crate::cap::biscuit::generate_secret() }
    }

    /// Create a capability engine from an existing private key: 32 bytes.
    pub fn from_private_key(key_bytes: &[u8]) -> (r: Result<Self, CapError>)
        ensures
            r is Ok <==> key_bytes@.len() == 32,
            match r {
                Ok(e) => e@ == key_bytes@,
                Err(e) => e.denies("invalid private key: "@ + "invalid key size"@),
            },
    {
        match crate::cap::biscuit::check_private_key(KeyAlgorithm::Ed25519, key_bytes) {
            Ok(_) => Ok(CapEngine { secret: slice_to_vec(key_bytes) }),
            Err(e) => Err(
                CapError::Denied(String::from_str("invalid private key: ").concat(&e)),
            ),
        }
    }

    /// Get the root public key (for token verification).
    pub fn public_key(&self) -> (r: BiscuitPublicKey)
        ensures
            r@ == (KeyAlgorithm::Ed25519, self.root()),
    {
        proof {
            use_type_invariant(self);
        }
        let key: Result<BiscuitPrivateKey, CapError> = BiscuitPrivateKey::from_bytes(
            self.secret.as_slice(),
            KeyAlgorithm::Ed25519,
        );
        key.unwrap().public()
    }

    /// Get the root private key bytes (for persistence).
    pub fn private_key_bytes(&self) -> (r: Vec<u8>)
        ensures
            r@ == self@,
            r@.len() == 32,
    {
        proof {
            use_type_invariant(self);
        }
        slice_to_vec(self.secret.as_slice())
    }

    /// Mint a new capability token without stateful caveats: [`Self::mint_full`]
    /// with no budget and no approvals.
    pub fn mint(
        &self,
        subject_glob: &str,
        operations: &[Operation],
        expires_at: Option<Timestamp>,
        kind_allowed: Option<&[&str]>,
        rate_limit_ops_per_sec: Option<u32>,
    ) -> (r: Result<Vec<u8>, CapError>)
        ensures
            minted(
                self.root(),
                r,
                subject_glob@,
                operations@,
                expires_at,
                kind_allowed,
                rate_limit_ops_per_sec,
                None,
                Seq::empty(),
            ),
    {
        let none: Vec<Operation> = Vec::new();
        self.mint_full(
            subject_glob,
            operations,
            expires_at,
            kind_allowed,
            rate_limit_ops_per_sec,
            None,
            none.as_slice(),
        )
    }

    /// Mint a new capability token.
    ///
    /// - `subject_glob`: subject path pattern (e.g., "/**", "/test/**").
    /// - `operations`: the operations this token authorizes.
    /// - `expires_at`: the last second in which the token is valid.
    /// - `kind_allowed`: the event types this token is restricted to.
    /// - `rate_limit_ops_per_sec`: operations per second.
    /// - `budget_limit`: currency and amount that the token may spend.
    /// - `requires_approval`: the operations that a human has to approve.
    pub fn mint_full(
        &self,
        subject_glob: &str,
        operations: &[Operation],
        expires_at: Option<Timestamp>,
        kind_allowed: Option<&[&str]>,
        rate_limit_ops_per_sec: Option<u32>,
        budget_limit: Option<&BudgetLimit>,
        requires_approval: &[Operation],
    ) -> (r: Result<Vec<u8>, CapError>)
        ensures
            minted(
                self.root(),
                r,
                subject_glob@,
                operations@,
                expires_at,
                kind_allowed,
                rate_limit_ops_per_sec,
                budget_limit,
                requires_approval@,
            ),
    {
        proof {
            use_type_invariant(self);
        }
        match validate_datalog_safe(subject_glob, "subject_glob") {
            Ok(_) => {},
            Err(e) => {
                return Err(e);
            },
        }
        if let Some(kinds) = kind_allowed {
            let mut i: usize = 0;
            while i < kinds.len()
                invariant
                    i <= kinds@.len(),
                    datalog::safe(subject_glob@),
                    kind_allowed == Some(kinds),
                    forall|j: int| 0 <= j < i ==> datalog::safe((#[trigger] kinds@[j])@),
                decreases kinds.len() - i,
            {
                match validate_datalog_safe(kinds[i], "kind_allowed") {
                    Ok(_) => {},
                    Err(e) => {
                        assert(!datalog::safe(kinds@[i as int]@));
                        return Err(e);
                    },
                }
                i += 1;
            }
        }
        let mut budget: Option<(&str, i64)> = None;
        if let Some(b) = budget_limit {
            match validate_datalog_safe(&b.currency, "budget_limit.currency") {
                Ok(_) => {},
                Err(e) => {
                    return Err(e);
                },
            }
            if b.amount_micro_units < 0 {
                return Err(
                    CapError::Denied(
                        String::from_str("budget_limit.amount_micro_units must be non-negative"),
                    ),
                );
            }
            budget = Some((b.currency.as_str(), b.amount_micro_units));
        }
        let expires: Option<i64> = match expires_at {
            Some(t) => Some(t.secs),
            None => None,
        };
        let token_id = new_uuid();
        let code = render_grant(
            &token_id,
            subject_glob,
            operations,
            expires,
            kind_allowed,
            rate_limit_ops_per_sec,
            budget,
            requires_approval,
        );
        let ghost g = datalog::grant_of(
            token_id@,
            subject_glob@,
            operations@,
            expires,
            kind_allowed,
            rate_limit_ops_per_sec,
            budget_view(budget_limit),
            requires_approval@,
        );
        proof {
            lemma_uuid_is_plain(token_id@);
            assert(g.safe()) by {
                if let Some(ks) = g.kinds {
                    assert forall|i: int| 0 <= i < ks.len() implies datalog::safe(ks[i]) by {
                        assert(ks[i] == kind_allowed->0@[i]@);
                    }
                }
            }
            assert(code@ == datalog::grant_code(g));
            if mint_quotable(subject_glob@, operations@, kind_allowed, budget_limit) {
                if let Some(ks) = g.kinds {
                    assert forall|i: int| 0 <= i < ks.len() implies datalog::quotable(ks[i]) by {
                        assert(ks[i] == kind_allowed->0@[i]@);
                    }
                }
                assert(g.quotable());
            }
        }
        match mint_token(self.secret.as_slice(), &code) {
            Ok(t) => {
                proof {
                    assert(g.quotable());
                    if let Some(ks) = g.kinds {
                        assert forall|i: int| 0 <= i < ks.len() implies datalog::quotable(
                            (#[trigger] kind_allowed->0@[i])@,
                        ) by {
                            assert(ks[i] == kind_allowed->0@[i]@);
                        }
                    }
                    assert(biscuit::block_sources(self.root(), t@)[0] == code@);
                    assert(biscuit::minted_as(self.root(), t@, g));
                }
                Ok(t)
            },
            Err(e) => Err(CapError::Biscuit(e)),
        }
    }

    /// Verify a capability token for a specific operation on a subject, at the
    /// time of the machine's clock. Budgets, rates and approvals are not enforced:
    /// see [`Self::verify_with_state`].
    pub fn verify(
        &self,
        token: &[u8],
        subject: &str,
        operation: Operation,
        event_type: Option<&str>,
    ) -> (r: Result<(), CapError>)
        ensures
            exists|now: i64| #[trigger]
                verdict(
                    self.root(),
                    token@,
                    datalog::request_of(now, subject@, operation, event_type),
                    r,
                ),
    {
        let now: i64 = clock_now().secs;
        self.verify_at(token, subject, operation, event_type, now)
    }

    /// Verify a capability token at a given second.
    pub fn verify_at(
        &self,
        token: &[u8],
        subject: &str,
        operation: Operation,
        event_type: Option<&str>,
        now: i64,
    ) -> (r: Result<(), CapError>)
        ensures
            verdict(
                self.root(),
                token@,
                datalog::request_of(now, subject@, operation, event_type),
                r,
            ),
    {
        self.judge_at(token, subject, operation, event_type, now).into_result()
    }

    /// Judge a request at a given second. The token is asked itself first; where it
    /// does not allow the request, a right that covers the subject is looked for,
    /// and the token is asked again with that right given.
    pub fn judge_at(
        &self,
        token: &[u8],
        subject: &str,
        operation: Operation,
        event_type: Option<&str>,
        now: i64,
    ) -> (r: Judgement)
        ensures
            judged(
                self.root(),
                token@,
                datalog::request_of(now, subject@, operation, event_type),
                r,
            ),
    {
        proof {
            use_type_invariant(self);
            Operation::law_names_are_distinct();
        }
        let ghost q = datalog::request_of(now, subject@, operation, event_type);
        let ghost root = self.root();
        if !is_safe(subject) {
            return Judgement::Denied(unsafe_text("subject"));
        }
        if let Some(etype) = event_type {
            if !is_safe(etype) {
                return Judgement::Denied(unsafe_text("event_type"));
            }
        }
        assert(q.safe());
        let direct = render_direct(now, subject, operation, event_type, "");
        assert(biscuit::is_scope(""@));
        assert(biscuit::is_question(direct@));
        assert(q.quotable() ==> biscuit::asks(direct@, q, ""@));
        let first = match authorize(self.secret.as_slice(), token, &direct) {
            Ok(Answer::Allowed) => {
                return Judgement::Accepted;
            },
            Ok(answer) => answer,
            Err(e) => {
                return Judgement::Invalid(e);
            },
        };
        let rights = match query_pairs(
            self.secret.as_slice(),
            token,
            "data($sub, $op) <- right($sub, $op)",
        ) {
            Ok(rows) => rows,
            Err(Fault::Unsettled(e)) => {
                return Judgement::Unsettled(e);
            },
            Err(Fault::Invalid(e)) => {
                return Judgement::Invalid(e);
            },
        };
        let mut kinds: Vec<String> = Vec::new();
        if event_type.is_none() {
            match query_texts(
                self.secret.as_slice(),
                token,
                "kind_data($k) <- kind_allowed($k)",
            ) {
                Ok(rows) => {
                    kinds = rows;
                },
                Err(Fault::Unsettled(e)) => {
                    return Judgement::Unsettled(e);
                },
                Err(Fault::Invalid(e)) => {
                    return Judgement::Invalid(e);
                },
            }
        }
        proof {
            lemma_empty_texts(kinds@);
        }
        match check_rights(&rights, &kinds, subject, operation, event_type) {
            Ok(_) => {},
            Err(m) => {
                proof {
                    assert forall|g: Grant| #[trigger] biscuit::minted_as(root, token@, g)
                        && g.covers(q) implies matching_right(
                        g.rights(),
                        operation.name(),
                        subject@,
                    ) by {
                        let i = choose|i: int|
                            0 <= i < g.operations.len() && g.operations[i] == operation;
                        assert(g.operations[i].name() == operation.name());
                        assert(g.rights().contains((datalog::said(g.glob), operation.name())));
                    }
                }
                return Judgement::Denied(m);
            },
        }
        let granted = render_granted(now, subject, operation, event_type, "");
        assert(biscuit::is_question(granted@)) by {
            assert(granted@ == datalog::granted_code(q, ""@));
            let d = datalog::direct_code(q, ""@);
        }
        assert(q.quotable() ==> biscuit::asks(granted@, q, ""@));
        let second = match authorize(self.secret.as_slice(), token, &granted) {
            Ok(answer) => answer,
            Err(e) => {
                return Judgement::Invalid(e);
            },
        };
        proof {
            if second is Allowed {
                assert forall|g: Grant| #[trigger]
                    biscuit::minted_as(root, token@, g) && q.quotable() implies g.permits(q) by {
                    let p = choose|p: Seq<char>| #[trigger]
                        glob::glob_matches(p, subject@) && g.rights().contains(
                            (p, operation.name()),
                        );
                    let i = choose|i: int|
                        0 <= i < g.operations.len() && g.operations[i].name() == operation.name();
                    assert(g.operations[i] == operation);
                }
            }
        }
        conclude(first, &rights, &kinds, subject, operation, event_type, second)
    }

    /// Attenuate a token: confine it to operations and to the subjects that begin
    /// with the path of a pattern. A token that was minted or attenuated can be attenuated,
    /// where that path is quotable.
    pub fn attenuate(&self, token: &[u8], subject_glob: &str, operations: &[Operation]) -> (r:
        Result<Vec<u8>, CapError>)
        ensures
            match r {
                Ok(t) => {
                    &&& datalog::safe(subject_glob@)
                    &&& datalog::quotable(datalog::glob_prefix(subject_glob@))
                    &&& biscuit::extendable(self.root(), token@)
                    &&& narrowed(self.root(), token@, t@)
                    &&& biscuit::block_sources(self.root(), t@) == biscuit::block_sources(
                        self.root(),
                        token@,
                    ).push(
                        datalog::attenuation_code(
                            operations@,
                            datalog::glob_prefix(subject_glob@),
                        ),
                    )
                    &&& biscuit::extendable(self.root(), t@)
                },
                Err(e) => if datalog::safe(subject_glob@) {
                    e is Biscuit && !(biscuit::extendable(self.root(), token@)
                        && datalog::quotable(datalog::glob_prefix(subject_glob@)))
                } else {
                    e.denies(datalog::unsafe_message("subject_glob"@))
                },
            },
    {
        proof {
            use_type_invariant(self);
            datalog::lemma_prefix_is_plain(subject_glob@);
        }
        match validate_datalog_safe(subject_glob, "subject_glob") {
            Ok(_) => {},
            Err(e) => {
                return Err(e);
            },
        }
        let prefix = prefix_of_glob(subject_glob);
        let code = render_attenuation(operations, &prefix);
        match append_block(self.secret.as_slice(), token, &code) {
            Ok(t) => Ok(t),
            Err(e) => Err(CapError::Biscuit(e)),
        }
    }

    /// Attenuate a token by a block that a third party signs. The block states who
    /// signed it and holds one check per caveat; the token must then be verified
    /// with [`Self::verify_multi`] and a trust set that has the third party's key.
    pub fn attenuate_with_block(
        &self,
        cap: &[u8],
        authority_key: &BiscuitPrivateKey,
        caveats: &[Caveat],
    ) -> (r: Result<Vec<u8>, CapError>)
        ensures
            match r {
                Ok(t) => {
                    &&& biscuit::all_safe(caveats@)
                    &&& biscuit::same_authority(self.root(), cap@, t@)
                    &&& biscuit::external_keys(self.root(), t@) == biscuit::external_keys(
                        self.root(),
                        cap@,
                    ).push(
                        Some(
                            (
                                authority_key@.0,
                                biscuit::public_key_of(authority_key@.0, authority_key@.1),
                            ),
                        ),
                    )
                    &&& biscuit::all_quotable(caveats@)
                    &&& biscuit::extendable(self.root(), cap@)
                    &&& biscuit::block_sources(self.root(), t@) == biscuit::block_sources(
                        self.root(),
                        cap@,
                    ).push(
                        datalog::caveat_code(
                            biscuit::hex_text(
                                biscuit::public_key_of(authority_key@.0, authority_key@.1),
                            ),
                            caveats@,
                        ),
                    )
                    &&& biscuit::extendable(self.root(), t@)
                },
                Err(e) => if biscuit::all_safe(caveats@) {
                    e is Biscuit && !(biscuit::extendable(self.root(), cap@)
                        && biscuit::all_quotable(caveats@))
                } else {
                    e.denies(datalog::unsafe_message("subject_prefix"@))
                },
            },
    {
        proof {
            use_type_invariant(self);
        }
        let public = authority_key.public();
        let public_bytes = public.to_bytes();
        let name = hex_encode(public_bytes.as_slice());
        let code = match render_caveat_block(&name, caveats) {
            Ok(code) => code,
            Err(e) => {
                return Err(e);
            },
        };
        proof {
            biscuit::lemma_hex_is_plain(public_bytes@);
        }
        let key = authority_key.to_bytes();
        match append_signed_block(
            self.secret.as_slice(),
            cap,
            authority_key.algorithm(),
            key.as_slice(),
            &code,
        ) {
            Ok(t) => Ok(t),
            Err(e) => Err(CapError::Biscuit(e)),
        }
    }

    /// Encode a token to base64 for transport.
    pub fn token_to_base64(token: &[u8]) -> (r: String)
        ensures
            r@ == outside::base64_text(token@),
            outside::base64_bytes(r@) == outside::reads_as(token@),
            text::trimmed(r@) == r@,
    {
        let r = base64_encode(token);
        proof {
            if r@.len() > 0 {
                assert(outside::is_base64_char(r@[0]));
                assert(outside::is_base64_char(r@[r@.len() - 1]));
            }
        }
        r
    }

    /// Decode a token from base64.
    pub fn token_from_base64(encoded: &str) -> (r: Result<Vec<u8>, CapError>)
        ensures
            match outside::base64_bytes(encoded@) {
                Ok(b) => r matches Ok(v) && v@ == b,
                Err(m) => r matches Err(CapError::Base64(e)) && e@ == m,
            },
    {
        match base64_decode(encoded) {
            Ok(v) => Ok(v),
            Err(e) => Err(CapError::Base64(e)),
        }
    }

    /// Extract the token id from a token. Returns `None` if the token has none.
    pub fn extract_token_id(&self, token: &[u8]) -> (r: Result<Option<String>, CapError>)
        ensures
            names_token(self.root(), token@, r),
    {
        proof {
            use_type_invariant(self);
        }
        match query_texts(
            self.secret.as_slice(),
            token,
            "token_id_result($id) <- token_id($id)",
        ) {
            Ok(rows) => {
                proof {
                    lemma_empty_texts(rows@);
                    lemma_single_text(rows@);
                }
                if rows.len() > 0 {
                    let id = rows[0].clone();
                    assert(biscuit::text_set(rows@).contains(id@));
                    Ok(Some(id))
                } else {
                    proof {
                        assert forall|g: Grant| !biscuit::minted_as(self.root(), token@, g) by {
                            if biscuit::minted_as(self.root(), token@, g) {
                                assert(set![g.id].contains(g.id));
                            }
                        }
                    }
                    Ok(None)
                }
            },
            Err(f) => {
                assert(f.explained(self.root(), token@));
                Err(CapError::Biscuit(f.into_error()))
            },
        }
    }

    /// Verify a token, also checking whether it has been revoked. `is_revoked` is
    /// asked about the id of the token; a token without an id cannot be revoked.
    pub fn verify_with_revocation<F: FnOnce(&str) -> bool>(
        &self,
        token: &[u8],
        subject: &str,
        operation: Operation,
        event_type: Option<&str>,
        is_revoked: F,
    ) -> (r: Result<(), CapError>)
        requires
            forall|id: &str| call_requires(is_revoked, (id,)),
        ensures
            exists|found: Result<Option<String>, CapError>| #[trigger]
                names_token(self.root(), token@, found) && match found {
                    Err(e) => r == Err::<(), CapError>(e),
                    Ok(id) => revocation_checked(id, is_revoked, r) || (passes_revocation(
                        id,
                        is_revoked,
                    ) && exists|now: i64| #[trigger]
                        verdict(
                            self.root(),
                            token@,
                            datalog::request_of(now, subject@, operation, event_type),
                            r,
                        )),
                },
    {
        match self.extract_token_id(token) {
            Ok(id) => {
                match refuse_revoked(&id, is_revoked) {
                    Ok(_) => self.verify(token, subject, operation, event_type),
                    Err(e) => Err(e),
                }
            },
            Err(e) => Err(e),
        }
    }

    /// Verify a token that may hold blocks of third parties, at the time of the
    /// machine's clock. Every third party must be in the trust set.
    pub fn verify_multi(
        &self,
        cap: &[u8],
        trusted_authorities: &[BiscuitPublicKey],
        subject: &str,
        op: Operation,
    ) -> (r: Result<(), CapError>)
        ensures
            exists|now: i64| #[trigger]
                multi_verdict(
                    self.root(),
                    cap@,
                    trust_set(trusted_authorities@),
                    datalog::request_of(now, subject@, op, None),
                    r,
                ),
    {
        let now: i64 = clock_now().secs;
        self.verify_multi_at(cap, trusted_authorities, subject, op, now)
    }

    /// Verify a token that may hold blocks of third parties, at a given second.
    pub fn verify_multi_at(
        &self,
        cap: &[u8],
        trusted_authorities: &[BiscuitPublicKey],
        subject: &str,
        op: Operation,
        now: i64,
    ) -> (r: Result<(), CapError>)
        ensures
            multi_verdict(
                self.root(),
                cap@,
                trust_set(trusted_authorities@),
                datalog::request_of(now, subject@, op, None),
                r,
            ),
    {
        self.judge_multi_at(cap, trusted_authorities, subject, op, now).into_result()
    }

    /// Judge a request under a trust set, at a given second.
    pub fn judge_multi_at(
        &self,
        cap: &[u8],
        trusted_authorities: &[BiscuitPublicKey],
        subject: &str,
        op: Operation,
        now: i64,
    ) -> (r: Judgement)
        ensures
            judged_under(
                self.root(),
                cap@,
                trust_set(trusted_authorities@),
                datalog::request_of(now, subject@, op, None),
                r,
            ),
    {
        proof {
            use_type_invariant(self);
            Operation::law_names_are_distinct();
        }
        let ghost q = datalog::request_of(now, subject@, op, None);
        let ghost root = self.root();
        let ghost keys = trust_set(trusted_authorities@);
        if !is_safe(subject) {
            return Judgement::Denied(unsafe_text("subject"));
        }
        let externals = match list_external_keys(self.secret.as_slice(), cap) {
            Ok(keys) => keys,
            Err(e) => {
                return Judgement::Invalid(e);
            },
        };
        match check_trust(&externals, trusted_authorities) {
            Ok(_) => {},
            Err(m) => {
                return Judgement::Denied(m);
            },
        }
        let scope = render_trust(trusted_authorities);
        assert(biscuit::is_scope(scope@)) by {
            assert(scope@ == biscuit::trusting_clause(keys));
        }
        let direct = render_direct(now, subject, op, None, &scope);
        assert(biscuit::is_question(direct@));
        assert(q.quotable() ==> biscuit::asks(direct@, q, scope@));
        let first = match authorize(self.secret.as_slice(), cap, &direct) {
            Ok(Answer::Allowed) => {
                return Judgement::Accepted;
            },
            Ok(answer) => answer,
            Err(e) => {
                return Judgement::Invalid(e);
            },
        };
        let rights = match query_pairs(
            self.secret.as_slice(),
            cap,
            "data($sub, $op) <- right($sub, $op)",
        ) {
            Ok(rows) => rows,
            Err(Fault::Unsettled(e)) => {
                return Judgement::Unsettled(e);
            },
            Err(Fault::Invalid(e)) => {
                return Judgement::Invalid(e);
            },
        };
        let no_kinds: Vec<String> = Vec::new();
        match check_rights(&rights, &no_kinds, subject, op, None) {
            Ok(_) => {},
            Err(m) => {
                proof {
                    assert forall|g: Grant| #[trigger] biscuit::minted_as(root, cap@, g)
                        && g.covers(q) implies matching_right(
                        g.rights(),
                        op.name(),
                        subject@,
                    ) by {
                        let i = choose|i: int|
                            0 <= i < g.operations.len() && g.operations[i] == op;
                        assert(g.operations[i].name() == op.name());
                        assert(g.rights().contains((datalog::said(g.glob), op.name())));
                    }
                }
                return Judgement::Denied(
                    m.concat(" under trust set of ").concat(
                        &text::unsigned_text(trusted_authorities.len() as u64),
                    ).concat(" authorities"),
                );
            },
        }
        let granted = render_granted(now, subject, op, None, &scope);
        assert(biscuit::is_question(granted@)) by {
            assert(granted@ == datalog::granted_code(q, scope@));
            let d = datalog::direct_code(q, scope@);
        }
        assert(q.quotable() ==> biscuit::asks(granted@, q, scope@));
        let second = match authorize(self.secret.as_slice(), cap, &granted) {
            Ok(answer) => answer,
            Err(e) => {
                return Judgement::Invalid(e);
            },
        };
        conclude(first, &rights, &no_kinds, subject, op, None, second)
    }

    /// Extract the budget, rate and approval facts from a token.
    pub fn extract_stateful_caveats(&self, token: &[u8]) -> (r: Result<StatefulCaveats, CapError>)
        ensures
            extracts(self.root(), token@, r),
    {
        proof {
            use_type_invariant(self);
            Operation::law_names_are_distinct();
        }
        let budgets = match query_amounts(
            self.secret.as_slice(),
            token,
            "budget($c, $n) <- budget_limit($c, $n)",
        ) {
            Ok(rows) => rows,
            Err(f) => {
                assert(f.explained(self.root(), token@));
                return Err(CapError::Biscuit(f.into_error()));
            },
        };
        let approvals = match query_texts(
            self.secret.as_slice(),
            token,
            "approval($op) <- requires_approval($op)",
        ) {
            Ok(rows) => rows,
            Err(f) => {
                assert(f.explained(self.root(), token@));
                return Err(CapError::Biscuit(f.into_error()));
            },
        };
        let rates = match query_numbers(
            self.secret.as_slice(),
            token,
            "rate($n) <- rate_limit_ops_per_sec($n)",
        ) {
            Ok(rows) => rows,
            Err(f) => {
                assert(f.explained(self.root(), token@));
                return Err(CapError::Biscuit(f.into_error()));
            },
        };
        let c = read_caveats(&budgets, &approvals, &rates);
        proof {
            lemma_caveats_reflect(budgets@, approvals@, rates@, c);
        }
        Ok(c)
    }
}

/// The token is refused, because its id is revoked.
pub open spec fn revocation_checked<F: FnOnce(&str) -> bool>(
    id: Option<String>,
    is_revoked: F,
    r: Result<(), CapError>,
) -> bool {
    id matches Some(t) && exists|s: &str| #[trigger]
        call_ensures(is_revoked, (s,), true) && s@ == t@ && (r matches Err(e) && e.denies(
            "token "@ + t@ + " has been revoked"@,
        ))
}

/// The token has no id, or one that is not revoked.
pub open spec fn passes_revocation<F: FnOnce(&str) -> bool>(
    id: Option<String>,
    is_revoked: F,
) -> bool {
    id matches Some(t) ==> exists|s: &str| #[trigger]
        call_ensures(is_revoked, (s,), false) && s@ == t@
}

/// Refuses a token whose id is revoked.
pub fn refuse_revoked<F: FnOnce(&str) -> bool>(id: &Option<String>, is_revoked: F) -> (r: Result<
    (),
    CapError,
>)
    requires
        forall|id: &str| call_requires(is_revoked, (id,)),
    ensures
        match r {
            Ok(_) => passes_revocation(*id, is_revoked),
            Err(_) => revocation_checked(*id, is_revoked, r),
        },
{
    match id {
        Some(t) => {
            if is_revoked(t.as_str()) {
                Err(
                    CapError::Denied(
                        String::from_str("token ").concat(t).concat(" has been revoked"),
                    ),
                )
            } else {
                Ok(())
            }
        },
        None => Ok(()),
    }
}

/// The keys of a trust set, by algorithm and bytes.
pub open spec fn trust_set(keys: Seq<BiscuitPublicKey>) -> Seq<(KeyAlgorithm, Seq<u8>)> {
    keys.map_values(|k: BiscuitPublicKey| k@)
}

/// The key of a third party that the trust set lacks stands at `i`, and none before.
pub open spec fn first_untrusted(
    externals: Seq<Option<(KeyAlgorithm, Seq<u8>)>>,
    trusted: Seq<(KeyAlgorithm, Seq<u8>)>,
    i: int,
) -> bool {
    &&& 0 <= i < externals.len()
    &&& externals[i] is Some
    &&& !trusted.contains(externals[i]->0)
    &&& forall|j: int| 0 <= j < i && (#[trigger] externals[j]) is Some ==> trusted.contains(
        externals[j]->0,
    )
}

/// Every third party is in the trust set.
pub open spec fn all_trusted(
    externals: Seq<Option<(KeyAlgorithm, Seq<u8>)>>,
    trusted: Seq<(KeyAlgorithm, Seq<u8>)>,
) -> bool {
    forall|j: int|
        0 <= j < externals.len() && (#[trigger] externals[j]) is Some ==> trusted.contains(
            externals[j]->0,
        )
}

/// The refusal of a third party that is not in the trust set.
pub open spec fn untrusted_message(key: (KeyAlgorithm, Seq<u8>)) -> Seq<char> {
    "third-party block signed by "@ + biscuit::hex_text(key.1) + " is not in the trust set"@
}

/// The refusal of a request for which no right was found under a trust set.
pub open spec fn no_trusted_right_message(op: Seq<char>, subject: Seq<char>, n: nat) -> Seq<char> {
    no_right_message(op, subject) + " under trust set of "@ + text::digits(n) + " authorities"@
}

/// How a verification under a trust set may end. Every third party must be trusted,
/// whatever the token holds besides; the rest is as in [`judged`], where a request
/// has no event type.
pub open spec fn judged_under(
    root: Seq<u8>,
    token: Seq<u8>,
    trusted: Seq<(KeyAlgorithm, Seq<u8>)>,
    q: Request,
    j: Judgement,
) -> bool {
    let scope = biscuit::trusting_clause(trusted);
    let externals = biscuit::external_keys(root, token);
    if !datalog::safe(q.subject) {
        j matches Judgement::Denied(m) && m@ == datalog::unsafe_message("subject"@)
    } else if biscuit::extendable(root, token) && !all_trusted(externals, trusted) {
        j matches Judgement::Denied(m) && exists|i: int| #[trigger]
            first_untrusted(externals, trusted, i) && m@ == untrusted_message(externals[i]->0)
    } else if !q.quotable() {
        j is Invalid || (j matches Judgement::Denied(m) && exists|i: int| #[trigger]
            first_untrusted(externals, trusted, i) && m@ == untrusted_message(externals[i]->0))
    } else {
        match j {
            Judgement::Accepted => {
                &&& all_trusted(externals, trusted)
                &&& {
                    ||| biscuit::authorizes(root, token, datalog::direct_code(q, scope))
                    ||| matching_right(
                        biscuit::found_pairs(root, token, biscuit::rights_rule()),
                        q.operation.name(),
                        q.subject,
                    ) && biscuit::authorizes(root, token, datalog::granted_code(q, scope))
                }
                &&& forall|g: Grant| #[trigger]
                    biscuit::minted_as(root, token, g) ==> g.admits(q) && biscuit::blocks_admit(
                        root,
                        token,
                        q,
                    ) && (biscuit::legible(root, token) ==> g.reaches(q))
            },
            Judgement::Denied(m) => {
                ||| exists|i: int| #[trigger]
                    first_untrusted(externals, trusted, i) && m@ == untrusted_message(
                        externals[i]->0,
                    )
                ||| {
                    &&& all_trusted(externals, trusted)
                    &&& m@ == no_trusted_right_message(
                        q.operation.name(),
                        q.subject,
                        trusted.len(),
                    )
                    &&& !matching_right(
                        biscuit::found_pairs(root, token, biscuit::rights_rule()),
                        q.operation.name(),
                        q.subject,
                    )
                    &&& forall|g: Grant| #[trigger]
                        biscuit::minted_as(root, token, g) ==> !g.covers(q)
                }
            },
            Judgement::Refused(_) => all_trusted(externals, trusted) && fails_a_check(
                root,
                token,
                q,
                scope,
            ),
            Judgement::Unsettled(_) => all_trusted(externals, trusted),
            Judgement::Invalid(_) => is_unreadable(root, token),
        }
    }
}

/// What a verification under a trust set answers: one of the judgements it may end
/// with, as a result.
pub open spec fn multi_verdict(
    root: Seq<u8>,
    token: Seq<u8>,
    trusted: Seq<(KeyAlgorithm, Seq<u8>)>,
    q: Request,
    r: Result<(), CapError>,
) -> bool {
    exists|j: Judgement| #[trigger]
        judged_under(root, token, trusted, q, j) && j.reported_as(r)
}

fn same_bytes(a: &Vec<u8>, b: &Vec<u8>) -> (r: bool)
    ensures
        r == (a@ == b@),
{
    if a.len() != b.len() {
        return false;
    }
    let mut i: usize = 0;
    while i < a.len()
        invariant
            i <= a@.len(),
            a@.len() == b@.len(),
            forall|j: int| 0 <= j < i ==> a@[j] == b@[j],
        decreases a.len() - i,
    {
        if a[i] != b[i] {
            return false;
        }
        i += 1;
    }
    assert(a@ =~= b@);
    true
}

/// Refuses the first third party that is not in the trust set. A missing authority
/// would silently widen what its block was meant to narrow.
pub fn check_trust(
    externals: &Vec<Option<(KeyAlgorithm, Vec<u8>)>>,
    trusted: &[BiscuitPublicKey],
) -> (r: Result<(), String>)
    ensures
        match r {
            Ok(_) => all_trusted(biscuit::key_views(externals@), trust_set(trusted@)),
            Err(m) => exists|i: int| #[trigger]
                first_untrusted(biscuit::key_views(externals@), trust_set(trusted@), i)
                    && m@ == untrusted_message(biscuit::key_views(externals@)[i]->0),
        },
{
    let ghost views = biscuit::key_views(externals@);
    let ghost keys = trust_set(trusted@);
    let mut i: usize = 0;
    while i < externals.len()
        invariant
            i <= externals@.len(),
            views == biscuit::key_views(externals@),
            keys == trust_set(trusted@),
            forall|j: int| 0 <= j < i && (#[trigger] views[j]) is Some ==> keys.contains(
                views[j]->0,
            ),
        decreases externals.len() - i,
    {
        if let Some(key) = &externals[i] {
            assert(views[i as int] == Some((key.0, key.1@)));
            let mut k: usize = 0;
            let mut found = false;
            while k < trusted.len() && !found
                invariant
                    k <= trusted@.len(),
                    keys == trust_set(trusted@),
                    found ==> keys.contains((key.0, key.1@)),
                    !found ==> forall|j: int| 0 <= j < k ==> keys[j] != (key.0, key.1@),
                decreases trusted.len() - k + (if found {
                    0int
                } else {
                    1int
                }),
            {
                let bytes = trusted[k].to_bytes();
                if trusted[k].algorithm() == key.0 && same_bytes(&bytes, &key.1) {
                    assert(keys[k as int] == (key.0, key.1@));
                    found = true;
                } else {
                    assert(keys[k as int] == trusted@[k as int]@);
                    k += 1;
                }
            }
            if !found {
                assert(!keys.contains((key.0, key.1@)));
                assert(first_untrusted(views, keys, i as int));
                return Err(
                    String::from_str("third-party block signed by ").concat(
                        &hex_encode(key.1.as_slice()),
                    ).concat(" is not in the trust set"),
                );
            }
        }
        i += 1;
    }
    Ok(())
}

/// The clause that lets a policy see the authority block and the blocks of the
/// trusted third parties.
fn render_trust(trusted: &[BiscuitPublicKey]) -> (r: String)
    ensures
        r@ == biscuit::trusting_clause(trust_set(trusted@)),
        biscuit::all_canonical(trust_set(trusted@)),
{
    let mut out = String::from_str(" trusting authority");
    let ghost keys = trust_set(trusted@);
    let ghost head = out@;
    let mut i: usize = 0;
    assert(out@ =~= head + biscuit::trusted_keys(keys.take(0)));
    while i < trusted.len()
        invariant
            i <= trusted@.len(),
            keys == trust_set(trusted@),
            head == " trusting authority"@,
            out@ == head + biscuit::trusted_keys(keys.take(i as int)),
            forall|j: int| 0 <= j < i ==> biscuit::public_key_form(
                #[trigger] keys[j].0,
                keys[j].1,
            ) == Some(keys[j].1),
        decreases trusted.len() - i,
    {
        let ghost before = out@;
        let key = trusted[i].to_text();
        out.append(", ");
        out.append(&key);
        proof {
            let t = keys.take(i + 1);
            assert(t.drop_last() =~= keys.take(i as int));
            assert(t.last() == keys[i as int]);
            assert(keys[i as int] == trusted@[i as int]@);
            assert(out@ =~= head + biscuit::trusted_keys(t));
        }
        i += 1;
    }
    assert(keys.take(keys.len() as int) =~= keys);
    out
}

/// The stateful caveats of a token.
#[derive(Debug)]
pub struct StatefulCaveats {
    /// The token's budget, if any. Only one is honored.
    pub budget_limit: Option<BudgetLimit>,
    /// The operations that require human approval.
    pub requires_approval: Vec<Operation>,
    /// The operations per second, if limited.
    pub rate_limit_ops_per_sec: Option<u32>,
}

impl StatefulCaveats {
    /// The caveats are those of the grant.
    pub open spec fn reflects(self, g: Grant) -> bool {
        &&& match (self.budget_limit, g.budget) {
            (Some(b), Some(x)) => b.currency@ == datalog::said(x.0) && b.amount_micro_units == x.1,
            (None, None) => true,
            _ => false,
        }
        &&& self.rate_limit_ops_per_sec == g.rate
        &&& forall|op: Operation| #[trigger]
            self.requires_approval@.contains(op) <==> g.approvals.contains(op)
    }
}

impl Default for StatefulCaveats {
    fn default() -> (r: Self)
        ensures
            r.budget_limit is None,
            r.requires_approval@.len() == 0,
            r.rate_limit_ops_per_sec is None,
    {
        StatefulCaveats {
            budget_limit: None,
            requires_approval: Vec::new(),
            rate_limit_ops_per_sec: None,
        }
    }
}

/// A number read as a rate: the nearest one that a rate can be.
pub open spec fn clamp_rate(n: i64) -> u32 {
    if n < 0 {
        0
    } else if n > u32::MAX {
        u32::MAX
    } else {
        n as u32
    }
}

/// Reads the stateful caveats from the rows that the queries found: the first
/// budget, the first rate, and every operation with a known name. An unknown
/// operation is dropped: it cannot be interpreted.
pub fn read_caveats(
    budgets: &Vec<(String, i64)>,
    approvals: &Vec<String>,
    rates: &Vec<i64>,
) -> (c: StatefulCaveats)
    ensures
        c.budget_limit is None <==> budgets@.len() == 0,
        c.budget_limit matches Some(b) ==> b.currency@ == budgets@[0].0@ && b.amount_micro_units
            == budgets@[0].1,
        forall|op: Operation| #[trigger]
            c.requires_approval@.contains(op) <==> exists|i: int|
                0 <= i < approvals@.len() && (#[trigger] approvals@[i])@ == op.name(),
        c.rate_limit_ops_per_sec is None <==> rates@.len() == 0,
        c.rate_limit_ops_per_sec matches Some(n) ==> n == clamp_rate(rates@[0]),
{
    let budget_limit: Option<BudgetLimit> = if budgets.len() > 0 {
        Some(BudgetLimit { currency: budgets[0].0.clone(), amount_micro_units: budgets[0].1 })
    } else {
        None
    };
    let mut requires_approval: Vec<Operation> = Vec::new();
    let mut i: usize = 0;
    while i < approvals.len()
        invariant
            i <= approvals@.len(),
            forall|op: Operation| #[trigger]
                requires_approval@.contains(op) <==> exists|j: int|
                    0 <= j < i && (#[trigger] approvals@[j])@ == op.name(),
        decreases approvals.len() - i,
    {
        let ghost before = requires_approval@;
        match Operation::from_name(&approvals[i]) {
            Some(op) => {
                requires_approval.push(op);
                proof {
                    Operation::law_names_are_distinct();
                    assert forall|o: Operation| #[trigger]
                        requires_approval@.contains(o) <==> exists|j: int|
                            0 <= j < i + 1 && (#[trigger] approvals@[j])@ == o.name() by {
                        if requires_approval@.contains(o) {
                            let k = choose|k: int|
                                0 <= k < requires_approval@.len() && requires_approval@[k] == o;
                            if k < before.len() {
                                assert(before[k] == o);
                                assert(before.contains(o));
                            } else {
                                assert(approvals@[i as int]@ == o.name());
                            }
                        }
                        if exists|j: int| 0 <= j < i + 1 && (#[trigger] approvals@[j])@ == o.name() {
                            let j = choose|j: int|
                                0 <= j < i + 1 && (#[trigger] approvals@[j])@ == o.name();
                            if j < i {
                                assert(before.contains(o));
                                let k = choose|k: int| 0 <= k < before.len() && before[k] == o;
                                assert(requires_approval@[k] == o);
                            } else {
                                assert(o == op);
                                assert(requires_approval@[before.len() as int] == o);
                            }
                        }
                    }
                }
            },
            None => {
                proof {
                    assert forall|o: Operation| #[trigger]
                        requires_approval@.contains(o) <==> exists|j: int|
                            0 <= j < i + 1 && (#[trigger] approvals@[j])@ == o.name() by {
                        if exists|j: int| 0 <= j < i + 1 && (#[trigger] approvals@[j])@ == o.name() {
                            let j = choose|j: int|
                                0 <= j < i + 1 && (#[trigger] approvals@[j])@ == o.name();
                            assert(j < i);
                        }
                    }
                }
            },
        }
        i += 1;
    }
    let rate_limit_ops_per_sec: Option<u32> = if rates.len() > 0 {
        let n: i64 = rates[0];
        if n < 0 {
            Some(0)
        } else if n > 0xffff_ffff {
            Some(u32::MAX)
        } else {
            Some(n as u32)
        }
    } else {
        None
    };
    StatefulCaveats { budget_limit, requires_approval, rate_limit_ops_per_sec }
}

proof fn lemma_caveats_reflect(
    budgets: Seq<(String, i64)>,
    approvals: Seq<String>,
    rates: Seq<i64>,
    c: StatefulCaveats,
)
    requires
        c.budget_limit is None <==> budgets.len() == 0,
        c.budget_limit matches Some(b) ==> b.currency@ == budgets[0].0@ && b.amount_micro_units
            == budgets[0].1,
        forall|op: Operation| #[trigger]
            c.requires_approval@.contains(op) <==> exists|i: int|
                0 <= i < approvals.len() && (#[trigger] approvals[i])@ == op.name(),
        c.rate_limit_ops_per_sec is None <==> rates.len() == 0,
        c.rate_limit_ops_per_sec matches Some(n) ==> n == clamp_rate(rates[0]),
    ensures
        budgets.len() == 0 <==> biscuit::amount_set(budgets) == Set::<(Seq<char>, i64)>::empty(),
        budgets.len() > 0 ==> biscuit::amount_set(budgets).contains(
            (budgets[0].0@, budgets[0].1),
        ),
        rates.len() == 0 <==> rates.to_set() == Set::<i64>::empty(),
        rates.len() > 0 ==> rates.to_set().contains(rates[0]),
        forall|op: Operation| #[trigger]
            c.requires_approval@.contains(op) <==> biscuit::text_set(approvals).contains(op.name()),
        forall|g: Grant|
            biscuit::amount_set(budgets) == g.budget_set() && biscuit::text_set(approvals)
                == g.approval_set() && rates.to_set() == g.rate_set() ==> #[trigger] c.reflects(g),
{
    Operation::law_names_are_distinct();
    let m = budgets.map_values(|r: (String, i64)| (r.0@, r.1));
    if budgets.len() > 0 {
        assert(m[0] == (budgets[0].0@, budgets[0].1));
        assert(m.contains(m[0]));
        assert(biscuit::amount_set(budgets).contains(m[0]));
    } else {
        assert(biscuit::amount_set(budgets) =~= Set::<(Seq<char>, i64)>::empty());
    }
    if rates.len() > 0 {
        assert(rates.contains(rates[0]));
        assert(rates.to_set().contains(rates[0]));
    } else {
        assert(rates.to_set() =~= Set::<i64>::empty());
    }
    let t = approvals.map_values(|r: String| r@);
    assert forall|op: Operation| #[trigger]
        c.requires_approval@.contains(op) <==> biscuit::text_set(approvals).contains(
            op.name(),
        ) by {
        if c.requires_approval@.contains(op) {
            let i = choose|i: int|
                0 <= i < approvals.len() && (#[trigger] approvals[i])@ == op.name();
            assert(t[i] == op.name());
            assert(t.contains(op.name()));
        }
        if biscuit::text_set(approvals).contains(op.name()) {
            assert(t.contains(op.name()));
            let i = choose|i: int| 0 <= i < t.len() && t[i] == op.name();
            assert(approvals[i]@ == op.name());
        }
    }
    assert forall|g: Grant|
        biscuit::amount_set(budgets) == g.budget_set() && biscuit::text_set(approvals)
            == g.approval_set() && rates.to_set() == g.rate_set() implies #[trigger] c.reflects(
        g,
    ) by {
        if let Some(b) = g.budget {
            assert(g.budget_set().contains((datalog::said(b.0), b.1)));
            assert(m[0] == (datalog::said(b.0), b.1));
        }
        if let Some(n) = g.rate {
            assert(g.rate_set().contains(n as i64));
            assert(rates[0] == n as i64);
        }
        assert forall|op: Operation| #[trigger]
            c.requires_approval@.contains(op) <==> g.approvals.contains(op) by {
            if g.approvals.contains(op) {
                let i = choose|i: int| 0 <= i < g.approvals.len() && g.approvals[i] == op;
                assert(g.approvals[i].name() == op.name());
            }
        }
    }
}

} // verus!
