//! What holds of minting, attenuating and verifying taken together.

use crate::cap::biscuit;
use crate::cap::biscuit::Answer;
use crate::cap::datalog;
use crate::cap::datalog::{Caveat, Grant, Request};
use crate::cap::engine;
use crate::cap::engine::{CapEngine, Judgement, StatefulCaveats};
use crate::cap::error::CapError;
use crate::cap::glob;
use crate::cap::keys::{BiscuitPrivateKey, BiscuitPublicKey, KeyAlgorithm};
use crate::cap::operation::Operation;
use crate::cap::state;
use crate::cap::state::BudgetLimit;
use crate::time::Timestamp;
use vstd::prelude::*;

verus! {

/// A minted token is accepted only for what it was minted for: an operation that
/// it grants, on a subject that its pattern covers, not after it expires, and only
/// for an event type that it allows.
pub proof fn law_minted_token_allows_only_its_grant(
    root: Seq<u8>,
    token: Seq<u8>,
    g: Grant,
    q: Request,
)
    requires
        biscuit::minted_as(root, token, g),
        engine::verdict(root, token, q, Ok(())),
    ensures
        g.operations.contains(q.operation),
        g.reaches(q),
        g.expires matches Some(t) ==> q.now <= t,
        g.kinds matches Some(ks) ==> (q.event_type matches Some(e) && datalog::said_all(
            ks,
        ).contains(datalog::said(e))),
{
}

/// A request that a minted token covers, with an event type where the token is
/// for certain types, is never denied: what stands in its way can only be an error
/// of the token library, such as a check that fails or an evaluation given up.
pub proof fn law_granted_request_is_not_denied(
    root: Seq<u8>,
    token: Seq<u8>,
    g: Grant,
    q: Request,
    r: Result<(), CapError>,
)
    requires
        biscuit::minted_as(root, token, g),
        q.safe(),
        g.covers(q),
        g.kinds is Some ==> q.event_type is Some,
        engine::verdict(root, token, q, r),
    ensures
        r is Ok || r->Err_0 is Biscuit,
{
}

/// What a token was minted for is accepted: a request that the grant permits and
/// that every restriction added since admits ends with an acceptance, unless the
/// token library gives the evaluation up for the time it takes. Where the grant only names
/// the subject, which takes escapes in it, such a request may end with a denial instead.
pub proof fn law_permitted_request_is_accepted(
    root: Seq<u8>,
    token: Seq<u8>,
    g: Grant,
    q: Request,
    j: Judgement,
)
    requires
        biscuit::minted_as(root, token, g),
        biscuit::legible(root, token),
        q.safe(),
        q.quotable(),
        g.permits(q),
        biscuit::blocks_admit(root, token, q),
        engine::judged(root, token, q, j),
    ensures
        j is Accepted || j is Unsettled || (j is Denied && !g.covers(q)),
        datalog::plain(q.subject) ==> g.covers(q),
{
    if datalog::plain(q.subject) {
        lemma_named_is_covered(g, q);
    }
}

/// A grant that names a subject without escapes covers it.
proof fn lemma_named_is_covered(g: Grant, q: Request)
    requires
        datalog::plain(q.subject),
        g.reaches(q),
    ensures
        g.covers(q),
{
    datalog::lemma_plain(q.subject);
    crate::cap::glob::law_pattern_covers_itself(q.subject);
    crate::cap::glob::law_root_glob_covers_everything(q.subject);
}

/// The grant that a minted token was minted from.
pub proof fn lemma_minted_grant(
    root: Seq<u8>,
    token: Vec<u8>,
    glob: Seq<char>,
    operations: Seq<Operation>,
    expires_at: Option<Timestamp>,
    kinds: Option<&[&str]>,
    rate: Option<u32>,
    budget: Option<&BudgetLimit>,
    approvals: Seq<Operation>,
) -> (g: Grant)
    requires
        engine::minted(
            root,
            Ok(token),
            glob,
            operations,
            expires_at,
            kinds,
            rate,
            budget,
            approvals,
        ),
    ensures
        g == datalog::grant_of(
            g.id,
            glob,
            operations,
            engine::expiry_view(expires_at),
            kinds,
            rate,
            engine::budget_view(budget),
            approvals,
        ),
        biscuit::minted_as(root, token@, g),
        biscuit::block_sources(root, token@).len() == 1,
        biscuit::legible(root, token@),
{
    let id = choose|id: Seq<char>|
        #![trigger crate::outside::is_uuid_text(id)]
        {
            let g = datalog::grant_of(
                id,
                glob,
                operations,
                engine::expiry_view(expires_at),
                kinds,
                rate,
                engine::budget_view(budget),
                approvals,
            );
            crate::outside::is_uuid_text(id) && biscuit::minted_as(root, token@, g)
                && biscuit::block_sources(root, token@).len() == 1 && biscuit::extendable(
                root,
                token@,
            )
        };
    datalog::grant_of(
        id,
        glob,
        operations,
        engine::expiry_view(expires_at),
        kinds,
        rate,
        engine::budget_view(budget),
        approvals,
    )
}

/// A fresh token does what it was minted for: a request with one of its operations,
/// on a subject that its pattern covers, not after it expires, and with an event
/// type that it allows is accepted, unless the evaluation is given up.
pub proof fn law_fresh_token_is_good_for_its_grant(
    root: Seq<u8>,
    token: Vec<u8>,
    glob: Seq<char>,
    operations: Seq<Operation>,
    expires_at: Option<Timestamp>,
    kinds: Option<&[&str]>,
    rate: Option<u32>,
    budget: Option<&BudgetLimit>,
    approvals: Seq<Operation>,
    q: Request,
    j: Judgement,
)
    requires
        engine::minted(
            root,
            Ok(token),
            glob,
            operations,
            expires_at,
            kinds,
            rate,
            budget,
            approvals,
        ),
                q.safe(),
        q.quotable(),
        operations.contains(q.operation),
        crate::cap::glob::glob_matches(datalog::said(glob), q.subject),
        expires_at matches Some(t) ==> q.now <= t.secs,
        kinds matches Some(ks) ==> (q.event_type matches Some(e) && datalog::said_all(
            datalog::texts(ks@),
        ).contains(datalog::said(e))),
        engine::judged(root, token@, q, j),
    ensures
        j is Accepted || j is Unsettled,
{
    let g = lemma_minted_grant(
        root,
        token,
        glob,
        operations,
        expires_at,
        kinds,
        rate,
        budget,
        approvals,
    );
    law_permitted_request_is_accepted(root, token@, g, q, j);
}

/// The caveats that a token is minted with are read back from it: the budget, the rate, and
/// the operations that need an approval. Only an evaluation that is given up ends otherwise.
pub proof fn law_minted_caveats_are_read_back(
    root: Seq<u8>,
    token: Vec<u8>,
    glob: Seq<char>,
    operations: Seq<Operation>,
    expires_at: Option<Timestamp>,
    kinds: Option<&[&str]>,
    rate: Option<u32>,
    budget: Option<&BudgetLimit>,
    approvals: Seq<Operation>,
    r: Result<StatefulCaveats, CapError>,
)
    requires
        engine::minted(
            root,
            Ok(token),
            glob,
            operations,
            expires_at,
            kinds,
            rate,
            budget,
            approvals,
        ),
                engine::extracts(root, token@, r),
    ensures
        match r {
            Ok(c) => {
                &&& c.budget_limit is Some <==> budget is Some
                &&& c.budget_limit matches Some(b) ==> b.currency@ == datalog::said(
                    budget->0.currency@,
                ) && b.amount_micro_units == budget->0.amount_micro_units
                &&& c.rate_limit_ops_per_sec == rate
                &&& forall|op: Operation| #[trigger]
                    c.requires_approval@.contains(op) <==> approvals.contains(op)
            },
            Err(e) => engine::gave_up(e),
        },
{
    let g = lemma_minted_grant(
        root,
        token,
        glob,
        operations,
        expires_at,
        kinds,
        rate,
        budget,
        approvals,
    );
    match r {
        Ok(c) => {
            assert(c.reflects(g));
        },
        Err(e) => {
            let f = choose|f: biscuit::Fault| #[trigger]
                f.explained(root, token@) && e == CapError::Biscuit(f.cause());
            assert(f is Unsettled);
        },
    }
}

/// An attenuation or a third party's block leaves a token as readable as it was, so
/// that what it still permits is still accepted.
pub proof fn law_restrictions_stay_legible(
    root: Seq<u8>,
    earlier: Seq<u8>,
    later: Seq<u8>,
    block: Seq<char>,
)
    requires
        biscuit::legible(root, earlier),
        biscuit::extendable(root, later),
        biscuit::block_sources(root, later) == biscuit::block_sources(root, earlier).push(block),
        biscuit::is_attenuation(block) || biscuit::is_caveats(block),
    ensures
        biscuit::legible(root, later),
{
    assert forall|i: int|
        1 <= i < biscuit::block_sources(root, later).len() implies biscuit::is_attenuation(
        #[trigger] biscuit::block_sources(root, later)[i],
    ) || biscuit::is_caveats(biscuit::block_sources(root, later)[i]) by {
        if i < biscuit::block_sources(root, earlier).len() {
            assert(biscuit::block_sources(root, earlier)[i] == biscuit::block_sources(root, later)[i]);
        }
    }
}

/// Where every third party is trusted, a request without an event type that the grant
/// permits and that every restriction admits is accepted, unless the evaluation is
/// given up. Where the grant only names the subject, which takes escapes in it, such a
/// request may end with a denial instead.
pub proof fn law_permitted_request_is_accepted_under_trust(
    root: Seq<u8>,
    token: Seq<u8>,
    trusted: Seq<(KeyAlgorithm, Seq<u8>)>,
    g: Grant,
    q: Request,
    j: Judgement,
)
    requires
        biscuit::minted_as(root, token, g),
        biscuit::legible(root, token),
        engine::all_trusted(biscuit::external_keys(root, token), trusted),
        q.safe(),
        q.quotable(),
        g.permits(q),
        biscuit::blocks_admit(root, token, q),
        engine::judged_under(root, token, trusted, q, j),
    ensures
        j is Accepted || j is Unsettled || (j is Denied && !g.covers(q)),
        datalog::plain(q.subject) ==> g.covers(q),
{
    if datalog::plain(q.subject) {
        lemma_named_is_covered(g, q);
    }
}

/// A token that was attenuated keeps the grant that it was minted from, and so its
/// id, budget, rate and approvals.
pub proof fn law_attenuation_keeps_the_grant(
    root: Seq<u8>,
    earlier: Seq<u8>,
    later: Seq<u8>,
    g: Grant,
    block: Seq<char>,
)
    requires
        biscuit::minted_as(root, earlier, g),
        biscuit::block_sources(root, later) == biscuit::block_sources(root, earlier).push(block),
    ensures
        biscuit::minted_as(root, later, g),
{
}

/// Attenuation narrows: an attenuated token is accepted only for operations and
/// subjects within the attenuation, and only within the original grant.
pub proof fn law_attenuation_narrows(
    root: Seq<u8>,
    earlier: Seq<u8>,
    later: Seq<u8>,
    g: Grant,
    ops: Seq<Operation>,
    glob: Seq<char>,
    q: Request,
)
    requires
        biscuit::minted_as(root, earlier, g),
        datalog::quotable(datalog::glob_prefix(glob)),
        biscuit::block_sources(root, later) == biscuit::block_sources(root, earlier).push(
            datalog::attenuation_code(ops, datalog::glob_prefix(glob)),
        ),
        engine::verdict(root, later, q, Ok(())),
    ensures
        ops.contains(q.operation),
        datalog::said(datalog::glob_prefix(glob)).is_prefix_of(datalog::said(q.subject)),
        g.permits(q),
{
    law_attenuation_keeps_the_grant(
        root,
        earlier,
        later,
        g,
        datalog::attenuation_code(ops, datalog::glob_prefix(glob)),
    );
    let blocks = biscuit::block_sources(root, later);
    let i = biscuit::block_sources(root, earlier).len() as int;
    assert(blocks[i] == datalog::attenuation_code(ops, datalog::glob_prefix(glob)));
    assert(biscuit::blocks_admit(root, later, q));
    assert(biscuit::attenuation_admits(ops, datalog::glob_prefix(glob), q));
}

/// What an attenuated token allows, the token that it was made of allows: a request that the
/// later token is accepted for ends the same way with the earlier one, unless the evaluation
/// is given up. Where the grant only names the subject, which takes escapes in it, such a
/// request may end with a denial instead.
pub proof fn law_the_earlier_token_allows_as_much(
    root: Seq<u8>,
    earlier: Seq<u8>,
    later: Seq<u8>,
    g: Grant,
    block: Seq<char>,
    q: Request,
    j: Judgement,
)
    requires
        biscuit::minted_as(root, earlier, g),
        biscuit::legible(root, earlier),
        biscuit::block_sources(root, later) == biscuit::block_sources(root, earlier).push(block),
        engine::verdict(root, later, q, Ok(())),
        engine::judged(root, earlier, q, j),
    ensures
        j is Accepted || j is Unsettled || (j is Denied && !g.covers(q)),
        datalog::plain(q.subject) ==> g.covers(q),
{
    law_attenuation_keeps_the_grant(root, earlier, later, g, block);
    let a = biscuit::block_sources(root, earlier);
    let b = biscuit::block_sources(root, later);
    assert(biscuit::blocks_admit(root, later, q));
    assert(biscuit::blocks_admit(root, earlier, q)) by {
        assert forall|i: int, ops: Seq<Operation>, prefix: Seq<char>|
            1 <= i < a.len() && datalog::quotable(prefix) && #[trigger] a[i]
                == #[trigger] datalog::attenuation_code(
                ops,
                prefix,
            ) implies biscuit::attenuation_admits(ops, prefix, q) by {
            assert(b[i] == datalog::attenuation_code(ops, prefix));
        }
        assert forall|i: int, authority: Seq<char>, caveats: Seq<Caveat>|
            1 <= i < a.len() && datalog::quotable(authority) && biscuit::all_quotable(caveats)
                && #[trigger] a[i] == #[trigger] datalog::caveat_code(
                authority,
                caveats,
            ) implies biscuit::caveats_admit(caveats, q) by {
            assert(b[i] == datalog::caveat_code(authority, caveats));
        }
    }
    law_permitted_request_is_accepted(root, earlier, g, q, j);
}

/// An attenuation leaves exactly what it says. To a pattern without a star, or to such a text
/// followed by `/**` or `/*`, it leaves the operations that are listed, on the subjects that
/// begin with that text, of what the token was accepted for: nothing else is accepted any more,
/// and what is left is accepted as before, unless the evaluation is given up. Where the
/// grant only names the subject, which takes escapes in it, such a request may end with a
/// denial instead.
pub proof fn law_attenuation_leaves_what_begins_with_its_path(
    cap_engine: &CapEngine,
    earlier: &[u8],
    made: Vec<u8>,
    later: &[u8],
    g: Grant,
    pattern: &str,
    base: Seq<char>,
    ops: &[Operation],
    subject: &str,
    operation: Operation,
    event_type: Option<&str>,
    now: i64,
    before: Judgement,
    after: Judgement,
)
    requires
        biscuit::minted_as(cap_engine.root(), earlier@, g),
        biscuit::legible(cap_engine.root(), earlier@),
        call_ensures(CapEngine::attenuate, (cap_engine, earlier, pattern, ops), Ok(made)),
        later@ == made@,
        !base.contains('*'),
        pattern@ == base || pattern@ == base + "/**"@ || pattern@ == base + "/*"@,
        call_ensures(
            CapEngine::judge_at,
            (cap_engine, earlier, subject, operation, event_type, now),
            before,
        ),
        call_ensures(
            CapEngine::judge_at,
            (cap_engine, later, subject, operation, event_type, now),
            after,
        ),
    ensures
        biscuit::minted_as(cap_engine.root(), later@, g),
        biscuit::legible(cap_engine.root(), later@),
        after is Accepted ==> ops@.contains(operation) && base.is_prefix_of(subject@),
        after is Accepted ==> before is Accepted || before is Unsettled || (before is Denied
            && !glob::glob_matches(datalog::said(g.glob), subject@)),
        before is Accepted && ops@.contains(operation) && base.is_prefix_of(subject@)
            ==> after is Accepted || after is Unsettled || (after is Denied && !glob::glob_matches(
            datalog::said(g.glob),
            subject@,
        )),
        datalog::plain(subject@) && (before is Accepted || after is Accepted)
            ==> glob::glob_matches(datalog::said(g.glob), subject@),
{
    let root = cap_engine.root();
    let q = datalog::request_of(now, subject@, operation, event_type);
    let block = datalog::attenuation_code(ops@, base);
    datalog::lemma_path_of_a_pattern(pattern@, base);
    let a = biscuit::block_sources(root, earlier@);
    let b = biscuit::block_sources(root, later@);
    assert(b == a.push(block));
    law_attenuation_keeps_the_grant(root, earlier@, later@, g, block);
    assert(biscuit::is_attenuation(block));
    law_restrictions_stay_legible(root, earlier@, later@, block);
    if datalog::quotable(subject@) {
        datalog::lemma_said_prefix(base, subject@);
    }
    if after is Accepted {
        assert(after.reported_as(Ok(())));
        law_attenuation_narrows(root, earlier@, later@, g, ops@, pattern@, q);
        law_the_earlier_token_allows_as_much(root, earlier@, later@, g, block, q, before);
    }
    if before is Accepted && datalog::plain(subject@) {
        assert(g.permits(q));
        lemma_named_is_covered(g, q);
    }
    if before is Accepted && ops@.contains(operation) && base.is_prefix_of(subject@) {
        assert(biscuit::blocks_admit(root, earlier@, q));
        assert forall|i: int, l: Seq<Operation>, prefix: Seq<char>|
            1 <= i < b.len() && datalog::quotable(prefix) && #[trigger] b[i]
                == #[trigger] datalog::attenuation_code(
                l,
                prefix,
            ) implies biscuit::attenuation_admits(l, prefix, q) by {
            if i < a.len() {
                assert(a[i] == datalog::attenuation_code(l, prefix));
            } else {
                datalog::lemma_attenuation_is_told(l, prefix, ops@, base);
            }
        }
        assert forall|i: int, authority: Seq<char>, caveats: Seq<Caveat>|
            1 <= i < b.len() && datalog::quotable(authority) && biscuit::all_quotable(caveats)
                && #[trigger] b[i] == #[trigger] datalog::caveat_code(
                authority,
                caveats,
            ) implies biscuit::caveats_admit(caveats, q) by {
            if i < a.len() {
                assert(a[i] == datalog::caveat_code(authority, caveats));
            } else {
                datalog::lemma_caveats_are_no_attenuation(ops@, base, authority, caveats);
            }
        }
        law_permitted_request_is_accepted(root, later@, g, q, after);
    }
}

/// A third party narrows: with its block a token is accepted only for what all of
/// its caveats let pass, and, where only restrictions were appended before, only within the
/// original grant.
pub proof fn law_third_party_narrows(
    root: Seq<u8>,
    earlier: Seq<u8>,
    later: Seq<u8>,
    g: Grant,
    authority: Seq<u8>,
    caveats: Seq<Caveat>,
    trusted: Seq<(KeyAlgorithm, Seq<u8>)>,
    q: Request,
)
    requires
        biscuit::minted_as(root, earlier, g),
        biscuit::all_quotable(caveats),
        biscuit::block_sources(root, later) == biscuit::block_sources(root, earlier).push(
            datalog::caveat_code(biscuit::hex_text(authority), caveats),
        ),
        engine::multi_verdict(root, later, trusted, q, Ok(())),
    ensures
        forall|i: int| 0 <= i < caveats.len() ==> (#[trigger] caveats[i]).admits(q),
        g.admits(q),
        biscuit::legible(root, earlier) && biscuit::extendable(root, later) ==> g.permits(q),
{
    biscuit::lemma_hex_is_plain(authority);
    let block = datalog::caveat_code(biscuit::hex_text(authority), caveats);
    law_attenuation_keeps_the_grant(root, earlier, later, g, block);
    let blocks = biscuit::block_sources(root, later);
    let i = biscuit::block_sources(root, earlier).len() as int;
    assert(blocks[i] == block);
    assert(biscuit::blocks_admit(root, later, q));
    assert(biscuit::caveats_admit(caveats, q));
}

/// With the block of a third party a token is accepted only for what each of its caveats says:
/// on the subjects that begin with a path, where the caveat names one, with or without a
/// final `/**` or `/*`; for the operations that it lists; and not after the second that it
/// gives. What the token was accepted for under the same trust before is all that it can be
/// accepted for.
pub proof fn law_third_party_leaves_what_its_caveats_say(
    cap_engine: &CapEngine,
    earlier: &[u8],
    authority_key: &BiscuitPrivateKey,
    caveats: &[Caveat],
    made: Vec<u8>,
    later: &[u8],
    g: Grant,
    trusted: &[BiscuitPublicKey],
    subject: &str,
    operation: Operation,
    now: i64,
    i: int,
    base: Seq<char>,
)
    requires
        biscuit::minted_as(cap_engine.root(), earlier@, g),
        biscuit::legible(cap_engine.root(), earlier@),
        call_ensures(
            CapEngine::attenuate_with_block,
            (cap_engine, earlier, authority_key, caveats),
            Ok(made),
        ),
        later@ == made@,
        call_ensures(
            CapEngine::judge_multi_at,
            (cap_engine, later, trusted, subject, operation, now),
            Judgement::Accepted,
        ),
        0 <= i < caveats@.len(),
        !base.contains('*'),
    ensures
        caveats@[i] matches Caveat::SubjectPrefix(p) ==> (p@ == base || p@ == base + "/**"@ || p@
            == base + "/*"@ ==> base.is_prefix_of(subject@)),
        caveats@[i] matches Caveat::OperationsAtMost(ops) ==> ops@.contains(operation),
        caveats@[i] matches Caveat::ExpiresAt(t) ==> now <= t.secs,
        g.operations.contains(operation),
        g.expires matches Some(t) ==> now <= t,
        exists|k: int|
            0 <= k < trusted@.len() && (#[trigger] trusted@[k])@ == (
                authority_key@.0,
                biscuit::public_key_of(authority_key@.0, authority_key@.1),
            ),
{
    let root = cap_engine.root();
    let q = datalog::request_of(now, subject@, operation, None);
    let key = (authority_key@.0, biscuit::public_key_of(authority_key@.0, authority_key@.1));
    let set = engine::trust_set(trusted@);
    assert(Judgement::Accepted.reported_as(Ok(())));
    law_third_party_narrows(root, earlier@, later@, g, key.1, caveats@, set, q);
    assert(caveats@[i].admits(q));
    if let Caveat::SubjectPrefix(p) = caveats@[i] {
        if p@ == base || p@ == base + "/**"@ || p@ == base + "/*"@ {
            datalog::lemma_path_of_a_pattern(p@, base);
            assert(caveats@[i].quotable());
            datalog::lemma_said_prefix(base, subject@);
        }
    }
    let externals = biscuit::external_keys(root, later@);
    let at = biscuit::external_keys(root, earlier@).len() as int;
    assert(externals[at] == Some(key));
    assert(set.contains(key));
    let k = choose|k: int| 0 <= k < set.len() && set[k] == key;
    assert(trusted@[k]@ == key);
}

/// A fresh token for plain texts and any event type is accepted exactly for its grant, unless
/// the evaluation is given up.
pub proof fn lemma_plain_grant_is_served(
    root: Seq<u8>,
    token: Seq<u8>,
    g: Grant,
    q: Request,
    j: Judgement,
)
    requires
        biscuit::minted_as(root, token, g),
        biscuit::block_sources(root, token).len() == 1,
        biscuit::legible(root, token),
        datalog::plain(g.glob) && datalog::plain(q.subject),
        q.event_type matches Some(e) ==> datalog::plain(e),
        q.safe(),
        engine::judged(root, token, q, j),
    ensures
        j is Unsettled || (j is Accepted <==> g.operations.contains(q.operation)
            && glob::glob_matches(g.glob, q.subject) && g.admits(q)),
{
    datalog::lemma_plain(g.glob);
    datalog::lemma_plain(q.subject);
    if let Some(e) = q.event_type {
        datalog::lemma_plain(e);
    }
    if j is Accepted {
        assert(g.permits(q));
        lemma_named_is_covered(g, q);
    }
    if g.permits(q) {
        assert(biscuit::blocks_admit(root, token, q));
        law_permitted_request_is_accepted(root, token, g, q, j);
    }
}

/// What a token is minted for, and nothing else, it is accepted for: one of the operations of
/// the mint, on a subject that the pattern covers, up to the second in which it expires, and,
/// where it is for certain event types, for one of them. Only an evaluation that is given up
/// ends otherwise. This is said of texts that need no escapes.
pub proof fn law_a_token_serves_exactly_its_mint(
    cap_engine: &CapEngine,
    glob: &str,
    operations: &[Operation],
    expires_at: Option<Timestamp>,
    kinds: Option<&[&str]>,
    rate: Option<u32>,
    budget: Option<&BudgetLimit>,
    approvals: &[Operation],
    minted: Vec<u8>,
    token: &[u8],
    subject: &str,
    operation: Operation,
    event_type: Option<&str>,
    now: i64,
    covered: bool,
    j: Judgement,
)
    requires
        call_ensures(
            CapEngine::mint_full,
            (cap_engine, glob, operations, expires_at, kinds, rate, budget, approvals),
            Ok(minted),
        ) || (budget is None && approvals@.len() == 0 && call_ensures(
            CapEngine::mint,
            (cap_engine, glob, operations, expires_at, kinds, rate),
            Ok(minted),
        )),
        token@ == minted@,
        datalog::plain(glob@) && datalog::plain(subject@) && datalog::safe(subject@),
        event_type matches Some(e) ==> datalog::plain(e@) && datalog::safe(e@),
        kinds matches Some(ks) ==> forall|i: int|
            0 <= i < ks@.len() ==> datalog::plain((#[trigger] ks@[i])@),
        call_ensures(glob::glob_match_subject, (glob, subject), covered),
        call_ensures(
            CapEngine::judge_at,
            (cap_engine, token, subject, operation, event_type, now),
            j,
        ),
    ensures
        j is Accepted || j is Unsettled <==> j is Unsettled || (operations@.contains(operation)
            && covered && (expires_at matches Some(t) ==> now <= t.secs) && (kinds matches Some(ks)
            ==> (event_type matches Some(e) && exists|i: int|
            0 <= i < ks@.len() && (#[trigger] ks@[i])@ == e@))),
{
    let root = cap_engine.root();
    let q = datalog::request_of(now, subject@, operation, event_type);
    assert(approvals@.len() == 0 ==> approvals@ =~= Seq::empty());
    let g = lemma_minted_grant(
        root,
        minted,
        glob@,
        operations@,
        expires_at,
        kinds,
        rate,
        budget,
        approvals@,
    );
    datalog::lemma_plain(glob@);
    datalog::lemma_plain(subject@);
    if let Some(e) = event_type {
        datalog::lemma_plain(e@);
    }
    if kinds is Some && event_type is Some {
        let ks = datalog::texts(kinds->0@);
        let e = event_type->0@;
        if datalog::said_all(ks).contains(e) {
            let i = choose|i: int| 0 <= i < ks.len() && datalog::said_all(ks)[i] == e;
            datalog::lemma_plain(ks[i]);
            assert(kinds->0@[i]@ == e);
        }
        if exists|i: int| 0 <= i < ks.len() && (#[trigger] kinds->0@[i])@ == e {
            let i = choose|i: int| 0 <= i < ks.len() && (#[trigger] kinds->0@[i])@ == e;
            assert(ks[i] == e);
            datalog::lemma_plain(ks[i]);
            assert(datalog::said_all(ks)[i] == e);
        }
    }
    if j is Accepted {
        assert(g.permits(q));
        lemma_named_is_covered(g, q);
    }
    if g.permits(q) {
        assert(biscuit::blocks_admit(root, token@, q));
        law_permitted_request_is_accepted(root, token@, g, q, j);
    }
}

/// A mint is refused where a text of it could break the token's statements: a pattern, an event
/// type or a currency with a double quote, a closing bracket, a semicolon or a line feed in
/// it; and where the budget is negative. Of other texts without backslashes none is refused.
pub proof fn law_what_a_mint_refuses(
    cap_engine: &CapEngine,
    glob: &str,
    operations: &[Operation],
    expires_at: Option<Timestamp>,
    kinds: Option<&[&str]>,
    rate: Option<u32>,
    budget: Option<&BudgetLimit>,
    approvals: &[Operation],
    r: Result<Vec<u8>, CapError>,
    c: char,
)
    requires
        call_ensures(
            CapEngine::mint_full,
            (cap_engine, glob, operations, expires_at, kinds, rate, budget, approvals),
            r,
        ),
        c == '"' || c == ')' || c == ';' || c == '\n',
    ensures
        glob@.contains(c) ==> (r matches Err(e) && e is Denied),
        kinds matches Some(ks) ==> ((exists|i: int|
            0 <= i < ks@.len() && (#[trigger] ks@[i])@.contains(c)) ==> (r matches Err(e)
            && e is Denied)),
        budget matches Some(b) ==> (b.currency@.contains(c) || b.amount_micro_units < 0 ==> (
        r matches Err(e) && e is Denied)),
        r is Ok ==> !glob@.contains(c),
        kinds is None && budget is None && datalog::plain(glob@) && !glob@.contains(')')
            && !glob@.contains(';') ==> r is Ok,
{
    if datalog::plain(glob@) {
        datalog::lemma_plain(glob@);
    }
}

/// A token's text in base64 is read back as the token.
pub proof fn law_tokens_are_carried_as_text(
    token: &[u8],
    written: String,
    sent: &str,
    r: Result<Vec<u8>, CapError>,
)
    requires
        call_ensures(CapEngine::token_to_base64, (token,), written),
        sent@ == written@,
        call_ensures(CapEngine::token_from_base64, (sent,), r),
    ensures
        r matches Ok(v) && v@ == token@,
{
}

/// A key pair that is stored and loaded again is the same: an engine made of the bytes of
/// another has the same public key.
pub proof fn law_an_engine_is_restored(
    cap_engine: &CapEngine,
    stored: Vec<u8>,
    bytes: &[u8],
    r: Result<CapEngine, CapError>,
)
    requires
        call_ensures(CapEngine::private_key_bytes, (cap_engine,), stored),
        bytes@ == stored@,
        call_ensures(CapEngine::from_private_key, (bytes,), r),
    ensures
        r matches Ok(e) && e.root() == cap_engine.root(),
{
}

/// What a third party leaves is accepted as before: where the token was accepted, the third
/// party is trusted, and each of its caveats lets the request pass, by path, by operation and by
/// time, the token is still accepted, unless the evaluation is given up. Where the grant only
/// names the subject, which takes escapes in it, such a request may end with a denial
/// instead.
pub proof fn law_third_party_leaves_the_rest(
    cap_engine: &CapEngine,
    earlier: &[u8],
    authority_key: &BiscuitPrivateKey,
    caveats: &[Caveat],
    made: Vec<u8>,
    later: &[u8],
    g: Grant,
    trusted: &[BiscuitPublicKey],
    at: int,
    subject: &str,
    operation: Operation,
    now: i64,
    after: Judgement,
)
    requires
        biscuit::minted_as(cap_engine.root(), earlier@, g),
        biscuit::legible(cap_engine.root(), earlier@),
        call_ensures(
            CapEngine::attenuate_with_block,
            (cap_engine, earlier, authority_key, caveats),
            Ok(made),
        ),
        later@ == made@,
        0 <= at < trusted@.len(),
        trusted@[at]@ == (
            authority_key@.0,
            biscuit::public_key_of(authority_key@.0, authority_key@.1),
        ),
        call_ensures(
            CapEngine::judge_multi_at,
            (cap_engine, earlier, trusted, subject, operation, now),
            Judgement::Accepted,
        ),
        forall|i: int| 0 <= i < caveats@.len() ==> match #[trigger] caveats@[i] {
            Caveat::SubjectPrefix(p) => !p@.contains('*') && p@.is_prefix_of(subject@),
            Caveat::OperationsAtMost(ops) => ops@.contains(operation),
            Caveat::ExpiresAt(t) => now <= t.secs,
        },
        call_ensures(
            CapEngine::judge_multi_at,
            (cap_engine, later, trusted, subject, operation, now),
            after,
        ),
    ensures
        after is Accepted || after is Unsettled || (after is Denied && !glob::glob_matches(
            datalog::said(g.glob),
            subject@,
        )),
        datalog::plain(subject@) ==> glob::glob_matches(datalog::said(g.glob), subject@),
{
    let root = cap_engine.root();
    let q = datalog::request_of(now, subject@, operation, None);
    let key = (authority_key@.0, biscuit::public_key_of(authority_key@.0, authority_key@.1));
    let author = biscuit::hex_text(key.1);
    let set = engine::trust_set(trusted@);
    let block = datalog::caveat_code(author, caveats@);
    let a = biscuit::block_sources(root, earlier@);
    let b = biscuit::block_sources(root, later@);
    biscuit::lemma_hex_is_plain(key.1);
    law_attenuation_keeps_the_grant(root, earlier@, later@, g, block);
    assert(biscuit::is_caveats(block));
    law_restrictions_stay_legible(root, earlier@, later@, block);
    assert(set[at] == key);
    assert(set.contains(key));
    let x = biscuit::external_keys(root, earlier@);
    let y = biscuit::external_keys(root, later@);
    assert(engine::all_trusted(y, set)) by {
        assert forall|j: int| 0 <= j < y.len() && (#[trigger] y[j]) is Some implies set.contains(
            y[j]->0,
        ) by {
            if j < x.len() {
                assert(x[j] == y[j]);
            }
        }
    }
    assert forall|i: int| 0 <= i < caveats@.len() implies (#[trigger] caveats@[i]).admits(q) by {
        if let Caveat::SubjectPrefix(p) = caveats@[i] {
            datalog::lemma_path_of_a_pattern(p@, p@);
            assert(caveats@[i].quotable());
            datalog::lemma_said_prefix(p@, subject@);
        }
    }
    assert(biscuit::blocks_admit(root, earlier@, q));
    assert forall|i: int, l: Seq<Operation>, prefix: Seq<char>|
        1 <= i < b.len() && datalog::quotable(prefix) && #[trigger] b[i]
            == #[trigger] datalog::attenuation_code(
            l,
            prefix,
        ) implies biscuit::attenuation_admits(l, prefix, q) by {
        if i < a.len() {
            assert(a[i] == datalog::attenuation_code(l, prefix));
        } else {
            datalog::lemma_caveats_are_no_attenuation(l, prefix, author, caveats@);
        }
    }
    assert forall|i: int, authority: Seq<char>, cs: Seq<Caveat>|
        1 <= i < b.len() && datalog::quotable(authority) && biscuit::all_quotable(cs)
            && #[trigger] b[i] == #[trigger] datalog::caveat_code(
            authority,
            cs,
        ) implies biscuit::caveats_admit(cs, q) by {
        if i < a.len() {
            assert(a[i] == datalog::caveat_code(authority, cs));
        } else {
            assert forall|k: int| 0 <= k < cs.len() implies (#[trigger] cs[k]).admits(q) by {
                datalog::lemma_blocks_tell_caveats(author, caveats@, authority, cs, q, k);
            }
        }
    }
    law_permitted_request_is_accepted_under_trust(root, later@, set, g, q, after);
}

/// A third party that the verifier does not trust is never passed over: a token
/// with its block is refused, whatever is asked; one that can be read is denied.
pub proof fn law_untrusted_third_party_is_refused(
    root: Seq<u8>,
    token: Seq<u8>,
    trusted: Seq<(KeyAlgorithm, Seq<u8>)>,
    i: int,
    q: Request,
    r: Result<(), CapError>,
)
    requires
        0 <= i < biscuit::external_keys(root, token).len(),
        biscuit::external_keys(root, token)[i] is Some,
        !trusted.contains(biscuit::external_keys(root, token)[i]->0),
        engine::multi_verdict(root, token, trusted, q, r),
    ensures
        r is Err,
        biscuit::extendable(root, token) ==> r->Err_0 is Denied,
{
}

/// The counts and the answers of requests that follow one another in one second: the count
/// before each request, and one more after the last.
pub open spec fn rate_run(counts: Seq<nat>, answers: Seq<bool>, rate: nat) -> bool {
    &&& counts.len() == answers.len() + 1
    &&& counts[0] == 0
    &&& forall|i: int|
        0 <= i < answers.len() ==> state::rate_step(
            counts[i],
            rate,
            #[trigger] answers[i],
            counts[i + 1],
        )
}

/// Of the requests of one second, those before the rate is used up pass, and no others.
pub proof fn law_rate_admits_the_first(counts: Seq<nat>, answers: Seq<bool>, rate: nat, i: int)
    requires
        rate_run(counts, answers, rate),
        0 <= i < answers.len(),
    ensures
        answers[i] <==> i < rate,
        counts[i] == if i < rate {
            i
        } else {
            rate as int
        },
    decreases i,
{
    if i > 0 {
        law_rate_admits_the_first(counts, answers, rate, i - 1);
        assert(state::rate_step(counts[i - 1], rate, answers[i - 1], counts[i]));
    }
    assert(state::rate_step(counts[i], rate, answers[i], counts[i + 1]));
}

/// A row of rights names this operation and a pattern that covers the subject.
pub open spec fn some_right_covers(
    rights: Seq<(String, String)>,
    operation: Operation,
    subject: Seq<char>,
) -> bool {
    exists|i: int|
        0 <= i < rights.len() && (#[trigger] rights[i]).1@ == operation.name() && glob::glob_matches(
            rights[i].0@,
            subject,
        )
}

proof fn lemma_rights_as_rows(
    rights: Seq<(String, String)>,
    operation: Operation,
    subject: Seq<char>,
)
    ensures
        engine::matching_right(biscuit::pair_set(rights), operation.name(), subject)
            <==> some_right_covers(rights, operation, subject),
{
    let rows = rights.map_values(|r: (String, String)| (r.0@, r.1@));
    if engine::matching_right(biscuit::pair_set(rights), operation.name(), subject) {
        let p = choose|p: Seq<char>| #[trigger]
            glob::glob_matches(p, subject) && biscuit::pair_set(rights).contains(
                (p, operation.name()),
            );
        assert(rows.contains((p, operation.name())));
        let i = choose|i: int| 0 <= i < rows.len() && rows[i] == (p, operation.name());
        assert(rights[i].0@ == p && rights[i].1@ == operation.name());
    }
    if some_right_covers(rights, operation, subject) {
        let i = choose|i: int|
            0 <= i < rights.len() && (#[trigger] rights[i]).1@ == operation.name()
                && glob::glob_matches(rights[i].0@, subject);
        assert(rows[i] == (rights[i].0@, operation.name()));
        assert(rows.contains((rights[i].0@, operation.name())));
        assert(biscuit::pair_set(rights).contains((rights[i].0@, operation.name())));
    }
}

/// A request may be put to the checks of a token exactly where one of the token's rights is for
/// its operation and covers its subject, and where it has an event type if the token is for
/// certain ones.
pub proof fn law_rights_open_the_checks(
    rights: &Vec<(String, String)>,
    kinds: &Vec<String>,
    subject: &str,
    operation: Operation,
    event_type: Option<&str>,
    r: Result<(), String>,
)
    requires
        call_ensures(engine::check_rights, (rights, kinds, subject, operation, event_type), r),
    ensures
        r is Ok <==> some_right_covers(rights@, operation, subject@) && (event_type is Some
            || kinds@.len() == 0),
{
    lemma_rights_as_rows(rights@, operation, subject@);
}

/// A request is accepted exactly where the token itself allows it, or where a right of it covers
/// the request, no event type is missing, and the token allows it with that right given. Only
/// an acceptance is a success. A denial comes exactly where the token does not allow the
/// request and a right or the event type is missing.
pub proof fn law_what_is_concluded(
    direct: Answer,
    rights: &Vec<(String, String)>,
    kinds: &Vec<String>,
    subject: &str,
    operation: Operation,
    event_type: Option<&str>,
    granted: Answer,
    j: Judgement,
    r: Result<(), CapError>,
)
    requires
        call_ensures(
            engine::conclude,
            (direct, rights, kinds, subject, operation, event_type, granted),
            j,
        ),
        call_ensures(Judgement::into_result, (j,), r),
    ensures
        j is Accepted <==> direct is Allowed || (some_right_covers(rights@, operation, subject@) && (
        event_type is Some || kinds@.len() == 0) && granted is Allowed),
        j is Denied <==> !(direct is Allowed) && !(some_right_covers(rights@, operation, subject@)
            && (event_type is Some || kinds@.len() == 0)),
        r is Ok <==> j is Accepted,
        j is Denied <==> (r matches Err(e) && e is Denied),
{
    lemma_rights_as_rows(rights@, operation, subject@);
}

/// Third parties are trusted exactly where every one of their keys is in the trust set, by
/// algorithm and bytes.
pub proof fn law_every_third_party_must_be_trusted(
    externals: &Vec<Option<(KeyAlgorithm, Vec<u8>)>>,
    trusted: &[BiscuitPublicKey],
    r: Result<(), String>,
)
    requires
        call_ensures(engine::check_trust, (externals, trusted), r),
    ensures
        r is Ok <==> forall|i: int|
            0 <= i < externals@.len() ==> (#[trigger] externals@[i] matches Some(key) ==> exists|
                k: int,
            |
                0 <= k < trusted@.len() && (#[trigger] trusted@[k])@ == (key.0, key.1@)),
{
    let views = biscuit::key_views(externals@);
    let set = engine::trust_set(trusted@);
    assert forall|i: int| 0 <= i < externals@.len() implies (#[trigger] externals@[i] matches Some(
        key,
    ) ==> (set.contains((key.0, key.1@)) <==> exists|k: int|
        0 <= k < trusted@.len() && (#[trigger] trusted@[k])@ == (key.0, key.1@))) by {
        if let Some(key) = externals@[i] {
            let v = (key.0, key.1@);
            if set.contains(v) {
                let k = choose|k: int| 0 <= k < set.len() && set[k] == v;
                assert(trusted@[k]@ == v);
            }
            if exists|k: int| 0 <= k < trusted@.len() && (#[trigger] trusted@[k])@ == v {
                let k = choose|k: int| 0 <= k < trusted@.len() && (#[trigger] trusted@[k])@ == v;
                assert(set[k] == v);
            }
        }
    }
    match r {
        Ok(_) => {
            assert forall|i: int| 0 <= i < externals@.len() implies (
            #[trigger] externals@[i] matches Some(key) ==> exists|k: int|
                0 <= k < trusted@.len() && (#[trigger] trusted@[k])@ == (key.0, key.1@)) by {
                if let Some(key) = externals@[i] {
                    assert(views[i] == Some((key.0, key.1@)));
                }
            }
        },
        Err(m) => {
            let i = choose|i: int| #[trigger]
                engine::first_untrusted(views, set, i) && m@ == engine::untrusted_message(
                    views[i]->0,
                );
            assert(externals@[i] is Some);
            if let Some(key) = externals@[i] {
                assert(views[i] == Some((key.0, key.1@)));
            }
        },
    }
}

/// Of the rows that a token was asked for the first budget and the first rate count; a rate below
/// zero admits nothing, and one that is too large is the largest.
pub proof fn law_which_caveats_count(
    budgets: &Vec<(String, i64)>,
    approvals: &Vec<String>,
    rates: &Vec<i64>,
    c: StatefulCaveats,
)
    requires
        call_ensures(engine::read_caveats, (budgets, approvals, rates), c),
    ensures
        c.budget_limit is Some <==> budgets@.len() > 0,
        c.budget_limit matches Some(b) ==> b.currency@ == budgets@[0].0@ && b.amount_micro_units
            == budgets@[0].1,
        c.rate_limit_ops_per_sec is Some <==> rates@.len() > 0,
        c.rate_limit_ops_per_sec matches Some(n) ==> (0 <= rates@[0] <= u32::MAX ==> n == rates@[0])
            && (rates@[0] < 0 ==> n == 0) && (rates@[0] > u32::MAX ==> n == u32::MAX),
{
}

/// A verification of a fresh token ends well only for what it was minted for, with or without a
/// trust set; what it was minted for it refuses only where the token library gives up. This is
/// said of texts that need no escapes. Under a trust set there is no event type.
pub proof fn law_verification_keeps_to_the_mint(
    cap_engine: &CapEngine,
    glob: &str,
    operations: &[Operation],
    expires_at: Option<Timestamp>,
    minted: Vec<u8>,
    token: &[u8],
    subject: &str,
    operation: Operation,
    event_type: Option<&str>,
    now: i64,
    trusted: &[BiscuitPublicKey],
    covered: bool,
    r: Result<(), CapError>,
    multi: Result<(), CapError>,
)
    requires
        call_ensures(
            CapEngine::mint,
            (cap_engine, glob, operations, expires_at, None, None),
            Ok(minted),
        ),
        token@ == minted@,
        datalog::plain(glob@) && datalog::plain(subject@) && datalog::safe(subject@),
        event_type matches Some(e) ==> datalog::plain(e@) && datalog::safe(e@),
        call_ensures(glob::glob_match_subject, (glob, subject), covered),
        call_ensures(
            CapEngine::verify_at,
            (cap_engine, token, subject, operation, event_type, now),
            r,
        ),
        call_ensures(
            CapEngine::verify_multi_at,
            (cap_engine, token, trusted, subject, operation, now),
            multi,
        ),
    ensures
        r is Ok || multi is Ok ==> operations@.contains(operation) && covered && (
        expires_at matches Some(t) ==> now <= t.secs),
        operations@.contains(operation) && covered && (expires_at matches Some(t) ==> now <= t.secs)
            ==> (r matches Err(e) ==> engine::gave_up(e)) && (multi matches Err(e)
            ==> engine::gave_up(e)),
{
    let root = cap_engine.root();
    let g = lemma_minted_grant(
        root,
        minted,
        glob@,
        operations@,
        expires_at,
        None,
        None,
        None,
        Seq::empty(),
    );
    let q = datalog::request_of(now, subject@, operation, event_type);
    let m = datalog::request_of(now, subject@, operation, None);
    let set = engine::trust_set(trusted@);
    datalog::lemma_plain(glob@);
    datalog::lemma_plain(subject@);
    if let Some(e) = event_type {
        datalog::lemma_plain(e@);
    }
    let j = choose|j: Judgement| #[trigger] engine::judged(root, token@, q, j) && j.reported_as(r);
    lemma_plain_grant_is_served(root, token@, g, q, j);
    let k = choose|k: Judgement| #[trigger]
        engine::judged_under(root, token@, set, m, k) && k.reported_as(multi);
    let externals = biscuit::external_keys(root, token@);
    assert(externals.len() == 1 && externals[0] is None);
    assert(engine::all_trusted(externals, set));
    if k is Accepted {
        assert(g.reaches(m));
        lemma_named_is_covered(g, m);
    }
    if g.permits(m) {
        assert(biscuit::blocks_admit(root, token@, m));
        law_permitted_request_is_accepted_under_trust(root, token@, set, g, m, k);
        assert(g.covers(m));
    }
    if let Judgement::Unsettled(x) = j {
        assert(r == Err::<(), CapError>(CapError::Biscuit(x.cause())));
    }
    if let Judgement::Unsettled(x) = k {
        assert(multi == Err::<(), CapError>(CapError::Biscuit(x.cause())));
    }
}

/// A token and what is made of it by attenuation have one id: whatever is told of the id of the
/// one is told of that of the other, unless the token library gives up.
pub proof fn law_attenuation_keeps_the_id(
    cap_engine: &CapEngine,
    glob: &str,
    operations: &[Operation],
    minted: Vec<u8>,
    earlier: &[u8],
    pattern: &str,
    ops: &[Operation],
    made: Vec<u8>,
    later: &[u8],
    a: Result<Option<String>, CapError>,
    b: Result<Option<String>, CapError>,
)
    requires
        call_ensures(CapEngine::mint, (cap_engine, glob, operations, None, None, None), Ok(minted)),
        earlier@ == minted@,
        call_ensures(CapEngine::attenuate, (cap_engine, earlier, pattern, ops), Ok(made)),
        later@ == made@,
        call_ensures(CapEngine::extract_token_id, (cap_engine, earlier), a),
        call_ensures(CapEngine::extract_token_id, (cap_engine, later), b),
    ensures
        a matches Ok(x) ==> x is Some,
        b matches Ok(y) ==> y is Some,
        a matches Ok(Some(x)) ==> (b matches Ok(Some(y)) ==> x@ == y@),
        a matches Err(e) ==> engine::gave_up(e),
        b matches Err(e) ==> engine::gave_up(e),
{
    let root = cap_engine.root();
    let g = lemma_minted_grant(
        root,
        minted,
        glob@,
        operations@,
        None,
        None,
        None,
        None,
        Seq::empty(),
    );
    let block = datalog::attenuation_code(ops@, datalog::glob_prefix(pattern@));
    law_attenuation_keeps_the_grant(root, earlier@, later@, g, block);
    assert(biscuit::is_attenuation(block));
    law_restrictions_stay_legible(root, earlier@, later@, block);
    if let Err(e) = a {
        let f = choose|f: biscuit::Fault| #[trigger]
            f.explained(root, earlier@) && e == CapError::Biscuit(f.cause());
        assert(f is Unsettled);
    }
    if let Err(e) = b {
        let f = choose|f: biscuit::Fault| #[trigger]
            f.explained(root, later@) && e == CapError::Biscuit(f.cause());
        assert(f is Unsettled);
    }
}

/// The caveats with which a token is minted are those that are read from it. This is said of a
/// currency that needs no escapes.
pub proof fn law_caveats_survive_the_token(
    cap_engine: &CapEngine,
    glob: &str,
    operations: &[Operation],
    expires_at: Option<Timestamp>,
    kinds: Option<&[&str]>,
    rate: Option<u32>,
    budget: Option<&BudgetLimit>,
    approvals: &[Operation],
    minted: Vec<u8>,
    token: &[u8],
    r: Result<StatefulCaveats, CapError>,
    op: Operation,
)
    requires
        call_ensures(
            CapEngine::mint_full,
            (cap_engine, glob, operations, expires_at, kinds, rate, budget, approvals),
            Ok(minted),
        ),
        token@ == minted@,
        budget matches Some(b) ==> datalog::plain(b.currency@),
        call_ensures(CapEngine::extract_stateful_caveats, (cap_engine, token), r),
    ensures
        r matches Err(e) ==> engine::gave_up(e),
        r matches Ok(c) ==> (c.budget_limit is Some <==> budget is Some),
        r matches Ok(c) ==> (budget matches Some(b) ==> (c.budget_limit matches Some(x)
            && x.currency@ == b.currency@ && x.amount_micro_units == b.amount_micro_units)),
        r matches Ok(c) ==> c.rate_limit_ops_per_sec == rate,
        r matches Ok(c) ==> (c.requires_approval@.contains(op) <==> approvals@.contains(op)),
{
    if let Some(b) = budget {
        datalog::lemma_plain(b.currency@);
    }
    law_minted_caveats_are_read_back(
        cap_engine.root(),
        minted,
        glob@,
        operations@,
        expires_at,
        kinds,
        rate,
        budget,
        approvals@,
        r,
    );
}

/// A token whose id is revoked is refused, whatever else holds; where nothing is revoked, a token
/// is answered as if nobody had asked.
pub proof fn law_a_revoked_token_is_refused<F: FnOnce(&str) -> bool>(
    cap_engine: &CapEngine,
    token: &[u8],
    g: Grant,
    subject: &str,
    operation: Operation,
    event_type: Option<&str>,
    is_revoked: F,
    r: Result<(), CapError>,
)
    requires
        biscuit::minted_as(cap_engine.root(), token@, g),
        biscuit::legible(cap_engine.root(), token@),
        call_ensures(
            CapEngine::verify_with_revocation,
            (cap_engine, token, subject, operation, event_type, is_revoked),
            r,
        ),
    ensures
        (forall|s: &str| s@ == g.id ==> !#[trigger] call_ensures(is_revoked, (s,), false))
            ==> r is Err,
        (forall|s: &str| s@ == g.id ==> !#[trigger] call_ensures(is_revoked, (s,), true)) ==> (
        r matches Err(e) && engine::gave_up(e)) || exists|now: i64| #[trigger]
            engine::verdict(
                cap_engine.root(),
                token@,
                datalog::request_of(now, subject@, operation, event_type),
                r,
            ),
{
    let root = cap_engine.root();
    let found = choose|found: Result<Option<String>, CapError>| #[trigger]
        engine::names_token(root, token@, found) && match found {
            Err(e) => r == Err::<(), CapError>(e),
            Ok(id) => engine::revocation_checked(id, is_revoked, r) || (engine::passes_revocation(
                id,
                is_revoked,
            ) && exists|now: i64| #[trigger]
                engine::verdict(
                    root,
                    token@,
                    datalog::request_of(now, subject@, operation, event_type),
                    r,
                )),
        };
    match found {
        Err(e) => {
            let f = choose|f: biscuit::Fault| #[trigger]
                f.explained(root, token@) && e == CapError::Biscuit(f.cause());
            assert(f is Unsettled);
        },
        Ok(Some(id)) => {
            assert(id@ == g.id);
        },
        Ok(None) => {},
    }
}

} // verus!
