//! The calls into the token library, and what is relied on about them.
//!
//! A token is modelled by the datalog code of its blocks, in order: the
//! authority block that the root key signed, then every block that was appended.

use crate::text;
use crate::cap::datalog;
use crate::cap::datalog::{Caveat, Grant, Request};
use crate::cap::keys::KeyAlgorithm;
use crate::cap::operation::Operation;
use biscuit_auth::builder::{Algorithm, AuthorizerBuilder, BlockBuilder};
use biscuit_auth::error::Token;
use biscuit_auth::{Biscuit, KeyPair, PrivateKey, PublicKey};
use vstd::prelude::*;

verus! {

// ---------------------------------------------------------------------------
// Keys
// ---------------------------------------------------------------------------

/// The public key that belongs to a private key, as raw bytes.
pub uninterp spec fn public_key_of(algorithm: KeyAlgorithm, secret: Seq<u8>) -> Seq<u8>;

/// The canonical bytes of a public key; `None` where the bytes are no key.
pub uninterp spec fn public_key_form(algorithm: KeyAlgorithm, bytes: Seq<u8>) -> Option<Seq<u8>>;

/// The bytes are a private key.
pub uninterp spec fn private_key_valid(algorithm: KeyAlgorithm, bytes: Seq<u8>) -> bool;

/// The public key of the root key pair.
pub open spec fn root_of(secret: Seq<u8>) -> Seq<u8> {
    public_key_of(KeyAlgorithm::Ed25519, secret)
}

/// A fresh Ed25519 private key (`biscuit_auth::KeyPair::new`): 32 bytes drawn
/// from the operating system's random source.
#[verifier::external_body]
pub(crate) fn generate_secret() -> (r: Vec<u8>)
    ensures
        r@.len() == 32,
{
    KeyPair::new().private().to_bytes().to_vec()
}

/// Reads a private key (`biscuit_auth::PrivateKey::from_bytes`). A key has 32
/// bytes. Any 32 bytes are an Ed25519 key; of the other algorithm it is relied
/// on only that the same bytes are always judged alike. A wrong length is
/// reported as `invalid key size`.
#[verifier::external_body]
pub(crate) fn check_private_key(algorithm: KeyAlgorithm, bytes: &[u8]) -> (r: Result<(), String>)
    ensures
        match r {
            Ok(_) => private_key_valid(algorithm, bytes@) && bytes@.len() == 32,
            Err(e) => {
                &&& !private_key_valid(algorithm, bytes@)
                &&& algorithm == KeyAlgorithm::Ed25519 ==> bytes@.len() != 32
                &&& bytes@.len() != 32 ==> e@ == "invalid key size"@
            },
        },
{
    let algorithm = match algorithm {
        KeyAlgorithm::Ed25519 => Algorithm::Ed25519,
        KeyAlgorithm::Secp256r1 => Algorithm::Secp256r1,
    };
    match PrivateKey::from_bytes(bytes, algorithm) {
        Ok(_) => Ok(()),
        Err(e) => Err(e.to_string()),
    }
}

/// Reads a public key and writes it back (`biscuit_auth::PublicKey::from_bytes`,
/// `to_bytes`): the canonical bytes, or the error text where the bytes are no key.
#[verifier::external_body]
pub(crate) fn read_public_key(algorithm: KeyAlgorithm, bytes: &[u8]) -> (r: Result<Vec<u8>, String>)
    ensures
        match r {
            Ok(k) => public_key_form(algorithm, bytes@) == Some(k@) && public_key_form(
                algorithm,
                k@,
            ) == Some(k@),
            Err(_) => public_key_form(algorithm, bytes@) is None,
        },
{
    let algorithm = match algorithm {
        KeyAlgorithm::Ed25519 => Algorithm::Ed25519,
        KeyAlgorithm::Secp256r1 => Algorithm::Secp256r1,
    };
    match PublicKey::from_bytes(bytes, algorithm) {
        Ok(k) => Ok(k.to_bytes()),
        Err(e) => Err(e.to_string()),
    }
}

/// The public key of a private key (`biscuit_auth::PrivateKey::public`), in
/// canonical bytes. It is a function of the private key.
#[verifier::external_body]
pub(crate) fn derive_public_key(algorithm: KeyAlgorithm, secret: &[u8]) -> (r: Vec<u8>)
    requires
        private_key_valid(algorithm, secret@),
    ensures
        r@ == public_key_of(algorithm, secret@),
        public_key_form(algorithm, r@) == Some(r@),
{
    let algorithm = match algorithm {
        KeyAlgorithm::Ed25519 => Algorithm::Ed25519,
        KeyAlgorithm::Secp256r1 => Algorithm::Secp256r1,
    };
    PrivateKey::from_bytes(secret, algorithm).unwrap().public().to_bytes()
}

// ---------------------------------------------------------------------------
// What a token holds
// ---------------------------------------------------------------------------

/// That the library gave an evaluation up at its limit of time or work. Only a call of
/// the library makes one.
#[derive(Debug)]
pub struct GaveUp {
    error: Token,
}

impl GaveUp {
    /// The error of the library.
    pub closed spec fn cause(self) -> Token {
        self.error
    }

    /// The error of the library.
    pub fn into_error(self) -> (r: Token)
        ensures
            r == self.cause(),
    {
        self.error
    }
}

/// Why a query gave no rows.
#[derive(Debug)]
pub enum Fault {
    /// The evaluation was given up.
    Unsettled(GaveUp),
    /// The token, or what it holds, could not be read.
    Invalid(Token),
}

impl Fault {
    /// The error of the library.
    pub open spec fn cause(self) -> Token {
        match self {
            Fault::Unsettled(g) => g.cause(),
            Fault::Invalid(e) => e,
        }
    }

    /// The error of the library.
    pub fn into_error(self) -> (r: Token)
        ensures
            r == self.cause(),
    {
        match self {
            Fault::Unsettled(g) => g.into_error(),
            Fault::Invalid(e) => e,
        }
    }

    /// What the fault says of the token: one that was minted and to which only
    /// restrictions were appended can be read.
    pub open spec fn explained(self, root: Seq<u8>, token: Seq<u8>) -> bool {
        self is Invalid ==> forall|g: Grant| #[trigger]
            minted_as(root, token, g) ==> !legible(root, token)
    }
}

/// What a token answers to a request.
#[derive(Debug)]
pub enum Answer {
    /// Its checks hold, and a policy matches.
    Allowed,
    /// A check fails, or no policy matches.
    Refused(Token),
    /// The evaluation was given up.
    Unsettled(GaveUp),
    /// The evaluation failed.
    Failed(Token),
}

/// The datalog code of each block of a token that `root` signed: the text from which
/// `biscuit_auth::builder::BlockBuilder::code` builds exactly that block, with the same
/// facts, rules and checks in the same order. It is written as
/// `biscuit_auth::Biscuit::print_block_source` prints a block, but with quotes,
/// backslashes and line feeds escaped in strings. A block that no text builds, such as one
/// with a scope of its own, has in its place a text that builds none.
pub uninterp spec fn block_sources(root: Seq<u8>, token: Seq<u8>) -> Seq<Seq<char>>;

/// The external key of each block, as `biscuit_auth::Biscuit::external_public_keys`
/// lists them: `None` for a block that no third party signed.
pub uninterp spec fn external_keys(root: Seq<u8>, token: Seq<u8>) -> Seq<
    Option<(KeyAlgorithm, Seq<u8>)>,
>;

/// The bytes are a token that `root` signed and that is not sealed:
/// `biscuit_auth::Biscuit::from` accepts them, and blocks can be appended.
pub uninterp spec fn extendable(root: Seq<u8>, token: Seq<u8>) -> bool;

/// The rows of two texts that a query finds, in any order.
pub uninterp spec fn found_pairs(root: Seq<u8>, token: Seq<u8>, rule: Seq<char>) -> Set<
    (Seq<char>, Seq<char>),
>;

/// The texts that a query finds, in any order.
pub uninterp spec fn found_texts(root: Seq<u8>, token: Seq<u8>, rule: Seq<char>) -> Set<Seq<char>>;

/// The rows of a text and a number that a query finds, in any order.
pub uninterp spec fn found_amounts(root: Seq<u8>, token: Seq<u8>, rule: Seq<char>) -> Set<
    (Seq<char>, i64),
>;

/// The numbers that a query finds, in any order.
pub uninterp spec fn found_numbers(root: Seq<u8>, token: Seq<u8>, rule: Seq<char>) -> Set<i64>;

/// The token and the authorizer's datalog together allow the request, whatever
/// time the evaluation takes.
pub uninterp spec fn authorizes(root: Seq<u8>, token: Seq<u8>, code: Seq<char>) -> bool;

pub open spec fn rights_rule() -> Seq<char> {
    "data($sub, $op) <- right($sub, $op)"@
}

pub open spec fn kinds_rule() -> Seq<char> {
    "kind_data($k) <- kind_allowed($k)"@
}

pub open spec fn token_id_rule() -> Seq<char> {
    "token_id_result($id) <- token_id($id)"@
}

pub open spec fn approvals_rule() -> Seq<char> {
    "approval($op) <- requires_approval($op)"@
}

pub open spec fn budget_rule() -> Seq<char> {
    "budget($c, $n) <- budget_limit($c, $n)"@
}

pub open spec fn rate_rule() -> Seq<char> {
    "rate($n) <- rate_limit_ops_per_sec($n)"@
}

/// The rows, by their texts.
pub open spec fn pair_set(rows: Seq<(String, String)>) -> Set<(Seq<char>, Seq<char>)> {
    rows.map_values(|r: (String, String)| (r.0@, r.1@)).to_set()
}

/// The rows, by their text and number.
pub open spec fn amount_set(rows: Seq<(String, i64)>) -> Set<(Seq<char>, i64)> {
    rows.map_values(|r: (String, i64)| (r.0@, r.1)).to_set()
}

/// The texts.
pub open spec fn text_set(rows: Seq<String>) -> Set<Seq<char>> {
    rows.map_values(|r: String| r@).to_set()
}

/// The token's authority block is the text of this grant.
pub open spec fn minted_as(root: Seq<u8>, token: Seq<u8>, g: Grant) -> bool {
    &&& g.quotable()
    &&& block_sources(root, token).len() > 0
    &&& block_sources(root, token)[0] == #[trigger] datalog::grant_code(g)
}

/// The text confines to operations and to a quotable prefix.
pub open spec fn is_attenuation(block: Seq<char>) -> bool {
    exists|ops: Seq<Operation>, prefix: Seq<char>|
        datalog::quotable(prefix) && block == #[trigger] datalog::attenuation_code(ops, prefix)
}

/// The text is that of a third party's quotable caveats.
pub open spec fn is_caveats(block: Seq<char>) -> bool {
    exists|authority: Seq<char>, caveats: Seq<Caveat>|
        datalog::quotable(authority) && all_quotable(caveats) && block
            == #[trigger] datalog::caveat_code(authority, caveats)
}

/// The token can be read, and everything that was appended to it is an attenuation
/// or a third party's caveats.
pub open spec fn legible(root: Seq<u8>, token: Seq<u8>) -> bool {
    &&& extendable(root, token)
    &&& forall|i: int|
        1 <= i < block_sources(root, token).len() ==> is_attenuation(
            #[trigger] block_sources(root, token)[i],
        ) || is_caveats(block_sources(root, token)[i])
}

/// Every attenuation and every third party's caveats let the request pass.
pub open spec fn blocks_admit(root: Seq<u8>, token: Seq<u8>, q: Request) -> bool {
    let blocks = block_sources(root, token);
    &&& forall|i: int, ops: Seq<Operation>, prefix: Seq<char>|
        1 <= i < blocks.len() && datalog::quotable(prefix) && #[trigger] blocks[i]
            == #[trigger] datalog::attenuation_code(ops, prefix) ==> attenuation_admits(ops, prefix, q)
    &&& forall|i: int, authority: Seq<char>, caveats: Seq<Caveat>|
        1 <= i < blocks.len() && datalog::quotable(authority) && all_quotable(caveats)
            && #[trigger] blocks[i] == #[trigger] datalog::caveat_code(authority, caveats)
            ==> caveats_admit(caveats, q)
}

/// Builds a token from the datalog of its authority block and signs it with the
/// root key (`biscuit_auth::builder::BiscuitBuilder::code`, `build`, and
/// `Biscuit::to_vec`). The token has that one block, no third party's. It succeeds exactly
/// where the texts of the grant are quotable: any other does not parse, since a backslash
/// that begins no escape spoils its string, and one before the closing quote takes that
/// quote away. The text is the code of the block, and further blocks can be appended. The
/// bytes are not claimed: the token is signed with a random key for the next block.
#[verifier::external_body]
pub(crate) fn mint_token(secret: &[u8], code: &str) -> (r: Result<Vec<u8>, Token>)
    requires
        secret@.len() == 32,
        exists|g: Grant|
            g.safe() && datalog::plain(g.id) && code@ == #[trigger] datalog::grant_code(g),
    ensures
        r is Ok ==> forall|g: Grant|
            g.safe() && datalog::plain(g.id) && code@ == #[trigger] datalog::grant_code(g)
                ==> g.quotable(),
        r matches Ok(t) ==> block_sources(root_of(secret@), t@) == seq![code@] && extendable(
            root_of(secret@),
            t@,
        ),
        r matches Ok(t) ==> external_keys(root_of(secret@), t@) == seq![
            None::<(KeyAlgorithm, Seq<u8>)>,
        ],
        r is Err ==> forall|g: Grant| code@ == #[trigger] datalog::grant_code(g) ==> !g.quotable(),
{
    let root = KeyPair::from(&PrivateKey::from_bytes(secret, Algorithm::Ed25519)?);
    Biscuit::builder().code(code)?.build(&root)?.to_vec()
}

/// The facts of the authority block that match `rule`, as pairs of texts
/// (`biscuit_auth::Biscuit::from`, `authorizer` and `Authorizer::query`). Which
/// rows come is a function of the token; their order is not, and the library may
/// give up when the evaluation takes too long. The rights of a minted token are
/// those of its grant, by what their strings say. A minted token to which only
/// restrictions were appended is read, here and in the queries below.
#[verifier::external_body]
pub(crate) fn query_pairs(secret: &[u8], token: &[u8], rule: &str) -> (r: Result<
    Vec<(String, String)>,
    Fault,
>)
    requires
        secret@.len() == 32,
        rule@ == rights_rule(),
    ensures
        r matches Ok(rows) ==> pair_set(rows@) == found_pairs(root_of(secret@), token@, rule@),
        r matches Ok(rows) ==> forall|g: Grant| #[trigger]
            minted_as(root_of(secret@), token@, g) ==> pair_set(rows@) == g.rights(),
        r matches Err(f) ==> f.explained(root_of(secret@), token@),
{
    let ask = || -> Result<Vec<(String, String)>, Token> {
        let root = KeyPair::from(&PrivateKey::from_bytes(secret, Algorithm::Ed25519)?);
        Biscuit::from(token, root.public())?.authorizer()?.query(rule)
    };
    match ask() {
        Ok(rows) => Ok(rows),
        Err(Token::RunLimit(e)) => Err(Fault::Unsettled(GaveUp { error: Token::RunLimit(e) })),
        Err(e) => Err(Fault::Invalid(e)),
    }
}

/// The facts of the authority block that match `rule`, as texts
/// (`biscuit_auth::Biscuit::from`, `authorizer` and `Authorizer::query`), in any
/// order. Of a minted token the three rules find the id, the event types and the
/// operations that need approval, as its grant has them.
#[verifier::external_body]
pub(crate) fn query_texts(secret: &[u8], token: &[u8], rule: &str) -> (r: Result<
    Vec<String>,
    Fault,
>)
    requires
        secret@.len() == 32,
        rule@ == token_id_rule() || rule@ == kinds_rule() || rule@ == approvals_rule(),
    ensures
        r matches Ok(rows) ==> text_set(rows@) == found_texts(root_of(secret@), token@, rule@),
        r matches Ok(rows) ==> forall|g: Grant| #[trigger]
            minted_as(root_of(secret@), token@, g) ==> {
                &&& rule@ == token_id_rule() ==> text_set(rows@) == set![g.id]
                &&& rule@ == kinds_rule() ==> text_set(rows@) == g.kind_set()
                &&& rule@ == approvals_rule() ==> text_set(rows@) == g.approval_set()
            },
        r matches Err(f) ==> f.explained(root_of(secret@), token@),
{
    let ask = || -> Result<Vec<(String,)>, Token> {
        let root = KeyPair::from(&PrivateKey::from_bytes(secret, Algorithm::Ed25519)?);
        Biscuit::from(token, root.public())?.authorizer()?.query(rule)
    };
    match ask() {
        Ok(rows) => Ok(rows.into_iter().map(|row| row.0).collect()),
        Err(Token::RunLimit(e)) => Err(Fault::Unsettled(GaveUp { error: Token::RunLimit(e) })),
        Err(e) => Err(Fault::Invalid(e)),
    }
}

/// The facts of the authority block that match `rule`, as a text and a number
/// (`biscuit_auth::Biscuit::from`, `authorizer` and `Authorizer::query`), in any
/// order. Of a minted token it finds the budget of its grant.
#[verifier::external_body]
pub(crate) fn query_amounts(secret: &[u8], token: &[u8], rule: &str) -> (r: Result<
    Vec<(String, i64)>,
    Fault,
>)
    requires
        secret@.len() == 32,
        rule@ == budget_rule(),
    ensures
        r matches Ok(rows) ==> amount_set(rows@) == found_amounts(root_of(secret@), token@, rule@),
        r matches Ok(rows) ==> forall|g: Grant| #[trigger]
            minted_as(root_of(secret@), token@, g) ==> amount_set(rows@) == g.budget_set(),
        r matches Err(f) ==> f.explained(root_of(secret@), token@),
{
    let ask = || -> Result<Vec<(String, i64)>, Token> {
        let root = KeyPair::from(&PrivateKey::from_bytes(secret, Algorithm::Ed25519)?);
        Biscuit::from(token, root.public())?.authorizer()?.query(rule)
    };
    match ask() {
        Ok(rows) => Ok(rows),
        Err(Token::RunLimit(e)) => Err(Fault::Unsettled(GaveUp { error: Token::RunLimit(e) })),
        Err(e) => Err(Fault::Invalid(e)),
    }
}

/// The facts of the authority block that match `rule`, as numbers
/// (`biscuit_auth::Biscuit::from`, `authorizer` and `Authorizer::query`), in any
/// order. Of a minted token it finds the rate of its grant.
#[verifier::external_body]
pub(crate) fn query_numbers(secret: &[u8], token: &[u8], rule: &str) -> (r: Result<
    Vec<i64>,
    Fault,
>)
    requires
        secret@.len() == 32,
        rule@ == rate_rule(),
    ensures
        r matches Ok(rows) ==> rows@.to_set() == found_numbers(root_of(secret@), token@, rule@),
        r matches Ok(rows) ==> forall|g: Grant| #[trigger]
            minted_as(root_of(secret@), token@, g) ==> rows@.to_set() == g.rate_set(),
        r matches Err(f) ==> f.explained(root_of(secret@), token@),
{
    let ask = || -> Result<Vec<(i64,)>, Token> {
        let root = KeyPair::from(&PrivateKey::from_bytes(secret, Algorithm::Ed25519)?);
        Biscuit::from(token, root.public())?.authorizer()?.query(rule)
    };
    match ask() {
        Ok(rows) => Ok(rows.into_iter().map(|row| row.0).collect()),
        Err(Token::RunLimit(e)) => Err(Fault::Unsettled(GaveUp { error: Token::RunLimit(e) })),
        Err(e) => Err(Fault::Invalid(e)),
    }
}

// ---------------------------------------------------------------------------
// Evaluation
// ---------------------------------------------------------------------------

/// A clause ` trusting authority, <key>, ...` over keys that are keys.
pub open spec fn trusting_clause(keys: Seq<(KeyAlgorithm, Seq<u8>)>) -> Seq<char> {
    " trusting authority"@ + trusted_keys(keys)
}

pub open spec fn trusted_keys(keys: Seq<(KeyAlgorithm, Seq<u8>)>) -> Seq<char>
    decreases keys.len(),
{
    if keys.len() == 0 {
        Seq::empty()
    } else {
        trusted_keys(keys.drop_last()) + ", "@ + key_text(keys.last())
    }
}

/// The datalog text of a key.
pub open spec fn key_text(key: (KeyAlgorithm, Seq<u8>)) -> Seq<char> {
    (match key.0 {
        KeyAlgorithm::Ed25519 => "ed25519/"@,
        KeyAlgorithm::Secp256r1 => "secp256r1/"@,
    }) + hex_text(key.1)
}

/// The lowercase hexadecimal text of bytes.
pub open spec fn hex_text(bytes: Seq<u8>) -> Seq<char>
    decreases bytes.len(),
{
    if bytes.len() == 0 {
        Seq::empty()
    } else {
        hex_text(bytes.drop_last()).push(hex_digit(bytes.last() as nat / 16)).push(
            hex_digit(bytes.last() as nat % 16),
        )
    }
}

/// The lowercase hexadecimal digit below sixteen.
pub open spec fn hex_digit(d: nat) -> char {
    if d < 10 {
        (48 + d) as char
    } else {
        (87 + d) as char
    }
}

/// Hexadecimal text is safe and needs no escapes.
pub proof fn lemma_hex_is_plain(bytes: Seq<u8>)
    ensures
        datalog::safe(hex_text(bytes)),
        datalog::plain(hex_text(bytes)),
        datalog::quotable(hex_text(bytes)),
    decreases bytes.len(),
{
    if bytes.len() > 0 {
        lemma_hex_is_plain(bytes.drop_last());
        let h = hex_text(bytes);
        let t = hex_text(bytes.drop_last());
        assert forall|c: char| h.contains(c) implies t.contains(c) || c == hex_digit(
            bytes.last() as nat / 16,
        ) || c == hex_digit(bytes.last() as nat % 16) by {
            let i = choose|i: int| 0 <= i < h.len() && h[i] == c;
            if i < t.len() {
                assert(t[i] == c);
            }
        }
    }
    datalog::lemma_plain(hex_text(bytes));
}

/// Hexadecimal text tells its bytes.
pub proof fn lemma_hex_tells_bytes(a: Seq<u8>, b: Seq<u8>)
    requires
        hex_text(a) == hex_text(b),
    ensures
        a == b,
    decreases a.len(),
{
    let h = hex_text(a);
    if a.len() == 0 || b.len() == 0 {
        if a.len() > 0 {
            assert(h.len() > 0 && hex_text(b).len() == 0);
        }
        if b.len() > 0 {
            assert(hex_text(b).len() > 0 && h.len() == 0);
        }
        assert(a =~= b);
    } else {
        let x = a.last() as nat;
        let y = b.last() as nat;
        assert(h[h.len() - 1] == hex_digit(x % 16) && h[h.len() - 1] == hex_digit(y % 16));
        assert(h[h.len() - 2] == hex_digit(x / 16) && h[h.len() - 2] == hex_digit(y / 16));
        assert(x % 16 == y % 16 && x / 16 == y / 16);
        assert(x == y);
        assert(hex_text(a.drop_last()) =~= h.take(h.len() - 2));
        assert(hex_text(b.drop_last()) =~= h.take(h.len() - 2));
        lemma_hex_tells_bytes(a.drop_last(), b.drop_last());
        assert(a =~= a.drop_last().push(a.last()));
        assert(b =~= b.drop_last().push(b.last()));
    }
}

/// Hexadecimal text is in small letters.
pub proof fn lemma_hex_is_lowered(bytes: Seq<u8>)
    ensures
        text::ascii_lowered(hex_text(bytes)) == hex_text(bytes),
    decreases bytes.len(),
{
    let h = hex_text(bytes);
    if bytes.len() > 0 {
        let t = hex_text(bytes.drop_last());
        lemma_hex_is_lowered(bytes.drop_last());
        assert forall|i: int| 0 <= i < h.len() implies text::ascii_lower(#[trigger] h[i]) == h[i] by {
            if i < t.len() {
                assert(text::ascii_lowered(t)[i] == t[i]);
            }
        }
    }
    assert(text::ascii_lowered(h) =~= h);
}

/// Every key is in canonical form.
pub open spec fn all_canonical(keys: Seq<(KeyAlgorithm, Seq<u8>)>) -> bool {
    forall|i: int| 0 <= i < keys.len() ==> public_key_form(#[trigger] keys[i].0, keys[i].1) == Some(
        keys[i].1,
    )
}

/// The text is a scope that a policy may have: none, or a list of keys.
pub open spec fn is_scope(scope: Seq<char>) -> bool {
    scope == ""@ || exists|keys: Seq<(KeyAlgorithm, Seq<u8>)>|
        all_canonical(keys) && scope == #[trigger] trusting_clause(keys)
}

/// The text asks about a request whose texts are safe.
pub open spec fn is_question(code: Seq<char>) -> bool {
    exists|q: Request, scope: Seq<char>|
        q.safe() && is_scope(scope) && (code == #[trigger] datalog::direct_code(q, scope) || code
            == datalog::granted_code(q, scope))
}

/// The text asks about this request.
pub open spec fn asks(code: Seq<char>, q: Request, scope: Seq<char>) -> bool {
    q.quotable() && is_scope(scope) && (code == datalog::direct_code(q, scope) || code == datalog::granted_code(
        q,
        scope,
    ))
}

/// A block that confines to operations and a prefix lets the request pass.
pub open spec fn attenuation_admits(ops: Seq<Operation>, prefix: Seq<char>, q: Request) -> bool {
    ops.contains(q.operation) && datalog::said(prefix).is_prefix_of(datalog::said(q.subject))
}

/// Every caveat lets the request pass.
pub open spec fn caveats_admit(caveats: Seq<Caveat>, q: Request) -> bool {
    forall|i: int| 0 <= i < caveats.len() ==> (#[trigger] caveats[i]).admits(q)
}

/// Asks a token about a request (`biscuit_auth::Biscuit::from`,
/// `builder::AuthorizerBuilder::code` and `build`, `Authorizer::authorize`).
/// The error is one of the token or of the text: the texts of a question that is put are
/// quotable, since no other parses. What is allowed does not depend on the time that the
/// evaluation takes, but the library may give up.
///
/// Of a token whose authority block is the text of a grant: what is allowed
/// passes the checks of the grant, and those of every block that is the text of
/// an attenuation or of a third party's caveats; and where the token was asked
/// itself, with no further key trusted or with only such blocks appended, which state no
/// right, the grant names the subject, or everything, with the operation. Where only such
/// blocks were appended, the converse holds too: the token is read and evaluated, and it
/// refuses only what fails one of the checks, or, where it was asked itself, what the
/// grant does not name. Whatever the token, what is refused is never allowed.
#[verifier::external_body]
pub(crate) fn authorize(secret: &[u8], token: &[u8], code: &str) -> (r: Result<Answer, Token>)
    requires
        secret@.len() == 32,
        is_question(code@),
    ensures
        r is Ok ==> forall|q: Request, scope: Seq<char>|
            q.safe() && is_scope(scope) && (code@ == #[trigger] datalog::direct_code(q, scope)
                || code@ == datalog::granted_code(q, scope)) ==> q.quotable(),
        r matches Ok(Answer::Allowed) ==> authorizes(root_of(secret@), token@, code@),
        r matches Ok(Answer::Allowed) ==> forall|g: Grant, q: Request, scope: Seq<char>|
            #[trigger] minted_as(root_of(secret@), token@, g) && #[trigger] asks(code@, q, scope)
                ==> g.admits(q) && blocks_admit(root_of(secret@), token@, q),
        r matches Ok(Answer::Allowed) ==> forall|g: Grant, q: Request, scope: Seq<char>|
            #[trigger] minted_as(root_of(secret@), token@, g) && q.quotable() && is_scope(scope)
                && code@ == #[trigger] datalog::direct_code(q, scope) && (scope == ""@ || legible(
                root_of(secret@),
                token@,
            )) ==> g.names(q),
        r matches Ok(Answer::Refused(_)) ==> !authorizes(root_of(secret@), token@, code@),
        r matches Ok(Answer::Refused(_)) ==> forall|g: Grant, q: Request, scope: Seq<char>|
            #[trigger] minted_as(root_of(secret@), token@, g) && legible(root_of(secret@), token@)
                && #[trigger] asks(code@, q, scope) && g.admits(q) && blocks_admit(
                root_of(secret@),
                token@,
                q,
            ) ==> code@ != datalog::granted_code(q, scope) && !g.names(q),
        r is Err || r->Ok_0 is Failed ==> forall|g: Grant, q: Request, scope: Seq<char>|
            #[trigger] minted_as(root_of(secret@), token@, g) && #[trigger] asks(code@, q, scope)
                ==> !legible(root_of(secret@), token@),
{
    let root = KeyPair::from(&PrivateKey::from_bytes(secret, Algorithm::Ed25519)?);
    let biscuit = Biscuit::from(token, root.public())?;
    let mut authorizer = AuthorizerBuilder::new().code(code)?.build(&biscuit)?;
    match authorizer.authorize() {
        Ok(_) => Ok(Answer::Allowed),
        Err(Token::FailedLogic(e)) => Ok(Answer::Refused(Token::FailedLogic(e))),
        Err(Token::RunLimit(e)) => Ok(Answer::Unsettled(GaveUp { error: Token::RunLimit(e) })),
        Err(e) => Ok(Answer::Failed(e)),
    }
}

/// Every caveat is quotable.
pub open spec fn all_quotable(caveats: Seq<Caveat>) -> bool {
    forall|i: int| 0 <= i < caveats.len() ==> (#[trigger] caveats[i]).quotable()
}

/// What a query finds is the same in both tokens.
pub open spec fn same_authority(root: Seq<u8>, a: Seq<u8>, b: Seq<u8>) -> bool {
    &&& found_pairs(root, a, rights_rule()) == found_pairs(root, b, rights_rule())
    &&& found_texts(root, a, kinds_rule()) == found_texts(root, b, kinds_rule())
    &&& found_texts(root, a, token_id_rule()) == found_texts(root, b, token_id_rule())
    &&& found_texts(root, a, approvals_rule()) == found_texts(root, b, approvals_rule())
    &&& found_amounts(root, a, budget_rule()) == found_amounts(root, b, budget_rule())
    &&& found_numbers(root, a, rate_rule()) == found_numbers(root, b, rate_rule())
}

/// Appends a block of the bearer's own (`biscuit_auth::Biscuit::from`,
/// `builder::BlockBuilder::code`, `Biscuit::append` and `to_vec`). The earlier
/// blocks stay; the text is the code of the new block; no third party signed it. Queries
/// see the authority block only, so they find what they found. Nothing is allowed
/// afterwards that was not allowed before. It succeeds exactly where the token can be
/// extended and the text is quotable, since no other parses, and the new token can be
/// extended too. The bytes are not claimed: a random key signs.
#[verifier::external_body]
pub(crate) fn append_block(secret: &[u8], token: &[u8], code: &str) -> (r: Result<Vec<u8>, Token>)
    requires
        secret@.len() == 32,
        exists|ops: Seq<Operation>, prefix: Seq<char>|
            datalog::safe(prefix) && code@ == #[trigger] datalog::attenuation_code(ops, prefix),
    ensures
        r is Ok ==> forall|ops: Seq<Operation>, prefix: Seq<char>|
            datalog::safe(prefix) && code@ == #[trigger] datalog::attenuation_code(ops, prefix)
                ==> datalog::quotable(prefix),
        r matches Ok(t) ==> extendable(root_of(secret@), token@) && extendable(
            root_of(secret@),
            t@,
        ) && block_sources(root_of(secret@), t@) == block_sources(
            root_of(secret@),
            token@,
        ).push(code@),
        r is Err ==> !extendable(root_of(secret@), token@) || forall|
            ops: Seq<Operation>,
            prefix: Seq<char>,
        |
            code@ == #[trigger] datalog::attenuation_code(ops, prefix) ==> !datalog::quotable(prefix),
        r matches Ok(t) ==> external_keys(root_of(secret@), t@) == external_keys(
            root_of(secret@),
            token@,
        ).push(None),
        r matches Ok(t) ==> same_authority(root_of(secret@), token@, t@),
        r matches Ok(t) ==> forall|q: Request|
            q.safe() && #[trigger] authorizes(root_of(secret@), t@, datalog::direct_code(q, ""@))
                ==> authorizes(
                root_of(secret@),
                token@,
                datalog::direct_code(q, ""@),
            ),
        r matches Ok(t) ==> forall|q: Request|
            q.safe() && #[trigger] authorizes(root_of(secret@), t@, datalog::granted_code(q, ""@))
                ==> authorizes(
                root_of(secret@),
                token@,
                datalog::granted_code(q, ""@),
            ),
{
    let root = KeyPair::from(&PrivateKey::from_bytes(secret, Algorithm::Ed25519)?);
    let block = BlockBuilder::new().code(code)?;
    Biscuit::from(token, root.public())?.append(block)?.to_vec()
}

/// Appends a block that a third party signs (`biscuit_auth::Biscuit::from`,
/// `third_party_request`, `ThirdPartyRequest::create_block`,
/// `Biscuit::append_third_party` and `to_vec`). The earlier blocks stay; the text
/// is the code of the new block, and the block is listed with the third party's public
/// key. Queries see the authority block only, so they find what they found. It succeeds
/// exactly where the token can be extended and the texts are quotable, since no others
/// parse, and the new token can be extended too. The bytes are not claimed: a random key
/// signs.
#[verifier::external_body]
pub(crate) fn append_signed_block(
    secret: &[u8],
    token: &[u8],
    algorithm: KeyAlgorithm,
    authority_secret: &[u8],
    code: &str,
) -> (r: Result<Vec<u8>, Token>)
    requires
        secret@.len() == 32,
        private_key_valid(algorithm, authority_secret@),
        exists|authority: Seq<char>, caveats: Seq<Caveat>|
            datalog::safe(authority) && all_safe(caveats) && code@ == #[trigger] datalog::caveat_code(
                authority,
                caveats,
            ),
    ensures
        r is Ok ==> forall|authority: Seq<char>, caveats: Seq<Caveat>|
            datalog::safe(authority) && all_safe(caveats) && code@ == #[trigger] datalog::caveat_code(
                authority,
                caveats,
            ) ==> datalog::quotable(authority) && all_quotable(caveats),
        r matches Ok(t) ==> extendable(root_of(secret@), token@) && extendable(
            root_of(secret@),
            t@,
        ) && block_sources(root_of(secret@), t@) == block_sources(
            root_of(secret@),
            token@,
        ).push(code@),
        r is Err ==> !extendable(root_of(secret@), token@) || forall|
            authority: Seq<char>,
            caveats: Seq<Caveat>,
        |
            code@ == #[trigger] datalog::caveat_code(authority, caveats) ==> !(datalog::quotable(
                authority,
            ) && all_quotable(caveats)),
        r matches Ok(t) ==> external_keys(root_of(secret@), t@) == external_keys(
            root_of(secret@),
            token@,
        ).push(Some((algorithm, public_key_of(algorithm, authority_secret@)))),
        r matches Ok(t) ==> same_authority(root_of(secret@), token@, t@),
{
    let algorithm = match algorithm {
        KeyAlgorithm::Ed25519 => Algorithm::Ed25519,
        KeyAlgorithm::Secp256r1 => Algorithm::Secp256r1,
    };
    let key = PrivateKey::from_bytes(authority_secret, algorithm)?;
    let root = KeyPair::from(&PrivateKey::from_bytes(secret, Algorithm::Ed25519)?);
    let biscuit = Biscuit::from(token, root.public())?;
    let block = BlockBuilder::new().code(code)?;
    let signed = biscuit.third_party_request()?.create_block(&key, block)?;
    biscuit.append_third_party(key.public(), signed)?.to_vec()
}

/// Every caveat is safe.
pub open spec fn all_safe(caveats: Seq<Caveat>) -> bool {
    forall|i: int| 0 <= i < caveats.len() ==> (#[trigger] caveats[i]).safe()
}

/// The external keys of a list, by their bytes.
pub open spec fn key_views(v: Seq<Option<(KeyAlgorithm, Vec<u8>)>>) -> Seq<
    Option<(KeyAlgorithm, Seq<u8>)>,
> {
    v.map_values(
        |k: Option<(KeyAlgorithm, Vec<u8>)>|
            match k {
                Some(p) => Some((p.0, p.1@)),
                None => None,
            },
    )
}

/// The external key of each block of a token (`biscuit_auth::Biscuit::from` and
/// `external_public_keys`). A token that can be extended is read.
#[verifier::external_body]
pub(crate) fn list_external_keys(secret: &[u8], token: &[u8]) -> (r: Result<
    Vec<Option<(KeyAlgorithm, Vec<u8>)>>,
    Token,
>)
    requires
        secret@.len() == 32,
    ensures
        r matches Ok(keys) ==> key_views(keys@) == external_keys(root_of(secret@), token@),
        r is Err ==> !extendable(root_of(secret@), token@),
{
    let root = KeyPair::from(&PrivateKey::from_bytes(secret, Algorithm::Ed25519)?);
    let keys = Biscuit::from(token, root.public())?.external_public_keys();
    Ok(keys.into_iter().map(|key| key.map(|k| match k {
        PublicKey::Ed25519(_) => (KeyAlgorithm::Ed25519, k.to_bytes()),
        PublicKey::P256(_) => (KeyAlgorithm::Secp256r1, k.to_bytes()),
    })).collect())
}

/// The lowercase hexadecimal text of bytes (`hex::encode`).
#[verifier::external_body]
pub(crate) fn hex_encode(bytes: &[u8]) -> (r: String)
    ensures
        r@ == hex_text(bytes@),
{
    hex::encode(bytes)
}

/// The bytes that a hexadecimal text stands for, in either case (`hex::decode`). What is
/// not the text of some bytes is refused; nothing is claimed of the message.
#[verifier::external_body]
pub(crate) fn hex_decode(text: &str) -> (r: Result<Vec<u8>, String>)
    ensures
        match r {
            Ok(v) => hex_text(v@) == text::ascii_lowered(text@),
            Err(_) => forall|b: Seq<u8>| #[trigger] hex_text(b) != text::ascii_lowered(text@),
        },
{
    match hex::decode(text) {
        Ok(v) => Ok(v),
        Err(e) => Err(e.to_string()),
    }
}

} // verus!
