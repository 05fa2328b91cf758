//! Errors of federation, and which peers are accepted without an operator.

use crate::outside;
use crate::outside::to_lowercase;
use crate::text;
use vstd::prelude::*;

verus! {

/// Errors that surface from the federation layer.
#[derive(Debug)]
pub enum FederationError {
    /// I/O and serialization issues.
    Io(String),
    /// Capability verification failed for a federation message.
    CapDenied(String),
    /// Signature verification failed on an inbound replicated event.
    Signature(String),
    /// The subject of an inbound event is outside the peer's granted scope.
    CapScopeViolation {
        /// The offending subject.
        subject: String,
    },
    /// A handshake step rejected the peer.
    HandshakeRejected(String),
}

impl FederationError {
    /// The message shown to a user.
    pub open spec fn message(self) -> Seq<char> {
        match self {
            FederationError::Io(m) => "federation io error: "@ + m@,
            FederationError::CapDenied(m) => "federation cap denied: "@ + m@,
            FederationError::Signature(m) => "federation signature invalid: "@ + m@,
            FederationError::CapScopeViolation { subject } =>
                "federation cap scope violation: subject "@ + subject@ + " outside peer grant"@,
            FederationError::HandshakeRejected(m) => "federation handshake rejected: "@ + m@,
        }
    }

    /// An I/O error with this message.
    pub fn io(message: &str) -> (r: Self)
        ensures
            r matches FederationError::Io(m) && m@ == message@,
    {
        FederationError::Io(String::from_str(message))
    }

    /// The message shown to a user.
    pub fn to_string(&self) -> (r: String)
        ensures
            r@ == self.message(),
    {
        match self {
            FederationError::Io(m) => String::from_str("federation io error: ").concat(m),
            FederationError::CapDenied(m) => String::from_str("federation cap denied: ").concat(m),
            FederationError::Signature(m) => String::from_str(
                "federation signature invalid: ",
            ).concat(m),
            FederationError::CapScopeViolation { subject } => String::from_str(
                "federation cap scope violation: subject ",
            ).concat(subject).concat(" outside peer grant"),
            FederationError::HandshakeRejected(m) => String::from_str(
                "federation handshake rejected: ",
            ).concat(m),
        }
    }
}

/// The policy applied when the daemon receives the hello of a peer.
#[derive(Debug)]
pub enum AutoAcceptPolicy {
    /// Reject all incoming peer requests.
    Deny,
    /// Accept any incoming peer.
    Any,
    /// Accept only peers whose Ed25519 public key, in lowercase hexadecimal, is listed.
    Allowlist(Vec<String>),
}

/// The key stands in the list of a policy text: one of its comma-separated pieces,
/// trimmed, in lowercase and not empty.
pub open spec fn listed(policy: Seq<char>, key: Seq<char>) -> bool {
    let list = text::pieces(text::without_prefixes(policy, "allowlist:"@), ',');
    key.len() > 0 && exists|i: int|
        0 <= i < list.len() && key == outside::lowercase(text::trimmed(#[trigger] list[i]))
}

impl AutoAcceptPolicy {
    /// The policy that a setting stands for: `true` accepts any peer, `allowlist:`
    /// and a list of keys those, and anything else none.
    pub fn from_setting(setting: Option<&str>) -> (r: Self)
        ensures
            match setting {
                Some(v) => if v@ == "true"@ {
                    r is Any
                } else if "allowlist:"@.is_prefix_of(v@) {
                    r matches AutoAcceptPolicy::Allowlist(list) && forall|key: Seq<char>|
                        #[trigger] text::views(list@).contains(key) <==> listed(v@, key)
                } else {
                    r is Deny
                },
                None => r is Deny,
            },
    {
        match setting {
            None => AutoAcceptPolicy::Deny,
            Some(v) => {
                if text::same(v, "true") {
                    return AutoAcceptPolicy::Any;
                }
                if !text::starts_with(v, "allowlist:") {
                    return AutoAcceptPolicy::Deny;
                }
                proof {
                    reveal_strlit("allowlist:");
                }
                let rest = text::trim_start_matches(v, "allowlist:");
                let parts = text::split(&rest, ',');
                let ghost list = text::pieces(rest@, ',');
                let mut keys: Vec<String> = Vec::new();
                let mut i: usize = 0;
                while i < parts.len()
                    invariant
                        i <= parts@.len(),
                        list == text::views(parts@),
                        forall|key: Seq<char>| #[trigger]
                            text::views(keys@).contains(key) <==> (key.len() > 0 && exists|j: int|
                                0 <= j < i && key == outside::lowercase(
                                    text::trimmed(#[trigger] list[j]),
                                )),
                    decreases parts.len() - i,
                {
                    let ghost before = keys@;
                    let key = to_lowercase(&text::trim(&parts[i]));
                    assert(list[i as int] == parts@[i as int]@);
                    if !key.as_str().is_empty() {
                        let ghost k = key@;
                        keys.push(key);
                        proof {
                            assert(text::views(keys@) =~= text::views(before).push(k));
                            assert forall|x: Seq<char>| #[trigger]
                                text::views(keys@).contains(x) <==> (text::views(before).contains(x)
                                    || x == k) by {
                                let a = text::views(before);
                                let b = text::views(keys@);
                                if b.contains(x) {
                                    let n = choose|n: int| 0 <= n < b.len() && b[n] == x;
                                    if n < a.len() {
                                        assert(a[n] == x);
                                    }
                                }
                                if a.contains(x) {
                                    let n = choose|n: int| 0 <= n < a.len() && a[n] == x;
                                    assert(b[n] == x);
                                }
                                if x == k {
                                    assert(b[a.len() as int] == x);
                                }
                            }
                        }
                    }
                    i += 1;
                }
                AutoAcceptPolicy::Allowlist(keys)
            },
        }
    }

    /// The policy accepts a peer with this key.
    pub open spec fn accepts(self, pubkey_hex: Seq<char>) -> bool {
        match self {
            AutoAcceptPolicy::Deny => false,
            AutoAcceptPolicy::Any => true,
            AutoAcceptPolicy::Allowlist(list) => text::views(list@).contains(
                outside::lowercase(pubkey_hex),
            ),
        }
    }

    /// Whether a peer with the given public key, in hexadecimal, is accepted.
    pub fn allows(&self, pubkey_hex: &str) -> (r: bool)
        ensures
            r == self.accepts(pubkey_hex@),
    {
        match self {
            AutoAcceptPolicy::Deny => false,
            AutoAcceptPolicy::Any => true,
            AutoAcceptPolicy::Allowlist(list) => text::among(
                list.as_slice(),
                &to_lowercase(pubkey_hex),
            ),
        }
    }
}

/// Seconds to wait before the next attempt to reach a peer: twice the last wait,
/// at least one second and at most sixty.
pub fn next_backoff(secs: u64) -> (r: u64)
    ensures
        1 <= r <= 60,
        r == (if 2 * secs < 1 {
            1
        } else if 2 * secs > 60 {
            60
        } else {
            2 * secs
        }),
{
    if secs == 0 {
        1
    } else if secs > 30 {
        60
    } else {
        secs * 2
    }
}

/// The largest frame that is read from a peer.
pub const MAX_FRAME: u32 = 16_777_216;

/// Accepts the announced length of a frame, or says why not.
pub fn check_frame_length(len: u32) -> (r: Result<usize, String>)
    ensures
        match r {
            Ok(n) => n == len && len <= MAX_FRAME,
            Err(m) => len > MAX_FRAME && m@ == "frame too large: "@ + text::digits(len as nat),
        },
{
    if len > MAX_FRAME {
        Err(String::from_str("frame too large: ").concat(&text::unsigned_text(len as u64)))
    } else {
        Ok(len as usize)
    }
}

/// The wait before an attempt to reach a peer, after so many failures.
pub open spec fn backoff_after(failures: nat) -> nat
    decreases failures,
{
    if failures == 0 {
        1
    } else {
        let last = backoff_after((failures - 1) as nat);
        if 2 * last > 60 {
            60
        } else {
            2 * last
        }
    }
}

/// Waits grow as long as failures go on, and never beyond sixty seconds.
pub proof fn law_backoff_is_capped(failures: nat)
    ensures
        1 <= backoff_after(failures) <= 60,
        backoff_after(failures) <= backoff_after(failures + 1),
    decreases failures,
{
    if failures > 0 {
        law_backoff_is_capped((failures - 1) as nat);
    }
}

/// Each wait before the next attempt is twice the last one, up to a minute, and waits never
/// shrink; the waits after failures that follow one another are those that
/// [`law_backoff_is_capped`] speaks of.
pub proof fn law_waits_double(secs: u64, r: u64, failures: nat)
    requires
        call_ensures(next_backoff, (secs,), r),
    ensures
        1 <= r <= 60,
        1 <= secs <= 30 ==> r == secs + secs,
        secs > 30 ==> r == 60,
        secs == 0 ==> r == 1,
        secs <= 60 ==> secs <= r,
        secs == backoff_after(failures) ==> r == backoff_after(failures + 1),
{
    law_backoff_is_capped(failures);
}

/// Whom a setting lets in: `true` everybody; a list of one key the peers that have it, in
/// whatever case the two are written; and no setting, or any other, nobody.
pub proof fn law_whom_a_setting_lets_in(
    setting: Option<&str>,
    policy: AutoAcceptPolicy,
    made: &AutoAcceptPolicy,
    key: Seq<char>,
    pubkey_hex: &str,
    r: bool,
)
    requires
        call_ensures(AutoAcceptPolicy::from_setting, (setting,), policy),
        *made == policy,
        call_ensures(AutoAcceptPolicy::allows, (made, pubkey_hex), r),
        !key.contains(',') && text::trimmed(key) == key && !"allowlist:"@.is_prefix_of(key),
        outside::lowercase(key).len() > 0,
    ensures
        setting is None ==> !r,
        setting matches Some(v) ==> (v@ == "true"@ ==> r),
        setting matches Some(v) ==> (v@ != "true"@ && !"allowlist:"@.is_prefix_of(v@) ==> !r),
        setting matches Some(v) ==> (v@ == "allowlist:"@ + key ==> r == (outside::lowercase(
            pubkey_hex@,
        ) == outside::lowercase(key))),
{
    reveal_strlit("true");
    reveal_strlit("allowlist:");
    if let Some(v) = setting {
        if v@ == "allowlist:"@ + key {
            assert("allowlist:"@.is_prefix_of(v@)) by {
                assert(v@.take(10) =~= "allowlist:"@);
            }
            assert(v@[0] == 'a' && "true"@[0] == 't');
            assert(v@.skip(10) =~= key);
            reveal_with_fuel(text::without_prefixes, 2);
            assert(text::without_prefixes(v@, "allowlist:"@) == key);
            text::lemma_one_piece(key, ',');
            let list = text::pieces(key, ',');
            assert(list.len() == 1 && list[0] == key);
            let k = outside::lowercase(pubkey_hex@);
            assert(listed(v@, k) <==> k == outside::lowercase(key)) by {
                assert(outside::lowercase(text::trimmed(list[0])) == outside::lowercase(key));
            }
        }
    }
}

/// A frame is read up to sixteen megabytes, and no longer one.
pub proof fn law_frames_are_bounded(len: u32, r: Result<usize, String>)
    requires
        call_ensures(check_frame_length, (len,), r),
    ensures
        r is Ok <==> len <= 16 * 1024 * 1024,
        r matches Ok(n) ==> n == len,
{
}

/// A list of keys lets in whom each of its keys lets in: the peers of a list with a further key
/// behind a comma are those of the list and those with that key.
pub proof fn law_every_listed_key_is_let_in(
    shorter: &str,
    longer: &str,
    first: AutoAcceptPolicy,
    second: AutoAcceptPolicy,
    a: &AutoAcceptPolicy,
    b: &AutoAcceptPolicy,
    list: Seq<char>,
    key: Seq<char>,
    pubkey_hex: &str,
    r: bool,
    s: bool,
)
    requires
        shorter@ == "allowlist:"@ + list,
        longer@ == "allowlist:"@ + list + seq![','] + key,
        !"allowlist:"@.is_prefix_of(list) && !"allowlist:"@.is_prefix_of(list + seq![','] + key),
        !key.contains(',') && text::trimmed(key) == key,
        outside::lowercase(key).len() > 0,
        call_ensures(AutoAcceptPolicy::from_setting, (Some(shorter),), first),
        call_ensures(AutoAcceptPolicy::from_setting, (Some(longer),), second),
        *a == first && *b == second,
        call_ensures(AutoAcceptPolicy::allows, (a, pubkey_hex), r),
        call_ensures(AutoAcceptPolicy::allows, (b, pubkey_hex), s),
    ensures
        s <==> r || outside::lowercase(pubkey_hex@) == outside::lowercase(key),
{
    reveal_strlit("true");
    reveal_strlit("allowlist:");
    let h = "allowlist:"@;
    let rest = list + seq![','] + key;
    assert(longer@ =~= h + rest);
    assert(shorter@.take(10) =~= h && longer@.take(10) =~= h);
    assert(h.is_prefix_of(shorter@) && h.is_prefix_of(longer@));
    assert(shorter@[0] == 'a' && longer@[0] == 'a' && "true"@[0] == 't');
    assert(shorter@.skip(10) =~= list && longer@.skip(10) =~= rest);
    reveal_with_fuel(text::without_prefixes, 2);
    assert(text::without_prefixes(shorter@, h) == list);
    assert(text::without_prefixes(longer@, h) == rest);
    text::lemma_pieces_join(list, ',', key);
    text::lemma_one_piece(key, ',');
    let p = text::pieces(list, ',');
    let q = text::pieces(rest, ',');
    assert(q =~= p.push(key));
    let k = outside::lowercase(pubkey_hex@);
    if listed(shorter@, k) {
        let i = choose|i: int|
            0 <= i < p.len() && k == outside::lowercase(text::trimmed(#[trigger] p[i]));
        assert(q[i] == p[i]);
        assert(listed(longer@, k));
    }
    if k == outside::lowercase(key) {
        assert(q[p.len() as int] == key);
        assert(listed(longer@, k));
    }
    if listed(longer@, k) && k != outside::lowercase(key) {
        let i = choose|i: int|
            0 <= i < q.len() && k == outside::lowercase(text::trimmed(#[trigger] q[i]));
        if i < p.len() {
            assert(q[i] == p[i]);
            assert(listed(shorter@, k));
        } else {
            assert(q[i] == key);
        }
    }
}

} // verus!
