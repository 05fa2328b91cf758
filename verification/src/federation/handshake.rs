//! How two daemons become peers: hello and welcome.

use crate::cap::biscuit;
use crate::cap::biscuit::hex_encode;
use crate::cap::datalog;
use crate::cap::engine;
use crate::cap::engine::CapEngine;
use crate::cap::error::CapError;
use crate::cap::laws;
use crate::cap::operation::Operation;
use crate::event::Peer;
use crate::federation::manager::{EnrolledPeer, PeerManager};
use crate::federation::policy::{AutoAcceptPolicy, FederationError};
use crate::json::Json;
use crate::outside;
use crate::text;
use crate::textmap::TextMap;
use vstd::prelude::*;
use vstd::slice::slice_to_vec;

verus! {

/// The operations that a peer's capability grants.
pub open spec fn peer_operations() -> Seq<Operation> {
    seq![Operation::Read, Operation::Subscribe, Operation::Peer]
}

/// The capability for a peer was asked of the engine: for the first of the shared
/// patterns, with the operations of a peer and no caveat.
pub open spec fn minted_for_peer(
    root: Seq<u8>,
    glob: Seq<char>,
    r: Result<Vec<u8>, CapError>,
) -> bool {
    engine::minted(root, r, glob, peer_operations(), None, None, None, None, Seq::empty())
}

/// Why no capability can be minted for what is shared.
pub open spec fn sharing_refusal(subjects: Seq<String>) -> Option<Seq<char>> {
    if subjects.len() == 0 {
        None
    } else {
        engine::mint_refusal(subjects[0]@, None, None)
    }
}

/// The error says that no capability was minted: with the reason, where the shared
/// pattern is denied; else the pattern is not quotable.
pub open spec fn not_minted(subjects: Seq<String>, e: FederationError) -> bool {
    &&& subjects.len() > 0
    &&& e matches FederationError::CapDenied(x)
    &&& match sharing_refusal(subjects) {
        Some(m) => x@ == "authorization denied: "@ + m,
        None => !datalog::quotable(subjects[0]@),
    }
}

/// Mint the capability offered to a peer: none where nothing is shared; else one
/// for the first pattern.
pub fn mint_for_peer(cap_engine: &CapEngine, subjects: &[String]) -> (r: Result<
    Option<Vec<u8>>,
    CapError,
>)
    ensures
        r matches Ok(cap) ==> (cap is None <==> subjects@.len() == 0),
        r matches Ok(Some(t)) ==> minted_for_peer(cap_engine.root(), subjects@[0]@, Ok(t)),
        r matches Err(e) ==> subjects@.len() > 0 && minted_for_peer(
            cap_engine.root(),
            subjects@[0]@,
            Err(e),
        ),
{
    if subjects.len() == 0 {
        return Ok(None);
    }
    let mut ops: Vec<Operation> = Vec::new();
    ops.push(Operation::Read);
    ops.push(Operation::Subscribe);
    ops.push(Operation::Peer);
    assert(ops@ =~= peer_operations());
    let minted = cap_engine.mint(&subjects[0], ops.as_slice(), None, None, None);
    assert(minted_for_peer(cap_engine.root(), subjects@[0]@, minted));
    match minted {
        Ok(t) => Ok(Some(t)),
        Err(e) => Err(e),
    }
}

/// What a daemon says of itself to a peer that it dials.
#[derive(Debug)]
pub struct Hello {
    /// The id of this daemon.
    pub peer_id: String,
    /// The Ed25519 public key of this daemon.
    pub public_key: Vec<u8>,
    /// The capability for the peer in base64; empty where there is none.
    pub offered_cap: String,
    /// The subject patterns shared with the peer.
    pub subjects: Vec<String>,
}

/// The text in which a capability is offered.
pub open spec fn offered(cap: Option<Vec<u8>>) -> Seq<char> {
    match cap {
        Some(t) => outside::base64_text(t@),
        None => ""@,
    }
}

fn offer_text(cap: &Option<Vec<u8>>) -> (r: String)
    ensures
        r@ == offered(*cap),
        cap matches Some(t) ==> outside::base64_bytes(r@) == outside::reads_as(t@),
{
    match cap {
        Some(t) => CapEngine::token_to_base64(t.as_slice()),
        None => String::from_str(""),
    }
}

/// What a peer says of itself in its welcome.
#[derive(Debug)]
pub struct Welcome {
    /// The id of the peer.
    pub peer_id: String,
    /// The peer's public key.
    pub public_key: Vec<u8>,
    /// The capability that the peer minted, in base64; empty where there is none.
    pub offered_cap: String,
    /// The subject patterns that the peer shares.
    pub subjects: Vec<String>,
}

/// A number of the welcome's key, taken as a byte; zero where it is no number that
/// can be one.
pub open spec fn key_byte(v: Json) -> u8 {
    match v {
        Json::Unsigned(n) => (n % 256) as u8,
        _ => 0,
    }
}

/// The strings among the elements.
pub open spec fn strings_of(v: Seq<Json>) -> Seq<Seq<char>>
    decreases v.len(),
{
    if v.len() == 0 {
        Seq::empty()
    } else if v.last() is Text {
        strings_of(v.drop_last()).push(v.last()->Text_0@)
    } else {
        strings_of(v.drop_last())
    }
}

/// The member is a string.
pub open spec fn text_member(m: Map<Seq<char>, Json>, name: Seq<char>) -> bool {
    m.dom().contains(name) && m[name] is Text
}

/// The member is an array.
pub open spec fn array_member(m: Map<Seq<char>, Json>, name: Seq<char>) -> bool {
    m.dom().contains(name) && m[name] is Array
}

/// The handshake was rejected with this message.
pub open spec fn rejected(e: FederationError, message: Seq<char>) -> bool {
    e matches FederationError::HandshakeRejected(m) && m@ == message
}

/// What the payload of a welcome says.
pub open spec fn welcome_says(data: Json, r: Result<Welcome, FederationError>) -> bool {
    let m = data.members();
    if !(data is Object) {
        r matches Err(e) && rejected(e, "welcome payload not an object"@)
    } else if !text_member(m, "peer_id"@) {
        r matches Err(e) && rejected(e, "missing peer_id in welcome"@)
    } else if !array_member(m, "public_key"@) {
        r matches Err(e) && rejected(e, "missing public_key in welcome"@)
    } else {
        r matches Ok(w) && {
            &&& w.peer_id@ == m["peer_id"@]->Text_0@
            &&& w.public_key@ == m["public_key"@].elements().map_values(|v: Json| key_byte(v))
            &&& w.offered_cap@ == (if text_member(m, "offered_cap"@) {
                m["offered_cap"@]->Text_0@
            } else {
                ""@
            })
            &&& text::views(w.subjects@) == (if array_member(m, "subjects"@) {
                strings_of(m["subjects"@].elements())
            } else {
                Seq::empty()
            })
        }
    }
}

fn key_bytes(v: &Vec<Json>) -> (r: Vec<u8>)
    ensures
        r@ == v@.map_values(|x: Json| key_byte(x)),
{
    let mut out: Vec<u8> = Vec::new();
    let mut i: usize = 0;
    while i < v.len()
        invariant
            i <= v@.len(),
            out@ == v@.take(i as int).map_values(|x: Json| key_byte(x)),
        decreases v.len() - i,
    {
        let b: u8 = match &v[i] {
            Json::Unsigned(n) => (*n % 256) as u8,
            _ => 0,
        };
        out.push(b);
        assert(out@ =~= v@.take(i + 1).map_values(|x: Json| key_byte(x)));
        i += 1;
    }
    assert(v@.take(v@.len() as int) =~= v@);
    out
}

fn collect_strings(v: &Vec<Json>) -> (r: Vec<String>)
    ensures
        text::views(r@) == strings_of(v@),
{
    let mut out: Vec<String> = Vec::new();
    let mut i: usize = 0;
    assert(text::views(out@) =~= strings_of(v@.take(0)));
    while i < v.len()
        invariant
            i <= v@.len(),
            text::views(out@) == strings_of(v@.take(i as int)),
        decreases v.len() - i,
    {
        let ghost before = out@;
        proof {
            assert(v@.take(i + 1).drop_last() =~= v@.take(i as int));
            assert(v@.take(i + 1).last() == v@[i as int]);
        }
        if let Json::Text(s) = &v[i] {
            out.push(s.clone());
            assert(text::views(out@) =~= text::views(before).push(s@));
        }
        i += 1;
    }
    assert(v@.take(v@.len() as int) =~= v@);
    out
}

/// Parse the payload of a welcome.
pub fn parse_welcome(data: &Json) -> (r: Result<Welcome, FederationError>)
    ensures
        welcome_says(*data, r),
{
    match data {
        Json::Object(_) => {},
        _ => {
            return Err(
                FederationError::HandshakeRejected(
                    String::from_str("welcome payload not an object"),
                ),
            );
        },
    }
    let peer_id: String = match data.get("peer_id") {
        Some(Json::Text(s)) => s.clone(),
        _ => {
            return Err(
                FederationError::HandshakeRejected(String::from_str("missing peer_id in welcome")),
            );
        },
    };
    let public_key: Vec<u8> = match data.get("public_key") {
        Some(Json::Array(v)) => key_bytes(v),
        _ => {
            return Err(
                FederationError::HandshakeRejected(
                    String::from_str("missing public_key in welcome"),
                ),
            );
        },
    };
    let offered_cap: String = match data.get("offered_cap") {
        Some(Json::Text(s)) => s.clone(),
        _ => String::from_str(""),
    };
    let subjects: Vec<String> = match data.get("subjects") {
        Some(Json::Array(v)) => collect_strings(v),
        _ => {
            let none: Vec<String> = Vec::new();
            assert(text::views(none@) =~= Seq::<Seq<char>>::empty());
            none
        },
    };
    Ok(Welcome { peer_id, public_key, offered_cap, subjects })
}

/// What came back from a peer.
#[derive(Debug)]
pub enum Reply {
    /// A result.
    Data(Json),
    /// An error with its message.
    Refused(String),
    /// Something else, as it prints.
    Other(String),
}

/// A peer as it is kept after a handshake.
#[derive(Debug)]
pub struct NewPeer {
    /// What the store keeps.
    pub row: Peer,
    /// What the manager keeps.
    pub enrolled: EnrolledPeer,
}

/// The bytes of a capability offered as text: none for the empty text.
pub open spec fn cap_bytes(text: Seq<char>) -> Option<Result<Seq<u8>, Seq<char>>> {
    if text.len() == 0 {
        None
    } else {
        Some(outside::base64_bytes(text))
    }
}

/// The capability is the one read from the text.
pub open spec fn cap_read(text: Seq<char>, cap: Option<Vec<u8>>) -> bool {
    match cap_bytes(text) {
        None => cap is None,
        Some(Ok(b)) => cap matches Some(c) && c@ == b,
        Some(Err(_)) => false,
    }
}

fn read_cap(text: &str) -> (r: Result<Option<Vec<u8>>, FederationError>)
    ensures
        match r {
            Ok(cap) => cap_read(text@, cap),
            Err(e) => {
                &&& e matches FederationError::CapDenied(m)
                &&& cap_bytes(text@) matches Some(Err(x))
                &&& m@ == "base64 error: "@ + x
            },
        },
{
    if text.is_empty() {
        return Ok(None);
    }
    match CapEngine::token_from_base64(text) {
        Ok(b) => Ok(Some(b)),
        Err(e) => Err(FederationError::CapDenied(e.to_string())),
    }
}

impl PeerManager {
    /// The hello with which this daemon dials a peer, and the capability in it.
    pub fn begin_handshake(&self, subjects: &[String], local_public_key: &[u8]) -> (r: Result<
        (Hello, Option<Vec<u8>>),
        FederationError,
    >)
        ensures
            match r {
                Ok((hello, cap)) => {
                    &&& sharing_refusal(subjects@) is None
                    &&& hello.peer_id@ == self.local()
                    &&& hello.public_key@ == local_public_key@
                    &&& text::views(hello.subjects@) == text::views(subjects@)
                    &&& hello.offered_cap@ == offered(cap)
                    &&& cap matches Some(t) ==> outside::base64_bytes(hello.offered_cap@)
                        == outside::reads_as(t@)
                    &&& cap is Some <==> subjects@.len() > 0
                    &&& cap matches Some(t) ==> minted_for_peer(
                        self.engine().root(),
                        subjects@[0]@,
                        Ok(t),
                    )
                },
                Err(e) => not_minted(subjects@, e),
            },
    {
        let cap = match mint_for_peer(self.cap_engine(), subjects) {
            Ok(c) => c,
            Err(e) => {
                return Err(FederationError::CapDenied(e.to_string()));
            },
        };
        let hello = Hello {
            peer_id: String::from_str(self.local_peer_id()),
            public_key: slice_to_vec(local_public_key),
            offered_cap: offer_text(&cap),
            subjects: text::copy_texts(subjects),
        };
        Ok((hello, cap))
    }

    /// What a dialed peer's reply to the hello comes to: the peer to keep, or why
    /// the handshake failed.
    pub fn finish_handshake(
        &self,
        peer_id: &str,
        url: &str,
        subjects: &[String],
        cap_for_remote: Option<Vec<u8>>,
        reply: &Reply,
    ) -> (r: Result<NewPeer, FederationError>)
        ensures
            match *reply {
                Reply::Refused(m) => r matches Err(e) && rejected(e, m@),
                Reply::Other(m) => r matches Err(e) && rejected(e, "unexpected response: "@ + m@),
                Reply::Data(data) => exists|w: Result<Welcome, FederationError>|
                    #[trigger] welcome_says(data, w) && match w {
                        Err(x) => r matches Err(e) && e.message() == x.message(),
                        Ok(w) => match r {
                            Err(e) => {
                                &&& e matches FederationError::CapDenied(m)
                                &&& cap_bytes(w.offered_cap@) matches Some(Err(x))
                                &&& m@ == "base64 error: "@ + x
                            },
                            Ok(p) => {
                                &&& p.row.peer_id@ == peer_id@
                                &&& p.row.url@ == url@
                                &&& p.row.public_key@ == w.public_key@
                                &&& text::views(p.row.granted_subjects@) == text::views(
                                    w.subjects@,
                                )
                                &&& !p.row.auto_accepted
                                &&& p.enrolled.peer_id@ == peer_id@
                                &&& p.enrolled.remote_pubkey@ == w.public_key@
                                &&& text::views(p.enrolled.remote_grants_us@) == text::views(
                                    w.subjects@,
                                )
                                &&& text::views(p.enrolled.we_grant_remote@) == text::views(
                                    subjects@,
                                )
                                &&& cap_read(w.offered_cap@, p.enrolled.cap_from_remote)
                                &&& p.enrolled.cap_for_remote == cap_for_remote
                            },
                        },
                    },
            },
    {
        let data = match reply {
            Reply::Data(data) => data,
            Reply::Refused(m) => {
                return Err(FederationError::HandshakeRejected(m.clone()));
            },
            Reply::Other(m) => {
                return Err(
                    FederationError::HandshakeRejected(
                        String::from_str("unexpected response: ").concat(m),
                    ),
                );
            },
        };
        let parsed = parse_welcome(data);
        let ghost says = parsed;
        assert(welcome_says(*data, says));
        let w = match parsed {
            Ok(w) => w,
            Err(e) => {
                return Err(e);
            },
        };
        let cap_from_remote = match read_cap(&w.offered_cap) {
            Ok(c) => c,
            Err(e) => {
                return Err(e);
            },
        };
        let row = Peer {
            peer_id: String::from_str(peer_id),
            url: String::from_str(url),
            public_key: slice_to_vec(w.public_key.as_slice()),
            granted_subjects: text::copy_texts(w.subjects.as_slice()),
            auto_accepted: false,
        };
        let enrolled = EnrolledPeer {
            peer_id: String::from_str(peer_id),
            remote_pubkey: w.public_key,
            remote_grants_us: w.subjects,
            we_grant_remote: text::copy_texts(subjects),
            cap_from_remote,
            cap_for_remote,
        };
        Ok(NewPeer { row, enrolled })
    }

    /// What the hello of a peer comes to: the peer to keep, or why it is refused.
    /// The policy decides first; then the offered capability must read as base64;
    /// then a capability is minted in return. A URL on file that can be dialed is
    /// kept.
    pub fn judge_hello(
        &self,
        remote_peer_id: &str,
        remote_pubkey: &[u8],
        offered_cap: &str,
        remote_subjects: &[String],
        url_on_file: Option<&str>,
    ) -> (r: Result<NewPeer, FederationError>)
        ensures
            ({
                let key = biscuit::hex_text(remote_pubkey@);
                if !self.policy().accepts(key) {
                    r matches Err(e) && rejected(e, "auto-accept policy denied peer "@ + key)
                } else if cap_bytes(offered_cap@) is Some && cap_bytes(offered_cap@)->0 is Err {
                    r matches Err(FederationError::CapDenied(m)) && m@ == "base64 error: "@
                        + cap_bytes(offered_cap@)->0->Err_0
                } else {
                    match r {
                        Err(e) => not_minted(remote_subjects@, e),
                        Ok(p) => {
                            &&& sharing_refusal(remote_subjects@) is None
                            &&& p.row.peer_id@ == remote_peer_id@
                            &&& p.row.url@ == (match url_on_file {
                                Some(u) => if "inbound:"@.is_prefix_of(u@) {
                                    "inbound:"@ + key
                                } else {
                                    u@
                                },
                                None => "inbound:"@ + key,
                            })
                            &&& p.row.public_key@ == remote_pubkey@
                            &&& text::views(p.row.granted_subjects@) == text::views(
                                remote_subjects@,
                            )
                            &&& p.row.auto_accepted
                            &&& p.enrolled.peer_id@ == remote_peer_id@
                            &&& p.enrolled.remote_pubkey@ == remote_pubkey@
                            &&& text::views(p.enrolled.remote_grants_us@) == text::views(
                                remote_subjects@,
                            )
                            &&& text::views(p.enrolled.we_grant_remote@) == text::views(
                                remote_subjects@,
                            )
                            &&& cap_read(offered_cap@, p.enrolled.cap_from_remote)
                            &&& p.enrolled.cap_for_remote is Some <==> remote_subjects@.len() > 0
                            &&& p.enrolled.cap_for_remote matches Some(t) ==> minted_for_peer(
                                self.engine().root(),
                                remote_subjects@[0]@,
                                Ok(t),
                            )
                        },
                    }
                }
            }),
    {
        let key = hex_encode(remote_pubkey);
        if !self.auto_accept().allows(&key) {
            return Err(
                FederationError::HandshakeRejected(
                    String::from_str("auto-accept policy denied peer ").concat(&key),
                ),
            );
        }
        let cap_from_remote = match read_cap(offered_cap) {
            Ok(c) => c,
            Err(e) => {
                return Err(e);
            },
        };
        let cap_for_remote = match mint_for_peer(self.cap_engine(), remote_subjects) {
            Ok(c) => c,
            Err(e) => {
                return Err(FederationError::CapDenied(e.to_string()));
            },
        };
        let url: String = match url_on_file {
            Some(u) => if text::starts_with(u, "inbound:") {
                String::from_str("inbound:").concat(&key)
            } else {
                String::from_str(u)
            },
            None => String::from_str("inbound:").concat(&key),
        };
        let row = Peer {
            peer_id: String::from_str(remote_peer_id),
            url,
            public_key: slice_to_vec(remote_pubkey),
            granted_subjects: text::copy_texts(remote_subjects),
            auto_accepted: true,
        };
        let enrolled = EnrolledPeer {
            peer_id: String::from_str(remote_peer_id),
            remote_pubkey: slice_to_vec(remote_pubkey),
            remote_grants_us: text::copy_texts(remote_subjects),
            we_grant_remote: text::copy_texts(remote_subjects),
            cap_from_remote,
            cap_for_remote,
        };
        Ok(NewPeer { row, enrolled })
    }

    /// The welcome with which an accepted hello is answered.
    pub fn welcome(
        &self,
        local_public_key: &[u8],
        subjects: &[String],
        cap_for_remote: &Option<Vec<u8>>,
    ) -> (r: Json)
        ensures
            r.has_members(set!["peer_id"@, "public_key"@, "subjects"@, "offered_cap"@]),
            r.members()["peer_id"@].is_text(self.local()),
            r.members()["public_key"@].is_bytes(local_public_key@),
            r.members()["subjects"@].is_texts(text::views(subjects@)),
            r.members()["offered_cap"@].is_text(offered(*cap_for_remote)),
            *cap_for_remote matches Some(t) ==> outside::base64_bytes(offered(*cap_for_remote))
                == outside::reads_as(t@),
    {
        proof {
            lemma_welcome_names();
        }
        let mut members: TextMap<Json> = TextMap::new();
        members.insert("peer_id", Json::text(self.local_peer_id()));
        members.insert("public_key", Json::bytes(local_public_key));
        members.insert("subjects", Json::texts(subjects));
        members.insert("offered_cap", Json::Text(offer_text(cap_for_remote)));
        assert(members@.dom() =~= set![
            "peer_id"@,
            "public_key"@,
            "subjects"@,
            "offered_cap"@,
        ]);
        Json::Object(members)
    }
}

proof fn lemma_welcome_names()
    ensures
        "peer_id"@ != "public_key"@,
        "peer_id"@ != "subjects"@,
        "peer_id"@ != "offered_cap"@,
        "public_key"@ != "subjects"@,
        "public_key"@ != "offered_cap"@,
        "subjects"@ != "offered_cap"@,
{
    reveal_strlit("peer_id");
    reveal_strlit("public_key");
    reveal_strlit("subjects");
    reveal_strlit("offered_cap");
    assert("peer_id"@.len() == 7);
    assert("public_key"@.len() == 10);
    assert("subjects"@.len() == 8);
    assert("offered_cap"@.len() == 11);
}

/// A welcome says what it was made to say: the peer that reads it learns the id, the
/// key, the shared patterns and the capability of the daemon that wrote it.
pub proof fn law_welcome_is_understood(
    data: Json,
    id: Seq<char>,
    key: Seq<u8>,
    subjects: Seq<Seq<char>>,
    cap: Seq<char>,
    r: Result<Welcome, FederationError>,
)
    requires
        data.has_members(set!["peer_id"@, "public_key"@, "subjects"@, "offered_cap"@]),
        data.members()["peer_id"@].is_text(id),
        data.members()["public_key"@].is_bytes(key),
        data.members()["subjects"@].is_texts(subjects),
        data.members()["offered_cap"@].is_text(cap),
        welcome_says(data, r),
    ensures
        r matches Ok(w) && w.peer_id@ == id && w.public_key@ == key && text::views(w.subjects@)
            == subjects && w.offered_cap@ == cap,
{
    let m = data.members();
    assert(m.dom().contains("peer_id"@));
    assert(m.dom().contains("public_key"@));
    assert(m.dom().contains("subjects"@));
    assert(m.dom().contains("offered_cap"@));
    lemma_strings_of(m["subjects"@].elements(), subjects);
    let keys = m["public_key"@].elements().map_values(|v: Json| key_byte(v));
    assert forall|i: int| 0 <= i < key.len() implies keys[i] == key[i] by {
        assert(m["public_key"@].elements()[i] == Json::Unsigned(key[i] as u64));
    }
    assert(keys =~= key);
}

proof fn lemma_strings_of(v: Seq<Json>, s: Seq<Seq<char>>)
    requires
        v.len() == s.len(),
        forall|i: int| 0 <= i < s.len() ==> (#[trigger] v[i]).is_text(s[i]),
    ensures
        strings_of(v) == s,
    decreases v.len(),
{
    if v.len() > 0 {
        lemma_strings_of(v.drop_last(), s.drop_last());
        assert(v.last().is_text(s.last()));
        assert(strings_of(v) =~= s);
    } else {
        assert(strings_of(v) =~= s);
    }
}

/// After a handshake the two daemons know the same things of each other. The one that was
/// dialed has the other's id, its key, the capability that the other minted, and the
/// patterns that the other shares, which count in both directions. The one that dialed
/// has the other's key, the capability minted in return, what it shares itself and what
/// the welcome names.
pub proof fn law_a_handshake_is_mutual(
    dialer: &PeerManager,
    dialed: &PeerManager,
    subjects: &[String],
    dialer_key: &[u8],
    dialed_key: &[u8],
    hello: Hello,
    cap: Option<Vec<u8>>,
    id: &str,
    offered_cap: &str,
    hello_subjects: &[String],
    on_file: Option<&str>,
    accepted: NewPeer,
    minted: &Option<Vec<u8>>,
    payload: Json,
    peer_id: &str,
    url: &str,
    reply: &Reply,
    kept: NewPeer,
)
    requires
        call_ensures(
            PeerManager::begin_handshake,
            (dialer, subjects, dialer_key),
            Ok((hello, cap)),
        ),
        id@ == hello.peer_id@ && offered_cap@ == hello.offered_cap@,
        hello_subjects@ == hello.subjects@,
        call_ensures(
            PeerManager::judge_hello,
            (dialed, id, dialer_key, offered_cap, hello_subjects, on_file),
            Ok(accepted),
        ),
        *minted == accepted.enrolled.cap_for_remote,
        call_ensures(PeerManager::welcome, (dialed, dialed_key, hello_subjects, minted), payload),
        *reply == Reply::Data(payload),
        call_ensures(
            PeerManager::finish_handshake,
            (dialer, peer_id, url, subjects, cap, reply),
            Ok(kept),
        ),
    ensures
        accepted.enrolled.peer_id@ == dialer.local(),
        accepted.row.peer_id@ == dialer.local(),
        accepted.enrolled.remote_pubkey@ == dialer_key@,
        accepted.row.public_key@ == dialer_key@,
        accepted.row.auto_accepted,
        text::views(accepted.enrolled.remote_grants_us@) == text::views(subjects@),
        text::views(accepted.enrolled.we_grant_remote@) == text::views(subjects@),
        text::views(accepted.row.granted_subjects@) == text::views(subjects@),
        offered_cap@.len() > 0 ==> (accepted.enrolled.cap_from_remote matches Some(c) && (
        cap matches Some(t) && c@ == t@)),
        kept.enrolled.peer_id@ == peer_id@ && kept.row.peer_id@ == peer_id@,
        kept.row.url@ == url@ && !kept.row.auto_accepted,
        kept.enrolled.remote_pubkey@ == dialed_key@,
        kept.row.public_key@ == dialed_key@,
        text::views(kept.enrolled.remote_grants_us@) == text::views(subjects@),
        text::views(kept.enrolled.we_grant_remote@) == text::views(subjects@),
        text::views(kept.row.granted_subjects@) == text::views(subjects@),
        kept.enrolled.cap_for_remote == cap,
        offered(*minted).len() > 0 ==> (kept.enrolled.cap_from_remote matches Some(c) && (
        accepted.enrolled.cap_for_remote matches Some(t) && c@ == t@)),
        cap is Some <==> subjects@.len() > 0,
        accepted.enrolled.cap_for_remote is Some <==> subjects@.len() > 0,
{
    reveal_strlit("");
    let w = choose|w: Result<Welcome, FederationError>|
        #[trigger] welcome_says(payload, w) && w is Ok && text::views(
            kept.enrolled.remote_grants_us@,
        ) == text::views(w->Ok_0.subjects@) && kept.enrolled.remote_pubkey@
            == w->Ok_0.public_key@ && kept.row.public_key@ == w->Ok_0.public_key@ && text::views(
            kept.row.granted_subjects@,
        ) == text::views(w->Ok_0.subjects@) && cap_read(
            w->Ok_0.offered_cap@,
            kept.enrolled.cap_from_remote,
        );
    law_welcome_is_understood(
        payload,
        dialed.local(),
        dialed_key@,
        text::views(hello_subjects@),
        offered(*minted),
        w,
    );
    assert(text::views(hello_subjects@).len() == hello_subjects@.len());
    assert(text::views(subjects@).len() == subjects@.len());
}

/// A hello is turned away from those whom the policy does not let in, and from the others only
/// where the capability in it cannot be read or none can be minted in return. The URL on
/// file is kept where it can be dialed.
pub proof fn law_the_policy_guards_the_door(
    manager: &PeerManager,
    policy: &AutoAcceptPolicy,
    key: &str,
    allowed: bool,
    id: &str,
    pubkey: &[u8],
    offered_cap: &str,
    subjects: &[String],
    on_file: Option<&str>,
    r: Result<NewPeer, FederationError>,
)
    requires
        *policy == manager.policy(),
        key@ == biscuit::hex_text(pubkey@),
        call_ensures(AutoAcceptPolicy::allows, (policy, key), allowed),
        call_ensures(
            PeerManager::judge_hello,
            (manager, id, pubkey, offered_cap, subjects, on_file),
            r,
        ),
    ensures
        !allowed ==> (r matches Err(e) && e is HandshakeRejected),
        allowed ==> (r matches Err(e) ==> e is CapDenied),
        allowed && offered_cap@.len() == 0 && subjects@.len() == 0 ==> r is Ok,
        r matches Ok(p) ==> (on_file matches Some(u) ==> (!"inbound:"@.is_prefix_of(u@)
            ==> p.row.url@ == u@)),
        r matches Ok(p) ==> (on_file is None ==> "inbound:"@.is_prefix_of(p.row.url@)),
{
    if let Ok(p) = r {
        if on_file is None {
            assert(p.row.url@.take("inbound:"@.len() as int) =~= "inbound:"@);
        }
    }
}

/// What a peer's capability is good for: reading, subscribing and federating, on what the
/// first of the shared patterns covers, and for nothing else. This is said of texts that need
/// no escapes.
pub proof fn law_what_a_peer_may_do(
    cap_engine: &CapEngine,
    subjects: &[String],
    minted: Vec<u8>,
    token: &[u8],
    subject: &str,
    operation: Operation,
    event_type: Option<&str>,
    now: i64,
    j: engine::Judgement,
)
    requires
        call_ensures(mint_for_peer, (cap_engine, subjects), Ok(Some(minted))),
        token@ == minted@,
        datalog::plain(subjects@[0]@) && datalog::plain(subject@) && datalog::safe(subject@),
        event_type matches Some(e) ==> datalog::plain(e@) && datalog::safe(e@),
        call_ensures(
            CapEngine::judge_at,
            (cap_engine, token, subject, operation, event_type, now),
            j,
        ),
    ensures
        subjects@.len() > 0,
        j is Unsettled || (j is Accepted <==> (operation is Read || operation is Subscribe
            || operation is Peer) && crate::cap::glob::glob_matches(subjects@[0]@, subject@)),
{
    let g = laws::lemma_minted_grant(
        cap_engine.root(),
        minted,
        subjects@[0]@,
        peer_operations(),
        None,
        None,
        None,
        None,
        Seq::empty(),
    );
    let ops = peer_operations();
    assert(ops[0] is Read && ops[1] is Subscribe && ops[2] is Peer);
    assert(ops.contains(operation) <==> operation is Read || operation is Subscribe
        || operation is Peer);
    laws::lemma_plain_grant_is_served(
        cap_engine.root(),
        token@,
        g,
        datalog::request_of(now, subject@, operation, event_type),
        j,
    );
}

/// A welcome is understood as it was meant: the daemon that parses it learns the id, the key, the
/// patterns and the capability of the one that wrote it.
pub proof fn law_a_welcome_is_parsed(
    manager: &PeerManager,
    key: &[u8],
    subjects: &[String],
    cap: &Option<Vec<u8>>,
    payload: Json,
    received: &Json,
    r: Result<Welcome, FederationError>,
)
    requires
        call_ensures(PeerManager::welcome, (manager, key, subjects, cap), payload),
        *received == payload,
        call_ensures(parse_welcome, (received,), r),
    ensures
        r matches Ok(w) && w.peer_id@ == manager.local() && w.public_key@ == key@ && text::views(
            w.subjects@,
        ) == text::views(subjects@),
        r matches Ok(w) ==> (*cap is None ==> w.offered_cap@.len() == 0),
        r matches Ok(w) ==> (*cap matches Some(t) ==> outside::base64_bytes(w.offered_cap@)
            == outside::reads_as(t@)),
{
    reveal_strlit("");
    law_welcome_is_understood(
        payload,
        manager.local(),
        key@,
        text::views(subjects@),
        offered(*cap),
        r,
    );
}

} // verus!
