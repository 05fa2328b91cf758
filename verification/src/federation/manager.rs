//! The peers of this daemon, and the decisions made about their events.

use crate::cap::engine::CapEngine;
use crate::cap::glob;
use crate::cap::glob::glob_match_subject;
use crate::event;
use crate::event::{Event, Peer, PeerCursor};
use crate::federation::policy::{AutoAcceptPolicy, FederationError};
use crate::json::Json;
use crate::outside;
use crate::outside::format_rfc3339;
use crate::text;
use crate::textmap::TextMap;
use crate::time::Timestamp;
use vstd::prelude::*;

verus! {

/// In-memory record of an enrolled peer.
#[derive(Debug)]
pub struct EnrolledPeer {
    /// Free-form local id for this peer (typically the remote public key in hex).
    pub peer_id: String,
    /// Remote's Ed25519 public key, 32 bytes.
    pub remote_pubkey: Vec<u8>,
    /// Subjects the remote granted us (we may send events matching these).
    pub remote_grants_us: Vec<String>,
    /// Subjects we granted the remote (they may send events matching these).
    pub we_grant_remote: Vec<String>,
    /// Cap token (raw bytes) the remote minted for us.
    pub cap_from_remote: Option<Vec<u8>>,
    /// Cap token (raw bytes) we minted for the remote.
    pub cap_for_remote: Option<Vec<u8>>,
}

/// The peer that a stored row stands for after a restart: what was granted to it counts in
/// both directions, and no token is at hand.
pub fn enrolled_from(row: Peer) -> (r: EnrolledPeer)
    ensures
        r.peer_id == row.peer_id,
        r.remote_pubkey == row.public_key,
        text::views(r.remote_grants_us@) == text::views(row.granted_subjects@),
        r.we_grant_remote == row.granted_subjects,
        r.cap_from_remote is None && r.cap_for_remote is None,
{
    EnrolledPeer {
        peer_id: row.peer_id,
        remote_pubkey: row.public_key,
        remote_grants_us: text::copy_texts(row.granted_subjects.as_slice()),
        we_grant_remote: row.granted_subjects,
        cap_from_remote: None,
        cap_for_remote: None,
    }
}

/// Some pattern covers the subject.
pub open spec fn covered_by(patterns: Seq<String>, subject: Seq<char>) -> bool {
    exists|i: int|
        0 <= i < patterns.len() && glob::glob_matches((#[trigger] patterns[i])@, subject)
}

/// Whether some pattern covers the subject.
pub fn any_covers(patterns: &[String], subject: &str) -> (r: bool)
    ensures
        r == covered_by(patterns@, subject@),
{
    let mut i: usize = 0;
    while i < patterns.len()
        invariant
            i <= patterns@.len(),
            forall|j: int|
                0 <= j < i ==> !glob::glob_matches((#[trigger] patterns@[j])@, subject@),
        decreases patterns.len() - i,
    {
        if glob_match_subject(&patterns[i], subject) {
            assert(glob::glob_matches(patterns@[i as int]@, subject@));
            return true;
        }
        i += 1;
    }
    false
}

/// A locally announced event.
#[derive(Debug)]
pub struct BroadcastEvent {
    /// The subject of the event.
    pub subject: String,
    /// The event.
    pub event: Json,
    /// The peer that the event came from; empty where it was made here.
    pub origin_peer_id: String,
}

/// An event may be sent on to the peer: it does not come from it, and a pattern
/// that the peer granted covers its subject.
pub open spec fn forwards(peer: EnrolledPeer, subject: Seq<char>, origin: Seq<char>) -> bool {
    origin != peer.peer_id@ && covered_by(peer.remote_grants_us@, subject)
}

/// The answer to an event that a peer sent: who it is from must be known, it must
/// be signed, the signature must be the peer's, and its subject must lie in what
/// the peer may send. The first condition that fails is reported.
pub open spec fn judgement(
    peers: Map<Seq<char>, EnrolledPeer>,
    peer_id: Seq<char>,
    event: Event,
    signature_valid: bool,
    r: Result<(), FederationError>,
) -> bool {
    if !peers.dom().contains(peer_id) {
        r matches Err(FederationError::CapDenied(m)) && m@ == "unknown peer "@ + peer_id
    } else if event.signature is None {
        r matches Err(FederationError::Signature(m)) && m@ == "replicated event must be signed"@
    } else if !signature_valid {
        r matches Err(FederationError::Signature(m)) && m@
            == "ed25519 signature mismatch against peer pubkey"@
    } else if !covered_by(peers[peer_id].we_grant_remote@, event.subject@) {
        r matches Err(FederationError::CapScopeViolation { subject }) && subject@ == event.subject@
    } else {
        r is Ok
    }
}

/// What the store said to an append.
#[derive(Debug)]
pub enum AppendOutcome {
    /// The event was stored.
    Stored,
    /// The event was not stored, with this message.
    Failed(String),
}

impl AppendOutcome {
    /// The message says that the event was there already.
    pub open spec fn is_duplicate(self) -> bool {
        self matches AppendOutcome::Failed(m) && ((exists|i: int|
            text::occurs_at(m@, "UNIQUE"@, i)) || (exists|i: int|
            text::occurs_at(m@, "constraint"@, i)))
    }
}

/// The text of the time of a cursor; null for none.
pub open spec fn cursor_time(time: Option<Timestamp>, v: Json) -> bool {
    match time {
        Some(t) => match outside::rfc3339_text(t) {
            Some(s) => v.is_text(s) && (outside::four_digit_year(t) ==> outside::rfc3339_time(s)
                == outside::reads_as_time(t)),
            None => v is Null && !outside::four_digit_year(t),
        },
        None => v is Null,
    }
}

/// The answer to a cursor request says how far the events of a peer have come.
pub open spec fn reports_cursor(
    peer_id: Seq<char>,
    subject_pattern: Seq<char>,
    cursor: Option<PeerCursor>,
    r: Json,
) -> bool {
    let m = r.members();
    &&& r.has_members(
        set!["peer_id"@, "subject_pattern"@, "last_event_id"@, "last_event_time"@],
    )
    &&& match cursor {
        Some(c) => {
            &&& m["peer_id"@].is_text(c.peer_id@)
            &&& m["subject_pattern"@].is_text(c.subject_pattern@)
            &&& match c.last_event_id {
                Some(id) => m["last_event_id"@].is_text(id@),
                None => m["last_event_id"@] is Null,
            }
            &&& cursor_time(c.last_event_time, m["last_event_time"@])
        },
        None => {
            &&& m["peer_id"@].is_text(peer_id)
            &&& m["subject_pattern"@].is_text(subject_pattern)
            &&& m["last_event_id"@] is Null
            &&& m["last_event_time"@] is Null
        },
    }
}

/// What follows from taking in a replicated event.
#[derive(Debug)]
pub struct ReplicateOutcome {
    /// How far the replication from the peer has come.
    pub cursor: PeerCursor,
    /// Whether the event is announced to subscribers and to other peers.
    pub announce: bool,
    /// The acknowledgement.
    pub ack: Json,
}

/// The federation manager: this daemon's identity, its peers, and the policy for
/// new ones.
#[derive(Debug)]
pub struct PeerManager {
    cap_engine: CapEngine,
    local_peer_id: String,
    peers: TextMap<EnrolledPeer>,
    auto_accept: AutoAcceptPolicy,
}

impl PeerManager {
    /// The enrolled peers, by id.
    pub closed spec fn peers(&self) -> Map<Seq<char>, EnrolledPeer> {
        self.peers@
    }

    /// This daemon's id.
    pub closed spec fn local(&self) -> Seq<char> {
        self.local_peer_id@
    }

    /// The policy for new peers.
    pub closed spec fn policy(&self) -> AutoAcceptPolicy {
        self.auto_accept
    }

    /// The capability engine that mints for peers.
    pub closed spec fn engine(&self) -> CapEngine {
        self.cap_engine
    }

    /// Construct a new manager without peers.
    pub fn new(cap_engine: CapEngine, local_peer_id: String, auto_accept: AutoAcceptPolicy) -> (r:
        Self)
        ensures
            r.peers() == Map::<Seq<char>, EnrolledPeer>::empty(),
            r.local() == local_peer_id@,
            r.policy() == auto_accept,
            r.engine() == cap_engine,
    {
        PeerManager { cap_engine, local_peer_id, peers: TextMap::new(), auto_accept }
    }

    /// Local peer id (Ed25519 public key in hex by convention).
    pub fn local_peer_id(&self) -> (r: &str)
        ensures
            r@ == self.local(),
    {
        self.local_peer_id.as_str()
    }

    /// The capability engine that mints for peers.
    pub fn cap_engine(&self) -> (r: &CapEngine)
        ensures
            *r == self.engine(),
    {
        &self.cap_engine
    }

    /// The policy for new peers.
    pub fn auto_accept(&self) -> (r: &AutoAcceptPolicy)
        ensures
            *r == self.policy(),
    {
        &self.auto_accept
    }

    /// The ids of the enrolled peers, each once.
    pub closed spec fn peer_ids(&self) -> Seq<Seq<char>> {
        self.peers.keys()
    }

    /// The currently enrolled peers, each once.
    pub fn list_peers(&self) -> (r: Vec<&EnrolledPeer>)
        ensures
            r@.len() == self.peer_ids().len(),
            forall|i: int|
                #![trigger r@[i]]
                0 <= i < r@.len() ==> *r@[i] == self.peers()[self.peer_ids()[i]],
            forall|k: Seq<char>| #[trigger]
                self.peer_ids().contains(k) <==> self.peers().dom().contains(k),
            self.peer_ids().no_duplicates(),
    {
        let mut out: Vec<&EnrolledPeer> = Vec::new();
        let n: usize = self.peers.len();
        let mut i: usize = 0;
        while i < n
            invariant
                i <= n,
                n == self.peers.keys().len(),
                out@.len() == i,
                forall|j: int|
                    #![trigger out@[j]]
                    0 <= j < i ==> *out@[j] == self.peers@[self.peers.keys()[j]],
            decreases n - i,
        {
            let e = self.peers.entry(i);
            out.push(e.1);
            i += 1;
        }
        proof {
            self.peers.lemma_keys();
        }
        out
    }

    /// The peer with this id.
    pub fn peer(&self, peer_id: &str) -> (r: Option<&EnrolledPeer>)
        ensures
            match r {
                Some(p) => self.peers().dom().contains(peer_id@) && *p == self.peers()[peer_id@],
                None => !self.peers().dom().contains(peer_id@),
            },
    {
        self.peers.get(peer_id)
    }

    /// Add a peer, in place of one with the same id.
    pub fn enroll(&mut self, peer: EnrolledPeer)
        ensures
            final(self).peers() == old(self).peers().insert(peer.peer_id@, peer),
            final(self).local() == old(self).local(),
            final(self).policy() == old(self).policy(),
            final(self).engine() == old(self).engine(),
    {
        let id = peer.peer_id.clone();
        self.peers.insert(&id, peer);
    }

    /// Remove a peer.
    pub fn unenroll(&mut self, peer_id: &str)
        ensures
            final(self).peers() == old(self).peers().remove(peer_id@),
            final(self).local() == old(self).local(),
            final(self).policy() == old(self).policy(),
            final(self).engine() == old(self).engine(),
    {
        let gone = self.peers.remove(peer_id);
    }

    /// Decide whether the local daemon should forward an event to a given peer:
    /// never back to the peer that it came from, and only what the peer's grants
    /// cover.
    pub fn should_forward(&self, peer: &EnrolledPeer, event_subject: &str, origin_peer_id: &str)
        -> (r: bool)
        ensures
            r == forwards(*peer, event_subject@, origin_peer_id@),
    {
        if text::same(origin_peer_id, &peer.peer_id) {
            return false;
        }
        any_covers(peer.remote_grants_us.as_slice(), event_subject)
    }

    /// The origin that an announced event is sent on with: this daemon for an event
    /// that was made here.
    pub open spec fn origin_of(&self, announced_origin: Seq<char>) -> Seq<char> {
        if announced_origin.len() == 0 {
            self.local()
        } else {
            announced_origin
        }
    }

    /// The peers that an announced event is sent on to, each once, and the origin to name.
    pub fn fan_out(&self, subject: &str, announced_origin: &str) -> (r: (String, Vec<String>))
        ensures
            r.0@ == self.origin_of(announced_origin@),
            forall|k: Seq<char>| #[trigger]
                text::views(r.1@).contains(k) <==> (self.peers().dom().contains(k) && forwards(
                    self.peers()[k],
                    subject@,
                    self.origin_of(announced_origin@),
                )),
            text::views(r.1@).no_duplicates(),
    {
        let origin: String = if announced_origin.is_empty() {
            self.local_peer_id.clone()
        } else {
            String::from_str(announced_origin)
        };
        let ghost org = self.origin_of(announced_origin@);
        assert(origin@ == org);
        let mut out: Vec<String> = Vec::new();
        let n: usize = self.peers.len();
        let mut i: usize = 0;
        while i < n
            invariant
                i <= n,
                n == self.peers.keys().len(),
                self.peers.keys().no_duplicates(),
                text::views(out@).no_duplicates(),
                origin@ == org,
                forall|k: Seq<char>| #[trigger]
                    text::views(out@).contains(k) <==> (exists|j: int|
                        0 <= j < i && #[trigger] self.peers.keys()[j] == k) && forwards(
                        self.peers()[k],
                        subject@,
                        org,
                    ),
            decreases n - i,
        {
            let e = self.peers.entry(i);
            let ghost before = out@;
            let ghost key = self.peers.keys()[i as int];
            if self.should_forward(e.1, subject, &origin) {
                out.push(e.0.clone());
                proof {
                    let a = text::views(before);
                    let b = text::views(out@);
                    assert(b =~= a.push(key));
                    assert(!a.contains(key));
                    assert(b.no_duplicates());
                    assert forall|x: Seq<char>| #[trigger]
                        b.contains(x) <==> (a.contains(x) || x == key) by {
                        if b.contains(x) {
                            let n = choose|n: int| 0 <= n < b.len() && b[n] == x;
                            if n < a.len() {
                                assert(a[n] == x);
                            }
                        }
                        if a.contains(x) {
                            let n = choose|n: int| 0 <= n < a.len() && a[n] == x;
                            assert(b[n] == x);
                        }
                        if x == key {
                            assert(b[a.len() as int] == x);
                        }
                    }
                }
            }
            i += 1;
        }
        proof {
            self.peers.lemma_keys();
            assert forall|k: Seq<char>| #[trigger]
                text::views(out@).contains(k) <==> (self.peers().dom().contains(k) && forwards(
                    self.peers()[k],
                    subject@,
                    org,
                )) by {
                assert(self.peers.keys().contains(k) <==> self.peers@.dom().contains(k));
            }
        }
        (origin, out)
    }

    /// Judge an inbound replicated event, given whether its signature verifies
    /// against the peer's public key. Nothing is lost by verifying the signature
    /// first: where the peer is unknown or the event unsigned, the answer does not
    /// depend on it.
    pub fn verify_inbound(&self, peer_id: &str, event: &Event, signature_valid: bool) -> (r: Result<
        (),
        FederationError,
    >)
        ensures
            judgement(self.peers(), peer_id@, *event, signature_valid, r),
    {
        match self.peers.get(peer_id) {
            None => Err(
                FederationError::CapDenied(String::from_str("unknown peer ").concat(peer_id)),
            ),
            Some(peer) => {
                if event.signature.is_none() {
                    return Err(
                        FederationError::Signature(
                            String::from_str("replicated event must be signed"),
                        ),
                    );
                }
                if !signature_valid {
                    return Err(
                        FederationError::Signature(
                            String::from_str("ed25519 signature mismatch against peer pubkey"),
                        ),
                    );
                }
                if !any_covers(peer.we_grant_remote.as_slice(), &event.subject) {
                    return Err(
                        FederationError::CapScopeViolation { subject: event.subject.clone() },
                    );
                }
                Ok(())
            },
        }
    }

    /// What follows from the store's answer to the append of a replicated event. A
    /// duplicate counts as received but is not announced again; any other failure
    /// is reported. The cursor of the peer moves to the event.
    pub fn after_append(&self, origin_peer_id: &str, event: &Event, outcome: &AppendOutcome) -> (r:
        Result<ReplicateOutcome, FederationError>)
        ensures
            match r {
                Ok(o) => {
                    &&& outcome is Stored || outcome.is_duplicate()
                    &&& o.announce == (outcome is Stored)
                    &&& o.cursor.peer_id@ == origin_peer_id@
                    &&& o.cursor.subject_pattern@ == event.subject@
                    &&& o.cursor.last_event_id matches Some(id) && id@ == event.id@
                    &&& o.cursor.last_event_time == Some(event.time)
                    &&& o.ack.has_members(set!["ack"@])
                    &&& o.ack.members()["ack"@].is_text(event.id@)
                },
                Err(e) => {
                    &&& *outcome matches AppendOutcome::Failed(m)
                    &&& !outcome.is_duplicate()
                    &&& e matches FederationError::Io(x)
                    &&& x@ == m@
                },
            },
    {
        let announce = match outcome {
            AppendOutcome::Stored => true,
            AppendOutcome::Failed(m) => {
                if !text::contains(m, "UNIQUE") && !text::contains(m, "constraint") {
                    return Err(FederationError::Io(m.clone()));
                }
                false
            },
        };
        let mut members: TextMap<Json> = TextMap::new();
        members.insert("ack", Json::text(&event.id));
        assert(members@.dom() =~= set!["ack"@]);
        Ok(
            ReplicateOutcome {
                cursor: PeerCursor {
                    peer_id: String::from_str(origin_peer_id),
                    subject_pattern: event.subject.clone(),
                    last_event_id: Some(event.id.clone()),
                    last_event_time: Some(event.time),
                },
                announce,
                ack: Json::Object(members),
            },
        )
    }

    /// The answer to a cursor request: the cursor kept for the peer and pattern, or
    /// one without an event where none is kept.
    pub fn cursor_reply(&self, peer_id: &str, subject_pattern: &str, cursor: Option<&PeerCursor>)
        -> (r: Json)
        ensures
            reports_cursor(
                peer_id@,
                subject_pattern@,
                match cursor {
                    Some(c) => Some(*c),
                    None => None,
                },
                r,
            ),
    {
        proof {
            lemma_cursor_names();
        }
        let id_json: Json = match cursor {
            Some(c) => match &c.last_event_id {
                Some(id) => Json::text(id),
                None => Json::Null,
            },
            None => Json::Null,
        };
        let time_json: Json = match cursor {
            Some(c) => match c.last_event_time {
                Some(t) => match format_rfc3339(t) {
                    Some(s) => Json::Text(s),
                    None => Json::Null,
                },
                None => Json::Null,
            },
            None => Json::Null,
        };
        let peer: &str = match cursor {
            Some(c) => c.peer_id.as_str(),
            None => peer_id,
        };
        let pattern: &str = match cursor {
            Some(c) => c.subject_pattern.as_str(),
            None => subject_pattern,
        };
        let mut members: TextMap<Json> = TextMap::new();
        members.insert("peer_id", Json::text(peer));
        members.insert("subject_pattern", Json::text(pattern));
        members.insert("last_event_id", id_json);
        members.insert("last_event_time", time_json);
        assert(members@.dom() =~= set![
            "peer_id"@,
            "subject_pattern"@,
            "last_event_id"@,
            "last_event_time"@,
        ]);
        Json::Object(members)
    }
}

proof fn lemma_cursor_names()
    ensures
        "peer_id"@ != "subject_pattern"@,
        "peer_id"@ != "last_event_id"@,
        "peer_id"@ != "last_event_time"@,
        "subject_pattern"@ != "last_event_id"@,
        "subject_pattern"@ != "last_event_time"@,
        "last_event_id"@ != "last_event_time"@,
{
    reveal_strlit("peer_id");
    reveal_strlit("subject_pattern");
    reveal_strlit("last_event_id");
    reveal_strlit("last_event_time");
    assert("peer_id"@.len() == 7);
    assert("subject_pattern"@.len() == 15);
    assert("last_event_id"@.len() == 13);
    assert("last_event_time"@.len() == 15);
    assert("subject_pattern"@[0] != "last_event_time"@[0]);
}

/// The events with one of the ids, in their order.
pub fn select_events(all: Vec<Event>, ids: &[String]) -> (r: Vec<Event>)
    ensures
        r@ == all@.filter(|e: Event| text::views(ids@).contains(e.id@)),
{
    let ghost keep = |e: Event| text::views(ids@).contains(e.id@);
    let ghost whole = all@;
    let mut rest = all;
    let mut out: Vec<Event> = Vec::new();
    proof {
        reveal(Seq::filter);
        assert(whole.take(0) =~= Seq::<Event>::empty());
        assert(rest@ =~= whole.skip(0));
    }
    let ghost mut n: int = 0;
    while rest.len() > 0
        invariant
            keep == (|e: Event| text::views(ids@).contains(e.id@)),
            0 <= n <= whole.len(),
            rest@ == whole.skip(n),
            out@ == whole.take(n).filter(keep),
        decreases rest.len(),
    {
        proof {
            reveal(Seq::filter);
            assert(whole.take(n + 1).drop_last() =~= whole.take(n));
            assert(whole.take(n + 1).last() == whole[n]);
            assert(rest@[0] == whole[n]);
        }
        let e = rest.remove(0);
        assert(rest@ =~= whole.skip(n + 1));
        if text::among(ids, &e.id) {
            out.push(e);
        }
        proof {
            n = n + 1;
        }
    }
    assert(whole.take(n) =~= whole);
    out
}

/// The stored record of a peer.
pub fn find_peer(rows: &[Peer], peer_id: &str) -> (r: Option<usize>)
    ensures
        match r {
            Some(i) => i < rows@.len() && rows@[i as int].peer_id@ == peer_id@ && forall|j: int|
                0 <= j < i ==> (#[trigger] rows@[j]).peer_id@ != peer_id@,
            None => forall|j: int|
                0 <= j < rows@.len() ==> (#[trigger] rows@[j]).peer_id@ != peer_id@,
        },
{
    let mut i: usize = 0;
    while i < rows.len()
        invariant
            i <= rows@.len(),
            forall|j: int| 0 <= j < i ==> (#[trigger] rows@[j]).peer_id@ != peer_id@,
        decreases rows.len() - i,
    {
        if text::same(&rows[i].peer_id, peer_id) {
            return Some(i);
        }
        i += 1;
    }
    None
}

/// An event is never sent back to the peer that it came from, whatever that peer
/// granted.
pub proof fn law_loop_guard(peer: EnrolledPeer, subject: Seq<char>)
    ensures
        !forwards(peer, subject, peer.peer_id@),
{
}

/// Nothing outside what a peer may send is ever taken from it.
pub proof fn law_scope_is_enforced(
    peers: Map<Seq<char>, EnrolledPeer>,
    peer_id: Seq<char>,
    event: Event,
    signature_valid: bool,
)
    requires
        judgement(peers, peer_id, event, signature_valid, Ok(())),
    ensures
        peers.dom().contains(peer_id),
        event.signature is Some,
        signature_valid,
        covered_by(peers[peer_id].we_grant_remote@, event.subject@),
{
}

/// Which events are sent on to a peer: those that do not come from it, and whose subject a
/// pattern covers that the peer granted to this daemon. What this daemon granted to the peer
/// has no part in it.
pub proof fn law_what_is_sent_on(
    manager: &PeerManager,
    peer: &EnrolledPeer,
    subject: &str,
    origin: &str,
    r: bool,
)
    requires
        call_ensures(PeerManager::should_forward, (manager, peer, subject, origin), r),
    ensures
        r ==> origin@ != peer.peer_id@,
        origin@ != peer.peer_id@ ==> (r <==> exists|i: int|
            0 <= i < peer.remote_grants_us@.len() && glob::glob_matches(
                (#[trigger] peer.remote_grants_us@[i])@,
                subject@,
            )),
{
}

/// An announced event goes to exactly those enrolled peers to which it may be sent on, each
/// once. The origin that it goes with is the one that it was announced with, and this
/// daemon where it was made here.
pub proof fn law_an_event_goes_to_every_peer_that_may_have_it(
    manager: &PeerManager,
    subject: &str,
    announced: &str,
    r: (String, Vec<String>),
    id: &str,
    peer: &EnrolledPeer,
    origin: &str,
    sent: bool,
)
    requires
        call_ensures(PeerManager::fan_out, (manager, subject, announced), r),
        call_ensures(PeerManager::peer, (manager, id), Some(peer)),
        origin@ == r.0@,
        call_ensures(PeerManager::should_forward, (manager, peer, subject, origin), sent),
    ensures
        announced@.len() == 0 ==> r.0@ == manager.local(),
        announced@.len() > 0 ==> r.0@ == announced@,
        text::views(r.1@).no_duplicates(),
        (exists|i: int| 0 <= i < r.1@.len() && (#[trigger] r.1@[i])@ == id@) <==> sent,
{
    let ids = text::views(r.1@);
    if sent {
        assert(ids.contains(id@));
        let i = choose|i: int| 0 <= i < ids.len() && ids[i] == id@;
        assert(r.1@[i]@ == id@);
    }
    if exists|i: int| 0 <= i < r.1@.len() && (#[trigger] r.1@[i])@ == id@ {
        let i = choose|i: int| 0 <= i < r.1@.len() && (#[trigger] r.1@[i])@ == id@;
        assert(ids[i] == id@);
        assert(ids.contains(id@));
    }
}

/// An event is sent to no peer that is not enrolled.
pub proof fn law_a_stranger_gets_nothing(
    manager: &PeerManager,
    subject: &str,
    announced: &str,
    r: (String, Vec<String>),
    id: &str,
    i: int,
)
    requires
        call_ensures(PeerManager::fan_out, (manager, subject, announced), r),
        call_ensures(PeerManager::peer, (manager, id), None),
        0 <= i < r.1@.len(),
    ensures
        r.1@[i]@ != id@,
{
    assert(text::views(r.1@)[i] == r.1@[i]@);
    assert(text::views(r.1@).contains(r.1@[i]@));
}

/// An event is taken from a peer exactly where the peer is enrolled, the event is signed, the
/// signature is the peer's, and a pattern that this daemon granted to the peer covers the
/// subject. What the peer granted to this daemon has no part in it. A subject outside the
/// grant is refused as such.
pub proof fn law_what_is_taken_from_a_peer(
    manager: &PeerManager,
    peer_id: &str,
    found: Option<&EnrolledPeer>,
    event: &Event,
    signature_valid: bool,
    r: Result<(), FederationError>,
)
    requires
        call_ensures(PeerManager::peer, (manager, peer_id), found),
        call_ensures(PeerManager::verify_inbound, (manager, peer_id, event, signature_valid), r),
    ensures
        found is None ==> (r matches Err(e) && e is CapDenied),
        found matches Some(peer) ==> (r is Ok <==> event.signature is Some && signature_valid
            && exists|i: int|
            0 <= i < peer.we_grant_remote@.len() && glob::glob_matches(
                (#[trigger] peer.we_grant_remote@[i])@,
                event.subject@,
            )),
        found is Some && (event.signature is None || !signature_valid) ==> (r matches Err(e)
            && e is Signature),
        found is Some && event.signature is Some && signature_valid && r is Err ==> (
        r matches Err(FederationError::CapScopeViolation { subject }) && subject@
            == event.subject@),
{
}

/// An event that was stored, or was there already, moves the cursor of the peer that it came
/// from to it and is acknowledged by its id; only one that is new is announced. Any other
/// failure of the store is an error, and moves nothing.
pub proof fn law_an_event_is_announced_once(
    manager: &PeerManager,
    origin: &str,
    event: &Event,
    outcome: &AppendOutcome,
    r: Result<ReplicateOutcome, FederationError>,
)
    requires
        call_ensures(PeerManager::after_append, (manager, origin, event, outcome), r),
    ensures
        outcome is Stored ==> (r matches Ok(o) && o.announce),
        *outcome matches AppendOutcome::Failed(m) ==> (r matches Ok(o) ==> !o.announce),
        *outcome matches AppendOutcome::Failed(m) ==> (r is Ok <==> (exists|i: int|
            text::occurs_at(m@, "UNIQUE"@, i)) || (exists|i: int|
            text::occurs_at(m@, "constraint"@, i))),
        r matches Ok(o) ==> {
            &&& o.cursor.peer_id@ == origin@
            &&& o.cursor.subject_pattern@ == event.subject@
            &&& o.cursor.last_event_id matches Some(id) && id@ == event.id@
            &&& o.cursor.last_event_time == Some(event.time)
            &&& o.ack.members()["ack"@].is_text(event.id@)
        },
{
}

/// What a peer is told of a cursor is what the last event that it sent left there.
pub proof fn law_the_cursor_tells_the_last_event(
    manager: &PeerManager,
    origin: &str,
    event: &Event,
    outcome: &AppendOutcome,
    left: ReplicateOutcome,
    cursor: &PeerCursor,
    peer_id: &str,
    subject_pattern: &str,
    reply: Json,
)
    requires
        call_ensures(PeerManager::after_append, (manager, origin, event, outcome), Ok(left)),
        *cursor == left.cursor,
        call_ensures(
            PeerManager::cursor_reply,
            (manager, peer_id, subject_pattern, Some(cursor)),
            reply,
        ),
    ensures
        reply.members()["peer_id"@].is_text(origin@),
        reply.members()["subject_pattern"@].is_text(event.subject@),
        reply.members()["last_event_id"@].is_text(event.id@),
        outside::four_digit_year(event.time) ==> (reply.members()["last_event_time"@] matches Json::Text(
            s,
        ) && outside::rfc3339_time(s@) == outside::reads_as_time(event.time)),
{
}

/// A peer that was restored from the store may be sent, and may send, exactly what the
/// patterns on its row cover.
pub proof fn law_a_restored_peer_keeps_its_grants(
    manager: &PeerManager,
    row: Peer,
    peer: EnrolledPeer,
    restored: &EnrolledPeer,
    subject: &str,
    origin: &str,
    sent: bool,
)
    requires
        call_ensures(enrolled_from, (row,), peer),
        *restored == peer,
        call_ensures(PeerManager::should_forward, (manager, restored, subject, origin), sent),
    ensures
        peer.peer_id@ == row.peer_id@,
        peer.remote_pubkey@ == row.public_key@,
        sent <==> origin@ != row.peer_id@ && exists|i: int|
            0 <= i < row.granted_subjects@.len() && glob::glob_matches(
                (#[trigger] row.granted_subjects@[i])@,
                subject@,
            ),
        text::views(peer.we_grant_remote@) == text::views(row.granted_subjects@),
        peer.cap_from_remote is None && peer.cap_for_remote is None,
{
    let a = text::views(peer.remote_grants_us@);
    let b = text::views(row.granted_subjects@);
    assert(a.len() == b.len());
    if covered_by(peer.remote_grants_us@, subject@) {
        let i = choose|i: int|
            0 <= i < peer.remote_grants_us@.len() && glob::glob_matches(
                (#[trigger] peer.remote_grants_us@[i])@,
                subject@,
            );
        assert(a[i] == peer.remote_grants_us@[i]@);
        assert(b[i] == row.granted_subjects@[i]@);
    }
    if covered_by(row.granted_subjects@, subject@) {
        let i = choose|i: int|
            0 <= i < row.granted_subjects@.len() && glob::glob_matches(
                (#[trigger] row.granted_subjects@[i])@,
                subject@,
            );
        assert(a[i] == peer.remote_grants_us@[i]@);
        assert(b[i] == row.granted_subjects@[i]@);
    }
}

/// A fetch brings exactly the events that were asked for by id.
pub proof fn law_a_fetch_brings_what_was_asked_for(
    all: Vec<Event>,
    ids: &[String],
    r: Vec<Event>,
    e: Event,
)
    requires
        call_ensures(select_events, (all, ids), r),
    ensures
        r@.contains(e) <==> all@.contains(e) && exists|i: int|
            0 <= i < ids@.len() && (#[trigger] ids@[i])@ == e.id@,
{
    let views = text::views(ids@);
    let keep = |e: Event| views.contains(e.id@);
    assert(r@ == all@.filter(keep));
    event::lemma_filtered(all@, keep, e);
    if views.contains(e.id@) {
        let i = choose|i: int| 0 <= i < views.len() && views[i] == e.id@;
        assert(ids@[i]@ == e.id@);
    }
    if exists|i: int| 0 <= i < ids@.len() && (#[trigger] ids@[i])@ == e.id@ {
        let i = choose|i: int| 0 <= i < ids@.len() && (#[trigger] ids@[i])@ == e.id@;
        assert(views[i] == e.id@);
    }
}

/// A subject is covered exactly where one of the patterns covers it; so a further pattern never
/// takes a subject away.
pub proof fn law_more_patterns_cover_more(
    patterns: &[String],
    more: &[String],
    subject: &str,
    a: bool,
    b: bool,
    i: int,
)
    requires
        call_ensures(any_covers, (patterns, subject), a),
        call_ensures(any_covers, (more, subject), b),
        patterns@.is_prefix_of(more@),
    ensures
        a ==> b,
        patterns@.len() == 0 ==> !a,
        0 <= i < patterns@.len() && glob::glob_matches(patterns@[i]@, subject@) ==> a,
{
    if a {
        let k = choose|k: int|
            0 <= k < patterns@.len() && glob::glob_matches((#[trigger] patterns@[k])@, subject@);
        assert(more@.take(patterns@.len() as int)[k] == patterns@[k]);
        assert(more@[k] == patterns@[k]);
        assert(covered_by(more@, subject@));
    }
    if 0 <= i < patterns@.len() && glob::glob_matches(patterns@[i]@, subject@) {
        assert(covered_by(patterns@, subject@));
    }
}

} // verus!
