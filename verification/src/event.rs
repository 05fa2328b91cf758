//! Events and what the event log keeps about peers.

use crate::json::Json;
use crate::time::Timestamp;
use vstd::prelude::*;

verus! {

/// An event of the log.
#[derive(Debug)]
pub struct Event {
    /// Unique id, in the hyphenated lowercase form of a UUID.
    pub id: String,
    /// Where the event comes from.
    pub source: String,
    /// The subject path.
    pub subject: String,
    /// The event type.
    pub event_type: String,
    /// When the event was made.
    pub time: Timestamp,
    /// The payload.
    pub data: Json,
    /// Ids of the events that this one builds on.
    pub parents: Vec<String>,
    /// The signature of the author, in hexadecimal.
    pub signature: Option<String>,
}

/// What the store keeps of a peer.
#[derive(Debug)]
pub struct Peer {
    /// Local id of the peer.
    pub peer_id: String,
    /// Where to dial the peer; `inbound:` and its key where it cannot be dialed.
    pub url: String,
    /// The peer's Ed25519 public key.
    pub public_key: Vec<u8>,
    /// The subject patterns shared with the peer.
    pub granted_subjects: Vec<String>,
    /// Whether the peer was accepted without an operator.
    pub auto_accepted: bool,
}

/// How far the replication from a peer has come.
#[derive(Debug)]
pub struct PeerCursor {
    /// The peer.
    pub peer_id: String,
    /// The subject pattern that the cursor is about.
    pub subject_pattern: String,
    /// The last event received.
    pub last_event_id: Option<String>,
    /// The time of the last event received.
    pub last_event_time: Option<Timestamp>,
}

/// What a filter keeps is what was there and passes.
pub proof fn lemma_filtered(s: Seq<Event>, keep: spec_fn(Event) -> bool, e: Event)
    ensures
        s.filter(keep).contains(e) <==> s.contains(e) && keep(e),
    decreases s.len(),
{
    reveal(Seq::filter);
    if s.len() > 0 {
        let init = s.drop_last();
        lemma_filtered(init, keep, e);
        let kept = init.filter(keep);
        assert(s =~= init.push(s.last()));
        if init.contains(e) {
            let i = choose|i: int| 0 <= i < init.len() && init[i] == e;
            assert(s[i] == e);
        }
        if s.contains(e) && s.last() != e {
            let i = choose|i: int| 0 <= i < s.len() && s[i] == e;
            assert(init[i] == e);
        }
        if keep(s.last()) {
            let all = kept.push(s.last());
            if kept.contains(e) {
                let i = choose|i: int| 0 <= i < kept.len() && kept[i] == e;
                assert(all[i] == e);
            }
            if all.contains(e) && e != s.last() {
                let i = choose|i: int| 0 <= i < all.len() && all[i] == e;
                assert(kept[i] == e);
            }
            assert(all[kept.len() as int] == s.last());
            assert(s[s.len() - 1] == s.last());
        }
    }
}

} // verus!
