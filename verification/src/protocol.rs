//! The daemon's side of the wire protocol: what is to be done for each request, and
//! what is answered.

use crate::cap::engine;
use crate::cap::engine::CapEngine;
use crate::cap::error::CapError;
use crate::cap::glob;
use crate::cap::glob::glob_match_subject;
use crate::cap::operation::Operation;
use crate::json::Json;
use crate::outside;
use crate::outside::parse_rfc3339;
use crate::text;
use crate::textmap::TextMap;
use crate::time::Timestamp;
use crate::cap::laws;
use crate::cap::datalog;
use vstd::prelude::*;

verus! {

/// A request of a client or of a peer.
#[derive(Debug)]
pub enum Request {
    /// Ask whether the daemon is there.
    Ping,
    /// Append an event.
    Pub {
        /// Subject of the event.
        subject: String,
        /// Type of the event.
        event_type: String,
        /// Payload of the event.
        data: Json,
    },
    /// Stream the events whose subject matches.
    Sub {
        /// Pattern of the subjects.
        subject_pattern: String,
    },
    /// Read a view.
    Query {
        /// Subject, key or search text, as the view has it.
        subject_pattern: String,
        /// Name of the view.
        view: String,
    },
    /// Mint a capability.
    Grant {
        /// Pattern of the subjects.
        subject: String,
        /// Names of the operations.
        operations: Vec<String>,
        /// Expiry as RFC 3339 text.
        expiry: Option<String>,
    },
    /// Revoke a capability.
    Revoke {
        /// The capability's id.
        cap_id: String,
    },
    /// A peer introduces itself.
    PeerHello {
        /// The peer's id.
        peer_id: String,
        /// The peer's public key.
        public_key: Vec<u8>,
        /// The capability that the peer offers.
        offered_cap: String,
        /// The patterns that the peer shares.
        subjects: Vec<String>,
    },
    /// A peer sends an event.
    PeerReplicate {
        /// The peer that the event comes from.
        origin_peer_id: String,
        /// The event.
        event: Json,
    },
    /// A peer asks how far its events have come.
    PeerCursorRequest {
        /// The peer's id.
        peer_id: String,
        /// The pattern that it asks about.
        subject_pattern: String,
    },
    /// A peer asks for events by id.
    PeerFetchEvents {
        /// The ids.
        event_ids: Vec<String>,
    },
    /// An answer to a hello.
    PeerWelcome,
    /// An acknowledgement.
    PeerAck,
    /// An answer to a cursor request.
    PeerCursor,
}

/// An answer of the daemon.
#[derive(Debug)]
pub enum Response {
    /// A result.
    Data {
        /// The result.
        data: Json,
    },
    /// An error.
    Error {
        /// The message.
        message: String,
    },
    /// An event of a subscription.
    Event {
        /// The event.
        event: Json,
    },
    /// The answer to a ping.
    Pong,
    /// The end of a subscription.
    EndOfStream,
}

impl Response {
    /// The answer is an error with this message.
    pub open spec fn fails(self, m: Seq<char>) -> bool {
        self matches Response::Error { message } && message@ == m
    }

    /// An error.
    pub fn error(message: &str) -> (r: Self)
        ensures
            r.fails(message@),
    {
        Response::Error { message: String::from_str(message) }
    }

    /// The answer that a handler's outcome comes to: its data, or its error.
    pub fn from_outcome(outcome: Result<Json, String>) -> (r: Self)
        ensures
            match outcome {
                Ok(data) => r == Response::Data { data },
                Err(m) => r.fails(m@),
            },
    {
        match outcome {
            Ok(data) => Response::Data { data },
            Err(message) => Response::Error { message },
        }
    }
}

/// What the daemon does next for a request.
#[derive(Debug)]
pub enum Step {
    /// Answer at once.
    Reply(Response),
    /// Append the event and announce it, then answer with it.
    Publish {
        /// Subject of the event.
        subject: String,
        /// Type of the event.
        event_type: String,
        /// Payload of the event.
        data: Json,
    },
    /// Stream matching events until the client leaves; the connection ends with it.
    Stream {
        /// Pattern of the subjects.
        pattern: String,
    },
    /// Answer with the events at and below a subject.
    ReadLog {
        /// The subject.
        subject: String,
    },
    /// Answer with the latest value of a key.
    ReadKey {
        /// The key.
        key: String,
    },
    /// Answer with the events that a text search finds.
    Search {
        /// The text.
        text: String,
    },
    /// Judge the hello of a peer.
    Hello {
        /// The peer's id.
        peer_id: String,
        /// The peer's public key.
        public_key: Vec<u8>,
        /// The capability that the peer offers.
        offered_cap: String,
        /// The patterns that the peer shares.
        subjects: Vec<String>,
    },
    /// Take in an event from a peer.
    Replicate {
        /// The peer that the event comes from.
        origin_peer_id: String,
        /// The event.
        event: Json,
    },
    /// Answer with the cursor of a peer.
    Cursor {
        /// The peer's id.
        peer_id: String,
        /// The pattern that it asks about.
        subject_pattern: String,
    },
    /// Answer with events by id.
    Fetch {
        /// The ids.
        event_ids: Vec<String>,
    },
}

impl Step {
    /// The connection stays open for further requests.
    pub open spec fn keeps_connection(self) -> bool {
        !(self is Stream)
    }

    /// Whether the connection stays open for further requests.
    pub fn connection_continues(&self) -> (r: bool)
        ensures
            r == self.keeps_connection(),
    {
        match self {
            Step::Stream { .. } => false,
            _ => true,
        }
    }
}

/// The names of operations that a grant request may have, read.
pub open spec fn granted_operations(names: Seq<String>, ops: Seq<Operation>) -> bool {
    &&& ops.len() == names.len()
    &&& forall|i: int|
        0 <= i < names.len() ==> (#[trigger] ops[i]).name() == names[i]@ && ops[i].grantable()
}

/// The name is not one of an operation that can be granted.
pub open spec fn not_grantable(name: Seq<char>) -> bool {
    forall|op: Operation| op.grantable() ==> op.name() != name
}

/// The first name that cannot be granted stands at `i`.
pub open spec fn first_unknown(names: Seq<String>, i: int) -> bool {
    &&& 0 <= i < names.len()
    &&& not_grantable(names[i]@)
    &&& forall|j: int| 0 <= j < i ==> !not_grantable((#[trigger] names[j])@)
}

/// Reads the operations of a grant request; the first unknown name is refused.
pub fn parse_grant_operations(names: &[String]) -> (r: Result<Vec<Operation>, String>)
    ensures
        match r {
            Ok(ops) => granted_operations(names@, ops@),
            Err(m) => exists|i: int| #[trigger]
                first_unknown(names@, i) && m@ == "unknown operation: "@ + names@[i]@,
        },
{
    let mut ops: Vec<Operation> = Vec::new();
    let mut i: usize = 0;
    while i < names.len()
        invariant
            i <= names@.len(),
            ops@.len() == i,
            forall|j: int|
                0 <= j < i ==> (#[trigger] ops@[j]).name() == names@[j]@ && ops@[j].grantable(),
        decreases names.len() - i,
    {
        match Operation::from_grant_name(&names[i]) {
            Some(op) => {
                ops.push(op);
            },
            None => {
                proof {
                    assert forall|j: int| 0 <= j < i implies !not_grantable(
                        (#[trigger] names@[j])@,
                    ) by {
                        assert(ops@[j].name() == names@[j]@);
                    }
                    assert(first_unknown(names@, i as int));
                }
                return Err(String::from_str("unknown operation: ").concat(&names[i]));
            },
        }
        i += 1;
    }
    Ok(ops)
}

/// What the answer to a grant request says.
pub open spec fn grant_answer(
    root: Seq<u8>,
    subject: Seq<char>,
    names: Seq<String>,
    expiry: Option<String>,
    r: Response,
) -> bool {
    ||| exists|i: int| #[trigger]
        first_unknown(names, i) && r.fails("unknown operation: "@ + names[i]@)
    ||| exists|ops: Seq<Operation>| #[trigger]
        granted_operations(names, ops) && (match expiry_read(expiry) {
            Err(m) => r.fails(m),
            Ok(expires) => exists|minted: Result<Vec<u8>, CapError>| #[trigger]
                engine::minted(
                    root,
                    minted,
                    subject,
                    ops,
                    expires,
                    None,
                    None,
                    None,
                    Seq::empty(),
                ) && answers_mint(minted, r),
        })
}

/// The expiry of a grant request, read.
pub open spec fn expiry_read(expiry: Option<String>) -> Result<Option<Timestamp>, Seq<char>> {
    match expiry {
        None => Ok(None),
        Some(s) => match outside::rfc3339_time(s@) {
            Ok(t) => Ok(Some(t)),
            Err(m) => Err(m),
        },
    }
}

/// The answer holds the minted token in base64, or the error of the mint.
pub open spec fn answers_mint(minted: Result<Vec<u8>, CapError>, r: Response) -> bool {
    match minted {
        Ok(t) => r matches Response::Data { data } && data.has_members(set!["token"@])
            && data.members()["token"@].is_text(outside::base64_text(t@))
            && outside::base64_bytes(outside::base64_text(t@)) == outside::reads_as(t@),
        Err(e) => r is Error && (e is Biscuit || r.fails(e.message())),
    }
}

/// Handle a grant request: mint a capability token.
pub fn handle_grant(
    cap_engine: &CapEngine,
    subject: &str,
    operations: &[String],
    expiry: &Option<String>,
) -> (r: Response)
    ensures
        grant_answer(cap_engine.root(), subject@, operations@, *expiry, r),
{
    let ops = match parse_grant_operations(operations) {
        Ok(ops) => ops,
        Err(m) => {
            return Response::Error { message: m };
        },
    };
    assert(granted_operations(operations@, ops@));
    let expires: Option<Timestamp> = match expiry {
        None => None,
        Some(s) => match parse_rfc3339(s) {
            Ok(t) => Some(t),
            Err(m) => {
                return Response::Error { message: m };
            },
        },
    };
    let minted = cap_engine.mint(subject, ops.as_slice(), expires, None, None);
    let ghost m0 = minted;
    assert(engine::minted(
        cap_engine.root(),
        m0,
        subject@,
        ops@,
        expires,
        None,
        None,
        None,
        Seq::empty(),
    ));
    let answer = match minted {
        Ok(t) => {
            let encoded = CapEngine::token_to_base64(t.as_slice());
            let mut members: TextMap<Json> = TextMap::new();
            members.insert("token", Json::Text(encoded));
            assert(members@.dom() =~= set!["token"@]);
            Response::Data { data: Json::Object(members) }
        },
        Err(e) => Response::Error { message: e.to_string() },
    };
    assert(answers_mint(m0, answer));
    answer
}

/// What is done for a request.
pub open spec fn next_step(root: Seq<u8>, request: Request, federation: bool, s: Step) -> bool {
    let off = s matches Step::Reply(r) && r.fails("federation not enabled on this daemon"@);
    match request {
        Request::Ping => s == Step::Reply(Response::Pong),
        Request::Pub { subject, event_type, data } => s == (Step::Publish {
            subject,
            event_type,
            data,
        }),
        Request::Sub { subject_pattern } => s == (Step::Stream { pattern: subject_pattern }),
        Request::Query { subject_pattern, view } => if view@ == "log"@ {
            s == (Step::ReadLog { subject: subject_pattern })
        } else if view@ == "kv"@ {
            s == (Step::ReadKey { key: subject_pattern })
        } else if view@ == "fts"@ {
            s == (Step::Search { text: subject_pattern })
        } else {
            s matches Step::Reply(r) && r.fails(
                "unknown view: "@ + view@ + ". Supported: log, kv, fts"@,
            )
        },
        Request::Grant { subject, operations, expiry } => s matches Step::Reply(r) && grant_answer(
            root,
            subject@,
            operations@,
            expiry,
            r,
        ),
        Request::Revoke { .. } => s matches Step::Reply(r) && r.fails(
            "REVOKE is not implemented, scheduled for v0.2"@,
        ),
        Request::PeerHello { peer_id, public_key, offered_cap, subjects } => if federation {
            s == (Step::Hello { peer_id, public_key, offered_cap, subjects })
        } else {
            off
        },
        Request::PeerReplicate { origin_peer_id, event } => if federation {
            s == (Step::Replicate { origin_peer_id, event })
        } else {
            off
        },
        Request::PeerCursorRequest { peer_id, subject_pattern } => if federation {
            s == (Step::Cursor { peer_id, subject_pattern })
        } else {
            off
        },
        Request::PeerFetchEvents { event_ids } => if federation {
            s == (Step::Fetch { event_ids })
        } else {
            off
        },
        Request::PeerWelcome => s matches Step::Reply(r) && r.fails(response_shaped()),
        Request::PeerAck => s matches Step::Reply(r) && r.fails(response_shaped()),
        Request::PeerCursor => s matches Step::Reply(r) && r.fails(response_shaped()),
    }
}

/// The refusal of an answer that comes as a request.
pub open spec fn response_shaped() -> Seq<char> {
    "PeerWelcome/PeerAck/PeerCursor are response variants, not requests"@
}

fn federation_off() -> (s: Step)
    ensures
        s matches Step::Reply(r) && r.fails("federation not enabled on this daemon"@),
{
    Step::Reply(Response::error("federation not enabled on this daemon"))
}

fn not_a_request() -> (s: Step)
    ensures
        s matches Step::Reply(r) && r.fails(response_shaped()),
{
    Step::Reply(
        Response::error("PeerWelcome/PeerAck/PeerCursor are response variants, not requests"),
    )
}

/// Decides what to do for a request. Requests of peers are served only where
/// federation is on.
pub fn dispatch(cap_engine: &CapEngine, request: Request, federation: bool) -> (s: Step)
    ensures
        next_step(cap_engine.root(), request, federation, s),
{
    match request {
        Request::Ping => Step::Reply(Response::Pong),
        Request::Pub { subject, event_type, data } => Step::Publish { subject, event_type, data },
        Request::Sub { subject_pattern } => Step::Stream { pattern: subject_pattern },
        Request::Query { subject_pattern, view } => {
            if text::same(&view, "log") {
                Step::ReadLog { subject: subject_pattern }
            } else if text::same(&view, "kv") {
                Step::ReadKey { key: subject_pattern }
            } else if text::same(&view, "fts") {
                Step::Search { text: subject_pattern }
            } else {
                Step::Reply(
                    Response::Error {
                        message: String::from_str("unknown view: ").concat(&view).concat(
                            ". Supported: log, kv, fts",
                        ),
                    },
                )
            }
        },
        Request::Grant { subject, operations, expiry } => Step::Reply(
            handle_grant(cap_engine, &subject, operations.as_slice(), &expiry),
        ),
        Request::Revoke { cap_id } => Step::Reply(
            Response::error("REVOKE is not implemented, scheduled for v0.2"),
        ),
        Request::PeerHello { peer_id, public_key, offered_cap, subjects } => if federation {
            Step::Hello { peer_id, public_key, offered_cap, subjects }
        } else {
            federation_off()
        },
        Request::PeerReplicate { origin_peer_id, event } => if federation {
            Step::Replicate { origin_peer_id, event }
        } else {
            federation_off()
        },
        Request::PeerCursorRequest { peer_id, subject_pattern } => if federation {
            Step::Cursor { peer_id, subject_pattern }
        } else {
            federation_off()
        },
        Request::PeerFetchEvents { event_ids } => if federation {
            Step::Fetch { event_ids }
        } else {
            federation_off()
        },
        Request::PeerWelcome => not_a_request(),
        Request::PeerAck => not_a_request(),
        Request::PeerCursor => not_a_request(),
    }
}

/// Check if a subject matches a pattern, as the patterns of capabilities do.
pub fn subject_matches_pattern(subject: &str, pattern: &str) -> (r: bool)
    ensures
        r == glob::glob_matches(pattern@, subject@),
{
    glob_match_subject(pattern, subject)
}

/// The request is one that only peers make.
pub open spec fn asks_as_peer(request: Request) -> bool {
    request is PeerHello || request is PeerReplicate || request is PeerCursorRequest
        || request is PeerFetchEvents
}

/// The step goes to the federation: it judges a hello, takes in an event, or reads a cursor or
/// events for a peer.
pub open spec fn reaches_peers(s: Step) -> bool {
    s is Hello || s is Replicate || s is Cursor || s is Fetch
}

/// With federation on, each of the four requests of peers leads to its own step, with the
/// request's own fields, and to no error; with federation off, each of them is answered with
/// an error, and no request at all reaches the peers.
pub proof fn law_peers_are_served_only_with_federation(
    cap_engine: &CapEngine,
    request: Request,
    federation: bool,
    s: Step,
)
    requires
        call_ensures(dispatch, (cap_engine, request, federation), s),
    ensures
        reaches_peers(s) <==> federation && asks_as_peer(request),
        asks_as_peer(request) && !federation ==> (s matches Step::Reply(r) && r is Error),
        federation ==> (request matches Request::PeerHello {
            peer_id,
            public_key,
            offered_cap,
            subjects,
        } ==> s == (Step::Hello { peer_id, public_key, offered_cap, subjects })),
        federation ==> (request matches Request::PeerReplicate { origin_peer_id, event } ==> s == (
        Step::Replicate { origin_peer_id, event })),
        federation ==> (request matches Request::PeerCursorRequest { peer_id, subject_pattern }
            ==> s == (Step::Cursor { peer_id, subject_pattern })),
        federation ==> (request matches Request::PeerFetchEvents { event_ids } ==> s == (
        Step::Fetch { event_ids })),
{
}

/// What a client's request leads to does not hang on the federation: it carries the request's
/// own fields. An event is published as it was sent; a subscription streams its own pattern;
/// of the three views each leads to its own way of reading, of the subject that was asked for;
/// and a view of any other name, a revocation and a message that is itself an answer are
/// refused.
pub proof fn law_clients_are_served_as_they_ask(
    cap_engine: &CapEngine,
    request: Request,
    federation: bool,
    s: Step,
)
    requires
        call_ensures(dispatch, (cap_engine, request, federation), s),
    ensures
        request is Ping <==> s == Step::Reply(Response::Pong),
        request matches Request::Pub { subject, event_type, data } ==> s == (Step::Publish {
            subject,
            event_type,
            data,
        }),
        s is Publish ==> request is Pub,
        request matches Request::Sub { subject_pattern } ==> s == (Step::Stream {
            pattern: subject_pattern,
        }),
        s is Stream ==> request is Sub,
        s matches Step::ReadLog { subject } ==> (request matches Request::Query {
            subject_pattern,
            view,
        } && view@ == "log"@ && subject == subject_pattern),
        s matches Step::ReadKey { key } ==> (request matches Request::Query {
            subject_pattern,
            view,
        } && view@ == "kv"@ && key == subject_pattern),
        s matches Step::Search { text } ==> (request matches Request::Query {
            subject_pattern,
            view,
        } && view@ == "fts"@ && text == subject_pattern),
        request matches Request::Query { subject_pattern, view } ==> ((s matches Step::Reply(r)
            && r is Error) <==> view@ != "log"@ && view@ != "kv"@ && view@ != "fts"@),
        request is Revoke || request is PeerWelcome || request is PeerAck || request is PeerCursor
            ==> (s matches Step::Reply(r) && r is Error),
{
    reveal_strlit("log");
    reveal_strlit("kv");
    reveal_strlit("fts");
    assert("log"@.len() == 3 && "kv"@.len() == 2 && "fts"@.len() == 3);
    assert("log"@[0] == 'l' && "fts"@[0] == 'f');
}

/// Every request is answered on a connection that stays open, but for a
/// subscription, which ends it.
pub proof fn law_only_subscriptions_end_the_connection(
    root: Seq<u8>,
    request: Request,
    federation: bool,
    s: Step,
)
    requires
        next_step(root, request, federation, s),
    ensures
        s.keeps_connection() <==> !(request is Sub),
{
}

/// The operations of a grant request are read name by name: where every name is one that can be
/// granted, as many operations come as there are names, each of its name; and where one is not,
/// nothing is granted.
pub proof fn law_operations_are_read_by_name(
    names: &[String],
    r: Result<Vec<Operation>, String>,
    i: int,
)
    requires
        call_ensures(parse_grant_operations, (names,), r),
        0 <= i < names@.len(),
    ensures
        r matches Ok(ops) ==> ops@.len() == names@.len() && ops@[i].name() == names@[i]@,
        r is Ok ==> names@[i]@ == "read"@ || names@[i]@ == "write"@ || names@[i]@ == "subjects"@
            || names@[i]@ == "search"@ || names@[i]@ == "admin"@,
        (forall|k: int|
            0 <= k < names@.len() ==> (#[trigger] names@[k])@ == "read"@ || names@[k]@ == "write"@
                || names@[k]@ == "subjects"@ || names@[k]@ == "search"@ || names@[k]@
                == "admin"@) ==> r is Ok,
{
    match r {
        Ok(ops) => {
            assert(ops@[i].name() == names@[i]@ && ops@[i].grantable());
        },
        Err(m) => {
            let k = choose|k: int| #[trigger]
                first_unknown(names@, k) && m@ == "unknown operation: "@ + names@[k]@;
            assert(not_grantable(names@[k]@));
            assert(Operation::Read.grantable() && Operation::Write.grantable());
            assert(Operation::Subjects.grantable() && Operation::Search.grantable());
            assert(Operation::Admin.grantable());
            assert(Operation::Read.name() == "read"@ && Operation::Write.name() == "write"@);
            assert(Operation::Subjects.name() == "subjects"@);
            assert(Operation::Search.name() == "search"@ && Operation::Admin.name() == "admin"@);
        },
    }
}

/// A grant that is answered with a token is answered with one that is good for what was asked:
/// the operations that were named, on what the pattern covers, and, where no expiry was asked
/// for, at any time. Nothing else is accepted of it. This is said of texts that need no
/// escapes.
pub proof fn law_a_grant_gives_what_was_asked(
    cap_engine: &CapEngine,
    subject: String,
    names: Vec<String>,
    federation: bool,
    data: Json,
    sent: &str,
    decoded: Vec<u8>,
    token: &[u8],
    asked: &str,
    operation: Operation,
    now: i64,
    j: engine::Judgement,
)
    requires
        call_ensures(
            dispatch,
            (
                cap_engine,
                (Request::Grant { subject, operations: names, expiry: None }),
                federation,
            ),
            Step::Reply(Response::Data { data }),
        ),
        data.members()["token"@].is_text(sent@),
        call_ensures(CapEngine::token_from_base64, (sent,), Ok(decoded)),
        token@ == decoded@,
        datalog::plain(subject@) && datalog::plain(asked@) && datalog::safe(asked@),
        call_ensures(CapEngine::judge_at, (cap_engine, token, asked, operation, None, now), j),
    ensures
        j is Unsettled || (j is Accepted <==> glob::glob_matches(subject@, asked@) && exists|i: int|
            0 <= i < names@.len() && (#[trigger] names@[i])@ == operation.name()),
{
    let root = cap_engine.root();
    let r = Response::Data { data };
    assert(grant_answer(root, subject@, names@, None, r));
    let ops = choose|ops: Seq<Operation>| #[trigger]
        granted_operations(names@, ops) && exists|minted: Result<Vec<u8>, CapError>| #[trigger]
            engine::minted(
                root,
                minted,
                subject@,
                ops,
                None,
                None,
                None,
                None,
                Seq::empty(),
            ) && answers_mint(minted, r);
    let minted = choose|minted: Result<Vec<u8>, CapError>| #[trigger]
        engine::minted(root, minted, subject@, ops, None, None, None, None, Seq::empty())
            && answers_mint(minted, r);
    let t = minted->Ok_0;
    assert(t@ == token@);
    let g = laws::lemma_minted_grant(
        root,
        t,
        subject@,
        ops,
        None,
        None,
        None,
        None,
        Seq::empty(),
    );
    laws::lemma_plain_grant_is_served(
        root,
        token@,
        g,
        datalog::request_of(now, asked@, operation, None),
        j,
    );
    Operation::law_names_are_distinct();
    if ops.contains(operation) {
        let i = choose|i: int| 0 <= i < ops.len() && ops[i] == operation;
        assert(names@[i]@ == operation.name());
    }
    if exists|i: int| 0 <= i < names@.len() && (#[trigger] names@[i])@ == operation.name() {
        let i = choose|i: int| 0 <= i < names@.len() && (#[trigger] names@[i])@ == operation.name();
        assert(ops[i].name() == operation.name());
        assert(ops[i] == operation);
    }
}

/// The patterns of subscriptions cover what the patterns of capabilities cover.
pub proof fn law_one_kind_of_pattern(subject: &str, pattern: &str, a: bool, b: bool)
    requires
        call_ensures(subject_matches_pattern, (subject, pattern), a),
        call_ensures(glob_match_subject, (pattern, subject), b),
    ensures
        a == b,
{
}

/// A grant with an expiry gives a token that is refused after that second, and one whose expiry
/// cannot be read gives none.
pub proof fn law_a_grant_expires_as_asked(
    cap_engine: &CapEngine,
    subject: String,
    names: Vec<String>,
    expiry: String,
    federation: bool,
    s: Step,
    sent: &str,
    decoded: Vec<u8>,
    token: &[u8],
    asked: &str,
    operation: Operation,
    now: i64,
)
    requires
        call_ensures(
            dispatch,
            (
                cap_engine,
                (Request::Grant { subject, operations: names, expiry: Some(expiry) }),
                federation,
            ),
            s,
        ),
        s matches Step::Reply(Response::Data { data }) ==> data.members()["token"@].is_text(sent@)
            && token@ == decoded@ && call_ensures(
            CapEngine::token_from_base64,
            (sent,),
            Ok(decoded),
        ) && call_ensures(
            CapEngine::judge_at,
            (cap_engine, token, asked, operation, None, now),
            engine::Judgement::Accepted,
        ),
    ensures
        outside::rfc3339_time(expiry@) is Err ==> (s matches Step::Reply(r) && r is Error),
        s matches Step::Reply(Response::Data { data }) ==> (outside::rfc3339_time(
            expiry@,
        ) matches Ok(t) && now <= t.secs),
{
    if let Step::Reply(r) = s {
        if let Response::Data { data } = r {
            let root = cap_engine.root();
            let t = outside::rfc3339_time(expiry@)->Ok_0;
            let ops = choose|ops: Seq<Operation>| #[trigger]
                granted_operations(names@, ops) && exists|minted: Result<Vec<u8>, CapError>| #[trigger]
                    engine::minted(
                        root,
                        minted,
                        subject@,
                        ops,
                        Some(t),
                        None,
                        None,
                        None,
                        Seq::empty(),
                    ) && answers_mint(minted, r);
            let minted = choose|minted: Result<Vec<u8>, CapError>| #[trigger]
                engine::minted(
                    root,
                    minted,
                    subject@,
                    ops,
                    Some(t),
                    None,
                    None,
                    None,
                    Seq::empty(),
                ) && answers_mint(minted, r);
            let m = minted->Ok_0;
            assert(m@ == token@);
            let g = laws::lemma_minted_grant(
                root,
                m,
                subject@,
                ops,
                Some(t),
                None,
                None,
                None,
                Seq::empty(),
            );
            let q = datalog::request_of(now, asked@, operation, None);
            assert(engine::allowed(root, token@, q));
            assert(g.permits(q));
        }
    }
}

} // verus!
