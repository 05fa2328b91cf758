//! The minimal admin API, served over a backend other than SQLite.

use crate::json::Json;
use crate::text;
use crate::textmap::TextMap;
use vstd::prelude::*;

verus! {

/// An event to append.
pub struct AppendRequest {
    /// Its subject.
    pub subject: String,
    /// Its type.
    pub event_type: String,
    /// Its data.
    pub data: Json,
}

/// The text of a member; `other` where there is none that is text.
pub open spec fn text_or(body: Json, name: Seq<char>, other: Seq<char>) -> Seq<char> {
    if body.members().dom().contains(name) {
        match body.members()[name] {
            Json::Text(s) => s@,
            _ => other,
        }
    } else {
        other
    }
}

fn read_text(body: &Json, name: &str, other: &str) -> (r: String)
    ensures
        r@ == text_or(*body, name@, other@),
{
    match body.get(name) {
        Some(Json::Text(s)) => String::from_str(s),
        _ => String::from_str(other),
    }
}

/// The data of a body; an empty object where it has none.
pub open spec fn data_or_empty(body: Json, data: Json) -> bool {
    if body.members().dom().contains("data"@) {
        data == body.members()["data"@]
    } else {
        data.has_members(Set::empty())
    }
}

/// Reads the body of `POST /v1/append`. The subject is `/` and the type `event` where the
/// body names none.
pub fn append_request(body: Json) -> (r: AppendRequest)
    ensures
        r.subject@ == text_or(body, "subject"@, "/"@),
        r.event_type@ == text_or(body, "type"@, "event"@),
        data_or_empty(body, r.data),
{
    let subject = read_text(&body, "subject", "/");
    let event_type = read_text(&body, "type", "event");
    let data = match body {
        Json::Object(m) => {
            let mut m = m;
            m.remove("data")
        },
        _ => None,
    };
    let data: Json = match data {
        Some(v) => v,
        None => {
            let none: TextMap<Json> = TextMap::new();
            assert(none@.dom() =~= Set::empty());
            Json::Object(none)
        },
    };
    AppendRequest { subject, event_type, data }
}

/// Reads the parameters of `GET /v1/read`: the subject, `/` by default, and whether to
/// read below it.
pub fn read_request(subject: Option<&str>, recursive: Option<&str>) -> (r: (String, bool))
    ensures
        r.0@ == match subject {
            Some(s) => s@,
            None => "/"@,
        },
        r.1 == (recursive matches Some(v) && (v@ == "true"@ || v@ == "1"@)),
{
    let s = match subject {
        Some(s) => String::from_str(s),
        None => String::from_str("/"),
    };
    let deep = match recursive {
        Some(v) => text::same(v, "true") || text::same(v, "1"),
        None => false,
    };
    (s, deep)
}

/// Why a request failed.
pub enum Fault {
    /// The subject is malformed.
    Subject(String),
    /// The store failed.
    Store(String),
}

/// A response: a status code and a body.
pub struct HttpReply {
    /// Status code.
    pub status: u16,
    /// Body.
    pub body: Json,
}

/// The object with this one member of text.
pub open spec fn says(body: Json, name: Seq<char>, value: Seq<char>) -> bool {
    body.has_members(set![name]) && body.members()[name].is_text(value)
}

fn saying(name: &str, value: &str) -> (r: Json)
    ensures
        says(r, name@, value@),
{
    let mut m: TextMap<Json> = TextMap::new();
    m.insert(name, Json::text(value));
    assert(m@.dom() =~= set![name@]);
    Json::Object(m)
}

/// The response to a fault: 400 on a malformed subject, 500 on a failing store.
pub open spec fn fault_reply(f: Fault, r: HttpReply) -> bool {
    match f {
        Fault::Subject(e) => r.status == 400 && says(r.body, "error"@, e@),
        Fault::Store(e) => r.status == 500 && says(r.body, "error"@, e@),
    }
}

fn reply_to_fault(f: Fault) -> (r: HttpReply)
    ensures
        fault_reply(f, r),
{
    match f {
        Fault::Subject(e) => HttpReply { status: 400, body: saying("error", &e) },
        Fault::Store(e) => HttpReply { status: 500, body: saying("error", &e) },
    }
}

/// The response to an append: the id of the stored event, or the fault.
pub fn append_reply(outcome: Result<String, Fault>) -> (r: HttpReply)
    ensures
        match outcome {
            Ok(id) => r.status == 200 && says(r.body, "id"@, id@),
            Err(f) => fault_reply(f, r),
        },
{
    match outcome {
        Ok(id) => HttpReply { status: 200, body: saying("id", &id) },
        Err(f) => reply_to_fault(f),
    }
}

/// The response to a read: the events, or the fault.
pub fn read_reply(outcome: Result<Json, Fault>) -> (r: HttpReply)
    ensures
        match outcome {
            Ok(events) => r.status == 200 && r.body == events,
            Err(f) => fault_reply(f, r),
        },
{
    match outcome {
        Ok(events) => HttpReply { status: 200, body: events },
        Err(f) => reply_to_fault(f),
    }
}

/// The response to `GET /health`.
pub fn health_reply() -> (r: HttpReply)
    ensures
        r.status == 200,
        r.body.has_members(set!["ok"@, "mode"@]),
        r.body.members()["ok"@] == Json::Bool(true),
        r.body.members()["mode"@].is_text("minimal"@),
{
    let mut m: TextMap<Json> = TextMap::new();
    m.insert("ok", Json::Bool(true));
    m.insert("mode", Json::text("minimal"));
    proof {
        reveal_strlit("ok");
        reveal_strlit("mode");
        assert("ok"@.len() == 2 && "mode"@.len() == 4);
        assert(m@.dom() =~= set!["ok"@, "mode"@]);
    }
    HttpReply { status: 200, body: Json::Object(m) }
}

/// What a request names is what is done; what it leaves out is filled in: the root, the type
/// `event`, an empty object, and no reading below.
pub proof fn law_requests_are_taken_as_sent(
    body: Json,
    r: AppendRequest,
    subject: Option<&str>,
    recursive: Option<&str>,
    read: (String, bool),
)
    requires
        call_ensures(append_request, (body,), r),
        call_ensures(read_request, (subject, recursive), read),
    ensures
        forall|s: Seq<char>|
            body.members().dom().contains("subject"@) && #[trigger] body.members()["subject"@].is_text(
                s,
            ) ==> r.subject@ == s,
        !body.members().dom().contains("subject"@) || !(body.members()["subject"@] is Text)
            ==> r.subject@ == "/"@,
        forall|s: Seq<char>|
            body.members().dom().contains("type"@) && #[trigger] body.members()["type"@].is_text(s)
                ==> r.event_type@ == s,
        !body.members().dom().contains("type"@) || !(body.members()["type"@] is Text)
            ==> r.event_type@ == "event"@,
        body.members().dom().contains("data"@) ==> r.data == body.members()["data"@],
        !body.members().dom().contains("data"@) ==> r.data is Object
            && r.data.members().dom() == Set::<Seq<char>>::empty(),
        subject matches Some(s) ==> read.0@ == s@,
        subject is None ==> read.0@ == "/"@,
        recursive is None ==> !read.1,
        recursive matches Some(v) ==> (read.1 <==> v@ == "true"@ || v@ == "1"@),
{
}

/// A request that succeeded is answered with 200 and what came of it. A subject that is
/// malformed is the caller's fault, and a store that fails the server's.
pub proof fn law_faults_are_told_apart(
    appended: Result<String, Fault>,
    a: HttpReply,
    read: Result<Json, Fault>,
    b: HttpReply,
)
    requires
        call_ensures(append_reply, (appended,), a),
        call_ensures(read_reply, (read,), b),
    ensures
        a.status == 200 <==> appended is Ok,
        b.status == 200 <==> read is Ok,
        a.status == 400 <==> (appended matches Err(f) && f is Subject),
        a.status == 500 <==> (appended matches Err(f) && f is Store),
        b.status == 400 <==> (read matches Err(f) && f is Subject),
        b.status == 500 <==> (read matches Err(f) && f is Store),
        appended matches Ok(id) ==> a.body.members()["id"@].is_text(id@),
        read matches Ok(events) ==> b.body == events,
{
}

} // verus!
