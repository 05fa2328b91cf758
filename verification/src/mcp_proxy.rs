//! Rules of the stdio-to-HTTP MCP proxy.
//!
//! A subprocess that finds a running daemon on the same database relays JSON-RPC lines
//! to the daemon's `/mcp` endpoint and writes the replies back, one message per line.

use crate::json::Json;
use crate::text;
use crate::textmap::TextMap;
use vstd::prelude::*;

verus! {

/// The code of every error that the proxy itself reports.
pub const PROXY_ERROR_CODE: i64 = -32000;

/// The host and the port of a bind: what stands before its last colon, and the number
/// behind it.
pub open spec fn host_and_port(bind: Seq<char>) -> Option<(Seq<char>, nat)> {
    match text::last_index(bind, ':') {
        Some(i) => match text::unsigned_value(bind.skip(i + 1)) {
            Some(p) => if p <= 65535 {
                Some((bind.take(i), p))
            } else {
                None
            },
            None => None,
        },
        None => None,
    }
}

/// Where the MCP endpoint listens beside an admin bind: three ports above it. A bind
/// without a port number stands as it is.
pub open spec fn mcp_bind(admin: Seq<char>) -> Seq<char> {
    match host_and_port(admin) {
        Some((host, port)) => host + ":"@ + text::digits(port + 3),
        None => admin,
    }
}

/// The URL of the MCP endpoint of the daemon with this admin bind.
pub fn derive_mcp_url(admin_bind: &str) -> (r: String)
    requires
        host_and_port(admin_bind@) matches Some((_, port)) ==> port + 3 <= 65535,
    ensures
        r@ == "http://"@ + mcp_bind(admin_bind@) + "/mcp"@,
{
    let n: usize = admin_bind.unicode_len();
    let bind = match text::last_index_of(admin_bind, ':') {
        Some(i) => {
            assert(i < n);
            let port = text::skip(admin_bind, i + 1);
            match text::parse_unsigned(port, 65535) {
                Some(p) => {
                    let mut b = String::from_str(text::take(admin_bind, i));
                    b.append(":");
                    let digits = text::unsigned_text(p + 3);
                    b.append(&digits);
                    b
                },
                None => String::from_str(admin_bind),
            }
        },
        None => String::from_str(admin_bind),
    };
    let mut url = String::from_str("http://");
    url.append(&bind);
    url.append("/mcp");
    url
}

/// The body to post for a line of standard input; `None` for a blank line.
pub fn request_body(line: &str) -> (r: Option<String>)
    ensures
        match r {
            Some(b) => b@ == text::trimmed(line@) && b@.len() > 0,
            None => text::trimmed(line@).len() == 0,
        },
{
    let t = text::trim(line);
    if t.as_str().unicode_len() == 0 {
        None
    } else {
        Some(t)
    }
}

/// What the daemon answered.
pub enum DaemonReply {
    /// The request could not be sent.
    Unsent(String),
    /// The body could not be read.
    Unreadable(String),
    /// A response.
    Answer {
        /// Whether the status is in the range of success.
        success: bool,
        /// The status as text, such as `404 Not Found`.
        status: String,
        /// The media type; `None` where the daemon gave none that is text.
        content_type: Option<String>,
        /// The body.
        body: String,
    },
}

/// What the proxy writes to standard output.
pub enum Relay {
    /// These lines.
    Frames(Vec<String>),
    /// A JSON-RPC error with this message.
    Failure(String),
}

/// The payload of a line of an event stream; empty where it carries none.
pub open spec fn event_payload(line: Seq<char>) -> Seq<char> {
    if "data:"@.is_prefix_of(line) {
        text::trim_front(line.skip("data:"@.len() as int))
    } else {
        Seq::empty()
    }
}

/// The payloads of the lines of an event stream, the empty ones left out.
pub open spec fn event_payloads(lines: Seq<Seq<char>>) -> Seq<Seq<char>>
    decreases lines.len(),
{
    if lines.len() == 0 {
        Seq::empty()
    } else {
        let init = event_payloads(lines.drop_last());
        let payload = event_payload(lines.last());
        if payload.len() == 0 {
            init
        } else {
            init.push(payload)
        }
    }
}

/// The daemon answered with an event stream.
pub open spec fn is_event_stream(content_type: Option<String>) -> bool {
    content_type matches Some(t) && "text/event-stream"@.is_prefix_of(t@)
}

/// The lines that a successful answer becomes: the payloads of an event stream; else
/// the body without its line feeds, or nothing where it is blank.
pub open spec fn frames(content_type: Option<String>, body: Seq<char>) -> Seq<Seq<char>> {
    if is_event_stream(content_type) {
        event_payloads(text::lines(body))
    } else if text::trimmed(body).len() == 0 {
        Seq::empty()
    } else {
        seq![text::replaced(body, "\n"@, ""@)]
    }
}

/// The payloads that the lines of an event stream carry.
fn payloads_of(body: &str) -> (r: Vec<String>)
    ensures
        text::views(r@) == event_payloads(text::lines(body@)),
{
    let lines = text::split_lines(body);
    let ghost all = text::lines(body@);
    assert(text::views(lines@).len() == all.len());
    let mut out: Vec<String> = Vec::new();
    let mut i: usize = 0;
    assert(text::views(out@) =~= event_payloads(all.take(0)));
    while i < lines.len()
        invariant
            i <= lines@.len(),
            text::views(lines@) == all,
            lines@.len() == all.len(),
            text::views(out@) == event_payloads(all.take(i as int)),
        decreases lines.len() - i,
    {
        assert(lines@[i as int]@ == text::views(lines@)[i as int]);
        assert(all.take(i + 1).drop_last() =~= all.take(i as int));
        let line = &lines[i];
        match text::strip_prefix(line, "data:") {
            Some(rest) => {
                assert("data:"@.is_prefix_of(line@)) by {
                    assert(line@.subrange(0, "data:"@.len() as int) =~= "data:"@);
                }
                assert(line@.skip("data:"@.len() as int) =~= rest@);
                let payload = text::trim_start(&rest);
                if payload.as_str().unicode_len() > 0 {
                    let ghost before = out@;
                    let ghost p = payload@;
                    out.push(payload);
                    assert(text::views(out@) =~= text::views(before).push(p));
                }
            },
            None => {},
        }
        i += 1;
    }
    assert(all.take(all.len() as int) =~= all);
    out
}

/// What the proxy writes for a reply of the daemon.
pub open spec fn relayed(reply: DaemonReply, r: Relay) -> bool {
    match reply {
        DaemonReply::Unsent(e) => r matches Relay::Failure(m) && m@ == "ctxd proxy: "@ + e@,
        DaemonReply::Unreadable(e) => r matches Relay::Failure(m) && m@
            == "ctxd proxy: read body: "@ + e@,
        DaemonReply::Answer { success, status, content_type, body } => if success {
            r matches Relay::Frames(f) && text::views(f@) == frames(content_type, body@)
        } else {
            r matches Relay::Failure(m) && m@ == "ctxd proxy: daemon returned "@ + status@ + ": "@
                + body@
        },
    }
}

/// Turns a reply of the daemon into output.
pub fn relay(reply: DaemonReply) -> (r: Relay)
    ensures
        relayed(reply, r),
{
    match reply {
        DaemonReply::Unsent(e) => {
            let mut m = String::from_str("ctxd proxy: ");
            m.append(&e);
            Relay::Failure(m)
        },
        DaemonReply::Unreadable(e) => {
            let mut m = String::from_str("ctxd proxy: read body: ");
            m.append(&e);
            Relay::Failure(m)
        },
        DaemonReply::Answer { success, status, content_type, body } => {
            if !success {
                let mut m = String::from_str("ctxd proxy: daemon returned ");
                m.append(&status);
                m.append(": ");
                m.append(&body);
                return Relay::Failure(m);
            }
            let stream = match &content_type {
                Some(t) => text::starts_with(t, "text/event-stream"),
                None => false,
            };
            if stream {
                Relay::Frames(payloads_of(&body))
            } else {
                let mut out: Vec<String> = Vec::new();
                let t = text::trim(&body);
                if t.as_str().unicode_len() > 0 {
                    proof {
                        reveal_strlit("\n");
                    }
                    let line = text::replace(&body, "\n", "");
                    let ghost l = line@;
                    out.push(line);
                    assert(text::views(out@) =~= seq![l]);
                } else {
                    assert(text::views(out@) =~= Seq::empty());
                }
                Relay::Frames(out)
            }
        },
    }
}

/// The value of member `id` of a request; null where there is none.
pub open spec fn request_id(request: Option<Json>) -> Json {
    match request {
        Some(v) => if v.members().dom().contains("id"@) {
            v.members()["id"@]
        } else {
            Json::Null
        },
        None => Json::Null,
    }
}

/// A JSON-RPC error with this message, on the request with this id.
pub open spec fn is_rpc_error(v: Json, id: Json, message: Seq<char>) -> bool {
    let m = v.members();
    &&& v.has_members(set!["jsonrpc"@, "id"@, "error"@])
    &&& m["jsonrpc"@].is_text("2.0"@)
    &&& m["id"@] == id
    &&& m["error"@].has_members(set!["code"@, "message"@])
    &&& m["error"@].members()["code"@] == Json::Negative(PROXY_ERROR_CODE)
    &&& m["error"@].members()["message"@].is_text(message)
}

/// The JSON-RPC error that answers a request. `request` is what the line reads as;
/// `None` where it is not JSON.
pub fn rpc_error(request: Option<Json>, message: &str) -> (r: Json)
    ensures
        is_rpc_error(r, request_id(request), message@),
{
    proof {
        reveal_strlit("jsonrpc");
        reveal_strlit("id");
        reveal_strlit("error");
        reveal_strlit("code");
        reveal_strlit("message");
        assert("jsonrpc"@.len() == 7 && "id"@.len() == 2 && "error"@.len() == 5);
        assert("code"@.len() == 4 && "message"@.len() == 7);
    }
    let id: Json = match request {
        Some(Json::Object(m)) => {
            let mut m = m;
            match m.remove("id") {
                Some(v) => v,
                None => Json::Null,
            }
        },
        _ => Json::Null,
    };
    let mut error: TextMap<Json> = TextMap::new();
    error.insert("code", Json::Negative(PROXY_ERROR_CODE));
    error.insert("message", Json::text(message));
    let mut v: TextMap<Json> = TextMap::new();
    v.insert("jsonrpc", Json::text("2.0"));
    v.insert("id", id);
    v.insert("error", Json::Object(error));
    assert(error@.dom() =~= set!["code"@, "message"@]);
    assert(v@.dom() =~= set!["jsonrpc"@, "id"@, "error"@]);
    Json::Object(v)
}

/// The MCP endpoint of a daemon listens on the host of its admin bind, three ports above it.
pub proof fn law_the_endpoint_is_three_ports_above(
    admin_bind: &str,
    host: Seq<char>,
    port: nat,
    r: String,
)
    requires
        admin_bind@ == host + ":"@ + text::digits(port),
        port + 3 <= 65535,
        call_ensures(derive_mcp_url, (admin_bind,), r),
    ensures
        r@ == "http://"@ + host + ":"@ + text::digits(port + 3) + "/mcp"@,
{
    reveal_strlit(":");
    text::lemma_digits_read_back(port);
    let n = text::digits(port);
    assert(!n.contains(':')) by {
        if n.contains(':') {
            let i = choose|i: int| 0 <= i < n.len() && n[i] == ':';
            assert(text::all_digits(n));
        }
    }
    assert(admin_bind@ =~= host + seq![':'] + n);
    text::lemma_last_index_of_tail(host, ':', n);
    assert(admin_bind@.skip(host.len() as int + 1) =~= n);
    assert(admin_bind@.take(host.len() as int) =~= host);
    assert(r@ =~= "http://"@ + host + ":"@ + text::digits(port + 3) + "/mcp"@);
}

/// What the proxy hands on. An answer of success is handed on in lines, and anything else
/// becomes an error. The body of an answer that is no event stream is one line, the body itself
/// where it has no line feed in it; a blank one is none.
pub proof fn law_what_is_handed_on(
    reply: DaemonReply,
    r: Relay,
)
    requires
        call_ensures(relay, (reply,), r),
    ensures
        r is Frames <==> (reply matches DaemonReply::Answer { success, .. } && success),
        reply matches DaemonReply::Answer { content_type, body, .. } ==> (r matches Relay::Frames(f)
            ==> (!(content_type matches Some(k) && "text/event-stream"@.is_prefix_of(k@)) ==> {
            &&& text::trimmed(body@).len() == 0 <==> f@.len() == 0
            &&& f@.len() <= 1
            &&& f@.len() == 1 && !body@.contains('\n') ==> f@[0]@ == body@
            &&& f@.len() == 1 ==> !f@[0]@.contains('\n')
        })),
{
    reveal_strlit("\n");
    reveal_strlit("");
    if let DaemonReply::Answer { success, status, content_type, body } = reply {
        if let Relay::Frames(f) = r {
            if !is_event_stream(content_type) {
                let v = text::views(f@);
                assert(v.len() == f@.len());
                if text::trimmed(body@).len() > 0 {
                    assert(v[0] == f@[0]@);
                    lemma_without_line_feeds(body@);
                }
            }
        }
    }
}

proof fn lemma_without_line_feeds(s: Seq<char>)
    ensures
        !text::replaced(s, "\n"@, ""@).contains('\n'),
        !s.contains('\n') ==> text::replaced(s, "\n"@, ""@) == s,
    decreases s.len(),
{
    reveal_strlit("\n");
    reveal_strlit("");
    let r = text::replaced(s, "\n"@, ""@);
    if s.len() > 0 {
        let t = s.skip(1);
        lemma_without_line_feeds(t);
        if "\n"@.is_prefix_of(s) {
            assert(s.take(1)[0] == s[0]);
            assert(s.contains(s[0]));
            assert(r =~= text::replaced(t, "\n"@, ""@));
        } else {
            if s[0] == '\n' {
                assert(s.take(1) =~= "\n"@);
            }
            let u = text::replaced(t, "\n"@, ""@);
            assert(r =~= seq![s[0]] + u);
            if r.contains('\n') {
                let i = choose|i: int| 0 <= i < r.len() && r[i] == '\n';
                assert(u[i - 1] == '\n');
            }
            if !s.contains('\n') {
                if t.contains('\n') {
                    let i = choose|i: int| 0 <= i < t.len() && t[i] == '\n';
                    assert(s[i + 1] == '\n');
                }
                assert(seq![s[0]] + t =~= s);
            }
        }
    }
}

/// An error of the proxy answers the request that failed: it carries that request's id, and the
/// message. A request without an id, or one that could not be read, is answered with null.
pub proof fn law_errors_answer_their_request(request: Option<Json>, message: &str, r: Json)
    requires
        call_ensures(rpc_error, (request, message), r),
    ensures
        request matches Some(q) ==> (q.members().dom().contains("id"@) ==> r.members()["id"@]
            == q.members()["id"@]),
        request matches Some(q) ==> (!q.members().dom().contains("id"@) ==> r.members()["id"@]
            is Null),
        request is None ==> r.members()["id"@] is Null,
        r.members()["jsonrpc"@].is_text("2.0"@),
        r.members()["error"@].members()["message"@].is_text(message@),
{
}

/// Of a line of an event stream exactly what stands behind `data:` is handed on, without the
/// blanks in front; a line without it carries nothing.
pub proof fn law_event_streams_are_unwrapped(
    body: String,
    line: Seq<char>,
    payload: Seq<char>,
    kind: Option<String>,
    status: String,
    r: Relay,
)
    requires
        kind matches Some(k) && "text/event-stream"@.is_prefix_of(k@),
        !line.contains('\n') && line.len() > 0,
        body@ == line,
        call_ensures(
            relay,
            ((DaemonReply::Answer { success: true, status, content_type: kind, body }),),
            r,
        ),
    ensures
        r matches Relay::Frames(f) && f@.len() <= 1,
        line == "data:"@ + payload && text::trim_front(payload).len() > 0 ==> (
        r matches Relay::Frames(f) && f@.len() == 1 && f@[0]@ == text::trim_front(payload)),
        !"data:"@.is_prefix_of(line) ==> (r matches Relay::Frames(f) && f@.len() == 0),
{
    reveal_strlit("data:");
    text::lemma_one_piece(line, '\n');
    let p = text::pieces(line, '\n');
    let lines = text::lines(line);
    assert(p.drop_last() =~= Seq::<Seq<char>>::empty());
    assert(lines =~= seq![line]);
    assert(lines.drop_last() =~= Seq::<Seq<char>>::empty());
    reveal_with_fuel(event_payloads, 2);
    if let Relay::Frames(f) = r {
        let v = text::views(f@);
        assert(v.len() == f@.len());
        if line == "data:"@ + payload {
            assert(line.take(5) =~= "data:"@);
            assert("data:"@.is_prefix_of(line));
            assert(line.skip(5) =~= payload);
            if text::trim_front(payload).len() > 0 {
                assert(v =~= seq![text::trim_front(payload)]);
                assert(v[0] == f@[0]@);
            }
        }
    }
}

/// What is posted for a line is the line without white space around it; a blank line is not
/// posted.
pub proof fn law_lines_are_posted_trimmed(line: &str, r: Option<String>)
    requires
        call_ensures(request_body, (line,), r),
    ensures
        r is None <==> text::trimmed(line@).len() == 0,
        text::trimmed(line@) == line@ && line@.len() > 0 ==> (r matches Some(b) && b@ == line@),
{
}

/// An event stream is handed on line by line: what comes of lines and then further ones is what
/// comes of the first and then what comes of the others.
pub proof fn law_event_streams_go_line_by_line(
    status: String,
    kind: Option<String>,
    x: Seq<char>,
    head: String,
    tail: String,
    whole: String,
    a: Relay,
    b: Relay,
    c: Relay,
)
    requires
        kind matches Some(k) && "text/event-stream"@.is_prefix_of(k@),
        head@ == x + seq!['\n'],
        whole@ == head@ + tail@,
        call_ensures(
            relay,
            ((DaemonReply::Answer { success: true, status, content_type: kind, body: head }),),
            a,
        ),
        call_ensures(
            relay,
            ((DaemonReply::Answer { success: true, status, content_type: kind, body: tail }),),
            b,
        ),
        call_ensures(
            relay,
            ((DaemonReply::Answer { success: true, status, content_type: kind, body: whole }),),
            c,
        ),
    ensures
        a matches Relay::Frames(f) && (b matches Relay::Frames(g) && (c matches Relay::Frames(h)
            && text::views(h@) == text::views(f@) + text::views(g@))),
{
    let none = Seq::<char>::empty();
    assert(whole@ =~= x + seq!['\n'] + tail@);
    assert(head@ =~= x + seq!['\n'] + none);
    text::lemma_pieces_join(x, '\n', tail@);
    text::lemma_pieces_join(x, '\n', none);
    text::lemma_pieces_nonempty(tail@, '\n');
    let p = text::pieces(x, '\n');
    let q = text::pieces(tail@, '\n');
    let e = text::pieces(none, '\n');
    assert(e =~= seq![none]);
    assert((p + e).drop_last() =~= p);
    assert((p + e).last() == none);
    assert((p + q).drop_last() =~= p + q.drop_last());
    assert((p + q).last() == q.last());
    assert(text::lines(whole@) =~= text::lines(head@) + text::lines(tail@));
    lemma_payloads_join(text::lines(head@), text::lines(tail@));
}

proof fn lemma_payloads_join(a: Seq<Seq<char>>, b: Seq<Seq<char>>)
    ensures
        event_payloads(a + b) == event_payloads(a) + event_payloads(b),
    decreases b.len(),
{
    if b.len() == 0 {
        assert(a + b =~= a);
        assert(event_payloads(a) + event_payloads(b) =~= event_payloads(a));
    } else {
        assert((a + b).drop_last() =~= a + b.drop_last());
        assert((a + b).last() == b.last());
        lemma_payloads_join(a, b.drop_last());
        assert(event_payloads(a + b) =~= event_payloads(a) + event_payloads(b));
    }
}

} // verus!
