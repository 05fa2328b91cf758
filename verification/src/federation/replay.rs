//! Which local events are replayed to a peer, and in which order.

use crate::cap::glob;
use crate::cap::glob::glob_match_subject;
use crate::event;
use crate::event::{Event, PeerCursor};
use crate::federation::manager;
use crate::json::Json;
use crate::outside;
use crate::outside::parse_rfc3339;
use crate::text;
use crate::time::Timestamp;
use vstd::prelude::*;

verus! {

/// `a` is replayed before `b`: it is older, or of the same time with a lesser id.
pub open spec fn goes_first(a: Event, b: Event) -> bool {
    a.time.earlier(b.time) || (a.time == b.time && text::precedes(a.id@, b.id@))
}

/// No event stands after one that it should go before.
pub open spec fn in_order(s: Seq<Event>) -> bool {
    forall|i: int, j: int| 0 <= i < j < s.len() ==> !goes_first(#[trigger] s[j], #[trigger] s[i])
}

proof fn lemma_goes_first_asymmetric(a: Event, b: Event)
    ensures
        !(goes_first(a, b) && goes_first(b, a)),
{
    text::lemma_precedes_total(a.id@, b.id@);
}

/// Whether `a` is replayed before `b`.
pub fn replays_before(a: &Event, b: &Event) -> (r: bool)
    ensures
        r == goes_first(*a, *b),
{
    a.time.is_before(&b.time) || (a.time == b.time && text::is_before(&a.id, &b.id))
}

/// The event goes to a peer under a pattern: the pattern covers its subject, and it is later
/// than the last one that the peer has.
pub open spec fn is_due(e: Event, pattern: Seq<char>, since: Option<Timestamp>) -> bool {
    &&& glob::glob_matches(pattern, e.subject@)
    &&& since matches Some(t) ==> t.earlier(e.time)
}

/// The events of a sequence that go to a peer.
pub open spec fn due(s: Seq<Event>, pattern: Seq<char>, since: Option<Timestamp>) -> Seq<Event> {
    s.filter(|e: Event| is_due(e, pattern, since))
}

/// The local events that are replayed to a peer under one pattern: those that the
/// pattern covers and that are later than `since`, the time of the last one that the peer
/// has, in the order of time and id.
pub fn replay_order(events: Vec<Event>, pattern: &str, since: Option<Timestamp>) -> (r: Vec<Event>)
    ensures
        in_order(r@),
        r@.to_multiset() == due(events@, pattern@, since).to_multiset(),
{
    let ghost all = events@;
    let ghost keep = |e: Event| is_due(e, pattern@, since);
    let mut rest = events;
    let mut out: Vec<Event> = Vec::new();
    proof {
        assert(all.skip(all.len() as int) =~= Seq::<Event>::empty());
        assert(due(all.skip(all.len() as int), pattern@, since) =~= Seq::<Event>::empty());
        assert(all.take(all.len() as int) =~= all);
    }
    while rest.len() > 0
        invariant
            keep == (|e: Event| is_due(e, pattern@, since)),
            rest@ == all.take(rest@.len() as int),
            rest@.len() <= all.len(),
            in_order(out@),
            out@.to_multiset() == due(all.skip(rest@.len() as int), pattern@, since).to_multiset(),
        decreases rest.len(),
    {
        let ghost n = rest@.len() as int;
        let ghost before = out@;
        let e = rest.pop().unwrap();
        proof {
            let tail = all.skip(n - 1);
            assert(tail =~= seq![e] + all.skip(n));
            assert(rest@ =~= all.take(n - 1));
            lemma_filter_cons(e, all.skip(n), keep);
        }
        let later = match &since {
            Some(t) => t.is_before(&e.time),
            None => true,
        };
        if later && glob_match_subject(pattern, &e.subject) {
            insert_in_order(&mut out, e);
            proof {
                let old_due = due(all.skip(n), pattern@, since);
                let new_due = due(all.skip(n - 1), pattern@, since);
                assert(new_due =~= seq![e] + old_due);
                vstd::seq_lib::lemma_multiset_commutative(seq![e], old_due);
                assert(seq![e].to_multiset() =~= vstd::multiset::Multiset::singleton(e)) by {
                    broadcast use vstd::seq_lib::group_to_multiset_ensures;
                    assert(seq![e] =~= Seq::<Event>::empty().push(e));
                }
                assert(out@.to_multiset() =~= new_due.to_multiset());
            }
        }
    }
    proof {
        assert(all.skip(0) =~= all);
    }
    out
}

proof fn lemma_filter_cons(e: Event, s: Seq<Event>, keep: spec_fn(Event) -> bool)
    ensures
        (seq![e] + s).filter(keep) == (if keep(e) {
            seq![e] + s.filter(keep)
        } else {
            s.filter(keep)
        }),
    decreases s.len(),
{
    reveal_with_fuel(Seq::filter, 2);
    if s.len() == 0 {
        assert(seq![e] + s =~= seq![e]);
        assert(seq![e].drop_last() =~= Seq::<Event>::empty());
        assert((seq![e] + s).filter(keep) =~= (if keep(e) {
            seq![e] + s.filter(keep)
        } else {
            s.filter(keep)
        }));
    } else {
        let whole = seq![e] + s;
        assert(whole.drop_last() =~= seq![e] + s.drop_last());
        assert(whole.last() == s.last());
        lemma_filter_cons(e, s.drop_last(), keep);
        assert(whole.filter(keep) =~= (if keep(e) {
            seq![e] + s.filter(keep)
        } else {
            s.filter(keep)
        }));
    }
}

/// Puts an event at its place among events in order, before those that are equal
/// in time and id.
fn insert_in_order(out: &mut Vec<Event>, e: Event)
    requires
        in_order(old(out)@),
    ensures
        in_order(final(out)@),
        final(out)@.to_multiset() == old(out)@.to_multiset().insert(e),
{
    let mut i: usize = 0;
    while i < out.len() && replays_before(&out[i], &e)
        invariant
            i <= out@.len(),
            *out == *old(out),
            forall|j: int| 0 <= j < i ==> goes_first(#[trigger] out@[j], e),
        decreases out.len() - i,
    {
        i += 1;
    }
    let ghost before = out@;
    proof {
        assert forall|j: int| i <= j < before.len() implies !goes_first(#[trigger] before[j], e) by {
            if goes_first(before[j], e) && j > i {
                lemma_goes_first_asymmetric(before[j], before[i as int]);
                lemma_order_gap(before[j], before[i as int], e);
            }
        }
    }
    out.insert(i, e);
    proof {
        let after = out@;
        assert(after =~= before.insert(i as int, e));
        assert forall|a: int, b: int| 0 <= a < b < after.len() implies !goes_first(
            #[trigger] after[b],
            #[trigger] after[a],
        ) by {
            let a2 = if a < i {
                a
            } else {
                a - 1
            };
            let b2 = if b < i {
                b
            } else {
                b - 1
            };
            if a == i {
                assert(after[b] == before[b - 1]);
            } else if b == i {
                assert(after[a] == before[a]);
                lemma_goes_first_asymmetric(before[a], e);
            } else {
                assert(after[a] == before[a2]);
                assert(after[b] == before[b2]);
            }
        }
        lemma_insert_multiset(before, i as int, e);
    }
}

/// If `x` goes before `e` and `y` does not, `x` goes before `y`.
proof fn lemma_order_gap(x: Event, y: Event, e: Event)
    requires
        goes_first(x, e),
        !goes_first(y, e),
    ensures
        goes_first(x, y),
{
    if e.time == y.time {
        text::lemma_precedes_total(y.id@, e.id@);
        if x.time == e.time {
            if y.id@ != e.id@ {
                text::lemma_precedes_transitive(x.id@, e.id@, y.id@);
            }
        }
    }
}

proof fn lemma_insert_multiset(s: Seq<Event>, i: int, e: Event)
    requires
        0 <= i <= s.len(),
    ensures
        s.insert(i, e).to_multiset() == s.to_multiset().insert(e),
{
    broadcast use vstd::seq_lib::group_to_multiset_ensures;

    let t = s.insert(i, e);
    assert(t =~= s.take(i).push(e) + s.skip(i));
    assert(s =~= s.take(i) + s.skip(i));
    vstd::seq_lib::lemma_multiset_commutative(s.take(i).push(e), s.skip(i));
    vstd::seq_lib::lemma_multiset_commutative(s.take(i), s.skip(i));
    assert(s.take(i).push(e).to_multiset() =~= s.take(i).to_multiset().insert(e));
    assert(t.to_multiset() =~= s.to_multiset().insert(e));
}

/// The path under which the events of a pattern are read.
pub open spec fn replay_path(pattern: Seq<char>) -> Seq<char> {
    text::without_suffixes(text::without_suffixes(pattern, "/**"@), "/*"@)
}

/// The range that holds the events of a pattern: where to read, and whether with all that
/// lies below.
pub open spec fn range_of(pattern: Seq<char>) -> (Seq<char>, bool) {
    let path = replay_path(pattern);
    if path.len() == 0 {
        ("/"@, true)
    } else {
        (path, "/**"@.is_suffix_of(pattern) || "/*"@.is_suffix_of(pattern))
    }
}

/// A read of the range returns the events of this subject: those of the path itself, and,
/// where it goes below, those of every subject below; below the root all.
pub open spec fn in_range(range: (Seq<char>, bool), subject: Seq<char>) -> bool {
    ||| subject == range.0
    ||| range.1 && (range.0 == "/"@ || glob::at_or_below(range.0, subject))
}

/// Where to read the events of a pattern, and whether with all that lies below.
pub fn replay_range(pattern: &str) -> (r: (String, bool))
    ensures
        (r.0@, r.1) == range_of(pattern@),
{
    proof {
        reveal_strlit("/**");
        reveal_strlit("/*");
    }
    let inner = text::trim_end_matches(pattern, "/**");
    let prefix = text::trim_end_matches(&inner, "/*");
    if prefix.as_str().is_empty() {
        (String::from_str("/"), true)
    } else {
        (prefix, text::ends_with(pattern, "/**") || text::ends_with(pattern, "/*"))
    }
}

proof fn lemma_without_suffixes(s: Seq<char>, pat: Seq<char>)
    requires
        pat.len() > 0,
        pat[0] == '/',
    ensures
        text::without_suffixes(s, pat).len() == s.len() ==> text::without_suffixes(s, pat) == s,
        glob::at_or_below(text::without_suffixes(s, pat), s),
    decreases s.len(),
{
    reveal_strlit("/");
    let t = text::without_suffixes(s, pat);
    if pat.is_suffix_of(s) {
        let shorter = s.take(s.len() - pat.len());
        lemma_without_suffixes(shorter, pat);
        assert(s[s.len() - pat.len()] == pat[0]);
        assert((shorter + "/"@).is_prefix_of(s)) by {
            assert(shorter + "/"@ =~= s.take(s.len() - pat.len() + 1));
        }
        lemma_below_chains(t, shorter, s);
    }
}

proof fn lemma_below_chains(a: Seq<char>, b: Seq<char>, c: Seq<char>)
    requires
        glob::at_or_below(a, b),
        glob::at_or_below(b, c),
    ensures
        glob::at_or_below(a, c),
{
    if a != b && b != c {
        assert((a + "/"@).is_prefix_of(c)) by {
            assert(b.is_prefix_of(b + "/"@));
            assert(b =~= (b + "/"@).take(b.len() as int));
            assert(a + "/"@ =~= c.take((a + "/"@).len() as int));
        }
    }
}

/// Nothing that a pattern covers is left out of a replay: every subject that it covers lies
/// in the range that is read.
pub proof fn law_the_range_holds_what_the_pattern_covers(pattern: Seq<char>, subject: Seq<char>)
    requires
        glob::glob_matches(pattern, subject),
    ensures
        in_range(range_of(pattern), subject),
{
    reveal_strlit("/**");
    reveal_strlit("/*");
    reveal_strlit("/");
    let inner = text::without_suffixes(pattern, "/**"@);
    let path = replay_path(pattern);
    lemma_without_suffixes(pattern, "/**"@);
    lemma_without_suffixes(inner, "/*"@);
    lemma_below_chains(path, inner, pattern);
    if path.len() > 0 {
        if pattern == subject {
            if !"/**"@.is_suffix_of(pattern) && !"/*"@.is_suffix_of(pattern) {
                assert(inner == pattern && path == pattern);
            }
        } else if "/**"@.is_suffix_of(pattern) {
            let base = glob::before_suffix(pattern, "/**"@);
            assert(inner == text::without_suffixes(base, "/**"@));
            lemma_without_suffixes(base, "/**"@);
            lemma_below_chains(path, inner, base);
            if pattern == "/**"@ {
                assert(base =~= Seq::<char>::empty());
                assert(inner =~= Seq::<char>::empty());
            }
            lemma_below_chains(path, base, subject);
        } else {
            let base = glob::before_suffix(pattern, "/*"@);
            assert(inner == pattern);
            assert(path == text::without_suffixes(base, "/*"@));
            lemma_without_suffixes(base, "/*"@);
            lemma_below_chains(path, base, subject);
        }
    }
}

/// The time after which a peer wants events, as its answer to a cursor request has it:
/// none where it names no time that can be read.
pub open spec fn resumes_at(data: Json) -> Option<Timestamp> {
    let m = data.members();
    if m.dom().contains("last_event_time"@) && m["last_event_time"@] is Text {
        match outside::rfc3339_time(m["last_event_time"@]->Text_0@) {
            Ok(t) => Some(t),
            Err(_) => None,
        }
    } else {
        None
    }
}

/// The time after which a peer wants events, from its answer to a cursor request:
/// none where it names no time that can be read.
pub fn resume_point(data: &Json) -> (r: Option<Timestamp>)
    ensures
        r == resumes_at(*data),
{
    match data.get("last_event_time") {
        Some(v) => match v.as_str() {
            Some(s) => match parse_rfc3339(s) {
                Ok(t) => Some(t),
                Err(_) => None,
            },
            None => None,
        },
        None => None,
    }
}

/// A catch-up resumes where the peer's cursor stands: what one daemon reports of its cursor
/// is the time after which the other replays, to the nanosecond. The text holds years of
/// four digits.
pub proof fn law_catch_up_resumes_at_the_cursor(
    peer_id: Seq<char>,
    subject_pattern: Seq<char>,
    cursor: Option<PeerCursor>,
    reply: Json,
)
    requires
        manager::reports_cursor(peer_id, subject_pattern, cursor, reply),
        cursor matches Some(c) ==> (c.last_event_time matches Some(t)
            ==> outside::four_digit_year(t)),
    ensures
        resumes_at(reply) == match cursor {
            Some(c) => c.last_event_time,
            None => None,
        },
{
    assert(reply.members().dom().contains("last_event_time"@));
}

/// Whether a peer can be dialed: one that only ever connected to this daemon has a
/// URL that begins with `inbound:`.
pub fn is_dialable(url: &str) -> (r: bool)
    ensures
        r == !"inbound:"@.is_prefix_of(url@),
{
    !text::starts_with(url, "inbound:")
}

/// What is replayed to a peer under a pattern, and in which order: exactly the events that the
/// pattern covers and that lie after the time up to which the peer has them, the older ones
/// first.
pub proof fn law_what_is_replayed(
    events: Vec<Event>,
    pattern: &str,
    since: Option<Timestamp>,
    r: Vec<Event>,
    e: Event,
    i: int,
    j: int,
)
    requires
        call_ensures(replay_order, (events, pattern, since), r),
    ensures
        r@.contains(e) <==> events@.contains(e) && glob::glob_matches(pattern@, e.subject@) && (
        since matches Some(t) ==> t.secs < e.time.secs || (t.secs == e.time.secs && t.nanos
            < e.time.nanos)),
        0 <= i < j < r@.len() ==> r@[i].time.secs <= r@[j].time.secs,
        0 <= i < j < r@.len() && r@[i].time.secs == r@[j].time.secs ==> r@[i].time.nanos
            <= r@[j].time.nanos,
        0 <= i < j < r@.len() && r@[i].time == r@[j].time ==> !text::precedes(
            r@[j].id@,
            r@[i].id@,
        ),
{
    let keep = |x: Event| is_due(x, pattern@, since);
    let d = due(events@, pattern@, since);
    event::lemma_filtered(events@, keep, e);
    r@.to_multiset_ensures();
    d.to_multiset_ensures();
    assert(r@.contains(e) <==> r@.to_multiset().count(e) > 0);
    assert(d.contains(e) <==> d.to_multiset().count(e) > 0);
    if 0 <= i < j < r@.len() {
        assert(!goes_first(r@[j], r@[i]));
    }
}

/// Where the events of a pattern are read: of `base/**` and of `base/*` at `base` with what lies
/// below, of a pattern without a star at that path alone, and of `/**` everywhere.
pub proof fn law_where_a_replay_reads(pattern: &str, base: Seq<char>, r: (String, bool))
    requires
        call_ensures(replay_range, (pattern,), r),
        !base.contains('*'),
        base.len() > 0,
    ensures
        pattern@ == base ==> r.0@ == base && !r.1,
        pattern@ == base + "/**"@ || pattern@ == base + "/*"@ ==> r.0@ == base && r.1,
        pattern@ == "/**"@ || pattern@ == "/*"@ ==> r.0@ == "/"@ && r.1,
{
    reveal_strlit("/**");
    reveal_strlit("/*");
    reveal_with_fuel(text::without_suffixes, 3);
    let none = Seq::<char>::empty();
    lemma_starless_suffix(base);
    lemma_starless_suffix(none);
    let p = pattern@;
    if p == base + "/**"@ {
        assert(p.subrange(p.len() - 3, p.len() as int) =~= "/**"@);
        assert(p.take(p.len() - 3) =~= base);
    } else if p == base + "/*"@ {
        assert(p.subrange(p.len() - 2, p.len() as int) =~= "/*"@);
        assert(p.take(p.len() - 2) =~= base);
        assert(p[p.len() - 2] == '/');
        assert(!"/**"@.is_suffix_of(p)) by {
            if "/**"@.is_suffix_of(p) {
                assert(p.subrange(p.len() - 3, p.len() as int)[1] == p[p.len() - 2]);
            }
        }
    } else if p == "/**"@ {
        assert(p.subrange(0, 3) =~= "/**"@);
        assert(p.take(0) =~= none);
    } else if p == "/*"@ {
        assert(p.subrange(0, 2) =~= "/*"@);
        assert(p.take(0) =~= none);
    }
}

proof fn lemma_starless_suffix(s: Seq<char>)
    requires
        !s.contains('*'),
    ensures
        !"/**"@.is_suffix_of(s),
        !"/*"@.is_suffix_of(s),
{
    reveal_strlit("/**");
    reveal_strlit("/*");
    if s.len() > 0 {
        assert(s.contains(s.last()));
    }
    if "/**"@.is_suffix_of(s) {
        assert(s.subrange(s.len() - 3, s.len() as int)[2] == s.last());
    }
    if "/*"@.is_suffix_of(s) {
        assert(s.subrange(s.len() - 2, s.len() as int)[1] == s.last());
    }
}

/// What one daemon reports of the cursor that it keeps for a peer, that peer takes as the time
/// after which it replays; where no cursor is kept, it replays from the beginning.
pub proof fn law_a_reported_cursor_is_resumed(
    manager: &manager::PeerManager,
    peer_id: &str,
    subject_pattern: &str,
    cursor: Option<&PeerCursor>,
    reply: Json,
    received: &Json,
    r: Option<Timestamp>,
)
    requires
        call_ensures(
            manager::PeerManager::cursor_reply,
            (manager, peer_id, subject_pattern, cursor),
            reply,
        ),
        *received == reply,
        call_ensures(resume_point, (received,), r),
    ensures
        cursor is None ==> r is None,
        cursor matches Some(c) ==> (c.last_event_time is None ==> r is None),
        cursor matches Some(c) ==> (c.last_event_time matches Some(t) ==> (
        outside::four_digit_year(t) ==> r == Some(t))),
{
    match cursor {
        Some(c) => {
            let year = c.last_event_time matches Some(t) ==> outside::four_digit_year(t);
            if year {
                law_catch_up_resumes_at_the_cursor(peer_id@, subject_pattern@, Some(*c), reply);
            }
        },
        None => {
            law_catch_up_resumes_at_the_cursor(peer_id@, subject_pattern@, None, reply);
        },
    }
}

/// A peer that only ever connected to this daemon cannot be dialed, and every other can.
pub proof fn law_who_can_be_dialed(url: &str, rest: Seq<char>, r: bool)
    requires
        call_ensures(is_dialable, (url,), r),
    ensures
        url@ == "inbound:"@ + rest ==> !r,
        !"inbound:"@.is_prefix_of(url@) ==> r,
{
    if url@ == "inbound:"@ + rest {
        assert(url@.take("inbound:"@.len() as int) =~= "inbound:"@);
    }
}

} // verus!
