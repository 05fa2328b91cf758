//! Basic EventQL: a subset of the query language.
//!
//! Supported syntax:
//! ```text
//! FROM <var> IN events
//! WHERE <var>.subject LIKE "<pattern>"
//!   AND <var>.type = "<value>"
//!   AND <var>.time > "<timestamp>"
//!   AND <var>.time < "<timestamp>"
//! PROJECT INTO <var>
//! ```
//! Keywords are matched without regard to case. The text that a keyword stands in is
//! measured in bytes of UTF-8, the keyword itself in uppercase: a letter outside ASCII
//! whose uppercase is an ASCII letter can make the two fall apart, and where a text
//! would be cut within a character there is no reading of it.

use crate::event;
use crate::event::Event;
use crate::outside;
use crate::outside::{parse_rfc3339, unicode_uppercase};
use crate::text;
use crate::time::Timestamp;
use vstd::prelude::*;

verus! {

/// A parsed EventQL query.
#[derive(Debug)]
pub struct EventQuery {
    /// The variable name (e.g., "e").
    pub var: String,
    /// WHERE clause conditions.
    pub conditions: Vec<Condition>,
}

/// A single WHERE condition.
#[derive(Debug)]
pub enum Condition {
    /// subject LIKE "pattern"
    SubjectLike(String),
    /// type = "value"
    TypeEquals(String),
    /// time > "timestamp"
    TimeAfter(String),
    /// time < "timestamp"
    TimeBefore(String),
}

/// What a condition is about.
pub enum Field {
    /// The subject, matched against a pattern.
    Subject,
    /// The event type.
    Type,
    /// The time, from below.
    After,
    /// The time, from above.
    Before,
}

impl View for Condition {
    type V = (Field, Seq<char>);

    open spec fn view(&self) -> (Field, Seq<char>) {
        match self {
            Condition::SubjectLike(s) => (Field::Subject, s@),
            Condition::TypeEquals(s) => (Field::Type, s@),
            Condition::TimeAfter(s) => (Field::After, s@),
            Condition::TimeBefore(s) => (Field::Before, s@),
        }
    }
}

/// The conditions of a query.
pub open spec fn condition_views(v: Seq<Condition>) -> Seq<(Field, Seq<char>)> {
    v.map_values(|c: Condition| c@)
}

// ---------------------------------------------------------------------------
// Keywords
// ---------------------------------------------------------------------------

/// The uppercase of a character.
pub open spec fn upper_char(c: char) -> Seq<char> {
    if 'a' <= c <= 'z' {
        seq![(c as u32 - 32) as char]
    } else if (c as u32) < 0x80 {
        seq![c]
    } else {
        outside::unicode_upper(c)
    }
}

/// The uppercase of a text.
pub open spec fn upper(s: Seq<char>) -> Seq<char>
    decreases s.len(),
{
    if s.len() == 0 {
        Seq::empty()
    } else {
        upper(s.drop_last()) + upper_char(s.last())
    }
}

/// The uppercase of the text begins with the keyword.
pub open spec fn begins(s: Seq<char>, keyword: Seq<char>) -> bool {
    keyword.is_prefix_of(upper(s))
}

/// The bytes that a character takes in UTF-8.
pub open spec fn utf8_len(c: char) -> nat {
    if (c as u32) < 0x80 {
        1
    } else if (c as u32) < 0x800 {
        2
    } else if (c as u32) < 0x10000 {
        3
    } else {
        4
    }
}

/// What follows the first `n` bytes of a text; `None` where they end within a
/// character, or the text is shorter.
pub open spec fn after_bytes(s: Seq<char>, n: nat) -> Option<Seq<char>>
    decreases s.len(),
{
    if n == 0 {
        Some(s)
    } else if s.len() == 0 || utf8_len(s[0]) > n {
        None
    } else {
        after_bytes(s.skip(1), (n - utf8_len(s[0])) as nat)
    }
}

fn upper_of(c: char) -> (r: Vec<char>)
    ensures
        r@ == upper_char(c),
{
    let n: u32 = c as u32;
    if n >= 0x80 {
        return unicode_uppercase(c);
    }
    let mut out: Vec<char> = Vec::new();
    if 'a' <= c && c <= 'z' {
        let up: u8 = (n - 32) as u8;
        out.push(up as char);
        assert(out@ =~= upper_char(c));
    } else {
        out.push(c);
        assert(out@ =~= upper_char(c));
    }
    out
}

proof fn lemma_upper_concat(a: Seq<char>, b: Seq<char>)
    ensures
        upper(a + b) == upper(a) + upper(b),
    decreases b.len(),
{
    if b.len() == 0 {
        assert(a + b =~= a);
        assert(upper(a + b) =~= upper(a) + upper(b));
    } else {
        assert((a + b).drop_last() =~= a + b.drop_last());
        assert((a + b).last() == b.last());
        lemma_upper_concat(a, b.drop_last());
        assert(upper(a + b) =~= upper(a) + upper(b));
    }
}

/// Whether the uppercase of a text begins with a keyword.
pub fn begins_with_keyword(s: &str, keyword: &str) -> (r: bool)
    ensures
        r == begins(s@, keyword@),
{
    let x = text::chars_of(s);
    let k = text::chars_of(keyword);
    let mut out: Vec<char> = Vec::new();
    let mut i: usize = 0;
    assert(upper(s@.take(0)) =~= Seq::<char>::empty());
    while i < x.len() && out.len() < k.len()
        invariant
            i <= x@.len(),
            x@ == s@,
            k@ == keyword@,
            out@ == upper(s@.take(i as int)),
        decreases x.len() - i,
    {
        let mut piece = upper_of(x[i]);
        proof {
            let t = s@.take(i + 1);
            assert(t.drop_last() =~= s@.take(i as int));
            assert(t.last() == s@[i as int]);
        }
        let ghost before = out@;
        let ghost p = piece@;
        out.append(&mut piece);
        assert(out@ =~= before + p);
        i += 1;
    }
    proof {
        assert(s@ =~= s@.take(i as int) + s@.skip(i as int));
        lemma_upper_concat(s@.take(i as int), s@.skip(i as int));
        if i == s@.len() {
            assert(s@.take(i as int) =~= s@);
        }
    }
    if out.len() < k.len() {
        return false;
    }
    let mut j: usize = 0;
    while j < k.len()
        invariant
            j <= k@.len() <= out@.len(),
            k@ == keyword@,
            out@ == upper(s@.take(i as int)),
            upper(s@) == out@ + upper(s@.skip(i as int)),
            forall|m: int| 0 <= m < j ==> out@[m] == k@[m],
        decreases k.len() - j,
    {
        if out[j] != k[j] {
            assert(upper(s@).subrange(0, keyword@.len() as int)[j as int] == out@[j as int]);
            return false;
        }
        j += 1;
    }
    assert(upper(s@).subrange(0, keyword@.len() as int) =~= keyword@);
    true
}

proof fn lemma_after_bytes_shorter(s: Seq<char>, n: nat)
    ensures
        after_bytes(s, n) matches Some(t) ==> t.len() <= s.len() && (n > 0 ==> t.len() < s.len()),
    decreases s.len(),
{
    if n > 0 && s.len() > 0 && utf8_len(s[0]) <= n {
        lemma_after_bytes_shorter(s.skip(1), (n - utf8_len(s[0])) as nat);
    }
}

/// What follows the first `n` bytes of a text.
pub fn skip_bytes(s: &str, n: usize) -> (r: Option<String>)
    ensures
        match r {
            Some(t) => after_bytes(s@, n as nat) == Some(t@),
            None => after_bytes(s@, n as nat) is None,
        },
{
    let x = text::chars_of(s);
    let mut left: usize = n;
    let mut i: usize = 0;
    assert(s@.skip(0) =~= s@);
    while left > 0
        invariant
            i <= x@.len(),
            x@ == s@,
            after_bytes(s@.skip(i as int), left as nat) == after_bytes(s@, n as nat),
        decreases left,
    {
        if i >= x.len() {
            return None;
        }
        let c: u32 = x[i] as u32;
        let w: usize = if c < 0x80 {
            1
        } else if c < 0x800 {
            2
        } else if c < 0x10000 {
            3
        } else {
            4
        };
        assert(s@.skip(i as int)[0] == x@[i as int]);
        assert(w == utf8_len(x@[i as int]));
        if w > left {
            return None;
        }
        assert(s@.skip(i as int).skip(1) =~= s@.skip(i + 1));
        left -= w;
        i += 1;
    }
    let t = text::text_of(&x, i, x.len());
    assert(t@ =~= s@.skip(i as int));
    Some(t)
}

// ---------------------------------------------------------------------------
// Values
// ---------------------------------------------------------------------------

/// The first place of a character; the length where there is none.
pub open spec fn place_of(s: Seq<char>, c: char) -> int
    decreases s.len(),
{
    if s.len() == 0 || s[0] == c {
        0
    } else {
        1 + place_of(s.skip(1), c)
    }
}

proof fn lemma_place_of(s: Seq<char>, c: char)
    ensures
        0 <= place_of(s, c) <= s.len(),
        place_of(s, c) == s.len() <==> !s.contains(c),
        place_of(s, c) < s.len() ==> s[place_of(s, c)] == c,
        forall|j: int| 0 <= j < place_of(s, c) ==> s[j] != c,
    decreases s.len(),
{
    if s.len() > 0 && s[0] != c {
        lemma_place_of(s.skip(1), c);
        let t = s.skip(1);
        assert(forall|j: int| 0 <= j < t.len() ==> t[j] == s[j + 1]);
        if s.contains(c) {
            let j = choose|j: int| 0 <= j < s.len() && s[j] == c;
            assert(t[j - 1] == c);
        }
        if t.contains(c) {
            let j = choose|j: int| 0 <= j < t.len() && t[j] == c;
            assert(s[j + 1] == c);
        }
        assert forall|j: int| 0 <= j < place_of(s, c) implies s[j] != c by {
            if j > 0 {
                assert(t[j - 1] != c);
            }
        }
    } else if s.len() > 0 {
        assert(s.contains(c)) by {
            assert(s[0] == c);
        }
    }
}

/// A quoted value at the start of a text, after white space: the value and what
/// follows the closing quote, or what is wrong.
pub open spec fn quoted(s: Seq<char>) -> Result<(Seq<char>, Seq<char>), Seq<char>> {
    let t = text::trim_front(s);
    if t.len() == 0 {
        Err("expected quoted value"@)
    } else if t[0] != '"' && t[0] != '\'' {
        Err("expected quote, got: "@.push(t[0]))
    } else {
        let body = t.skip(1);
        if !body.contains(t[0]) {
            Err("unterminated quoted value"@)
        } else {
            Ok((body.take(place_of(body, t[0])), body.skip(place_of(body, t[0]) + 1)))
        }
    }
}

proof fn lemma_trim_front_shorter(s: Seq<char>)
    ensures
        text::trim_front(s).len() <= s.len(),
    decreases s.len(),
{
    if s.len() > 0 && text::is_space(s[0]) {
        lemma_trim_front_shorter(s.skip(1));
    }
}

proof fn lemma_trim_back_shorter(s: Seq<char>)
    ensures
        text::trim_back(s).len() <= s.len(),
    decreases s.len(),
{
    if s.len() > 0 && text::is_space(s.last()) {
        lemma_trim_back_shorter(s.drop_last());
    }
}

proof fn lemma_quoted_shorter(s: Seq<char>)
    ensures
        quoted(s) matches Ok(v) ==> v.1.len() < s.len(),
{
    lemma_trim_front_shorter(s);
    let t = text::trim_front(s);
    if t.len() > 0 {
        lemma_place_of(t.skip(1), t[0]);
    }
}

fn trim_start(s: &str) -> (r: String)
    ensures
        r@ == text::trim_front(s@),
{
    let x = text::chars_of(s);
    let mut a: usize = 0;
    assert(s@.skip(0) =~= s@);
    while a < x.len() && text::char_is_space(x[a])
        invariant
            a <= x@.len(),
            x@ == s@,
            text::trim_front(s@.skip(a as int)) == text::trim_front(s@),
        decreases x.len() - a,
    {
        assert(s@.skip(a as int).skip(1) =~= s@.skip(a + 1));
        a += 1;
    }
    let r = text::text_of(&x, a, x.len());
    assert(r@ =~= s@.skip(a as int));
    r
}

/// Extract a quoted string value: the value and what remains.
pub fn extract_quoted_value(input: &str) -> (r: Result<(String, String), String>)
    ensures
        match r {
            Ok(v) => quoted(input@) matches Ok(x) && x == (v.0@, v.1@),
            Err(m) => quoted(input@) matches Err(x) && x == m@,
        },
{
    let t = trim_start(input);
    let x = text::chars_of(&t);
    if x.len() == 0 {
        return Err(String::from_str("expected quoted value"));
    }
    let quote = x[0];
    if quote != '"' && quote != '\'' {
        let mut m = String::from_str("expected quote, got: ");
        m.push(quote);
        return Err(m);
    }
    let body = text::skip(&t, 1);
    proof {
        lemma_place_of(body@, quote);
    }
    match text::index_of(body, quote) {
        None => Err(String::from_str("unterminated quoted value")),
        Some(i) => {
            proof {
                assert(body@.contains(quote));
                let p = place_of(body@, quote);
                if p < i {
                    assert(body@[p] == quote);
                }
                if i < p {
                    assert(body@[i as int] == quote);
                }
                assert(p == i);
            }
            let value = String::from_str(text::take(body, i));
            let rest = String::from_str(text::skip(body, i + 1));
            Ok((value, rest))
        },
    }
}

// ---------------------------------------------------------------------------
// Conditions
// ---------------------------------------------------------------------------

/// Which condition a text begins with: what it is about and its keyword.
pub open spec fn condition_head(s: Seq<char>) -> Option<(Field, nat)> {
    if begins(s, "SUBJECT LIKE "@) {
        Some((Field::Subject, 13))
    } else if begins(s, "TYPE = "@) {
        Some((Field::Type, 7))
    } else if begins(s, "TIME > "@) {
        Some((Field::After, 7))
    } else if begins(s, "TIME < "@) {
        Some((Field::Before, 7))
    } else {
        None
    }
}

/// One condition and what remains after it and a following AND. `None` where a
/// keyword ends within a character.
pub open spec fn one_condition(s: Seq<char>, var: Seq<char>) -> Option<
    Result<((Field, Seq<char>), Seq<char>), Seq<char>>,
> {
    let prefix = var + "."@;
    if !prefix.is_prefix_of(s) {
        Some(Err("expected '"@ + prefix + "' in condition, got: "@ + s))
    } else {
        let body = s.skip(prefix.len() as int);
        match condition_head(body) {
            None => Some(Err("unknown condition: "@ + body)),
            Some(head) => match after_bytes(body, head.1) {
                None => None,
                Some(tail) => match quoted(tail) {
                    Err(m) => Some(Err(m)),
                    Ok(v) => {
                        let rest = text::trim_front(v.1);
                        if begins(rest, "AND "@) {
                            match after_bytes(rest, 4) {
                                None => None,
                                Some(next) => Some(Ok(((head.0, v.0), text::trim_front(next)))),
                            }
                        } else {
                            Some(Ok(((head.0, v.0), rest)))
                        }
                    },
                },
            },
        }
    }
}

/// A condition takes up some of the text.
pub proof fn lemma_one_condition_shorter(s: Seq<char>, var: Seq<char>)
    ensures
        one_condition(s, var) matches Some(Ok(v)) ==> v.1.len() < s.len(),
{
    let prefix = var + "."@;
    if prefix.is_prefix_of(s) {
        let body = s.skip(prefix.len() as int);
        if let Some(head) = condition_head(body) {
            lemma_after_bytes_shorter(body, head.1);
            if let Some(tail) = after_bytes(body, head.1) {
                lemma_quoted_shorter(tail);
                if let Ok(v) = quoted(tail) {
                    lemma_trim_front_shorter(v.1);
                    let rest = text::trim_front(v.1);
                    lemma_after_bytes_shorter(rest, 4);
                    if let Some(next) = after_bytes(rest, 4) {
                        lemma_trim_front_shorter(next);
                    }
                }
            }
        }
    }
}

/// The conditions of a WHERE clause, up to its end or to PROJECT.
pub open spec fn where_conditions(s: Seq<char>, var: Seq<char>) -> Option<
    Result<Seq<(Field, Seq<char>)>, Seq<char>>,
>
    decreases s.len(),
{
    if s.len() == 0 || begins(s, "PROJECT"@) {
        Some(Ok(Seq::empty()))
    } else {
        proof {
            lemma_one_condition_shorter(s, var);
        }
        match one_condition(s, var) {
            None => None,
            Some(Err(m)) => Some(Err(m)),
            Some(Ok(v)) => match where_conditions(v.1, var) {
                None => None,
                Some(Err(m)) => Some(Err(m)),
                Some(Ok(more)) => Some(Ok(seq![v.0] + more)),
            },
        }
    }
}

/// The place of the first white space; the length where there is none.
pub open spec fn first_space(s: Seq<char>) -> int
    decreases s.len(),
{
    if s.len() == 0 || text::is_space(s[0]) {
        0
    } else {
        1 + first_space(s.skip(1))
    }
}

proof fn lemma_first_space(s: Seq<char>)
    ensures
        0 <= first_space(s) <= s.len(),
        first_space(s) < s.len() ==> text::is_space(s[first_space(s)]),
        forall|j: int| 0 <= j < first_space(s) ==> !text::is_space(s[j]),
    decreases s.len(),
{
    if s.len() > 0 && !text::is_space(s[0]) {
        lemma_first_space(s.skip(1));
        assert forall|j: int| 0 <= j < first_space(s) implies !text::is_space(s[j]) by {
            if j > 0 {
                assert(s.skip(1)[j - 1] == s[j]);
            }
        }
    }
}

/// The variable and the conditions of a query, or what is wrong with it; `None`
/// where a keyword ends within a character.
pub open spec fn reading(input: Seq<char>) -> Option<
    Result<(Seq<char>, Seq<(Field, Seq<char>)>), Seq<char>>,
> {
    let s = text::trimmed(input);
    if !begins(s, "FROM "@) {
        Some(Err("query must start with FROM"@))
    } else {
        match after_bytes(s, 5) {
            None => None,
            Some(tail) => {
                let t = text::trim_front(tail);
                let n = first_space(t);
                if n == t.len() {
                    Some(Err("expected variable name after FROM"@))
                } else {
                    reading_from(t.take(n), text::trim_front(t.skip(n)))
                }
            },
        }
    }
}

/// What follows the variable of a query.
pub open spec fn reading_from(var: Seq<char>, s: Seq<char>) -> Option<
    Result<(Seq<char>, Seq<(Field, Seq<char>)>), Seq<char>>,
> {
    if !begins(s, "IN EVENTS"@) {
        Some(Err("expected 'IN events' after variable name"@))
    } else {
        match after_bytes(s, 9) {
            None => None,
            Some(tail) => {
                let t = text::trim_front(tail);
                if begins(t, "WHERE "@) {
                    match after_bytes(t, 6) {
                        None => None,
                        Some(clause) => match where_conditions(text::trimmed(clause), var) {
                            None => None,
                            Some(Err(m)) => Some(Err(m)),
                            Some(Ok(cs)) => Some(Ok((var, cs))),
                        },
                    }
                } else if !begins(t, "PROJECT"@) && t.len() > 0 {
                    Some(Err("unexpected token: "@ + t))
                } else {
                    Some(Ok((var, Seq::empty())))
                }
            },
        }
    }
}

fn read_condition(s: &str, var: &str) -> (r: Option<Result<(Condition, String), String>>)
    ensures
        match r {
            None => one_condition(s@, var@) is None,
            Some(Err(m)) => one_condition(s@, var@) matches Some(Err(x)) && x == m@,
            Some(Ok(v)) => one_condition(s@, var@) matches Some(Ok(x)) && x == (v.0@, v.1@),
        },
{
    let prefix = String::from_str(var).concat(".");
    if !text::starts_with(s, &prefix) {
        return Some(
            Err(
                String::from_str("expected '").concat(&prefix).concat(
                    "' in condition, got: ",
                ).concat(s),
            ),
        );
    }
    let body = text::skip(s, prefix.as_str().unicode_len());
    let subject = begins_with_keyword(body, "SUBJECT LIKE ");
    let kind = !subject && begins_with_keyword(body, "TYPE = ");
    let after = !subject && !kind && begins_with_keyword(body, "TIME > ");
    let before = !subject && !kind && !after && begins_with_keyword(body, "TIME < ");
    if !subject && !kind && !after && !before {
        return Some(Err(String::from_str("unknown condition: ").concat(body)));
    }
    let n: usize = if subject {
        13
    } else {
        7
    };
    let tail = match skip_bytes(body, n) {
        None => {
            return None;
        },
        Some(tail) => tail,
    };
    let (value, left) = match extract_quoted_value(&tail) {
        Err(m) => {
            return Some(Err(m));
        },
        Ok(v) => v,
    };
    let condition = if subject {
        Condition::SubjectLike(value)
    } else if kind {
        Condition::TypeEquals(value)
    } else if after {
        Condition::TimeAfter(value)
    } else {
        Condition::TimeBefore(value)
    };
    let rest = trim_start(&left);
    if begins_with_keyword(&rest, "AND ") {
        match skip_bytes(&rest, 4) {
            None => None,
            Some(next) => Some(Ok((condition, trim_start(&next)))),
        }
    } else {
        Some(Ok((condition, rest)))
    }
}

/// Reads the conditions of a WHERE clause.
pub fn parse_where_conditions(input: &str, var: &str) -> (r: Option<
    Result<Vec<Condition>, String>,
>)
    ensures
        match r {
            None => where_conditions(text::trimmed(input@), var@) is None,
            Some(Err(m)) => where_conditions(text::trimmed(input@), var@) matches Some(Err(x)) && x
                == m@,
            Some(Ok(cs)) => where_conditions(text::trimmed(input@), var@) matches Some(Ok(x)) && x
                == condition_views(cs@),
        },
{
    let mut rest = text::trim(input);
    let ghost whole = rest@;
    let mut out: Vec<Condition> = Vec::new();
    assert(condition_views(out@) =~= Seq::empty());
    loop
        invariant
            match where_conditions(rest@, var@) {
                None => where_conditions(whole, var@) is None,
                Some(Err(m)) => where_conditions(whole, var@) matches Some(Err(x)) && x == m,
                Some(Ok(more)) => where_conditions(whole, var@) matches Some(Ok(x)) && x
                    == condition_views(out@) + more,
            },
            whole == text::trimmed(input@),
        decreases rest@.len(),
    {
        if rest.as_str().is_empty() || begins_with_keyword(&rest, "PROJECT") {
            assert(condition_views(out@) + Seq::<(Field, Seq<char>)>::empty() =~= condition_views(
                out@,
            ));
            return Some(Ok(out));
        }
        proof {
            lemma_one_condition_shorter(rest@, var@);
        }
        match read_condition(&rest, var) {
            None => {
                return None;
            },
            Some(Err(m)) => {
                return Some(Err(m));
            },
            Some(Ok(v)) => {
                let (condition, next) = v;
                let ghost before = out@;
                let ghost c = condition@;
                out.push(condition);
                proof {
                    assert(condition_views(out@) =~= condition_views(before).push(c));
                    if let Some(Ok(more)) = where_conditions(next@, var@) {
                        assert(condition_views(before) + (seq![c] + more) =~= condition_views(out@)
                            + more);
                    }
                }
                rest = next;
            },
        }
    }
}

/// Reads a query; `None` where a keyword ends within a character.
fn read_query(input: &str) -> (r: Option<Result<EventQuery, String>>)
    ensures
        match r {
            None => reading(input@) is None,
            Some(Err(m)) => reading(input@) matches Some(Err(x)) && x == m@,
            Some(Ok(q)) => reading(input@) matches Some(Ok(x)) && x == (
                q.var@,
                condition_views(q.conditions@),
            ),
        },
{
    let s = text::trim(input);
    if !begins_with_keyword(&s, "FROM ") {
        return Some(Err(String::from_str("query must start with FROM")));
    }
    let tail = match skip_bytes(&s, 5) {
        None => {
            return None;
        },
        Some(tail) => tail,
    };
    let t = trim_start(&tail);
    let x = text::chars_of(&t);
    let mut n: usize = 0;
    while n < x.len() && !text::char_is_space(x[n])
        invariant
            n <= x@.len(),
            forall|j: int| 0 <= j < n ==> !text::is_space(x@[j]),
        decreases x.len() - n,
    {
        n += 1;
    }
    proof {
        lemma_first_space(t@);
        let p = first_space(t@);
        if p < n {
            assert(text::is_space(t@[p]));
        }
        if n < p {
            assert(!text::is_space(t@[n as int]));
        }
        assert(p == n);
    }
    if n == x.len() {
        return Some(Err(String::from_str("expected variable name after FROM")));
    }
    let var = String::from_str(text::take(&t, n));
    let body = trim_start(text::skip(&t, n));
    if !begins_with_keyword(&body, "IN EVENTS") {
        return Some(Err(String::from_str("expected 'IN events' after variable name")));
    }
    let after = match skip_bytes(&body, 9) {
        None => {
            return None;
        },
        Some(after) => after,
    };
    let clauses = trim_start(&after);
    if begins_with_keyword(&clauses, "WHERE ") {
        let clause = match skip_bytes(&clauses, 6) {
            None => {
                return None;
            },
            Some(clause) => clause,
        };
        match parse_where_conditions(&clause, &var) {
            None => None,
            Some(Err(m)) => Some(Err(m)),
            Some(Ok(conditions)) => Some(Ok(EventQuery { var, conditions })),
        }
    } else if !begins_with_keyword(&clauses, "PROJECT") && !clauses.as_str().is_empty() {
        Some(Err(String::from_str("unexpected token: ").concat(&clauses)))
    } else {
        let conditions: Vec<Condition> = Vec::new();
        assert(condition_views(conditions@) =~= Seq::empty());
        Some(Ok(EventQuery { var, conditions }))
    }
}

/// Whether there is a reading of a query text: no keyword ends within a character.
pub fn is_readable(input: &str) -> (r: bool)
    ensures
        r == (reading(input@) is Some),
{
    read_query(input).is_some()
}

/// Parse an EventQL query string.
pub fn parse_query(input: &str) -> (r: Result<EventQuery, String>)
    requires
        reading(input@) is Some,
    ensures
        match r {
            Ok(q) => reading(input@) matches Some(Ok(x)) && x == (
                q.var@,
                condition_views(q.conditions@),
            ),
            Err(m) => reading(input@) matches Some(Err(x)) && x == m@,
        },
{
    read_query(input).unwrap()
}

/// Parse an EventQL query string; `None` where a keyword ends within a character.
pub fn try_parse_query(input: &str) -> (r: Option<Result<EventQuery, String>>)
    ensures
        match r {
            None => reading(input@) is None,
            Some(Err(m)) => reading(input@) matches Some(Err(x)) && x == m@,
            Some(Ok(q)) => reading(input@) matches Some(Ok(x)) && x == (
                q.var@,
                condition_views(q.conditions@),
            ),
        },
{
    if is_readable(input) {
        Some(parse_query(input))
    } else {
        None
    }
}

// ---------------------------------------------------------------------------
// Execution
// ---------------------------------------------------------------------------

/// The pattern covers the value: every `%` stands for any text, also for none, and every
/// other character for itself.
pub open spec fn like(value: Seq<char>, pattern: Seq<char>) -> bool
    decreases value.len() + pattern.len(),
{
    if pattern.len() == 0 {
        value.len() == 0
    } else if pattern[0] == '%' {
        like(value, pattern.skip(1)) || (value.len() > 0 && like(value.skip(1), pattern))
    } else {
        value.len() > 0 && value[0] == pattern[0] && like(value.skip(1), pattern.skip(1))
    }
}

proof fn lemma_like_plain(value: Seq<char>, pattern: Seq<char>)
    requires
        !pattern.contains('%'),
    ensures
        like(value, pattern) <==> value == pattern,
    decreases pattern.len(),
{
    if pattern.len() == 0 {
        assert(value.len() == 0 ==> value == pattern);
    } else {
        assert(pattern.contains(pattern[0]));
        let rest = pattern.skip(1);
        assert forall|k: int| 0 <= k < rest.len() implies #[trigger] rest[k] != '%' by {
            assert(pattern.contains(pattern[k + 1]));
        }
        if value.len() > 0 {
            lemma_like_plain(value.skip(1), rest);
            assert(value == seq![value[0]] + value.skip(1));
            assert(pattern == seq![pattern[0]] + rest);
        }
    }
}

/// What `%` at the head of a pattern stands for: any text before a rest that is covered.
proof fn lemma_like_any(value: Seq<char>, rest: Seq<char>, k: int)
    requires
        0 <= k <= value.len(),
        like(value.skip(k), rest),
    ensures
        like(value, seq!['%'] + rest),
    decreases k,
{
    let pattern = seq!['%'] + rest;
    assert(pattern.skip(1) == rest);
    if k == 0 {
        assert(value.skip(0) == value);
    } else {
        assert(value.skip(1).skip(k - 1) == value.skip(k));
        lemma_like_any(value.skip(1), rest, k - 1);
    }
}

proof fn lemma_like_any_found(value: Seq<char>, rest: Seq<char>) -> (k: int)
    requires
        like(value, seq!['%'] + rest),
    ensures
        0 <= k <= value.len(),
        like(value.skip(k), rest),
    decreases value.len(),
{
    let pattern = seq!['%'] + rest;
    assert(pattern.skip(1) == rest);
    if like(value, rest) {
        assert(value.skip(0) == value);
        0
    } else {
        let k: int = lemma_like_any_found(value.skip(1), rest);
        assert(value.skip(1).skip(k) == value.skip(k + 1));
        k + 1
    }
}

/// A text without `%` at the head of a pattern stands for itself.
proof fn lemma_like_head(value: Seq<char>, head: Seq<char>, rest: Seq<char>)
    requires
        !head.contains('%'),
    ensures
        like(value, head + rest) <==> head.is_prefix_of(value) && like(
            value.skip(head.len() as int),
            rest,
        ),
    decreases head.len(),
{
    if head.len() == 0 {
        assert(head + rest == rest);
        assert(value.skip(0) == value);
    } else {
        assert(head.contains(head[0]));
        let tail = head.skip(1);
        assert forall|k: int| 0 <= k < tail.len() implies #[trigger] tail[k] != '%' by {
            assert(head.contains(head[k + 1]));
        }
        assert((head + rest).skip(1) == tail + rest);
        if value.len() > 0 {
            lemma_like_head(value.skip(1), tail, rest);
            if head.len() <= value.len() {
                assert(value.skip(1).skip(tail.len() as int) == value.skip(head.len() as int));
            }
            if head.is_prefix_of(value) {
                assert forall|k: int| 0 <= k < tail.len() implies tail[k] == value.skip(1)[k] by {
                    assert(head[k + 1] == value.take(head.len() as int)[k + 1]);
                }
                assert(tail == value.skip(1).take(tail.len() as int));
                assert(head[0] == value.take(head.len() as int)[0]);
            }
            if value[0] == head[0] && tail.is_prefix_of(value.skip(1)) {
                assert forall|k: int| 0 <= k < head.len() implies head[k] == value[k] by {
                    if k > 0 {
                        assert(tail[k - 1] == value.skip(1).take(tail.len() as int)[k - 1]);
                    }
                }
                assert(head == value.take(head.len() as int));
            }
        }
    }
}

/// What a pattern covers. One without `%` covers exactly the value equal to it. One that ends
/// in its only `%` covers exactly the values that begin with what stands before it, and one
/// that begins with its only `%` exactly those that end in what stands behind it. With one
/// `%` between two texts, exactly the values that begin with the one and go on to end in the
/// other; and `%` alone covers every value.
pub proof fn law_like_patterns(
    value: &str,
    pattern: &str,
    r: bool,
    before: Seq<char>,
    behind: Seq<char>,
)
    requires
        call_ensures(sql_like_match, (value, pattern), r),
        !before.contains('%'),
        !behind.contains('%'),
    ensures
        pattern@ == before ==> r == (value@ == before),
        pattern@ == before + seq!['%'] ==> r == before.is_prefix_of(value@),
        pattern@ == seq!['%'] + behind ==> r == behind.is_suffix_of(value@),
        pattern@ == before + seq!['%'] + behind ==> r == (before.is_prefix_of(value@)
            && behind.is_suffix_of(value@) && before.len() + behind.len() <= value@.len()),
        pattern@ == seq!['%'] ==> r,
{
    let v = value@;
    let empty = Seq::<char>::empty();
    lemma_like_plain(v, before);
    lemma_like_around(v, before, behind);
    lemma_like_around(v, before, empty);
    lemma_like_around(v, empty, behind);
    lemma_like_around(v, empty, empty);
    assert(before + seq!['%'] + empty == before + seq!['%']);
    assert(empty + seq!['%'] + behind == seq!['%'] + behind);
    assert(empty + seq!['%'] + empty == seq!['%']);
    assert(empty == v.take(0));
    assert(empty == v.skip(v.len() as int));
    if before.is_prefix_of(v) {
        assert(before.len() <= v.len());
    }
}

proof fn lemma_like_around(value: Seq<char>, before: Seq<char>, behind: Seq<char>)
    requires
        !before.contains('%'),
        !behind.contains('%'),
    ensures
        like(value, before + seq!['%'] + behind) <==> before.is_prefix_of(value)
            && behind.is_suffix_of(value) && before.len() + behind.len() <= value.len(),
{
    let rest = seq!['%'] + behind;
    assert(before + seq!['%'] + behind == before + rest);
    lemma_like_head(value, before, rest);
    if before.is_prefix_of(value) {
        let tail = value.skip(before.len() as int);
        if like(tail, rest) {
            let k: int = lemma_like_any_found(tail, behind);
            lemma_like_plain(tail.skip(k), behind);
            assert(tail.skip(k) == value.skip(before.len() + k));
            assert(behind == value.skip(value.len() - behind.len()));
        }
        if behind.is_suffix_of(value) && before.len() + behind.len() <= value.len() {
            let k: int = tail.len() - behind.len();
            assert(tail.skip(k) == value.skip(value.len() - behind.len()));
            assert(tail.skip(k) == behind);
            lemma_like_plain(tail.skip(k), behind);
            lemma_like_any(tail, behind, k);
        }
    }
}

/// Which rests of the pattern cover the rest of a value.
pub open spec fn is_row(value: Seq<char>, pattern: Seq<char>, row: Seq<bool>) -> bool {
    &&& row.len() == pattern.len()
    &&& forall|j: int|
        0 <= j < pattern.len() ==> #[trigger] row[j] == like(value, pattern.skip(j))
}

/// The row of the rest of the value from `i` on, from that of the rest from `i + 1` on.
fn like_row(value: &Vec<char>, pattern: &Vec<char>, i: usize, next: &Vec<bool>) -> (r: Vec<bool>)
    requires
        i <= value@.len(),
        i < value@.len() ==> is_row(value@.skip(i + 1), pattern@, next@),
    ensures
        is_row(value@.skip(i as int), pattern@, r@),
{
    let m: usize = pattern.len();
    let n: usize = value.len();
    let mut row: Vec<bool> = Vec::new();
    while row.len() < m
        invariant
            m == pattern@.len(),
            row@.len() <= m,
        decreases m - row.len(),
    {
        row.push(false);
    }
    let mut j: usize = m;
    let ghost v = value@.skip(i as int);
    while j > 0
        invariant
            j <= m,
            m == pattern@.len(),
            n == value@.len(),
            row@.len() == m,
            i <= n,
            v == value@.skip(i as int),
            i < n ==> is_row(value@.skip(i + 1), pattern@, next@),
            forall|l: int| j <= l < m ==> #[trigger] row@[l] == like(v, pattern@.skip(l)),
        decreases j,
    {
        j -= 1;
        proof {
            assert(pattern@.skip(j as int).skip(1) =~= pattern@.skip(j + 1));
            assert(pattern@.skip(j as int)[0] == pattern@[j as int]);
            assert(like(v, pattern@.skip(m as int)) == (v.len() == 0));
            assert(like(v.skip(1), pattern@.skip(m as int)) == (v.skip(1).len() == 0));
            if i < n {
                assert(v.skip(1) =~= value@.skip(i + 1));
                assert(v[0] == value@[i as int]);
            }
        }
        let covers: bool = if pattern[j] == '%' {
            let none: bool = if j + 1 < m {
                row[j + 1]
            } else {
                i == n
            };
            none || (i < n && next[j])
        } else if i < n && value[i] == pattern[j] {
            if j + 1 < m {
                next[j + 1]
            } else {
                i + 1 == n
            }
        } else {
            false
        };
        assert(covers == like(v, pattern@.skip(j as int)));
        row.set(j, covers);
    }
    row
}

/// SQL LIKE matching (supports the % wildcard).
pub fn sql_like_match(value: &str, pattern: &str) -> (r: bool)
    ensures
        r == like(value@, pattern@),
{
    let v = text::chars_of(value);
    let p = text::chars_of(pattern);
    if p.len() == 0 {
        return v.len() == 0;
    }
    let nothing: Vec<bool> = Vec::new();
    let mut i: usize = v.len();
    let mut row = like_row(&v, &p, i, &nothing);
    while i > 0
        invariant
            i <= v@.len(),
            is_row(v@.skip(i as int), p@, row@),
        decreases i,
    {
        i -= 1;
        row = like_row(&v, &p, i, &row);
    }
    assert(v@.skip(0) =~= v@ && p@.skip(0) =~= p@);
    row[0]
}

/// The subject passes the condition, where that is about subjects.
pub open spec fn meets_subject(c: (Field, Seq<char>), subject: Seq<char>) -> bool {
    c.0 == Field::Subject ==> like(subject, c.1)
}

/// The event passes the condition, where that is about types or times. A time that cannot
/// be read is no condition.
pub open spec fn meets(c: (Field, Seq<char>), e: Event) -> bool {
    match c.0 {
        Field::Subject => true,
        Field::Type => e.event_type@ == c.1,
        Field::After => outside::rfc3339_time(c.1) matches Ok(limit) ==> limit.earlier(e.time),
        Field::Before => outside::rfc3339_time(c.1) matches Ok(limit) ==> e.time.earlier(limit),
    }
}

/// The subject is among those that the query reads: it passes every condition.
pub open spec fn reads_subject(conditions: Seq<(Field, Seq<char>)>, subject: Seq<char>) -> bool {
    forall|i: int|
        0 <= i < conditions.len() ==> meets_subject(#[trigger] conditions[i], subject)
}

/// The event passes every type and time condition of the query.
pub open spec fn passes(conditions: Seq<(Field, Seq<char>)>, e: Event) -> bool {
    forall|i: int| 0 <= i < conditions.len() ==> meets(#[trigger] conditions[i], e)
}

fn subject_passes(query: &EventQuery, subject: &str) -> (r: bool)
    ensures
        r == reads_subject(condition_views(query.conditions@), subject@),
{
    let ghost cs = condition_views(query.conditions@);
    let mut i: usize = 0;
    while i < query.conditions.len()
        invariant
            i <= query.conditions@.len(),
            cs == condition_views(query.conditions@),
            forall|j: int| 0 <= j < i ==> meets_subject(#[trigger] cs[j], subject@),
        decreases query.conditions.len() - i,
    {
        assert(cs[i as int] == query.conditions@[i as int]@);
        if let Condition::SubjectLike(pattern) = &query.conditions[i] {
            if !sql_like_match(subject, pattern) {
                return false;
            }
        }
        i += 1;
    }
    true
}

/// The subjects that a query reads, in their order.
pub fn select_subjects(query: &EventQuery, subjects: &[String]) -> (r: Vec<String>)
    ensures
        text::views(r@) == text::views(subjects@).filter(
            |s: Seq<char>| reads_subject(condition_views(query.conditions@), s),
        ),
{
    let ghost cs = condition_views(query.conditions@);
    let ghost keep = |s: Seq<char>| reads_subject(cs, s);
    let ghost all = text::views(subjects@);
    let mut out: Vec<String> = Vec::new();
    let mut i: usize = 0;
    proof {
        reveal(Seq::filter);
        assert(all.take(0).filter(keep) =~= Seq::<Seq<char>>::empty());
        assert(text::views(out@) =~= Seq::<Seq<char>>::empty());
    }
    while i < subjects.len()
        invariant
            i <= subjects@.len(),
            cs == condition_views(query.conditions@),
            keep == (|s: Seq<char>| reads_subject(cs, s)),
            all == text::views(subjects@),
            text::views(out@) == all.take(i as int).filter(keep),
        decreases subjects.len() - i,
    {
        let ghost before = out@;
        proof {
            reveal(Seq::filter);
            assert(all.take(i + 1).drop_last() =~= all.take(i as int));
            assert(all.take(i + 1).last() == subjects@[i as int]@);
        }
        if subject_passes(query, &subjects[i]) {
            out.push(subjects[i].clone());
            assert(text::views(out@) =~= text::views(before).push(subjects@[i as int]@));
        }
        i += 1;
    }
    assert(all.take(all.len() as int) =~= all);
    out
}

fn event_meets(c: &Condition, e: &Event) -> (r: bool)
    ensures
        r == meets(c@, *e),
{
    match c {
        Condition::SubjectLike(_) => true,
        Condition::TypeEquals(t) => text::same(&e.event_type, t),
        Condition::TimeAfter(t) => match parse_rfc3339(t) {
            Ok(limit) => limit.is_before(&e.time),
            Err(_) => true,
        },
        Condition::TimeBefore(t) => match parse_rfc3339(t) {
            Ok(limit) => e.time.is_before(&limit),
            Err(_) => true,
        },
    }
}

fn event_passes(query: &EventQuery, e: &Event) -> (r: bool)
    ensures
        r == passes(condition_views(query.conditions@), *e),
{
    let ghost cs = condition_views(query.conditions@);
    let mut i: usize = 0;
    while i < query.conditions.len()
        invariant
            i <= query.conditions@.len(),
            cs == condition_views(query.conditions@),
            forall|j: int| 0 <= j < i ==> meets(#[trigger] cs[j], *e),
        decreases query.conditions.len() - i,
    {
        assert(cs[i as int] == query.conditions@[i as int]@);
        if !event_meets(&query.conditions[i], e) {
            return false;
        }
        i += 1;
    }
    true
}

/// The events of a query, from those read for its subjects, in their order.
pub fn filter_events(query: &EventQuery, events: Vec<Event>) -> (r: Vec<Event>)
    ensures
        r@ == events@.filter(|e: Event| passes(condition_views(query.conditions@), e)),
{
    let ghost cs = condition_views(query.conditions@);
    let ghost keep = |e: Event| passes(cs, e);
    let ghost whole = events@;
    let mut rest = events;
    let mut out: Vec<Event> = Vec::new();
    let ghost mut n: int = 0;
    proof {
        reveal(Seq::filter);
        assert(whole.take(0).filter(keep) =~= Seq::<Event>::empty());
        assert(rest@ =~= whole.skip(0));
    }
    while rest.len() > 0
        invariant
            cs == condition_views(query.conditions@),
            keep == (|e: Event| passes(cs, e)),
            0 <= n <= whole.len(),
            rest@ == whole.skip(n),
            out@ == whole.take(n).filter(keep),
        decreases rest.len(),
    {
        proof {
            reveal(Seq::filter);
            assert(whole.take(n + 1).drop_last() =~= whole.take(n));
            assert(whole.take(n + 1).last() == whole[n]);
            assert(rest@[0] == whole[n]);
        }
        let e = rest.remove(0);
        assert(rest@ =~= whole.skip(n + 1));
        if event_passes(query, &e) {
            out.push(e);
        }
        proof {
            n = n + 1;
        }
    }
    assert(whole.take(n) =~= whole);
    out
}

// ---------------------------------------------------------------------------
// Laws
// ---------------------------------------------------------------------------

/// The text with every ASCII letter in lowercase.
pub open spec fn lower(s: Seq<char>) -> Seq<char> {
    s.map_values(|c: char| text::ascii_lower(c))
}

/// Keywords are matched without regard to the case of ASCII letters.
pub proof fn law_keywords_ignore_case(s: Seq<char>, keyword: Seq<char>)
    ensures
        begins(lower(s), keyword) <==> begins(s, keyword),
{
    lemma_upper_of_lower(s);
}

proof fn lemma_upper_of_lower(s: Seq<char>)
    ensures
        upper(lower(s)) == upper(s),
    decreases s.len(),
{
    if s.len() > 0 {
        lemma_upper_of_lower(s.drop_last());
        assert(lower(s).drop_last() =~= lower(s.drop_last()));
        assert(lower(s).last() == text::ascii_lower(s.last()));
        let c = s.last();
        assert(upper_char(text::ascii_lower(c)) =~= upper_char(c));
    } else {
        assert(lower(s) =~= s);
    }
}

proof fn lemma_ascii_cut(s: Seq<char>, n: nat)
    requires
        outside::is_ascii_text(s),
        n <= s.len(),
    ensures
        after_bytes(s, n) == Some(s.skip(n as int)),
    decreases s.len(),
{
    if n > 0 {
        assert(s[0] as u32 <= 0x7f);
        assert forall|i: int| 0 <= i < s.skip(1).len() implies (#[trigger] s.skip(1)[i]) as u32
            <= 0x7f by {
            assert(s.skip(1)[i] == s[i + 1]);
        }
        lemma_ascii_cut(s.skip(1), (n - 1) as nat);
        assert(s.skip(1).skip(n - 1) =~= s.skip(n as int));
    } else {
        assert(s.skip(0) =~= s);
    }
}

proof fn lemma_ascii_upper_len(s: Seq<char>)
    requires
        outside::is_ascii_text(s),
    ensures
        upper(s).len() == s.len(),
    decreases s.len(),
{
    if s.len() > 0 {
        assert(s.last() as u32 <= 0x7f);
        lemma_ascii_part(s, s.drop_last());
        lemma_ascii_upper_len(s.drop_last());
    }
}

proof fn lemma_ascii_part(s: Seq<char>, t: Seq<char>)
    requires
        outside::is_ascii_text(s),
        s.len() > 0,
        t == s.drop_last(),
    ensures
        outside::is_ascii_text(t),
{
    assert forall|i: int| 0 <= i < t.len() implies (#[trigger] t[i]) as u32 <= 0x7f by {
        assert(t[i] == s[i]);
    }
}

proof fn lemma_trim_front_ascii(s: Seq<char>)
    requires
        outside::is_ascii_text(s),
    ensures
        outside::is_ascii_text(text::trim_front(s)),
    decreases s.len(),
{
    if s.len() > 0 && text::is_space(s[0]) {
        assert(outside::is_ascii_text(s.skip(1))) by {
            assert forall|i: int| 0 <= i < s.skip(1).len() implies (#[trigger] s.skip(1)[i]) as u32
                <= 0x7f by {
                assert(s.skip(1)[i] == s[i + 1]);
            }
        }
        lemma_trim_front_ascii(s.skip(1));
    }
}

proof fn lemma_trim_back_ascii(s: Seq<char>)
    requires
        outside::is_ascii_text(s),
    ensures
        outside::is_ascii_text(text::trim_back(s)),
    decreases s.len(),
{
    if s.len() > 0 && text::is_space(s.last()) {
        lemma_ascii_part(s, s.drop_last());
        lemma_trim_back_ascii(s.drop_last());
    }
}

proof fn lemma_skip_ascii(s: Seq<char>, n: int)
    requires
        outside::is_ascii_text(s),
        0 <= n <= s.len(),
    ensures
        outside::is_ascii_text(s.skip(n)),
{
    assert forall|i: int| 0 <= i < s.skip(n).len() implies (#[trigger] s.skip(n)[i]) as u32
        <= 0x7f by {
        assert(s.skip(n)[i] == s[i + n]);
    }
}

proof fn lemma_keyword_cut(s: Seq<char>, keyword: Seq<char>)
    requires
        outside::is_ascii_text(s),
        begins(s, keyword),
    ensures
        after_bytes(s, keyword.len()) == Some(s.skip(keyword.len() as int)),
        outside::is_ascii_text(s.skip(keyword.len() as int)),
        keyword.len() <= s.len(),
{
    lemma_ascii_upper_len(s);
    lemma_ascii_cut(s, keyword.len());
    lemma_skip_ascii(s, keyword.len() as int);
}

proof fn lemma_condition_ascii(s: Seq<char>, var: Seq<char>)
    requires
        outside::is_ascii_text(s),
    ensures
        one_condition(s, var) is Some,
        one_condition(s, var) matches Some(Ok(v)) ==> outside::is_ascii_text(v.1),
{
    reveal_strlit("SUBJECT LIKE ");
    reveal_strlit("TYPE = ");
    reveal_strlit("TIME > ");
    reveal_strlit("TIME < ");
    reveal_strlit("AND ");
    assert("SUBJECT LIKE "@.len() == 13);
    assert("TYPE = "@.len() == 7);
    assert("TIME > "@.len() == 7);
    assert("TIME < "@.len() == 7);
    assert("AND "@.len() == 4);
    let prefix = var + "."@;
    if prefix.is_prefix_of(s) {
        lemma_skip_ascii(s, prefix.len() as int);
        let body = s.skip(prefix.len() as int);
        if begins(body, "SUBJECT LIKE "@) {
            lemma_keyword_cut(body, "SUBJECT LIKE "@);
        } else if begins(body, "TYPE = "@) {
            lemma_keyword_cut(body, "TYPE = "@);
        } else if begins(body, "TIME > "@) {
            lemma_keyword_cut(body, "TIME > "@);
        } else if begins(body, "TIME < "@) {
            lemma_keyword_cut(body, "TIME < "@);
        }
        if let Some(head) = condition_head(body) {
            let tail = body.skip(head.1 as int);
            assert(after_bytes(body, head.1) == Some(tail));
            lemma_trim_front_ascii(tail);
            let t = text::trim_front(tail);
            if let Ok(v) = quoted(tail) {
                lemma_skip_ascii(t, 1);
                lemma_place_of(t.skip(1), t[0]);
                lemma_skip_ascii(t.skip(1), place_of(t.skip(1), t[0]) + 1);
                lemma_trim_front_ascii(v.1);
                let rest = text::trim_front(v.1);
                if begins(rest, "AND "@) {
                    lemma_keyword_cut(rest, "AND "@);
                    lemma_trim_front_ascii(rest.skip(4));
                }
            }
        }
    }
}

proof fn lemma_where_ascii(s: Seq<char>, var: Seq<char>)
    requires
        outside::is_ascii_text(s),
    ensures
        where_conditions(s, var) is Some,
    decreases s.len(),
{
    if s.len() > 0 && !begins(s, "PROJECT"@) {
        lemma_condition_ascii(s, var);
        lemma_one_condition_shorter(s, var);
        if let Some(Ok(v)) = one_condition(s, var) {
            lemma_where_ascii(v.1, var);
        }
    }
}

/// Every ASCII text can be read: it is a query, or it is refused with a message.
pub proof fn law_ascii_text_is_readable(input: Seq<char>)
    requires
        outside::is_ascii_text(input),
    ensures
        reading(input) is Some,
{
    reveal_strlit("FROM ");
    reveal_strlit("IN EVENTS");
    reveal_strlit("WHERE ");
    assert("FROM "@.len() == 5);
    assert("IN EVENTS"@.len() == 9);
    assert("WHERE "@.len() == 6);
    lemma_trim_front_ascii(input);
    lemma_trim_back_ascii(text::trim_front(input));
    let s = text::trimmed(input);
    if begins(s, "FROM "@) {
        lemma_keyword_cut(s, "FROM "@);
        lemma_trim_front_ascii(s.skip(5));
        let t = text::trim_front(s.skip(5));
        lemma_first_space(t);
        let n = first_space(t);
        if n < t.len() {
            lemma_skip_ascii(t, n);
            lemma_trim_front_ascii(t.skip(n));
            let body = text::trim_front(t.skip(n));
            if begins(body, "IN EVENTS"@) {
                lemma_keyword_cut(body, "IN EVENTS"@);
                lemma_trim_front_ascii(body.skip(9));
                let clauses = text::trim_front(body.skip(9));
                if begins(clauses, "WHERE "@) {
                    lemma_keyword_cut(clauses, "WHERE "@);
                    lemma_trim_front_ascii(clauses.skip(6));
                    lemma_trim_back_ascii(text::trim_front(clauses.skip(6)));
                    lemma_where_ascii(text::trimmed(clauses.skip(6)), t.take(n));
                }
            }
        }
    }
}

// ---------------------------------------------------------------------------
// Writing a query out
// ---------------------------------------------------------------------------

/// The text is spelled like the keyword, with its letters in any case.
pub open spec fn spells(s: Seq<char>, keyword: Seq<char>) -> bool {
    &&& outside::is_ascii_text(s)
    &&& s.len() == keyword.len()
    &&& forall|i: int| 0 <= i < s.len() ==> #[trigger] keyword[i] == ascii_upper(s[i])
}

/// What stands between the variable and the value of a condition.
pub open spec fn head_keyword(field: Field) -> Seq<char> {
    match field {
        Field::Subject => "SUBJECT LIKE "@,
        Field::Type => "TYPE = "@,
        Field::After => "TIME > "@,
        Field::Before => "TIME < "@,
    }
}

/// The words in which a query is written.
pub struct Spelling {
    /// FROM, and the space behind it.
    pub from: Seq<char>,
    /// IN EVENTS.
    pub events: Seq<char>,
    /// WHERE, and the space behind it.
    pub conditions: Seq<char>,
    /// What stands between variable and value of each condition.
    pub heads: Seq<Seq<char>>,
    /// The AND before each condition but the first, and the space behind it.
    pub ands: Seq<Seq<char>>,
    /// PROJECT INTO, and the space behind it, where the query has that.
    pub project: Option<Seq<char>>,
    /// The white space between the parts.
    pub gap: Seq<char>,
}

impl Spelling {
    /// The words are those of the language, for conditions about these fields.
    pub open spec fn is_proper(self, cs: Seq<(Field, Seq<char>)>) -> bool {
        &&& spells(self.from, "FROM "@)
        &&& spells(self.events, "IN EVENTS"@)
        &&& spells(self.conditions, "WHERE "@)
        &&& self.heads.len() == cs.len() && self.ands.len() == cs.len()
        &&& forall|i: int|
            0 <= i < cs.len() ==> spells(#[trigger] self.heads[i], head_keyword(cs[i].0))
        &&& forall|i: int| 0 <= i < cs.len() ==> spells(#[trigger] self.ands[i], "AND "@)
        &&& self.project matches Some(p) ==> spells(p, "PROJECT INTO "@)
        &&& self.gap.len() > 0
        &&& forall|i: int| 0 <= i < self.gap.len() ==> text::is_space(#[trigger] self.gap[i])
    }

    /// The words without those of the first condition.
    pub open spec fn rest(self) -> Spelling {
        Spelling { heads: self.heads.skip(1), ands: self.ands.skip(1), ..self }
    }
}

/// The end of a query, written out.
pub open spec fn end_text(var: Seq<char>, w: Spelling) -> Seq<char> {
    match w.project {
        Some(p) => w.gap + (p + var),
        None => Seq::empty(),
    }
}

/// A condition, written out.
pub open spec fn condition_text(var: Seq<char>, head: Seq<char>, value: Seq<char>) -> Seq<char> {
    (var + "."@) + (head + ("\""@ + value + "\""@))
}

/// Conditions and the end of the query, written out.
pub open spec fn clause_text(var: Seq<char>, cs: Seq<(Field, Seq<char>)>, w: Spelling) -> Seq<char>
    decreases cs.len(),
{
    if cs.len() == 0 {
        Seq::empty()
    } else if cs.len() == 1 {
        condition_text(var, w.heads[0], cs[0].1) + end_text(var, w)
    } else {
        condition_text(var, w.heads[0], cs[0].1) + (w.gap + (w.ands[1] + clause_text(
            var,
            cs.skip(1),
            w.rest(),
        )))
    }
}

/// A query, written out.
pub open spec fn query_text(var: Seq<char>, cs: Seq<(Field, Seq<char>)>, w: Spelling) -> Seq<char> {
    w.from + (var + (w.gap + (w.events + (if cs.len() == 0 {
        end_text(var, w)
    } else {
        w.gap + (w.conditions + clause_text(var, cs, w))
    }))))
}

/// The text holds no white space.
pub open spec fn unspaced(s: Seq<char>) -> bool {
    forall|i: int| 0 <= i < s.len() ==> !text::is_space(#[trigger] s[i])
}

/// No value holds a double quote.
pub open spec fn values_unquoted(cs: Seq<(Field, Seq<char>)>) -> bool {
    forall|i: int| 0 <= i < cs.len() ==> !(#[trigger] cs[i]).1.contains('"')
}

/// The uppercase of an ASCII character.
pub open spec fn ascii_upper(c: char) -> char {
    if 'a' <= c <= 'z' {
        (c as u32 - 32) as char
    } else {
        c
    }
}

proof fn lemma_upper_ascii(s: Seq<char>)
    requires
        outside::is_ascii_text(s),
    ensures
        upper(s).len() == s.len(),
        forall|i: int| 0 <= i < s.len() ==> #[trigger] upper(s)[i] == ascii_upper(s[i]),
    decreases s.len(),
{
    if s.len() > 0 {
        lemma_ascii_part(s, s.drop_last());
        lemma_upper_ascii(s.drop_last());
        assert(s[s.len() - 1] as u32 <= 0x7f);
        assert(upper_char(s.last()) =~= seq![ascii_upper(s.last())]);
        assert forall|i: int| 0 <= i < s.len() implies #[trigger] upper(s)[i] == ascii_upper(
            s[i],
        ) by {
            if i < s.len() - 1 {
                assert(upper(s)[i] == upper(s.drop_last())[i]);
                assert(s.drop_last()[i] == s[i]);
            }
        }
    }
}

proof fn lemma_after_ascii(head: Seq<char>, rest: Seq<char>)
    requires
        outside::is_ascii_text(head),
    ensures
        after_bytes(head + rest, head.len()) == Some(rest),
    decreases head.len(),
{
    if head.len() > 0 {
        assert(head[0] as u32 <= 0x7f);
        assert forall|i: int| 0 <= i < head.skip(1).len() implies (#[trigger] head.skip(1)[i])
            as u32 <= 0x7f by {
            assert(head.skip(1)[i] == head[i + 1]);
        }
        lemma_after_ascii(head.skip(1), rest);
        assert((head + rest).skip(1) =~= head.skip(1) + rest);
        assert((head + rest)[0] == head[0]);
    } else {
        assert(head + rest =~= rest);
    }
}

/// A text that begins with the letters of a keyword, in any case, begins with the keyword,
/// and what follows is what is left.
proof fn lemma_keyword(head: Seq<char>, keyword: Seq<char>, rest: Seq<char>)
    requires
        spells(head, keyword),
    ensures
        begins(head + rest, keyword),
        after_bytes(head + rest, keyword.len()) == Some(rest),
{
    lemma_upper_concat(head, rest);
    lemma_upper_ascii(head);
    assert(upper(head) =~= keyword);
    assert(keyword =~= (upper(head) + upper(rest)).take(keyword.len() as int));
    lemma_after_ascii(head, rest);
}

/// A text that begins with the letters of a keyword does not begin with one that differs.
proof fn lemma_no_keyword(
    head: Seq<char>,
    spelled: Seq<char>,
    keyword: Seq<char>,
    rest: Seq<char>,
    i: int,
)
    requires
        spells(head, spelled),
        0 <= i < spelled.len(),
        i < keyword.len(),
        keyword[i] != spelled[i],
    ensures
        !begins(head + rest, keyword),
{
    assert(spelled[i] == ascii_upper(head[i]));
    lemma_upper_concat(head, rest);
    lemma_upper_ascii(head);
    if begins(head + rest, keyword) {
        assert(keyword[i] == (upper(head) + upper(rest))[i]);
        assert(upper(head)[i] == ascii_upper(head[i]));
    }
}

proof fn lemma_not_project(var: Seq<char>, rest: Seq<char>)
    requires
        !begins(var, "PROJECT"@),
    ensures
        !begins((var + "."@) + rest, "PROJECT"@),
{
    reveal_strlit("PROJECT");
    reveal_strlit(".");
    let k = "PROJECT"@;
    assert(outside::is_ascii_text("."@));
    lemma_upper_ascii("."@);
    lemma_upper_concat(var, "."@);
    lemma_upper_concat(var + "."@, rest);
    let u = upper(var);
    let whole = upper((var + "."@) + rest);
    assert(whole =~= u + upper("."@) + upper(rest));
    if begins((var + "."@) + rest, k) {
        if u.len() >= k.len() {
            assert(k =~= u.take(k.len() as int)) by {
                assert forall|i: int| 0 <= i < k.len() implies k[i] == u[i] by {
                    assert(k[i] == whole[i]);
                }
            }
            assert(k.is_prefix_of(u));
        } else {
            assert(whole[u.len() as int] == '.');
            assert(k[u.len() as int] == '.');
        }
    }
}

proof fn lemma_head(field: Field, h: Seq<char>, rest: Seq<char>)
    requires
        spells(h, head_keyword(field)),
    ensures
        condition_head(h + rest) == Some((field, h.len())),
        after_bytes(h + rest, h.len()) == Some(rest),
{
    reveal_strlit("SUBJECT LIKE ");
    reveal_strlit("TYPE = ");
    reveal_strlit("TIME > ");
    reveal_strlit("TIME < ");
    let k = head_keyword(field);
    lemma_keyword(h, k, rest);
    match field {
        Field::Subject => {},
        Field::Type => {
            lemma_no_keyword(h, k, "SUBJECT LIKE "@, rest, 0);
        },
        Field::After => {
            lemma_no_keyword(h, k, "SUBJECT LIKE "@, rest, 0);
            lemma_no_keyword(h, k, "TYPE = "@, rest, 1);
        },
        Field::Before => {
            lemma_no_keyword(h, k, "SUBJECT LIKE "@, rest, 0);
            lemma_no_keyword(h, k, "TYPE = "@, rest, 1);
            lemma_no_keyword(h, k, "TIME > "@, rest, 5);
        },
    }
}

/// White space in front is dropped, up to what is none.
proof fn lemma_gap(gap: Seq<char>, rest: Seq<char>)
    requires
        forall|i: int| 0 <= i < gap.len() ==> text::is_space(#[trigger] gap[i]),
        rest.len() > 0,
        !text::is_space(rest[0]),
    ensures
        text::trim_front(gap + rest) == rest,
    decreases gap.len(),
{
    if gap.len() == 0 {
        assert(gap + rest =~= rest);
    } else {
        assert((gap + rest)[0] == gap[0]);
        assert((gap + rest).skip(1) =~= gap.skip(1) + rest);
        assert forall|i: int| 0 <= i < gap.skip(1).len() implies text::is_space(
            #[trigger] gap.skip(1)[i],
        ) by {
            assert(gap.skip(1)[i] == gap[i + 1]);
        }
        lemma_gap(gap.skip(1), rest);
    }
}

/// A word that is spelled like a keyword begins with no white space.
proof fn lemma_word_start(s: Seq<char>, keyword: Seq<char>)
    requires
        spells(s, keyword),
        keyword.len() > 0,
        'A' <= keyword[0] <= 'Z',
    ensures
        s.len() > 0,
        !text::is_space(s[0]),
{
    assert(keyword[0] == ascii_upper(s[0]));
}

proof fn lemma_quoted_value(value: Seq<char>, rest: Seq<char>)
    requires
        !value.contains('"'),
    ensures
        quoted(("\""@ + value + "\""@) + rest) == Ok::<(Seq<char>, Seq<char>), Seq<char>>(
            (value, rest),
        ),
{
    reveal_strlit("\"");
    let t = ("\""@ + value + "\""@) + rest;
    assert(t[0] == '"');
    assert(text::trim_front(t) == t);
    let body = t.skip(1);
    assert(body =~= value + "\""@ + rest);
    assert(body[value.len() as int] == '"');
    lemma_place_of(body, '"');
    let p = place_of(body, '"');
    if p < value.len() {
        assert(value[p] == body[p]);
        assert(value.contains('"'));
    }
    assert(p == value.len());
    assert(body.take(p) =~= value);
    assert(body.skip(p + 1) =~= rest);
}

proof fn lemma_end_written(var: Seq<char>, w: Spelling, cs: Seq<(Field, Seq<char>)>)
    requires
        var.len() > 0,
        unspaced(var),
        w.is_proper(cs),
    ensures
        ({
            let e = text::trim_front(end_text(var, w));
            &&& !begins(e, "AND "@)
            &&& !begins(e, "WHERE "@)
            &&& e.len() == 0 || begins(e, "PROJECT"@)
            &&& e.len() > 0 ==> !text::is_space(e[0])
            &&& end_text(var, w).len() > 0 ==> end_text(var, w).last() == var.last()
        }),
{
    reveal_strlit("PROJECT INTO ");
    reveal_strlit("PROJECT");
    reveal_strlit("AND ");
    reveal_strlit("WHERE ");
    match w.project {
        Some(p) => {
            let k = "PROJECT INTO "@;
            lemma_word_start(p, k);
            lemma_gap(w.gap, p + var);
            lemma_no_keyword(p, k, "AND "@, var, 0);
            lemma_no_keyword(p, k, "WHERE "@, var, 0);
            lemma_keyword(p, k, var);
            let u = upper(p + var);
            assert("PROJECT"@ =~= u.take(7)) by {
                assert forall|i: int| 0 <= i < 7 implies "PROJECT"@[i] == u[i] by {
                    assert(k.is_prefix_of(u));
                    assert(k[i] == u[i]);
                }
            }
        },
        None => {
            assert(upper(Seq::<char>::empty()).len() == 0);
        },
    }
}

proof fn lemma_one_condition_written(
    var: Seq<char>,
    c: (Field, Seq<char>),
    head: Seq<char>,
    tail: Seq<char>,
)
    requires
        var.len() > 0,
        unspaced(var),
        !c.1.contains('"'),
        spells(head, head_keyword(c.0)),
    ensures
        ({
            let rest = text::trim_front(tail);
            one_condition(condition_text(var, head, c.1) + tail, var) == if begins(rest, "AND "@) {
                match after_bytes(rest, 4) {
                    None => None,
                    Some(next) => Some(
                        Ok::<((Field, Seq<char>), Seq<char>), Seq<char>>(
                            (c, text::trim_front(next)),
                        ),
                    ),
                }
            } else {
                Some(Ok::<((Field, Seq<char>), Seq<char>), Seq<char>>((c, rest)))
            }
        }),
{
    let s = condition_text(var, head, c.1) + tail;
    let prefix = var + "."@;
    let value = "\""@ + c.1 + "\""@;
    let body = head + (value + tail);
    assert(s =~= prefix + body);
    assert(prefix.is_prefix_of(s)) by {
        assert(prefix =~= s.take(prefix.len() as int));
    }
    assert(s.skip(prefix.len() as int) =~= body);
    lemma_head(c.0, head, value + tail);
    lemma_quoted_value(c.1, tail);
}

proof fn lemma_clause_written(var: Seq<char>, cs: Seq<(Field, Seq<char>)>, w: Spelling)
    requires
        var.len() > 0,
        unspaced(var),
        !begins(var, "PROJECT"@),
        values_unquoted(cs),
        w.is_proper(cs),
        cs.len() > 0,
    ensures
        where_conditions(clause_text(var, cs, w), var) == Some(
            Ok::<Seq<(Field, Seq<char>)>, Seq<char>>(cs),
        ),
        clause_text(var, cs, w).len() > 0,
        clause_text(var, cs, w)[0] == var[0],
        !text::is_space(clause_text(var, cs, w).last()),
    decreases cs.len(),
{
    reveal_strlit("\"");
    reveal_strlit("AND ");
    let rest = cs.skip(1);
    let s = clause_text(var, cs, w);
    assert(!text::is_space(var[0]) && !text::is_space(var[var.len() - 1]));
    assert(!cs[0].1.contains('"'));
    assert(spells(w.heads[0], head_keyword(cs[0].0)));
    let written = condition_text(var, w.heads[0], cs[0].1);
    assert(written.last() == '"');
    let tail = if cs.len() == 1 {
        end_text(var, w)
    } else {
        w.gap + (w.ands[1] + clause_text(var, rest, w.rest()))
    };
    assert(s == written + tail);
    lemma_one_condition_written(var, cs[0], w.heads[0], tail);
    let after = (w.heads[0] + ("\""@ + cs[0].1 + "\""@)) + tail;
    assert(s =~= (var + "."@) + after);
    lemma_not_project(var, after);
    assert(seq![cs[0]] + rest =~= cs);
    if cs.len() == 1 {
        lemma_end_written(var, w, cs);
        assert(rest =~= Seq::<(Field, Seq<char>)>::empty());
        assert(where_conditions(text::trim_front(tail), var) == Some(
            Ok::<Seq<(Field, Seq<char>)>, Seq<char>>(rest),
        ));
        assert(s.last() == if tail.len() == 0 {
            '"'
        } else {
            var.last()
        });
    } else {
        assert forall|i: int| 0 <= i < rest.len() implies !(#[trigger] rest[i]).1.contains('"') by {
            assert(rest[i] == cs[i + 1]);
        }
        let u = w.rest();
        assert(u.is_proper(rest)) by {
            assert forall|i: int| 0 <= i < rest.len() implies spells(
                #[trigger] u.heads[i],
                head_keyword(rest[i].0),
            ) by {
                assert(u.heads[i] == w.heads[i + 1]);
                assert(rest[i] == cs[i + 1]);
            }
            assert forall|i: int| 0 <= i < rest.len() implies spells(
                #[trigger] u.ands[i],
                "AND "@,
            ) by {
                assert(u.ands[i] == w.ands[i + 1]);
            }
        }
        lemma_clause_written(var, rest, u);
        let next = clause_text(var, rest, u);
        assert(spells(w.ands[1], "AND "@));
        lemma_word_start(w.ands[1], "AND "@);
        assert((w.ands[1] + next)[0] == w.ands[1][0]);
        lemma_gap(w.gap, w.ands[1] + next);
        lemma_keyword(w.ands[1], "AND "@, next);
        assert(text::trim_front(next) == next);
        assert(s.last() == next.last());
    }
    assert(where_conditions(s, var) == Some(
        Ok::<Seq<(Field, Seq<char>)>, Seq<char>>(seq![cs[0]] + rest),
    ));
}

proof fn lemma_first_space_at(s: Seq<char>, n: int)
    requires
        0 <= n < s.len(),
        text::is_space(s[n]),
        forall|i: int| 0 <= i < n ==> !text::is_space(#[trigger] s[i]),
    ensures
        first_space(s) == n,
{
    lemma_first_space(s);
    if first_space(s) < n {
        assert(!text::is_space(s[first_space(s)]));
    }
}

/// A query that is written out is read back: its variable and its conditions, in their order,
/// whatever the case of its keywords and the white space between its parts, with and without
/// PROJECT INTO. The variable is a word without white space that, where there are conditions,
/// does not begin with PROJECT, and no value holds a double quote.
pub proof fn law_a_written_query_is_read_back(
    var: Seq<char>,
    cs: Seq<(Field, Seq<char>)>,
    w: Spelling,
)
    requires
        var.len() > 0,
        unspaced(var),
        cs.len() > 0 ==> !begins(var, "PROJECT"@),
        values_unquoted(cs),
        w.is_proper(cs),
    ensures
        reading(query_text(var, cs, w)) == Some(
            Ok::<(Seq<char>, Seq<(Field, Seq<char>)>), Seq<char>>((var, cs)),
        ),
{
    reveal_strlit("FROM ");
    reveal_strlit("IN EVENTS");
    reveal_strlit("WHERE ");
    let s = query_text(var, cs, w);
    lemma_end_written(var, w, cs);
    if cs.len() > 0 {
        lemma_clause_written(var, cs, w);
    }
    let clause = clause_text(var, cs, w);
    let tail = if cs.len() == 0 {
        end_text(var, w)
    } else {
        w.gap + (w.conditions + clause)
    };
    let body = w.events + tail;
    let t = var + (w.gap + body);
    assert(s == w.from + t);
    lemma_word_start(w.from, "FROM "@);
    lemma_word_start(w.events, "IN EVENTS"@);
    lemma_word_start(w.conditions, "WHERE "@);
    assert(!text::is_space(var[0]) && !text::is_space(var[var.len() - 1]));
    assert(s[0] == w.from[0]);
    assert("IN EVENTS"@[8] == ascii_upper(w.events[8]));
    assert(!text::is_space(s.last())) by {
        if cs.len() > 0 {
            assert(s.last() == clause.last());
        } else if tail.len() > 0 {
            assert(s.last() == tail.last());
        } else {
            assert(s.last() == w.events[8]);
        }
    }
    assert(text::trimmed(s) == s);
    lemma_keyword(w.from, "FROM "@, t);
    assert(t[0] == var[0]);
    assert(text::trim_front(t) == t);
    let n = var.len() as int;
    assert(t[n] == w.gap[0]);
    assert forall|i: int| 0 <= i < n implies !text::is_space(#[trigger] t[i]) by {
        assert(t[i] == var[i]);
    }
    lemma_first_space_at(t, n);
    assert(t.take(n) =~= var);
    assert(t.skip(n) =~= w.gap + body);
    assert(body[0] == w.events[0]);
    lemma_gap(w.gap, body);
    lemma_keyword(w.events, "IN EVENTS"@, tail);
    if cs.len() == 0 {
        assert(cs =~= Seq::<(Field, Seq<char>)>::empty());
    } else {
        assert((w.conditions + clause)[0] == w.conditions[0]);
        lemma_gap(w.gap, w.conditions + clause);
        lemma_keyword(w.conditions, "WHERE "@, clause);
        assert(text::trimmed(clause) == clause);
    }
}

/// What a query reads: of the subjects exactly those that every `LIKE` of it covers, and of
/// their events exactly those of the type that it asks for and strictly between the times that
/// it gives. A time that cannot be read leaves everything in.
pub proof fn law_what_a_query_finds(
    query: &EventQuery,
    subjects: &[String],
    read: Vec<String>,
    events: Vec<Event>,
    found: Vec<Event>,
    s: Seq<char>,
    e: Event,
)
    requires
        call_ensures(select_subjects, (query, subjects), read),
        call_ensures(filter_events, (query, events), found),
    ensures
        text::views(read@).contains(s) <==> text::views(subjects@).contains(s) && forall|i: int|
            0 <= i < query.conditions@.len() ==> (#[trigger] query.conditions@[i] matches Condition::SubjectLike(
                p,
            ) ==> like(s, p@)),
        found@.contains(e) ==> events@.contains(e),
        found@.contains(e) ==> forall|i: int|
            0 <= i < query.conditions@.len() ==> (#[trigger] query.conditions@[i] matches Condition::TypeEquals(
                t,
            ) ==> e.event_type@ == t@),
        found@.contains(e) ==> forall|i: int|
            0 <= i < query.conditions@.len() ==> (#[trigger] query.conditions@[i] matches Condition::TimeAfter(
                t,
            ) ==> (outside::rfc3339_time(t@) matches Ok(limit) ==> limit.secs < e.time.secs || (
            limit.secs == e.time.secs && limit.nanos < e.time.nanos))),
        found@.contains(e) ==> forall|i: int|
            0 <= i < query.conditions@.len() ==> (#[trigger] query.conditions@[i] matches Condition::TimeBefore(
                t,
            ) ==> (outside::rfc3339_time(t@) matches Ok(limit) ==> e.time.secs < limit.secs || (
            limit.secs == e.time.secs && e.time.nanos < limit.nanos))),
        events@.contains(e) && !found@.contains(e) ==> exists|i: int|
            0 <= i < query.conditions@.len() && match #[trigger] query.conditions@[i] {
                Condition::SubjectLike(_) => false,
                Condition::TypeEquals(t) => e.event_type@ != t@,
                Condition::TimeAfter(t) => outside::rfc3339_time(t@) matches Ok(limit) && (
                e.time.secs < limit.secs || (limit.secs == e.time.secs && e.time.nanos
                    <= limit.nanos)),
                Condition::TimeBefore(t) => outside::rfc3339_time(t@) matches Ok(limit) && (
                limit.secs < e.time.secs || (limit.secs == e.time.secs && limit.nanos
                    <= e.time.nanos)),
            },
{
    let cs = condition_views(query.conditions@);
    let keep = |x: Event| passes(cs, x);
    event::lemma_filtered(events@, keep, e);
    let reads = |x: Seq<char>| reads_subject(cs, x);
    lemma_kept_texts(text::views(subjects@), reads, s);
    assert forall|i: int| 0 <= i < cs.len() implies cs[i] == #[trigger] query.conditions@[i]@ by {}
    if text::views(read@).contains(s) {
        assert forall|i: int| 0 <= i < query.conditions@.len() implies (
        #[trigger] query.conditions@[i] matches Condition::SubjectLike(p) ==> like(s, p@)) by {
            assert(meets_subject(cs[i], s));
        }
    }
    if forall|i: int|
        0 <= i < query.conditions@.len() ==> (
        #[trigger] query.conditions@[i] matches Condition::SubjectLike(p) ==> like(s, p@)) {
        assert forall|i: int| 0 <= i < cs.len() implies meets_subject(#[trigger] cs[i], s) by {
            assert(query.conditions@[i]@ == cs[i]);
        }
    }
    if found@.contains(e) {
        assert(passes(cs, e));
        assert forall|i: int| 0 <= i < cs.len() implies meets(query.conditions@[i]@, e) by {
            assert(meets(cs[i], e));
        }
    }
    if events@.contains(e) && !found@.contains(e) {
        assert(!passes(cs, e));
        let i = choose|i: int| 0 <= i < cs.len() && !meets(#[trigger] cs[i], e);
        assert(query.conditions@[i]@ == cs[i]);
        let c = query.conditions@[i];
    }
}

proof fn lemma_kept_texts(s: Seq<Seq<char>>, keep: spec_fn(Seq<char>) -> bool, e: Seq<char>)
    ensures
        s.filter(keep).contains(e) <==> s.contains(e) && keep(e),
    decreases s.len(),
{
    reveal(Seq::filter);
    if s.len() > 0 {
        let init = s.drop_last();
        lemma_kept_texts(init, keep, e);
        let kept = init.filter(keep);
        if init.contains(e) {
            let i = choose|i: int| 0 <= i < init.len() && init[i] == e;
            assert(s[i] == e);
        }
        if s.contains(e) && s.last() != e {
            let i = choose|i: int| 0 <= i < s.len() && s[i] == e;
            assert(init[i] == e);
        }
        assert(s[s.len() - 1] == s.last());
        if keep(s.last()) {
            let all = kept.push(s.last());
            assert(all[kept.len() as int] == s.last());
            if kept.contains(e) {
                let i = choose|i: int| 0 <= i < kept.len() && kept[i] == e;
                assert(all[i] == e);
            }
            if all.contains(e) && e != s.last() {
                let i = choose|i: int| 0 <= i < all.len() && all[i] == e;
                assert(kept[i] == e);
            }
        }
    }
}

/// A query that is written out is parsed to what was written: as many conditions, each of its
/// own kind and with its own value, in their order, and the variable. The words may be in any
/// case and with any white space between them, as in [`law_a_written_query_is_read_back`].
pub proof fn law_a_written_query_is_parsed(
    input: &str,
    var: Seq<char>,
    cs: Seq<(Field, Seq<char>)>,
    w: Spelling,
    r: Result<EventQuery, String>,
)
    requires
        var.len() > 0,
        unspaced(var),
        cs.len() > 0 ==> !begins(var, "PROJECT"@),
        values_unquoted(cs),
        w.is_proper(cs),
        input@ == query_text(var, cs, w),
        call_ensures(parse_query, (input,), r),
    ensures
        r matches Ok(q) && q.var@ == var && q.conditions@.len() == cs.len(),
        r matches Ok(q) ==> forall|i: int|
            0 <= i < cs.len() ==> match #[trigger] q.conditions@[i] {
                Condition::SubjectLike(p) => cs[i].0 is Subject && p@ == cs[i].1,
                Condition::TypeEquals(t) => cs[i].0 is Type && t@ == cs[i].1,
                Condition::TimeAfter(t) => cs[i].0 is After && t@ == cs[i].1,
                Condition::TimeBefore(t) => cs[i].0 is Before && t@ == cs[i].1,
            },
{
    law_a_written_query_is_read_back(var, cs, w);
    if let Ok(q) = r {
        assert forall|i: int| 0 <= i < cs.len() implies match #[trigger] q.conditions@[i] {
            Condition::SubjectLike(p) => cs[i].0 is Subject && p@ == cs[i].1,
            Condition::TypeEquals(t) => cs[i].0 is Type && t@ == cs[i].1,
            Condition::TimeAfter(t) => cs[i].0 is After && t@ == cs[i].1,
            Condition::TimeBefore(t) => cs[i].0 is Before && t@ == cs[i].1,
        } by {
            assert(condition_views(q.conditions@)[i] == q.conditions@[i]@);
        }
    }
}

/// A value between double quotes is read up to the quote that ends it, and what follows is left.
pub proof fn law_quoted_values_are_read(
    input: &str,
    value: Seq<char>,
    rest: Seq<char>,
    r: Result<(String, String), String>,
)
    requires
        input@ == ("\""@ + value + "\""@) + rest,
        !value.contains('"'),
        call_ensures(extract_quoted_value, (input,), r),
    ensures
        r matches Ok((v, left)) && v@ == value && left@ == rest,
{
    lemma_quoted_value(value, rest);
}

} // verus!
