//! Text functions with exact contracts over sequences of characters.

use vstd::prelude::*;

verus! {

/// Appends one character to a string (`std::string::String::push`).
pub assume_specification[ String::push ](s: &mut String, c: char)
    ensures
        final(s)@ == old(s)@.push(c),
;

/// The Unicode `White_Space` property.
pub open spec fn is_space(c: char) -> bool {
    ||| 0x9 <= c as u32 <= 0xd
    ||| c as u32 == 0x20
    ||| c as u32 == 0x85
    ||| c as u32 == 0xa0
    ||| c as u32 == 0x1680
    ||| 0x2000 <= c as u32 <= 0x200a
    ||| c as u32 == 0x2028
    ||| c as u32 == 0x2029
    ||| c as u32 == 0x202f
    ||| c as u32 == 0x205f
    ||| c as u32 == 0x3000
}

/// Whether `c` is white space.
pub fn char_is_space(c: char) -> (r: bool)
    ensures
        r == is_space(c),
{
    let n: u32 = c as u32;
    (0x9 <= n && n <= 0xd) || n == 0x20 || n == 0x85 || n == 0xa0 || n == 0x1680 || (0x2000 <= n && n
        <= 0x200a) || n == 0x2028 || n == 0x2029 || n == 0x202f || n == 0x205f || n == 0x3000
}

/// The characters of a string.
pub fn chars_of(s: &str) -> (r: Vec<char>)
    ensures
        r@ == s@,
{
    let mut out: Vec<char> = Vec::new();
    for c in it: s.chars()
        invariant
            it.seq() == s@,
            out@ == s@.take(it.index()),
    {
        out.push(c);
        assert(s@.take(it.index() + 1) =~= s@.take(it.index()).push(c));
    }
    assert(s@.take(s@.len() as int) =~= s@);
    out
}

/// The string of the characters in `from .. to`.
pub fn text_of(chars: &Vec<char>, from: usize, to: usize) -> (r: String)
    requires
        from <= to <= chars@.len(),
    ensures
        r@ == chars@.subrange(from as int, to as int),
{
    let mut out = String::new();
    let mut i: usize = from;
    while i < to
        invariant
            from <= i <= to <= chars@.len(),
            out@ == chars@.subrange(from as int, i as int),
        decreases to - i,
    {
        out.push(chars[i]);
        assert(chars@.subrange(from as int, i + 1) =~= chars@.subrange(from as int, i as int).push(
            chars@[i as int],
        ));
        i += 1;
    }
    out
}

/// Whether two texts are equal.
pub fn same(a: &str, b: &str) -> (r: bool)
    ensures
        r == (a@ == b@),
{
    let x = chars_of(a);
    let y = chars_of(b);
    if x.len() != y.len() {
        return false;
    }
    let mut i: usize = 0;
    while i < x.len()
        invariant
            i <= x@.len(),
            x@ == a@,
            y@ == b@,
            x@.len() == y@.len(),
            forall|j: int| 0 <= j < i ==> a@[j] == b@[j],
        decreases x.len() - i,
    {
        if x[i] != y[i] {
            return false;
        }
        i += 1;
    }
    assert(a@ =~= b@);
    true
}

/// Whether `s` begins with `prefix`.
pub fn starts_with(s: &str, prefix: &str) -> (r: bool)
    ensures
        r == prefix@.is_prefix_of(s@),
{
    let x = chars_of(s);
    let y = chars_of(prefix);
    if x.len() < y.len() {
        return false;
    }
    let mut i: usize = 0;
    while i < y.len()
        invariant
            i <= y@.len() <= x@.len(),
            x@ == s@,
            y@ == prefix@,
            forall|j: int| 0 <= j < i ==> x@[j] == y@[j],
        decreases y.len() - i,
    {
        if x[i] != y[i] {
            assert(s@.subrange(0, prefix@.len() as int)[i as int] == s@[i as int]);
            return false;
        }
        i += 1;
    }
    assert(s@.subrange(0, prefix@.len() as int) =~= prefix@);
    true
}

/// Whether `s` ends with `suffix`.
pub fn ends_with(s: &str, suffix: &str) -> (r: bool)
    ensures
        r == suffix@.is_suffix_of(s@),
{
    let x = chars_of(s);
    let y = chars_of(suffix);
    if x.len() < y.len() {
        return false;
    }
    let n: usize = x.len();
    let gap: usize = n - y.len();
    let mut i: usize = 0;
    while i < y.len()
        invariant
            n == x@.len(),
            i <= y@.len() <= x@.len(),
            gap == x@.len() - y@.len(),
            x@ == s@,
            y@ == suffix@,
            forall|j: int| 0 <= j < i ==> x@[gap + j] == y@[j],
        decreases y.len() - i,
    {
        if x[gap + i] != y[i] {
            assert(s@.subrange(gap as int, s@.len() as int)[i as int] == s@[gap + i]);
            return false;
        }
        i += 1;
    }
    assert(s@.subrange(gap as int, s@.len() as int) =~= suffix@);
    true
}

/// The text that follows the first `n` characters.
pub fn skip(s: &str, n: usize) -> (r: &str)
    requires
        n <= s@.len(),
    ensures
        r@ == s@.skip(n as int),
{
    let len: usize = s.unicode_len();
    s.substring_char(n, len)
}

/// The first `n` characters.
pub fn take(s: &str, n: usize) -> (r: &str)
    requires
        n <= s@.len(),
    ensures
        r@ == s@.take(n as int),
{
    s.substring_char(0, n)
}

/// Whether the character `c` occurs in `s`.
pub fn has_char(s: &str, c: char) -> (r: bool)
    ensures
        r == s@.contains(c),
{
    let x = chars_of(s);
    let mut i: usize = 0;
    while i < x.len()
        invariant
            i <= x@.len(),
            x@ == s@,
            forall|j: int| 0 <= j < i ==> x@[j] != c,
        decreases x.len() - i,
    {
        if x[i] == c {
            return true;
        }
        i += 1;
    }
    false
}

/// The position of the first occurrence of `c`.
pub fn index_of(s: &str, c: char) -> (r: Option<usize>)
    ensures
        match r {
            Some(i) => i < s@.len() && s@[i as int] == c && forall|j: int|
                0 <= j < i ==> s@[j] != c,
            None => !s@.contains(c),
        },
{
    let x = chars_of(s);
    let mut i: usize = 0;
    while i < x.len()
        invariant
            i <= x@.len(),
            x@ == s@,
            forall|j: int| 0 <= j < i ==> x@[j] != c,
        decreases x.len() - i,
    {
        if x[i] == c {
            return Some(i);
        }
        i += 1;
    }
    None
}

/// The position of the last occurrence of `c` in `s`.
pub open spec fn last_index(s: Seq<char>, c: char) -> Option<int>
    decreases s.len(),
{
    if s.len() == 0 {
        None
    } else if s.last() == c {
        Some(s.len() - 1)
    } else {
        last_index(s.drop_last(), c)
    }
}

/// The position of the last occurrence of `c`.
pub fn last_index_of(s: &str, c: char) -> (r: Option<usize>)
    ensures
        match r {
            Some(i) => i < s@.len() && last_index(s@, c) == Some(i as int),
            None => last_index(s@, c) is None,
        },
{
    let x = chars_of(s);
    let mut i: usize = x.len();
    assert(s@.take(i as int) =~= s@);
    while i > 0
        invariant
            i <= x@.len(),
            x@ == s@,
            last_index(s@.take(i as int), c) == last_index(s@, c),
        decreases i,
    {
        let ghost t = s@.take(i as int);
        i -= 1;
        assert(t.drop_last() =~= s@.take(i as int));
        assert(t.last() == x@[i as int]);
        if x[i] == c {
            return Some(i);
        }
    }
    None
}

/// `pat` occurs in `s` at position `i`.
pub open spec fn occurs_at(s: Seq<char>, pat: Seq<char>, i: int) -> bool {
    0 <= i && i + pat.len() <= s.len() && s.subrange(i, i + pat.len()) == pat
}

/// The position of the first occurrence of `pat`.
pub fn find(s: &str, pat: &str) -> (r: Option<usize>)
    ensures
        match r {
            Some(i) => occurs_at(s@, pat@, i as int) && forall|j: int|
                0 <= j < i ==> !occurs_at(s@, pat@, j),
            None => forall|j: int| !occurs_at(s@, pat@, j),
        },
{
    let x = chars_of(s);
    let y = chars_of(pat);
    if x.len() < y.len() {
        return None;
    }
    let n: usize = x.len();
    let last: usize = n - y.len();
    let mut i: usize = 0;
    loop
        invariant
            n == x@.len(),
            i <= last,
            last == x@.len() - y@.len(),
            x@ == s@,
            y@ == pat@,
            forall|j: int| 0 <= j < i ==> !occurs_at(s@, pat@, j),
        decreases last - i,
    {
        let mut k: usize = 0;
        while k < y.len() && x[i + k] == y[k]
            invariant
                n == x@.len(),
                i <= last,
                last == x@.len() - y@.len(),
                k <= y@.len(),
                forall|j: int| 0 <= j < k ==> x@[i + j] == y@[j],
            decreases y.len() - k,
        {
            k += 1;
        }
        if k == y.len() {
            assert(s@.subrange(i as int, i + pat@.len()) =~= pat@);
            return Some(i);
        }
        assert(s@.subrange(i as int, i + pat@.len())[k as int] != pat@[k as int]);
        if i == last {
            return None;
        }
        i += 1;
    }
}

/// Whether `pat` occurs in `s`.
pub fn contains(s: &str, pat: &str) -> (r: bool)
    ensures
        r == exists|i: int| occurs_at(s@, pat@, i),
{
    match find(s, pat) {
        Some(i) => {
            assert(occurs_at(s@, pat@, i as int));
            true
        },
        None => false,
    }
}

/// `s` without its leading white space.
pub open spec fn trim_front(s: Seq<char>) -> Seq<char>
    decreases s.len(),
{
    if s.len() > 0 && is_space(s[0]) {
        trim_front(s.skip(1))
    } else {
        s
    }
}

/// `s` without its trailing white space.
pub open spec fn trim_back(s: Seq<char>) -> Seq<char>
    decreases s.len(),
{
    if s.len() > 0 && is_space(s.last()) {
        trim_back(s.drop_last())
    } else {
        s
    }
}

/// `s` without white space at either end.
pub open spec fn trimmed(s: Seq<char>) -> Seq<char> {
    trim_back(trim_front(s))
}

/// Removes white space at both ends.
pub fn trim(s: &str) -> (r: String)
    ensures
        r@ == trimmed(s@),
{
    let x = chars_of(s);
    let mut a: usize = 0;
    assert(s@.skip(0) =~= s@);
    while a < x.len() && char_is_space(x[a])
        invariant
            a <= x@.len(),
            x@ == s@,
            trim_front(s@.skip(a as int)) == trim_front(s@),
        decreases x.len() - a,
    {
        assert(s@.skip(a as int).skip(1) =~= s@.skip(a + 1));
        a += 1;
    }
    let ghost front = s@.skip(a as int);
    assert(front == trim_front(s@));
    let mut b: usize = x.len();
    assert(s@.subrange(a as int, b as int) =~= front);
    while b > a && char_is_space(x[b - 1])
        invariant
            a <= b <= x@.len(),
            x@ == s@,
            trim_back(s@.subrange(a as int, b as int)) == trim_back(front),
        decreases b - a,
    {
        let ghost cur = s@.subrange(a as int, b as int);
        assert(cur.last() == x@[b - 1]);
        assert(cur.drop_last() =~= s@.subrange(a as int, b - 1));
        b -= 1;
    }
    proof {
        let cur = s@.subrange(a as int, b as int);
        if cur.len() > 0 {
            assert(cur.last() == x@[b - 1]);
        }
        assert(trim_back(cur) == cur);
    }
    text_of(&x, a, b)
}

/// `s` with every occurrence of `pat`, found from the left, replaced by `by`.
pub open spec fn replaced(s: Seq<char>, pat: Seq<char>, by: Seq<char>) -> Seq<char>
    decreases s.len(),
{
    if pat.len() == 0 || s.len() < pat.len() {
        s
    } else if pat.is_prefix_of(s) {
        by + replaced(s.skip(pat.len() as int), pat, by)
    } else {
        seq![s[0]] + replaced(s.skip(1), pat, by)
    }
}

/// Replaces every occurrence of the non-empty text `pat` by `by`.
pub fn replace(s: &str, pat: &str, by: &str) -> (r: String)
    requires
        pat@.len() > 0,
    ensures
        r@ == replaced(s@, pat@, by@),
{
    let x = chars_of(s);
    let y = chars_of(pat);
    let n: usize = x.len();
    let mut out = String::new();
    let mut i: usize = 0;
    assert(s@.skip(0) =~= s@);
    while y.len() <= n - i
        invariant
            n == x@.len(),
            i <= x@.len(),
            x@ == s@,
            y@ == pat@,
            pat@.len() > 0,
            out@ + replaced(s@.skip(i as int), pat@, by@) == replaced(s@, pat@, by@),
        decreases n - i,
    {
        let ghost rest = s@.skip(i as int);
        let mut k: usize = 0;
        while k < y.len() && x[i + k] == y[k]
            invariant
                n == x@.len(),
                i + y@.len() <= n,
                k <= y@.len(),
                forall|j: int| 0 <= j < k ==> x@[i + j] == y@[j],
            decreases y.len() - k,
        {
            k += 1;
        }
        if k == y.len() {
            proof {
                assert(rest.subrange(0, pat@.len() as int) =~= pat@);
                assert(rest.skip(pat@.len() as int) =~= s@.skip(i + pat@.len()));
                assert((out@ + by@) + replaced(s@.skip(i + pat@.len()), pat@, by@) =~= out@
                    + replaced(rest, pat@, by@));
            }
            out.append(by);
            i += y.len();
        } else {
            proof {
                assert(rest.subrange(0, pat@.len() as int)[k as int] != pat@[k as int]);
                assert(rest.skip(1) =~= s@.skip(i + 1));
                assert(out@.push(x@[i as int]) + replaced(s@.skip(i + 1), pat@, by@) =~= out@
                    + replaced(rest, pat@, by@));
            }
            out.push(x[i]);
            i += 1;
        }
    }
    let tail = text_of(&x, i, x.len());
    assert(s@.subrange(i as int, s@.len() as int) =~= s@.skip(i as int));
    out.append(&tail);
    out
}

/// The pieces of `s` between occurrences of `c`; one piece where there is none.
pub open spec fn pieces(s: Seq<char>, c: char) -> Seq<Seq<char>>
    decreases s.len(),
{
    if s.len() == 0 {
        seq![Seq::<char>::empty()]
    } else {
        let init = pieces(s.drop_last(), c);
        if s.last() == c {
            init.push(Seq::<char>::empty())
        } else {
            init.drop_last().push(init.last().push(s.last()))
        }
    }
}

/// The views of a sequence of strings.
pub open spec fn views(v: Seq<String>) -> Seq<Seq<char>> {
    v.map_values(|x: String| x@)
}

/// Splits `s` at every occurrence of `c`.
pub fn split(s: &str, c: char) -> (r: Vec<String>)
    ensures
        views(r@) == pieces(s@, c),
{
    let x = chars_of(s);
    let mut out: Vec<String> = Vec::new();
    let mut cur = String::new();
    let mut i: usize = 0;
    assert(pieces(s@.take(0), c) =~= views(out@).push(cur@));
    while i < x.len()
        invariant
            i <= x@.len(),
            x@ == s@,
            pieces(s@.take(i as int), c) == views(out@).push(cur@),
        decreases x.len() - i,
    {
        let ghost t = s@.take(i + 1);
        assert(t.drop_last() =~= s@.take(i as int));
        assert(t.last() == x@[i as int]);
        let ghost init = views(out@).push(cur@);
        assert(init.drop_last() =~= views(out@));
        if x[i] == c {
            let ghost before = out@;
            out.push(cur);
            assert(views(out@) =~= init);
            cur = String::new();
        } else {
            cur.push(x[i]);
        }
        i += 1;
    }
    assert(s@.take(s@.len() as int) =~= s@);
    let ghost before = out@;
    let ghost last = cur@;
    out.push(cur);
    assert(views(out@) =~= views(before).push(last));
    out
}

/// The decimal digits of `n`.
pub open spec fn digits(n: nat) -> Seq<char>
    decreases n,
{
    if n < 10 {
        seq![digit(n)]
    } else {
        digits(n / 10).push(digit(n % 10))
    }
}

/// The character of a digit below ten.
pub open spec fn digit(d: nat) -> char {
    (48 + d) as char
}

/// The decimal text of an integer.
pub open spec fn decimal(n: int) -> Seq<char> {
    if n < 0 {
        seq!['-'] + digits((-n) as nat)
    } else {
        digits(n as nat)
    }
}

fn digit_char(d: u64) -> (r: char)
    requires
        d < 10,
    ensures
        r == digit(d as nat),
{
    if d == 0 {
        '0'
    } else if d == 1 {
        '1'
    } else if d == 2 {
        '2'
    } else if d == 3 {
        '3'
    } else if d == 4 {
        '4'
    } else if d == 5 {
        '5'
    } else if d == 6 {
        '6'
    } else if d == 7 {
        '7'
    } else if d == 8 {
        '8'
    } else {
        '9'
    }
}

/// The decimal text of an unsigned number.
pub fn unsigned_text(n: u64) -> (r: String)
    ensures
        r@ == digits(n as nat),
    decreases n,
{
    if n < 10 {
        let mut s = String::new();
        s.push(digit_char(n));
        assert(s@ =~= digits(n as nat));
        s
    } else {
        let mut s = unsigned_text(n / 10);
        s.push(digit_char(n % 10));
        s
    }
}

/// The decimal text of a signed number.
pub fn signed_text(n: i64) -> (r: String)
    ensures
        r@ == decimal(n as int),
{
    if n < 0 {
        let mut s = String::new();
        s.push('-');
        let m: u64 = if n == i64::MIN {
            0x8000_0000_0000_0000
        } else {
            (-n) as u64
        };
        let d = unsigned_text(m);
        assert(m as int == -(n as int));
        s.append(&d);
        assert(s@ =~= decimal(n as int));
        s
    } else {
        unsigned_text(n as u64)
    }
}

/// Replacing brings in no character but those of the replacement.
pub proof fn lemma_replaced_contains(s: Seq<char>, pat: Seq<char>, by: Seq<char>, c: char)
    requires
        replaced(s, pat, by).contains(c),
    ensures
        s.contains(c) || by.contains(c),
    decreases s.len(),
{
    if pat.len() == 0 || s.len() < pat.len() {
    } else if pat.is_prefix_of(s) {
        let rest = s.skip(pat.len() as int);
        let out = by + replaced(rest, pat, by);
        let i = choose|i: int| 0 <= i < out.len() && out[i] == c;
        if i < by.len() {
            assert(by[i] == c);
        } else {
            assert(replaced(rest, pat, by)[i - by.len()] == c);
            lemma_replaced_contains(rest, pat, by, c);
            if rest.contains(c) {
                let j = choose|j: int| 0 <= j < rest.len() && rest[j] == c;
                assert(s[j + pat.len()] == c);
            }
        }
    } else {
        let rest = s.skip(1);
        let out = seq![s[0]] + replaced(rest, pat, by);
        let i = choose|i: int| 0 <= i < out.len() && out[i] == c;
        if i == 0 {
            assert(s[0] == c);
        } else {
            assert(replaced(rest, pat, by)[i - 1] == c);
            lemma_replaced_contains(rest, pat, by, c);
            if rest.contains(c) {
                let j = choose|j: int| 0 <= j < rest.len() && rest[j] == c;
                assert(s[j + 1] == c);
            }
        }
    }
}

/// `s` without any number of leading occurrences of `pat`.
pub open spec fn without_prefixes(s: Seq<char>, pat: Seq<char>) -> Seq<char>
    decreases s.len(),
{
    if pat.len() > 0 && pat.is_prefix_of(s) {
        without_prefixes(s.skip(pat.len() as int), pat)
    } else {
        s
    }
}

/// `s` without any number of trailing occurrences of `pat`.
pub open spec fn without_suffixes(s: Seq<char>, pat: Seq<char>) -> Seq<char>
    decreases s.len(),
{
    if pat.len() > 0 && pat.is_suffix_of(s) {
        without_suffixes(s.take(s.len() - pat.len()), pat)
    } else {
        s
    }
}

/// Removes every leading occurrence of the non-empty text `pat`.
pub fn trim_start_matches(s: &str, pat: &str) -> (r: String)
    requires
        pat@.len() > 0,
    ensures
        r@ == without_prefixes(s@, pat@),
{
    let n: usize = pat.unicode_len();
    let mut cur = String::from_str(s);
    while starts_with(&cur, pat)
        invariant
            n == pat@.len(),
            pat@.len() > 0,
            without_prefixes(cur@, pat@) == without_prefixes(s@, pat@),
        decreases cur@.len(),
    {
        let rest = String::from_str(skip(&cur, n));
        cur = rest;
    }
    cur
}

/// Removes every trailing occurrence of the non-empty text `pat`.
pub fn trim_end_matches(s: &str, pat: &str) -> (r: String)
    requires
        pat@.len() > 0,
    ensures
        r@ == without_suffixes(s@, pat@),
{
    let n: usize = pat.unicode_len();
    let mut cur = String::from_str(s);
    while ends_with(&cur, pat)
        invariant
            n == pat@.len(),
            pat@.len() > 0,
            without_suffixes(cur@, pat@) == without_suffixes(s@, pat@),
        decreases cur@.len(),
    {
        let len: usize = cur.as_str().unicode_len();
        let rest = String::from_str(take(&cur, len - n));
        cur = rest;
    }
    cur
}

/// `a` stands before `b` in the order of their characters.
pub open spec fn precedes(a: Seq<char>, b: Seq<char>) -> bool
    decreases a.len(),
{
    if b.len() == 0 {
        false
    } else if a.len() == 0 {
        true
    } else if a[0] != b[0] {
        a[0] < b[0]
    } else {
        precedes(a.skip(1), b.skip(1))
    }
}

/// The order of texts is transitive.
pub proof fn lemma_precedes_transitive(a: Seq<char>, b: Seq<char>, c: Seq<char>)
    requires
        precedes(a, b),
        precedes(b, c),
    ensures
        precedes(a, c),
    decreases a.len(),
{
    if a.len() > 0 && b.len() > 0 && c.len() > 0 {
        if a[0] == b[0] && b[0] == c[0] {
            lemma_precedes_transitive(a.skip(1), b.skip(1), c.skip(1));
        }
    }
}

/// Of two different texts one stands before the other, and never both.
pub proof fn lemma_precedes_total(a: Seq<char>, b: Seq<char>)
    ensures
        a != b ==> precedes(a, b) || precedes(b, a),
        !(precedes(a, b) && precedes(b, a)),
        !precedes(a, a),
    decreases a.len(),
{
    if a.len() > 0 && b.len() > 0 {
        lemma_precedes_total(a.skip(1), b.skip(1));
        if a[0] == b[0] && a.skip(1) == b.skip(1) {
            assert(a =~= seq![a[0]] + a.skip(1));
            assert(b =~= seq![b[0]] + b.skip(1));
        }
    } else if a.len() == 0 && b.len() == 0 {
        assert(a =~= b);
    }
    if a.len() > 0 {
        lemma_precedes_total(a.skip(1), a.skip(1));
    }
}

/// Two texts of the same length keep their order when the same text follows both.
pub proof fn lemma_precedes_with_tail(a: Seq<char>, b: Seq<char>, tail: Seq<char>)
    requires
        a.len() == b.len(),
        precedes(a, b),
    ensures
        precedes(a + tail, b + tail),
    decreases a.len(),
{
    let x = a + tail;
    let y = b + tail;
    assert(x[0] == a[0] && y[0] == b[0]);
    if a[0] == b[0] {
        lemma_precedes_with_tail(a.skip(1), b.skip(1), tail);
        assert(x.skip(1) =~= a.skip(1) + tail);
        assert(y.skip(1) =~= b.skip(1) + tail);
    }
}

/// Whether `a` stands before `b` in the order of their characters.
pub fn is_before(a: &str, b: &str) -> (r: bool)
    ensures
        r == precedes(a@, b@),
{
    let x = chars_of(a);
    let y = chars_of(b);
    let mut i: usize = 0;
    assert(a@.skip(0) =~= a@);
    assert(b@.skip(0) =~= b@);
    while i < x.len() && i < y.len()
        invariant
            i <= x@.len(),
            i <= y@.len(),
            x@ == a@,
            y@ == b@,
            precedes(a@.skip(i as int), b@.skip(i as int)) == precedes(a@, b@),
        decreases x.len() - i,
    {
        if x[i] != y[i] {
            return x[i] < y[i];
        }
        assert(a@.skip(i as int).skip(1) =~= a@.skip(i + 1));
        assert(b@.skip(i as int).skip(1) =~= b@.skip(i + 1));
        i += 1;
    }
    i < y.len()
}

/// Whether a text is among others.
pub fn among(v: &[String], s: &str) -> (r: bool)
    ensures
        r == views(v@).contains(s@),
{
    let mut i: usize = 0;
    while i < v.len()
        invariant
            i <= v@.len(),
            forall|j: int| 0 <= j < i ==> (#[trigger] v@[j])@ != s@,
        decreases v.len() - i,
    {
        if same(&v[i], s) {
            assert(views(v@)[i as int] == s@);
            return true;
        }
        i += 1;
    }
    assert forall|j: int| 0 <= j < views(v@).len() implies views(v@)[j] != s@ by {
        assert(views(v@)[j] == v@[j]@);
    }
    false
}

/// Copies texts.
pub fn copy_texts(v: &[String]) -> (r: Vec<String>)
    ensures
        views(r@) == views(v@),
{
    let mut out: Vec<String> = Vec::new();
    let mut i: usize = 0;
    while i < v.len()
        invariant
            i <= v@.len(),
            out@.len() == i,
            forall|j: int| 0 <= j < i ==> (#[trigger] out@[j])@ == v@[j]@,
        decreases v.len() - i,
    {
        out.push(v[i].clone());
        i += 1;
    }
    assert(views(out@) =~= views(v@));
    out
}

/// `s` with its ASCII capital letters made small.
pub open spec fn ascii_lowered(s: Seq<char>) -> Seq<char> {
    s.map_values(|c: char| ascii_lower(c))
}

/// The lowercase of an ASCII character.
pub open spec fn ascii_lower(c: char) -> char {
    if 'A' <= c <= 'Z' {
        (c as u32 + 32) as char
    } else {
        c
    }
}

/// Makes the ASCII capital letters of a text small.
pub fn to_ascii_lowercase(s: &str) -> (r: String)
    ensures
        r@ == ascii_lowered(s@),
{
    let x = chars_of(s);
    let mut out = String::new();
    let mut i: usize = 0;
    while i < x.len()
        invariant
            i <= x@.len(),
            x@ == s@,
            out@ == ascii_lowered(s@.take(i as int)),
        decreases x.len() - i,
    {
        let c = x[i];
        let d: char = if 'A' <= c && c <= 'Z' {
            (c as u8 + 32) as char
        } else {
            c
        };
        out.push(d);
        assert(s@.take(i + 1) =~= s@.take(i as int).push(c));
        assert(ascii_lowered(s@.take(i + 1)) =~= ascii_lowered(s@.take(i as int)).push(d));
        i += 1;
    }
    assert(s@.take(s@.len() as int) =~= s@);
    out
}

/// Every character is a decimal digit.
pub open spec fn all_digits(s: Seq<char>) -> bool {
    forall|i: int| 0 <= i < s.len() ==> '0' <= (#[trigger] s[i]) <= '9'
}

/// The number that decimal digits write.
pub open spec fn digits_value(s: Seq<char>) -> nat
    decreases s.len(),
{
    if s.len() == 0 {
        0
    } else {
        digits_value(s.drop_last()) * 10 + (s.last() as u32 - 48) as nat
    }
}

/// The unsigned number that a text writes: digits, with at most one `+` before them.
pub open spec fn unsigned_value(s: Seq<char>) -> Option<nat> {
    let body = if s.len() > 0 && s[0] == '+' {
        s.skip(1)
    } else {
        s
    };
    if body.len() > 0 && all_digits(body) {
        Some(digits_value(body))
    } else {
        None
    }
}

/// The unsigned number that `s` writes, where it is at most `max`.
pub fn parse_unsigned(s: &str, max: u64) -> (r: Option<u64>)
    ensures
        match r {
            Some(n) => n <= max && unsigned_value(s@) == Some(n as nat),
            None => !(unsigned_value(s@) matches Some(v) && v <= max),
        },
{
    let x = chars_of(s);
    let start: usize = if x.len() > 0 && x[0] == '+' {
        1
    } else {
        0
    };
    let ghost body = s@.skip(start as int);
    assert(start == 0 ==> body =~= s@);
    if x.len() == start {
        return None;
    }
    let mut value: u128 = 0;
    let mut over = false;
    let mut i: usize = start;
    assert(body.take(0) =~= Seq::<char>::empty());
    while i < x.len()
        invariant
            start <= i <= x@.len(),
            start <= 1,
            x@ == s@,
            body == s@.skip(start as int),
            start == (if s@.len() > 0 && s@[0] == '+' {
                1int
            } else {
                0int
            }),
            body.len() > 0,
            start == 0 ==> body == s@,
            all_digits(body.take(i - start)),
            over ==> digits_value(body.take(i - start)) > max,
            !over ==> value <= max && value == digits_value(body.take(i - start)),
        decreases x.len() - i,
    {
        let c = x[i];
        let ghost k = i - start;
        let ghost part = body.take(k + 1);
        assert(part.drop_last() =~= body.take(k));
        assert(part.last() == c);
        assert(c == body[k]);
        if c < '0' || '9' < c {
            return None;
        }
        assert forall|j: int| 0 <= j < part.len() implies '0' <= (#[trigger] part[j]) <= '9' by {
            if j < k {
                assert(part[j] == body.take(k)[j]);
            }
        }
        let d: u32 = c as u32 - 48;
        if !over {
            value = value * 10 + d as u128;
            if value > max as u128 {
                over = true;
            }
        }
        i += 1;
    }
    assert(body.take(body.len() as int) =~= body);
    if over {
        None
    } else {
        Some(value as u64)
    }
}

/// `s` without one trailing carriage return.
pub open spec fn without_return(s: Seq<char>) -> Seq<char> {
    if s.len() > 0 && s.last() == '\r' {
        s.drop_last()
    } else {
        s
    }
}

/// The lines of `s`: what ends in a line feed, without it and a carriage return before
/// it, and what follows the last line feed where that is not empty.
pub open spec fn lines(s: Seq<char>) -> Seq<Seq<char>> {
    let p = pieces(s, '\n');
    let ended = p.drop_last().map_values(|x: Seq<char>| without_return(x));
    if p.last().len() == 0 {
        ended
    } else {
        ended.push(p.last())
    }
}

/// A text has at least one piece.
pub proof fn lemma_pieces_nonempty(s: Seq<char>, c: char)
    ensures
        pieces(s, c).len() > 0,
    decreases s.len(),
{
    if s.len() > 0 {
        lemma_pieces_nonempty(s.drop_last(), c);
    }
}

/// Splits a text into its lines.
pub fn split_lines(s: &str) -> (r: Vec<String>)
    ensures
        views(r@) == lines(s@),
{
    let parts = split(s, '\n');
    let ghost p = pieces(s@, '\n');
    proof {
        lemma_pieces_nonempty(s@, '\n');
        assert(views(parts@).len() == p.len());
    }
    let n: usize = parts.len();
    let mut out: Vec<String> = Vec::new();
    let mut i: usize = 0;
    let ghost ended = p.drop_last().map_values(|x: Seq<char>| without_return(x));
    assert(views(out@) =~= ended.take(0));
    while i < n - 1
        invariant
            n == parts@.len(),
            n > 0,
            i <= n - 1,
            views(parts@) == p,
            ended == p.drop_last().map_values(|x: Seq<char>| without_return(x)),
            views(out@) == ended.take(i as int),
        decreases n - i,
    {
        let part = &parts[i];
        assert(part@ == views(parts@)[i as int]);
        let len: usize = part.as_str().unicode_len();
        let ghost before = out@;
        let line: String = if len > 0 && part.as_str().get_char(len - 1) == '\r' {
            String::from_str(take(part, len - 1))
        } else {
            String::from_str(part)
        };
        assert(line@ =~= ended[i as int]);
        out.push(line);
        assert(views(out@) =~= views(before).push(line@));
        assert(ended.take(i + 1) =~= ended.take(i as int).push(ended[i as int]));
        i += 1;
    }
    assert(ended.take(n - 1) =~= ended);
    let last = &parts[n - 1];
    assert(last@ == views(parts@)[n - 1]);
    if last.as_str().unicode_len() > 0 {
        let ghost before = out@;
        let copy = String::from_str(last);
        out.push(copy);
        assert(views(out@) =~= views(before).push(last@));
    }
    out
}

/// Removes leading white space.
pub fn trim_start(s: &str) -> (r: String)
    ensures
        r@ == trim_front(s@),
{
    let x = chars_of(s);
    let mut a: usize = 0;
    assert(s@.skip(0) =~= s@);
    while a < x.len() && char_is_space(x[a])
        invariant
            a <= x@.len(),
            x@ == s@,
            trim_front(s@.skip(a as int)) == trim_front(s@),
        decreases x.len() - a,
    {
        assert(s@.skip(a as int).skip(1) =~= s@.skip(a + 1));
        a += 1;
    }
    assert(s@.subrange(a as int, s@.len() as int) =~= s@.skip(a as int));
    text_of(&x, a, x.len())
}

/// The text without its prefix `prefix`; `None` where it does not begin so.
pub fn strip_prefix(s: &str, prefix: &str) -> (r: Option<String>)
    ensures
        match r {
            Some(t) => s@ == prefix@ + t@,
            None => !prefix@.is_prefix_of(s@),
        },
{
    if starts_with(s, prefix) {
        let n: usize = prefix.unicode_len();
        let t = String::from_str(skip(s, n));
        assert(s@ =~= prefix@ + t@);
        Some(t)
    } else {
        None
    }
}

/// `s` with one character in place of another.
pub open spec fn swapped(s: Seq<char>, from: char, to: char) -> Seq<char> {
    s.map_values(
        |c: char|
            if c == from {
                to
            } else {
                c
            },
    )
}

/// Puts one character in place of another.
pub fn swap_char(s: &str, from: char, to: char) -> (r: String)
    ensures
        r@ == swapped(s@, from, to),
{
    let x = chars_of(s);
    let mut out = String::new();
    let mut i: usize = 0;
    while i < x.len()
        invariant
            i <= x@.len(),
            x@ == s@,
            out@ == swapped(s@.take(i as int), from, to),
        decreases x.len() - i,
    {
        let c = if x[i] == from {
            to
        } else {
            x[i]
        };
        assert(swapped(s@.take(i + 1), from, to) =~= swapped(s@.take(i as int), from, to).push(c));
        out.push(c);
        i += 1;
    }
    assert(s@.take(s@.len() as int) =~= s@);
    out
}

/// The text with hyphens for its underscores.
pub open spec fn kebab(s: Seq<char>) -> Seq<char> {
    swapped(s, '_', '-')
}

/// The text with blanks for its underscores.
pub open spec fn spaced(s: Seq<char>) -> Seq<char> {
    swapped(s, '_', ' ')
}

/// The text with slashes for its underscores.
pub open spec fn slashed(s: Seq<char>) -> Seq<char> {
    swapped(s, '_', '/')
}

/// Writes hyphens for underscores: a name in kebab case.
pub fn to_kebab(s: &str) -> (r: String)
    ensures
        r@ == kebab(s@),
{
    swap_char(s, '_', '-')
}

/// Writes blanks for underscores: a name in words.
pub fn to_words(s: &str) -> (r: String)
    ensures
        r@ == spaced(s@),
{
    swap_char(s, '_', ' ')
}

/// Writes slashes for underscores: a path.
pub fn to_path(s: &str) -> (r: String)
    ensures
        r@ == slashed(s@),
{
    swap_char(s, '_', '/')
}

/// A text without the separator is one piece.
pub proof fn lemma_one_piece(s: Seq<char>, c: char)
    requires
        !s.contains(c),
    ensures
        pieces(s, c) == seq![s],
    decreases s.len(),
{
    if s.len() > 0 {
        let init = s.drop_last();
        assert(s.contains(s.last()));
        assert forall|i: int| 0 <= i < init.len() implies #[trigger] init[i] != c by {
            assert(s.contains(s[i]));
        }
        lemma_one_piece(init, c);
        assert(init.push(s.last()) =~= s);
        assert(pieces(init, c).drop_last() =~= Seq::<Seq<char>>::empty());
        assert(pieces(s, c) =~= seq![s]);
    } else {
        assert(s =~= Seq::<char>::empty());
    }
}

/// The pieces of two texts with the separator between them are the pieces of the one and then
/// those of the other.
pub proof fn lemma_pieces_join(s: Seq<char>, c: char, t: Seq<char>)
    ensures
        pieces(s + seq![c] + t, c) == pieces(s, c) + pieces(t, c),
    decreases t.len(),
{
    let w = s + seq![c] + t;
    lemma_pieces_nonempty(s, c);
    lemma_pieces_nonempty(t, c);
    if t.len() == 0 {
        assert(w.drop_last() =~= s);
        assert(w.last() == c);
        assert(pieces(t, c) =~= seq![Seq::<char>::empty()]);
        assert(pieces(w, c) =~= pieces(s, c) + pieces(t, c));
    } else {
        let init = t.drop_last();
        lemma_pieces_nonempty(init, c);
        lemma_pieces_join(s, c, init);
        assert(w.drop_last() =~= s + seq![c] + init);
        assert(w.last() == t.last());
        let a = pieces(s, c);
        let b = pieces(init, c);
        assert((a + b).last() == b.last());
        assert((a + b).drop_last() =~= a + b.drop_last());
        assert(pieces(w, c) =~= a + pieces(t, c));
    }
}

/// A number that is written in digits is read back.
pub proof fn lemma_digits_read_back(n: nat)
    ensures
        digits(n).len() > 0,
        all_digits(digits(n)),
        digits_value(digits(n)) == n,
        unsigned_value(digits(n)) == Some(n),
    decreases n,
{
    let s = digits(n);
    if n < 10 {
        assert(s.drop_last() =~= Seq::<char>::empty());
        assert(s.last() == digit(n));
        assert(digits_value(s.drop_last()) == 0);
    } else {
        lemma_digits_read_back(n / 10);
        assert(s.drop_last() =~= digits(n / 10));
        assert(s.last() == digit(n % 10));
    }
    assert(s[0] != '+') by {
        assert(all_digits(s));
    }
}

/// Two numbers that are written alike are the same.
pub proof fn lemma_decimals_differ(a: int, b: int)
    requires
        decimal(a) == decimal(b),
    ensures
        a == b,
{
    let x: nat = (if a < 0 { -a } else { a }) as nat;
    let y: nat = (if b < 0 { -b } else { b }) as nat;
    lemma_digits_read_back(x);
    lemma_digits_read_back(y);
    assert(digits(x)[0] != '-' && digits(y)[0] != '-') by {
        assert(all_digits(digits(x)) && all_digits(digits(y)));
    }
    if a < 0 {
        assert(decimal(a)[0] == '-');
        assert(decimal(a).skip(1) =~= digits(x));
    }
    if b < 0 {
        assert(decimal(b)[0] == '-');
        assert(decimal(b).skip(1) =~= digits(y));
    }
}

/// The position of the last separator in a text that has none behind it.
pub proof fn lemma_last_index_of_tail(s: Seq<char>, c: char, t: Seq<char>)
    requires
        !t.contains(c),
    ensures
        last_index(s + seq![c] + t, c) == Some(s.len() as int),
    decreases t.len(),
{
    let w = s + seq![c] + t;
    if t.len() > 0 {
        let init = t.drop_last();
        assert(t.contains(t.last()));
        assert forall|i: int| 0 <= i < init.len() implies #[trigger] init[i] != c by {
            assert(t.contains(t[i]));
        }
        assert(w.drop_last() =~= s + seq![c] + init);
        lemma_last_index_of_tail(s, c, init);
    } else {
        assert(w.last() == c);
    }
}

/// What stands within a text occurs in it.
pub proof fn lemma_within(a: Seq<char>, b: Seq<char>, c: Seq<char>)
    ensures
        occurs_at(a + b + c, b, a.len() as int),
{
    let s = a + b + c;
    assert(s.subrange(a.len() as int, a.len() as int + b.len()) =~= b);
}

/// What occurs in a part of a text occurs in the text.
pub proof fn lemma_within_part(a: Seq<char>, b: Seq<char>, c: Seq<char>, d: Seq<char>, k: int)
    requires
        occurs_at(b, d, k),
    ensures
        occurs_at(a + b + c, d, a.len() + k),
{
    let s = a + b + c;
    assert forall|i: int| 0 <= i < d.len() implies s.subrange(a.len() + k, a.len() + k + d.len())[i]
        == d[i] by {
        assert(b.subrange(k, k + d.len())[i] == d[i]);
    }
    assert(s.subrange(a.len() + k, a.len() + k + d.len()) =~= d);
}

/// Trimming takes white space from both ends and nothing else: what is left begins and ends with
/// no white space, and only white space stood around it.
pub proof fn law_trimming_takes_white_space(s: &str, r: String)
    requires
        call_ensures(trim, (s,), r),
    ensures
        r@.len() > 0 ==> !is_space(r@[0]) && !is_space(r@.last()),
        exists|i: int, j: int|
            0 <= i <= j <= s@.len() && #[trigger] s@.subrange(i, j) == r@ && (forall|k: int|
                0 <= k < i || j <= k < s@.len() ==> is_space(#[trigger] s@[k])),
{
    let i = lemma_trim_front(s@);
    let f = trim_front(s@);
    let n = lemma_trim_back(f);
    assert(s@.subrange(i, i + n) =~= f.take(n));
    assert forall|k: int| 0 <= k < i || i + n <= k < s@.len() implies is_space(
        #[trigger] s@[k],
    ) by {
        if k >= i + n {
            assert(f[k - i] == s@[k]);
        }
    }
    if r@.len() > 0 {
        assert(r@[0] == f[0]);
    }
}

proof fn lemma_trim_front(s: Seq<char>) -> (i: int)
    ensures
        0 <= i <= s.len(),
        trim_front(s) == s.skip(i),
        forall|k: int| 0 <= k < i ==> is_space(#[trigger] s[k]),
        i < s.len() ==> !is_space(s[i]),
    decreases s.len(),
{
    if s.len() > 0 && is_space(s[0]) {
        let t = s.skip(1);
        let i = lemma_trim_front(t);
        assert(t.skip(i) =~= s.skip(i + 1));
        assert forall|k: int| 0 <= k < i + 1 implies is_space(#[trigger] s[k]) by {
            if k > 0 {
                assert(t[k - 1] == s[k]);
            }
        }
        if i < t.len() {
            assert(t[i] == s[i + 1]);
        }
        i + 1
    } else {
        assert(s.skip(0) =~= s);
        0
    }
}

proof fn lemma_trim_back(s: Seq<char>) -> (n: int)
    ensures
        0 <= n <= s.len(),
        trim_back(s) == s.take(n),
        forall|k: int| n <= k < s.len() ==> is_space(#[trigger] s[k]),
        n > 0 ==> !is_space(s[n - 1]),
    decreases s.len(),
{
    if s.len() > 0 && is_space(s.last()) {
        let t = s.drop_last();
        let n = lemma_trim_back(t);
        assert(t.take(n) =~= s.take(n));
        assert forall|k: int| n <= k < s.len() implies is_space(#[trigger] s[k]) by {
            if k < t.len() {
                assert(t[k] == s[k]);
            }
        }
        if n > 0 {
            assert(t[n - 1] == s[n - 1]);
        }
        n
    } else {
        assert(s.take(s.len() as int) =~= s);
        s.len() as int
    }
}

/// A number that is written is read back, where it is not above the bound.
pub proof fn law_numbers_are_read_back(n: u64, written: String, text: &str, max: u64, r: Option<u64>)
    requires
        call_ensures(unsigned_text, (n,), written),
        text@ == written@,
        call_ensures(parse_unsigned, (text, max), r),
    ensures
        n <= max ==> r == Some(n),
        n > max ==> r is None,
{
    lemma_digits_read_back(n as nat);
}

/// The pieces of a text hold no separator, and a text of two texts with the separator between them
/// has the pieces of the one and then those of the other.
pub proof fn law_texts_are_split_at_the_separator(
    whole: &str,
    head: &str,
    tail: &str,
    c: char,
    all: Vec<String>,
    first: Vec<String>,
    rest: Vec<String>,
)
    requires
        whole@ == head@ + seq![c] + tail@,
        call_ensures(split, (whole, c), all),
        call_ensures(split, (head, c), first),
        call_ensures(split, (tail, c), rest),
    ensures
        views(all@) == views(first@) + views(rest@),
        !head@.contains(c) ==> views(first@) == seq![head@],
{
    lemma_pieces_join(head@, c, tail@);
    if !head@.contains(c) {
        lemma_one_piece(head@, c);
    }
}

/// A line ends at its line feed, with or without a carriage return before it, and neither belongs
/// to it.
pub proof fn law_lines_end_at_line_feeds(
    s: &str,
    line: Seq<char>,
    r: Vec<String>,
)
    requires
        !line.contains('\n'),
        s@ == line + seq!['\n'] || s@ == line + seq!['\r', '\n'],
        call_ensures(split_lines, (s,), r),
    ensures
        s@ == line + seq!['\r', '\n'] ==> views(r@) == seq![line],
        s@ == line + seq!['\n'] && (line.len() == 0 || line.last() != '\r') ==> views(r@) == seq![
            line,
        ],
{
    let none = Seq::<char>::empty();
    assert(pieces(none, '\n') =~= seq![none]);
    if s@ == line + seq!['\r', '\n'] {
        let l = line.push('\r');
        assert forall|i: int| 0 <= i < l.len() implies #[trigger] l[i] != '\n' by {
            if i < line.len() {
                assert(line.contains(line[i]));
            }
        }
        assert(s@ =~= l + seq!['\n'] + none);
        lemma_pieces_join(l, '\n', none);
        lemma_one_piece(l, '\n');
        let p = pieces(s@, '\n');
        assert(p =~= seq![l, none]);
        assert(p.drop_last() =~= seq![l]);
        assert(l.drop_last() =~= line);
        assert(lines(s@) =~= seq![line]);
    } else {
        assert(s@ =~= line + seq!['\n'] + none);
        lemma_pieces_join(line, '\n', none);
        lemma_one_piece(line, '\n');
        let p = pieces(s@, '\n');
        assert(p =~= seq![line, none]);
        assert(p.drop_last() =~= seq![line]);
        if line.len() == 0 || line.last() != '\r' {
            assert(lines(s@) =~= seq![line]);
        }
    }
}

/// Names are rewritten character by character: underscores become hyphens, blanks or slashes, and
/// nothing else changes.
pub proof fn law_underscores_are_rewritten(
    s: &str,
    kebab: String,
    words: String,
    path: String,
    i: int,
)
    requires
        call_ensures(to_kebab, (s,), kebab),
        call_ensures(to_words, (s,), words),
        call_ensures(to_path, (s,), path),
        0 <= i < s@.len(),
    ensures
        kebab@.len() == s@.len() && words@.len() == s@.len() && path@.len() == s@.len(),
        s@[i] == '_' ==> kebab@[i] == '-' && words@[i] == ' ' && path@[i] == '/',
        s@[i] != '_' ==> kebab@[i] == s@[i] && words@[i] == s@[i] && path@[i] == s@[i],
{
}

/// Only the ASCII capital letters are made small, each into its own.
pub proof fn law_capitals_are_made_small(s: &str, r: String, i: int)
    requires
        call_ensures(to_ascii_lowercase, (s,), r),
        0 <= i < s@.len(),
    ensures
        r@.len() == s@.len(),
        'A' <= s@[i] <= 'Z' ==> r@[i] as u32 == s@[i] as u32 + 32,
        !('A' <= s@[i] <= 'Z') ==> r@[i] == s@[i],
{
}

/// A text without white space around it is left by trimming, also where its line was ended.
pub proof fn lemma_trimmed_line(s: Seq<char>)
    requires
        s.len() > 0,
        trimmed(s) == s,
    ensures
        trimmed(s.push('\n')) == s,
{
    let i = lemma_trim_front(s);
    let f = trim_front(s);
    let n = lemma_trim_back(f);
    assert(i == 0 && n == s.len());
    assert(f =~= s);
    let t = s.push('\n');
    assert(t[0] == s[0]);
    assert(trim_front(t) == t);
    assert(t.drop_last() =~= s);
    assert(is_space('\n'));
}

} // verus!
