//! Paths as text, with `/` between components.
//!
//! A path is read as the standard library reads one on Unix: repeated and trailing
//! slashes and inner `.` components do not count.

use crate::text;
use vstd::prelude::*;

verus! {

/// `p` without what stands for nothing at its end: slashes, and `.` behind a slash.
pub open spec fn without_tail(p: Seq<char>) -> Seq<char>
    decreases p.len(),
{
    if p.len() > 0 && p.last() == '/' {
        without_tail(p.drop_last())
    } else if p.len() > 1 && p.last() == '.' && p[p.len() - 2] == '/' {
        without_tail(p.drop_last())
    } else {
        p
    }
}

/// The last component of `p`, as written.
pub open spec fn last_component(p: Seq<char>) -> Seq<char> {
    let q = without_tail(p);
    match text::last_index(q, '/') {
        Some(i) => q.skip(i + 1),
        None => q,
    }
}

/// The path ends in a name, not in a root, `.` or `..`.
pub open spec fn has_file_name(p: Seq<char>) -> bool {
    let c = last_component(p);
    c.len() > 0 && c != "."@ && c != ".."@
}

/// The path without its last component.
pub open spec fn parent_of(p: Seq<char>) -> Seq<char> {
    let q = without_tail(p);
    match text::last_index(q, '/') {
        Some(i) => {
            let r = without_tail(q.take(i));
            if r.len() == 0 {
                "/"@
            } else {
                r
            }
        },
        None => Seq::empty(),
    }
}

/// `base` followed by `rest`; an absolute `rest` stands alone.
pub open spec fn joined(base: Seq<char>, rest: Seq<char>) -> Seq<char> {
    if rest.len() > 0 && rest[0] == '/' {
        rest
    } else if base.len() == 0 || base.last() == '/' {
        base + rest
    } else {
        base + "/"@ + rest
    }
}

/// Drops slashes and `.` components at the end.
fn strip_tail(p: &str) -> (r: String)
    ensures
        r@ == without_tail(p@),
{
    let x = text::chars_of(p);
    let mut n: usize = x.len();
    assert(p@.take(n as int) =~= p@);
    while n > 0 && (x[n - 1] == '/' || (n > 1 && x[n - 1] == '.' && x[n - 2] == '/'))
        invariant
            n <= x@.len(),
            x@ == p@,
            without_tail(p@.take(n as int)) == without_tail(p@),
        decreases n,
    {
        let ghost t = p@.take(n as int);
        assert(t.last() == x@[n - 1]);
        assert(t.drop_last() =~= p@.take(n - 1));
        assert(n > 1 ==> t[t.len() - 2] == x@[n - 2]);
        n -= 1;
    }
    proof {
        let t = p@.take(n as int);
        if n > 0 {
            assert(t.last() == x@[n - 1]);
            assert(n > 1 ==> t[t.len() - 2] == x@[n - 2]);
        }
        assert(p@.subrange(0, n as int) =~= t);
    }
    text::text_of(&x, 0, n)
}

/// The name that a path ends in (as `std::path::Path::file_name`).
pub fn file_name(p: &str) -> (r: Option<String>)
    ensures
        match r {
            Some(n) => has_file_name(p@) && n@ == last_component(p@),
            None => !has_file_name(p@),
        },
{
    let q = strip_tail(p);
    let n: usize = q.as_str().unicode_len();
    let c: String = match text::last_index_of(&q, '/') {
        Some(i) => {
            assert(i < n);
            String::from_str(text::skip(&q, i + 1))
        },
        None => String::from_str(&q),
    };
    if c.as_str().unicode_len() == 0 || text::same(&c, ".") || text::same(&c, "..") {
        None
    } else {
        Some(c)
    }
}

/// The path without its last component (as `std::path::Path::parent`, on a path that
/// has a file name).
pub fn parent(p: &str) -> (r: String)
    ensures
        r@ == parent_of(p@),
{
    let q = strip_tail(p);
    match text::last_index_of(&q, '/') {
        Some(i) => {
            let r = strip_tail(text::take(&q, i));
            if r.as_str().unicode_len() == 0 {
                String::from_str("/")
            } else {
                r
            }
        },
        None => {
            let r = String::new();
            assert(r@ =~= Seq::empty());
            r
        },
    }
}

/// Joins two paths (as `std::path::Path::join`).
pub fn join(base: &str, rest: &str) -> (r: String)
    ensures
        r@ == joined(base@, rest@),
{
    let n: usize = base.unicode_len();
    if rest.unicode_len() > 0 && rest.get_char(0) == '/' {
        String::from_str(rest)
    } else if n == 0 || base.get_char(n - 1) == '/' {
        let mut r = String::from_str(base);
        r.append(rest);
        r
    } else {
        let mut r = String::from_str(base);
        r.append("/");
        r.append(rest);
        r
    }
}

/// The path of a file beside `p`: the last component replaced by `name`, or `name` added
/// where there is none (as `std::path::Path::with_file_name`).
pub open spec fn beside(p: Seq<char>, name: Seq<char>) -> Seq<char> {
    if has_file_name(p) {
        joined(parent_of(p), name)
    } else {
        joined(p, name)
    }
}

/// The path of the file `name` beside `p`.
pub fn with_file_name(p: &str, name: &str) -> (r: String)
    ensures
        r@ == beside(p@, name@),
{
    match file_name(p) {
        Some(_) => {
            let dir = parent(p);
            join(&dir, name)
        },
        None => join(p, name),
    }
}

proof fn lemma_last_index(s: Seq<char>, c: char)
    ensures
        match text::last_index(s, c) {
            Some(i) => 0 <= i < s.len() && s[i] == c && forall|j: int| i < j < s.len() ==> s[j] != c,
            None => !s.contains(c),
        },
    decreases s.len(),
{
    if s.len() > 0 && s.last() != c {
        lemma_last_index(s.drop_last(), c);
        assert forall|j: int| 0 <= j < s.len() - 1 implies s[j] == s.drop_last()[j] by {}
        if text::last_index(s.drop_last(), c) is None && s.contains(c) {
            let j = choose|j: int| 0 <= j < s.len() && s[j] == c;
            assert(s.drop_last()[j] == c);
        }
    }
}

proof fn lemma_without_tail(p: Seq<char>)
    ensures
        without_tail(p).len() > 0 ==> without_tail(p).last() != '/',
    decreases p.len(),
{
    if p.len() > 0 && (p.last() == '/' || (p.len() > 1 && p.last() == '.' && p[p.len() - 2] == '/')) {
        lemma_without_tail(p.drop_last());
    }
}

/// A directory as [`parent_of`] gives one: none, the root, or one without a slash at its end.
pub open spec fn is_parent(d: Seq<char>) -> bool {
    d.len() == 0 || d == "/"@ || d.last() != '/'
}

/// A name without a slash.
pub open spec fn is_name(n: Seq<char>) -> bool {
    n.len() > 0 && !n.contains('/')
}

/// What a path falls into.
pub proof fn lemma_parts(p: Seq<char>)
    ensures
        is_parent(parent_of(p)),
        has_file_name(p) ==> is_name(last_component(p)),
{
    let q = without_tail(p);
    lemma_last_index(q, '/');
    match text::last_index(q, '/') {
        Some(i) => {
            lemma_without_tail(q.take(i));
            let c = q.skip(i + 1);
            assert forall|j: int| 0 <= j < c.len() implies c[j] != '/' by {
                assert(c[j] == q[i + 1 + j]);
            }
        },
        None => {},
    }
}

proof fn lemma_no_longer_name(d1: Seq<char>, n1: Seq<char>, d2: Seq<char>, n2: Seq<char>)
    requires
        is_parent(d1),
        is_name(n1),
        is_parent(d2),
        is_name(n2),
        joined(d1, n1) == joined(d2, n2),
    ensures
        n1.len() >= n2.len(),
{
    reveal_strlit("/");
    assert(n1[0] != '/' && n2[0] != '/') by {
        assert(n1.contains(n1[0]) && n2.contains(n2[0]));
    }
    let s = joined(d1, n1);
    if n1.len() < n2.len() {
        let p1 = s.len() - n1.len();
        let p2 = s.len() - n2.len();
        assert(s[p1 - 1] == '/');
        assert(n2[p1 - 1 - p2] == s[p1 - 1]);
        assert(n2.contains('/'));
    }
}

/// A path falls into directory and name in one way only.
pub proof fn lemma_joined_in_one_way(d1: Seq<char>, n1: Seq<char>, d2: Seq<char>, n2: Seq<char>)
    requires
        is_parent(d1),
        is_name(n1),
        is_parent(d2),
        is_name(n2),
        joined(d1, n1) == joined(d2, n2),
    ensures
        d1 == d2,
        n1 == n2,
{
    reveal_strlit("/");
    lemma_no_longer_name(d1, n1, d2, n2);
    lemma_no_longer_name(d2, n2, d1, n1);
    assert(n1[0] != '/' && n2[0] != '/') by {
        assert(n1.contains(n1[0]) && n2.contains(n2[0]));
    }
    let s = joined(d1, n1);
    let p = s.len() - n1.len();
    assert(n1 =~= s.skip(p));
    assert(n2 =~= s.skip(p));
    assert(s.take(p) =~= if d1.len() == 0 || d1 == "/"@ {
        d1
    } else {
        d1 + "/"@
    });
    assert(s.take(p) =~= if d2.len() == 0 || d2 == "/"@ {
        d2
    } else {
        d2 + "/"@
    });
    if d1.len() > 0 && d1 != "/"@ && d2.len() > 0 && d2 != "/"@ {
        assert(d1 =~= s.take(p).drop_last());
        assert(d2 =~= s.take(p).drop_last());
    }
    assert(d1 =~= d2);
}

/// A path that is a directory, a slash and a name falls into that directory and that name, and
/// is put together from them again; and the file of another name beside it lies in the same
/// directory. The directory is written without slashes and dots at its end, and the name is
/// neither `.` nor `..`.
pub proof fn law_a_path_has_its_parts(
    p: &str,
    dir: &str,
    name: &str,
    other: &str,
    found: Option<String>,
    above: String,
    whole: String,
    neighbour: String,
)
    requires
        p@ == dir@ + "/"@ + name@,
        dir@.len() > 0 && without_tail(dir@) == dir@,
        is_name(name@) && name@ != "."@ && name@ != ".."@,
        is_name(other@),
        call_ensures(file_name, (p,), found),
        call_ensures(parent, (p,), above),
        call_ensures(join, (dir, name), whole),
        call_ensures(with_file_name, (p, other), neighbour),
    ensures
        found matches Some(n) && n@ == name@,
        above@ == dir@,
        whole@ == p@,
        neighbour@ == dir@ + "/"@ + other@,
{
    lemma_parts_of(p@, dir@, name@);
    reveal_strlit("/");
    lemma_without_tail(dir@);
    assert(name@.contains(name@[0]) && other@.contains(other@[0]));
}

pub proof fn lemma_parts_of(p: Seq<char>, dir: Seq<char>, name: Seq<char>)
    requires
        p == dir + "/"@ + name,
        dir.len() > 0 && without_tail(dir) == dir,
        is_name(name) && name != "."@ && name != ".."@,
    ensures
        has_file_name(p),
        last_component(p) == name,
        parent_of(p) == dir,
{
    reveal_strlit("/");
    reveal_strlit(".");
    reveal_strlit("..");
    assert(p =~= dir + seq!['/'] + name);
    assert(name.contains(name.last()));
    assert(p.last() == name.last());
    if p.last() == '.' && p[p.len() - 2] == '/' {
        if name.len() > 1 {
            assert(p[p.len() - 2] == name[name.len() - 2]);
            assert(name.contains(name[name.len() - 2]));
        } else {
            assert(name =~= "."@);
        }
    }
    assert(without_tail(p) == p);
    text::lemma_last_index_of_tail(dir, '/', name);
    assert(p.skip(dir.len() as int + 1) =~= name);
    assert(p.take(dir.len() as int) =~= dir);
}

/// The file of a name in the directory of another file: it lies beside that file, and files of two
/// names are two.
pub proof fn lemma_beside(dir: Seq<char>, name: Seq<char>, a: Seq<char>, b: Seq<char>)
    requires
        dir.len() > 0 && without_tail(dir) == dir && dir.last() != '/',
        is_name(name) && name != "."@ && name != ".."@,
        a.len() > 0 && a[0] != '/',
        b.len() > 0 && b[0] != '/',
    ensures
        joined(parent_of(dir + "/"@ + name), a) == dir + "/"@ + a,
        joined(parent_of(dir + "/"@ + name), a) == joined(parent_of(dir + "/"@ + name), b) ==> a == b,
{
    lemma_parts_of(dir + "/"@ + name, dir, name);
    let x = dir + "/"@ + a;
    let y = dir + "/"@ + b;
    if x == y {
        let n = (dir + "/"@).len() as int;
        assert(x.skip(n) =~= a);
        assert(y.skip(n) =~= b);
    }
}

} // verus!
