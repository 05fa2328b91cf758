//! JSON values.

use crate::text;
use crate::textmap::TextMap;
use vstd::prelude::*;

verus! {

/// A JSON value. Numbers that are not 64-bit integers are kept by their text.
#[derive(Debug)]
pub enum Json {
    /// `null`.
    Null,
    /// `true` or `false`.
    Bool(bool),
    /// An integer that is not negative.
    Unsigned(u64),
    /// A negative integer.
    Negative(i64),
    /// Any other number, as it is written.
    Decimal(String),
    /// A string.
    Text(String),
    /// An array.
    Array(Vec<Json>),
    /// An object.
    Object(TextMap<Json>),
}

impl Json {
    /// The value is this string.
    pub open spec fn is_text(self, s: Seq<char>) -> bool {
        self matches Json::Text(t) && t@ == s
    }

    /// The members of an object; none for any other value.
    pub open spec fn members(self) -> Map<Seq<char>, Json> {
        match self {
            Json::Object(m) => m@,
            _ => Map::empty(),
        }
    }

    /// The value is an object with exactly these member names.
    pub open spec fn has_members(self, names: Set<Seq<char>>) -> bool {
        self is Object && self.members().dom() == names
    }

    /// The elements of an array; none for any other value.
    pub open spec fn elements(self) -> Seq<Json> {
        match self {
            Json::Array(v) => v@,
            _ => Seq::empty(),
        }
    }

    /// The value is an array of these strings.
    pub open spec fn is_texts(self, s: Seq<Seq<char>>) -> bool {
        &&& self is Array
        &&& self.elements().len() == s.len()
        &&& forall|i: int| 0 <= i < s.len() ==> (#[trigger] self.elements()[i]).is_text(s[i])
    }

    /// The value is an array of these bytes, as numbers.
    pub open spec fn is_bytes(self, s: Seq<u8>) -> bool {
        &&& self is Array
        &&& self.elements().len() == s.len()
        &&& forall|i: int|
            0 <= i < s.len() ==> (#[trigger] self.elements()[i]) == Json::Unsigned(s[i] as u64)
    }

    /// A string value.
    pub fn text(s: &str) -> (r: Json)
        ensures
            r.is_text(s@),
    {
        Json::Text(String::from_str(s))
    }

    /// An array of strings.
    pub fn texts(v: &[String]) -> (r: Json)
        ensures
            r.is_texts(v@.map_values(|x: String| x@)),
    {
        let mut out: Vec<Json> = Vec::new();
        let ghost views = v@.map_values(|x: String| x@);
        let mut i: usize = 0;
        while i < v.len()
            invariant
                i <= v@.len(),
                out@.len() == i,
                views == v@.map_values(|x: String| x@),
                forall|j: int| 0 <= j < i ==> (#[trigger] out@[j]).is_text(views[j]),
            decreases v.len() - i,
        {
            out.push(Json::text(&v[i]));
            i += 1;
        }
        Json::Array(out)
    }

    /// An array of bytes, as numbers.
    pub fn bytes(v: &[u8]) -> (r: Json)
        ensures
            r.is_bytes(v@),
    {
        let mut out: Vec<Json> = Vec::new();
        let mut i: usize = 0;
        while i < v.len()
            invariant
                i <= v@.len(),
                out@.len() == i,
                forall|j: int| 0 <= j < i ==> (#[trigger] out@[j]) == Json::Unsigned(v@[j] as u64),
            decreases v.len() - i,
        {
            out.push(Json::Unsigned(v[i] as u64));
            i += 1;
        }
        Json::Array(out)
    }

    /// The member of an object; `None` where there is none, or no object.
    pub fn get(&self, name: &str) -> (r: Option<&Json>)
        ensures
            match r {
                Some(v) => self.members().dom().contains(name@) && *v == self.members()[name@],
                None => !self.members().dom().contains(name@),
            },
    {
        match self {
            Json::Object(m) => m.get(name),
            _ => None,
        }
    }

    /// The text of a string value.
    pub fn as_str(&self) -> (r: Option<&String>)
        ensures
            match r {
                Some(s) => *self == Json::Text(*s),
                None => !(self is Text),
            },
    {
        match self {
            Json::Text(s) => Some(s),
            _ => None,
        }
    }

    /// The elements of an array value.
    pub fn as_array(&self) -> (r: Option<&Vec<Json>>)
        ensures
            match r {
                Some(v) => *self == Json::Array(*v),
                None => !(self is Array),
            },
    {
        match self {
            Json::Array(v) => Some(v),
            _ => None,
        }
    }
}

/// Two values are equal: they have the same kind and contents. The order of members does
/// not count.
pub open spec fn alike(a: Json, b: Json) -> bool
    decreases a,
{
    match (a, b) {
        (Json::Null, Json::Null) => true,
        (Json::Bool(x), Json::Bool(y)) => x == y,
        (Json::Unsigned(x), Json::Unsigned(y)) => x == y,
        (Json::Negative(x), Json::Negative(y)) => x == y,
        (Json::Decimal(x), Json::Decimal(y)) => x@ == y@,
        (Json::Text(x), Json::Text(y)) => x@ == y@,
        (Json::Array(x), Json::Array(y)) => {
            &&& x@.len() == y@.len()
            &&& forall|i: int| 0 <= i < x@.len() ==> alike(#[trigger] x@[i], y@[i])
        },
        (Json::Object(x), Json::Object(y)) => {
            proof {
                assert forall|k: Seq<char>| x@.dom().contains(k) implies #[trigger] decreases_to!(a => x@[k]) by {
                    x.lemma_values_decrease(k);
                }
            }
            &&& x@.dom() == y@.dom()
            &&& forall|k: Seq<char>| x@.dom().contains(k) ==> alike(#[trigger] x@[k], y@[k])
        },
        _ => false,
    }
}

/// Every value is equal to itself.
pub proof fn lemma_alike_reflexive(a: Json)
    ensures
        alike(a, a),
    decreases a,
{
    match a {
        Json::Array(x) => {
            assert forall|i: int| 0 <= i < x@.len() implies alike(#[trigger] x@[i], x@[i]) by {
                lemma_alike_reflexive(x@[i]);
            }
        },
        Json::Object(x) => {
            assert forall|k: Seq<char>| x@.dom().contains(k) implies alike(
                #[trigger] x@[k],
                x@[k],
            ) by {
                x.lemma_values_decrease(k);
                lemma_alike_reflexive(x@[k]);
            }
        },
        _ => {},
    }
}

/// Equality of values does not depend on the side.
pub proof fn lemma_alike_symmetric(a: Json, b: Json)
    requires
        alike(a, b),
    ensures
        alike(b, a),
    decreases a,
{
    match (a, b) {
        (Json::Array(x), Json::Array(y)) => {
            assert forall|i: int| 0 <= i < y@.len() implies alike(#[trigger] y@[i], x@[i]) by {
                assert(alike(x@[i], y@[i]));
                lemma_alike_symmetric(x@[i], y@[i]);
            }
        },
        (Json::Object(x), Json::Object(y)) => {
            assert forall|k: Seq<char>| y@.dom().contains(k) implies alike(
                #[trigger] y@[k],
                x@[k],
            ) by {
                assert(alike(x@[k], y@[k]));
                x.lemma_values_decrease(k);
                lemma_alike_symmetric(x@[k], y@[k]);
            }
        },
        _ => {},
    }
}

/// Values equal to the same value are equal.
pub proof fn lemma_alike_transitive(a: Json, b: Json, c: Json)
    requires
        alike(a, b),
        alike(b, c),
    ensures
        alike(a, c),
    decreases a,
{
    match (a, b, c) {
        (Json::Array(x), Json::Array(y), Json::Array(z)) => {
            assert forall|i: int| 0 <= i < x@.len() implies alike(#[trigger] x@[i], z@[i]) by {
                assert(alike(x@[i], y@[i]));
                assert(alike(y@[i], z@[i]));
                lemma_alike_transitive(x@[i], y@[i], z@[i]);
            }
        },
        (Json::Object(x), Json::Object(y), Json::Object(z)) => {
            assert forall|k: Seq<char>| x@.dom().contains(k) implies alike(
                #[trigger] x@[k],
                z@[k],
            ) by {
                assert(alike(x@[k], y@[k]));
                assert(alike(y@[k], z@[k]));
                x.lemma_values_decrease(k);
                lemma_alike_transitive(x@[k], y@[k], z@[k]);
            }
        },
        _ => {},
    }
}

fn same_elements(a: &Vec<Json>, b: &Vec<Json>) -> (r: bool)
    ensures
        r == (a@.len() == b@.len() && forall|i: int|
            0 <= i < a@.len() ==> alike(#[trigger] a@[i], b@[i])),
    decreases a@, 0nat,
{
    if a.len() != b.len() {
        return false;
    }
    let mut i: usize = 0;
    while i < a.len()
        invariant
            i <= a@.len() == b@.len(),
            forall|j: int| 0 <= j < i ==> alike(#[trigger] a@[j], b@[j]),
        decreases a.len() - i,
    {
        let ghost x = a@[i as int];
        assert(decreases_to!(a@ => a@[i as int]));
        if !same(&a[i], &b[i]) {
            assert(!alike(a@[i as int], b@[i as int]));
            return false;
        }
        i += 1;
    }
    true
}

/// Whether two values are equal.
pub fn same(a: &Json, b: &Json) -> (r: bool)
    ensures
        r == alike(*a, *b),
    decreases *a, 1nat,
{
    match (a, b) {
        (Json::Null, Json::Null) => true,
        (Json::Bool(x), Json::Bool(y)) => *x == *y,
        (Json::Unsigned(x), Json::Unsigned(y)) => *x == *y,
        (Json::Negative(x), Json::Negative(y)) => *x == *y,
        (Json::Decimal(x), Json::Decimal(y)) => text::same(x, y),
        (Json::Text(x), Json::Text(y)) => text::same(x, y),
        (Json::Array(x), Json::Array(y)) => {
            assert(decreases_to!(*a => x@));
            same_elements(x, y)
        },
        (Json::Object(x), Json::Object(y)) => {
            same_members(x, y)
        },
        _ => false,
    }
}

fn same_members(a: &TextMap<Json>, b: &TextMap<Json>) -> (r: bool)
    ensures
        r == (a@.dom() == b@.dom() && forall|k: Seq<char>|
            a@.dom().contains(k) ==> alike(#[trigger] a@[k], b@[k])),
    decreases *a, 0nat,
{
    proof {
        a.lemma_keys();
        b.lemma_keys();
    }
    let mut i: usize = 0;
    let n: usize = a.len();
    while i < n
        invariant
            i <= n == a.keys().len(),
            forall|k: Seq<char>| #[trigger] a.keys().contains(k) <==> a@.dom().contains(k),
            forall|j: int|
                0 <= j < i ==> b@.dom().contains(#[trigger] a.keys()[j]) && alike(
                    a@[a.keys()[j]],
                    b@[a.keys()[j]],
                ),
        decreases n - i,
    {
        let (k, v) = a.entry(i);
        assert(a.keys()[i as int] == k@);
        match b.get(k) {
            Some(w) => {
                proof {
                    a.lemma_values_decrease(k@);
                }
                if !same(v, w) {
                    assert(!alike(a@[k@], b@[k@]));
                    return false;
                }
            },
            None => {
                assert(a@.dom().contains(k@) && !b@.dom().contains(k@));
                return false;
            },
        }
        i += 1;
    }
    let mut i: usize = 0;
    let m: usize = b.len();
    while i < m
        invariant
            i <= m == b.keys().len(),
            forall|k: Seq<char>| #[trigger] b.keys().contains(k) <==> b@.dom().contains(k),
            forall|j: int| 0 <= j < i ==> a@.dom().contains(#[trigger] b.keys()[j]),
        decreases m - i,
    {
        let (k, _) = b.entry(i);
        assert(b.keys()[i as int] == k@);
        if !a.contains(k) {
            assert(b@.dom().contains(k@) && !a@.dom().contains(k@));
            return false;
        }
        i += 1;
    }
    proof {
        assert forall|k: Seq<char>| #[trigger] a@.dom().contains(k) implies b@.dom().contains(k)
            && alike(a@[k], b@[k]) by {
            assert(a.keys().contains(k));
            let j = choose|j: int| 0 <= j < a.keys().len() && a.keys()[j] == k;
            assert(a.keys()[j] == k);
        }
        assert forall|k: Seq<char>| #[trigger] b@.dom().contains(k) implies a@.dom().contains(k) by {
            assert(b.keys().contains(k));
            let j = choose|j: int| 0 <= j < b.keys().len() && b.keys()[j] == k;
            assert(b.keys()[j] == k);
        }
        assert(a@.dom() =~= b@.dom());
    }
    true
}

} // verus!
