//! The operations that a capability can authorize.

use crate::text;
use vstd::prelude::*;

verus! {

/// The operations that can be authorized.
#[derive(Debug, Clone, Copy, PartialEq, Eq, Structural)]
pub enum Operation {
    /// Read events.
    Read,
    /// Write (append) events.
    Write,
    /// List subjects.
    Subjects,
    /// Search events.
    Search,
    /// Admin operations (mint tokens, etc.).
    Admin,
    /// Federation handshake, replication and acknowledgement.
    Peer,
    /// Subscribe to events.
    Subscribe,
}

impl Operation {
    /// The lowercase name under which the operation stands in a token.
    pub open spec fn name(self) -> Seq<char> {
        match self {
            Operation::Read => "read"@,
            Operation::Write => "write"@,
            Operation::Subjects => "subjects"@,
            Operation::Search => "search"@,
            Operation::Admin => "admin"@,
            Operation::Peer => "peer"@,
            Operation::Subscribe => "subscribe"@,
        }
    }

    /// The lowercase name, as a string slice.
    pub fn as_str(&self) -> (r: &'static str)
        ensures
            r@ == self.name(),
    {
        match self {
            Operation::Read => "read",
            Operation::Write => "write",
            Operation::Subjects => "subjects",
            Operation::Search => "search",
            Operation::Admin => "admin",
            Operation::Peer => "peer",
            Operation::Subscribe => "subscribe",
        }
    }

    /// The lowercase name.
    pub fn to_string(&self) -> (r: String)
        ensures
            r@ == self.name(),
    {
        String::from_str(self.as_str())
    }

    /// The operation with this name; `None` for an unknown name.
    pub fn from_name(name: &str) -> (r: Option<Operation>)
        ensures
            match r {
                Some(op) => op.name() == name@,
                None => forall|op: Operation| op.name() != name@,
            },
    {
        if text::same(name, "read") {
            Some(Operation::Read)
        } else if text::same(name, "write") {
            Some(Operation::Write)
        } else if text::same(name, "subjects") {
            Some(Operation::Subjects)
        } else if text::same(name, "search") {
            Some(Operation::Search)
        } else if text::same(name, "admin") {
            Some(Operation::Admin)
        } else if text::same(name, "peer") {
            Some(Operation::Peer)
        } else if text::same(name, "subscribe") {
            Some(Operation::Subscribe)
        } else {
            None
        }
    }

    /// The operation that a grant request names: the administrative surface
    /// accepts `read`, `write`, `subjects`, `search` and `admin` only.
    pub fn from_grant_name(name: &str) -> (r: Option<Operation>)
        ensures
            match r {
                Some(op) => op.name() == name@ && op.grantable(),
                None => forall|op: Operation| op.grantable() ==> op.name() != name@,
            },
    {
        match Operation::from_name(name) {
            Some(Operation::Peer) => {
                proof {
                    Operation::law_names_are_distinct();
                }
                None
            },
            Some(Operation::Subscribe) => {
                proof {
                    Operation::law_names_are_distinct();
                }
                None
            },
            other => other,
        }
    }

    /// Whether a grant request may name the operation.
    pub open spec fn grantable(self) -> bool {
        self != Operation::Peer && self != Operation::Subscribe
    }

    /// Two operations with the same name are the same operation.
    pub proof fn law_names_are_distinct()
        ensures
            forall|a: Operation, b: Operation| a.name() == b.name() ==> a == b,
    {
        reveal_strlit("read");
        reveal_strlit("write");
        reveal_strlit("subjects");
        reveal_strlit("search");
        reveal_strlit("admin");
        reveal_strlit("peer");
        reveal_strlit("subscribe");
        assert forall|a: Operation, b: Operation| a.name() == b.name() implies a == b by {
            let x = a.name();
            let y = b.name();
            assert(x.len() == y.len());
            assert(x[0] == y[0]);
            assert(x[1] == y[1]);
            assert(x[2] == y[2]);
            assert(x[3] == y[3]);
        }
    }
}

/// Every operation is found again by its name, and of a grant those that a grant can name.
pub proof fn law_names_lead_back(
    op: Operation,
    held: &Operation,
    name: &'static str,
    found: Option<Operation>,
    granted: Option<Operation>,
)
    requires
        *held == op,
        call_ensures(Operation::as_str, (held,), name),
        call_ensures(Operation::from_name, (name,), found),
        call_ensures(Operation::from_grant_name, (name,), granted),
    ensures
        found == Some(op),
        op is Peer || op is Subscribe ==> granted is None,
        !(op is Peer || op is Subscribe) ==> granted == Some(op),
{
    Operation::law_names_are_distinct();
}

} // verus!
