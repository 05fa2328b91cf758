//! Daemon pidfile lock and admin URL beacon.
//!
//! A pidfile lies next to the database at `<db_path>.pid`. It tells a second daemon that
//! one is already running, and other programs where the running one listens. It is
//! informational: the port that the daemon binds excludes a second one. The file of a
//! dead process is stale and may be overwritten.

use crate::path;
use crate::text;
use crate::time::Timestamp;
use vstd::prelude::*;

verus! {

/// Contents of the pidfile.
#[derive(Debug, Clone)]
pub struct PidFile {
    /// PID of the daemon process.
    pub pid: u32,
    /// HTTP admin bind, such as `127.0.0.1:7777`.
    pub admin_bind: String,
    /// Wire-protocol bind, if the daemon started one.
    pub wire_bind: Option<String>,
    /// Version of the daemon.
    pub version: String,
    /// When the pidfile was written.
    pub started_at: Timestamp,
    /// Path of the database that the daemon has opened.
    pub db_path: String,
}

/// The pidfile of a database: its name with `.pid` added, or `ctxd.db.pid` where the
/// path ends in no name.
pub open spec fn pidfile_of(db: Seq<char>) -> Seq<char> {
    if path::has_file_name(db) {
        path::beside(db, path::last_component(db) + ".pid"@)
    } else {
        path::beside(db, "ctxd.db.pid"@)
    }
}

/// Two databases have two pidfiles: where the pidfiles are the same, so are the directory and
/// the name of the database. Only paths that end in a name are those of a database.
pub proof fn law_two_databases_have_two_pidfiles(a: Seq<char>, b: Seq<char>)
    requires
        path::has_file_name(a),
        path::has_file_name(b),
        pidfile_of(a) == pidfile_of(b),
    ensures
        path::parent_of(a) == path::parent_of(b),
        path::last_component(a) == path::last_component(b),
{
    reveal_strlit(".pid");
    path::lemma_parts(a);
    path::lemma_parts(b);
    let x = path::last_component(a);
    let y = path::last_component(b);
    let suffix = ".pid"@;
    assert(!suffix.contains('/'));
    assert forall|c: char| (x + suffix).contains(c) implies x.contains(c) || suffix.contains(
        c,
    ) by {
        let i = choose|i: int| 0 <= i < (x + suffix).len() && (x + suffix)[i] == c;
        if i < x.len() {
            assert(x[i] == c);
        } else {
            assert(suffix[i - x.len()] == c);
        }
    }
    assert forall|c: char| (y + suffix).contains(c) implies y.contains(c) || suffix.contains(
        c,
    ) by {
        let i = choose|i: int| 0 <= i < (y + suffix).len() && (y + suffix)[i] == c;
        if i < y.len() {
            assert(y[i] == c);
        } else {
            assert(suffix[i - y.len()] == c);
        }
    }
    path::lemma_joined_in_one_way(
        path::parent_of(a),
        x + suffix,
        path::parent_of(b),
        y + suffix,
    );
    assert(x =~= (x + suffix).take(x.len() as int));
    assert(y =~= (y + suffix).take(y.len() as int));
}

/// Where to put the pidfile of a daemon on `db_path`. Daemons on one database share it.
pub fn pidfile_path(db_path: &str) -> (r: String)
    ensures
        r@ == pidfile_of(db_path@),
{
    let name = match path::file_name(db_path) {
        Some(n) => {
            let mut n = n;
            n.append(".pid");
            n
        },
        None => String::from_str("ctxd.db.pid"),
    };
    path::with_file_name(db_path, &name)
}

/// Where a process writes the pidfile before it takes its place under its own name.
pub fn temp_path(db_path: &str, pid: u32) -> (r: String)
    ensures
        r@ == path::joined(
            path::parent_of(pidfile_of(db_path@)),
            ".ctxd-pidfile-"@ + text::digits(pid as nat) + ".tmp"@,
        ),
{
    let target = pidfile_path(db_path);
    let dir = path::parent(&target);
    let mut name = String::from_str(".ctxd-pidfile-");
    let digits = text::unsigned_text(pid as u64);
    name.append(&digits);
    name.append(".tmp");
    path::join(&dir, &name)
}

/// Whether to remove the pidfile: only where it names this process.
pub fn remove_if_ours(found: Option<&PidFile>, own_pid: u32) -> (r: bool)
    ensures
        r == (found matches Some(f) && f.pid == own_pid),
{
    match found {
        Some(f) => f.pid == own_pid,
        None => false,
    }
}

/// The request that asks a daemon for its health. `Host` names the bind itself, which the
/// daemon checks.
pub fn health_request(admin_bind: &str) -> (r: String)
    ensures
        r@ == "GET /health HTTP/1.1\r\nHost: "@ + admin_bind@ + "\r\nConnection: close\r\n\r\n"@,
{
    let mut s = String::from_str("GET /health HTTP/1.1\r\nHost: ");
    s.append(admin_bind);
    s.append("\r\nConnection: close\r\n\r\n");
    s
}

/// Whether the head of an answer reports success.
pub fn health_probe(head: &str) -> (r: bool)
    ensures
        r == ("HTTP/1.1 2"@.is_prefix_of(head@) || "HTTP/1.0 2"@.is_prefix_of(head@)),
{
    text::starts_with(head, "HTTP/1.1 2") || text::starts_with(head, "HTTP/1.0 2")
}

/// Daemon state inferred from the pidfile and the probes.
#[derive(Debug)]
pub enum DaemonState {
    /// No pidfile. Free to start.
    NotRunning,
    /// The process is alive and answers.
    Running(PidFile),
    /// The process is alive and does not answer.
    Unresponsive(PidFile),
    /// The process is dead.
    Stale(PidFile),
}

impl DaemonState {
    /// The contents of the pidfile, where there was one.
    pub fn pidfile(&self) -> (r: Option<&PidFile>)
        ensures
            match r {
                Some(f) => !(self is NotRunning) && (*self == DaemonState::Running(*f) || *self
                    == DaemonState::Unresponsive(*f) || *self == DaemonState::Stale(*f)),
                None => self is NotRunning,
            },
    {
        match self {
            DaemonState::NotRunning => None,
            DaemonState::Running(f) => Some(f),
            DaemonState::Unresponsive(f) => Some(f),
            DaemonState::Stale(f) => Some(f),
        }
    }

    /// A live process holds the pidfile.
    pub open spec fn is_held(self) -> bool {
        self is Running || self is Unresponsive
    }

    /// Whether another daemon already serves the same database.
    pub fn blocks_startup(&self) -> (r: bool)
        ensures
            r == self.is_held(),
    {
        match self {
            DaemonState::Running(_) => true,
            DaemonState::Unresponsive(_) => true,
            _ => false,
        }
    }
}

/// The state that a pidfile and the two probes tell of.
pub open spec fn classified(found: Option<PidFile>, alive: bool, healthy: bool) -> DaemonState {
    match found {
        None => DaemonState::NotRunning,
        Some(f) => if !alive {
            DaemonState::Stale(f)
        } else if healthy {
            DaemonState::Running(f)
        } else {
            DaemonState::Unresponsive(f)
        },
    }
}

/// Classifies the daemon beside a database. `alive` tells whether the process that the
/// file names exists, and `healthy` whether it answered.
pub fn detect(found: Option<PidFile>, alive: bool, healthy: bool) -> (r: DaemonState)
    ensures
        r == classified(found, alive, healthy),
{
    match found {
        None => DaemonState::NotRunning,
        Some(f) => if !alive {
            DaemonState::Stale(f)
        } else if healthy {
            DaemonState::Running(f)
        } else {
            DaemonState::Unresponsive(f)
        },
    }
}

/// A pidfile blocks a start exactly where its process is alive.
pub proof fn law_only_a_live_process_blocks(found: Option<PidFile>, alive: bool, healthy: bool)
    ensures
        classified(found, alive, healthy).is_held() <==> found is Some && alive,
{
}

/// The pidfile of a database lies beside it under its name with `.pid` behind it; so it is the
/// same for every daemon on that database.
pub proof fn law_where_the_pidfile_lies(db_path: &str, dir: Seq<char>, name: Seq<char>, r: String)
    requires
        call_ensures(pidfile_path, (db_path,), r),
        db_path@ == dir + "/"@ + name,
        dir.len() > 0 && path::without_tail(dir) == dir,
        path::is_name(name) && name != "."@ && name != ".."@,
    ensures
        r@ == db_path@ + ".pid"@,
{
    path::lemma_parts_of(db_path@, dir, name);
    path::lemma_parts(db_path@);
    reveal_strlit("/");
    reveal_strlit(".pid");
    let n = name + ".pid"@;
    assert(name.contains(name[0]));
    assert(n[0] == name[0]);
    if dir.last() == '/' {
        assert(path::without_tail(dir).len() < dir.len()) by {
            lemma_tail_shrinks(dir.drop_last());
        }
    }
    assert(dir + "/"@ + n =~= db_path@ + ".pid"@);
}

proof fn lemma_tail_shrinks(p: Seq<char>)
    ensures
        path::without_tail(p).len() <= p.len(),
    decreases p.len(),
{
    if p.len() > 0 {
        lemma_tail_shrinks(p.drop_last());
    }
}

/// What a pidfile tells. Nothing runs where there is none; where there is one, its contents are
/// told, and the daemon is dead, answers, or does not answer, as the probes have it. A
/// start is blocked exactly by a process that is alive.
pub proof fn law_what_a_pidfile_tells(
    found: Option<PidFile>,
    alive: bool,
    healthy: bool,
    r: DaemonState,
    seen: &DaemonState,
    blocked: bool,
    contents: Option<&PidFile>,
)
    requires
        call_ensures(detect, (found, alive, healthy), r),
        *seen == r,
        call_ensures(DaemonState::blocks_startup, (seen,), blocked),
        call_ensures(DaemonState::pidfile, (seen,), contents),
    ensures
        r is NotRunning <==> found is None,
        r is Running <==> found is Some && alive && healthy,
        r is Unresponsive <==> found is Some && alive && !healthy,
        r is Stale <==> found is Some && !alive,
        blocked <==> found is Some && alive,
        found matches Some(f) ==> (contents matches Some(c) && *c == f),
{
}

/// A pidfile is removed only by the process that it names.
pub proof fn law_only_the_owner_removes(found: Option<&PidFile>, own_pid: u32, r: bool)
    requires
        call_ensures(remove_if_ours, (found, own_pid), r),
    ensures
        found is None ==> !r,
        found matches Some(f) ==> r == (f.pid == own_pid),
{
}

/// A daemon is healthy where it answers, over HTTP/1.1 or HTTP/1.0, with a status that begins
/// with a two.
pub proof fn law_what_is_healthy(head: &str, status: Seq<char>, r: bool)
    requires
        call_ensures(health_probe, (head,), r),
        head@ == "HTTP/1.1 "@ + status || head@ == "HTTP/1.0 "@ + status,
    ensures
        r <==> status.len() > 0 && status[0] == '2',
{
    reveal_strlit("HTTP/1.1 ");
    reveal_strlit("HTTP/1.0 ");
    reveal_strlit("HTTP/1.1 2");
    reveal_strlit("HTTP/1.0 2");
    let h = head@;
    if status.len() > 0 && status[0] == '2' {
        assert(h[9] == '2');
        if h == "HTTP/1.1 "@ + status {
            assert(h.take(10) =~= "HTTP/1.1 2"@);
        } else {
            assert(h.take(10) =~= "HTTP/1.0 2"@);
        }
    }
    if "HTTP/1.1 2"@.is_prefix_of(h) {
        assert(h.take(10)[9] == '2');
    }
    if "HTTP/1.0 2"@.is_prefix_of(h) {
        assert(h.take(10)[9] == '2');
    }
}

/// The health of a daemon is asked for at the address that its pidfile names.
pub proof fn law_health_is_asked_at_the_bind(admin_bind: &str, r: String)
    requires
        call_ensures(health_request, (admin_bind,), r),
    ensures
        "GET /health HTTP/1.1\r\n"@.is_prefix_of(r@),
        exists|i: int| #[trigger]
            text::occurs_at(r@, "\r\nHost: "@ + admin_bind@ + "\r\n"@, i),
        "\r\n\r\n"@.is_suffix_of(r@),
{
    let h = "GET /health HTTP/1.1\r\nHost: "@;
    let t = "\r\nConnection: close\r\n\r\n"@;
    reveal_strlit("GET /health HTTP/1.1\r\nHost: ");
    reveal_strlit("\r\nConnection: close\r\n\r\n");
    reveal_strlit("GET /health HTTP/1.1\r\n");
    reveal_strlit("\r\nHost: ");
    reveal_strlit("\r\n");
    reveal_strlit("\r\n\r\n");
    assert(r@ == h + admin_bind@ + t);
    assert(r@.take(22) =~= "GET /health HTTP/1.1\r\n"@);
    let w = "\r\nHost: "@ + admin_bind@ + "\r\n"@;
    let x: int = h.len() - 8;
    assert(r@.subrange(x, x + w.len()) =~= w);
    assert(text::occurs_at(r@, w, x));
    assert(r@.skip(r@.len() - 4) =~= "\r\n\r\n"@);
}

} // verus!
