//! The state before onboarding, and its restoration by `ctxd offboard`.
//!
//! A snapshot holds the daemon that ran and the configuration files of the clients, byte
//! for byte. Snapshots accumulate in `<data_dir>/onboard-snapshots/`, under the moment at
//! which they were taken.

use crate::onboard::caps::ClientId;
use crate::outside;
use crate::path;
use crate::pidfile::DaemonState;
use crate::text;
use crate::time::Timestamp;
use vstd::prelude::*;

verus! {

/// Version of the snapshot format.
pub const SNAPSHOT_VERSION: u8 = 1;

/// The state before onboarding.
#[derive(Debug)]
pub struct OnboardSnapshot {
    /// Version of the format.
    pub version: u8,
    /// When it was taken.
    pub captured_at: Timestamp,
    /// The daemon that held the pidfile.
    pub running_daemon: Option<RunningDaemonSnapshot>,
    /// The configuration of each client.
    pub client_configs: Vec<ClientConfigSnapshot>,
    /// The database.
    pub db_path: String,
}

/// A daemon that ran.
#[derive(Debug)]
pub struct RunningDaemonSnapshot {
    /// Its process.
    pub pid: u32,
    /// Where it listened.
    pub admin_bind: String,
    /// Its version.
    pub version: String,
    /// When it was started.
    pub started_at: Timestamp,
    /// Its binary, where that is known.
    pub binary_path: Option<String>,
}

/// The configuration of a client.
#[derive(Debug)]
pub struct ClientConfigSnapshot {
    /// Slug of the client.
    pub client: String,
    /// The file.
    pub path: String,
    /// Whether it was there.
    pub existed: bool,
    /// What it held.
    pub contents: Option<Vec<u8>>,
}

/// The record of the daemon that a state tells of: one that is alive, whether it answers or
/// not.
pub open spec fn daemon_recorded(state: DaemonState, r: Option<RunningDaemonSnapshot>) -> bool {
    match state {
        DaemonState::Running(f) => r matches Some(d) && d.pid == f.pid && d.admin_bind
            == f.admin_bind && d.version == f.version && d.started_at == f.started_at
            && d.binary_path is None,
        DaemonState::Unresponsive(f) => r matches Some(d) && d.pid == f.pid && d.admin_bind
            == f.admin_bind && d.version == f.version && d.started_at == f.started_at
            && d.binary_path is None,
        _ => r is None,
    }
}

/// Records the daemon that a state tells of.
pub fn capture_daemon(state: DaemonState) -> (r: Option<RunningDaemonSnapshot>)
    ensures
        daemon_recorded(state, r),
{
    match state {
        DaemonState::Running(f) | DaemonState::Unresponsive(f) => Some(
            RunningDaemonSnapshot {
                pid: f.pid,
                admin_bind: f.admin_bind,
                version: f.version,
                started_at: f.started_at,
                binary_path: None,
            },
        ),
        _ => None,
    }
}

/// What reading a file gave.
#[derive(Debug)]
pub enum FileRead {
    /// These bytes.
    Found(Vec<u8>),
    /// There is no such file.
    Missing,
    /// It could not be read.
    Failed,
}

/// The record of a file: its bytes, or that it is not there. Of a file that cannot be read
/// only that it is there.
pub open spec fn file_recorded(
    c: ClientConfigSnapshot,
    client: Seq<char>,
    file: Seq<char>,
    read: FileRead,
) -> bool {
    &&& c.client@ == client
    &&& c.path@ == file
    &&& c.existed <==> !(read is Missing)
    &&& c.contents == match read {
        FileRead::Found(b) => Some(b),
        _ => None,
    }
}

/// Records a file.
pub fn snapshot_one(client: &str, file: &str, read: FileRead) -> (r: ClientConfigSnapshot)
    ensures
        file_recorded(r, client@, file@, read),
{
    let (existed, contents): (bool, Option<Vec<u8>>) = match read {
        FileRead::Found(b) => (true, Some(b)),
        FileRead::Missing => (false, None),
        FileRead::Failed => (true, None),
    };
    ClientConfigSnapshot {
        client: String::from_str(client),
        path: String::from_str(file),
        existed,
        contents,
    }
}

/// A file found so.
pub struct ClientFile {
    /// The file.
    pub path: String,
    /// What reading it gave.
    pub read: FileRead,
}

/// The snapshot of a database's surroundings: the daemon, and the configurations of
/// the desktop client and the coding client.
pub fn capture(
    db_path: &str,
    state: DaemonState,
    claude_desktop: ClientFile,
    claude_code: ClientFile,
    now: Timestamp,
) -> (r: OnboardSnapshot)
    ensures
        r.version == SNAPSHOT_VERSION,
        r.captured_at == now,
        r.db_path@ == db_path@,
        daemon_recorded(state, r.running_daemon),
        r.client_configs@.len() == 2,
        file_recorded(
            r.client_configs@[0],
            ClientId::ClaudeDesktop.slug_text(),
            claude_desktop.path@,
            claude_desktop.read,
        ),
        file_recorded(
            r.client_configs@[1],
            ClientId::ClaudeCode.slug_text(),
            claude_code.path@,
            claude_code.read,
        ),
{
    let mut configs: Vec<ClientConfigSnapshot> = Vec::new();
    configs.push(snapshot_one(&ClientId::ClaudeDesktop.slug(), &claude_desktop.path, claude_desktop.read));
    configs.push(snapshot_one(&ClientId::ClaudeCode.slug(), &claude_code.path, claude_code.read));
    OnboardSnapshot {
        version: SNAPSHOT_VERSION,
        captured_at: now,
        running_daemon: capture_daemon(state),
        client_configs: configs,
        db_path: String::from_str(db_path),
    }
}

/// The file name of a snapshot taken at `t`.
pub open spec fn snapshot_name(t: Timestamp) -> Option<Seq<char>> {
    match outside::stamp_text(t) {
        Some(s) => Some(s + ".json"@),
        None => None,
    }
}

/// Where a snapshot is written; `None` where the calendar does not reach its moment. In
/// the years of four digits the name stands behind those of earlier seconds.
pub fn snapshot_path(snapshots_dir: &str, captured_at: Timestamp) -> (r: Option<String>)
    ensures
        match r {
            Some(p) => snapshot_name(captured_at) matches Some(n) && p@ == path::joined(
                snapshots_dir@,
                n,
            ),
            None => snapshot_name(captured_at) is None && !outside::four_digit_year(captured_at),
        },
        outside::four_digit_year(captured_at) ==> stands_behind_earlier(captured_at),
{
    match outside::format_stamp(captured_at) {
        Some(s) => {
            let mut name = String::from_str(&s);
            name.append(".json");
            Some(path::join(snapshots_dir, &name))
        },
        None => None,
    }
}

/// The name of a snapshot is of fixed length and stands behind those of earlier seconds.
pub open spec fn stands_behind_earlier(t: Timestamp) -> bool {
    outside::stamp_text(t) matches Some(s) && s.len() == 20 && outside::after_earlier_stamps(t, s)
}

/// The names of snapshots stand in the order of time.
pub proof fn law_names_stand_in_order_of_time(earlier: Timestamp, later: Timestamp)
    requires
        outside::four_digit_year(earlier),
        outside::four_digit_year(later),
        stands_behind_earlier(earlier),
        stands_behind_earlier(later),
        earlier.secs < later.secs,
    ensures
        text::precedes(snapshot_name(earlier)->0, snapshot_name(later)->0),
{
    let a = outside::stamp_text(earlier)->0;
    let b = outside::stamp_text(later)->0;
    text::lemma_precedes_with_tail(a, b, ".json"@);
}

/// The extension of a file name is `json`.
pub open spec fn is_json_name(name: Seq<char>) -> bool {
    text::last_index(name, '.') matches Some(i) && i > 0 && name.skip(i + 1) == "json"@
}

fn has_json_extension(name: &str) -> (r: bool)
    ensures
        r == is_json_name(name@),
{
    let n: usize = name.unicode_len();
    match text::last_index_of(name, '.') {
        Some(i) => {
            assert(i < n);
            i > 0 && text::same(text::skip(name, i + 1), "json")
        },
        None => false,
    }
}

/// The name at `i` is the last of the JSON names in the order of texts.
pub open spec fn is_latest(names: Seq<String>, i: int) -> bool {
    &&& 0 <= i < names.len()
    &&& is_json_name(names[i]@)
    &&& forall|j: int|
        0 <= j < names.len() && is_json_name((#[trigger] names[j])@) ==> !text::precedes(
            names[i]@,
            names[j]@,
        )
}

/// The latest snapshot among the files of a directory: the last JSON name.
pub fn latest_snapshot(names: &[String]) -> (r: Option<usize>)
    ensures
        match r {
            Some(i) => is_latest(names@, i as int),
            None => forall|j: int| 0 <= j < names@.len() ==> !is_json_name((#[trigger] names@[j])@),
        },
{
    let mut best: Option<usize> = None;
    let mut i: usize = 0;
    while i < names.len()
        invariant
            i <= names@.len(),
            match best {
                Some(b) => b < i && is_json_name(names@[b as int]@) && forall|j: int|
                    0 <= j < i && is_json_name((#[trigger] names@[j])@) ==> !text::precedes(
                        names@[b as int]@,
                        names@[j]@,
                    ),
                None => forall|j: int| 0 <= j < i ==> !is_json_name((#[trigger] names@[j])@),
            },
        decreases names.len() - i,
    {
        if has_json_extension(&names[i]) {
            match best {
                Some(b) => {
                    if text::is_before(&names[b], &names[i]) {
                        proof {
                            let x = names@[b as int]@;
                            let y = names@[i as int]@;
                            assert forall|j: int|
                                0 <= j < i + 1 && is_json_name(
                                    (#[trigger] names@[j])@,
                                ) implies !text::precedes(y, names@[j]@) by {
                                if text::precedes(y, names@[j]@) {
                                    if j < i {
                                        text::lemma_precedes_transitive(x, y, names@[j]@);
                                    } else {
                                        text::lemma_precedes_total(y, y);
                                    }
                                }
                            }
                        }
                        best = Some(i);
                    }
                },
                None => {
                    proof {
                        text::lemma_precedes_total(names@[i as int]@, names@[i as int]@);
                    }
                    best = Some(i);
                },
            }
        }
        i += 1;
    }
    best
}

/// What restoring a file does.
pub enum RestoreAction {
    /// Write what it held.
    WriteBack,
    /// Remove it.
    Remove,
    /// Nothing.
    Leave,
}

impl RestoreAction {
    /// What a file holds once the action was taken on it, from what it held before.
    pub open spec fn leaves(
        self,
        config: ClientConfigSnapshot,
        before: Option<Seq<u8>>,
    ) -> Option<Seq<u8>> {
        match self {
            RestoreAction::WriteBack => Some(config.contents->0@),
            RestoreAction::Remove => None,
            RestoreAction::Leave => before,
        }
    }
}

/// How a file is restored.
pub open spec fn restoration(config: ClientConfigSnapshot) -> RestoreAction {
    if !config.existed {
        RestoreAction::Remove
    } else if config.contents is Some {
        RestoreAction::WriteBack
    } else {
        RestoreAction::Leave
    }
}

/// What restoring a file does: write its bytes back, or remove it where it was not there.
pub fn restore_action(config: &ClientConfigSnapshot) -> (r: RestoreAction)
    ensures
        r == restoration(*config),
{
    if config.existed {
        if config.contents.is_some() {
            RestoreAction::WriteBack
        } else {
            RestoreAction::Leave
        }
    } else {
        RestoreAction::Remove
    }
}

/// Restoring brings a file back to what it was when the snapshot was taken, whatever
/// happened to it since. One that could not be read then is left as it is.
pub proof fn law_restore_undoes(
    client: Seq<char>,
    file: Seq<char>,
    read: FileRead,
    config: ClientConfigSnapshot,
    since: Option<Seq<u8>>,
)
    requires
        file_recorded(config, client, file, read),
    ensures
        restoration(config).leaves(config, since) == match read {
            FileRead::Found(b) => Some(b@),
            FileRead::Missing => None,
            FileRead::Failed => since,
        },
{
}

/// Where a file is written before it takes its place under its own name.
pub fn restore_temp_path(file: &str, pid: u32) -> (r: String)
    ensures
        r@ == path::joined(
            path::parent_of(file@),
            ".ctxd-restore-"@ + text::digits(pid as nat) + ".tmp"@,
        ),
{
    let dir = path::parent(file);
    let mut name = String::from_str(".ctxd-restore-");
    let digits = text::unsigned_text(pid as u64);
    name.append(&digits);
    name.append(".tmp");
    path::join(&dir, &name)
}

/// What came of restoring a file.
#[derive(Debug, Clone, Copy, PartialEq, Eq, Structural)]
pub enum RestoreOutcome {
    /// Its bytes were written back.
    Written,
    /// It was removed.
    Removed,
    /// It was not there to be removed.
    AlreadyGone,
    /// It was left.
    Left,
}

/// Outcome of a restoration.
#[derive(Debug)]
pub struct RestoreReport {
    /// Slugs of the clients whose configuration was written back or removed.
    pub restored: Vec<String>,
    /// Slugs of the others.
    pub skipped: Vec<String>,
}

impl Default for RestoreReport {
    fn default() -> (r: Self)
        ensures
            r.restored@.len() == 0 && r.skipped@.len() == 0,
    {
        RestoreReport { restored: Vec::new(), skipped: Vec::new() }
    }
}

impl RestoreReport {
    /// Adds what came of one file.
    pub fn note(&mut self, config: &ClientConfigSnapshot, outcome: RestoreOutcome)
        ensures
            ({
                let counts = outcome == RestoreOutcome::Written || outcome
                    == RestoreOutcome::Removed;
                &&& text::views(final(self).restored@) == if counts {
                    text::views(old(self).restored@).push(config.client@)
                } else {
                    text::views(old(self).restored@)
                }
                &&& text::views(final(self).skipped@) == if counts {
                    text::views(old(self).skipped@)
                } else {
                    text::views(old(self).skipped@).push(config.client@)
                }
            }),
    {
        let name = String::from_str(&config.client);
        match outcome {
            RestoreOutcome::Written | RestoreOutcome::Removed => {
                self.restored.push(name);
                assert(text::views(self.restored@) =~= text::views(old(self).restored@).push(
                    config.client@,
                ));
            },
            _ => {
                self.skipped.push(name);
                assert(text::views(self.skipped@) =~= text::views(old(self).skipped@).push(
                    config.client@,
                ));
            },
        }
    }
}

/// What a file holds after it was restored from its record is what it held when it was
/// recorded, whatever happened since: its bytes, or nothing where it was not there. One that
/// could not be read is left as it is.
pub proof fn law_a_recorded_file_is_restored(
    client: &str,
    file: &str,
    read: FileRead,
    config: ClientConfigSnapshot,
    recorded: &ClientConfigSnapshot,
    action: RestoreAction,
    since: Option<Seq<u8>>,
)
    requires
        call_ensures(snapshot_one, (client, file, read), config),
        *recorded == config,
        call_ensures(restore_action, (recorded,), action),
    ensures
        config.client@ == client@ && config.path@ == file@,
        read matches FileRead::Found(b) ==> action is WriteBack && (config.contents matches Some(c)
            && c@ == b@),
        read is Missing ==> action is Remove,
        read is Failed ==> action is Leave,
        action.leaves(config, since) == match read {
            FileRead::Found(b) => Some(b@),
            FileRead::Missing => None,
            FileRead::Failed => since,
        },
{
}

/// A snapshot holds what it was taken of: each client's file under that client's name, with what
/// was read of it; the daemon where one was alive, whether it answered or not; the database and
/// the moment.
pub proof fn law_a_snapshot_holds_what_was_found(
    db_path: &str,
    state: DaemonState,
    desktop: ClientFile,
    code: ClientFile,
    now: Timestamp,
    r: OnboardSnapshot,
    i: int,
)
    requires
        call_ensures(capture, (db_path, state, desktop, code, now), r),
        0 <= i < r.client_configs@.len(),
    ensures
        r.db_path@ == db_path@ && r.captured_at == now,
        r.running_daemon is Some <==> state is Running || state is Unresponsive,
        state matches DaemonState::Running(f) ==> (r.running_daemon matches Some(d) && d.pid == f.pid
            && d.admin_bind@ == f.admin_bind@ && d.version@ == f.version@ && d.started_at
            == f.started_at),
        state matches DaemonState::Unresponsive(f) ==> (r.running_daemon matches Some(d) && d.pid
            == f.pid && d.admin_bind@ == f.admin_bind@ && d.version@ == f.version@ && d.started_at
            == f.started_at),
        r.client_configs@.len() == 2,
        ({
            let c = r.client_configs@[i];
            let source = if c.client@ == ClientId::ClaudeDesktop.slug_text() {
                desktop
            } else {
                code
            };
            &&& c.client@ == ClientId::ClaudeDesktop.slug_text() || c.client@
                == ClientId::ClaudeCode.slug_text()
            &&& c.path@ == source.path@
            &&& c.existed <==> !(source.read is Missing)
            &&& source.read matches FileRead::Found(b) ==> (c.contents matches Some(x) && x@ == b@)
            &&& !(source.read is Found) ==> c.contents is None
        }),
        r.client_configs@[0].client@ != r.client_configs@[1].client@,
{
    ClientId::law_slugs_are_distinct();
}

/// Of two snapshots in a directory the earlier one is never taken for the latest, and where there
/// is a snapshot, one is found.
pub proof fn law_the_latest_snapshot_is_chosen(
    snapshots_dir: &str,
    earlier: Timestamp,
    later: Timestamp,
    first: Option<String>,
    second: Option<String>,
    names: &[String],
    i: int,
    j: int,
    r: Option<usize>,
)
    requires
        outside::four_digit_year(earlier) && outside::four_digit_year(later),
        earlier.secs < later.secs,
        call_ensures(snapshot_path, (snapshots_dir, earlier), first),
        call_ensures(snapshot_path, (snapshots_dir, later), second),
        0 <= i < names@.len() && 0 <= j < names@.len(),
        snapshot_name(earlier) == Some(names@[i]@),
        snapshot_name(later) == Some(names@[j]@),
        call_ensures(latest_snapshot, (names,), r),
    ensures
        r matches Some(k) && k != i && k < names@.len(),
{
    reveal_strlit(".json");
    reveal_strlit("json");
    law_names_stand_in_order_of_time(earlier, later);
    let n = names@[j]@;
    let stamp = outside::stamp_text(later)->0;
    assert(n == stamp + ".json"@);
    assert(!"json"@.contains('.'));
    assert(n =~= stamp + seq!['.'] + "json"@);
    text::lemma_last_index_of_tail(stamp, '.', "json"@);
    assert(n.skip(stamp.len() as int + 1) =~= "json"@);
    assert(is_json_name(n));
    if r is None {
        assert(is_json_name(names@[j]@));
    }
}

/// A file that is restored is first written in its own directory, so that it can take its place at once, and every
/// process writes to a file of its own.
pub proof fn law_restored_files_are_written_beside(
    file: &str,
    dir: Seq<char>,
    name: Seq<char>,
    a: u32,
    b: u32,
    x: String,
    y: String,
)
    requires
        file@ == dir + "/"@ + name,
        dir.len() > 0 && path::without_tail(dir) == dir && dir.last() != '/',
        path::is_name(name) && name != "."@ && name != ".."@,
        call_ensures(restore_temp_path, (file, a), x),
        call_ensures(restore_temp_path, (file, b), y),
    ensures
        (dir + "/"@).is_prefix_of(x@),
        !x@.skip(dir.len() as int + 1).contains('/'),
        x@ == y@ ==> a == b,
{
    reveal_strlit(".ctxd-restore-");
    reveal_strlit(".tmp");
    reveal_strlit("/");
    let m = ".ctxd-restore-"@ + text::digits(a as nat) + ".tmp"@;
    let n = ".ctxd-restore-"@ + text::digits(b as nat) + ".tmp"@;
    path::lemma_beside(dir, name, m, n);
    text::lemma_digits_read_back(a as nat);
    text::lemma_digits_read_back(b as nat);
    let k = ".ctxd-restore-"@.len() as int;
    assert(m.subrange(k, m.len() - 4) =~= text::digits(a as nat));
    assert(n.subrange(k, n.len() - 4) =~= text::digits(b as nat));
    assert(x@.take(dir.len() as int + 1) =~= dir + "/"@);
    assert(x@.skip(dir.len() as int + 1) =~= m);
    assert(!m.contains('/')) by {
        if m.contains('/') {
            let i = choose|i: int| 0 <= i < m.len() && m[i] == '/';
            let d = text::digits(a as nat);
            if k <= i < k + d.len() {
                assert(d[i - k] == '/');
                assert(text::all_digits(d));
            }
        }
    }
}

} // verus!
