//! What the command line means: lists, names and the answers of commands.

use crate::cap::biscuit;
use crate::cap::error::CapError;
use crate::cap::operation::Operation;
use crate::cap::state::ApprovalDecision;
use crate::json::Json;
use crate::onboard::protocol::StepName;
use crate::pidfile::PidFile;
use crate::protocol;
use crate::text;
use vstd::prelude::*;

verus! {

/// The version to which a database can be migrated.
pub const MIGRATION_TARGET: &'static str = "0.3";

/// Exit code of a watch that saw no event.
pub const NO_MATCH_EXIT: i32 = 2;

/// The texts without white space around them.
pub open spec fn trimmed_all(s: Seq<Seq<char>>) -> Seq<Seq<char>> {
    s.map_values(|x: Seq<char>| text::trimmed(x))
}

/// The parts of a list with commas, without white space around them.
pub fn split_trimmed(list: &str) -> (r: Vec<String>)
    ensures
        text::views(r@) == trimmed_all(text::pieces(list@, ',')),
{
    let parts = text::split(list, ',');
    let ghost all = text::views(parts@);
    assert(all.len() == parts@.len());
    let mut out: Vec<String> = Vec::new();
    let mut i: usize = 0;
    assert(text::views(out@) =~= trimmed_all(all.take(0)));
    while i < parts.len()
        invariant
            i <= parts@.len() == all.len(),
            all == text::views(parts@),
            text::views(out@) == trimmed_all(all.take(i as int)),
        decreases parts.len() - i,
    {
        assert(parts@[i as int]@ == all[i as int]);
        let t = text::trim(&parts[i]);
        let ghost before = out@;
        let ghost x = t@;
        out.push(t);
        assert(text::views(out@) =~= text::views(before).push(x));
        assert(trimmed_all(all.take(i + 1)) =~= trimmed_all(all.take(i as int)).push(x));
        i += 1;
    }
    assert(all.take(all.len() as int) =~= all);
    out
}

/// The texts that are not empty.
pub open spec fn non_empty(s: Seq<Seq<char>>) -> Seq<Seq<char>>
    decreases s.len(),
{
    if s.len() == 0 {
        s
    } else if s.last().len() == 0 {
        non_empty(s.drop_last())
    } else {
        non_empty(s.drop_last()).push(s.last())
    }
}

/// The entries of a list with commas: its parts without white space around them, the empty
/// ones left out.
pub open spec fn entries(list: Seq<char>) -> Seq<Seq<char>> {
    non_empty(trimmed_all(text::pieces(list, ',')))
}

/// The entries of a list with commas.
pub fn split_list(list: &str) -> (r: Vec<String>)
    ensures
        text::views(r@) == entries(list@),
{
    let parts = split_trimmed(list);
    let ghost all = text::views(parts@);
    assert(all.len() == parts@.len());
    let mut out: Vec<String> = Vec::new();
    let mut i: usize = 0;
    assert(text::views(out@) =~= non_empty(all.take(0)));
    while i < parts.len()
        invariant
            i <= parts@.len() == all.len(),
            all == text::views(parts@),
            text::views(out@) == non_empty(all.take(i as int)),
        decreases parts.len() - i,
    {
        assert(parts@[i as int]@ == all[i as int]);
        assert(all.take(i + 1).drop_last() =~= all.take(i as int));
        if parts[i].as_str().unicode_len() > 0 {
            let ghost before = out@;
            let copy = String::from_str(&parts[i]);
            let ghost x = copy@;
            out.push(copy);
            assert(text::views(out@) =~= text::views(before).push(x));
        }
        i += 1;
    }
    assert(all.take(all.len() as int) =~= all);
    out
}

/// The step with this slug; `None` for any other text.
pub fn parse_step(slug: &str) -> (r: Option<StepName>)
    ensures
        match r {
            Some(s) => s.slug_text() == slug@,
            None => forall|s: StepName| s.slug_text() != slug@,
        },
{
    if text::same(slug, "snapshot") {
        Some(StepName::Snapshot)
    } else if text::same(slug, "service-install") {
        Some(StepName::ServiceInstall)
    } else if text::same(slug, "service-start") {
        Some(StepName::ServiceStart)
    } else if text::same(slug, "configure-clients") {
        Some(StepName::ConfigureClients)
    } else if text::same(slug, "mint-capabilities") {
        Some(StepName::MintCapabilities)
    } else if text::same(slug, "seed-subjects") {
        Some(StepName::SeedSubjects)
    } else if text::same(slug, "configure-adapters") {
        Some(StepName::ConfigureAdapters)
    } else if text::same(slug, "doctor") {
        Some(StepName::Doctor)
    } else {
        None
    }
}

/// A slug reads as the step that it belongs to, and as no other.
pub proof fn law_slugs_read_back(step: StepName, r: Option<StepName>)
    requires
        match r {
            Some(s) => s.slug_text() == step.slug_text(),
            None => forall|other: StepName| #[trigger] other.slug_text() != step.slug_text(),
        },
    ensures
        r == Some(step),
{
    StepName::law_slugs_are_distinct();
    let slug = step.slug_text();
    assert(slug.len() >= 0);
}

/// The steps that `--only` lists. A text that is no slug of a step is passed over.
pub fn parse_only(list: &str) -> (r: Vec<StepName>)
    ensures
        forall|s: StepName| #[trigger] r@.contains(s) <==> entries(list@).contains(s.slug_text()),
{
    let names = split_list(list);
    let ghost all = entries(list@);
    assert(text::views(names@).len() == all.len());
    let mut out: Vec<StepName> = Vec::new();
    let mut i: usize = 0;
    proof {
        StepName::law_slugs_are_distinct();
    }
    while i < names.len()
        invariant
            i <= names@.len() == all.len(),
            text::views(names@) == all,
            forall|a: StepName, b: StepName| a.slug_text() == b.slug_text() ==> a == b,
            forall|s: StepName| #[trigger]
                out@.contains(s) <==> exists|j: int| 0 <= j < i && all[j] == s.slug_text(),
        decreases names.len() - i,
    {
        assert(names@[i as int]@ == text::views(names@)[i as int]);
        let ghost before = out@;
        match parse_step(&names[i]) {
            Some(step) => {
                out.push(step);
                assert forall|s: StepName| #[trigger] out@.contains(s) <==> exists|j: int|
                    0 <= j < i + 1 && all[j] == s.slug_text() by {
                    if s == step {
                        assert(out@[before.len() as int] == s);
                        assert(all[i as int] == s.slug_text());
                    } else {
                        if out@.contains(s) {
                            let k = choose|k: int| 0 <= k < out@.len() && out@[k] == s;
                            assert(before[k] == s);
                            assert(before.contains(s));
                        }
                        if before.contains(s) {
                            let k = choose|k: int| 0 <= k < before.len() && before[k] == s;
                            assert(out@[k] == s);
                        }
                        assert(all[i as int] != s.slug_text());
                    }
                }
            },
            None => {
                assert forall|s: StepName| #[trigger] out@.contains(s) <==> exists|j: int|
                    0 <= j < i + 1 && all[j] == s.slug_text() by {
                    assert(all[i as int] != s.slug_text());
                }
            },
        }
        i += 1;
    }
    assert forall|s: StepName| #[trigger] out@.contains(s) <==> all.contains(s.slug_text()) by {
        if out@.contains(s) {
            let j = choose|j: int| 0 <= j < all.len() && all[j] == s.slug_text();
            assert(all[j] == s.slug_text());
        }
    }
    out
}

/// The operations that a list with commas grants; the first unknown name is refused.
pub fn parse_operations(list: &str) -> (r: Result<Vec<Operation>, String>)
    ensures
        exists|names: Seq<String>|
            {
                &&& #[trigger] text::views(names) == trimmed_all(text::pieces(list@, ','))
                &&& match r {
                    Ok(ops) => protocol::granted_operations(names, ops@),
                    Err(m) => exists|i: int| #[trigger]
                        protocol::first_unknown(names, i) && m@ == "unknown operation: "@
                            + names[i]@,
                }
            },
{
    let names = split_trimmed(list);
    let r = protocol::parse_grant_operations(names.as_slice());
    assert(text::views(names@) == trimmed_all(text::pieces(list@, ',')));
    r
}

/// The operation that a verification asks for.
pub fn parse_operation(name: &str) -> (r: Result<Operation, String>)
    ensures
        match r {
            Ok(op) => op.name() == name@ && op.grantable(),
            Err(m) => protocol::not_grantable(name@) && m@ == "unknown operation: "@ + name@,
        },
{
    match Operation::from_grant_name(name) {
        Some(op) => Ok(op),
        None => {
            let mut m = String::from_str("unknown operation: ");
            m.append(name);
            Err(m)
        },
    }
}

/// The answer to a verification.
pub fn verify_answer(operation: &str, subject: &str, verdict: &Result<(), CapError>) -> (r: String)
    ensures
        match *verdict {
            Ok(_) => r@ == "VERIFIED: token is valid for "@ + operation@ + " on "@ + subject@,
            Err(CapError::Biscuit(_)) => "DENIED: "@.is_prefix_of(r@),
            Err(e) => r@ == "DENIED: "@ + e.message(),
        },
{
    match verdict {
        Ok(_) => {
            let mut s = String::from_str("VERIFIED: token is valid for ");
            s.append(operation);
            s.append(" on ");
            s.append(subject);
            s
        },
        Err(e) => {
            let mut s = String::from_str("DENIED: ");
            let t = e.to_string();
            s.append(&t);
            assert(s@.subrange(0, "DENIED: "@.len() as int) =~= "DENIED: "@);
            s
        },
    }
}

/// Why a peer's key was refused.
#[derive(Debug)]
pub enum KeyRefusal {
    /// None was given.
    Missing,
    /// It is no hexadecimal text.
    NotHex(String),
    /// It has this many bytes.
    Length(usize),
}

impl KeyRefusal {
    /// The message of the refusal.
    pub fn to_string(&self) -> (r: String)
        ensures
            r@ == match *self {
                KeyRefusal::Missing => "--public-key is required when --manual"@,
                KeyRefusal::NotHex(_) => "invalid hex public key"@,
                KeyRefusal::Length(n) => "public key must be 32 bytes (64 hex chars); got "@
                    + text::digits(n as nat),
            },
    {
        match self {
            KeyRefusal::Missing => String::from_str("--public-key is required when --manual"),
            KeyRefusal::NotHex(_) => String::from_str("invalid hex public key"),
            KeyRefusal::Length(n) => {
                let mut s = String::from_str("public key must be 32 bytes (64 hex chars); got ");
                let d = text::unsigned_text(*n as u64);
                s.append(&d);
                s
            },
        }
    }
}

/// The key of a peer that is enrolled by hand: 32 bytes in hexadecimal, in either case.
pub fn manual_peer_key(public_key: Option<&str>) -> (r: Result<Vec<u8>, KeyRefusal>)
    ensures
        match public_key {
            None => r matches Err(KeyRefusal::Missing),
            Some(k) => match r {
                Ok(v) => v@.len() == 32 && biscuit::hex_text(v@) == text::ascii_lowered(k@),
                Err(KeyRefusal::Length(n)) => n != 32 && exists|b: Seq<u8>|
                    b.len() == n && #[trigger] biscuit::hex_text(b) == text::ascii_lowered(k@),
                Err(KeyRefusal::NotHex(_)) => forall|b: Seq<u8>| #[trigger]
                    biscuit::hex_text(b) != text::ascii_lowered(k@),
                Err(KeyRefusal::Missing) => false,
            },
        },
{
    match public_key {
        None => Err(KeyRefusal::Missing),
        Some(k) => match biscuit::hex_decode(k) {
            Ok(v) => {
                if v.len() == 32 {
                    Ok(v)
                } else {
                    Err(KeyRefusal::Length(v.len()))
                }
            },
            Err(e) => Err(KeyRefusal::NotHex(e)),
        },
    }
}

/// Compares the key that a peer has with the one expected of it, without regard to case.
pub fn check_peer_key(actual: &[u8], expected: &str) -> (r: Result<(), String>)
    ensures
        match r {
            Ok(_) => text::ascii_lowered(biscuit::hex_text(actual@)) == text::ascii_lowered(
                expected@,
            ),
            Err(m) => text::ascii_lowered(biscuit::hex_text(actual@)) != text::ascii_lowered(
                expected@,
            ) && m@ == "remote pubkey "@ + biscuit::hex_text(actual@) + " does not match expected "@
                + expected@,
        },
{
    let hex = biscuit::hex_encode(actual);
    let a = text::to_ascii_lowercase(&hex);
    let b = text::to_ascii_lowercase(expected);
    if text::same(&a, &b) {
        Ok(())
    } else {
        let mut m = String::from_str("remote pubkey ");
        m.append(&hex);
        m.append(" does not match expected ");
        m.append(expected);
        Err(m)
    }
}

/// What a word in small letters decides.
pub open spec fn decided(word: Seq<char>, r: Result<ApprovalDecision, String>) -> bool {
    if word == "allow"@ {
        r matches Ok(ApprovalDecision::Allow)
    } else if word == "deny"@ {
        r matches Ok(ApprovalDecision::Deny)
    } else {
        r matches Err(m) && m@ == "--decision must be 'allow' or 'deny', got '"@ + word + "'"@
    }
}

/// The decision on an approval: `allow` or `deny`, without regard to case.
pub fn parse_decision(word: &str) -> (r: Result<ApprovalDecision, String>)
    ensures
        decided(text::ascii_lowered(word@), r),
{
    let low = text::to_ascii_lowercase(word);
    match ApprovalDecision::from_word(&low) {
        Some(d) => Ok(d),
        None => {
            let mut m = String::from_str("--decision must be 'allow' or 'deny', got '");
            m.append(&low);
            m.append("'");
            Err(m)
        },
    }
}

/// Whether a database can be migrated to a version.
pub fn check_migration_target(to: &str) -> (r: Result<(), String>)
    ensures
        match r {
            Ok(_) => to@ == MIGRATION_TARGET@,
            Err(m) => to@ != MIGRATION_TARGET@ && m@ == "unsupported migration target: "@ + to@
                + " (only '0.3' is supported in this release)"@,
        },
{
    if text::same(to, MIGRATION_TARGET) {
        Ok(())
    } else {
        let mut m = String::from_str("unsupported migration target: ");
        m.append(to);
        m.append(" (only '0.3' is supported in this release)");
        Err(m)
    }
}

/// A message says that an address is taken.
pub open spec fn says_in_use(message: Seq<char>) -> bool {
    ||| exists|i: int| text::occurs_at(message, "Address already in use"@, i)
    ||| exists|i: int| text::occurs_at(message, "address in use"@, i)
}

/// Some message says that an address is taken.
pub open spec fn some_says_in_use(causes: Seq<String>) -> bool {
    exists|i: int| 0 <= i < causes.len() && says_in_use((#[trigger] causes[i])@)
}

/// What the dashboard says where its port is taken; `None` where the error is another one.
/// `causes` are the messages of the error and of what caused it.
pub fn port_in_use_message(bind: &str, causes: &[String]) -> (r: Option<String>)
    ensures
        match r {
            Some(m) => (exists|i: int| 0 <= i < causes@.len() && says_in_use((#[trigger] causes@[i])@))
                && m@ == "port "@ + bind@
                + " is already in use. a ctxd daemon may already be running — visit http://"@
                + bind@
                + "/ in your browser, or stop the existing daemon and try again."@,
            None => forall|i: int| 0 <= i < causes@.len() ==> !says_in_use((#[trigger] causes@[i])@),
        },
        r is Some <==> some_says_in_use(causes@),
{
    let mut i: usize = 0;
    while i < causes.len()
        invariant
            i <= causes@.len(),
            forall|j: int| 0 <= j < i ==> !says_in_use((#[trigger] causes@[j])@),
        decreases causes.len() - i,
    {
        if text::contains(&causes[i], "Address already in use") || text::contains(
            &causes[i],
            "address in use",
        ) {
            assert(says_in_use(causes@[i as int]@));
            let mut m = String::from_str("port ");
            m.append(bind);
            m.append(
                " is already in use. a ctxd daemon may already be running — visit http://",
            );
            m.append(bind);
            m.append("/ in your browser, or stop the existing daemon and try again.");
            return Some(m);
        }
        i += 1;
    }
    None
}

/// An event that a hook of the coding client reports.
#[derive(Debug)]
pub struct HookEvent {
    /// Its subject.
    pub subject: String,
    /// Its type.
    pub event_type: String,
    /// Its data.
    pub data: Json,
}

/// The event that `ctxd hook <slug>` writes. A slug that is empty or holds a slash makes no
/// subject, and what is not JSON makes no data.
pub fn hook_event(slug: &str, payload: Option<Json>) -> (r: Result<HookEvent, String>)
    ensures
        match r {
            Ok(e) => slug@.len() > 0 && !slug@.contains('/') && e.subject@ == "/me/sessions/"@
                + slug@ && e.event_type@ == "hook."@ + slug@ && payload == Some(e.data),
            Err(m) => if slug@.len() == 0 || slug@.contains('/') {
                m@ == "invalid hook slug: "@ + slug@
            } else {
                payload is None && m@ == "hook payload is not JSON"@
            },
        },
{
    if slug.unicode_len() == 0 || text::has_char(slug, '/') {
        let mut m = String::from_str("invalid hook slug: ");
        m.append(slug);
        return Err(m);
    }
    match payload {
        Some(data) => {
            let mut subject = String::from_str("/me/sessions/");
            subject.append(slug);
            let mut event_type = String::from_str("hook.");
            event_type.append(slug);
            Ok(HookEvent { subject, event_type, data })
        },
        None => Err(String::from_str("hook payload is not JSON")),
    }
}

/// What a hook says of a failure. It is told on standard error only, and the hook ends with
/// success.
pub fn hook_warning(error: &str) -> (r: String)
    ensures
        r@ == "ctxd hook: "@ + error@ + " (best-effort, ignored)"@,
{
    let mut s = String::from_str("ctxd hook: ");
    s.append(error);
    s.append(" (best-effort, ignored)");
    s
}

/// Where `ctxd watch` looks: where it is told to, or at the daemon that the pidfile names.
pub fn watch_url(url: Option<&str>, found: Option<&PidFile>) -> (r: Result<String, String>)
    ensures
        match (url, found) {
            (Some(u), _) => r matches Ok(s) && s@ == u@,
            (None, Some(f)) => r matches Ok(s) && s@ == "http://"@ + f.admin_bind@,
            (None, None) => r matches Err(m) && m@
                == "no pidfile beside the database: daemon not running; pass --url or start `ctxd serve`"@,
        },
{
    match url {
        Some(u) => Ok(String::from_str(u)),
        None => match found {
            Some(f) => {
                let mut s = String::from_str("http://");
                s.append(&f.admin_bind);
                Ok(s)
            },
            None => Err(
                String::from_str(
                    "no pidfile beside the database: daemon not running; pass --url or start `ctxd serve`",
                ),
            ),
        },
    }
}

/// The exit code of a watch that saw this many events.
pub fn watch_exit_code(matches: u64) -> (r: i32)
    ensures
        r == if matches == 0 {
            NO_MATCH_EXIT
        } else {
            0
        },
{
    if matches == 0 {
        NO_MATCH_EXIT
    } else {
        0
    }
}

/// A list with a comma in it is the list before the comma and then the list behind it, and a
/// list without one is that text without white space around it, or nothing where it is blank.
pub proof fn law_lists_are_read_entry_by_entry(
    whole: &str,
    head: &str,
    tail: &str,
    all: Vec<String>,
    first: Vec<String>,
    rest: Vec<String>,
)
    requires
        whole@ == head@ + seq![','] + tail@,
        call_ensures(split_list, (whole,), all),
        call_ensures(split_list, (head,), first),
        call_ensures(split_list, (tail,), rest),
    ensures
        text::views(all@) == text::views(first@) + text::views(rest@),
        !head@.contains(',') && text::trimmed(head@).len() > 0 ==> text::views(first@) == seq![
            text::trimmed(head@),
        ],
        !head@.contains(',') && text::trimmed(head@).len() == 0 ==> first@.len() == 0,
{
    text::lemma_pieces_join(head@, ',', tail@);
    let a = trimmed_all(text::pieces(head@, ','));
    let b = trimmed_all(text::pieces(tail@, ','));
    assert(trimmed_all(text::pieces(whole@, ',')) =~= a + b);
    lemma_non_empty_joins(a, b);
    if !head@.contains(',') {
        text::lemma_one_piece(head@, ',');
        assert(a =~= seq![text::trimmed(head@)]);
        assert(a.drop_last() =~= Seq::<Seq<char>>::empty());
        reveal_with_fuel(non_empty, 2);
        assert(text::views(first@).len() == first@.len());
        if text::trimmed(head@).len() > 0 {
            assert(non_empty(a) =~= a);
        }
    }
}

proof fn lemma_non_empty_joins(a: Seq<Seq<char>>, b: Seq<Seq<char>>)
    ensures
        non_empty(a + b) == non_empty(a) + non_empty(b),
    decreases b.len(),
{
    if b.len() == 0 {
        assert(a + b =~= a);
        assert(non_empty(a) + non_empty(b) =~= non_empty(a));
    } else {
        assert((a + b).drop_last() =~= a + b.drop_last());
        assert((a + b).last() == b.last());
        lemma_non_empty_joins(a, b.drop_last());
        assert(non_empty(a + b) =~= non_empty(a) + non_empty(b));
    }
}

/// With `--only` a step is listed exactly where one of the entries of the list is its slug.
pub proof fn law_only_lists_by_slug(
    list: &str,
    entries: Vec<String>,
    r: Vec<StepName>,
    step: StepName,
)
    requires
        call_ensures(parse_only, (list,), r),
        call_ensures(split_list, (list,), entries),
    ensures
        r@.contains(step) <==> exists|i: int|
            0 <= i < entries@.len() && (#[trigger] entries@[i])@ == step.slug_text(),
{
    let views = text::views(entries@);
    if views.contains(step.slug_text()) {
        let i = choose|i: int| 0 <= i < views.len() && views[i] == step.slug_text();
        assert(entries@[i]@ == step.slug_text());
    }
    if exists|i: int| 0 <= i < entries@.len() && (#[trigger] entries@[i])@ == step.slug_text() {
        let i = choose|i: int|
            0 <= i < entries@.len() && (#[trigger] entries@[i])@ == step.slug_text();
        assert(views[i] == step.slug_text());
    }
}

/// An operation is asked for by its name; of those only the five can be asked for that a grant
/// can name.
pub proof fn law_operations_are_named(name: &str, r: Result<Operation, String>)
    requires
        call_ensures(parse_operation, (name,), r),
    ensures
        r == Ok::<Operation, String>(Operation::Read) <==> name@ == "read"@,
        r == Ok::<Operation, String>(Operation::Write) <==> name@ == "write"@,
        r == Ok::<Operation, String>(Operation::Subjects) <==> name@ == "subjects"@,
        r == Ok::<Operation, String>(Operation::Search) <==> name@ == "search"@,
        r == Ok::<Operation, String>(Operation::Admin) <==> name@ == "admin"@,
        name@ == "peer"@ || name@ == "subscribe"@ ==> r is Err,
{
    Operation::law_names_are_distinct();
    assert(Operation::Read.grantable() && Operation::Write.grantable());
    assert(Operation::Subjects.grantable() && Operation::Search.grantable());
    assert(Operation::Admin.grantable());
    assert(Operation::Peer.name() == "peer"@ && Operation::Subscribe.name() == "subscribe"@);
    assert(Operation::Write.name() == "write"@ && Operation::Subjects.name() == "subjects"@);
    assert(Operation::Read.name() == "read"@ && Operation::Search.name() == "search"@);
    assert(Operation::Admin.name() == "admin"@);
    match r {
        Ok(op) => {
            assert(op.name() == name@);
        },
        Err(_) => {
            assert(protocol::not_grantable(name@));
        },
    }
}

/// A decision is made by one of two words, in whatever ASCII case.
pub proof fn law_decisions_are_named(word: &str, r: Result<ApprovalDecision, String>)
    requires
        call_ensures(parse_decision, (word,), r),
    ensures
        r matches Ok(d) ==> !(d is Pending),
        (r matches Ok(d) && d is Allow) <==> text::ascii_lowered(word@) == "allow"@,
        (r matches Ok(d) && d is Deny) <==> text::ascii_lowered(word@) == "deny"@,
{
    reveal_strlit("allow");
    reveal_strlit("deny");
    assert("allow"@[0] == 'a' && "deny"@[0] == 'd');
}

/// The answer to a verification says whether it passed, and for what.
pub proof fn law_the_answer_tells_the_verdict(
    operation: &str,
    subject: &str,
    verdict: &Result<(), CapError>,
    r: String,
)
    requires
        call_ensures(verify_answer, (operation, subject, verdict), r),
    ensures
        verdict is Ok <==> "VERIFIED: "@.is_prefix_of(r@),
        verdict is Err <==> "DENIED: "@.is_prefix_of(r@),
        verdict is Ok ==> (operation@ + " on "@ + subject@).is_suffix_of(r@),
{
    reveal_strlit("VERIFIED: ");
    reveal_strlit("VERIFIED: token is valid for ");
    reveal_strlit("DENIED: ");
    if verdict is Ok {
        assert(r@.take(10) =~= "VERIFIED: "@);
        let tail = operation@ + " on "@ + subject@;
        assert(r@ =~= "VERIFIED: token is valid for "@ + tail);
        assert(r@.skip(r@.len() - tail.len()) =~= tail);
        if "DENIED: "@.is_prefix_of(r@) {
            assert(r@.take(8)[0] == 'V');
        }
    } else {
        assert("DENIED: "@.is_prefix_of(r@)) by {
            if let Err(e) = verdict {
                if !(e is Biscuit) {
                    assert(r@.take(8) =~= "DENIED: "@);
                }
            }
        }
        if "VERIFIED: "@.is_prefix_of(r@) {
            assert(r@.take(8)[0] == 'D');
            assert(r@.take(10)[0] == 'V');
        }
    }
}

/// A key of a peer is given in hexadecimal and read back from it, in whatever case; only one of
/// 32 bytes is taken.
pub proof fn law_keys_are_read_back(
    key: Seq<u8>,
    text: &str,
    given: Option<&str>,
    r: Result<Vec<u8>, KeyRefusal>,
)
    requires
        given == Some(text),
        text::ascii_lowered(text@) == biscuit::hex_text(key),
        call_ensures(manual_peer_key, (given,), r),
    ensures
        r is Ok <==> key.len() == 32,
        r matches Ok(v) ==> v@ == key,
        key.len() != 32 ==> (r matches Err(e) && e is Length),
{
    match r {
        Ok(v) => {
            biscuit::lemma_hex_tells_bytes(v@, key);
        },
        Err(KeyRefusal::Length(n)) => {
            let b = choose|b: Seq<u8>|
                b.len() == n && #[trigger] biscuit::hex_text(b) == text::ascii_lowered(text@);
            biscuit::lemma_hex_tells_bytes(b, key);
        },
        _ => {},
    }
}

/// The key of a peer is the expected one exactly where its hexadecimal text is, in whatever
/// case that is written.
pub proof fn law_only_the_expected_key_passes(
    actual: &[u8],
    expected: &str,
    key: Seq<u8>,
    r: Result<(), String>,
)
    requires
        call_ensures(check_peer_key, (actual, expected), r),
        text::ascii_lowered(expected@) == text::ascii_lowered(biscuit::hex_text(key)),
    ensures
        actual@ == key ==> r is Ok,
        r is Ok ==> actual@ == key,
{
    biscuit::lemma_hex_is_lowered(actual@);
    biscuit::lemma_hex_is_lowered(key);
    if r is Ok {
        biscuit::lemma_hex_tells_bytes(actual@, key);
    }
}

/// A hook writes what it was given, under a subject and with a type that end in its slug.
pub proof fn law_a_hook_writes_its_payload(
    slug: &str,
    payload: Option<Json>,
    r: Result<HookEvent, String>,
)
    requires
        call_ensures(hook_event, (slug, payload), r),
    ensures
        r is Ok <==> payload is Some && slug@.len() > 0 && !slug@.contains('/'),
        r matches Ok(e) ==> payload == Some(e.data) && "/me/sessions/"@.is_prefix_of(e.subject@)
            && slug@.is_suffix_of(e.subject@) && "hook."@.is_prefix_of(e.event_type@)
            && slug@.is_suffix_of(e.event_type@),
{
    if let Ok(e) = r {
        let a = "/me/sessions/"@;
        let b = "hook."@;
        assert(e.subject@.take(a.len() as int) =~= a);
        assert(e.event_type@.take(b.len() as int) =~= b);
        assert(e.subject@.skip(e.subject@.len() - slug@.len()) =~= slug@);
        assert(e.event_type@.skip(e.event_type@.len() - slug@.len()) =~= slug@);
    }
}

/// A watch looks where it is told to; only where it is not told it looks at the daemon that the
/// pidfile names. It ends with success exactly where it saw an event.
pub proof fn law_where_a_watch_looks(
    url: Option<&str>,
    found: Option<&PidFile>,
    r: Result<String, String>,
    matches: u64,
    code: i32,
)
    requires
        call_ensures(watch_url, (url, found), r),
        call_ensures(watch_exit_code, (matches,), code),
    ensures
        url matches Some(u) ==> (r matches Ok(s) && s@ == u@),
        url is None ==> (r is Ok <==> found is Some),
        url is None ==> (r matches Ok(s) ==> (found matches Some(f) && f.admin_bind@.is_suffix_of(
            s@,
        ))),
        code == 0 <==> matches > 0,
{
    if let Ok(s) = r {
        if let Some(f) = found {
            if url is None {
                assert(s@.skip(s@.len() - f.admin_bind@.len()) =~= f.admin_bind@);
            }
        }
    }
}

/// Every step is found again by its slug.
pub proof fn law_steps_are_found_by_slug(step: StepName, slug: &'static str, r: Option<StepName>)
    requires
        call_ensures(StepName::slug, (step,), slug),
        call_ensures(parse_step, (slug,), r),
    ensures
        r == Some(step),
{
    StepName::law_slugs_are_distinct();
    match r {
        Some(s) => {},
        None => {
            assert(step.slug_text() != slug@);
        },
    }
}

/// A database can be migrated to one version only.
pub proof fn law_one_version_to_migrate_to(to: &str, r: Result<(), String>)
    requires
        call_ensures(check_migration_target, (to,), r),
    ensures
        r is Ok <==> to@ == "0.3"@,
{
}

/// A list of operations without a comma is one operation, of that name without white space around
/// it; and an unknown name in it is refused.
pub proof fn law_one_operation_is_a_list(list: &str, r: Result<Vec<Operation>, String>)
    requires
        !list@.contains(','),
        call_ensures(parse_operations, (list,), r),
    ensures
        r matches Ok(ops) ==> ops@.len() == 1 && ops@[0].name() == text::trimmed(list@)
            && ops@[0].grantable(),
        r is Ok <==> exists|op: Operation| op.grantable() && #[trigger] op.name() == text::trimmed(
            list@,
        ),
{
    text::lemma_one_piece(list@, ',');
    let p = trimmed_all(text::pieces(list@, ','));
    assert(p =~= seq![text::trimmed(list@)]);
    let names = choose|names: Seq<String>|
        {
            &&& #[trigger] text::views(names) == p
            &&& match r {
                Ok(ops) => protocol::granted_operations(names, ops@),
                Err(m) => exists|i: int| #[trigger]
                    protocol::first_unknown(names, i) && m@ == "unknown operation: "@ + names[i]@,
            }
        };
    assert(text::views(names).len() == names.len());
    assert(text::views(names)[0] == names[0]@);
    match r {
        Ok(ops) => {
            assert(ops@[0].name() == names[0]@ && ops@[0].grantable());
        },
        Err(m) => {
            let i = choose|i: int| #[trigger]
                protocol::first_unknown(names, i) && m@ == "unknown operation: "@ + names[i]@;
            assert(i == 0);
            assert(protocol::not_grantable(names[0]@));
        },
    }
}

/// Two lists of operations with a comma between them are read as the one and then the other.
pub proof fn law_operations_are_read_in_order(
    whole: &str,
    head: &str,
    tail: &str,
    all: Result<Vec<Operation>, String>,
    first: Result<Vec<Operation>, String>,
    rest: Result<Vec<Operation>, String>,
)
    requires
        whole@ == head@ + seq![','] + tail@,
        call_ensures(parse_operations, (whole,), all),
        call_ensures(parse_operations, (head,), first),
        call_ensures(parse_operations, (tail,), rest),
    ensures
        all matches Ok(ops) ==> (first matches Ok(a) ==> (rest matches Ok(b) ==> ops@ == a@ + b@)),
{
    text::lemma_pieces_join(head@, ',', tail@);
    let x = trimmed_all(text::pieces(head@, ','));
    let y = trimmed_all(text::pieces(tail@, ','));
    let z = trimmed_all(text::pieces(whole@, ','));
    assert(z =~= x + y);
    Operation::law_names_are_distinct();
    if all is Ok && first is Ok && rest is Ok {
        let ops = all->Ok_0@;
        let a = first->Ok_0@;
        let b = rest->Ok_0@;
        let n = choose|names: Seq<String>| #[trigger]
            text::views(names) == z && protocol::granted_operations(names, ops);
        let k = choose|names: Seq<String>| #[trigger]
            text::views(names) == x && protocol::granted_operations(names, a);
        let m = choose|names: Seq<String>| #[trigger]
            text::views(names) == y && protocol::granted_operations(names, b);
        assert(text::views(n).len() == n.len() && text::views(k).len() == k.len());
        assert(text::views(m).len() == m.len());
        assert forall|i: int| 0 <= i < ops.len() implies ops[i] == (a + b)[i] by {
            assert(ops[i].name() == n[i]@);
            assert(text::views(n)[i] == n[i]@);
            if i < a.len() {
                assert(a[i].name() == k[i]@);
                assert(text::views(k)[i] == k[i]@);
            } else {
                assert(b[i - a.len()].name() == m[i - a.len()]@);
                assert(text::views(m)[i - a.len()] == m[i - a.len()]@);
            }
        }
        assert(ops =~= a + b);
    }
}

/// Where one of the causes says that an address is taken, in either of the two wordings, the
/// message names the port; where none does, the error is another one.
pub proof fn law_a_taken_port_is_named(
    bind: &str,
    causes: &[String],
    r: Option<String>,
    i: int,
    at: int,
)
    requires
        call_ensures(port_in_use_message, (bind, causes), r),
    ensures
        0 <= i < causes@.len() && (text::occurs_at(causes@[i]@, "Address already in use"@, at)
            || text::occurs_at(causes@[i]@, "address in use"@, at)) ==> r is Some,
        causes@.len() == 0 ==> r is None,
        r matches Some(m) ==> ("port "@ + bind@).is_prefix_of(m@),
{
    if 0 <= i < causes@.len() && (text::occurs_at(causes@[i]@, "Address already in use"@, at)
        || text::occurs_at(causes@[i]@, "address in use"@, at)) {
        assert(says_in_use(causes@[i]@));
        assert(some_says_in_use(causes@));
    }
    if let Some(m) = r {
        let head = "port "@ + bind@;
        assert(m@.take(head.len() as int) =~= head);
    }
}

} // verus!
