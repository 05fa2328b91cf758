//! Per-client capability tokens and the files that hold them.
//!
//! A token lies in `<config_dir>/caps/<client>.bk`, readable by its owner alone. A
//! client starts `ctxd serve --mcp-stdio --cap-file <path>`, so that the token never
//! appears in process arguments or in the client's own configuration.

use crate::cap::biscuit;
use crate::cap::datalog;
use crate::cap::engine;
use crate::cap::engine::CapEngine;
use crate::cap::error::CapError;
use crate::cap::operation::Operation;
use crate::outside;
use crate::path;
use crate::text;
use vstd::prelude::*;

verus! {

/// Identifier of a client or an adapter.
#[derive(Debug, Clone, Copy, PartialEq, Eq, Hash, Structural)]
pub enum ClientId {
    /// The desktop client.
    ClaudeDesktop,
    /// The coding client.
    ClaudeCode,
    /// Codex.
    Codex,
    /// The Gmail adapter.
    GmailAdapter,
    /// The GitHub adapter.
    GithubAdapter,
    /// The file system adapter.
    FsAdapter,
}

impl ClientId {
    /// The name in words joined by underscores.
    pub open spec fn snake_name(self) -> Seq<char> {
        match self {
            ClientId::ClaudeDesktop => "claude_desktop"@,
            ClientId::ClaudeCode => "claude_code"@,
            ClientId::Codex => "codex"@,
            ClientId::GmailAdapter => "gmail_adapter"@,
            ClientId::GithubAdapter => "github_adapter"@,
            ClientId::FsAdapter => "fs_adapter"@,
        }
    }

    /// Kebab-case slug, the name of the cap-file.
    pub open spec fn slug_text(self) -> Seq<char> {
        text::kebab(self.snake_name())
    }

    /// Kebab-case slug, the name of the cap-file.
    pub fn slug(self) -> (r: String)
        ensures
            r@ == self.slug_text(),
    {
        let name = match self {
            ClientId::ClaudeDesktop => "claude_desktop",
            ClientId::ClaudeCode => "claude_code",
            ClientId::Codex => "codex",
            ClientId::GmailAdapter => "gmail_adapter",
            ClientId::GithubAdapter => "github_adapter",
            ClientId::FsAdapter => "fs_adapter",
        };
        text::to_kebab(name)
    }

    /// The name for people, in words joined by underscores.
    pub open spec fn spoken_name(self) -> Seq<char> {
        match self {
            ClientId::ClaudeDesktop => "Claude_Desktop"@,
            ClientId::ClaudeCode => "Claude_Code"@,
            ClientId::Codex => "Codex"@,
            ClientId::GmailAdapter => "Gmail_adapter"@,
            ClientId::GithubAdapter => "GitHub_adapter"@,
            ClientId::FsAdapter => "fs_adapter"@,
        }
    }

    /// Name for messages to a user.
    pub fn display(self) -> (r: String)
        ensures
            r@ == text::spaced(self.spoken_name()),
    {
        let name = match self {
            ClientId::ClaudeDesktop => "Claude_Desktop",
            ClientId::ClaudeCode => "Claude_Code",
            ClientId::Codex => "Codex",
            ClientId::GmailAdapter => "Gmail_adapter",
            ClientId::GithubAdapter => "GitHub_adapter",
            ClientId::FsAdapter => "fs_adapter",
        };
        text::to_words(name)
    }

    /// The identifier stands for an adapter.
    pub open spec fn is_adapter(self) -> bool {
        self is GmailAdapter || self is GithubAdapter || self is FsAdapter
    }

    /// The subjects granted to it.
    pub open spec fn scope_text(self) -> Seq<char> {
        match self {
            ClientId::GmailAdapter => "/me/inbox/**"@,
            ClientId::GithubAdapter => "/me/code/**"@,
            ClientId::FsAdapter => "/me/fs/**"@,
            _ => "/me/**"@,
        }
    }

    /// The subjects granted to it. Strict mode keeps them.
    pub fn default_scope(self, _strict: bool) -> (r: &'static str)
        ensures
            r@ == self.scope_text(),
    {
        match self {
            ClientId::GmailAdapter => "/me/inbox/**",
            ClientId::GithubAdapter => "/me/code/**",
            ClientId::FsAdapter => "/me/fs/**",
            _ => "/me/**",
        }
    }

    /// The operations granted to it.
    pub open spec fn operations(self, strict: bool) -> Seq<Operation> {
        if self.is_adapter() {
            seq![Operation::Write]
        } else if strict {
            seq![Operation::Read, Operation::Search]
        } else {
            seq![Operation::Read, Operation::Write, Operation::Search, Operation::Subjects]
        }
    }

    /// The operations granted to it. An adapter only writes. Strict mode leaves a client
    /// reading and searching.
    pub fn default_operations(self, strict: bool) -> (r: Vec<Operation>)
        ensures
            r@ == self.operations(strict),
    {
        let mut ops: Vec<Operation> = Vec::new();
        match self {
            ClientId::GmailAdapter | ClientId::GithubAdapter | ClientId::FsAdapter => {
                ops.push(Operation::Write);
            },
            _ => {
                ops.push(Operation::Read);
                if !strict {
                    ops.push(Operation::Write);
                }
                ops.push(Operation::Search);
                if !strict {
                    ops.push(Operation::Subjects);
                }
            },
        }
        assert(ops@ =~= self.operations(strict));
        ops
    }

    /// The operation that a check of its token asks for: writing of an adapter, reading
    /// of a client.
    pub open spec fn checked_operation(self) -> Operation {
        if self.is_adapter() {
            Operation::Write
        } else {
            Operation::Read
        }
    }

    fn operation_to_check(self) -> (r: Operation)
        ensures
            r == self.checked_operation(),
    {
        match self {
            ClientId::GmailAdapter | ClientId::GithubAdapter | ClientId::FsAdapter => Operation::Write,
            _ => Operation::Read,
        }
    }

    /// Two identifiers with the same slug are the same.
    pub proof fn law_slugs_are_distinct()
        ensures
            forall|a: ClientId, b: ClientId| a.slug_text() == b.slug_text() ==> a == b,
    {
        reveal_strlit("claude_desktop");
        reveal_strlit("claude_code");
        reveal_strlit("codex");
        reveal_strlit("gmail_adapter");
        reveal_strlit("github_adapter");
        reveal_strlit("fs_adapter");
        assert("claude_desktop"@.len() == 14 && "claude_code"@.len() == 11);
        assert("codex"@.len() == 5 && "gmail_adapter"@.len() == 13);
        assert("github_adapter"@.len() == 14 && "fs_adapter"@.len() == 10);
        assert("claude_desktop"@[0] == 'c' && "github_adapter"@[0] == 'g');
        assert forall|a: ClientId, b: ClientId| a.slug_text() == b.slug_text() implies a == b by {
            let x = a.slug_text();
            let y = b.slug_text();
            assert(x.len() == a.snake_name().len() && y.len() == b.snake_name().len());
            assert(x[0] == y[0]);
        }
    }

    /// Strict mode grants nothing that is not granted otherwise, and to a client neither
    /// writing nor listing subjects.
    pub proof fn law_strict_narrows(self, op: Operation)
        requires
            self.operations(true).contains(op),
        ensures
            self.operations(false).contains(op),
            !self.is_adapter() ==> op != Operation::Write && op != Operation::Subjects,
    {
        let normal = self.operations(false);
        if self.is_adapter() {
        } else {
            assert(normal[0] == Operation::Read);
            assert(normal[2] == Operation::Search);
        }
    }

    /// What a client or an adapter is granted includes what a check of its token asks
    /// for, in either mode.
    pub proof fn law_checked_operation_is_granted(self, strict: bool)
        ensures
            self.operations(strict).contains(self.checked_operation()),
    {
        assert(self.operations(strict)[0] == self.checked_operation());
    }
}

/// The cap-file of a client in a directory.
pub open spec fn cap_file_of(caps_dir: Seq<char>, client: ClientId) -> Seq<char> {
    path::joined(caps_dir, client.slug_text() + ".bk"@)
}

/// Where the cap-file of `client` lies.
pub fn cap_file_path(caps_dir: &str, client: ClientId) -> (r: String)
    ensures
        r@ == cap_file_of(caps_dir@, client),
{
    let mut name = client.slug();
    name.append(".bk");
    path::join(caps_dir, &name)
}

/// Where a process writes a cap-file before it takes its place under its own name.
pub fn cap_temp_path(cap_file: &str, pid: u32) -> (r: String)
    ensures
        r@ == path::joined(
            path::parent_of(cap_file@),
            ".cap-"@ + text::digits(pid as nat) + ".tmp"@,
        ),
{
    let dir = path::parent(cap_file);
    let mut name = String::from_str(".cap-");
    let digits = text::unsigned_text(pid as u64);
    name.append(&digits);
    name.append(".tmp");
    path::join(&dir, &name)
}

/// The token that a cap-file holds: its text without white space around it.
pub fn cap_token(contents: &str) -> (r: String)
    ensures
        r@ == text::trimmed(contents@),
{
    text::trim(contents)
}

/// What minting for a client answers: a token for its subjects and operations, in
/// base64.
pub open spec fn minted_for(
    root: Seq<u8>,
    client: ClientId,
    strict: bool,
    r: Result<String, CapError>,
) -> bool {
    r matches Ok(s) && text::trimmed(s@) == s@ && exists|token: Vec<u8>|
        {
            &&& s@ == outside::base64_text(token@)
            &&& outside::base64_bytes(s@) == outside::reads_as(token@)
            &&& #[trigger] engine::minted(
                root,
                Ok::<Vec<u8>, CapError>(token),
                client.scope_text(),
                client.operations(strict),
                None,
                None,
                None,
                None,
                Seq::empty(),
            )
        }
}

/// The subjects of a client can be written into a token.
proof fn lemma_scope_is_plain(client: ClientId)
    ensures
        datalog::safe(client.scope_text()),
        datalog::quotable(client.scope_text()),
        datalog::said(client.scope_text()) == client.scope_text(),
{
    reveal_strlit("/me/inbox/**");
    reveal_strlit("/me/code/**");
    reveal_strlit("/me/fs/**");
    reveal_strlit("/me/**");
    datalog::lemma_plain(client.scope_text());
}

/// Mints the token of a client, as its cap-file holds it.
pub fn mint_for_client(cap_engine: &CapEngine, client: ClientId, strict: bool) -> (r: Result<
    String,
    CapError,
>)
    ensures
        minted_for(cap_engine.root(), client, strict, r),
{
    proof {
        lemma_scope_is_plain(client);
    }
    let ops = client.default_operations(strict);
    let m = cap_engine.mint(client.default_scope(strict), ops.as_slice(), None, None, None);
    match m {
        Ok(token) => {
            assert(m == Ok::<Vec<u8>, CapError>(token));
            Ok(CapEngine::token_to_base64(token.as_slice()))
        },
        Err(e) => Err(e),
    }
}

/// What was found at the path of a cap-file.
pub enum CapFile {
    /// Nothing.
    Missing,
    /// Something that could not be read as text, and why.
    Unreadable(String),
    /// This text.
    Contents(String),
}

/// Outcome of a check of a cap-file.
#[derive(Debug)]
pub struct CapVerifyReport {
    /// Whose file it is.
    pub client: ClientId,
    /// Where it lies.
    pub path: String,
    /// Whether there is one.
    pub present: bool,
    /// Whether it holds base64.
    pub decodes: bool,
    /// Whether its token grants the operation that the client needs.
    pub verifies_default_op: bool,
    /// What went wrong.
    pub error: Option<String>,
}

impl CapVerifyReport {
    /// The report has these three answers and this error.
    pub open spec fn states(
        self,
        present: bool,
        decodes: bool,
        verifies: bool,
        error: Option<Seq<char>>,
    ) -> bool {
        &&& self.present == present
        &&& self.decodes == decodes
        &&& self.verifies_default_op == verifies
        &&& match (self.error, error) {
            (Some(a), Some(b)) => a@ == b,
            (None, None) => true,
            _ => false,
        }
    }

    /// The report on a token that the engine judged so.
    pub open spec fn reports_verdict(self, v: Result<(), CapError>) -> bool {
        match v {
            Ok(_) => self.states(true, true, true, None),
            Err(CapError::Biscuit(_)) => self.present && self.decodes && !self.verifies_default_op
                && (self.error matches Some(m) && "verify failed: biscuit error: "@.is_prefix_of(
                m@,
            )),
            Err(e) => self.states(true, true, false, Some("verify failed: "@ + e.message())),
        }
    }
}

/// Reports what the engine said of a token.
pub fn report_verdict(client: ClientId, path: String, verdict: Result<(), CapError>) -> (r:
    CapVerifyReport)
    ensures
        r.client == client && r.path == path,
        r.reports_verdict(verdict),
{
    match verdict {
        Ok(_) => CapVerifyReport {
            client,
            path,
            present: true,
            decodes: true,
            verifies_default_op: true,
            error: None,
        },
        Err(e) => {
            let mut m = String::from_str("verify failed: ");
            let t = e.to_string();
            m.append(&t);
            proof {
                if e is Biscuit {
                    reveal_strlit("verify failed: biscuit error: ");
                    reveal_strlit("verify failed: ");
                    reveal_strlit("biscuit error: ");
                    let p = "biscuit error: "@;
                    assert(t@.subrange(0, p.len() as int) == p);
                    assert forall|i: int| 0 <= i < p.len() implies t@[i] == p[i] by {
                        assert(t@.subrange(0, p.len() as int)[i] == p[i]);
                    }
                    let whole = "verify failed: biscuit error: "@;
                    assert(whole =~= "verify failed: "@ + p);
                    assert(m@.subrange(0, whole.len() as int) =~= whole);
                }
            }
            CapVerifyReport {
                client,
                path,
                present: true,
                decodes: true,
                verifies_default_op: false,
                error: Some(m),
            }
        },
    }
}

/// The report on a cap-file, at some moment of the clock.
pub open spec fn persisted_report(
    root: Seq<u8>,
    client: ClientId,
    file: CapFile,
    r: CapVerifyReport,
) -> bool {
    match file {
        CapFile::Missing => r.states(false, false, false, Some("cap file not present"@)),
        CapFile::Unreadable(e) => r.states(true, false, false, Some("read failed: "@ + e@)),
        CapFile::Contents(s) => match outside::base64_bytes(text::trimmed(s@)) {
            Err(m) => r.states(
                true,
                false,
                false,
                Some("base64 decode failed: "@ + ("base64 error: "@ + m)),
            ),
            Ok(token) => exists|now: i64, v: Result<(), CapError>|
                #[trigger] engine::verdict(
                    root,
                    token,
                    datalog::request_of(now, client.scope_text(), client.checked_operation(), None),
                    v,
                ) && r.reports_verdict(v),
        },
    }
}

/// Checks a cap-file: whether it is there, decodes, and grants the client's operation on
/// its subjects.
pub fn verify_persisted(
    cap_engine: &CapEngine,
    client: ClientId,
    caps_dir: &str,
    file: CapFile,
) -> (r: CapVerifyReport)
    ensures
        r.client == client,
        r.path@ == cap_file_of(caps_dir@, client),
        persisted_report(cap_engine.root(), client, file, r),
{
    let path = cap_file_path(caps_dir, client);
    let contents = match file {
        CapFile::Missing => {
            return CapVerifyReport {
                client,
                path,
                present: false,
                decodes: false,
                verifies_default_op: false,
                error: Some(String::from_str("cap file not present")),
            };
        },
        CapFile::Unreadable(e) => {
            let mut m = String::from_str("read failed: ");
            m.append(&e);
            return CapVerifyReport {
                client,
                path,
                present: true,
                decodes: false,
                verifies_default_op: false,
                error: Some(m),
            };
        },
        CapFile::Contents(s) => s,
    };
    let b64 = cap_token(&contents);
    match CapEngine::token_from_base64(&b64) {
        Err(e) => {
            let mut m = String::from_str("base64 decode failed: ");
            let t = e.to_string();
            m.append(&t);
            CapVerifyReport {
                client,
                path,
                present: true,
                decodes: false,
                verifies_default_op: false,
                error: Some(m),
            }
        },
        Ok(token) => {
            let v = cap_engine.verify(
                token.as_slice(),
                client.default_scope(false),
                client.operation_to_check(),
                None,
            );
            report_verdict(client, path, v)
        },
    }
}

/// A token minted for a client serves it: every operation that the client is granted is
/// accepted on every subject that it is granted, unless the token library gives the
/// evaluation up for the time it takes.
pub proof fn law_client_token_serves(
    root: Seq<u8>,
    client: ClientId,
    strict: bool,
    token: Vec<u8>,
    q: datalog::Request,
    j: engine::Judgement,
)
    requires
        engine::minted(
            root,
            Ok::<Vec<u8>, CapError>(token),
            client.scope_text(),
            client.operations(strict),
            None,
            None,
            None,
            None,
            Seq::empty(),
        ),
        q.safe(),
        q.quotable(),
        client.operations(strict).contains(q.operation),
        crate::cap::glob::glob_matches(client.scope_text(), q.subject),
        engine::judged(root, token@, q, j),
    ensures
        j is Accepted || j is Unsettled,
{
    lemma_scope_is_plain(client);
    crate::cap::laws::law_fresh_token_is_good_for_its_grant(
        root,
        token,
        client.scope_text(),
        client.operations(strict),
        None,
        None,
        None,
        None,
        Seq::empty(),
        q,
        j,
    );
}

/// A token minted for a client and written to its cap-file is found good, in either mode:
/// the file is there, decodes, and grants the client's operation on its subjects. Only where
/// the token library gives the evaluation up is its error reported.
pub proof fn law_minted_cap_file_is_good(
    root: Seq<u8>,
    client: ClientId,
    strict: bool,
    minted: String,
    r: CapVerifyReport,
)
    requires
        minted_for(root, client, strict, Ok(minted)),
        persisted_report(root, client, CapFile::Contents(minted), r),
    ensures
        r.present && r.decodes,
        r.verifies_default_op || exists|g: biscuit::GaveUp| #[trigger]
            r.reports_verdict(Err(CapError::Biscuit(g.cause()))),
{
    let token = choose|token: Vec<u8>|
        {
            &&& minted@ == outside::base64_text(token@)
            &&& outside::base64_bytes(minted@) == outside::reads_as(token@)
            &&& #[trigger] engine::minted(
                root,
                Ok::<Vec<u8>, CapError>(token),
                client.scope_text(),
                client.operations(strict),
                None,
                None,
                None,
                None,
                Seq::empty(),
            )
        };
    let (now, v) = choose|now: i64, v: Result<(), CapError>|
        #[trigger] engine::verdict(
            root,
            token@,
            datalog::request_of(now, client.scope_text(), client.checked_operation(), None),
            v,
        ) && r.reports_verdict(v);
    let q = datalog::request_of(now, client.scope_text(), client.checked_operation(), None);
    let j = choose|j: engine::Judgement| #[trigger]
        engine::judged(root, token@, q, j) && j.reported_as(v);
    lemma_scope_is_plain(client);
    client.law_checked_operation_is_granted(strict);
    crate::cap::glob::law_pattern_covers_itself(client.scope_text());
    law_client_token_serves(root, client, strict, token, q, j);
    if let engine::Judgement::Unsettled(g) = j {
        assert(r.reports_verdict(Err(CapError::Biscuit(g.cause()))));
    }
}

/// A token minted for a client in strict mode is never accepted for writing, nor for
/// listing subjects.
pub proof fn law_strict_token_does_not_write(
    root: Seq<u8>,
    client: ClientId,
    token: Vec<u8>,
    q: datalog::Request,
)
    requires
        !client.is_adapter(),
        engine::minted(
            root,
            Ok::<Vec<u8>, CapError>(token),
            client.scope_text(),
            client.operations(true),
            None,
            None,
            None,
            None,
            Seq::empty(),
        ),
        engine::verdict(root, token@, q, Ok(())),
    ensures
        q.operation == Operation::Read || q.operation == Operation::Search,
{
    let g = crate::cap::laws::lemma_minted_grant(
        root,
        token,
        client.scope_text(),
        client.operations(true),
        None,
        None,
        None,
        None,
        Seq::empty(),
    );
    crate::cap::laws::law_minted_token_allows_only_its_grant(root, token@, g, q);
    client.law_strict_narrows(q.operation);
    assert(g.operations == client.operations(true));
}

/// The path that a client or an adapter is confined to.
pub open spec fn own_path(client: ClientId) -> Seq<char> {
    match client {
        ClientId::GmailAdapter => "/me/inbox"@,
        ClientId::GithubAdapter => "/me/code"@,
        ClientId::FsAdapter => "/me/fs"@,
        _ => "/me"@,
    }
}

/// What the token of a client is good for, and nothing else. An adapter may write, in either
/// mode, at and below its own path. A client may read and search at and below `/me`, and,
/// where it is not confined to that, write and list subjects there. This is said of subjects
/// and event types that need no escapes.
pub proof fn law_what_a_client_may_do(
    cap_engine: &CapEngine,
    client: ClientId,
    strict: bool,
    minted: String,
    sent: &str,
    decoded: Vec<u8>,
    token: &[u8],
    subject: &str,
    operation: Operation,
    event_type: Option<&str>,
    now: i64,
    j: engine::Judgement,
)
    requires
        call_ensures(mint_for_client, (cap_engine, client, strict), Ok(minted)),
        sent@ == minted@,
        call_ensures(CapEngine::token_from_base64, (sent,), Ok(decoded)),
        token@ == decoded@,
        datalog::plain(subject@) && datalog::safe(subject@),
        event_type matches Some(e) ==> datalog::plain(e@) && datalog::safe(e@),
        call_ensures(
            CapEngine::judge_at,
            (cap_engine, token, subject, operation, event_type, now),
            j,
        ),
    ensures
        j is Unsettled || (j is Accepted <==> (subject@ == own_path(client) || (own_path(client)
            + "/"@).is_prefix_of(subject@)) && (if client is GmailAdapter || client is GithubAdapter
            || client is FsAdapter {
            operation is Write
        } else {
            operation is Read || operation is Search || (!strict && (operation is Write
                || operation is Subjects))
        })),
{
    let root = cap_engine.root();
    let t = choose|t: Vec<u8>|
        outside::base64_bytes(minted@) == outside::reads_as(t@) && #[trigger] engine::minted(
            root,
            Ok::<Vec<u8>, CapError>(t),
            client.scope_text(),
            client.operations(strict),
            None,
            None,
            None,
            None,
            Seq::empty(),
        );
    assert(t@ == token@);
    let g = crate::cap::laws::lemma_minted_grant(
        root,
        t,
        client.scope_text(),
        client.operations(strict),
        None,
        None,
        None,
        None,
        Seq::empty(),
    );
    lemma_scope_is_plain(client);
    lemma_scope_of(client, subject@);
    crate::cap::laws::lemma_plain_grant_is_served(
        root,
        token@,
        g,
        datalog::request_of(now, subject@, operation, event_type),
        j,
    );
    let ops = client.operations(strict);
    if client.is_adapter() {
        assert(ops[0] is Write);
        assert(ops.contains(operation) <==> operation is Write);
    } else if strict {
        assert(ops[0] is Read && ops[1] is Search);
        assert(ops.contains(operation) <==> operation is Read || operation is Search);
    } else {
        assert(ops[0] is Read && ops[1] is Write && ops[2] is Search && ops[3] is Subjects);
        assert(ops.contains(operation) <==> operation is Read || operation is Search
            || operation is Write || operation is Subjects);
    }
}

proof fn lemma_scope_of(client: ClientId, subject: Seq<char>)
    ensures
        datalog::plain(client.scope_text()),
        crate::cap::glob::glob_matches(client.scope_text(), subject) <==> subject == own_path(
            client,
        ) || (own_path(client) + "/"@).is_prefix_of(subject),
{
    reveal_strlit("/me/**");
    reveal_strlit("/me/inbox/**");
    reveal_strlit("/me/code/**");
    reveal_strlit("/me/fs/**");
    reveal_strlit("/me");
    reveal_strlit("/me/inbox");
    reveal_strlit("/me/code");
    reveal_strlit("/me/fs");
    reveal_strlit("/**");
    let base = own_path(client);
    assert(client.scope_text() =~= base + "/**"@);
    crate::cap::glob::lemma_recursive_pattern(base, subject);
}

/// Two clients have two cap-files in the same directory.
pub proof fn law_two_clients_have_two_cap_files(
    caps_dir: &str,
    a: ClientId,
    b: ClientId,
    x: String,
    y: String,
)
    requires
        call_ensures(cap_file_path, (caps_dir, a), x),
        call_ensures(cap_file_path, (caps_dir, b), y),
        x@ == y@,
    ensures
        a == b,
{
    let m = a.slug_text() + ".bk"@;
    let n = b.slug_text() + ".bk"@;
    lemma_slug_start(a);
    lemma_slug_start(b);
    let d = path::joined(caps_dir@, m);
    assert(d == path::joined(caps_dir@, n));
    let k: int = d.len() - m.len();
    assert(d.skip(k) =~= m);
    assert(d.skip(k) =~= n);
    assert(a.slug_text() =~= m.take(m.len() - ".bk"@.len()));
    assert(b.slug_text() =~= n.take(n.len() - ".bk"@.len()));
    ClientId::law_slugs_are_distinct();
}

proof fn lemma_slug_start(c: ClientId)
    ensures
        c.slug_text().len() > 0,
        c.slug_text()[0] != '/',
{
    reveal_strlit("claude_desktop");
    reveal_strlit("claude_code");
    reveal_strlit("codex");
    reveal_strlit("gmail_adapter");
    reveal_strlit("github_adapter");
    reveal_strlit("fs_adapter");
}

/// What the report on a cap-file says fits together: what is good decodes, what decodes is
/// there, and an error is told exactly where something is not good. The report is on the file of
/// this client.
pub proof fn law_reports_fit_together(
    cap_engine: &CapEngine,
    client: ClientId,
    caps_dir: &str,
    file: CapFile,
    r: CapVerifyReport,
    at: String,
)
    requires
        call_ensures(verify_persisted, (cap_engine, client, caps_dir, file), r),
        call_ensures(cap_file_path, (caps_dir, client), at),
    ensures
        r.client == client && r.path@ == at@,
        r.verifies_default_op ==> r.decodes,
        r.decodes ==> r.present,
        r.present <==> !(file is Missing),
        r.decodes <==> (file matches CapFile::Contents(s) && outside::base64_bytes(
            text::trimmed(s@),
        ) is Ok),
        r.error is None <==> r.verifies_default_op,
{
}

/// A cap-file is first written in its own directory, so that it can take its place at once, and every
/// process writes to a file of its own.
pub proof fn law_cap_files_are_written_beside(
    cap_file: &str,
    dir: Seq<char>,
    name: Seq<char>,
    a: u32,
    b: u32,
    x: String,
    y: String,
)
    requires
        cap_file@ == dir + "/"@ + name,
        dir.len() > 0 && path::without_tail(dir) == dir && dir.last() != '/',
        path::is_name(name) && name != "."@ && name != ".."@,
        call_ensures(cap_temp_path, (cap_file, a), x),
        call_ensures(cap_temp_path, (cap_file, b), y),
    ensures
        (dir + "/"@).is_prefix_of(x@),
        !x@.skip(dir.len() as int + 1).contains('/'),
        x@ == y@ ==> a == b,
{
    reveal_strlit(".cap-");
    reveal_strlit(".tmp");
    reveal_strlit("/");
    let m = ".cap-"@ + text::digits(a as nat) + ".tmp"@;
    let n = ".cap-"@ + text::digits(b as nat) + ".tmp"@;
    path::lemma_beside(dir, name, m, n);
    text::lemma_digits_read_back(a as nat);
    text::lemma_digits_read_back(b as nat);
    let k = ".cap-"@.len() as int;
    assert(m.subrange(k, m.len() - 4) =~= text::digits(a as nat));
    assert(n.subrange(k, n.len() - 4) =~= text::digits(b as nat));
    assert(x@.take(dir.len() as int + 1) =~= dir + "/"@);
    assert(x@.skip(dir.len() as int + 1) =~= m);
    assert(!m.contains('/')) by {
        if m.contains('/') {
            let i = choose|i: int| 0 <= i < m.len() && m[i] == '/';
            let d = text::digits(a as nat);
            if k <= i < k + d.len() {
                assert(d[i - k] == '/');
                assert(text::all_digits(d));
            }
        }
    }
}

/// The token of a cap-file is read as it was written, also where the line was ended behind it.
pub proof fn law_a_cap_file_is_read_back(
    cap_engine: &CapEngine,
    client: ClientId,
    strict: bool,
    minted: String,
    plain: &str,
    ended: &str,
    a: String,
    b: String,
)
    requires
        call_ensures(mint_for_client, (cap_engine, client, strict), Ok(minted)),
        plain@ == minted@,
        ended@ == minted@.push('\n'),
        call_ensures(cap_token, (plain,), a),
        call_ensures(cap_token, (ended,), b),
    ensures
        a@ == minted@,
        minted@.len() > 0 ==> b@ == minted@,
{
    if minted@.len() > 0 {
        text::lemma_trimmed_line(minted@);
    }
}

} // verus!
