//! The datalog text of tokens and of authorization requests.

use crate::cap::error::CapError;
use crate::cap::operation::Operation;
use crate::text;
use crate::time::Timestamp;
use vstd::prelude::*;

verus! {

/// The text can stand in a datalog string without ending it or its statement.
pub open spec fn safe(s: Seq<char>) -> bool {
    !s.contains('"') && !s.contains(')') && !s.contains(';') && !s.contains('\n')
}

/// The text, put between double quotes, is a datalog string: every backslash in it stands
/// before another one or before an `n`.
pub open spec fn quotable(s: Seq<char>) -> bool
    decreases s.len(),
{
    if s.len() == 0 {
        true
    } else if s[0] == '\\' {
        s.len() > 1 && (s[1] == '\\' || s[1] == 'n') && quotable(s.skip(2))
    } else {
        s[0] != '"' && s[0] != '\n' && quotable(s.skip(1))
    }
}

/// What the datalog string between the quotes says: a backslash and the character behind it
/// stand for that character, or, where it is an `n`, for a line feed.
pub open spec fn said(s: Seq<char>) -> Seq<char>
    decreases s.len(),
{
    if s.len() == 0 {
        s
    } else if s[0] == '\\' && s.len() > 1 {
        seq![
            if s[1] == 'n' {
                '\n'
            } else {
                s[1]
            },
        ] + said(s.skip(2))
    } else {
        seq![s[0]] + said(s.skip(1))
    }
}

/// What each of the strings says.
pub open spec fn said_all(v: Seq<Seq<char>>) -> Seq<Seq<char>> {
    v.map_values(|x: Seq<char>| said(x))
}

/// The text needs no escapes.
pub open spec fn plain(s: Seq<char>) -> bool {
    !s.contains('"') && !s.contains('\\') && !s.contains('\n')
}

/// A text that needs no escapes is the datalog string of itself.
pub proof fn lemma_plain(s: Seq<char>)
    requires
        plain(s),
    ensures
        quotable(s),
        said(s) == s,
    decreases s.len(),
{
    if s.len() > 0 {
        assert(s.contains(s[0]));
        let t = s.skip(1);
        assert forall|c: char| t.contains(c) implies s.contains(c) by {
            let i = choose|i: int| 0 <= i < t.len() && t[i] == c;
            assert(s[i + 1] == c);
        }
        lemma_plain(t);
        assert(seq![s[0]] + t =~= s);
    }
}

/// The message with which a field is refused that is not safe.
pub open spec fn unsafe_message(field: Seq<char>) -> Seq<char> {
    field + " contains invalid characters for capability tokens"@
}

/// Whether a text is safe.
pub fn is_safe(s: &str) -> (r: bool)
    ensures
        r == safe(s@),
{
    !text::has_char(s, '"') && !text::has_char(s, ')') && !text::has_char(s, ';')
        && !text::has_char(s, '\n')
}

/// The message with which a field is refused.
pub fn unsafe_text(field_name: &str) -> (r: String)
    ensures
        r@ == unsafe_message(field_name@),
{
    String::from_str(field_name).concat(" contains invalid characters for capability tokens")
}

/// Validate that a string is safe for interpolation into datalog. Rejects
/// strings with characters that could break the syntax.
pub fn validate_datalog_safe(input: &str, field_name: &str) -> (r: Result<(), CapError>)
    ensures
        r is Ok <==> safe(input@),
        r matches Err(e) ==> e.denies(unsafe_message(field_name@)),
{
    if is_safe(input) {
        Ok(())
    } else {
        Err(CapError::Denied(unsafe_text(field_name)))
    }
}

/// The views of a sequence of string slices.
pub open spec fn texts(v: Seq<&str>) -> Seq<Seq<char>> {
    v.map_values(|x: &str| x@)
}

// ---------------------------------------------------------------------------
// What a new token states
// ---------------------------------------------------------------------------

/// What a new token grants, and under which caveats.
pub struct Grant {
    /// The id that revocation and caveat state refer to.
    pub id: Seq<char>,
    /// Pattern of the subjects.
    pub glob: Seq<char>,
    /// The operations granted.
    pub operations: Seq<Operation>,
    /// The event types allowed; all of them where there is no list.
    pub kinds: Option<Seq<Seq<char>>>,
    /// Operations per second.
    pub rate: Option<u32>,
    /// Currency and amount of the budget.
    pub budget: Option<(Seq<char>, i64)>,
    /// The operations that need a human approval.
    pub approvals: Seq<Operation>,
    /// Last second in which the token is valid.
    pub expires: Option<i64>,
}

impl Grant {
    /// Every text of the grant is safe.
    pub open spec fn safe(self) -> bool {
        &&& safe(self.id)
        &&& safe(self.glob)
        &&& self.kinds matches Some(ks) ==> forall|i: int| 0 <= i < ks.len() ==> safe(ks[i])
        &&& self.budget matches Some(b) ==> safe(b.0)
    }

    /// Every text that the grant writes is quotable, and the id needs no escapes. The pattern
    /// is written once for each operation.
    pub open spec fn quotable(self) -> bool {
        &&& plain(self.id)
        &&& self.operations.len() > 0 ==> quotable(self.glob)
        &&& self.kinds matches Some(ks) ==> forall|i: int| 0 <= i < ks.len() ==> quotable(ks[i])
        &&& self.budget matches Some(b) ==> quotable(b.0)
    }

    /// The rights that the grant writes.
    pub open spec fn rights(self) -> Set<(Seq<char>, Seq<char>)> {
        Set::new(
            |r: (Seq<char>, Seq<char>)|
                r.0 == said(self.glob) && exists|i: int|
                    0 <= i < self.operations.len() && self.operations[i].name() == r.1,
        )
    }

    /// The event types that the grant writes.
    pub open spec fn kind_set(self) -> Set<Seq<char>> {
        match self.kinds {
            Some(ks) => said_all(ks).to_set(),
            None => Set::empty(),
        }
    }

    /// The names of the operations that need approval.
    pub open spec fn approval_set(self) -> Set<Seq<char>> {
        Set::new(
            |n: Seq<char>|
                exists|i: int| 0 <= i < self.approvals.len() && self.approvals[i].name() == n,
        )
    }

    /// The budget, as a set of at most one.
    pub open spec fn budget_set(self) -> Set<(Seq<char>, i64)> {
        match self.budget {
            Some(b) => set![(said(b.0), b.1)],
            None => Set::empty(),
        }
    }

    /// The checks of the grant let the request pass.
    pub open spec fn admits(self, q: Request) -> bool {
        &&& self.expires matches Some(t) ==> q.now <= t
        &&& self.kinds matches Some(ks) ==> (q.event_type matches Some(e) && said_all(
            ks,
        ).contains(said(e)))
    }

    /// The grant names the subject, or everything, with the operation.
    pub open spec fn names(self, q: Request) -> bool {
        (said(self.glob) == said(q.subject) || said(self.glob) == "/**"@)
            && self.operations.contains(q.operation)
    }

    /// The rate, as a set of at most one.
    pub open spec fn rate_set(self) -> Set<i64> {
        match self.rate {
            Some(n) => set![n as i64],
            None => Set::empty(),
        }
    }
}

pub open spec fn token_id_line(id: Seq<char>) -> Seq<char> {
    "token_id(\""@ + id + "\");\n"@
}

pub open spec fn right_line(glob: Seq<char>, op: Seq<char>) -> Seq<char> {
    "right(\""@ + glob + "\", \""@ + op + "\");\n"@
}

pub open spec fn right_lines(glob: Seq<char>, ops: Seq<Operation>) -> Seq<char>
    decreases ops.len(),
{
    if ops.len() == 0 {
        Seq::empty()
    } else {
        right_lines(glob, ops.drop_last()) + right_line(glob, ops.last().name())
    }
}

pub open spec fn kind_lines(kinds: Seq<Seq<char>>) -> Seq<char>
    decreases kinds.len(),
{
    if kinds.len() == 0 {
        Seq::empty()
    } else {
        kind_lines(kinds.drop_last()) + ("kind_allowed(\""@ + kinds.last() + "\");\n"@)
    }
}

pub open spec fn approval_lines(ops: Seq<Operation>) -> Seq<char>
    decreases ops.len(),
{
    if ops.len() == 0 {
        Seq::empty()
    } else {
        approval_lines(ops.drop_last()) + ("requires_approval(\""@ + ops.last().name() + "\");\n"@)
    }
}

pub open spec fn expiry_line(secs: int) -> Seq<char> {
    "check if time($time), $time <= "@ + text::decimal(secs) + ";\n"@
}

/// The datalog of a new token: its facts, then its checks.
pub open spec fn grant_code(g: Grant) -> Seq<char> {
    token_id_line(g.id) + right_lines(g.glob, g.operations) + (match g.kinds {
        Some(ks) => kind_lines(ks),
        None => Seq::empty(),
    }) + (match g.rate {
        Some(n) => "rate_limit_ops_per_sec("@ + text::digits(n as nat) + ");\n"@,
        None => Seq::empty(),
    }) + (match g.budget {
        Some(b) => "budget_limit(\""@ + b.0 + "\", "@ + text::decimal(b.1 as int) + ");\n"@,
        None => Seq::empty(),
    }) + approval_lines(g.approvals) + (match g.expires {
        Some(t) => expiry_line(t as int),
        None => Seq::empty(),
    }) + (match g.kinds {
        Some(_) => "check if event_type($etype), kind_allowed($etype);\n"@,
        None => Seq::empty(),
    })
}

/// The grant that the arguments of a mint describe.
pub open spec fn grant_of(
    id: Seq<char>,
    glob: Seq<char>,
    operations: Seq<Operation>,
    expires: Option<i64>,
    kinds: Option<&[&str]>,
    rate: Option<u32>,
    budget: Option<(Seq<char>, i64)>,
    approvals: Seq<Operation>,
) -> Grant {
    Grant {
        id,
        glob,
        operations,
        kinds: (match kinds {
            Some(ks) => Some(texts(ks@)),
            None => None,
        }),
        rate,
        budget,
        approvals,
        expires,
    }
}

fn push_rights(code: &mut String, glob: &str, ops: &[Operation])
    ensures
        final(code)@ == old(code)@ + right_lines(glob@, ops@),
{
    let mut i: usize = 0;
    assert(code@ =~= old(code)@ + right_lines(glob@, ops@.take(0)));
    while i < ops.len()
        invariant
            i <= ops@.len(),
            code@ == old(code)@ + right_lines(glob@, ops@.take(i as int)),
        decreases ops.len() - i,
    {
        let ghost before = code@;
        code.append("right(\"");
        code.append(glob);
        code.append("\", \"");
        code.append(ops[i].as_str());
        code.append("\");\n");
        proof {
            let t = ops@.take(i + 1);
            assert(t.drop_last() =~= ops@.take(i as int));
            assert(t.last() == ops@[i as int]);
            assert(code@ =~= before + right_line(glob@, ops@[i as int].name()));
            assert(code@ =~= old(code)@ + right_lines(glob@, t));
        }
        i += 1;
    }
    assert(ops@.take(ops@.len() as int) =~= ops@);
}

fn push_kinds(code: &mut String, kinds: &[&str])
    ensures
        final(code)@ == old(code)@ + kind_lines(texts(kinds@)),
{
    let mut i: usize = 0;
    let ghost ks = texts(kinds@);
    assert(code@ =~= old(code)@ + kind_lines(ks.take(0)));
    while i < kinds.len()
        invariant
            i <= kinds@.len(),
            ks == texts(kinds@),
            code@ == old(code)@ + kind_lines(ks.take(i as int)),
        decreases kinds.len() - i,
    {
        let ghost before = code@;
        code.append("kind_allowed(\"");
        code.append(kinds[i]);
        code.append("\");\n");
        proof {
            let t = ks.take(i + 1);
            assert(t.drop_last() =~= ks.take(i as int));
            assert(t.last() == kinds@[i as int]@);
            assert(code@ =~= before + ("kind_allowed(\""@ + t.last() + "\");\n"@));
            assert(code@ =~= old(code)@ + kind_lines(t));
        }
        i += 1;
    }
    assert(ks.take(ks.len() as int) =~= ks);
}

fn push_approvals(code: &mut String, ops: &[Operation])
    ensures
        final(code)@ == old(code)@ + approval_lines(ops@),
{
    let mut i: usize = 0;
    assert(code@ =~= old(code)@ + approval_lines(ops@.take(0)));
    while i < ops.len()
        invariant
            i <= ops@.len(),
            code@ == old(code)@ + approval_lines(ops@.take(i as int)),
        decreases ops.len() - i,
    {
        let ghost before = code@;
        code.append("requires_approval(\"");
        code.append(ops[i].as_str());
        code.append("\");\n");
        proof {
            let t = ops@.take(i + 1);
            assert(t.drop_last() =~= ops@.take(i as int));
            assert(t.last() == ops@[i as int]);
            assert(code@ =~= before + ("requires_approval(\""@ + t.last().name() + "\");\n"@));
            assert(code@ =~= old(code)@ + approval_lines(t));
        }
        i += 1;
    }
    assert(ops@.take(ops@.len() as int) =~= ops@);
}

/// Renders the datalog of a new token.
pub fn render_grant(
    id: &str,
    glob: &str,
    operations: &[Operation],
    expires: Option<i64>,
    kinds: Option<&[&str]>,
    rate: Option<u32>,
    budget: Option<(&str, i64)>,
    approvals: &[Operation],
) -> (r: String)
    ensures
        r@ == grant_code(
            grant_of(
                id@,
                glob@,
                operations@,
                expires,
                kinds,
                rate,
                (match budget {
                    Some(b) => Some((b.0@, b.1)),
                    None => None,
                }),
                approvals@,
            ),
        ),
{
    let mut code = String::from_str("token_id(\"").concat(id).concat("\");\n");
    push_rights(&mut code, glob, operations);
    let ghost c2 = code@;
    if let Some(ks) = kinds {
        push_kinds(&mut code, ks);
    }
    let ghost k: Seq<char> = match kinds {
        Some(ks) => kind_lines(texts(ks@)),
        None => Seq::empty(),
    };
    assert(code@ =~= c2 + k);
    let ghost c3 = code@;
    if let Some(n) = rate {
        code.append("rate_limit_ops_per_sec(");
        code.append(&text::unsigned_text(n as u64));
        code.append(");\n");
    }
    let ghost rl: Seq<char> = match rate {
        Some(n) => "rate_limit_ops_per_sec("@ + text::digits(n as nat) + ");\n"@,
        None => Seq::empty(),
    };
    assert(code@ =~= c3 + rl);
    let ghost c4 = code@;
    if let Some(b) = budget {
        code.append("budget_limit(\"");
        code.append(b.0);
        code.append("\", ");
        code.append(&text::signed_text(b.1));
        code.append(");\n");
    }
    let ghost bl: Seq<char> = match budget {
        Some(b) => "budget_limit(\""@ + b.0@ + "\", "@ + text::decimal(b.1 as int) + ");\n"@,
        None => Seq::empty(),
    };
    assert(code@ =~= c4 + bl);
    push_approvals(&mut code, approvals);
    let ghost c5 = code@;
    if let Some(t) = expires {
        code.append("check if time($time), $time <= ");
        code.append(&text::signed_text(t));
        code.append(";\n");
    }
    let ghost el: Seq<char> = match expires {
        Some(t) => expiry_line(t as int),
        None => Seq::empty(),
    };
    assert(code@ =~= c5 + el);
    let ghost c6 = code@;
    if kinds.is_some() {
        code.append("check if event_type($etype), kind_allowed($etype);\n");
    }
    let ghost kc: Seq<char> = match kinds {
        Some(_) => "check if event_type($etype), kind_allowed($etype);\n"@,
        None => Seq::empty(),
    };
    assert(code@ =~= c6 + kc);
    code
}

// ---------------------------------------------------------------------------
// What a verifier asks of a token
// ---------------------------------------------------------------------------

/// A request that a token is to authorize.
pub struct Request {
    /// The verifier's clock, in seconds since the Unix epoch.
    pub now: i64,
    /// The subject to act on.
    pub subject: Seq<char>,
    /// The operation to perform.
    pub operation: Operation,
    /// The type of the event concerned, where there is one.
    pub event_type: Option<Seq<char>>,
}

impl Request {
    /// Every text of the request is safe.
    pub open spec fn safe(self) -> bool {
        &&& safe(self.subject)
        &&& self.event_type matches Some(e) ==> safe(e)
    }

    /// Every text of the request is quotable.
    pub open spec fn quotable(self) -> bool {
        &&& quotable(self.subject)
        &&& self.event_type matches Some(e) ==> quotable(e)
    }
}

/// The facts that describe a request.
pub open spec fn request_facts(q: Request) -> Seq<char> {
    "time("@ + text::decimal(q.now as int) + ");\nresource(\""@ + q.subject
        + "\");\noperation(\""@ + q.operation.name() + "\");\n"@ + (match q.event_type {
        Some(e) => "event_type(\""@ + e + "\");\n"@,
        None => Seq::empty(),
    })
}

/// The policies that hold where the token names the subject, or everything.
pub open spec fn direct_policies(q: Request, scope: Seq<char>) -> Seq<char> {
    "allow if right(\""@ + q.subject + "\", \""@ + q.operation.name() + "\")"@ + scope
        + ";\nallow if right(\"/**\", \""@ + q.operation.name() + "\")"@ + scope + ";\n"@
}

/// A right to exactly what is requested, and the policy that asks for it.
pub open spec fn granted_policy(q: Request, scope: Seq<char>) -> Seq<char> {
    "right(\""@ + q.subject + "\", \""@ + q.operation.name() + "\");\nallow if right(\""@
        + q.subject + "\", \""@ + q.operation.name() + "\")"@ + scope + ";\n"@
}

/// Asks whether the token itself names the subject, or everything.
pub open spec fn direct_code(q: Request, scope: Seq<char>) -> Seq<char> {
    request_facts(q) + direct_policies(q, scope)
}

/// Asks whether the token's checks admit the request, the right being given.
pub open spec fn granted_code(q: Request, scope: Seq<char>) -> Seq<char> {
    request_facts(q) + granted_policy(q, scope)
}

fn render_facts(now: i64, subject: &str, operation: Operation, event_type: Option<&str>) -> (r:
    String)
    ensures
        r@ == request_facts(request_of(now, subject@, operation, event_type)),
{
    let mut code = String::from_str("time(").concat(&text::signed_text(now)).concat(
        ");\nresource(\"",
    ).concat(subject).concat("\");\noperation(\"").concat(operation.as_str()).concat("\");\n");
    let ghost before = code@;
    if let Some(e) = event_type {
        code.append("event_type(\"");
        code.append(e);
        code.append("\");\n");
    }
    let ghost tail: Seq<char> = match event_type {
        Some(e) => "event_type(\""@ + e@ + "\");\n"@,
        None => Seq::empty(),
    };
    assert(code@ =~= before + tail);
    code
}

/// The request that the arguments of a verification describe.
pub open spec fn request_of(
    now: i64,
    subject: Seq<char>,
    operation: Operation,
    event_type: Option<&str>,
) -> Request {
    Request {
        now,
        subject,
        operation,
        event_type: (match event_type {
            Some(e) => Some(e@),
            None => None,
        }),
    }
}

/// Renders the question whether the token names the subject, or everything.
pub fn render_direct(
    now: i64,
    subject: &str,
    operation: Operation,
    event_type: Option<&str>,
    scope: &str,
) -> (r: String)
    ensures
        r@ == direct_code(request_of(now, subject@, operation, event_type), scope@),
{
    let facts = render_facts(now, subject, operation, event_type);
    let policies = String::from_str("allow if right(\"").concat(subject).concat("\", \"").concat(
        operation.as_str(),
    ).concat("\")").concat(scope).concat(";\nallow if right(\"/**\", \"").concat(
        operation.as_str(),
    ).concat("\")").concat(scope).concat(";\n");
    facts.concat(&policies)
}

/// Renders the question whether the token's checks admit the request.
pub fn render_granted(
    now: i64,
    subject: &str,
    operation: Operation,
    event_type: Option<&str>,
    scope: &str,
) -> (r: String)
    ensures
        r@ == granted_code(request_of(now, subject@, operation, event_type), scope@),
{
    let facts = render_facts(now, subject, operation, event_type);
    let policy = String::from_str("right(\"").concat(subject).concat("\", \"").concat(
        operation.as_str(),
    ).concat("\");\nallow if right(\"").concat(subject).concat("\", \"").concat(
        operation.as_str(),
    ).concat("\")").concat(scope).concat(";\n");
    facts.concat(&policy)
}

// ---------------------------------------------------------------------------
// What an attenuation adds
// ---------------------------------------------------------------------------

/// The path prefix that a subject pattern stands for in an attenuation.
pub open spec fn glob_prefix(glob: Seq<char>) -> Seq<char> {
    text::replaced(text::replaced(glob, "/**"@, ""@), "/*"@, ""@)
}

/// A replacement of what begins with a slash by nothing leaves a quotable text quotable.
proof fn lemma_replaced_quotable(s: Seq<char>, pat: Seq<char>)
    requires
        quotable(s),
        pat.len() > 0,
        pat[0] == '/',
        forall|i: int| 0 <= i < pat.len() ==> #[trigger] pat[i] != '\\',
    ensures
        quotable(text::replaced(s, pat, Seq::empty())),
    decreases s.len(),
{
    let none = Seq::<char>::empty();
    let r = text::replaced(s, pat, none);
    if s.len() >= pat.len() {
        if pat.is_prefix_of(s) {
            let t = s.skip(pat.len() as int);
            lemma_quotable_skip(s, pat);
            lemma_replaced_quotable(t, pat);
            assert(r =~= text::replaced(t, pat, none));
        } else if s[0] == '\\' {
            let t = s.skip(1);
            let u = text::replaced(t, pat, none);
            assert(t.skip(1) =~= s.skip(2));
            assert(t[0] == s[1]);
            assert(!pat.is_prefix_of(t)) by {
                if pat.is_prefix_of(t) {
                    assert(pat[0] == t[0]);
                }
            }
            lemma_replaced_quotable(s.skip(2), pat);
            let w = text::replaced(s.skip(2), pat, none);
            if t.len() < pat.len() {
                assert(u == t);
                assert(s.skip(2).len() < pat.len());
                assert(w == s.skip(2));
            }
            assert(u =~= seq![s[1]] + w);
            assert(r =~= seq![s[0], s[1]] + w);
            assert(r.skip(2) =~= w);
        } else {
            lemma_replaced_quotable(s.skip(1), pat);
            let w = text::replaced(s.skip(1), pat, none);
            assert(r =~= seq![s[0]] + w);
            assert(r.skip(1) =~= w);
        }
    }
}

proof fn lemma_quotable_skip(s: Seq<char>, head: Seq<char>)
    requires
        quotable(s),
        head.is_prefix_of(s),
        forall|i: int| 0 <= i < head.len() ==> #[trigger] head[i] != '\\',
    ensures
        quotable(s.skip(head.len() as int)),
    decreases head.len(),
{
    if head.len() == 0 {
        assert(s.skip(0) =~= s);
    } else {
        assert(head[0] == s[0]);
        let t = head.skip(1);
        assert forall|i: int| 0 <= i < t.len() implies #[trigger] t[i] != '\\' by {
            assert(t[i] == head[i + 1]);
        }
        assert(t.is_prefix_of(s.skip(1))) by {
            assert(t =~= s.skip(1).take(t.len() as int)) by {
                assert forall|i: int| 0 <= i < t.len() implies t[i] == s.skip(1)[i] by {
                    assert(head[i + 1] == s[i + 1]);
                }
            }
        }
        lemma_quotable_skip(s.skip(1), t);
        assert(s.skip(1).skip(t.len() as int) =~= s.skip(head.len() as int));
    }
}

/// The prefix of a pattern is as fit for a datalog string as the pattern.
pub proof fn lemma_prefix_is_plain(glob: Seq<char>)
    ensures
        safe(glob) ==> safe(glob_prefix(glob)),
        quotable(glob) ==> quotable(glob_prefix(glob)),
{
    reveal_strlit("");
    reveal_strlit("/**");
    reveal_strlit("/*");
    let inner = text::replaced(glob, "/**"@, ""@);
    assert forall|c: char| glob_prefix(glob).contains(c) implies glob.contains(c) by {
        text::lemma_replaced_contains(inner, "/*"@, ""@, c);
        text::lemma_replaced_contains(glob, "/**"@, ""@, c);
    }
    if quotable(glob) {
        assert(""@ =~= Seq::<char>::empty());
        lemma_replaced_quotable(glob, "/**"@);
        lemma_replaced_quotable(inner, "/*"@);
    }
}

/// A text that nothing of which is replaced stays as it is.
proof fn lemma_unreplaced(s: Seq<char>, pat: Seq<char>, c: char)
    requires
        pat.contains(c),
        !s.contains(c),
    ensures
        text::replaced(s, pat, Seq::empty()) == s,
    decreases s.len(),
{
    if s.len() >= pat.len() {
        if pat.is_prefix_of(s) {
            let i = choose|i: int| 0 <= i < pat.len() && pat[i] == c;
            assert(s[i] == c);
        } else {
            let t = s.skip(1);
            assert forall|i: int| 0 <= i < t.len() implies #[trigger] t[i] != c by {
                assert(s.contains(s[i + 1]));
            }
            lemma_unreplaced(t, pat, c);
            assert(seq![s[0]] + t =~= s);
        }
    }
}

/// What stands only at the end of a text, and nowhere else in it, is taken away.
proof fn lemma_tail_replaced(s: Seq<char>, pat: Seq<char>)
    requires
        pat == "/**"@ || pat == "/*"@,
        !s.contains('*'),
    ensures
        text::replaced(s + pat, pat, Seq::empty()) == s,
    decreases s.len(),
{
    reveal_strlit("/**");
    reveal_strlit("/*");
    let none = Seq::<char>::empty();
    let w = s + pat;
    if s.len() == 0 {
        assert(w =~= pat);
        assert(pat.is_prefix_of(w));
        assert(w.skip(pat.len() as int) =~= none);
        assert(text::replaced(none, pat, none) =~= none);
        assert(text::replaced(w, pat, none) =~= none);
    } else {
        assert(!pat.is_prefix_of(w)) by {
            if pat.is_prefix_of(w) {
                assert(pat[1] == w[1]);
                assert(pat[1] == '*');
                if s.len() > 1 {
                    assert(s.contains(s[1]));
                } else {
                    assert(w[1] == pat[0]);
                }
            }
        }
        let t = s.skip(1);
        assert forall|i: int| 0 <= i < t.len() implies #[trigger] t[i] != '*' by {
            assert(s.contains(s[i + 1]));
        }
        assert(w.skip(1) =~= t + pat);
        lemma_tail_replaced(t, pat);
        assert(seq![s[0]] + t =~= s);
    }
}

/// A pattern with one star at its end holds no two.
proof fn lemma_single_star(s: Seq<char>)
    requires
        !s.contains('*'),
    ensures
        text::replaced(s + "/*"@, "/**"@, Seq::empty()) == s + "/*"@,
    decreases s.len(),
{
    reveal_strlit("/**");
    reveal_strlit("/*");
    let none = Seq::<char>::empty();
    let w = s + "/*"@;
    if w.len() >= 3 {
        assert(!"/**"@.is_prefix_of(w)) by {
            if "/**"@.is_prefix_of(w) {
                assert("/**"@[1] == w[1]);
                if s.len() > 1 {
                    assert(s.contains(s[1]));
                } else {
                    assert(w[1] == '/');
                }
            }
        }
        let t = s.skip(1);
        assert forall|i: int| 0 <= i < t.len() implies #[trigger] t[i] != '*' by {
            assert(s.contains(s[i + 1]));
        }
        assert(w.skip(1) =~= t + "/*"@);
        lemma_single_star(t);
        assert(seq![w[0]] + w.skip(1) =~= w);
    }
}

/// The path of a pattern is what stands before its stars: a pattern without a star is its own
/// path, and that of `base/**` and of `base/*` is `base`.
pub proof fn law_path_of_a_pattern(pattern: &str, base: Seq<char>, r: String)
    requires
        call_ensures(prefix_of_glob, (pattern,), r),
        !base.contains('*'),
        pattern@ == base || pattern@ == base + "/**"@ || pattern@ == base + "/*"@,
    ensures
        r@ == base,
{
    lemma_path_of_a_pattern(pattern@, base);
}

pub proof fn lemma_path_of_a_pattern(pattern: Seq<char>, base: Seq<char>)
    requires
        !base.contains('*'),
        pattern == base || pattern == base + "/**"@ || pattern == base + "/*"@,
    ensures
        glob_prefix(pattern) == base,
{
    reveal_strlit("");
    reveal_strlit("/**");
    reveal_strlit("/*");
    assert(""@ =~= Seq::<char>::empty());
    assert("/**"@[1] == '*' && "/*"@[1] == '*');
    assert("/**"@.contains('*') && "/*"@.contains('*'));
    lemma_unreplaced(base, "/**"@, '*');
    lemma_unreplaced(base, "/*"@, '*');
    if pattern == base + "/**"@ {
        lemma_tail_replaced(base, "/**"@);
    } else if pattern == base + "/*"@ {
        lemma_single_star(base);
        lemma_tail_replaced(base, "/*"@);
    }
}

/// Two datalog strings begin alike exactly where what they say begins alike.
pub proof fn lemma_said_prefix(p: Seq<char>, s: Seq<char>)
    requires
        quotable(p),
        quotable(s),
    ensures
        said(p).is_prefix_of(said(s)) <==> p.is_prefix_of(s),
    decreases p.len(),
{
    if p.len() == 0 {
        assert(said(p) =~= said(s).take(0));
        assert(p =~= s.take(0));
    } else if s.len() == 0 {
        assert(said(p).len() > 0);
    } else {
        let n: int = if p[0] == '\\' {
            2
        } else {
            1
        };
        let m: int = if s[0] == '\\' {
            2
        } else {
            1
        };
        let c = said(p)[0];
        let d = said(s)[0];
        let pt = p.skip(n);
        let st = s.skip(m);
        assert(said(p) =~= seq![c] + said(pt));
        assert(said(s) =~= seq![d] + said(st));
        lemma_said_prefix(pt, st);
        if said(p).is_prefix_of(said(s)) {
            assert(c == said(s).take(said(p).len() as int)[0]);
            assert(n == m && p.take(n) =~= s.take(n));
            assert(said(pt) =~= said(st).take(said(pt).len() as int)) by {
                assert forall|i: int| 0 <= i < said(pt).len() implies said(pt)[i] == said(st)[i] by {
                    assert(said(p)[i + 1] == said(s).take(said(p).len() as int)[i + 1]);
                }
            }
            assert(p =~= s.take(p.len() as int)) by {
                assert forall|i: int| 0 <= i < p.len() implies p[i] == s[i] by {
                    if i < n {
                        assert(p.take(n)[i] == s.take(n)[i]);
                    } else {
                        assert(pt[i - n] == st.take(pt.len() as int)[i - n]);
                    }
                }
            }
        }
        if p.is_prefix_of(s) {
            assert(p[0] == s.take(p.len() as int)[0]);
            assert(n == m);
            if n == 2 {
                assert(p[1] == s.take(p.len() as int)[1]);
            }
            assert(c == d);
            assert(pt =~= st.take(pt.len() as int)) by {
                assert forall|i: int| 0 <= i < pt.len() implies pt[i] == st[i] by {
                    assert(p[i + n] == s.take(p.len() as int)[i + n]);
                }
            }
            assert(said(p) =~= said(s).take(said(p).len() as int)) by {
                assert forall|i: int| 0 <= i < said(p).len() implies said(p)[i] == said(s)[i] by {
                    if i > 0 {
                        assert(said(pt)[i - 1] == said(st).take(said(pt).len() as int)[i - 1]);
                    }
                }
            }
        }
    }
}

/// The quoted names of operations, separated by commas.
pub open spec fn operation_list(ops: Seq<Operation>) -> Seq<char>
    decreases ops.len(),
{
    if ops.len() == 0 {
        Seq::empty()
    } else if ops.len() == 1 {
        "\""@ + ops[0].name() + "\""@
    } else {
        operation_list(ops.drop_last()) + ", "@ + ("\""@ + ops.last().name() + "\""@)
    }
}

pub open spec fn operations_check(ops: Seq<Operation>) -> Seq<char> {
    "check if operation($op), ["@ + operation_list(ops) + "].contains($op);\n"@
}

pub open spec fn prefix_check(prefix: Seq<char>) -> Seq<char> {
    "check if resource($res), $res.starts_with(\""@ + prefix + "\");\n"@
}

/// The block that confines a token to operations and a path prefix.
pub open spec fn attenuation_code(ops: Seq<Operation>, prefix: Seq<char>) -> Seq<char> {
    operations_check(ops) + prefix_check(prefix)
}

proof fn lemma_name_letters(op: Operation)
    ensures
        op.name().len() > 0,
        forall|i: int|
            0 <= i < op.name().len() ==> #[trigger] op.name()[i] != '"' && op.name()[i] != ']',
{
    reveal_strlit("read");
    reveal_strlit("write");
    reveal_strlit("subjects");
    reveal_strlit("search");
    reveal_strlit("admin");
    reveal_strlit("peer");
    reveal_strlit("subscribe");
}

proof fn lemma_list_letters(ops: Seq<Operation>)
    ensures
        ops.len() > 0 ==> operation_list(ops).len() > 0,
        forall|i: int| 0 <= i < operation_list(ops).len() ==> #[trigger] operation_list(ops)[i] != ']',
    decreases ops.len(),
{
    reveal_strlit("\"");
    reveal_strlit(", ");
    if ops.len() > 0 {
        lemma_name_letters(ops.last());
        lemma_list_letters(ops.drop_last());
    }
}

/// The text of a list of operations tells the list.
proof fn lemma_list_is_told(a: Seq<Operation>, b: Seq<Operation>)
    requires
        operation_list(a) == operation_list(b),
    ensures
        a == b,
    decreases a.len(),
{
    reveal_strlit("\"");
    reveal_strlit(", ");
    lemma_list_letters(a);
    lemma_list_letters(b);
    if a.len() == 0 || b.len() == 0 {
        assert(a =~= b);
    } else {
        let t = operation_list(a);
        let n = a.last().name();
        let m = b.last().name();
        lemma_name_letters(a.last());
        lemma_name_letters(b.last());
        let end: int = t.len() as int;
        assert(forall|i: int| 0 <= i < n.len() ==> #[trigger] n[i] == t[end - 1 - n.len() + i]);
        assert(forall|i: int| 0 <= i < m.len() ==> #[trigger] m[i] == t[end - 1 - m.len() + i]);
        assert(t[end - 2 - n.len()] == '"');
        assert(t[end - 2 - m.len()] == '"');
        if n.len() < m.len() {
            assert(m[m.len() - n.len() - 1] == t[end - 2 - n.len()]);
        }
        if m.len() < n.len() {
            assert(n[n.len() - m.len() - 1] == t[end - 2 - m.len()]);
        }
        assert(n =~= m);
        Operation::law_names_are_distinct();
        assert(a.last() == b.last());
        if a.len() == 1 {
            assert(b.len() == 1);
            assert(a =~= b);
        } else {
            assert(b.len() > 1);
            let x = operation_list(a.drop_last());
            let y = operation_list(b.drop_last());
            assert(x.len() == y.len());
            assert(x =~= t.take(x.len() as int));
            assert(y =~= t.take(x.len() as int));
            lemma_list_is_told(a.drop_last(), b.drop_last());
            assert(a =~= a.drop_last().push(a.last()));
            assert(b =~= b.drop_last().push(b.last()));
        }
    }
}

/// The block of an attenuation tells its operations and its path.
pub proof fn lemma_attenuation_is_told(
    a: Seq<Operation>,
    p: Seq<char>,
    b: Seq<Operation>,
    q: Seq<char>,
)
    requires
        attenuation_code(a, p) == attenuation_code(b, q),
    ensures
        a == b,
        p == q,
{
    reveal_strlit("].contains($op);\n");
    let h = "check if operation($op), ["@;
    let x = operation_list(a);
    let y = operation_list(b);
    let m = "].contains($op);\n"@;
    let k = "check if resource($res), $res.starts_with(\""@;
    let e = "\");\n"@;
    let s = attenuation_code(a, p);
    lemma_list_letters(a);
    lemma_list_letters(b);
    assert(s =~= h + x + m + k + p + e);
    assert(s =~= h + y + m + k + q + e);
    let at: int = h.len() as int;
    assert(forall|i: int| 0 <= i < x.len() ==> #[trigger] x[i] == s[at + i]);
    assert(forall|i: int| 0 <= i < y.len() ==> #[trigger] y[i] == s[at + i]);
    assert(m[0] == ']');
    assert(s[at + x.len()] == m[0]);
    assert(s[at + y.len()] == m[0]);
    if x.len() < y.len() {
        assert(y[x.len() as int] == s[at + x.len()]);
    }
    if y.len() < x.len() {
        assert(x[y.len() as int] == s[at + y.len()]);
    }
    assert(x =~= y);
    lemma_list_is_told(a, b);
    let from: int = at + x.len() + m.len() + k.len();
    assert(p =~= s.subrange(from, s.len() - e.len()));
    assert(q =~= s.subrange(from, s.len() - e.len()));
}

/// The block of a third party is no attenuation.
pub proof fn lemma_caveats_are_no_attenuation(
    ops: Seq<Operation>,
    prefix: Seq<char>,
    authority: Seq<char>,
    caveats: Seq<Caveat>,
)
    ensures
        attenuation_code(ops, prefix) != caveat_code(authority, caveats),
{
    reveal_strlit("attenuated_by(\"");
    reveal_strlit("check if operation($op), [");
    assert(attenuation_code(ops, prefix)[0] == 'c');
    assert(caveat_code(authority, caveats)[0] == 'a');
}

/// The path prefix of a subject pattern.
pub fn prefix_of_glob(glob: &str) -> (r: String)
    ensures
        r@ == glob_prefix(glob@),
{
    proof {
        reveal_strlit("/**");
        reveal_strlit("/*");
    }
    let inner = text::replace(glob, "/**", "");
    text::replace(&inner, "/*", "")
}

fn render_operation_list(ops: &[Operation]) -> (r: String)
    ensures
        r@ == operation_list(ops@),
{
    let mut out = String::new();
    let mut i: usize = 0;
    assert(out@ =~= operation_list(ops@.take(0)));
    while i < ops.len()
        invariant
            i <= ops@.len(),
            out@ == operation_list(ops@.take(i as int)),
        decreases ops.len() - i,
    {
        let ghost before = out@;
        proof {
            let t = ops@.take(i + 1);
            assert(t.drop_last() =~= ops@.take(i as int));
            assert(t.last() == ops@[i as int]);
        }
        let quoted = String::from_str("\"").concat(ops[i].as_str()).concat("\"");
        if i > 0 {
            out.append(", ");
        }
        out.append(&quoted);
        assert(out@ =~= operation_list(ops@.take(i + 1)));
        i += 1;
    }
    assert(ops@.take(ops@.len() as int) =~= ops@);
    out
}

fn render_operations_check(ops: &[Operation]) -> (r: String)
    ensures
        r@ == operations_check(ops@),
{
    String::from_str("check if operation($op), [").concat(&render_operation_list(ops)).concat(
        "].contains($op);\n",
    )
}

fn render_prefix_check(prefix: &str) -> (r: String)
    ensures
        r@ == prefix_check(prefix@),
{
    String::from_str("check if resource($res), $res.starts_with(\"").concat(prefix).concat("\");\n")
}

/// Renders the block that confines a token to operations and a path prefix.
pub fn render_attenuation(ops: &[Operation], prefix: &str) -> (r: String)
    ensures
        r@ == attenuation_code(ops@, prefix@),
{
    render_operations_check(ops).concat(&render_prefix_check(prefix))
}

/// A constraint that can be added to a capability via a third-party block.
/// Each variant narrows the token and never widens it.
#[derive(Debug)]
pub enum Caveat {
    /// Restrict the subjects the bearer can act on, by path prefix.
    SubjectPrefix(String),
    /// Restrict the operations the bearer may perform to this set.
    OperationsAtMost(Vec<Operation>),
    /// After this instant the token must not authorize anything.
    ExpiresAt(Timestamp),
}

impl Caveat {
    /// The caveat's text is safe.
    pub open spec fn safe(self) -> bool {
        self matches Caveat::SubjectPrefix(p) ==> safe(p@)
    }

    /// The text that the caveat writes is quotable.
    pub open spec fn quotable(self) -> bool {
        self matches Caveat::SubjectPrefix(p) ==> quotable(glob_prefix(p@))
    }

    /// The check that the caveat adds.
    pub open spec fn line(self) -> Seq<char> {
        match self {
            Caveat::SubjectPrefix(p) => prefix_check(glob_prefix(p@)),
            Caveat::OperationsAtMost(ops) => operations_check(ops@),
            Caveat::ExpiresAt(t) => expiry_line(t.secs as int),
        }
    }

    /// The caveat lets the request pass.
    pub open spec fn admits(self, q: Request) -> bool {
        match self {
            Caveat::SubjectPrefix(p) => said(glob_prefix(p@)).is_prefix_of(said(q.subject)),
            Caveat::OperationsAtMost(ops) => ops@.contains(q.operation),
            Caveat::ExpiresAt(t) => q.now <= t.secs,
        }
    }
}

pub open spec fn caveat_lines(caveats: Seq<Caveat>) -> Seq<char>
    decreases caveats.len(),
{
    if caveats.len() == 0 {
        Seq::empty()
    } else {
        caveat_lines(caveats.drop_last()) + caveats.last().line()
    }
}

/// The block of a third party: who it is, and what it requires.
pub open spec fn caveat_code(authority: Seq<char>, caveats: Seq<Caveat>) -> Seq<char> {
    "attenuated_by(\""@ + authority + "\");\n"@ + caveat_lines(caveats)
}

/// Renders the block of a third party, given the hexadecimal text of its public
/// key. The first caveat whose text is not safe is refused.
pub fn render_caveat_block(authority: &str, caveats: &[Caveat]) -> (r: Result<String, CapError>)
    ensures
        match r {
            Ok(code) => code@ == caveat_code(authority@, caveats@) && forall|i: int|
                0 <= i < caveats@.len() ==> caveats@[i].safe(),
            Err(e) => e.denies(unsafe_message("subject_prefix"@)) && exists|i: int|
                0 <= i < caveats@.len() && !caveats@[i].safe(),
        },
{
    let mut code = String::from_str("attenuated_by(\"").concat(authority).concat("\");\n");
    let ghost head = code@;
    let mut i: usize = 0;
    assert(code@ =~= head + caveat_lines(caveats@.take(0)));
    while i < caveats.len()
        invariant
            i <= caveats@.len(),
            head == "attenuated_by(\""@ + authority@ + "\");\n"@,
            code@ == head + caveat_lines(caveats@.take(i as int)),
            forall|j: int| 0 <= j < i ==> caveats@[j].safe(),
        decreases caveats.len() - i,
    {
        let line: String = match &caveats[i] {
            Caveat::SubjectPrefix(prefix) => {
                match validate_datalog_safe(prefix, "subject_prefix") {
                    Ok(_) => {},
                    Err(e) => {
                        assert(!caveats@[i as int].safe());
                        return Err(e);
                    },
                }
                render_prefix_check(&prefix_of_glob(prefix))
            },
            Caveat::OperationsAtMost(ops) => render_operations_check(ops.as_slice()),
            Caveat::ExpiresAt(t) => String::from_str("check if time($time), $time <= ").concat(
                &text::signed_text(t.secs),
            ).concat(";\n"),
        };
        let ghost before = code@;
        code.append(&line);
        proof {
            let t = caveats@.take(i + 1);
            assert(t.drop_last() =~= caveats@.take(i as int));
            assert(t.last() == caveats@[i as int]);
            assert(code@ =~= head + caveat_lines(t));
        }
        i += 1;
    }
    assert(caveats@.take(caveats@.len() as int) =~= caveats@);
    Ok(code)
}

/// A text is taken into a token exactly where it holds no double quote, no closing bracket, no
/// semicolon and no line feed.
pub proof fn law_what_is_safe(input: &str, field: &str, r: Result<(), CapError>, i: int)
    requires
        call_ensures(validate_datalog_safe, (input, field), r),
    ensures
        r is Ok && 0 <= i < input@.len() ==> input@[i] != '"' && input@[i] != ')' && input@[i] != ';'
            && input@[i] != '\n',
        r is Err ==> input@.contains('"') || input@.contains(')') || input@.contains(';')
            || input@.contains('\n'),
        r matches Err(e) ==> e is Denied,
{
    if r is Ok && 0 <= i < input@.len() {
        assert(input@.contains(input@[i]));
    }
}

proof fn lemma_quotable_is_one_line(s: Seq<char>)
    requires
        quotable(s),
    ensures
        forall|i: int| 0 <= i < s.len() ==> #[trigger] s[i] != '\n',
    decreases s.len(),
{
    if s.len() > 0 {
        let n: int = if s[0] == '\\' {
            2
        } else {
            1
        };
        let t = s.skip(n);
        lemma_quotable_is_one_line(t);
        assert forall|i: int| 0 <= i < s.len() implies #[trigger] s[i] != '\n' by {
            if i >= n {
                assert(t[i - n] == s[i]);
            }
        }
    }
}

/// The text is one line, ended by a line feed.
spec fn is_line(s: Seq<char>) -> bool {
    &&& s.len() > 0
    &&& s.last() == '\n'
    &&& forall|i: int| 0 <= i < s.len() - 1 ==> #[trigger] s[i] != '\n'
}

proof fn lemma_name_is_one_line(op: Operation)
    ensures
        forall|i: int| 0 <= i < op.name().len() ==> #[trigger] op.name()[i] != '\n',
{
    reveal_strlit("read");
    reveal_strlit("write");
    reveal_strlit("subjects");
    reveal_strlit("search");
    reveal_strlit("admin");
    reveal_strlit("peer");
    reveal_strlit("subscribe");
}

proof fn lemma_list_is_one_line(ops: Seq<Operation>)
    ensures
        forall|i: int|
            0 <= i < operation_list(ops).len() ==> #[trigger] operation_list(ops)[i] != '\n',
    decreases ops.len(),
{
    reveal_strlit("\"");
    reveal_strlit(", ");
    if ops.len() > 0 {
        lemma_name_is_one_line(ops.last());
        lemma_list_is_one_line(ops.drop_last());
        let t = operation_list(ops);
        let init = operation_list(ops.drop_last());
        let n = ops.last().name();
        let q = "\""@ + n + "\""@;
        let k: int = t.len() - q.len();
        assert(ops.len() == 1 ==> ops[0] == ops.last());
        assert forall|i: int| 0 <= i < t.len() implies #[trigger] t[i] != '\n' by {
            if i >= k {
                assert(t[i] == q[i - k]);
                if 1 <= i - k <= n.len() {
                    assert(q[i - k] == n[i - k - 1]);
                }
            } else if i < init.len() {
                assert(t[i] == init[i]);
            }
        }
    }
}

proof fn lemma_caveat_is_a_line(c: Caveat)
    requires
        c.quotable(),
    ensures
        is_line(c.line()),
        c.line().len() > 9,
        c is SubjectPrefix ==> c.line()[9] == 'r',
        c is OperationsAtMost ==> c.line()[9] == 'o',
        c is ExpiresAt ==> c.line()[9] == 't',
{
    reveal_strlit("check if resource($res), $res.starts_with(\"");
    reveal_strlit("\");\n");
    reveal_strlit("check if operation($op), [");
    reveal_strlit("].contains($op);\n");
    reveal_strlit("check if time($time), $time <= ");
    reveal_strlit(";\n");
    let s = c.line();
    match c {
        Caveat::SubjectPrefix(p) => {
            lemma_quotable_is_one_line(glob_prefix(p@));
        },
        Caveat::OperationsAtMost(ops) => {
            lemma_list_is_one_line(ops@);
        },
        Caveat::ExpiresAt(t) => {
            let x: nat = (if t.secs < 0 { -t.secs } else { t.secs as int }) as nat;
            text::lemma_digits_read_back(x);
            assert(text::all_digits(text::digits(x)));
            let d = text::decimal(t.secs as int);
            assert forall|i: int| 0 <= i < d.len() implies #[trigger] d[i] != '\n' by {
                if t.secs < 0 {
                    if i > 0 {
                        assert(d[i] == text::digits(x)[i - 1]);
                    }
                } else {
                    assert(d[i] == text::digits(x)[i]);
                }
            }
        },
    }
}

/// Two caveats with the same check let the same requests pass.
proof fn lemma_checks_tell_caveats(c: Caveat, d: Caveat, q: Request)
    requires
        c.quotable(),
        d.quotable(),
        c.line() == d.line(),
    ensures
        c.admits(q) <==> d.admits(q),
{
    lemma_caveat_is_a_line(c);
    lemma_caveat_is_a_line(d);
    let s = c.line();
    match (c, d) {
        (Caveat::SubjectPrefix(x), Caveat::SubjectPrefix(y)) => {
            let h = "check if resource($res), $res.starts_with(\""@;
            let e = "\");\n"@;
            assert(glob_prefix(x@) =~= s.subrange(h.len() as int, s.len() - e.len()));
            assert(glob_prefix(y@) =~= s.subrange(h.len() as int, s.len() - e.len()));
        },
        (Caveat::OperationsAtMost(x), Caveat::OperationsAtMost(y)) => {
            let h = "check if operation($op), ["@;
            let e = "].contains($op);\n"@;
            assert(operation_list(x@) =~= s.subrange(h.len() as int, s.len() - e.len()));
            assert(operation_list(y@) =~= s.subrange(h.len() as int, s.len() - e.len()));
            lemma_list_is_told(x@, y@);
        },
        (Caveat::ExpiresAt(x), Caveat::ExpiresAt(y)) => {
            let h = "check if time($time), $time <= "@;
            let e = ";\n"@;
            assert(text::decimal(x.secs as int) =~= s.subrange(h.len() as int, s.len() - e.len()));
            assert(text::decimal(y.secs as int) =~= s.subrange(h.len() as int, s.len() - e.len()));
            text::lemma_decimals_differ(x.secs as int, y.secs as int);
        },
        _ => {},
    }
}

/// Where a text ends in a line is told by the text.
proof fn lemma_last_line(x: Seq<char>, l: Seq<char>, y: Seq<char>, m: Seq<char>)
    requires
        is_line(l),
        is_line(m),
        x.len() > 0 && x.last() == '\n',
        y.len() > 0 && y.last() == '\n',
        x + l == y + m,
    ensures
        x == y,
        l == m,
{
    let s = x + l;
    assert(s.len() == (y + m).len());
    assert(x.len() + l.len() == y.len() + m.len());
    if l.len() < m.len() {
        assert(s[x.len() - 1] == '\n');
        assert((y + m)[x.len() - 1] == m[x.len() - 1 - y.len()]);
    }
    if m.len() < l.len() {
        assert((y + m)[y.len() - 1] == '\n');
        assert(s[y.len() - 1] == l[y.len() - 1 - x.len()]);
    }
    assert(x =~= s.take(x.len() as int));
    assert(y =~= s.take(x.len() as int));
    assert(l =~= s.skip(x.len() as int));
    assert(m =~= s.skip(x.len() as int));
}

/// Two blocks of third parties with the same text let the same requests pass.
pub proof fn lemma_blocks_tell_caveats(
    a: Seq<char>,
    cs: Seq<Caveat>,
    b: Seq<char>,
    ds: Seq<Caveat>,
    q: Request,
    i: int,
)
    requires
        quotable(a),
        quotable(b),
        forall|k: int| 0 <= k < cs.len() ==> (#[trigger] cs[k]).quotable(),
        forall|k: int| 0 <= k < ds.len() ==> (#[trigger] ds[k]).quotable(),
        caveat_code(a, cs) == caveat_code(b, ds),
        forall|k: int| 0 <= k < cs.len() ==> (#[trigger] cs[k]).admits(q),
        0 <= i < ds.len(),
    ensures
        ds[i].admits(q),
    decreases cs.len(),
{
    reveal_strlit("attenuated_by(\"");
    reveal_strlit("\");\n");
    lemma_quotable_is_one_line(a);
    lemma_quotable_is_one_line(b);
    let none = Seq::<Caveat>::empty();
    let h = caveat_code(a, none);
    let k = caveat_code(b, none);
    assert(h =~= "attenuated_by(\""@ + a + "\");\n"@);
    assert(k =~= "attenuated_by(\""@ + b + "\");\n"@);
    assert(is_line(h) && is_line(k));
    let d = ds.last();
    let y = caveat_code(b, ds.drop_last());
    assert(ds[ds.len() - 1].quotable());
    lemma_caveat_is_a_line(d);
    assert(caveat_code(b, ds) =~= y + d.line());
    lemma_code_ends(b, ds.drop_last());
    if cs.len() == 0 {
        assert(cs =~= none);
        assert(h == y + d.line());
        assert(h[y.len() - 1] == '\n');
    } else {
        let c = cs.last();
        let x = caveat_code(a, cs.drop_last());
        assert(cs[cs.len() - 1].quotable() && cs[cs.len() - 1].admits(q));
        lemma_caveat_is_a_line(c);
        assert(caveat_code(a, cs) =~= x + c.line());
        lemma_code_ends(a, cs.drop_last());
        lemma_last_line(x, c.line(), y, d.line());
        lemma_checks_tell_caveats(c, d, q);
        if i < ds.len() - 1 {
            assert forall|k: int| 0 <= k < cs.drop_last().len() implies (
            #[trigger] cs.drop_last()[k]).quotable() && cs.drop_last()[k].admits(q) by {
                assert(cs[k].quotable() && cs[k].admits(q));
            }
            assert forall|k: int| 0 <= k < ds.drop_last().len() implies (
            #[trigger] ds.drop_last()[k]).quotable() by {
                assert(ds[k].quotable());
            }
            lemma_blocks_tell_caveats(a, cs.drop_last(), b, ds.drop_last(), q, i);
        }
    }
}

proof fn lemma_code_ends(a: Seq<char>, cs: Seq<Caveat>)
    requires
        quotable(a),
        forall|k: int| 0 <= k < cs.len() ==> (#[trigger] cs[k]).quotable(),
    ensures
        caveat_code(a, cs).len() > 0,
        caveat_code(a, cs).last() == '\n',
{
    reveal_strlit("attenuated_by(\"");
    reveal_strlit("\");\n");
    if cs.len() > 0 {
        assert(cs[cs.len() - 1].quotable());
        lemma_caveat_is_a_line(cs.last());
        assert(caveat_code(a, cs) =~= caveat_code(a, cs.drop_last()) + cs.last().line());
    } else {
        assert(caveat_code(a, cs) =~= "attenuated_by(\""@ + a + "\");\n"@);
    }
}

} // verus!
