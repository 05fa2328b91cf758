//! Configuration of the clients: the desktop one, the coding one and Codex.
//!
//! The first two hold JSON with an entry `mcpServers.ctxd` that tells them to start
//! `ctxd serve --mcp-stdio --cap-file <path> --db <path>`. Other entries stay as they
//! are, and a second write of the same entry changes nothing. Codex gets a snippet to
//! paste.

use crate::json;
use crate::json::Json;
use crate::onboard::caps;
use crate::onboard::caps::ClientId;
use crate::onboard::paths;
use crate::onboard::paths::Surroundings;
use crate::onboard::service;
use crate::outside;
use crate::path;
use crate::text;
use crate::textmap::TextMap;
use vstd::prelude::*;

verus! {

/// Name of the entry in `mcpServers`.
pub const MCP_ENTRY_NAME: &'static str = "ctxd";

/// What a write of a client's configuration did.
#[derive(Debug, Clone, Copy, PartialEq, Eq, Structural)]
pub enum ApplyAction {
    /// There was no file, or no object in it; it now holds the entry.
    Created,
    /// The entry was added.
    EntryAdded,
    /// The entry was changed.
    EntryUpdated,
    /// The entry was already there.
    Unchanged,
    /// The user has to paste a snippet.
    ManualPending,
}

/// What a client's configuration says of the daemon.
#[derive(Debug, Clone)]
pub struct ClientSpec {
    /// Absolute path of the `ctxd` binary.
    pub binary: String,
    /// Absolute path of the database.
    pub db_path: String,
    /// Write the hooks of the coding client.
    pub with_hooks: bool,
}

/// The arguments with which a client starts `ctxd`. The token stands in a file, never
/// among them.
pub open spec fn mcp_args(spec: ClientSpec, cap_file: Seq<char>) -> Seq<Seq<char>> {
    seq![
        "serve"@,
        "--mcp-stdio"@,
        "--cap-file"@,
        cap_file,
        "--db"@,
        spec.db_path@,
    ]
}

/// The arguments with which a client starts `ctxd`.
pub fn build_mcp_args(spec: &ClientSpec, cap_file: &str) -> (r: Vec<String>)
    ensures
        text::views(r@) == mcp_args(*spec, cap_file@),
{
    let mut v: Vec<String> = Vec::new();
    v.push(String::from_str("serve"));
    v.push(String::from_str("--mcp-stdio"));
    v.push(String::from_str("--cap-file"));
    v.push(String::from_str(cap_file));
    v.push(String::from_str("--db"));
    v.push(String::from_str(&spec.db_path));
    assert(text::views(v@) =~= mcp_args(*spec, cap_file@));
    v
}

/// The flags that take the next word as their value, among those with which clients and the
/// service start `ctxd serve`.
pub open spec fn takes_value(word: Seq<char>) -> bool {
    word == "--cap-file"@ || word == "--db"@ || word == "--bind"@ || word == "--wire-bind"@
}

/// The value of a flag on a command line that is read from left to right: a flag that takes
/// a value takes the word right behind it, whatever that word is.
pub open spec fn flag_value(words: Seq<Seq<char>>, flag: Seq<char>) -> Option<Seq<char>>
    decreases words.len(),
{
    if words.len() == 0 {
        None
    } else if !takes_value(words[0]) {
        flag_value(words.skip(1), flag)
    } else if words.len() == 1 {
        None
    } else if words[0] == flag {
        Some(words[1])
    } else {
        flag_value(words.skip(2), flag)
    }
}

/// The arguments of an entry hold the cap-file right behind `--cap-file` and the database
/// right behind `--db`, and `ctxd serve`, which reads them from left to right, reads those two
/// paths back.
pub proof fn law_mcp_args_read_back(spec: &ClientSpec, cap_file: &str, r: Vec<String>)
    requires
        call_ensures(build_mcp_args, (spec, cap_file), r),
    ensures
        r@.len() == 6,
        r@[0]@ == "serve"@,
        exists|i: int| 0 < i < 6 && (#[trigger] r@[i])@ == "--mcp-stdio"@,
        exists|i: int|
            0 < i < 5 && (#[trigger] r@[i])@ == "--cap-file"@ && r@[i + 1]@ == cap_file@,
        exists|i: int|
            0 < i < 5 && (#[trigger] r@[i])@ == "--db"@ && r@[i + 1]@ == spec.db_path@,
        flag_value(text::views(r@), "--cap-file"@) == Some(cap_file@),
        flag_value(text::views(r@), "--db"@) == Some(spec.db_path@),
{
    let words = text::views(r@);
    reveal_strlit("serve");
    reveal_strlit("--mcp-stdio");
    reveal_strlit("--cap-file");
    reveal_strlit("--db");
    assert(words.len() == 6);
    assert(words[0] == r@[0]@ && words[1] == r@[1]@ && words[2] == r@[2]@);
    assert(words[3] == r@[3]@ && words[4] == r@[4]@ && words[5] == r@[5]@);
    lemma_words_read_back(words, cap_file@, spec.db_path@);
}

proof fn lemma_words_read_back(words: Seq<Seq<char>>, cap_file: Seq<char>, db: Seq<char>)
    requires
        words == seq!["serve"@, "--mcp-stdio"@, "--cap-file"@, cap_file, "--db"@, db],
    ensures
        flag_value(words, "--cap-file"@) == Some(cap_file),
        flag_value(words, "--db"@) == Some(db),
{
    reveal_strlit("serve");
    reveal_strlit("--mcp-stdio");
    reveal_strlit("--cap-file");
    reveal_strlit("--db");
    reveal_strlit("--bind");
    reveal_strlit("--wire-bind");
    assert("serve"@.len() == 5 && "--mcp-stdio"@.len() == 11 && "--bind"@.len() == 6);
    assert("--mcp-stdio"@[2] == 'm' && "--wire-bind"@[2] == 'w');
    assert("--cap-file"@.len() == 10 && "--db"@.len() == 4);
    let tail = words.skip(1);
    let rest = tail.skip(1);
    assert(tail[0] == "--mcp-stdio"@);
    assert(rest == seq!["--cap-file"@, cap_file, "--db"@, db]);
    assert(rest.skip(2) == seq!["--db"@, db]);
    reveal_with_fuel(flag_value, 4);
    assert(flag_value(rest.skip(2), "--db"@) == Some(db));
}

/// The value is the entry of `ctxd`.
pub open spec fn is_mcp_entry(v: Json, spec: ClientSpec, cap_file: Seq<char>) -> bool {
    &&& v.has_members(set!["command"@, "args"@])
    &&& v.members()["command"@].is_text(spec.binary@)
    &&& v.members()["args"@].is_texts(mcp_args(spec, cap_file))
}

/// The entry of `ctxd` in `mcpServers`.
pub fn build_mcp_entry(spec: &ClientSpec, cap_file: &str) -> (r: Json)
    ensures
        is_mcp_entry(r, *spec, cap_file@),
{
    proof {
        reveal_strlit("command");
        reveal_strlit("args");
        assert("command"@.len() == 7 && "args"@.len() == 4);
    }
    let args = build_mcp_args(spec, cap_file);
    assert(args@.map_values(|x: String| x@) == text::views(args@));
    let mut m: TextMap<Json> = TextMap::new();
    m.insert("command", Json::text(&spec.binary));
    m.insert("args", Json::texts(args.as_slice()));
    assert(m@.dom() =~= set!["command"@, "args"@]);
    Json::Object(m)
}

/// Two entries for the same daemon and the same cap-file are equal.
pub proof fn law_entries_are_alike(a: Json, b: Json, spec: ClientSpec, cap_file: Seq<char>)
    requires
        is_mcp_entry(a, spec, cap_file),
        is_mcp_entry(b, spec, cap_file),
    ensures
        json::alike(a, b),
{
    let x = a.members();
    let y = b.members();
    reveal_with_fuel(json::alike, 3);
    assert(json::alike(x["command"@], y["command"@]));
    assert forall|i: int| 0 <= i < x["args"@].elements().len() implies json::alike(
        #[trigger] x["args"@].elements()[i],
        y["args"@].elements()[i],
    ) by {
        assert(x["args"@].elements()[i].is_text(mcp_args(spec, cap_file)[i]));
        assert(y["args"@].elements()[i].is_text(mcp_args(spec, cap_file)[i]));
    }
    assert(json::alike(x["args"@], y["args"@]));
    assert forall|k: Seq<char>| x.dom().contains(k) implies json::alike(#[trigger] x[k], y[k]) by {
        assert(k == "command"@ || k == "args"@);
    }
}

/// The servers of a configuration; none where it has no such object.
pub open spec fn servers(config: Json) -> Map<Seq<char>, Json> {
    if config.members().dom().contains("mcpServers"@) {
        config.members()["mcpServers"@].members()
    } else {
        Map::empty()
    }
}

/// What putting an entry into a configuration does.
pub open spec fn upserted(before: Json, entry: Json, after: Json, action: ApplyAction) -> bool {
    let known = servers(before);
    let name = MCP_ENTRY_NAME@;
    if before is Object && known.dom().contains(name) && json::alike(known[name], entry) {
        action == ApplyAction::Unchanged && after == before
    } else {
        &&& after is Object
        &&& after.members().remove("mcpServers"@) == before.members().remove("mcpServers"@)
        &&& after.members().dom().contains("mcpServers"@)
        &&& after.members()["mcpServers"@] is Object
        &&& servers(after) == known.insert(name, entry)
        &&& action == if !(before is Object) {
            ApplyAction::Created
        } else if known.dom().contains(name) {
            ApplyAction::EntryUpdated
        } else {
            ApplyAction::EntryAdded
        }
    }
}

/// Puts the entry of `ctxd` into a configuration. What is no object is replaced.
pub fn upsert_mcp_entry(config: Json, entry: Json) -> (r: (Json, ApplyAction))
    ensures
        upserted(config, entry, r.0, r.1),
{
    let ghost before = config;
    let ghost name = MCP_ENTRY_NAME@;
    let (is_object, known): (bool, bool) = match &config {
        Json::Object(m) => {
            match m.get("mcpServers") {
                Some(Json::Object(s)) => match s.get(MCP_ENTRY_NAME) {
                    Some(e) => {
                        if json::same(e, &entry) {
                            return (config, ApplyAction::Unchanged);
                        }
                        (true, true)
                    },
                    None => (true, false),
                },
                _ => (true, false),
            }
        },
        _ => (false, false),
    };
    let mut m: TextMap<Json> = match config {
        Json::Object(m) => m,
        _ => TextMap::new(),
    };
    assert(m@ =~= before.members());
    let mut s: TextMap<Json> = match m.remove("mcpServers") {
        Some(Json::Object(s)) => s,
        _ => TextMap::new(),
    };
    assert(s@ =~= servers(before));
    s.insert(MCP_ENTRY_NAME, entry);
    m.insert("mcpServers", Json::Object(s));
    let action = if !is_object {
        ApplyAction::Created
    } else if known {
        ApplyAction::EntryUpdated
    } else {
        ApplyAction::EntryAdded
    };
    let after = Json::Object(m);
    assert(after.members().remove("mcpServers"@) =~= before.members().remove("mcpServers"@));
    (after, action)
}

/// Putting an equal entry in a second time changes nothing.
pub proof fn law_upsert_is_idempotent(
    before: Json,
    entry: Json,
    after: Json,
    action: ApplyAction,
    again: Json,
    last: Json,
    second: ApplyAction,
)
    requires
        upserted(before, entry, after, action),
        json::alike(entry, again),
        upserted(after, again, last, second),
    ensures
        second == ApplyAction::Unchanged,
        last == after,
{
    if action == ApplyAction::Unchanged {
        json::lemma_alike_transitive(servers(before)[MCP_ENTRY_NAME@], entry, again);
    }
}

/// Every other server and every other setting of a configuration stays as it was.
pub proof fn law_upsert_keeps_the_rest(
    before: Json,
    entry: Json,
    after: Json,
    action: ApplyAction,
    name: Seq<char>,
)
    requires
        upserted(before, entry, after, action),
    ensures
        name != MCP_ENTRY_NAME@ ==> (servers(after).dom().contains(name) <==> servers(
            before,
        ).dom().contains(name)),
        name != MCP_ENTRY_NAME@ && servers(before).dom().contains(name) ==> servers(after)[name]
            == servers(before)[name],
        name != "mcpServers"@ ==> (after.members().dom().contains(name)
            <==> before.members().dom().contains(name)),
        name != "mcpServers"@ && before.members().dom().contains(name) ==> after.members()[name]
            == before.members()[name],
{
    if action != ApplyAction::Unchanged {
        let x = after.members();
        let y = before.members();
        if name != "mcpServers"@ {
            assert(x.remove("mcpServers"@).dom().contains(name) <==> x.dom().contains(name));
            assert(y.remove("mcpServers"@).dom().contains(name) <==> y.dom().contains(name));
            if y.dom().contains(name) {
                assert(x.remove("mcpServers"@)[name] == x[name]);
                assert(y.remove("mcpServers"@)[name] == y[name]);
            }
        }
    }
}

/// What to write for a client.
pub enum NewContents {
    /// Nothing: the file stays.
    Keep,
    /// This JSON.
    Config(Json),
    /// This text.
    Snippet(String),
}

/// The configuration that a file holds; an empty object where there is no file.
pub open spec fn config_or_empty(existing: Option<Json>, config: Json) -> bool {
    match existing {
        Some(v) => config == v,
        None => config.has_members(Set::empty()),
    }
}

fn read_config(existing: Option<Json>) -> (r: Json)
    ensures
        config_or_empty(existing, r),
{
    match existing {
        Some(v) => v,
        None => {
            let m: TextMap<Json> = TextMap::new();
            assert(m@.dom() =~= Set::empty());
            Json::Object(m)
        },
    }
}

/// What applying the entry to the configuration of the desktop client answers. The write is
/// reported as a creation where there was no file.
pub open spec fn desktop_applied(
    existing: Option<Json>,
    spec: ClientSpec,
    cap_file: Seq<char>,
    contents: NewContents,
    action: ApplyAction,
) -> bool {
    exists|before: Json, entry: Json, after: Json, inner: ApplyAction|
        {
            &&& config_or_empty(existing, before)
            &&& is_mcp_entry(entry, spec, cap_file)
            &&& #[trigger] upserted(before, entry, after, inner)
            &&& action == if existing is None && inner == ApplyAction::EntryAdded {
                ApplyAction::Created
            } else {
                inner
            }
            &&& contents == if action == ApplyAction::Unchanged {
                NewContents::Keep
            } else {
                NewContents::Config(after)
            }
        }
}

/// Applies the entry to the configuration of the desktop client. `existing` is what the file
/// reads as, an empty object where it is empty; `None` where there is none.
pub fn apply_mcp_entry(existing: Option<Json>, spec: &ClientSpec, cap_file: &str) -> (r: (
    NewContents,
    ApplyAction,
))
    ensures
        desktop_applied(existing, *spec, cap_file@, r.0, r.1),
{
    let missing = existing.is_none();
    let before = read_config(existing);
    let entry = build_mcp_entry(spec, cap_file);
    let ghost b = before;
    let ghost e = entry;
    let (after, inner) = upsert_mcp_entry(before, entry);
    assert(upserted(b, e, after, inner));
    let action = if missing && inner == ApplyAction::EntryAdded {
        ApplyAction::Created
    } else {
        inner
    };
    if action == ApplyAction::Unchanged {
        (NewContents::Keep, action)
    } else {
        (NewContents::Config(after), action)
    }
}

/// A configuration that was written and read back needs no second write.
pub proof fn law_second_apply_changes_nothing(
    existing: Option<Json>,
    spec: ClientSpec,
    cap_file: Seq<char>,
    written: Json,
    action: ApplyAction,
    read: Json,
    contents: NewContents,
    second: ApplyAction,
)
    requires
        desktop_applied(existing, spec, cap_file, NewContents::Config(written), action),
        json::alike(written, read),
        desktop_applied(Some(read), spec, cap_file, contents, second),
    ensures
        second == ApplyAction::Unchanged,
        contents == NewContents::Keep,
{
    let (b1, e1, a1, i1) = choose|before: Json, entry: Json, after: Json, inner: ApplyAction|
        {
            &&& config_or_empty(existing, before)
            &&& is_mcp_entry(entry, spec, cap_file)
            &&& #[trigger] upserted(before, entry, after, inner)
            &&& action == if existing is None && inner == ApplyAction::EntryAdded {
                ApplyAction::Created
            } else {
                inner
            }
            &&& NewContents::Config(written) == if action == ApplyAction::Unchanged {
                NewContents::Keep
            } else {
                NewContents::Config(after)
            }
        };
    assert(a1 == written);
    assert(servers(written)[MCP_ENTRY_NAME@] == e1);
    let w = written.members()["mcpServers"@];
    assert(written.members().dom().contains("mcpServers"@));
    assert(json::alike(w, read.members()["mcpServers"@]));
    assert(w.members().dom().contains(MCP_ENTRY_NAME@));
    let found = servers(read)[MCP_ENTRY_NAME@];
    assert(json::alike(w.members()[MCP_ENTRY_NAME@], found));
    json::lemma_alike_symmetric(e1, found);
    assert forall|entry: Json| is_mcp_entry(entry, spec, cap_file) implies #[trigger] json::alike(
        found,
        entry,
    ) by {
        law_entries_are_alike(e1, entry, spec, cap_file);
        json::lemma_alike_transitive(found, e1, entry);
    }
}

/// The answer tells whether the configuration holds the entry.
pub open spec fn holds_entry(
    existing: Option<&Json>,
    spec: ClientSpec,
    cap_file: Seq<char>,
    r: bool,
) -> bool {
    match existing {
        None => !r,
        Some(config) => exists|entry: Json| #[trigger]
            is_mcp_entry(entry, spec, cap_file) && r == (servers(*config).dom().contains(
                MCP_ENTRY_NAME@,
            ) && json::alike(servers(*config)[MCP_ENTRY_NAME@], entry)),
    }
}

/// Whether a configuration holds the entry.
pub fn verify_mcp_entry(existing: Option<&Json>, spec: &ClientSpec, cap_file: &str) -> (r: bool)
    ensures
        holds_entry(existing, *spec, cap_file@, r),
{
    match existing {
        None => false,
        Some(config) => {
            let entry = build_mcp_entry(spec, cap_file);
            assert(is_mcp_entry(entry, *spec, cap_file@));
            match config.get("mcpServers") {
                Some(s) => match s.get(MCP_ENTRY_NAME) {
                    Some(e) => json::same(e, &entry),
                    None => false,
                },
                None => false,
            }
        },
    }
}

/// The slug that `ctxd hook` takes for an event of the coding client.
pub open spec fn slug_of_event(event: Seq<char>) -> Seq<char> {
    if event == "SessionStart"@ {
        "session-start"@
    } else if event == "UserPromptSubmit"@ {
        "user-prompt-submit"@
    } else if event == "PreCompact"@ {
        "pre-compact"@
    } else if event == "Stop"@ {
        "stop"@
    } else {
        "unknown"@
    }
}

/// The slug that `ctxd hook` takes for an event of the coding client.
pub fn event_slug(event: &str) -> (r: &'static str)
    ensures
        r@ == slug_of_event(event@),
{
    if text::same(event, "SessionStart") {
        "session-start"
    } else if text::same(event, "UserPromptSubmit") {
        "user-prompt-submit"
    } else if text::same(event, "PreCompact") {
        "pre-compact"
    } else if text::same(event, "Stop") {
        "stop"
    } else {
        "unknown"
    }
}

/// The events of the coding client that get a hook.
pub open spec fn hooked_events() -> Set<Seq<char>> {
    set!["SessionStart"@, "UserPromptSubmit"@, "PreCompact"@, "Stop"@]
}

/// The command that a hook runs.
pub open spec fn hook_command(spec: ClientSpec, cap_file: Seq<char>, event: Seq<char>) -> Seq<char> {
    spec.binary@ + " hook --db "@ + outside::debug_text(spec.db_path@) + " --cap-file "@
        + outside::debug_text(cap_file) + " "@ + slug_of_event(event)
}

/// The value is the hook of an event: one matcher for everything, with one command.
pub open spec fn is_hook(v: Json, command: Seq<char>) -> bool {
    &&& v is Array
    &&& v.elements().len() == 1
    &&& v.elements()[0].has_members(set!["matcher"@, "hooks"@])
    &&& v.elements()[0].members()["matcher"@].is_text("*"@)
    &&& is_hook_list(v.elements()[0].members()["hooks"@], command)
}

/// The value is a list with this one command.
pub open spec fn is_hook_list(v: Json, command: Seq<char>) -> bool {
    &&& v is Array
    &&& v.elements().len() == 1
    &&& v.elements()[0].has_members(set!["type"@, "command"@])
    &&& v.elements()[0].members()["type"@].is_text("command"@)
    &&& v.elements()[0].members()["command"@].is_text(command)
}

fn hook_of(spec: &ClientSpec, cap_file: &str, event: &str) -> (r: Json)
    ensures
        is_hook(r, hook_command(*spec, cap_file@, event@)),
{
    proof {
        reveal_strlit("type");
        reveal_strlit("command");
        reveal_strlit("matcher");
        reveal_strlit("hooks");
        assert("type"@.len() == 4 && "command"@.len() == 7);
        assert("matcher"@.len() == 7 && "hooks"@.len() == 5);
    }
    let mut command = String::from_str(&spec.binary);
    command.append(" hook --db ");
    let db = outside::debug_quote(&spec.db_path);
    command.append(&db);
    command.append(" --cap-file ");
    let cap = outside::debug_quote(cap_file);
    command.append(&cap);
    command.append(" ");
    command.append(event_slug(event));
    let mut inner: TextMap<Json> = TextMap::new();
    inner.insert("type", Json::text("command"));
    inner.insert("command", Json::text(&command));
    assert(inner@.dom() =~= set!["type"@, "command"@]);
    let mut list: Vec<Json> = Vec::new();
    list.push(Json::Object(inner));
    let mut outer: TextMap<Json> = TextMap::new();
    outer.insert("matcher", Json::text("*"));
    outer.insert("hooks", Json::Array(list));
    assert(outer@.dom() =~= set!["matcher"@, "hooks"@]);
    let mut v: Vec<Json> = Vec::new();
    v.push(Json::Object(outer));
    Json::Array(v)
}

/// The hooks of a configuration; none where it has no such object.
pub open spec fn hooks(config: Json) -> Map<Seq<char>, Json> {
    if config.members().dom().contains("hooks"@) {
        config.members()["hooks"@].members()
    } else {
        Map::empty()
    }
}

/// What installing the hooks answers: each of the four events has its hook, and the rest
/// stays; or the refusal of a configuration, or a `hooks` member, that is no object.
pub open spec fn hooks_installed(
    before: Json,
    spec: ClientSpec,
    cap_file: Seq<char>,
    r: Result<Json, String>,
) -> bool {
    if !(before is Object) {
        r matches Err(e) && e@ == text::spaced(
            "claude_code settings root must be a JSON object"@,
        )
    } else if before.members().dom().contains("hooks"@) && !(before.members()["hooks"@] is Object) {
        r matches Err(e) && e@ == "hooks must be a JSON object"@
    } else {
        match r {
            Ok(after) => {
                &&& after is Object
                &&& after.members().remove("hooks"@) == before.members().remove("hooks"@)
                &&& after.members().dom().contains("hooks"@)
                &&& after.members()["hooks"@] is Object
                &&& hooks(after).remove_keys(hooked_events()) == hooks(before).remove_keys(
                    hooked_events(),
                )
                &&& forall|event: Seq<char>| #[trigger]
                    hooked_events().contains(event) ==> hooks(after).dom().contains(event)
                        && is_hook(hooks(after)[event], hook_command(spec, cap_file, event))
            },
            Err(_) => false,
        }
    }
}

/// Installs the hooks of the coding client.
pub fn install_claude_code_hooks(config: Json, spec: &ClientSpec, cap_file: &str) -> (r: Result<
    Json,
    String,
>)
    ensures
        hooks_installed(config, *spec, cap_file@, r),
{
    proof {
        reveal_strlit("SessionStart");
        reveal_strlit("UserPromptSubmit");
        reveal_strlit("PreCompact");
        reveal_strlit("Stop");
        assert("SessionStart"@.len() == 12 && "UserPromptSubmit"@.len() == 16);
        assert("PreCompact"@.len() == 10 && "Stop"@.len() == 4);
    }
    let ghost before = config;
    let mut m: TextMap<Json> = match config {
        Json::Object(m) => m,
        _ => {
            return Err(
                text::to_words("claude_code settings root must be a JSON object"),
            );
        },
    };
    let mut h: TextMap<Json> = match m.remove("hooks") {
        Some(Json::Object(h)) => h,
        Some(_) => {
            return Err(String::from_str("hooks must be a JSON object"));
        },
        None => TextMap::new(),
    };
    assert(h@ =~= hooks(before));
    let ghost h0 = h@;
    h.insert("SessionStart", hook_of(spec, cap_file, "SessionStart"));
    h.insert("UserPromptSubmit", hook_of(spec, cap_file, "UserPromptSubmit"));
    h.insert("PreCompact", hook_of(spec, cap_file, "PreCompact"));
    h.insert("Stop", hook_of(spec, cap_file, "Stop"));
    assert(h@.remove_keys(hooked_events()) =~= h0.remove_keys(hooked_events()));
    m.insert("hooks", Json::Object(h));
    let after = Json::Object(m);
    assert(after.members().remove("hooks"@) =~= before.members().remove("hooks"@));
    assert forall|event: Seq<char>| #[trigger] hooked_events().contains(event) implies hooks(
        after,
    ).dom().contains(event) && is_hook(
        hooks(after)[event],
        hook_command(*spec, cap_file@, event),
    ) by {
        assert(event == "SessionStart"@ || event == "UserPromptSubmit"@ || event == "PreCompact"@
            || event == "Stop"@);
    }
    Ok(after)
}

/// The configuration with its hooks installed, where that is asked for.
pub open spec fn hooked_where_asked(
    config: Json,
    spec: ClientSpec,
    cap_file: Seq<char>,
    r: Result<Json, String>,
) -> bool {
    if spec.with_hooks {
        hooks_installed(config, spec, cap_file, r)
    } else {
        r == Ok::<Json, String>(config)
    }
}

/// Every event of the coding client that gets a hook has it.
pub open spec fn has_hooks(config: Json, spec: ClientSpec, cap_file: Seq<char>) -> bool {
    forall|event: Seq<char>| #[trigger]
        hooked_events().contains(event) ==> hooks(config).dom().contains(event) && is_hook(
            hooks(config)[event],
            hook_command(spec, cap_file, event),
        )
}

/// What equals a hook is one, and hooks with the same command are equal.
proof fn lemma_hooks_are_alike(a: Json, b: Json, command: Seq<char>)
    requires
        is_hook(b, command),
    ensures
        is_hook(a, command) <==> json::alike(a, b),
{
    reveal_with_fuel(json::alike, 6);
    let y = b.elements()[0].members();
    let z = y["hooks"@].elements()[0].members();
    assert(y.dom() == set!["matcher"@, "hooks"@]);
    assert(z.dom() == set!["type"@, "command"@]);
    if is_hook(a, command) {
        let x = a.elements()[0].members();
        let w = x["hooks"@].elements()[0].members();
        assert(json::alike(w["type"@], z["type"@]));
        assert(json::alike(w["command"@], z["command"@]));
        assert(w.dom() == z.dom());
        assert(json::alike(x["hooks"@].elements()[0], y["hooks"@].elements()[0]));
        assert(json::alike(x["hooks"@], y["hooks"@]));
        assert(json::alike(x["matcher"@], y["matcher"@]));
        assert(x.dom() == y.dom());
        assert(json::alike(a.elements()[0], b.elements()[0]));
    }
    if json::alike(a, b) {
        assert(json::alike(a.elements()[0], b.elements()[0]));
        let x = a.elements()[0].members();
        assert(x.dom() == y.dom());
        assert(x.dom().contains("matcher"@) && x.dom().contains("hooks"@));
        assert(json::alike(x["matcher"@], y["matcher"@]));
        assert(json::alike(x["hooks"@], y["hooks"@]));
        assert(json::alike(x["hooks"@].elements()[0], y["hooks"@].elements()[0]));
        let w = x["hooks"@].elements()[0].members();
        assert(w.dom() == z.dom());
        assert(w.dom().contains("type"@) && w.dom().contains("command"@));
        assert(json::alike(w["type"@], z["type"@]));
        assert(json::alike(w["command"@], z["command"@]));
    }
}

fn has_hook(config: &Json, spec: &ClientSpec, cap_file: &str, event: &str) -> (r: bool)
    ensures
        r == (hooks(*config).dom().contains(event@) && is_hook(
            hooks(*config)[event@],
            hook_command(*spec, cap_file@, event@),
        )),
{
    match config.get("hooks") {
        Some(h) => match h.get(event) {
            Some(v) => {
                let hook = hook_of(spec, cap_file, event);
                proof {
                    lemma_hooks_are_alike(*v, hook, hook_command(*spec, cap_file@, event@));
                }
                json::same(v, &hook)
            },
            None => false,
        },
        None => false,
    }
}

fn has_all_hooks(config: &Json, spec: &ClientSpec, cap_file: &str) -> (r: bool)
    ensures
        r == has_hooks(*config, *spec, cap_file@),
{
    let r = has_hook(config, spec, cap_file, "SessionStart") && has_hook(
        config,
        spec,
        cap_file,
        "UserPromptSubmit",
    ) && has_hook(config, spec, cap_file, "PreCompact") && has_hook(config, spec, cap_file, "Stop");
    proof {
        assert(hooked_events().contains("SessionStart"@));
        assert(hooked_events().contains("UserPromptSubmit"@));
        assert(hooked_events().contains("PreCompact"@));
        assert(hooked_events().contains("Stop"@));
        assert forall|event: Seq<char>| #[trigger]
            hooked_events().contains(event) implies event == "SessionStart"@ || event
            == "UserPromptSubmit"@ || event == "PreCompact"@ || event == "Stop"@ by {}
    }
    r
}

/// What applying the entry to the configuration of the coding client answers. The write is
/// reported as a creation where there was no file, and as an update where only the hooks
/// are new. Nothing is written where the entry, and the hooks that are asked for, are there.
pub open spec fn code_applied(
    existing: Option<Json>,
    spec: ClientSpec,
    cap_file: Seq<char>,
    r: Result<(NewContents, ApplyAction), String>,
) -> bool {
    exists|before: Json, entry: Json, after: Json, inner: ApplyAction, hooked: Result<Json, String>|
        {
            &&& config_or_empty(existing, before)
            &&& is_mcp_entry(entry, spec, cap_file)
            &&& #[trigger] upserted(before, entry, after, inner)
            &&& #[trigger] hooked_where_asked(after, spec, cap_file, hooked)
            &&& match (hooked, r) {
                (Err(e), Err(f)) => e == f,
                (Ok(config), Ok((contents, action))) => {
                    let done = inner == ApplyAction::Unchanged && (spec.with_hooks ==> has_hooks(
                        after,
                        spec,
                        cap_file,
                    ));
                    &&& action == if existing is None && inner == ApplyAction::EntryAdded {
                        ApplyAction::Created
                    } else if inner == ApplyAction::Unchanged && !done {
                        ApplyAction::EntryUpdated
                    } else {
                        inner
                    }
                    &&& contents == if done {
                        NewContents::Keep
                    } else {
                        NewContents::Config(config)
                    }
                },
                _ => false,
            }
        }
}

/// Applies the entry, and the hooks where asked, to the configuration of the coding client.
pub fn apply_claude_code(existing: Option<Json>, spec: &ClientSpec, cap_file: &str) -> (r: Result<
    (NewContents, ApplyAction),
    String,
>)
    ensures
        code_applied(existing, *spec, cap_file@, r),
{
    let fresh = existing.is_none();
    let before = read_config(existing);
    let entry = build_mcp_entry(spec, cap_file);
    let ghost b = before;
    let ghost e = entry;
    let (after, inner) = upsert_mcp_entry(before, entry);
    let ghost a = after;
    assert(upserted(b, e, a, inner));
    let done = inner == ApplyAction::Unchanged && (!spec.with_hooks || has_all_hooks(
        &after,
        spec,
        cap_file,
    ));
    let hooked: Result<Json, String> = if spec.with_hooks {
        install_claude_code_hooks(after, spec, cap_file)
    } else {
        Ok(after)
    };
    let ghost h = hooked;
    assert(hooked_where_asked(a, *spec, cap_file@, h));
    match hooked {
        Ok(config) => {
            assert(h == Ok::<Json, String>(config));
            if done {
                Ok((NewContents::Keep, inner))
            } else {
                let action = if fresh && inner == ApplyAction::EntryAdded {
                    ApplyAction::Created
                } else if inner == ApplyAction::Unchanged {
                    ApplyAction::EntryUpdated
                } else {
                    inner
                };
                Ok((NewContents::Config(config), action))
            }
        },
        Err(e) => Err(e),
    }
}

/// The configuration of the coding client after what was applied.
pub open spec fn left_behind(existing: Option<Json>, contents: NewContents) -> Option<Json> {
    match contents {
        NewContents::Config(config) => Some(config),
        _ => existing,
    }
}

/// Where hooks are asked for, the configuration of the coding client holds them afterwards,
/// whether or not its entry was there already.
pub proof fn law_hooks_are_there_afterwards(
    existing: Option<Json>,
    spec: ClientSpec,
    cap_file: Seq<char>,
    contents: NewContents,
    action: ApplyAction,
)
    requires
        spec.with_hooks,
        code_applied(existing, spec, cap_file, Ok((contents, action))),
    ensures
        left_behind(existing, contents) matches Some(config) && has_hooks(config, spec, cap_file),
{
}

/// The snippet for `~/.codex/config.toml`.
pub open spec fn codex_snippet(spec: ClientSpec, cap_file: Seq<char>) -> Seq<char> {
    "# Paste this block into ~/.codex/config.toml under [mcp_servers.ctxd]:\n[mcp_servers.ctxd]\ncommand = \""@
        + spec.binary@ + "\"\nargs = [\n  \"serve\",\n  \"--mcp-stdio\",\n  \"--cap-file\", \""@
        + cap_file + "\",\n  \"--db\", \""@ + spec.db_path@ + "\"\n]\n"@
}

/// Writes the snippet for `~/.codex/config.toml`.
pub fn render_codex_snippet(spec: &ClientSpec, cap_file: &str) -> (r: String)
    ensures
        r@ == codex_snippet(*spec, cap_file@),
{
    let mut s = String::from_str(
        "# Paste this block into ~/.codex/config.toml under [mcp_servers.ctxd]:\n[mcp_servers.ctxd]\ncommand = \"",
    );
    s.append(&spec.binary);
    s.append("\"\nargs = [\n  \"serve\",\n  \"--mcp-stdio\",\n  \"--cap-file\", \"");
    s.append(cap_file);
    s.append("\",\n  \"--db\", \"");
    s.append(&spec.db_path);
    s.append("\"\n]\n");
    s
}

/// Where a client's configuration lies, or what is written for it.
pub open spec fn place_for(client: ClientId, s: Surroundings) -> Result<Seq<char>, Seq<char>> {
    match client {
        ClientId::ClaudeDesktop => paths::desktop_place(s),
        ClientId::ClaudeCode => paths::code_place(s),
        _ => paths::below(paths::config_place(s), "codex.snippet.toml"@),
    }
}

/// What applying the daemon's entry for a client answers. For Codex a snippet is written
/// that the user has to paste.
pub open spec fn client_applied(
    client: ClientId,
    existing: Option<Json>,
    spec: ClientSpec,
    cap_file: Seq<char>,
    r: Result<(NewContents, ApplyAction), String>,
) -> bool {
    match client {
        ClientId::ClaudeDesktop => r matches Ok((contents, action)) && desktop_applied(
            existing,
            spec,
            cap_file,
            contents,
            action,
        ),
        ClientId::ClaudeCode => code_applied(existing, spec, cap_file, r),
        _ => r matches Ok((NewContents::Snippet(s), ApplyAction::ManualPending)) && s@
            == codex_snippet(spec, cap_file),
    }
}

/// What a check of a client's configuration answers: the entry is there; of Codex, that the
/// snippet is.
pub open spec fn client_verified(
    client: ClientId,
    existing: Option<&Json>,
    spec: ClientSpec,
    cap_file: Seq<char>,
    r: bool,
) -> bool {
    if client == ClientId::Codex {
        r == existing is Some
    } else {
        holds_entry(existing, spec, cap_file, r)
    }
}

/// The interface of the clients that onboarding configures.
pub trait ClientWriter {
    /// The client.
    spec fn target(&self) -> ClientId;

    /// Whether the client appears to be installed, given whether the directory of its
    /// configuration exists. Codex shows no sign, and counts as not installed.
    fn detect(&self, directory_exists: bool) -> (r: bool)
        ensures
            r == (directory_exists && self.target() != ClientId::Codex),
    ;

    /// Where the file lies that is written.
    fn config_path(&self, places: &Surroundings) -> (r: Result<String, String>)
        ensures
            paths::tells(r, place_for(self.target(), *places)),
    ;

    /// The client.
    fn client_id(&self) -> (r: ClientId)
        ensures
            r == self.target(),
    ;

    /// What to write, and what that does. `existing` is what the file reads as, an empty
    /// object where it is empty; `None` where there is none.
    fn apply(&self, existing: Option<Json>, spec: &ClientSpec, cap_file: &str) -> (r: Result<
        (NewContents, ApplyAction),
        String,
    >)
        ensures
            client_applied(self.target(), existing, *spec, cap_file@, r),
    ;

    /// Whether the file holds what was applied.
    fn verify(&self, existing: Option<&Json>, spec: &ClientSpec, cap_file: &str) -> (r: bool)
        ensures
            client_verified(self.target(), existing, *spec, cap_file@, r),
    ;
}

/// Writer of the desktop client's configuration.
pub struct ClaudeDesktop;

impl ClientWriter for ClaudeDesktop {
    open spec fn target(&self) -> ClientId {
        ClientId::ClaudeDesktop
    }

    fn detect(&self, directory_exists: bool) -> (r: bool) {
        directory_exists
    }

    fn config_path(&self, places: &Surroundings) -> (r: Result<String, String>) {
        places.claude_desktop_config()
    }

    fn client_id(&self) -> (r: ClientId) {
        ClientId::ClaudeDesktop
    }

    fn apply(&self, existing: Option<Json>, spec: &ClientSpec, cap_file: &str) -> (r: Result<
        (NewContents, ApplyAction),
        String,
    >) {
        Ok(apply_mcp_entry(existing, spec, cap_file))
    }

    fn verify(&self, existing: Option<&Json>, spec: &ClientSpec, cap_file: &str) -> (r: bool) {
        verify_mcp_entry(existing, spec, cap_file)
    }
}

/// Writer of the coding client's settings, and of its hooks.
pub struct ClaudeCode;

impl ClientWriter for ClaudeCode {
    open spec fn target(&self) -> ClientId {
        ClientId::ClaudeCode
    }

    fn detect(&self, directory_exists: bool) -> (r: bool) {
        directory_exists
    }

    fn config_path(&self, places: &Surroundings) -> (r: Result<String, String>) {
        places.claude_code_config()
    }

    fn client_id(&self) -> (r: ClientId) {
        ClientId::ClaudeCode
    }

    fn apply(&self, existing: Option<Json>, spec: &ClientSpec, cap_file: &str) -> (r: Result<
        (NewContents, ApplyAction),
        String,
    >) {
        apply_claude_code(existing, spec, cap_file)
    }

    fn verify(&self, existing: Option<&Json>, spec: &ClientSpec, cap_file: &str) -> (r: bool) {
        verify_mcp_entry(existing, spec, cap_file)
    }
}

/// Writer of the snippet for Codex.
pub struct Codex;

impl ClientWriter for Codex {
    open spec fn target(&self) -> ClientId {
        ClientId::Codex
    }

    fn detect(&self, _directory_exists: bool) -> (r: bool) {
        false
    }

    fn config_path(&self, places: &Surroundings) -> (r: Result<String, String>) {
        places.codex_snippet_path()
    }

    fn client_id(&self) -> (r: ClientId) {
        ClientId::Codex
    }

    fn apply(&self, _existing: Option<Json>, spec: &ClientSpec, cap_file: &str) -> (r: Result<
        (NewContents, ApplyAction),
        String,
    >) {
        Ok((NewContents::Snippet(render_codex_snippet(spec, cap_file)), ApplyAction::ManualPending))
    }

    fn verify(&self, existing: Option<&Json>, _spec: &ClientSpec, _cap_file: &str) -> (r: bool) {
        existing.is_some()
    }
}

/// The clients that onboarding configures, in order.
pub open spec fn clients_in_order() -> Seq<ClientId> {
    seq![ClientId::ClaudeDesktop, ClientId::ClaudeCode, ClientId::Codex]
}

/// The clients that onboarding configures, in order.
pub fn configured_clients() -> (r: Vec<ClientId>)
    ensures
        r@ == clients_in_order(),
{
    let mut v: Vec<ClientId> = Vec::new();
    v.push(ClientId::ClaudeDesktop);
    v.push(ClientId::ClaudeCode);
    v.push(ClientId::Codex);
    v
}

/// What configuring a client answers: the error of reading its file, where that failed; else
/// what applying the entry answers.
pub open spec fn client_configured(
    client: ClientId,
    existing: Result<Option<Json>, String>,
    spec: ClientSpec,
    cap_file: Seq<char>,
    r: Result<(NewContents, ApplyAction), String>,
) -> bool {
    match existing {
        Ok(v) => client_applied(client, v, spec, cap_file, r),
        Err(e) => r == Err::<(NewContents, ApplyAction), String>(e),
    }
}

fn configure<W: ClientWriter>(
    writer: &W,
    existing: Result<Option<Json>, String>,
    spec: &ClientSpec,
    caps_dir: &str,
) -> (r: (ClientId, Result<(NewContents, ApplyAction), String>))
    ensures
        r.0 == writer.target(),
        client_configured(
            r.0,
            existing,
            *spec,
            caps::cap_file_of(caps_dir@, r.0),
            r.1,
        ),
{
    let client = writer.client_id();
    let cap_file = caps::cap_file_path(caps_dir, client);
    match existing {
        Ok(v) => (client, writer.apply(v, spec, &cap_file)),
        Err(e) => (client, Err(e)),
    }
}

/// Applies the daemon's entry for every client, in order, given what the two configuration
/// files read as. One that fails does not keep the others from being configured.
pub fn apply_all(
    spec: &ClientSpec,
    caps_dir: &str,
    desktop: Result<Option<Json>, String>,
    code: Result<Option<Json>, String>,
) -> (r: Vec<(ClientId, Result<(NewContents, ApplyAction), String>)>)
    ensures
        r@.len() == 3,
        forall|i: int| 0 <= i < 3 ==> (#[trigger] r@[i]).0 == clients_in_order()[i],
        forall|i: int|
            0 <= i < 3 ==> client_configured(
                (#[trigger] r@[i]).0,
                if i == 0 {
                    desktop
                } else if i == 1 {
                    code
                } else {
                    Ok(None)
                },
                *spec,
                caps::cap_file_of(caps_dir@, r@[i].0),
                r@[i].1,
            ),
{
    let mut v: Vec<(ClientId, Result<(NewContents, ApplyAction), String>)> = Vec::new();
    v.push(configure(&ClaudeDesktop, desktop, spec, caps_dir));
    v.push(configure(&ClaudeCode, code, spec, caps_dir));
    v.push(configure(&Codex, Ok(None), spec, caps_dir));
    v
}

/// Where a configuration is written before it takes its place under its own name.
pub fn config_temp_path(file: &str, pid: u32) -> (r: String)
    ensures
        r@ == path::joined(
            path::parent_of(file@),
            ".ctxd-client-"@ + text::digits(pid as nat) + ".tmp"@,
        ),
{
    let dir = path::parent(file);
    let mut name = String::from_str(".ctxd-client-");
    let digits = text::unsigned_text(pid as u64);
    name.append(&digits);
    name.append(".tmp");
    path::join(&dir, &name)
}

/// The value starts this daemon: its command is the binary, and the words behind it begin with
/// `serve`, ask for stdio, and give, as they are read from left to right, this cap-file and
/// this database.
pub open spec fn starts_daemon(v: Json, spec: ClientSpec, cap_file: Seq<char>) -> bool {
    &&& v.members()["command"@].is_text(spec.binary@)
    &&& exists|words: Seq<Seq<char>>|
        #![trigger v.members()["args"@].is_texts(words)]
        v.members()["args"@].is_texts(words) && words.len() > 0 && words[0] == "serve"@
            && words.contains("--mcp-stdio"@) && flag_value(words, "--cap-file"@) == Some(cap_file)
            && flag_value(words, "--db"@) == Some(spec.db_path@)
}

proof fn lemma_entry_starts(v: Json, entry: Json, spec: ClientSpec, cap_file: Seq<char>)
    requires
        is_mcp_entry(entry, spec, cap_file),
        json::alike(v, entry),
    ensures
        starts_daemon(v, spec, cap_file),
{
    let words = mcp_args(spec, cap_file);
    lemma_words_read_back(words, cap_file, spec.db_path@);
    reveal_with_fuel(json::alike, 4);
    let x = v.members();
    let y = entry.members();
    assert(x.dom() == y.dom());
    assert(x.dom().contains("command"@) && x.dom().contains("args"@));
    assert(json::alike(x["command"@], y["command"@]));
    assert(json::alike(x["args"@], y["args"@]));
    let a = x["args"@];
    let b = y["args"@];
    assert forall|i: int| 0 <= i < words.len() implies (#[trigger] a.elements()[i]).is_text(
        words[i],
    ) by {
        assert(json::alike(a.elements()[i], b.elements()[i]));
        assert(b.elements()[i].is_text(words[i]));
    }
    assert(a.is_texts(words));
    assert(words[0] == "serve"@ && words[1] == "--mcp-stdio"@);
}

/// After the entry was applied, whatever the configuration held before, it has an entry that
/// starts this daemon; every other server and setting is as it was; and the check finds the
/// entry. The file stays exactly where nothing changes.
pub proof fn law_an_applied_entry_starts_the_daemon(
    existing: Option<Json>,
    spec: &ClientSpec,
    cap_file: &str,
    r: (NewContents, ApplyAction),
    read: &Json,
    found: bool,
    name: Seq<char>,
)
    requires
        call_ensures(apply_mcp_entry, (existing, spec, cap_file), r),
        left_behind(existing, r.0) == Some(*read),
        call_ensures(verify_mcp_entry, (Some(read), spec, cap_file), found),
    ensures
        servers(*read).dom().contains("ctxd"@),
        starts_daemon(servers(*read)["ctxd"@], *spec, cap_file@),
        found,
        r.1 is Unchanged <==> r.0 is Keep,
        existing matches Some(before) ==> (name != "ctxd"@ && servers(before).dom().contains(name)
            ==> servers(*read).dom().contains(name) && servers(*read)[name]
            == servers(before)[name]),
        existing matches Some(before) ==> (name != "mcpServers"@
            && before.members().dom().contains(name) ==> read.members().dom().contains(name)
            && read.members()[name] == before.members()[name]),
{
    let (before, entry, after, inner) = choose|
        before: Json,
        entry: Json,
        after: Json,
        inner: ApplyAction,
    |
        {
            &&& config_or_empty(existing, before)
            &&& is_mcp_entry(entry, *spec, cap_file@)
            &&& #[trigger] upserted(before, entry, after, inner)
            &&& r.1 == if existing is None && inner == ApplyAction::EntryAdded {
                ApplyAction::Created
            } else {
                inner
            }
            &&& r.0 == if r.1 == ApplyAction::Unchanged {
                NewContents::Keep
            } else {
                NewContents::Config(after)
            }
        };
    law_upsert_keeps_the_rest(before, entry, after, inner, name);
    json::lemma_alike_reflexive(entry);
    let held = servers(*read)["ctxd"@];
    assert(json::alike(held, entry));
    lemma_entry_starts(held, entry, *spec, cap_file@);
    let other = choose|other: Json| #[trigger]
        is_mcp_entry(other, *spec, cap_file@) && found == (servers(*read).dom().contains(
            MCP_ENTRY_NAME@,
        ) && json::alike(servers(*read)[MCP_ENTRY_NAME@], other));
    law_entries_are_alike(entry, other, *spec, cap_file@);
    json::lemma_alike_transitive(held, entry, other);
}

/// A configuration is found right only where it has an entry that starts this daemon.
pub proof fn law_what_is_found_starts_the_daemon(
    existing: Option<&Json>,
    spec: &ClientSpec,
    cap_file: &str,
    found: bool,
)
    requires
        call_ensures(verify_mcp_entry, (existing, spec, cap_file), found),
        found,
    ensures
        existing matches Some(config) && servers(*config).dom().contains("ctxd"@)
            && starts_daemon(servers(*config)["ctxd"@], *spec, cap_file@),
{
    let config = existing->0;
    let entry = choose|entry: Json| #[trigger]
        is_mcp_entry(entry, *spec, cap_file@) && found == (servers(*config).dom().contains(
            MCP_ENTRY_NAME@,
        ) && json::alike(servers(*config)[MCP_ENTRY_NAME@], entry));
    lemma_entry_starts(servers(*config)["ctxd"@], entry, *spec, cap_file@);
}

/// The configuration of the coding client has, once it was applied, an entry that starts this
/// daemon, whether or not hooks are asked for; without hooks asked for, its other settings stay.
pub proof fn law_the_coding_client_starts_the_daemon(
    existing: Option<Json>,
    spec: &ClientSpec,
    cap_file: &str,
    contents: NewContents,
    action: ApplyAction,
    name: Seq<char>,
)
    requires
        call_ensures(apply_claude_code, (existing, spec, cap_file), Ok((contents, action))),
    ensures
        left_behind(existing, contents) matches Some(config) && servers(config).dom().contains(
            "ctxd"@,
        ) && starts_daemon(servers(config)["ctxd"@], *spec, cap_file@),
        existing matches Some(before) ==> (left_behind(existing, contents) matches Some(config) && (
        name != "mcpServers"@ && name != "hooks"@ && before.members().dom().contains(name)
            ==> config.members().dom().contains(name) && config.members()[name]
            == before.members()[name])),
        action is Unchanged <==> contents is Keep,
{
    reveal_strlit("mcpServers");
    reveal_strlit("hooks");
    assert("mcpServers"@.len() == 10 && "hooks"@.len() == 5);
    let r = Ok::<(NewContents, ApplyAction), String>((contents, action));
    let (before, entry, after, inner, hooked) = choose|
        before: Json,
        entry: Json,
        after: Json,
        inner: ApplyAction,
        hooked: Result<Json, String>,
    |
        {
            &&& config_or_empty(existing, before)
            &&& is_mcp_entry(entry, *spec, cap_file@)
            &&& #[trigger] upserted(before, entry, after, inner)
            &&& #[trigger] hooked_where_asked(after, *spec, cap_file@, hooked)
            &&& match (hooked, r) {
                (Err(e), Err(f)) => e == f,
                (Ok(config), Ok((contents, action))) => {
                    let done = inner == ApplyAction::Unchanged && (spec.with_hooks ==> has_hooks(
                        after,
                        *spec,
                        cap_file@,
                    ));
                    &&& action == if existing is None && inner == ApplyAction::EntryAdded {
                        ApplyAction::Created
                    } else if inner == ApplyAction::Unchanged && !done {
                        ApplyAction::EntryUpdated
                    } else {
                        inner
                    }
                    &&& contents == if done {
                        NewContents::Keep
                    } else {
                        NewContents::Config(config)
                    }
                },
                _ => false,
            }
        };
    law_upsert_keeps_the_rest(before, entry, after, inner, name);
    json::lemma_alike_reflexive(entry);
    let held = servers(after)["ctxd"@];
    assert(json::alike(held, entry));
    lemma_entry_starts(held, entry, *spec, cap_file@);
    if let Ok(config) = hooked {
        if spec.with_hooks {
            assert(after.members().dom().contains("mcpServers"@));
            let rest = after.members().remove("hooks"@);
            assert(rest.dom().contains("mcpServers"@));
            assert(config.members().remove("hooks"@)["mcpServers"@] == rest["mcpServers"@]);
            assert(config.members().remove("hooks"@).dom() == rest.dom());
            assert(servers(config) == servers(after));
            if name != "hooks"@ && after.members().dom().contains(name) {
                assert(rest.dom().contains(name));
                assert(config.members().remove("hooks"@)[name] == rest[name]);
            }
        }
    }
}

/// A hook that is installed tells the daemon the event that it is the hook of: its command is
/// the binary with `hook`, the database behind `--db`, the cap-file behind `--cap-file`, and the
/// slug of the event at its end. Two events have two slugs.
pub proof fn law_hooks_tell_their_event(
    config: Json,
    spec: &ClientSpec,
    cap_file: &str,
    after: Json,
    event: &str,
    slug: &'static str,
    other: &str,
    other_slug: &'static str,
)
    requires
        call_ensures(install_claude_code_hooks, (config, spec, cap_file), Ok(after)),
        call_ensures(event_slug, (event,), slug),
        call_ensures(event_slug, (other,), other_slug),
        event@ == "SessionStart"@ || event@ == "UserPromptSubmit"@ || event@ == "PreCompact"@
            || event@ == "Stop"@,
    ensures
        ({
            let v = hooks(after)[event@].elements()[0].members()["hooks"@].elements()[0].members()["command"@];
            &&& v is Text
            &&& (spec.binary@ + " hook "@).is_prefix_of(v->Text_0@)
            &&& service::mentions(v->Text_0@, " --db "@ + outside::debug_text(spec.db_path@))
            &&& service::mentions(v->Text_0@, " --cap-file "@ + outside::debug_text(cap_file@))
            &&& (" "@ + slug@).is_suffix_of(v->Text_0@)
        }),
        slug@ == other_slug@ ==> event@ == other@,
{
    reveal_strlit("SessionStart");
    reveal_strlit("UserPromptSubmit");
    reveal_strlit("PreCompact");
    reveal_strlit("Stop");
    reveal_strlit("session-start");
    reveal_strlit("user-prompt-submit");
    reveal_strlit("pre-compact");
    reveal_strlit("stop");
    reveal_strlit("unknown");
    assert("session-start"@.len() == 13 && "user-prompt-submit"@.len() == 18);
    assert("pre-compact"@.len() == 11 && "stop"@.len() == 4 && "unknown"@.len() == 7);
    reveal_strlit(" hook --db ");
    reveal_strlit(" hook ");
    reveal_strlit(" --db ");
    assert(hooked_events().contains(event@));
    let v = hooks(after)[event@].elements()[0].members()["hooks"@].elements()[0].members()["command"@];
    let c = hook_command(*spec, cap_file@, event@);
    assert(v.is_text(c));
    let db = outside::debug_text(spec.db_path@);
    let cap = outside::debug_text(cap_file@);
    let a = spec.binary@ + " hook "@;
    assert(c.take(a.len() as int) =~= a);
    let b = " --db "@ + db;
    let at: int = spec.binary@.len() as int + 5;
    assert(c.subrange(at, at + b.len()) =~= b);
    assert(text::occurs_at(c, b, at));
    let d = " --cap-file "@ + cap;
    let from: int = (spec.binary@ + " hook --db "@ + db).len() as int;
    assert(c.subrange(from, from + d.len()) =~= d);
    assert(text::occurs_at(c, d, from));
    let e = " "@ + slug@;
    assert(c.skip(c.len() - e.len()) =~= e);
}

/// The snippet for Codex names the binary behind `command`, the cap-file right behind
/// `--cap-file` and the database right behind `--db`.
pub proof fn law_the_snippet_names_its_paths(spec: &ClientSpec, cap_file: &str, r: String)
    requires
        call_ensures(render_codex_snippet, (spec, cap_file), r),
    ensures
        service::mentions(r@, "command = \""@ + spec.binary@ + "\"\n"@),
        service::mentions(r@, "\"--cap-file\", \""@ + cap_file@ + "\""@),
        service::mentions(r@, "\"--db\", \""@ + spec.db_path@ + "\""@),
        service::mentions(r@, "\"serve\",\n  \"--mcp-stdio\","@),
{
    let h = "# Paste this block into ~/.codex/config.toml under [mcp_servers.ctxd]:\n[mcp_servers.ctxd]\ncommand = \""@;
    let m = "\"\nargs = [\n  \"serve\",\n  \"--mcp-stdio\",\n  \"--cap-file\", \""@;
    let k = "\",\n  \"--db\", \""@;
    let t = "\"\n]\n"@;
    reveal_strlit("# Paste this block into ~/.codex/config.toml under [mcp_servers.ctxd]:\n[mcp_servers.ctxd]\ncommand = \"");
    reveal_strlit("\"\nargs = [\n  \"serve\",\n  \"--mcp-stdio\",\n  \"--cap-file\", \"");
    reveal_strlit("\",\n  \"--db\", \"");
    reveal_strlit("\"\n]\n");
    reveal_strlit("command = \"");
    reveal_strlit("\"\n");
    reveal_strlit("\"--cap-file\", \"");
    reveal_strlit("\"--db\", \"");
    reveal_strlit("\"serve\",\n  \"--mcp-stdio\",");
    reveal_strlit("\"");
    let s = r@;
    assert(s == h + spec.binary@ + m + cap_file@ + k + spec.db_path@ + t);
    let a = "command = \""@ + spec.binary@ + "\"\n"@;
    let x: int = h.len() - "command = \""@.len();
    assert(s.subrange(x, x + a.len()) =~= a);
    assert(text::occurs_at(s, a, x));
    let b = "\"--cap-file\", \""@ + cap_file@ + "\""@;
    let y: int = (h + spec.binary@ + m).len() - "\"--cap-file\", \""@.len();
    assert(s.subrange(y, y + b.len()) =~= b);
    assert(text::occurs_at(s, b, y));
    let c = "\"--db\", \""@ + spec.db_path@ + "\""@;
    let z: int = (h + spec.binary@ + m + cap_file@ + k).len() - "\"--db\", \""@.len();
    assert(s.subrange(z, z + c.len()) =~= c);
    assert(text::occurs_at(s, c, z));
    let d = "\"serve\",\n  \"--mcp-stdio\","@;
    let w: int = (h + spec.binary@).len() as int + 13;
    assert(s.subrange(w, w + d.len()) =~= d);
    assert(text::occurs_at(s, d, w));
}

/// The clients that are configured, each once, and each with its own cap-file: where a client's
/// configuration was written, its entry starts this daemon with the cap-file of that client, and
/// a client whose file could not be read keeps no other from being configured.
pub proof fn law_each_client_gets_its_own_cap_file(
    spec: &ClientSpec,
    caps_dir: &str,
    desktop: Result<Option<Json>, String>,
    code: Result<Option<Json>, String>,
    r: Vec<(ClientId, Result<(NewContents, ApplyAction), String>)>,
    desktop_cap: String,
    code_cap: String,
    codex_cap: String,
)
    requires
        call_ensures(apply_all, (spec, caps_dir, desktop, code), r),
        call_ensures(caps::cap_file_path, (caps_dir, ClientId::ClaudeDesktop), desktop_cap),
        call_ensures(caps::cap_file_path, (caps_dir, ClientId::ClaudeCode), code_cap),
        call_ensures(caps::cap_file_path, (caps_dir, ClientId::Codex), codex_cap),
    ensures
        r@.len() == 3,
        r@[0].0 is ClaudeDesktop && r@[1].0 is ClaudeCode && r@[2].0 is Codex,
        desktop is Err <==> r@[0].1 is Err,
        desktop matches Ok(v) ==> (r@[0].1 matches Ok((contents, action)) && desktop_applied(
            v,
            *spec,
            desktop_cap@,
            contents,
            action,
        )),
        code matches Ok(v) ==> code_applied(v, *spec, code_cap@, r@[1].1),
        code is Err ==> r@[1].1 is Err,
        r@[2].1 matches Ok((NewContents::Snippet(s), action)) && action is ManualPending
            && service::mentions(s@, "\"--cap-file\", \""@ + codex_cap@ + "\""@),
{
    assert(r@[0].0 == clients_in_order()[0]);
    assert(r@[1].0 == clients_in_order()[1]);
    assert(r@[2].0 == clients_in_order()[2]);
    let s = r@[2].1->Ok_0.0->Snippet_0@;
    assert(s == codex_snippet(*spec, codex_cap@));
    lemma_snippet_names(*spec, codex_cap@);
}

proof fn lemma_snippet_names(spec: ClientSpec, cap_file: Seq<char>)
    ensures
        service::mentions(
            codex_snippet(spec, cap_file),
            "\"--cap-file\", \""@ + cap_file + "\""@,
        ),
{
    let h = "# Paste this block into ~/.codex/config.toml under [mcp_servers.ctxd]:\n[mcp_servers.ctxd]\ncommand = \""@;
    let m = "\"\nargs = [\n  \"serve\",\n  \"--mcp-stdio\",\n  \"--cap-file\", \""@;
    reveal_strlit("\"\nargs = [\n  \"serve\",\n  \"--mcp-stdio\",\n  \"--cap-file\", \"");
    reveal_strlit("\",\n  \"--db\", \"");
    reveal_strlit("\"--cap-file\", \"");
    reveal_strlit("\"");
    let s = codex_snippet(spec, cap_file);
    let b = "\"--cap-file\", \""@ + cap_file + "\""@;
    let y: int = (h + spec.binary@ + m).len() - "\"--cap-file\", \""@.len();
    assert(s.subrange(y, y + b.len()) =~= b);
    assert(text::occurs_at(s, b, y));
}

/// The entry itself starts this daemon, and putting it into a configuration that has it changes
/// nothing.
pub proof fn law_the_entry_starts_the_daemon(
    spec: &ClientSpec,
    cap_file: &str,
    entry: Json,
    config: Json,
    first: (Json, ApplyAction),
    again: (Json, ApplyAction),
)
    requires
        call_ensures(build_mcp_entry, (spec, cap_file), entry),
        call_ensures(upsert_mcp_entry, (config, entry), first),
        call_ensures(upsert_mcp_entry, (first.0, entry), again),
    ensures
        starts_daemon(entry, *spec, cap_file@),
        servers(first.0).dom().contains("ctxd"@),
        starts_daemon(servers(first.0)["ctxd"@], *spec, cap_file@),
        again.1 is Unchanged,
        again.0 == first.0,
        !(config is Object) ==> first.1 is Created,
        config is Object && !servers(config).dom().contains("ctxd"@) ==> first.1 is EntryAdded,
{
    json::lemma_alike_reflexive(entry);
    lemma_entry_starts(entry, entry, *spec, cap_file@);
    law_upsert_is_idempotent(config, entry, first.0, first.1, entry, again.0, again.1);
    let held = servers(first.0)["ctxd"@];
    assert(json::alike(held, entry));
    lemma_entry_starts(held, entry, *spec, cap_file@);
}

/// A configuration is first written in its own directory, so that it can take its place at once, and every
/// process writes to a file of its own.
pub proof fn law_configurations_are_written_beside(
    file: &str,
    dir: Seq<char>,
    name: Seq<char>,
    a: u32,
    b: u32,
    x: String,
    y: String,
)
    requires
        file@ == dir + "/"@ + name,
        dir.len() > 0 && path::without_tail(dir) == dir && dir.last() != '/',
        path::is_name(name) && name != "."@ && name != ".."@,
        call_ensures(config_temp_path, (file, a), x),
        call_ensures(config_temp_path, (file, b), y),
    ensures
        (dir + "/"@).is_prefix_of(x@),
        !x@.skip(dir.len() as int + 1).contains('/'),
        x@ == y@ ==> a == b,
{
    reveal_strlit(".ctxd-client-");
    reveal_strlit(".tmp");
    reveal_strlit("/");
    let m = ".ctxd-client-"@ + text::digits(a as nat) + ".tmp"@;
    let n = ".ctxd-client-"@ + text::digits(b as nat) + ".tmp"@;
    path::lemma_beside(dir, name, m, n);
    text::lemma_digits_read_back(a as nat);
    text::lemma_digits_read_back(b as nat);
    let k = ".ctxd-client-"@.len() as int;
    assert(m.subrange(k, m.len() - 4) =~= text::digits(a as nat));
    assert(n.subrange(k, n.len() - 4) =~= text::digits(b as nat));
    assert(x@.take(dir.len() as int + 1) =~= dir + "/"@);
    assert(x@.skip(dir.len() as int + 1) =~= m);
    assert(!m.contains('/')) by {
        if m.contains('/') {
            let i = choose|i: int| 0 <= i < m.len() && m[i] == '/';
            let d = text::digits(a as nat);
            if k <= i < k + d.len() {
                assert(d[i - k] == '/');
                assert(text::all_digits(d));
            }
        }
    }
}

} // verus!
