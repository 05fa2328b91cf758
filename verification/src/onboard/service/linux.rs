//! systemd units of the user.
//!
//! The unit is of type `notify`: systemd holds it in activation until the daemon reports
//! that it listens.

use crate::onboard::service;
use crate::onboard::service::{ServiceSpec, ServiceStatus, ToolOutput};
use crate::path;
use crate::text;
use vstd::prelude::*;

verus! {

/// A service of the user under systemd.
#[derive(Debug)]
pub struct Systemd {
    /// The name of the unit without `.service`.
    pub unit_name: String,
    /// The path of the unit.
    pub unit_path: String,
}

/// The last part of a label that is neither `daemon` nor `service`.
pub open spec fn telling_part(parts: Seq<Seq<char>>) -> Seq<char>
    decreases parts.len(),
{
    if parts.len() == 0 {
        "ctxd"@
    } else if parts.last() != "daemon"@ && parts.last() != "service"@ {
        parts.last()
    } else {
        telling_part(parts.drop_last())
    }
}

/// The unit of a label in reverse-DNS form, in small letters: `ctxd` for
/// `dev.ctxd.daemon`.
pub open spec fn unit_of(label: Seq<char>) -> Seq<char> {
    text::ascii_lowered(telling_part(text::pieces(label, '.')))
}

impl Systemd {
    /// The backend is for this service of this user.
    pub open spec fn serves(self, label: Seq<char>, home: Seq<char>) -> bool {
        &&& self.unit_name@ == unit_of(label)
        &&& self.unit_path@ == path::joined(
            path::joined(home, ".config/systemd/user"@),
            unit_of(label) + ".service"@,
        )
    }

    /// A backend for a service of the user with this home directory.
    pub fn new(label: &str, home: &str) -> (r: Self)
        ensures
            r.serves(label@, home@),
    {
        let unit_name = Systemd::unit_name(label);
        let dir = path::join(home, ".config/systemd/user");
        let mut file = String::from_str(&unit_name);
        file.append(".service");
        let unit_path = path::join(&dir, &file);
        Systemd { unit_name, unit_path }
    }

    /// The unit of a label.
    pub fn unit_name(label: &str) -> (r: String)
        ensures
            r@ == unit_of(label@),
    {
        let parts = text::split(label, '.');
        let ghost all = text::views(parts@);
        let mut n: usize = parts.len();
        assert(all.take(n as int) =~= all);
        while n > 0
            invariant
                n <= parts@.len(),
                all == text::views(parts@),
                all == text::pieces(label@, '.'),
                telling_part(all.take(n as int)) == telling_part(all),
            decreases n,
        {
            let part = &parts[n - 1];
            let ghost t = all.take(n as int);
            assert(t.last() == part@);
            assert(t.drop_last() =~= all.take(n - 1));
            if !text::same(part, "daemon") && !text::same(part, "service") {
                return text::to_ascii_lowercase(part);
            }
            n -= 1;
        }
        text::to_ascii_lowercase("ctxd")
    }

    /// The unit as the tool names it.
    pub fn unit_file(&self) -> (r: String)
        ensures
            r@ == self.unit_name@ + ".service"@,
    {
        let mut s = String::from_str(&self.unit_name);
        s.append(".service");
        s
    }

    /// What follows an install: systemd reads the units again, and the unit is enabled or
    /// disabled.
    pub fn after_install(&self, at_login: bool) -> (r: Vec<Vec<String>>)
        ensures
            r@.len() == 2,
            text::views(r@[0]@) == seq!["daemon-reload"@],
            text::views(r@[1]@) == seq![
                if at_login {
                    "enable"@
                } else {
                    "disable"@
                },
                self.unit_name@ + ".service"@,
            ],
    {
        let mut reload: Vec<String> = Vec::new();
        reload.push(String::from_str("daemon-reload"));
        assert(text::views(reload@) =~= seq!["daemon-reload"@]);
        let mut enable: Vec<String> = Vec::new();
        enable.push(
            String::from_str(
                if at_login {
                    "enable"
                } else {
                    "disable"
                },
            ),
        );
        enable.push(self.unit_file());
        assert(text::views(enable@) =~= seq![
            if at_login {
                "enable"@
            } else {
                "disable"@
            },
            self.unit_name@ + ".service"@,
        ]);
        let mut all: Vec<Vec<String>> = Vec::new();
        all.push(reload);
        all.push(enable);
        all
    }

    /// What a call of `systemctl --user start` means.
    pub fn start_outcome(&self, out: &ToolOutput) -> (r: Result<(), String>)
        ensures
            r is Ok <==> out.success,
            r matches Err(e) ==> e@ == service::tool_message(
                "systemctl --user start "@ + (self.unit_name@ + ".service"@),
                *out,
            ),
    {
        if out.success {
            return Ok(());
        }
        let mut what = String::from_str("systemctl --user start ");
        let unit = self.unit_file();
        what.append(&unit);
        Err(service::tool_failure(&what, out))
    }

    /// The tool says that there was nothing to stop.
    pub open spec fn nothing_to_stop(stderr: Seq<char>) -> bool {
        ||| stderr.len() == 0
        ||| service::mentions(stderr, "not loaded"@)
        ||| service::mentions(stderr, "inactive"@)
        ||| service::mentions(stderr, "not found"@)
    }

    /// What a call of `systemctl --user stop` means. That there was nothing to stop is no
    /// error.
    pub fn stop_outcome(&self, out: &ToolOutput) -> (r: Result<(), String>)
        ensures
            r is Ok <==> out.success || Systemd::nothing_to_stop(out.stderr@),
            r matches Err(e) ==> e@ == service::tool_message(
                "systemctl --user stop "@ + (self.unit_name@ + ".service"@),
                *out,
            ),
    {
        if out.success || out.stderr.as_str().unicode_len() == 0 || text::contains(
            &out.stderr,
            "not loaded",
        ) || text::contains(&out.stderr, "inactive") || text::contains(&out.stderr, "not found") {
            return Ok(());
        }
        let mut what = String::from_str("systemctl --user stop ");
        let unit = self.unit_file();
        what.append(&unit);
        Err(service::tool_failure(&what, out))
    }
}

/// Whether `systemctl --user is-active` printed that the unit runs or is starting.
pub fn is_active(stdout: &str) -> (r: bool)
    ensures
        r == (text::trimmed(stdout@) == "active"@ || text::trimmed(stdout@) == "activating"@),
{
    let line = text::trim(stdout);
    text::same(&line, "active") || text::same(&line, "activating")
}

/// The process that a text names: a number above zero.
pub open spec fn process_named(s: Seq<char>) -> Option<u32> {
    match text::unsigned_value(text::trimmed(s)) {
        Some(n) => if 0 < n <= u32::MAX {
            Some(n as u32)
        } else {
            None
        },
        None => None,
    }
}

/// The status that the tool reports: `active` is what `is-active` printed, `main_pid`
/// what was printed of the main process, where that could be asked.
pub fn status_of(installed: bool, active: &str, main_pid: Option<&str>) -> (r: ServiceStatus)
    ensures
        r == if !installed {
            ServiceStatus::NotInstalled
        } else if text::trimmed(active@) == "active"@ || text::trimmed(active@) == "activating"@ {
            ServiceStatus::Running {
                pid: match main_pid {
                    Some(s) => process_named(s@),
                    None => None,
                },
            }
        } else {
            ServiceStatus::Stopped
        },
{
    if !installed {
        return ServiceStatus::NotInstalled;
    }
    if !is_active(active) {
        return ServiceStatus::Stopped;
    }
    let pid: Option<u32> = match main_pid {
        Some(s) => {
            let line = text::trim(s);
            match text::parse_unsigned(&line, 0xffff_ffff) {
                Some(n) => if n > 0 {
                    Some(n as u32)
                } else {
                    None
                },
                None => None,
            }
        },
        None => None,
    };
    ServiceStatus::Running { pid }
}

/// The character has to stand between quotes.
pub open spec fn wants_quotes(c: char) -> bool {
    text::is_space(c) || c == '"' || c == '\\' || c == '$' || c == '#' || c == ';'
}

/// The character gets a backslash before it.
pub open spec fn wants_backslash(c: char) -> bool {
    c == '"' || c == '\\' || c == '$'
}

/// `s` with a backslash before each character that wants one.
pub open spec fn escaped(s: Seq<char>) -> Seq<char>
    decreases s.len(),
{
    if s.len() == 0 {
        s
    } else if wants_backslash(s[0]) {
        seq!['\\', s[0]] + escaped(s.skip(1))
    } else {
        seq![s[0]] + escaped(s.skip(1))
    }
}

/// `s` as systemd reads one value: between double quotes, with escapes, where it holds
/// white space or a special character.
pub open spec fn quoted(s: Seq<char>) -> Seq<char> {
    if exists|i: int| 0 <= i < s.len() && wants_quotes(#[trigger] s[i]) {
        seq!['"'] + escaped(s) + seq!['"']
    } else {
        s
    }
}

/// Quotes a value for a unit file.
pub fn systemd_quote(s: &str) -> (r: String)
    ensures
        r@ == quoted(s@),
{
    let x = text::chars_of(s);
    let mut needs = false;
    let mut i: usize = 0;
    while i < x.len()
        invariant
            i <= x@.len(),
            x@ == s@,
            needs <==> exists|j: int| 0 <= j < i && wants_quotes(#[trigger] s@[j]),
        decreases x.len() - i,
    {
        let c = x[i];
        if text::char_is_space(c) || c == '"' || c == '\\' || c == '$' || c == '#' || c == ';' {
            needs = true;
            assert(wants_quotes(s@[i as int]));
        }
        i += 1;
    }
    if !needs {
        return String::from_str(s);
    }
    let mut out = String::new();
    out.push('"');
    let mut i: usize = 0;
    assert(s@.skip(0) =~= s@);
    assert(out@ + escaped(s@.skip(0)) =~= seq!['"'] + escaped(s@));
    while i < x.len()
        invariant
            i <= x@.len(),
            x@ == s@,
            out@ + escaped(s@.skip(i as int)) == seq!['"'] + escaped(s@),
        decreases x.len() - i,
    {
        let c = x[i];
        let ghost rest = s@.skip(i as int);
        assert(rest[0] == c);
        assert(rest.skip(1) =~= s@.skip(i + 1));
        let ghost before = out@;
        if c == '"' || c == '\\' || c == '$' {
            out.push('\\');
            out.push(c);
            assert(out@ + escaped(s@.skip(i + 1)) =~= before + escaped(rest));
        } else {
            out.push(c);
            assert(out@ + escaped(s@.skip(i + 1)) =~= before + escaped(rest));
        }
        i += 1;
    }
    assert(s@.skip(s@.len() as int) =~= Seq::empty());
    assert(out@ =~= seq!['"'] + escaped(s@));
    out.push('"');
    assert(out@ =~= quoted(s@));
    out
}

/// What stands between quotes, with the backslashes taken out.
pub open spec fn unescaped(s: Seq<char>) -> Seq<char>
    decreases s.len(),
{
    if s.len() == 0 {
        s
    } else if s[0] == '\\' && s.len() > 1 {
        seq![s[1]] + unescaped(s.skip(2))
    } else {
        seq![s[0]] + unescaped(s.skip(1))
    }
}

/// The value that a quoted text stands for.
pub open spec fn unquoted(s: Seq<char>) -> Seq<char> {
    if s.len() >= 2 && s[0] == '"' && s.last() == '"' {
        unescaped(s.subrange(1, s.len() - 1))
    } else {
        s
    }
}

proof fn lemma_unescaped(s: Seq<char>)
    ensures
        unescaped(escaped(s)) == s,
    decreases s.len(),
{
    if s.len() > 0 {
        let rest = s.skip(1);
        lemma_unescaped(rest);
        let e = escaped(s);
        if wants_backslash(s[0]) {
            assert(e.skip(2) =~= escaped(rest));
            assert(e[0] == '\\' && e[1] == s[0]);
        } else {
            assert(e.skip(1) =~= escaped(rest));
            assert(e[0] == s[0] && e[0] != '\\');
        }
        assert(seq![s[0]] + rest =~= s);
    }
}

/// Whatever is quoted reads back as it was.
pub proof fn law_quoting_reads_back(s: Seq<char>)
    ensures
        unquoted(quoted(s)) == s,
{
    let q = quoted(s);
    if exists|i: int| 0 <= i < s.len() && wants_quotes(#[trigger] s[i]) {
        lemma_unescaped(s);
        assert(q.subrange(1, q.len() - 1) =~= escaped(s));
    } else if s.len() > 0 {
        assert(!wants_quotes(s[0]));
    }
}

/// The words of a command, quoted, with a space between them.
pub open spec fn command_line(words: Seq<Seq<char>>) -> Seq<char>
    decreases words.len(),
{
    if words.len() == 0 {
        Seq::empty()
    } else if words.len() == 1 {
        quoted(words[0])
    } else {
        command_line(words.drop_last()) + " "@ + quoted(words.last())
    }
}

/// The words of the command that the unit runs.
pub open spec fn exec_words(spec: ServiceSpec) -> Seq<Seq<char>> {
    seq![spec.binary@, "serve"@] + text::views(spec.args@)
}

fn exec_start(spec: &ServiceSpec) -> (r: String)
    ensures
        r@ == command_line(exec_words(*spec)),
{
    let ghost words = exec_words(*spec);
    let mut line = systemd_quote(&spec.binary);
    line.append(" ");
    let serve = systemd_quote("serve");
    line.append(&serve);
    proof {
        let two = words.take(2);
        assert(two.drop_last() =~= seq![spec.binary@]);
        assert(two.last() == "serve"@);
        assert(command_line(seq![spec.binary@]) == quoted(spec.binary@));
        assert(line@ == command_line(two));
    }
    let mut i: usize = 0;
    while i < spec.args.len()
        invariant
            i <= spec.args@.len(),
            words == exec_words(*spec),
            line@ == command_line(words.take(i + 2)),
        decreases spec.args.len() - i,
    {
        line.append(" ");
        let word = systemd_quote(&spec.args[i]);
        line.append(&word);
        proof {
            let t = words.take(i + 3);
            assert(t.drop_last() =~= words.take(i + 2));
            assert(t.last() == spec.args@[i as int]@);
        }
        i += 1;
    }
    assert(words.take(words.len() as int) =~= words);
    line
}

/// The unit file.
pub open spec fn unit_text(spec: ServiceSpec) -> Seq<char> {
    "[Unit]\nDescription=ctxd — context substrate daemon for AI agents\nDocumentation=https://ctxd.dev\nAfter=network.target\n\n[Service]\nType=notify\nExecStart="@
        + command_line(exec_words(spec)) + "\nWorkingDirectory="@ + quoted(spec.working_dir@)
        + "\nRestart=on-failure\nRestartSec=5\nStandardOutput=journal\nStandardError=journal\n"@
        + if spec.at_login {
        "\n[Install]\nWantedBy=default.target\n"@
    } else {
        ""@
    }
}

/// Writes the unit file.
pub fn render_unit_file(spec: &ServiceSpec) -> (r: String)
    ensures
        r@ == unit_text(*spec),
{
    let mut s = String::from_str(
        "[Unit]\nDescription=ctxd — context substrate daemon for AI agents\nDocumentation=https://ctxd.dev\nAfter=network.target\n\n[Service]\nType=notify\nExecStart=",
    );
    let line = exec_start(spec);
    s.append(&line);
    s.append("\nWorkingDirectory=");
    let dir = systemd_quote(&spec.working_dir);
    s.append(&dir);
    s.append(
        "\nRestart=on-failure\nRestartSec=5\nStandardOutput=journal\nStandardError=journal\n",
    );
    s.append(
        if spec.at_login {
            "\n[Install]\nWantedBy=default.target\n"
        } else {
            ""
        },
    );
    s
}

/// Whatever is quoted for a unit file is read back as it was, and what needs no quotes is
/// written as it is.
pub proof fn law_a_quoted_value_is_read_back(s: &str, r: String)
    requires
        call_ensures(systemd_quote, (s,), r),
    ensures
        unquoted(r@) == s@,
        (forall|i: int|
            0 <= i < s@.len() ==> !text::is_space(#[trigger] s@[i]) && s@[i] != '"' && s@[i] != '\\'
                && s@[i] != '$' && s@[i] != '#' && s@[i] != ';') ==> r@ == s@,
{
    law_quoting_reads_back(s@);
}

proof fn lemma_command_holds(words: Seq<Seq<char>>, i: int) -> (k: int)
    requires
        0 < i < words.len(),
    ensures
        text::occurs_at(command_line(words), " "@ + quoted(words[i]), k),
    decreases words.len(),
{
    let c = command_line(words);
    let init = command_line(words.drop_last());
    let w = " "@ + quoted(words[i]);
    if i == words.len() - 1 {
        let k: int = init.len() as int;
        assert(c.subrange(k, k + w.len()) =~= w);
        k
    } else {
        let k = lemma_command_holds(words.drop_last(), i);
        assert(words.drop_last()[i] == words[i]);
        assert(init.subrange(k, k + w.len()) == w);
        assert(c.subrange(k, k + w.len()) =~= w);
        k
    }
}

proof fn lemma_command_begins(words: Seq<Seq<char>>)
    requires
        words.len() >= 2,
    ensures
        (quoted(words[0]) + " "@ + quoted(words[1])).is_prefix_of(command_line(words)),
    decreases words.len(),
{
    let c = command_line(words);
    let h = quoted(words[0]) + " "@ + quoted(words[1]);
    let init = command_line(words.drop_last());
    if words.len() == 2 {
        assert(words.drop_last().len() == 1 && words.drop_last()[0] == words[0]);
        assert(c =~= h);
        assert(c.take(h.len() as int) =~= h);
    } else {
        lemma_command_begins(words.drop_last());
        assert(words.drop_last()[0] == words[0] && words.drop_last()[1] == words[1]);
        assert(init.take(h.len() as int) == h);
        assert(c.take(h.len() as int) =~= h);
    }
}

/// The unit runs the binary with `serve`, and with every argument behind it; in the working
/// directory of the service; and it is wanted at login exactly where that is asked for.
pub proof fn law_the_unit_runs_the_service(spec: &ServiceSpec, r: String, i: int)
    requires
        call_ensures(render_unit_file, (spec,), r),
    ensures
        service::mentions(r@, "\nExecStart="@ + quoted(spec.binary@) + " serve"@),
        service::mentions(r@, "\nWorkingDirectory="@ + quoted(spec.working_dir@) + "\n"@),
        0 <= i < spec.args@.len() ==> service::mentions(r@, " "@ + quoted(spec.args@[i]@)),
        spec.at_login <==> "\n[Install]\nWantedBy=default.target\n"@.is_suffix_of(r@),
{
    let h = "[Unit]\nDescription=ctxd — context substrate daemon for AI agents\nDocumentation=https://ctxd.dev\nAfter=network.target\n\n[Service]\nType=notify\nExecStart="@;
    let m = "\nRestart=on-failure\nRestartSec=5\nStandardOutput=journal\nStandardError=journal\n"@;
    let e = "\n[Install]\nWantedBy=default.target\n"@;
    reveal_strlit("[Unit]\nDescription=ctxd — context substrate daemon for AI agents\nDocumentation=https://ctxd.dev\nAfter=network.target\n\n[Service]\nType=notify\nExecStart=");
    reveal_strlit("\nRestart=on-failure\nRestartSec=5\nStandardOutput=journal\nStandardError=journal\n");
    reveal_strlit("\n[Install]\nWantedBy=default.target\n");
    reveal_strlit("\nExecStart=");
    reveal_strlit("serve");
    reveal_strlit(" serve");
    reveal_strlit("\n");
    reveal_strlit(" ");
    reveal_strlit("");
    let words = exec_words(*spec);
    let c = command_line(words);
    let wd = quoted(spec.working_dir@);
    let s = r@;
    let tail = if spec.at_login { e } else { ""@ };
    assert(s == h + c + "\nWorkingDirectory="@ + wd + m + tail);
    lemma_command_begins(words);
    assert(words[0] == spec.binary@ && words[1] == "serve"@);
    assert(!(exists|j: int| 0 <= j < "serve"@.len() && wants_quotes(#[trigger] "serve"@[j])));
    assert(quoted("serve"@) == "serve"@);
    let b = quoted(spec.binary@) + " "@ + "serve"@;
    let a = "\nExecStart="@ + quoted(spec.binary@) + " serve"@;
    let x: int = h.len() - 11;
    assert(c.take(b.len() as int) == b);
    assert(a =~= "\nExecStart="@ + b);
    assert forall|j: int| 0 <= j < b.len() implies c[j] == b[j] by {
        assert(c.take(b.len() as int)[j] == b[j]);
    }
    assert(s.subrange(x, x + a.len()) =~= a);
    assert(text::occurs_at(s, a, x));
    let d = "\nWorkingDirectory="@ + wd + "\n"@;
    let y: int = (h + c).len() as int;
    assert(s.subrange(y, y + d.len()) =~= d);
    assert(text::occurs_at(s, d, y));
    if 0 <= i < spec.args@.len() {
        assert(words[i + 2] == spec.args@[i]@);
        let k = lemma_command_holds(words, i + 2);
        let w = " "@ + quoted(spec.args@[i]@);
        assert(c.subrange(k, k + w.len()) == w);
        assert(s.subrange(h.len() + k, h.len() + k + w.len()) =~= w);
        assert(text::occurs_at(s, w, h.len() + k));
    }
    if spec.at_login {
        assert(s.skip(s.len() - e.len()) =~= e);
    } else {
        assert(s[s.len() - 2] == 'l');
        if e.is_suffix_of(s) {
            assert(s.skip(s.len() - e.len())[e.len() - 2] == e[e.len() - 2]);
        }
    }
}

/// After an install systemd reads the units again, and then the unit is enabled exactly where it
/// is to start at login.
pub proof fn law_a_unit_is_enabled_for_login(
    systemd: &Systemd,
    at_login: bool,
    r: Vec<Vec<String>>,
)
    requires
        call_ensures(Systemd::after_install, (systemd, at_login), r),
    ensures
        r@.len() == 2,
        r@[0]@[0]@ == "daemon-reload"@,
        r@[1]@[0]@ == "enable"@ <==> at_login,
        r@[1]@[0]@ == "disable"@ <==> !at_login,
        r@[1]@[1]@ == systemd.unit_name@ + ".service"@,
{
    reveal_strlit("enable");
    reveal_strlit("disable");
    assert("enable"@.len() == 6 && "disable"@.len() == 7);
    assert(text::views(r@[0]@).len() == r@[0]@.len());
    assert(text::views(r@[1]@).len() == r@[1]@.len());
    assert(text::views(r@[0]@)[0] == r@[0]@[0]@);
    assert(text::views(r@[1]@)[0] == r@[1]@[0]@);
    assert(text::views(r@[1]@)[1] == r@[1]@[1]@);
}

/// What is known of a unit: it is not installed, whatever the tool says, where there is none;
/// it runs exactly where the tool calls it active or activating; the process is told only
/// where it runs, and is never zero.
pub proof fn law_what_is_known_of_a_unit(
    installed: bool,
    active: &str,
    main_pid: Option<&str>,
    r: ServiceStatus,
    n: nat,
)
    requires
        call_ensures(status_of, (installed, active, main_pid), r),
    ensures
        r is NotInstalled <==> !installed,
        r is Running <==> installed && (text::trimmed(active@) == "active"@ || text::trimmed(
            active@,
        ) == "activating"@),
        r matches ServiceStatus::Running { pid } ==> (pid matches Some(p) ==> p > 0),
        r matches ServiceStatus::Running { pid } ==> (main_pid matches Some(s) ==> (text::trimmed(
            s@,
        ) == text::digits(n) && 0 < n <= u32::MAX ==> pid == Some(n as u32))),
{
    text::lemma_digits_read_back(n);
}

/// The unit of a label is its last part in small letters; a last part that only says that it is
/// a daemon or a service is passed over.
pub proof fn law_units_are_named_after_the_label(
    label: &str,
    head: &str,
    part: Seq<char>,
    r: String,
    above: String,
)
    requires
        label@ == head@ + seq!['.'] + part,
        !part.contains('.'),
        call_ensures(Systemd::unit_name, (label,), r),
        call_ensures(Systemd::unit_name, (head,), above),
    ensures
        part != "daemon"@ && part != "service"@ ==> r@ == text::ascii_lowered(part),
        part == "daemon"@ || part == "service"@ ==> r@ == above@,
{
    text::lemma_pieces_join(head@, '.', part);
    text::lemma_one_piece(part, '.');
    let p = text::pieces(label@, '.');
    assert(p =~= text::pieces(head@, '.').push(part));
    assert(p.drop_last() =~= text::pieces(head@, '.'));
}

/// A start is a success exactly where the tool reports one. A stop is one also where the tool
/// says that there was nothing to stop.
pub proof fn law_what_counts_as_success(
    systemd: &Systemd,
    out: &ToolOutput,
    started: Result<(), String>,
    stopped: Result<(), String>,
    at: int,
)
    requires
        call_ensures(Systemd::start_outcome, (systemd, out), started),
        call_ensures(Systemd::stop_outcome, (systemd, out), stopped),
    ensures
        started is Ok <==> out.success,
        out.success ==> stopped is Ok,
        text::occurs_at(out.stderr@, "not loaded"@, at) || text::occurs_at(
            out.stderr@,
            "inactive"@,
            at,
        ) || text::occurs_at(out.stderr@, "not found"@, at) || out.stderr@.len() == 0
            ==> stopped is Ok,
        !out.success && out.stderr@.len() > 0 && !service::mentions(out.stderr@, "not loaded"@)
            && !service::mentions(out.stderr@, "inactive"@) && !service::mentions(
            out.stderr@,
            "not found"@,
        ) ==> stopped is Err,
{
}

/// The unit of a service lies among the units of the user under its own name.
pub proof fn law_where_the_unit_lies(label: &str, home: &str, r: Systemd, unit: String)
    requires
        call_ensures(Systemd::new, (label, home), r),
        call_ensures(Systemd::unit_name, (label,), unit),
        unit@.len() > 0 && unit@[0] != '/',
        home@.len() > 0 && home@.last() != '/',
    ensures
        r.unit_name@ == unit@,
        r.unit_path@ == home@ + "/.config/systemd/user/"@ + unit@ + ".service"@,
{
    reveal_strlit(".config/systemd/user");
    reveal_strlit("/.config/systemd/user/");
    reveal_strlit("/");
    let dir = path::joined(home@, ".config/systemd/user"@);
    assert(dir == home@ + "/"@ + ".config/systemd/user"@);
    assert(dir.last() == 'r');
    let file = unit@ + ".service"@;
    assert(file[0] == unit@[0]);
    assert(r.unit_path@ =~= home@ + "/.config/systemd/user/"@ + unit@ + ".service"@);
}

} // verus!
