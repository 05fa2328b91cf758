//! launchd agents.
//!
//! The agent is started again when it fails, and stays stopped after a successful exit.

use crate::onboard::service;
use crate::onboard::service::{ServiceSpec, ServiceStatus, ToolOutput};
use crate::path;
use crate::text;
use vstd::prelude::*;

verus! {

/// An agent of the user under launchd.
#[derive(Debug)]
pub struct Launchd {
    /// The label.
    pub label: String,
    /// The path of the plist.
    pub plist_path: String,
}

impl Launchd {
    /// The backend is for this service of this user.
    pub open spec fn serves(self, label: Seq<char>, home: Seq<char>) -> bool {
        &&& self.label@ == label
        &&& self.plist_path@ == path::joined(
            path::joined(home, "Library/LaunchAgents"@),
            label + ".plist"@,
        )
    }

    /// A backend for a service of the user with this home directory.
    pub fn new(label: &str, home: &str) -> (r: Self)
        ensures
            r.serves(label@, home@),
    {
        let dir = path::join(home, "Library/LaunchAgents");
        let mut file = String::from_str(label);
        file.append(".plist");
        let plist_path = path::join(&dir, &file);
        Launchd { label: String::from_str(label), plist_path }
    }

    /// The name of the agent of a user.
    pub fn service_id(&self, uid: u32) -> (r: String)
        ensures
            r@ == "gui/"@ + text::digits(uid as nat) + "/"@ + self.label@,
    {
        let mut s = user_domain(uid);
        s.append("/");
        s.append(&self.label);
        s
    }

    /// The tool says that the agent is already loaded.
    pub open spec fn already_loaded(stderr: Seq<char>) -> bool {
        ||| service::mentions(stderr, "already"@)
        ||| service::mentions(stderr, "Service is enabled"@)
        ||| service::mentions(stderr, "Bootstrap failed: 5: Input/output error"@)
    }

    /// What a call of `launchctl bootstrap` means. That the agent is already loaded is no
    /// error.
    pub fn start_outcome(&self, out: &ToolOutput) -> (r: Result<(), String>)
        ensures
            r is Ok <==> out.success || Launchd::already_loaded(out.stderr@),
            r matches Err(e) ==> e@ == service::tool_message("launchctl bootstrap"@, *out),
    {
        if out.success || text::contains(&out.stderr, "already") || text::contains(
            &out.stderr,
            "Service is enabled",
        ) || text::contains(&out.stderr, "Bootstrap failed: 5: Input/output error") {
            return Ok(());
        }
        Err(service::tool_failure("launchctl bootstrap", out))
    }

    /// The tool says that there was nothing to stop.
    pub open spec fn nothing_to_stop(stderr: Seq<char>) -> bool {
        service::mentions(stderr, "Could not find"@) || service::mentions(stderr, "No such"@)
    }

    /// What a call of `launchctl bootout` means. That there was nothing to stop is no
    /// error.
    pub fn stop_outcome(&self, out: &ToolOutput) -> (r: Result<(), String>)
        ensures
            r is Ok <==> out.success || Launchd::nothing_to_stop(out.stderr@),
            r matches Err(e) ==> e@ == service::tool_message("launchctl bootout"@, *out),
    {
        if out.success || text::contains(&out.stderr, "Could not find") || text::contains(
            &out.stderr,
            "No such",
        ) {
            return Ok(());
        }
        Err(service::tool_failure("launchctl bootout", out))
    }
}

/// The domain of a user's agents.
pub fn user_domain(uid: u32) -> (r: String)
    ensures
        r@ == "gui/"@ + text::digits(uid as nat),
{
    let mut s = String::from_str("gui/");
    let d = text::unsigned_text(uid as u64);
    s.append(&d);
    s
}

/// The characters of `s` before its first white space.
pub open spec fn first_word(s: Seq<char>) -> Seq<char>
    decreases s.len(),
{
    if s.len() == 0 || text::is_space(s[0]) {
        Seq::empty()
    } else {
        seq![s[0]] + first_word(s.skip(1))
    }
}

/// The process that a line of a dump names: `pid = ` and a number.
pub open spec fn pid_in_line(line: Seq<char>) -> Option<u32> {
    let l = text::trimmed(line);
    if "pid = "@.is_prefix_of(l) {
        match text::unsigned_value(
            first_word(text::trim_front(l.skip("pid = "@.len() as int))),
        ) {
            Some(n) => if n <= u32::MAX {
                Some(n as u32)
            } else {
                None
            },
            None => None,
        }
    } else {
        None
    }
}

/// The first process that the lines of a dump name.
pub open spec fn first_pid(lines: Seq<Seq<char>>) -> Option<u32>
    decreases lines.len(),
{
    if lines.len() == 0 {
        None
    } else {
        match pid_in_line(lines[0]) {
            Some(p) => Some(p),
            None => first_pid(lines.skip(1)),
        }
    }
}

/// A line of a dump says that the agent runs.
pub open spec fn says_running(lines: Seq<Seq<char>>) -> bool {
    exists|i: int|
        0 <= i < lines.len() && "state = running"@.is_prefix_of(text::trimmed(#[trigger] lines[i]))
}

fn word_at_start(s: &str) -> (r: String)
    ensures
        r@ == first_word(s@),
{
    let x = text::chars_of(s);
    let mut n: usize = 0;
    assert(s@.skip(0) =~= s@);
    assert(s@.take(0) + first_word(s@.skip(0)) =~= first_word(s@));
    while n < x.len() && !text::char_is_space(x[n])
        invariant
            n <= x@.len(),
            x@ == s@,
            s@.take(n as int) + first_word(s@.skip(n as int)) == first_word(s@),
        decreases x.len() - n,
    {
        let ghost rest = s@.skip(n as int);
        assert(rest[0] == x@[n as int]);
        assert(rest.skip(1) =~= s@.skip(n + 1));
        assert(s@.take(n + 1) + first_word(s@.skip(n + 1)) =~= s@.take(n as int) + first_word(
            rest,
        ));
        n += 1;
    }
    proof {
        let rest = s@.skip(n as int);
        if rest.len() > 0 {
            assert(rest[0] == x@[n as int]);
        }
        assert(first_word(rest) =~= Seq::empty());
        assert(s@.subrange(0, n as int) =~= first_word(s@));
    }
    text::text_of(&x, 0, n)
}

fn read_pid(line: &str) -> (r: Option<u32>)
    ensures
        r == pid_in_line(line@),
{
    let l = text::trim(line);
    match text::strip_prefix(&l, "pid = ") {
        Some(rest) => {
            proof {
                assert(l@.subrange(0, "pid = "@.len() as int) =~= "pid = "@);
                assert(l@.skip("pid = "@.len() as int) =~= rest@);
            }
            let body = text::trim_start(&rest);
            let word = word_at_start(&body);
            match text::parse_unsigned(&word, 0xffff_ffff) {
                Some(n) => Some(n as u32),
                None => None,
            }
        },
        None => None,
    }
}

/// The status that a dump of launchd tells of: running where it names a process or says
/// so.
pub open spec fn dump_status(dump: Seq<char>) -> ServiceStatus {
    let lines = text::lines(dump);
    if first_pid(lines) is Some || says_running(lines) {
        ServiceStatus::Running { pid: first_pid(lines) }
    } else {
        ServiceStatus::Stopped
    }
}

fn read_dump(dump: &str) -> (r: ServiceStatus)
    ensures
        r == dump_status(dump@),
{
    let lines = text::split_lines(dump);
    let ghost all = text::lines(dump@);
    assert(text::views(lines@).len() == all.len());
    let mut pid: Option<u32> = None;
    let mut running = false;
    let mut i: usize = 0;
    assert(all.skip(0) =~= all);
    while i < lines.len()
        invariant
            i <= lines@.len(),
            lines@.len() == all.len(),
            text::views(lines@) == all,
            pid is Some ==> first_pid(all) == pid,
            pid is None ==> first_pid(all.skip(i as int)) == first_pid(all),
            running <==> exists|j: int|
                0 <= j < i && "state = running"@.is_prefix_of(text::trimmed(#[trigger] all[j])),
        decreases lines.len() - i,
    {
        let line = &lines[i];
        assert(line@ == text::views(lines@)[i as int]);
        let ghost rest = all.skip(i as int);
        assert(rest[0] == line@);
        assert(rest.skip(1) =~= all.skip(i + 1));
        if pid.is_none() {
            pid = read_pid(line);
        }
        let t = text::trim(line);
        if text::starts_with(&t, "state = running") {
            running = true;
            assert("state = running"@.is_prefix_of(text::trimmed(all[i as int])));
        }
        i += 1;
    }
    assert(all.skip(all.len() as int) =~= Seq::empty());
    if pid.is_some() || running {
        ServiceStatus::Running { pid }
    } else {
        ServiceStatus::Stopped
    }
}

/// The status of an agent: whether its plist is there, and what `launchctl print` said.
pub fn status_of(installed: bool, print: &ToolOutput) -> (r: ServiceStatus)
    ensures
        r == if !installed {
            ServiceStatus::NotInstalled
        } else if !print.success {
            ServiceStatus::Stopped
        } else {
            dump_status(print.stdout@)
        },
{
    if !installed {
        ServiceStatus::NotInstalled
    } else if !print.success {
        ServiceStatus::Stopped
    } else {
        read_dump(&print.stdout)
    }
}

/// What stands for a character in XML text.
pub open spec fn entity(c: char) -> Seq<char> {
    if c == '&' {
        "&amp;"@
    } else if c == '<' {
        "&lt;"@
    } else if c == '>' {
        "&gt;"@
    } else if c == '"' {
        "&quot;"@
    } else if c == '\'' {
        "&apos;"@
    } else {
        seq![c]
    }
}

/// `s` with markup characters written as entities.
pub open spec fn xml_text(s: Seq<char>) -> Seq<char>
    decreases s.len(),
{
    if s.len() == 0 {
        s
    } else {
        xml_text(s.drop_last()) + entity(s.last())
    }
}

/// Writes markup characters as entities.
pub fn xml_escape(s: &str) -> (r: String)
    ensures
        r@ == xml_text(s@),
{
    let x = text::chars_of(s);
    let mut out = String::new();
    let mut i: usize = 0;
    assert(out@ =~= xml_text(s@.take(0)));
    while i < x.len()
        invariant
            i <= x@.len(),
            x@ == s@,
            out@ == xml_text(s@.take(i as int)),
        decreases x.len() - i,
    {
        let c = x[i];
        proof {
            let t = s@.take(i + 1);
            assert(t.drop_last() =~= s@.take(i as int));
            assert(t.last() == c);
        }
        if c == '&' {
            out.append("&amp;");
        } else if c == '<' {
            out.append("&lt;");
        } else if c == '>' {
            out.append("&gt;");
        } else if c == '"' {
            out.append("&quot;");
        } else if c == '\'' {
            out.append("&apos;");
        } else {
            let ghost before = out@;
            out.push(c);
            assert(out@ =~= before + seq![c]);
        }
        i += 1;
    }
    assert(s@.take(s@.len() as int) =~= s@);
    out
}

/// Escaped text holds no markup: no angle bracket and no quote is left in it.
pub proof fn law_escaped_text_has_no_markup(s: Seq<char>, c: char)
    requires
        xml_text(s).contains(c),
    ensures
        c != '<' && c != '>' && c != '"' && c != '\'',
    decreases s.len(),
{
    if s.len() > 0 {
        reveal_strlit("&amp;");
        reveal_strlit("&lt;");
        reveal_strlit("&gt;");
        reveal_strlit("&quot;");
        reveal_strlit("&apos;");
        let init = xml_text(s.drop_last());
        let e = entity(s.last());
        let i = choose|i: int| 0 <= i < xml_text(s).len() && xml_text(s)[i] == c;
        if i < init.len() {
            assert(init[i] == c);
            law_escaped_text_has_no_markup(s.drop_last(), c);
        } else {
            assert(e[i - init.len()] == c);
        }
    }
}

/// One element of the argument list.
pub open spec fn argument(s: Seq<char>) -> Seq<char> {
    "            <string>"@ + xml_text(s) + "</string>\n"@
}

/// The elements of the argument list.
pub open spec fn arguments(words: Seq<Seq<char>>) -> Seq<char>
    decreases words.len(),
{
    if words.len() == 0 {
        Seq::empty()
    } else {
        arguments(words.drop_last()) + argument(words.last())
    }
}

/// The plist, for a user with this home directory.
pub open spec fn plist_text(spec: ServiceSpec, home: Seq<char>) -> Seq<char> {
    "<?xml version=\"1.0\" encoding=\"UTF-8\"?>\n<!DOCTYPE plist PUBLIC \"-//Apple//DTD PLIST 1.0//EN\" \"http://www.apple.com/DTDs/PropertyList-1.0.dtd\">\n<plist version=\"1.0\">\n<dict>\n    <key>Label</key>\n    <string>"@
        + xml_text(spec.label@)
        + "</string>\n    <key>ProgramArguments</key>\n    <array>\n"@ + (argument(spec.binary@)
        + "            <string>serve</string>\n"@ + arguments(text::views(spec.args@)))
        + "    </array>\n    <key>RunAtLoad</key>\n    <"@ + (if spec.at_login {
        "true"@
    } else {
        "false"@
    })
        + "/>\n    <key>KeepAlive</key>\n    <dict>\n        <key>SuccessfulExit</key>\n        <false/>\n    </dict>\n    <key>WorkingDirectory</key>\n    <string>"@
        + xml_text(spec.working_dir@)
        + "</string>\n    <key>StandardOutPath</key>\n    <string>"@ + xml_text(
        path::joined(spec.log_dir@, "stdout.log"@),
    ) + "</string>\n    <key>StandardErrorPath</key>\n    <string>"@ + xml_text(
        path::joined(spec.log_dir@, "stderr.log"@),
    )
        + "</string>\n    <key>EnvironmentVariables</key>\n    <dict>\n        <key>HOME</key>\n        <string>"@
        + xml_text(home) + "</string>\n    </dict>\n</dict>\n</plist>\n"@
}

fn xml_str(s: &str) -> (r: String)
    ensures
        r@ == argument(s@),
{
    let mut out = String::from_str("            <string>");
    let t = xml_escape(s);
    out.append(&t);
    out.append("</string>\n");
    out
}

fn argument_list(args: &Vec<String>) -> (r: String)
    ensures
        r@ == arguments(text::views(args@)),
{
    let ghost words = text::views(args@);
    let mut out = String::new();
    let mut i: usize = 0;
    assert(out@ =~= arguments(words.take(0)));
    while i < args.len()
        invariant
            i <= args@.len(),
            words == text::views(args@),
            out@ == arguments(words.take(i as int)),
        decreases args.len() - i,
    {
        proof {
            let t = words.take(i + 1);
            assert(t.drop_last() =~= words.take(i as int));
            assert(t.last() == args@[i as int]@);
        }
        let e = xml_str(&args[i]);
        out.append(&e);
        i += 1;
    }
    assert(words.take(words.len() as int) =~= words);
    out
}

/// Writes the plist.
pub fn render_plist(spec: &ServiceSpec, home: &str) -> (r: String)
    ensures
        r@ == plist_text(*spec, home@),
{
    let mut list = xml_str(&spec.binary);
    list.append("            <string>serve</string>\n");
    let rest = argument_list(&spec.args);
    list.append(&rest);
    let label = xml_escape(&spec.label);
    let dir = xml_escape(&spec.working_dir);
    let out_log = xml_escape(&path::join(&spec.log_dir, "stdout.log"));
    let err_log = xml_escape(&path::join(&spec.log_dir, "stderr.log"));
    let home_text = xml_escape(home);
    let mut s = String::from_str(
        "<?xml version=\"1.0\" encoding=\"UTF-8\"?>\n<!DOCTYPE plist PUBLIC \"-//Apple//DTD PLIST 1.0//EN\" \"http://www.apple.com/DTDs/PropertyList-1.0.dtd\">\n<plist version=\"1.0\">\n<dict>\n    <key>Label</key>\n    <string>",
    );
    s.append(&label);
    s.append("</string>\n    <key>ProgramArguments</key>\n    <array>\n");
    s.append(&list);
    s.append("    </array>\n    <key>RunAtLoad</key>\n    <");
    s.append(
        if spec.at_login {
            "true"
        } else {
            "false"
        },
    );
    s.append(
        "/>\n    <key>KeepAlive</key>\n    <dict>\n        <key>SuccessfulExit</key>\n        <false/>\n    </dict>\n    <key>WorkingDirectory</key>\n    <string>",
    );
    s.append(&dir);
    s.append("</string>\n    <key>StandardOutPath</key>\n    <string>");
    s.append(&out_log);
    s.append("</string>\n    <key>StandardErrorPath</key>\n    <string>");
    s.append(&err_log);
    s.append(
        "</string>\n    <key>EnvironmentVariables</key>\n    <dict>\n        <key>HOME</key>\n        <string>",
    );
    s.append(&home_text);
    s.append("</string>\n    </dict>\n</dict>\n</plist>\n");
    s
}

proof fn lemma_argument_listed(words: Seq<Seq<char>>, i: int) -> (k: int)
    requires
        0 <= i < words.len(),
    ensures
        text::occurs_at(arguments(words), argument(words[i]), k),
    decreases words.len(),
{
    let c = arguments(words);
    let init = arguments(words.drop_last());
    let w = argument(words[i]);
    if i == words.len() - 1 {
        let k: int = init.len() as int;
        assert(c.subrange(k, k + w.len()) =~= w);
        k
    } else {
        let k = lemma_argument_listed(words.drop_last(), i);
        assert(words.drop_last()[i] == words[i]);
        assert(init.subrange(k, k + w.len()) == w);
        assert(c.subrange(k, k + w.len()) =~= w);
        k
    }
}

/// The parts of a plist up to the working directory, and what follows.
proof fn lemma_plist_parts(spec: ServiceSpec, home: Seq<char>) -> (rest: Seq<char>)
    ensures
        plist_text(spec, home) == "<?xml version=\"1.0\" encoding=\"UTF-8\"?>\n<!DOCTYPE plist PUBLIC \"-//Apple//DTD PLIST 1.0//EN\" \"http://www.apple.com/DTDs/PropertyList-1.0.dtd\">\n<plist version=\"1.0\">\n<dict>\n    <key>Label</key>\n    <string>"@ + xml_text(spec.label@) + "</string>\n    <key>ProgramArguments</key>\n    <array>\n"@ + (argument(spec.binary@)
            + "            <string>serve</string>\n"@) + arguments(text::views(spec.args@)) + "    </array>\n    <key>RunAtLoad</key>\n    <"@
            + (if spec.at_login {
            "true"@
        } else {
            "false"@
        }) + "/>\n    <key>KeepAlive</key>\n    <dict>\n        <key>SuccessfulExit</key>\n        <false/>\n    </dict>\n    <key>WorkingDirectory</key>\n    <string>"@ + xml_text(spec.working_dir@) + "</string>\n    <key>StandardOutPath</key>\n    <string>"@ + rest,
{
    let rest = xml_text(path::joined(spec.log_dir@, "stdout.log"@))
        + "</string>\n    <key>StandardErrorPath</key>\n    <string>"@ + xml_text(
        path::joined(spec.log_dir@, "stderr.log"@),
    )
        + "</string>\n    <key>EnvironmentVariables</key>\n    <dict>\n        <key>HOME</key>\n        <string>"@
        + xml_text(home) + "</string>\n    </dict>\n</dict>\n</plist>\n"@;
    let flag = if spec.at_login {
        "true"@
    } else {
        "false"@
    };
    assert(plist_text(spec, home) =~= "<?xml version=\"1.0\" encoding=\"UTF-8\"?>\n<!DOCTYPE plist PUBLIC \"-//Apple//DTD PLIST 1.0//EN\" \"http://www.apple.com/DTDs/PropertyList-1.0.dtd\">\n<plist version=\"1.0\">\n<dict>\n    <key>Label</key>\n    <string>"@ + xml_text(spec.label@) + "</string>\n    <key>ProgramArguments</key>\n    <array>\n"@ + (argument(
        spec.binary@,
    ) + "            <string>serve</string>\n"@) + arguments(text::views(spec.args@)) + "    </array>\n    <key>RunAtLoad</key>\n    <"@
        + flag + "/>\n    <key>KeepAlive</key>\n    <dict>\n        <key>SuccessfulExit</key>\n        <false/>\n    </dict>\n    <key>WorkingDirectory</key>\n    <string>"@ + xml_text(spec.working_dir@) + "</string>\n    <key>StandardOutPath</key>\n    <string>"@ + rest);
    rest
}

/// A text between the end of one part and the beginning of the next stands in the whole.
proof fn lemma_between(
    before: Seq<char>,
    left: Seq<char>,
    value: Seq<char>,
    right: Seq<char>,
    after: Seq<char>,
    head: Seq<char>,
    tail: Seq<char>,
)
    requires
        head.is_suffix_of(left),
        tail.is_prefix_of(right),
    ensures
        service::mentions(before + left + value + right + after, head + value + tail),
{
    let s = before + left + value + right + after;
    let w = head + value + tail;
    let x = before + left.take(left.len() - head.len());
    let y = right.skip(tail.len() as int) + after;
    assert forall|i: int| 0 <= i < head.len() implies left[left.len() - head.len() + i] == head[i] by {
        assert(left.skip(left.len() - head.len())[i] == head[i]);
    }
    assert forall|i: int| 0 <= i < tail.len() implies right[i] == tail[i] by {
        assert(right.take(tail.len() as int)[i] == tail[i]);
    }
    assert(s =~= x + w + y);
    text::lemma_within(x, w, y);
}

/// The plist is for the agent of this label; it runs the binary with `serve` and with every
/// argument behind it, in the working directory of the service, and at login exactly where
/// that is asked for.
#[verifier::rlimit(40)]
pub proof fn law_the_plist_runs_the_service(spec: &ServiceSpec, home: &str, r: String, i: int)
    requires
        call_ensures(render_plist, (spec, home), r),
    ensures
        service::mentions(
            r@,
            "<key>Label</key>\n    <string>"@ + xml_text(spec.label@) + "</string>"@,
        ),
        service::mentions(r@, argument(spec.binary@) + "            <string>serve</string>\n"@),
        0 <= i < spec.args@.len() ==> service::mentions(r@, argument(spec.args@[i]@)),
        service::mentions(
            r@,
            "<key>RunAtLoad</key>\n    <"@ + (if spec.at_login {
                "true"@
            } else {
                "false"@
            }) + "/>"@,
        ),
        service::mentions(
            r@,
            "<key>WorkingDirectory</key>\n    <string>"@ + xml_text(spec.working_dir@)
                + "</string>"@,
        ),
{
    let rest = lemma_plist_parts(*spec, home@);
    let s = r@;
    let l = xml_text(spec.label@);
    let words = text::views(spec.args@);
    let prog = argument(spec.binary@) + "            <string>serve</string>\n"@;
    let args = arguments(words);
    let flag = if spec.at_login {
        "true"@
    } else {
        "false"@
    };
    let wd = xml_text(spec.working_dir@);
    let none = Seq::<char>::empty();
    lemma_plist_edges();
    let p0 = "<?xml version=\"1.0\" encoding=\"UTF-8\"?>\n<!DOCTYPE plist PUBLIC \"-//Apple//DTD PLIST 1.0//EN\" \"http://www.apple.com/DTDs/PropertyList-1.0.dtd\">\n<plist version=\"1.0\">\n<dict>\n    <key>Label</key>\n    <string>"@;
    let p1 = "</string>\n    <key>ProgramArguments</key>\n    <array>\n"@;
    let p2 = "    </array>\n    <key>RunAtLoad</key>\n    <"@;
    let p3 = "/>\n    <key>KeepAlive</key>\n    <dict>\n        <key>SuccessfulExit</key>\n        <false/>\n    </dict>\n    <key>WorkingDirectory</key>\n    <string>"@;
    let p4 = "</string>\n    <key>StandardOutPath</key>\n    <string>"@;
    lemma_regrouped(p0, l, p1, prog, args, p2, flag, p3, wd, p4, rest);
    lemma_between(
        none,
        p0,
        l,
        p1,
        prog + args + p2 + flag + p3 + wd + p4 + rest,
        "<key>Label</key>\n    <string>"@,
        "</string>"@,
    );
    text::lemma_within(p0 + l + p1, prog, args + p2 + flag + p3 + wd + p4 + rest);
    let front = p0 + l + p1 + prog;
    if 0 <= i < spec.args@.len() {
        assert(words[i] == spec.args@[i]@);
        let k = lemma_argument_listed(words, i);
        text::lemma_within_part(
            front,
            args,
            p2 + flag + p3 + wd + p4 + rest,
            argument(words[i]),
            k,
        );
    }
    lemma_between(
        front + args,
        p2,
        flag,
        p3,
        wd + p4 + rest,
        "<key>RunAtLoad</key>\n    <"@,
        "/>"@,
    );
    lemma_between(
        front + args + p2 + flag,
        p3,
        wd,
        p4,
        rest,
        "<key>WorkingDirectory</key>\n    <string>"@,
        "</string>"@,
    );
}

/// Eleven parts in a row, grouped around one of them.
proof fn lemma_regrouped(
    a: Seq<char>,
    b: Seq<char>,
    c: Seq<char>,
    d: Seq<char>,
    e: Seq<char>,
    f: Seq<char>,
    g: Seq<char>,
    h: Seq<char>,
    i: Seq<char>,
    j: Seq<char>,
    k: Seq<char>,
)
    ensures
        a + b + c + d + e + f + g + h + i + j + k == Seq::<char>::empty() + a + b + c + (d + e + f
            + g + h + i + j + k),
        a + b + c + d + e + f + g + h + i + j + k == (a + b + c) + d + (e + f + g + h + i + j + k),
        a + b + c + d + e + f + g + h + i + j + k == (a + b + c + d) + e + (f + g + h + i + j + k),
        a + b + c + d + e + f + g + h + i + j + k == ((a + b + c + d) + e) + f + g + h + (i + j
            + k),
{
    let s = a + b + c + d + e + f + g + h + i + j + k;
    assert(s =~= Seq::<char>::empty() + a + b + c + (d + e + f + g + h + i + j + k));
    assert(s =~= (a + b + c) + d + (e + f + g + h + i + j + k));
    assert(s =~= (a + b + c + d) + e + (f + g + h + i + j + k));
    assert(s =~= ((a + b + c + d) + e) + f + g + h + (i + j + k));
}

proof fn lemma_plist_edges()
    ensures
        "<key>Label</key>\n    <string>"@.is_suffix_of("<?xml version=\"1.0\" encoding=\"UTF-8\"?>\n<!DOCTYPE plist PUBLIC \"-//Apple//DTD PLIST 1.0//EN\" \"http://www.apple.com/DTDs/PropertyList-1.0.dtd\">\n<plist version=\"1.0\">\n<dict>\n    <key>Label</key>\n    <string>"@),
        "</string>"@.is_prefix_of("</string>\n    <key>ProgramArguments</key>\n    <array>\n"@),
        "<key>RunAtLoad</key>\n    <"@.is_suffix_of("    </array>\n    <key>RunAtLoad</key>\n    <"@),
        "/>"@.is_prefix_of("/>\n    <key>KeepAlive</key>\n    <dict>\n        <key>SuccessfulExit</key>\n        <false/>\n    </dict>\n    <key>WorkingDirectory</key>\n    <string>"@),
        "<key>WorkingDirectory</key>\n    <string>"@.is_suffix_of("/>\n    <key>KeepAlive</key>\n    <dict>\n        <key>SuccessfulExit</key>\n        <false/>\n    </dict>\n    <key>WorkingDirectory</key>\n    <string>"@),
        "</string>"@.is_prefix_of("</string>\n    <key>StandardOutPath</key>\n    <string>"@),
{
    reveal_strlit("<?xml version=\"1.0\" encoding=\"UTF-8\"?>\n<!DOCTYPE plist PUBLIC \"-//Apple//DTD PLIST 1.0//EN\" \"http://www.apple.com/DTDs/PropertyList-1.0.dtd\">\n<plist version=\"1.0\">\n<dict>\n    <key>Label</key>\n    <string>");
    reveal_strlit("</string>\n    <key>ProgramArguments</key>\n    <array>\n");
    reveal_strlit("    </array>\n    <key>RunAtLoad</key>\n    <");
    reveal_strlit("/>\n    <key>KeepAlive</key>\n    <dict>\n        <key>SuccessfulExit</key>\n        <false/>\n    </dict>\n    <key>WorkingDirectory</key>\n    <string>");
    reveal_strlit("</string>\n    <key>StandardOutPath</key>\n    <string>");
    reveal_strlit("<key>Label</key>\n    <string>");
    reveal_strlit("</string>");
    reveal_strlit("<key>RunAtLoad</key>\n    <");
    reveal_strlit("/>");
    reveal_strlit("<key>WorkingDirectory</key>\n    <string>");
    let a = "<?xml version=\"1.0\" encoding=\"UTF-8\"?>\n<!DOCTYPE plist PUBLIC \"-//Apple//DTD PLIST 1.0//EN\" \"http://www.apple.com/DTDs/PropertyList-1.0.dtd\">\n<plist version=\"1.0\">\n<dict>\n    <key>Label</key>\n    <string>"@;
    let x = "<key>Label</key>\n    <string>"@;
    assert(a.skip(a.len() - x.len()) =~= x);
    assert("</string>\n    <key>ProgramArguments</key>\n    <array>\n"@.take(9) =~= "</string>"@);
    let b = "    </array>\n    <key>RunAtLoad</key>\n    <"@;
    let y = "<key>RunAtLoad</key>\n    <"@;
    assert(b.skip(b.len() - y.len()) =~= y);
    let c = "/>\n    <key>KeepAlive</key>\n    <dict>\n        <key>SuccessfulExit</key>\n        <false/>\n    </dict>\n    <key>WorkingDirectory</key>\n    <string>"@;
    assert(c.take(2) =~= "/>"@);
    let z = "<key>WorkingDirectory</key>\n    <string>"@;
    assert(c.skip(c.len() - z.len()) =~= z);
    assert("</string>\n    <key>StandardOutPath</key>\n    <string>"@.take(9) =~= "</string>"@);
}

/// What is known of an agent: it is not installed, whatever the tool says, where there is no
/// plist; it stands still where the tool fails.
pub proof fn law_what_is_known_of_an_agent(installed: bool, print: &ToolOutput, r: ServiceStatus)
    requires
        call_ensures(status_of, (installed, print), r),
    ensures
        r is NotInstalled <==> !installed,
        installed && !print.success ==> r is Stopped,
        r is Running ==> print.success,
        installed && print.success && text::trimmed(print.stdout@) == print.stdout@
            && !print.stdout@.contains('\n') && "state = running"@.is_prefix_of(print.stdout@)
            ==> r is Running,
{
    let out = print.stdout@;
    if text::trimmed(out) == out && !out.contains('\n') && "state = running"@.is_prefix_of(out) {
        reveal_strlit("state = running");
        text::lemma_one_piece(out, '\n');
        let lines = text::lines(out);
        let p = text::pieces(out, '\n');
        assert(p.last() == out && out.len() > 0);
        assert(lines[lines.len() - 1] == out);
        assert(says_running(lines));
    }
}

/// A start is a success where the tool reports one, and where it says that the agent is already
/// loaded; a stop also where it says that there was nothing to stop.
pub proof fn law_what_counts_as_success(
    launchd: &Launchd,
    out: &ToolOutput,
    started: Result<(), String>,
    stopped: Result<(), String>,
    at: int,
)
    requires
        call_ensures(Launchd::start_outcome, (launchd, out), started),
        call_ensures(Launchd::stop_outcome, (launchd, out), stopped),
    ensures
        out.success ==> started is Ok && stopped is Ok,
        text::occurs_at(out.stderr@, "already"@, at) ==> started is Ok,
        text::occurs_at(out.stderr@, "Could not find"@, at) || text::occurs_at(
            out.stderr@,
            "No such"@,
            at,
        ) ==> stopped is Ok,
        !out.success && out.stderr@.len() == 0 ==> started is Err && stopped is Err,
{
    reveal_strlit("already");
    reveal_strlit("Service is enabled");
    reveal_strlit("Bootstrap failed: 5: Input/output error");
    reveal_strlit("Could not find");
    reveal_strlit("No such");
    if out.stderr@.len() == 0 {
        let e = out.stderr@;
        assert(!service::mentions(e, "already"@) && !service::mentions(e, "Service is enabled"@));
        assert(!service::mentions(e, "Bootstrap failed: 5: Input/output error"@));
        assert(!service::mentions(e, "Could not find"@) && !service::mentions(e, "No such"@));
    }
}

/// Escaping goes character by character: the text of two texts is the text of the one and then of
/// the other. What is no markup stays as it is.
pub proof fn law_escaping_goes_by_character(
    whole: &str,
    head: &str,
    tail: &str,
    x: String,
    y: String,
    z: String,
)
    requires
        whole@ == head@ + tail@,
        call_ensures(xml_escape, (whole,), x),
        call_ensures(xml_escape, (head,), y),
        call_ensures(xml_escape, (tail,), z),
    ensures
        x@ == y@ + z@,
        head@ == seq!['&'] ==> y@ == "&amp;"@,
        head@ == seq!['<'] ==> y@ == "&lt;"@,
        head@ == seq!['>'] ==> y@ == "&gt;"@,
        head@ == seq!['"'] ==> y@ == "&quot;"@,
        head@ == seq!['\''] ==> y@ == "&apos;"@,
        head@.len() == 1 && head@[0] != '&' && head@[0] != '<' && head@[0] != '>' && head@[0] != '"'
            && head@[0] != '\'' ==> y@ == head@,
{
    lemma_escaped_joins(head@, tail@);
    if head@.len() == 1 {
        reveal_with_fuel(xml_text, 2);
        let none = head@.drop_last();
        assert(none.len() == 0);
        assert(xml_text(none).len() == 0);
        assert(y@ =~= entity(head@[0]));
        assert(head@ =~= seq![head@[0]]);
    }
}

proof fn lemma_escaped_joins(a: Seq<char>, b: Seq<char>)
    ensures
        xml_text(a + b) == xml_text(a) + xml_text(b),
    decreases b.len(),
{
    if b.len() == 0 {
        assert(a + b =~= a);
        assert(xml_text(a) + xml_text(b) =~= xml_text(a));
    } else {
        assert((a + b).drop_last() =~= a + b.drop_last());
        assert((a + b).last() == b.last());
        lemma_escaped_joins(a, b.drop_last());
        assert(xml_text(a + b) =~= xml_text(a) + xml_text(b));
    }
}

/// A line of a dump that names a process tells that the agent runs under it.
pub proof fn law_a_named_process_runs(print: &ToolOutput, n: nat, r: ServiceStatus)
    requires
        print.success,
        n <= u32::MAX,
        print.stdout@ == "pid = "@ + text::digits(n),
        call_ensures(status_of, (true, print), r),
    ensures
        r matches ServiceStatus::Running { pid } && pid == Some(n as u32),
{
    reveal_strlit("pid = ");
    let d = text::digits(n);
    let s = print.stdout@;
    text::lemma_digits_read_back(n);
    assert(text::all_digits(d));
    assert forall|i: int| 0 <= i < d.len() implies !text::is_space(#[trigger] d[i]) && d[i]
        != '\n' by {
        assert('0' <= d[i] <= '9');
    }
    assert forall|i: int| 0 <= i < s.len() implies #[trigger] s[i] != '\n' by {
        if i >= 6 {
            assert(s[i] == d[i - 6]);
        }
    }
    assert(!s.contains('\n'));
    text::lemma_one_piece(s, '\n');
    let lines = text::lines(s);
    let p = text::pieces(s, '\n');
    assert(p.drop_last() =~= Seq::<Seq<char>>::empty());
    assert(lines =~= seq![s]);
    assert(s[0] == 'p' && s.last() == d.last());
    assert(!text::is_space(s[0]) && !text::is_space(s.last()));
    assert(text::trimmed(s) == s);
    assert("pid = "@.is_prefix_of(s)) by {
        assert(s.take(6) =~= "pid = "@);
    }
    assert(s.skip(6) =~= d);
    assert(text::trim_front(d) == d);
    lemma_first_word_whole(d);
    assert(pid_in_line(s) == Some(n as u32));
    assert(lines[0] == s);
}

proof fn lemma_first_word_whole(s: Seq<char>)
    requires
        forall|i: int| 0 <= i < s.len() ==> !text::is_space(#[trigger] s[i]),
    ensures
        first_word(s) == s,
    decreases s.len(),
{
    if s.len() > 0 {
        let t = s.skip(1);
        assert forall|i: int| 0 <= i < t.len() implies !text::is_space(#[trigger] t[i]) by {
            assert(t[i] == s[i + 1]);
        }
        lemma_first_word_whole(t);
        assert(seq![s[0]] + t =~= s);
    } else {
        assert(first_word(s) =~= s);
    }
}

/// The plist of an agent lies among the agents of the user under its label, and the agent is named
/// by the user and the label.
pub proof fn law_where_the_plist_lies(
    label: &str,
    home: &str,
    r: Launchd,
    agent: &Launchd,
    uid: u32,
    id: String,
    domain: String,
)
    requires
        call_ensures(Launchd::new, (label, home), r),
        *agent == r,
        call_ensures(Launchd::service_id, (agent, uid), id),
        call_ensures(user_domain, (uid,), domain),
        label@.len() > 0 && label@[0] != '/',
        home@.len() > 0 && home@.last() != '/',
    ensures
        r.label@ == label@,
        r.plist_path@ == home@ + "/Library/LaunchAgents/"@ + label@ + ".plist"@,
        id@ == domain@ + "/"@ + label@,
{
    reveal_strlit("Library/LaunchAgents");
    reveal_strlit("/Library/LaunchAgents/");
    reveal_strlit("/");
    let dir = path::joined(home@, "Library/LaunchAgents"@);
    assert(dir == home@ + "/"@ + "Library/LaunchAgents"@);
    assert(dir.last() == 's');
    let file = label@ + ".plist"@;
    assert(file[0] == label@[0]);
    assert(r.plist_path@ =~= home@ + "/Library/LaunchAgents/"@ + label@ + ".plist"@);
}

} // verus!
