//! Where files lie, on each platform.
//!
//! | Purpose        | macOS                                 | Linux                                   | Windows               |
//! |----------------|---------------------------------------|-----------------------------------------|-----------------------|
//! | data           | `~/Library/Application Support/ctxd/` | data directory of the user              | the same              |
//! | config         | `~/Library/Application Support/ctxd/` | config directory of the user            | the same              |
//! | logs           | `~/Library/Logs/ctxd/`                | `logs` in the state directory of the user | `%APPDATA%/ctxd/logs` |

use crate::onboard::service::Platform;
use crate::path;
use crate::text;
use vstd::prelude::*;

verus! {

/// Label of the service, in reverse-DNS form.
pub const SERVICE_LABEL: &'static str = "dev.ctxd.daemon";

/// The directories that the platform sets aside for the project.
#[derive(Debug)]
pub struct ProjectPaths {
    /// For data.
    pub data: String,
    /// For configuration.
    pub config: String,
    /// For state, where the platform has such a one.
    pub state: Option<String>,
}

/// What the environment of the process says.
#[derive(Debug)]
pub struct Surroundings {
    /// The platform.
    pub platform: Platform,
    /// `CTXD_DATA_DIR`.
    pub data_override: Option<String>,
    /// `CTXD_CONFIG_DIR`.
    pub config_override: Option<String>,
    /// `HOME`.
    pub home: Option<String>,
    /// `USERPROFILE`.
    pub user_profile: Option<String>,
    /// `APPDATA`.
    pub app_data: Option<String>,
    /// The directories of the project, where they could be found out.
    pub project: Option<ProjectPaths>,
}

/// Why no directory of the project is known.
pub open spec fn no_project() -> Seq<char> {
    "could not resolve user directories — $HOME unset?"@
}

/// Both are paths with this text, or both failures with this message.
pub open spec fn tells(r: Result<String, String>, expected: Result<Seq<char>, Seq<char>>) -> bool {
    match (r, expected) {
        (Ok(a), Ok(b)) => a@ == b,
        (Err(a), Err(b)) => a@ == b,
        _ => false,
    }
}

/// A place below the home directory.
pub open spec fn below_home(s: Surroundings, rest: Seq<char>) -> Result<Seq<char>, Seq<char>> {
    match s.home {
        Some(h) => Ok(path::joined(h@, rest)),
        None => Err("$HOME not set"@),
    }
}

/// A place below the directory of the applications' data.
pub open spec fn below_app_data(s: Surroundings, rest: Seq<char>) -> Result<Seq<char>, Seq<char>> {
    match s.app_data {
        Some(d) => Ok(path::joined(d@, rest)),
        None => Err("%APPDATA% not set"@),
    }
}

/// A place below a directory that may be unknown.
pub open spec fn below(dir: Result<Seq<char>, Seq<char>>, rest: Seq<char>) -> Result<
    Seq<char>,
    Seq<char>,
> {
    match dir {
        Ok(d) => Ok(path::joined(d, rest)),
        Err(e) => Err(e),
    }
}

/// Where data lies: where it is told to, or in the place of the platform.
pub open spec fn data_place(s: Surroundings) -> Result<Seq<char>, Seq<char>> {
    if s.data_override matches Some(p) && p@.len() > 0 {
        Ok(s.data_override->0@)
    } else if s.platform is MacOs {
        below_home(s, "Library/Application Support/ctxd"@)
    } else if s.platform is Windows {
        below_app_data(s, "ctxd/data"@)
    } else {
        match s.project {
            Some(p) => Ok(p.data@),
            None => Err(no_project()),
        }
    }
}

/// Where configuration lies; on macOS beside the data.
pub open spec fn config_place(s: Surroundings) -> Result<Seq<char>, Seq<char>> {
    if s.config_override matches Some(p) && p@.len() > 0 {
        Ok(s.config_override->0@)
    } else if s.platform is MacOs {
        data_place(s)
    } else if s.platform is Windows {
        below_app_data(s, "ctxd/config"@)
    } else {
        match s.project {
            Some(p) => Ok(p.config@),
            None => Err(no_project()),
        }
    }
}

/// Where logs lie.
pub open spec fn log_place(s: Surroundings) -> Result<Seq<char>, Seq<char>> {
    match s.platform {
        Platform::MacOs => below_home(s, "Library/Logs/ctxd"@),
        Platform::Windows => below_app_data(s, "ctxd/logs"@),
        _ => match s.project {
            Some(p) => match p.state {
                Some(d) => Ok(path::joined(d@, "logs"@)),
                None => Ok(path::joined(p.data@, "logs"@)),
            },
            None => Err(no_project()),
        },
    }
}

/// The file of the desktop client in one of its directories.
pub open spec fn desktop_file(dir: Seq<char>) -> Seq<char> {
    path::joined(text::slashed(dir), "claude_desktop_config.json"@)
}

/// Where the desktop client has its configuration.
pub open spec fn desktop_place(s: Surroundings) -> Result<Seq<char>, Seq<char>> {
    match s.platform {
        Platform::MacOs => below_home(s, desktop_file("Library_Application Support_Claude_"@)),
        Platform::Linux => below_home(s, desktop_file(".config_Claude_"@)),
        Platform::Windows => below_app_data(s, desktop_file("Claude_"@)),
        Platform::Other => Err(text::spaced("unsupported platform for Claude_Desktop"@)),
    }
}

/// Where the coding client has its settings.
pub open spec fn code_place(s: Surroundings) -> Result<Seq<char>, Seq<char>> {
    if s.platform is Windows {
        below_app_data(s, text::spaced("Claude_Code/settings.json"@))
    } else {
        match (s.home, s.user_profile) {
            (Some(h), _) => Ok(path::joined(h@, text::slashed(".claude_settings.json"@))),
            (None, Some(h)) => Ok(path::joined(h@, text::slashed(".claude_settings.json"@))),
            (None, None) => Err("$HOME / %USERPROFILE% not set"@),
        }
    }
}

fn home_path(s: &Surroundings, rest: &str) -> (r: Result<String, String>)
    ensures
        tells(r, below_home(*s, rest@)),
{
    match &s.home {
        Some(h) => Ok(path::join(h, rest)),
        None => Err(String::from_str("$HOME not set")),
    }
}

fn app_data_path(s: &Surroundings, rest: &str) -> (r: Result<String, String>)
    ensures
        tells(r, below_app_data(*s, rest@)),
{
    match &s.app_data {
        Some(d) => Ok(path::join(d, rest)),
        None => Err(String::from_str("%APPDATA% not set")),
    }
}

fn desktop_config_in(dir: &str) -> (r: String)
    ensures
        r@ == desktop_file(dir@),
{
    let place = text::to_path(dir);
    path::join(&place, "claude_desktop_config.json")
}

fn within(dir: Result<String, String>, rest: &str) -> (r: Result<String, String>)
    ensures
        match dir {
            Ok(d) => r matches Ok(p) && p@ == path::joined(d@, rest@),
            Err(e) => r matches Err(f) && f@ == e@,
        },
{
    match dir {
        Ok(d) => Ok(path::join(&d, rest)),
        Err(e) => Err(e),
    }
}

impl Surroundings {
    /// Where the database and the index lie.
    pub fn data_dir(&self) -> (r: Result<String, String>)
        ensures
            tells(r, data_place(*self)),
    {
        match &self.data_override {
            Some(p) => {
                if p.as_str().unicode_len() > 0 {
                    return Ok(String::from_str(p));
                }
            },
            None => {},
        }
        if self.platform == Platform::MacOs {
            return home_path(self, "Library/Application Support/ctxd");
        }
        if self.platform == Platform::Windows {
            return app_data_path(self, "ctxd/data");
        }
        match &self.project {
            Some(p) => Ok(String::from_str(&p.data)),
            None => Err(String::from_str("could not resolve user directories — $HOME unset?")),
        }
    }

    /// Where configuration lies.
    pub fn config_dir(&self) -> (r: Result<String, String>)
        ensures
            tells(r, config_place(*self)),
    {
        match &self.config_override {
            Some(p) => {
                if p.as_str().unicode_len() > 0 {
                    return Ok(String::from_str(p));
                }
            },
            None => {},
        }
        if self.platform == Platform::MacOs {
            return self.data_dir();
        }
        if self.platform == Platform::Windows {
            return app_data_path(self, "ctxd/config");
        }
        match &self.project {
            Some(p) => Ok(String::from_str(&p.config)),
            None => Err(String::from_str("could not resolve user directories — $HOME unset?")),
        }
    }

    /// Where log files lie.
    pub fn log_dir(&self) -> (r: Result<String, String>)
        ensures
            tells(r, log_place(*self)),
    {
        match self.platform {
            Platform::MacOs => home_path(self, "Library/Logs/ctxd"),
            Platform::Windows => app_data_path(self, "ctxd/logs"),
            _ => match &self.project {
                Some(p) => match &p.state {
                    Some(d) => Ok(path::join(d, "logs")),
                    None => Ok(path::join(&p.data, "logs")),
                },
                None => Err(String::from_str("could not resolve user directories — $HOME unset?")),
            },
        }
    }

    /// The database, where none is named.
    pub fn default_db_path(&self) -> (r: Result<String, String>)
        ensures
            tells(r, below(data_place(*self), "ctxd.db"@)),
    {
        within(self.data_dir(), "ctxd.db")
    }

    /// Where the capability files lie.
    pub fn caps_dir(&self) -> (r: Result<String, String>)
        ensures
            tells(r, below(config_place(*self), "caps"@)),
    {
        within(self.config_dir(), "caps")
    }

    /// Where the tokens of adapters lie.
    pub fn adapter_tokens_dir(&self) -> (r: Result<String, String>)
        ensures
            tells(r, below(config_place(*self), "adapter-tokens"@)),
    {
        within(self.config_dir(), "adapter-tokens")
    }

    /// Where snapshots lie.
    pub fn snapshots_dir(&self) -> (r: Result<String, String>)
        ensures
            tells(r, below(data_place(*self), "onboard-snapshots"@)),
    {
        within(self.data_dir(), "onboard-snapshots")
    }

    /// The adapter manifest.
    pub fn skills_toml_path(&self) -> (r: Result<String, String>)
        ensures
            tells(r, below(config_place(*self), "skills.toml"@)),
    {
        within(self.config_dir(), "skills.toml")
    }

    /// The snippet for Codex.
    pub fn codex_snippet_path(&self) -> (r: Result<String, String>)
        ensures
            tells(r, below(config_place(*self), "codex.snippet.toml"@)),
    {
        within(self.config_dir(), "codex.snippet.toml")
    }

    /// The configuration of the desktop client.
    pub fn claude_desktop_config(&self) -> (r: Result<String, String>)
        ensures
            tells(r, desktop_place(*self)),
    {
        match self.platform {
            Platform::MacOs => home_path(
                self,
                &desktop_config_in("Library_Application Support_Claude_"),
            ),
            Platform::Linux => home_path(self, &desktop_config_in(".config_Claude_")),
            Platform::Windows => app_data_path(self, &desktop_config_in("Claude_")),
            Platform::Other => Err(
                text::to_words("unsupported platform for Claude_Desktop"),
            ),
        }
    }

    /// The settings of the coding client.
    pub fn claude_code_config(&self) -> (r: Result<String, String>)
        ensures
            tells(r, code_place(*self)),
    {
        if self.platform == Platform::Windows {
            return app_data_path(
                self,
                &text::to_words("Claude_Code/settings.json"),
            );
        }
        let file = text::to_path(".claude_settings.json");
        match &self.home {
            Some(h) => Ok(path::join(h, &file)),
            None => match &self.user_profile {
                Some(h) => Ok(path::join(h, &file)),
                None => Err(String::from_str("$HOME / %USERPROFILE% not set")),
            },
        }
    }
}

/// The default database lies in the data directory, and both are known together.
pub proof fn law_default_db_is_in_the_data_directory(s: Surroundings, db: String, dir: String)
    requires
        tells(Ok(db), below(data_place(s), "ctxd.db"@)),
        tells(Ok(dir), data_place(s)),
    ensures
        db@ == path::joined(dir@, "ctxd.db"@),
{
}

/// Everything of the project lies in its data directory or its configuration directory, and is
/// known exactly where that is.
pub proof fn law_places_lie_in_their_directory(
    s: &Surroundings,
    data: Result<String, String>,
    config: Result<String, String>,
    db: Result<String, String>,
    snapshots: Result<String, String>,
    caps: Result<String, String>,
    tokens: Result<String, String>,
    manifest: Result<String, String>,
    snippet: Result<String, String>,
)
    requires
        call_ensures(Surroundings::data_dir, (s,), data),
        call_ensures(Surroundings::config_dir, (s,), config),
        call_ensures(Surroundings::default_db_path, (s,), db),
        call_ensures(Surroundings::snapshots_dir, (s,), snapshots),
        call_ensures(Surroundings::caps_dir, (s,), caps),
        call_ensures(Surroundings::adapter_tokens_dir, (s,), tokens),
        call_ensures(Surroundings::skills_toml_path, (s,), manifest),
        call_ensures(Surroundings::codex_snippet_path, (s,), snippet),
    ensures
        data matches Ok(d) ==> (db matches Ok(p) && p@ == path::joined(d@, "ctxd.db"@)),
        data matches Ok(d) ==> (snapshots matches Ok(p) && p@ == path::joined(
            d@,
            "onboard-snapshots"@,
        )),
        data is Err ==> db is Err && snapshots is Err,
        config matches Ok(d) ==> (caps matches Ok(p) && p@ == path::joined(d@, "caps"@)),
        config matches Ok(d) ==> (tokens matches Ok(p) && p@ == path::joined(
            d@,
            "adapter-tokens"@,
        )),
        config matches Ok(d) ==> (manifest matches Ok(p) && p@ == path::joined(
            d@,
            "skills.toml"@,
        )),
        config matches Ok(d) ==> (snippet matches Ok(p) && p@ == path::joined(
            d@,
            "codex.snippet.toml"@,
        )),
        config is Err ==> caps is Err && tokens is Err && manifest is Err && snippet is Err,
{
}

/// Where the two directories lie. What the user sets comes first, on every platform, and an
/// empty setting does not count. Without one the data lie below the home directory on macOS,
/// below the applications' data on Windows, and where the platform has them elsewhere; and the
/// configuration in a place of its own, but on macOS with the data.
pub proof fn law_settings_come_first(
    s: &Surroundings,
    data: Result<String, String>,
    config: Result<String, String>,
)
    requires
        call_ensures(Surroundings::data_dir, (s,), data),
        call_ensures(Surroundings::config_dir, (s,), config),
    ensures
        s.data_override matches Some(p) ==> (p@.len() > 0 ==> (data matches Ok(d) && d@ == p@)),
        s.config_override matches Some(p) ==> (p@.len() > 0 ==> (config matches Ok(d) && d@
            == p@)),
        (s.data_override is None || s.data_override->0@.len() == 0) ==> {
            &&& s.platform is MacOs ==> (data is Ok <==> s.home is Some)
            &&& s.platform is Windows ==> (data is Ok <==> s.app_data is Some)
            &&& s.platform is Linux || s.platform is Other ==> (data is Ok <==> s.project is Some)
            &&& s.platform is Linux || s.platform is Other ==> (data matches Ok(d) ==> d@
                == s.project->0.data@)
        },
        (s.config_override is None || s.config_override->0@.len() == 0) ==> {
            &&& s.platform is MacOs ==> (config is Ok <==> data is Ok) && (config matches Ok(c)
                ==> (data matches Ok(d) && c@ == d@))
            &&& s.platform is Windows ==> (config is Ok <==> s.app_data is Some)
            &&& s.platform is Linux || s.platform is Other ==> (config is Ok <==> s.project is Some)
            &&& s.platform is Linux || s.platform is Other ==> (config matches Ok(c) ==> c@
                == s.project->0.config@)
        },
{
}

/// Where the two clients have their configuration: below the home directory on macOS and Linux,
/// below the applications' data on Windows. On any other platform the desktop client has none
/// that is known, and the coding client its own below the home directory.
pub proof fn law_where_the_clients_have_theirs(
    s: &Surroundings,
    desktop: Result<String, String>,
    code: Result<String, String>,
)
    requires
        call_ensures(Surroundings::claude_desktop_config, (s,), desktop),
        call_ensures(Surroundings::claude_code_config, (s,), code),
    ensures
        s.platform is MacOs || s.platform is Linux ==> (desktop is Ok <==> s.home is Some),
        s.platform is Windows ==> (desktop is Ok <==> s.app_data is Some),
        s.platform is Other ==> desktop is Err,
        s.platform is Windows ==> (code is Ok <==> s.app_data is Some),
        !(s.platform is Windows) ==> (code is Ok <==> s.home is Some || s.user_profile is Some),
        s.platform is Linux ==> (s.home matches Some(h) ==> (desktop matches Ok(p) && h@.is_prefix_of(
            p@,
        ))),
        !(s.platform is Windows) ==> (s.home matches Some(h) ==> (code matches Ok(p)
            && h@.is_prefix_of(p@))),
{
    reveal_strlit(".claude_settings.json");
    reveal_strlit(".config_Claude_");
    reveal_strlit("claude_desktop_config.json");
    if let Some(h) = s.home {
        if !(s.platform is Windows) {
            let rest = text::slashed(".claude_settings.json"@);
            assert(rest[0] == '.');
            if let Ok(p) = code {
                assert(p@.take(h@.len() as int) =~= h@);
            }
        }
        if s.platform is Linux {
            let dir = text::slashed(".config_Claude_"@);
            assert(dir[0] == '.');
            let rest = desktop_file(".config_Claude_"@);
            assert(rest[0] == '.');
            if let Ok(p) = desktop {
                assert(p@.take(h@.len() as int) =~= h@);
            }
        }
    }
}

/// Where the project has its places on each platform that has none of its own settings: on macOS in
/// the library of the user, with the logs apart from the data; on Windows each in a directory of
/// its own; elsewhere where the platform says, with the logs below the state, or below the
/// data where there is no state.
pub proof fn law_places_of_the_platforms(
    s: &Surroundings,
    data: Result<String, String>,
    config: Result<String, String>,
    logs: Result<String, String>,
)
    requires
        s.data_override is None && s.config_override is None,
        call_ensures(Surroundings::data_dir, (s,), data),
        call_ensures(Surroundings::config_dir, (s,), config),
        call_ensures(Surroundings::log_dir, (s,), logs),
    ensures
        s.platform is MacOs ==> (s.home matches Some(h) ==> (data matches Ok(d) && d@
            == path::joined(h@, "Library/Application Support/ctxd"@) && (logs matches Ok(l) && l@
            == path::joined(h@, "Library/Logs/ctxd"@)))),
        s.platform is Windows ==> (s.app_data matches Some(a) ==> (data matches Ok(d) && d@
            == path::joined(a@, "ctxd/data"@) && (config matches Ok(c) && c@ == path::joined(
            a@,
            "ctxd/config"@,
        )) && (logs matches Ok(l) && l@ == path::joined(a@, "ctxd/logs"@)))),
        s.platform is Linux || s.platform is Other ==> (s.project matches Some(p) ==> (
        logs matches Ok(l) && (p.state matches Some(x) ==> l@ == path::joined(x@, "logs"@)) && (
        p.state is None ==> l@ == path::joined(p.data@, "logs"@)))),
        logs is Err <==> data is Err,
{
}

/// The files of the two clients: each under its own name.
pub proof fn law_files_of_the_clients(
    s: &Surroundings,
    desktop: Result<String, String>,
    code: Result<String, String>,
)
    requires
        call_ensures(Surroundings::claude_desktop_config, (s,), desktop),
        call_ensures(Surroundings::claude_code_config, (s,), code),
    ensures
        desktop matches Ok(p) ==> "claude_desktop_config.json"@.is_suffix_of(p@),
        code matches Ok(p) ==> "settings.json"@.is_suffix_of(p@),
{
    reveal_strlit("claude_desktop_config.json");
    reveal_strlit("settings.json");
    reveal_strlit("Claude_Code/settings.json");
    reveal_strlit(".claude_settings.json");
    let n = "claude_desktop_config.json"@;
    assert(n[0] == 'c');
    if let Ok(p) = desktop {
        assert(p@.skip(p@.len() - n.len()) =~= n);
    }
    let m = "settings.json"@;
    let a = text::spaced("Claude_Code/settings.json"@);
    let b = text::slashed(".claude_settings.json"@);
    assert(a.skip(a.len() - m.len()) =~= m);
    assert(b.skip(b.len() - m.len()) =~= m);
    if let Ok(p) = code {
        let t = if s.platform is Windows { a } else { b };
        assert(t.len() > 0 && t[0] != '/');
        assert(p@.skip(p@.len() - t.len()) =~= t);
        assert(p@.skip(p@.len() - m.len()) =~= t.skip(t.len() - m.len()));
    }
}

} // verus!
