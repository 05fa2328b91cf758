//! `skills.toml`: which adapters the daemon runs.

use crate::text;
use vstd::prelude::*;

verus! {

/// Seconds between polls of Gmail, where none are given.
pub const GMAIL_POLL_SECS: u32 = 60;

/// Seconds between polls of GitHub, where none are given.
pub const GITHUB_POLL_SECS: u32 = 300;

/// Source of the events of the file system adapter.
pub const FS_SOURCE: &'static str = "ctxd://adapter/fs";

/// The manifest.
#[derive(Debug)]
pub struct SkillsToml {
    /// The file system adapter.
    pub fs: Option<FsSkill>,
    /// The Gmail adapter.
    pub gmail: Option<GmailSkill>,
    /// The GitHub adapter.
    pub github: Option<GithubSkill>,
}

/// The file system adapter.
#[derive(Debug)]
pub struct FsSkill {
    /// Whether it runs.
    pub enabled: bool,
    /// Paths to watch.
    pub paths: Vec<String>,
}

/// The Gmail adapter.
#[derive(Debug)]
pub struct GmailSkill {
    /// Whether it runs.
    pub enabled: bool,
    /// The file with its token.
    pub token_file: String,
    /// Seconds between polls.
    pub poll_interval_s: u32,
}

/// The GitHub adapter.
#[derive(Debug)]
pub struct GithubSkill {
    /// Whether it runs.
    pub enabled: bool,
    /// The file with its token.
    pub token_file: String,
    /// Seconds between polls.
    pub poll_interval_s: u32,
}

impl Default for SkillsToml {
    fn default() -> (r: Self)
        ensures
            r.fs is None && r.gmail is None && r.github is None,
    {
        SkillsToml { fs: None, gmail: None, github: None }
    }
}

/// The paths on which the daemon starts a file system adapter: those of the manifest,
/// where the adapter is enabled.
pub fn spawn_from_manifest(manifest: &SkillsToml) -> (r: Vec<String>)
    ensures
        text::views(r@) == match manifest.fs {
            Some(fs) => if fs.enabled {
                text::views(fs.paths@)
            } else {
                Seq::empty()
            },
            None => Seq::empty(),
        },
{
    match &manifest.fs {
        Some(fs) => {
            if fs.enabled {
                return text::copy_texts(fs.paths.as_slice());
            }
        },
        None => {},
    }
    let none: Vec<String> = Vec::new();
    assert(text::views(none@) =~= Seq::empty());
    none
}

/// The manifest that watches these paths and runs nothing else.
pub fn manifest_for(paths: &[String]) -> (r: SkillsToml)
    ensures
        r.fs matches Some(fs) && fs.enabled && text::views(fs.paths@) == text::views(paths@),
        r.gmail is None && r.github is None,
{
    SkillsToml {
        fs: Some(FsSkill { enabled: true, paths: text::copy_texts(paths) }),
        gmail: None,
        github: None,
    }
}

/// The manifest written for some paths starts one adapter on each of them.
pub proof fn law_written_manifest_is_spawned(paths: Seq<String>, m: SkillsToml, r: Seq<String>)
    requires
        m.fs matches Some(fs) && fs.enabled && text::views(fs.paths@) == text::views(paths),
        text::views(r) == match m.fs {
            Some(fs) => if fs.enabled {
                text::views(fs.paths@)
            } else {
                Seq::empty()
            },
            None => Seq::empty(),
        },
    ensures
        r.len() == paths.len(),
        forall|i: int| 0 <= i < r.len() ==> (#[trigger] r[i])@ == paths[i]@,
{
    assert(text::views(r).len() == r.len());
    assert(text::views(paths).len() == paths.len());
    assert forall|i: int| 0 <= i < r.len() implies (#[trigger] r[i])@ == paths[i]@ by {
        assert(text::views(r)[i] == text::views(paths)[i]);
    }
}

/// An adapter is started on every path of the manifest that is written for those paths; one that
/// is not enabled, or not there, is started on none.
pub proof fn law_a_manifest_starts_its_paths(
    paths: &[String],
    m: SkillsToml,
    written: &SkillsToml,
    r: Vec<String>,
    other: &SkillsToml,
    s: Vec<String>,
)
    requires
        call_ensures(manifest_for, (paths,), m),
        *written == m,
        call_ensures(spawn_from_manifest, (written,), r),
        call_ensures(spawn_from_manifest, (other,), s),
    ensures
        text::views(r@) == text::views(paths@),
        m.gmail is None && m.github is None,
        other.fs is None ==> s@.len() == 0,
        other.fs matches Some(fs) ==> (!fs.enabled ==> s@.len() == 0),
        other.fs matches Some(fs) ==> (fs.enabled ==> text::views(s@) == text::views(fs.paths@)),
{
    assert(text::views(s@).len() == s@.len());
}

} // verus!
