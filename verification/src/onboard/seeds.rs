//! The events with which a fresh install begins: `/me/profile`, `/me/preferences` and
//! `/me/about`.
//!
//! A subject that already has an event is left alone, so that seeding again adds
//! nothing.

use crate::json::Json;
use crate::outside;
use crate::text;
use crate::textmap::TextMap;
use crate::time::Timestamp;
use vstd::prelude::*;

verus! {

/// Source of the seeded events.
pub const SEED_SOURCE: &'static str = "ctxd://onboard";

/// An event to write.
#[derive(Debug)]
pub struct SeedEvent {
    /// Its subject.
    pub subject: String,
    /// Its type.
    pub event_type: String,
    /// Its data.
    pub data: Json,
}

/// Outcome of a seeding.
#[derive(Debug)]
pub struct SeedReport {
    /// Subjects that get an event.
    pub created: Vec<String>,
    /// Subjects that have one.
    pub skipped: Vec<String>,
}

/// Which of the subjects have events.
#[derive(Debug, Clone, Copy)]
pub struct Seeded {
    /// `/me/profile`.
    pub profile: bool,
    /// `/me/preferences`.
    pub preferences: bool,
    /// `/me/about`.
    pub about: bool,
}

/// What is known of the user and the machine.
#[derive(Debug)]
pub struct ProfileFacts {
    /// Name of the machine.
    pub hostname: Option<String>,
    /// Operating system.
    pub os: String,
    /// Architecture.
    pub arch: String,
    /// `user.name` of git.
    pub git_user_name: Option<String>,
    /// `user.email` of git.
    pub git_user_email: Option<String>,
    /// The time.
    pub now: Timestamp,
}

/// The name of the machine, or `unknown`.
pub open spec fn host_or_unknown(h: Option<String>) -> Seq<char> {
    match h {
        Some(x) => x@,
        None => "unknown"@,
    }
}

/// A member that is there exactly where a text is given, and then is that text.
pub open spec fn optional_member(v: Json, name: Seq<char>, value: Option<String>) -> bool {
    match value {
        Some(s) => v.members().dom().contains(name) && v.members()[name].is_text(s@),
        None => !v.members().dom().contains(name),
    }
}

/// The names that a profile may have.
pub open spec fn profile_names() -> Set<Seq<char>> {
    set!["hostname"@, "platform"@, "onboarded_at"@, "git_user_name"@, "git_user_email"@]
}

/// The value is the profile with these facts.
pub open spec fn is_profile(v: Json, f: ProfileFacts) -> bool {
    let m = v.members();
    &&& v is Object
    &&& m.dom().subset_of(profile_names())
    &&& m.dom().contains("hostname"@) && m["hostname"@].is_text(host_or_unknown(f.hostname))
    &&& m.dom().contains("platform"@) && m["platform"@].is_text(f.os@ + "-"@ + f.arch@)
    &&& match outside::rfc3339_text(f.now) {
        Some(t) => m.dom().contains("onboarded_at"@) && m["onboarded_at"@].is_text(t),
        None => !m.dom().contains("onboarded_at"@),
    }
    &&& optional_member(v, "git_user_name"@, f.git_user_name)
    &&& optional_member(v, "git_user_email"@, f.git_user_email)
}

proof fn reveal_profile_names()
    ensures
        "hostname"@.len() == 8 && "platform"@.len() == 8 && "onboarded_at"@.len() == 12,
        "git_user_name"@.len() == 13 && "git_user_email"@.len() == 14,
        "hostname"@[0] == 'h' && "platform"@[0] == 'p',
{
    reveal_strlit("hostname");
    reveal_strlit("platform");
    reveal_strlit("onboarded_at");
    reveal_strlit("git_user_name");
    reveal_strlit("git_user_email");
}

/// The data of `/me/profile`.
pub fn profile_payload(facts: &ProfileFacts) -> (r: Json)
    ensures
        is_profile(r, *facts),
{
    proof {
        reveal_profile_names();
    }
    let mut m: TextMap<Json> = TextMap::new();
    match &facts.hostname {
        Some(h) => {
            m.insert("hostname", Json::text(h));
        },
        None => {
            m.insert("hostname", Json::text("unknown"));
        },
    }
    let mut platform = String::from_str(&facts.os);
    platform.append("-");
    platform.append(&facts.arch);
    m.insert("platform", Json::text(&platform));
    match outside::format_rfc3339(facts.now) {
        Some(t) => {
            m.insert("onboarded_at", Json::text(&t));
        },
        None => {},
    }
    match &facts.git_user_name {
        Some(n) => {
            m.insert("git_user_name", Json::text(n));
        },
        None => {},
    }
    match &facts.git_user_email {
        Some(n) => {
            m.insert("git_user_email", Json::text(n));
        },
        None => {},
    }
    Json::Object(m)
}

/// The value has this hint and this text.
pub open spec fn is_note(v: Json, text: Seq<char>, hint: Seq<char>) -> bool {
    &&& v.has_members(set!["text"@, "hint"@])
    &&& v.members()["text"@].is_text(text)
    &&& v.members()["hint"@].is_text(hint)
}

fn note(text: &str, hint: &str) -> (r: Json)
    ensures
        is_note(r, text@, hint@),
{
    proof {
        reveal_strlit("text");
        reveal_strlit("hint");
        assert("text"@[0] == 't' && "hint"@[0] == 'h');
    }
    let mut m: TextMap<Json> = TextMap::new();
    m.insert("text", Json::text(text));
    m.insert("hint", Json::text(hint));
    assert(m@.dom() =~= set!["text"@, "hint"@]);
    Json::Object(m)
}

/// The text of `/me/preferences`.
pub open spec fn preferences_text() -> Seq<char> {
    "No preferences captured yet. Tell your AI things like 'I prefer TypeScript for new projects' or 'remember I'm a vegetarian' — they'll be saved here."@
}

/// The data of `/me/preferences`.
pub fn preferences_payload() -> (r: Json)
    ensures
        is_note(r, preferences_text(), "preferences-empty"@),
{
    note(
        "No preferences captured yet. Tell your AI things like 'I prefer TypeScript for new projects' or 'remember I'm a vegetarian' — they'll be saved here.",
        "preferences-empty",
    )
}

/// The text of `/me/about`.
pub open spec fn about_text() -> Seq<char> {
    text::spaced(
        "ctxd is your shared memory across AI tools. Anything you tell Claude_Desktop, Claude_Code, or Codex lands in the same context graph — so a fact you taught one assistant is visible to all of them. Run `ctxd doctor` anytime to see status."@,
    )
}

/// The data of `/me/about`.
pub fn about_payload() -> (r: Json)
    ensures
        is_note(r, about_text(), "welcome"@),
{
    let text = text::to_words(
        "ctxd is your shared memory across AI tools. Anything you tell Claude_Desktop, Claude_Code, or Codex lands in the same context graph — so a fact you taught one assistant is visible to all of them. Run `ctxd doctor` anytime to see status.",
    );
    note(&text, "welcome")
}

/// The subjects, in the order in which they are seeded.
pub open spec fn seed_subjects() -> Seq<Seq<char>> {
    seq!["/me/profile"@, "/me/preferences"@, "/me/about"@]
}

/// Whether each subject has events, in the same order.
pub open spec fn flags(s: Seeded) -> Seq<bool> {
    seq![s.profile, s.preferences, s.about]
}

/// The subjects with this flag.
pub open spec fn chosen(s: Seeded, wanted: bool, n: nat) -> Seq<Seq<char>>
    decreases n,
{
    if n == 0 {
        Seq::empty()
    } else {
        let rest = chosen(s, wanted, (n - 1) as nat);
        if flags(s)[n - 1] == wanted {
            rest.push(seed_subjects()[n - 1])
        } else {
            rest
        }
    }
}

/// The event belongs to its subject.
pub open spec fn is_seed(e: SeedEvent, f: ProfileFacts) -> bool {
    if e.subject@ == "/me/profile"@ {
        e.event_type@ == "ctx.fact"@ && is_profile(e.data, f)
    } else if e.subject@ == "/me/preferences"@ {
        e.event_type@ == "ctx.note"@ && is_note(e.data, preferences_text(), "preferences-empty"@)
    } else {
        e.subject@ == "/me/about"@ && e.event_type@ == "ctx.note"@ && is_note(
            e.data,
            about_text(),
            "welcome"@,
        )
    }
}

/// The subjects of events.
pub open spec fn subjects_of(s: Seq<SeedEvent>) -> Seq<Seq<char>> {
    s.map_values(|e: SeedEvent| e.subject@)
}

/// What a seeding does: one event for each subject without one, and no other.
pub open spec fn seeds(
    s: Seeded,
    f: ProfileFacts,
    events: Seq<SeedEvent>,
    report: SeedReport,
) -> bool {
    &&& text::views(report.created@) == chosen(s, false, 3)
    &&& text::views(report.skipped@) == chosen(s, true, 3)
    &&& subjects_of(events) == chosen(s, false, 3)
    &&& forall|i: int| 0 <= i < events.len() ==> is_seed(#[trigger] events[i], f)
}

fn seed_event(subject: &str, event_type: &str, data: Json) -> (r: SeedEvent)
    ensures
        r.subject@ == subject@ && r.event_type@ == event_type@ && r.data == data,
{
    SeedEvent {
        subject: String::from_str(subject),
        event_type: String::from_str(event_type),
        data,
    }
}

fn place(
    present: bool,
    event: SeedEvent,
    events: &mut Vec<SeedEvent>,
    created: &mut Vec<String>,
    skipped: &mut Vec<String>,
)
    ensures
        present ==> final(events)@ == old(events)@ && text::views(final(created)@) == text::views(
            old(created)@,
        ) && text::views(final(skipped)@) == text::views(old(skipped)@).push(event.subject@),
        !present ==> final(events)@ == old(events)@.push(event) && text::views(final(created)@)
            == text::views(old(created)@).push(event.subject@) && text::views(final(skipped)@)
            == text::views(old(skipped)@),
{
    let name = String::from_str(&event.subject);
    if present {
        skipped.push(name);
        assert(text::views(skipped@) =~= text::views(old(skipped)@).push(event.subject@));
    } else {
        created.push(name);
        assert(text::views(created@) =~= text::views(old(created)@).push(event.subject@));
        events.push(event);
    }
}

/// What to write so that each subject has an event.
pub fn seed(present: Seeded, facts: &ProfileFacts) -> (r: (Vec<SeedEvent>, SeedReport))
    ensures
        seeds(present, *facts, r.0@, r.1),
{
    proof {
        reveal_strlit("/me/profile");
        reveal_strlit("/me/preferences");
        reveal_strlit("/me/about");
        assert("/me/profile"@.len() == 11 && "/me/preferences"@.len() == 15);
        assert("/me/about"@.len() == 9);
        reveal_with_fuel(chosen, 4);
    }
    let mut events: Vec<SeedEvent> = Vec::new();
    let mut created: Vec<String> = Vec::new();
    let mut skipped: Vec<String> = Vec::new();
    assert(text::views(created@) =~= chosen(present, false, 0));
    assert(text::views(skipped@) =~= chosen(present, true, 0));
    let e = seed_event("/me/profile", "ctx.fact", profile_payload(facts));
    place(present.profile, e, &mut events, &mut created, &mut skipped);
    let e = seed_event("/me/preferences", "ctx.note", preferences_payload());
    place(present.preferences, e, &mut events, &mut created, &mut skipped);
    let e = seed_event("/me/about", "ctx.note", about_payload());
    place(present.about, e, &mut events, &mut created, &mut skipped);
    assert(subjects_of(events@) =~= chosen(present, false, 3));
    (events, SeedReport { created, skipped })
}

/// What to write so that each subject has a new event, whatever it has.
pub fn seed_force(facts: &ProfileFacts) -> (r: (Vec<SeedEvent>, SeedReport))
    ensures
        seeds(Seeded { profile: false, preferences: false, about: false }, *facts, r.0@, r.1),
{
    seed(Seeded { profile: false, preferences: false, about: false }, facts)
}

/// The state after the events of a seeding were written.
pub open spec fn after_seeding(s: Seeded, events: Seq<SeedEvent>) -> Seeded {
    Seeded {
        profile: s.profile || subjects_of(events).contains("/me/profile"@),
        preferences: s.preferences || subjects_of(events).contains("/me/preferences"@),
        about: s.about || subjects_of(events).contains("/me/about"@),
    }
}

/// Seeding a second time writes nothing, and an empty store gets three events.
pub proof fn law_seeding_is_idempotent(
    s: Seeded,
    f: ProfileFacts,
    events: Seq<SeedEvent>,
    report: SeedReport,
    g: ProfileFacts,
    second: Seq<SeedEvent>,
    again: SeedReport,
)
    requires
        seeds(s, f, events, report),
        seeds(after_seeding(s, events), g, second, again),
    ensures
        second.len() == 0,
        again.created@.len() == 0,
        text::views(again.skipped@) == seed_subjects(),
        !s.profile && !s.preferences && !s.about ==> events.len() == 3,
{
    reveal_with_fuel(chosen, 4);
    let c = chosen(s, false, 3);
    if !s.profile {
        assert(c[0] == "/me/profile"@);
    }
    if !s.preferences {
        assert(c[if s.profile {
            0int
        } else {
            1int
        }] == "/me/preferences"@);
    }
    if !s.about {
        assert(c.last() == "/me/about"@);
    }
    let t = after_seeding(s, events);
    assert(t.profile && t.preferences && t.about);
    assert(chosen(t, false, 3) =~= Seq::empty());
    assert(chosen(t, true, 3) =~= seed_subjects());
    assert(subjects_of(second).len() == second.len());
    assert(text::views(again.created@).len() == again.created@.len());
    assert(subjects_of(events).len() == events.len());
}

/// The name of the machine: what the environment says, where that is not empty, else what
/// the system says.
pub fn choose_hostname(environment: Option<String>, system: Option<String>) -> (r: Option<String>)
    ensures
        r == if environment matches Some(h) && h@.len() > 0 {
            environment
        } else {
            system
        },
{
    match environment {
        Some(h) => {
            if h.as_str().unicode_len() > 0 {
                Some(h)
            } else {
                system
            }
        },
        None => system,
    }
}

/// The value that `git config` printed; none where it failed or printed nothing.
pub fn git_value(success: bool, stdout: &str) -> (r: Option<String>)
    ensures
        match r {
            Some(s) => success && s@ == text::trimmed(stdout@) && s@.len() > 0,
            None => !success || text::trimmed(stdout@).len() == 0,
        },
{
    if !success {
        return None;
    }
    let s = text::trim(stdout);
    if s.as_str().unicode_len() == 0 {
        None
    } else {
        Some(s)
    }
}

/// Some event is about the subject.
pub open spec fn writes_to(events: Seq<SeedEvent>, subject: Seq<char>) -> bool {
    exists|i: int| 0 <= i < events.len() && (#[trigger] events[i]).subject@ == subject
}

/// A seeding writes to each of the three subjects that has no event, and to no other; the
/// report names what is written and what is passed over. With force it writes to all three.
/// The profile is a fact about this machine, and the others are notes.
pub proof fn law_seeding_fills_the_gaps(
    present: Seeded,
    facts: &ProfileFacts,
    r: (Vec<SeedEvent>, SeedReport),
    forced: (Vec<SeedEvent>, SeedReport),
    i: int,
)
    requires
        call_ensures(seed, (present, facts), r),
        call_ensures(seed_force, (facts,), forced),
    ensures
        writes_to(r.0@, "/me/profile"@) <==> !present.profile,
        writes_to(r.0@, "/me/preferences"@) <==> !present.preferences,
        writes_to(r.0@, "/me/about"@) <==> !present.about,
        text::views(r.1.created@).contains("/me/profile"@) <==> !present.profile,
        text::views(r.1.created@).contains("/me/preferences"@) <==> !present.preferences,
        text::views(r.1.created@).contains("/me/about"@) <==> !present.about,
        text::views(r.1.skipped@).contains("/me/profile"@) <==> present.profile,
        text::views(r.1.skipped@).contains("/me/preferences"@) <==> present.preferences,
        text::views(r.1.skipped@).contains("/me/about"@) <==> present.about,
        r.1.created@.len() + r.1.skipped@.len() == 3,
        r.0@.len() == r.1.created@.len(),
        forced.0@.len() == 3,
        writes_to(forced.0@, "/me/profile"@) && writes_to(forced.0@, "/me/preferences"@)
            && writes_to(forced.0@, "/me/about"@),
        0 <= i < r.0@.len() ==> (r.0@[i].event_type@ == "ctx.fact"@ <==> r.0@[i].subject@
            == "/me/profile"@),
        0 <= i < r.0@.len() && r.0@[i].subject@ == "/me/profile"@
            ==> r.0@[i].data.members()["platform"@].is_text(facts.os@ + "-"@ + facts.arch@),
        0 <= i < r.0@.len() && r.0@[i].subject@ == "/me/profile"@ ==> (
        facts.hostname matches Some(h) ==> r.0@[i].data.members()["hostname"@].is_text(h@)),
{
    reveal_strlit("/me/profile");
    reveal_strlit("/me/preferences");
    reveal_strlit("/me/about");
    reveal_strlit("ctx.fact");
    reveal_strlit("ctx.note");
    assert("/me/profile"@.len() == 11 && "/me/preferences"@.len() == 15 && "/me/about"@.len() == 9);
    assert("ctx.fact"@[4] == 'f' && "ctx.note"@[4] == 'n');
    let none = Seeded { profile: false, preferences: false, about: false };
    lemma_chosen(present, true);
    lemma_chosen(present, false);
    lemma_chosen(none, false);
    assert(text::views(r.1.created@).len() == r.1.created@.len());
    assert(text::views(r.1.skipped@).len() == r.1.skipped@.len());
    lemma_subjects(r.0@, "/me/profile"@);
    lemma_subjects(r.0@, "/me/preferences"@);
    lemma_subjects(r.0@, "/me/about"@);
    lemma_subjects(forced.0@, "/me/profile"@);
    lemma_subjects(forced.0@, "/me/preferences"@);
    lemma_subjects(forced.0@, "/me/about"@);
    if 0 <= i < r.0@.len() {
        assert(is_seed(r.0@[i], *facts));
    }
}

proof fn lemma_subjects(events: Seq<SeedEvent>, subject: Seq<char>)
    ensures
        writes_to(events, subject) <==> subjects_of(events).contains(subject),
        subjects_of(events).len() == events.len(),
{
    let s = subjects_of(events);
    if s.contains(subject) {
        let i = choose|i: int| 0 <= i < s.len() && s[i] == subject;
        assert(events[i].subject@ == subject);
    }
    if writes_to(events, subject) {
        let i = choose|i: int| 0 <= i < events.len() && (#[trigger] events[i]).subject@ == subject;
        assert(s[i] == subject);
    }
}

proof fn lemma_chosen(s: Seeded, wanted: bool)
    ensures
        chosen(s, wanted, 3).contains("/me/profile"@) <==> s.profile == wanted,
        chosen(s, wanted, 3).contains("/me/preferences"@) <==> s.preferences == wanted,
        chosen(s, wanted, 3).contains("/me/about"@) <==> s.about == wanted,
        chosen(s, wanted, 3).len() == (if s.profile == wanted { 1int } else { 0 }) + (
        if s.preferences == wanted { 1int } else { 0 }) + (if s.about == wanted { 1int } else { 0 }),
{
    reveal_strlit("/me/profile");
    reveal_strlit("/me/preferences");
    reveal_strlit("/me/about");
    assert("/me/profile"@.len() == 11 && "/me/preferences"@.len() == 15 && "/me/about"@.len() == 9);
    let c = chosen(s, wanted, 3);
    reveal_with_fuel(chosen, 4);
    assert(flags(s)[0] == s.profile && flags(s)[1] == s.preferences && flags(s)[2] == s.about);
    if s.profile == wanted {
        assert(c[0] == "/me/profile"@);
    }
    let n: int = if s.profile == wanted { 1 } else { 0 };
    if s.preferences == wanted {
        assert(c[n] == "/me/preferences"@);
    }
    if s.about == wanted {
        assert(c[c.len() - 1] == "/me/about"@);
    }
}

/// The name of the machine comes from the environment before it comes from the system, and an
/// empty one from the environment does not count.
pub proof fn law_the_environment_names_the_machine(
    environment: Option<String>,
    system: Option<String>,
    r: Option<String>,
)
    requires
        call_ensures(choose_hostname, (environment, system), r),
    ensures
        environment matches Some(h) ==> (h@.len() > 0 ==> r == Some(h)),
        environment is None ==> r == system,
        environment matches Some(h) ==> (h@.len() == 0 ==> r == system),
{
}

} // verus!
