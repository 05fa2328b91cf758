//! Matching of subjects against the glob patterns of capabilities.

use crate::text;
use vstd::prelude::*;

verus! {

/// The part of `pattern` before `suffix`.
pub open spec fn before_suffix(pattern: Seq<char>, suffix: Seq<char>) -> Seq<char> {
    pattern.take(pattern.len() - suffix.len())
}

/// `subject` lies at or below the path `base`.
pub open spec fn at_or_below(base: Seq<char>, subject: Seq<char>) -> bool {
    subject == base || (base + "/"@).is_prefix_of(subject)
}

/// `subject` is `base` followed by a slash and one further segment.
pub open spec fn directly_below(base: Seq<char>, subject: Seq<char>) -> bool {
    (base + "/"@).is_prefix_of(subject) && !subject.skip((base + "/"@).len() as int).contains('/')
}

/// Which subjects a pattern covers: `/**` all of them, any pattern itself,
/// `base/**` what lies at or below `base`, `base/*` what lies directly below it.
pub open spec fn glob_matches(pattern: Seq<char>, subject: Seq<char>) -> bool {
    ||| pattern == "/**"@
    ||| pattern == subject
    ||| "/**"@.is_suffix_of(pattern) && at_or_below(before_suffix(pattern, "/**"@), subject)
    ||| !"/**"@.is_suffix_of(pattern) && "/*"@.is_suffix_of(pattern) && directly_below(
        before_suffix(pattern, "/*"@),
        subject,
    )
}

/// Check if a subject matches a glob pattern.
pub fn glob_match_subject(pattern: &str, subject: &str) -> (r: bool)
    ensures
        r == glob_matches(pattern@, subject@),
{
    proof {
        reveal_strlit("/**");
        reveal_strlit("/*");
        reveal_strlit("/");
    }
    if text::same(pattern, "/**") {
        return true;
    }
    if text::same(pattern, subject) {
        return true;
    }
    let len: usize = pattern.unicode_len();
    if text::ends_with(pattern, "/**") {
        let base = text::take(pattern, len - 3);
        if text::same(subject, base) {
            return true;
        }
        let mut dir = String::from_str(base);
        dir.append("/");
        return text::starts_with(subject, &dir);
    }
    if text::ends_with(pattern, "/*") {
        let base = text::take(pattern, len - 2);
        let mut dir = String::from_str(base);
        dir.append("/");
        if !text::starts_with(subject, &dir) {
            return false;
        }
        let rest = text::skip(subject, dir.as_str().unicode_len());
        return !text::has_char(rest, '/');
    }
    false
}

/// The pattern `/**` covers every subject.
pub proof fn law_root_glob_covers_everything(subject: Seq<char>)
    ensures
        glob_matches("/**"@, subject),
{
}

/// Every pattern covers the subject that it spells.
pub proof fn law_pattern_covers_itself(pattern: Seq<char>)
    ensures
        glob_matches(pattern, pattern),
{
}

/// What a pattern covers. A pattern without a star covers exactly the subject that it spells;
/// `/**` every subject; `base/**` exactly `base` and what begins with `base/`; and `base/*`
/// exactly what begins with `base/` and has no further slash behind it.
pub proof fn law_what_a_pattern_covers(pattern: &str, subject: &str, base: Seq<char>, r: bool)
    requires
        call_ensures(glob_match_subject, (pattern, subject), r),
    ensures
        pattern@ == "/**"@ ==> r,
        pattern@ == base && !base.contains('*') ==> r == (subject@ == base),
        pattern@ == base + "/**"@ && base.len() > 0 ==> r == (subject@ == base || (base
            + "/"@).is_prefix_of(subject@)),
        pattern@ == base + "/*"@ ==> r == ((base + "/"@).is_prefix_of(subject@)
            && !subject@.skip(base.len() as int + 1).contains('/')),
{
    reveal_strlit("/**");
    reveal_strlit("/*");
    reveal_strlit("/");
    let p = pattern@;
    let s = subject@;
    let dir = base + "/"@;
    if p == base && !base.contains('*') {
        if p.len() > 0 {
            assert(p.contains(p.last()));
        }
        assert(!"/**"@.is_suffix_of(p)) by {
            if "/**"@.is_suffix_of(p) {
                assert(p.subrange(p.len() - 3, p.len() as int)[2] == p.last());
            }
        }
        assert(!"/*"@.is_suffix_of(p)) by {
            if "/*"@.is_suffix_of(p) {
                assert(p.subrange(p.len() - 2, p.len() as int)[1] == p.last());
            }
        }
        assert("/**"@[2] == '*');
        assert(p != "/**"@);
    }
    if p == base + "/**"@ && base.len() > 0 {
        assert("/**"@.is_suffix_of(p)) by {
            assert(p.subrange(p.len() - 3, p.len() as int) =~= "/**"@);
        }
        assert(before_suffix(p, "/**"@) =~= base);
        if s == p {
            assert(s.subrange(0, dir.len() as int) =~= dir);
        }
    }
    if p == base + "/*"@ {
        assert(p.last() == '*');
        assert(p[p.len() - 2] == '/');
        assert("/*"@.is_suffix_of(p)) by {
            assert(p.subrange(p.len() - 2, p.len() as int) =~= "/*"@);
        }
        assert(!"/**"@.is_suffix_of(p)) by {
            if "/**"@.is_suffix_of(p) {
                assert(p.subrange(p.len() - 3, p.len() as int)[1] == p[p.len() - 2]);
            }
        }
        assert(p != "/**"@) by {
            if p == "/**"@ {
                assert(p[1] == '*');
            }
        }
        assert(before_suffix(p, "/*"@) =~= base);
        assert(dir.len() == base.len() + 1);
        if s == p {
            assert(s.subrange(0, dir.len() as int) =~= dir);
            assert(s.skip(base.len() as int + 1) =~= seq!['*']);
        }
    }
}

pub proof fn lemma_recursive_pattern(base: Seq<char>, subject: Seq<char>)
    requires
        base.len() > 0,
    ensures
        glob_matches(base + "/**"@, subject) <==> subject == base || (base + "/"@).is_prefix_of(
            subject,
        ),
{
    reveal_strlit("/**");
    reveal_strlit("/");
    let p = base + "/**"@;
    let dir = base + "/"@;
    assert("/**"@.is_suffix_of(p)) by {
        assert(p.subrange(p.len() - 3, p.len() as int) =~= "/**"@);
    }
    assert(before_suffix(p, "/**"@) =~= base);
    if subject == p {
        assert(subject.subrange(0, dir.len() as int) =~= dir);
    }
}

/// `base/**` covers all that `base/*` covers.
pub proof fn law_recursive_glob_is_wider(base: Seq<char>, subject: Seq<char>)
    requires
        glob_matches(base + "/*"@, subject),
    ensures
        glob_matches(base + "/**"@, subject),
{
    reveal_strlit("/**");
    reveal_strlit("/*");
    reveal_strlit("/");
    let one = base + "/*"@;
    let all = base + "/**"@;
    assert("/**"@.is_suffix_of(all)) by {
        assert(all.subrange(all.len() - 3, all.len() as int) =~= "/**"@);
    }
    assert(before_suffix(all, "/**"@) =~= base);
    assert(one.last() == '*');
    assert(one[one.len() - 2] == '/');
    assert(before_suffix(one, "/*"@) =~= base);
    assert(one != "/**"@) by {
        if one == "/**"@ {
            assert("/**"@[1] == one[one.len() - 2]);
        }
    }
    assert(!"/**"@.is_suffix_of(one)) by {
        if "/**"@.is_suffix_of(one) {
            assert(one.subrange(one.len() - 3, one.len() as int)[1] == one[one.len() - 2]);
        }
    }
    if one == subject {
        assert(subject.subrange(0, (base.len() + 1) as int) =~= base + "/"@);
        assert((base + "/"@).is_prefix_of(subject));
    }
}

/// A recursive pattern stops at segment boundaries: below `base/**` there is
/// nothing that continues the last segment of `base`.
pub proof fn law_glob_respects_segments(base: Seq<char>, c: char, rest: Seq<char>)
    requires
        c != '/',
        base + "/**"@ != "/**"@,
        base + "/**"@ != base.push(c) + rest,
    ensures
        !glob_matches(base + "/**"@, base.push(c) + rest),
{
    reveal_strlit("/**");
    reveal_strlit("/");
    let all = base + "/**"@;
    let subject = base.push(c) + rest;
    assert("/**"@.is_suffix_of(all)) by {
        assert(all.subrange(all.len() - 3, all.len() as int) =~= "/**"@);
    }
    assert(before_suffix(all, "/**"@) =~= base);
    assert(subject[base.len() as int] == c);
    if (base + "/"@).is_prefix_of(subject) {
        assert(subject.subrange(0, (base.len() + 1) as int)[base.len() as int] == (base + "/"@)[base.len() as int]);
    }
}

} // verus!
