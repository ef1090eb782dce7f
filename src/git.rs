//! Normalisation of the `origin` remote URL that Git reports, into the web
//! address of the repository. Running Git is the caller's part.
use vstd::prelude::*;
use crate::text::{chars_of, matches_at, occurs_at, push_all, push_range, string_of};

verus! {

/// The characters with the Unicode `White_Space` property, which
/// `char::is_whitespace` and `str::trim` go by.
pub open spec fn is_space(c: char) -> bool {
    ('\u{9}' <= c && c <= '\u{d}') || c == ' ' || c == '\u{85}' || c == '\u{a0}' || c
        == '\u{1680}' || ('\u{2000}' <= c && c <= '\u{200a}') || c == '\u{2028}' || c
        == '\u{2029}' || c == '\u{202f}' || c == '\u{205f}' || c == '\u{3000}'
}

/// `s` without leading white space.
pub open spec fn trim_start(s: Seq<char>) -> Seq<char>
    decreases s.len(),
{
    if s.len() > 0 && is_space(s[0]) {
        trim_start(s.drop_first())
    } else {
        s
    }
}

/// `s` without trailing white space.
pub open spec fn trim_end(s: Seq<char>) -> Seq<char>
    decreases s.len(),
{
    if s.len() > 0 && is_space(s.last()) {
        trim_end(s.drop_last())
    } else {
        s
    }
}

/// `s` without leading and trailing white space.
pub open spec fn trimmed(s: Seq<char>) -> Seq<char> {
    trim_end(trim_start(s))
}

/// The start of an SSH remote on GitHub.
pub open spec fn ssh_prefix() -> Seq<char> {
    "git@github.com:"@
}

/// The web address of GitHub.
pub open spec fn github_web() -> Seq<char> {
    "https://github.com/"@
}

pub open spec fn ends_with(s: Seq<char>, p: Seq<char>) -> bool {
    s.len() >= p.len() && s.subrange(s.len() - p.len(), s.len() as int) == p
}

/// `u` without a trailing `.git`.
pub open spec fn strip_git_suffix(u: Seq<char>) -> Seq<char> {
    if ends_with(u, ".git"@) {
        u.subrange(0, u.len() - ".git"@.len())
    } else {
        u
    }
}

/// The web address for what `git remote get-url origin` printed: the output
/// is trimmed; `git@github.com:OWNER/REPO.git` (or without `.git`) becomes
/// `https://github.com/OWNER/REPO`; any other URL loses a trailing `.git`
/// and is kept.
pub open spec fn web_url(output: Seq<char>) -> Seq<char> {
    let u = trimmed(output);
    if occurs_at(u, 0, ssh_prefix()) {
        github_web() + strip_git_suffix(u.subrange(ssh_prefix().len() as int, u.len() as int))
    } else {
        strip_git_suffix(u)
    }
}

fn is_space_char(c: char) -> (r: bool)
    ensures
        r == is_space(c),
{
    ('\u{9}' <= c && c <= '\u{d}') || c == ' ' || c == '\u{85}' || c == '\u{a0}' || c
        == '\u{1680}' || ('\u{2000}' <= c && c <= '\u{200a}') || c == '\u{2028}' || c
        == '\u{2029}' || c == '\u{202f}' || c == '\u{205f}' || c == '\u{3000}'
}

/// `s` without leading and trailing white space.
pub fn trim_chars(s: &Vec<char>) -> (r: Vec<char>)
    ensures
        r@ == trimmed(s@),
{
    let mut a: usize = 0;
    assert(s@.subrange(0, s@.len() as int) =~= s@);
    while a < s.len() && is_space_char(s[a])
        invariant
            a <= s@.len(),
            trim_start(s@.subrange(a as int, s@.len() as int)) == trim_start(s@),
        decreases s.len() - a,
    {
        assert(s@.subrange(a as int, s@.len() as int).drop_first() =~= s@.subrange(
            a + 1,
            s@.len() as int,
        ));
        a = a + 1;
    }
    let ghost t = s@.subrange(a as int, s@.len() as int);
    assert(trim_start(t) == t);
    let mut b: usize = s.len();
    assert(t.subrange(0, b - a) =~= t);
    while b > a && is_space_char(s[b - 1])
        invariant
            a <= b <= s@.len(),
            t == s@.subrange(a as int, s@.len() as int),
            trim_end(s@.subrange(a as int, b as int)) == trim_end(t),
        decreases b,
    {
        assert(s@.subrange(a as int, b as int).drop_last() =~= s@.subrange(a as int, b - 1));
        b = b - 1;
    }
    let mut r: Vec<char> = Vec::new();
    push_range(&mut r, s, a, b);
    r
}

fn strip_git_chars(u: &Vec<char>) -> (r: Vec<char>)
    ensures
        r@ == strip_git_suffix(u@),
{
    let suffix = chars_of(".git");
    let mut r: Vec<char> = Vec::new();
    if u.len() >= suffix.len() && matches_at(u, u.len() - suffix.len(), &suffix) {
        push_range(&mut r, u, 0, u.len() - suffix.len());
    } else {
        push_all(&mut r, u);
    }
    r
}

/// The web address of a repository from the output of
/// `git remote get-url origin`.
pub fn normalize_remote_url(output: &str) -> (r: String)
    ensures
        r@ == web_url(output@),
{
    let raw = chars_of(output);
    let u = trim_chars(&raw);
    let ssh = chars_of("git@github.com:");
    if matches_at(&u, 0, &ssh) {
        let mut rest: Vec<char> = Vec::new();
        push_range(&mut rest, &u, ssh.len(), u.len());
        let mut out = chars_of("https://github.com/");
        push_all(&mut out, &strip_git_chars(&rest));
        string_of(&out)
    } else {
        string_of(&strip_git_chars(&u))
    }
}

} // verus!
