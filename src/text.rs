//! Character-level helpers: literal matching, concatenation and
//! replace-all over sequences of characters.
use vstd::prelude::*;

verus! {

/// Whether `p` occurs in `s` starting at index `i`.
pub open spec fn occurs_at(s: Seq<char>, i: int, p: Seq<char>) -> bool {
    0 <= i && i + p.len() <= s.len() && s.subrange(i, i + p.len()) == p
}

/// Replace-all from index `i` on, scanning left to right: every
/// non-overlapping occurrence of `p` becomes `r`. An empty `p` puts `r`
/// before every character and at the end.
pub open spec fn replaced_from(s: Seq<char>, i: int, p: Seq<char>, r: Seq<char>) -> Seq<char>
    decreases s.len() - i,
{
    if i < 0 || i >= s.len() {
        if p.len() == 0 { r } else { Seq::empty() }
    } else if p.len() == 0 {
        r + seq![s[i]] + replaced_from(s, i + 1, p, r)
    } else if occurs_at(s, i, p) {
        r + replaced_from(s, i + p.len(), p, r)
    } else {
        seq![s[i]] + replaced_from(s, i + 1, p, r)
    }
}

/// `s` with every occurrence of `p` replaced by `r`, as `str::replace` does.
pub open spec fn replace_all(s: Seq<char>, p: Seq<char>, r: Seq<char>) -> Seq<char> {
    replaced_from(s, 0, p, r)
}

/// The first index at or after `i` that holds `c`, or `s.len()` if none does.
pub open spec fn find_char(s: Seq<char>, i: int, c: char) -> int
    decreases s.len() - i,
{
    if i < 0 || i >= s.len() {
        s.len() as int
    } else if s[i] == c {
        i
    } else {
        find_char(s, i + 1, c)
    }
}

/// The first index at or after `i` where `p` occurs, or `s.len()` if none.
pub open spec fn find_seq(s: Seq<char>, i: int, p: Seq<char>) -> int
    decreases s.len() - i,
{
    if i < 0 || i >= s.len() {
        s.len() as int
    } else if occurs_at(s, i, p) {
        i
    } else {
        find_seq(s, i + 1, p)
    }
}

/// Finds the first `c` in `s` at or after index `i`.
pub fn find_char_from(s: &Vec<char>, i: usize, c: char) -> (r: usize)
    ensures
        r as int == find_char(s@, i as int, c),
        r <= s@.len(),
        i <= s@.len() ==> i <= r,
{
    let mut k: usize = i;
    while k < s.len()
        invariant
            i <= k,
            find_char(s@, k as int, c) == find_char(s@, i as int, c),
        decreases s.len() - k,
    {
        if s[k] == c {
            return k;
        }
        k = k + 1;
    }
    s.len()
}

/// Finds the first occurrence of `p` in `s` at or after index `i`.
pub fn find_seq_from(s: &Vec<char>, i: usize, p: &Vec<char>) -> (r: usize)
    ensures
        r as int == find_seq(s@, i as int, p@),
        r <= s@.len(),
        i <= s@.len() ==> i <= r,
{
    let mut k: usize = i;
    while k < s.len()
        invariant
            i <= k,
            find_seq(s@, k as int, p@) == find_seq(s@, i as int, p@),
        decreases s.len() - k,
    {
        if matches_at(s, k, p) {
            return k;
        }
        k = k + 1;
    }
    s.len()
}

/// Appends `src[from..to]` to `dst`.
pub fn push_range(dst: &mut Vec<char>, src: &Vec<char>, from: usize, to: usize)
    requires
        from <= to <= src@.len(),
    ensures
        final(dst)@ == old(dst)@ + src@.subrange(from as int, to as int),
{
    let mut i: usize = from;
    while i < to
        invariant
            from <= i <= to,
            to <= src@.len(),
            dst@ == old(dst)@ + src@.subrange(from as int, i as int),
        decreases to - i,
    {
        dst.push(src[i]);
        i = i + 1;
        assert(src@.subrange(from as int, i as int) == src@.subrange(from as int, i - 1) + seq![
            src@[i - 1],
        ]);
    }
}

/// Relies on `str::chars` collected into a `Vec`: the characters of `s`, in order.
#[verifier::external_body]
pub(crate) fn chars_of(s: &str) -> (r: Vec<char>)
    ensures
        r@ == s@,
{
    s.chars().collect()
}

/// Relies on collecting characters into a `String` (`FromIterator<char>`):
/// the string holds exactly these characters.
#[verifier::external_body]
pub(crate) fn string_of(v: &Vec<char>) -> (r: String)
    ensures
        r@ == v@,
{
    v.iter().collect()
}

/// Appends all of `src` to `dst`.
pub fn push_all(dst: &mut Vec<char>, src: &Vec<char>)
    ensures
        final(dst)@ == old(dst)@ + src@,
{
    let mut i: usize = 0;
    while i < src.len()
        invariant
            i <= src.len(),
            dst@ == old(dst)@ + src@.subrange(0, i as int),
        decreases src.len() - i,
    {
        dst.push(src[i]);
        i = i + 1;
        assert(src@.subrange(0, i as int) == src@.subrange(0, i - 1) + seq![src@[i - 1]]);
    }
    assert(src@.subrange(0, i as int) == src@);
}

/// Whether `p` occurs in `s` at index `i`.
pub fn matches_at(s: &Vec<char>, i: usize, p: &Vec<char>) -> (r: bool)
    ensures
        r == occurs_at(s@, i as int, p@),
{
    if i > s.len() || p.len() > s.len() - i {
        return false;
    }
    let mut k: usize = 0;
    while k < p.len()
        invariant
            k <= p.len(),
            i + p.len() <= s.len(),
            forall|j: int| 0 <= j < k ==> s@[i + j] == p@[j],
        decreases p.len() - k,
    {
        if s[i + k] != p[k] {
            assert(s@.subrange(i as int, i + p.len())[k as int] != p@[k as int]);
            return false;
        }
        k = k + 1;
    }
    assert(s@.subrange(i as int, i + p.len()) =~= p@);
    true
}

/// Replaces every occurrence of `p` in `s` by `r`, left to right.
pub fn replace_chars(s: &Vec<char>, p: &Vec<char>, r: &Vec<char>) -> (out: Vec<char>)
    ensures
        out@ == replace_all(s@, p@, r@),
{
    let mut out: Vec<char> = Vec::new();
    let mut i: usize = 0;
    while i < s.len()
        invariant
            i <= s.len(),
            out@ + replaced_from(s@, i as int, p@, r@) == replace_all(s@, p@, r@),
        decreases s.len() - i,
    {
        if p.len() == 0 {
            let ghost prev = out@;
            push_all(&mut out, r);
            out.push(s[i]);
            assert(out@ == prev + (r@ + seq![s@[i as int]]));
            i = i + 1;
        } else if matches_at(s, i, p) {
            push_all(&mut out, r);
            i = i + p.len();
        } else {
            out.push(s[i]);
            i = i + 1;
        }
    }
    if p.len() == 0 {
        push_all(&mut out, r);
    }
    assert(out@ == replace_all(s@, p@, r@));
    out
}

/// `s` with every occurrence of `p` replaced by `r`.
pub fn replace_str(s: &str, p: &str, r: &str) -> (out: String)
    ensures
        out@ == replace_all(s@, p@, r@),
{
    let sv = chars_of(s);
    let pv = chars_of(p);
    let rv = chars_of(r);
    let ov = replace_chars(&sv, &pv, &rv);
    string_of(&ov)
}

} // verus!
