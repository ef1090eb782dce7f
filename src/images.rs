//! The image relocator: which `<img>` sources a fragment names, where each
//! is copied to, and the rewriting of the fragment to point at the copies.
//! Looking at the disk and copying files is the caller's part: it reports
//! which sources exist and performs the copies that the plan lists.
use vstd::prelude::*;
use crate::text::{
    chars_of, find_char, find_char_from, matches_at, occurs_at, push_all, push_range, string_of,
};

verus! {

/// Where a copied image is placed under the output directory.
#[derive(Clone, Copy, Debug, PartialEq, Eq)]
pub enum Placement {
    /// Under its file name alone, dropping any directories.
    Flattened,
    /// Under its relative path, directories kept.
    PathPreserving,
}

/// One file to copy: the source path as written in the markup, and its
/// destination relative to the output directory.
#[derive(Debug)]
pub struct ImageCopy {
    pub source: String,
    pub dest: String,
}

/// The relocated fragment and the copies it relies on, in document order.
#[derive(Debug)]
pub struct ImagePlan {
    pub html: String,
    pub copies: Vec<ImageCopy>,
}

pub open spec fn is_quote(c: char) -> bool {
    c == '"' || c == '\''
}

/// A quote or `>`: what ends an attribute value.
pub open spec fn is_value_stop(c: char) -> bool {
    is_quote(c) || c == '>'
}

/// The first index at or after `i` that holds a quote or `>`, or `s.len()`.
pub open spec fn find_stop(s: Seq<char>, i: int) -> int
    decreases s.len() - i,
{
    if i < 0 || i >= s.len() {
        s.len() as int
    } else if is_value_stop(s[i]) {
        i
    } else {
        find_stop(s, i + 1)
    }
}

/// End of the value of a `src=` attribute that starts at `k`.
pub open spec fn value_end(s: Seq<char>, k: int) -> int {
    find_stop(s, k + 5)
}

/// At `k` stands `src=`, a quote, a non-empty value without quotes or `>`,
/// and a closing quote, all before index `g`.
pub open spec fn src_attr_at(s: Seq<char>, k: int, g: int) -> bool {
    &&& occurs_at(s, k, "src="@)
    &&& k + 5 <= g <= s.len()
    &&& is_quote(s[k + 4])
    &&& k + 5 < value_end(s, k) < g
    &&& is_quote(s[value_end(s, k)])
}

/// The last index in `lo..=k` where a `src` attribute ending before `g`
/// starts, or `lo - 1` if none.
pub open spec fn last_src(s: Seq<char>, lo: int, k: int, g: int) -> int
    decreases k - lo + 1,
{
    if k < lo {
        lo - 1
    } else if src_attr_at(s, k, g) {
        k
    } else {
        last_src(s, lo, k - 1, g)
    }
}

/// Index of the `>` that ends an `<img` tag starting at `i`.
pub open spec fn img_tag_end(s: Seq<char>, i: int) -> int {
    find_char(s, i + 4, '>')
}

/// Index of the `src` attribute read from the `<img` tag starting at `i`:
/// the last one in the tag.
pub open spec fn img_src(s: Seq<char>, i: int) -> int {
    last_src(s, i + 4, img_tag_end(s, i) - 1, img_tag_end(s, i))
}

/// At `i` starts an `<img ...>` tag with a quoted, non-empty `src`.
pub open spec fn img_at(s: Seq<char>, i: int) -> bool {
    &&& occurs_at(s, i, "<img"@)
    &&& i + 4 <= img_tag_end(s, i) < s.len()
    &&& i + 4 <= img_src(s, i)
}

/// The `src` values of the `<img>` tags from index `i` on, in order.
pub open spec fn sources_from(s: Seq<char>, i: int) -> Seq<Seq<char>>
    decreases s.len() - i,
{
    if i < 0 || i >= s.len() {
        Seq::empty()
    } else if img_at(s, i) {
        seq![s.subrange(img_src(s, i) + 5, value_end(s, img_src(s, i)))] + sources_from(
            s,
            img_tag_end(s, i) + 1,
        )
    } else {
        sources_from(s, i + 1)
    }
}

/// The `src` values of all `<img>` tags of `s`, in document order.
pub open spec fn image_sources(s: Seq<char>) -> Seq<Seq<char>> {
    sources_from(s, 0)
}

/// The characters of each string.
pub open spec fn string_views(v: Seq<String>) -> Seq<Seq<char>> {
    v.map_values(|x: String| x@)
}

/// The largest index below `j` that holds `c`, or -1.
pub open spec fn last_index_before(s: Seq<char>, j: int, c: char) -> int
    decreases j,
{
    if j <= 0 {
        -1
    } else if s[j - 1] == c {
        j - 1
    } else {
        last_index_before(s, j - 1, c)
    }
}

/// The file name of `p[..j]`, as `Path::file_name` reads it from the
/// path's components: trailing `/` and `.` segments are passed over, and the
/// last remaining segment is the name, unless it is `..`, a lone leading
/// `.`, or there is none.
pub open spec fn file_name_upto(p: Seq<char>, j: int) -> Option<Seq<char>>
    decreases j,
{
    if j <= 0 || j > p.len() {
        None
    } else if p[j - 1] == '/' {
        file_name_upto(p, j - 1)
    } else {
        let k = last_index_before(p, j, '/');
        let seg = p.subrange(k + 1, j);
        if seg == "."@ {
            if 0 <= k < j {
                file_name_upto(p, k)
            } else {
                None
            }
        } else if seg == ".."@ {
            None
        } else {
            Some(seg)
        }
    }
}

/// The file name of a path, as `Path::file_name` gives it.
pub open spec fn file_name_of(p: Seq<char>) -> Option<Seq<char>> {
    file_name_upto(p, p.len() as int)
}

/// The path without its leading `./` segments.
pub open spec fn without_dot_prefix(p: Seq<char>) -> Seq<char>
    decreases p.len(),
{
    if p.len() >= 2 && p[0] == '.' && p[1] == '/' {
        without_dot_prefix(p.subrange(2, p.len() as int))
    } else {
        p
    }
}

/// Some segment of the path is `..`.
pub open spec fn has_parent_segment(p: Seq<char>) -> bool {
    exists|j: int|
        #![trigger occurs_at(p, j, ".."@)]
        occurs_at(p, j, ".."@) && (j == 0 || p[j - 1] == '/') && (j + 2 == p.len() || p[j
            + 2] == '/')
}

/// The path relative to the output directory under which a source is
/// placed, or `None` where it has none.
pub open spec fn destination_of(p: Seq<char>, mode: Placement) -> Option<Seq<char>> {
    match mode {
        Placement::Flattened => file_name_of(p),
        Placement::PathPreserving => {
            let q = without_dot_prefix(p);
            if q.len() == 0 || q[0] == '/' || has_parent_segment(q) {
                None
            } else {
                Some(q)
            }
        },
    }
}

/// The copies for the sources that were found and have a destination, in
/// order. `found[i]` tells whether `paths[i]` was found; a path without an
/// entry was not.
pub open spec fn planned(paths: Seq<Seq<char>>, found: Seq<bool>, mode: Placement) -> Seq<
    (Seq<char>, Seq<char>),
>
    decreases paths.len(),
{
    if paths.len() == 0 {
        Seq::empty()
    } else {
        let prev = planned(paths.drop_last(), found, mode);
        let i = paths.len() - 1;
        if i < found.len() && found[i] && destination_of(paths.last(), mode) is Some {
            prev.push((paths.last(), destination_of(paths.last(), mode)->0))
        } else {
            prev
        }
    }
}

/// The copies as (source, destination) pairs.
pub open spec fn copy_views(v: Seq<ImageCopy>) -> Seq<(Seq<char>, Seq<char>)> {
    v.map_values(|c: ImageCopy| (c.source@, c.dest@))
}

/// At `i` stands a quoted `src` value that ends with `t`.
pub open spec fn src_ref_at(s: Seq<char>, i: int, t: Seq<char>) -> bool {
    &&& occurs_at(s, i, "src="@)
    &&& i + 4 < s.len()
    &&& is_quote(s[i + 4])
    &&& value_end(s, i) < s.len()
    &&& is_quote(s[value_end(s, i)])
    &&& value_end(s, i) - (i + 5) >= t.len()
    &&& s.subrange(value_end(s, i) - t.len(), value_end(s, i)) == t
}

/// `src="./t"`.
pub open spec fn src_to(t: Seq<char>) -> Seq<char> {
    "src=\"./"@ + t + "\""@
}

/// Points every quoted `src` value that ends with `t` at `./t`, from `i` on.
pub open spec fn pointed_from(s: Seq<char>, i: int, t: Seq<char>) -> Seq<char>
    decreases s.len() - i,
{
    if i < 0 || i >= s.len() {
        Seq::empty()
    } else if src_ref_at(s, i, t) {
        src_to(t) + pointed_from(s, value_end(s, i) + 1, t)
    } else {
        seq![s[i]] + pointed_from(s, i + 1, t)
    }
}

/// Points the references at each target in turn.
pub open spec fn relocated(s: Seq<char>, targets: Seq<Seq<char>>) -> Seq<char>
    decreases targets.len(),
{
    if targets.len() == 0 {
        s
    } else {
        pointed_from(relocated(s, targets.drop_last()), 0, targets.last())
    }
}

/// The file names of the paths that have one, in order.
pub open spec fn flat_names(paths: Seq<Seq<char>>) -> Seq<Seq<char>>
    decreases paths.len(),
{
    if paths.len() == 0 {
        Seq::empty()
    } else if file_name_of(paths.last()) is Some {
        flat_names(paths.drop_last()).push(file_name_of(paths.last())->0)
    } else {
        flat_names(paths.drop_last())
    }
}

fn find_stop_from(s: &Vec<char>, i: usize) -> (r: usize)
    ensures
        r as int == find_stop(s@, i as int),
        r <= s@.len(),
        i <= s@.len() ==> i <= r,
{
    let mut k: usize = i;
    while k < s.len()
        invariant
            i <= k,
            find_stop(s@, k as int) == find_stop(s@, i as int),
        decreases s.len() - k,
    {
        if s[k] == '"' || s[k] == '\'' || s[k] == '>' {
            return k;
        }
        k = k + 1;
    }
    s.len()
}

/// The `src` values of all `<img>` tags, in document order, duplicates kept.
/// Where a tag holds several, the last one counts.
pub fn extract_image_paths(html: &str) -> (r: Vec<String>)
    ensures
        string_views(r@) == image_sources(html@),
{
    let s = chars_of(html);
    let img = chars_of("<img");
    let src = chars_of("src=");
    proof {
        reveal_strlit("<img");
        reveal_strlit("src=");
    }
    let mut out: Vec<String> = Vec::new();
    let mut i: usize = 0;
    while i < s.len()
        invariant
            i <= s@.len(),
            img@ == "<img"@,
            src@ == "src="@,
            img@.len() == 4,
            src@.len() == 4,
            string_views(out@) + sources_from(s@, i as int) == image_sources(s@),
        decreases s.len() - i,
    {
        let mut next = i + 1;
        if matches_at(&s, i, &img) {
            let g = find_char_from(&s, i + 4, '>');
            if g < s.len() {
                // the last src attribute of the tag
                let mut k: usize = g;
                let mut found = false;
                while k > i + 4 && !found
                    invariant
                        i + 4 <= k <= g,
                        g < s@.len(),
                        g as int == img_tag_end(s@, i as int),
                        src@ == "src="@,
                        src@.len() == 4,
                        found ==> k >= i + 4 && src_attr_at(s@, k as int, g as int)
                            && img_src(s@, i as int) == k,
                        !found ==> img_src(s@, i as int) == last_src(
                            s@,
                            i + 4,
                            k - 1,
                            g as int,
                        ),
                    decreases k,
                {
                    let c = k - 1;
                    if matches_at(&s, c, &src) && g - c > 4 && (s[c + 4] == '"' || s[c + 4]
                        == '\'') {
                        let m = find_stop_from(&s, c + 5);
                        if c + 5 < m && m < g && (s[m] == '"' || s[m] == '\'') {
                            assert(src_attr_at(s@, c as int, g as int));
                            k = c;
                            found = true;
                        } else {
                            k = c;
                        }
                    } else {
                        k = c;
                    }
                }
                if found {
                    let m = find_stop_from(&s, k + 5);
                    let mut v: Vec<char> = Vec::new();
                    push_range(&mut v, &s, k + 5, m);
                    let ghost prev = string_views(out@);
                    out.push(string_of(&v));
                    assert(string_views(out@) =~= prev + seq![v@]);
                    next = g + 1;
                } else {
                    assert(img_src(s@, i as int) < i + 4);
                }
            }
        }
        i = next;
    }
    out
}

/// The position just after the last `/` of `p[..j]`.
fn segment_start(p: &Vec<char>, j: usize) -> (r: usize)
    requires
        j <= p@.len(),
    ensures
        r as int == last_index_before(p@, j as int, '/') + 1,
        r <= j,
{
    let mut i: usize = j;
    while i > 0
        invariant
            i <= j <= p@.len(),
            last_index_before(p@, i as int, '/') == last_index_before(p@, j as int, '/'),
        decreases i,
    {
        if p[i - 1] == '/' {
            return i;
        }
        i = i - 1;
    }
    0
}

proof fn lemma_last_index_bounds(s: Seq<char>, j: int, c: char)
    requires
        j <= s.len(),
    ensures
        -1 <= last_index_before(s, j, c),
        last_index_before(s, j, c) < j || last_index_before(s, j, c) == -1,
    decreases j,
{
    if j > 0 && s[j - 1] != c {
        lemma_last_index_bounds(s, j - 1, c);
    }
}

/// Whether `v` is exactly `lit`.
fn equals_chars(v: &Vec<char>, lit: &Vec<char>) -> (r: bool)
    ensures
        r == (v@ == lit@),
{
    if v.len() != lit.len() {
        return false;
    }
    let r = matches_at(v, 0, lit);
    assert(v@.subrange(0, lit@.len() as int) =~= v@);
    r
}

pub(crate) fn file_name_chars(p: &Vec<char>) -> (r: Option<Vec<char>>)
    ensures
        match r {
            Some(v) => file_name_of(p@) == Some(v@),
            None => file_name_of(p@) is None,
        },
{
    let dot = chars_of(".");
    let dotdot = chars_of("..");
    let mut j: usize = p.len();
    while j > 0
        invariant
            j <= p@.len(),
            dot@ == "."@,
            dotdot@ == ".."@,
            file_name_upto(p@, j as int) == file_name_of(p@),
        decreases j,
    {
        if p[j - 1] == '/' {
            j = j - 1;
        } else {
            proof {
                lemma_last_index_bounds(p@, j as int, '/');
            }
            let b = segment_start(p, j);
            let mut seg: Vec<char> = Vec::new();
            push_range(&mut seg, p, b, j);
            if equals_chars(&seg, &dot) {
                if b == 0 {
                    return None;
                }
                j = b - 1;
            } else if equals_chars(&seg, &dotdot) {
                return None;
            } else {
                return Some(seg);
            }
        }
    }
    None
}

fn destination_chars(p: &Vec<char>, mode: Placement) -> (r: Option<Vec<char>>)
    ensures
        match r {
            Some(v) => destination_of(p@, mode) == Some(v@),
            None => destination_of(p@, mode) is None,
        },
{
    match mode {
        Placement::Flattened => file_name_chars(p),
        Placement::PathPreserving => {
            let mut i: usize = 0;
            assert(p@.subrange(0, p@.len() as int) =~= p@);
            while p.len() - i >= 2 && p[i] == '.' && p[i + 1] == '/'
                invariant
                    i <= p@.len(),
                    without_dot_prefix(p@.subrange(i as int, p@.len() as int))
                        == without_dot_prefix(p@),
                decreases p.len() - i,
            {
                assert(p@.subrange(i as int, p@.len() as int).subrange(2, p@.len() - i)
                    =~= p@.subrange(i + 2, p@.len() as int));
                i = i + 2;
            }
            let mut q: Vec<char> = Vec::new();
            push_range(&mut q, p, i, p.len());
            assert(without_dot_prefix(q@) == q@);
            if q.len() == 0 || q[0] == '/' || has_parent_chars(&q) {
                None
            } else {
                Some(q)
            }
        },
    }
}

fn has_parent_chars(q: &Vec<char>) -> (r: bool)
    ensures
        r == has_parent_segment(q@),
{
    let dotdot = chars_of("..");
    proof {
        reveal_strlit("..");
    }
    let mut j: usize = 0;
    while j < q.len()
        invariant
            j <= q@.len(),
            dotdot@ == ".."@,
            dotdot@.len() == 2,
            forall|x: int|
                #![trigger occurs_at(q@, x, ".."@)]
                0 <= x < j ==> !(occurs_at(q@, x, ".."@) && (x == 0 || q@[x - 1] == '/') && (x
                    + 2 == q@.len() || q@[x + 2] == '/')),
        decreases q.len() - j,
    {
        if matches_at(q, j, &dotdot) && (j == 0 || q[j - 1] == '/') && (j + 2 == q.len()
            || q[j + 2] == '/') {
            return true;
        }
        j = j + 1;
    }
    false
}

/// Where a source path is placed under the output directory: its file name
/// when flattened; its path without leading `./` when path-preserving, unless
/// that is empty, absolute or climbs out through `..`.
pub fn destination(path: &str, mode: Placement) -> (r: Option<String>)
    ensures
        match r {
            Some(d) => destination_of(path@, mode) == Some(d@),
            None => destination_of(path@, mode) is None,
        },
{
    let p = chars_of(path);
    match destination_chars(&p, mode) {
        Some(v) => Some(string_of(&v)),
        None => None,
    }
}

/// The copies to make: one per source that was found on disk
/// (`found[i]` for `paths[i]`) and has a destination, in order, duplicates kept.
pub fn plan_image_copies(paths: &Vec<String>, found: &Vec<bool>, mode: Placement) -> (r: Vec<
    ImageCopy,
>)
    ensures
        copy_views(r@) == planned(string_views(paths@), found@, mode),
{
    let mut out: Vec<ImageCopy> = Vec::new();
    let mut i: usize = 0;
    while i < paths.len()
        invariant
            i <= paths@.len(),
            copy_views(out@) == planned(string_views(paths@).subrange(0, i as int), found@, mode),
        decreases paths.len() - i,
    {
        let ghost sub = string_views(paths@).subrange(0, i + 1);
        assert(sub.drop_last() =~= string_views(paths@).subrange(0, i as int));
        let p = chars_of(paths[i].as_str());
        if i < found.len() && found[i] {
            match destination_chars(&p, mode) {
                Some(d) => {
                    let ghost prev = copy_views(out@);
                    out.push(ImageCopy { source: string_of(&p), dest: string_of(&d) });
                    assert(copy_views(out@) =~= prev.push((p@, d@)));
                },
                None => {},
            }
        }
        i = i + 1;
    }
    assert(string_views(paths@).subrange(0, i as int) =~= string_views(paths@));
    out
}

fn point_at(s: &Vec<char>, t: &Vec<char>) -> (r: Vec<char>)
    ensures
        r@ == pointed_from(s@, 0, t@),
{
    let src = chars_of("src=");
    let head = chars_of("src=\"./");
    let quote = chars_of("\"");
    proof {
        reveal_strlit("src=");
    }
    let mut out: Vec<char> = Vec::new();
    let mut i: usize = 0;
    while i < s.len()
        invariant
            i <= s@.len(),
            src@ == "src="@,
            src@.len() == 4,
            head@ == "src=\"./"@,
            quote@ == "\""@,
            out@ + pointed_from(s@, i as int, t@) == pointed_from(s@, 0, t@),
        decreases s.len() - i,
    {
        let mut matched = false;
        if matches_at(s, i, &src) && s.len() - i > 4 && (s[i + 4] == '"' || s[i + 4] == '\'') {
            let m = find_stop_from(s, i + 5);
            if m < s.len() && (s[m] == '"' || s[m] == '\'') && m - (i + 5) >= t.len() && matches_at(
                s,
                m - t.len(),
                t,
            ) {
                let ghost prev = out@;
                push_all(&mut out, &head);
                push_all(&mut out, t);
                push_all(&mut out, &quote);
                assert(out@ =~= prev + src_to(t@));
                i = m + 1;
                matched = true;
            }
        }
        if !matched {
            out.push(s[i]);
            i = i + 1;
        }
    }
    out
}

fn relocate_chars(s: &Vec<char>, targets: &Vec<Vec<char>>) -> (r: Vec<char>)
    ensures
        r@ == relocated(s@, targets@.map_values(|t: Vec<char>| t@)),
{
    let ghost tv = targets@.map_values(|t: Vec<char>| t@);
    let mut cur: Vec<char> = Vec::new();
    push_all(&mut cur, s);
    let mut i: usize = 0;
    while i < targets.len()
        invariant
            i <= targets@.len(),
            tv == targets@.map_values(|t: Vec<char>| t@),
            cur@ == relocated(s@, tv.subrange(0, i as int)),
        decreases targets.len() - i,
    {
        cur = point_at(&cur, &targets[i]);
        assert(tv.subrange(0, i + 1).drop_last() =~= tv.subrange(0, i as int));
        i = i + 1;
    }
    assert(tv.subrange(0, i as int) =~= tv);
    cur
}

/// Points every `src` whose value ends with the file name of one of
/// `image_paths` at `./<file name>`, path by path in order. Paths without a
/// file name are passed over. A value holds no quote or `>`, so a file name
/// with one of those characters is never matched.
pub fn fix_image_paths(html: &str, image_paths: &Vec<String>) -> (r: String)
    ensures
        r@ == relocated(html@, flat_names(string_views(image_paths@))),
{
    let mut names: Vec<Vec<char>> = Vec::new();
    let mut i: usize = 0;
    while i < image_paths.len()
        invariant
            i <= image_paths@.len(),
            names@.map_values(|t: Vec<char>| t@) == flat_names(
                string_views(image_paths@).subrange(0, i as int),
            ),
        decreases image_paths.len() - i,
    {
        let ghost sub = string_views(image_paths@).subrange(0, i + 1);
        assert(sub.drop_last() =~= string_views(image_paths@).subrange(0, i as int));
        let p = chars_of(image_paths[i].as_str());
        match file_name_chars(&p) {
            Some(n) => {
                let ghost prev = names@.map_values(|t: Vec<char>| t@);
                names.push(n);
                assert(names@.map_values(|t: Vec<char>| t@) =~= prev.push(n@));
            },
            None => {},
        }
        i = i + 1;
    }
    assert(string_views(image_paths@).subrange(0, i as int) =~= string_views(image_paths@));
    let s = chars_of(html);
    string_of(&relocate_chars(&s, &names))
}

/// At `i` stands a quoted `src` whose value is exactly `v`.
pub open spec fn src_value_at(s: Seq<char>, i: int, v: Seq<char>) -> bool {
    &&& occurs_at(s, i, "src="@)
    &&& i + 4 < s.len()
    &&& is_quote(s[i + 4])
    &&& i + 5 <= value_end(s, i) < s.len()
    &&& is_quote(s[value_end(s, i)])
    &&& s.subrange(i + 5, value_end(s, i)) == v
}

/// Points every quoted `src` whose value is exactly `v` at `./d`, from `i` on.
pub open spec fn retargeted_from(s: Seq<char>, i: int, v: Seq<char>, d: Seq<char>) -> Seq<char>
    decreases s.len() - i,
{
    if i < 0 || i >= s.len() {
        Seq::empty()
    } else if src_value_at(s, i, v) {
        src_to(d) + retargeted_from(s, value_end(s, i) + 1, v, d)
    } else {
        seq![s[i]] + retargeted_from(s, i + 1, v, d)
    }
}

/// Points the references to each copied source at its destination, copy
/// by copy in order.
pub open spec fn moved(s: Seq<char>, copies: Seq<(Seq<char>, Seq<char>)>) -> Seq<char>
    decreases copies.len(),
{
    if copies.len() == 0 {
        s
    } else {
        retargeted_from(moved(s, copies.drop_last()), 0, copies.last().0, copies.last().1)
    }
}

fn point_exact(s: &Vec<char>, v: &Vec<char>, d: &Vec<char>) -> (r: Vec<char>)
    ensures
        r@ == retargeted_from(s@, 0, v@, d@),
{
    let src = chars_of("src=");
    let head = chars_of("src=\"./");
    let quote = chars_of("\"");
    proof {
        reveal_strlit("src=");
    }
    let mut out: Vec<char> = Vec::new();
    let mut i: usize = 0;
    while i < s.len()
        invariant
            i <= s@.len(),
            src@ == "src="@,
            src@.len() == 4,
            head@ == "src=\"./"@,
            quote@ == "\""@,
            out@ + retargeted_from(s@, i as int, v@, d@) == retargeted_from(s@, 0, v@, d@),
        decreases s.len() - i,
    {
        let mut matched = false;
        if matches_at(s, i, &src) && s.len() - i > 4 && (s[i + 4] == '"' || s[i + 4] == '\'') {
            let m = find_stop_from(s, i + 5);
            if m < s.len() && (s[m] == '"' || s[m] == '\'') && m - (i + 5) == v.len()
                && matches_at(s, i + 5, v) {
                assert(s@.subrange(i + 5, m as int) == v@);
                let ghost prev = out@;
                push_all(&mut out, &head);
                push_all(&mut out, d);
                push_all(&mut out, &quote);
                assert(out@ =~= prev + src_to(d@));
                i = m + 1;
                matched = true;
            } else {
                proof {
                    if m < s.len() && s@.subrange(i + 5, m as int) == v@ {
                        assert(s@.subrange(i + 5, i + 5 + v@.len()) == v@);
                    }
                }
            }
        }
        if !matched {
            out.push(s[i]);
            i = i + 1;
        }
    }
    out
}

/// Relocates the images of a fragment. `found[i]` tells whether the i-th
/// source of `image_sources` exists under the source directory (a source
/// without an entry does not). The plan lists a copy for each found source
/// that has a destination; its fragment points every `src` whose value is
/// exactly a copied source at `./<destination>`, and leaves every other
/// reference as it is.
pub fn process_images(html: &str, found: &Vec<bool>, mode: Placement) -> (r: ImagePlan)
    ensures
        copy_views(r.copies@) == planned(image_sources(html@), found@, mode),
        r.html@ == moved(html@, planned(image_sources(html@), found@, mode)),
{
    let paths = extract_image_paths(html);
    let copies = plan_image_copies(&paths, found, mode);
    let mut cur = chars_of(html);
    let ghost cv = copy_views(copies@);
    let mut i: usize = 0;
    while i < copies.len()
        invariant
            i <= copies@.len(),
            cv == copy_views(copies@),
            cur@ == moved(html@, cv.subrange(0, i as int)),
        decreases copies.len() - i,
    {
        let v = chars_of(copies[i].source.as_str());
        let d = chars_of(copies[i].dest.as_str());
        cur = point_exact(&cur, &v, &d);
        assert(cv.subrange(0, i + 1).drop_last() =~= cv.subrange(0, i as int));
        i = i + 1;
    }
    assert(cv.subrange(0, i as int) =~= cv);
    ImagePlan { html: string_of(&cur), copies }
}

proof fn lemma_planned_none_found(paths: Seq<Seq<char>>, found: Seq<bool>, mode: Placement)
    requires
        forall|i: int| 0 <= i < found.len() ==> !found[i],
    ensures
        planned(paths, found, mode).len() == 0,
    decreases paths.len(),
{
    if paths.len() > 0 {
        lemma_planned_none_found(paths.drop_last(), found, mode);
    }
}

/// Where no referenced file was found, nothing is copied and the fragment
/// is left exactly as it was.
pub proof fn lemma_nothing_found_nothing_changed(html: Seq<char>, found: Seq<bool>, mode: Placement)
    requires
        forall|i: int| 0 <= i < found.len() ==> !found[i],
    ensures
        planned(image_sources(html), found, mode).len() == 0,
        moved(html, planned(image_sources(html), found, mode)) == html,
{
    lemma_planned_none_found(image_sources(html), found, mode);
}

} // verus!
