//! The code-block enhancer and the GitHub link block.
//!
//! Each pass scans the fragment left to right; where a pass matches, it
//! rewrites the matched span and goes on after it, otherwise it keeps one
//! character and moves on by one.
use vstd::prelude::*;
use crate::text::{
    chars_of, find_char, find_char_from, find_seq, find_seq_from, matches_at, occurs_at, push_all,
    push_range, replace_all, replace_chars, string_of,
};

verus! {

/// `<pre><code class="language-`, the start of a code block with a language.
pub open spec fn lang_block_prefix() -> Seq<char> {
    "<pre><code class=\"language-"@
}

/// A code block opened without a language class.
pub open spec fn plain_block_open() -> Seq<char> {
    "<pre><code>"@
}

/// Both tags of a code block classed with language `lang`.
pub open spec fn classed_open(lang: Seq<char>) -> Seq<char> {
    "<pre class=\"language-"@ + lang + "\"><code class=\"language-"@ + lang + "\">"@
}

/// The copy control put after every opening `<pre ...>` tag.
pub open spec fn copy_button() -> Seq<char> {
    "<button class=\"copy-btn\">Copy</button>"@
}

/// The container opened around every code block.
pub open spec fn block_div_open() -> Seq<char> {
    "<div class=\"code-block\">"@
}

/// The end of the container.
pub open spec fn block_div_close() -> Seq<char> {
    "</div>"@
}

/// Index of the `"` that closes the language name of a block starting at `i`.
pub open spec fn lang_end(s: Seq<char>, i: int) -> int {
    find_char(s, i + lang_block_prefix().len(), '"')
}

/// At `i` starts `<pre><code class="language-X">` with a non-empty `X`
/// that holds no `"`.
pub open spec fn lang_block_at(s: Seq<char>, i: int) -> bool {
    &&& occurs_at(s, i, lang_block_prefix())
    &&& i + lang_block_prefix().len() < lang_end(s, i)
    &&& lang_end(s, i) + 1 < s.len()
    &&& s[lang_end(s, i) + 1] == '>'
}

/// Highlight classing of code blocks with a language, from index `i` on.
pub open spec fn lang_classed_from(s: Seq<char>, i: int) -> Seq<char>
    decreases s.len() - i,
{
    if i < 0 || i >= s.len() {
        Seq::empty()
    } else if lang_block_at(s, i) {
        classed_open(s.subrange(i + lang_block_prefix().len(), lang_end(s, i)))
            + lang_classed_from(s, lang_end(s, i) + 2)
    } else {
        seq![s[i]] + lang_classed_from(s, i + 1)
    }
}

/// Highlight classing: each `<pre><code class="language-X">` becomes
/// `<pre class="language-X"><code class="language-X">`, then each
/// `<pre><code>` becomes the same with `X` = `none`.
pub open spec fn highlighted(s: Seq<char>) -> Seq<char> {
    replace_all(lang_classed_from(s, 0), plain_block_open(), classed_open("none"@))
}

/// Index of the `>` that closes an opening tag starting at `i`.
pub open spec fn pre_tag_end(s: Seq<char>, i: int) -> int {
    find_char(s, i + 4, '>')
}

/// At `i` starts an opening tag `<pre` ... `>` (no `>` in between).
pub open spec fn pre_tag_at(s: Seq<char>, i: int) -> bool {
    &&& occurs_at(s, i, "<pre"@)
    &&& i + 4 <= pre_tag_end(s, i) < s.len()
}

/// Copy-control injection from index `i` on.
pub open spec fn with_copy_buttons_from(s: Seq<char>, i: int) -> Seq<char>
    decreases s.len() - i,
{
    if i < 0 || i >= s.len() {
        Seq::empty()
    } else if pre_tag_at(s, i) {
        s.subrange(i, pre_tag_end(s, i) + 1) + copy_button() + with_copy_buttons_from(
            s,
            pre_tag_end(s, i) + 1,
        )
    } else {
        seq![s[i]] + with_copy_buttons_from(s, i + 1)
    }
}

/// `s` with the copy control inserted right after every opening `<pre ...>` tag.
pub open spec fn with_copy_buttons(s: Seq<char>) -> Seq<char> {
    with_copy_buttons_from(s, 0)
}

/// Index of the first `</pre>` after the `<pre` that starts at `i`.
pub open spec fn block_close(s: Seq<char>, i: int) -> int {
    find_seq(s, i + 4, "</pre>"@)
}

/// At `i` starts a block `<pre` ... `</pre>`, ended by the first `</pre>`.
pub open spec fn pre_block_at(s: Seq<char>, i: int) -> bool {
    &&& occurs_at(s, i, "<pre"@)
    &&& i + 4 <= block_close(s, i)
    &&& block_close(s, i) + 6 <= s.len()
}

/// Container wrapping from index `i` on.
pub open spec fn wrapped_from(s: Seq<char>, i: int) -> Seq<char>
    decreases s.len() - i,
{
    if i < 0 || i >= s.len() {
        Seq::empty()
    } else if pre_block_at(s, i) {
        block_div_open() + s.subrange(i, block_close(s, i) + 6) + block_div_close()
            + wrapped_from(s, block_close(s, i) + 6)
    } else {
        seq![s[i]] + wrapped_from(s, i + 1)
    }
}

/// `s` with every shortest `<pre` ... `</pre>` span put in its own container.
pub open spec fn wrapped(s: Seq<char>) -> Seq<char> {
    wrapped_from(s, 0)
}

/// The three passes of the enhancer, in order.
pub open spec fn enhanced(s: Seq<char>) -> Seq<char> {
    wrapped(with_copy_buttons(highlighted(s)))
}

/// The GitHub link block for `url`.
pub open spec fn github_section(url: Seq<char>) -> Seq<char> {
    "<div class=\"github-link\">\n                <p><strong><i class=\"fab fa-github\"></i> GitHub Repository:</strong> <a href=\""@
        + url + "\" target=\"_blank\" rel=\"noopener noreferrer\">"@ + url
        + "</a></p>\n            </div>\n            <hr style=\"margin: 2rem 0;\">"@
}

/// `k` is the index of the `>` that closes an opening `<pre ...>` tag.
pub open spec fn is_pre_tag_end(s: Seq<char>, k: int) -> bool {
    exists|j: int| pre_tag_at(s, j) && pre_tag_end(s, j) == k
}

/// The indices, from `i` on, of the `>` of each opening `<pre ...>` tag
/// that the copy-control pass acts on, in increasing order.
pub open spec fn pre_tag_ends_from(s: Seq<char>, i: int) -> Seq<int>
    decreases s.len() - i,
{
    if i < 0 || i >= s.len() {
        Seq::empty()
    } else if pre_tag_at(s, i) {
        seq![pre_tag_end(s, i)] + pre_tag_ends_from(s, pre_tag_end(s, i) + 1)
    } else {
        pre_tag_ends_from(s, i + 1)
    }
}

/// `s` from `i` on, cut after each index of `cuts` with `x` put into each cut.
pub open spec fn spliced(s: Seq<char>, i: int, cuts: Seq<int>, x: Seq<char>) -> Seq<char>
    decreases cuts.len(),
{
    if cuts.len() == 0 {
        s.subrange(i, s.len() as int)
    } else {
        s.subrange(i, cuts[0] + 1) + x + spliced(s, cuts[0] + 1, cuts.drop_first(), x)
    }
}

proof fn lemma_pre_tag_ends_bounds(s: Seq<char>, i: int)
    requires
        0 <= i,
    ensures
        forall|n: int|
            0 <= n < pre_tag_ends_from(s, i).len() ==> i <= #[trigger] pre_tag_ends_from(
                s,
                i,
            )[n] < s.len(),
    decreases s.len() - i,
{
    if i < s.len() {
        if pre_tag_at(s, i) {
            lemma_pre_tag_ends_bounds(s, pre_tag_end(s, i) + 1);
            let e = pre_tag_ends_from(s, i);
            assert forall|n: int| 0 <= n < e.len() implies i <= #[trigger] e[n] < s.len() by {
                if n > 0 {
                    assert(e[n] == pre_tag_ends_from(s, pre_tag_end(s, i) + 1)[n - 1]);
                }
            }
        } else {
            lemma_pre_tag_ends_bounds(s, i + 1);
            assert(pre_tag_ends_from(s, i) == pre_tag_ends_from(s, i + 1));
        }
    }
}

proof fn lemma_copy_buttons_from(s: Seq<char>, i: int)
    requires
        0 <= i <= s.len(),
    ensures
        with_copy_buttons_from(s, i) == spliced(s, i, pre_tag_ends_from(s, i), copy_button()),
    decreases s.len() - i,
{
    if i < s.len() {
        if pre_tag_at(s, i) {
            let k = pre_tag_end(s, i);
            lemma_copy_buttons_from(s, k + 1);
            let e = pre_tag_ends_from(s, i);
            assert(e[0] == k);
            assert(e.drop_first() =~= pre_tag_ends_from(s, k + 1));
        } else {
            lemma_copy_buttons_from(s, i + 1);
            lemma_pre_tag_ends_bounds(s, i + 1);
            let e = pre_tag_ends_from(s, i + 1);
            if e.len() == 0 {
                assert(s.subrange(i, s.len() as int) =~= seq![s[i]] + s.subrange(
                    i + 1,
                    s.len() as int,
                ));
            } else {
                assert(i + 1 <= e[0]);
                assert(s.subrange(i, e[0] + 1) =~= seq![s[i]] + s.subrange(i + 1, e[0] + 1));
            }
        }
    } else {
        assert(s.subrange(i, s.len() as int) =~= Seq::<char>::empty());
    }
}

/// Copy-control injection changes no text of the fragment: the output is
/// the input cut right after the `>` of each opening `<pre ...>` tag, in
/// order, with the control put into each cut and nothing else added or
/// removed.
pub proof fn lemma_copy_buttons_only_insert(s: Seq<char>)
    ensures
        with_copy_buttons(s) == spliced(s, 0, pre_tag_ends_from(s, 0), copy_button()),
        forall|n: int|
            0 <= n < pre_tag_ends_from(s, 0).len() ==> is_pre_tag_end(s, #[trigger] pre_tag_ends_from(s, 0)[n]),
        forall|n: int, m: int|
            0 <= n < m < pre_tag_ends_from(s, 0).len() ==> #[trigger] pre_tag_ends_from(s, 0)[n]
                < #[trigger] pre_tag_ends_from(s, 0)[m],
{
    lemma_copy_buttons_from(s, 0);
    lemma_pre_tag_ends_facts(s, 0);
}

proof fn lemma_pre_tag_ends_facts(s: Seq<char>, i: int)
    requires
        0 <= i,
    ensures
        forall|n: int|
            0 <= n < pre_tag_ends_from(s, i).len() ==> is_pre_tag_end(s, #[trigger] pre_tag_ends_from(s, i)[n]),
        forall|n: int, m: int|
            0 <= n < m < pre_tag_ends_from(s, i).len() ==> #[trigger] pre_tag_ends_from(s, i)[n]
                < #[trigger] pre_tag_ends_from(s, i)[m],
    decreases s.len() - i,
{
    if i < s.len() {
        if pre_tag_at(s, i) {
            let k = pre_tag_end(s, i);
            lemma_pre_tag_ends_facts(s, k + 1);
            lemma_pre_tag_ends_bounds(s, k + 1);
            let e = pre_tag_ends_from(s, i);
            let r = pre_tag_ends_from(s, k + 1);
            assert forall|n: int| 0 <= n < e.len() implies is_pre_tag_end(s, #[trigger] e[n]) by {
                if n == 0 {
                    assert(pre_tag_at(s, i) && pre_tag_end(s, i) == e[0]);
                } else {
                    assert(e[n] == r[n - 1]);
                }
            }
            assert forall|n: int, m: int| 0 <= n < m < e.len() implies #[trigger] e[n]
                < #[trigger] e[m] by {
                assert(e[m] == r[m - 1]);
                if n > 0 {
                    assert(e[n] == r[n - 1]);
                }
            }
        } else {
            lemma_pre_tag_ends_facts(s, i + 1);
            assert(pre_tag_ends_from(s, i) == pre_tag_ends_from(s, i + 1));
        }
    }
}

/// `x` is one whole block: it opens with `<pre`, and the first `</pre>`
/// after that ends it.
pub open spec fn single_block(x: Seq<char>) -> bool {
    &&& occurs_at(x, 0, "<pre"@)
    &&& x.len() >= 10
    &&& block_close(x, 0) == x.len() - 6
}

proof fn lemma_occurs_in_prefix(x: Seq<char>, z: Seq<char>, j: int, p: Seq<char>)
    requires
        0 <= j,
        j + p.len() <= x.len(),
    ensures
        occurs_at(x + z, j, p) == occurs_at(x, j, p),
{
    assert((x + z).subrange(j, j + p.len()) =~= x.subrange(j, j + p.len()));
}

proof fn lemma_occurs_shifted(x: Seq<char>, y: Seq<char>, j: int, p: Seq<char>)
    requires
        0 <= j,
    ensures
        occurs_at(x + y, x.len() + j, p) == occurs_at(y, j, p),
{
    if j + p.len() <= y.len() {
        assert((x + y).subrange(x.len() + j, x.len() + j + p.len()) =~= y.subrange(
            j,
            j + p.len(),
        ));
    }
}

proof fn lemma_find_seq_lower(s: Seq<char>, i: int, p: Seq<char>)
    requires
        0 <= i <= s.len(),
    ensures
        i <= find_seq(s, i, p) <= s.len(),
    decreases s.len() - i,
{
    if i < s.len() && !occurs_at(s, i, p) {
        lemma_find_seq_lower(s, i + 1, p);
    }
}

proof fn lemma_find_seq_prefix(x: Seq<char>, z: Seq<char>, i: int, p: Seq<char>)
    requires
        0 <= i <= x.len(),
        find_seq(x, i, p) < x.len(),
        find_seq(x, i, p) + p.len() <= x.len(),
    ensures
        find_seq(x + z, i, p) == find_seq(x, i, p),
    decreases x.len() - i,
{
    lemma_find_seq_lower(x, i, p);
    if occurs_at(x, i, p) {
        lemma_occurs_in_prefix(x, z, i, p);
    } else {
        lemma_find_seq_lower(x, i + 1, p);
        lemma_occurs_in_prefix(x, z, i, p);
        lemma_find_seq_prefix(x, z, i + 1, p);
    }
}

proof fn lemma_find_seq_shifted(x: Seq<char>, y: Seq<char>, j: int, p: Seq<char>)
    requires
        0 <= j,
    ensures
        find_seq(x + y, x.len() + j, p) == x.len() + find_seq(y, j, p),
    decreases y.len() - j,
{
    if j < y.len() {
        lemma_occurs_shifted(x, y, j, p);
        if !occurs_at(y, j, p) {
            lemma_find_seq_shifted(x, y, j + 1, p);
        }
    }
}

proof fn lemma_wrapped_shifted(x: Seq<char>, y: Seq<char>, j: int)
    requires
        0 <= j,
    ensures
        wrapped_from(x + y, x.len() + j) == wrapped_from(y, j),
    decreases y.len() - j,
{
    if j < y.len() {
        lemma_occurs_shifted(x, y, j, "<pre"@);
        lemma_find_seq_shifted(x, y, j + 4, "</pre>"@);
        assert((x + y)[x.len() + j] == y[j]);
        if pre_block_at(y, j) {
            let c = block_close(y, j);
            lemma_wrapped_shifted(x, y, c + 6);
            assert((x + y).subrange(x.len() + j, x.len() + c + 6) =~= y.subrange(j, c + 6));
        } else {
            lemma_wrapped_shifted(x, y, j + 1);
        }
    }
}

proof fn lemma_single_block_wrapped(x: Seq<char>, y: Seq<char>)
    requires
        single_block(x),
    ensures
        wrapped_from(x + y, 0) == block_div_open() + x + block_div_close() + wrapped_from(y, 0),
{
    reveal_strlit("<pre");
    reveal_strlit("</pre>");
    lemma_occurs_in_prefix(x, y, 0, "<pre"@);
    lemma_find_seq_prefix(x, y, 4, "</pre>"@);
    assert((x + y).subrange(0, x.len() as int) =~= x);
    lemma_wrapped_shifted(x, y, 0);
}

/// Blocks are wrapped one by one: two whole blocks side by side get two
/// containers, each around exactly one of them, never one around both.
pub proof fn lemma_adjacent_blocks_wrapped_apart(x: Seq<char>, y: Seq<char>)
    requires
        single_block(x),
        single_block(y),
    ensures
        wrapped(x + y) == block_div_open() + x + block_div_close() + block_div_open() + y
            + block_div_close(),
{
    lemma_single_block_wrapped(x, y);
    lemma_single_block_wrapped(y, Seq::empty());
    assert(y + Seq::<char>::empty() =~= y);
    assert(wrapped_from(Seq::<char>::empty(), 0) =~= Seq::<char>::empty());
}

/// Adds the language class of every code block to its `<pre>` tag, and the
/// class `language-none` to both tags of a block without one.
pub fn add_syntax_highlighting(html: &str) -> (r: String)
    ensures
        r@ == highlighted(html@),
{
    let s = chars_of(html);
    let prefix = chars_of("<pre><code class=\"language-");
    let open_a = chars_of("<pre class=\"language-");
    let open_b = chars_of("\"><code class=\"language-");
    let open_c = chars_of("\">");
    let mut out: Vec<char> = Vec::new();
    let mut i: usize = 0;
    while i < s.len()
        invariant
            i <= s@.len(),
            prefix@ == lang_block_prefix(),
            open_a@ == "<pre class=\"language-"@,
            open_b@ == "\"><code class=\"language-"@,
            open_c@ == "\">"@,
            out@ + lang_classed_from(s@, i as int) == lang_classed_from(s@, 0),
        decreases s.len() - i,
    {
        let mut matched = false;
        if matches_at(&s, i, &prefix) {
            let start = i + prefix.len();
            let q = find_char_from(&s, start, '"');
            if start < q && q < s.len() - 1 && s[q + 1] == '>' {
                let ghost prev = out@;
                push_all(&mut out, &open_a);
                push_range(&mut out, &s, start, q);
                push_all(&mut out, &open_b);
                push_range(&mut out, &s, start, q);
                push_all(&mut out, &open_c);
                assert(out@ =~= prev + classed_open(s@.subrange(start as int, q as int)));
                i = q + 2;
                matched = true;
            }
        }
        if !matched {
            out.push(s[i]);
            i = i + 1;
        }
    }
    let plain = chars_of("<pre><code>");
    let none_open = chars_of("<pre class=\"language-none\"><code class=\"language-none\">");
    assert(none_open@ =~= classed_open("none"@)) by {
        reveal_strlit("<pre class=\"language-none\"><code class=\"language-none\">");
        reveal_strlit("<pre class=\"language-");
        reveal_strlit("\"><code class=\"language-");
        reveal_strlit("\">");
        reveal_strlit("none");
    }
    let r = replace_chars(&out, &plain, &none_open);
    string_of(&r)
}

/// Inserts the copy control right after every opening `<pre ...>` tag.
pub fn inject_copy_button(html: &str) -> (r: String)
    ensures
        r@ == with_copy_buttons(html@),
{
    let s = chars_of(html);
    let pre = chars_of("<pre");
    proof {
        reveal_strlit("<pre");
    }
    let button = chars_of("<button class=\"copy-btn\">Copy</button>");
    let mut out: Vec<char> = Vec::new();
    let mut i: usize = 0;
    while i < s.len()
        invariant
            i <= s@.len(),
            pre@ == "<pre"@,
            pre@.len() == 4,
            button@ == copy_button(),
            out@ + with_copy_buttons_from(s@, i as int) == with_copy_buttons(s@),
        decreases s.len() - i,
    {
        let mut matched = false;
        if matches_at(&s, i, &pre) {
            let k = find_char_from(&s, i + 4, '>');
            if k < s.len() {
                push_range(&mut out, &s, i, k + 1);
                push_all(&mut out, &button);
                i = k + 1;
                matched = true;
            }
        }
        if !matched {
            out.push(s[i]);
            i = i + 1;
        }
    }
    string_of(&out)
}

/// Wraps every shortest `<pre` ... `</pre>` span in `<div class="code-block">`.
pub fn wrap_code_blocks(html: &str) -> (r: String)
    ensures
        r@ == wrapped(html@),
{
    let s = chars_of(html);
    let pre = chars_of("<pre");
    proof {
        reveal_strlit("<pre");
    }
    let close = chars_of("</pre>");
    let div_open = chars_of("<div class=\"code-block\">");
    let div_close = chars_of("</div>");
    let mut out: Vec<char> = Vec::new();
    let mut i: usize = 0;
    while i < s.len()
        invariant
            i <= s@.len(),
            pre@ == "<pre"@,
            pre@.len() == 4,
            close@ == "</pre>"@,
            div_open@ == block_div_open(),
            div_close@ == block_div_close(),
            out@ + wrapped_from(s@, i as int) == wrapped(s@),
        decreases s.len() - i,
    {
        let mut matched = false;
        if matches_at(&s, i, &pre) {
            let c = find_seq_from(&s, i + 4, &close);
            if c <= s.len() && 6 <= s.len() - c {
                push_all(&mut out, &div_open);
                push_range(&mut out, &s, i, c + 6);
                push_all(&mut out, &div_close);
                i = c + 6;
                matched = true;
            }
        }
        if !matched {
            out.push(s[i]);
            i = i + 1;
        }
    }
    string_of(&out)
}

/// Runs the three enhancer passes in order: highlight classing, copy
/// controls, containers.
pub fn process_code_blocks(html: &str) -> (r: String)
    ensures
        r@ == enhanced(html@),
{
    let h = add_syntax_highlighting(html);
    let h = inject_copy_button(h.as_str());
    wrap_code_blocks(h.as_str())
}

/// The GitHub link block for the URL, or the empty string without one.
pub fn create_github_link_section(github_url: &Option<String>) -> (r: String)
    ensures
        r@ == match github_url {
            Some(url) => github_section(url@),
            None => Seq::empty(),
        },
{
    match github_url {
        Some(url) => {
            let mut out = chars_of(
                "<div class=\"github-link\">\n                <p><strong><i class=\"fab fa-github\"></i> GitHub Repository:</strong> <a href=\"",
            );
            let u = chars_of(url.as_str());
            push_all(&mut out, &u);
            push_all(&mut out, &chars_of("\" target=\"_blank\" rel=\"noopener noreferrer\">"));
            push_all(&mut out, &u);
            push_all(
                &mut out,
                &chars_of("</a></p>\n            </div>\n            <hr style=\"margin: 2rem 0;\">"),
            );
            string_of(&out)
        },
        None => String::new(),
    }
}

} // verus!
