//! Literal placeholder substitution and the navigation menu.
use vstd::prelude::*;
use crate::text::{chars_of, push_all, replace_all, replace_chars, replace_str, string_of};

verus! {

/// The placeholder that receives a page's main content.
pub open spec fn main_placeholder() -> Seq<char> {
    "{{ main_content }}"@
}

/// The placeholder that receives the navigation menu.
pub open spec fn menu_placeholder() -> Seq<char> {
    "{{ menu_items }}"@
}

/// The (placeholder, replacement) pairs as character sequences.
pub open spec fn pair_views(pairs: Seq<(&str, &str)>) -> Seq<(Seq<char>, Seq<char>)> {
    pairs.map_values(|q: (&str, &str)| (q.0@, q.1@))
}

/// Applies the pairs in order, each pass working on the output of the
/// previous one.
pub open spec fn apply_replacements(s: Seq<char>, pairs: Seq<(Seq<char>, Seq<char>)>) -> Seq<
    char,
>
    decreases pairs.len(),
{
    if pairs.len() == 0 {
        s
    } else {
        replace_all(
            apply_replacements(s, pairs.drop_last()),
            pairs.last().0,
            pairs.last().1,
        )
    }
}

/// One menu entry: `<li><a href="URL">NAME</a></li>`.
pub open spec fn menu_item(name: Seq<char>, url: Seq<char>) -> Seq<char> {
    "<li><a href=\""@ + url + "\">"@ + name + "</a></li>"@
}

/// The menu entries of `links`, one per (name, url) pair, joined by newlines.
pub open spec fn menu_html(links: Seq<(Seq<char>, Seq<char>)>) -> Seq<char>
    decreases links.len(),
{
    if links.len() == 0 {
        Seq::empty()
    } else if links.len() == 1 {
        menu_item(links[0].0, links[0].1)
    } else {
        menu_html(links.drop_last()) + "\n"@ + menu_item(links.last().0, links.last().1)
    }
}

/// Substitution runs the pairs strictly in sequence: applying `first`
/// followed by `second` equals applying `second` to the result of `first`.
/// So a replacement that brings in a later pair's placeholder is itself
/// replaced by that later pair, and never by an earlier one.
pub proof fn lemma_replacements_in_order(
    s: Seq<char>,
    first: Seq<(Seq<char>, Seq<char>)>,
    second: Seq<(Seq<char>, Seq<char>)>,
)
    ensures
        apply_replacements(s, first + second) == apply_replacements(
            apply_replacements(s, first),
            second,
        ),
    decreases second.len(),
{
    if second.len() == 0 {
        assert(first + second =~= first);
    } else {
        lemma_replacements_in_order(s, first, second.drop_last());
        assert((first + second).drop_last() =~= first + second.drop_last());
        assert((first + second).last() == second.last());
    }
}

/// Replaces each placeholder of `replacements` by its content, pair by pair
/// in the given order. A placeholder that does not occur is left alone.
pub fn replace_template(html: &str, replacements: &[(&str, &str)]) -> (r: String)
    ensures
        r@ == apply_replacements(html@, pair_views(replacements@)),
{
    let mut cur = chars_of(html);
    let mut i: usize = 0;
    while i < replacements.len()
        invariant
            i <= replacements@.len(),
            cur@ == apply_replacements(
                html@,
                pair_views(replacements@).subrange(0, i as int),
            ),
        decreases replacements.len() - i,
    {
        let (placeholder, content) = replacements[i];
        let pv = chars_of(placeholder);
        let cv = chars_of(content);
        cur = replace_chars(&cur, &pv, &cv);
        assert(pair_views(replacements@).subrange(0, i + 1).drop_last() =~= pair_views(
            replacements@,
        ).subrange(0, i as int));
        i = i + 1;
    }
    assert(pair_views(replacements@).subrange(0, i as int) =~= pair_views(replacements@));
    string_of(&cur)
}

/// The navigation menu: one `<li><a href="URL">NAME</a></li>` per
/// (name, url) pair, in order, separated by newlines.
pub fn create_menu_html(links: &[(&str, &str)]) -> (r: String)
    ensures
        r@ == menu_html(pair_views(links@)),
{
    let open_a = chars_of("<li><a href=\"");
    let mid = chars_of("\">");
    let close = chars_of("</a></li>");
    let newline = chars_of("\n");
    let mut out: Vec<char> = Vec::new();
    let mut i: usize = 0;
    while i < links.len()
        invariant
            i <= links@.len(),
            open_a@ == "<li><a href=\""@,
            mid@ == "\">"@,
            close@ == "</a></li>"@,
            newline@ == "\n"@,
            out@ == menu_html(pair_views(links@).subrange(0, i as int)),
        decreases links.len() - i,
    {
        let (name, url) = links[i];
        let ghost prev = out@;
        if i > 0 {
            push_all(&mut out, &newline);
        }
        push_all(&mut out, &open_a);
        push_all(&mut out, &chars_of(url));
        push_all(&mut out, &mid);
        push_all(&mut out, &chars_of(name));
        push_all(&mut out, &close);
        let ghost sub = pair_views(links@).subrange(0, i + 1);
        assert(sub.drop_last() =~= pair_views(links@).subrange(0, i as int));
        assert(sub.last() == (name@, url@));
        if i > 0 {
            assert(out@ =~= prev + "\n"@ + menu_item(name@, url@));
        } else {
            assert(out@ =~= menu_item(name@, url@));
        }
        i = i + 1;
    }
    assert(pair_views(links@).subrange(0, i as int) =~= pair_views(links@));
    string_of(&out)
}

/// Puts `main_content` into `{{ main_content }}` and then `menu_items` into
/// `{{ menu_items }}`.
pub fn process_template(template: &str, main_content: &str, menu_items: &str) -> (r: String)
    ensures
        r@ == replace_all(
            replace_all(template@, main_placeholder(), main_content@),
            menu_placeholder(),
            menu_items@,
        ),
{
    let with_main = replace_str(template, "{{ main_content }}", main_content);
    replace_str(with_main.as_str(), "{{ menu_items }}", menu_items)
}

} // verus!
