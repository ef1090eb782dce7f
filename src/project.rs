//! Projects, navigation links, and the computing steps of rendering one
//! project page.
use vstd::prelude::*;
use crate::html::{create_github_link_section, enhanced, github_section, process_code_blocks};
use crate::images::{file_name_chars, file_name_of};
use crate::templates::main_placeholder;
use crate::text::{chars_of, occurs_at, push_all, replace_all, replace_str, string_of};

verus! {

/// A project rendered into one page of the site.
#[derive(Debug, Clone)]
pub struct Project {
    /// Directory holding the project's README.md and its assets.
    pub source_dir: String,
    /// Directory where the page and the copied assets are written.
    pub output_dir: String,
    /// Web address of the project's repository, where one is known.
    pub github_url: Option<String>,
}

/// A navigation entry of the site menu.
#[derive(Debug, Clone)]
pub struct SiteLink {
    pub name: String,
    pub url: String,
}

/// What `markdown::to_html` makes of a document.
pub uninterp spec fn markdown_html(text: Seq<char>) -> Seq<char>;

/// Relies on `markdown::to_html`: the HTML for a markdown document, which
/// depends on the document alone. It does not fail: plain markdown has no
/// syntax errors, and MDX is off in the default options.
#[verifier::external_body]
fn markdown_to_html(text: &str) -> (r: String)
    ensures
        r@ == markdown_html(text@),
{
    markdown::to_html(text)
}

/// `<source_dir>/README.md`.
pub open spec fn readme_path_of(source_dir: Seq<char>) -> Seq<char> {
    source_dir + "/README.md"@
}

/// `<output_dir>/index.html`.
pub open spec fn index_path_of(output_dir: Seq<char>) -> Seq<char> {
    output_dir + "/index.html"@
}

/// The link block for an optional repository address.
pub open spec fn link_section(github_url: Option<String>) -> Seq<char> {
    match github_url {
        Some(url) => github_section(url@),
        None => Seq::empty(),
    }
}

/// A page: the layout with `{{ main_content }}` replaced by the body and
/// the link block after it.
pub open spec fn page(layout: Seq<char>, body: Seq<char>, github_url: Option<String>) -> Seq<
    char,
> {
    replace_all(layout, main_placeholder(), body + link_section(github_url))
}

/// The name of a project: the file name of its output directory, or
/// `unknown`.
pub open spec fn project_name(output_dir: Seq<char>) -> Seq<char> {
    match file_name_of(output_dir) {
        Some(n) => n,
        None => "unknown"@,
    }
}

impl Project {
    /// A project without a repository address.
    pub fn new(source_dir: String, output_dir: String) -> (r: Project)
        ensures
            r.source_dir == source_dir,
            r.output_dir == output_dir,
            r.github_url is None,
    {
        Project { source_dir, output_dir, github_url: None }
    }

    /// A project with a repository address.
    pub fn with_github_url(source_dir: String, output_dir: String, github_url: String) -> (r:
        Project)
        ensures
            r.source_dir == source_dir,
            r.output_dir == output_dir,
            r.github_url == Some(github_url),
    {
        Project { source_dir, output_dir, github_url: Some(github_url) }
    }

    /// The project lives outside the site's tree: its source directory
    /// starts with `../`.
    pub fn is_external(&self) -> (r: bool)
        ensures
            r == occurs_at(self.source_dir@, 0, "../"@),
    {
        let s = chars_of(self.source_dir.as_str());
        let prefix = chars_of("../");
        crate::text::matches_at(&s, 0, &prefix)
    }

    /// The repository address of an external project whose source
    /// directory holds `.git` (`has_git_dir`), from what
    /// `git remote get-url origin` printed there (`origin_output`, `None`
    /// where Git failed). Any other project gets none.
    pub fn fetch_git_remote(&self, has_git_dir: bool, origin_output: Option<&str>) -> (r: Option<
        String,
    >)
        ensures
            match r {
                Some(url) => occurs_at(self.source_dir@, 0, "../"@) && has_git_dir
                    && origin_output is Some && url@ == crate::git::web_url(origin_output->0@),
                None => !(occurs_at(self.source_dir@, 0, "../"@) && has_git_dir
                    && origin_output is Some),
            },
    {
        if self.is_external() && has_git_dir {
            match origin_output {
                Some(out) => Some(crate::git::normalize_remote_url(out)),
                None => None,
            }
        } else {
            None
        }
    }

    /// Records the repository address.
    pub fn set_github_url(&mut self, url: String)
        ensures
            final(self).github_url == Some(url),
            final(self).source_dir == old(self).source_dir,
            final(self).output_dir == old(self).output_dir,
    {
        self.github_url = Some(url);
    }

    /// The file name of the output directory, or `unknown` without one.
    pub fn name(&self) -> (r: String)
        ensures
            r@ == project_name(self.output_dir@),
    {
        let d = chars_of(self.output_dir.as_str());
        match file_name_chars(&d) {
            Some(n) => string_of(&n),
            None => String::from_str("unknown"),
        }
    }

    /// Where the project's README is read from.
    pub fn readme_path(&self) -> (r: String)
        ensures
            r@ == readme_path_of(self.source_dir@),
    {
        let mut v = chars_of(self.source_dir.as_str());
        push_all(&mut v, &chars_of("/README.md"));
        string_of(&v)
    }

    /// Where the project's page is written.
    pub fn index_path(&self) -> (r: String)
        ensures
            r@ == index_path_of(self.output_dir@),
    {
        let mut v = chars_of(self.output_dir.as_str());
        push_all(&mut v, &chars_of("/index.html"));
        string_of(&v)
    }
}

impl SiteLink {
    /// A menu entry showing `name` and pointing at `url`.
    pub fn new(name: String, url: String) -> (r: SiteLink)
        ensures
            r.name == name,
            r.url == url,
    {
        SiteLink { name, url }
    }
}

/// A README converted to HTML, with its code blocks enhanced.
pub fn render_readme(readme: &str) -> (r: String)
    ensures
        r@ == enhanced(markdown_html(readme@)),
{
    let html = markdown_to_html(readme);
    process_code_blocks(html.as_str())
}

/// The page of a project: `body` (its relocated HTML) followed by the link
/// block, put into the layout's `{{ main_content }}`.
pub fn render_page(layout: &str, body: &str, github_url: &Option<String>) -> (r: String)
    ensures
        r@ == page(layout@, body@, *github_url),
{
    let mut content = chars_of(body);
    let section = create_github_link_section(github_url);
    push_all(&mut content, &chars_of(section.as_str()));
    let content = string_of(&content);
    replace_str(layout, "{{ main_content }}", content.as_str())
}

} // verus!
