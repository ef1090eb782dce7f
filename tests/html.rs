use readme_site::{
    add_syntax_highlighting, create_github_link_section, inject_copy_button, process_code_blocks,
    wrap_code_blocks,
};

#[test]
fn test_add_syntax_highlighting() {
    let html = r#"<pre><code class="language-rust">fn main() {}</code></pre>"#;
    let result = add_syntax_highlighting(html);
    assert!(result.contains(r#"<pre class="language-rust"><code class="language-rust">"#));
}

#[test]
fn test_inject_copy_button() {
    let html = r#"<pre><code>some code</code></pre>"#;
    let result = inject_copy_button(html);
    assert!(result.contains(r#"<pre><button class="copy-btn">Copy</button>"#));
}

#[test]
fn test_wrap_code_blocks() {
    let html = r#"<pre><code>some code</code></pre>"#;
    let result = wrap_code_blocks(html);
    assert!(result.contains(r#"<div class="code-block"><pre><code>some code</code></pre></div>"#));
}

#[test]
fn test_create_github_link_section() {
    let url = Some("https://github.com/user/repo".to_string());
    let result = create_github_link_section(&url);
    assert!(result.contains("<i class=\"fab fa-github\"></i> GitHub Repository:"));
    assert!(result.contains("https://github.com/user/repo"));

    let no_url: Option<String> = None;
    let empty_result = create_github_link_section(&no_url);
    assert_eq!(empty_result, "");
}

#[test]
fn highlight_language_block() {
    let result = add_syntax_highlighting(r#"<pre><code class="language-go">x</code></pre>"#);
    assert_eq!(result, r#"<pre class="language-go"><code class="language-go">x</code></pre>"#);
}

#[test]
fn highlight_plain_block_gets_language_none() {
    let result = add_syntax_highlighting("<pre><code>x</code></pre>");
    assert_eq!(
        result,
        r#"<pre class="language-none"><code class="language-none">x</code></pre>"#
    );
}

#[test]
fn highlight_leaves_empty_language_alone() {
    let html = r#"<pre><code class="">x</code></pre>"#;
    assert_eq!(add_syntax_highlighting(html), html);
}

#[test]
fn copy_button_after_tag_with_attributes() {
    let result = inject_copy_button(r#"<p>t</p><pre class="language-go"><code>a < b</code></pre>"#);
    assert_eq!(
        result,
        r#"<p>t</p><pre class="language-go"><button class="copy-btn">Copy</button><code>a < b</code></pre>"#
    );
}

#[test]
fn copy_button_keeps_text_without_tags() {
    assert_eq!(inject_copy_button("<p>no code</p>"), "<p>no code</p>");
    assert_eq!(inject_copy_button("<pre unterminated"), "<pre unterminated");
}

#[test]
fn adjacent_blocks_wrapped_separately() {
    let result = wrap_code_blocks("<pre>A</pre><pre>B</pre>");
    assert_eq!(
        result,
        r#"<div class="code-block"><pre>A</pre></div><div class="code-block"><pre>B</pre></div>"#
    );
}

#[test]
fn unclosed_block_not_wrapped() {
    assert_eq!(wrap_code_blocks("<pre>A"), "<pre>A");
}

#[test]
fn enhancer_runs_all_three_passes() {
    let result = process_code_blocks(r#"<pre><code class="language-rust">let x = 1;</code></pre>"#);
    assert_eq!(
        result,
        r#"<div class="code-block"><pre class="language-rust"><button class="copy-btn">Copy</button><code class="language-rust">let x = 1;</code></pre></div>"#
    );
}

#[test]
fn github_link_section_exact_text() {
    let result = create_github_link_section(&Some("https://x.org/r".to_string()));
    let expected = "<div class=\"github-link\">\n                <p><strong><i class=\"fab fa-github\"></i> GitHub Repository:</strong> <a href=\"https://x.org/r\" target=\"_blank\" rel=\"noopener noreferrer\">https://x.org/r</a></p>\n            </div>\n            <hr style=\"margin: 2rem 0;\">";
    assert_eq!(result, expected);
}
