use readme_site::{create_menu_html, process_template, replace_template};

#[test]
fn test_replace_template() {
    let template = "Hello {{ name }}, welcome to {{ site }}!";
    let replacements = &[("{{ name }}", "Alice"), ("{{ site }}", "My Website")];
    let result = replace_template(template, replacements);
    assert_eq!(result, "Hello Alice, welcome to My Website!");
}

#[test]
fn test_replace_template_no_replacements() {
    let template = "Hello world!";
    let replacements = &[];
    let result = replace_template(template, replacements);
    assert_eq!(result, "Hello world!");
}

#[test]
fn test_replace_template_missing_placeholder() {
    let template = "Hello {{ name }}, welcome!";
    let replacements = &[("{{ age }}", "25")];
    let result = replace_template(template, replacements);
    assert_eq!(result, "Hello {{ name }}, welcome!");
}

#[test]
fn test_create_menu_html() {
    let links = &[("Home", "/"), ("About", "/about")];
    let result = create_menu_html(links);
    let expected = "<li><a href=\"/\">Home</a></li>\n<li><a href=\"/about\">About</a></li>";
    assert_eq!(result, expected);
}

#[test]
fn test_create_menu_html_empty() {
    let links = &[];
    let result = create_menu_html(links);
    assert_eq!(result, "");
}

#[test]
fn test_process_template() {
    let template = "<nav>{{ menu_items }}</nav><main>{{ main_content }}</main>";
    let content = "<h1>Welcome</h1>";
    let menu = "<li><a href='/'>Home</a></li>";
    let result = process_template(template, content, menu);
    let expected = "<nav><li><a href='/'>Home</a></li></nav><main><h1>Welcome</h1></main>";
    assert_eq!(result, expected);
}

#[test]
fn test_replace_template_multiple_occurrences() {
    let template = "{{ greeting }} {{ name }}, {{ greeting }} again {{ name }}!";
    let replacements = &[("{{ greeting }}", "Hello"), ("{{ name }}", "World")];
    let result = replace_template(template, replacements);
    assert_eq!(result, "Hello World, Hello again World!");
}

#[test]
fn replacements_apply_in_order() {
    let forward = replace_template("{{a}}", &[("{{a}}", "{{b}}"), ("{{b}}", "x")]);
    assert_eq!(forward, "x");
    let reverse = replace_template("{{a}}", &[("{{b}}", "x"), ("{{a}}", "{{b}}")]);
    assert_eq!(reverse, "{{b}}");
}

#[test]
fn replacement_with_empty_placeholder_surrounds_every_character() {
    assert_eq!(replace_template("ab", &[("", "-")]), "-a-b-");
    assert_eq!(replace_template("", &[("", "-")]), "-");
}

#[test]
fn replacement_does_not_rescan_inserted_text() {
    assert_eq!(replace_template("aa", &[("a", "aa")]), "aaaa");
    assert_eq!(replace_template("aaa", &[("aa", "b")]), "ba");
}

#[test]
fn menu_with_one_link_has_no_newline() {
    assert_eq!(create_menu_html(&[("Home", "/")]), "<li><a href=\"/\">Home</a></li>");
}
