use readme_site::git::normalize_remote_url;
use readme_site::{
    create_menu_html, process_images, render_page, render_readme, replace_template, Placement,
    Project, SiteLink,
};

#[test]
fn test_project_new() {
    let project = Project::new("src".to_string(), "dist".to_string());
    assert_eq!(project.source_dir, "src");
    assert_eq!(project.output_dir, "dist");
    assert!(project.github_url.is_none());
}

#[test]
fn test_project_with_github_url() {
    let project = Project::with_github_url(
        "src".to_string(),
        "dist".to_string(),
        "https://github.com/user/repo".to_string(),
    );
    assert_eq!(project.github_url, Some("https://github.com/user/repo".to_string()));
}

#[test]
fn test_project_is_external() {
    let external = Project::new("../external-project".to_string(), "dist".to_string());
    assert!(external.is_external());

    let internal = Project::new("./internal-project".to_string(), "dist".to_string());
    assert!(!internal.is_external());
}

#[test]
fn test_project_name() {
    let project = Project::new("src".to_string(), "dist/projects/my-project".to_string());
    assert_eq!(project.name(), "my-project");
}

#[test]
fn test_site_link_new() {
    let link = SiteLink::new("Home".to_string(), "/".to_string());
    assert_eq!(link.name, "Home");
    assert_eq!(link.url, "/");
}

#[test]
fn test_project_set_github_url() {
    let mut project = Project::new("src".to_string(), "dist".to_string());
    project.set_github_url("https://github.com/user/repo".to_string());
    assert_eq!(project.github_url, Some("https://github.com/user/repo".to_string()));
}

#[test]
fn project_name_unknown_without_file_name() {
    let project = Project::new("src".to_string(), "".to_string());
    assert_eq!(project.name(), "unknown");
}

#[test]
fn project_paths() {
    let project = Project::new("../p".to_string(), "docs/p".to_string());
    assert_eq!(project.readme_path(), "../p/README.md");
    assert_eq!(project.index_path(), "docs/p/index.html");
}

#[test]
fn ssh_github_url_normalized() {
    assert_eq!(
        normalize_remote_url("git@github.com:owner/repo.git\n"),
        "https://github.com/owner/repo"
    );
}

#[test]
fn https_github_url_loses_git_suffix() {
    assert_eq!(
        normalize_remote_url("https://github.com/owner/repo.git"),
        "https://github.com/owner/repo"
    );
}

#[test]
fn gitlab_url_only_suffix_stripped() {
    assert_eq!(
        normalize_remote_url("  https://gitlab.com/group/repo.git \n"),
        "https://gitlab.com/group/repo"
    );
    assert_eq!(
        normalize_remote_url("https://gitlab.com/group/repo"),
        "https://gitlab.com/group/repo"
    );
}

#[test]
fn ssh_github_url_without_suffix_normalized() {
    assert_eq!(normalize_remote_url("git@github.com:owner/repo\n"), "https://github.com/owner/repo");
}

#[test]
fn project_name_of_directory_with_trailing_slash() {
    let project = Project::new("src".to_string(), "dist/".to_string());
    assert_eq!(project.name(), "dist");
    let dotted = Project::new("src".to_string(), "docs/site/.".to_string());
    assert_eq!(dotted.name(), "site");
    let parent = Project::new("src".to_string(), "docs/..".to_string());
    assert_eq!(parent.name(), "unknown");
}

#[test]
fn git_remote_only_for_external_repositories() {
    let external = Project::new("../ext".to_string(), "docs/ext".to_string());
    assert_eq!(
        external.fetch_git_remote(true, Some("git@github.com:o/r.git\n")),
        Some("https://github.com/o/r".to_string())
    );
    assert_eq!(external.fetch_git_remote(false, Some("git@github.com:o/r.git")), None);
    assert_eq!(external.fetch_git_remote(true, None), None);
    let internal = Project::new("./int".to_string(), "docs/int".to_string());
    assert_eq!(internal.fetch_git_remote(true, Some("https://github.com/o/r.git")), None);
}

#[test]
fn page_places_body_and_link() {
    let layout = "<nav>M</nav><main>{{ main_content }}</main>";
    let page = render_page(layout, "<p>x</p>", &None);
    assert_eq!(page, "<nav>M</nav><main><p>x</p></main>");
    let with_link = render_page(layout, "<p>x</p>", &Some("https://u".to_string()));
    assert!(with_link.starts_with("<nav>M</nav><main><p>x</p><div class=\"github-link\">"));
    assert!(with_link.ends_with("<hr style=\"margin: 2rem 0;\"></main>"));
}

#[test]
fn readme_to_page_end_to_end() {
    let readme = "First paragraph.\n\n```rust\nfn main() {}\n```\n\nSecond ![logo](assets/logo.png) paragraph.\n";
    let html = render_readme(readme);
    assert!(html.contains(
        "<div class=\"code-block\"><pre class=\"language-rust\"><button class=\"copy-btn\">Copy</button><code class=\"language-rust\">"
    ));
    let plan = process_images(&html, &vec![true], Placement::Flattened);
    assert_eq!(plan.copies.len(), 1);
    assert_eq!(plan.copies[0].source, "assets/logo.png");
    assert_eq!(plan.copies[0].dest, "logo.png");
    assert!(plan.html.contains("src=\"./logo.png\""));
    let menu = create_menu_html(&[("Home", "/")]);
    let layout = replace_template(
        "<ul>{{ menu_items }}</ul>{{ main_content }}",
        &[("{{ menu_items }}", menu.as_str())],
    );
    let page = render_page(&layout, &plan.html, &Some("https://github.com/o/r".to_string()));
    assert!(page.starts_with("<ul><li><a href=\"/\">Home</a></li></ul>"));
    assert!(page.contains("GitHub Repository:"));
    assert!(page.contains("src=\"./logo.png\""));
    assert!(page.contains("<p>First paragraph.</p>"));
}
