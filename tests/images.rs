use readme_site::{
    destination, extract_image_paths, fix_image_paths, plan_image_copies, process_images,
    Placement,
};

#[test]
fn test_extract_image_paths() {
    let html = r#"
            <img src="./image1.png" alt="test">
            <img src="photos/image2.jpg" alt="photo">
            <img class="logo" src="../assets/logo.svg">
        "#;

    let paths = extract_image_paths(html);
    assert_eq!(paths.len(), 3);
    assert!(paths.contains(&"./image1.png".to_string()));
    assert!(paths.contains(&"photos/image2.jpg".to_string()));
    assert!(paths.contains(&"../assets/logo.svg".to_string()));
}

#[test]
fn test_fix_image_paths() {
    let html = r#"<img src="assets/images/photo.jpg" alt="photo">"#;
    let paths = vec!["assets/images/photo.jpg".to_string()];
    let result = fix_image_paths(html, &paths);
    assert!(result.contains(r#"src="./photo.jpg""#));
}

#[test]
fn test_extract_image_paths_empty() {
    let html = "<p>No images here</p>";
    let paths = extract_image_paths(html);
    assert!(paths.is_empty());
}

#[test]
fn test_fix_image_paths_multiple() {
    let html = r#"
            <img src="dir1/photo1.jpg" alt="1">
            <img src="dir2/photo2.png" alt="2">
        "#;
    let paths = vec!["dir1/photo1.jpg".to_string(), "dir2/photo2.png".to_string()];
    let result = fix_image_paths(html, &paths);
    assert!(result.contains(r#"src="./photo1.jpg""#));
    assert!(result.contains(r#"src="./photo2.png""#));
}

#[test]
fn extraction_in_order_with_duplicates() {
    let paths = extract_image_paths(r#"<img src="./a.png"><img src="dir/b.jpg"><img src="./a.png">"#);
    assert_eq!(paths, vec!["./a.png", "dir/b.jpg", "./a.png"]);
}

#[test]
fn extraction_takes_single_quotes_and_last_src() {
    let paths = extract_image_paths("<img src='x.png' data-src=\"y.png\"><img alt=\"none\">");
    assert_eq!(paths, vec!["y.png"]);
}

#[test]
fn flattened_destination_is_file_name() {
    assert_eq!(destination("assets/photo.jpg", Placement::Flattened), Some("photo.jpg".to_string()));
    assert_eq!(destination("photo.jpg", Placement::Flattened), Some("photo.jpg".to_string()));
    assert_eq!(destination("assets/", Placement::Flattened), Some("assets".to_string()));
    assert_eq!(destination("a/b/", Placement::Flattened), Some("b".to_string()));
    assert_eq!(destination("x/p.jpg/.", Placement::Flattened), Some("p.jpg".to_string()));
    assert_eq!(destination("a//c.png", Placement::Flattened), Some("c.png".to_string()));
    assert_eq!(destination("a/..", Placement::Flattened), None);
    assert_eq!(destination("./", Placement::Flattened), None);
    assert_eq!(destination("/", Placement::Flattened), None);
    assert_eq!(destination("", Placement::Flattened), None);
}

#[test]
fn preserving_destination_keeps_directories() {
    assert_eq!(
        destination("assets/img/a.png", Placement::PathPreserving),
        Some("assets/img/a.png".to_string())
    );
    assert_eq!(
        destination("./assets/img/a.png", Placement::PathPreserving),
        Some("assets/img/a.png".to_string())
    );
    assert_eq!(destination("../a.png", Placement::PathPreserving), None);
    assert_eq!(destination("/etc/a.png", Placement::PathPreserving), None);
    assert_eq!(
        destination("a..b/c.png", Placement::PathPreserving),
        Some("a..b/c.png".to_string())
    );
}

#[test]
fn plan_skips_missing_sources() {
    let paths = vec!["assets/photo.jpg".to_string(), "gone.png".to_string()];
    let plan = plan_image_copies(&paths, &vec![true, false], Placement::Flattened);
    assert_eq!(plan.len(), 1);
    assert_eq!(plan[0].source, "assets/photo.jpg");
    assert_eq!(plan[0].dest, "photo.jpg");
}

#[test]
fn flattened_relocation_rewrites_found_and_leaves_missing() {
    let html = r#"<img src="assets/photo.jpg"><img src="missing/none.png">"#;
    let plan = process_images(html, &vec![true, false], Placement::Flattened);
    assert_eq!(plan.html, r#"<img src="./photo.jpg"><img src="missing/none.png">"#);
    assert_eq!(plan.copies.len(), 1);
    assert_eq!(plan.copies[0].source, "assets/photo.jpg");
    assert_eq!(plan.copies[0].dest, "photo.jpg");
}

#[test]
fn path_preserving_relocation() {
    let html = r#"<img src="assets/img/a.png" alt="a">"#;
    let plan = process_images(html, &vec![true], Placement::PathPreserving);
    assert_eq!(plan.html, r#"<img src="./assets/img/a.png" alt="a">"#);
    assert_eq!(plan.copies[0].dest, "assets/img/a.png");
}

#[test]
fn relocation_with_nothing_found_changes_nothing() {
    let html = r#"<img src="a.png">"#;
    let plan = process_images(html, &vec![false], Placement::Flattened);
    assert_eq!(plan.html, html);
    assert!(plan.copies.is_empty());
}

#[test]
fn source_without_found_entry_is_not_copied() {
    let html = r#"<img src="a/one.png"><img src="b/two.png">"#;
    let plan = process_images(html, &vec![true], Placement::Flattened);
    assert_eq!(plan.html, r#"<img src="./one.png"><img src="b/two.png">"#);
    assert_eq!(plan.copies.len(), 1);
    assert_eq!(plan.copies[0].dest, "one.png");
}

#[test]
fn missing_reference_with_same_file_name_stays() {
    let html = r#"<img src="a/photo.jpg"><img src="b/photo.jpg"><img src="myphoto.jpg">"#;
    let plan = process_images(html, &vec![true, false, false], Placement::Flattened);
    assert_eq!(
        plan.html,
        r#"<img src="./photo.jpg"><img src="b/photo.jpg"><img src="myphoto.jpg">"#
    );
    assert_eq!(plan.copies.len(), 1);
}

#[test]
fn fix_image_paths_uses_component_file_name() {
    let html = r#"<img src="qq/b">"#;
    let result = fix_image_paths(html, &vec!["a/b/".to_string()]);
    assert_eq!(result, r#"<img src="./b">"#);
}
