//! Renders project README files into pages of a static site.
//!
//! The library holds the page-building logic: literal template substitution,
//! the code-block enhancer, the image relocation plan and the rewriting of
//! image references, the normalisation of Git remote URLs, and the project
//! model. Reading and writing files and running Git are left to the caller.
use vstd::prelude::*;

pub mod text;
pub mod templates;
pub mod html;
pub mod images;
pub mod git;
pub mod project;

pub use git::normalize_remote_url;
pub use html::{
    add_syntax_highlighting, create_github_link_section, inject_copy_button, process_code_blocks,
    wrap_code_blocks,
};
pub use images::{
    destination, extract_image_paths, fix_image_paths, plan_image_copies, process_images,
    ImageCopy, ImagePlan, Placement,
};
pub use project::{render_page, render_readme, Project, SiteLink};
pub use templates::{create_menu_html, process_template, replace_template};

verus! {

} // verus!
