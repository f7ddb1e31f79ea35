//! Verified core of the clippa link archive: archive paths, link files,
//! fuzzy search, page titles and the browsing state of the manager.
pub mod controls;
pub mod domain;
pub mod harvest;
pub mod links;
pub mod manager;
pub mod paths;
pub mod screen;
pub mod search;
pub mod text;
pub mod title;
pub mod viewer;

pub use paths::{get_archive_dir, get_archive_path, get_screenshot_dir, screenshot_path, url_hash};
