use iconcraft::error::IconError;
use iconcraft::model::{default_recursive_mode, default_true, AppSettings};
use iconcraft::target::{is_extension, recursion_limit, validate_target, walks_directories, Platform};

#[test]
fn validate_target_by_kind() {
    assert_eq!(validate_target("/d", "folder", true, false), Ok(()));
    assert_eq!(validate_target("/d", "folder", false, true), Err(IconError::FolderMissing));
    assert_eq!(validate_target("/f", "file", false, true), Ok(()));
    assert_eq!(validate_target("/f", "file", true, false), Err(IconError::FileMissing));
    assert_eq!(validate_target(".md", "extension", false, false), Ok(()));
    assert_eq!(validate_target(".", "extension", false, false), Err(IconError::BadExtension));
    assert_eq!(validate_target("md", "extension", false, false), Err(IconError::BadExtension));
    assert_eq!(validate_target("/x", "drive", true, true), Err(IconError::UnsupportedKind));
}

#[test]
fn extension_text() {
    assert!(is_extension(".文"));
    assert!(!is_extension(""));
}

#[test]
fn recursion_limits() {
    assert_eq!(recursion_limit("none", Some(5)), Ok(0));
    assert_eq!(recursion_limit("depth", None), Ok(1));
    assert_eq!(recursion_limit("depth", Some(0)), Ok(1));
    assert_eq!(recursion_limit("depth", Some(4)), Ok(4));
    assert_eq!(recursion_limit("depth", Some(11)), Ok(10));
    assert_eq!(recursion_limit("all", None), Ok(usize::MAX));
    assert_eq!(recursion_limit("All", None), Err(IconError::InvalidRecursiveMode));
}

#[test]
fn platform_names() {
    assert_eq!(Platform::MacOs.name(), "macos");
    assert_eq!(Platform::Windows.name(), "windows");
    assert_eq!(Platform::Other.name(), "other");
}

#[test]
fn defaults() {
    assert_eq!(default_recursive_mode(), "none");
    assert!(default_true());
    let s = AppSettings::default();
    assert!(!s.monitor_enabled);
    assert_eq!(s.monitor_interval_minutes, 10);
    assert!(!s.autostart);
    assert!(s.rules.is_empty() && s.easter_batches.is_empty());
}

#[test]
fn folder_kind_walks() {
    assert!(walks_directories("folder"));
    assert!(!walks_directories("file"));
}
