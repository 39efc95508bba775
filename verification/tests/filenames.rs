use qr_foundry::archive::{entry_filename, sanitize_filename};

#[test]
fn test_sanitize_filename_basic() {
    assert_eq!(sanitize_filename("hello"), "hello");
    assert_eq!(sanitize_filename("test-file"), "test-file");
    assert_eq!(sanitize_filename("file_name.png"), "file_name.png");
}

#[test]
fn test_sanitize_filename_special_chars() {
    assert_eq!(sanitize_filename("file/name"), "file_name");
    assert_eq!(sanitize_filename("file\\name"), "file_name");
    assert_eq!(sanitize_filename("file:name"), "file_name");
    assert_eq!(sanitize_filename("file*name"), "file_name");
    assert_eq!(sanitize_filename("file?name"), "file_name");
    assert_eq!(sanitize_filename("file\"name"), "file_name");
    assert_eq!(sanitize_filename("file<name>"), "file_name_");
    assert_eq!(sanitize_filename("file|name"), "file_name");
}

#[test]
fn test_sanitize_filename_truncates_long_names() {
    let long_name = "a".repeat(100);
    let result = sanitize_filename(&long_name);
    assert_eq!(result.len(), 50);
}

#[test]
fn test_sanitize_filename_non_ascii() {
    assert_eq!(sanitize_filename("café"), "caf_");
    assert_eq!(sanitize_filename("日本語"), "___");
}

#[test]
fn test_entry_filename_patterns() {
    assert_eq!(entry_filename(1, &None), "001_qr.png");
    assert_eq!(entry_filename(42, &Some("Home Wifi".to_string())), "042_Home_Wifi.png");
    assert_eq!(entry_filename(999, &None), "999_qr.png");
    assert_eq!(entry_filename(1000, &None), "1000_qr.png");
}
