//! Deriving a stored file name from request and response URLs.

use hudhub::source::{extract_file_name, get_file_name, is_valid_filename_with_extension};

#[test]
fn test_extract_file_name() {
    assert_eq!(
        Some(String::from("master.zip")),
        extract_file_name("https://github.com/n0kk/ahud/archive/refs/heads/master.zip")
    );
    assert_eq!(None, extract_file_name("https://github.com/n0kk/ahud/archive/refs/heads/"));
    assert_eq!(
        Some(String::from("3HUD.7z")),
        extract_file_name("https://www.dropbox.com/s/cwwmppnn3nn68av/3HUD.7z?dl=1")
    );
    assert_eq!(None, extract_file_name(""));
}

#[test]
fn filename_extension_presence() {
    assert!(is_valid_filename_with_extension("master.zip"));
    assert!(is_valid_filename_with_extension("3HUD.7z"));
    assert!(!is_valid_filename_with_extension("945012"));
    assert!(!is_valid_filename_with_extension(".bashrc"));
}

#[test]
fn get_file_name_prefers_request_url() {
    let r = get_file_name(
        "https://www.dropbox.com/s/cwwmppnn3nn68av/3HUD.7z?dl=1",
        "/s/raw/other.bin",
    );
    assert_eq!(Some(String::from("3HUD.7z")), r);
}

#[test]
fn get_file_name_falls_back_to_response_url() {
    let r = get_file_name("https://gamebanana.com/dl/601806", "/mirror/7hud-master.7z");
    assert_eq!(Some(String::from("7hud-master.7z")), r);
}

#[test]
fn get_file_name_fails_without_any_extension() {
    assert_eq!(None, get_file_name("https://gamebanana.com/dl/601806", "/dl/601806"));
}
