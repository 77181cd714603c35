//! The registry's map behavior and key-order iteration.

use hudhub::package::HudName;
use hudhub::registry::{Install, Registry};
use hudhub::source::Source;

#[test]
fn add_then_get_round_trip() {
    let mut registry = Registry::new();
    registry.add(
        HudName::new("ahud"),
        Source::DownloadUrl(String::from("https://example/ahud.zip")),
    );
    let info = registry.get(&HudName::new("ahud")).unwrap();
    assert_eq!(info.name, HudName::new("ahud"));
    assert!(matches!(info.install, Install::NotInstalled));
    assert!(
        matches!(&info.source, Source::DownloadUrl(url) if url == "https://example/ahud.zip")
    );
}

#[test]
fn set_install_then_get_returns_that_status() {
    let mut registry = Registry::new();
    registry.add(HudName::new("ahud"), Source::NoSource);
    registry.set_install(
        &HudName::new("ahud"),
        Install::Installed { path: String::from("/data/huds/ahud"), when: 1700000000 },
    );
    let info = registry.get(&HudName::new("ahud")).unwrap();
    match &info.install {
        Install::Installed { path, when } => {
            assert_eq!(path, "/data/huds/ahud");
            assert_eq!(*when, 1700000000);
        }
        other => panic!("expected Installed, got {:?}", other),
    }
}

#[test]
fn remove_then_get_returns_nothing() {
    let mut registry = Registry::new();
    registry.add(HudName::new("ahud"), Source::NoSource);
    let removed = registry.remove(&HudName::new("ahud")).unwrap();
    assert_eq!(removed.name, HudName::new("ahud"));
    assert!(registry.get(&HudName::new("ahud")).is_none());
    assert!(registry.remove(&HudName::new("ahud")).is_none());
}

#[test]
fn re_adding_keeps_the_tracked_source() {
    let mut registry = Registry::new();
    registry.add(
        HudName::new("ahud"),
        Source::DownloadUrl(String::from("https://example/original.zip")),
    );
    registry.set_install(
        &HudName::new("ahud"),
        Install::Failed { error: String::from("boom") },
    );
    registry.add(
        HudName::new("ahud"),
        Source::DownloadUrl(String::from("https://example/other.zip")),
    );
    let info = registry.get(&HudName::new("ahud")).unwrap();
    assert!(
        matches!(&info.source, Source::DownloadUrl(url) if url == "https://example/original.zip")
    );
    assert!(matches!(info.install, Install::Failed { .. }));
}

#[test]
fn set_install_never_creates_an_entry() {
    let mut registry = Registry::new();
    registry.set_install(
        &HudName::new("ghost"),
        Install::Installed { path: String::from("/x"), when: 0 },
    );
    assert!(registry.get(&HudName::new("ghost")).is_none());
    assert_eq!(registry.iter().len(), 0);
}

#[test]
fn iteration_is_in_key_order() {
    let mut registry = Registry::new();
    registry.add(HudName::new("zhud"), Source::NoSource);
    registry.add(HudName::new("ahud"), Source::NoSource);
    registry.add(HudName::new("mhud"), Source::NoSource);
    let names: Vec<_> = registry.iter().iter().map(|i| i.name.clone()).collect();
    assert_eq!(names.len(), 3);
    assert_eq!(names[0], HudName::new("ahud"));
    assert_eq!(names[1], HudName::new("mhud"));
    assert_eq!(names[2], HudName::new("zhud"));
}

#[test]
fn get_installed_returns_first_in_key_order() {
    let mut registry = Registry::new();
    registry.add(HudName::new("b"), Source::NoSource);
    registry.add(HudName::new("a"), Source::NoSource);
    registry.add(HudName::new("c"), Source::NoSource);
    assert!(registry.get_installed().is_none());
    registry.set_install(
        &HudName::new("c"),
        Install::Installed { path: String::from("/data/c"), when: 2 },
    );
    registry.set_install(
        &HudName::new("b"),
        Install::Installed { path: String::from("/data/b"), when: 1 },
    );
    let first = registry.get_installed().unwrap();
    assert_eq!(first.name, HudName::new("b"));
}

#[test]
fn installed_now_and_failed_constructors() {
    let status = Install::installed_now(String::from("/data/huds/ahud"));
    let (path, _when) = status.as_installed().unwrap();
    assert_eq!(path, "/data/huds/ahud");
    assert!(status.is_installed());

    let failure = Install::failed(String::from("network down"));
    assert!(!failure.is_installed());
    assert!(matches!(failure, Install::Failed { error } if error == "network down"));
}
