//! Deployment planning, its terminal statuses, and the uninstall guard.

use hudhub::deployment::{
    install_finished, plan_install, plan_uninstall, DeployAction, InstallError, UninstallAction,
};
use hudhub::package::{
    DirectoryListing, HudName, ListingEntry, Package, PackageEntry, UnitShape,
};
use hudhub::paths::{is_descendant_of, is_safe_relative_path, PathsProvider};
use hudhub::registry::Install;

fn package_with(entries: Vec<PackageEntry>) -> Package {
    Package { root_directory: String::from("/work/pkg"), entries }
}

#[test]
fn install_missing_unit_becomes_failed_status() {
    // A name absent from the resolved package: planning fails with
    // `HudNotFound` and sealing the attempt yields `Install::Failed`,
    // never an error to the caller.
    let package = package_with(Vec::new());
    let err = plan_install(&package, &HudName::new("missing"), &String::from("/data/huds"))
        .unwrap_err();
    assert!(matches!(&err, InstallError::HudNotFound(n) if *n == HudName::new("missing")));
    let status = install_finished(Err(err));
    assert!(matches!(status, Install::Failed { error } if error == "Hud 'missing' not found"));
}

#[test]
fn install_directory_unit_is_a_move() {
    let package = package_with(vec![PackageEntry {
        path: String::from("/work/pkg/ahud-master"),
        name: HudName::new("ahud-master"),
        shape: UnitShape::Directory,
    }]);
    let action = plan_install(&package, &HudName::new("ahud-master"), &String::from("/data/huds"))
        .unwrap();
    assert!(matches!(
        action,
        DeployAction::MoveDirectory { from, to }
            if from == "/work/pkg/ahud-master" && to == "/data/huds/ahud-master"
    ));
}

#[test]
fn single_file_install_scenario() {
    // A source yielding a file `minhud_plus.vpk`: installing copies it to
    // the destination under its base name, and a second attempt plans the
    // very same copy, which overwrites the first.
    let root = String::from("/work/pkg");
    let listing = DirectoryListing {
        entries: vec![ListingEntry::File { path: format!("{}/minhud_plus.vpk", root) }],
    };
    let package = Package::open(root, &listing).unwrap();
    assert_eq!(package.entries.len(), 1);
    assert_eq!(package.entries[0].name, HudName::new("minhud_plus"));

    let destination = String::from("/data/huds");
    let first = plan_install(&package, &HudName::new("minhud_plus"), &destination).unwrap();
    let again = plan_install(&package, &HudName::new("minhud_plus"), &destination).unwrap();
    for action in [first, again] {
        assert!(matches!(
            action,
            DeployAction::CopyFile { from, to }
                if from == "/work/pkg/minhud_plus.vpk" && to == "/data/huds/minhud_plus.vpk"
        ));
    }

    let deployed = PackageEntry::vpk_file(String::from("/data/huds/minhud_plus.vpk")).unwrap();
    let status = install_finished(Ok(deployed));
    let (path, _) = status.as_installed().unwrap();
    assert_eq!(path, "/data/huds/minhud_plus.vpk");
}

#[test]
fn uninstall_outside_destination_is_refused() {
    // The safety invariant: a path outside the destination directory plans
    // no removal at all.
    assert!(plan_uninstall(&String::from("/tmp/evil"), &String::from("/data/units"), true)
        .is_none());
    assert!(plan_uninstall(&String::from("/tmp/evil"), &String::from("/data/units"), false)
        .is_none());
    assert!(plan_uninstall(&String::from("/data/units"), &String::from("/data/units"), true)
        .is_none());
    assert!(plan_uninstall(
        &String::from("/data/units/../../etc/passwd"),
        &String::from("/data/units"),
        false
    )
    .is_none());
}

#[test]
fn uninstall_inside_destination_targets_exactly_the_unit() {
    let action = plan_uninstall(
        &String::from("/data/units/ahud"),
        &String::from("/data/units"),
        true,
    )
    .unwrap();
    assert!(matches!(action, UninstallAction::RemoveDirectory { path } if path == "/data/units/ahud"));

    let action = plan_uninstall(
        &String::from("/data/units/minhud_plus.vpk"),
        &String::from("/data/units/"),
        false,
    )
    .unwrap();
    assert!(
        matches!(action, UninstallAction::RemoveFile { path } if path == "/data/units/minhud_plus.vpk")
    );
}

#[test]
fn descendant_test_cases() {
    assert!(is_descendant_of("/data/units/ahud", "/data/units"));
    assert!(is_descendant_of("/data/units/ahud/sub", "/data/units/"));
    assert!(!is_descendant_of("/data/units", "/data/units"));
    assert!(!is_descendant_of("/data/unitsX/ahud", "/data/units"));
    assert!(!is_descendant_of("/tmp/evil", "/data/units"));
    assert!(!is_descendant_of("/data/units/a/../../b", "/data/units"));
    assert!(!is_descendant_of("/data/units/a", ""));
}

#[test]
fn safe_relative_path_cases() {
    assert!(is_safe_relative_path("a/b/c.txt"));
    assert!(is_safe_relative_path("ahud-master/"));
    assert!(!is_safe_relative_path(""));
    assert!(!is_safe_relative_path("/absolute"));
    assert!(!is_safe_relative_path("../escape"));
    assert!(!is_safe_relative_path("a/../b"));
    assert!(!is_safe_relative_path("a\\b"));
    assert!(!is_safe_relative_path("C:evil"));
}

struct FixedPaths;

impl PathsProvider for FixedPaths {
    fn get_application_directory(&self) -> String {
        String::from("/home/user/.config/hudhub")
    }

    fn get_team_fortress_directory(&self) -> Option<String> {
        Some(String::from("/games/Team Fortress 2"))
    }
}

#[test]
fn derived_paths_are_joined_from_the_provider() {
    let p = FixedPaths;
    assert_eq!(
        p.get_application_state_file_path(),
        "/home/user/.config/hudhub/application.state"
    );
    assert_eq!(
        p.get_huds_directory(),
        Some(String::from("/games/Team Fortress 2/tf/custom"))
    );
}

#[test]
fn error_messages_render() {
    let e = InstallError::FetchPackageFailed(hudhub::source::FetchError::InvalidUrl(
        String::from("https://example/x"),
    ));
    assert_eq!(e.message(), "Invalid URL https://example/x");
    let e = hudhub::archive::ArchiveError::UnsupportedArchiveType(String::from("/a/b.tar"));
    assert_eq!(e.message(), "Unsupported archive type: /a/b.tar");
    let e = hudhub::deployment::UninstallError::FailedToRemoveDirectory {
        path: String::from("/data/units/ahud"),
        detail: String::from("permission denied"),
    };
    assert_eq!(
        e.message(),
        "Failed to remove directory /data/units/ahud: permission denied"
    );
}
