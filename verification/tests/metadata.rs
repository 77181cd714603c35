//! The metadata micro-format and the unit scanner.

use hudhub::package::{
    DirectoryListing, HudDirectory, HudName, ListingEntry, Package, PackageEntry, UnitShape,
};
use hudhub::vdf::parse_hud_name;

fn vdf_file(name: &str) -> Vec<u8> {
    let mut content = format!("\"{}\"\n", name);
    content.push_str("{\n    \"ui_version\"    \"3\"\n}");
    content.into_bytes()
}

#[test]
fn parse_quoted_name() {
    assert_eq!(parse_hud_name(&vdf_file("ahud-master")), Some(b"ahud-master".to_vec()));
}

#[test]
fn parse_tolerates_leading_whitespace() {
    let content = b"\n\r\n   \t \"My Hud\" { }".to_vec();
    assert_eq!(parse_hud_name(&content), Some(b"My Hud".to_vec()));
}

#[test]
fn parse_bare_name_with_body() {
    let content = b"7hud\n{\n    ui_version 3\n}".to_vec();
    assert_eq!(parse_hud_name(&content), Some(b"7hud".to_vec()));
}

#[test]
fn parse_rejects_plain_text_without_quotes() {
    let content = b"this is not a metadata file at all".to_vec();
    assert_eq!(parse_hud_name(&content), None);
}

#[test]
fn parse_rejects_unpaired_quote() {
    let content = b"\"lonely { }".to_vec();
    assert_eq!(parse_hud_name(&content), None);
}

#[test]
fn parse_rejects_empty_input() {
    assert_eq!(parse_hud_name(&Vec::new()), None);
}

#[test]
fn hud_directory_scan_parses_name() {
    let dir = HudDirectory::scan(String::from("/work/pkg/ahud"), &vdf_file("ahud")).unwrap();
    assert_eq!(dir.name, HudName::new("ahud"));
    assert_eq!(dir.path, "/work/pkg/ahud");
}

#[test]
fn hud_directory_scan_rejects_nameless_file() {
    assert!(HudDirectory::scan(String::from("/work/pkg/x"), &b"junk".to_vec()).is_err());
}

#[test]
fn package_entry_directory_and_vpk() {
    let e = PackageEntry::directory(String::from("/d/ahud"), &vdf_file("ahud")).unwrap();
    assert_eq!(e.name, HudName::new("ahud"));
    assert_eq!(e.shape, UnitShape::Directory);

    let f = PackageEntry::vpk_file(String::from("/d/minhud_plus.vpk")).unwrap();
    assert_eq!(f.name, HudName::new("minhud_plus"));
    assert_eq!(f.shape, UnitShape::SingleFile);
    assert!(PackageEntry::vpk_file(String::from("/d/readme.txt")).is_none());
}

#[test]
fn test_open_package_one_vdf() {
    let root = String::from("/tmp/test_open_package_one_vdf");
    let listing = DirectoryListing {
        entries: vec![ListingEntry::Directory {
            path: root.clone(),
            info_vdf: Some(vdf_file("test")),
        }],
    };

    let package = Package::open(root, &listing).unwrap();

    assert_eq!(1, package.entries.len());
    assert_eq!(HudName::new("test"), package.entries[0].name);
}

#[test]
fn test_open_package_multiple_vdf() {
    let root = String::from("/tmp/test_open_package_one_vdf");
    let d0 = format!("{}/d0", root);
    let d1 = format!("{}/d1", root);
    let listing = DirectoryListing {
        entries: vec![
            ListingEntry::Directory { path: root.clone(), info_vdf: None },
            ListingEntry::Directory { path: d0, info_vdf: Some(vdf_file("test0")) },
            ListingEntry::Directory { path: d1, info_vdf: Some(vdf_file("test1")) },
        ],
    };

    let package = Package::open(root, &listing).unwrap();

    assert_eq!(2, package.entries.len());
    assert_eq!(HudName::new("test0"), package.entries[0].name);
    assert_eq!(HudName::new("test1"), package.entries[1].name);
}

#[test]
fn scan_skips_unparsable_metadata() {
    let root = String::from("/work/pkg");
    let listing = DirectoryListing {
        entries: vec![
            ListingEntry::Directory {
                path: format!("{}/broken", root),
                info_vdf: Some(b"no quote characters here".to_vec()),
            },
            ListingEntry::Directory {
                path: format!("{}/good", root),
                info_vdf: Some(vdf_file("good")),
            },
        ],
    };
    let package = Package::open(root, &listing).unwrap();
    assert_eq!(1, package.entries.len());
    assert_eq!(HudName::new("good"), package.entries[0].name);
}

#[test]
fn scan_finds_vpk_only_directly_under_root() {
    let root = String::from("/work/pkg");
    let listing = DirectoryListing {
        entries: vec![
            ListingEntry::File { path: format!("{}/minhud_plus.vpk", root) },
            ListingEntry::File { path: format!("{}/sub/nested.vpk", root) },
            ListingEntry::File { path: format!("{}/readme.txt", root) },
        ],
    };
    let package = Package::open(root, &listing).unwrap();
    assert_eq!(1, package.entries.len());
    assert_eq!(HudName::new("minhud_plus"), package.entries[0].name);
    assert_eq!(UnitShape::SingleFile, package.entries[0].shape);
}

#[test]
fn package_lookup_by_name() {
    let root = String::from("/work/pkg");
    let listing = DirectoryListing {
        entries: vec![
            ListingEntry::Directory { path: format!("{}/a", root), info_vdf: Some(vdf_file("a")) },
            ListingEntry::Directory { path: format!("{}/b", root), info_vdf: Some(vdf_file("b")) },
        ],
    };
    let package = Package::open(root, &listing).unwrap();
    let names = package.hud_names();
    assert_eq!(2, names.len());
    assert_eq!(names[0], HudName::new("a"));
    assert_eq!(names[1], HudName::new("b"));
    assert!(package.find_hud(&HudName::new("b")).is_some());
    assert_eq!(package.find_hud(&HudName::new("b")).unwrap().path, "/work/pkg/b");
    assert!(package.find_hud(&HudName::new("missing")).is_none());
}
