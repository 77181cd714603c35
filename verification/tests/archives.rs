//! Archive extraction plans, exercised on real in-memory ZIP archives.

use std::io::Write;

use hudhub::archive::{
    extract, extract_archive, extract_zip, plan_zip_extraction, ArchiveError, ExtractError,
    ExtractStep,
};
use hudhub::package::{HudName, UnitShape};
use hudhub::source::open_zip_package;

fn zip_bytes(entries: &[(&str, Option<&[u8]>)]) -> Vec<u8> {
    let mut writer = zip::ZipWriter::new(std::io::Cursor::new(Vec::new()));
    let options = zip::write::SimpleFileOptions::default();
    for (name, data) in entries {
        match data {
            None => {
                writer.add_directory(*name, options).unwrap();
            }
            Some(bytes) => {
                writer.start_file(*name, options).unwrap();
                writer.write_all(bytes).unwrap();
            }
        }
    }
    writer.finish().unwrap().into_inner()
}

#[test]
fn extract_zip_plans_single_folder_archive() {
    let bytes = zip_bytes(&[
        ("ahud-master/", None),
        ("ahud-master/info.vdf", Some(b"\"ahud-master\"\n{ }")),
        ("ahud-master/resource/", None),
        ("ahud-master/resource/ui.res", Some(b"res")),
    ]);
    let e = extract_zip("/tmp/master.zip", &bytes, "/work").unwrap();
    assert_eq!(e.root, "/work/ahud-master");
    assert_eq!(e.steps.len(), 4);
    match &e.steps[0] {
        ExtractStep::MakeDirectory { path } => assert_eq!(path, "/work/ahud-master"),
        other => panic!("unexpected first step: {:?}", other),
    }
    match &e.steps[1] {
        ExtractStep::WriteFile { path, data } => {
            assert_eq!(path, "/work/ahud-master/info.vdf");
            assert_eq!(data.as_slice(), b"\"ahud-master\"\n{ }");
        }
        other => panic!("unexpected second step: {:?}", other),
    }
}

#[test]
fn extract_zip_rejects_archive_without_top_folder() {
    let bytes = zip_bytes(&[("loose.txt", Some(b"x"))]);
    match extract_zip("/tmp/a.zip", &bytes, "/work") {
        Err(ArchiveError::ReadFailed { path, .. }) => assert_eq!(path, "/tmp/a.zip"),
        other => panic!("expected ReadFailed, got {:?}", other),
    }
}

#[test]
fn extract_zip_rejects_garbage_bytes() {
    let bytes = b"not a zip archive at all".to_vec();
    assert!(matches!(
        extract_zip("/tmp/a.zip", &bytes, "/work"),
        Err(ArchiveError::ReadFailed { .. })
    ));
}

#[test]
fn plan_skips_entries_escaping_the_destination() {
    let names = vec![
        String::from("top/"),
        String::from("../evil.txt"),
        String::from("/abs.txt"),
        String::from("top/ok.txt"),
    ];
    let datas = vec![Vec::new(), b"e".to_vec(), b"a".to_vec(), b"o".to_vec()];
    let e = plan_zip_extraction("/tmp/a.zip", &names, &datas, "/work").unwrap();
    assert_eq!(e.root, "/work/top");
    assert_eq!(e.steps.len(), 2);
    assert!(matches!(&e.steps[0], ExtractStep::MakeDirectory { path } if path == "/work/top"));
    assert!(
        matches!(&e.steps[1], ExtractStep::WriteFile { path, .. } if path == "/work/top/ok.txt")
    );
}

#[test]
fn extract_archive_dispatches_on_extension() {
    let bytes = b"irrelevant".to_vec();
    match extract_archive(&String::from("/tmp/pack.7z"), &bytes, &String::from("/work")).unwrap() {
        e => {
            assert_eq!(e.root, "/work");
            assert!(matches!(
                &e.steps[..],
                [ExtractStep::DecompressSevenZ { archive_file, destination }]
                    if archive_file == "/tmp/pack.7z" && destination == "/work"
            ));
        }
    }
    let e = extract_archive(&String::from("/tmp/pack.rar"), &bytes, &String::from("/work"))
        .unwrap();
    assert!(matches!(&e.steps[..], [ExtractStep::DecompressRar { .. }]));
    assert!(matches!(
        extract_archive(&String::from("/tmp/pack.tar"), &bytes, &String::from("/work")),
        Err(ArchiveError::UnsupportedArchiveType(p)) if p == "/tmp/pack.tar"
    ));
    assert!(matches!(
        extract_archive(&String::from("/tmp/noextension"), &bytes, &String::from("/work")),
        Err(ArchiveError::UnsupportedArchiveType(_))
    ));
}

#[test]
fn extract_roots_at_the_metadata_directory() {
    let bytes = zip_bytes(&[
        ("pack/", None),
        ("pack/nested/", None),
        ("pack/nested/info.vdf", Some(b"\"nested\" { }")),
    ]);
    let e = extract(&String::from("/tmp/pack.zip"), &bytes, &String::from("/work")).unwrap();
    assert_eq!(e.root, "/work/pack/nested");
}

#[test]
fn extract_requires_a_metadata_file() {
    let bytes = zip_bytes(&[("pack/", None), ("pack/readme.txt", Some(b"hi"))]);
    assert!(matches!(
        extract(&String::from("/tmp/pack.zip"), &bytes, &String::from("/work")),
        Err(ExtractError::NoInfoFileFound)
    ));
    assert!(matches!(
        extract(&String::from("/tmp/pack.rar"), &bytes, &String::from("/work")),
        Err(ExtractError::UnsupportedArchiveType(_))
    ));
}

#[test]
fn extract_reports_unzip_failure_on_garbage() {
    let bytes = b"garbage".to_vec();
    assert!(matches!(
        extract(&String::from("/tmp/pack.zip"), &bytes, &String::from("/work")),
        Err(ExtractError::UnzipFailed { .. })
    ));
}

#[test]
fn open_zip_package_reports_extraction_failure() {
    let bytes = b"garbage".to_vec();
    assert!(matches!(
        open_zip_package(&String::from("/tmp/pack.zip"), &bytes, &String::from("/work")),
        Err(hudhub::source::FetchError::ExtractionFailed(_))
    ));
}

#[test]
fn zip_install_scenario() {
    // A downloaded archive holding one folder `ahud-master/` whose metadata
    // declares the same name resolves to exactly that unit.
    let bytes = zip_bytes(&[
        ("ahud-master/", None),
        ("ahud-master/info.vdf", Some(b"\"ahud-master\"\n{ }")),
    ]);
    let (package, extraction) =
        open_zip_package(&String::from("/tmp/archive.zip"), &bytes, &String::from("/work"))
            .unwrap();
    assert_eq!(package.root_directory, "/work/ahud-master");
    assert_eq!(package.entries.len(), 1);
    assert_eq!(package.entries[0].name, HudName::new("ahud-master"));
    assert_eq!(package.entries[0].shape, UnitShape::Directory);
    assert_eq!(package.entries[0].path, "/work/ahud-master");

    let plan = hudhub::deployment::plan_install(
        &package,
        &HudName::new("ahud-master"),
        &String::from("/data/huds"),
    )
    .unwrap();
    match plan {
        hudhub::deployment::DeployAction::MoveDirectory { from, to } => {
            assert_eq!(from, "/work/ahud-master");
            assert_eq!(to, "/data/huds/ahud-master");
        }
        other => panic!("expected a directory move, got {:?}", other),
    }
    // The metadata file travels with the unit: the plan writes it inside
    // the moved directory.
    assert!(extraction.steps.iter().any(|s| matches!(
        s,
        ExtractStep::WriteFile { path, .. } if path == "/work/ahud-master/info.vdf"
    )));
}
