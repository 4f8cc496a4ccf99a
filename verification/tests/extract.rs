use std::io::{Cursor, Write};

use unzip_open::archive::{Archive, ArchiveEntry};
use unzip_open::config::InvocationConfig;
use unzip_open::error::{exit_code, Error};
use unzip_open::extract::{extract, Action, EntryKind, Extraction, Step};
use unzip_open::run::{clone_names, unpack, Unpacked};
use zip::write::{FullFileOptions, SimpleFileOptions};
use zip::{CompressionMethod, ZipWriter};

fn stored() -> SimpleFileOptions {
    SimpleFileOptions::default().compression_method(CompressionMethod::Stored)
}

fn archive_of(entries: &[(&str, Option<&[u8]>)]) -> Vec<u8> {
    let mut writer = ZipWriter::new(Cursor::new(Vec::new()));
    for (name, data) in entries {
        match data {
            Some(data) => {
                writer.start_file(*name, stored()).unwrap();
                writer.write_all(data).unwrap();
            }
            None => writer.add_directory(*name, stored()).unwrap(),
        }
    }
    writer.finish().unwrap().into_inner()
}

fn joined(parts: &[&str]) -> String {
    let mut path = std::path::PathBuf::new();
    for part in parts {
        path.push(part);
    }
    path.to_string_lossy().into_owned()
}

fn file(index: usize, path: String, parent: &str, data: &[u8]) -> Step {
    Step {
        index,
        path,
        comment: None,
        action: Action::WriteFile {
            parent: Some(parent.to_string()),
            size: data.len() as u64,
            data: data.to_vec(),
        },
    }
}

fn dir(index: usize, path: &str) -> Step {
    Step { index, path: path.to_string(), comment: None, action: Action::CreateDir }
}

fn plan_of(bytes: Vec<u8>) -> Extraction {
    extract(&mut Archive::open(bytes).unwrap(), "demo")
}

fn defaults(input: &str) -> InvocationConfig {
    InvocationConfig::new(input, None, Vec::new(), None, false, false)
}

#[test]
fn a_single_file_is_written_with_its_bytes() {
    let known: &[u8] = &[0, 1, 2, 254, 255, b'\n', b'\r', 0];
    let plan = plan_of(archive_of(&[("pom.xml", Some(known))]));
    assert_eq!(
        plan,
        Extraction { steps: vec![file(0, "pom.xml".to_string(), "", known)], failure: None }
    );
}

#[test]
fn a_single_file_is_unpacked_with_the_default_project_files() {
    let known: &[u8] = b"<project>\n</project>\n";
    let found = unpack(&defaults("demo"), archive_of(&[("pom.xml", Some(known))]));
    assert_eq!(exit_code(&found), 0);
    assert_eq!(
        found,
        Ok(Unpacked {
            project_file: "pom.xml".to_string(),
            plan: Extraction {
                steps: vec![file(0, "pom.xml".to_string(), "", known)],
                failure: None
            },
        })
    );
}

#[test]
fn a_directory_before_its_file() {
    let plan = plan_of(archive_of(&[("src/", None), ("src/Main.txt", Some(b"main"))]));
    assert_eq!(
        plan,
        Extraction {
            steps: vec![dir(0, "src"), file(1, joined(&["src", "Main.txt"]), "src", b"main")],
            failure: None,
        }
    );
}

#[test]
fn a_file_before_its_directory() {
    let plan = plan_of(archive_of(&[("src/Main.txt", Some(b"main")), ("src/", None)]));
    assert_eq!(
        plan,
        Extraction {
            steps: vec![file(0, joined(&["src", "Main.txt"]), "src", b"main"), dir(1, "src")],
            failure: None,
        }
    );
}

#[test]
fn a_file_is_written_below_its_parent_without_a_directory_entry() {
    let plan = plan_of(archive_of(&[("a/b/c.txt", Some(b"deep"))]));
    assert_eq!(
        plan,
        Extraction {
            steps: vec![file(0, joined(&["a", "b", "c.txt"]), &joined(&["a", "b"]), b"deep")],
            failure: None,
        }
    );
}

#[test]
fn an_entry_that_leaves_the_root_is_passed_over() {
    let plan = plan_of(archive_of(&[
        ("pom.xml", Some(b"p")),
        ("../escape.txt", Some(b"e")),
        ("ok.txt", Some(b"o")),
    ]));
    assert_eq!(
        plan,
        Extraction {
            steps: vec![
                file(0, "pom.xml".to_string(), "", b"p"),
                file(2, "ok.txt".to_string(), "", b"o")
            ],
            failure: None,
        }
    );
}

#[test]
fn an_archive_of_entries_that_leave_the_root_gives_no_step() {
    let plan = plan_of(archive_of(&[("../escape.txt", Some(b"e")), ("../../up/", None)]));
    assert_eq!(plan, Extraction { steps: vec![], failure: None });
}

#[test]
fn no_step_has_a_path_that_leaves_the_root() {
    let plan = plan_of(archive_of(&[
        ("../escape.txt", Some(b"e")),
        ("a/../b.txt", Some(b"b")),
        ("a/../../c.txt", Some(b"c")),
        ("d/", None),
    ]));
    assert_eq!(plan.failure, None);
    assert_eq!(plan.steps.len(), 2);
    for step in &plan.steps {
        let path = std::path::Path::new(&step.path);
        assert!(path.is_relative());
        assert!(path.components().all(|part| matches!(part, std::path::Component::Normal(_))));
    }
}

#[test]
fn an_empty_archive_gives_no_step() {
    assert_eq!(plan_of(archive_of(&[])), Extraction { steps: vec![], failure: None });
}

#[test]
fn planning_twice_gives_the_same_plan() {
    let bytes = archive_of(&[("src/", None), ("src/Main.txt", Some(b"main")), ("pom.xml", Some(b"p"))]);
    let mut archive = Archive::open(bytes.clone()).unwrap();
    let first = extract(&mut archive, "demo");
    let second = extract(&mut archive, "demo");
    assert_eq!(first, second);
    assert_eq!(first, plan_of(bytes));
    assert_eq!(first.steps.len(), 3);
}

#[test]
fn a_step_carries_the_comment_of_its_entry() {
    let mut writer = ZipWriter::new(Cursor::new(Vec::new()));
    let noted = FullFileOptions::default()
        .compression_method(CompressionMethod::Stored)
        .with_file_comment("read me first");
    writer.start_file("README", noted).unwrap();
    writer.write_all(b"r").unwrap();
    writer.start_file("plain", stored()).unwrap();
    writer.write_all(b"p").unwrap();
    let plan = plan_of(writer.finish().unwrap().into_inner());
    assert_eq!(plan.steps.len(), 2);
    assert_eq!(plan.steps[0].comment, Some("read me first".to_string()));
    assert_eq!(plan.steps[1].comment, None);
}

#[test]
fn bytes_that_cannot_be_read_end_the_plan_after_the_steps_before() {
    let mut bytes = archive_of(&[("first.txt", Some(b"first")), ("second.txt", Some(b"second")), ("third.txt", Some(b"third"))]);
    let at = bytes.windows(16).position(|window| window == b"second.txtsecond").unwrap();
    bytes[at + 10] = b'S';
    let plan = extract(&mut Archive::open(bytes).unwrap(), "work/demo");
    assert_eq!(
        plan,
        Extraction {
            steps: vec![file(0, "first.txt".to_string(), "", b"first")],
            failure: Some(Error::ExtractionIOFailure { name: "work/demo".to_string() }),
        }
    );
}

#[test]
fn an_entry_that_cannot_be_opened_ends_the_plan_after_the_steps_before() {
    let mut bytes = archive_of(&[("first.txt", Some(b"first")), ("second.txt", Some(b"second"))]);
    let header = b"PK\x03\x04";
    let second = 4 + bytes[4..].windows(4).position(|window| window == header).unwrap();
    bytes[second + 2] = 0xff;
    let plan = plan_of(bytes);
    assert_eq!(
        plan,
        Extraction {
            steps: vec![file(0, "first.txt".to_string(), "", b"first")],
            failure: Some(Error::MalformedArchive),
        }
    );
}

#[test]
fn a_directory_entry_does_not_have_its_bytes_read() {
    let plan = plan_of(archive_of(&[("only/", None)]));
    assert_eq!(plan, Extraction { steps: vec![dir(0, "only")], failure: None });
}

#[test]
fn an_entry_without_a_path_is_skipped() {
    let entry = ArchiveEntry { index: 4, path: None, is_dir: false, size: 9, comment: String::new() };
    assert_eq!(entry.kind(), EntryKind::Skipped);
    let entry = ArchiveEntry { index: 4, path: None, is_dir: true, size: 0, comment: String::new() };
    assert_eq!(entry.kind(), EntryKind::Skipped);
}

#[test]
fn an_entry_with_a_path_is_a_directory_or_a_file() {
    let entry = ArchiveEntry {
        index: 0,
        path: Some("src".to_string()),
        is_dir: true,
        size: 0,
        comment: String::new(),
    };
    assert_eq!(entry.kind(), EntryKind::Directory);
    let entry = ArchiveEntry {
        index: 1,
        path: Some("pom.xml".to_string()),
        is_dir: false,
        size: 3,
        comment: String::new(),
    };
    assert_eq!(entry.kind(), EntryKind::File);
}

#[test]
fn a_directory_step_is_built_from_its_parts() {
    assert_eq!(Step::create_dir(3, "src".to_string(), String::new()), dir(3, "src"));
    assert_eq!(
        Step::create_dir(3, "src".to_string(), "sources".to_string()),
        Step {
            index: 3,
            path: "src".to_string(),
            comment: Some("sources".to_string()),
            action: Action::CreateDir
        }
    );
}

#[test]
fn a_file_step_is_built_from_its_parts() {
    let step = Step::write_file(
        2,
        "a/b.txt".to_string(),
        "note".to_string(),
        Some("a".to_string()),
        7,
        vec![1, 2, 3],
    );
    assert_eq!(
        step,
        Step {
            index: 2,
            path: "a/b.txt".to_string(),
            comment: Some("note".to_string()),
            action: Action::WriteFile {
                parent: Some("a".to_string()),
                size: 7,
                data: vec![1, 2, 3]
            },
        }
    );
    let bare = Step::write_file(0, "b.txt".to_string(), String::new(), None, 0, vec![]);
    assert_eq!(bare.comment, None);
    assert_eq!(bare.action, Action::WriteFile { parent: None, size: 0, data: vec![] });
}

#[test]
fn an_archive_without_a_project_file_is_refused() {
    let bytes = archive_of(&[("src/", None), ("src/Main.txt", Some(b"main"))]);
    let found = unpack(&defaults("demo"), bytes);
    assert_eq!(exit_code(&found), 1);
    assert_eq!(
        found,
        Err(Error::NoProjectFileFound {
            markers: vec![
                "build.gradle".to_string(),
                "build.gradle.kts".to_string(),
                "pom.xml".to_string()
            ]
        })
    );
}

#[test]
fn an_archive_without_a_project_file_is_refused_whatever_its_entries_hold() {
    let mut bytes = archive_of(&[("notes.txt", Some(b"notes")), ("../escape.txt", Some(b"e"))]);
    let at = bytes.windows(14).position(|window| window == b"notes.txtnotes").unwrap();
    bytes[at + 9] = b'N';
    assert_eq!(Archive::open(bytes.clone()).unwrap().read(0), None);
    let config = InvocationConfig::new("demo", None, vec!["Cargo.toml".to_string()], None, false, false);
    assert_eq!(
        unpack(&config, bytes),
        Err(Error::NoProjectFileFound { markers: vec!["Cargo.toml".to_string()] })
    );
}

#[test]
fn an_archive_that_is_no_zip_container_is_malformed() {
    let found = unpack(&defaults("demo"), b"PK but not really".to_vec());
    assert_eq!(found, Err(Error::MalformedArchive));
    assert_eq!(exit_code(&found), 1);
}

#[test]
fn the_project_file_is_the_first_match_and_everything_is_extracted() {
    let bytes = archive_of(&[
        ("demo/", None),
        ("demo/README.md", Some(b"readme")),
        ("demo/build.gradle.kts", Some(b"kts")),
        ("demo/pom.xml", Some(b"pom")),
    ]);
    let found = unpack(&defaults("work/demo"), bytes).unwrap();
    assert_eq!(found.project_file, "demo/build.gradle.kts".to_string());
    assert_eq!(
        found.plan,
        Extraction {
            steps: vec![
                dir(0, "demo"),
                file(1, joined(&["demo", "README.md"]), "demo", b"readme"),
                file(2, joined(&["demo", "build.gradle.kts"]), "demo", b"kts"),
                file(3, joined(&["demo", "pom.xml"]), "demo", b"pom"),
            ],
            failure: None,
        }
    );
}

#[test]
fn a_failed_extraction_names_the_first_candidate() {
    let mut bytes = archive_of(&[("pom.xml", Some(b"known"))]);
    let at = bytes.windows(5).position(|window| window == b"known").unwrap();
    bytes[at] = b'K';
    let found = unpack(&defaults("work/demo"), bytes).unwrap();
    assert_eq!(found.project_file, "pom.xml".to_string());
    assert_eq!(
        found.plan,
        Extraction {
            steps: vec![],
            failure: Some(Error::ExtractionIOFailure { name: "work/demo".to_string() }),
        }
    );
}

#[test]
fn a_loose_suffix_match_counts_as_a_project_file() {
    let found = unpack(&defaults("demo"), archive_of(&[("weirdpom.xml", Some(b"w"))])).unwrap();
    assert_eq!(found.project_file, "weirdpom.xml".to_string());
}

#[test]
fn names_are_copied_one_for_one() {
    let names = vec!["a".to_string(), String::new(), "c/d".to_string()];
    assert_eq!(clone_names(&names), names);
    assert_eq!(clone_names(&Vec::new()), Vec::<String>::new());
}
