use bikecase::gist::{
    check_status, plan_push, pull_plan, select_rust_file, PushAction, RemoteFile, RemoteRecord,
};
use bikecase::Failure;

fn record(code: &str, description: &str) -> RemoteRecord {
    RemoteRecord { id: "abc123".to_owned(), code: code.to_owned(), description: description.to_owned() }
}

#[test]
fn equal_remote_is_up_to_date_and_sends_nothing() {
    let r = plan_push(Some(record("fn main() {}\n", "d")), "fn main() {}\n", "p", false, false, Some("d"));
    assert!(matches!(r, Ok(PushAction::Nothing)));
    let r = plan_push(Some(record("fn main() {}\n", "d")), "fn main() {}\n", "p", false, false, None);
    assert!(matches!(r, Ok(PushAction::Nothing)));
}

#[test]
fn differing_remote_gets_one_update() {
    let r = plan_push(Some(record("old\n", "d")), "new\n", "p", false, false, None).unwrap();
    match r {
        PushAction::Patch { gist_id, filename, description, content } => {
            assert_eq!(gist_id, "abc123");
            assert_eq!(filename, "p.rs");
            assert_eq!(description, "d");
            assert_eq!(content, "new\n");
        }
        other => panic!("unexpected: {:?}", other),
    }
    let r = plan_push(Some(record("same\n", "d")), "same\n", "p", false, false, Some("e")).unwrap();
    assert!(matches!(r, PushAction::Patch { ref description, .. } if description == "e"));
}

#[test]
fn missing_remote_without_set_upstream_fails() {
    let r = plan_push(None, "x\n", "p", false, false, None);
    assert!(matches!(r, Err(Failure::SetUpstreamRequired)));
}

#[test]
fn missing_remote_with_set_upstream_creates() {
    let r = plan_push(None, "x\n", "pkg", true, true, None).unwrap();
    match r {
        PushAction::Post { filename, description, content, public } => {
            assert_eq!(filename, "pkg.rs");
            assert_eq!(description, "");
            assert_eq!(content, "x\n");
            assert!(!public);
        }
        other => panic!("unexpected: {:?}", other),
    }
}

#[test]
fn status_must_match() {
    assert!(check_status(200, 200).is_ok());
    assert!(matches!(
        check_status(201, 422),
        Err(Failure::UnexpectedStatus { expected: 201, actual: 422 })
    ));
}

fn file(name: &str, truncated: bool, content: &str) -> RemoteFile {
    RemoteFile { filename: name.to_owned(), truncated, content: content.to_owned() }
}

#[test]
fn single_rust_file_is_selected() {
    let files = vec![file("README.md", false, "r"), file("main.crs", false, "code")];
    assert_eq!(select_rust_file(&files).unwrap(), "code");
}

#[test]
fn several_rust_files_are_named() {
    let files = vec![file("a.rs", false, "1"), file("b.txt", false, "2"), file("c.rs", false, "3")];
    match select_rust_file(&files) {
        Err(Failure::MultipleRustFiles(names)) => assert_eq!(names, vec!["a.rs", "c.rs"]),
        other => panic!("unexpected: {:?}", other),
    }
}

#[test]
fn no_rust_file_is_an_error() {
    let files = vec![file("rs", false, "1"), file("notes.rsx", false, "2")];
    assert!(matches!(select_rust_file(&files), Err(Failure::NoRustFiles)));
}

#[test]
fn truncated_file_is_rejected() {
    let files = vec![file("a.rs", true, "1")];
    match select_rust_file(&files) {
        Err(Failure::Truncated(n)) => assert_eq!(n, "a.rs"),
        other => panic!("unexpected: {:?}", other),
    }
}

#[test]
fn pull_writes_only_changed_files() {
    let pulled = "//! ```cargo\n//! [package]\n//! name = \"p\"\n//! ```\nfn main() { 2 }\n";
    let local_source = "//! ```cargo\n//! # Leave blank.\n//! ```\nfn main() { 1 }\n";
    let plan = pull_plan(local_source, "[package]\nname = \"p\"\n", pulled).unwrap();
    assert_eq!(
        plan.source.as_deref(),
        Some("//! ```cargo\n//! # Leave blank.\n//! ```\nfn main() { 2 }\n")
    );
    assert_eq!(plan.manifest, None);
}

#[test]
fn pull_without_manifest_block_fails() {
    assert!(matches!(
        pull_plan("", "", "fn main() {}\n"),
        Err(Failure::ManifestBlockNotFound(_))
    ));
}
