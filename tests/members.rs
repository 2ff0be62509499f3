use bikecase::members::modify_members;
use bikecase::Failure;

const MANIFEST: &str = "[workspace]\nmembers = [\"pkg/a\"]\nexclude = []\n";

#[test]
fn adding_present_member_keeps_text() {
    let r = modify_members("/ws", MANIFEST, Some("/ws/pkg/a"), None, None, None).unwrap();
    assert_eq!(r, MANIFEST);
}

#[test]
fn adding_equal_path_in_other_spelling_keeps_text() {
    let r = modify_members("/ws", MANIFEST, Some("./pkg/a"), None, None, None).unwrap();
    assert_eq!(r, MANIFEST);
}

#[test]
fn removing_absent_member_keeps_text() {
    let r = modify_members("/ws", MANIFEST, None, None, Some("/ws/pkg/z"), Some("/ws/pkg/z")).unwrap();
    assert_eq!(r, MANIFEST);
}

#[test]
fn adding_new_member_appends_relative_path() {
    let r = modify_members("/ws", MANIFEST, Some("/ws/pkg/b"), None, None, None).unwrap();
    let doc: toml_edit::Document = r.parse().unwrap();
    let members: Vec<&str> = doc["workspace"]["members"]
        .as_array()
        .unwrap()
        .iter()
        .map(|v| v.as_str().unwrap())
        .collect();
    assert_eq!(members, vec!["pkg/a", "pkg/b"]);
}

#[test]
fn include_moves_path_from_exclude_to_members() {
    let text = "[workspace]\nmembers = []\nexclude = [\"./x\", \"y\"]\n";
    let r = modify_members("/ws", text, Some("/ws/x"), None, None, Some("/ws/x")).unwrap();
    let doc: toml_edit::Document = r.parse().unwrap();
    let list = |k: &str| -> Vec<String> {
        doc["workspace"][k]
            .as_array()
            .unwrap()
            .iter()
            .map(|v| v.as_str().unwrap().to_owned())
            .collect()
    };
    assert_eq!(list("members"), vec!["x".to_owned()]);
    assert_eq!(list("exclude"), vec!["y".to_owned()]);
}

#[test]
fn missing_lists_are_created_on_add() {
    let text = "[workspace]\n";
    let r = modify_members("/ws", text, None, Some("/ws/old"), None, None).unwrap();
    let doc: toml_edit::Document = r.parse().unwrap();
    assert_eq!(doc["workspace"]["exclude"].as_array().unwrap().len(), 1);
    assert!(doc["workspace"].get("members").is_none());
}

#[test]
fn non_array_members_is_rejected() {
    let text = "[workspace]\nmembers = \"pkg/a\"\n";
    match modify_members("/ws", text, Some("/ws/b"), None, None, None) {
        Err(Failure::NotAnArray(k)) => assert_eq!(k, "members"),
        other => panic!("unexpected: {:?}", other),
    }
}

#[test]
fn non_array_exclude_is_rejected() {
    let text = "[workspace]\nmembers = []\nexclude = 3\n";
    match modify_members("/ws", text, None, None, None, None) {
        Err(Failure::NotAnArray(k)) => assert_eq!(k, "exclude"),
        other => panic!("unexpected: {:?}", other),
    }
}

#[test]
fn invalid_manifest_is_rejected() {
    assert!(matches!(
        modify_members("/ws", "[workspace\n", None, None, None, None),
        Err(Failure::InvalidManifest(_))
    ));
}

#[test]
fn non_table_workspace_is_rejected() {
    match modify_members("/ws", "workspace = 3\n", Some("/ws/a"), None, None, None) {
        Err(Failure::NotAnArray(k)) => assert_eq!(k, "members"),
        other => panic!("unexpected: {:?}", other),
    }
}
