use bikecase::package::{modify_package_name, select_default_bin, BuildTarget};
use bikecase::Failure;

fn target(kinds: &[&str], name: &str, src: &str) -> BuildTarget {
    BuildTarget {
        kinds: kinds.iter().map(|k| k.to_string()).collect(),
        name: name.to_owned(),
        src_path: src.to_owned(),
    }
}

#[test]
fn single_bin_is_selected() {
    let targets = vec![target(&["lib"], "p", "src/lib.rs"), target(&["bin"], "p", "src/main.rs")];
    assert_eq!(select_default_bin(&targets, None).unwrap(), "src/main.rs");
}

#[test]
fn default_run_picks_among_bins() {
    let targets = vec![target(&["bin"], "a", "src/bin/a.rs"), target(&["bin"], "b", "src/bin/b.rs")];
    assert_eq!(select_default_bin(&targets, Some("b")).unwrap(), "src/bin/b.rs");
    assert!(matches!(select_default_bin(&targets, None), Err(Failure::AmbiguousBinTarget)));
}

#[test]
fn no_bin_is_an_error() {
    let targets = vec![target(&["lib"], "p", "src/lib.rs")];
    assert!(matches!(select_default_bin(&targets, None), Err(Failure::NoBinTargets)));
    let targets = vec![target(&["bin"], "a", "src/main.rs")];
    assert!(matches!(select_default_bin(&targets, Some("z")), Err(Failure::NoBinTargets)));
}

#[test]
fn package_is_renamed_keeping_the_rest() {
    let text = "[package]\nname = \"__template\"\nversion = \"0.0.0\" # kept\n\n[dependencies]\n";
    let (new, old) = modify_package_name(text, "hello").unwrap();
    assert_eq!(old, "__template");
    assert_eq!(new, "[package]\nname = \"hello\"\nversion = \"0.0.0\" # kept\n\n[dependencies]\n");
}

#[test]
fn package_name_must_be_a_string() {
    assert!(matches!(
        modify_package_name("[package]\nname = 1\n", "x"),
        Err(Failure::PackageNameNotString)
    ));
    assert!(matches!(
        modify_package_name("[dependencies]\n", "x"),
        Err(Failure::PackageNameNotString)
    ));
    assert!(matches!(modify_package_name("[package\n", "x"), Err(Failure::InvalidManifest(_))));
}
