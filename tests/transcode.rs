use bikecase::locate::{locate_manifest_block, MdEvent, MdTag};
use bikecase::text::{char_offset_of, split_lines};
use bikecase::transcode::{
    extract_cargo_lang_code, replace_cargo_lang_code, replace_cargo_lang_code_with_default,
};
use bikecase::Failure;

const SCRIPT: &str = "#!/usr/bin/env x\n//! ```cargo\n//! name = \"old\"\n//! ```\nfn main() {}\n";

#[test]
fn extract_reads_manifest_after_shebang() {
    let m = extract_cargo_lang_code(SCRIPT, "missing").unwrap();
    assert_eq!(m, "name = \"old\"\n");
}

#[test]
fn replace_changes_only_manifest_line() {
    let (code, old) = replace_cargo_lang_code(SCRIPT, "name = \"new\"\n", "missing").unwrap();
    assert_eq!(old, "name = \"old\"\n");
    assert_eq!(
        code,
        "#!/usr/bin/env x\n//! ```cargo\n//! name = \"new\"\n//! ```\nfn main() {}\n"
    );
}

#[test]
fn replace_appends_missing_line_feed() {
    let (code, _) = replace_cargo_lang_code(SCRIPT, "name = \"new\"", "missing").unwrap();
    assert_eq!(
        code,
        "#!/usr/bin/env x\n//! ```cargo\n//! name = \"new\"\n//! ```\nfn main() {}\n"
    );
}

#[test]
fn replace_with_extracted_is_identity() {
    let scripts = [
        SCRIPT,
        "//! A script.\n//!\n//! ```cargo\n//! [dependencies]\n//! x = \"1\"\n//! ```\n\nuse std::io;\n\nfn main() {}\n",
        "#!/bin/sh x\n//! ```cargo\n//! [package]\n//!\n//! name = \"p\"\n//! ```\n// tail\nfn main() {}\n",
    ];
    for s in scripts.iter() {
        let m = extract_cargo_lang_code(s, "missing").unwrap();
        let (code, old) = replace_cargo_lang_code(s, &m, "missing").unwrap();
        assert_eq!(&code, s);
        assert_eq!(old, m);
    }
}

#[test]
fn first_of_two_blocks_is_taken() {
    let s = "//! ```cargo\n//! a = 1\n//! ```\n//!\n//! ```cargo\n//! b = 2\n//! ```\nfn main() {}\n";
    assert_eq!(extract_cargo_lang_code(s, "missing").unwrap(), "a = 1\n");
    let (code, _) = replace_cargo_lang_code(s, "c = 3\n", "missing").unwrap();
    assert_eq!(
        code,
        "//! ```cargo\n//! c = 3\n//! ```\n//!\n//! ```cargo\n//! b = 2\n//! ```\nfn main() {}\n"
    );
}

#[test]
fn missing_block_reports_caller_label() {
    let s = "//! ```rust\n//! a = 1\n//! ```\nfn main() {}\n";
    match extract_cargo_lang_code(s, "no manifest here") {
        Err(Failure::ManifestBlockNotFound(m)) => assert_eq!(m, "no manifest here"),
        other => panic!("unexpected: {:?}", other),
    }
}

#[test]
fn unparsable_source_is_parse_failure() {
    let s = "//! ```cargo\n//! a = 1\n//! ```\nfn main( {}\n";
    assert!(matches!(extract_cargo_lang_code(s, "x"), Err(Failure::Parse(_))));
}

#[test]
fn default_replacement_leaves_placeholder() {
    let (code, manifest) = replace_cargo_lang_code_with_default(SCRIPT).unwrap();
    assert_eq!(manifest, "name = \"old\"\n");
    assert_eq!(
        code,
        "#!/usr/bin/env x\n//! ```cargo\n//! # Leave blank.\n//! ```\nfn main() {}\n"
    );
}

#[test]
fn doc_lines_are_moved_before_code_and_empty_lines_written_bare() {
    let s = "// note\n//! Title\n//!\n//! ```cargo\n//! a = 1\n//! ```\nfn main() {}\n";
    let (code, _) = replace_cargo_lang_code(s, "b = 2\n", "x").unwrap();
    assert_eq!(
        code,
        "//! Title\n//!\n//! ```cargo\n//! b = 2\n//! ```\n// note\nfn main() {}\n"
    );
}

fn ev(tag: MdTag, info: &str, start: usize, end: usize) -> MdEvent {
    MdEvent { tag, info: info.to_owned(), start, end }
}

#[test]
fn locator_follows_automaton() {
    let events = vec![
        ev(MdTag::Text, "", 0, 3),
        ev(MdTag::FenceStart, "cargo", 4, 20),
        ev(MdTag::Text, "", 13, 17),
        ev(MdTag::Text, "", 17, 18),
        ev(MdTag::FenceEnd, "cargo", 4, 20),
        ev(MdTag::FenceStart, "cargo", 21, 40),
        ev(MdTag::Text, "", 30, 35),
        ev(MdTag::FenceEnd, "cargo", 21, 40),
    ];
    assert_eq!(locate_manifest_block(&events), Some((13, 17)));
}

#[test]
fn locator_ignores_other_fences_and_unclosed_blocks() {
    let events = vec![
        ev(MdTag::FenceStart, "rust", 0, 10),
        ev(MdTag::Text, "", 8, 9),
        ev(MdTag::FenceEnd, "rust", 0, 10),
    ];
    assert_eq!(locate_manifest_block(&events), None);
    let open = vec![ev(MdTag::FenceStart, "cargo", 0, 10), ev(MdTag::Text, "", 9, 10)];
    assert_eq!(locate_manifest_block(&open), None);
}

#[test]
fn split_lines_matches_str_lines() {
    for s in ["", "a", "a\n", "a\r\nb", "\n\nx\n", "é\u{1F600}\nz"].iter() {
        let expected: Vec<String> = s.lines().map(str::to_owned).collect();
        assert_eq!(split_lines(s), expected);
    }
}

#[test]
fn byte_offsets_become_char_offsets() {
    let s = "aé\u{1F600}b";
    assert_eq!(char_offset_of(s, 0), Some(0));
    assert_eq!(char_offset_of(s, 1), Some(1));
    assert_eq!(char_offset_of(s, 2), None);
    assert_eq!(char_offset_of(s, 3), Some(2));
    assert_eq!(char_offset_of(s, 7), Some(3));
    assert_eq!(char_offset_of(s, 8), Some(4));
    assert_eq!(char_offset_of(s, 9), None);
}

#[test]
fn non_ascii_manifest_round_trips() {
    let s = "//! ```cargo\n//! name = \"\u{e9}t\u{e9}\"\n//! ```\nfn main() {}\n";
    let m = extract_cargo_lang_code(s, "x").unwrap();
    assert_eq!(m, "name = \"\u{e9}t\u{e9}\"\n");
    let (code, _) = replace_cargo_lang_code(s, &m, "x").unwrap();
    assert_eq!(code, s);
}

#[test]
fn empty_block_has_no_text_to_find() {
    let s = "//! ```cargo\n//! ```\nfn main() {}\n";
    assert!(matches!(
        extract_cargo_lang_code(s, "missing"),
        Err(Failure::ManifestBlockNotFound(_))
    ));
}
