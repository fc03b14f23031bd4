use diener::text::begins_with_char;
use diener::text::chars_of;
use diener::text::contains;
use diener::text::ends_with;
use diener::text::same_text;
use diener::text::starts_with;
use diener::walk::is_hidden;
use diener::walk::is_manifest;

#[test]
fn characters_come_in_order() {
    assert_eq!(chars_of(""), Vec::<char>::new());
    assert_eq!(chars_of("a-ü€"), vec!['a', '-', 'ü', '€']);
}

#[test]
fn same_text_compares_all_characters() {
    assert!(same_text("", ""));
    assert!(same_text("Cargo.lock", "Cargo.lock"));
    assert!(!same_text("Cargo.lock", "Cargo.loc"));
    assert!(!same_text("Cargo.lock", "Cargo.lick"));
    assert!(!same_text("a", ""));
}

#[test]
fn prefixes_and_suffixes() {
    assert!(starts_with("https://x", "https://"));
    assert!(starts_with("https://", "https://"));
    assert!(starts_with("abc", ""));
    assert!(!starts_with("http:/", "http://"));
    assert!(!starts_with("xhttp://", "http://"));
    assert!(ends_with("a/Cargo.toml", "Cargo.toml"));
    assert!(ends_with("Cargo.toml", "Cargo.toml"));
    assert!(ends_with("abc", ""));
    assert!(!ends_with("argo.toml", "Cargo.toml"));
    assert!(!ends_with("Cargo.toml.orig", "Cargo.toml"));
}

#[test]
fn a_pattern_is_found_wherever_it_stands() {
    assert!(contains("dependencies", "dependencies"));
    assert!(contains("dev-dependencies", "dependencies"));
    assert!(contains("dependencies-extra", "dependencies"));
    assert!(contains("my-dependencies-extra", "dependencies"));
    assert!(contains("anything", ""));
    assert!(contains("", ""));
    assert!(!contains("dependencie", "dependencies"));
    assert!(!contains("package", "dependencies"));
    assert!(!contains("Dependencies", "dependencies"));
    assert!(contains("dedependencies", "dependencies"));
}

#[test]
fn the_first_character_is_compared() {
    assert!(begins_with_char(".git", '.'));
    assert!(!begins_with_char("git.", '.'));
    assert!(!begins_with_char("", '.'));
}

#[test]
fn names_with_a_leading_dot_are_hidden() {
    assert!(is_hidden(".git"));
    assert!(is_hidden(".cargo"));
    assert!(is_hidden("."));
    assert!(!is_hidden("src"));
    assert!(!is_hidden("a.b"));
    assert!(!is_hidden(""));
}

#[test]
fn manifests_are_known_by_the_end_of_their_name() {
    assert!(is_manifest("Cargo.toml"));
    assert!(is_manifest("other-Cargo.toml"));
    assert!(!is_manifest("Cargo.lock"));
    assert!(!is_manifest("Cargo.toml.orig"));
    assert!(!is_manifest("cargo.toml"));
    assert!(!is_manifest(""));
}
