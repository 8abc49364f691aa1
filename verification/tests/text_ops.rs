use combiner::paths::{package_id, path_join};
use combiner::text::{parse_u64, split_entries, trim};

#[test]
fn trim_strips_surrounding_whitespace() {
    assert_eq!(trim(" \t rustc \n"), "rustc");
    assert_eq!(trim("rustc"), "rustc");
    assert_eq!(trim("  \n\t "), "");
    assert_eq!(trim(""), "");
    assert_eq!(trim("a b"), "a b");
}

#[test]
fn split_commas_trims_and_drops_blanks() {
    let r = split_entries(",a.tar.gz , b.tar.gz,,c ,", false);
    assert_eq!(r, vec!["a.tar.gz", "b.tar.gz", "c"]);
}

#[test]
fn split_commas_of_empty_text_is_empty() {
    let r = split_entries("", false);
    assert!(r.is_empty());
    let r = split_entries(" , ,", false);
    assert!(r.is_empty());
}

#[test]
fn split_whitespace_yields_words() {
    let r = split_entries(" rustc\ncargo\t std  ", true);
    assert_eq!(r, vec!["rustc", "cargo", "std"]);
    let r = split_entries("one", true);
    assert_eq!(r, vec!["one"]);
}

#[test]
fn parse_u64_accepts_digits_only() {
    assert_eq!(parse_u64("3"), Some(3));
    assert_eq!(parse_u64("007"), Some(7));
    assert_eq!(parse_u64("18446744073709551615"), Some(u64::MAX));
    assert_eq!(parse_u64("18446744073709551616"), None);
    assert_eq!(parse_u64(""), None);
    assert_eq!(parse_u64("3a"), None);
    assert_eq!(parse_u64("-3"), None);
    assert_eq!(parse_u64(" 3"), None);
}

#[test]
fn path_join_uses_single_slash() {
    assert_eq!(path_join("work", "pkg"), "work/pkg");
    assert_eq!(path_join("", "pkg"), "/pkg");
}

#[test]
fn package_id_strips_suffix_and_directories() {
    assert_eq!(package_id("dist/rustc-nightly-x86_64.tar.gz"), "rustc-nightly-x86_64");
    assert_eq!(package_id("a/b/c.tar.gz"), "c");
    assert_eq!(package_id("plain-name"), "plain-name");
    assert_eq!(package_id("rustc.tar.gz"), "rustc");
    assert_eq!(package_id("dir.tar.gz/inner"), "inner");
}
