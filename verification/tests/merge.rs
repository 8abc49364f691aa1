use combiner::combine::{
    manifest_line, version_matches, version_stamp_line, CombineError, Combiner, MergeState,
};

fn fresh_state() -> MergeState {
    MergeState::new("work/pkg".to_string())
}

#[test]
fn defaults_match_documentation() {
    let c = Combiner::default();
    assert_eq!(c.product_name, "Product");
    assert_eq!(c.package_name, "package");
    assert_eq!(c.rel_manifest_dir, "packagelib");
    assert_eq!(c.success_message, "Installed.");
    assert_eq!(c.legacy_manifest_dirs, "");
    assert_eq!(c.input_tarballs, "");
    assert_eq!(c.non_installed_overlay, "");
    assert_eq!(c.work_dir, "./workdir");
    assert_eq!(c.output_dir, "./dist");
}

#[test]
fn version_check_parses_trimmed_integer() {
    assert!(version_matches("3"));
    assert!(version_matches(" 3 \n"));
    assert!(version_matches("03"));
    assert!(!version_matches("4"));
    assert!(!version_matches("three"));
    assert!(!version_matches(""));
}

#[test]
fn stamp_round_trips_through_the_version_check() {
    let stamp = version_stamp_line();
    assert_eq!(stamp, "3\n");
    assert!(version_matches(&stamp));
}

#[test]
fn disjoint_archives_merge_in_order() {
    let mut s = fresh_state();
    let moves = s
        .process_archive("work", "dist/rustc-nightly.tar.gz", "3\n", "rustc cargo\n")
        .expect("first archive merges");
    assert_eq!(moves.len(), 2);
    assert_eq!(moves[0].name, "rustc");
    assert_eq!(moves[0].from, "work/rustc-nightly/rustc");
    assert_eq!(moves[0].to, "work/pkg/rustc");
    assert_eq!(moves[1].name, "cargo");
    assert_eq!(moves[1].from, "work/rustc-nightly/cargo");
    assert_eq!(moves[1].to, "work/pkg/cargo");

    let moves = s
        .process_archive("work", "dist/std.tar.gz", "3\n", "std\n")
        .expect("second archive merges");
    assert_eq!(moves.len(), 1);
    assert_eq!(moves[0].from, "work/std/std");
    assert_eq!(moves[0].to, "work/pkg/std");

    assert_eq!(s.manifest_contents(), "rustc\ncargo\nstd\n");
}

#[test]
fn version_mismatch_fails_before_merging_that_archive() {
    let mut s = fresh_state();
    s.process_archive("work", "dist/a.tar.gz", "3\n", "rustc\n")
        .expect("supported version merges");
    let err = s
        .process_archive("work", "dist/b.tar.gz", "4\n", "cargo\n")
        .expect_err("unsupported version must fail");
    match err {
        CombineError::VersionMismatch { ref path } => assert_eq!(path, "dist/b.tar.gz"),
        _ => panic!("expected a version mismatch"),
    }
    assert_eq!(err.message(), "incorrect installer version in dist/b.tar.gz");
    // Nothing of the offending archive was merged.
    assert_eq!(s.manifest_contents(), "rustc\n");
}

#[test]
fn version_mismatch_on_first_archive_merges_nothing() {
    let mut s = fresh_state();
    let r = s.process_archive("work", "bad.tar.gz", "2", "rustc\n");
    assert!(matches!(r, Err(CombineError::VersionMismatch { .. })));
    assert_eq!(s.manifest_contents(), "");
}

#[test]
fn duplicate_component_across_archives_fails_deterministically() {
    let mut s = fresh_state();
    s.process_archive("work", "one.tar.gz", "3", "rustc\n").expect("first merges");
    let err = s
        .process_archive("work", "two.tar.gz", "3", "rustc\n")
        .expect_err("colliding component must fail");
    match err {
        CombineError::DuplicateComponent { ref name } => assert_eq!(name, "rustc"),
        _ => panic!("expected a duplicate component"),
    }
    assert_eq!(err.message(), "duplicate component rustc");
    // The merged state still holds only the first archive's component.
    assert_eq!(s.manifest_contents(), "rustc\n");
}

#[test]
fn duplicate_component_within_one_archive_fails() {
    let mut s = fresh_state();
    let r = s.process_archive("work", "one.tar.gz", "3", "rustc cargo rustc");
    assert!(matches!(r, Err(CombineError::DuplicateComponent { ref name }) if name == "rustc"));
    assert_eq!(s.manifest_contents(), "");
}

#[test]
fn rerunning_identical_inputs_reproduces_the_manifest() {
    let run = || {
        let mut s = fresh_state();
        s.process_archive("work", "a.tar.gz", "3", "rustc cargo").unwrap();
        s.process_archive("work", "b.tar.gz", "3", "docs").unwrap();
        s.manifest_contents()
    };
    assert_eq!(run(), run());
}

#[test]
fn zero_archives_still_yield_a_full_plan() {
    let mut c = Combiner::default();
    c.package_name = "pkg".to_string();
    c.work_dir = "work".to_string();
    c.output_dir = "dist".to_string();
    assert!(c.tarball_list().is_empty());
    let package_dir = c.package_dir();
    assert_eq!(package_dir, "work/pkg");
    let s = MergeState::new(package_dir.clone());
    assert_eq!(s.manifest_contents(), "");
    assert_eq!(version_stamp_line(), "3\n");
    let script = c.script_config(&package_dir);
    assert_eq!(script.output_script, "work/pkg/install.sh");
    assert_eq!(script.product_name, "Product");
    let pack = c.pack_config();
    assert_eq!(pack.work_dir, "work");
    assert_eq!(pack.input, "pkg");
    assert_eq!(pack.output, "dist/pkg");
}

#[test]
fn tarball_list_splits_configuration_entries() {
    let mut c = Combiner::default();
    c.input_tarballs = " a.tar.gz , b.tar.gz,,".to_string();
    assert_eq!(c.tarball_list(), vec!["a.tar.gz", "b.tar.gz"]);
}

#[test]
fn overlay_is_copied_but_never_recorded() {
    let mut c = Combiner::default();
    assert!(c.overlay_source().is_none());
    c.non_installed_overlay = "overlay".to_string();
    assert_eq!(c.overlay_source(), Some("overlay".to_string()));
    // The overlay enters no manifest: only merged components are listed.
    let mut s = fresh_state();
    s.process_archive("work", "a.tar.gz", "3", "rustc").unwrap();
    assert_eq!(s.manifest_contents(), "rustc\n");
}

#[test]
fn manifest_lines_end_in_newline() {
    assert_eq!(manifest_line("rustc"), "rustc\n");
}

#[test]
fn collaborator_config_forwards_metadata_verbatim() {
    let mut c = Combiner::default();
    c.product_name = "Rust".to_string();
    c.rel_manifest_dir = "rustlib".to_string();
    c.success_message = "Rust is ready to roll.".to_string();
    c.legacy_manifest_dirs = "rustlib,cargo".to_string();
    let script = c.script_config("work/pkg");
    assert_eq!(script.product_name, "Rust");
    assert_eq!(script.rel_manifest_dir, "rustlib");
    assert_eq!(script.success_message, "Rust is ready to roll.");
    assert_eq!(script.legacy_manifest_dirs, "rustlib,cargo");
    assert_eq!(script.output_script, "work/pkg/install.sh");
}
