use public_api_tricks::build_plan::{
    dependency_artifacts, dependency_doc_args, ends_with, find_dependency, find_lib_name,
    lib_file_stem, reexported_crate_ids, text_equal, CargoMessage, DepArtifact, MetadataPackage,
    MetadataTarget, PathEntry,
};

fn strings(v: &[&str]) -> Vec<String> {
    v.iter().map(|s| s.to_string()).collect()
}

fn target(kinds: &[&str], name: &str) -> MetadataTarget {
    MetadataTarget { kind: strings(kinds), name: name.to_string() }
}

fn package(manifest: &str, targets: Vec<MetadataTarget>) -> MetadataPackage {
    MetadataPackage { manifest_path: manifest.to_string(), targets }
}

fn entry(in_index: bool, crate_id: u32) -> PathEntry {
    PathEntry { in_index, crate_id }
}

fn message(reason: &str, kinds: &[&str], manifest: &str, files: &[&str]) -> CargoMessage {
    CargoMessage {
        reason: Some(reason.to_string()),
        target_kinds: strings(kinds),
        target_name: Some("my-dep".to_string()),
        manifest_path: Some(manifest.to_string()),
        features: strings(&["default", "std"]),
        filenames: strings(files),
    }
}

#[test]
fn file_stem_replaces_dashes() {
    assert_eq!(lib_file_stem("other-lib-name"), "other_lib_name");
    assert_eq!(lib_file_stem("plain"), "plain");
    assert_eq!(lib_file_stem(""), "");
    assert_eq!(lib_file_stem("--"), "__");
}

#[test]
fn text_helpers() {
    assert!(ends_with("libfoo.rmeta", ".rmeta"));
    assert!(!ends_with("libfoo.rlib.d", ".rlib"));
    assert!(!ends_with("a", "longer"));
    assert!(ends_with("x", ""));
    assert!(text_equal("lib", "lib"));
    assert!(!text_equal("lib", "libs"));
}

#[test]
fn lib_name_comes_from_the_first_lib_target() {
    let packages = vec![
        package("/w/other/Cargo.toml", vec![target(&["lib"], "other")]),
        package(
            "/w/me/Cargo.toml",
            vec![target(&["bin"], "tool"), target(&["rlib", "lib"], "other-name"), target(&["lib"], "later")],
        ),
    ];
    assert_eq!(find_lib_name(&packages, "/w/me/Cargo.toml"), Some("other_name".to_string()));
    assert_eq!(find_lib_name(&packages, "/w/other/Cargo.toml"), Some("other".to_string()));
    assert_eq!(find_lib_name(&packages, "/w/none/Cargo.toml"), None);
}

#[test]
fn lib_name_is_none_without_lib_target() {
    let packages = vec![
        package("/w/me/Cargo.toml", vec![target(&["bin"], "tool")]),
        package("/w/me/Cargo.toml", vec![target(&["lib"], "second")]),
    ];
    // Only the first package with the manifest is looked at.
    assert_eq!(find_lib_name(&packages, "/w/me/Cargo.toml"), None);
}

#[test]
fn reexported_crates_in_first_seen_order() {
    let entries = vec![
        entry(false, 3),
        entry(true, 5),
        entry(false, 0),
        entry(false, 2),
        entry(false, 3),
        entry(false, 7),
        entry(false, 2),
    ];
    assert_eq!(reexported_crate_ids(&entries), vec![3, 2, 7]);
    assert_eq!(reexported_crate_ids(&Vec::new()), Vec::<u32>::new());
    assert_eq!(reexported_crate_ids(&vec![entry(true, 1), entry(false, 0)]), Vec::<u32>::new());
}

#[test]
fn dependency_library_files_become_artifacts() {
    let msg = message(
        "compiler-artifact",
        &["lib"],
        "/r/dep/Cargo.toml",
        &["/t/deps/libdep.rlib", "/t/deps/libdep.d", "/t/deps/libdep.rmeta"],
    );
    let deps = dependency_artifacts(&msg, "/w/me/Cargo.toml");
    let files: Vec<&str> = deps.iter().map(|d| d.artifact.as_str()).collect();
    assert_eq!(files, vec!["/t/deps/libdep.rlib", "/t/deps/libdep.rmeta"]);
    for d in &deps {
        assert_eq!(d.name, "my-dep");
        assert_eq!(d.manifest_path, "/r/dep/Cargo.toml");
        assert_eq!(d.features, strings(&["default", "std"]));
    }
}

#[test]
fn other_messages_give_no_artifacts() {
    let own = "/w/me/Cargo.toml";
    let files = ["/t/libx.rlib"];
    assert!(dependency_artifacts(&message("build-script-executed", &["lib"], "/r/x/Cargo.toml", &files), own).is_empty());
    assert!(dependency_artifacts(&message("compiler-artifact", &["bin"], "/r/x/Cargo.toml", &files), own).is_empty());
    assert!(dependency_artifacts(&message("compiler-artifact", &["lib"], own, &files), own).is_empty());
    assert!(dependency_artifacts(&message("compiler-artifact", &["lib"], "/w/me/./Cargo.toml", &files), own).is_empty());
    let mut no_manifest = message("compiler-artifact", &["lib"], "/r/x/Cargo.toml", &files);
    no_manifest.manifest_path = None;
    assert!(dependency_artifacts(&no_manifest, own).is_empty());
    let mut no_reason = message("compiler-artifact", &["lib"], "/r/x/Cargo.toml", &files);
    no_reason.reason = None;
    assert!(dependency_artifacts(&no_reason, own).is_empty());
}

#[test]
fn nameless_target_gives_empty_name() {
    let mut msg = message("compiler-artifact", &["lib"], "/r/x/Cargo.toml", &["/t/libx.rmeta"]);
    msg.target_name = None;
    let deps = dependency_artifacts(&msg, "/w/me/Cargo.toml");
    assert_eq!(deps.len(), 1);
    assert_eq!(deps[0].name, "");
}

#[test]
fn dependencies_are_found_by_artifact_path() {
    let dep = |artifact: &str| DepArtifact {
        name: "d".to_string(),
        artifact: artifact.to_string(),
        manifest_path: "/r/d/Cargo.toml".to_string(),
        features: Vec::new(),
    };
    let deps = vec![dep("/t/liba.rmeta"), dep("/t/libb.rmeta"), dep("/t//libb.rmeta")];
    assert_eq!(find_dependency(&deps, "/t/libb.rmeta"), Some(1));
    assert_eq!(find_dependency(&deps, "/t/libc.rmeta"), None);
}

#[test]
fn doc_args_select_exactly_the_features() {
    assert_eq!(dependency_doc_args(&Vec::new()), strings(&["--no-default-features"]));
    assert_eq!(
        dependency_doc_args(&strings(&["std"])),
        strings(&["--no-default-features", "--features=std"])
    );
    assert_eq!(
        dependency_doc_args(&strings(&["a", "b", "c"])),
        strings(&["--no-default-features", "--features=a,b,c"])
    );
}
