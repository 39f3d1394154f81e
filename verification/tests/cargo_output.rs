use public_api_tricks::build_plan::{cargo_message, dependency_artifacts_in_output, lines};

fn line_texts(s: &str) -> Vec<String> {
    lines(s)
}

#[test]
fn lines_split_like_str_lines() {
    for text in ["", "a", "a\n", "a\nb", "a\r\nb\r\n", "\n\n", "a\rb\n", "x\r", "\r\n", "a\n\nb"] {
        let expected: Vec<String> = text.lines().map(String::from).collect();
        assert_eq!(line_texts(text), expected, "for {text:?}");
    }
    assert_eq!(line_texts("a\r\nb"), vec!["a".to_string(), "b".to_string()]);
}

const ARTIFACT: &str = r#"{"reason":"compiler-artifact","manifest_path":"/r/dep/Cargo.toml","target":{"kind":["lib"],"name":"dep-name"},"features":["default",3,"std"],"filenames":["/t/libdep.rlib",7,"/t/libdep.rmeta","/t/dep.d"]}"#;

#[test]
fn messages_are_read_from_json() {
    let v: serde_json::Value = serde_json::from_str(ARTIFACT).unwrap();
    let msg = cargo_message(&v);
    assert_eq!(msg.reason.as_deref(), Some("compiler-artifact"));
    assert_eq!(msg.target_kinds, vec!["lib".to_string()]);
    assert_eq!(msg.target_name.as_deref(), Some("dep-name"));
    assert_eq!(msg.manifest_path.as_deref(), Some("/r/dep/Cargo.toml"));
    assert_eq!(msg.features, vec!["default".to_string(), "std".to_string()]);
    assert_eq!(msg.filenames.len(), 3);
}

#[test]
fn values_of_other_types_count_as_absent() {
    let v: serde_json::Value =
        serde_json::from_str(r#"{"reason":5,"target":"lib","features":{"a":1}}"#).unwrap();
    let msg = cargo_message(&v);
    assert_eq!(msg.reason, None);
    assert!(msg.target_kinds.is_empty());
    assert_eq!(msg.target_name, None);
    assert_eq!(msg.manifest_path, None);
    assert!(msg.features.is_empty());
    assert!(msg.filenames.is_empty());
}

#[test]
fn artifacts_are_found_line_by_line() {
    let own = r#"{"reason":"compiler-artifact","manifest_path":"/w/me/Cargo.toml","target":{"kind":["lib"],"name":"me"},"features":[],"filenames":["/t/libme.rmeta"]}"#;
    let build_script = r#"{"reason":"build-script-executed","manifest_path":"/r/x/Cargo.toml"}"#;
    let other = r#"{"reason":"compiler-artifact","manifest_path":"/r/o/Cargo.toml","target":{"kind":["lib"],"name":"o"},"features":[],"filenames":["/t/libo.rlib"]}"#;
    let stdout = format!("{ARTIFACT}\nnot json\r\n{own}\n{build_script}\n{other}\n");
    let deps = dependency_artifacts_in_output(&stdout, "/w/me/Cargo.toml");
    let files: Vec<&str> = deps.iter().map(|d| d.artifact.as_str()).collect();
    assert_eq!(files, vec!["/t/libdep.rlib", "/t/libdep.rmeta", "/t/libo.rlib"]);
    assert_eq!(deps[0].name, "dep-name");
    assert_eq!(deps[0].features, vec!["default".to_string(), "std".to_string()]);
    assert_eq!(deps[2].manifest_path, "/r/o/Cargo.toml");
    assert!(dependency_artifacts_in_output("", "/w/me/Cargo.toml").is_empty());
}
