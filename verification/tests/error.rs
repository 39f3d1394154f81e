use public_api_tricks::error::ErrorSource;
use public_api_tricks::Error;

#[test]
fn messages_name_what_failed() {
    assert_eq!(Error::Cargo("exit 1".to_string()).message(), "cargo command failed: exit 1");
    assert_eq!(
        Error::Resolve("foo".to_string()).message(),
        "could not resolve external crate: foo"
    );
    assert_eq!(
        Error::MissingJson("/t/doc/x.json".to_string()).message(),
        "rustdoc JSON not found at /t/doc/x.json"
    );
    assert!(Error::Cargo(String::new()).source().is_none());
    assert!(Error::Resolve(String::new()).source().is_none());
    assert!(Error::MissingJson(String::new()).source().is_none());
}

#[test]
fn io_errors_convert_and_keep_their_text() {
    let io = std::io::Error::new(std::io::ErrorKind::NotFound, "no such file");
    let text = io.to_string();
    let e: Error = io.into();
    assert!(matches!(e, Error::IoError(_)));
    match e.source() {
        Some(ErrorSource::Io(inner)) => assert_eq!(inner.to_string(), text),
        _ => panic!("expected the wrapped I/O error"),
    }
    assert_eq!(e.message(), text);
}

#[test]
fn json_errors_convert_and_keep_their_text() {
    let json = serde_json::from_str::<serde_json::Value>("{").unwrap_err();
    let text = json.to_string();
    let e = Error::from(json);
    assert!(matches!(e, Error::SerdeJsonError(_)));
    match e.source() {
        Some(ErrorSource::Json(inner)) => assert_eq!(inner.to_string(), text),
        _ => panic!("expected the wrapped JSON error"),
    }
    assert_eq!(e.message(), text);
    assert_eq!(e.message(), "EOF while parsing an object at line 1 column 1");
}
