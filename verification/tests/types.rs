use marshal::meta::Annotated;
use marshal::protocol::fingerprint::{coerce, Fingerprint};
use marshal::protocol::types::Level;

fn fingerprint(parts: Vec<Fingerprint>) -> Annotated<Vec<String>> {
    Annotated::from_value(coerce(parts))
}

#[test]
fn test_log() {
    assert_eq!(Level::Info, "log".parse().unwrap());
}

#[test]
fn test_fingerprint_string() {
    assert_eq!(
        Annotated::from_value(vec!["fingerprint".to_string()]),
        fingerprint(vec![Fingerprint::String("fingerprint".to_string())])
    );
}

#[test]
fn test_fingerprint_bool() {
    assert_eq!(
        Annotated::from_value(vec!["True".to_string(), "False".to_string()]),
        fingerprint(vec![Fingerprint::Bool(true), Fingerprint::Bool(false)])
    );
}

#[test]
fn test_fingerprint_number() {
    assert_eq!(
        Annotated::from_value(vec!["-22".to_string()]),
        fingerprint(vec![Fingerprint::Signed(-22)])
    );
}

#[test]
fn test_fingerprint_empty() {
    assert_eq!(Annotated::from_value(vec![]), fingerprint(vec![]));
}
