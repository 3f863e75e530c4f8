use slog_journald::{ErrorChain, ErrorStep, Serializer, Value};

fn pairs(s: &Serializer) -> Vec<(String, String)> {
    s.fields().clone()
}

fn field(k: &str, v: &str) -> (String, String) {
    (k.to_string(), v.to_string())
}

fn chain() -> ErrorChain {
    ErrorChain {
        steps: vec![
            ErrorStep { message: "top".to_string(), os_error: None },
            ErrorStep { message: "cause1".to_string(), os_error: Some(13) },
            ErrorStep { message: "cause2".to_string(), os_error: Some(-2) },
        ],
    }
}

#[test]
fn add_field_keeps_key_as_is() {
    let mut s = Serializer::new();
    s.add_field("code_file".to_string(), "x.rs".to_string());
    s.add_field("K".to_string(), String::new());
    assert_eq!(pairs(&s), vec![field("code_file", "x.rs"), field("K", "")]);
}

#[test]
fn emit_sanitizes_key_not_value() {
    let mut s = Serializer::new();
    s.emit("foo", &Value::Str("bar".to_string()));
    s.emit("_n-um", &Value::I32(-3));
    s.emit("!*", &Value::Unit);
    assert_eq!(
        s.into_fields(),
        vec![field("FOO", "bar"), field("N_UM", "-3"), field("", "")]
    );
}

#[test]
fn error_default_is_one_field() {
    let mut s = Serializer::new();
    s.emit("err", &Value::Error(chain()));
    assert_eq!(pairs(&s), vec![field("ERR", "top: cause1: cause2")]);
}

#[test]
fn error_with_source_fields() {
    let mut s = Serializer::with_options(false, true);
    s.emit_error("error", &chain());
    assert_eq!(
        pairs(&s),
        vec![
            field("ERROR_SOURCE_0", "top"),
            field("ERROR_SOURCE_1", "cause1"),
            field("ERROR_SOURCE_2", "cause2"),
            field("ERROR_SOURCE_DEPTH", "3"),
            field("ERROR", "top: cause1: cause2"),
        ]
    );
}

#[test]
fn error_with_errno_fields() {
    let mut s = Serializer::with_options(true, false);
    s.emit_error("e", &chain());
    assert_eq!(
        pairs(&s),
        vec![field("ERRNO", "13"), field("ERRNO", "-2"), field("E", "top: cause1: cause2")]
    );
}

#[test]
fn error_with_both_enrichments() {
    let mut s = Serializer::with_options(true, true);
    let one = ErrorChain {
        steps: vec![ErrorStep { message: "denied".to_string(), os_error: Some(13) }],
    };
    s.emit("io", &Value::Error(one));
    assert_eq!(
        pairs(&s),
        vec![
            field("ERRNO", "13"),
            field("ERROR_SOURCE_0", "denied"),
            field("ERROR_SOURCE_DEPTH", "1"),
            field("IO", "denied"),
        ]
    );
}
