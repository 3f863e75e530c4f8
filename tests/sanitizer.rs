use slog_journald::{sanitize_key, SanitizedKey};

#[test]
fn sanitizer_no_leading_underscores() {
    assert_eq!(SanitizedKey("_A".into()).to_string(), "A");
    assert_eq!(SanitizedKey("__A".into()).to_string(), "A");
}

#[test]
fn sanitizer_allow_inner_underscore() {
    assert_eq!(SanitizedKey("A_A".into()).to_string(), "A_A");
    assert_eq!(SanitizedKey("A__A".into()).to_string(), "A__A");
    assert_eq!(SanitizedKey("A__A_".into()).to_string(), "A__A_");
}

#[test]
fn sanitizer_uppercases() {
    assert_eq!(SanitizedKey("abcde".into()).to_string(), "ABCDE");
    assert_eq!(SanitizedKey("aBcDe".into()).to_string(), "ABCDE");
    assert_eq!(SanitizedKey("a123b".into()).to_string(), "A123B");
    assert_eq!(SanitizedKey("A123B".into()).to_string(), "A123B");
}

#[test]
fn sanitizer_replaces_chars_with_underscores() {
    assert_eq!(
        SanitizedKey("A `~!@#$%^&*()-_=+A".into()).to_string(),
        "A_________________A"
    );
    assert_eq!(SanitizedKey("A\u{ABCD}A".into()).to_string(), "A_A");
    assert_eq!(SanitizedKey("A\t".into()).to_string(), "A_");
}

#[test]
fn sanitizer_cant_replace_starting_symbols_with_underscores() {
    assert_eq!(SanitizedKey("!A".into()).to_string(), "A");
    assert_eq!(SanitizedKey("!*".into()).to_string(), "");
    assert_eq!(SanitizedKey("(A)".into()).to_string(), "A_");
}

#[test]
fn sanitize_empty_key() {
    assert_eq!(sanitize_key(""), "");
    assert_eq!(sanitize_key("___"), "");
}

#[test]
fn sanitize_is_idempotent_on_samples() {
    for key in ["_a b", "x--y__", "(A)", "!*", "Build-Id", "\u{e9}t\u{e9}"] {
        let once = sanitize_key(key);
        assert_eq!(sanitize_key(&once), once);
    }
}

#[test]
fn sanitize_ignores_ascii_case() {
    assert_eq!(sanitize_key("build_di"), sanitize_key("BUILD_DI"));
    assert_eq!(sanitize_key("Foo-Bar"), sanitize_key("fOO-bAR"));
    assert_eq!(sanitize_key("foo"), "FOO");
}

#[test]
fn sanitized_keys_have_journal_shape() {
    for key in ["-x", "a.b.c", "  9lives ", "\u{1F600}k", "_", "z"] {
        let out = sanitize_key(key);
        let mut chars = out.chars();
        if let Some(first) = chars.next() {
            assert!(first.is_ascii_uppercase() || first.is_ascii_digit());
            for c in chars {
                assert!(c.is_ascii_uppercase() || c.is_ascii_digit() || c == '_');
            }
        }
    }
    assert_eq!(sanitize_key("  9lives "), "9LIVES_");
}
