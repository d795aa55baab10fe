use tree_sitter_visitor::render::escape_backticks;
use tree_sitter_visitor::sanitize_identifier;

#[test]
fn identifier_safe_name_is_kept() {
    assert_eq!(sanitize_identifier("fizz"), "fizz");
    assert_eq!(sanitize_identifier("add_expr"), "add_expr");
    assert_eq!(sanitize_identifier("Abc_019"), "Abc_019");
}

#[test]
fn table_character_becomes_mnemonic() {
    assert_eq!(sanitize_identifier(","), "COMMA");
    assert_eq!(sanitize_identifier("+"), "PLUS");
    assert_eq!(sanitize_identifier("\n"), "LF");
    assert_eq!(sanitize_identifier("\\"), "BSLASH");
}

#[test]
fn mnemonic_between_letters_is_separated() {
    assert_eq!(sanitize_identifier("a,b"), "a_COMMA_b");
    assert_eq!(sanitize_identifier("a,"), "a_COMMA");
    assert_eq!(sanitize_identifier(",1"), "COMMA_1");
    assert_eq!(sanitize_identifier(",_x"), "COMMA_x");
    assert_eq!(sanitize_identifier("a,éb"), "a_COMMA_b");
}

#[test]
fn consecutive_specials_get_one_separator() {
    assert_eq!(sanitize_identifier("=="), "EQ_EQ");
    assert_eq!(sanitize_identifier("->"), "DASH_GT");
    assert_eq!(sanitize_identifier("a_,"), "a_COMMA");
    assert_eq!(sanitize_identifier("_,"), "_COMMA");
}

#[test]
fn empty_and_unsupported_give_empty() {
    assert_eq!(sanitize_identifier(""), "");
    assert_eq!(sanitize_identifier("é"), "");
    assert_eq!(sanitize_identifier(" "), "");
    assert_eq!(sanitize_identifier("aé,"), "a_COMMA");
}

#[test]
fn sanitize_is_idempotent() {
    for s in ["a,b", "<=>", "x y", "__", "", "fizz", "\r\n\t"] {
        let once = sanitize_identifier(s);
        assert_eq!(sanitize_identifier(&once), once);
    }
}

#[test]
fn sanitized_separators_are_never_doubled_or_leading() {
    for s in ["((", ",a", "a,,b", "<<=", "!!!"] {
        let r = sanitize_identifier(s);
        assert!(!r.starts_with('_'), "{}", r);
        assert!(!r.ends_with('_'), "{}", r);
        assert!(!r.contains("__"), "{}", r);
    }
}

#[test]
fn backticks_are_escaped() {
    assert_eq!(escape_backticks("a`b``"), "a\\`b\\`\\`");
    assert_eq!(escape_backticks(""), "");
    assert_eq!(escape_backticks("\\\""), "\\\"");
}
