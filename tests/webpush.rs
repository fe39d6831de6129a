use foxbox_core::webpush::{escape, escape_option};

#[test]
fn quotes_are_doubled() {
    assert_eq!(escape("it's"), "it''s");
    assert_eq!(escape("''"), "''''");
    assert_eq!(escape("plain"), "plain");
    assert_eq!(escape(""), "");
}

#[test]
fn optional_values() {
    assert_eq!(escape_option(&Some("a'b".to_string())), Some("a''b".to_string()));
    assert_eq!(escape_option(&None), None);
}
