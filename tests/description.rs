use foxbox_core::description::{flatten_description, lookup, parse_simple_xml, DescriptionError, XmlToken};

#[test]
fn repeated_siblings_are_dropped() {
    let pairs = match parse_simple_xml("<a><b>x</b><b>y</b><c>z</c></a>") {
        Ok(p) => p,
        Err(_) => panic!("document should parse"),
    };
    assert_eq!(pairs.len(), 1);
    assert_eq!(lookup(&pairs, "/a/c").map(|s| s.as_str()), Some("z"));
    assert!(lookup(&pairs, "/a/b").is_none());
}

#[test]
fn nested_paths_and_text_concatenation() {
    let doc = "<root><device><modelName>Philips hue <![CDATA[bridge]]> 2012</modelName><modelNumber>929000226503</modelNumber></device></root>";
    let pairs = match parse_simple_xml(doc) {
        Ok(p) => p,
        Err(_) => panic!("document should parse"),
    };
    assert_eq!(lookup(&pairs, "/root/device/modelName").map(|s| s.as_str()), Some("Philips hue bridge 2012"));
    assert_eq!(lookup(&pairs, "/root/device/modelNumber").map(|s| s.as_str()), Some("929000226503"));
    assert!(lookup(&pairs, "/root/device").is_none());
}

#[test]
fn repeated_element_drops_later_text_too() {
    let pairs = match parse_simple_xml("<a><b>x</b><b>y<d>w</d></b><b>v</b></a>") {
        Ok(p) => p,
        Err(_) => panic!("document should parse"),
    };
    assert!(lookup(&pairs, "/a/b").is_none());
    assert_eq!(lookup(&pairs, "/a/b/d").map(|s| s.as_str()), Some("w"));
}

#[test]
fn mismatched_tag_is_a_syntax_error() {
    match parse_simple_xml("<a><b>x</c></a>") {
        Err(DescriptionError::Syntax(message)) => assert!(!message.is_empty()),
        _ => panic!("expected a syntax error"),
    }
}

#[test]
fn end_without_start_is_unbalanced() {
    let tokens = vec![XmlToken::End("a".to_string())];
    match flatten_description(&tokens) {
        Err(DescriptionError::UnbalancedEnd { element }) => assert_eq!(element, "a"),
        _ => panic!("expected an unbalanced end"),
    }
}

#[test]
fn tokens_flatten_in_order() {
    let tokens = vec![
        XmlToken::Start("a".to_string()),
        XmlToken::Characters("1".to_string()),
        XmlToken::Start("b".to_string()),
        XmlToken::Characters("2".to_string()),
        XmlToken::End("b".to_string()),
        XmlToken::Other,
        XmlToken::CData("3".to_string()),
        XmlToken::End("a".to_string()),
    ];
    let pairs = match flatten_description(&tokens) {
        Ok(p) => p,
        Err(_) => panic!("tokens should flatten"),
    };
    assert_eq!(pairs, vec![("/a".to_string(), "13".to_string()), ("/a/b".to_string(), "2".to_string())]);
}
