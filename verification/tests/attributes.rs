use blitz_arena::dom::RealDom;
use blitz_arena::painters::RegisteredPaintersImpl;
use blitz_arena::text::{is_space, split_ascii_whitespace};
use blitz_arena::tree::{Attribute, ParsedNode, Payload};

fn element_with(attrs: Vec<(&str, &str)>) -> RealDom {
    let attrs = attrs
        .into_iter()
        .map(|(local, value)| Attribute { local: local.to_string(), value: value.to_string() })
        .collect();
    RealDom::from_tree(ParsedNode {
        data: Payload::Document,
        children: vec![
            ParsedNode {
                data: Payload::Element {
                    local: "span".to_string(),
                    ns: "http://www.w3.org/1999/xhtml".to_string(),
                    attrs,
                },
                children: vec![],
            },
            ParsedNode { data: Payload::Text { contents: "t".to_string() }, children: vec![] },
        ],
    })
}

#[test]
fn class_matching() {
    let dom = element_with(vec![("class", "a b c")]);
    let span = dom.root_element();
    assert!(span.has_class("b"));
    assert!(span.has_class("a"));
    assert!(span.has_class("c"));
    assert!(!span.has_class("ab"));
    assert!(!span.has_class("a b"));
    assert!(!span.has_class(""));
    assert_eq!(span.each_class(), vec!["a", "b", "c"]);
}

#[test]
fn classes_of_several_attributes_in_source_order() {
    let dom = element_with(vec![
        ("class", "  x\ty "),
        ("id", "class"),
        ("class", ""),
        ("class", "z\n\rx\u{c}w"),
    ]);
    let span = dom.root_element();
    assert_eq!(span.each_class(), vec!["x", "y", "z", "x", "w"]);
    assert!(span.has_class("w"));
    assert!(span.has_class("y"));
    assert!(!span.has_class("class"));
    assert_eq!(span.each_attr_name(), vec!["class", "id", "class", "class"]);
}

#[test]
fn identifier_matching() {
    let dom = element_with(vec![("class", "x"), ("id", "main"), ("id", "other")]);
    let span = dom.root_element();
    assert!(span.has_id("main"));
    assert!(span.has_id("other"));
    assert!(!span.has_id("x"));
    assert!(!span.has_id("mai"));
    assert!(!span.has_id(""));
    assert_eq!(span.id(), Some("main"));

    let bare = element_with(vec![("class", "main")]);
    assert!(!bare.root_element().has_id("main"));
    assert_eq!(bare.root_element().id(), None);
}

#[test]
fn non_elements_have_no_attributes() {
    let dom = element_with(vec![("class", "a"), ("id", "a")]);
    let root = dom.root_node();
    let text = root.with(2);
    for node in [root, text] {
        assert!(!node.has_class("a"));
        assert!(!node.has_id("a"));
        assert!(!node.has_local_name("span"));
        assert!(node.each_class().is_empty());
        assert!(node.each_attr_name().is_empty());
        assert_eq!(node.id(), None);
    }
}

#[test]
fn names_of_an_element() {
    let dom = element_with(vec![]);
    let span = dom.root_element();
    assert_eq!(span.local_name(), "span");
    assert_eq!(span.namespace(), "http://www.w3.org/1999/xhtml");
    assert!(span.has_local_name("span"));
    assert!(!span.has_local_name("spa"));
    assert!(!span.has_local_name("SPAN"));
    assert!(span.each_class().is_empty());
    assert!(span.each_attr_name().is_empty());
}

#[test]
fn splitting_at_ascii_whitespace() {
    assert_eq!(split_ascii_whitespace("a b c"), vec!["a", "b", "c"]);
    assert_eq!(split_ascii_whitespace("  lead and trail\t\n"), vec!["lead", "and", "trail"]);
    assert_eq!(split_ascii_whitespace(""), Vec::<&str>::new());
    assert_eq!(split_ascii_whitespace(" \t\r\n\u{c}"), Vec::<&str>::new());
    assert_eq!(split_ascii_whitespace("one"), vec!["one"]);
    assert_eq!(split_ascii_whitespace("é\u{a0}ü ß"), vec!["é\u{a0}ü", "ß"]);
    assert_eq!(split_ascii_whitespace("a\u{b}b"), vec!["a\u{b}b"]);
    for text in ["x  y", "\tq\u{c}r s\r\n", "日本 語", " a"] {
        let expected: Vec<&str> = text.split_ascii_whitespace().collect();
        assert_eq!(split_ascii_whitespace(text), expected);
    }
}

#[test]
fn ascii_whitespace_characters() {
    for c in [' ', '\t', '\n', '\u{c}', '\r'] {
        assert!(is_space(c));
        assert!(c.is_ascii_whitespace());
    }
    for c in ['a', '\u{b}', '\u{a0}', '\u{2003}', '0'] {
        assert!(!is_space(c));
    }
}

#[test]
fn no_painter_is_registered() {
    let painters = RegisteredPaintersImpl;
    assert!(!painters.is_registered("image"));
    assert!(!painters.is_registered(""));
}
