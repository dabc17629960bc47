use blitz_arena::dom::RealDom;
use blitz_arena::markup::{parse, ParseError};
use blitz_arena::tree::{Attribute, ParsedNode, Payload};

fn local_of(node: &ParsedNode) -> &str {
    match &node.data {
        Payload::Element { local, .. } => local,
        _ => panic!("not an element"),
    }
}

#[test]
fn parsed_document_has_html_head_and_body() {
    let tree = parse("<div id=\"x\"><p class=\"a b\">hi</p></div>").unwrap();
    assert!(matches!(tree.data, Payload::Document));
    assert_eq!(tree.children.len(), 1);
    let html = &tree.children[0];
    assert_eq!(local_of(html), "html");
    assert_eq!(html.children.len(), 2);
    assert_eq!(local_of(&html.children[0]), "head");
    let body = &html.children[1];
    assert_eq!(local_of(body), "body");
    assert_eq!(body.children.len(), 1);
    let div = &body.children[0];
    match &div.data {
        Payload::Element { local, ns, attrs } => {
            assert_eq!(local, "div");
            assert_eq!(ns, "http://www.w3.org/1999/xhtml");
            assert_eq!(attrs.len(), 1);
            assert_eq!(attrs[0].local, "id");
            assert_eq!(attrs[0].value, "x");
        },
        _ => panic!("not an element"),
    }
    let p = &div.children[0];
    assert_eq!(local_of(p), "p");
    assert!(matches!(&p.children[0].data, Payload::Text { contents } if contents == "hi"));
    assert!(p.children[0].children.is_empty());
}

#[test]
fn parsed_markup_comes_in_document_order() {
    let tree = parse("<!DOCTYPE html><!-- c --><ul><li>one<li>two</ul>tail").unwrap();
    assert!(matches!(tree.children[0].data, Payload::Doctype));
    assert!(matches!(tree.children[1].data, Payload::Comment));
    let html = &tree.children[2];
    let body = &html.children[1];
    assert_eq!(body.children.len(), 2);
    let ul = &body.children[0];
    assert_eq!(local_of(ul), "ul");
    assert_eq!(ul.children.len(), 2);
    assert!(matches!(&ul.children[0].children[0].data, Payload::Text { contents } if contents == "one"));
    assert!(matches!(&ul.children[1].children[0].data, Payload::Text { contents } if contents == "two"));
    assert!(matches!(&body.children[1].data, Payload::Text { contents } if contents == "tail"));
}

#[test]
fn attributes_keep_their_source_order() {
    let tree = parse("<body><a href=\"/x\" class=\"k  l\" id=\"i\" data-n=\"1\">t</a>").unwrap();
    let a = &tree.children[0].children[1].children[0];
    match &a.data {
        Payload::Element { local, attrs, .. } => {
            assert_eq!(local, "a");
            let names: Vec<&str> = attrs.iter().map(|a| a.local.as_str()).collect();
            let values: Vec<&str> = attrs.iter().map(|a| a.value.as_str()).collect();
            assert_eq!(names, vec!["href", "class", "id", "data-n"]);
            assert_eq!(values, vec!["/x", "k  l", "i", "1"]);
        },
        _ => panic!("not an element"),
    }
}

#[test]
fn document_from_markup() {
    let dom = RealDom::new("<div id=\"x\"><p class=\"a b\">hi</p></div>".to_string()).unwrap();
    assert_eq!(dom.len(), 7);
    let root = dom.root_node();
    assert!(root.is_document_root());
    assert!(!root.is_element());

    let html = dom.root_element();
    assert_eq!(html.debug_id(), 1);
    assert_eq!(html.local_name(), "html");
    assert_eq!(html.first_child().unwrap().local_name(), "head");

    let body = html.last_child().unwrap();
    assert_eq!(body.debug_id(), 3);
    assert_eq!(body.local_name(), "body");
    assert_eq!(body.data().children.len(), 1);

    let div = body.first_element_child().unwrap();
    assert_eq!(div.debug_id(), 4);
    assert_eq!(div.local_name(), "div");
    assert_eq!(div.namespace(), "http://www.w3.org/1999/xhtml");
    assert!(div.has_id("x"));
    assert_eq!(div.id(), Some("x"));

    let p = div.first_child().unwrap();
    assert_eq!(p.local_name(), "p");
    assert!(p.has_class("a"));
    assert!(p.has_class("b"));
    assert!(!p.has_class("c"));
    assert_eq!(p.each_class(), vec!["a", "b"]);
    assert_eq!(p.data().children.len(), 1);

    let hi = p.first_child().unwrap();
    assert_eq!(hi.debug_id(), 6);
    assert!(hi.is_text_node());
    assert!(hi.is_empty());
    assert!(matches!(&hi.data().node, Payload::Text { contents } if contents == "hi"));
}

#[test]
fn empty_markup_still_yields_a_document() {
    let dom = RealDom::new(String::new()).unwrap();
    assert_eq!(dom.len(), 4);
    let html = dom.root_element();
    assert_eq!(html.local_name(), "html");
    assert_eq!(html.data().children.len(), 2);
}

#[test]
fn parse_error_compares_and_prints() {
    assert_eq!(ParseError::Unreadable, ParseError::Unreadable);
    assert_eq!(format!("{:?}", ParseError::Unreadable), "Unreadable");
}

#[test]
fn tree_of_a_hand_built_node() {
    let text = ParsedNode {
        data: Payload::Text { contents: "hello".to_string() },
        children: vec![],
    };
    let comment = ParsedNode { data: Payload::Comment, children: vec![] };
    let tree = ParsedNode {
        data: Payload::Element {
            local: "span".to_string(),
            ns: String::new(),
            attrs: vec![
                Attribute { local: "class".to_string(), value: "a b".to_string() },
                Attribute { local: "title".to_string(), value: String::new() },
            ],
        },
        children: vec![text, comment],
    };
    match &tree.data {
        Payload::Element { local, ns, attrs } => {
            assert_eq!(local, "span");
            assert_eq!(ns, "");
            assert_eq!(attrs.len(), 2);
            assert_eq!(attrs[0].local, "class");
            assert_eq!(attrs[0].value, "a b");
            assert_eq!(attrs[1].local, "title");
            assert_eq!(attrs[1].value, "");
        },
        _ => panic!("not an element"),
    }
    assert_eq!(tree.children.len(), 2);
    assert!(matches!(&tree.children[0].data, Payload::Text { contents } if contents == "hello"));
    assert!(matches!(tree.children[1].data, Payload::Comment));
    assert!(tree.children[0].children.is_empty());

    let dom = RealDom::from_tree(tree);
    assert_eq!(dom.len(), 3);
    assert_eq!(dom.root_node().each_class(), vec!["a", "b"]);
    assert_eq!(dom.root_node().each_attr_name(), vec!["class", "title"]);
    assert!(dom.root_node().first_child().unwrap().is_text_node());
    assert!(!dom.root_node().last_child().unwrap().is_text_node());
}
