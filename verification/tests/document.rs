use blitz_arena::dom::RealDom;
use blitz_arena::node::BlitzNode;
use blitz_arena::tree::{Attribute, ParsedNode, Payload};
use std::mem;

fn element(local: &str, attrs: Vec<(&str, &str)>, children: Vec<ParsedNode>) -> ParsedNode {
    let attrs = attrs
        .into_iter()
        .map(|(local, value)| Attribute { local: local.to_string(), value: value.to_string() })
        .collect();
    ParsedNode {
        data: Payload::Element {
            local: local.to_string(),
            ns: "http://www.w3.org/1999/xhtml".to_string(),
            attrs,
        },
        children,
    }
}

fn text(contents: &str) -> ParsedNode {
    ParsedNode { data: Payload::Text { contents: contents.to_string() }, children: vec![] }
}

fn document(children: Vec<ParsedNode>) -> ParsedNode {
    ParsedNode { data: Payload::Document, children }
}

/// `<div id="x"><p class="a b">hi</p></div>` under the document root.
fn small_document() -> ParsedNode {
    document(vec![element(
        "div",
        vec![("id", "x")],
        vec![element("p", vec![("class", "a b")], vec![text("hi")])],
    )])
}

/// A document with text between and around its elements:
/// root 0; ul 1; "a" 2; li 3; "x" 4; "b" 5; li 6; comment 7; li 8; em 9; "c" 10; p 11.
fn list_document() -> ParsedNode {
    document(vec![
        element(
            "ul",
            vec![],
            vec![
                text("a"),
                element("li", vec![], vec![text("x")]),
                text("b"),
                element("li", vec![], vec![]),
                ParsedNode { data: Payload::Comment, children: vec![] },
                element("li", vec![], vec![element("em", vec![], vec![])]),
                text("c"),
            ],
        ),
        element("p", vec![], vec![]),
    ])
}

fn ids(nodes: &[Option<BlitzNode>]) -> Vec<Option<usize>> {
    nodes.iter().map(|n| n.map(|n| n.debug_id())).collect()
}

#[test]
fn assert_size_of_equals() {
    let handle = mem::size_of::<BlitzNode>();
    assert_eq!(handle, mem::size_of::<(&RealDom, usize)>());
}

#[test]
fn scenario_div_p_text() {
    let dom = RealDom::from_tree(small_document());
    assert_eq!(dom.len(), 4);

    let root = dom.root_node();
    assert!(root.is_document_root());
    assert_eq!(root.data().children.len(), 1);

    let div = dom.root_element();
    assert_eq!(div.debug_id(), 1);
    assert!(div.is_element());
    assert_eq!(div.local_name(), "div");
    assert!(div.has_id("x"));
    assert!(!div.has_id("y"));
    assert!(div.first_element_child() == root.first_child().unwrap().first_child());

    let p = div.first_child().unwrap();
    assert_eq!(p.local_name(), "p");
    assert!(p.has_class("a"));
    assert!(p.has_class("b"));
    assert!(!p.has_class("c"));
    assert_eq!(p.data().children.len(), 1);

    let hi = p.first_child().unwrap();
    assert!(hi.is_text_node());
    assert!(!hi.is_element());
    assert!(hi.is_empty());
    assert!(matches!(&hi.data().node, Payload::Text { contents } if contents == "hi"));
}

#[test]
fn identities_are_dense() {
    let dom = RealDom::from_tree(list_document());
    let n = dom.len();
    assert_eq!(n, 12);
    let root = dom.root_node();
    let mut seen = vec![false; n];
    for id in 0..n {
        let node = root.with(id);
        assert_eq!(node.data().id, id);
        assert_eq!(node.debug_id(), id);
        seen[node.data().id] = true;
    }
    assert!(seen.iter().all(|s| *s));
    assert!(dom.nodes.get(n).is_none());
    assert_eq!(dom.nodes.len(), n);
}

#[test]
fn parent_lists_child_at_its_position() {
    let dom = RealDom::from_tree(list_document());
    let root = dom.root_node();
    assert!(root.data().parent.is_none());
    assert!(root.parent_node().is_none());
    assert!(root.is_root());
    for id in 1..dom.len() {
        let node = root.with(id);
        let parent = node.parent_node().unwrap();
        assert!(!node.is_root());
        assert_eq!(parent.data().children[node.data().child_idx], id);
    }
    assert_eq!(root.with(9).data().parent, Some(8));
    assert_eq!(root.with(9).data().child_idx, 0);
    assert_eq!(root.with(11).data().parent, Some(0));
    assert_eq!(root.with(11).data().child_idx, 1);
}

fn walk(node: BlitzNode, out: &mut Vec<usize>) {
    out.push(node.debug_id());
    let mut children = node.traversal_children();
    while let Some(child) = children.next() {
        walk(child, out);
    }
}

fn payloads(node: &ParsedNode, out: &mut Vec<String>) {
    out.push(match &node.data {
        Payload::Document => "#document".to_string(),
        Payload::Text { contents } => format!("text:{}", contents),
        Payload::Element { local, .. } => format!("element:{}", local),
        Payload::Comment => "#comment".to_string(),
        Payload::Doctype => "#doctype".to_string(),
        Payload::ProcessingInstruction => "#pi".to_string(),
    });
    for child in &node.children {
        payloads(child, out);
    }
}

#[test]
fn traversal_follows_document_order() {
    let mut expected = Vec::new();
    payloads(&list_document(), &mut expected);

    let dom = RealDom::from_tree(list_document());
    let mut visited = Vec::new();
    walk(dom.root_node(), &mut visited);
    assert_eq!(visited, (0..12).collect::<Vec<usize>>());

    let mut met = Vec::new();
    for id in visited {
        let record = dom.root_node().with(id).data();
        met.push(match &record.node {
            Payload::Document => "#document".to_string(),
            Payload::Text { contents } => format!("text:{}", contents),
            Payload::Element { local, .. } => format!("element:{}", local),
            Payload::Comment => "#comment".to_string(),
            Payload::Doctype => "#doctype".to_string(),
            Payload::ProcessingInstruction => "#pi".to_string(),
        });
    }
    assert_eq!(met, expected);
    assert_eq!(met[9], "element:em");
    assert_eq!(met[10], "text:c");
}

#[test]
fn sibling_round_trip() {
    let dom = RealDom::from_tree(list_document());
    let ul = dom.root_element();
    let k = ul.data().children.len();
    assert_eq!(k, 7);
    let mut at = ul.first_child();
    let mut met = Vec::new();
    let mut nones = 0;
    for _ in 0..k {
        let node = at.unwrap();
        met.push(node.debug_id());
        at = node.next_sibling();
        if at.is_none() {
            nones += 1;
        }
    }
    assert_eq!(met, vec![2, 3, 5, 6, 7, 8, 10]);
    assert_eq!(nones, 1);
    assert!(at.is_none());

    let mut back = Vec::new();
    let mut at = ul.last_child();
    while let Some(node) = at {
        back.push(node.debug_id());
        at = node.prev_sibling();
    }
    assert_eq!(back, vec![10, 8, 7, 6, 5, 3, 2]);
}

#[test]
fn forward_and_backward_by_offset() {
    let dom = RealDom::from_tree(list_document());
    let root = dom.root_node();
    let li = root.with(3);
    assert_eq!(
        ids(&[li.forward(0), li.forward(1), li.forward(2), li.forward(5), li.forward(6)]),
        vec![Some(3), Some(5), Some(6), Some(10), None]
    );
    assert_eq!(
        ids(&[li.backward(0), li.backward(1), li.backward(2)]),
        vec![Some(3), Some(2), None]
    );
    assert!(li.forward(usize::MAX).is_none());
    assert!(li.backward(usize::MAX).is_none());
    assert!(root.forward(0).is_none());
    assert!(root.backward(0).is_none());
    assert!(root.next_sibling().is_none());
    assert!(root.prev_sibling().is_none());
}

#[test]
fn element_walks_skip_other_nodes() {
    let dom = RealDom::from_tree(list_document());
    let root = dom.root_node();
    assert_eq!(root.with(1).first_element_child().map(|n| n.debug_id()), Some(3));
    assert_eq!(root.with(3).first_element_child().map(|n| n.debug_id()), None);
    assert_eq!(root.with(6).first_element_child().map(|n| n.debug_id()), None);
    assert_eq!(root.with(3).next_sibling_element().map(|n| n.debug_id()), Some(6));
    assert_eq!(root.with(6).next_sibling_element().map(|n| n.debug_id()), Some(8));
    assert_eq!(root.with(8).next_sibling_element().map(|n| n.debug_id()), None);
    assert_eq!(root.with(2).next_sibling_element().map(|n| n.debug_id()), Some(3));
    assert_eq!(root.with(10).prev_sibling_element().map(|n| n.debug_id()), Some(8));
    assert_eq!(root.with(8).prev_sibling_element().map(|n| n.debug_id()), Some(6));
    assert_eq!(root.with(3).prev_sibling_element().map(|n| n.debug_id()), None);
    assert_eq!(root.with(1).next_sibling_element().map(|n| n.debug_id()), Some(11));
    assert_eq!(root.next_sibling_element().map(|n| n.debug_id()), None);
    assert_eq!(root.prev_sibling_element().map(|n| n.debug_id()), None);
}

#[test]
fn first_and_last_child() {
    let dom = RealDom::from_tree(list_document());
    let root = dom.root_node();
    assert_eq!(root.first_child().map(|n| n.debug_id()), Some(1));
    assert_eq!(root.last_child().map(|n| n.debug_id()), Some(11));
    assert_eq!(root.with(1).last_child().map(|n| n.debug_id()), Some(10));
    assert!(root.with(11).first_child().is_none());
    assert!(root.with(11).last_child().is_none());
    assert!(root.with(11).is_empty());
    assert!(!root.with(1).is_empty());
    assert_eq!(root.with(9).owner_doc().debug_id(), 0);
}

#[test]
fn traversal_parent_is_an_element_or_none() {
    let dom = RealDom::from_tree(list_document());
    let root = dom.root_node();
    assert!(root.traversal_parent().is_none());
    assert!(root.with(1).traversal_parent().is_none());
    assert_eq!(root.with(4).traversal_parent().map(|n| n.debug_id()), Some(3));
    assert!(root.as_element().is_none());
    assert!(root.with(2).as_element().is_none());
    assert_eq!(root.with(3).as_element().map(|n| n.debug_id()), Some(3));
}

#[test]
fn traversal_can_be_restarted() {
    let dom = RealDom::from_tree(list_document());
    let ul = dom.root_element();
    let mut first = ul.traversal_children();
    assert_eq!(first.next().map(|n| n.debug_id()), Some(2));
    assert_eq!(first.next().map(|n| n.debug_id()), Some(3));
    let mut second = ul.traversal_children();
    assert_eq!(second.next().map(|n| n.debug_id()), Some(2));
    let mut rest = Vec::new();
    while let Some(node) = first.next() {
        rest.push(node.debug_id());
    }
    assert_eq!(rest, vec![5, 6, 7, 8, 10]);
    assert!(first.next().is_none());
    assert!(first.next().is_none());
    let mut leaf = dom.root_node().with(11).traversal_children();
    assert!(leaf.next().is_none());
}

#[test]
fn handles_compare_by_identity() {
    let dom = RealDom::from_tree(list_document());
    let root = dom.root_node();
    assert!(root.with(3) == dom.root_element().first_element_child().unwrap());
    assert!(root.with(3) != root.with(6));
    assert!(root.with(0).is_html_document_body_element());
    assert!(!root.with(1).is_html_document_body_element());
}

#[test]
fn single_node_document() {
    let dom = RealDom::from_tree(document(vec![]));
    assert_eq!(dom.len(), 1);
    let root = dom.root_node();
    assert!(root.is_empty());
    assert!(root.first_child().is_none());
    assert!(root.first_element_child().is_none());
    assert!(root.traversal_children().next().is_none());
}

#[test]
fn layout_identifier_is_stored_and_returned() {
    let mut dom = RealDom::from_tree(list_document());
    for id in 0..dom.len() {
        assert_eq!(dom.root_node().with(id).layout_id(), None);
    }
    dom.set_layout_id(3, Some(41));
    dom.set_layout_id(8, Some(u64::MAX));
    assert_eq!(dom.root_node().with(3).layout_id(), Some(41));
    assert_eq!(dom.root_node().with(8).layout_id(), Some(u64::MAX));
    assert_eq!(dom.root_node().with(6).layout_id(), None);
    dom.set_layout_id(3, None);
    assert_eq!(dom.root_node().with(3).layout_id(), None);
    assert_eq!(dom.root_node().with(3).data().children, vec![4]);
    assert_eq!(dom.root_node().with(3).data().parent, Some(1));
    assert_eq!(dom.len(), 12);
}
