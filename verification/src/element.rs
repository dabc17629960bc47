//! Attribute introspection and element-only navigation on node handles.

use crate::node::BlitzNode;
use crate::text::{ascii_words, same_text, split_ascii_whitespace, views};
use crate::tree::{Attribute, AttributeView, Payload, PayloadView};
use vstd::prelude::*;

verus! {

/// The attribute list of an element, in source order; empty for every other
/// kind of node.
pub open spec fn attrs_of(payload: PayloadView) -> Seq<AttributeView> {
    match payload {
        PayloadView::Element { attrs, .. } => attrs,
        _ => Seq::empty(),
    }
}

/// The views of a list of attributes.
pub open spec fn attr_views(attrs: Seq<Attribute>) -> Seq<AttributeView> {
    Seq::new(attrs.len(), |i: int| attrs[i]@)
}

/// The words of all `class` attributes among the first `upto` attributes, in
/// attribute order, and within one attribute in the order of its value.
pub open spec fn class_names(attrs: Seq<AttributeView>, upto: int) -> Seq<Seq<char>>
    decreases upto,
{
    if 0 < upto <= attrs.len() {
        if attrs[upto - 1].local == "class"@ {
            class_names(attrs, upto - 1) + ascii_words(attrs[upto - 1].value)
        } else {
            class_names(attrs, upto - 1)
        }
    } else {
        Seq::empty()
    }
}

/// The local names of the attributes, in attribute order.
pub open spec fn attr_names(attrs: Seq<AttributeView>) -> Seq<Seq<char>> {
    Seq::new(attrs.len(), |i: int| attrs[i].local)
}

/// Whether some `id` attribute has the value `name`.
pub open spec fn has_id_value(attrs: Seq<AttributeView>, name: Seq<char>) -> bool {
    exists|i: int| 0 <= i < attrs.len() && is_id_with(#[trigger] attrs[i], name)
}

/// Whether `attr` is an `id` attribute with the value `name`.
pub open spec fn is_id_with(attr: AttributeView, name: Seq<char>) -> bool {
    attr.local == "id"@ && attr.value == name
}

/// Position of the first `id` attribute at or after `from`, or the length of
/// the list if there is none.
pub open spec fn first_id_at(attrs: Seq<AttributeView>, from: int) -> int
    decreases attrs.len() - from,
{
    if 0 <= from < attrs.len() {
        if attrs[from].local == "id"@ {
            from
        } else {
            first_id_at(attrs, from + 1)
        }
    } else {
        attrs.len() as int
    }
}

/// Words found among the first attributes are found among more of them.
pub proof fn lemma_class_names_grow(attrs: Seq<AttributeView>, a: int, b: int, name: Seq<char>)
    requires
        0 <= a <= b <= attrs.len(),
        class_names(attrs, a).contains(name),
    ensures
        class_names(attrs, b).contains(name),
    decreases b - a,
{
    if a < b {
        lemma_class_names_grow(attrs, a, b - 1, name);
        let so_far = class_names(attrs, b - 1);
        let k = choose|k: int| 0 <= k < so_far.len() && so_far[k] == name;
        if attrs[b - 1].local == "class"@ {
            assert((so_far + ascii_words(attrs[b - 1].value))[k] == name);
        }
    }
}

impl<'a> BlitzNode<'a> {
    /// The attribute list of this node: empty unless the node is an element.
    pub open spec fn attrs(&self) -> Seq<AttributeView> {
        attrs_of(self.record().node@)
    }

    /// The attributes of this node if it is an element.
    fn element_attrs(&self) -> (found: Option<&'a Vec<Attribute>>)
        requires
            self.wf(),
        ensures
            found is Some <==> self.record().node@ is Element,
            found is Some ==> attr_views(found->0@) == self.attrs(),
            found is None ==> self.attrs().len() == 0,
    {
        match &self.data().node {
            Payload::Element { attrs, .. } => Some(attrs),
            _ => None,
        }
    }

    /// Whether this node is an element with the local name `local_name`.
    pub fn has_local_name(&self, local_name: &str) -> (b: bool)
        requires
            self.wf(),
        ensures
            b == (self.record().node@ matches PayloadView::Element { local, .. } && local
                == local_name@),
    {
        match &self.data().node {
            Payload::Element { local, .. } => same_text(local.as_str(), local_name),
            _ => false,
        }
    }

    /// The local name of this element. The node must be an element.
    pub fn local_name(&self) -> (name: &'a str)
        requires
            self.wf(),
            self.record().node@ is Element,
        ensures
            self.record().node@ matches PayloadView::Element { local, .. } && local == name@,
    {
        match &self.data().node {
            Payload::Element { local, .. } => local.as_str(),
            _ => "",
        }
    }

    /// The namespace of this element. The node must be an element.
    pub fn namespace(&self) -> (name: &'a str)
        requires
            self.wf(),
            self.record().node@ is Element,
        ensures
            self.record().node@ matches PayloadView::Element { ns, .. } && ns == name@,
    {
        match &self.data().node {
            Payload::Element { ns, .. } => ns.as_str(),
            _ => "",
        }
    }

    /// Whether an `id` attribute of this node has the value `id`. False for a
    /// node that is not an element.
    pub fn has_id(&self, id: &str) -> (b: bool)
        requires
            self.wf(),
        ensures
            b == has_id_value(self.attrs(), id@),
    {
        let attrs = match self.element_attrs() {
            Some(attrs) => attrs,
            None => { return false; },
        };
        let mut i: usize = 0;
        while i < attrs.len()
            invariant
                i <= attrs.len(),
                attr_views(attrs@) == self.attrs(),
                forall|k: int| 0 <= k < i ==> !is_id_with(#[trigger] self.attrs()[k], id@),
            decreases attrs.len() - i,
        {
            let attr = &attrs[i];
            if same_text(attr.local.as_str(), "id") && same_text(attr.value.as_str(), id) {
                assert(attr_views(attrs@)[i as int] == attrs@[i as int]@);
                assert(is_id_with(self.attrs()[i as int], id@));
                return true;
            }
            assert(attr_views(attrs@)[i as int] == attrs@[i as int]@);
            i += 1;
        }
        false
    }

    /// Whether `search_name` is one of the words of a `class` attribute of this
    /// node. False for a node that is not an element.
    pub fn has_class(&self, search_name: &str) -> (b: bool)
        requires
            self.wf(),
        ensures
            b == class_names(self.attrs(), self.attrs().len() as int).contains(search_name@),
    {
        let attrs = match self.element_attrs() {
            Some(attrs) => attrs,
            None => { return false; },
        };
        let mut i: usize = 0;
        while i < attrs.len()
            invariant
                i <= attrs.len(),
                attr_views(attrs@) == self.attrs(),
                !class_names(self.attrs(), i as int).contains(search_name@),
            decreases attrs.len() - i,
        {
            let attr = &attrs[i];
            // make sure we only select class attributes
            if same_text(attr.local.as_str(), "class") {
                // split the class attribute
                let words = split_ascii_whitespace(attr.value.as_str());
                let mut w: usize = 0;
                while w < words.len()
                    invariant
                        w <= words.len(),
                        attr_views(attrs@) == self.attrs(),
                        i < attrs.len(),
                        views(words@) == ascii_words(self.attrs()[i as int].value),
                        self.attrs()[i as int].local == "class"@,
                        forall|k: int| 0 <= k < w ==> (#[trigger] words@[k])@ != search_name@,
                    decreases words.len() - w,
                {
                    if same_text(words[w], search_name) {
                        proof {
                            let found = class_names(self.attrs(), i + 1);
                            let at = class_names(self.attrs(), i as int).len() + w;
                            assert(views(words@)[w as int] == search_name@);
                            assert(found[at] == search_name@);
                            lemma_class_names_grow(
                                self.attrs(),
                                i + 1,
                                attrs@.len() as int,
                                search_name@,
                            );
                        }
                        return true;
                    }
                    w += 1;
                }
                proof {
                    let here = views(words@);
                    assert forall|k: int| 0 <= k < here.len() implies here[k]
                        != search_name@ by {
                        assert(here[k] == words@[k]@);
                    }
                }
            }
            i += 1;
        }
        false
    }

    /// The words of the `class` attributes of this node, in source order.
    /// Empty for a node that is not an element.
    pub fn each_class(&self) -> (classes: Vec<&'a str>)
        requires
            self.wf(),
        ensures
            views(classes@) == class_names(self.attrs(), self.attrs().len() as int),
    {
        let mut classes: Vec<&'a str> = Vec::new();
        let attrs = match self.element_attrs() {
            Some(attrs) => attrs,
            None => {
                assert(views(classes@) == Seq::<Seq<char>>::empty());
                return classes;
            },
        };
        let mut i: usize = 0;
        assert(views(classes@) == Seq::<Seq<char>>::empty());
        while i < attrs.len()
            invariant
                i <= attrs.len(),
                attr_views(attrs@) == self.attrs(),
                views(classes@) == class_names(self.attrs(), i as int),
            decreases attrs.len() - i,
        {
            let attr = &attrs[i];
            // make sure we only select class attributes
            if same_text(attr.local.as_str(), "class") {
                // split the class attribute
                let mut words = split_ascii_whitespace(attr.value.as_str());
                let ghost before = views(classes@);
                let ghost added = views(words@);
                classes.append(&mut words);
                assert(views(classes@) == before + added);
            }
            i += 1;
        }
        classes
    }

    /// The local names of the attributes of this node, in source order. Empty
    /// for a node that is not an element.
    pub fn each_attr_name(&self) -> (names: Vec<&'a str>)
        requires
            self.wf(),
        ensures
            views(names@) == attr_names(self.attrs()),
    {
        let mut names: Vec<&'a str> = Vec::new();
        let attrs = match self.element_attrs() {
            Some(attrs) => attrs,
            None => {
                assert(views(names@) == attr_names(self.attrs()));
                return names;
            },
        };
        let mut i: usize = 0;
        while i < attrs.len()
            invariant
                i <= attrs.len(),
                attr_views(attrs@) == self.attrs(),
                names@.len() == i,
                forall|k: int| 0 <= k < i ==> (#[trigger] names@[k])@ == self.attrs()[k].local,
            decreases attrs.len() - i,
        {
            names.push(attrs[i].local.as_str());
            i += 1;
        }
        assert(views(names@) == attr_names(self.attrs()));
        names
    }

    /// The value of the first `id` attribute of this node, if it has one. None
    /// for a node that is not an element.
    pub fn id(&self) -> (value: Option<&'a str>)
        requires
            self.wf(),
        ensures
            value is Some <==> first_id_at(self.attrs(), 0) < self.attrs().len(),
            value is Some ==> value->0@ == self.attrs()[first_id_at(self.attrs(), 0)].value,
    {
        let attrs = match self.element_attrs() {
            Some(attrs) => attrs,
            None => { return None; },
        };
        let mut i: usize = 0;
        while i < attrs.len()
            invariant
                i <= attrs.len(),
                attr_views(attrs@) == self.attrs(),
                first_id_at(self.attrs(), 0) == first_id_at(self.attrs(), i as int),
            decreases attrs.len() - i,
        {
            let attr = &attrs[i];
            if same_text(attr.local.as_str(), "id") {
                return Some(attr.value.as_str());
            }
            i += 1;
        }
        None
    }
}

} // verus!
