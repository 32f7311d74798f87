//! The output element tree the renderer produces: a tag, an ordered
//! attribute list, and an ordered child list (elements or raw text),
//! together with its mathematical view.
use vstd::prelude::*;

verus! {

/// The fixed set of output tags the renderer emits.
#[derive(Debug, Clone, Copy, PartialEq, Eq, Structural)]
pub enum Tag {
    Heading1,
    Heading2,
    Heading3,
    Heading4,
    Heading5,
    Heading6,
    ParagraphText,
    Span,
    Link,
    ListElement,
    UnorderedList,
    OrderedList,
    Div,
}

/// A structured output element: tag, ordered attributes, ordered children.
#[derive(Debug, PartialEq, Eq)]
pub struct Element {
    pub tag: Tag,
    pub attributes: Vec<(String, String)>,
    pub children: Vec<ElementChild>,
}

/// One child of an element: a nested element or a raw text run.
#[derive(Debug, PartialEq, Eq)]
pub enum ElementChild {
    Element(Element),
    Text(String),
}

/// The mathematical view of an output element.
#[verifier::ext_equal]
pub struct ElementV {
    pub tag: Tag,
    pub attributes: Seq<(Seq<char>, Seq<char>)>,
    pub children: Seq<ElementChildV>,
}

/// The mathematical view of one child.
#[verifier::ext_equal]
pub enum ElementChildV {
    Element(ElementV),
    Text(Seq<char>),
}

/// The views of an attribute list.
pub open spec fn attrs_view(a: Seq<(String, String)>) -> Seq<(Seq<char>, Seq<char>)> {
    a.map_values(|p: (String, String)| (p.0@, p.1@))
}

/// The view of an element.
pub open spec fn elem_view(e: Element) -> ElementV
    decreases e,
{
    ElementV {
        tag: e.tag,
        attributes: attrs_view(e.attributes@),
        children: children_view(e.children@),
    }
}

/// The views of a child list, in order.
pub open spec fn children_view(cs: Seq<ElementChild>) -> Seq<ElementChildV>
    decreases cs,
{
    if cs.len() == 0 {
        Seq::empty()
    } else {
        children_view(cs.drop_last()).push(child_view(cs.last()))
    }
}

/// The view of one child.
pub open spec fn child_view(c: ElementChild) -> ElementChildV
    decreases c,
{
    match c {
        ElementChild::Element(e) => ElementChildV::Element(elem_view(e)),
        ElementChild::Text(s) => ElementChildV::Text(s@),
    }
}

impl View for Element {
    type V = ElementV;

    open spec fn view(&self) -> ElementV {
        elem_view(*self)
    }
}

impl View for ElementChild {
    type V = ElementChildV;

    open spec fn view(&self) -> ElementChildV {
        child_view(*self)
    }
}

/// The view of an element with no attributes and no children yet.
pub open spec fn empty_elem(tag: Tag) -> ElementV {
    ElementV { tag, attributes: Seq::empty(), children: Seq::empty() }
}

/// The view of an element after one more attribute.
pub open spec fn with_attr(e: ElementV, k: Seq<char>, v: Seq<char>) -> ElementV {
    ElementV { attributes: e.attributes.push((k, v)), ..e }
}

/// The view of an element after one more child.
pub open spec fn with_child_v(e: ElementV, c: ElementChildV) -> ElementV {
    ElementV { children: e.children.push(c), ..e }
}

impl Element {
    /// A fresh element with the given tag, no attributes, no children.
    pub fn new(tag: Tag) -> (r: Self)
        ensures
            r@ == empty_elem(tag),
    {
        let r = Element { tag, attributes: Vec::new(), children: Vec::new() };
        proof {
            assert(attrs_view(r.attributes@) =~= Seq::<(Seq<char>, Seq<char>)>::empty());
            assert(r@ =~~= empty_elem(tag));
        }
        r
    }

    /// Appends one attribute, keeping the order of earlier ones.
    pub fn add_attribute(&mut self, k: &str, v: String)
        ensures
            final(self)@ == with_attr(old(self)@, k@, v@),
    {
        let ghost pre = self.attributes@;
        let ghost vv = v@;
        self.attributes.push((k.to_owned(), v));
        proof {
            assert(attrs_view(self.attributes@) =~= attrs_view(pre).push((k@, vv)));
            assert(self@ =~~= with_attr(ElementV {
                tag: self.tag,
                attributes: attrs_view(pre),
                children: children_view(self.children@),
            }, k@, vv));
        }
    }

    /// Appends one attribute and returns the element.
    pub fn with_attribute(self, k: &str, v: String) -> (r: Self)
        ensures
            r@ == with_attr(self@, k@, v@),
    {
        let mut e = self;
        e.add_attribute(k, v);
        e
    }

    /// Appends one child, keeping the order of earlier ones.
    pub fn add_child(&mut self, c: ElementChild)
        ensures
            final(self)@ == with_child_v(old(self)@, c@),
    {
        let ghost pre = self.children@;
        let ghost cv = c@;
        self.children.push(c);
        proof {
            assert(self.children@.drop_last() =~= pre);
            assert(children_view(self.children@) =~= children_view(pre).push(cv));
            assert(self@ =~~= with_child_v(ElementV {
                tag: self.tag,
                attributes: attrs_view(self.attributes@),
                children: children_view(pre),
            }, cv));
        }
    }

    /// Appends one child and returns the element.
    pub fn with_child(self, c: ElementChild) -> (r: Self)
        ensures
            r@ == with_child_v(self@, c@),
    {
        let mut e = self;
        e.add_child(c);
        e
    }
}

} // verus!
