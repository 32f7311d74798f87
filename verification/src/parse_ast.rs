//! The block transformer: lowers one document tree node to exactly one
//! output entry, rendering inline content through the inline transformer,
//! recursing into child blocks, and flattening the children's entries.
use crate::anchor_disovery::AnchorIndex;
use crate::html::Element;
use crate::html::ElementChild;
use crate::html::ElementChildV;
use crate::html::ElementV;
use crate::html::Tag;
use crate::html::empty_elem;
use crate::html::with_attr;
use crate::html::with_child_v;
use crate::html_entry::HtmlEntry;
use crate::html_entry::HtmlEntryFlat;
use crate::html_entry::HtmlEntryFlatV;
use crate::html_entry::HtmlEntryV;
use crate::html_entry::entries_view;
use crate::html_entry::flats_view;
use crate::html_entry::html_entry_flatten;
use crate::html_entry::spec_flatten;
use crate::norg::FlatNode;
use crate::norg::NestKind;
use crate::norg::NorgNode;
use crate::norg::segs_supported;
use crate::norg::segs_supported_check;
use crate::outside::load_yaml_docs;
use crate::outside::yaml_docs_of;
use crate::parse_paragraph::lemma_parse_paragraph_frame;
use crate::parse_paragraph::parse_paragraph;
use crate::parse_paragraph::spec_parse_paragraph;
use crate::text::spec_digits;
use crate::text::spec_join_space;
use crate::text::spec_suffixed_classes;
use crate::text::strings_view;
use crate::text::join_space;
use crate::text::suffixed_classes;
use crate::text::u16_string;
use vstd::prelude::*;
use vstd::string::StringExecFns;

verus! {

/// True when the name of a verbatim tag block is exactly the two-segment
/// tag `document.meta`.
pub open spec fn is_document_meta(name: Seq<String>) -> bool {
    name.len() == 2 && name[0]@ == "document"@ && name[1]@ == "meta"@
}

/// True when the block transformer covers this node: paragraphs, list
/// containers whose text line is a plain paragraph, headings, and
/// `document.meta` verbatim blocks, with all inline content covered.
/// Quote containers, other verbatim tags, rangeable containers, carryover
/// and ranged and infirm tags, and delimiters fail fast.
pub open spec fn node_supported(n: NorgNode) -> bool
    decreases n,
{
    match n {
        NorgNode::Paragraph(v) => segs_supported(v@),
        NorgNode::NestableDetachedModifier { modifier_type, text, content, .. } => {
            &&& !(modifier_type is Quote)
            &&& match *text {
                FlatNode::Paragraph(s) => segs_supported(s@),
                _ => false,
            }
            &&& nodes_supported(content@)
        },
        NorgNode::Heading { title, content, .. } => segs_supported(title@) && nodes_supported(
            content@,
        ),
        NorgNode::VerbatimRangedTag { name, .. } => is_document_meta(name@),
        _ => false,
    }
}

/// True when the block transformer covers every node of the sequence.
pub open spec fn nodes_supported(s: Seq<NorgNode>) -> bool
    decreases s,
{
    s.len() == 0 || (node_supported(s.last()) && nodes_supported(s.drop_last()))
}

pub proof fn lemma_nodes_supported_index(s: Seq<NorgNode>)
    ensures
        nodes_supported(s) <==> (forall|i: int| 0 <= i < s.len() ==> node_supported(s[i])),
    decreases s.len(),
{
    if s.len() > 0 {
        lemma_nodes_supported_index(s.drop_last());
        assert(forall|i: int| 0 <= i < s.len() - 1 ==> s.drop_last()[i] == s[i]);
        assert(s.last() == s[s.len() - 1]);
    }
}

/// The structural heading tag for levels one through six; any other level
/// falls back to the plain paragraph tag.
pub open spec fn heading_tag(level: u16) -> Tag {
    if level == 1 {
        Tag::Heading1
    } else if level == 2 {
        Tag::Heading2
    } else if level == 3 {
        Tag::Heading3
    } else if level == 4 {
        Tag::Heading4
    } else if level == 5 {
        Tag::Heading5
    } else if level == 6 {
        Tag::Heading6
    } else {
        Tag::ParagraphText
    }
}

fn heading_tag_exec(level: u16) -> (r: Tag)
    ensures
        r == heading_tag(level),
{
    if level == 1 {
        Tag::Heading1
    } else if level == 2 {
        Tag::Heading2
    } else if level == 3 {
        Tag::Heading3
    } else if level == 4 {
        Tag::Heading4
    } else if level == 5 {
        Tag::Heading5
    } else if level == 6 {
        Tag::Heading6
    } else {
        Tag::ParagraphText
    }
}

/// Every flattened body element appended as a child of the element, in
/// order; metadata entries among the flattened children are dropped.
pub open spec fn append_mains(e: ElementV, flat: Seq<HtmlEntryFlatV>) -> ElementV
    decreases flat.len(),
{
    if flat.len() == 0 {
        e
    } else {
        let stepped = match flat.first() {
            HtmlEntryFlatV::Main(el) => with_child_v(e, ElementChildV::Element(el)),
            _ => e,
        };
        append_mains(stepped, flat.drop_first())
    }
}

/// The entries of a node sequence, one entry per node, in order.
pub open spec fn spec_parse_children(
    prefixes: Seq<Seq<char>>,
    nodes: Seq<NorgNode>,
    anchors: Map<Seq<char>, Seq<char>>,
) -> Seq<HtmlEntryV>
    decreases nodes,
{
    if nodes.len() == 0 {
        Seq::empty()
    } else {
        spec_parse_children(prefixes, nodes.drop_last(), anchors).push(
            spec_parse_ast(prefixes, nodes.last(), anchors),
        )
    }
}

/// The block transform: exactly one output entry per node. A paragraph
/// becomes a body entry holding a paragraph element; a list container
/// becomes a list-item entry holding its rendered text line with its
/// flattened children appended; a heading becomes a body entry holding a
/// wrapper that carries the classed, level-tagged title element followed
/// by the flattened children; a `document.meta` verbatim block becomes a
/// metadata entry when its content parses and an empty entry otherwise.
pub open spec fn spec_parse_ast(
    prefixes: Seq<Seq<char>>,
    node: NorgNode,
    anchors: Map<Seq<char>, Seq<char>>,
) -> HtmlEntryV
    decreases node,
{
    match node {
        NorgNode::Paragraph(v) => HtmlEntryV::Main(
            spec_parse_paragraph(prefixes, v@, empty_elem(Tag::ParagraphText), anchors),
        ),
        NorgNode::NestableDetachedModifier { modifier_type, text, content, .. } => {
            let segs = match *text {
                FlatNode::Paragraph(s) => s@,
                _ => Seq::empty(),
            };
            let main = spec_parse_paragraph(prefixes, segs, empty_elem(Tag::ListElement), anchors);
            let flat = spec_flatten(spec_parse_children(prefixes, content@, anchors));
            let filled = append_mains(main, flat);
            match modifier_type {
                NestKind::UnorderedList => HtmlEntryV::UnorderedList(filled),
                NestKind::OrderedList => HtmlEntryV::OrderedList(filled),
                NestKind::Quote => HtmlEntryV::Empty,
            }
        },
        NorgNode::Heading { level, title, content } => {
            let classes = spec_suffixed_classes(
                prefixes,
                "-header-"@ + spec_digits(level as nat),
            );
            let header0 = with_attr(
                empty_elem(heading_tag(level)),
                "class"@,
                spec_join_space(classes),
            );
            let header = spec_parse_paragraph(classes, title@, header0, anchors);
            let flat = spec_flatten(spec_parse_children(prefixes, content@, anchors));
            HtmlEntryV::Main(
                append_mains(
                    with_child_v(empty_elem(Tag::Div), ElementChildV::Element(header)),
                    flat,
                ),
            )
        },
        NorgNode::VerbatimRangedTag { name, content } => {
            if is_document_meta(name@) {
                match yaml_docs_of(content@) {
                    Some(docs) => if docs.len() > 0 {
                        HtmlEntryV::Metadata(docs[0])
                    } else {
                        HtmlEntryV::Empty
                    },
                    None => HtmlEntryV::Empty,
                }
            } else {
                HtmlEntryV::Empty
            }
        },
        _ => HtmlEntryV::Empty,
    }
}

/// Transforms every child node and flattens the resulting entries.
#[verifier::loop_isolation(false)]
pub(crate) fn parse_children(
    class_prefixes: &Vec<String>,
    mut nodes: Vec<NorgNode>,
    anchors: &AnchorIndex,
) -> (r: Vec<HtmlEntryFlat>)
    requires
        nodes_supported(nodes@),
    ensures
        flats_view(r@) == spec_flatten(
            spec_parse_children(strings_view(class_prefixes@), nodes@, anchors@),
        ),
    decreases nodes,
{
    proof {
        lemma_nodes_supported_index(nodes@);
    }
    let ghost pv = strings_view(class_prefixes@);
    let ghost kids = nodes@;
    let ghost nodes0 = nodes;
    let mut entries: Vec<HtmlEntry> = Vec::new();
    while nodes.len() > 0
        invariant
            nodes@.len() <= kids.len(),
            nodes@ =~= kids.skip(kids.len() - nodes@.len()),
            forall|i: int| 0 <= i < kids.len() ==> node_supported(kids[i]),
            pv == strings_view(class_prefixes@),
            entries_view(entries@) == spec_parse_children(
                pv,
                kids.take(kids.len() - nodes@.len()),
                anchors@,
            ),
            decreases_to!(nodes0 => kids),
        decreases nodes@.len(),
    {
        let ghost j = kids.len() - nodes@.len();
        let child = nodes.remove(0);
        proof {
            assert(child == kids[j]);
            assert(nodes@ =~= kids.skip(j + 1));
            assert(decreases_to!(kids => kids[j]));
            assert(decreases_to!(nodes0 => kids[j]));
        }
        let entry = parse_ast(class_prefixes, child, anchors);
        entries.push(entry);
        proof {
            let cur = kids.take(j + 1);
            assert(cur.drop_last() =~= kids.take(j));
            assert(cur.last() == kids[j]);
            assert(entries_view(entries@) =~~= spec_parse_children(pv, cur, anchors@));
            assert(kids.len() - nodes@.len() == j + 1);
        }
    }
    proof {
        assert(kids.take(kids.len() as int) =~= kids);
    }
    html_entry_flatten(entries)
}

/// Appends every flattened body element as a child of the element, in
/// order, dropping metadata entries.
fn append_main_children(element: Element, flat: Vec<HtmlEntryFlat>) -> (r: Element)
    ensures
        r@ == append_mains(element@, flats_view(flat@)),
{
    let ghost whole = append_mains(element@, flats_view(flat@));
    let mut html = element;
    let mut rest = flat;
    while rest.len() > 0
        invariant
            append_mains(html@, flats_view(rest@)) == whole,
        decreases rest.len(),
    {
        let ghost pre = flats_view(rest@);
        let e = rest.remove(0);
        proof {
            assert(flats_view(rest@) =~~= pre.drop_first());
            assert(e@ == pre.first());
        }
        match e {
            HtmlEntryFlat::Main(el) => {
                html.add_child(ElementChild::Element(el));
            },
            HtmlEntryFlat::Metadata(_) => {},
        }
    }
    proof {
        assert(flats_view(rest@) =~~= Seq::<HtmlEntryFlatV>::empty());
    }
    html
}

/// Lowers one document tree node to exactly one output entry.
pub fn parse_ast(class_prefixes: &Vec<String>, ast: NorgNode, anchors: &AnchorIndex) -> (r:
    HtmlEntry)
    requires
        node_supported(ast),
    ensures
        r@ == spec_parse_ast(strings_view(class_prefixes@), ast, anchors@),
    decreases ast,
{
    let ghost pv = strings_view(class_prefixes@);
    match ast {
        NorgNode::Paragraph(v) => HtmlEntry::Main(
            parse_paragraph(class_prefixes, &v, Element::new(Tag::ParagraphText), anchors),
        ),
        NorgNode::NestableDetachedModifier { modifier_type, level: _, text, content } => {
            let segs = match *text {
                FlatNode::Paragraph(s) => s,
                _ => {
                    proof {
                        assert(false);
                    }
                    Vec::new()
                },
            };
            let main = parse_paragraph(class_prefixes, &segs, Element::new(Tag::ListElement), anchors);
            let flat = parse_children(class_prefixes, content, anchors);
            let filled = append_main_children(main, flat);
            match modifier_type {
                NestKind::UnorderedList => HtmlEntry::UnorderedList(filled),
                NestKind::OrderedList => HtmlEntry::OrderedList(filled),
                NestKind::Quote => {
                    proof {
                        assert(false);
                    }
                    HtmlEntry::Empty
                },
            }
        },
        NorgNode::Heading { level, title, content } => {
            let level_str = u16_string(level);
            let tail = String::from_str("-header-").concat(level_str.as_str());
            let classes = suffixed_classes(class_prefixes, tail.as_str());
            let joined = join_space(&classes);
            let header0 = Element::new(heading_tag_exec(level)).with_attribute("class", joined);
            let header = parse_paragraph(&classes, &title, header0, anchors);
            let flat = parse_children(class_prefixes, content, anchors);
            let wrapper = Element::new(Tag::Div).with_child(ElementChild::Element(header));
            HtmlEntry::Main(append_main_children(wrapper, flat))
        },
        NorgNode::VerbatimRangedTag { name, content } => {
            if name.len() == 2 && name[0] == String::from_str("document") && name[1]
                == String::from_str("meta") {
                match load_yaml_docs(content.as_str()) {
                    Some(mut docs) => {
                        if docs.len() > 0 {
                            let first = docs.remove(0);
                            HtmlEntry::Metadata(first)
                        } else {
                            HtmlEntry::Empty
                        }
                    },
                    None => HtmlEntry::Empty,
                }
            } else {
                proof {
                    assert(false);
                }
                HtmlEntry::Empty
            }
        },
        _ => {
            proof {
                assert(false);
            }
            HtmlEntry::Empty
        },
    }
}

proof fn lemma_append_mains_frame(e: ElementV, flat: Seq<HtmlEntryFlatV>)
    ensures
        append_mains(e, flat).tag == e.tag,
        append_mains(e, flat).attributes == e.attributes,
        append_mains(e, flat).children.len() >= e.children.len(),
        forall|i: int|
            0 <= i < e.children.len() ==> append_mains(e, flat).children[i] == e.children[i],
    decreases flat.len(),
{
    if flat.len() > 0 {
        match flat.first() {
            HtmlEntryFlatV::Main(el) => {
                let grown = with_child_v(e, ElementChildV::Element(el));
                lemma_append_mains_frame(grown, flat.drop_first());
                assert(forall|i: int|
                    0 <= i < e.children.len() ==> grown.children[i] == e.children[i]);
            },
            _ => {
                lemma_append_mains_frame(e, flat.drop_first());
            },
        }
    }
}

/// A heading at a level outside the structural one-to-six range renders
/// its title with the fallback plain-paragraph tag — a documented edge
/// case, not an error.
pub proof fn lemma_heading_fallback(
    prefixes: Seq<Seq<char>>,
    node: NorgNode,
    anchors: Map<Seq<char>, Seq<char>>,
)
    requires
        node matches NorgNode::Heading { level, .. } && !(1 <= level <= 6),
    ensures
        ({
            &&& spec_parse_ast(prefixes, node, anchors) matches HtmlEntryV::Main(div)
            &&& div.children.len() >= 1
            &&& div.children[0] matches ElementChildV::Element(h)
            &&& h.tag == Tag::ParagraphText
        }),
{
    match node {
        NorgNode::Heading { level, title, content } => {
            let classes = spec_suffixed_classes(
                prefixes,
                "-header-"@ + spec_digits(level as nat),
            );
            let header0 = with_attr(
                empty_elem(heading_tag(level)),
                "class"@,
                spec_join_space(classes),
            );
            lemma_parse_paragraph_frame(classes, title@, header0, anchors);
            let header = spec_parse_paragraph(classes, title@, header0, anchors);
            let wrapper = with_child_v(empty_elem(Tag::Div), ElementChildV::Element(header));
            let flat = spec_flatten(spec_parse_children(prefixes, content@, anchors));
            lemma_append_mains_frame(wrapper, flat);
            assert(wrapper.children[0] == ElementChildV::Element(header));
        },
        _ => {},
    }
}

/// Decides whether the block transformer covers this node.
#[verifier::loop_isolation(false)]
pub fn node_supported_check(n: &NorgNode) -> (r: bool)
    ensures
        r == node_supported(*n),
    decreases *n,
{
    match n {
        NorgNode::Paragraph(v) => segs_supported_check(v),
        NorgNode::NestableDetachedModifier { modifier_type, text, content, .. } => {
            let kind_ok = match modifier_type {
                NestKind::Quote => false,
                _ => true,
            };
            let text_ok = match &**text {
                FlatNode::Paragraph(s) => segs_supported_check(s),
                _ => false,
            };
            kind_ok && text_ok && nodes_supported_check(content)
        },
        NorgNode::Heading { title, content, .. } => {
            let title_ok = segs_supported_check(title);
            title_ok && nodes_supported_check(content)
        },
        NorgNode::VerbatimRangedTag { name, .. } => {
            name.len() == 2 && name[0] == String::from_str("document") && name[1]
                == String::from_str("meta")
        },
        _ => false,
    }
}

/// Decides whether the block transformer covers every node.
#[verifier::loop_isolation(false)]
pub fn nodes_supported_check(s: &Vec<NorgNode>) -> (r: bool)
    ensures
        r == nodes_supported(s@),
    decreases *s,
{
    proof {
        lemma_nodes_supported_index(s@);
    }
    let mut i: usize = 0;
    while i < s.len()
        invariant
            i <= s@.len(),
            forall|j: int| 0 <= j < i ==> node_supported(s@[j]),
        decreases s@.len() - i,
    {
        proof {
            assert(decreases_to!(s@ => s@[i as int]));
        }
        if !node_supported_check(&s[i]) {
            return false;
        }
        i += 1;
    }
    true
}

} // verus!
