//! The inline transformer: folds an ordered sequence of inline segments
//! into a container element, appending one child per segment in input
//! order, consulting the anchor index for anchor destinations.
use crate::anchor_disovery::AnchorIndex;
use crate::anchor_disovery::anchor_identifier;
use crate::anchor_disovery::lemma_pairs_map_domain;
use crate::anchor_disovery::pairs_map;
use crate::html::Element;
use crate::html::ElementChild;
use crate::html::ElementChildV;
use crate::html::ElementV;
use crate::html::Tag;
use crate::html::empty_elem;
use crate::html::with_attr;
use crate::html::with_child_v;
use crate::norg::Segment;
use crate::norg::Token;
use crate::norg::lemma_all_tokens_supported;
use crate::norg::lemma_segs_supported_index;
use crate::norg::modifier_supported;
use crate::norg::seg_supported;
use crate::norg::segs_supported;
use crate::norg::spec_anchor_identifier;
use crate::norg::token_text;
use crate::text::join_space;
use crate::text::push_char;
use crate::text::spec_join_space;
use crate::text::spec_suffixed_classes;
use crate::text::strings_view;
use crate::text::suffixed_classes;
use vstd::prelude::*;

verus! {

/// The class tail a formatting-span modifier character maps to: a hyphen
/// followed by the semantic suffix of the modifier.
pub open spec fn modifier_tail(c: char) -> Seq<char> {
    if c == '*' {
        "-bold"@
    } else if c == '/' {
        "-italics"@
    } else if c == '_' {
        "-underline"@
    } else if c == '-' {
        "-strikethrough"@
    } else if c == '^' {
        "-superscript"@
    } else if c == ',' {
        "-subscript"@
    } else if c == '!' {
        "-spoiler"@
    } else if c == '%' {
        "-comment"@
    } else {
        Seq::empty()
    }
}

fn modifier_tail_exec(c: char) -> (r: &'static str)
    requires
        modifier_supported(c),
    ensures
        r@ == modifier_tail(c),
{
    if c == '*' {
        "-bold"
    } else if c == '/' {
        "-italics"
    } else if c == '_' {
        "-underline"
    } else if c == '-' {
        "-strikethrough"
    } else if c == '^' {
        "-superscript"
    } else if c == ',' {
        "-subscript"
    } else if c == '!' {
        "-spoiler"
    } else {
        "-comment"
    }
}

/// The link element an anchor renders into, before its content is
/// appended: its destination attribute is set exactly when the anchor's
/// identifier is in the index, to the indexed target.
pub open spec fn anchor_elem_base(id: Seq<char>, anchors: Map<Seq<char>, Seq<char>>) -> ElementV {
    if anchors.contains_key(id) {
        with_attr(empty_elem(Tag::Link), "href"@, anchors[id])
    } else {
        empty_elem(Tag::Link)
    }
}

/// The one child a single segment appends: a literal token appends its
/// text; a formatting span appends a classed inline container holding its
/// recursively rendered content under the extended class scope; an anchor
/// appends a link element (resolved through the index) holding its
/// rendered name under the unchanged class scope.
pub open spec fn spec_segment_child(
    prefixes: Seq<Seq<char>>,
    seg: Segment,
    anchors: Map<Seq<char>, Seq<char>>,
) -> ElementChildV
    decreases seg,
{
    match seg {
        Segment::Token(t) => ElementChildV::Text(token_text(t)),
        Segment::AttachedModifier { modifier_type, content } => {
            let classes = spec_suffixed_classes(prefixes, modifier_tail(modifier_type));
            ElementChildV::Element(
                spec_parse_paragraph(
                    classes,
                    content@,
                    with_attr(empty_elem(Tag::Span), "class"@, spec_join_space(classes)),
                    anchors,
                ),
            )
        },
        Segment::AnchorDefinition { content, .. } => ElementChildV::Element(
            spec_parse_paragraph(
                prefixes,
                content@,
                anchor_elem_base(spec_anchor_identifier(content@), anchors),
                anchors,
            ),
        ),
        Segment::Anchor { content } => ElementChildV::Element(
            spec_parse_paragraph(
                prefixes,
                content@,
                anchor_elem_base(spec_anchor_identifier(content@), anchors),
                anchors,
            ),
        ),
        _ => ElementChildV::Text(Seq::empty()),
    }
}

/// The inline transform: every segment appended to the container as one
/// child, in input order.
pub open spec fn spec_parse_paragraph(
    prefixes: Seq<Seq<char>>,
    segs: Seq<Segment>,
    container: ElementV,
    anchors: Map<Seq<char>, Seq<char>>,
) -> ElementV
    decreases segs,
{
    if segs.len() == 0 {
        container
    } else {
        spec_parse_paragraph(
            prefixes,
            segs.drop_first(),
            with_child_v(container, spec_segment_child(prefixes, segs.first(), anchors)),
            anchors,
        )
    }
}

/// Renders a segment sequence into the container element, child by child,
/// in input order.
pub fn parse_paragraph(
    class_prefixes: &Vec<String>,
    segments: &Vec<Segment>,
    container_element: Element,
    anchors: &AnchorIndex,
) -> (r: Element)
    requires
        segs_supported(segments@),
    ensures
        r@ == spec_parse_paragraph(
            strings_view(class_prefixes@),
            segments@,
            container_element@,
            anchors@,
        ),
    decreases *segments,
{
    proof {
        lemma_segs_supported_index(segments@);
    }
    let ghost pv = strings_view(class_prefixes@);
    let ghost whole = spec_parse_paragraph(pv, segments@, container_element@, anchors@);
    let mut html = container_element;
    let mut i: usize = 0;
    proof {
        assert(segments@.skip(0) =~= segments@);
    }
    while i < segments.len()
        invariant
            i <= segments.len(),
            segs_supported(segments@),
            forall|j: int| 0 <= j < segments@.len() ==> seg_supported(segments@[j]),
            pv == strings_view(class_prefixes@),
            spec_parse_paragraph(pv, segments@.skip(i as int), html@, anchors@) == whole,
        decreases segments.len() - i,
    {
        let ghost remaining = segments@.skip(i as int);
        let ghost pre_html = html@;
        proof {
            assert(remaining.first() == segments@[i as int]);
            assert(remaining.drop_first() =~= segments@.skip(i + 1 as int));
        }
        match &segments[i] {
            Segment::Token(t) => {
                match t {
                    Token::Text(s) => {
                        html.add_child(ElementChild::Text(s.clone()));
                    },
                    Token::Whitespace => {
                        let mut ws = String::new();
                        push_char(&mut ws, ' ');
                        proof {
                            assert(ws@ =~= seq![' ']);
                        }
                        html.add_child(ElementChild::Text(ws));
                    },
                    Token::Special(c) => {
                        let mut t1 = String::new();
                        push_char(&mut t1, *c);
                        proof {
                            assert(t1@ =~= seq![*c]);
                        }
                        html.add_child(ElementChild::Text(t1));
                    },
                    Token::Escape(c) => {
                        let mut t1 = String::new();
                        push_char(&mut t1, *c);
                        proof {
                            assert(t1@ =~= seq![*c]);
                        }
                        html.add_child(ElementChild::Text(t1));
                    },
                }
            },
            Segment::AttachedModifier { modifier_type, content } => {
                let tail = modifier_tail_exec(*modifier_type);
                let classes = suffixed_classes(class_prefixes, tail);
                let joined = join_space(&classes);
                let span = Element::new(Tag::Span).with_attribute("class", joined);
                proof {
                    assert(decreases_to!(*segments => *content));
                }
                let child = parse_paragraph(&classes, content, span, anchors);
                html.add_child(ElementChild::Element(child));
            },
            Segment::AnchorDefinition { content, .. } => {
                proof {
                    lemma_all_tokens_supported(content@);
                }
                let id = anchor_identifier(content);
                let mut element = Element::new(Tag::Link);
                match anchors.get(&id) {
                    Some(target) => {
                        element.add_attribute("href", target.clone());
                    },
                    None => {},
                }
                proof {
                    assert(element@ == anchor_elem_base(spec_anchor_identifier(content@), anchors@));
                    assert(decreases_to!(*segments => *content));
                }
                let child = parse_paragraph(class_prefixes, content, element, anchors);
                html.add_child(ElementChild::Element(child));
            },
            Segment::Anchor { content } => {
                proof {
                    lemma_all_tokens_supported(content@);
                }
                let id = anchor_identifier(content);
                let mut element = Element::new(Tag::Link);
                match anchors.get(&id) {
                    Some(target) => {
                        element.add_attribute("href", target.clone());
                    },
                    None => {},
                }
                proof {
                    assert(element@ == anchor_elem_base(spec_anchor_identifier(content@), anchors@));
                    assert(decreases_to!(*segments => *content));
                }
                let child = parse_paragraph(class_prefixes, content, element, anchors);
                html.add_child(ElementChild::Element(child));
            },
            _ => {
                proof {
                    assert(false);
                }
            },
        }
        proof {
            assert(html@ == with_child_v(
                pre_html,
                spec_segment_child(pv, remaining.first(), anchors@),
            ));
            assert(spec_parse_paragraph(pv, segments@.skip(i + 1 as int), html@, anchors@)
                == whole);
        }
        i += 1;
    }
    proof {
        assert(segments@.skip(segments@.len() as int) =~= Seq::<Segment>::empty());
    }
    html
}

/// The inline transform only appends children: the container's tag and
/// attribute list come through unchanged.
pub proof fn lemma_parse_paragraph_frame(
    prefixes: Seq<Seq<char>>,
    segs: Seq<Segment>,
    container: ElementV,
    anchors: Map<Seq<char>, Seq<char>>,
)
    ensures
        spec_parse_paragraph(prefixes, segs, container, anchors).tag == container.tag,
        spec_parse_paragraph(prefixes, segs, container, anchors).attributes
            == container.attributes,
        spec_parse_paragraph(prefixes, segs, container, anchors).children.len()
            >= container.children.len(),
        forall|i: int|
            0 <= i < container.children.len() ==> spec_parse_paragraph(
                prefixes,
                segs,
                container,
                anchors,
            ).children[i] == container.children[i],
    decreases segs,
{
    if segs.len() > 0 {
        let grown = with_child_v(container, spec_segment_child(prefixes, segs.first(), anchors));
        lemma_parse_paragraph_frame(prefixes, segs.drop_first(), grown, anchors);
        assert(forall|i: int|
            0 <= i < container.children.len() ==> grown.children[i] == container.children[i]);
    }
}

/// In a document with no anchor definitions the index is empty, and every
/// anchor reference renders as a link element with no destination
/// attribute set.
pub proof fn lemma_unresolved_anchor(
    prefixes: Seq<Seq<char>>,
    seg: Segment,
    anchors: Map<Seq<char>, Seq<char>>,
)
    requires
        anchors == Map::<Seq<char>, Seq<char>>::empty(),
        seg matches Segment::Anchor { .. } || seg matches Segment::AnchorDefinition { .. },
    ensures
        (spec_segment_child(prefixes, seg, anchors) matches ElementChildV::Element(e)
            && e.tag == Tag::Link && e.attributes == Seq::<(Seq<char>, Seq<char>)>::empty()),
{
    match seg {
        Segment::Anchor { content } => {
            let base = anchor_elem_base(spec_anchor_identifier(content@), anchors);
            lemma_parse_paragraph_frame(prefixes, content@, base, anchors);
        },
        Segment::AnchorDefinition { content, .. } => {
            let base = anchor_elem_base(spec_anchor_identifier(content@), anchors);
            lemma_parse_paragraph_frame(prefixes, content@, base, anchors);
        },
        _ => {},
    }
}

/// An anchor resolves exactly when its identifier — the exact, case- and
/// whitespace-sensitive concatenation of its literal content — equals the
/// identifier of some collected definition pair; its destination is then
/// the stored target the index holds for that identifier.
pub proof fn lemma_anchor_resolution(
    content: Seq<Segment>,
    pairs: Seq<(Seq<char>, Seq<char>)>,
)
    ensures
        ({
            let id = spec_anchor_identifier(content);
            let base = anchor_elem_base(id, pairs_map(pairs));
            &&& ((exists|i: int| 0 <= i < pairs.len() && (#[trigger] pairs[i]).0 == id)
                ==> base.attributes == seq![("href"@, pairs_map(pairs)[id])])
            &&& (!(exists|i: int| 0 <= i < pairs.len() && (#[trigger] pairs[i]).0 == id)
                ==> base.attributes == Seq::<(Seq<char>, Seq<char>)>::empty())
        }),
{
    let id = spec_anchor_identifier(content);
    lemma_pairs_map_domain(pairs, id);
    if pairs_map(pairs).contains_key(id) {
        assert(anchor_elem_base(id, pairs_map(pairs)).attributes =~= seq![
            ("href"@, pairs_map(pairs)[id]),
        ]);
    }
}

} // verus!
