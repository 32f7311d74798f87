use norg_html::anchor_disovery::AnchorIndex;
use norg_html::anchor_disovery::anchor_disovery;
use norg_html::anchor_disovery::anchor_identifier;
use norg_html::build_html;
use norg_html::document_supported;
use norg_html::html::Element;
use norg_html::html::ElementChild;
use norg_html::html::Tag;
use norg_html::html_entry::HtmlEntry;
use norg_html::html_entry::HtmlEntryFlat;
use norg_html::html_entry::html_entry_flatten;
use norg_html::norg::FlatNode;
use norg_html::norg::NestKind;
use norg_html::norg::NorgNode;
use norg_html::norg::Segment;
use norg_html::norg::Token;
use norg_html::parse_ast::parse_ast;
use norg_html::parse_paragraph::parse_paragraph;
use norg_html::text::strip_dollars;
use norg_html::text::u16_string;
use yaml_rust2::yaml::Yaml;
use yaml_rust2::yaml::YamlLoader;

fn text(s: &str) -> Segment {
    Segment::Token(Token::Text(s.to_string()))
}

fn prefixes() -> Vec<String> {
    vec!["norg".to_string()]
}

fn empty_index() -> AnchorIndex {
    AnchorIndex::from_pairs(Vec::new())
}

fn item(label: &str) -> Element {
    Element::new(Tag::ListElement).with_child(ElementChild::Text(label.to_string()))
}

#[test]
fn anchor_identifier_concatenates_literally() {
    let segs = vec![
        text("docs"),
        Segment::Token(Token::Whitespace),
        Segment::Token(Token::Special('!')),
        Segment::Token(Token::Escape('x')),
    ];
    assert_eq!(anchor_identifier(&segs), "docs !x");
}

#[test]
fn strip_dollars_removes_every_escape() {
    assert_eq!(strip_dollars("$docs/guide"), "docs/guide");
    assert_eq!(strip_dollars("a$b$c$"), "abc");
    assert_eq!(strip_dollars("plain"), "plain");
}

#[test]
fn u16_string_renders_decimal() {
    assert_eq!(u16_string(0), "0");
    assert_eq!(u16_string(7), "7");
    assert_eq!(u16_string(42), "42");
    assert_eq!(u16_string(65535), "65535");
}

fn para(label: &str) -> Element {
    Element::new(Tag::ParagraphText).with_child(ElementChild::Text(label.to_string()))
}

#[test]
fn flatten_keeps_flat_input() {
    let y = YamlLoader::load_from_str("k: v").unwrap().remove(0);
    let entries = vec![
        HtmlEntry::Main(para("x")),
        HtmlEntry::Empty,
        HtmlEntry::Metadata(y.clone()),
    ];
    let flat = html_entry_flatten(entries);
    assert_eq!(flat.len(), 2);
    assert_eq!(flat[0], HtmlEntryFlat::Main(para("x")));
    assert_eq!(flat[1], HtmlEntryFlat::Metadata(y));
}

#[test]
fn flatten_collapses_unordered_run() {
    let entries = vec![
        HtmlEntry::UnorderedList(item("a")),
        HtmlEntry::UnorderedList(item("b")),
        HtmlEntry::UnorderedList(item("c")),
    ];
    let flat = html_entry_flatten(entries);
    assert_eq!(flat.len(), 1);
    match &flat[0] {
        HtmlEntryFlat::Main(ul) => {
            assert_eq!(ul.tag, Tag::UnorderedList);
            assert_eq!(ul.children.len(), 3);
            assert_eq!(ul.children[0], ElementChild::Element(item("a")));
            assert_eq!(ul.children[1], ElementChild::Element(item("b")));
            assert_eq!(ul.children[2], ElementChild::Element(item("c")));
        },
        other => panic!("expected a body entry, got {:?}", other),
    }
}

#[test]
fn flatten_collapses_ordered_run() {
    let entries = vec![
        HtmlEntry::OrderedList(item("a")),
        HtmlEntry::OrderedList(item("b")),
    ];
    let flat = html_entry_flatten(entries);
    assert_eq!(flat.len(), 1);
    match &flat[0] {
        HtmlEntryFlat::Main(ol) => {
            assert_eq!(ol.tag, Tag::OrderedList);
            assert_eq!(ol.children.len(), 2);
            assert_eq!(ol.children[0], ElementChild::Element(item("a")));
            assert_eq!(ol.children[1], ElementChild::Element(item("b")));
        },
        other => panic!("expected a body entry, got {:?}", other),
    }
}

#[test]
fn definition_renders_as_link_to_its_own_target() {
    let ast = vec![NorgNode::Paragraph(vec![Segment::AnchorDefinition {
        content: vec![text("home")],
        target: Box::new(Segment::Link { filepath: Some("/index.html".to_string()) }),
    }])];
    assert!(document_supported(&ast));
    let out = build_html(ast);
    assert!(out.html.contains("<a href=\"/index.html\">home</a>"));
}

#[test]
fn flatten_never_merges_across_kinds() {
    let entries = vec![
        HtmlEntry::UnorderedList(item("a")),
        HtmlEntry::OrderedList(item("b")),
        HtmlEntry::UnorderedList(item("c")),
    ];
    let flat = html_entry_flatten(entries);
    assert_eq!(flat.len(), 3);
    let tags: Vec<Tag> = flat
        .iter()
        .map(|e| match e {
            HtmlEntryFlat::Main(el) => el.tag,
            other => panic!("expected a body entry, got {:?}", other),
        })
        .collect();
    assert_eq!(tags, vec![Tag::UnorderedList, Tag::OrderedList, Tag::UnorderedList]);
}

#[test]
fn unresolved_anchor_has_no_destination() {
    let segs = vec![Segment::Anchor { content: vec![text("nowhere")] }];
    let out = parse_paragraph(
        &prefixes(),
        &segs,
        Element::new(Tag::ParagraphText),
        &empty_index(),
    );
    assert_eq!(out.children.len(), 1);
    match &out.children[0] {
        ElementChild::Element(link) => {
            assert_eq!(link.tag, Tag::Link);
            assert!(link.attributes.is_empty());
            assert_eq!(link.children[0], ElementChild::Text("nowhere".to_string()));
        },
        other => panic!("expected a link element, got {:?}", other),
    }
}

#[test]
fn anchor_resolution_is_exact() {
    let index = AnchorIndex::from_pairs(vec![
        ("docs guide".to_string(), "guide.html".to_string()),
        ("docs guide".to_string(), "latest.html".to_string()),
    ]);
    let hit = vec![Segment::Anchor {
        content: vec![text("docs"), Segment::Token(Token::Whitespace), text("guide")],
    }];
    let out = parse_paragraph(&prefixes(), &hit, Element::new(Tag::ParagraphText), &index);
    match &out.children[0] {
        ElementChild::Element(link) => {
            assert_eq!(
                link.attributes,
                vec![("href".to_string(), "latest.html".to_string())]
            );
        },
        other => panic!("expected a link element, got {:?}", other),
    }
    let miss = vec![Segment::Anchor { content: vec![text("Docs guide")] }];
    let out = parse_paragraph(&prefixes(), &miss, Element::new(Tag::ParagraphText), &index);
    match &out.children[0] {
        ElementChild::Element(link) => assert!(link.attributes.is_empty()),
        other => panic!("expected a link element, got {:?}", other),
    }
}

#[test]
fn formatting_span_builds_scoped_classes() {
    let segs = vec![Segment::AttachedModifier {
        modifier_type: '*',
        content: vec![text("hi")],
    }];
    let out = parse_paragraph(&prefixes(), &segs, Element::new(Tag::ParagraphText), &empty_index());
    match &out.children[0] {
        ElementChild::Element(span) => {
            assert_eq!(span.tag, Tag::Span);
            assert_eq!(
                span.attributes,
                vec![("class".to_string(), "norg-bold norg".to_string())]
            );
            assert_eq!(span.children[0], ElementChild::Text("hi".to_string()));
        },
        other => panic!("expected a span element, got {:?}", other),
    }
}

#[test]
fn heading_level_seven_falls_back_to_paragraph_tag() {
    let node = NorgNode::Heading { level: 7, title: vec![text("Deep")], content: vec![] };
    let entry = parse_ast(&prefixes(), node, &empty_index());
    match entry {
        HtmlEntry::Main(div) => {
            assert_eq!(div.tag, Tag::Div);
            match &div.children[0] {
                ElementChild::Element(h) => {
                    assert_eq!(h.tag, Tag::ParagraphText);
                    assert_eq!(
                        h.attributes,
                        vec![("class".to_string(), "norg-header-7 norg".to_string())]
                    );
                },
                other => panic!("expected the rendered title, got {:?}", other),
            }
        },
        other => panic!("expected a body entry, got {:?}", other),
    }
}

#[test]
fn anchor_target_is_stored_stripped() {
    let ast = vec![
        NorgNode::Paragraph(vec![Segment::AnchorDefinition {
            content: vec![text("guide")],
            target: Box::new(Segment::Link { filepath: Some("$docs/guide".to_string()) }),
        }]),
        NorgNode::Paragraph(vec![Segment::Anchor { content: vec![text("guide")] }]),
    ];
    assert!(document_supported(&ast));
    let pairs = anchor_disovery(&ast);
    assert_eq!(pairs, vec![("guide".to_string(), "$docs/guide".to_string())]);
    let out = build_html(ast);
    assert!(out.html.contains("href=\"docs/guide\""));
    assert!(!out.html.contains('$'));
}

#[test]
fn malformed_metadata_degrades_to_none() {
    let ast = vec![NorgNode::VerbatimRangedTag {
        name: vec!["document".to_string(), "meta".to_string()],
        content: "a: [1, 2".to_string(),
    }];
    assert!(document_supported(&ast));
    let out = build_html(ast);
    assert!(out.metadata.is_none());
    assert_eq!(out.html, "");
}

#[test]
fn unsupported_constructs_are_refused() {
    let quote = vec![NorgNode::NestableDetachedModifier {
        modifier_type: NestKind::Quote,
        level: 1,
        text: Box::new(FlatNode::Paragraph(vec![text("q")])),
        content: vec![],
    }];
    assert!(!document_supported(&quote));
    let ranged = vec![NorgNode::RangedTag { content: vec![] }];
    assert!(!document_supported(&ranged));
    let math = vec![NorgNode::Paragraph(vec![Segment::AttachedModifier {
        modifier_type: '$',
        content: vec![text("x")],
    }])];
    assert!(!document_supported(&math));
}

#[test]
fn nested_lists_render_inside_items() {
    let inner = NorgNode::NestableDetachedModifier {
        modifier_type: NestKind::UnorderedList,
        level: 2,
        text: Box::new(FlatNode::Paragraph(vec![text("child")])),
        content: vec![],
    };
    let ast = vec![NorgNode::NestableDetachedModifier {
        modifier_type: NestKind::OrderedList,
        level: 1,
        text: Box::new(FlatNode::Paragraph(vec![text("parent")])),
        content: vec![inner],
    }];
    assert!(document_supported(&ast));
    let out = build_html(ast);
    assert!(out.html.contains("<ol>"));
    assert!(out.html.contains("parent"));
    assert!(out.html.contains("<ul>"));
    assert!(out.html.contains("child"));
    let ol = out.html.find("<ol>").unwrap();
    let ul = out.html.find("<ul>").unwrap();
    assert!(ol < ul);
}

#[test]
fn end_to_end_renders_heading_paragraph_and_metadata() {
    let ast = vec![
        NorgNode::Heading { level: 1, title: vec![text("Intro")], content: vec![] },
        NorgNode::Paragraph(vec![text("Hello")]),
        NorgNode::VerbatimRangedTag {
            name: vec!["document".to_string(), "meta".to_string()],
            content: "title: Test".to_string(),
        },
    ];
    assert!(document_supported(&ast));
    let out = build_html(ast);
    match &out.metadata {
        Some(doc) => assert_eq!(doc["title"], Yaml::String("Test".to_string())),
        None => panic!("expected metadata"),
    }
    let h1 = out.html.find("<h1 class=\"norg-header-1 norg\">Intro</h1>").unwrap();
    let p = out.html.find("<p>Hello</p>").unwrap();
    assert!(h1 < p);
}
