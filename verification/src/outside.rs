//! The narrow trusted interface to the two collaborator crates: the
//! key/value document loader (yaml_rust2) and the output-markup builder
//! (build_html). Everything here is believed, not proved; each item's doc
//! comment names the outside function it relies on.
use vstd::prelude::*;

verus! {

#[verifier::external_type_specification]
#[verifier::external_body]
pub struct ExYaml(yaml_rust2::yaml::Yaml);

/// The documents that parsing a text as a key/value (YAML) stream yields,
/// or nothing when the text is malformed. Parsing depends on the text
/// alone, so the result carries a name rather than a definition.
pub uninterp spec fn yaml_docs_of(s: Seq<char>) -> Option<Seq<yaml_rust2::yaml::Yaml>>;

/// Relies on yaml_rust2's YamlLoader::load_from_str: deterministically
/// parses the text into a sequence of documents, or fails on malformed
/// input.
#[verifier::external_body]
pub(crate) fn load_yaml_docs(s: &str) -> (r: Option<Vec<yaml_rust2::yaml::Yaml>>)
    ensures
        match r {
            Some(docs) => yaml_docs_of(s@) == Some(docs@),
            None => yaml_docs_of(s@) is None,
        },
{
    yaml_rust2::yaml::YamlLoader::load_from_str(s).ok()
}

#[verifier::external_type_specification]
#[verifier::external_body]
pub struct ExHtmlTag(build_html::HtmlTag);

#[verifier::external_type_specification]
#[verifier::external_body]
pub struct ExHtmlElement(build_html::HtmlElement);

/// Converts a tag of the library to build_html's tag of the same name.
#[verifier::external_body]
fn tag_to_build(tag: crate::html::Tag) -> build_html::HtmlTag {
    match tag {
        crate::html::Tag::Heading1 => build_html::HtmlTag::Heading1,
        crate::html::Tag::Heading2 => build_html::HtmlTag::Heading2,
        crate::html::Tag::Heading3 => build_html::HtmlTag::Heading3,
        crate::html::Tag::Heading4 => build_html::HtmlTag::Heading4,
        crate::html::Tag::Heading5 => build_html::HtmlTag::Heading5,
        crate::html::Tag::Heading6 => build_html::HtmlTag::Heading6,
        crate::html::Tag::ParagraphText => build_html::HtmlTag::ParagraphText,
        crate::html::Tag::Span => build_html::HtmlTag::Span,
        crate::html::Tag::Link => build_html::HtmlTag::Link,
        crate::html::Tag::ListElement => build_html::HtmlTag::ListElement,
        crate::html::Tag::UnorderedList => build_html::HtmlTag::UnorderedList,
        crate::html::Tag::OrderedList => build_html::HtmlTag::OrderedList,
        crate::html::Tag::Div => build_html::HtmlTag::Div,
    }
}

/// Converts an element of the library, attribute for attribute and child
/// for child, to build_html's element type.
#[verifier::external_body]
fn elem_to_build(e: &crate::html::Element) -> build_html::HtmlElement {
    let mut out = build_html::HtmlElement::new(tag_to_build(e.tag));
    for a in e.attributes.iter() {
        out.add_attribute(a.0.as_str(), a.1.as_str());
    }
    for c in e.children.iter() {
        match c {
            crate::html::ElementChild::Element(inner) => out.add_child(elem_to_build(inner).into()),
            crate::html::ElementChild::Text(s) => out.add_child(s.as_str().into()),
        }
    }
    out
}

/// The markup text that build_html renders for an element. Serialization
/// depends on the element alone, so the result carries a name rather than
/// a definition.
pub uninterp spec fn html_text_of(e: crate::html::ElementV) -> Seq<char>;

/// Relies on build_html's Html::to_html_string: deterministically renders
/// the element tree to its markup text.
#[verifier::external_body]
pub fn element_to_html_string(e: &crate::html::Element) -> (r: String)
    ensures
        r@ == html_text_of(e@),
{
    build_html::Html::to_html_string(&elem_to_build(e))
}

} // verus!
