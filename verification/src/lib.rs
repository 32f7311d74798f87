//! Renders a parsed document tree of a lightweight structured-markup
//! language into an HTML document: anchor definitions are collected in one
//! pass over the whole tree, block and inline nodes are lowered to HTML
//! elements, adjacent list items are coalesced into list containers, and
//! the rendered body elements are serialized and concatenated, with at
//! most one metadata document separated out.
pub mod anchor_disovery;
pub mod html;
pub mod html_entry;
pub mod outside;
pub mod norg;
pub mod parse_ast;
pub mod parse_paragraph;
pub mod text;

use crate::anchor_disovery::AnchorIndex;
use crate::anchor_disovery::anchor_disovery;
use crate::anchor_disovery::nodes_defs_ok;
use crate::anchor_disovery::nodes_defs_ok_check;
use crate::anchor_disovery::nodes_pairs;
use crate::anchor_disovery::pairs_map;
use crate::anchor_disovery::pairs_view;
use crate::html_entry::HtmlEntryFlat;
use crate::html_entry::HtmlEntryFlatV;
use crate::html_entry::flats_view;
use crate::html_entry::spec_flatten;
use crate::norg::NorgNode;
use crate::outside::element_to_html_string;
use crate::outside::html_text_of;
use crate::parse_ast::nodes_supported;
use crate::parse_ast::nodes_supported_check;
use crate::parse_ast::parse_children;
use crate::parse_ast::spec_parse_children;
use crate::text::spec_strip_dollars;
use crate::text::strip_dollars;
use crate::text::strings_view;
use vstd::prelude::*;
use vstd::string::StringExecFns;

verus! {

/// The result of one document render: at most one metadata document, and
/// the concatenated markup of all body elements, in document order.
#[derive(Debug)]
pub struct HtmlOutput {
    pub metadata: Option<yaml_rust2::yaml::Yaml>,
    pub html: String,
}

/// Every collected pair with its target stripped of literal `'$'`
/// characters, identifiers untouched, order kept.
pub open spec fn stripped_pairs(s: Seq<(Seq<char>, Seq<char>)>) -> Seq<(Seq<char>, Seq<char>)>
    decreases s.len(),
{
    if s.len() == 0 {
        Seq::empty()
    } else {
        stripped_pairs(s.drop_last()).push((s.last().0, spec_strip_dollars(s.last().1)))
    }
}

/// Strips the source-format escape character from every collected target.
fn strip_targets(pairs: Vec<(String, String)>) -> (r: Vec<(String, String)>)
    ensures
        pairs_view(r@) == stripped_pairs(pairs_view(pairs@)),
{
    let ghost orig = pairs_view(pairs@);
    let mut rest = pairs;
    let mut out: Vec<(String, String)> = Vec::new();
    while rest.len() > 0
        invariant
            pairs_view(out@) == stripped_pairs(orig.take(orig.len() - rest@.len())),
            pairs_view(rest@) == orig.skip(orig.len() - rest@.len()),
            rest@.len() <= orig.len(),
        decreases rest.len(),
    {
        let ghost j = orig.len() - rest@.len();
        let ghost pre_rest = rest@;
        let p = rest.remove(0);
        proof {
            assert(rest@ =~= pre_rest.drop_first());
            assert(pairs_view(rest@) =~~= pairs_view(pre_rest).drop_first());
            assert(pairs_view(pre_rest).drop_first() =~~= orig.skip(j + 1));
            assert((p.0@, p.1@) == pairs_view(pre_rest).first());
            assert(pairs_view(pre_rest).first() == orig[j]);
        }
        let stripped = strip_dollars(p.1.as_str());
        out.push((p.0, stripped));
        proof {
            let cur = orig.take(j + 1);
            assert(cur.drop_last() =~= orig.take(j));
            assert(cur.last() == orig[j]);
            assert(pairs_view(out@) =~~= stripped_pairs(cur));
        }
    }
    proof {
        assert(orig.take(orig.len() as int) =~= orig);
    }
    out
}

/// The anchor mapping of a document: every definition's pair, targets
/// stripped of `'$'`, later definitions winning on identifier collision.
pub open spec fn spec_anchor_map(ast: Seq<NorgNode>) -> Map<Seq<char>, Seq<char>> {
    pairs_map(stripped_pairs(nodes_pairs(ast)))
}

/// The flattened entries a whole document renders to, under the inherited
/// class prefix that every document starts from.
pub open spec fn spec_document_entries(ast: Seq<NorgNode>) -> Seq<HtmlEntryFlatV> {
    spec_flatten(spec_parse_children(seq!["norg"@], ast, spec_anchor_map(ast)))
}

/// The first metadata document among the flattened entries, if any.
pub open spec fn spec_metadata_of(flat: Seq<HtmlEntryFlatV>) -> Option<yaml_rust2::yaml::Yaml>
    decreases flat.len(),
{
    if flat.len() == 0 {
        None
    } else {
        match flat.first() {
            HtmlEntryFlatV::Metadata(y) => Some(y),
            _ => spec_metadata_of(flat.drop_first()),
        }
    }
}

/// The serialized markup of every body element, concatenated in order.
pub open spec fn spec_html_concat(flat: Seq<HtmlEntryFlatV>) -> Seq<char>
    decreases flat.len(),
{
    if flat.len() == 0 {
        Seq::empty()
    } else {
        (match flat.first() {
            HtmlEntryFlatV::Main(el) => html_text_of(el),
            _ => Seq::<char>::empty(),
        }) + spec_html_concat(flat.drop_first())
    }
}

/// Decides whether the renderer covers the whole document: every node is
/// a covered construct and every anchor definition is well-shaped.
pub fn document_supported(ast: &Vec<NorgNode>) -> (r: bool)
    ensures
        r == (nodes_supported(ast@) && nodes_defs_ok(ast@)),
{
    let s = nodes_supported_check(ast);
    s && nodes_defs_ok_check(ast)
}

/// Renders one document tree: collects the anchor index, lowers every
/// top-level node to an entry, flattens the entries, takes the first
/// metadata document, and concatenates the serialized body elements in
/// document order.
pub fn build_html(ast: Vec<NorgNode>) -> (r: HtmlOutput)
    requires
        nodes_supported(ast@),
        nodes_defs_ok(ast@),
    ensures
        r.metadata == spec_metadata_of(spec_document_entries(ast@)),
        r.html@ == spec_html_concat(spec_document_entries(ast@)),
{
    let pairs = anchor_disovery(&ast);
    let stripped = strip_targets(pairs);
    let anchors = AnchorIndex::from_pairs(stripped);
    let mut prefixes: Vec<String> = Vec::new();
    prefixes.push(String::from_str("norg"));
    proof {
        assert(strings_view(prefixes@) =~~= seq!["norg"@]);
        assert(anchors@ == spec_anchor_map(ast@));
    }
    let flat = parse_children(&prefixes, ast, &anchors);
    let ghost whole = flats_view(flat@);
    let mut metadata: Option<yaml_rust2::yaml::Yaml> = None;
    let mut html = String::new();
    let mut rest = flat;
    while rest.len() > 0
        invariant
            (match metadata {
                Some(y) => Some(y),
                None => spec_metadata_of(flats_view(rest@)),
            }) == spec_metadata_of(whole),
            html@ + spec_html_concat(flats_view(rest@)) == spec_html_concat(whole),
        decreases rest.len(),
    {
        let ghost pre = flats_view(rest@);
        let e = rest.remove(0);
        proof {
            assert(flats_view(rest@) =~~= pre.drop_first());
            assert(e@ == pre.first());
        }
        match e {
            HtmlEntryFlat::Metadata(y) => {
                if matches!(metadata, None) {
                    metadata = Some(y);
                }
            },
            HtmlEntryFlat::Main(el) => {
                let piece = element_to_html_string(&el);
                html.append(piece.as_str());
            },
        }
    }
    proof {
        assert(flats_view(rest@) =~~= Seq::<HtmlEntryFlatV>::empty());
    }
    HtmlOutput { metadata, html }
}

} // verus!
