//! The document tree of the lightweight markup language, as the renderer
//! consumes it: paragraphs of inline segments, nestable list containers,
//! headings, and tag blocks. Constructs the renderer does not cover are
//! still present as variants, and the `*_supported` predicates say exactly
//! which trees the renderer accepts.
use vstd::prelude::*;

verus! {

/// One literal inline token: a text run, a single space, or one
/// special or escaped character.
#[derive(Debug, Clone, PartialEq, Eq)]
pub enum Token {
    Text(String),
    Whitespace,
    Special(char),
    Escape(char),
}

/// One inline segment of a paragraph: a literal token, a formatting span,
/// an anchor definition or reference, a link, or one of the parser-internal
/// intermediate forms that the renderer does not cover.
#[derive(Debug, PartialEq, Eq)]
pub enum Segment {
    Token(Token),
    AttachedModifier { modifier_type: char, content: Vec<Segment> },
    AnchorDefinition { content: Vec<Segment>, target: Box<Segment> },
    Anchor { content: Vec<Segment> },
    Link { filepath: Option<String> },
    InlineLinkTarget,
    InlineVerbatim,
    AttachedModifierOpener,
    AttachedModifierOpenerFail,
    AttachedModifierCloserCandidate,
    AttachedModifierCloser,
    AttachedModifierCandidate,
}

/// The kind of a nestable detached modifier. Only the two list kinds render;
/// quotes are a recognized but unimplemented variant.
#[derive(Debug, Clone, Copy, PartialEq, Eq)]
pub enum NestKind {
    Quote,
    UnorderedList,
    OrderedList,
}

/// A block in its flat form, as it appears in a nestable modifier's text
/// line or inside a rangeable container.
#[derive(Debug, PartialEq, Eq)]
pub enum FlatNode {
    Paragraph(Vec<Segment>),
    NestableDetachedModifier { content: Box<FlatNode> },
    RangeableDetachedModifier { title: Vec<Segment>, content: Vec<FlatNode> },
    Heading { title: Vec<Segment> },
    CarryoverTag,
    VerbatimRangedTag,
    RangedTag,
    InfirmTag,
    DelimitingModifier,
}

/// One structural node of the document tree.
#[derive(Debug, PartialEq, Eq)]
pub enum NorgNode {
    Paragraph(Vec<Segment>),
    NestableDetachedModifier {
        modifier_type: NestKind,
        level: u16,
        text: Box<FlatNode>,
        content: Vec<NorgNode>,
    },
    RangeableDetachedModifier { title: Vec<Segment>, content: Vec<FlatNode> },
    Heading { level: u16, title: Vec<Segment>, content: Vec<NorgNode> },
    CarryoverTag,
    VerbatimRangedTag { name: Vec<String>, content: String },
    RangedTag { content: Vec<FlatNode> },
    InfirmTag,
    DelimitingModifier,
}

/// The text a literal token stands for: a text run keeps its characters,
/// whitespace is a single space, special and escaped tokens keep their
/// one character.
pub open spec fn token_text(t: Token) -> Seq<char> {
    match t {
        Token::Text(s) => s@,
        Token::Whitespace => seq![' '],
        Token::Special(c) => seq![c],
        Token::Escape(c) => seq![c],
    }
}

/// True when every segment of the sequence is a literal token.
pub open spec fn all_tokens(s: Seq<Segment>) -> bool
    decreases s.len(),
{
    s.len() == 0 || (s.last() is Token && all_tokens(s.drop_last()))
}

pub proof fn lemma_all_tokens_index(s: Seq<Segment>)
    ensures
        all_tokens(s) <==> (forall|i: int| 0 <= i < s.len() ==> s[i] is Token),
    decreases s.len(),
{
    if s.len() > 0 {
        lemma_all_tokens_index(s.drop_last());
        assert(forall|i: int| 0 <= i < s.len() - 1 ==> s.drop_last()[i] == s[i]);
        assert(s.last() == s[s.len() - 1]);
    }
}

/// An anchor's identifier: the literal text of its name segments,
/// concatenated exactly, in order. Segments that are not literal tokens
/// contribute nothing; the renderer only accepts all-token anchor names.
pub open spec fn spec_anchor_identifier(s: Seq<Segment>) -> Seq<char>
    decreases s.len(),
{
    if s.len() == 0 {
        Seq::empty()
    } else {
        spec_anchor_identifier(s.drop_last()) + (match s.last() {
            Segment::Token(t) => token_text(t),
            _ => Seq::<char>::empty(),
        })
    }
}

/// The formatting-span modifier characters the renderer maps to a class.
pub open spec fn modifier_supported(c: char) -> bool {
    c == '*' || c == '/' || c == '_' || c == '-' || c == '^' || c == ',' || c == '!' || c == '%'
}

/// True when the renderer covers this inline segment: literal tokens,
/// formatting spans over one of the fixed modifier characters, and anchors
/// whose name is all literal tokens. Everything else fails fast.
pub open spec fn seg_supported(s: Segment) -> bool
    decreases s,
{
    match s {
        Segment::Token(_) => true,
        Segment::AttachedModifier { modifier_type, content } => modifier_supported(modifier_type)
            && segs_supported(content@),
        Segment::AnchorDefinition { content, .. } => all_tokens(content@),
        Segment::Anchor { content } => all_tokens(content@),
        _ => false,
    }
}

/// True when the renderer covers every segment of the sequence.
pub open spec fn segs_supported(s: Seq<Segment>) -> bool
    decreases s,
{
    s.len() == 0 || (seg_supported(s.last()) && segs_supported(s.drop_last()))
}

/// A sequence of literal tokens is always within the renderer's coverage.
pub proof fn lemma_all_tokens_supported(s: Seq<Segment>)
    requires
        all_tokens(s),
    ensures
        segs_supported(s),
    decreases s.len(),
{
    if s.len() > 0 {
        lemma_all_tokens_supported(s.drop_last());
        assert(s.last() is Token);
        assert(seg_supported(s.last()));
    }
}

pub proof fn lemma_segs_supported_index(s: Seq<Segment>)
    ensures
        segs_supported(s) <==> (forall|i: int| 0 <= i < s.len() ==> seg_supported(s[i])),
    decreases s.len(),
{
    if s.len() > 0 {
        lemma_segs_supported_index(s.drop_last());
        assert(forall|i: int| 0 <= i < s.len() - 1 ==> s.drop_last()[i] == s[i]);
        assert(s.last() == s[s.len() - 1]);
    }
}

/// Decides whether every segment is a literal token.
pub fn all_tokens_check(s: &Vec<Segment>) -> (r: bool)
    ensures
        r == all_tokens(s@),
{
    proof {
        lemma_all_tokens_index(s@);
    }
    let mut i: usize = 0;
    while i < s.len()
        invariant
            i <= s@.len(),
            forall|j: int| 0 <= j < i ==> s@[j] is Token,
        decreases s@.len() - i,
    {
        match &s[i] {
            Segment::Token(_) => {},
            _ => {
                proof {
                    lemma_all_tokens_index(s@);
                }
                return false;
            },
        }
        i += 1;
    }
    true
}

/// Decides whether the renderer covers every segment of the sequence.
#[verifier::loop_isolation(false)]
pub fn segs_supported_check(s: &Vec<Segment>) -> (r: bool)
    ensures
        r == segs_supported(s@),
    decreases *s,
{
    proof {
        lemma_segs_supported_index(s@);
    }
    let mut i: usize = 0;
    while i < s.len()
        invariant
            i <= s@.len(),
            forall|j: int| 0 <= j < i ==> seg_supported(s@[j]),
        decreases s@.len() - i,
    {
        let ok = match &s[i] {
            Segment::Token(_) => true,
            Segment::AttachedModifier { modifier_type, content } => {
                let m = *modifier_type;
                let m_ok = m == '*' || m == '/' || m == '_' || m == '-' || m == '^' || m == ','
                    || m == '!' || m == '%';
                if m_ok {
                    proof {
                        assert(decreases_to!(*s => *content));
                    }
                    segs_supported_check(content)
                } else {
                    false
                }
            },
            Segment::AnchorDefinition { content, .. } => all_tokens_check(content),
            Segment::Anchor { content } => all_tokens_check(content),
            _ => false,
        };
        if !ok {
            return false;
        }
        i += 1;
    }
    true
}

} // verus!
