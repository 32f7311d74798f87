//! The forward-reference pass: walks the whole document tree once,
//! collecting every anchor definition's identifier and link target, and
//! the index those pairs build (keys unique, last writer wins).
use crate::norg::FlatNode;
use crate::norg::NorgNode;
use crate::norg::Segment;
use crate::norg::Token;
use crate::norg::all_tokens;
use crate::norg::lemma_all_tokens_index;
use crate::norg::spec_anchor_identifier;
use crate::text::push_char;
use vstd::prelude::*;
use vstd::string::StringExecFns;

verus! {

/// Computes an anchor's identifier: the literal text of its name
/// segments, concatenated exactly.
pub fn anchor_identifier(segment: &Vec<Segment>) -> (r: String)
    requires
        all_tokens(segment@),
    ensures
        r@ == spec_anchor_identifier(segment@),
{
    proof {
        lemma_all_tokens_index(segment@);
    }
    let mut r = String::new();
    let mut i: usize = 0;
    while i < segment.len()
        invariant
            i <= segment.len(),
            forall|j: int| 0 <= j < segment@.len() ==> segment@[j] is Token,
            r@ == spec_anchor_identifier(segment@.subrange(0, i as int)),
        decreases segment.len() - i,
    {
        match &segment[i] {
            Segment::Token(t) => match t {
                Token::Text(s) => r.append(s.as_str()),
                Token::Whitespace => {
                    push_char(&mut r, ' ');
                },
                Token::Special(c) => {
                    push_char(&mut r, *c);
                },
                Token::Escape(c) => {
                    push_char(&mut r, *c);
                },
            },
            _ => {
                proof {
                    assert(false);
                }
            },
        }
        proof {
            let cur = segment@.subrange(0, i + 1 as int);
            assert(cur.drop_last() =~= segment@.subrange(0, i as int));
            assert(cur.last() == segment@[i as int]);
            assert(r@ =~= spec_anchor_identifier(cur));
        }
        i += 1;
    }
    proof {
        assert(segment@.subrange(0, segment@.len() as int) =~= segment@);
    }
    r
}

/// The views of a sequence of string pairs.
pub open spec fn pairs_view(s: Seq<(String, String)>) -> Seq<(Seq<char>, Seq<char>)> {
    s.map_values(|p: (String, String)| (p.0@, p.1@))
}

/// The identifier/target pair one segment contributes: an anchor
/// definition whose target is a link with a path contributes that pair,
/// everything else contributes nothing.
pub open spec fn seg_pair(s: Segment) -> Seq<(Seq<char>, Seq<char>)> {
    match s {
        Segment::AnchorDefinition { content, target } => match *target {
            Segment::Link { filepath } => match filepath {
                Some(fp) => seq![(spec_anchor_identifier(content@), fp@)],
                None => Seq::empty(),
            },
            _ => Seq::empty(),
        },
        _ => Seq::empty(),
    }
}

/// The pairs a segment sequence contributes, scanning only the top level.
pub open spec fn segs_pairs(s: Seq<Segment>) -> Seq<(Seq<char>, Seq<char>)>
    decreases s.len(),
{
    if s.len() == 0 {
        Seq::empty()
    } else {
        segs_pairs(s.drop_last()) + seg_pair(s.last())
    }
}

/// True when every top-level anchor definition of the sequence has an
/// all-token name and a link-shaped target, so that the collection pass
/// accepts it.
pub open spec fn segs_defs_ok(s: Seq<Segment>) -> bool
    decreases s.len(),
{
    s.len() == 0 || (seg_def_ok(s.last()) && segs_defs_ok(s.drop_last()))
}

pub open spec fn seg_def_ok(s: Segment) -> bool {
    match s {
        Segment::AnchorDefinition { content, target } => all_tokens(content@) && (*target
            matches Segment::Link { .. }),
        _ => true,
    }
}

/// The pairs a flat block contributes.
pub open spec fn flat_pairs(f: FlatNode) -> Seq<(Seq<char>, Seq<char>)>
    decreases f,
{
    match f {
        FlatNode::Paragraph(v) => segs_pairs(v@),
        FlatNode::NestableDetachedModifier { content } => flat_pairs(*content),
        FlatNode::RangeableDetachedModifier { title, content } => segs_pairs(title@)
            + flats_pairs(content@),
        FlatNode::Heading { title } => segs_pairs(title@),
        _ => Seq::empty(),
    }
}

pub open spec fn flats_pairs(s: Seq<FlatNode>) -> Seq<(Seq<char>, Seq<char>)>
    decreases s,
{
    if s.len() == 0 {
        Seq::empty()
    } else {
        flats_pairs(s.drop_last()) + flat_pairs(s.last())
    }
}

pub open spec fn flat_defs_ok(f: FlatNode) -> bool
    decreases f,
{
    match f {
        FlatNode::Paragraph(v) => segs_defs_ok(v@),
        FlatNode::NestableDetachedModifier { content } => flat_defs_ok(*content),
        FlatNode::RangeableDetachedModifier { title, content } => segs_defs_ok(title@)
            && flats_defs_ok(content@),
        FlatNode::Heading { title } => segs_defs_ok(title@),
        _ => true,
    }
}

pub open spec fn flats_defs_ok(s: Seq<FlatNode>) -> bool
    decreases s,
{
    s.len() == 0 || (flat_defs_ok(s.last()) && flats_defs_ok(s.drop_last()))
}

/// The pairs a document tree node contributes, in collection order: a
/// nestable modifier's children before its text line, a heading's
/// children before its title.
pub open spec fn node_pairs(n: NorgNode) -> Seq<(Seq<char>, Seq<char>)>
    decreases n,
{
    match n {
        NorgNode::Paragraph(v) => segs_pairs(v@),
        NorgNode::NestableDetachedModifier { text, content, .. } => nodes_pairs(content@)
            + flat_pairs(*text),
        NorgNode::RangeableDetachedModifier { title, content } => segs_pairs(title@)
            + flats_pairs(content@),
        NorgNode::Heading { title, content, .. } => nodes_pairs(content@) + segs_pairs(title@),
        NorgNode::RangedTag { content } => flats_pairs(content@),
        _ => Seq::empty(),
    }
}

pub open spec fn nodes_pairs(s: Seq<NorgNode>) -> Seq<(Seq<char>, Seq<char>)>
    decreases s,
{
    if s.len() == 0 {
        Seq::empty()
    } else {
        nodes_pairs(s.drop_last()) + node_pairs(s.last())
    }
}

pub open spec fn node_defs_ok(n: NorgNode) -> bool
    decreases n,
{
    match n {
        NorgNode::Paragraph(v) => segs_defs_ok(v@),
        NorgNode::NestableDetachedModifier { text, content, .. } => nodes_defs_ok(content@)
            && flat_defs_ok(*text),
        NorgNode::RangeableDetachedModifier { title, content } => segs_defs_ok(title@)
            && flats_defs_ok(content@),
        NorgNode::Heading { title, content, .. } => nodes_defs_ok(content@) && segs_defs_ok(
            title@,
        ),
        NorgNode::RangedTag { content } => flats_defs_ok(content@),
        _ => true,
    }
}

pub open spec fn nodes_defs_ok(s: Seq<NorgNode>) -> bool
    decreases s,
{
    s.len() == 0 || (node_defs_ok(s.last()) && nodes_defs_ok(s.drop_last()))
}

pub proof fn lemma_segs_defs_ok_index(s: Seq<Segment>)
    ensures
        segs_defs_ok(s) <==> (forall|i: int| 0 <= i < s.len() ==> seg_def_ok(s[i])),
    decreases s.len(),
{
    if s.len() > 0 {
        lemma_segs_defs_ok_index(s.drop_last());
        assert(forall|i: int| 0 <= i < s.len() - 1 ==> s.drop_last()[i] == s[i]);
        assert(s.last() == s[s.len() - 1]);
    }
}

/// Collects the pairs of the top level of a segment sequence.
fn segs_pairs_exec(segments: &Vec<Segment>) -> (r: Vec<(String, String)>)
    requires
        segs_defs_ok(segments@),
    ensures
        pairs_view(r@) == segs_pairs(segments@),
{
    proof {
        lemma_segs_defs_ok_index(segments@);
    }
    let mut r: Vec<(String, String)> = Vec::new();
    let mut i: usize = 0;
    while i < segments.len()
        invariant
            i <= segments.len(),
            forall|j: int| 0 <= j < segments@.len() ==> seg_def_ok(segments@[j]),
            pairs_view(r@) == segs_pairs(segments@.subrange(0, i as int)),
        decreases segments.len() - i,
    {
        let ghost pre = r@;
        match &segments[i] {
            Segment::AnchorDefinition { content, target } => {
                match &**target {
                    Segment::Link { filepath } => {
                        match filepath {
                            Some(fp) => {
                                let key = anchor_identifier(content);
                                r.push((key, fp.clone()));
                            },
                            None => {},
                        }
                    },
                    _ => {
                        proof {
                            assert(false);
                        }
                    },
                }
            },
            _ => {},
        }
        proof {
            let cur = segments@.subrange(0, i + 1 as int);
            assert(cur.drop_last() =~= segments@.subrange(0, i as int));
            assert(cur.last() == segments@[i as int]);
            assert(pairs_view(r@) =~~= segs_pairs(cur));
        }
        i += 1;
    }
    proof {
        assert(segments@.subrange(0, segments@.len() as int) =~= segments@);
    }
    r
}

/// Collects the pairs of one flat block.
fn flat_pairs_exec(f: &FlatNode) -> (r: Vec<(String, String)>)
    requires
        flat_defs_ok(*f),
    ensures
        pairs_view(r@) == flat_pairs(*f),
    decreases *f,
{
    match f {
        FlatNode::Paragraph(v) => segs_pairs_exec(v),
        FlatNode::NestableDetachedModifier { content } => flat_pairs_exec(content),
        FlatNode::RangeableDetachedModifier { title, content } => {
            let mut r = segs_pairs_exec(title);
            let mut rest = flats_pairs_exec(content);
            let ghost first = r@;
            let ghost second = rest@;
            r.append(&mut rest);
            proof {
                assert(pairs_view(r@) =~~= pairs_view(first) + pairs_view(second));
            }
            r
        },
        FlatNode::Heading { title } => segs_pairs_exec(title),
        _ => Vec::new(),
    }
}

/// Collects the pairs of a sequence of flat blocks, in order.
fn flats_pairs_exec(s: &Vec<FlatNode>) -> (r: Vec<(String, String)>)
    requires
        flats_defs_ok(s@),
    ensures
        pairs_view(r@) == flats_pairs(s@),
    decreases *s,
{
    let mut r: Vec<(String, String)> = Vec::new();
    let mut i: usize = 0;
    while i < s.len()
        invariant
            i <= s.len(),
            flats_defs_ok(s@),
            pairs_view(r@) == flats_pairs(s@.subrange(0, i as int)),
        decreases s.len() - i,
    {
        proof {
            lemma_flats_defs_ok_index(s@);
        }
        let mut next = flat_pairs_exec(&s[i]);
        let ghost first = r@;
        let ghost second = next@;
        r.append(&mut next);
        proof {
            let cur = s@.subrange(0, i + 1 as int);
            assert(cur.drop_last() =~= s@.subrange(0, i as int));
            assert(cur.last() == s@[i as int]);
            assert(pairs_view(r@) =~~= pairs_view(first) + pairs_view(second));
            assert(pairs_view(r@) =~~= flats_pairs(cur));
        }
        i += 1;
    }
    proof {
        assert(s@.subrange(0, s@.len() as int) =~= s@);
    }
    r
}

pub proof fn lemma_flats_defs_ok_index(s: Seq<FlatNode>)
    ensures
        flats_defs_ok(s) <==> (forall|i: int| 0 <= i < s.len() ==> flat_defs_ok(s[i])),
    decreases s.len(),
{
    if s.len() > 0 {
        lemma_flats_defs_ok_index(s.drop_last());
        assert(forall|i: int| 0 <= i < s.len() - 1 ==> s.drop_last()[i] == s[i]);
        assert(s.last() == s[s.len() - 1]);
    }
}

pub proof fn lemma_nodes_defs_ok_index(s: Seq<NorgNode>)
    ensures
        nodes_defs_ok(s) <==> (forall|i: int| 0 <= i < s.len() ==> node_defs_ok(s[i])),
    decreases s.len(),
{
    if s.len() > 0 {
        lemma_nodes_defs_ok_index(s.drop_last());
        assert(forall|i: int| 0 <= i < s.len() - 1 ==> s.drop_last()[i] == s[i]);
        assert(s.last() == s[s.len() - 1]);
    }
}

/// Collects every anchor definition of the whole tree, in collection
/// order. Order does not matter to the index the pairs build, except that
/// a later pair wins on identifier collision.
pub fn anchor_disovery(ast: &Vec<NorgNode>) -> (r: Vec<(String, String)>)
    requires
        nodes_defs_ok(ast@),
    ensures
        pairs_view(r@) == nodes_pairs(ast@),
    decreases *ast,
{
    let mut r: Vec<(String, String)> = Vec::new();
    let mut i: usize = 0;
    while i < ast.len()
        invariant
            i <= ast.len(),
            nodes_defs_ok(ast@),
            pairs_view(r@) == nodes_pairs(ast@.subrange(0, i as int)),
        decreases ast.len() - i,
    {
        proof {
            lemma_nodes_defs_ok_index(ast@);
        }
        let mut next = node_pairs_exec(&ast[i]);
        let ghost first = r@;
        let ghost second = next@;
        r.append(&mut next);
        proof {
            let cur = ast@.subrange(0, i + 1 as int);
            assert(cur.drop_last() =~= ast@.subrange(0, i as int));
            assert(cur.last() == ast@[i as int]);
            assert(pairs_view(r@) =~~= pairs_view(first) + pairs_view(second));
            assert(pairs_view(r@) =~~= nodes_pairs(cur));
        }
        i += 1;
    }
    proof {
        assert(ast@.subrange(0, ast@.len() as int) =~= ast@);
    }
    r
}

/// Collects the pairs of one document tree node.
fn node_pairs_exec(n: &NorgNode) -> (r: Vec<(String, String)>)
    requires
        node_defs_ok(*n),
    ensures
        pairs_view(r@) == node_pairs(*n),
    decreases *n,
{
    match n {
        NorgNode::Paragraph(v) => segs_pairs_exec(v),
        NorgNode::NestableDetachedModifier { text, content, .. } => {
            let mut r = anchor_disovery(content);
            let mut rest = flat_pairs_exec(text);
            let ghost first = r@;
            let ghost second = rest@;
            r.append(&mut rest);
            proof {
                assert(pairs_view(r@) =~~= pairs_view(first) + pairs_view(second));
            }
            r
        },
        NorgNode::RangeableDetachedModifier { title, content } => {
            let mut r = segs_pairs_exec(title);
            let mut rest = flats_pairs_exec(content);
            let ghost first = r@;
            let ghost second = rest@;
            r.append(&mut rest);
            proof {
                assert(pairs_view(r@) =~~= pairs_view(first) + pairs_view(second));
            }
            r
        },
        NorgNode::Heading { title, content, .. } => {
            let mut r = anchor_disovery(content);
            let mut rest = segs_pairs_exec(title);
            let ghost first = r@;
            let ghost second = rest@;
            r.append(&mut rest);
            proof {
                assert(pairs_view(r@) =~~= pairs_view(first) + pairs_view(second));
            }
            r
        },
        NorgNode::RangedTag { content } => flats_pairs_exec(content),
        _ => Vec::new(),
    }
}

/// The mapping a pair list builds: keys unique, a later pair wins on
/// collision.
pub open spec fn pairs_map(s: Seq<(Seq<char>, Seq<char>)>) -> Map<Seq<char>, Seq<char>>
    decreases s.len(),
{
    if s.len() == 0 {
        Map::empty()
    } else {
        pairs_map(s.drop_last()).insert(s.last().0, s.last().1)
    }
}

/// The anchor index: a mapping from anchor identifier to link target,
/// built once per document and immutable afterward.
pub struct AnchorIndex {
    entries: Vec<(String, String)>,
}

impl View for AnchorIndex {
    type V = Map<Seq<char>, Seq<char>>;

    closed spec fn view(&self) -> Map<Seq<char>, Seq<char>> {
        pairs_map(pairs_view(self.entries@))
    }
}

proof fn lemma_pairs_map_found(s: Seq<(Seq<char>, Seq<char>)>, i: int, k: Seq<char>)
    requires
        0 <= i < s.len(),
        s[i].0 == k,
        forall|j: int| i < j < s.len() ==> s[j].0 != k,
    ensures
        pairs_map(s).contains_key(k),
        pairs_map(s)[k] == s[i].1,
    decreases s.len(),
{
    if i == s.len() - 1 {
    } else {
        assert(forall|j: int| 0 <= j < s.len() - 1 ==> s.drop_last()[j] == s[j]);
        lemma_pairs_map_found(s.drop_last(), i, k);
        assert(s.last().0 != k);
    }
}

proof fn lemma_pairs_map_absent(s: Seq<(Seq<char>, Seq<char>)>, k: Seq<char>)
    requires
        forall|j: int| 0 <= j < s.len() ==> (#[trigger] s[j]).0 != k,
    ensures
        !pairs_map(s).contains_key(k),
    decreases s.len(),
{
    if s.len() > 0 {
        assert(forall|j: int| 0 <= j < s.len() - 1 ==> s.drop_last()[j] == s[j]);
        lemma_pairs_map_absent(s.drop_last(), k);
        assert(s.last() == s[s.len() - 1]);
    }
}

impl AnchorIndex {
    /// Builds the index from collected pairs; on identifier collision the
    /// later pair wins.
    pub fn from_pairs(pairs: Vec<(String, String)>) -> (r: Self)
        ensures
            r@ == pairs_map(pairs_view(pairs@)),
    {
        AnchorIndex { entries: pairs }
    }

    /// Looks an identifier up; the found target is exactly what the
    /// mapping holds for it.
    pub fn get(&self, key: &String) -> (r: Option<&String>)
        ensures
            match r {
                Some(v) => self@.contains_key(key@) && v@ == self@[key@],
                None => !self@.contains_key(key@),
            },
    {
        let ghost s = pairs_view(self.entries@);
        let mut i: usize = self.entries.len();
        while i > 0
            invariant
                i <= self.entries@.len(),
                s == pairs_view(self.entries@),
                forall|j: int| i <= j < s.len() ==> (#[trigger] s[j]).0 != key@,
            decreases i,
        {
            i = i - 1;
            if self.entries[i].0 == *key {
                proof {
                    lemma_pairs_map_found(s, i as int, key@);
                }
                return Some(&self.entries[i].1);
            }
        }
        proof {
            lemma_pairs_map_absent(s, key@);
        }
        None
    }
}

/// An identifier is in the mapping a pair list builds exactly when some
/// pair carries that identifier.
pub proof fn lemma_pairs_map_domain(s: Seq<(Seq<char>, Seq<char>)>, k: Seq<char>)
    ensures
        pairs_map(s).contains_key(k) <==> (exists|i: int|
            0 <= i < s.len() && (#[trigger] s[i]).0 == k),
    decreases s.len(),
{
    if s.len() > 0 {
        lemma_pairs_map_domain(s.drop_last(), k);
        assert(forall|i: int| 0 <= i < s.len() - 1 ==> s.drop_last()[i] == s[i]);
        assert(s.last() == s[s.len() - 1]);
        if pairs_map(s).contains_key(k) && s.last().0 != k {
            let i = choose|i: int| 0 <= i < s.len() - 1 && (#[trigger] s.drop_last()[i]).0 == k;
            assert(s[i].0 == k);
        }
    }
}

/// Decides whether every top-level anchor definition of the sequence is
/// acceptable to the collection pass.
pub fn segs_defs_ok_check(s: &Vec<Segment>) -> (r: bool)
    ensures
        r == segs_defs_ok(s@),
{
    proof {
        lemma_segs_defs_ok_index(s@);
    }
    let mut i: usize = 0;
    while i < s.len()
        invariant
            i <= s@.len(),
            forall|j: int| 0 <= j < i ==> seg_def_ok(s@[j]),
        decreases s@.len() - i,
    {
        let ok = match &s[i] {
            Segment::AnchorDefinition { content, target } => {
                let t_ok = match &**target {
                    Segment::Link { .. } => true,
                    _ => false,
                };
                t_ok && crate::norg::all_tokens_check(content)
            },
            _ => true,
        };
        if !ok {
            proof {
                lemma_segs_defs_ok_index(s@);
            }
            return false;
        }
        i += 1;
    }
    true
}

/// Decides whether the collection pass accepts one flat block.
#[verifier::loop_isolation(false)]
pub fn flat_defs_ok_check(f: &FlatNode) -> (r: bool)
    ensures
        r == flat_defs_ok(*f),
    decreases *f,
{
    match f {
        FlatNode::Paragraph(v) => segs_defs_ok_check(v),
        FlatNode::NestableDetachedModifier { content } => flat_defs_ok_check(content),
        FlatNode::RangeableDetachedModifier { title, content } => {
            let t_ok = segs_defs_ok_check(title);
            t_ok && flats_defs_ok_check(content)
        },
        FlatNode::Heading { title } => segs_defs_ok_check(title),
        _ => true,
    }
}

/// Decides whether the collection pass accepts every flat block.
#[verifier::loop_isolation(false)]
pub fn flats_defs_ok_check(s: &Vec<FlatNode>) -> (r: bool)
    ensures
        r == flats_defs_ok(s@),
    decreases *s,
{
    proof {
        lemma_flats_defs_ok_index(s@);
    }
    let mut i: usize = 0;
    while i < s.len()
        invariant
            i <= s@.len(),
            forall|j: int| 0 <= j < i ==> flat_defs_ok(s@[j]),
        decreases s@.len() - i,
    {
        proof {
            assert(decreases_to!(s@ => s@[i as int]));
        }
        if !flat_defs_ok_check(&s[i]) {
            return false;
        }
        i += 1;
    }
    true
}

/// Decides whether the collection pass accepts one tree node.
#[verifier::loop_isolation(false)]
pub fn node_defs_ok_check(n: &NorgNode) -> (r: bool)
    ensures
        r == node_defs_ok(*n),
    decreases *n,
{
    match n {
        NorgNode::Paragraph(v) => segs_defs_ok_check(v),
        NorgNode::NestableDetachedModifier { text, content, .. } => {
            let c_ok = nodes_defs_ok_check(content);
            c_ok && flat_defs_ok_check(text)
        },
        NorgNode::RangeableDetachedModifier { title, content } => {
            let t_ok = segs_defs_ok_check(title);
            t_ok && flats_defs_ok_check(content)
        },
        NorgNode::Heading { title, content, .. } => {
            let c_ok = nodes_defs_ok_check(content);
            c_ok && segs_defs_ok_check(title)
        },
        NorgNode::RangedTag { content } => flats_defs_ok_check(content),
        _ => true,
    }
}

/// Decides whether the collection pass accepts every tree node.
#[verifier::loop_isolation(false)]
pub fn nodes_defs_ok_check(s: &Vec<NorgNode>) -> (r: bool)
    ensures
        r == nodes_defs_ok(s@),
    decreases *s,
{
    proof {
        lemma_nodes_defs_ok_index(s@);
    }
    let mut i: usize = 0;
    while i < s.len()
        invariant
            i <= s@.len(),
            forall|j: int| 0 <= j < i ==> node_defs_ok(s@[j]),
        decreases s@.len() - i,
    {
        proof {
            assert(decreases_to!(s@ => s@[i as int]));
        }
        if !node_defs_ok_check(&s[i]) {
            return false;
        }
        i += 1;
    }
    true
}

} // verus!
