//! The output entries the block transformer produces, and the flattening
//! pass that coalesces runs of adjacent same-kind list-item entries into
//! single list containers while separating metadata from body elements.
use crate::html::Element;
use crate::html::ElementChild;
use crate::html::ElementChildV;
use crate::html::ElementV;
use crate::html::Tag;
use crate::html::elem_view;
use crate::html::with_child_v;
use vstd::prelude::*;

verus! {

/// One output entry: a parsed metadata document, a rendered body element,
/// a list-item element of either list kind, or no output at all.
#[derive(Debug, PartialEq)]
pub enum HtmlEntry {
    Metadata(yaml_rust2::yaml::Yaml),
    Main(Element),
    UnorderedList(Element),
    OrderedList(Element),
    Empty,
}

/// An entry that survives flattening: a metadata document or a body
/// element.
#[derive(Debug, PartialEq)]
pub enum HtmlEntryFlat {
    Metadata(yaml_rust2::yaml::Yaml),
    Main(Element),
}

/// The mathematical view of an output entry.
#[verifier::ext_equal]
pub enum HtmlEntryV {
    Metadata(yaml_rust2::yaml::Yaml),
    Main(ElementV),
    UnorderedList(ElementV),
    OrderedList(ElementV),
    Empty,
}

/// The mathematical view of a flattened entry.
#[verifier::ext_equal]
pub enum HtmlEntryFlatV {
    Metadata(yaml_rust2::yaml::Yaml),
    Main(ElementV),
}

pub open spec fn entry_view(e: HtmlEntry) -> HtmlEntryV {
    match e {
        HtmlEntry::Metadata(y) => HtmlEntryV::Metadata(y),
        HtmlEntry::Main(el) => HtmlEntryV::Main(elem_view(el)),
        HtmlEntry::UnorderedList(el) => HtmlEntryV::UnorderedList(elem_view(el)),
        HtmlEntry::OrderedList(el) => HtmlEntryV::OrderedList(elem_view(el)),
        HtmlEntry::Empty => HtmlEntryV::Empty,
    }
}

pub open spec fn flat_view(e: HtmlEntryFlat) -> HtmlEntryFlatV {
    match e {
        HtmlEntryFlat::Metadata(y) => HtmlEntryFlatV::Metadata(y),
        HtmlEntryFlat::Main(el) => HtmlEntryFlatV::Main(elem_view(el)),
    }
}

impl View for HtmlEntry {
    type V = HtmlEntryV;

    open spec fn view(&self) -> HtmlEntryV {
        entry_view(*self)
    }
}

impl View for HtmlEntryFlat {
    type V = HtmlEntryFlatV;

    open spec fn view(&self) -> HtmlEntryFlatV {
        flat_view(*self)
    }
}

/// The views of a sequence of entries.
pub open spec fn entries_view(s: Seq<HtmlEntry>) -> Seq<HtmlEntryV> {
    s.map_values(|e: HtmlEntry| entry_view(e))
}

/// The views of a sequence of flattened entries.
pub open spec fn flats_view(s: Seq<HtmlEntryFlat>) -> Seq<HtmlEntryFlatV> {
    s.map_values(|e: HtmlEntryFlat| flat_view(e))
}

/// A fresh list container of the given kind wrapping one list item.
pub open spec fn list_wrap(tag: Tag, item: ElementV) -> ElementV {
    ElementV { tag, attributes: Seq::empty(), children: seq![ElementChildV::Element(item)] }
}

/// The flattening accumulator: no list is open, or one list container of
/// either kind is being grown. At most one is ever open.
pub enum ListAcc {
    NoneOpen,
    UnorderedOpen(ElementV),
    OrderedOpen(ElementV),
}

pub open spec fn acc_rank(acc: ListAcc) -> nat {
    match acc {
        ListAcc::NoneOpen => 0,
        _ => 1,
    }
}

/// What a still-open accumulator contributes when it is flushed.
pub open spec fn acc_flush(acc: ListAcc) -> Seq<HtmlEntryFlatV> {
    match acc {
        ListAcc::NoneOpen => Seq::empty(),
        ListAcc::UnorderedOpen(e) => seq![HtmlEntryFlatV::Main(e)],
        ListAcc::OrderedOpen(e) => seq![HtmlEntryFlatV::Main(e)],
    }
}

/// What one entry emits when no list is open.
pub open spec fn no_list_emit(e: HtmlEntryV) -> Seq<HtmlEntryFlatV> {
    match e {
        HtmlEntryV::Metadata(y) => seq![HtmlEntryFlatV::Metadata(y)],
        HtmlEntryV::Main(el) => seq![HtmlEntryFlatV::Main(el)],
        _ => Seq::empty(),
    }
}

/// The accumulator one entry leaves behind when no list is open.
pub open spec fn no_list_state(e: HtmlEntryV) -> ListAcc {
    match e {
        HtmlEntryV::UnorderedList(el) => ListAcc::UnorderedOpen(
            list_wrap(Tag::UnorderedList, el),
        ),
        HtmlEntryV::OrderedList(el) => ListAcc::OrderedOpen(list_wrap(Tag::OrderedList, el)),
        _ => ListAcc::NoneOpen,
    }
}

/// The single left-to-right flattening fold: a same-kind list entry grows
/// the open accumulator; any other entry first flushes it; metadata and
/// body entries pass through; empty entries vanish; the end of the input
/// flushes whatever is still open.
pub open spec fn spec_flatten_loop(entries: Seq<HtmlEntryV>, acc: ListAcc) -> Seq<
    HtmlEntryFlatV,
>
    decreases entries.len(), acc_rank(acc),
{
    if entries.len() == 0 {
        acc_flush(acc)
    } else {
        match acc {
            ListAcc::UnorderedOpen(u) => match entries.first() {
                HtmlEntryV::UnorderedList(el) => spec_flatten_loop(
                    entries.drop_first(),
                    ListAcc::UnorderedOpen(with_child_v(u, ElementChildV::Element(el))),
                ),
                _ => seq![HtmlEntryFlatV::Main(u)] + spec_flatten_loop(
                    entries,
                    ListAcc::NoneOpen,
                ),
            },
            ListAcc::OrderedOpen(o) => match entries.first() {
                HtmlEntryV::OrderedList(el) => spec_flatten_loop(
                    entries.drop_first(),
                    ListAcc::OrderedOpen(with_child_v(o, ElementChildV::Element(el))),
                ),
                _ => seq![HtmlEntryFlatV::Main(o)] + spec_flatten_loop(
                    entries,
                    ListAcc::NoneOpen,
                ),
            },
            ListAcc::NoneOpen => no_list_emit(entries.first()) + spec_flatten_loop(
                entries.drop_first(),
                no_list_state(entries.first()),
            ),
        }
    }
}

/// The flattening of a sequence of entries.
pub open spec fn spec_flatten(entries: Seq<HtmlEntryV>) -> Seq<HtmlEntryFlatV> {
    spec_flatten_loop(entries, ListAcc::NoneOpen)
}

/// The executable flattening state, mirroring the accumulator.
#[derive(Debug)]
enum ListState {
    NoList,
    Unordered(Element),
    Ordered(Element),
}

spec fn state_view(st: ListState) -> ListAcc {
    match st {
        ListState::NoList => ListAcc::NoneOpen,
        ListState::Unordered(e) => ListAcc::UnorderedOpen(elem_view(e)),
        ListState::Ordered(e) => ListAcc::OrderedOpen(elem_view(e)),
    }
}

/// Handles one entry while no list is open: a list entry opens a fresh
/// container of its kind, metadata and body entries are emitted, an empty
/// entry is dropped.
fn step_no_list(e: HtmlEntry, out: &mut Vec<HtmlEntryFlat>) -> (st: ListState)
    ensures
        flats_view(final(out)@) == flats_view(old(out)@) + no_list_emit(e@),
        state_view(st) == no_list_state(e@),
{
    let ghost pre = out@;
    let st = match e {
        HtmlEntry::Metadata(y) => {
            out.push(HtmlEntryFlat::Metadata(y));
            ListState::NoList
        },
        HtmlEntry::Main(el) => {
            out.push(HtmlEntryFlat::Main(el));
            ListState::NoList
        },
        HtmlEntry::UnorderedList(el) => {
            let list = Element::new(Tag::UnorderedList).with_child(ElementChild::Element(el));
            ListState::Unordered(list)
        },
        HtmlEntry::OrderedList(el) => {
            let list = Element::new(Tag::OrderedList).with_child(ElementChild::Element(el));
            ListState::Ordered(list)
        },
        HtmlEntry::Empty => ListState::NoList,
    };
    proof {
        assert(flats_view(out@) =~~= flats_view(pre) + no_list_emit(e@));
        if st is Unordered || st is Ordered {
            assert(state_view(st) =~~= no_list_state(e@));
        }
    }
    st
}

/// Flattens one level of output entries: adjacent unordered-list entries
/// collapse into one unordered list, adjacent ordered-list entries into
/// one ordered list, a differing entry flushes the open list first, and
/// empty entries disappear. The result keeps input order.
pub fn html_entry_flatten(entries: Vec<HtmlEntry>) -> (r: Vec<HtmlEntryFlat>)
    ensures
        flats_view(r@) == spec_flatten(entries_view(entries@)),
{
    let ghost orig = entries_view(entries@);
    let mut rest = entries;
    let mut out: Vec<HtmlEntryFlat> = Vec::new();
    let mut state = ListState::NoList;
    while rest.len() > 0
        invariant
            flats_view(out@) + spec_flatten_loop(entries_view(rest@), state_view(state))
                =~~= spec_flatten(orig),
        decreases rest.len(),
    {
        let ghost pre_views = entries_view(rest@);
        let ghost pre_out = out@;
        let ghost pre_state = state_view(state);
        let e = rest.remove(0);
        proof {
            assert(entries_view(rest@) =~~= pre_views.drop_first());
            assert(e@ == pre_views.first());
        }
        match state {
            ListState::NoList => {
                state = step_no_list(e, &mut out);
                proof {
                    assert(spec_flatten_loop(pre_views, ListAcc::NoneOpen) == no_list_emit(
                        pre_views.first(),
                    ) + spec_flatten_loop(pre_views.drop_first(), no_list_state(
                        pre_views.first(),
                    )));
                }
            },
            ListState::Unordered(u) => {
                match e {
                    HtmlEntry::UnorderedList(el) => {
                        state = ListState::Unordered(u.with_child(ElementChild::Element(el)));
                        proof {
                            assert(state_view(state) =~~= ListAcc::UnorderedOpen(
                                with_child_v(elem_view(u), ElementChildV::Element(elem_view(el))),
                            ));
                        }
                    },
                    _ => {
                        out.push(HtmlEntryFlat::Main(u));
                        proof {
                            assert(flats_view(out@) =~~= flats_view(pre_out) + seq![
                                HtmlEntryFlatV::Main(elem_view(u)),
                            ]);
                            assert(spec_flatten_loop(pre_views, pre_state) == seq![
                                HtmlEntryFlatV::Main(elem_view(u)),
                            ] + spec_flatten_loop(pre_views, ListAcc::NoneOpen));
                            assert(spec_flatten_loop(pre_views, ListAcc::NoneOpen) == no_list_emit(
                                pre_views.first(),
                            ) + spec_flatten_loop(pre_views.drop_first(), no_list_state(
                                pre_views.first(),
                            )));
                        }
                        state = step_no_list(e, &mut out);
                    },
                }
            },
            ListState::Ordered(o) => {
                match e {
                    HtmlEntry::OrderedList(el) => {
                        state = ListState::Ordered(o.with_child(ElementChild::Element(el)));
                        proof {
                            assert(state_view(state) =~~= ListAcc::OrderedOpen(
                                with_child_v(elem_view(o), ElementChildV::Element(elem_view(el))),
                            ));
                        }
                    },
                    _ => {
                        out.push(HtmlEntryFlat::Main(o));
                        proof {
                            assert(flats_view(out@) =~~= flats_view(pre_out) + seq![
                                HtmlEntryFlatV::Main(elem_view(o)),
                            ]);
                            assert(spec_flatten_loop(pre_views, pre_state) == seq![
                                HtmlEntryFlatV::Main(elem_view(o)),
                            ] + spec_flatten_loop(pre_views, ListAcc::NoneOpen));
                            assert(spec_flatten_loop(pre_views, ListAcc::NoneOpen) == no_list_emit(
                                pre_views.first(),
                            ) + spec_flatten_loop(pre_views.drop_first(), no_list_state(
                                pre_views.first(),
                            )));
                        }
                        state = step_no_list(e, &mut out);
                    },
                }
            },
        }
        proof {
            assert(flats_view(out@) + spec_flatten_loop(entries_view(rest@), state_view(state))
                =~~= spec_flatten(orig));
        }
    }
    match state {
        ListState::NoList => {},
        ListState::Unordered(u) => {
            out.push(HtmlEntryFlat::Main(u));
        },
        ListState::Ordered(o) => {
            out.push(HtmlEntryFlat::Main(o));
        },
    }
    proof {
        assert(flats_view(out@) =~~= spec_flatten(orig));
    }
    out
}

/// True when no entry of the sequence is a list item of either kind.
pub open spec fn no_list_entries(s: Seq<HtmlEntryV>) -> bool {
    forall|i: int|
        0 <= i < s.len() ==> !(#[trigger] s[i] is UnorderedList) && !(s[i] is OrderedList)
}

/// The sequence with empty entries removed and the survivors carried over
/// unchanged (list entries never occur in its intended inputs).
pub open spec fn drop_empties(s: Seq<HtmlEntryV>) -> Seq<HtmlEntryFlatV>
    decreases s.len(),
{
    if s.len() == 0 {
        Seq::empty()
    } else {
        no_list_emit(s.first()) + drop_empties(s.drop_first())
    }
}

/// Flattening is the identity on already-flat input: a sequence without
/// list-item entries comes back unchanged, except that empty entries are
/// removed.
pub proof fn lemma_flatten_already_flat(s: Seq<HtmlEntryV>)
    requires
        no_list_entries(s),
    ensures
        spec_flatten(s) == drop_empties(s),
    decreases s.len(),
{
    if s.len() > 0 {
        assert(no_list_entries(s.drop_first()));
        lemma_flatten_already_flat(s.drop_first());
        assert(no_list_state(s.first()) == ListAcc::NoneOpen);
    }
}

/// A flattened sequence seen as plain entries again, each metadata or
/// body entry carried over unchanged.
pub open spec fn reinject(s: Seq<HtmlEntryFlatV>) -> Seq<HtmlEntryV>
    decreases s.len(),
{
    if s.len() == 0 {
        Seq::empty()
    } else {
        (match s.first() {
            HtmlEntryFlatV::Metadata(y) => seq![HtmlEntryV::Metadata(y)],
            HtmlEntryFlatV::Main(el) => seq![HtmlEntryV::Main(el)],
        }) + reinject(s.drop_first())
    }
}

/// Flattening is idempotent: feeding a flattening's output back in, as
/// entries, returns it unchanged.
pub proof fn lemma_flatten_idempotent(s: Seq<HtmlEntryFlatV>)
    ensures
        spec_flatten(reinject(s)) == s,
    decreases s.len(),
{
    if s.len() == 0 {
        assert(reinject(s).len() == 0);
    } else {
        lemma_flatten_idempotent(s.drop_first());
        let whole = reinject(s);
        assert(whole.drop_first() =~~= reinject(s.drop_first()));
        assert(no_list_state(whole.first()) == ListAcc::NoneOpen);
        assert(spec_flatten(whole) == no_list_emit(whole.first()) + spec_flatten_loop(
            whole.drop_first(),
            ListAcc::NoneOpen,
        ));
        assert(spec_flatten(whole) =~~= s);
    }
}

/// True when every entry of the sequence is an unordered-list item.
pub open spec fn all_unordered(s: Seq<HtmlEntryV>) -> bool {
    forall|i: int| 0 <= i < s.len() ==> #[trigger] s[i] is UnorderedList
}

/// The item elements of a run of unordered-list entries, in order, as
/// children of a list container.
pub open spec fn unordered_items(s: Seq<HtmlEntryV>) -> Seq<ElementChildV>
    decreases s.len(),
{
    if s.len() == 0 {
        Seq::empty()
    } else {
        (match s.first() {
            HtmlEntryV::UnorderedList(el) => seq![ElementChildV::Element(el)],
            _ => Seq::<ElementChildV>::empty(),
        }) + unordered_items(s.drop_first())
    }
}

proof fn lemma_flatten_unordered_open(s: Seq<HtmlEntryV>, u: ElementV)
    requires
        all_unordered(s),
    ensures
        spec_flatten_loop(s, ListAcc::UnorderedOpen(u)) == seq![
            HtmlEntryFlatV::Main(
                ElementV { children: u.children + unordered_items(s), ..u },
            ),
        ],
    decreases s.len(),
{
    if s.len() == 0 {
        assert(u.children + unordered_items(s) =~= u.children);
        assert(ElementV { children: u.children + unordered_items(s), ..u } =~~= u);
    } else {
        let el = match s.first() {
            HtmlEntryV::UnorderedList(el) => el,
            _ => u,
        };
        let grown = with_child_v(u, ElementChildV::Element(el));
        assert(all_unordered(s.drop_first()));
        lemma_flatten_unordered_open(s.drop_first(), grown);
        assert(grown.children + unordered_items(s.drop_first()) =~= u.children
            + unordered_items(s));
    }
}

/// A run of consecutive unordered-list entries flattens to exactly one
/// body entry wrapping one unordered-list container whose children are the
/// run's item elements, in original order.
pub proof fn lemma_flatten_unordered_run(s: Seq<HtmlEntryV>)
    requires
        s.len() > 0,
        all_unordered(s),
    ensures
        spec_flatten(s) == seq![
            HtmlEntryFlatV::Main(
                ElementV {
                    tag: Tag::UnorderedList,
                    attributes: Seq::empty(),
                    children: unordered_items(s),
                },
            ),
        ],
{
    let el = match s.first() {
        HtmlEntryV::UnorderedList(el) => el,
        _ => arbitrary(),
    };
    let opened = list_wrap(Tag::UnorderedList, el);
    assert(all_unordered(s.drop_first()));
    lemma_flatten_unordered_open(s.drop_first(), opened);
    assert(opened.children + unordered_items(s.drop_first()) =~= unordered_items(s));
}

/// Interleaving list kinds never merges across kinds: an unordered item,
/// an ordered item, and another unordered item flatten to three separate
/// one-item lists, in that order.
pub proof fn lemma_flatten_interleaved(a: ElementV, b: ElementV, c: ElementV)
    ensures
        spec_flatten(
            seq![
                HtmlEntryV::UnorderedList(a),
                HtmlEntryV::OrderedList(b),
                HtmlEntryV::UnorderedList(c),
            ],
        ) == seq![
            HtmlEntryFlatV::Main(list_wrap(Tag::UnorderedList, a)),
            HtmlEntryFlatV::Main(list_wrap(Tag::OrderedList, b)),
            HtmlEntryFlatV::Main(list_wrap(Tag::UnorderedList, c)),
        ],
{
    let s = seq![
        HtmlEntryV::UnorderedList(a),
        HtmlEntryV::OrderedList(b),
        HtmlEntryV::UnorderedList(c),
    ];
    let s1 = s.drop_first();
    let s2 = s1.drop_first();
    let s3 = s2.drop_first();
    assert(s1 =~= seq![HtmlEntryV::OrderedList(b), HtmlEntryV::UnorderedList(c)]);
    assert(s2 =~= seq![HtmlEntryV::UnorderedList(c)]);
    assert(s3 =~= Seq::<HtmlEntryV>::empty());
    let wa = list_wrap(Tag::UnorderedList, a);
    let wb = list_wrap(Tag::OrderedList, b);
    let wc = list_wrap(Tag::UnorderedList, c);
    assert(spec_flatten_loop(s3, ListAcc::UnorderedOpen(wc)) == seq![
        HtmlEntryFlatV::Main(wc),
    ]);
    assert(spec_flatten_loop(s2, ListAcc::NoneOpen) == no_list_emit(s2.first())
        + spec_flatten_loop(s3, ListAcc::UnorderedOpen(wc)));
    assert(spec_flatten_loop(s2, ListAcc::OrderedOpen(wb)) == seq![HtmlEntryFlatV::Main(wb)]
        + spec_flatten_loop(s2, ListAcc::NoneOpen));
    assert(spec_flatten_loop(s1, ListAcc::NoneOpen) == no_list_emit(s1.first())
        + spec_flatten_loop(s2, ListAcc::OrderedOpen(wb)));
    assert(spec_flatten_loop(s1, ListAcc::UnorderedOpen(wa)) == seq![HtmlEntryFlatV::Main(wa)]
        + spec_flatten_loop(s1, ListAcc::NoneOpen));
    assert(spec_flatten(s) == no_list_emit(s.first()) + spec_flatten_loop(
        s1,
        ListAcc::UnorderedOpen(wa),
    ));
    assert(spec_flatten(s) =~= seq![
        HtmlEntryFlatV::Main(list_wrap(Tag::UnorderedList, a)),
        HtmlEntryFlatV::Main(list_wrap(Tag::OrderedList, b)),
        HtmlEntryFlatV::Main(list_wrap(Tag::UnorderedList, c)),
    ]);
}

} // verus!
