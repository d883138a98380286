//! The glyph collector: an insertion-ordered set of the font's glyph ids whose
//! positions are the local ids of the eventual subset font.
use vstd::prelude::*;
use vstd::set_lib::{lemma_int_range, lemma_len_subset, set_int_range};

use crate::text::GlyphPosition;

verus! {

#[verifier::external_type_specification]
#[verifier::external_body]
#[verifier::reject_recursive_types(T)]
#[verifier::reject_recursive_types(S)]
pub struct ExIndexSet<T, S>(indexmap::IndexSet<T, S>);

/// The glyph ids held by a collector, in insertion order.
pub uninterp spec fn collected(s: indexmap::IndexSet<u16>) -> Seq<u16>;

/// Relies on `IndexSet::new`: a new set holds nothing.
#[verifier::external_body]
pub(crate) fn empty_index_set() -> (r: indexmap::IndexSet<u16>)
    ensures
        collected(r) == Seq::<u16>::empty(),
{
    indexmap::IndexSet::new()
}

/// Relies on `IndexSet::insert_full`: an id already present keeps its
/// position and leaves the set unchanged; a new id is appended at the end.
#[verifier::external_body]
pub(crate) fn insert_full(s: &mut indexmap::IndexSet<u16>, v: u16) -> (r: (usize, bool))
    ensures
        collected(*old(s)).contains(v) ==> {
            &&& collected(*final(s)) == collected(*old(s))
            &&& r.0 < collected(*old(s)).len()
            &&& collected(*old(s))[r.0 as int] == v
            &&& !r.1
        },
        !collected(*old(s)).contains(v) ==> {
            &&& collected(*final(s)) == collected(*old(s)).push(v)
            &&& r.0 == collected(*old(s)).len()
            &&& r.1
        },
{
    s.insert_full(v)
}

/// Relies on `IndexSet::iter`: the ids come out in insertion order.
#[verifier::external_body]
pub(crate) fn collected_ids(s: &indexmap::IndexSet<u16>) -> (r: Vec<u16>)
    ensures
        r@ == collected(*s),
{
    s.iter().copied().collect()
}

/// Relies on `IndexSet::len`: the number of ids held.
#[verifier::external_body]
pub(crate) fn collected_len(s: &indexmap::IndexSet<u16>) -> (r: usize)
    ensures
        r == collected(*s).len(),
{
    s.len()
}

/// A new collector, seeded with glyph 0 (the missing-glyph slot), which every
/// subset must hold first.
pub fn new_collector() -> (r: indexmap::IndexSet<u16>)
    ensures
        collected(r) == seq![0u16],
{
    let mut s = empty_index_set();
    insert_full(&mut s, 0);
    proof {
        assert(collected(s) =~= seq![0u16]);
    }
    s
}

/// What a collector holds after `ids` are offered to it in order: each id not
/// yet present is appended.
pub open spec fn collect_all(items: Seq<u16>, ids: Seq<u16>) -> Seq<u16>
    decreases ids.len(),
{
    if ids.len() == 0 {
        items
    } else {
        let prev = collect_all(items, ids.drop_last());
        if prev.contains(ids.last()) {
            prev
        } else {
            prev.push(ids.last())
        }
    }
}

/// The font's own glyph ids of shaped glyphs.
pub open spec fn glyph_ids(ps: Seq<GlyphPosition>) -> Seq<u16> {
    ps.map_values(|p: GlyphPosition| p.glyph_index)
}

/// A glyph whose id was replaced by its local id in `items`.
pub open spec fn localized(items: Seq<u16>, before: GlyphPosition, after: GlyphPosition) -> bool {
    &&& 0 <= after.glyph_index < items.len()
    &&& items[after.glyph_index as int] == before.glyph_index
    &&& after == (GlyphPosition { glyph_index: after.glyph_index, ..before })
}

/// A sequence of distinct `u16` values holds at most 65536 of them.
pub proof fn lemma_distinct_ids_fit(s: Seq<u16>)
    requires
        s.no_duplicates(),
    ensures
        s.len() <= 0x1_0000,
{
    let t = s.map_values(|v: u16| v as int);
    assert(t.no_duplicates()) by {
        assert forall|i: int, j: int| 0 <= i < t.len() && 0 <= j < t.len() && i != j implies t[i]
            != t[j] by {
            assert(s[i] != s[j]);
        }
    }
    t.unique_seq_to_set();
    lemma_int_range(0, 0x1_0000);
    assert(t.to_set().subset_of(set_int_range(0, 0x1_0000)));
    lemma_len_subset(t.to_set(), set_int_range(0, 0x1_0000));
}

/// Offering ids to a collector keeps what it held in front, and keeps its
/// ids distinct.
pub proof fn lemma_collect_extends(items: Seq<u16>, ids: Seq<u16>)
    requires
        items.no_duplicates(),
    ensures
        collect_all(items, ids).no_duplicates(),
        collect_all(items, ids).len() >= items.len(),
        collect_all(items, ids).subrange(0, items.len() as int) == items,
        forall|k: int| 0 <= k < ids.len() ==> collect_all(items, ids).contains(#[trigger] ids[k]),
    decreases ids.len(),
{
    if ids.len() > 0 {
        let prev = collect_all(items, ids.drop_last());
        lemma_collect_extends(items, ids.drop_last());
        assert forall|k: int| 0 <= k < ids.len() implies collect_all(items, ids).contains(
            #[trigger] ids[k],
        ) by {
            if k < ids.len() - 1 {
                assert(ids.drop_last()[k] == ids[k]);
                assert(prev.contains(ids.drop_last()[k]));
                if !prev.contains(ids.last()) {
                    let j = choose|j: int| 0 <= j < prev.len() && prev[j] == ids[k];
                    assert(prev.push(ids.last())[j] == ids[k]);
                }
            } else if !prev.contains(ids.last()) {
                assert(prev.push(ids.last())[prev.len() as int] == ids.last());
            }
        }
        if !prev.contains(ids.last()) {
            assert(prev.push(ids.last()).subrange(0, items.len() as int) =~= prev.subrange(
                0,
                items.len() as int,
            ));
        }
    }
}

/// Replaces the glyph id of each shaped glyph by its local id: its position in
/// the collector, where an id seen for the first time is appended. Ids already
/// in the collector keep their positions.
pub fn collect_glyphs(collector: &mut indexmap::IndexSet<u16>, positions: &mut Vec<GlyphPosition>)
    requires
        collected(*old(collector)).no_duplicates(),
    ensures
        collected(*final(collector)) == collect_all(
            collected(*old(collector)),
            glyph_ids(old(positions)@),
        ),
        collected(*final(collector)).no_duplicates(),
        final(positions)@.len() == old(positions)@.len(),
        forall|i: int|
            0 <= i < old(positions)@.len() ==> localized(
                collected(*final(collector)),
                #[trigger] old(positions)@[i],
                final(positions)@[i],
            ),
{
    let ghost items0 = collected(*collector);
    let ghost ids = glyph_ids(positions@);
    let mut out: Vec<GlyphPosition> = Vec::new();
    let mut i: usize = 0;
    while i < positions.len()
        invariant
            i <= positions@.len(),
            ids == glyph_ids(positions@),
            items0.no_duplicates(),
            collected(*collector) == collect_all(items0, ids.subrange(0, i as int)),
            out@.len() == i,
            forall|j: int|
                0 <= j < i ==> localized(collected(*collector), #[trigger] positions@[j], out@[j]),
        decreases positions@.len() - i,
    {
        let g = positions[i];
        let ghost before = collected(*collector);
        proof {
            lemma_collect_extends(items0, ids.subrange(0, i as int));
            lemma_distinct_ids_fit(before);
        }
        let (local, _) = insert_full(collector, g.glyph_index);
        proof {
            assert(ids.subrange(0, i as int + 1).drop_last() =~= ids.subrange(0, i as int));
            assert(ids.subrange(0, i as int + 1).last() == g.glyph_index);
            lemma_collect_extends(items0, ids.subrange(0, i as int + 1));
            lemma_distinct_ids_fit(collected(*collector));
            assert forall|j: int| 0 <= j < i implies localized(
                collected(*collector),
                #[trigger] positions@[j],
                out@[j],
            ) by {
                assert(localized(before, positions@[j], out@[j]));
                if !before.contains(g.glyph_index) {
                    assert(collected(*collector)[out@[j].glyph_index as int]
                        == before[out@[j].glyph_index as int]);
                }
            }
        }
        out.push(GlyphPosition { glyph_index: local as u16, ..g });
        i = i + 1;
    }
    proof {
        assert(ids.subrange(0, positions@.len() as int) =~= ids);
        lemma_collect_extends(items0, ids);
    }
    *positions = out;
}

/// Collecting in two calls is collecting the concatenation in one.
pub proof fn lemma_collect_concat(items: Seq<u16>, a: Seq<u16>, b: Seq<u16>)
    ensures
        collect_all(collect_all(items, a), b) == collect_all(items, a + b),
    decreases b.len(),
{
    if b.len() == 0 {
        assert(a + b =~= a);
    } else {
        lemma_collect_concat(items, a, b.drop_last());
        assert((a + b).drop_last() =~= a + b.drop_last());
        assert((a + b).last() == b.last());
    }
}

/// Local ids of one font in one document: glyphs shaped by successive calls
/// against a collector seeded with glyph 0 get the ids that one pass over all
/// their glyphs in order would give. Glyph 0 keeps local id 0, each font glyph
/// id appears once, every shaped id has a local id, and ids assigned by the
/// first calls are never renumbered by later ones.
pub proof fn lemma_local_ids(first: Seq<u16>, later: Seq<u16>)
    ensures
        collect_all(collect_all(seq![0u16], first), later) == collect_all(
            seq![0u16],
            first + later,
        ),
        collect_all(seq![0u16], first + later).no_duplicates(),
        collect_all(seq![0u16], first + later)[0] == 0,
        collect_all(seq![0u16], first + later).subrange(
            0,
            collect_all(seq![0u16], first).len() as int,
        ) == collect_all(seq![0u16], first),
        forall|k: int|
            0 <= k < first.len() + later.len() ==> collect_all(seq![0u16], first + later).contains(
                #[trigger] (first + later)[k],
            ),
{
    let seed = seq![0u16];
    lemma_collect_concat(seed, first, later);
    lemma_collect_extends(seed, first + later);
    lemma_collect_extends(seed, first);
    lemma_collect_extends(collect_all(seed, first), later);
    assert(collect_all(seed, first + later).subrange(0, 1)[0] == 0);
}

} // verus!
