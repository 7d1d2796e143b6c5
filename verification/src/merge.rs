//! The merge of the entries of one key into the table of an index.
//!
//! The sorted stream may hold several entries for one key. Their document
//! ids to take out are taken out of what the table holds for the key, then
//! their document ids to put in are put in. A key that is left without any
//! document id leaves the table.

use vstd::prelude::*;
use crate::bitmap::{
    bitmap_is_empty, bitmap_new, bitmap_remove_all, bitmap_set, bitmap_union_with,
};

verus! {

/// The sets of a list of bitmaps.
pub open spec fn sets_of(bitmaps: Seq<roaring::RoaringBitmap>) -> Seq<Set<u32>> {
    Seq::new(bitmaps.len(), |i: int| bitmap_set(bitmaps[i]))
}

/// The union of the first `upto` sets.
pub open spec fn union_of(sets: Seq<Set<u32>>, upto: nat) -> Set<u32>
    decreases upto,
{
    if upto == 0 || upto > sets.len() {
        Set::empty()
    } else {
        union_of(sets, (upto - 1) as nat).union(sets[upto - 1])
    }
}

/// What the table holds for a key after the merge: what it held, without
/// the document ids to take out, with the document ids to put in.
pub open spec fn spec_merged(existing: Set<u32>, dels: Seq<Set<u32>>, adds: Seq<Set<u32>>) -> Set<
    u32,
> {
    existing.difference(union_of(dels, dels.len())).union(union_of(adds, adds.len()))
}

fn union_all(bitmaps: &Vec<roaring::RoaringBitmap>) -> (all: roaring::RoaringBitmap)
    ensures
        bitmap_set(all) == union_of(sets_of(bitmaps@), bitmaps@.len()),
{
    let mut all = bitmap_new();
    let mut i: usize = 0;
    while i < bitmaps.len()
        invariant
            i <= bitmaps.len(),
            bitmap_set(all) == union_of(sets_of(bitmaps@), i as nat),
        decreases bitmaps.len() - i,
    {
        bitmap_union_with(&mut all, &bitmaps[i]);
        i += 1;
    }
    all
}

/// Merges the entries of a key into what the table holds for it: the
/// unions of the document ids to take out and to put in are applied in
/// that order. `None` where nothing is left: the key leaves the table.
pub fn merge_into_table(
    existing: Option<roaring::RoaringBitmap>,
    dels: &Vec<roaring::RoaringBitmap>,
    adds: &Vec<roaring::RoaringBitmap>,
) -> (merged: Option<roaring::RoaringBitmap>)
    ensures
        ({
            let held = match existing {
                Some(bitmap) => bitmap_set(bitmap),
                None => Set::empty(),
            };
            let left = spec_merged(held, sets_of(dels@), sets_of(adds@));
            match merged {
                Some(bitmap) => bitmap_set(bitmap) == left && left != Set::<u32>::empty(),
                None => left == Set::<u32>::empty(),
            }
        }),
{
    let mut bitmap = match existing {
        Some(bitmap) => bitmap,
        None => bitmap_new(),
    };
    let del = union_all(dels);
    let add = union_all(adds);
    bitmap_remove_all(&mut bitmap, &del);
    bitmap_union_with(&mut bitmap, &add);
    if bitmap_is_empty(&bitmap) {
        None
    } else {
        Some(bitmap)
    }
}

/// A document id that is both taken out and put in is in the table after
/// the merge: the additions come last.
pub proof fn lemma_additions_win(
    existing: Set<u32>,
    dels: Seq<Set<u32>>,
    adds: Seq<Set<u32>>,
    k: int,
    id: u32,
)
    requires
        0 <= k < adds.len(),
        adds[k].contains(id),
    ensures
        spec_merged(existing, dels, adds).contains(id),
{
    lemma_union_holds(adds, adds.len(), k, id);
}

/// What one of the sets holds, their union holds.
pub proof fn lemma_union_holds(sets: Seq<Set<u32>>, upto: nat, k: int, id: u32)
    requires
        0 <= k < upto <= sets.len(),
        sets[k].contains(id),
    ensures
        union_of(sets, upto).contains(id),
    decreases upto,
{
    if k < upto - 1 {
        lemma_union_holds(sets, (upto - 1) as nat, k, id);
    }
}

} // verus!
