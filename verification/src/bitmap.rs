//! Sets of document ids, held as roaring bitmaps, and their compact encoding.

use vstd::prelude::*;
use vstd::bytes::{spec_u32_to_le_bytes, u32_to_le_bytes};

verus! {

#[verifier::external_type_specification]
#[verifier::external_body]
pub struct ExRoaringBitmap(roaring::RoaringBitmap);

/// The integers that a bitmap holds.
pub uninterp spec fn bitmap_set(bitmap: roaring::RoaringBitmap) -> Set<u32>;

/// The integers that a bitmap holds, from the least to the greatest.
pub uninterp spec fn bitmap_values(bitmap: roaring::RoaringBitmap) -> Seq<u32>;

/// The bytes of a bitmap in the standard format of roaring bitmaps.
pub uninterp spec fn bitmap_serialized(bitmap: roaring::RoaringBitmap) -> Seq<u8>;

/// Whether each integer of the list is greater than the one before it.
pub open spec fn is_increasing(values: Seq<u32>) -> bool {
    forall|i: int, j: int| 0 <= i < j < values.len() ==> values[i] < values[j]
}

/// Calls `RoaringBitmap::from` on an array of one integer, which makes the
/// bitmap that holds this integer alone.
#[verifier::external_body]
pub(crate) fn bitmap_from_one(n: u32) -> (bitmap: roaring::RoaringBitmap)
    ensures
        bitmap_set(bitmap) == Set::<u32>::empty().insert(n),
{
    roaring::RoaringBitmap::from([n])
}

/// Calls `RoaringBitmap::insert`, which adds a value to the set and returns
/// whether the value was absent from it.
#[verifier::external_body]
pub(crate) fn bitmap_insert(bitmap: &mut roaring::RoaringBitmap, n: u32) -> (absent: bool)
    ensures
        bitmap_set(*final(bitmap)) == bitmap_set(*old(bitmap)).insert(n),
        absent == !bitmap_set(*old(bitmap)).contains(n),
{
    bitmap.insert(n)
}

/// Calls `RoaringBitmap::new`, which makes an empty bitmap.
#[verifier::external_body]
pub(crate) fn bitmap_new() -> (bitmap: roaring::RoaringBitmap)
    ensures
        bitmap_set(bitmap) == Set::<u32>::empty(),
{
    roaring::RoaringBitmap::new()
}

/// Calls `RoaringBitmap::is_empty`, which tells whether there are no
/// integers in the set.
#[verifier::external_body]
pub(crate) fn bitmap_is_empty(bitmap: &roaring::RoaringBitmap) -> (empty: bool)
    ensures
        empty == (bitmap_set(*bitmap) == Set::<u32>::empty()),
{
    bitmap.is_empty()
}

/// Calls `|=` between two bitmaps, which is the union of the two sets.
#[verifier::external_body]
pub(crate) fn bitmap_union_with(bitmap: &mut roaring::RoaringBitmap, other: &roaring::RoaringBitmap)
    ensures
        bitmap_set(*final(bitmap)) == bitmap_set(*old(bitmap)).union(bitmap_set(*other)),
{
    *bitmap |= other;
}

/// Calls `-=` between two bitmaps, which is the difference of the two sets.
#[verifier::external_body]
pub(crate) fn bitmap_remove_all(bitmap: &mut roaring::RoaringBitmap, other: &roaring::RoaringBitmap)
    ensures
        bitmap_set(*final(bitmap)) == bitmap_set(*old(bitmap)).difference(bitmap_set(*other)),
{
    *bitmap -= other;
}

/// Calls `RoaringBitmap::contains`, which tells whether the set holds the integer.
#[verifier::external_body]
pub(crate) fn bitmap_contains(bitmap: &roaring::RoaringBitmap, n: u32) -> (held: bool)
    ensures
        held == bitmap_set(*bitmap).contains(n),
{
    bitmap.contains(n)
}

/// Calls `RoaringBitmap::len`, which returns the number of distinct
/// integers of the set. They are integers of 32 bits: there are no more
/// than 2^32 of them.
#[verifier::external_body]
pub(crate) fn bitmap_len(bitmap: &roaring::RoaringBitmap) -> (count: u64)
    ensures
        count == bitmap_values(*bitmap).len(),
        count <= 0x1_0000_0000,
{
    bitmap.len()
}

/// Calls `RoaringBitmap::select`, which returns the `n`th integer of the
/// set, counted from 0 in the order of the values, or `None` if the set
/// holds no more than `n` integers.
#[verifier::external_body]
pub(crate) fn bitmap_select(bitmap: &roaring::RoaringBitmap, n: u32) -> (r: Option<u32>)
    ensures
        match r {
            Some(value) => n < bitmap_values(*bitmap).len() && value == bitmap_values(
                *bitmap,
            )[n as int],
            None => n >= bitmap_values(*bitmap).len(),
        },
{
    bitmap.select(n)
}

/// Calls `RoaringBitmap::iter` and collects the integers it yields: each
/// integer of the set once, ordered by value.
#[verifier::external_body]
pub(crate) fn bitmap_to_vec(bitmap: &roaring::RoaringBitmap) -> (values: Vec<u32>)
    ensures
        values@ == bitmap_values(*bitmap),
        is_increasing(values@),
        values@.to_set() == bitmap_set(*bitmap),
{
    bitmap.iter().collect()
}

/// Calls `RoaringBitmap::serialize_into` on a vector, which appends the
/// bytes of the bitmap in the standard format. Writing to a vector cannot fail.
#[verifier::external_body]
pub(crate) fn bitmap_serialize_into(bitmap: &roaring::RoaringBitmap, out: &mut Vec<u8>)
    ensures
        final(out)@ == old(out)@ + bitmap_serialized(*bitmap),
{
    bitmap.serialize_into(&mut *out).unwrap()
}

/// The number of integers up to which a bitmap is written as the list of
/// its integers: so few take no more room than the header of the standard format.
pub const THRESHOLD: usize = 7;

/// The integers one after the other, each as four bytes, the lowest first.
pub open spec fn spec_integers_bytes(values: Seq<u32>) -> Seq<u8>
    decreases values.len(),
{
    if values.len() == 0 {
        Seq::empty()
    } else {
        spec_integers_bytes(values.drop_last()) + spec_u32_to_le_bytes(values.last())
    }
}

/// The compact encoding of a bitmap: the list of its integers where they
/// are at most [`THRESHOLD`], else the standard format.
pub open spec fn spec_cbo_bytes(bitmap: roaring::RoaringBitmap) -> Seq<u8> {
    if bitmap_values(bitmap).len() <= THRESHOLD {
        spec_integers_bytes(bitmap_values(bitmap))
    } else {
        bitmap_serialized(bitmap)
    }
}

/// The codec of the compact encoding of bitmaps.
pub struct CboRoaringBitmapCodec;

impl CboRoaringBitmapCodec {
    /// Appends the compact encoding of the bitmap to `vec`.
    pub fn serialize_into(roaring: &roaring::RoaringBitmap, vec: &mut Vec<u8>)
        ensures
            final(vec)@ == old(vec)@ + spec_cbo_bytes(*roaring),
    {
        if bitmap_len(roaring) <= THRESHOLD as u64 {
            // so few integers weigh no more than the header of the standard
            // format: they are written one after the other
            let values = bitmap_to_vec(roaring);
            let mut i: usize = 0;
            assert(values@.subrange(0, 0) =~= Seq::<u32>::empty());
            assert(old(vec)@ + Seq::<u8>::empty() =~= old(vec)@);
            while i < values.len()
                invariant
                    i <= values.len(),
                    vec@ == old(vec)@ + spec_integers_bytes(values@.subrange(0, i as int)),
                decreases values.len() - i,
            {
                let bytes = u32_to_le_bytes(values[i]);
                let ghost before = vec@;
                let mut k: usize = 0;
                while k < bytes.len()
                    invariant
                        k <= bytes.len(),
                        vec@ == before + bytes@.subrange(0, k as int),
                    decreases bytes.len() - k,
                {
                    vec.push(bytes[k]);
                    k += 1;
                    assert(vec@ =~= before + bytes@.subrange(0, k as int));
                }
                proof {
                    assert(bytes@.subrange(0, bytes@.len() as int) =~= bytes@);
                    let done = values@.subrange(0, i as int);
                    let next = values@.subrange(0, i + 1);
                    assert(next.drop_last() =~= done);
                    assert(next.last() == values@[i as int]);
                    assert((old(vec)@ + spec_integers_bytes(done)) + bytes@ =~= old(vec)@ + (
                    spec_integers_bytes(done) + bytes@));
                }
                i += 1;
            }
            assert(values@.subrange(0, values@.len() as int) =~= values@);
        } else {
            // more integers are written in the standard format, with its header
            bitmap_serialize_into(roaring, vec);
        }
    }
}

} // verus!
