//! The walk over the leaves of a stored field, by an accept list alone.

use vstd::prelude::*;
use crate::extract::perm_json_p::{
    leaves_in_array, leaves_in_object, opt_strs, spec_contained_in, strs, views, walk_array,
    walk_object,
};
use crate::json::{view_entries, view_items, Json, Member};

verus! {

/// Returns `true` if the `selector` matches the `key`: it starts with the
/// key, and what follows the key in it, if anything, begins with a dot.
pub fn contained_in(selector: &str, key: &str) -> (r: bool)
    ensures
        r == spec_contained_in(selector@, key@),
{
    crate::extract::perm_json_p::contained_in(selector, key)
}

/// Lists the leaves of an object that the selectors relate to, from the
/// top of the object.
pub fn seek_leaf_values(value: &Vec<Member>, selectors: &[&str], leaves: &mut Vec<Member>)
    ensures
        views(final(leaves)@) == views(old(leaves)@) + leaves_in_object(
            view_entries(value@),
            Some(strs(selectors@)),
            Seq::empty(),
            Seq::empty(),
            false,
        ),
{
    let none: Vec<&str> = Vec::new();
    assert(strs(none@) =~= Seq::<Seq<char>>::empty());
    let top = "";
    proof {
        reveal_strlit("");
        assert(top@ =~= Seq::<char>::empty());
    }
    walk_object(value, Some(selectors), none.as_slice(), top, false, leaves)
}

/// Lists the leaves of an object under `base_key` that the selectors
/// relate to. An object without members has no leaf.
pub fn seek_leaf_values_in_object(
    value: &Vec<Member>,
    selectors: Option<&[&str]>,
    base_key: &str,
    leaves: &mut Vec<Member>,
)
    ensures
        views(final(leaves)@) == views(old(leaves)@) + leaves_in_object(
            view_entries(value@),
            opt_strs(selectors),
            Seq::empty(),
            base_key@,
            false,
        ),
{
    let none: Vec<&str> = Vec::new();
    assert(strs(none@) =~= Seq::<Seq<char>>::empty());
    walk_object(value, selectors, none.as_slice(), base_key, false, leaves)
}

/// Lists the leaves of an array under `base_key` that the selectors relate
/// to. An array without items has no leaf.
pub fn seek_leaf_values_in_array(
    values: &[Json],
    selectors: Option<&[&str]>,
    base_key: &str,
    leaves: &mut Vec<Member>,
)
    ensures
        views(final(leaves)@) == views(old(leaves)@) + leaves_in_array(
            view_items(values@),
            opt_strs(selectors),
            Seq::empty(),
            base_key@,
            false,
        ),
{
    let none: Vec<&str> = Vec::new();
    assert(strs(none@) =~= Seq::<Seq<char>>::empty());
    walk_array(values, selectors, none.as_slice(), base_key, false, leaves)
}

} // verus!
