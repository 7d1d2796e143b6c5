//! Permissive selection of the fields of a JSON document by dotted paths,
//! and the walk that lists the selected leaves of a value.

use vstd::prelude::*;
use vstd::string::*;
use crate::json::{view_entries, view_items, lemma_view_array, lemma_view_object, JsonView, Member, MemberView, Json};
use crate::text::{chars_of, starts_with};

verus! {

/// The character that parts the steps of a path.
pub const SPLIT_SYMBOL: char = '.';

/// `selector` starts with `key`, and what follows `key` in it, if anything,
/// begins with the split symbol.
///
/// ```text
/// `animaux`           matches `animaux`
/// `animaux.chien`     matches `animaux`
/// `animaux.chien.nom` matches `animaux.chien`
/// `animaux.`          matches `animaux`
/// -----------------------------------------
/// `animaux`      doesn't match `animaux.chien`
/// `animauxchien` doesn't match `animaux`
/// `animau`       doesn't match `animaux`
/// ```
pub open spec fn spec_contained_in(selector: Seq<char>, key: Seq<char>) -> bool {
    key.is_prefix_of(selector) && (selector.len() == key.len() || selector[key.len() as int]
        == SPLIT_SYMBOL)
}

/// Whether `name` and `selector` lie on one path: one is contained in the other.
pub open spec fn spec_related(selector: Seq<char>, name: Seq<char>) -> bool {
    spec_contained_in(selector, name) || spec_contained_in(name, selector)
}

/// Whether some selector of the list lies on one path with `name`.
pub open spec fn spec_any_related(name: Seq<char>, selectors: Seq<Seq<char>>) -> bool {
    exists|i: int| 0 <= i < selectors.len() && spec_related(#[trigger] selectors[i], name)
}

/// A field is selected when the accept list, if there is one, holds a
/// selector related to it, and the skip list holds none.
pub open spec fn spec_select_field(
    name: Seq<char>,
    selectors: Option<Seq<Seq<char>>>,
    skip_selectors: Seq<Seq<char>>,
) -> bool {
    (match selectors {
        None => true,
        Some(list) => spec_any_related(name, list),
    }) && !spec_any_related(name, skip_selectors)
}

/// The character sequences of a list of strings.
pub open spec fn strs(list: Seq<&str>) -> Seq<Seq<char>> {
    Seq::new(list.len(), |i: int| list[i]@)
}

/// The character sequences of an optional list of strings.
pub open spec fn opt_strs(list: Option<&[&str]>) -> Option<Seq<Seq<char>>> {
    match list {
        Some(l) => Some(strs(l@)),
        None => None,
    }
}

/// The key of a member below `base`: the member's own key at the top, else
/// the base, the split symbol and the key.
pub open spec fn compose_key(base: Seq<char>, key: Seq<char>) -> Seq<char> {
    if base.len() == 0 {
        key
    } else {
        base + seq![SPLIT_SYMBOL] + key
    }
}

/// The leaves of `value` under `key`, in the order of the walk.
pub open spec fn leaves_of_value(
    value: JsonView,
    selectors: Option<Seq<Seq<char>>>,
    skip_selectors: Seq<Seq<char>>,
    key: Seq<char>,
    emit_empty: bool,
) -> Seq<MemberView>
    decreases value, 0nat, 0nat,
{
    match value {
        JsonView::Object(entries) => leaves_in_object(
            entries,
            selectors,
            skip_selectors,
            key,
            emit_empty,
        ),
        JsonView::Array(items) => leaves_in_array(
            items,
            selectors,
            skip_selectors,
            key,
            emit_empty,
        ),
        _ => seq![MemberView { key, value }],
    }
}

/// The leaves of an object under `base`. With `emit_empty`, an object without
/// members is a leaf itself.
pub open spec fn leaves_in_object(
    entries: Seq<MemberView>,
    selectors: Option<Seq<Seq<char>>>,
    skip_selectors: Seq<Seq<char>>,
    base: Seq<char>,
    emit_empty: bool,
) -> Seq<MemberView>
    decreases entries, 2nat, 0nat,
{
    (if entries.len() == 0 && emit_empty {
        seq![MemberView { key: base, value: JsonView::Object(Seq::empty()) }]
    } else {
        Seq::empty()
    }) + leaves_of_members(entries, 0, selectors, skip_selectors, base, emit_empty)
}

/// The leaves of the members of an object from index `from` on.
pub open spec fn leaves_of_members(
    entries: Seq<MemberView>,
    from: nat,
    selectors: Option<Seq<Seq<char>>>,
    skip_selectors: Seq<Seq<char>>,
    base: Seq<char>,
    emit_empty: bool,
) -> Seq<MemberView>
    decreases entries, 1nat, entries.len() - from,
{
    if from >= entries.len() {
        Seq::empty()
    } else {
        let key = compose_key(base, entries[from as int].key);
        (if spec_select_field(key, selectors, skip_selectors) {
            leaves_of_value(entries[from as int].value, selectors, skip_selectors, key, emit_empty)
        } else {
            Seq::empty()
        }) + leaves_of_members(entries, from + 1, selectors, skip_selectors, base, emit_empty)
    }
}

/// The leaves of an array under `base`: every item is walked under the
/// array's own key. With `emit_empty`, an array without items is a leaf itself.
pub open spec fn leaves_in_array(
    items: Seq<JsonView>,
    selectors: Option<Seq<Seq<char>>>,
    skip_selectors: Seq<Seq<char>>,
    base: Seq<char>,
    emit_empty: bool,
) -> Seq<MemberView>
    decreases items, 2nat, 0nat,
{
    (if items.len() == 0 && emit_empty {
        seq![MemberView { key: base, value: JsonView::Array(Seq::empty()) }]
    } else {
        Seq::empty()
    }) + leaves_of_items(items, 0, selectors, skip_selectors, base, emit_empty)
}

/// The leaves of the items of an array from index `from` on.
pub open spec fn leaves_of_items(
    items: Seq<JsonView>,
    from: nat,
    selectors: Option<Seq<Seq<char>>>,
    skip_selectors: Seq<Seq<char>>,
    base: Seq<char>,
    emit_empty: bool,
) -> Seq<MemberView>
    decreases items, 1nat, items.len() - from,
{
    if from >= items.len() {
        Seq::empty()
    } else {
        leaves_of_value(items[from as int], selectors, skip_selectors, base, emit_empty)
            + leaves_of_items(items, from + 1, selectors, skip_selectors, base, emit_empty)
    }
}

/// Returns `true` if the `selector` matches the `key`.
pub fn contained_in(selector: &str, key: &str) -> (r: bool)
    ensures
        r == spec_contained_in(selector@, key@),
{
    let s = chars_of(selector);
    let k = chars_of(key);
    starts_with(s.as_slice(), k.as_slice()) && (s.len() == k.len() || s[k.len()] == SPLIT_SYMBOL)
}

/// Whether some selector of the list lies on one path with `name`.
fn any_related(name: &str, selectors: &[&str]) -> (r: bool)
    ensures
        r == spec_any_related(name@, strs(selectors@)),
{
    let mut i: usize = 0;
    while i < selectors.len()
        invariant
            i <= selectors.len(),
            forall|k: int| 0 <= k < i ==> !spec_related(#[trigger] strs(selectors@)[k], name@),
        decreases selectors.len() - i,
    {
        if contained_in(selectors[i], name) || contained_in(name, selectors[i]) {
            assert(spec_related(strs(selectors@)[i as int], name@));
            return true;
        }
        i += 1;
    }
    false
}

/// Whether the field is to be read: it is related to a selector of the
/// accept list, if there is one, and to none of the skip list.
pub fn select_field(field_name: &str, selectors: Option<&[&str]>, skip_selectors: &[&str]) -> (r:
    bool)
    ensures
        r == spec_select_field(field_name@, opt_strs(selectors), strs(skip_selectors@)),
{
    let accepted = match selectors {
        None => true,
        Some(list) => any_related(field_name, list),
    };
    accepted && !any_related(field_name, skip_selectors)
}

/// The key of a member below `base`.
pub fn composed_key(base: &str, key: &str) -> (r: String)
    ensures
        r@ == compose_key(base@, key@),
{
    if base.is_empty() {
        String::from_str(key)
    } else {
        let mut composed = String::from_str(base);
        composed.append(".");
        composed.append(key);
        proof {
            reveal_strlit(".");
            assert("."@ =~= seq![SPLIT_SYMBOL]);
        }
        composed
    }
}

/// The views of a list of leaves.
pub open spec fn views(leaves: Seq<Member>) -> Seq<MemberView> {
    view_entries(leaves)
}

proof fn lemma_views_push(leaves: Seq<Member>, leaf: Member)
    ensures
        views(leaves.push(leaf)) == views(leaves).push(leaf@),
{
    assert(views(leaves.push(leaf)) =~= views(leaves).push(leaf@));
}

pub(crate) fn walk_value(
    value: &Json,
    selectors: Option<&[&str]>,
    skip_selectors: &[&str],
    key: &str,
    emit_empty: bool,
    leaves: &mut Vec<Member>,
)
    ensures
        views(final(leaves)@) == views(old(leaves)@) + leaves_of_value(
            value@,
            opt_strs(selectors),
            strs(skip_selectors@),
            key@,
            emit_empty,
        ),
    decreases value, 0nat,
{
    match value {
        Json::Object(entries) => {
            proof {
                lemma_view_object(*entries);
            }
            walk_object(entries, selectors, skip_selectors, key, emit_empty, leaves)
        },
        Json::Array(items) => {
            proof {
                lemma_view_array(*items);
            }
            walk_array(items.as_slice(), selectors, skip_selectors, key, emit_empty, leaves)
        },
        _ => {
            let leaf = Member { key: String::from_str(key), value: value.leaf_clone() };
            proof {
                lemma_views_push(leaves@, leaf);
            }
            leaves.push(leaf);
        },
    }
}

pub(crate) fn walk_object(
    entries: &Vec<Member>,
    selectors: Option<&[&str]>,
    skip_selectors: &[&str],
    base_key: &str,
    emit_empty: bool,
    leaves: &mut Vec<Member>,
)
    ensures
        views(final(leaves)@) == views(old(leaves)@) + leaves_in_object(
            view_entries(entries@),
            opt_strs(selectors),
            strs(skip_selectors@),
            base_key@,
            emit_empty,
        ),
    decreases entries@, 1nat,
{
    let ghost sel = opt_strs(selectors);
    let ghost skip = strs(skip_selectors@);
    let ghost members = view_entries(entries@);
    if entries.len() == 0 && emit_empty {
        let empty: Vec<Member> = Vec::new();
        proof {
            lemma_view_object(empty);
            assert(view_entries(empty@) =~= Seq::<MemberView>::empty());
        }
        let leaf = Member { key: String::from_str(base_key), value: Json::Object(empty) };
        proof {
            lemma_views_push(leaves@, leaf);
        }
        leaves.push(leaf);
    }
    let ghost head = views(leaves@);
    let mut i: usize = 0;
    while i < entries.len()
        invariant
            i <= entries.len(),
            sel == opt_strs(selectors),
            skip == strs(skip_selectors@),
            members == view_entries(entries@),
            views(leaves@) + leaves_of_members(members, i as nat, sel, skip, base_key@, emit_empty)
                == head + leaves_of_members(members, 0, sel, skip, base_key@, emit_empty),
        decreases entries.len() - i,
    {
        let ghost before = views(leaves@);
        let ghost rest = leaves_of_members(
            members,
            (i + 1) as nat,
            sel,
            skip,
            base_key@,
            emit_empty,
        );
        let key = composed_key(base_key, entries[i].key.as_str());
        // a member is walked when its key is selected, or lies above or below a selector
        if select_field(key.as_str(), selectors, skip_selectors) {
            walk_value(&entries[i].value, selectors, skip_selectors, key.as_str(), emit_empty, leaves);
            proof {
                let found = leaves_of_value(members[i as int].value, sel, skip, key@, emit_empty);
                assert((before + found) + rest =~= before + (found + rest));
            }
        } else {
            proof {
                assert(before + (Seq::<MemberView>::empty() + rest) =~= before + rest);
            }
        }
        i += 1;
    }
    proof {
        let started = views(old(leaves)@);
        let all = leaves_of_members(members, 0, sel, skip, base_key@, emit_empty);
        let itself = seq![MemberView { key: base_key@, value: JsonView::Object(Seq::empty()) }];
        assert(views(leaves@) + Seq::<MemberView>::empty() =~= views(leaves@));
        assert((started + itself) + all =~= started + (itself + all));
        assert(started + (Seq::<MemberView>::empty() + all) =~= started + all);
    }
}

pub(crate) fn walk_array(
    items: &[Json],
    selectors: Option<&[&str]>,
    skip_selectors: &[&str],
    base_key: &str,
    emit_empty: bool,
    leaves: &mut Vec<Member>,
)
    ensures
        views(final(leaves)@) == views(old(leaves)@) + leaves_in_array(
            view_items(items@),
            opt_strs(selectors),
            strs(skip_selectors@),
            base_key@,
            emit_empty,
        ),
    decreases items@, 1nat,
{
    let ghost sel = opt_strs(selectors);
    let ghost skip = strs(skip_selectors@);
    let ghost values = view_items(items@);
    if items.len() == 0 && emit_empty {
        let empty: Vec<Json> = Vec::new();
        proof {
            lemma_view_array(empty);
            assert(view_items(empty@) =~= Seq::<JsonView>::empty());
        }
        let leaf = Member { key: String::from_str(base_key), value: Json::Array(empty) };
        proof {
            lemma_views_push(leaves@, leaf);
        }
        leaves.push(leaf);
    }
    let ghost head = views(leaves@);
    let mut i: usize = 0;
    while i < items.len()
        invariant
            i <= items.len(),
            sel == opt_strs(selectors),
            skip == strs(skip_selectors@),
            values == view_items(items@),
            views(leaves@) + leaves_of_items(values, i as nat, sel, skip, base_key@, emit_empty)
                == head + leaves_of_items(values, 0, sel, skip, base_key@, emit_empty),
        decreases items.len() - i,
    {
        let ghost before = views(leaves@);
        let ghost rest = leaves_of_items(values, (i + 1) as nat, sel, skip, base_key@, emit_empty);
        walk_value(&items[i], selectors, skip_selectors, base_key, emit_empty, leaves);
        proof {
            let found = leaves_of_value(values[i as int], sel, skip, base_key@, emit_empty);
            assert((before + found) + rest =~= before + (found + rest));
        }
        i += 1;
    }
    proof {
        let started = views(old(leaves)@);
        let all = leaves_of_items(values, 0, sel, skip, base_key@, emit_empty);
        let itself = seq![MemberView { key: base_key@, value: JsonView::Array(Seq::empty()) }];
        assert(views(leaves@) + Seq::<MemberView>::empty() =~= views(leaves@));
        assert((started + itself) + all =~= started + (itself + all));
        assert(started + (Seq::<MemberView>::empty() + all) =~= started + all);
    }
}

/// Lists the selected leaves of an object under `base_key`, in the order of
/// its members, each with its composed key. An object without members is a
/// leaf itself, so that what was indexed below it can be cleared.
pub fn seek_leaf_values_in_object(
    value: &Vec<Member>,
    selectors: Option<&[&str]>,
    skip_selectors: &[&str],
    base_key: &str,
    leaves: &mut Vec<Member>,
)
    ensures
        views(final(leaves)@) == views(old(leaves)@) + leaves_in_object(
            view_entries(value@),
            opt_strs(selectors),
            strs(skip_selectors@),
            base_key@,
            true,
        ),
{
    walk_object(value, selectors, skip_selectors, base_key, true, leaves)
}

/// Lists the selected leaves of an array under `base_key`: each item is
/// walked under the array's own key. An array without items is a leaf itself.
pub fn seek_leaf_values_in_array(
    values: &[Json],
    selectors: Option<&[&str]>,
    skip_selectors: &[&str],
    base_key: &str,
    leaves: &mut Vec<Member>,
)
    ensures
        views(final(leaves)@) == views(old(leaves)@) + leaves_in_array(
            view_items(values@),
            opt_strs(selectors),
            strs(skip_selectors@),
            base_key@,
            true,
        ),
{
    walk_array(values, selectors, skip_selectors, base_key, true, leaves)
}

} // verus!
