//! The shape of a retrieved document: what becomes of its `_vectors`
//! field, and which of its attributes are kept.

use vstd::prelude::*;
use vstd::string::*;
use crate::bitmap::{bitmap_contains, bitmap_set};
use crate::extract::perm_json_p::{compose_key, composed_key, contained_in, spec_contained_in, strs};
use crate::json::{
    lemma_view_array, lemma_view_object, view_entries, view_items, Json, JsonView, Member,
    MemberView,
};
use crate::text::str_eq;

verus! {

/// What to do with the vectors of a document that is retrieved.
#[derive(Debug, Clone, Copy, PartialEq, Eq, Structural)]
pub enum RetrieveVectors {
    /// Leave the `_vectors` field as the document holds it.
    Ignore,
    /// Take the `_vectors` field out.
    Hide,
    /// Write the embeddings of the document into the `_vectors` field.
    Retrieve,
}

impl RetrieveVectors {
    /// What to do with the vectors for a request: they are retrieved where
    /// the request asks for them; else they are hidden where the vector
    /// store is in use, and left alone where it is not.
    pub open spec fn spec_new(retrieve_vector: bool, vector_store: bool) -> RetrieveVectors {
        if retrieve_vector {
            RetrieveVectors::Retrieve
        } else if vector_store {
            RetrieveVectors::Hide
        } else {
            RetrieveVectors::Ignore
        }
    }

    /// What to do with the vectors for a request.
    pub fn new(retrieve_vector: bool, vector_store: bool) -> (r: RetrieveVectors)
        ensures
            r == Self::spec_new(retrieve_vector, vector_store),
    {
        if retrieve_vector {
            RetrieveVectors::Retrieve
        } else if vector_store {
            RetrieveVectors::Hide
        } else {
            RetrieveVectors::Ignore
        }
    }
}

/// The name of the field of the vectors.
pub open spec fn spec_vectors_field() -> Seq<char> {
    "_vectors"@
}

/// The settings of an embedder that the retrieval reads.
pub struct EmbeddingConfig {
    pub name: String,
    /// The documents whose vectors for this embedder were given by the user.
    pub user_provided: roaring::RoaringBitmap,
}

/// The embeddings of a document for one embedder, as a JSON value.
#[derive(Debug)]
pub struct Embedding {
    pub name: String,
    pub embeddings: Json,
}

/// The members without those under `key`.
pub open spec fn without_key(entries: Seq<MemberView>, key: Seq<char>) -> Seq<MemberView>
    decreases entries.len(),
{
    if entries.len() == 0 {
        Seq::empty()
    } else if entries.last().key == key {
        without_key(entries.drop_last(), key)
    } else {
        without_key(entries.drop_last(), key).push(entries.last())
    }
}

/// The value of the first member under `key`, if there is one.
pub open spec fn first_value(entries: Seq<MemberView>, key: Seq<char>) -> Option<JsonView>
    decreases entries.len(),
{
    if entries.len() == 0 {
        None
    } else {
        match first_value(entries.drop_last(), key) {
            Some(value) => Some(value),
            None => if entries.last().key == key {
                Some(entries.last().value)
            } else {
                None
            },
        }
    }
}

/// The index of the first member under `key`, if there is one.
pub open spec fn first_index(entries: Seq<MemberView>, key: Seq<char>) -> Option<int>
    decreases entries.len(),
{
    if entries.len() == 0 {
        None
    } else {
        match first_index(entries.drop_last(), key) {
            Some(i) => Some(i),
            None => if entries.last().key == key {
                Some(entries.len() - 1)
            } else {
                None
            },
        }
    }
}

/// The members with `value` under `key`: in the place of the first member
/// under that key, or at the end where there is none.
pub open spec fn with_member(entries: Seq<MemberView>, key: Seq<char>, value: JsonView) -> Seq<
    MemberView,
> {
    match first_index(entries, key) {
        Some(i) => entries.update(i, MemberView { key, value }),
        None => entries.push(MemberView { key, value }),
    }
}

/// Whether the vectors of a document were given by the user for an
/// embedder: the first settings of that name say so.
pub open spec fn spec_user_provided(configs: Seq<EmbeddingConfig>, name: Seq<char>, docid: u32)
    -> bool
    decreases configs.len(),
{
    if configs.len() == 0 {
        false
    } else if configs[0].name@ == name {
        bitmap_set(configs[0].user_provided).contains(docid)
    } else {
        spec_user_provided(configs.drop_first(), name, docid)
    }
}

/// Whether the vectors of a document were given by the user for an embedder.
pub fn user_provided(configs: &Vec<EmbeddingConfig>, name: &str, docid: u32) -> (r: bool)
    ensures
        r == spec_user_provided(configs@, name@, docid),
{
    let mut i: usize = 0;
    assert(configs@.subrange(0, configs@.len() as int) =~= configs@);
    while i < configs.len()
        invariant
            i <= configs.len(),
            spec_user_provided(configs@.subrange(i as int, configs@.len() as int), name@, docid)
                == spec_user_provided(configs@, name@, docid),
        decreases configs.len() - i,
    {
        let ghost rest = configs@.subrange(i as int, configs@.len() as int);
        assert(rest[0] == configs@[i as int]);
        assert(rest.drop_first() =~= configs@.subrange(i + 1, configs@.len() as int));
        if str_eq(configs[i].name.as_str(), name) {
            return bitmap_contains(&configs[i].user_provided, docid);
        }
        i += 1;
    }
    assert(configs@.subrange(configs@.len() as int, configs@.len() as int).len() == 0);
    assert(configs@.subrange(0, configs@.len() as int) =~= configs@);
    false
}

/// The embeddings of a document as its `_vectors` field holds them: the
/// vectors, and whether they are to be made again when the document changes.
pub open spec fn spec_explicit_vectors(embeddings: JsonView, user_provided: bool) -> JsonView {
    JsonView::Object(
        seq![
            MemberView { key: "embeddings"@, value: embeddings },
            MemberView { key: "regenerate"@, value: JsonView::Bool(!user_provided) },
        ],
    )
}

/// The embeddings of a document as its `_vectors` field holds them.
pub fn explicit_vectors(embeddings: Json, user_provided: bool) -> (value: Json)
    ensures
        value@ == spec_explicit_vectors(embeddings@, user_provided),
{
    let mut members: Vec<Member> = Vec::new();
    members.push(Member { key: String::from_str("embeddings"), value: embeddings });
    members.push(Member { key: String::from_str("regenerate"), value: Json::Bool(!user_provided) });
    proof {
        lemma_view_object(members);
        assert(view_entries(members@) =~= seq![
            MemberView { key: "embeddings"@, value: embeddings@ },
            MemberView { key: "regenerate"@, value: JsonView::Bool(!user_provided) },
        ]);
    }
    Json::Object(members)
}

/// Takes the members under `key` out and returns the others, with the
/// value of the first that was taken out.
pub fn remove_key(entries: Vec<Member>, key: &str) -> (r: (Vec<Member>, Option<Json>))
    ensures
        view_entries(r.0@) == without_key(view_entries(entries@), key@),
        match r.1 {
            Some(value) => first_value(view_entries(entries@), key@) == Some(value@),
            None => first_value(view_entries(entries@), key@) is None,
        },
{
    let ghost all = view_entries(entries@);
    let mut kept: Vec<Member> = Vec::new();
    let mut removed: Option<Json> = None;
    let mut turned: Vec<Member> = Vec::new();
    let total: usize = entries.len();
    let mut rest = entries;
    while rest.len() > 0
        invariant
            rest@.len() + turned@.len() == total,
            all.len() == total,
            forall|k: int| 0 <= k < rest@.len() ==> (#[trigger] rest@[k])@ == all[k],
            forall|k: int|
                0 <= k < turned@.len() ==> (#[trigger] turned@[k])@ == all[total - 1 - k],
        decreases rest.len(),
    {
        let member = rest.pop().unwrap();
        turned.push(member);
    }
    let mut done: usize = 0;
    assert(view_entries(kept@) =~= without_key(all.subrange(0, 0), key@));
    while turned.len() > 0
        invariant
            turned@.len() + done == total,
            all.len() == total,
            forall|k: int|
                0 <= k < turned@.len() ==> (#[trigger] turned@[k])@ == all[total - 1 - k],
            view_entries(kept@) == without_key(all.subrange(0, done as int), key@),
            match removed {
                Some(value) => first_value(all.subrange(0, done as int), key@) == Some(value@),
                None => first_value(all.subrange(0, done as int), key@) is None,
            },
        decreases turned.len(),
    {
        let ghost last = turned@[turned@.len() - 1];
        assert(last@ == all[done as int]);
        let member = turned.pop().unwrap();
        proof {
            let next = all.subrange(0, done + 1);
            assert(next.drop_last() =~= all.subrange(0, done as int));
            assert(next.last() == all[done as int]);
        }
        if str_eq(member.key.as_str(), key) {
            if removed.is_none() {
                removed = Some(member.value);
            }
        } else {
            proof {
                assert(view_entries(kept@.push(member)) =~= view_entries(kept@).push(member@));
            }
            kept.push(member);
        }
        done += 1;
    }
    assert(all.subrange(0, total as int) =~= all);
    (kept, removed)
}

/// Puts `value` under `key`: in the place of the first member under that
/// key, or at the end where there is none.
pub fn insert_member(entries: &mut Vec<Member>, key: String, value: Json)
    ensures
        view_entries(final(entries)@) == with_member(view_entries(old(entries)@), key@, value@),
{
    let ghost all = view_entries(entries@);
    let mut i: usize = 0;
    while i < entries.len()
        invariant
            i <= entries.len(),
            entries@ == old(entries)@,
            all == view_entries(entries@),
            first_index(all.subrange(0, i as int), key@) is None,
        decreases entries.len() - i,
    {
        proof {
            let next = all.subrange(0, i + 1);
            assert(next.drop_last() =~= all.subrange(0, i as int));
            assert(next.last() == all[i as int]);
        }
        if str_eq(entries[i].key.as_str(), key.as_str()) {
            proof {
                lemma_first_index_extends(all, key@, i + 1);
                assert(all.subrange(0, all.len() as int) =~= all);
            }
            let member = Member { key, value };
            entries.set(i, member);
            assert(view_entries(entries@) =~= all.update(i as int, member@));
            return ;
        }
        i += 1;
    }
    assert(all.subrange(0, all.len() as int) =~= all);
    let member = Member { key, value };
    entries.push(member);
    assert(view_entries(entries@) =~= all.push(member@));
}

/// The first member under a key is the first of any longer list that
/// begins with the same members.
proof fn lemma_first_index_extends(entries: Seq<MemberView>, key: Seq<char>, upto: int)
    requires
        0 <= upto <= entries.len(),
        first_index(entries.subrange(0, upto), key) is Some,
    ensures
        first_index(entries, key) == first_index(entries.subrange(0, upto), key),
    decreases entries.len() - upto,
{
    if upto < entries.len() {
        let next = entries.subrange(0, upto + 1);
        assert(next.drop_last() =~= entries.subrange(0, upto));
        lemma_first_index_extends(entries, key, upto + 1);
    } else {
        assert(entries.subrange(0, upto) =~= entries);
    }
}

/// An embedding as the retrieval is given it.
pub struct EmbeddingView {
    pub name: Seq<char>,
    pub embeddings: JsonView,
}

/// The views of a list of embeddings.
pub open spec fn embedding_views(embeddings: Seq<Embedding>) -> Seq<EmbeddingView> {
    Seq::new(
        embeddings.len(),
        |i: int| EmbeddingView { name: embeddings[i].name@, embeddings: embeddings[i].embeddings@ },
    )
}

/// The members of the `_vectors` field after the first `upto` embeddings
/// were written into it, each under the name of its embedder.
pub open spec fn with_embeddings(
    vectors: Seq<MemberView>,
    embeddings: Seq<EmbeddingView>,
    configs: Seq<EmbeddingConfig>,
    docid: u32,
    upto: nat,
) -> Seq<MemberView>
    decreases upto,
{
    if upto == 0 {
        vectors
    } else {
        let embedding = embeddings[upto - 1];
        with_member(
            with_embeddings(vectors, embeddings, configs, docid, (upto - 1) as nat),
            embedding.name,
            spec_explicit_vectors(
                embedding.embeddings,
                spec_user_provided(configs, embedding.name, docid),
            ),
        )
    }
}

/// A document as it is retrieved.
///
/// - `Ignore` leaves the document as it is.
/// - `Hide` takes the `_vectors` field out.
/// - `Retrieve` writes the embeddings of the document into the `_vectors`
///   field, which is put at the end of the document: what the document
///   held there, if it was an object, stays, but for the embedders whose
///   embeddings are written.
pub open spec fn spec_some_documents(
    document: Seq<MemberView>,
    retrieve_vectors: RetrieveVectors,
    embeddings: Seq<EmbeddingView>,
    configs: Seq<EmbeddingConfig>,
    docid: u32,
) -> Seq<MemberView> {
    match retrieve_vectors {
        RetrieveVectors::Ignore => document,
        RetrieveVectors::Hide => without_key(document, spec_vectors_field()),
        RetrieveVectors::Retrieve => {
            let held = match first_value(document, spec_vectors_field()) {
                Some(JsonView::Object(members)) => members,
                _ => Seq::empty(),
            };
            without_key(document, spec_vectors_field()).push(
                MemberView {
                    key: spec_vectors_field(),
                    value: JsonView::Object(
                        with_embeddings(held, embeddings, configs, docid, embeddings.len()),
                    ),
                },
            )
        },
    }
}

/// Gives a document the shape in which it is retrieved, as far as its
/// vectors go.
pub fn some_documents(
    document: Vec<Member>,
    retrieve_vectors: RetrieveVectors,
    embeddings: Vec<Embedding>,
    configs: &Vec<EmbeddingConfig>,
    docid: u32,
) -> (r: Vec<Member>)
    ensures
        view_entries(r@) == spec_some_documents(
            view_entries(document@),
            retrieve_vectors,
            embedding_views(embeddings@),
            configs@,
            docid,
        ),
{
    match retrieve_vectors {
        RetrieveVectors::Ignore => document,
        RetrieveVectors::Hide => {
            let (kept, _) = remove_key(document, "_vectors");
            kept
        },
        RetrieveVectors::Retrieve => {
            let (mut kept, held) = remove_key(document, "_vectors");
            let mut vectors: Vec<Member> = match held {
                Some(Json::Object(members)) => {
                    proof {
                        lemma_view_object(members);
                    }
                    members
                },
                _ => {
                    let none: Vec<Member> = Vec::new();
                    assert(view_entries(none@) =~= Seq::<MemberView>::empty());
                    none
                },
            };
            let ghost all = embedding_views(embeddings@);
            let ghost begun = view_entries(vectors@);
            assert(begun == match first_value(view_entries(document@), spec_vectors_field()) {
                Some(JsonView::Object(members)) => members,
                _ => Seq::empty(),
            });
            let total: usize = embeddings.len();
            let mut rest = embeddings;
            let mut turned: Vec<Embedding> = Vec::new();
            while rest.len() > 0
                invariant
                    rest@.len() + turned@.len() == total,
                    all.len() == total,
                    forall|k: int|
                        0 <= k < rest@.len() ==> (#[trigger] rest@[k]).name@ == all[k].name
                            && rest@[k].embeddings@ == all[k].embeddings,
                    forall|k: int|
                        0 <= k < turned@.len() ==> (#[trigger] turned@[k]).name@ == all[total - 1
                            - k].name && turned@[k].embeddings@ == all[total - 1 - k].embeddings,
                decreases rest.len(),
            {
                let embedding = rest.pop().unwrap();
                turned.push(embedding);
            }
            let mut done: usize = 0;
            while turned.len() > 0
                invariant
                    turned@.len() + done == total,
                    all.len() == total,
                    forall|k: int|
                        0 <= k < turned@.len() ==> (#[trigger] turned@[k]).name@ == all[total - 1
                            - k].name && turned@[k].embeddings@ == all[total - 1 - k].embeddings,
                    view_entries(vectors@) == with_embeddings(
                        begun,
                        all,
                        configs@,
                        docid,
                        done as nat,
                    ),
                decreases turned.len(),
            {
                let ghost last = turned@[turned@.len() - 1];
                assert(last.name@ == all[done as int].name);
                let embedding = turned.pop().unwrap();
                let given = user_provided(configs, embedding.name.as_str(), docid);
                let value = explicit_vectors(embedding.embeddings, given);
                insert_member(&mut vectors, embedding.name, value);
                done += 1;
            }
            let member = Member { key: String::from_str("_vectors"), value: Json::Object(vectors) };
            proof {
                lemma_view_object(vectors);
                assert(view_entries(kept@.push(member)) =~= view_entries(kept@).push(member@));
            }
            kept.push(member);
            kept
        },
    }
}

/// Whether a key is one of the selectors or lies below one: the member
/// under it is kept as it is.
pub open spec fn is_selected(key: Seq<char>, selectors: Seq<Seq<char>>) -> bool {
    exists|i: int| 0 <= i < selectors.len() && spec_contained_in(key, #[trigger] selectors[i])
}

/// Whether a selector lies below a key: the member under it is kept as far
/// as its value holds what is selected.
pub open spec fn holds_selected(key: Seq<char>, selectors: Seq<Seq<char>>) -> bool {
    exists|i: int| 0 <= i < selectors.len() && spec_contained_in(#[trigger] selectors[i], key)
}

/// What is kept of a value under `key`, a selector lying below the key: of
/// an object its selected members, of an array what is kept of its items,
/// of any other value nothing. None where nothing is kept.
pub open spec fn selected_value(value: JsonView, selectors: Seq<Seq<char>>, key: Seq<char>)
    -> Option<JsonView>
    decreases value, 0nat, 0nat,
{
    match value {
        JsonView::Object(entries) => {
            let kept = selected_members(entries, selectors, key, entries.len());
            if kept.len() > 0 {
                Some(JsonView::Object(kept))
            } else {
                None
            }
        },
        JsonView::Array(items) => {
            let kept = selected_items(items, selectors, key, items.len());
            if kept.len() > 0 {
                Some(JsonView::Array(kept))
            } else {
                None
            }
        },
        _ => None,
    }
}

/// What is kept of the first `upto` members of an object under `base`.
pub open spec fn selected_members(
    entries: Seq<MemberView>,
    selectors: Seq<Seq<char>>,
    base: Seq<char>,
    upto: nat,
) -> Seq<MemberView>
    decreases entries, 1nat, upto,
{
    if upto == 0 || upto > entries.len() {
        Seq::empty()
    } else {
        let before = selected_members(entries, selectors, base, (upto - 1) as nat);
        let member = entries[upto - 1];
        let key = compose_key(base, member.key);
        if is_selected(key, selectors) {
            before.push(member)
        } else if holds_selected(key, selectors) {
            match selected_value(member.value, selectors, key) {
                Some(value) => before.push(MemberView { key: member.key, value }),
                None => before,
            }
        } else {
            before
        }
    }
}

/// What is kept of the first `upto` items of an array under `key`.
pub open spec fn selected_items(
    items: Seq<JsonView>,
    selectors: Seq<Seq<char>>,
    key: Seq<char>,
    upto: nat,
) -> Seq<JsonView>
    decreases items, 1nat, upto,
{
    if upto == 0 || upto > items.len() {
        Seq::empty()
    } else {
        let before = selected_items(items, selectors, key, (upto - 1) as nat);
        match selected_value(items[upto - 1], selectors, key) {
            Some(value) => before.push(value),
            None => before,
        }
    }
}

fn key_is_selected(key: &str, selectors: &[&str]) -> (r: bool)
    ensures
        r == is_selected(key@, strs(selectors@)),
{
    let mut i: usize = 0;
    while i < selectors.len()
        invariant
            i <= selectors.len(),
            forall|k: int| 0 <= k < i ==> !spec_contained_in(key@, #[trigger] strs(selectors@)[k]),
        decreases selectors.len() - i,
    {
        if contained_in(key, selectors[i]) {
            assert(spec_contained_in(key@, strs(selectors@)[i as int]));
            return true;
        }
        i += 1;
    }
    false
}

fn key_holds_selected(key: &str, selectors: &[&str]) -> (r: bool)
    ensures
        r == holds_selected(key@, strs(selectors@)),
{
    let mut i: usize = 0;
    while i < selectors.len()
        invariant
            i <= selectors.len(),
            forall|k: int| 0 <= k < i ==> !spec_contained_in(#[trigger] strs(selectors@)[k], key@),
        decreases selectors.len() - i,
    {
        if contained_in(selectors[i], key) {
            assert(spec_contained_in(strs(selectors@)[i as int], key@));
            return true;
        }
        i += 1;
    }
    false
}

fn select_in_value(value: &Json, selectors: &[&str], key: &str) -> (r: Option<Json>)
    ensures
        match r {
            Some(kept) => selected_value(value@, strs(selectors@), key@) == Some(kept@),
            None => selected_value(value@, strs(selectors@), key@) is None,
        },
    decreases value, 0nat,
{
    match value {
        Json::Object(entries) => {
            proof {
                lemma_view_object(*entries);
            }
            let kept = select_in_members(entries, selectors, key);
            if kept.len() > 0 {
                proof {
                    lemma_view_object(kept);
                }
                Some(Json::Object(kept))
            } else {
                None
            }
        },
        Json::Array(items) => {
            proof {
                lemma_view_array(*items);
            }
            let kept = select_in_items(items, selectors, key);
            if kept.len() > 0 {
                proof {
                    lemma_view_array(kept);
                }
                Some(Json::Array(kept))
            } else {
                None
            }
        },
        _ => None,
    }
}

fn select_in_members(entries: &Vec<Member>, selectors: &[&str], base: &str) -> (kept: Vec<Member>)
    ensures
        view_entries(kept@) == selected_members(
            view_entries(entries@),
            strs(selectors@),
            base@,
            entries@.len(),
        ),
    decreases entries@, 1nat,
{
    let ghost all = view_entries(entries@);
    let mut kept: Vec<Member> = Vec::new();
    let mut i: usize = 0;
    assert(view_entries(kept@) =~= Seq::<MemberView>::empty());
    while i < entries.len()
        invariant
            i <= entries.len(),
            all == view_entries(entries@),
            view_entries(kept@) == selected_members(all, strs(selectors@), base@, i as nat),
        decreases entries.len() - i,
    {
        let member = &entries[i];
        assert(all[i as int] == member@);
        let key = composed_key(base, member.key.as_str());
        if key_is_selected(key.as_str(), selectors) {
            let copy = Member { key: member.key.clone(), value: member.value.duplicate() };
            proof {
                assert(view_entries(kept@.push(copy)) =~= view_entries(kept@).push(copy@));
            }
            kept.push(copy);
        } else if key_holds_selected(key.as_str(), selectors) {
            match select_in_value(&member.value, selectors, key.as_str()) {
                Some(value) => {
                    let part = Member { key: member.key.clone(), value };
                    proof {
                        assert(view_entries(kept@.push(part)) =~= view_entries(kept@).push(part@));
                    }
                    kept.push(part);
                },
                None => {},
            }
        }
        i += 1;
    }
    kept
}

fn select_in_items(items: &Vec<Json>, selectors: &[&str], key: &str) -> (kept: Vec<Json>)
    ensures
        view_items(kept@) == selected_items(
            view_items(items@),
            strs(selectors@),
            key@,
            items@.len(),
        ),
    decreases items@, 1nat,
{
    let ghost all = view_items(items@);
    let mut kept: Vec<Json> = Vec::new();
    let mut i: usize = 0;
    assert(view_items(kept@) =~= Seq::<JsonView>::empty());
    while i < items.len()
        invariant
            i <= items.len(),
            all == view_items(items@),
            view_items(kept@) == selected_items(all, strs(selectors@), key@, i as nat),
        decreases items.len() - i,
    {
        assert(all[i as int] == items[i as int]@);
        match select_in_value(&items[i], selectors, key) {
            Some(value) => {
                proof {
                    assert(view_items(kept@.push(value)) =~= view_items(kept@).push(value@));
                }
                kept.push(value);
            },
            None => {},
        }
        i += 1;
    }
    kept
}

/// Keeps of a document what the selectors select: the members whose path
/// is a selector or lies below one, whole; and of the members above a
/// selector, what their values hold of selected members.
pub fn select_values(document: &Vec<Member>, selectors: &[&str]) -> (kept: Vec<Member>)
    ensures
        view_entries(kept@) == selected_members(
            view_entries(document@),
            strs(selectors@),
            Seq::empty(),
            document@.len(),
        ),
{
    let top = "";
    proof {
        reveal_strlit("");
        assert(top@ =~= Seq::<char>::empty());
    }
    select_in_members(document, selectors, top)
}

/// The selectors of a retrieval: the attributes to retrieve, and the
/// `_vectors` field after them where the vectors are retrieved.
pub open spec fn spec_selectors(attributes: Seq<Seq<char>>, retrieve_vectors: RetrieveVectors)
    -> Seq<Seq<char>> {
    if retrieve_vectors == RetrieveVectors::Retrieve {
        attributes.push(spec_vectors_field())
    } else {
        attributes
    }
}

/// The attributes of a retrieved document.
///
/// Without a list of attributes the document is given as it is: what was
/// stored comes back, member for member. With a list, the document holds
/// what the list selects, and its vectors where they are retrieved.
pub open spec fn spec_project(
    document: Seq<MemberView>,
    attributes: Option<Seq<Seq<char>>>,
    retrieve_vectors: RetrieveVectors,
) -> Seq<MemberView> {
    match attributes {
        None => document,
        Some(list) => selected_members(
            document,
            spec_selectors(list, retrieve_vectors),
            Seq::empty(),
            document.len(),
        ),
    }
}

/// Keeps the attributes to retrieve of a document.
pub fn project(
    document: Vec<Member>,
    attributes_to_retrieve: Option<&[&str]>,
    retrieve_vectors: RetrieveVectors,
) -> (r: Vec<Member>)
    ensures
        view_entries(r@) == spec_project(
            view_entries(document@),
            crate::extract::perm_json_p::opt_strs(attributes_to_retrieve),
            retrieve_vectors,
        ),
        attributes_to_retrieve is None ==> r == document,
{
    match attributes_to_retrieve {
        None => document,
        Some(attributes) => {
            let mut selectors: Vec<&str> = Vec::new();
            let mut i: usize = 0;
            while i < attributes.len()
                invariant
                    i <= attributes.len(),
                    selectors@ == attributes@.subrange(0, i as int),
                decreases attributes.len() - i,
            {
                selectors.push(attributes[i]);
                i += 1;
                assert(selectors@ =~= attributes@.subrange(0, i as int));
            }
            assert(selectors@ =~= attributes@);
            match retrieve_vectors {
                RetrieveVectors::Retrieve => {
                    selectors.push("_vectors");
                    assert(strs(selectors@) =~= strs(attributes@).push(spec_vectors_field()));
                },
                _ => {},
            }
            select_values(&document, selectors.as_slice())
        },
    }
}

/// Round-trip of a retrieval: a document that is retrieved without a list
/// of attributes, its vectors left alone, is the document that was stored.
pub proof fn lemma_retrieval_round_trip(
    document: Seq<MemberView>,
    embeddings: Seq<EmbeddingView>,
    configs: Seq<EmbeddingConfig>,
    docid: u32,
)
    ensures
        spec_project(
            spec_some_documents(document, RetrieveVectors::Ignore, embeddings, configs, docid),
            None,
            RetrieveVectors::Ignore,
        ) == document,
{
}

} // verus!
