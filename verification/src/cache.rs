//! The extraction cache: the values of the keys written last are held
//! back, so that many writes to one key become one entry of the sorted
//! stream.
//!
//! The cache holds at most as many keys as it was made for. A write to a
//! key that it holds is made in place; a write to a new key makes room by
//! giving out the key that was least recently written. What is given out
//! goes to a sorter, which merges the entries of one key.

use vstd::prelude::*;
use crate::bitmap::{bitmap_from_one, bitmap_insert};
use crate::del_add::{DelAdd, DelAddRoaringBitmap, DelAddView};

verus! {

#[verifier::external_type_specification]
#[verifier::external_body]
#[verifier::reject_recursive_types(K)]
#[verifier::reject_recursive_types(V)]
#[verifier::reject_recursive_types(S)]
pub struct ExLruCache<K, V, S>(lru::LruCache<K, V, S>);

#[verifier::external_type_specification]
#[verifier::external_body]
pub struct ExDefaultHasher(lru::DefaultHasher);

/// A key of the cache with its value.
pub struct CacheEntry {
    pub key: Seq<u8>,
    pub value: DelAddRoaringBitmap,
}

/// The entries of a cache, from the one used last to the one used longest ago.
pub uninterp spec fn lru_entries(cache: lru::LruCache<Vec<u8>, DelAddRoaringBitmap>) -> Seq<
    CacheEntry,
>;

/// The number of entries that a cache was made for.
pub uninterp spec fn lru_cap(cache: lru::LruCache<Vec<u8>, DelAddRoaringBitmap>) -> nat;

/// The index of the entry of a key, if there is one.
pub open spec fn position_of(entries: Seq<CacheEntry>, key: Seq<u8>) -> Option<int> {
    if exists|i: int| 0 <= i < entries.len() && (#[trigger] entries[i]).key == key {
        Some(choose|i: int| 0 <= i < entries.len() && (#[trigger] entries[i]).key == key)
    } else {
        None
    }
}

/// Calls `LruCache::new`, which makes an empty cache that holds at most
/// `cap` entries. The bound must not be 0.
#[verifier::external_body]
pub(crate) fn lru_new(cap: usize) -> (cache: lru::LruCache<Vec<u8>, DelAddRoaringBitmap>)
    requires
        cap > 0,
    ensures
        lru_entries(cache) == Seq::<CacheEntry>::empty(),
        lru_cap(cache) == cap,
{
    lru::LruCache::new(std::num::NonZeroUsize::new(cap).unwrap())
}

/// Calls `LruCache::get_mut`, which returns a mutable reference to the
/// value of the key, or `None` if the cache does not hold the key, and
/// moves the key to the head of the list if it is there.
#[verifier::external_body]
pub(crate) fn lru_get_mut<'a>(
    cache: &'a mut lru::LruCache<Vec<u8>, DelAddRoaringBitmap>,
    key: &[u8],
) -> (r: Option<&'a mut DelAddRoaringBitmap>)
    ensures
        lru_cap(*final(cache)) == lru_cap(*old(cache)),
        match position_of(lru_entries(*old(cache)), key@) {
            None => {
                &&& r is None
                &&& lru_entries(*final(cache)) == lru_entries(*old(cache))
            },
            Some(i) => {
                &&& r is Some
                &&& *r->Some_0 == lru_entries(*old(cache))[i].value
                &&& lru_entries(*final(cache)) == seq![
                    CacheEntry { key: key@, value: *final(r->Some_0) },
                ] + lru_entries(*old(cache)).remove(i)
            },
        },
{
    cache.get_mut(key)
}

/// Calls `LruCache::push`, which puts the pair at the head of the list. If
/// the cache holds the key, the old pair of the key is returned; if it
/// holds as many entries as it can, the entry used longest ago is removed
/// and returned; else `None` is returned.
#[verifier::external_body]
pub(crate) fn lru_push(
    cache: &mut lru::LruCache<Vec<u8>, DelAddRoaringBitmap>,
    key: Vec<u8>,
    value: DelAddRoaringBitmap,
) -> (r: Option<(Vec<u8>, DelAddRoaringBitmap)>)
    ensures
        lru_cap(*final(cache)) == lru_cap(*old(cache)),
        match position_of(lru_entries(*old(cache)), key@) {
            Some(i) => {
                &&& r is Some
                &&& r->Some_0.0@ == key@
                &&& r->Some_0.1 == lru_entries(*old(cache))[i].value
                &&& lru_entries(*final(cache)) == seq![CacheEntry { key: key@, value }]
                    + lru_entries(*old(cache)).remove(i)
            },
            None => if lru_entries(*old(cache)).len() >= lru_cap(*old(cache)) {
                &&& r is Some
                &&& r->Some_0.0@ == lru_entries(*old(cache)).last().key
                &&& r->Some_0.1 == lru_entries(*old(cache)).last().value
                &&& lru_entries(*final(cache)) == seq![CacheEntry { key: key@, value }]
                    + lru_entries(*old(cache)).drop_last()
            } else {
                &&& r is None
                &&& lru_entries(*final(cache)) == seq![CacheEntry { key: key@, value }]
                    + lru_entries(*old(cache))
            },
        },
{
    cache.push(key, value)
}

/// Calls `LruCache::pop_lru`, which removes and returns the entry used
/// longest ago, or `None` if the cache is empty.
#[verifier::external_body]
pub(crate) fn lru_pop_lru(cache: &mut lru::LruCache<Vec<u8>, DelAddRoaringBitmap>) -> (r: Option<
    (Vec<u8>, DelAddRoaringBitmap),
>)
    ensures
        lru_cap(*final(cache)) == lru_cap(*old(cache)),
        if lru_entries(*old(cache)).len() == 0 {
            &&& r is None
            &&& lru_entries(*final(cache)) == lru_entries(*old(cache))
        } else {
            &&& r is Some
            &&& r->Some_0.0@ == lru_entries(*old(cache)).last().key
            &&& r->Some_0.1 == lru_entries(*old(cache)).last().value
            &&& lru_entries(*final(cache)) == lru_entries(*old(cache)).drop_last()
        },
{
    cache.pop_lru()
}

/// Why an entry cannot be given out.
#[derive(Debug)]
pub enum CacheError {
    /// The value is too long to be written.
    Serialization(std::io::Error),
}

/// An entry of the sorted stream: a key and the bytes of its value.
#[derive(Debug, PartialEq, Eq)]
pub struct SorterEntry {
    pub key: Vec<u8>,
    pub value: Vec<u8>,
}

/// What an entry of the cache stands for: the key, the document ids to
/// take out and those to put in.
pub struct EntryView {
    pub key: Seq<u8>,
    pub value: DelAddView,
}

/// What the entries of a cache stand for.
pub open spec fn entry_views(entries: Seq<CacheEntry>) -> Seq<EntryView> {
    Seq::new(entries.len(), |i: int| EntryView { key: entries[i].key, value: entries[i].value@ })
}

/// Whether no key occurs twice.
pub open spec fn keys_distinct(entries: Seq<EntryView>) -> bool {
    forall|i: int, j: int|
        0 <= i < j < entries.len() ==> (#[trigger] entries[i]).key != (#[trigger] entries[j]).key
}

/// The index of the entry of a key, if there is one.
pub open spec fn spec_position(entries: Seq<EntryView>, key: Seq<u8>) -> Option<int> {
    if exists|i: int| 0 <= i < entries.len() && (#[trigger] entries[i]).key == key {
        Some(choose|i: int| 0 <= i < entries.len() && (#[trigger] entries[i]).key == key)
    } else {
        None
    }
}

/// Whether every entry has a branch: something to take out or to put in.
pub open spec fn all_written(entries: Seq<EntryView>) -> bool {
    forall|i: int|
        0 <= i < entries.len() ==> (#[trigger] entries[i]).value.del is Some
            || entries[i].value.add is Some
}

/// A set of document ids with one more.
pub open spec fn with_id(ids: Option<Set<u32>>, n: u32) -> Option<Set<u32>> {
    match ids {
        Some(set) => Some(set.insert(n)),
        None => Some(Set::<u32>::empty().insert(n)),
    }
}

/// A value with the document id `n` among those to take out, if `del`, and
/// among those to put in, if `add`.
pub open spec fn value_with(value: DelAddView, n: u32, del: bool, add: bool) -> DelAddView {
    DelAddView {
        del: if del {
            with_id(value.del, n)
        } else {
            value.del
        },
        add: if add {
            with_id(value.add, n)
        } else {
            value.add
        },
    }
}

/// What a write does to a cache.
pub struct Written {
    /// The entries after the write.
    pub entries: Seq<EntryView>,
    /// The entry that was given out to make room, if one was.
    pub evicted: Option<EntryView>,
}

/// What the write of the document id `n` to a key does to a cache made for
/// `cap` entries. The entry of the key is the first afterwards. A key that
/// the cache holds keeps what it has; a new key takes the place of the last
/// entry where the cache is full.
pub open spec fn spec_write(
    entries: Seq<EntryView>,
    cap: nat,
    key: Seq<u8>,
    n: u32,
    del: bool,
    add: bool,
) -> Written {
    match spec_position(entries, key) {
        Some(i) => Written {
            entries: seq![EntryView { key, value: value_with(entries[i].value, n, del, add) }]
                + entries.remove(i),
            evicted: None,
        },
        None => {
            let fresh = EntryView {
                key,
                value: value_with(DelAddView { del: None, add: None }, n, del, add),
            };
            if entries.len() >= cap {
                Written {
                    entries: seq![fresh] + entries.drop_last(),
                    evicted: Some(entries.last()),
                }
            } else {
                Written { entries: seq![fresh] + entries, evicted: None }
            }
        },
    }
}

/// The cache of the values on their way to a sorter.
///
/// It holds no key twice, no key without anything to take out or to put
/// in, and no more keys than it was made for: see
/// [`SorterCacheDelAddCboRoaringBitmap::wf`].
pub struct SorterCacheDelAddCboRoaringBitmap {
    /// The entries, from the first write on.
    cache: Option<lru::LruCache<Vec<u8>, DelAddRoaringBitmap>>,
    cap: usize,
    cbo_buffer: Vec<u8>,
}

impl View for SorterCacheDelAddCboRoaringBitmap {
    type V = Seq<EntryView>;

    open spec fn view(&self) -> Seq<EntryView> {
        entry_views(self.spec_objects())
    }
}

proof fn lemma_position_agrees(entries: Seq<CacheEntry>, key: Seq<u8>)
    requires
        keys_distinct(entry_views(entries)),
    ensures
        position_of(entries, key) == spec_position(entry_views(entries), key),
{
    let views = entry_views(entries);
    if exists|i: int| 0 <= i < entries.len() && (#[trigger] entries[i]).key == key {
        let i = choose|i: int| 0 <= i < entries.len() && (#[trigger] entries[i]).key == key;
        assert(views[i].key == key);
        let j = choose|j: int| 0 <= j < views.len() && (#[trigger] views[j]).key == key;
        if i < j {
            assert(views[i].key != views[j].key);
        } else if j < i {
            assert(views[j].key != views[i].key);
        }
    } else {
        if exists|j: int| 0 <= j < views.len() && (#[trigger] views[j]).key == key {
            let j = choose|j: int| 0 <= j < views.len() && (#[trigger] views[j]).key == key;
            assert(entries[j].key == key);
        }
    }
}

impl SorterCacheDelAddCboRoaringBitmap {
    /// The entries of the cache, from the one written last to the one
    /// written longest ago.
    pub closed spec fn spec_objects(&self) -> Seq<CacheEntry> {
        match self.cache {
            Some(cache) => lru_entries(cache),
            None => Seq::empty(),
        }
    }

    /// The number of entries that the cache was made for.
    pub closed spec fn spec_cap(&self) -> nat {
        self.cap as nat
    }

    #[verifier::type_invariant]
    spec fn well_formed(&self) -> bool {
        &&& self.wf()
        &&& match self.cache {
            Some(cache) => lru_cap(cache) == self.cap,
            None => true,
        }
    }

    /// The bytes of the values of the entries, in the order of the entries.
    pub open spec fn spec_values(&self) -> Seq<Seq<u8>> {
        Seq::new(self.spec_objects().len(), |i: int| self.spec_objects()[i].value.spec_bytes())
    }

    /// Whether the value of the entry at `i` can be written: none of its
    /// branches is longer than 32 bits can say.
    pub open spec fn spec_writable(&self, i: int) -> bool {
        forall|k: int|
            0 <= k < self.spec_objects()[i].value.spec_branches().len() ==> (
            #[trigger] self.spec_objects()[i].value.spec_branches()[k]).value.len() <= u32::MAX
    }

    /// The cache holds no key twice, no key without anything to take out
    /// or to put in, and no more keys than it was made for.
    pub open spec fn wf(&self) -> bool {
        &&& keys_distinct(self@)
        &&& all_written(self@)
        &&& self@.len() <= self.spec_cap()
        &&& self.spec_cap() > 0
    }

    /// Every cache is well formed: a call of this function, which does
    /// nothing, tells the verifier so.
    pub fn check_wf(&self)
        ensures
            self.wf(),
    {
        proof {
            use_type_invariant(self);
        }
    }

    /// A cache for `cap` keys, or none where `cap` is 0.
    pub fn new(cap: usize) -> (r: Option<Self>)
        ensures
            match r {
                Some(cache) => cap > 0 && cache.wf() && cache@ == Seq::<EntryView>::empty()
                    && cache.spec_cap() == cap,
                None => cap == 0,
            },
    {
        if cap == 0 {
            None
        } else {
            let cache = SorterCacheDelAddCboRoaringBitmap {
                cache: None,
                cap,
                cbo_buffer: Vec::new(),
            };
            assert(cache@ =~= Seq::<EntryView>::empty());
            Some(cache)
        }
    }

    /// Makes the entry of the sorted stream for a key and its value. A
    /// value without any branch makes none.
    pub fn write_entry_to_sorter(&mut self, key: Vec<u8>, deladd: DelAddRoaringBitmap) -> (r:
        Result<Option<SorterEntry>, CacheError>)
        ensures
            final(self).spec_objects() == old(self).spec_objects(),
            final(self).spec_cap() == old(self).spec_cap(),
            match r {
                Ok(Some(entry)) => (deladd.del is Some || deladd.add is Some) && entry.key == key
                    && entry.value@ == deladd.spec_bytes(),
                Ok(None) => deladd.del is None && deladd.add is None,
                Err(_) => exists|i: int|
                    0 <= i < deladd.spec_branches().len() && (
                    #[trigger] deladd.spec_branches()[i]).value.len() > u32::MAX,
            },
    {
        proof {
            use_type_invariant(&*self);
        }
        let mut buffer: Vec<u8> = Vec::new();
        core::mem::swap(&mut buffer, &mut self.cbo_buffer);
        let written = entry_of(&mut buffer, key, deladd);
        self.cbo_buffer = buffer;
        written
    }

    /// Writes the document id to the branches of the key that are asked for.
    fn insert(&mut self, key: &[u8], n: u32, del: bool, add: bool) -> (r: Result<
        Option<SorterEntry>,
        CacheError,
    >)
        requires
            del || add,
        ensures
            final(self).wf(),
            final(self).spec_cap() == old(self).spec_cap(),
            final(self)@ == spec_write(
                old(self)@,
                old(self).spec_cap(),
                key@,
                n,
                del,
                add,
            ).entries,
            match spec_write(old(self)@, old(self).spec_cap(), key@, n, del, add).evicted {
                None => r matches Ok(None),
                Some(evicted) => match r {
                    Ok(Some(entry)) => entry.key@ == evicted.key && entry.value@
                        == old(self).spec_values().last(),
                    Ok(None) => false,
                    Err(_) => !old(self).spec_writable(old(self)@.len() - 1),
                },
            },
    {
        proof {
            use_type_invariant(&*self);
        }
        let ghost before = self.spec_objects();
        let ghost cap = self.cap as nat;
        let mut held: Option<lru::LruCache<Vec<u8>, DelAddRoaringBitmap>> = None;
        core::mem::swap(&mut held, &mut self.cache);
        let mut cache = match held {
            Some(cache) => cache,
            None => lru_new(self.cap),
        };
        proof {
            lemma_position_agrees(before, key@);
        }
        let evicted = match lru_get_mut(&mut cache, key) {
            Some(value) => {
                if del {
                    match &mut value.del {
                        Some(bitmap) => {
                            bitmap_insert(bitmap, n);
                        },
                        None => {
                            value.del = Some(bitmap_from_one(n));
                        },
                    }
                }
                if add {
                    match &mut value.add {
                        Some(bitmap) => {
                            bitmap_insert(bitmap, n);
                        },
                        None => {
                            value.add = Some(bitmap_from_one(n));
                        },
                    }
                }
                None
            },
            None => {
                let value = DelAddRoaringBitmap {
                    del: if del {
                        Some(bitmap_from_one(n))
                    } else {
                        None
                    },
                    add: if add {
                        Some(bitmap_from_one(n))
                    } else {
                        None
                    },
                };
                lru_push(&mut cache, vstd::slice::slice_to_vec(key), value)
            },
        };
        proof {
            let after = lru_entries(cache);
            let expected = spec_write(entry_views(before), cap, key@, n, del, add);
            assert(entry_views(after) =~= expected.entries);
            lemma_write_keeps_order(entry_views(before), cap, key@, n, del, add);
        }
        self.cache = Some(cache);
        match evicted {
            Some((key, deladd)) => {
                assert(deladd == before.last().value);
                self.write_entry_to_sorter(key, deladd)
            },
            None => Ok(None),
        }
    }

    /// Adds the document id to those to take out of the value of the key.
    pub fn insert_del_u32(&mut self, key: &[u8], n: u32) -> (r: Result<
        Option<SorterEntry>,
        CacheError,
    >)
        ensures
            final(self).wf(),
            final(self).spec_cap() == old(self).spec_cap(),
            final(self)@ == spec_write(
                old(self)@,
                old(self).spec_cap(),
                key@,
                n,
                true,
                false,
            ).entries,
            match spec_write(old(self)@, old(self).spec_cap(), key@, n, true, false).evicted {
                None => r matches Ok(None),
                Some(evicted) => match r {
                    Ok(Some(entry)) => entry.key@ == evicted.key && entry.value@
                        == old(self).spec_values().last(),
                    Ok(None) => false,
                    Err(_) => !old(self).spec_writable(old(self)@.len() - 1),
                },
            },
    {
        self.insert(key, n, true, false)
    }

    /// Adds the document id to those to put into the value of the key.
    pub fn insert_add_u32(&mut self, key: &[u8], n: u32) -> (r: Result<
        Option<SorterEntry>,
        CacheError,
    >)
        ensures
            final(self).wf(),
            final(self).spec_cap() == old(self).spec_cap(),
            final(self)@ == spec_write(
                old(self)@,
                old(self).spec_cap(),
                key@,
                n,
                false,
                true,
            ).entries,
            match spec_write(old(self)@, old(self).spec_cap(), key@, n, false, true).evicted {
                None => r matches Ok(None),
                Some(evicted) => match r {
                    Ok(Some(entry)) => entry.key@ == evicted.key && entry.value@
                        == old(self).spec_values().last(),
                    Ok(None) => false,
                    Err(_) => !old(self).spec_writable(old(self)@.len() - 1),
                },
            },
    {
        self.insert(key, n, false, true)
    }

    /// Adds the document id both to those to take out of the value of the
    /// key and to those to put into it.
    pub fn insert_del_add_u32(&mut self, key: &[u8], n: u32) -> (r: Result<
        Option<SorterEntry>,
        CacheError,
    >)
        ensures
            final(self).wf(),
            final(self).spec_cap() == old(self).spec_cap(),
            final(self)@ == spec_write(
                old(self)@,
                old(self).spec_cap(),
                key@,
                n,
                true,
                true,
            ).entries,
            match spec_write(old(self)@, old(self).spec_cap(), key@, n, true, true).evicted {
                None => r matches Ok(None),
                Some(evicted) => match r {
                    Ok(Some(entry)) => entry.key@ == evicted.key && entry.value@
                        == old(self).spec_values().last(),
                    Ok(None) => false,
                    Err(_) => !old(self).spec_writable(old(self)@.len() - 1),
                },
            },
    {
        self.insert(key, n, true, true)
    }

    /// Empties the cache and returns an entry of the sorted stream for each
    /// of its keys, beginning with the key used longest ago.
    pub fn into_sorter(self) -> (r: Result<Vec<SorterEntry>, CacheError>)
        ensures
            match r {
                Ok(entries) => {
                    &&& entries@.len() == self@.len()
                    &&& forall|i: int|
                        0 <= i < entries@.len() ==> (#[trigger] entries@[i]).key@
                            == self@[self@.len() - 1 - i].key && entries@[i].value@
                            == self.spec_values()[self@.len() - 1 - i]
                },
                Err(_) => exists|i: int| 0 <= i < self@.len() && !self.spec_writable(i),
            },
    {
        proof {
            use_type_invariant(&self);
        }
        let ghost all = self.spec_objects();
        let mut entries: Vec<SorterEntry> = Vec::new();
        let SorterCacheDelAddCboRoaringBitmap { cache, cap: _, cbo_buffer } = self;
        let mut buffer = cbo_buffer;
        let mut cache = match cache {
            Some(cache) => cache,
            None => {
                return Ok(entries);
            },
        };
        loop
            invariant
                all == self.spec_objects(),
                self.wf(),
                lru_entries(cache) == all.subrange(0, all.len() - entries@.len()),
                entries@.len() <= all.len(),
                forall|i: int|
                    0 <= i < entries@.len() ==> (#[trigger] entries@[i]).key@ == all[all.len() - 1
                        - i].key && entries@[i].value@ == all[all.len() - 1
                        - i].value.spec_bytes(),
            ensures
                entries@.len() == all.len(),
            decreases lru_entries(cache).len(),
        {
            let ghost left = lru_entries(cache);
            match lru_pop_lru(&mut cache) {
                Some((key, deladd)) => {
                    assert(left.last() == all[all.len() - 1 - entries@.len()]);
                    assert(lru_entries(cache) =~= all.subrange(
                        0,
                        all.len() - entries@.len() - 1,
                    ));
                    assert(deladd.del is Some || deladd.add is Some) by {
                        let i = all.len() - 1 - entries@.len();
                        assert(entry_views(all)[i].value == all[i].value@);
                    }
                    match entry_of(&mut buffer, key, deladd) {
                        Ok(Some(entry)) => {
                            entries.push(entry);
                        },
                        Ok(None) => {},
                        Err(e) => {
                            assert(!self.spec_writable(all.len() - 1 - entries@.len()));
                            return Err(e);
                        },
                    }
                },
                None => {
                    break ;
                },
            }
        }
        Ok(entries)
    }
}

/// The entry of the sorted stream for a key and its value, written through
/// the buffer. A value without any branch makes none.
fn entry_of(buffer: &mut Vec<u8>, key: Vec<u8>, deladd: DelAddRoaringBitmap) -> (r: Result<
    Option<SorterEntry>,
    CacheError,
>)
    ensures
        match r {
            Ok(Some(entry)) => (deladd.del is Some || deladd.add is Some) && entry.key == key
                && entry.value@ == deladd.spec_bytes(),
            Ok(None) => deladd.del is None && deladd.add is None,
            Err(_) => exists|i: int|
                0 <= i < deladd.spec_branches().len() && (
                #[trigger] deladd.spec_branches()[i]).value.len() > u32::MAX,
        },
{
    match deladd.serialize(buffer) {
        Ok(Some(value)) => Ok(Some(SorterEntry { key, value })),
        Ok(None) => Ok(None),
        Err(e) => Err(CacheError::Serialization(e)),
    }
}

/// A write leaves the cache in order: no key twice, and no more keys than
/// it was made for.
pub proof fn lemma_write_keeps_order(
    entries: Seq<EntryView>,
    cap: nat,
    key: Seq<u8>,
    n: u32,
    del: bool,
    add: bool,
)
    requires
        keys_distinct(entries),
        all_written(entries),
        entries.len() <= cap,
        cap > 0,
        del || add,
    ensures
        keys_distinct(spec_write(entries, cap, key, n, del, add).entries),
        all_written(spec_write(entries, cap, key, n, del, add).entries),
        spec_write(entries, cap, key, n, del, add).entries.len() <= cap,
{
    let after = spec_write(entries, cap, key, n, del, add).entries;
    assert forall|a: int| 0 <= a < after.len() implies (#[trigger] after[a]).value.del is Some
        || after[a].value.add is Some by {
        match spec_position(entries, key) {
            Some(i) => {
                if a > 0 {
                    let a2 = if a - 1 < i { a - 1 } else { a };
                    assert(after[a] == entries[a2]);
                }
            },
            None => {
                if a > 0 {
                    assert(after[a] == entries[a - 1]);
                }
            },
        }
    }
    match spec_position(entries, key) {
        Some(i) => {
            let rest = entries.remove(i);
            assert forall|a: int, b: int| 0 <= a < b < after.len() implies (#[trigger] after[a]).key
                != (#[trigger] after[b]).key by {
                let b2 = if b - 1 < i { b - 1 } else { b };
                assert(after[b] == entries[b2]);
                if a == 0 {
                    if b2 < i {
                        assert(entries[b2].key != entries[i].key);
                    } else {
                        assert(entries[i].key != entries[b2].key);
                    }
                } else {
                    let a2 = if a - 1 < i { a - 1 } else { a };
                    assert(after[a] == entries[a2]);
                    assert(entries[a2].key != entries[b2].key);
                }
            }
        },
        None => {
            assert forall|a: int, b: int| 0 <= a < b < after.len() implies (#[trigger] after[a]).key
                != (#[trigger] after[b]).key by {
                assert(after[b] == entries[b - 1]);
                if a == 0 {
                    assert(entries[b - 1].key != key);
                } else {
                    assert(after[a] == entries[a - 1]);
                    assert(entries[a - 1].key != entries[b - 1].key);
                }
            }
        },
    }
}

/// The document ids of one branch of a value.
pub open spec fn ids_of(value: DelAddView, branch: DelAdd) -> Set<u32> {
    match branch {
        DelAdd::Deletion => match value.del {
            Some(ids) => ids,
            None => Set::empty(),
        },
        DelAdd::Addition => match value.add {
            Some(ids) => ids,
            None => Set::empty(),
        },
    }
}

/// Whether the entries record the document id in the branch of the key.
pub open spec fn records(entries: Seq<EntryView>, key: Seq<u8>, branch: DelAdd, id: u32) -> bool {
    exists|i: int|
        0 <= i < entries.len() && (#[trigger] entries[i]).key == key && ids_of(
            entries[i].value,
            branch,
        ).contains(id)
}

/// The entries of the cache after a write, followed by the entry that the
/// write has given out: all that is recorded after the write.
pub open spec fn all_after(written: Written) -> Seq<EntryView> {
    written.entries + (match written.evicted {
        Some(entry) => seq![entry],
        None => Seq::empty(),
    })
}

/// No write is lost and none is made up. After a write, the cache and the
/// entry it has given out record, together, what the cache recorded before
/// and the document id that was written, in the branches and under the key
/// it was written to, and nothing else.
pub proof fn lemma_write_is_recorded(
    entries: Seq<EntryView>,
    cap: nat,
    key: Seq<u8>,
    n: u32,
    del: bool,
    add: bool,
    other: Seq<u8>,
    branch: DelAdd,
    id: u32,
)
    requires
        keys_distinct(entries),
        cap > 0,
    ensures
        records(all_after(spec_write(entries, cap, key, n, del, add)), other, branch, id) <==> (
        records(entries, other, branch, id) || (other == key && id == n && (match branch {
            DelAdd::Deletion => del,
            DelAdd::Addition => add,
        }))),
{
    let written = spec_write(entries, cap, key, n, del, add);
    let after = all_after(written);
    let written_here = other == key && id == n && (match branch {
        DelAdd::Deletion => del,
        DelAdd::Addition => add,
    });
    match spec_position(entries, key) {
        Some(i) => {
            assert(after =~= written.entries);
            let first = after[0];
            assert(first.key == key);
            if records(entries, other, branch, id) {
                let j = choose|j: int|
                    0 <= j < entries.len() && (#[trigger] entries[j]).key == other && ids_of(
                        entries[j].value,
                        branch,
                    ).contains(id);
                if j == i {
                    assert(ids_of(after[0].value, branch).contains(id));
                } else if j < i {
                    assert(after[j + 1] == entries[j]);
                } else {
                    assert(after[j] == entries[j]);
                }
                assert(records(after, other, branch, id));
            }
            if written_here {
                assert(ids_of(after[0].value, branch).contains(id));
                assert(records(after, other, branch, id));
            }
            if records(after, other, branch, id) {
                let a = choose|a: int|
                    0 <= a < after.len() && (#[trigger] after[a]).key == other && ids_of(
                        after[a].value,
                        branch,
                    ).contains(id);
                if a == 0 {
                    if !written_here {
                        assert(ids_of(entries[i].value, branch).contains(id));
                        assert(records(entries, other, branch, id));
                    }
                } else {
                    let a2 = if a - 1 < i { a - 1 } else { a };
                    assert(after[a] == entries[a2]);
                    assert(records(entries, other, branch, id));
                }
            }
        },
        None => {
            let fresh = EntryView {
                key,
                value: value_with(DelAddView { del: None, add: None }, n, del, add),
            };
            assert(after =~= seq![fresh] + entries) by {
                if entries.len() >= cap {
                    assert(entries.drop_last() + seq![entries.last()] =~= entries);
                }
            }
            if records(entries, other, branch, id) {
                let j = choose|j: int|
                    0 <= j < entries.len() && (#[trigger] entries[j]).key == other && ids_of(
                        entries[j].value,
                        branch,
                    ).contains(id);
                assert(after[j + 1] == entries[j]);
                assert(records(after, other, branch, id));
            }
            if written_here {
                assert(ids_of(after[0].value, branch).contains(id));
                assert(records(after, other, branch, id));
            }
            if records(after, other, branch, id) {
                let a = choose|a: int|
                    0 <= a < after.len() && (#[trigger] after[a]).key == other && ids_of(
                        after[a].value,
                        branch,
                    ).contains(id);
                if a == 0 {
                    assert(written_here);
                } else {
                    assert(after[a] == entries[a - 1]);
                    assert(records(entries, other, branch, id));
                }
            }
        },
    }
}

/// Nothing is lost when the cache is emptied: the entries that are given
/// out, which are the entries of the cache from the last to the first,
/// record what the cache recorded, each key once.
pub proof fn lemma_drain_is_recorded(
    entries: Seq<EntryView>,
    drained: Seq<EntryView>,
    key: Seq<u8>,
    branch: DelAdd,
    id: u32,
)
    requires
        keys_distinct(entries),
        drained.len() == entries.len(),
        forall|i: int|
            0 <= i < drained.len() ==> #[trigger] drained[i] == entries[entries.len() - 1 - i],
    ensures
        records(drained, key, branch, id) <==> records(entries, key, branch, id),
        keys_distinct(drained),
{
    if records(entries, key, branch, id) {
        let j = choose|j: int|
            0 <= j < entries.len() && (#[trigger] entries[j]).key == key && ids_of(
                entries[j].value,
                branch,
            ).contains(id);
        assert(drained[entries.len() - 1 - j] == entries[j]);
        assert(records(drained, key, branch, id));
    }
    if records(drained, key, branch, id) {
        let a = choose|a: int|
            0 <= a < drained.len() && (#[trigger] drained[a]).key == key && ids_of(
                drained[a].value,
                branch,
            ).contains(id);
        assert(drained[a] == entries[entries.len() - 1 - a]);
        assert(records(entries, key, branch, id));
    }
    assert forall|a: int, b: int| 0 <= a < b < drained.len() implies (#[trigger] drained[a]).key
        != (#[trigger] drained[b]).key by {
        assert(drained[a] == entries[entries.len() - 1 - a]);
        assert(drained[b] == entries[entries.len() - 1 - b]);
        assert(entries[entries.len() - 1 - b].key != entries[entries.len() - 1 - a].key);
    }
}

} // verus!
