//! The store of the documents of an index: the bytes of each document
//! under its internal id, compressed against the dictionary of the index
//! where it has one, and the internal ids under the external ones.

use std::collections::HashMap;
use vstd::prelude::*;
use crate::codec::{
    kv_reader_bytes, lz4_compressed, spec_decompress, spec_max_ff_run,
    spec_maximum_output_size, spec_storable, CodecError, CompressedKvReaderU16,
    CompressedKvWriterU16,
};
use crate::text::str_eq;

verus! {

/// The internal id of the document that has an external id.
#[derive(Debug)]
pub struct ExternalId {
    pub external: String,
    pub internal: u32,
}

/// Why a document cannot be stored.
#[derive(Debug, Clone, Copy, PartialEq, Eq, Structural)]
pub enum StoreError {
    /// The document is longer than the compressor can take, or its block
    /// holds a length that could not be read back.
    DocumentTooLarge,
}

/// The documents of an index.
pub struct DocumentStore {
    documents: HashMap<u32, Vec<u8>>,
    dictionary: Option<Vec<u8>>,
    external_ids: Vec<ExternalId>,
}

/// The internal id under the first of the first `upto` entries that has
/// the external id, if one has it.
pub open spec fn spec_lookup(entries: Seq<ExternalId>, external: Seq<char>, upto: nat) -> Option<
    u32,
>
    decreases upto,
{
    if upto == 0 || upto > entries.len() {
        None
    } else {
        match spec_lookup(entries, external, (upto - 1) as nat) {
            Some(internal) => Some(internal),
            None => if entries[upto - 1].external@ == external {
                Some(entries[upto - 1].internal)
            } else {
                None
            },
        }
    }
}

/// The bytes that are stored for a document: the document itself, or its
/// block against the dictionary of the index.
pub open spec fn spec_stored_bytes(raw: Seq<u8>, dictionary: Option<Seq<u8>>) -> Seq<u8> {
    match dictionary {
        Some(d) => lz4_compressed(raw, d),
        None => raw,
    }
}

/// Whether a document can be stored in an index with this dictionary, if
/// it has one.
pub open spec fn spec_accepted(raw: Seq<u8>, dictionary: Option<Seq<u8>>) -> bool {
    match dictionary {
        Some(d) => spec_storable(raw, d),
        None => true,
    }
}

/// The stored documents among those with the first `upto` ids, in the
/// order of the ids.
pub open spec fn spec_documents(stored: Map<u32, Seq<u8>>, ids: Seq<u32>, upto: nat) -> Seq<
    (u32, Seq<u8>),
>
    decreases upto,
{
    if upto == 0 || upto > ids.len() {
        Seq::empty()
    } else if stored.contains_key(ids[upto - 1]) {
        spec_documents(stored, ids, (upto - 1) as nat).push(
            (ids[upto - 1], stored[ids[upto - 1]]),
        )
    } else {
        spec_documents(stored, ids, (upto - 1) as nat)
    }
}

/// What a list of stored documents stands for.
pub open spec fn document_views(documents: Seq<(u32, CompressedKvReaderU16)>) -> Seq<
    (u32, Seq<u8>),
> {
    Seq::new(documents.len(), |i: int| (documents[i].0, documents[i].1@))
}

impl DocumentStore {
    /// The bytes stored under each internal id.
    pub closed spec fn spec_stored(&self) -> Map<u32, Seq<u8>> {
        Map::new(|id: u32| self.documents@.contains_key(id), |id: u32| self.documents@[id]@)
    }

    /// The dictionary of the index, if it has one.
    pub closed spec fn spec_dictionary(&self) -> Option<Seq<u8>> {
        match self.dictionary {
            Some(d) => Some(d@),
            None => None,
        }
    }

    /// The internal ids under the external ones.
    pub closed spec fn spec_external_ids(&self) -> Seq<ExternalId> {
        self.external_ids@
    }

    /// An empty store for an index with this dictionary, if it has one.
    pub fn new(dictionary: Option<Vec<u8>>) -> (store: DocumentStore)
        ensures
            store.spec_stored() == Map::<u32, Seq<u8>>::empty(),
            store.spec_external_ids() == Seq::<ExternalId>::empty(),
            store.spec_dictionary() == match dictionary {
                Some(d) => Some(d@),
                None => None,
            },
    {
        let store = DocumentStore { documents: HashMap::new(), dictionary, external_ids: Vec::new() };
        assert(store.spec_stored() =~= Map::<u32, Seq<u8>>::empty());
        store
    }

    /// Writes a document under its internal id, compressing it against the
    /// dictionary if the index has one. Fails, and writes nothing, where
    /// there is a dictionary and the document is too long for the
    /// compressor, or could not be read back from its block. A document
    /// whose block cannot be longer than the longest run that a block may
    /// hold is always written.
    pub fn put(&mut self, internal_id: u32, raw_kv_bytes: &[u8]) -> (r: Result<(), StoreError>)
        ensures
            spec_maximum_output_size(raw_kv_bytes@.len()) <= spec_max_ff_run() ==> r is Ok,
            final(self).spec_dictionary() == old(self).spec_dictionary(),
            final(self).spec_external_ids() == old(self).spec_external_ids(),
            if !spec_accepted(raw_kv_bytes@, old(self).spec_dictionary()) {
                &&& r == Err::<(), StoreError>(StoreError::DocumentTooLarge)
                &&& final(self).spec_stored() == old(self).spec_stored()
            } else {
                &&& r is Ok
                &&& final(self).spec_stored() == old(self).spec_stored().insert(
                    internal_id,
                    spec_stored_bytes(raw_kv_bytes@, old(self).spec_dictionary()),
                )
            },
    {
        let written = match &self.dictionary {
            Some(dictionary) => {
                match CompressedKvWriterU16::try_new_with_dictionnary(
                    raw_kv_bytes,
                    dictionary.as_slice(),
                ) {
                    Some(written) => written,
                    None => {
                        return Err(StoreError::DocumentTooLarge);
                    },
                }
            },
            None => CompressedKvWriterU16::new_uncompressed(raw_kv_bytes),
        };
        let ghost before = self.spec_stored();
        self.documents.insert(internal_id, written.0);
        assert(self.spec_stored() =~= before.insert(
            internal_id,
            spec_stored_bytes(raw_kv_bytes@, self.spec_dictionary()),
        ));
        Ok(())
    }

    /// The stored bytes of a document, which may be compressed.
    pub fn get(&self, internal_id: u32) -> (r: Option<CompressedKvReaderU16<'_>>)
        ensures
            match r {
                Some(document) => self.spec_stored().contains_key(internal_id) && document@
                    == self.spec_stored()[internal_id],
                None => !self.spec_stored().contains_key(internal_id),
            },
    {
        match self.documents.get(&internal_id) {
            Some(bytes) => Some(CompressedKvReaderU16(bytes.as_slice())),
            None => None,
        }
    }

    /// Takes a document out of the store and tells whether it was there.
    pub fn delete(&mut self, internal_id: u32) -> (was_there: bool)
        ensures
            was_there == old(self).spec_stored().contains_key(internal_id),
            final(self).spec_stored() == old(self).spec_stored().remove(internal_id),
            final(self).spec_dictionary() == old(self).spec_dictionary(),
            final(self).spec_external_ids() == old(self).spec_external_ids(),
    {
        let ghost before = self.spec_stored();
        let removed = self.documents.remove(&internal_id);
        assert(self.spec_stored() =~= before.remove(internal_id));
        removed.is_some()
    }

    /// The number of documents.
    pub fn len(&self) -> (n: usize)
        ensures
            n == self.spec_stored().dom().len(),
    {
        assert(self.spec_stored().dom() =~= self.documents@.dom());
        self.documents.len()
    }

    /// The stored documents among those with the given ids, in the order
    /// of the ids.
    pub fn iter(&self, ids: &Vec<u32>) -> (documents: Vec<(u32, CompressedKvReaderU16<'_>)>)
        ensures
            document_views(documents@) == spec_documents(self.spec_stored(), ids@, ids@.len()),
    {
        let mut documents: Vec<(u32, CompressedKvReaderU16<'_>)> = Vec::new();
        let mut i: usize = 0;
        assert(document_views(documents@) =~= Seq::<(u32, Seq<u8>)>::empty());
        while i < ids.len()
            invariant
                i <= ids.len(),
                document_views(documents@) == spec_documents(self.spec_stored(), ids@, i as nat),
            decreases ids.len() - i,
        {
            match self.get(ids[i]) {
                Some(document) => {
                    let ghost before = documents@;
                    documents.push((ids[i], document));
                    assert(document_views(documents@) =~= document_views(before).push(
                        (ids@[i as int], document@),
                    ));
                },
                None => {},
            }
            i += 1;
        }
        documents
    }

    /// Reads a document: decompresses it into the buffer against the
    /// dictionary of the index, or gives it as it is stored where the index
    /// has no dictionary. `None` where no document has the id; an error
    /// where the stored bytes are no block against the dictionary.
    ///
    /// What was stored comes back: where the stored bytes are those of a
    /// document that `put` accepts, the bytes of that document are read.
    pub fn read<'a>(&'a self, internal_id: u32, buffer: &'a mut Vec<u8>) -> (r: Result<
        Option<obkv::KvReaderU16<'a>>,
        CodecError,
    >)
        ensures
            !self.spec_stored().contains_key(internal_id) ==> r matches Ok(None),
            self.spec_stored().contains_key(internal_id) ==> match self.spec_dictionary() {
                None => r is Ok && r->Ok_0 is Some && kv_reader_bytes(r->Ok_0->Some_0)
                    == self.spec_stored()[internal_id],
                Some(dictionary) => match r {
                    Ok(Some(reader)) => spec_decompress(
                        self.spec_stored()[internal_id],
                        dictionary,
                    ) == Some(kv_reader_bytes(reader)),
                    Ok(None) => false,
                    Err(_) => spec_decompress(self.spec_stored()[internal_id], dictionary) is None,
                },
            },
            forall|raw: Seq<u8>|
                self.spec_stored().contains_key(internal_id) && self.spec_stored()[internal_id]
                    == #[trigger] spec_stored_bytes(raw, self.spec_dictionary()) && spec_accepted(
                    raw,
                    self.spec_dictionary(),
                ) ==> r is Ok && r->Ok_0 is Some && kv_reader_bytes(r->Ok_0->Some_0) == raw,
    {
        match self.documents.get(&internal_id) {
            None => Ok(None),
            Some(bytes) => {
                let stored = CompressedKvReaderU16(bytes.as_slice());
                let dictionary = match &self.dictionary {
                    Some(d) => Some(d.as_slice()),
                    None => None,
                };
                match stored.decompress_with_optional_dictionary(buffer, dictionary) {
                    Ok(reader) => Ok(Some(reader)),
                    Err(e) => Err(e),
                }
            },
        }
    }

    /// The internal id of the document with this external id, if there is one.
    pub fn external_id_lookup(&self, external_id: &str) -> (r: Option<u32>)
        ensures
            r == spec_lookup(self.spec_external_ids(), external_id@, self.spec_external_ids().len()),
    {
        let mut i: usize = 0;
        while i < self.external_ids.len()
            invariant
                i <= self.external_ids@.len(),
                spec_lookup(self.external_ids@, external_id@, i as nat) is None,
            decreases self.external_ids.len() - i,
        {
            if str_eq(self.external_ids[i].external.as_str(), external_id) {
                proof {
                    lemma_lookup_extends(self.external_ids@, external_id@, (i + 1) as nat);
                }
                return Some(self.external_ids[i].internal);
            }
            i += 1;
        }
        None
    }

    /// Gives the document with this external id an internal id, unless it
    /// has one, and returns the internal id that it has.
    pub fn insert_external_id(&mut self, external_id: String, internal_id: u32) -> (r: u32)
        ensures
            final(self).spec_stored() == old(self).spec_stored(),
            final(self).spec_dictionary() == old(self).spec_dictionary(),
            match spec_lookup(
                old(self).spec_external_ids(),
                external_id@,
                old(self).spec_external_ids().len(),
            ) {
                Some(known) => r == known && final(self).spec_external_ids()
                    == old(self).spec_external_ids(),
                None => r == internal_id && final(self).spec_external_ids()
                    == old(self).spec_external_ids().push(
                    ExternalId { external: external_id, internal: internal_id },
                ),
            },
    {
        match self.external_id_lookup(external_id.as_str()) {
            Some(known) => known,
            None => {
                self.external_ids.push(ExternalId { external: external_id, internal: internal_id });
                internal_id
            },
        }
    }
}

/// The first entry that has an external id is the first of any longer list
/// that begins with the same entries.
proof fn lemma_lookup_extends(entries: Seq<ExternalId>, external: Seq<char>, upto: nat)
    requires
        upto <= entries.len(),
        spec_lookup(entries, external, upto) is Some,
    ensures
        spec_lookup(entries, external, entries.len()) == spec_lookup(entries, external, upto),
    decreases entries.len() - upto,
{
    if upto < entries.len() {
        lemma_lookup_extends(entries, external, upto + 1);
    }
}

} // verus!
