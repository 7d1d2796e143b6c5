//! The value of a key of an inverted index on its way to the store: the
//! document ids to take out and the document ids to put in.

use vstd::prelude::*;
use crate::bitmap::{bitmap_set, spec_cbo_bytes, CboRoaringBitmapCodec};

verus! {

#[verifier::external_type_specification]
#[verifier::external_body]
#[verifier::reject_recursive_types(W)]
#[verifier::reject_recursive_types(K)]
pub struct ExKvWriter<W, K>(obkv::KvWriter<W, K>);

#[verifier::external_type_specification]
#[verifier::external_body]
pub struct ExIoError(std::io::Error);

/// The two branches of a value.
#[derive(Debug, Clone, Copy, PartialEq, Eq, Structural)]
pub enum DelAdd {
    Deletion,
    Addition,
}

impl DelAdd {
    /// The key of the branch in the block of a value.
    pub open spec fn spec_key(self) -> u8 {
        match self {
            DelAdd::Deletion => 0,
            DelAdd::Addition => 1,
        }
    }

    /// The key of the branch in the block of a value.
    pub fn key(self) -> (k: u8)
        ensures
            k == self.spec_key(),
    {
        match self {
            DelAdd::Deletion => 0,
            DelAdd::Addition => 1,
        }
    }
}

/// An entry of a block with one-byte keys.
pub struct Branch {
    pub key: u8,
    pub value: Seq<u8>,
}

/// The entries that were inserted into a writer, in order.
pub uninterp spec fn kv_written(writer: obkv::KvWriterU8<Vec<u8>>) -> Seq<Branch>;

/// The bytes of the block that holds the entries.
pub uninterp spec fn obkv_block(entries: Seq<Branch>) -> Seq<u8>;

/// Whether an entry can be inserted after those that were: its key is
/// greater than the last, and its value no longer than 32 bits can say.
pub open spec fn can_insert(written: Seq<Branch>, key: u8, value: Seq<u8>) -> bool {
    (written.len() == 0 || written.last().key < key) && value.len() <= u32::MAX
}

/// Calls `obkv::KvWriter::memory`, which makes a writer into a new vector.
#[verifier::external_body]
pub(crate) fn kv_writer_memory() -> (writer: obkv::KvWriterU8<Vec<u8>>)
    ensures
        kv_written(writer) == Seq::<Branch>::empty(),
{
    obkv::KvWriterU8::memory()
}

/// Calls `obkv::KvWriter::insert`, which writes the entry after those that
/// were written. It fails, and writes nothing, unless the key is greater
/// than the last one and the length of the value fits in 32 bits.
#[verifier::external_body]
pub(crate) fn kv_writer_insert(writer: &mut obkv::KvWriterU8<Vec<u8>>, key: u8, value: &[u8])
    -> (r: Result<(), std::io::Error>)
    ensures
        r is Ok == can_insert(kv_written(*old(writer)), key, value@),
        r is Ok ==> kv_written(*final(writer)) == kv_written(*old(writer)).push(
            Branch { key, value: value@ },
        ),
        r is Err ==> kv_written(*final(writer)) == kv_written(*old(writer)),
{
    writer.insert(key, value)
}

/// Calls `obkv::KvWriter::into_inner`, which flushes the vector and gives
/// it back: it holds the block of the entries that were inserted. Flushing
/// a vector does nothing and cannot fail.
#[verifier::external_body]
pub(crate) fn kv_writer_into_inner(writer: obkv::KvWriterU8<Vec<u8>>) -> (r: Result<
    Vec<u8>,
    std::io::Error,
>)
    ensures
        r is Ok && r->Ok_0@ == obkv_block(kv_written(writer)),
{
    writer.into_inner()
}

/// The document ids to take out of the value of a key, and those to put in.
#[derive(Debug)]
pub struct DelAddRoaringBitmap {
    pub del: Option<roaring::RoaringBitmap>,
    pub add: Option<roaring::RoaringBitmap>,
}

/// What a [`DelAddRoaringBitmap`] stands for.
pub struct DelAddView {
    pub del: Option<Set<u32>>,
    pub add: Option<Set<u32>>,
}

impl View for DelAddRoaringBitmap {
    type V = DelAddView;

    open spec fn view(&self) -> DelAddView {
        DelAddView {
            del: match self.del {
                Some(bitmap) => Some(bitmap_set(bitmap)),
                None => None,
            },
            add: match self.add {
                Some(bitmap) => Some(bitmap_set(bitmap)),
                None => None,
            },
        }
    }
}

impl DelAddRoaringBitmap {
    /// The branches of the value, the deletion first, each with the compact
    /// encoding of its bitmap.
    pub open spec fn spec_branches(&self) -> Seq<Branch> {
        (match self.del {
            Some(bitmap) => seq![
                Branch { key: DelAdd::Deletion.spec_key(), value: spec_cbo_bytes(bitmap) },
            ],
            None => Seq::empty(),
        }) + (match self.add {
            Some(bitmap) => seq![
                Branch { key: DelAdd::Addition.spec_key(), value: spec_cbo_bytes(bitmap) },
            ],
            None => Seq::empty(),
        })
    }

    /// The bytes of the value: the block of its branches.
    pub open spec fn spec_bytes(&self) -> Seq<u8> {
        obkv_block(self.spec_branches())
    }

    pub fn new_del_add(n: u32) -> (value: Self)
        ensures
            value@ == (DelAddView {
                del: Some(Set::<u32>::empty().insert(n)),
                add: Some(Set::<u32>::empty().insert(n)),
            }),
    {
        DelAddRoaringBitmap {
            del: Some(crate::bitmap::bitmap_from_one(n)),
            add: Some(crate::bitmap::bitmap_from_one(n)),
        }
    }

    pub fn new_del(n: u32) -> (value: Self)
        ensures
            value@ == (DelAddView { del: Some(Set::<u32>::empty().insert(n)), add: None }),
    {
        DelAddRoaringBitmap { del: Some(crate::bitmap::bitmap_from_one(n)), add: None }
    }

    pub fn new_add(n: u32) -> (value: Self)
        ensures
            value@ == (DelAddView { del: None, add: Some(Set::<u32>::empty().insert(n)) }),
    {
        DelAddRoaringBitmap { del: None, add: Some(crate::bitmap::bitmap_from_one(n)) }
    }

    /// Writes the value as a block of its branches. A value without any
    /// branch is not written. `cbo_buffer` is used on the way.
    pub fn serialize(&self, cbo_buffer: &mut Vec<u8>) -> (r: Result<Option<Vec<u8>>, std::io::Error>)
        ensures
            match r {
                Ok(Some(bytes)) => (self.del is Some || self.add is Some) && bytes@
                    == self.spec_bytes(),
                Ok(None) => self.del is None && self.add is None,
                Err(_) => (self.del is Some || self.add is Some) && exists|i: int|
                    0 <= i < self.spec_branches().len() && (
                    #[trigger] self.spec_branches()[i]).value.len() > u32::MAX,
            },
    {
        if self.del.is_none() && self.add.is_none() {
            return Ok(None);
        }
        let mut value_writer = kv_writer_memory();
        match &self.del {
            Some(del) => {
                cbo_buffer.clear();
                CboRoaringBitmapCodec::serialize_into(del, cbo_buffer);
                assert(cbo_buffer@ =~= spec_cbo_bytes(*del));
                match kv_writer_insert(
                    &mut value_writer,
                    DelAdd::Deletion.key(),
                    cbo_buffer.as_slice(),
                ) {
                    Ok(()) => {},
                    Err(e) => {
                        assert(self.spec_branches()[0].value.len() > u32::MAX);
                        return Err(e);
                    },
                }
            },
            None => {},
        }
        match &self.add {
            Some(add) => {
                cbo_buffer.clear();
                CboRoaringBitmapCodec::serialize_into(add, cbo_buffer);
                assert(cbo_buffer@ =~= spec_cbo_bytes(*add));
                match kv_writer_insert(
                    &mut value_writer,
                    DelAdd::Addition.key(),
                    cbo_buffer.as_slice(),
                ) {
                    Ok(()) => {},
                    Err(e) => {
                        assert(self.spec_branches()[self.spec_branches().len() - 1].value.len()
                            > u32::MAX);
                        return Err(e);
                    },
                }
            },
            None => {},
        }
        assert(kv_written(value_writer) =~= self.spec_branches());
        match kv_writer_into_inner(value_writer) {
            Ok(bytes) => Ok(Some(bytes)),
            Err(e) => Err(e),
        }
    }
}

} // verus!
