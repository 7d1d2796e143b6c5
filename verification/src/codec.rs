//! The codec of the stored documents.
//!
//! A document is stored as the bytes of an ordered key-value block, either
//! as they are or compressed against the dictionary of its index. The codec
//! knows nothing of the fields: it frames bytes.

use vstd::prelude::*;

verus! {

#[verifier::external_type_specification]
#[verifier::external_body]
pub struct ExDecompressError(lz4_flex::block::DecompressError);

#[verifier::external_type_specification]
#[verifier::external_body]
#[verifier::reject_recursive_types(K)]
pub struct ExKvReader<'a, K>(obkv::KvReader<'a, K>);

/// The bytes that a reader of key-value blocks reads.
pub uninterp spec fn kv_reader_bytes(reader: obkv::KvReaderU16) -> Seq<u8>;

/// The block that compressing `input` against the dictionary gives.
pub uninterp spec fn lz4_compressed(input: Seq<u8>, dictionary: Seq<u8>) -> Seq<u8>;

/// What the decompression of a block gives.
pub enum Decoded {
    /// The bytes that were written.
    Bytes(Seq<u8>),
    /// The room is too small for what the block holds.
    OutputTooSmall,
    /// The block is no block compressed against the dictionary.
    Corrupt,
}

/// What decompressing `input` against the dictionary gives where there is
/// room for `room` bytes.
pub uninterp spec fn lz4_decoded(input: Seq<u8>, dictionary: Seq<u8>, room: nat) -> Decoded;

/// Whether an error of the decompression says that the room is too small.
pub uninterp spec fn is_output_too_small(error: lz4_flex::block::DecompressError) -> bool;

/// The number of bytes `0xFF` in a row that end before `end`.
pub open spec fn spec_ff_run(block: Seq<u8>, end: nat) -> nat
    decreases end,
{
    if 0 < end <= block.len() && block[end - 1] == 0xff {
        1 + spec_ff_run(block, (end - 1) as nat)
    } else {
        0
    }
}

/// The most bytes `0xFF` in a row that a block may hold.
///
/// A length is written in a block as a field of bytes, all `0xFF` but the
/// last, and the decompressor reads it by adding them up in 32 bits: the
/// sum of 16,843,008 bytes `0xFF` and one more byte fits. A length is at
/// most 19 more than that sum, so at most `255 * n + 273` where its field
/// holds `n` bytes `0xFF`. The decompressor then adds the length to a
/// position in the buffer: on a machine of 32 bits fewer bytes are
/// allowed, so that the two fit together in a `usize` whatever the room of
/// the buffer.
pub open spec fn spec_max_ff_run() -> nat {
    if (usize::MAX - isize::MAX - 273) / 255 < 16_843_008 {
        ((usize::MAX - isize::MAX - 273) / 255) as nat
    } else {
        16_843_008
    }
}

/// Whether every length of a block can be read: nowhere in the block
/// stand more bytes `0xFF` in a row than [`spec_max_ff_run`] allows, so
/// that no length field holds more.
pub open spec fn spec_lengths_fit(block: Seq<u8>) -> bool {
    forall|end: nat| end <= block.len() ==> #[trigger] spec_ff_run(block, end) <= spec_max_ff_run()
}

/// Whether a document of `raw_len` bytes is read back from its block: the
/// lengths of the block can be read, and a buffer can hold the document.
pub open spec fn spec_reads_back(block: Seq<u8>, raw_len: nat) -> bool {
    spec_lengths_fit(block) && raw_len <= isize::MAX
}

/// Whether a document can be stored against a dictionary: the compressor
/// takes it, and it is read back from its block.
pub open spec fn spec_storable(raw: Seq<u8>, dictionary: Seq<u8>) -> bool {
    raw.len() <= spec_max_input_len() && spec_reads_back(
        lz4_compressed(raw, dictionary),
        raw.len(),
    )
}

/// The most bytes that compressing `len` bytes can give.
pub open spec fn spec_maximum_output_size(len: nat) -> nat {
    16 + 4 + (len * 110 / 100)
}

/// The longest input whose largest compressed size can be computed.
pub open spec fn spec_max_input_len() -> nat {
    ((usize::MAX - 20) / 110) as nat
}

/// Calls `obkv::KvReader::new`, which makes a reader on top of the bytes
/// without looking at them.
#[verifier::external_body]
pub(crate) fn kv_reader_new<'a>(bytes: &'a [u8]) -> (reader: obkv::KvReaderU16<'a>)
    ensures
        kv_reader_bytes(reader) == bytes@,
{
    obkv::KvReaderU16::new(bytes)
}

/// An entry of a key-value block: the id of a field and the bytes of its value.
pub struct KvEntry<'a> {
    pub key: u16,
    pub value: &'a [u8],
}

/// What a [`KvEntry`] stands for.
pub struct KvEntryView {
    pub key: u16,
    pub value: Seq<u8>,
}

impl<'a> View for KvEntry<'a> {
    type V = KvEntryView;

    open spec fn view(&self) -> KvEntryView {
        KvEntryView { key: self.key, value: self.value@ }
    }
}

/// The views of a list of entries.
pub open spec fn kv_entry_views(entries: Seq<KvEntry>) -> Seq<KvEntryView> {
    Seq::new(entries.len(), |i: int| entries[i]@)
}

/// The entries that a reader finds in the bytes of a key-value block, in
/// the order in which they stand there.
pub uninterp spec fn obkv_entries(bytes: Seq<u8>) -> Seq<KvEntryView>;

/// Calls `obkv::KvReader::iter` and collects the entries it yields. They
/// are a function of the bytes that the reader was made on; the reading
/// ends where the bytes are no further entry.
#[verifier::external_body]
pub(crate) fn kv_reader_entries<'a>(reader: &obkv::KvReaderU16<'a>) -> (entries: Vec<KvEntry<'a>>)
    ensures
        kv_entry_views(entries@) == obkv_entries(kv_reader_bytes(*reader)),
{
    reader.iter().map(|(key, value)| KvEntry { key, value }).collect()
}

/// The most bytes that compressing `input_len` bytes can give. The
/// product must fit.
pub fn get_maximum_output_size(input_len: usize) -> (size: usize)
    requires
        input_len <= spec_max_input_len(),
    ensures
        size == spec_maximum_output_size(input_len as nat),
{
    16 + 4 + (input_len * 110 / 100)
}

/// Calls `lz4_flex::block::compress_with_dict`, which compresses all bytes
/// of the input against the dictionary. The block is a function of the two,
/// and no longer than `lz4_flex::block::get_maximum_output_size` says,
/// which is what [`get_maximum_output_size`] computes.
#[verifier::external_body]
pub(crate) fn compress_with_dict(input: &[u8], dictionary: &[u8]) -> (block: Vec<u8>)
    requires
        input@.len() <= spec_max_input_len(),
    ensures
        block@ == lz4_compressed(input@, dictionary@),
        block@.len() <= spec_maximum_output_size(input@.len()),
{
    lz4_flex::block::compress_with_dict(input, dictionary)
}

/// Calls `lz4_flex::block::decompress_into_with_dict`, which decompresses
/// all bytes of the input into the output and returns how many bytes it has
/// written there.
///
/// The decompressor adds up the bytes of a length field, and a length and
/// a position in the output, unchecked. So the block must hold no more
/// bytes `0xFF` in a row than [`spec_max_ff_run`] allows, which bounds every
/// length field, and the output must be no longer than a slice can be.
///
/// What it gives is a function of the input, the dictionary and the room.
/// Compression loses nothing: a block that `compress_with_dict` has made of
/// some bytes, against the same dictionary, gives these bytes back where
/// the output has room for them, and else fails because the output is too
/// small.
#[verifier::external_body]
pub(crate) fn decompress_into_with_dict(input: &[u8], output: &mut Vec<u8>, dictionary: &[u8])
    -> (r: Result<usize, lz4_flex::block::DecompressError>)
    requires
        spec_lengths_fit(input@),
        old(output)@.len() <= isize::MAX,
    ensures
        final(output)@.len() == old(output)@.len(),
        match r {
            Ok(size) => size <= final(output)@.len() && lz4_decoded(
                input@,
                dictionary@,
                old(output)@.len(),
            ) == Decoded::Bytes(final(output)@.subrange(0, size as int)),
            Err(e) => lz4_decoded(input@, dictionary@, old(output)@.len()) == if is_output_too_small(
                e,
            ) {
                Decoded::OutputTooSmall
            } else {
                Decoded::Corrupt
            },
        },
        forall|raw: Seq<u8>|
            input@ == #[trigger] lz4_compressed(raw, dictionary@) ==> if raw.len() <= old(
                output,
            )@.len() {
                r is Ok && final(output)@.subrange(0, r->Ok_0 as int) == raw
            } else {
                r is Err && is_output_too_small(r->Err_0)
            },
{
    lz4_flex::block::decompress_into_with_dict(input, &mut output[..], dictionary)
}

/// Tells the variant `OutputTooSmall` of `lz4_flex::block::DecompressError`
/// from the others.
#[verifier::external_body]
pub(crate) fn output_too_small(error: &lz4_flex::block::DecompressError) -> (r: bool)
    ensures
        r == is_output_too_small(*error),
{
    matches!(error, lz4_flex::block::DecompressError::OutputTooSmall { .. })
}

/// The most bytes `0xFF` in a row that a block may hold.
pub fn max_ff_run() -> (max: usize)
    ensures
        max == spec_max_ff_run(),
{
    let spare = (usize::MAX - isize::MAX as usize - 273) / 255;
    if spare < 16_843_008 {
        spare
    } else {
        16_843_008
    }
}

/// A run of bytes `0xFF` is no longer than what stands before its end.
proof fn lemma_ff_run_is_short(block: Seq<u8>, end: nat)
    ensures
        spec_ff_run(block, end) <= end,
    decreases end,
{
    if 0 < end <= block.len() && block[end - 1] == 0xff {
        lemma_ff_run_is_short(block, (end - 1) as nat);
    }
}

/// Every length can be read of a block that is no longer than the longest
/// run that a block may hold.
pub proof fn lemma_short_blocks_fit(block: Seq<u8>)
    requires
        block.len() <= spec_max_ff_run(),
    ensures
        spec_lengths_fit(block),
{
    assert forall|end: nat| end <= block.len() implies #[trigger] spec_ff_run(block, end)
        <= spec_max_ff_run() by {
        lemma_ff_run_is_short(block, end);
    }
}

/// Whether every length of a block can be read. A block that is no longer
/// than the longest run allowed needs no look at its bytes.
pub fn lengths_fit(block: &[u8]) -> (r: bool)
    ensures
        r == spec_lengths_fit(block@),
{
    let max = max_ff_run();
    if block.len() <= max {
        proof {
            lemma_short_blocks_fit(block@);
        }
        return true;
    }
    let mut run: usize = 0;
    let mut i: usize = 0;
    while i < block.len()
        invariant
            i <= block@.len(),
            max == spec_max_ff_run(),
            run == spec_ff_run(block@, i as nat),
            forall|end: nat| end <= i ==> #[trigger] spec_ff_run(block@, end) <= spec_max_ff_run(),
        decreases block.len() - i,
    {
        if block[i] == 0xff {
            if run == max {
                assert(spec_ff_run(block@, (i + 1) as nat) == run + 1);
                return false;
            }
            run += 1;
        } else {
            run = 0;
        }
        i += 1;
    }
    true
}

/// Whether a document of `raw_len` bytes is read back from its block.
pub fn reads_back(block: &[u8], raw_len: usize) -> (r: bool)
    ensures
        r == spec_reads_back(block@, raw_len as nat),
{
    raw_len <= isize::MAX as usize && lengths_fit(block)
}

/// The room that the buffer is given first for a block of `len` bytes.
pub fn first_room(len: usize) -> (room: usize)
    ensures
        room == spec_first_room(len as nat),
        0 < room <= isize::MAX,
{
    let limit = isize::MAX as usize;
    if len <= (usize::MAX - 20) / 110 {
        let first = get_maximum_output_size(len);
        if first < limit {
            first
        } else {
            limit
        }
    } else {
        limit
    }
}

/// The room that the buffer is given first for a block of `len` bytes: as
/// many bytes as compressing `len` bytes can give at most, as far as a
/// buffer can hold them.
pub open spec fn spec_first_room(len: nat) -> nat {
    if len <= spec_max_input_len() && spec_maximum_output_size(len) < isize::MAX {
        spec_maximum_output_size(len)
    } else {
        isize::MAX as nat
    }
}

/// The room that the buffer is given after `room` was too small: twice as
/// much, up to the limit.
pub open spec fn spec_next_room(room: nat, limit: nat) -> nat {
    if room <= limit / 2 {
        2 * room
    } else {
        limit
    }
}

/// What decompressing a block gives, beginning with `room`: as long as the
/// room is too small and below the limit, it is made larger and the
/// decompression is tried again.
pub open spec fn spec_decompress_from(
    block: Seq<u8>,
    dictionary: Seq<u8>,
    room: nat,
    limit: nat,
) -> Option<Seq<u8>>
    decreases limit - room,
{
    match lz4_decoded(block, dictionary, room) {
        Decoded::Bytes(bytes) => Some(bytes),
        Decoded::OutputTooSmall => if 0 < room < limit {
            spec_decompress_from(block, dictionary, spec_next_room(room, limit), limit)
        } else {
            None
        },
        Decoded::Corrupt => None,
    }
}

/// The document that a block stands for against a dictionary: what its
/// decompression gives in a buffer that grows as far as a buffer can; none
/// where a length of the block cannot be read.
pub open spec fn spec_decompress(block: Seq<u8>, dictionary: Seq<u8>) -> Option<Seq<u8>> {
    if spec_lengths_fit(block) {
        spec_decompress_from(block, dictionary, spec_first_room(block.len()), isize::MAX as nat)
    } else {
        None
    }
}

/// Why a stored document cannot be read.
#[derive(Debug)]
pub enum CodecError {
    /// The bytes are no block compressed against the dictionary: the
    /// decompression fails with the error, or a length of the block cannot
    /// be read and the block is not even decompressed.
    CorruptDocument(Option<lz4_flex::block::DecompressError>),
}

/// The codec of the table of the documents: it hands the stored bytes out
/// and takes the bytes to store, as they are.
pub struct ObkvCompressedCodec;

impl ObkvCompressedCodec {
    /// The stored bytes, seen as a document that may be compressed.
    pub fn bytes_decode<'a>(bytes: &'a [u8]) -> (reader: CompressedKvReaderU16<'a>)
        ensures
            reader@ == bytes@,
    {
        CompressedKvReaderU16(bytes)
    }

    /// The bytes to store for a document.
    pub fn bytes_encode<'a>(item: &'a CompressedKvWriterU16) -> (bytes: &'a [u8])
        ensures
            bytes@ == item@,
    {
        item.0.as_slice()
    }
}

/// The stored bytes of a document, which may be compressed.
pub struct CompressedKvReaderU16<'a>(pub &'a [u8]);

impl<'a> View for CompressedKvReaderU16<'a> {
    type V = Seq<u8>;

    open spec fn view(&self) -> Seq<u8> {
        self.0@
    }
}

impl<'a> CompressedKvReaderU16<'a> {
    /// The document that the stored bytes stand for against a dictionary.
    pub open spec fn spec_decompress_with(&self, dictionary: Seq<u8>) -> Option<Seq<u8>> {
        spec_decompress(self@, dictionary)
    }

    /// Whether the bytes of a document can be read back from the stored bytes.
    pub open spec fn spec_can_hold(&self, raw: Seq<u8>) -> bool {
        spec_reads_back(self@, raw.len())
    }

    /// Decompresses the stored bytes into the buffer and returns how many
    /// bytes of the buffer the document takes.
    fn decompress_into(&self, buffer: &mut Vec<u8>, dictionary: &[u8]) -> (r: Result<
        usize,
        CodecError,
    >)
        ensures
            match r {
                Ok(size) => size <= final(buffer)@.len() && self.spec_decompress_with(
                    dictionary@,
                ) == Some(final(buffer)@.subrange(0, size as int)),
                Err(_) => self.spec_decompress_with(dictionary@) is None,
            },
            forall|raw: Seq<u8>|
                self@ == #[trigger] lz4_compressed(raw, dictionary@) && self.spec_can_hold(raw)
                    ==> r is Ok && final(buffer)@.subrange(0, r->Ok_0 as int) == raw,
    {
        if !lengths_fit(self.0) {
            return Err(CodecError::CorruptDocument(None));
        }
        let limit = isize::MAX as usize;
        let mut room = first_room(self.0.len());
        let mut result: Option<Result<usize, CodecError>> = None;
        while result.is_none()
            invariant
                spec_lengths_fit(self@),
                limit == isize::MAX,
                0 < room <= limit,
                result is None ==> spec_decompress_from(
                    self@,
                    dictionary@,
                    room as nat,
                    limit as nat,
                ) == self.spec_decompress_with(dictionary@),
                match result {
                    None => true,
                    Some(Ok(size)) => {
                        &&& size <= buffer@.len()
                        &&& self.spec_decompress_with(dictionary@) == Some(
                            buffer@.subrange(0, size as int),
                        )
                        &&& forall|raw: Seq<u8>|
                            self@ == #[trigger] lz4_compressed(raw, dictionary@)
                                ==> buffer@.subrange(0, size as int) == raw
                    },
                    Some(Err(_)) => {
                        &&& self.spec_decompress_with(dictionary@) is None
                        &&& forall|raw: Seq<u8>|
                            self@ == #[trigger] lz4_compressed(raw, dictionary@) ==> raw.len()
                                > limit
                    },
                },
            decreases limit - room + if result is None { 1int } else { 0int },
        {
            buffer.resize(room, 0);
            match decompress_into_with_dict(self.0, buffer, dictionary) {
                Ok(size) => {
                    result = Some(Ok(size));
                },
                Err(e) => {
                    if output_too_small(&e) && room < limit {
                        room = if room <= limit / 2 {
                            2 * room
                        } else {
                            limit
                        };
                    } else {
                        result = Some(Err(CodecError::CorruptDocument(Some(e))));
                    }
                },
            }
        }
        match result {
            Some(r) => r,
            None => Err(CodecError::CorruptDocument(None)),
        }
    }

    /// Decompresses the document into the buffer using the provided
    /// dictionary and returns a reader of the decompressed bytes.
    ///
    /// The buffer is first given as many bytes as compressing a document
    /// of the length of the block can give at most; as long as that is too
    /// small for the document, the room is doubled. Fails with
    /// `CorruptDocument` where the bytes are no block compressed against
    /// the dictionary, or a length of the block cannot be read.
    ///
    /// The codec loses nothing: the bytes of a document that was compressed
    /// against the dictionary come back, from a block of any length.
    pub fn decompress_with<'b>(&self, buffer: &'b mut Vec<u8>, dictionary: &[u8]) -> (r: Result<
        obkv::KvReaderU16<'b>,
        CodecError,
    >)
        ensures
            match r {
                Ok(reader) => self.spec_decompress_with(dictionary@) == Some(
                    kv_reader_bytes(reader),
                ),
                Err(_) => self.spec_decompress_with(dictionary@) is None,
            },
            forall|raw: Seq<u8>|
                self@ == #[trigger] lz4_compressed(raw, dictionary@) && self.spec_can_hold(raw)
                    ==> r is Ok && kv_reader_bytes(r->Ok_0) == raw,
    {
        match self.decompress_into(buffer, dictionary) {
            Ok(size) => {
                let filled: &'b Vec<u8> = &*buffer;
                Ok(kv_reader_new(vstd::slice::slice_subrange(filled.as_slice(), 0, size)))
            },
            Err(e) => Err(e),
        }
    }

    /// Returns the reader of the bytes as they are: that is how a document
    /// is stored as long as there is no dictionary.
    pub fn as_non_compressed(&self) -> (reader: obkv::KvReaderU16<'a>)
        ensures
            kv_reader_bytes(reader) == self@,
    {
        kv_reader_new(self.0)
    }

    /// Reads the document against the dictionary of its index, or as it is
    /// where the index has none.
    pub fn decompress_with_optional_dictionary<'b>(
        &self,
        buffer: &'b mut Vec<u8>,
        dictionary: Option<&[u8]>,
    ) -> (r: Result<obkv::KvReaderU16<'b>, CodecError>)
        where 'a: 'b,
        ensures
            match dictionary {
                None => r is Ok && kv_reader_bytes(r->Ok_0) == self@,
                Some(d) => match r {
                    Ok(reader) => self.spec_decompress_with(d@) == Some(kv_reader_bytes(reader)),
                    Err(_) => self.spec_decompress_with(d@) is None,
                },
            },
            forall|raw: Seq<u8>|
                dictionary is Some && self@ == #[trigger] lz4_compressed(raw, dictionary->Some_0@)
                    && self.spec_can_hold(raw) ==> r is Ok && kv_reader_bytes(r->Ok_0) == raw,
    {
        match dictionary {
            None => Ok(kv_reader_new(self.0)),
            Some(d) => self.decompress_with(buffer, d),
        }
    }
}

/// The bytes to store for a document.
pub struct CompressedKvWriterU16(pub Vec<u8>);

impl View for CompressedKvWriterU16 {
    type V = Seq<u8>;

    open spec fn view(&self) -> Seq<u8> {
        self.0@
    }
}

impl CompressedKvWriterU16 {
    /// Compresses the bytes of a key-value block against the dictionary.
    ///
    /// Whether the bytes are read back from the block is not looked at
    /// here: [`CompressedKvWriterU16::try_new_with_dictionnary`] makes the
    /// block only where they are.
    pub fn new_with_dictionnary(writer: &[u8], dictionnary: &[u8]) -> (w: Self)
        requires
            writer@.len() <= spec_max_input_len(),
        ensures
            w@ == lz4_compressed(writer@, dictionnary@),
            w@.len() <= spec_maximum_output_size(writer@.len()),
    {
        CompressedKvWriterU16(compress_with_dict(writer, dictionnary))
    }

    /// Compresses the bytes of a key-value block against the dictionary,
    /// unless they are too many for the compressor or would not be read
    /// back from their block. Bytes whose block cannot be longer than the
    /// longest run that a block may hold are always compressed.
    pub fn try_new_with_dictionnary(writer: &[u8], dictionnary: &[u8]) -> (w: Option<Self>)
        ensures
            match w {
                Some(w) => spec_storable(writer@, dictionnary@) && w@ == lz4_compressed(
                    writer@,
                    dictionnary@,
                ),
                None => !spec_storable(writer@, dictionnary@),
            },
            spec_maximum_output_size(writer@.len()) <= spec_max_ff_run() ==> w is Some,
    {
        if writer.len() <= (usize::MAX - 20) / 110 {
            let written = Self::new_with_dictionnary(writer, dictionnary);
            proof {
                if written@.len() <= spec_max_ff_run() {
                    lemma_short_blocks_fit(written@);
                }
            }
            if reads_back(written.0.as_slice(), writer.len()) {
                Some(written)
            } else {
                None
            }
        } else {
            None
        }
    }

    /// The bytes of a key-value block as they are, for an index without dictionary.
    pub fn new_uncompressed(writer: &[u8]) -> (w: Self)
        ensures
            w@ == writer@,
    {
        CompressedKvWriterU16(vstd::slice::slice_to_vec(writer))
    }

    /// The bytes to store.
    pub fn as_bytes(&self) -> (bytes: &[u8])
        ensures
            bytes@ == self@,
    {
        self.0.as_slice()
    }
}

} // verus!
