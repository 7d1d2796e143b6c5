use meili_core::codec::{
    first_room, get_maximum_output_size, lengths_fit, max_ff_run, reads_back, CodecError,
    CompressedKvReaderU16, CompressedKvWriterU16, ObkvCompressedCodec,
};

fn document() -> Vec<u8> {
    let mut writer = obkv::KvWriterU16::memory();
    writer.insert(0, &b"\"hello\""[..]).unwrap();
    writer.insert(1, &b"\"blue\""[..]).unwrap();
    writer.insert(255, &b"{\"nested\":[1,2,3]}"[..]).unwrap();
    writer.into_inner().unwrap()
}

#[test]
fn codec_round_trip_with_a_dictionary() {
    let raw = document();
    let dictionary = b"\"hello\"\"blue\"{\"nested\":[1,2,3]}".to_vec();
    let written = CompressedKvWriterU16::new_with_dictionnary(&raw, &dictionary);
    let stored = ObkvCompressedCodec::bytes_encode(&written).to_vec();
    // the stored bytes are not the bytes of the document
    assert_ne!(stored, raw);

    let reader = ObkvCompressedCodec::bytes_decode(&stored);
    let mut buffer = Vec::new();
    let decoded = reader.decompress_with(&mut buffer, &dictionary).unwrap();
    assert_eq!(decoded.as_bytes(), raw.as_slice());
    let entries: Vec<(u16, &[u8])> = decoded.iter().collect();
    assert_eq!(entries[0], (0, &b"\"hello\""[..]));
    assert_eq!(entries[2].0, 255);
}

#[test]
fn codec_round_trip_without_a_dictionary() {
    let raw = document();
    let written = CompressedKvWriterU16::new_uncompressed(&raw);
    assert_eq!(written.as_bytes(), raw.as_slice());
    let stored = ObkvCompressedCodec::bytes_encode(&written).to_vec();
    assert_eq!(stored, raw);
    let reader = ObkvCompressedCodec::bytes_decode(&stored);
    assert_eq!(reader.as_non_compressed().as_bytes(), raw.as_slice());
    let mut buffer = Vec::new();
    let decoded = reader.decompress_with_optional_dictionary(&mut buffer, None).unwrap();
    assert_eq!(decoded.as_bytes(), raw.as_slice());
}

#[test]
fn the_dictionary_is_used_when_there_is_one() {
    let raw = document();
    let dictionary = b"\"hello\"\"blue\"{\"nested\":[1,2,3]}".to_vec();
    let written = CompressedKvWriterU16::try_new_with_dictionnary(&raw, &dictionary).unwrap();
    let stored = written.as_bytes().to_vec();
    let reader = CompressedKvReaderU16(&stored);
    let mut buffer = Vec::new();
    let decoded =
        reader.decompress_with_optional_dictionary(&mut buffer, Some(&dictionary[..])).unwrap();
    assert_eq!(decoded.as_bytes(), raw.as_slice());
}

#[test]
fn the_block_depends_on_the_dictionary() {
    let raw = b"aaaaaaaaaabbbbbbbbbbaaaaaaaaaabbbbbbbbbb".to_vec();
    let with = CompressedKvWriterU16::new_with_dictionnary(&raw, b"aaaaaaaaaabbbbbbbbbb");
    let without = CompressedKvWriterU16::new_with_dictionnary(&raw, b"");
    assert_ne!(with.as_bytes(), without.as_bytes());
    assert_eq!(
        without.as_bytes(),
        lz4_flex::block::compress_with_dict(&raw, b"").as_slice()
    );
}

#[test]
fn corrupt_documents_are_refused() {
    let stored = vec![0xff, 0xff, 0xff, 0xff, 0x01];
    let reader = CompressedKvReaderU16(&stored);
    let mut buffer = Vec::new();
    match reader.decompress_with(&mut buffer, b"dictionary") {
        Err(CodecError::CorruptDocument(Some(_))) => {}
        Err(other) => panic!("unexpected error {:?}", other),
        Ok(_) => panic!("a corrupt document was read"),
    }
}

#[test]
fn a_document_that_shrinks_well_is_read_back() {
    // the block is far shorter than the document: the buffer grows until it holds it
    let raw = vec![0u8; 1000];
    let written = CompressedKvWriterU16::new_with_dictionnary(&raw, b"");
    let stored = written.as_bytes().to_vec();
    assert!(stored.len() < 100);
    let reader = CompressedKvReaderU16(&stored);
    let mut buffer = Vec::new();
    let decoded = reader.decompress_with(&mut buffer, b"").unwrap();
    assert_eq!(decoded.as_bytes(), raw.as_slice());
}

#[test]
fn a_long_document_of_one_byte_is_read_back() {
    let raw = vec![7u8; 300_000];
    let dictionary = vec![7u8; 64];
    let written = CompressedKvWriterU16::try_new_with_dictionnary(&raw, &dictionary).unwrap();
    let stored = written.as_bytes().to_vec();
    assert!(stored.len() < 2_000);
    let reader = CompressedKvReaderU16(&stored);
    let mut buffer = vec![1, 2, 3];
    let decoded =
        reader.decompress_with_optional_dictionary(&mut buffer, Some(&dictionary[..])).unwrap();
    assert_eq!(decoded.as_bytes(), raw.as_slice());
}

#[test]
fn a_block_that_asks_for_more_than_it_can_give_is_refused() {
    // a token that announces literals which the block does not hold
    let stored = vec![0xf0, 0xff, 0xff, 0x00];
    let reader = CompressedKvReaderU16(&stored);
    let mut buffer = Vec::new();
    assert!(matches!(
        reader.decompress_with(&mut buffer, b""),
        Err(CodecError::CorruptDocument(Some(_)))
    ));
}

#[test]
fn the_buffer_grows_with_what_the_block_asks_for() {
    // one literal, then a run of 19 + 40 * 255 copies of it, then one literal
    let mut stored = vec![0x1f, b'a', 0x01, 0x00];
    stored.extend(vec![0xff; 40]);
    stored.extend([0x00, 0x10, b'b']);
    let reader = CompressedKvReaderU16(&stored);
    let mut buffer = Vec::new();
    let decoded = reader.decompress_with(&mut buffer, b"").unwrap();
    let mut expected = vec![b'a'; 1 + 19 + 40 * 255];
    expected.push(b'b');
    assert_eq!(decoded.as_bytes(), expected.as_slice());
}

/// Bytes that do not compress.
fn noise(len: usize) -> Vec<u8> {
    let mut state: u64 = 0x9e37_79b9_7f4a_7c15;
    let mut bytes = Vec::with_capacity(len);
    while bytes.len() < len {
        state ^= state << 13;
        state ^= state >> 7;
        state ^= state << 17;
        bytes.extend_from_slice(&state.to_le_bytes());
    }
    bytes.truncate(len);
    bytes
}

#[test]
fn a_block_longer_than_the_longest_run_is_read_back() {
    let raw = noise(17_000_000);
    let dictionary = noise(100);
    let written = CompressedKvWriterU16::try_new_with_dictionnary(&raw, &dictionary).unwrap();
    let stored = written.as_bytes().to_vec();
    assert!(stored.len() > max_ff_run());
    assert!(lengths_fit(&stored));
    let reader = CompressedKvReaderU16(&stored);
    let mut buffer = Vec::new();
    let decoded = reader.decompress_with(&mut buffer, &dictionary).unwrap();
    assert!(decoded.as_bytes() == raw.as_slice());
}

#[test]
fn a_block_with_a_length_that_cannot_be_read_is_not_decompressed() {
    assert_eq!(max_ff_run(), 16_843_008);
    let stored = vec![0xffu8; max_ff_run() + 1];
    assert!(!lengths_fit(&stored));
    let reader = CompressedKvReaderU16(&stored);
    let mut buffer = Vec::new();
    assert!(matches!(
        reader.decompress_with(&mut buffer, b""),
        Err(CodecError::CorruptDocument(None))
    ));
    assert!(buffer.is_empty());
}

#[test]
fn the_runs_of_a_block_are_measured() {
    let max = max_ff_run();
    assert!(lengths_fit(&[]));
    assert!(lengths_fit(&[0xff, 0xff, 0x00]));
    // as many as are allowed, at the start, in the middle and at the end
    let mut block = vec![0xffu8; max];
    assert!(lengths_fit(&block));
    block.push(0xfe);
    block.extend(vec![0xffu8; max]);
    assert!(lengths_fit(&block));
    block.insert(0, 0x00);
    assert!(lengths_fit(&block));
    assert!(reads_back(&block, 1000));
    // one more
    block.push(0xff);
    assert!(!lengths_fit(&block));
    assert!(!reads_back(&block, 1000));
    block.pop();
    block[max + 1] = 0xff;
    assert!(!lengths_fit(&block));
    assert_eq!(first_room(0), 20);
    assert_eq!(first_room(100), 130);
    assert_eq!(first_room(usize::MAX), isize::MAX as usize);
    assert_eq!(get_maximum_output_size(1000), lz4_flex::block::get_maximum_output_size(1000));
    assert_eq!(get_maximum_output_size(7), lz4_flex::block::get_maximum_output_size(7));
}
