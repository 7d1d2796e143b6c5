use meili_core::bitmap::{CboRoaringBitmapCodec, THRESHOLD};
use meili_core::cache::{SorterCacheDelAddCboRoaringBitmap, SorterEntry};
use meili_core::del_add::{DelAdd, DelAddRoaringBitmap};
use roaring::RoaringBitmap;

fn bitmap(values: &[u32]) -> RoaringBitmap {
    values.iter().copied().collect()
}

fn value(del: Option<&[u32]>, add: Option<&[u32]>) -> Vec<u8> {
    let mut writer = obkv::KvWriterU8::memory();
    if let Some(del) = del {
        writer.insert(0, cbo(&bitmap(del))).unwrap();
    }
    if let Some(add) = add {
        writer.insert(1, cbo(&bitmap(add))).unwrap();
    }
    writer.into_inner().unwrap()
}

fn cbo(bitmap: &RoaringBitmap) -> Vec<u8> {
    let mut bytes = vec![];
    CboRoaringBitmapCodec::serialize_into(bitmap, &mut bytes);
    bytes
}

fn entry(key: &[u8], del: Option<&[u32]>, add: Option<&[u32]>) -> SorterEntry {
    SorterEntry { key: key.to_vec(), value: value(del, add) }
}

#[test]
fn few_integers_are_written_one_after_the_other() {
    assert_eq!(THRESHOLD, 7);
    assert_eq!(cbo(&bitmap(&[])), Vec::<u8>::new());
    assert_eq!(cbo(&bitmap(&[258, 1])), vec![1, 0, 0, 0, 2, 1, 0, 0]);
    let seven = bitmap(&[1, 2, 3, 4, 5, 6, 0x01020304]);
    let bytes = cbo(&seven);
    assert_eq!(bytes.len(), 28);
    assert_eq!(&bytes[24..], &[4, 3, 2, 1]);
}

#[test]
fn more_integers_are_written_in_the_standard_format() {
    let eight = bitmap(&[1, 2, 3, 4, 5, 6, 7, 8]);
    let mut standard = vec![];
    eight.serialize_into(&mut standard).unwrap();
    assert_eq!(cbo(&eight), standard);
    assert_eq!(RoaringBitmap::deserialize_from(&cbo(&eight)[..]).unwrap(), eight);
}

#[test]
fn the_encoding_is_appended() {
    let mut bytes = vec![9, 9];
    CboRoaringBitmapCodec::serialize_into(&bitmap(&[1]), &mut bytes);
    assert_eq!(bytes, vec![9, 9, 1, 0, 0, 0]);
}

#[test]
fn a_value_holds_its_branches() {
    assert_eq!(DelAdd::Deletion.key(), 0);
    assert_eq!(DelAdd::Addition.key(), 1);
    let mut buffer = vec![];
    let both = DelAddRoaringBitmap::new_del_add(3);
    assert_eq!(both.del, Some(bitmap(&[3])));
    assert_eq!(both.add, Some(bitmap(&[3])));
    assert_eq!(both.serialize(&mut buffer).unwrap(), Some(value(Some(&[3]), Some(&[3]))));
    let del = DelAddRoaringBitmap::new_del(3);
    assert_eq!(del.add, None);
    assert_eq!(del.serialize(&mut buffer).unwrap(), Some(value(Some(&[3]), None)));
    let add = DelAddRoaringBitmap::new_add(4);
    assert_eq!(add.del, None);
    assert_eq!(add.serialize(&mut buffer).unwrap(), Some(value(None, Some(&[4]))));
    let none = DelAddRoaringBitmap { del: None, add: None };
    assert_eq!(none.serialize(&mut buffer).unwrap(), None);

    // the bytes are those of a block with the two keys
    let bytes = value(Some(&[3]), Some(&[4, 5]));
    let entries: Vec<(u8, Vec<u8>)> =
        obkv::KvReaderU8::new(&bytes).iter().map(|(k, v)| (k, v.to_vec())).collect();
    assert_eq!(entries, vec![(0, vec![3, 0, 0, 0]), (1, vec![4, 0, 0, 0, 5, 0, 0, 0])]);
}

#[test]
fn a_cache_needs_room() {
    assert!(SorterCacheDelAddCboRoaringBitmap::new(0).is_none());
    assert!(SorterCacheDelAddCboRoaringBitmap::new(1).is_some());
}

#[test]
fn writes_to_one_key_become_one_entry() {
    let mut cache = SorterCacheDelAddCboRoaringBitmap::new(2).unwrap();
    assert_eq!(cache.insert_del_u32(b"hello", 1).unwrap(), None);
    assert_eq!(cache.insert_del_u32(b"hello", 2).unwrap(), None);
    assert_eq!(cache.insert_add_u32(b"hello", 3).unwrap(), None);
    assert_eq!(cache.insert_del_add_u32(b"hello", 4).unwrap(), None);
    assert_eq!(cache.insert_del_u32(b"hello", 1).unwrap(), None);
    assert_eq!(
        cache.into_sorter().unwrap(),
        vec![entry(b"hello", Some(&[1, 2, 4]), Some(&[3, 4]))]
    );
}

#[test]
fn the_key_written_longest_ago_makes_room() {
    let mut cache = SorterCacheDelAddCboRoaringBitmap::new(2).unwrap();
    assert_eq!(cache.insert_add_u32(b"a", 1).unwrap(), None);
    assert_eq!(cache.insert_add_u32(b"b", 2).unwrap(), None);
    // `a` was written longest ago
    assert_eq!(cache.insert_del_u32(b"c", 3).unwrap(), Some(entry(b"a", None, Some(&[1]))));
    // a write to `b` makes it the key written last
    assert_eq!(cache.insert_del_u32(b"b", 4).unwrap(), None);
    assert_eq!(cache.insert_add_u32(b"d", 5).unwrap(), Some(entry(b"c", Some(&[3]), None)));
    // a key that was given out begins anew
    assert_eq!(
        cache.insert_del_add_u32(b"a", 6).unwrap(),
        Some(entry(b"b", Some(&[4]), Some(&[2])))
    );
    assert_eq!(
        cache.into_sorter().unwrap(),
        vec![entry(b"d", None, Some(&[5])), entry(b"a", Some(&[6]), Some(&[6]))]
    );
}

#[test]
fn every_write_is_found_in_the_stream() {
    let mut cache = SorterCacheDelAddCboRoaringBitmap::new(3).unwrap();
    let mut stream: Vec<SorterEntry> = vec![];
    let mut expected_del = std::collections::BTreeMap::<Vec<u8>, RoaringBitmap>::new();
    let mut expected_add = std::collections::BTreeMap::<Vec<u8>, RoaringBitmap>::new();
    for n in 0..200u32 {
        let key = vec![b'k', (n * 7 % 11) as u8];
        let flushed = match n % 3 {
            0 => {
                expected_del.entry(key.clone()).or_default().insert(n);
                cache.insert_del_u32(&key, n).unwrap()
            }
            1 => {
                expected_add.entry(key.clone()).or_default().insert(n);
                cache.insert_add_u32(&key, n).unwrap()
            }
            _ => {
                expected_del.entry(key.clone()).or_default().insert(n);
                expected_add.entry(key.clone()).or_default().insert(n);
                cache.insert_del_add_u32(&key, n).unwrap()
            }
        };
        stream.extend(flushed);
    }
    stream.extend(cache.into_sorter().unwrap());

    let mut found_del = std::collections::BTreeMap::<Vec<u8>, RoaringBitmap>::new();
    let mut found_add = std::collections::BTreeMap::<Vec<u8>, RoaringBitmap>::new();
    for entry in &stream {
        for (branch, bytes) in obkv::KvReaderU8::new(&entry.value).iter() {
            let ids = if bytes.len() <= THRESHOLD * 4 {
                bytes.chunks(4).map(|c| u32::from_le_bytes(c.try_into().unwrap())).collect()
            } else {
                RoaringBitmap::deserialize_from(bytes).unwrap()
            };
            let found = if branch == 0 { &mut found_del } else { &mut found_add };
            *found.entry(entry.key.clone()).or_default() |= ids;
        }
    }
    assert_eq!(found_del, expected_del);
    assert_eq!(found_add, expected_add);
}
