use meili_core::merge::merge_into_table;
use roaring::RoaringBitmap;

fn bitmap(values: &[u32]) -> RoaringBitmap {
    values.iter().copied().collect()
}

#[test]
fn deletions_are_taken_out_then_additions_put_in() {
    let merged = merge_into_table(
        Some(bitmap(&[1, 2, 3, 4])),
        &vec![bitmap(&[1]), bitmap(&[2, 9])],
        &vec![bitmap(&[7]), bitmap(&[2, 8])],
    );
    assert_eq!(merged, Some(bitmap(&[2, 3, 4, 7, 8])));
}

#[test]
fn a_key_without_document_ids_leaves_the_table() {
    assert_eq!(merge_into_table(Some(bitmap(&[1, 2])), &vec![bitmap(&[1, 2, 3])], &vec![]), None);
    assert_eq!(merge_into_table(None, &vec![bitmap(&[1])], &vec![]), None);
    assert_eq!(merge_into_table(None, &vec![], &vec![]), None);
    assert_eq!(merge_into_table(Some(RoaringBitmap::new()), &vec![], &vec![bitmap(&[])]), None);
}

#[test]
fn a_new_key_takes_its_additions() {
    assert_eq!(merge_into_table(None, &vec![], &vec![bitmap(&[5]), bitmap(&[6])]), Some(bitmap(&[5, 6])));
    assert_eq!(merge_into_table(Some(bitmap(&[1])), &vec![], &vec![]), Some(bitmap(&[1])));
}
