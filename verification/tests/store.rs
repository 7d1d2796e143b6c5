use meili_core::documents::payload::IndexDocumentsMethod;
use meili_core::documents::projection::{project, some_documents, RetrieveVectors};
use meili_core::documents::retrieval::{
    delete_documents_by_filter, retrieve_documents, ParsedFilter,
};
use meili_core::documents::store::{DocumentStore, StoreError};
use meili_core::fields_ids_map::FieldsIdsMap;
use meili_core::json::{json_to_string, parse_json_slice, Json, Member};
use meili_core::tasks::scheduler::{apply_to_batch, next_batch, BatchChange, BatchPolicy};
use meili_core::tasks::task::{Status, TaskContent, TaskEvent, TaskResult};
use meili_core::tasks::task_store::TaskStore;
use roaring::RoaringBitmap;

fn member(key: &str, value: Json) -> Member {
    Member { key: key.to_string(), value }
}

/// The block of a document, each field under its id.
fn to_obkv(document: &[Member], fields: &mut FieldsIdsMap) -> Vec<u8> {
    let mut entries: Vec<(u16, String)> = document
        .iter()
        .map(|m| (fields.insert(&m.key).unwrap(), json_to_string(&m.value)))
        .collect();
    entries.sort();
    let mut writer = obkv::KvWriterU16::memory();
    for (id, value) in entries {
        writer.insert(id, value.as_bytes()).unwrap();
    }
    writer.into_inner().unwrap()
}

fn from_obkv(reader: obkv::KvReaderU16, fields: &FieldsIdsMap) -> Vec<Member> {
    reader
        .iter()
        .map(|(id, bytes)| member(fields.name(id).unwrap(), parse_json_slice(bytes).unwrap()))
        .collect()
}

fn movie() -> Vec<Member> {
    vec![
        member("id", Json::Number("1".to_string())),
        member("title", Json::String("X".to_string())),
    ]
}

#[test]
fn a_stored_document_is_retrieved_as_it_was() {
    for dictionary in [None, Some(b"{\"id\":1,\"title\":\"X\"}".to_vec())] {
        let mut fields = FieldsIdsMap::new();
        let mut store = DocumentStore::new(dictionary);
        store.put(0, &to_obkv(&movie(), &mut fields)).unwrap();
        let mut buffer = vec![];
        let reader = store.read(0, &mut buffer).unwrap().unwrap();
        let document = from_obkv(reader, &fields);
        let retrieved = project(
            some_documents(document, RetrieveVectors::Ignore, vec![], &vec![], 0),
            None,
            RetrieveVectors::Ignore,
        );
        assert_eq!(retrieved, movie());
    }
}

#[test]
fn documents_are_compressed_when_there_is_a_dictionary() {
    let raw: Vec<u8> = (0u8..60).chain(*b"some bytes").collect();
    let mut plain = DocumentStore::new(None);
    plain.put(3, &raw).unwrap();
    assert_eq!(plain.get(3).unwrap().0, raw.as_slice());

    let mut compressed = DocumentStore::new(Some(b"some bytes".to_vec()));
    compressed.put(3, &raw).unwrap();
    assert_ne!(compressed.get(3).unwrap().0, raw.as_slice());
    assert_eq!(
        compressed.get(3).unwrap().0,
        lz4_flex::block::compress_with_dict(&raw, b"some bytes").as_slice()
    );
    let mut buffer = vec![];
    assert_eq!(compressed.read(3, &mut buffer).unwrap().unwrap().as_bytes(), raw.as_slice());
    assert_eq!(StoreError::DocumentTooLarge, StoreError::DocumentTooLarge);
}

#[test]
fn a_document_far_longer_than_its_block_is_read_back() {
    let raw = vec![b'z'; 50_000];
    let mut store = DocumentStore::new(Some(b"zzzz".to_vec()));
    store.put(9, &raw).unwrap();
    assert!(store.get(9).unwrap().0.len() < 1_000);
    let mut buffer = vec![];
    assert_eq!(store.read(9, &mut buffer).unwrap().unwrap().as_bytes(), raw.as_slice());
}

#[test]
fn documents_are_found_by_their_ids() {
    let mut store = DocumentStore::new(None);
    assert_eq!(store.len(), 0);
    store.put(5, b"five").unwrap();
    store.put(2, b"two").unwrap();
    store.put(5, b"FIVE").unwrap();
    assert_eq!(store.len(), 2);
    assert!(store.get(3).is_none());
    let mut buffer = vec![];
    assert!(store.read(3, &mut buffer).unwrap().is_none());
    let found: Vec<(u32, Vec<u8>)> =
        store.iter(&vec![2, 3, 5]).into_iter().map(|(id, d)| (id, d.0.to_vec())).collect();
    assert_eq!(found, vec![(2, b"two".to_vec()), (5, b"FIVE".to_vec())]);
    assert!(store.delete(2));
    assert!(!store.delete(2));
    assert_eq!(store.len(), 1);
    assert!(store.iter(&vec![2]).is_empty());
}

#[test]
fn external_ids_lead_to_internal_ids() {
    let mut store = DocumentStore::new(None);
    assert_eq!(store.external_id_lookup("abc"), None);
    assert_eq!(store.insert_external_id("abc".to_string(), 0), 0);
    assert_eq!(store.insert_external_id("def".to_string(), 1), 1);
    assert_eq!(store.insert_external_id("abc".to_string(), 2), 0);
    assert_eq!(store.external_id_lookup("abc"), Some(0));
    assert_eq!(store.external_id_lookup("def"), Some(1));
    assert_eq!(store.external_id_lookup("ab"), None);
}

#[test]
fn delete_by_filter() {
    let policy = BatchPolicy { additions_after_deletions: true };
    let mut fields = FieldsIdsMap::new();
    let mut documents = DocumentStore::new(None);
    let mut ids = RoaringBitmap::new();
    let mut tasks = TaskStore::new();

    // one document is added
    tasks
        .register(
            "movies".to_string(),
            TaskContent::DocumentAddition {
                content_uuid: 1,
                merge_strategy: IndexDocumentsMethod::ReplaceDocuments,
                primary_key: None,
                documents_count: 1,
                allow_index_creation: true,
            },
            None,
            false,
            1,
        )
        .unwrap();
    let batch = next_batch(&tasks, policy);
    apply_to_batch(&mut tasks, &batch, &BatchChange::Processing { timestamp: 2 }).unwrap();
    let internal = documents.insert_external_id("1".to_string(), 0);
    documents.put(internal, &to_obkv(&movie(), &mut fields)).unwrap();
    ids.insert(internal);
    apply_to_batch(
        &mut tasks,
        &batch,
        &BatchChange::Succeeded {
            results: vec![TaskResult::DocumentAddition { indexed_documents: 1 }],
            timestamp: 3,
        },
    )
    .unwrap();
    assert_eq!(retrieve_documents(&ids, 0, 20), (1, vec![0]));

    // the documents with the title `X` are deleted
    assert!(delete_documents_by_filter(ParsedFilter::Filter).is_ok());
    let summary = tasks
        .register(
            "movies".to_string(),
            TaskContent::DocumentDeletionByFilter { filter: "\"title = X\"".to_string() },
            None,
            false,
            4,
        )
        .unwrap();
    assert_eq!(summary.task_uid, 1);
    assert_eq!(summary.status, Status::Enqueued);
    let batch = next_batch(&tasks, policy);
    assert_eq!(batch, vec![1]);
    apply_to_batch(&mut tasks, &batch, &BatchChange::Processing { timestamp: 5 }).unwrap();
    let mut deleted = 0;
    for (id, _) in documents.iter(&ids.iter().collect()) {
        let mut buffer = vec![];
        let document = from_obkv(documents.read(id, &mut buffer).unwrap().unwrap(), &fields);
        if document.contains(&member("title", Json::String("X".to_string()))) {
            ids.remove(id);
            deleted += 1;
        }
    }
    for id in 0..1 {
        if !ids.contains(id) {
            documents.delete(id);
        }
    }
    apply_to_batch(
        &mut tasks,
        &batch,
        &BatchChange::Succeeded {
            results: vec![TaskResult::DocumentDeletion { deleted_documents: deleted }],
            timestamp: 6,
        },
    )
    .unwrap();

    let task = tasks.get(1).unwrap();
    assert_eq!(task.status(), Status::Succeeded);
    assert!(matches!(
        task.events.last(),
        Some(TaskEvent::Succeeded { result: TaskResult::DocumentDeletion { deleted_documents: 1 }, .. })
    ));
    assert_eq!(retrieve_documents(&ids, 0, 20), (0, vec![]));
    assert_eq!(documents.len(), 0);
}
