//! Tests of the embedding store.

use embedding_search::store::EmbeddingStore;
use embedding_search::types::EmbeddingEntry;

fn entry(bits: &[u32], text: &str) -> EmbeddingEntry {
    EmbeddingEntry {
        embeddings: bits.to_vec(),
        text: text.to_string(),
    }
}

#[test]
fn starts_empty() {
    let store = EmbeddingStore::new();
    assert_eq!(0, store.len());
    assert!(store.get(7).is_none());
}

#[test]
fn insert_many_returns_one_id_per_entry_in_order() {
    let mut store = EmbeddingStore::new();
    let ids = store.insert_many(vec![entry(&[1, 2], "a"), entry(&[3, 4], "b")]);
    assert_eq!(2, ids.len());
    assert_eq!(2, store.len());
    assert_eq!(ids[0], store.id_at(0));
    assert_eq!(ids[1], store.id_at(1));
    let a = store.get(ids[0]).unwrap();
    assert_eq!(vec![1, 2], a.embeddings);
    assert_eq!("a", a.text);
    let b = store.get(ids[1]).unwrap();
    assert_eq!(vec![3, 4], b.embeddings);
    assert_eq!("b", b.text);
}

#[test]
fn get_missing_id_is_absent_not_an_error() {
    let mut store = EmbeddingStore::new();
    let ids = store.insert_many(vec![entry(&[5], "x")]);
    let absent = ids[0].wrapping_add(1);
    assert!(store.get(absent).is_none());
}

#[test]
fn delete_removes_only_the_named_entry() {
    let mut store = EmbeddingStore::new();
    let ids = store.insert_many(vec![entry(&[1], "a"), entry(&[2], "b")]);
    store.delete(ids[0]);
    assert_eq!(1, store.len());
    assert!(store.get(ids[0]).is_none());
    assert_eq!("b", store.get(ids[1]).unwrap().text);
}

#[test]
fn delete_missing_id_is_a_no_op() {
    let mut store = EmbeddingStore::new();
    let ids = store.insert_many(vec![entry(&[1], "a")]);
    store.delete(ids[0].wrapping_add(1));
    assert_eq!(1, store.len());
    assert_eq!("a", store.get(ids[0]).unwrap().text);
}

#[test]
fn delete_all_empties_the_store() {
    let mut store = EmbeddingStore::new();
    let ids = store.insert_many(vec![entry(&[1], "a"), entry(&[2], "b")]);
    store.delete_all();
    assert_eq!(0, store.len());
    assert!(store.get(ids[0]).is_none());
    assert!(store.get(ids[1]).is_none());
}

#[test]
fn snapshot_reads_back_every_entry() {
    let mut store = EmbeddingStore::new();
    let ids = store.insert_many(vec![entry(&[9, 8], "p"), entry(&[7], "q")]);
    let snapshot = store.snapshot_iter();
    assert_eq!(2, snapshot.len());
    assert_eq!(ids[0], snapshot[0].0);
    assert_eq!(vec![9, 8], snapshot[0].1.embeddings);
    assert_eq!("p", snapshot[0].1.text);
    assert_eq!(ids[1], snapshot[1].0);
    assert_eq!(vec![7], snapshot[1].1.embeddings);
    assert_eq!("q", snapshot[1].1.text);
}
