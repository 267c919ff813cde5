//! Lifecycle tests: label allocation, recovery across reopen, and
//! the dimension guard.  The storage engine is simulated by a plain
//! in-memory row store that the test keeps in sync by applying the
//! batches and predicates the library hands out.

use std::sync::Arc;

use arrow_array::{Array, ArrayRef, FixedSizeListArray, Float32Array, Int64Array, RecordBatch};
use arrow_schema::{DataType as ArrowDataType, Field as ArrowField};

use lance_index::batches::Batch;
use lance_index::errors::Error;
use lance_index::manager::LanceIndex;
use lance_index::schema::{DataType, Field, Schema};

type Store = Vec<(i64, Vec<f32>)>;

fn bits(v: &[f32]) -> Vec<u32> {
    v.iter().map(|x| x.to_bits()).collect()
}

/// Applies an append batch produced by the library to the simulated
/// table, reading it back through Arrow like the engine would.
fn apply_batch(store: &mut Store, b: &Batch, dim: usize) {
    let labels = b
        .inner
        .column_by_name("label")
        .unwrap()
        .as_any()
        .downcast_ref::<Int64Array>()
        .unwrap()
        .values()
        .to_vec();
    let list = b
        .inner
        .column_by_name("vector")
        .unwrap()
        .as_any()
        .downcast_ref::<FixedSizeListArray>()
        .unwrap();
    let flat: Vec<f32> = list
        .values()
        .as_any()
        .downcast_ref::<Float32Array>()
        .unwrap()
        .values()
        .to_vec();
    assert_eq!(flat.len(), labels.len() * dim);
    for (i, label) in labels.iter().enumerate() {
        store.push((*label, flat[i * dim..(i + 1) * dim].to_vec()));
    }
}

/// The simulated table as one scanned batch, shaped as the engine
/// streams it back.
fn scan(store: &Store, dim: usize) -> Vec<Batch> {
    if store.is_empty() {
        return vec![];
    }
    let labels: Vec<i64> = store.iter().map(|r| r.0).collect();
    let flat: Vec<f32> = store.iter().flat_map(|r| r.1.iter().copied()).collect();
    let values = Float32Array::from(flat);
    let item = Arc::new(ArrowField::new("item", ArrowDataType::Float32, true));
    let list = FixedSizeListArray::new(item, dim as i32, Arc::new(values), None);
    let ids = Int64Array::from(labels);
    let rb = RecordBatch::try_from_iter_with_nullable(vec![
        ("label", Arc::new(ids) as ArrayRef, false),
        ("vector", Arc::new(list) as ArrayRef, false),
    ])
    .unwrap();
    vec![Batch { inner: rb }]
}

/// Deletes one label from the simulated table, as the engine would
/// apply the predicate the library built.
fn apply_delete(store: &mut Store, idx: &LanceIndex, label: i64) {
    let predicate = idx.delete(label).unwrap();
    assert_eq!(predicate, format!("label = {}", label));
    store.retain(|r| r.0 != label);
}

fn reopen(store: &Store, table_name: &str, metric: &str, dim: usize) -> LanceIndex {
    let scanned = scan(store, dim);
    let max = LanceIndex::query_max_label(&scanned).unwrap();
    let stored = Schema::build_vector_schema(dim);
    LanceIndex::open(table_name, metric, stored, max).unwrap()
}

#[test]
fn test_next_label_unique_after_deletes() {
    let mut store: Store = Vec::new();

    // Insert 5 vectors with labels [0,1,2,3,4]
    let mut idx = LanceIndex::create(3, "l2", "vectors");
    for i in 0..5 {
        let (label, batch) = idx.add_vector(&bits(&[i as f32, 0.0, 0.0])).unwrap();
        assert_eq!(label, i);
        apply_batch(&mut store, &batch, 3);
    }

    // Delete labels [1,2]
    apply_delete(&mut store, &idx, 1);
    apply_delete(&mut store, &idx, 2);

    // Reopen — next insert must NOT produce label 3 (already exists)
    drop(idx);
    let mut idx2 = reopen(&store, "vectors", "l2", 3);
    let (new_label, _) = idx2.add_vector(&bits(&[99.0, 0.0, 0.0])).unwrap();
    assert!(
        new_label >= 5,
        "expected label >= 5 after deletes, got {new_label}"
    );
}

#[test]
fn test_next_label_correct_on_empty_reopen() {
    let store: Store = Vec::new();

    let idx = LanceIndex::create(2, "l2", "vectors");
    drop(idx);

    let mut idx2 = reopen(&store, "vectors", "l2", 2);
    let (label, _) = idx2.add_vector(&bits(&[1.0, 2.0])).unwrap();
    assert_eq!(label, 0);
}

#[test]
fn test_open_derives_schema() {
    let mut store: Store = Vec::new();

    let mut idx = LanceIndex::create(3, "l2", "vectors");
    for i in 0..5 {
        let (_, batch) = idx.add_vector(&bits(&[i as f32, 0.0, 0.0])).unwrap();
        apply_batch(&mut store, &batch, 3);
    }
    apply_delete(&mut store, &idx, 1);
    apply_delete(&mut store, &idx, 2);

    drop(idx);

    let mut idx2 = reopen(&store, "vectors", "l2", 3);
    let (new_label, _) = idx2.add_vector(&bits(&[99.0, 0.0, 0.0])).unwrap();
    assert!(
        new_label >= 5,
        "expected label >= 5 via open, got {new_label}"
    );
}

#[test]
fn test_custom_table_name() {
    let mut store_a: Store = Vec::new();
    let mut store_b: Store = Vec::new();

    // Two indexes in same dataset with different table names
    let mut idx_a = LanceIndex::create(2, "l2", "idx_a");
    let mut idx_b = LanceIndex::create(2, "l2", "idx_b");
    assert_eq!(idx_a.table_name(), "idx_a");
    assert_eq!(idx_b.table_name(), "idx_b");

    let (_, b1) = idx_a.add_vector(&bits(&[1.0, 0.0])).unwrap();
    apply_batch(&mut store_a, &b1, 2);
    let (_, b2) = idx_a.add_vector(&bits(&[2.0, 0.0])).unwrap();
    apply_batch(&mut store_a, &b2, 2);
    let (_, b3) = idx_b.add_vector(&bits(&[10.0, 0.0])).unwrap();
    apply_batch(&mut store_b, &b3, 2);

    assert_eq!(store_a.len(), 2);
    assert_eq!(store_b.len(), 1);

    // Reopen each — they stay independent
    drop(idx_a);
    drop(idx_b);
    let idx_a2 = reopen(&store_a, "idx_a", "l2", 2);
    let idx_b2 = reopen(&store_b, "idx_b", "l2", 2);
    assert_eq!(store_a.len(), 2);
    assert_eq!(store_b.len(), 1);
    assert_eq!(idx_a2.next_label(), 2);
    assert_eq!(idx_b2.next_label(), 1);
}

#[test]
fn add_batch_assigns_consecutive_labels() {
    let mut store: Store = Vec::new();
    let mut idx = LanceIndex::create(2, "l2", "vectors");
    let flat = bits(&[1.0, 2.0, 3.0, 4.0, 5.0, 6.0]);
    let (labels, batch) = idx.add_batch(&flat, 3).unwrap();
    assert_eq!(labels, vec![0, 1, 2]);
    apply_batch(&mut store, &batch, 2);
    assert_eq!(store.len(), 3);
    assert_eq!(store[2].1, vec![5.0, 6.0]);
    assert_eq!(idx.next_label(), 3);
}

#[test]
fn add_batch_rejects_wrong_buffer_size() {
    let mut idx = LanceIndex::create(2, "l2", "vectors");
    let flat = bits(&[1.0, 2.0, 3.0]);
    let r = idx.add_batch(&flat, 2);
    assert_eq!(r.unwrap_err(), Error::SizeMismatch);
    assert_eq!(idx.next_label(), 0);
}

#[test]
fn dimension_guard_rejects_and_leaves_index_unchanged() {
    let mut idx = LanceIndex::create(3, "l2", "vectors");
    let r = idx.add_vector(&bits(&[1.0, 2.0]));
    assert_eq!(
        r.unwrap_err(),
        Error::DimensionMismatch {
            expected: 3,
            got: 2
        }
    );
    assert_eq!(idx.next_label(), 0);

    let r = idx.search(&bits(&[1.0, 2.0, 3.0, 4.0]), 5, 10, 0);
    assert_eq!(
        r.unwrap_err(),
        Error::DimensionMismatch {
            expected: 3,
            got: 4
        }
    );

    let ok = idx.search(&bits(&[1.0, 2.0, 3.0]), 5, 10, 2).unwrap();
    assert_eq!(ok.k, 5);
    assert_eq!(ok.nprobes, 10);
    assert_eq!(ok.refine_factor, 2);
}

#[test]
fn closed_index_refuses_every_operation() {
    let mut idx = LanceIndex::create(2, "l2", "vectors");
    idx.close();
    assert_eq!(idx.add_vector(&bits(&[1.0, 2.0])).unwrap_err(), Error::NotOpen);
    assert_eq!(idx.add_batch(&bits(&[1.0, 2.0]), 1).unwrap_err(), Error::NotOpen);
    assert_eq!(idx.search(&bits(&[1.0, 2.0]), 1, 1, 0).unwrap_err(), Error::NotOpen);
    assert_eq!(idx.delete(0).unwrap_err(), Error::NotOpen);
    assert_eq!(idx.compact().unwrap_err(), Error::NotOpen);
    assert_eq!(idx.create_ann_index(0, 0).unwrap_err(), Error::NotOpen);
    assert_eq!(idx.create_hnsw_index(16, 100).unwrap_err(), Error::NotOpen);
    // An empty delete set is a no-op and stays one.
    assert_eq!(idx.delete_batch(&vec![]).unwrap(), None);
    assert_eq!(idx.delete_batch(&vec![1, 2]).unwrap_err(), Error::NotOpen);
}

#[test]
fn flat_adds_demand_the_vector_only_schema() {
    // A two-column batch cannot conform to a schema with extra
    // columns: the flat add paths refuse it up front.
    let external = Schema {
        fields: vec![
            Field {
                name: "embedding".to_string(),
                dtype: DataType::FixedSizeList {
                    item_name: "item".to_string(),
                    item_nullable: true,
                    width: 2,
                },
                nullable: false,
            },
            Field {
                name: "title".to_string(),
                dtype: DataType::Utf8,
                nullable: true,
            },
        ],
    };
    let mut idx = LanceIndex::create_from_arrow(&external, "l2", "docs").unwrap();
    let r = idx.add_vector(&bits(&[1.0, 2.0]));
    assert_eq!(r.unwrap_err(), Error::SchemaMismatch);
    let r = idx.add_batch(&bits(&[1.0, 2.0]), 1);
    assert_eq!(r.unwrap_err(), Error::SchemaMismatch);
    assert_eq!(idx.next_label(), 0);
}

#[test]
fn error_messages_name_the_failure() {
    assert_eq!(Error::NotOpen.message(), "table not open");
    assert_eq!(
        Error::DimensionMismatch {
            expected: 3,
            got: 2
        }
        .message(),
        "dimension mismatch"
    );
    assert_eq!(Error::SizeMismatch.message(), "vector data size mismatch");
    assert_eq!(Error::NotFound.message(), "label not found");
}

#[test]
fn capacity_error_when_label_space_exhausted() {
    let stored = Schema::build_vector_schema(2);
    match LanceIndex::open("vectors", "l2", stored, i64::MAX) {
        Err(e) => assert_eq!(e, Error::Capacity),
        Ok(_) => panic!("label space was exhausted"),
    }
}
