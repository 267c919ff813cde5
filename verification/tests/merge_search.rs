//! Merge remapping, search materialization, vector export, and the
//! end-to-end lifecycle, against a simulated storage engine.

use std::sync::Arc;

use arrow_array::{Array, ArrayRef, FixedSizeListArray, Float32Array, Int64Array, RecordBatch};
use arrow_schema::{DataType as ArrowDataType, Field as ArrowField};

use lance_index::batches::Batch;
use lance_index::errors::Error;
use lance_index::manager::{collect_search_results, LanceIndex, Metric};
use lance_index::predicate::in_predicate;
use lance_index::schema::Schema;

type Store = Vec<(i64, Vec<f32>)>;

fn bits(v: &[f32]) -> Vec<u32> {
    v.iter().map(|x| x.to_bits()).collect()
}

fn data_batch(rows: &[(i64, Vec<f32>)], dim: usize) -> Batch {
    let labels: Vec<i64> = rows.iter().map(|r| r.0).collect();
    let flat: Vec<f32> = rows.iter().flat_map(|r| r.1.iter().copied()).collect();
    let values = Float32Array::from(flat);
    let item = Arc::new(ArrowField::new("item", ArrowDataType::Float32, true));
    let list = FixedSizeListArray::new(item, dim as i32, Arc::new(values), None);
    let ids = Int64Array::from(labels);
    let rb = RecordBatch::try_from_iter_with_nullable(vec![
        ("label", Arc::new(ids) as ArrayRef, false),
        ("vector", Arc::new(list) as ArrayRef, false),
    ])
    .unwrap();
    Batch { inner: rb }
}

/// A search-result batch as the engine streams it: labels plus a
/// "_distance" float column, ascending.
fn result_batch(rows: &[(i64, f32)]) -> Batch {
    let labels: Vec<i64> = rows.iter().map(|r| r.0).collect();
    let dists: Vec<f32> = rows.iter().map(|r| r.1).collect();
    let ids = Int64Array::from(labels);
    let ds = Float32Array::from(dists);
    let rb = RecordBatch::try_from_iter_with_nullable(vec![
        ("label", Arc::new(ids) as ArrayRef, false),
        ("_distance", Arc::new(ds) as ArrayRef, true),
    ])
    .unwrap();
    Batch { inner: rb }
}

fn read_labels(b: &Batch) -> Vec<i64> {
    b.inner
        .column_by_name("label")
        .unwrap()
        .as_any()
        .downcast_ref::<Int64Array>()
        .unwrap()
        .values()
        .to_vec()
}

fn read_flat_vectors(b: &Batch) -> Vec<f32> {
    b.inner
        .column_by_name("vector")
        .unwrap()
        .as_any()
        .downcast_ref::<FixedSizeListArray>()
        .unwrap()
        .values()
        .as_any()
        .downcast_ref::<Float32Array>()
        .unwrap()
        .values()
        .to_vec()
}

#[test]
fn merge_remaps_labels_and_keeps_vectors() {
    let mut target = LanceIndex::create(2, "l2", "target");
    let source = LanceIndex::create(2, "l2", "source");

    // Target already holds labels 0..3.
    for i in 0..3 {
        target.add_vector(&bits(&[i as f32, 0.0])).unwrap();
    }

    // The engine's answer to the live-label selection on the source.
    let live = vec![10i64, 11, 12];
    assert_eq!(in_predicate(&live), "label IN (10, 11, 12)");
    let batches = vec![
        data_batch(&[(10, vec![1.0, 2.0]), (11, vec![3.0, 4.0])], 2),
        data_batch(&[(12, vec![5.0, 6.0])], 2),
    ];

    let (mapping, out) = target.merge_from(&source, &live, &batches).unwrap();
    assert_eq!(mapping, vec![(10, 3), (11, 4), (12, 5)]);
    assert_eq!(target.next_label(), 6);

    // The rewritten batches carry the new labels and the vectors
    // verbatim.
    assert_eq!(out.len(), 2);
    assert_eq!(read_labels(&out[0]), vec![3, 4]);
    assert_eq!(read_labels(&out[1]), vec![5]);
    assert_eq!(read_flat_vectors(&out[0]), vec![1.0, 2.0, 3.0, 4.0]);
    assert_eq!(read_flat_vectors(&out[1]), vec![5.0, 6.0]);
}

#[test]
fn merge_of_empty_live_set_is_a_no_op() {
    let mut target = LanceIndex::create(2, "l2", "target");
    let source = LanceIndex::create(2, "l2", "source");
    let (mapping, out) = target.merge_from(&source, &vec![], &vec![]).unwrap();
    assert!(mapping.is_empty());
    assert!(out.is_empty());
    assert_eq!(target.next_label(), 0);
}

#[test]
fn merge_skips_empty_batches() {
    let mut target = LanceIndex::create(2, "l2", "target");
    let source = LanceIndex::create(2, "l2", "source");
    let batches = vec![
        data_batch(&[], 2),
        data_batch(&[(7, vec![1.0, 1.0])], 2),
    ];
    let (mapping, out) = target.merge_from(&source, &vec![7], &batches).unwrap();
    assert_eq!(mapping, vec![(7, 0)]);
    assert_eq!(out.len(), 1);
    assert_eq!(read_labels(&out[0]), vec![0]);
}

#[test]
fn merge_requires_open_handles() {
    let mut target = LanceIndex::create(2, "l2", "target");
    let mut source = LanceIndex::create(2, "l2", "source");
    source.close();
    let r = target.merge_from(&source, &vec![1], &vec![]);
    assert_eq!(r.unwrap_err(), Error::NotOpen);
}

#[test]
fn search_results_concatenate_in_arrival_order() {
    let batches = vec![
        result_batch(&[(0, 0.0), (4, 1.5)]),
        result_batch(&[(2, 2.25)]),
    ];
    let pairs = collect_search_results(&batches).unwrap();
    let decoded: Vec<(i64, f32)> = pairs.iter().map(|p| (p.0, f32::from_bits(p.1))).collect();
    assert_eq!(decoded, vec![(0, 0.0), (4, 1.5), (2, 2.25)]);
}

#[test]
fn search_result_without_distance_column_is_a_storage_error() {
    let batches = vec![data_batch(&[(0, vec![1.0, 2.0])], 2)];
    assert_eq!(collect_search_results(&batches).unwrap_err(), Error::Storage);
}

#[test]
fn get_vector_returns_first_row_of_first_nonempty_batch() {
    let idx = LanceIndex::create(2, "l2", "vectors");
    let batches = vec![
        data_batch(&[], 2),
        data_batch(&[(3, vec![7.0, 8.0])], 2),
    ];
    let v = idx.get_vector(3, &batches).unwrap();
    assert_eq!(v, bits(&[7.0, 8.0]));

    let missing = idx.get_vector(9, &vec![]);
    assert_eq!(missing.unwrap_err(), Error::NotFound);
}

#[test]
fn get_all_vectors_exports_every_row() {
    let idx = LanceIndex::create(2, "l2", "vectors");
    let batches = vec![
        data_batch(&[(0, vec![1.0, 2.0]), (1, vec![3.0, 4.0])], 2),
        data_batch(&[(4, vec![5.0, 6.0])], 2),
    ];
    let (labels, flat) = idx.get_all_vectors(&batches).unwrap();
    assert_eq!(labels, vec![0, 1, 4]);
    assert_eq!(flat, bits(&[1.0, 2.0, 3.0, 4.0, 5.0, 6.0]));
}

#[test]
fn query_max_label_ignores_row_count() {
    // A table with rows [0..4] after deleting 1 and 2 has count 3
    // but maximum label 4: the next label must be 5, not 3.
    let batches = vec![data_batch(
        &[(0, vec![0.0, 0.0]), (3, vec![0.0, 0.0]), (4, vec![0.0, 0.0])],
        2,
    )];
    assert_eq!(LanceIndex::query_max_label(&batches).unwrap(), 4);
    assert_eq!(LanceIndex::query_max_label(&vec![]).unwrap(), -1);
}

#[test]
fn scan_batch_without_label_column_is_a_storage_error() {
    let ids = Int64Array::from(vec![1i64, 2]);
    let rb = RecordBatch::try_from_iter_with_nullable(vec![(
        "row_id",
        Arc::new(ids) as ArrayRef,
        false,
    )])
    .unwrap();
    let batches = vec![Batch { inner: rb }];
    assert_eq!(
        LanceIndex::query_max_label(&batches).unwrap_err(),
        Error::Storage
    );
}

#[test]
fn ann_index_params_follow_metric_and_defaults() {
    let cos = LanceIndex::create(2, "cosine", "t");
    let p = cos.create_ann_index(0, 16).unwrap();
    assert_eq!(p.distance, Metric::Cosine);
    assert_eq!(p.num_partitions, None);
    assert_eq!(p.num_sub_vectors, Some(16));

    let ip = LanceIndex::create(2, "ip", "t");
    let h = ip.create_hnsw_index(32, 0).unwrap();
    assert_eq!(h.distance, Metric::Dot);
    assert_eq!(h.num_edges, Some(32));
    assert_eq!(h.ef_construction, None);

    let plain = LanceIndex::create(2, "l2", "t");
    assert_eq!(plain.create_ann_index(256, 0).unwrap().distance, Metric::L2);
    assert!(plain.compact().is_ok());
}

#[test]
fn end_to_end_lifecycle() {
    let mut store: Store = Vec::new();
    let mut idx = LanceIndex::create(3, "l2", "vectors");

    for i in 0..5 {
        let (label, batch) = idx.add_vector(&bits(&[i as f32, 0.0, 0.0])).unwrap();
        assert_eq!(label, i);
        let labels = read_labels(&batch);
        let flat = read_flat_vectors(&batch);
        for (k, l) in labels.iter().enumerate() {
            store.push((*l, flat[k * 3..(k + 1) * 3].to_vec()));
        }
    }

    // Delete labels 1 and 2 through the library's predicates.
    assert_eq!(idx.delete(1).unwrap(), "label = 1");
    store.retain(|r| r.0 != 1);
    assert_eq!(
        idx.delete_batch(&vec![2]).unwrap(),
        Some("label IN (2)".to_string())
    );
    store.retain(|r| r.0 != 2);
    assert_eq!(store.len(), 3);

    // Search [0,0,0] with k=2: the engine ranks by exact L2 here.
    let req = idx.search(&bits(&[0.0, 0.0, 0.0]), 2, 1, 0).unwrap();
    let mut ranked: Vec<(i64, f32)> = store
        .iter()
        .map(|(l, v)| (*l, v.iter().map(|x| x * x).sum()))
        .collect();
    ranked.sort_by(|a, b| a.1.partial_cmp(&b.1).unwrap());
    ranked.truncate(req.k);
    let results = collect_search_results(&vec![result_batch(&ranked)]).unwrap();
    assert_eq!(results[0].0, 0);

    // Reopen and add [99,0,0]: the label must be past everything
    // ever stored.
    drop(idx);
    let scanned = vec![data_batch(&store, 3)];
    let max = LanceIndex::query_max_label(&scanned).unwrap();
    let stored_schema = Schema::build_vector_schema(3);
    let mut idx2 = LanceIndex::open("vectors", "l2", stored_schema, max).unwrap();
    let (new_label, _) = idx2.add_vector(&bits(&[99.0, 0.0, 0.0])).unwrap();
    assert!(new_label >= 5);
}
