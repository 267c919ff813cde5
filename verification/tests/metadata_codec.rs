//! The metadata snapshot: exact encoding, the round trip, rejection
//! of corrupt bytes, and reopening through a snapshot.

use lance_index::manager::LanceIndex;
use lance_index::metadata::Metadata;
use lance_index::schema::Schema;

fn bits(v: &[f32]) -> Vec<u32> {
    v.iter().map(|x| x.to_bits()).collect()
}

#[test]
fn metadata_encoding_is_exact() {
    let meta = Metadata {
        dimension: 3,
        metric: "l2".to_string(),
        next_label: 7,
        table_name: "v".to_string(),
    };
    let bytes = meta.encode();
    let mut expected: Vec<u8> = Vec::new();
    expected.extend_from_slice(&3u64.to_le_bytes());
    expected.extend_from_slice(&7u64.to_le_bytes());
    expected.extend_from_slice(&2u64.to_le_bytes());
    expected.extend_from_slice(b"l2");
    expected.extend_from_slice(&1u64.to_le_bytes());
    expected.extend_from_slice(b"v");
    assert_eq!(bytes, expected);
}

#[test]
fn metadata_round_trips() {
    let meta = Metadata {
        dimension: 128,
        metric: "cosine".to_string(),
        next_label: 1_000_000,
        table_name: "vectors".to_string(),
    };
    let decoded = Metadata::decode(&meta.encode()).unwrap();
    assert_eq!(decoded.dimension, 128);
    assert_eq!(decoded.metric, "cosine");
    assert_eq!(decoded.next_label, 1_000_000);
    assert_eq!(decoded.table_name, "vectors");
}

#[test]
fn corrupt_metadata_decodes_to_none() {
    assert!(Metadata::decode(&vec![]).is_none());
    assert!(Metadata::decode(&vec![1, 2, 3]).is_none());

    let meta = Metadata {
        dimension: 2,
        metric: "l2".to_string(),
        next_label: 5,
        table_name: "t".to_string(),
    };
    let mut bytes = meta.encode();
    // Truncated.
    bytes.pop();
    assert!(Metadata::decode(&bytes).is_none());
    // Trailing garbage.
    let mut long = meta.encode();
    long.push(0);
    assert!(Metadata::decode(&long).is_none());
    // The metric bytes are not UTF-8.
    let mut bad = meta.encode();
    bad[24] = 0xff;
    assert!(Metadata::decode(&bad).is_none());
}

#[test]
fn reopen_through_metadata_preserves_next_label() {
    let mut idx = LanceIndex::create(2, "l2", "vectors");
    for i in 0..4 {
        idx.add_vector(&bits(&[i as f32, 0.0])).unwrap();
    }
    let snapshot = idx.serialize_metadata();
    drop(idx);

    let meta = Metadata::decode(&snapshot).unwrap();
    assert_eq!(meta.next_label, 4);
    let stored = Schema::build_vector_schema(2);
    let mut reopened = LanceIndex::open_with_metadata(meta, stored).unwrap();
    assert_eq!(reopened.table_name(), "vectors");
    assert_eq!(reopened.metric(), "l2");
    assert_eq!(reopened.dimension(), 2);

    // The same next-label guarantee as a direct reopen: the snapshot
    // never under-reports.
    let (label, _) = reopened.add_vector(&bits(&[9.0, 9.0])).unwrap();
    assert_eq!(label, 4);
}
