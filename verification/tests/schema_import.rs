//! Schema derivation from externally authored schemas, and the
//! ingestion plan for externally supplied row batches.

use lance_index::errors::Error;
use lance_index::manager::{ColumnAction, ExternalArray, LanceIndex};
use lance_index::schema::{DataType, Field, Schema};

fn field(name: &str, dtype: DataType) -> Field {
    Field {
        name: name.to_string(),
        dtype,
        nullable: true,
    }
}

fn vector_column(width: usize) -> DataType {
    DataType::FixedSizeList {
        item_name: "".to_string(),
        item_nullable: true,
        width,
    }
}

#[test]
fn schema_derivation_from_external_with_extras() {
    let external = Schema {
        fields: vec![
            field("embedding", vector_column(128)),
            field("title", DataType::Utf8),
            field("year", DataType::Int32),
        ],
    };
    let idx = LanceIndex::create_from_arrow(&external, "cosine", "docs").unwrap();
    assert_eq!(idx.dimension(), 128);
    assert!(idx.has_extra_columns());
    assert_eq!(idx.metric(), "cosine");

    // The table schema prepends the label field and canonicalizes the
    // vector column's element field.
    let table = idx.table_schema();
    assert_eq!(table.fields.len(), 4);
    assert_eq!(table.fields[0].name, "label");
    assert_eq!(table.fields[1].name, "embedding");
    match &table.fields[1].dtype {
        DataType::FixedSizeList {
            item_name,
            width,
            ..
        } => {
            assert_eq!(item_name, "item");
            assert_eq!(*width, 128);
        }
        _ => panic!("vector column lost its type"),
    }

    // Opening the stored schema back derives the same dimension and
    // extra-column presence.
    let stored = Schema {
        fields: table.fields.iter().map(|f| f.duplicate()).collect(),
    };
    let reopened = LanceIndex::open("docs", "cosine", stored, -1).unwrap();
    assert_eq!(reopened.dimension(), 128);
    assert!(reopened.has_extra_columns());
}

#[test]
fn vector_only_schema_has_no_extras() {
    let idx = LanceIndex::create(8, "l2", "plain");
    assert!(!idx.has_extra_columns());
    assert_eq!(idx.dimension(), 8);
    let table = idx.table_schema();
    assert_eq!(table.fields.len(), 2);
    assert_eq!(table.fields[0].name, "label");
    assert_eq!(table.fields[1].name, "vector");
}

#[test]
fn external_schema_without_vector_column_is_rejected() {
    let external = Schema {
        fields: vec![field("title", DataType::Utf8)],
    };
    match LanceIndex::create_from_arrow(&external, "l2", "docs") {
        Err(e) => assert_eq!(e, Error::NoVectorColumn),
        Ok(_) => panic!("schema without vector column was accepted"),
    }

    let zero = Schema {
        fields: vec![field("embedding", vector_column(0))],
    };
    match LanceIndex::create_from_arrow(&zero, "l2", "docs") {
        Err(e) => assert_eq!(e, Error::NoVectorColumn),
        Ok(_) => panic!("zero-width vector column was accepted"),
    }
}

#[test]
fn external_schema_with_label_field_is_rejected() {
    let external = Schema {
        fields: vec![
            field("embedding", vector_column(4)),
            field("label", DataType::Int64),
        ],
    };
    match LanceIndex::create_from_arrow(&external, "l2", "docs") {
        Err(e) => assert_eq!(e, Error::SchemaMismatch),
        Ok(_) => panic!("external label field was accepted"),
    }
}

#[test]
fn open_rejects_malformed_stored_schemas() {
    // No vector column at all.
    let no_vector = Schema {
        fields: vec![
            Field {
                name: "label".to_string(),
                dtype: DataType::Int64,
                nullable: false,
            },
            field("title", DataType::Utf8),
        ],
    };
    match LanceIndex::open("t", "l2", no_vector, -1) {
        Err(e) => assert_eq!(e, Error::NoVectorColumn),
        Ok(_) => panic!("schema without vector column was accepted"),
    }

    // Vector column present but the identifier field is missing.
    let no_label = Schema {
        fields: vec![field("vector", vector_column(2))],
    };
    match LanceIndex::open("t", "l2", no_label, -1) {
        Err(e) => assert_eq!(e, Error::SchemaMismatch),
        Ok(_) => panic!("schema without identifier field was accepted"),
    }
}

#[test]
fn import_plan_keeps_and_casts_columns() {
    let external = Schema {
        fields: vec![
            field("embedding", vector_column(4)),
            field("title", DataType::Utf8),
        ],
    };
    let mut idx = LanceIndex::create_from_arrow(&external, "l2", "docs").unwrap();

    // The incoming vector column names its element field differently
    // from the canonical stored layout, so it needs a cast; the text
    // column matches verbatim.
    let incoming = vec![vector_column(4), DataType::Utf8];
    let mut payload = ExternalArray::new(2);
    let plan = idx.add_batch_arrow(&mut payload, &incoming).unwrap();
    // The import took the payload and left the empty placeholder, so
    // the caller can release its descriptor safely.
    assert_eq!(payload.rows(), 0);
    assert_eq!(plan.labels, vec![0, 1]);
    assert_eq!(plan.actions.len(), 2);
    match &plan.actions[0] {
        ColumnAction::Cast(DataType::FixedSizeList {
            item_name,
            width,
            ..
        }) => {
            assert_eq!(item_name, "item");
            assert_eq!(*width, 4);
        }
        _ => panic!("vector column should be cast to the stored layout"),
    }
    assert!(matches!(plan.actions[1], ColumnAction::Keep));
    assert_eq!(idx.next_label(), 2);

    // Importing the already-taken payload again is the benign empty
    // import: nothing planned, nothing reserved.
    let empty = idx.add_batch_arrow(&mut payload, &incoming).unwrap();
    assert!(empty.labels.is_empty());
    assert!(empty.actions.is_empty());
    assert_eq!(idx.next_label(), 2);
}

#[test]
fn import_plan_reports_unreconcilable_column() {
    let external = Schema {
        fields: vec![
            field("embedding", vector_column(4)),
            field("title", DataType::Utf8),
        ],
    };
    let mut idx = LanceIndex::create_from_arrow(&external, "l2", "docs").unwrap();

    // A four-wide list cannot be cast down to a text column.
    let incoming = vec![vector_column(4), vector_column(4)];
    let r = idx.add_batch_arrow(&mut ExternalArray::new(2), &incoming);
    assert_eq!(r.unwrap_err(), Error::CastFailed { column: 1 });
    assert_eq!(idx.next_label(), 0);

    // A list of the wrong width cannot be cast either.
    let incoming = vec![vector_column(5), DataType::Utf8];
    let r = idx.add_batch_arrow(&mut ExternalArray::new(2), &incoming);
    assert_eq!(r.unwrap_err(), Error::CastFailed { column: 0 });

    // The wrong number of columns is a schema mismatch.
    let incoming = vec![vector_column(4)];
    let r = idx.add_batch_arrow(&mut ExternalArray::new(2), &incoming);
    assert_eq!(r.unwrap_err(), Error::SchemaMismatch);
}

#[test]
fn scalar_columns_cast_freely_and_one_wide_lists_cast_to_scalars() {
    let external = Schema {
        fields: vec![
            field("embedding", vector_column(1)),
            field("title", DataType::Utf8),
        ],
    };
    let mut idx = LanceIndex::create_from_arrow(&external, "l2", "docs").unwrap();

    // The engine's cast parses, prints and widens between any two
    // scalar types, and treats a one-wide list as a scalar: a float
    // column casts into the one-wide vector column, and a boolean
    // column prints into the text column.
    let incoming = vec![DataType::Float64, DataType::Boolean];
    let plan = idx.add_batch_arrow(&mut ExternalArray::new(3), &incoming).unwrap();
    assert_eq!(plan.labels, vec![0, 1, 2]);
    assert!(matches!(
        plan.actions[0],
        ColumnAction::Cast(DataType::FixedSizeList { .. })
    ));
    assert!(matches!(plan.actions[1], ColumnAction::Cast(DataType::Utf8)));
}

#[test]
fn numeric_columns_cast_between_widths() {
    let external = Schema {
        fields: vec![
            field("embedding", vector_column(2)),
            field("year", DataType::Int64),
        ],
    };
    let mut idx = LanceIndex::create_from_arrow(&external, "l2", "docs").unwrap();
    let incoming = vec![
        DataType::FixedSizeList {
            item_name: "item".to_string(),
            item_nullable: true,
            width: 2,
        },
        DataType::Int32,
    ];
    let plan = idx.add_batch_arrow(&mut ExternalArray::new(1), &incoming).unwrap();
    assert!(matches!(plan.actions[0], ColumnAction::Keep));
    assert!(matches!(plan.actions[1], ColumnAction::Cast(DataType::Int64)));
}
