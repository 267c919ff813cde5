//! The columnar row batches exchanged with the storage backend.
//!
//! Batches are Arrow `RecordBatch` values: what an append hands to
//! the backend and what a scan or a search streams back.  Verus
//! refuses a declaration of `RecordBatch` itself (its impls reach the
//! `Array` trait), so a batch is held in the opaque `Batch` struct;
//! its contents are named by uninterpreted spec functions, and a
//! small set of trusted wrappers around Arrow's constructors and
//! accessors state, over those names, what each call puts into or
//! reads out of a batch.  Vector entries are carried as the bit
//! patterns of their 32-bit floats, which is exactly how they sit in
//! the Arrow value buffer.

use vstd::prelude::*;

use crate::errors::Error;
use arrow::array::ArrayData;
use arrow::buffer::Buffer;
use arrow_array::{Array, ArrayRef, FixedSizeListArray, Float32Array, Int64Array, RecordBatch};
use arrow_schema::{DataType as ArrowDataType, Field as ArrowField};
use std::sync::Arc;

verus! {

/// One columnar row batch, opaque to the verified code.  The host
/// reaches the underlying Arrow batch through `inner`.
#[derive(Debug)]
#[verifier::external_body]
pub struct Batch {
    pub inner: RecordBatch,
}

/// The contents of a batch's "label" column.
pub uninterp spec fn batch_labels(b: Batch) -> Seq<i64>;

/// The flat contents of a batch's "vector" column, row-major, as
/// 32-bit float bit patterns.
pub uninterp spec fn batch_vectors(b: Batch) -> Seq<u32>;

/// The contents of a batch's "_distance" column, as 32-bit float bit
/// patterns; search results carry one.
pub uninterp spec fn batch_distances(b: Batch) -> Seq<u32>;

/// Whether a batch has a "label" column of 64-bit integers.
pub uninterp spec fn batch_has_label_column(b: Batch) -> bool;

/// Whether a batch has a "_distance" column of 32-bit floats.
pub uninterp spec fn batch_has_distance_column(b: Batch) -> bool;

/// Whether a batch has a "vector" column that is a fixed-width list
/// of 32-bit floats.
pub uninterp spec fn batch_has_vector_column(b: Batch) -> bool;

/// The number of rows in a batch.
pub uninterp spec fn batch_rows(b: Batch) -> nat;

/// Relies on `RecordBatch::num_rows`: the row count, which for a
/// batch with a "label" column equals that column's length, since
/// every column of a batch has the row count as its length.
#[verifier::external_body]
pub(crate) fn batch_num_rows(b: &Batch) -> (r: usize)
    ensures
        r as nat == batch_rows(*b),
        batch_has_label_column(*b) ==> r as nat == batch_labels(*b).len(),
{
    b.inner.num_rows()
}

/// One fixed-width float-list column, opaque to the verified code.
/// Only `float_list_column` constructs one, so every value carries
/// the canonical element field and a width that fits an `i32`.
#[derive(Debug)]
#[verifier::external_body]
pub struct ListColumn {
    pub(crate) inner: FixedSizeListArray,
}

/// The flat contents of a list column, row-major, as 32-bit float
/// bit patterns.
pub uninterp spec fn list_bits(c: ListColumn) -> Seq<u32>;

/// The width of a list column: how many values each row holds.
pub uninterp spec fn column_width(c: ListColumn) -> nat;

/// The number of rows of a list column.
pub uninterp spec fn column_rows(c: ListColumn) -> nat;

/// Relies on `ArrayData::try_new` and `FixedSizeListArray::try_new`:
/// for a positive width the construction succeeds exactly when the
/// width fits an `i32` and divides the number of values, and the
/// column then holds exactly the given values, `dim` to a row.  The
/// bit patterns are laid into the float value buffer unchanged,
/// which is the identity `f32::from_bits` performs.
#[verifier::external_body]
pub(crate) fn float_list_column(bits: &Vec<u32>, dim: usize) -> (r: Result<ListColumn, Error>)
    ensures
        dim >= 1 ==> (r is Ok <==> (dim <= i32::MAX && bits@.len() as int % (dim as int) == 0)),
        r matches Ok(c) ==> list_bits(c) == bits@ && column_width(c) == dim as nat,
        dim >= 1 ==> (r matches Ok(c) ==> column_rows(c) * (dim as nat) == bits@.len()),
{
    let size = match i32::try_from(dim) {
        Ok(s) => s, Err(_) => return Err(Error::Storage),
    };
    let buffer = Buffer::from_vec(bits.clone());
    let data = match ArrayData::try_new(ArrowDataType::Float32, bits.len(), None, 0, vec![buffer], vec![]) {
        Ok(d) => d, Err(_) => return Err(Error::Storage),
    };
    let item = Arc::new(ArrowField::new("item", ArrowDataType::Float32, true));
    match FixedSizeListArray::try_new(item, size, Arc::new(Float32Array::from(data)), None) {
        Ok(l) => Ok(ListColumn { inner: l }), Err(_) => Err(Error::Storage),
    }
}

/// Relies on `RecordBatch::try_new`: it succeeds exactly when the
/// label count equals the list's row count and the list's width is
/// `dim` (the schema's column types and null counts then match by
/// construction, since every `ListColumn` carries the canonical
/// element field), and the batch then pairs the vector-only schema —
/// a non-nullable Int64 "label" field, then a non-nullable "vector"
/// fixed-width float list of width `dim` — with exactly the given
/// label column and list values.
#[verifier::external_body]
pub(crate) fn batch_from_parts(labels: &Vec<i64>, list: ListColumn, dim: usize) -> (r: Result<
    Batch,
    Error,
>)
    ensures
        r is Ok <==> (dim <= i32::MAX && column_width(list) == dim as nat && labels@.len()
            == column_rows(list)),
        r matches Ok(b) ==> batch_labels(b) == labels@ && batch_vectors(b) == list_bits(list)
            && batch_has_label_column(b) && batch_has_vector_column(b) && batch_rows(b)
            == labels@.len(),
{
    let size = match i32::try_from(dim) {
        Ok(s) => s, Err(_) => return Err(Error::Storage),
    };
    let item = Arc::new(ArrowField::new("item", ArrowDataType::Float32, true));
    let schema = Arc::new(arrow_schema::Schema::new(vec![
        ArrowField::new("label", ArrowDataType::Int64, false),
        ArrowField::new("vector", ArrowDataType::FixedSizeList(item, size), false),
    ]));
    let ids: ArrayRef = Arc::new(Int64Array::from(labels.clone()));
    match RecordBatch::try_new(schema, vec![ids, Arc::new(list.inner)]) {
        Ok(rb) => Ok(Batch { inner: rb }), Err(_) => Err(Error::Storage),
    }
}

/// Assembles the one append batch for a set of labels and their flat
/// row-major vector values: the values as the "vector" column, `dim`
/// to a row, under the labels.  For a positive width it succeeds
/// exactly when the width fits an `i32` and the values are `dim` per
/// label.
pub(crate) fn build_batch(labels: &Vec<i64>, bits: &Vec<u32>, dim: usize) -> (r: Result<
    Batch,
    Error,
>)
    ensures
        dim >= 1 ==> (r is Ok <==> (dim <= i32::MAX && labels@.len() * dim == bits@.len())),
        r matches Ok(b) ==> batch_labels(b) == labels@ && batch_vectors(b) == bits@
            && batch_has_label_column(b) && batch_has_vector_column(b) && batch_rows(b)
            == labels@.len(),
{
    let list = match float_list_column(bits, dim) {
        Ok(l) => l,
        Err(e) => {
            proof {
                if dim >= 1 && dim <= i32::MAX && labels@.len() * dim == bits@.len() {
                    assert(bits@.len() as int % (dim as int) == 0) by (nonlinear_arith)
                        requires
                            labels@.len() * dim == bits@.len(),
                            dim >= 1,
                    ;
                    assert(false);
                }
            }
            return Err(e);
        },
    };
    proof {
        if dim >= 1 {
            if labels@.len() * dim == bits@.len() {
                assert(labels@.len() == column_rows(list)) by (nonlinear_arith)
                    requires
                        column_rows(list) * (dim as nat) == bits@.len(),
                        labels@.len() * dim == bits@.len(),
                        dim >= 1,
                ;
            }
            if labels@.len() == column_rows(list) {
                assert(labels@.len() * dim == bits@.len()) by (nonlinear_arith)
                    requires
                        column_rows(list) * (dim as nat) == bits@.len(),
                        labels@.len() == column_rows(list),
                ;
            }
        }
    }
    batch_from_parts(labels, list, dim)
}

/// Relies on `RecordBatch::column_by_name` and the `Int64Array`
/// downcast: returns the "label" column's values exactly when the
/// batch has such a column of 64-bit integers.
#[verifier::external_body]
pub(crate) fn batch_label_values(b: &Batch) -> (r: Option<Vec<i64>>)
    ensures
        match r {
            Some(v) => batch_has_label_column(*b) && v@ == batch_labels(*b),
            None => !batch_has_label_column(*b),
        },
{
    let col = match b.inner.column_by_name("label") {
        Some(c) => c, None => return None,
    };
    let ids = match col.as_any().downcast_ref::<Int64Array>() {
        Some(a) => a, None => return None,
    };
    Some(ids.values().to_vec())
}

/// Relies on `RecordBatch::column_by_name` and the fixed-width-list
/// and `Float32Array` downcasts: returns the flat values of the
/// "vector" column, row-major, as bit patterns (`f32::to_bits` reads
/// the value buffer back unchanged).  Assumes the batch is not a
/// sliced view of a larger one, which is how storage scans return
/// batches.
#[verifier::external_body]
pub(crate) fn batch_vector_values(b: &Batch) -> (r: Option<Vec<u32>>)
    ensures
        match r {
            Some(v) => batch_has_vector_column(*b) && v@ == batch_vectors(*b),
            None => !batch_has_vector_column(*b),
        },
{
    let col = match b.inner.column_by_name("vector") {
        Some(c) => c, None => return None,
    };
    let list = match col.as_any().downcast_ref::<FixedSizeListArray>() {
        Some(a) => a, None => return None,
    };
    let vals = match list.values().as_any().downcast_ref::<Float32Array>() {
        Some(a) => a, None => return None,
    };
    Some(vals.values().inner().typed_data::<u32>().to_vec())
}

/// Relies on `RecordBatch::column_by_name` and the `Float32Array`
/// downcast: returns the "_distance" column's values as bit patterns.
#[verifier::external_body]
pub(crate) fn batch_distance_values(b: &Batch) -> (r: Option<Vec<u32>>)
    ensures
        match r {
            Some(v) => batch_has_distance_column(*b) && v@ == batch_distances(*b),
            None => !batch_has_distance_column(*b),
        },
{
    let col = match b.inner.column_by_name("_distance") {
        Some(c) => c, None => return None,
    };
    let vals = match col.as_any().downcast_ref::<Float32Array>() {
        Some(a) => a, None => return None,
    };
    Some(vals.values().inner().typed_data::<u32>().to_vec())
}

/// Relies on `Schema::index_of` and `RecordBatch::try_new`: the
/// batch is `b` with its "label" column replaced by the given
/// labels, every other column kept verbatim under the same schema —
/// in particular the "vector" and "_distance" columns, which carry
/// different names than the replaced one.  It succeeds whenever the
/// label count equals the row count, since every other column
/// already has that length and the label field's type is the new
/// column's.
#[verifier::external_body]
pub(crate) fn replace_labels(b: &Batch, labels: &Vec<i64>) -> (r: Result<Batch, Error>)
    requires
        batch_has_label_column(*b),
    ensures
        labels@.len() == batch_rows(*b) ==> r is Ok,
        r matches Ok(nb) ==> {
            &&& batch_labels(nb) == labels@
            &&& batch_has_label_column(nb)
            &&& batch_rows(nb) == labels@.len()
            &&& batch_has_vector_column(nb) == batch_has_vector_column(*b)
            &&& batch_has_distance_column(nb) == batch_has_distance_column(*b)
            &&& (batch_has_vector_column(*b) ==> batch_vectors(nb) == batch_vectors(*b))
            &&& (batch_has_distance_column(*b) ==> batch_distances(nb) == batch_distances(*b))
        },
{
    let idx = match b.inner.schema().index_of("label") {
        Ok(i) => i, Err(_) => return Err(Error::Storage),
    };
    let ids: ArrayRef = Arc::new(Int64Array::from(labels.clone()));
    let mut cols = b.inner.columns().to_vec();
    cols[idx] = ids;
    match RecordBatch::try_new(b.inner.schema(), cols) {
        Ok(rb) => Ok(Batch { inner: rb }), Err(_) => Err(Error::Storage),
    }
}

} // verus!
