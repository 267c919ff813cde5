//! The index manager façade.
//!
//! A `LanceIndex` binds one table: its name, the distance metric, the
//! vector dimension, the resolved schema, and the label counter.  The
//! manager owns every decision the index makes — label allocation and
//! recovery, schema derivation, dimension guards, batch assembly,
//! merge remapping, search materialization — and hands the storage
//! backend exactly what to append, delete or query.  The backend's
//! own work (appending, scanning, building approximate indexes) is
//! performed by the host around these calls.
//!
//! An index is *Active* from construction until `close`; a closed
//! index fails every operation with `NotOpen` and never reopens.

use vstd::prelude::*;

use crate::batches::{
    batch_distance_values, batch_distances, batch_has_distance_column, batch_has_vector_column,
    batch_has_label_column, batch_label_values, batch_labels, batch_num_rows, batch_rows,
    batch_vector_values, batch_vectors, build_batch, replace_labels, Batch,
};
use crate::errors::Error;
use crate::labels::{LabelAllocator, LABEL_MAX};
use crate::metadata::{spec_encode, MetaModel, Metadata};
use crate::schema::{schema_dimension, schema_wf, DataType, FieldModel, Schema, TypeModel};
use vstd::string::StringExecFns;

verus! {

/// The labels `start, start + 1, ..., start + n - 1`.
pub open spec fn label_range(start: int, n: nat) -> Seq<i64> {
    Seq::new(n, |i: int| (start + i) as i64)
}

/// What a freshly reserved label range holds: exactly the labels from
/// `start` up to but not including `start + n`, each appearing once.
pub proof fn lemma_label_range(start: int, n: nat)
    requires
        0 <= start,
        start + n <= LABEL_MAX,
    ensures
        forall|l: i64| label_range(start, n).to_set().contains(l) <==> start <= l < start + n,
        forall|i: int, j: int|
            0 <= i < j < n ==> label_range(start, n)[i] != label_range(start, n)[j],
{
    let rng = label_range(start, n);
    assert forall|l: i64| rng.to_set().contains(l) implies start <= l < start + n by {
        let i = choose|i: int| 0 <= i < rng.len() && rng[i] == l;
        assert(rng[i] == (start + i) as i64);
    }
    assert forall|l: i64| start <= l < start + n implies rng.to_set().contains(l) by {
        let i = l - start;
        assert(rng[i] == l);
        assert(rng.contains(l));
    }
}

/// The concatenated "label" columns of a sequence of batches.
pub open spec fn concat_labels(bs: Seq<Batch>) -> Seq<i64>
    decreases bs.len(),
{
    if bs.len() == 0 {
        Seq::empty()
    } else {
        concat_labels(bs.drop_last()) + batch_labels(bs.last())
    }
}

/// The labels a merge reads from its source batches, in arrival
/// order: the "label" columns of the non-empty batches, concatenated.
/// An empty batch is passed over without reading it.
pub open spec fn merged_olds(bs: Seq<Batch>) -> Seq<i64>
    decreases bs.len(),
{
    if bs.len() == 0 {
        Seq::empty()
    } else {
        merged_olds(bs.drop_last()) + (if batch_rows(bs.last()) == 0 {
            Seq::<i64>::empty()
        } else {
            batch_labels(bs.last())
        })
    }
}

/// The vectors a merge carries over, in arrival order: the "vector"
/// columns of the non-empty batches, concatenated; an empty batch
/// contributes no rows.
pub open spec fn merged_vectors(bs: Seq<Batch>) -> Seq<u32>
    decreases bs.len(),
{
    if bs.len() == 0 {
        Seq::empty()
    } else {
        merged_vectors(bs.drop_last()) + (if batch_rows(bs.last()) == 0 {
            Seq::<u32>::empty()
        } else {
            batch_vectors(bs.last())
        })
    }
}

/// A prefix of the batches reads no more labels than all of them.
proof fn lemma_merged_olds_prefix(bs: Seq<Batch>, j: int)
    requires
        0 <= j <= bs.len(),
    ensures
        merged_olds(bs.subrange(0, j)).len() <= merged_olds(bs).len(),
    decreases bs.len() - j,
{
    if j < bs.len() {
        assert(bs.subrange(0, j + 1).drop_last() =~= bs.subrange(0, j));
        assert(bs.subrange(0, j + 1).last() == bs[j]);
        lemma_merged_olds_prefix(bs, j + 1);
    } else {
        assert(bs.subrange(0, j) =~= bs);
    }
}

/// Two adjacent label ranges join into one.
proof fn lemma_label_range_join(start: int, p: nat, q: nat)
    requires
        0 <= start,
        start + p + q <= LABEL_MAX + 1,
    ensures
        label_range(start, p) + label_range(start + p, q) =~= label_range(start, (p + q) as nat),
{
}

/// The concatenated "vector" columns of a sequence of batches, flat
/// and row-major.
pub open spec fn concat_vectors(bs: Seq<Batch>) -> Seq<u32>
    decreases bs.len(),
{
    if bs.len() == 0 {
        Seq::empty()
    } else {
        concat_vectors(bs.drop_last()) + batch_vectors(bs.last())
    }
}

/// Labels and distances of equal length paired up positionally.
pub open spec fn zip_pairs(ls: Seq<i64>, ds: Seq<u32>) -> Seq<(i64, u32)> {
    Seq::new(ls.len(), |i: int| (ls[i], ds[i]))
}

/// Whether a streamed search batch has the shape a result needs: a
/// label column and a distance column of the same length.
pub open spec fn search_batch_ok(b: Batch) -> bool {
    &&& batch_has_label_column(b)
    &&& batch_has_distance_column(b)
    &&& batch_labels(b).len() == batch_distances(b).len()
}

/// The (label, distance) pairs of a sequence of result batches,
/// concatenated in arrival order.
pub open spec fn search_pairs(bs: Seq<Batch>) -> Seq<(i64, u32)>
    decreases bs.len(),
{
    if bs.len() == 0 {
        Seq::empty()
    } else {
        search_pairs(bs.drop_last()) + zip_pairs(
            batch_labels(bs.last()),
            batch_distances(bs.last()),
        )
    }
}

/// The index of the first batch with at least one row, `-1` if all
/// are empty.
pub open spec fn first_nonempty(bs: Seq<Batch>) -> int
    decreases bs.len(),
{
    if bs.len() == 0 {
        -1int
    } else if batch_rows(bs[0]) != 0 {
        0int
    } else {
        let rest = first_nonempty(bs.drop_first());
        if rest == -1 {
            -1int
        } else {
            rest + 1
        }
    }
}

/// If everything before `i` is empty and `i` is not, then `i` is the
/// first non-empty batch.
proof fn lemma_first_nonempty_found(bs: Seq<Batch>, i: int)
    requires
        0 <= i < bs.len(),
        batch_rows(bs[i]) != 0,
        forall|j: int| 0 <= j < i ==> batch_rows(bs[j]) == 0,
    ensures
        first_nonempty(bs) == i,
    decreases i,
{
    if i > 0 {
        assert(forall|j: int| 0 <= j < i - 1 ==> bs.drop_first()[j] == bs[j + 1]);
        lemma_first_nonempty_found(bs.drop_first(), i - 1);
    }
}

/// If every batch is empty, there is no first non-empty one.
proof fn lemma_first_nonempty_none(bs: Seq<Batch>)
    requires
        forall|j: int| 0 <= j < bs.len() ==> batch_rows(bs[j]) == 0,
    ensures
        first_nonempty(bs) == -1,
    decreases bs.len(),
{
    if bs.len() > 0 {
        assert(forall|j: int|
            0 <= j < bs.drop_first().len() ==> bs.drop_first()[j] == bs[j + 1]);
        lemma_first_nonempty_none(bs.drop_first());
    }
}

/// Materializes a streamed search result: the (label, distance)
/// pairs of every batch, concatenated in arrival order, distances as
/// 32-bit float bit patterns.  A malformed batch — no label column,
/// no distance column, or columns of different lengths — aborts the
/// whole call with `Storage` and nothing is returned, exactly when
/// one is present.
pub fn collect_search_results(result_batches: &Vec<Batch>) -> (r: Result<Vec<(i64, u32)>, Error>)
    ensures
        r is Ok <==> (forall|i: int|
            0 <= i < result_batches@.len() ==> search_batch_ok(result_batches@[i])),
        r matches Ok(v) ==> v@ == search_pairs(result_batches@),
        r matches Err(e) ==> e == Error::Storage,
{
    let mut out: Vec<(i64, u32)> = Vec::new();
    let n = result_batches.len();
    let mut i: usize = 0;
    while i < n
        invariant
            0 <= i <= n,
            n == result_batches@.len(),
            forall|j: int| 0 <= j < i ==> search_batch_ok(result_batches@[j]),
            out@ == search_pairs(result_batches@.subrange(0, i as int)),
        decreases n - i,
    {
        let ghost prefix = result_batches@.subrange(0, i as int);
        let ghost prefix1 = result_batches@.subrange(0, i as int + 1);
        proof {
            assert(prefix1.drop_last() =~= prefix);
            assert(prefix1.last() == result_batches@[i as int]);
        }
        let b = &result_batches[i];
        let ls = match batch_label_values(b) {
            Some(v) => v,
            None => {
                return Err(Error::Storage);
            },
        };
        let ds = match batch_distance_values(b) {
            Some(v) => v,
            None => {
                return Err(Error::Storage);
            },
        };
        if ls.len() != ds.len() {
            return Err(Error::Storage);
        }
        let m = ls.len();
        let mut j: usize = 0;
        while j < m
            invariant
                0 <= j <= m,
                m == ls@.len(),
                m == ds@.len(),
                ls@ == batch_labels(result_batches@[i as int]),
                ds@ == batch_distances(result_batches@[i as int]),
                out@ == search_pairs(result_batches@.subrange(0, i as int)) + zip_pairs(
                    ls@.subrange(0, j as int),
                    ds@.subrange(0, j as int),
                ),
                0 <= i < n,
                n == result_batches@.len(),
            decreases m - j,
        {
            out.push((ls[j], ds[j]));
            proof {
                assert(zip_pairs(ls@.subrange(0, j as int + 1), ds@.subrange(0, j as int + 1))
                    =~= zip_pairs(ls@.subrange(0, j as int), ds@.subrange(0, j as int)).push(
                    (ls@[j as int], ds@[j as int]),
                ));
            }
            j = j + 1;
        }
        proof {
            assert(ls@.subrange(0, m as int) =~= ls@);
            assert(ds@.subrange(0, m as int) =~= ds@);
            assert(out@ =~= search_pairs(prefix1));
        }
        i = i + 1;
    }
    proof {
        assert(result_batches@.subrange(0, n as int) =~= result_batches@);
    }
    Ok(out)
}

/// Merge label mapping law: a merge that copies `n` live rows into a
/// target whose counter stands at `next` hands out exactly the `n`
/// new labels `next, ..., next + n - 1` — strictly increasing, so
/// pairwise distinct, and disjoint from every label the target had
/// assigned before the merge.
pub proof fn lemma_merge_mapping_fresh(assigned: Set<i64>, next: int, n: nat)
    requires
        0 <= next,
        next + n <= LABEL_MAX,
        forall|l: i64| assigned.contains(l) ==> l < next,
    ensures
        label_range(next, n).len() == n,
        forall|k1: int, k2: int|
            0 <= k1 < k2 < n ==> label_range(next, n)[k1] < label_range(next, n)[k2],
        forall|k: int| 0 <= k < n ==> !assigned.contains(label_range(next, n)[k]),
{
    let rng = label_range(next, n);
    assert forall|k1: int, k2: int| 0 <= k1 < k2 < n implies rng[k1] < rng[k2] by {
        assert(rng[k1] == (next + k1) as i64);
        assert(rng[k2] == (next + k2) as i64);
    }
    assert forall|k: int| 0 <= k < n implies !assigned.contains(rng[k]) by {
        assert(rng[k] == (next + k) as i64);
    }
}

/// Whether an exported batch has the shape a full-table scan
/// returns: a label column and a vector column of `dim` entries per
/// row.
pub open spec fn export_ok(b: Batch, dim: nat) -> bool {
    &&& batch_has_label_column(b)
    &&& batch_has_vector_column(b)
    &&& batch_vectors(b).len() == batch_labels(b).len() * dim
}

/// A caller-owned columnar payload handed across the zero-copy
/// exchange boundary.  The schema descriptor that travels with it is
/// only borrowed, but the payload itself is owned by the caller
/// until an import takes it: taking leaves an empty placeholder
/// behind, so the original owner can release its descriptor without
/// freeing the rows twice, and a second import of the same payload
/// is the benign empty import.
pub struct ExternalArray {
    num_rows: usize,
}

impl ExternalArray {
    /// How many rows the payload still owns.
    pub closed spec fn spec_rows(&self) -> nat {
        self.num_rows as nat
    }

    /// A payload of `num_rows` rows, as the caller hands it over.
    pub fn new(num_rows: usize) -> (r: ExternalArray)
        ensures
            r.spec_rows() == num_rows as nat,
    {
        ExternalArray { num_rows }
    }

    /// How many rows the payload still owns.
    pub fn rows(&self) -> (r: usize)
        ensures
            r as nat == self.spec_rows(),
    {
        self.num_rows
    }

    /// Takes the payload, leaving the empty placeholder behind.
    pub fn take(&mut self) -> (r: usize)
        ensures
            r as nat == old(self).spec_rows(),
            final(self).spec_rows() == 0,
    {
        let r = self.num_rows;
        self.num_rows = 0;
        r
    }
}

/// What the ingestion does with one incoming column: take it
/// verbatim, or cast it to the stored column type.
#[derive(Debug)]
pub enum ColumnAction {
    Keep,
    Cast(DataType),
}

/// The plan for ingesting one externally supplied row batch: the
/// labels reserved for its rows, and the per-column actions that make
/// it schema-conformant.
#[derive(Debug)]
pub struct ImportPlan {
    pub labels: Vec<i64>,
    pub actions: Vec<ColumnAction>,
}

/// Whether one planned action is the right one for a column arriving
/// as `incoming` where the stored layout asks for `target`.
pub open spec fn plan_action_ok(a: ColumnAction, incoming: TypeModel, target: TypeModel) -> bool {
    if incoming == target {
        a is Keep
    } else {
        crate::schema::castable(incoming, target) && (a matches ColumnAction::Cast(d) && d@
            == target)
    }
}

/// The distance types the engine offers.
#[derive(Debug, Clone, Copy, PartialEq, Eq, Structural)]
pub enum Metric {
    L2,
    Cosine,
    Dot,
}

/// The distance type a metric string selects: "cosine" and
/// "dot"/"ip" name their metrics, anything else falls back to
/// squared euclidean distance.
pub open spec fn metric_kind(m: Seq<char>) -> Metric {
    if m == "cosine"@ {
        Metric::Cosine
    } else if m == "dot"@ || m == "ip"@ {
        Metric::Dot
    } else {
        Metric::L2
    }
}

/// One checked nearest-neighbor query, ready for the engine: scan
/// `nprobes` partitions, re-rank by `refine_factor` (0 disables
/// re-ranking), return up to `k` rows.
#[derive(Debug, Clone, Copy, PartialEq, Eq, Structural)]
pub struct SearchRequest {
    pub k: usize,
    pub nprobes: usize,
    pub refine_factor: usize,
}

/// The parameters of one partitioned-and-quantized index build;
/// `None` leaves the count to the engine.
#[derive(Debug, Clone, Copy, PartialEq, Eq, Structural)]
pub struct AnnIndexParams {
    pub distance: Metric,
    pub num_partitions: Option<u32>,
    pub num_sub_vectors: Option<u32>,
}

/// The parameters of one graph-based index build; `None` leaves the
/// count to the engine.
#[derive(Debug, Clone, Copy, PartialEq, Eq, Structural)]
pub struct HnswIndexParams {
    pub distance: Metric,
    pub num_edges: Option<u32>,
    pub ef_construction: Option<u32>,
}

/// One open index.
pub struct LanceIndex {
    table_name: String,
    dimension: usize,
    metric: String,
    allocator: LabelAllocator,
    schema: Schema,
    is_open: bool,
    assigned: Ghost<Set<i64>>,
}

impl LanceIndex {
    /// The configured vector dimension.
    pub closed spec fn spec_dimension(&self) -> nat {
        self.dimension as nat
    }

    /// The next label the index will assign.
    pub closed spec fn spec_next_label(&self) -> int {
        self.allocator.spec_next()
    }

    /// The resolved schema.
    pub closed spec fn spec_schema(&self) -> Seq<FieldModel> {
        self.schema@
    }

    /// The metric name, kept as the caller supplied it.
    pub closed spec fn spec_metric(&self) -> Seq<char> {
        self.metric@
    }

    /// The table name.
    pub closed spec fn spec_table_name(&self) -> Seq<char> {
        self.table_name@
    }

    /// Whether the index is still Active.
    pub closed spec fn spec_is_open(&self) -> bool {
        self.is_open
    }

    /// Every label this index has assigned.
    pub closed spec fn spec_assigned(&self) -> Set<i64> {
        self.assigned@
    }

    /// The invariant every index maintains: the dimension is positive
    /// and agrees with the schema's vector column, the schema has the
    /// table shape, and the label counter stands strictly above every
    /// label ever assigned.
    pub open spec fn wf(&self) -> bool {
        &&& 1 <= self.spec_dimension()
        &&& 0 <= self.spec_next_label() <= LABEL_MAX
        &&& schema_wf(self.spec_schema())
        &&& schema_dimension(self.spec_schema()) == self.spec_dimension()
        &&& forall|l: i64|
            self.spec_assigned().contains(l) ==> 0 <= l < self.spec_next_label()
    }

    /// Everything other than the label counter and the assigned set.
    pub open spec fn same_binding(&self, other: &LanceIndex) -> bool {
        &&& self.spec_dimension() == other.spec_dimension()
        &&& self.spec_schema() == other.spec_schema()
        &&& self.spec_metric() == other.spec_metric()
        &&& self.spec_table_name() == other.spec_table_name()
        &&& self.spec_is_open() == other.spec_is_open()
    }

    /// Creates a new vector-only index: the schema is the identifier
    /// field plus a float-list field of the given width, and the first
    /// label assigned will be 0.
    pub fn create(dimension: usize, metric: &str, table_name: &str) -> (r: LanceIndex)
        requires
            1 <= dimension,
        ensures
            r.wf(),
            r.spec_is_open(),
            r.spec_dimension() == dimension as nat,
            r.spec_next_label() == 0,
            r.spec_schema() == seq![
                crate::schema::label_field_model(),
                crate::schema::vector_field_model(dimension as nat),
            ],
            r.spec_metric() == metric@,
            r.spec_table_name() == table_name@,
            r.spec_assigned() == Set::<i64>::empty(),
    {
        let schema = Schema::build_vector_schema(dimension);
        LanceIndex {
            table_name: String::from_str(table_name),
            dimension,
            metric: String::from_str(metric),
            allocator: LabelAllocator::new(),
            schema,
            is_open: true,
            assigned: Ghost(Set::empty()),
        }
    }

    /// Creates an index from an externally authored schema: the table
    /// schema prepends the identifier field to the external fields and
    /// the dimension is the width of the first fixed-width float-list
    /// column.  Fails with `NoVectorColumn` when the external schema
    /// holds no such column, and with `SchemaMismatch` when one of its
    /// fields is already named "label".
    pub fn create_from_arrow(external: &Schema, metric: &str, table_name: &str) -> (r: Result<
        LanceIndex,
        Error,
    >)
        ensures
            !crate::schema::external_usable(external@) ==> (r matches Err(e) && e
                == Error::NoVectorColumn),
            crate::schema::external_usable(external@) && (exists|i: int|
                0 <= i < external@.len() && external@[i].name == "label"@) ==> (r matches Err(e)
                && e == Error::SchemaMismatch),
            crate::schema::external_usable(external@) && (forall|i: int|
                0 <= i < external@.len() ==> external@[i].name != "label"@) ==> r is Ok,
            r matches Ok(idx) ==> {
                &&& idx.wf()
                &&& idx.spec_is_open()
                &&& idx.spec_next_label() == 0
                &&& idx.spec_schema().len() == external@.len() + 1
                &&& idx.spec_schema()[0] == crate::schema::label_field_model()
                &&& forall|i: int|
                    0 <= i < external@.len() ==> idx.spec_schema()[i + 1]
                        == crate::schema::canonical_field(external@[i])
                &&& idx.spec_dimension() == crate::schema::list_width(
                    external@[crate::schema::first_fixed_list(external@)].dtype,
                )
                &&& idx.spec_metric() == metric@
                &&& idx.spec_table_name() == table_name@
                &&& idx.spec_assigned() == Set::<i64>::empty()
            },
    {
        let (schema, dimension) = match Schema::from_external(external) {
            Ok(p) => p,
            Err(e) => {
                return Err(e);
            },
        };
        Ok(
            LanceIndex {
                table_name: String::from_str(table_name),
                dimension,
                metric: String::from_str(metric),
                allocator: LabelAllocator::new(),
                schema,
                is_open: true,
                assigned: Ghost(Set::empty()),
            },
        )
    }

    /// Reopens an existing table from its stored schema and the
    /// maximum label found by scanning its live rows (`-1` for an
    /// empty table, as `query_max_label` reports it): the next label
    /// assigned is one past everything stored.  Fails with
    /// `NoVectorColumn` when no fixed-width float-list column is
    /// found, so the dimension cannot be determined; with
    /// `SchemaMismatch` when the stored schema does not have the
    /// table shape (identifier field first, nothing else named
    /// "label"); and with `Capacity` when the scanned maximum leaves
    /// no label free.
    pub fn open(table_name: &str, metric: &str, stored: Schema, max_label: i64) -> (r: Result<
        LanceIndex,
        Error,
    >)
        requires
            -1 <= max_label,
        ensures
            !schema_wf(stored@) ==> (r matches Err(e) && (e == Error::SchemaMismatch || e
                == Error::NoVectorColumn)),
            schema_wf(stored@) && max_label == LABEL_MAX ==> (r matches Err(e) && e
                == Error::Capacity),
            schema_wf(stored@) && max_label < LABEL_MAX ==> (r matches Ok(idx) && {
                &&& idx.wf()
                &&& idx.spec_is_open()
                &&& idx.spec_next_label() == max_label + 1
                &&& idx.spec_schema() == stored@
                &&& idx.spec_dimension() == schema_dimension(stored@)
                &&& idx.spec_metric() == metric@
                &&& idx.spec_table_name() == table_name@
                &&& idx.spec_assigned() == Set::<i64>::empty()
            }),
    {
        let dimension = match stored.derive_dimension() {
            Ok(d) => d,
            Err(e) => {
                proof {
                    crate::schema::lemma_first_fixed_list(stored@);
                }
                return Err(e);
            },
        };
        if dimension == 0 {
            return Err(Error::NoVectorColumn);
        }
        if !stored.is_table_shape() {
            return Err(Error::SchemaMismatch);
        }
        proof {
            crate::schema::lemma_first_fixed_list(stored@);
        }
        let allocator = match LabelAllocator::recover(max_label) {
            Ok(a) => a,
            Err(e) => {
                return Err(e);
            },
        };
        Ok(
            LanceIndex {
                table_name: String::from_str(table_name),
                dimension,
                metric: String::from_str(metric),
                allocator,
                schema: stored,
                is_open: true,
                assigned: Ghost(Set::empty()),
            },
        )
    }

    /// Reopens a table from a metadata snapshot and its stored
    /// schema, skipping the maximum-label scan: the next label is the
    /// snapshot's.  The snapshot is not authoritative over the stored
    /// schema: the schema must have the table shape and its dimension
    /// must agree with the snapshot's, else `SchemaMismatch` (or
    /// `NoVectorColumn` when no vector column is found at all).
    pub fn open_with_metadata(meta: Metadata, stored: Schema) -> (r: Result<LanceIndex, Error>)
        requires
            0 <= meta@.next_label,
        ensures
            r matches Ok(idx) ==> {
                &&& idx.wf()
                &&& idx.spec_is_open()
                &&& idx.spec_next_label() == meta@.next_label
                &&& idx.spec_schema() == stored@
                &&& idx.spec_dimension() == meta@.dimension as nat
                &&& idx.spec_metric() == meta@.metric
                &&& idx.spec_table_name() == meta@.table_name
                &&& idx.spec_assigned() == Set::<i64>::empty()
            },
            schema_wf(stored@) && schema_dimension(stored@) == meta@.dimension as nat
                && meta@.dimension >= 1 ==> r is Ok,
            r matches Err(e) ==> (e == Error::SchemaMismatch || e == Error::NoVectorColumn),
    {
        let dimension = match stored.derive_dimension() {
            Ok(d) => d,
            Err(e) => {
                proof {
                    crate::schema::lemma_first_fixed_list(stored@);
                }
                return Err(e);
            },
        };
        if !stored.is_table_shape() {
            return Err(Error::SchemaMismatch);
        }
        proof {
            crate::schema::lemma_first_fixed_list(stored@);
        }
        if dimension != meta.dimension || meta.dimension == 0 {
            return Err(Error::SchemaMismatch);
        }
        let allocator = LabelAllocator::from_next(meta.next_label);
        Ok(
            LanceIndex {
                table_name: meta.table_name,
                dimension: meta.dimension,
                metric: meta.metric,
                allocator,
                schema: stored,
                is_open: true,
                assigned: Ghost(Set::empty()),
            },
        )
    }

    /// Takes the metadata snapshot of this index, serialized; storing
    /// it lets a later open skip the maximum-label scan.
    pub fn serialize_metadata(&self) -> (r: Vec<u8>)
        requires
            self.wf(),
        ensures
            r@ == spec_encode(
                MetaModel {
                    dimension: self.spec_dimension() as usize,
                    metric: self.spec_metric(),
                    next_label: self.spec_next_label() as i64,
                    table_name: self.spec_table_name(),
                },
            ),
    {
        let meta = Metadata {
            dimension: self.dimension,
            metric: self.metric.clone(),
            next_label: self.allocator.peek(),
            table_name: self.table_name.clone(),
        };
        meta.encode()
    }

    /// Whether the schema has columns beyond the identifier and the
    /// vector.
    pub fn has_extra_columns(&self) -> (r: bool)
        ensures
            r == (self.spec_schema().len() > 2),
    {
        self.schema.has_extra_columns()
    }

    /// The table name.
    pub fn table_name(&self) -> (r: &str)
        ensures
            r@ == self.spec_table_name(),
    {
        self.table_name.as_str()
    }

    /// The configured vector dimension.
    pub fn dimension(&self) -> (r: usize)
        ensures
            r as nat == self.spec_dimension(),
    {
        self.dimension
    }

    /// The metric name, as supplied at creation.
    pub fn metric(&self) -> (r: &str)
        ensures
            r@ == self.spec_metric(),
    {
        self.metric.as_str()
    }

    /// The resolved table schema, as the host writes it to storage at
    /// creation.
    pub fn table_schema(&self) -> (r: &Schema)
        ensures
            r@ == self.spec_schema(),
    {
        &self.schema
    }

    /// The next label the index will assign.
    pub fn next_label(&self) -> (r: i64)
        ensures
            r as int == self.spec_next_label(),
    {
        self.allocator.peek()
    }

    /// Adds one vector: assigns it the next label and assembles the
    /// one-row batch the host appends to the table.  On any error the
    /// index is left unchanged.  Fails with `NotOpen` after `close`;
    /// with `DimensionMismatch` exactly when the vector's length is
    /// not the configured dimension; with `SchemaMismatch` when the
    /// schema has extra columns — a two-column batch cannot conform
    /// to it — or a width past the columnar format's `i32` limit; and
    /// with `Capacity` when the label space is exhausted.  Otherwise
    /// it succeeds.
    pub fn add_vector(&mut self, vector: &Vec<u32>) -> (r: Result<(i64, Batch), Error>)
        requires
            old(self).wf(),
        ensures
            final(self).wf(),
            r is Err ==> *final(self) == *old(self),
            r is Ok <==> (old(self).spec_is_open() && vector@.len() == old(self).spec_dimension()
                && old(self).spec_schema().len() == 2 && old(self).spec_dimension() <= i32::MAX
                && old(self).spec_next_label() + 1 <= LABEL_MAX),
            match r {
                Ok((label, b)) => {
                    &&& label as int == old(self).spec_next_label()
                    &&& final(self).spec_next_label() == old(self).spec_next_label() + 1
                    &&& final(self).same_binding(old(self))
                    &&& final(self).spec_assigned() == old(self).spec_assigned().insert(label)
                    &&& batch_labels(b) == seq![label]
                    &&& batch_vectors(b) == vector@
                    &&& batch_has_label_column(b)
                    &&& batch_has_vector_column(b)
                    &&& batch_rows(b) == 1
                },
                Err(e) => {
                    &&& ((e == Error::NotOpen) <==> !old(self).spec_is_open())
                    &&& ((e is DimensionMismatch) <==> (old(self).spec_is_open() && vector@.len()
                        != old(self).spec_dimension()))
                    &&& (e is DimensionMismatch ==> e->DimensionMismatch_expected == old(
                        self,
                    ).spec_dimension() && e->DimensionMismatch_got == vector@.len())
                    &&& ((e == Error::SchemaMismatch) <==> (old(self).spec_is_open()
                        && vector@.len() == old(self).spec_dimension() && (old(
                        self,
                    ).spec_schema().len() != 2 || old(self).spec_dimension() > i32::MAX)))
                    &&& ((e == Error::Capacity) <==> (old(self).spec_is_open() && vector@.len()
                        == old(self).spec_dimension() && old(self).spec_schema().len() == 2 && old(
                        self,
                    ).spec_dimension() <= i32::MAX && old(self).spec_next_label() + 1
                        > LABEL_MAX))
                },
            },
    {
        if !self.is_open {
            return Err(Error::NotOpen);
        }
        if vector.len() != self.dimension {
            return Err(Error::DimensionMismatch { expected: self.dimension, got: vector.len() });
        }
        if self.schema.len() != 2 || self.dimension > i32::MAX as usize {
            return Err(Error::SchemaMismatch);
        }
        if !self.allocator.can_advance(1) {
            return Err(Error::Capacity);
        }
        let label = self.allocator.peek();
        let mut ls: Vec<i64> = Vec::new();
        ls.push(label);
        let b = match build_batch(&ls, vector, self.dimension) {
            Ok(b) => b,
            Err(_) => {
                proof {
                    assert(ls@.len() * self.spec_dimension() == vector@.len())
                        by (nonlinear_arith)
                        requires
                            ls@.len() == 1,
                            vector@.len() == self.spec_dimension(),
                    ;
                    assert(false);
                }
                return Err(Error::Storage);
            },
        };
        match self.allocator.advance(1) {
            Ok(_) => {},
            Err(_) => {
                proof {
                    assert(false);
                }
                return Err(Error::Capacity);
            },
        }
        proof {
            assert(ls@ =~= seq![label]);
        }
        self.assigned = Ghost(self.assigned@.insert(label));
        proof {
            assert forall|l: i64| self.assigned@.contains(l) implies 0 <= l
                < self.allocator.spec_next() by {
                if l != label {
                    assert(old(self).spec_assigned().contains(l));
                }
            }
        }
        Ok((label, b))
    }

    /// Adds `num_vectors` vectors given as one flat row-major buffer:
    /// assigns them the next labels, in order, and assembles the batch
    /// the host appends.  On any error the index is left unchanged.
    /// Fails with `NotOpen` after `close`; with `SizeMismatch` exactly
    /// when the buffer's length is not `num_vectors` times the
    /// dimension; with `SchemaMismatch` when the schema has extra
    /// columns or a width past the columnar format's `i32` limit; and
    /// with `Capacity` when the label space cannot hold `num_vectors`
    /// more labels.  Otherwise it succeeds.
    pub fn add_batch(&mut self, vectors: &Vec<u32>, num_vectors: usize) -> (r: Result<
        (Vec<i64>, Batch),
        Error,
    >)
        requires
            old(self).wf(),
        ensures
            final(self).wf(),
            r is Err ==> *final(self) == *old(self),
            r is Ok <==> (old(self).spec_is_open() && vectors@.len() == num_vectors * old(
                self,
            ).spec_dimension() && old(self).spec_schema().len() == 2 && old(self).spec_dimension()
                <= i32::MAX && old(self).spec_next_label() + num_vectors <= LABEL_MAX),
            match r {
                Ok((labels, b)) => {
                    &&& labels@ == label_range(old(self).spec_next_label(), num_vectors as nat)
                    &&& labels@.len() == num_vectors
                    &&& final(self).spec_next_label() == old(self).spec_next_label() + num_vectors
                    &&& final(self).same_binding(old(self))
                    &&& final(self).spec_assigned() == old(self).spec_assigned().union(
                        label_range(old(self).spec_next_label(), num_vectors as nat).to_set(),
                    )
                    &&& batch_labels(b) == labels@
                    &&& batch_vectors(b) == vectors@
                    &&& batch_has_label_column(b)
                    &&& batch_has_vector_column(b)
                    &&& batch_rows(b) == num_vectors
                },
                Err(e) => {
                    &&& ((e == Error::NotOpen) <==> !old(self).spec_is_open())
                    &&& ((e == Error::SizeMismatch) <==> (old(self).spec_is_open()
                        && vectors@.len() != num_vectors * old(self).spec_dimension()))
                    &&& ((e == Error::SchemaMismatch) <==> (old(self).spec_is_open()
                        && vectors@.len() == num_vectors * old(self).spec_dimension() && (old(
                        self,
                    ).spec_schema().len() != 2 || old(self).spec_dimension() > i32::MAX)))
                    &&& ((e == Error::Capacity) <==> (old(self).spec_is_open() && vectors@.len()
                        == num_vectors * old(self).spec_dimension() && old(
                        self,
                    ).spec_schema().len() == 2 && old(self).spec_dimension() <= i32::MAX && old(
                        self,
                    ).spec_next_label() + num_vectors > LABEL_MAX))
                },
            },
    {
        if !self.is_open {
            return Err(Error::NotOpen);
        }
        let size_ok = if num_vectors == 0 {
            vectors.len() == 0
        } else {
            vectors.len() / num_vectors == self.dimension && vectors.len() % num_vectors == 0
        };
        proof {
            if num_vectors > 0 {
                vstd::arithmetic::div_mod::lemma_fundamental_div_mod(
                    vectors@.len() as int,
                    num_vectors as int,
                );
                if vectors@.len() == num_vectors * self.spec_dimension() {
                    assert(vectors@.len() as int / num_vectors as int
                        == self.spec_dimension() as int && vectors@.len() as int % num_vectors as int
                        == 0) by (nonlinear_arith)
                        requires
                            vectors@.len() == num_vectors * self.spec_dimension(),
                            num_vectors > 0,
                    ;
                }
            }
        }
        if !size_ok {
            return Err(Error::SizeMismatch);
        }
        if self.schema.len() != 2 || self.dimension > i32::MAX as usize {
            return Err(Error::SchemaMismatch);
        }
        if !self.allocator.can_advance(num_vectors) {
            return Err(Error::Capacity);
        }
        let start = self.allocator.peek();
        let mut labels: Vec<i64> = Vec::new();
        let mut i: usize = 0;
        while i < num_vectors
            invariant
                0 <= i <= num_vectors,
                0 <= start,
                start + num_vectors <= LABEL_MAX,
                labels@ == label_range(start as int, i as nat),
            decreases num_vectors - i,
        {
            labels.push(start + i as i64);
            proof {
                assert(labels@ =~= label_range(start as int, i as nat + 1));
            }
            i = i + 1;
        }
        let b = match build_batch(&labels, vectors, self.dimension) {
            Ok(b) => b,
            Err(_) => {
                proof {
                    assert(false);
                }
                return Err(Error::Storage);
            },
        };
        match self.allocator.advance(num_vectors) {
            Ok(_) => {},
            Err(_) => {
                proof {
                    assert(false);
                }
                return Err(Error::Capacity);
            },
        }
        proof {
            lemma_label_range(start as int, num_vectors as nat);
        }
        self.assigned = Ghost(
            self.assigned@.union(label_range(start as int, num_vectors as nat).to_set()),
        );
        proof {
            assert forall|l: i64| self.assigned@.contains(l) implies 0 <= l
                < self.allocator.spec_next() by {
                if old(self).spec_assigned().contains(l) {
                } else {
                    assert(label_range(start as int, num_vectors as nat).to_set().contains(l));
                }
            }
        }
        Ok((labels, b))
    }

    /// Copies live rows of `source` into this index, assigning each
    /// copied row a fresh label.  The host first selects the live
    /// rows by querying `source` with the `in_predicate` of
    /// `live_source_labels` and hands the streamed batches here, in
    /// arrival order; this call remaps every non-empty batch's label
    /// column to freshly reserved labels and returns the
    /// `(old, new)` mapping together with the rewritten batches for
    /// the host to append.
    ///
    /// An empty `live_source_labels` is a no-op with an empty
    /// mapping.  Otherwise the merge succeeds exactly when both
    /// indexes are open, every non-empty batch has a readable label
    /// column, and the label space holds the copied rows; the
    /// rewritten batches then carry the source's vector data row for
    /// row.  A failure after some batches were processed leaves the
    /// label counter advanced past everything already reserved — the
    /// mapping for a failed merge is unknown and the caller must
    /// reconcile before retrying.
    pub fn merge_from(
        &mut self,
        source: &LanceIndex,
        live_source_labels: &Vec<i64>,
        source_batches: &Vec<Batch>,
    ) -> (r: Result<(Vec<(i64, i64)>, Vec<Batch>), Error>)
        requires
            old(self).wf(),
        ensures
            final(self).wf(),
            final(self).same_binding(old(self)),
            old(self).spec_next_label() <= final(self).spec_next_label(),
            old(self).spec_assigned().subset_of(final(self).spec_assigned()),
            live_source_labels@.len() == 0 ==> (r matches Ok(p) && p.0@ == Seq::<(
                i64,
                i64,
            )>::empty() && p.1@ == Seq::<Batch>::empty() && *final(self) == *old(self)),
            live_source_labels@.len() > 0 && (!source.spec_is_open() || !old(
                self,
            ).spec_is_open()) ==> (r matches Err(e) && e == Error::NotOpen && *final(self) == *old(
                self,
            )),
            r is Ok <==> (live_source_labels@.len() == 0 || (source.spec_is_open() && old(
                self,
            ).spec_is_open() && (forall|i: int|
                0 <= i < source_batches@.len() && batch_rows(source_batches@[i]) != 0
                    ==> batch_has_label_column(source_batches@[i])) && old(self).spec_next_label()
                + merged_olds(source_batches@).len() <= LABEL_MAX)),
            live_source_labels@.len() > 0 ==> (r matches Ok(p) ==> {
                let olds = merged_olds(source_batches@);
                let total = olds.len();
                &&& source.spec_is_open() && old(self).spec_is_open()
                &&& p.0@.len() == total
                &&& forall|k: int|
                    0 <= k < total ==> p.0@[k].0 == olds[k] && p.0@[k].1 as int == old(
                        self,
                    ).spec_next_label() + k
                &&& final(self).spec_next_label() == old(self).spec_next_label() + total
                &&& final(self).spec_assigned() == old(self).spec_assigned().union(
                    label_range(old(self).spec_next_label(), total).to_set(),
                )
                &&& concat_labels(p.1@) == label_range(old(self).spec_next_label(), total)
                &&& (forall|i: int|
                    0 <= i < source_batches@.len() && batch_rows(source_batches@[i]) != 0
                        ==> batch_has_vector_column(source_batches@[i])) ==> concat_vectors(p.1@)
                    == merged_vectors(source_batches@)
            }),
    {
        if live_source_labels.len() == 0 {
            return Ok((Vec::new(), Vec::new()));
        }
        if !source.is_open {
            return Err(Error::NotOpen);
        }
        if !self.is_open {
            return Err(Error::NotOpen);
        }
        let ghost start0 = self.spec_next_label();
        let mut mapping: Vec<(i64, i64)> = Vec::new();
        let mut out: Vec<Batch> = Vec::new();
        let n = source_batches.len();
        let mut i: usize = 0;
        while i < n
            invariant
                0 <= i <= n,
                n == source_batches@.len(),
                self.wf(),
                self.spec_is_open(),
                source.spec_is_open(),
                old(self).spec_is_open(),
                live_source_labels@.len() > 0,
                self.same_binding(old(self)),
                0 <= start0,
                start0 == old(self).spec_next_label(),
                mapping@.len() == merged_olds(source_batches@.subrange(0, i as int)).len(),
                self.spec_next_label() == start0 + mapping@.len(),
                forall|k: int|
                    0 <= k < mapping@.len() ==> mapping@[k].0 == merged_olds(
                        source_batches@.subrange(0, i as int),
                    )[k] && mapping@[k].1 as int == start0 + k,
                self.spec_assigned() == old(self).spec_assigned().union(
                    label_range(start0, mapping@.len() as nat).to_set(),
                ),
                concat_labels(out@) == label_range(start0, mapping@.len() as nat),
                forall|j: int|
                    0 <= j < i && batch_rows(source_batches@[j]) != 0 ==> batch_has_label_column(
                        source_batches@[j],
                    ),
                (forall|j: int|
                    0 <= j < i && batch_rows(source_batches@[j]) != 0
                        ==> batch_has_vector_column(source_batches@[j])) ==> concat_vectors(out@)
                    == merged_vectors(source_batches@.subrange(0, i as int)),
            decreases n - i,
        {
            let ghost prefix = source_batches@.subrange(0, i as int);
            let ghost prefix1 = source_batches@.subrange(0, i as int + 1);
            proof {
                assert(prefix1.drop_last() =~= prefix);
                assert(prefix1.last() == source_batches@[i as int]);
            }
            let b = &source_batches[i];
            if batch_num_rows(b) == 0 {
                proof {
                    assert(merged_olds(prefix1) =~= merged_olds(prefix));
                    assert(merged_vectors(prefix1) =~= merged_vectors(prefix));
                }
                i = i + 1;
                continue ;
            }
            let olds = match batch_label_values(b) {
                Some(v) => v,
                None => {
                    proof {
                        assert(batch_rows(source_batches@[i as int]) != 0
                            && !batch_has_label_column(source_batches@[i as int]));
                    }
                    return Err(Error::SchemaMismatch);
                },
            };
            let m = olds.len();
            proof {
                assert(merged_olds(prefix1) =~= merged_olds(prefix) + batch_labels(
                    source_batches@[i as int],
                ));
            }
            if !self.allocator.can_advance(m) {
                proof {
                    lemma_merged_olds_prefix(source_batches@, i as int + 1);
                    assert(merged_olds(prefix1).len() == mapping@.len() + m);
                    assert(start0 + merged_olds(source_batches@).len() > LABEL_MAX);
                }
                return Err(Error::Capacity);
            }
            let start = match self.allocator.advance(m) {
                Ok(s) => s,
                Err(_) => {
                    proof {
                        assert(false);
                    }
                    return Err(Error::Capacity);
                },
            };
            let mut news: Vec<i64> = Vec::new();
            let mut j: usize = 0;
            while j < m
                invariant
                    0 <= j <= m,
                    0 <= start,
                    start + m <= LABEL_MAX,
                    news@ == label_range(start as int, j as nat),
                decreases m - j,
            {
                news.push(start + j as i64);
                proof {
                    assert(news@ =~= label_range(start as int, j as nat + 1));
                }
                j = j + 1;
            }
            let nb = match replace_labels(b, &news) {
                Ok(nb) => nb,
                Err(_) => {
                    return Err(Error::Storage);
                },
            };
            let ghost mapping_before = mapping@;
            let mut j: usize = 0;
            while j < m
                invariant
                    0 <= j <= m,
                    m == olds@.len(),
                    m == news@.len(),
                    news@ == label_range(start as int, m as nat),
                    0 <= start,
                    start + m <= LABEL_MAX,
                    mapping@.len() == mapping_before.len() + j,
                    mapping@.subrange(0, mapping_before.len() as int) == mapping_before,
                    forall|k: int|
                        0 <= k < j ==> mapping@[mapping_before.len() + k] == (
                        olds@[k],
                        news@[k],
                        ),
                decreases m - j,
            {
                let pair = (olds[j], news[j]);
                mapping.push(pair);
                proof {
                    assert(mapping@.subrange(0, mapping_before.len() as int) =~= mapping_before);
                }
                j = j + 1;
            }
            let ghost out_before = out@;
            out.push(nb);
            self.assigned = Ghost(
                self.assigned@.union(label_range(start as int, m as nat).to_set()),
            );
            proof {
                let before = mapping_before.len() as int;
                assert(start as int == start0 + before);
                lemma_label_range(start0, before as nat);
                lemma_label_range(start as int, m as nat);
                lemma_label_range(start0, (before + m) as nat);
                lemma_label_range_join(start0, before as nat, m as nat);
                assert(out@.drop_last() =~= out_before);
                assert(out@.last() == nb);
                assert(concat_labels(out@) =~= label_range(start0, (before + m) as nat));
                assert(self.spec_assigned() =~= old(self).spec_assigned().union(
                    label_range(start0, (before + m) as nat).to_set(),
                ));
                assert forall|l: i64| self.spec_assigned().contains(l) implies 0 <= l
                    < self.spec_next_label() by {
                    if !old(self).spec_assigned().contains(l) {
                        assert(label_range(start0, (before + m) as nat).to_set().contains(l));
                    }
                }
                assert forall|k: int| 0 <= k < mapping@.len() implies mapping@[k].0 == merged_olds(
                    prefix1,
                )[k] && mapping@[k].1 as int == start0 + k by {
                    if k < before {
                        assert(mapping@[k] == mapping@.subrange(0, before)[k]);
                        assert(mapping@[k] == mapping_before[k]);
                        assert(merged_olds(prefix1)[k] == merged_olds(prefix)[k]);
                    } else {
                        let d = k - before;
                        assert(mapping@[k] == (olds@[d], news@[d]));
                        assert(merged_olds(prefix1)[k] == batch_labels(
                            source_batches@[i as int],
                        )[d]);
                        assert(news@[d] == (start as int + d) as i64);
                    }
                }
                if forall|j: int|
                    0 <= j < i + 1 && batch_rows(source_batches@[j]) != 0
                        ==> batch_has_vector_column(source_batches@[j]) {
                    assert(batch_has_vector_column(source_batches@[i as int]));
                    assert(concat_vectors(out_before) == merged_vectors(prefix));
                    assert(batch_vectors(nb) == batch_vectors(source_batches@[i as int]));
                    assert(merged_vectors(prefix1) == merged_vectors(prefix) + batch_vectors(
                        source_batches@[i as int],
                    ));
                    assert(concat_vectors(out@) =~= merged_vectors(prefix1));
                }
            }
            i = i + 1;
        }
        proof {
            assert(source_batches@.subrange(0, n as int) =~= source_batches@);
            let olds = merged_olds(source_batches@);
            let total = olds.len();
            assert(mapping@.len() == total);
            assert(self.spec_next_label() == start0 + total);
            assert(self.spec_assigned() == old(self).spec_assigned().union(
                label_range(start0, total).to_set(),
            ));
            assert(concat_labels(out@) == label_range(start0, total));
            assert(forall|k: int|
                0 <= k < total ==> mapping@[k].0 == olds[k] && mapping@[k].1 as int == start0 + k);
        }
        Ok((mapping, out))
    }

    /// Checks a nearest-neighbor query and packages it for the
    /// engine.  Fails with `NotOpen` after `close` and with
    /// `DimensionMismatch` exactly when the query's length is not the
    /// configured dimension; otherwise the request carries `k`,
    /// `nprobes` and `refine_factor` through unchanged.
    pub fn search(&self, query: &Vec<u32>, k: usize, nprobes: usize, refine_factor: usize) -> (r:
        Result<SearchRequest, Error>)
        ensures
            match r {
                Ok(req) => {
                    &&& self.spec_is_open()
                    &&& query@.len() == self.spec_dimension()
                    &&& req.k == k
                    &&& req.nprobes == nprobes
                    &&& req.refine_factor == refine_factor
                },
                Err(e) => {
                    &&& ((e == Error::NotOpen) <==> !self.spec_is_open())
                    &&& ((e is DimensionMismatch) <==> (self.spec_is_open() && query@.len()
                        != self.spec_dimension()))
                    &&& (e is DimensionMismatch ==> e->DimensionMismatch_expected
                        == self.spec_dimension() && e->DimensionMismatch_got == query@.len())
                },
            },
            r is Ok <==> (self.spec_is_open() && query@.len() == self.spec_dimension()),
    {
        if !self.is_open {
            return Err(Error::NotOpen);
        }
        if query.len() != self.dimension {
            return Err(Error::DimensionMismatch { expected: self.dimension, got: query.len() });
        }
        Ok(SearchRequest { k, nprobes, refine_factor })
    }

    /// The predicate deleting one row, `label = N`, for the host to
    /// hand to the storage engine.  Fails with `NotOpen` after
    /// `close`.
    pub fn delete(&self, label: i64) -> (r: Result<String, Error>)
        ensures
            match r {
                Ok(p) => self.spec_is_open() && p@ == crate::predicate::spec_eq_predicate(
                    label as int,
                ),
                Err(e) => e == Error::NotOpen && !self.spec_is_open(),
            },
            r is Ok <==> self.spec_is_open(),
    {
        if !self.is_open {
            return Err(Error::NotOpen);
        }
        Ok(crate::predicate::eq_predicate(label))
    }

    /// The predicate deleting a set of rows, `label IN (...)`, for
    /// the host to hand to the storage engine; `None` for an empty
    /// set, which is a no-op that never touches the table (and so
    /// succeeds even on a closed index, as a no-op should).
    pub fn delete_batch(&self, labels: &Vec<i64>) -> (r: Result<Option<String>, Error>)
        ensures
            labels@.len() == 0 ==> (r matches Ok(p) && p is None),
            labels@.len() > 0 && self.spec_is_open() ==> (r matches Ok(p) && (p matches Some(s)
                && s@ == crate::predicate::spec_in_predicate(labels@))),
            labels@.len() > 0 && !self.spec_is_open() ==> (r matches Err(e) && e
                == Error::NotOpen),
    {
        if labels.len() == 0 {
            return Ok(None);
        }
        if !self.is_open {
            return Err(Error::NotOpen);
        }
        Ok(Some(crate::predicate::in_predicate(labels)))
    }

    /// A storage-optimization pass; valid in the Active state only,
    /// decided and performed entirely by the engine.
    pub fn compact(&self) -> (r: Result<(), Error>)
        ensures
            r is Ok <==> self.spec_is_open(),
            r matches Err(e) ==> e == Error::NotOpen,
    {
        if !self.is_open {
            return Err(Error::NotOpen);
        }
        Ok(())
    }

    /// The parameters for building a partitioned-and-quantized
    /// approximate index: the distance type follows the metric the
    /// index was created with, and a zero count leaves the choice to
    /// the engine.  Fails with `NotOpen` after `close`.
    pub fn create_ann_index(&self, num_partitions: u32, num_sub_vectors: u32) -> (r: Result<
        AnnIndexParams,
        Error,
    >)
        ensures
            match r {
                Ok(p) => {
                    &&& self.spec_is_open()
                    &&& p.distance == metric_kind(self.spec_metric())
                    &&& p.num_partitions == (if num_partitions > 0 {
                        Some(num_partitions)
                    } else {
                        Option::<u32>::None
                    })
                    &&& p.num_sub_vectors == (if num_sub_vectors > 0 {
                        Some(num_sub_vectors)
                    } else {
                        Option::<u32>::None
                    })
                },
                Err(e) => e == Error::NotOpen && !self.spec_is_open(),
            },
            r is Ok <==> self.spec_is_open(),
    {
        if !self.is_open {
            return Err(Error::NotOpen);
        }
        let distance = self.metric_kind_exec();
        Ok(
            AnnIndexParams {
                distance,
                num_partitions: if num_partitions > 0 {
                    Some(num_partitions)
                } else {
                    None
                },
                num_sub_vectors: if num_sub_vectors > 0 {
                    Some(num_sub_vectors)
                } else {
                    None
                },
            },
        )
    }

    /// The parameters for building a graph-based approximate index:
    /// the distance type follows the metric, `m` is the edge count
    /// per node and `ef_construction` the build-time search width; a
    /// zero leaves the choice to the engine.  Fails with `NotOpen`
    /// after `close`.
    pub fn create_hnsw_index(&self, m: u32, ef_construction: u32) -> (r: Result<
        HnswIndexParams,
        Error,
    >)
        ensures
            match r {
                Ok(p) => {
                    &&& self.spec_is_open()
                    &&& p.distance == metric_kind(self.spec_metric())
                    &&& p.num_edges == (if m > 0 {
                        Some(m)
                    } else {
                        Option::<u32>::None
                    })
                    &&& p.ef_construction == (if ef_construction > 0 {
                        Some(ef_construction)
                    } else {
                        Option::<u32>::None
                    })
                },
                Err(e) => e == Error::NotOpen && !self.spec_is_open(),
            },
            r is Ok <==> self.spec_is_open(),
    {
        if !self.is_open {
            return Err(Error::NotOpen);
        }
        let distance = self.metric_kind_exec();
        Ok(
            HnswIndexParams {
                distance,
                num_edges: if m > 0 {
                    Some(m)
                } else {
                    None
                },
                ef_construction: if ef_construction > 0 {
                    Some(ef_construction)
                } else {
                    None
                },
            },
        )
    }

    /// Extracts one vector from the batches the host's point query
    /// streamed back (the query selects by `eq_predicate(label)`):
    /// the first row of the first non-empty batch, as bit patterns.
    /// Fails with `NotOpen` after `close`, with `NotFound` exactly
    /// when every batch is empty — the label is absent or tombstoned
    /// — and with `Storage` when a non-empty batch has no readable
    /// vector column of at least one row.
    pub fn get_vector(&self, label: i64, result_batches: &Vec<Batch>) -> (r: Result<
        Vec<u32>,
        Error,
    >)
        ensures
            r is Ok <==> (self.spec_is_open() && first_nonempty(result_batches@) >= 0
                && batch_has_vector_column(result_batches@[first_nonempty(result_batches@)])
                && batch_vectors(result_batches@[first_nonempty(result_batches@)]).len()
                >= self.spec_dimension()),
            match r {
                Ok(v) => {
                    &&& v@ == batch_vectors(
                        result_batches@[first_nonempty(result_batches@)],
                    ).subrange(0, self.spec_dimension() as int)
                    &&& v@.len() == self.spec_dimension()
                },
                Err(e) => {
                    &&& ((e == Error::NotOpen) <==> !self.spec_is_open())
                    &&& ((e == Error::NotFound) <==> (self.spec_is_open() && first_nonempty(
                        result_batches@,
                    ) == -1))
                    &&& ((e == Error::Storage) <==> (self.spec_is_open() && first_nonempty(
                        result_batches@,
                    ) >= 0 && !(batch_has_vector_column(
                        result_batches@[first_nonempty(result_batches@)],
                    ) && batch_vectors(result_batches@[first_nonempty(result_batches@)]).len()
                        >= self.spec_dimension())))
                },
            },
    {
        if !self.is_open {
            return Err(Error::NotOpen);
        }
        let n = result_batches.len();
        let mut i: usize = 0;
        while i < n
            invariant
                0 <= i <= n,
                n == result_batches@.len(),
                self.spec_is_open(),
                forall|j: int| 0 <= j < i ==> batch_rows(result_batches@[j]) == 0,
            decreases n - i,
        {
            let b = &result_batches[i];
            if batch_num_rows(b) > 0 {
                proof {
                    lemma_first_nonempty_found(result_batches@, i as int);
                }
                let bits = match batch_vector_values(b) {
                    Some(v) => v,
                    None => {
                        return Err(Error::Storage);
                    },
                };
                if bits.len() < self.dimension {
                    return Err(Error::Storage);
                }
                let row = vstd::slice::slice_to_vec(
                    vstd::slice::slice_subrange(bits.as_slice(), 0, self.dimension),
                );
                return Ok(row);
            }
            i = i + 1;
        }
        proof {
            lemma_first_nonempty_none(result_batches@);
        }
        Err(Error::NotFound)
    }

    /// Exports the whole table as the host's full scan streamed it:
    /// every batch's labels and its flat row-major vectors,
    /// concatenated in arrival order; the vector buffer holds
    /// `dimension` entries per label.  Fails with `NotOpen` after
    /// `close` and with `Storage` exactly when some batch lacks a
    /// readable label or vector column or its vector data is not
    /// `dimension` entries per row.
    pub fn get_all_vectors(&self, result_batches: &Vec<Batch>) -> (r: Result<
        (Vec<i64>, Vec<u32>),
        Error,
    >)
        ensures
            r is Ok <==> (self.spec_is_open() && forall|i: int|
                0 <= i < result_batches@.len() ==> export_ok(
                    result_batches@[i],
                    self.spec_dimension(),
                )),
            match r {
                Ok(p) => {
                    &&& p.0@ == concat_labels(result_batches@)
                    &&& p.1@ == concat_vectors(result_batches@)
                    &&& p.1@.len() == p.0@.len() * self.spec_dimension()
                },
                Err(e) => {
                    &&& ((e == Error::NotOpen) <==> !self.spec_is_open())
                    &&& (e != Error::NotOpen ==> e == Error::Storage)
                },
            },
    {
        if !self.is_open {
            return Err(Error::NotOpen);
        }
        let mut all_labels: Vec<i64> = Vec::new();
        let mut all_bits: Vec<u32> = Vec::new();
        proof {
            assert(all_bits@.len() == all_labels@.len() * self.spec_dimension())
                by (nonlinear_arith)
                requires
                    all_bits@.len() == 0,
                    all_labels@.len() == 0,
            ;
        }
        let n = result_batches.len();
        let mut i: usize = 0;
        while i < n
            invariant
                0 <= i <= n,
                n == result_batches@.len(),
                self.spec_is_open(),
                self.spec_dimension() >= 0,
                forall|j: int|
                    0 <= j < i ==> export_ok(result_batches@[j], self.spec_dimension()),
                all_labels@ == concat_labels(result_batches@.subrange(0, i as int)),
                all_bits@ == concat_vectors(result_batches@.subrange(0, i as int)),
                all_bits@.len() == all_labels@.len() * self.spec_dimension(),
            decreases n - i,
        {
            let ghost prefix = result_batches@.subrange(0, i as int);
            let ghost prefix1 = result_batches@.subrange(0, i as int + 1);
            proof {
                assert(prefix1.drop_last() =~= prefix);
                assert(prefix1.last() == result_batches@[i as int]);
            }
            let b = &result_batches[i];
            let mut ls = match batch_label_values(b) {
                Some(v) => v,
                None => {
                    return Err(Error::Storage);
                },
            };
            let mut bits = match batch_vector_values(b) {
                Some(v) => v,
                None => {
                    return Err(Error::Storage);
                },
            };
            let rows = ls.len();
            let size_ok = if rows == 0 {
                bits.len() == 0
            } else {
                bits.len() / rows == self.dimension && bits.len() % rows == 0
            };
            proof {
                if rows > 0 {
                    vstd::arithmetic::div_mod::lemma_fundamental_div_mod(
                        bits@.len() as int,
                        rows as int,
                    );
                    if bits@.len() == rows * self.spec_dimension() {
                        assert(bits@.len() as int / rows as int == self.spec_dimension() as int
                            && bits@.len() as int % rows as int == 0) by (nonlinear_arith)
                            requires
                                bits@.len() == rows * self.spec_dimension(),
                                rows > 0,
                        ;
                    }
                }
            }
            if !size_ok {
                return Err(Error::Storage);
            }
            let ghost old_labels = all_labels@;
            let ghost old_bits = all_bits@;
            all_labels.append(&mut ls);
            all_bits.append(&mut bits);
            proof {
                assert(all_labels@ =~= concat_labels(prefix1));
                assert(all_bits@ =~= concat_vectors(prefix1));
                assert(all_bits@.len() == all_labels@.len() * self.spec_dimension())
                    by (nonlinear_arith)
                    requires
                        all_bits@.len() == old_bits.len() + (all_labels@.len()
                            - old_labels.len()) * self.spec_dimension(),
                        old_bits.len() == old_labels.len() * self.spec_dimension(),
                        old_labels.len() <= all_labels@.len(),
                ;
            }
            i = i + 1;
        }
        proof {
            assert(result_batches@.subrange(0, n as int) =~= result_batches@);
        }
        Ok((all_labels, all_bits))
    }

    /// The maximum label over the batches a full scan of the live
    /// rows streamed back, `-1` when they hold no rows: the value a
    /// reopen recovers the label counter from.  The row count is not
    /// usable for recovery once rows have been deleted; the scan is.
    /// Fails with `Storage` exactly when some batch has no readable
    /// label column.
    pub fn query_max_label(scanned_batches: &Vec<Batch>) -> (r: Result<i64, Error>)
        ensures
            r is Ok <==> (forall|i: int|
                0 <= i < scanned_batches@.len() ==> batch_has_label_column(scanned_batches@[i])),
            r matches Ok(m) ==> m as int == crate::labels::seq_max(
                concat_labels(scanned_batches@),
            ) && -1 <= m,
            r matches Err(e) ==> e == Error::Storage,
    {
        let mut max: i64 = -1;
        let n = scanned_batches.len();
        let mut i: usize = 0;
        while i < n
            invariant
                0 <= i <= n,
                n == scanned_batches@.len(),
                forall|j: int| 0 <= j < i ==> batch_has_label_column(scanned_batches@[j]),
                max as int == crate::labels::seq_max(
                    concat_labels(scanned_batches@.subrange(0, i as int)),
                ),
                -1 <= max,
            decreases n - i,
        {
            let ghost prefix = scanned_batches@.subrange(0, i as int);
            let ghost prefix1 = scanned_batches@.subrange(0, i as int + 1);
            proof {
                assert(prefix1.drop_last() =~= prefix);
                assert(prefix1.last() == scanned_batches@[i as int]);
            }
            let b = &scanned_batches[i];
            let ls = match batch_label_values(b) {
                Some(v) => v,
                None => {
                    return Err(Error::Storage);
                },
            };
            let m = ls.len();
            let mut j: usize = 0;
            while j < m
                invariant
                    0 <= j <= m,
                    m == ls@.len(),
                    ls@ == batch_labels(scanned_batches@[i as int]),
                    max as int == crate::labels::seq_max(
                        concat_labels(scanned_batches@.subrange(0, i as int)) + ls@.subrange(
                            0,
                            j as int,
                        ),
                    ),
                    -1 <= max,
                    0 <= i < n,
                    n == scanned_batches@.len(),
                decreases m - j,
            {
                proof {
                    let sofar = concat_labels(scanned_batches@.subrange(0, i as int))
                        + ls@.subrange(0, j as int);
                    assert(concat_labels(scanned_batches@.subrange(0, i as int)) + ls@.subrange(
                        0,
                        j as int + 1,
                    ) =~= sofar.push(ls@[j as int]));
                    crate::labels::lemma_seq_max_push(sofar, ls@[j as int]);
                }
                if ls[j] > max {
                    max = ls[j];
                }
                j = j + 1;
            }
            proof {
                assert(ls@.subrange(0, m as int) =~= ls@);
                assert(concat_labels(prefix1) =~= concat_labels(prefix) + ls@);
            }
            i = i + 1;
        }
        proof {
            assert(scanned_batches@.subrange(0, n as int) =~= scanned_batches@);
        }
        Ok(max)
    }

    /// Plans the ingestion of an externally supplied row batch whose
    /// columns follow the stored schema minus the label column: it
    /// reserves a fresh label for every incoming row and decides, for
    /// each column, whether the stored layout takes it verbatim or
    /// after a cast.  Zero rows plan nothing and reserve nothing —
    /// an empty import is not an error.  On any error the index is
    /// unchanged: `NotOpen` after `close`; `SchemaMismatch` when the
    /// column count is wrong; `CastFailed` naming the first column
    /// whose type the stored layout cannot take; `Capacity` when the
    /// label space cannot hold the rows.
    pub fn add_batch_arrow(&mut self, incoming: &mut ExternalArray, column_types: &Vec<
        DataType,
    >) -> (r: Result<ImportPlan, Error>)
        requires
            old(self).wf(),
        ensures
            final(self).wf(),
            final(incoming).spec_rows() == 0,
            r is Err ==> *final(self) == *old(self),
            r is Ok <==> (old(self).spec_is_open() && (old(incoming).spec_rows() == 0 || (
            column_types@.len() + 1 == old(self).spec_schema().len() && (forall|j: int|
                0 <= j < column_types@.len() ==> crate::schema::castable(
                    column_types@[j]@,
                    old(self).spec_schema()[j + 1].dtype,
                )) && old(self).spec_next_label() + old(incoming).spec_rows() <= LABEL_MAX))),
            match r {
                Ok(plan) => {
                    &&& old(self).spec_is_open()
                    &&& final(self).same_binding(old(self))
                    &&& old(incoming).spec_rows() == 0 ==> (*final(self) == *old(self) && plan.labels@.len() == 0
                        && plan.actions@.len() == 0)
                    &&& old(incoming).spec_rows() > 0 ==> {
                        &&& column_types@.len() + 1 == old(self).spec_schema().len()
                        &&& plan.labels@ == label_range(
                            old(self).spec_next_label(),
                            old(incoming).spec_rows(),
                        )
                        &&& final(self).spec_next_label() == old(self).spec_next_label()
                            + old(incoming).spec_rows()
                        &&& final(self).spec_assigned() == old(self).spec_assigned().union(
                            label_range(old(self).spec_next_label(), old(incoming).spec_rows()).to_set(),
                        )
                        &&& plan.actions@.len() == column_types@.len()
                        &&& forall|i: int|
                            0 <= i < column_types@.len() ==> plan_action_ok(
                                plan.actions@[i],
                                column_types@[i]@,
                                old(self).spec_schema()[i + 1].dtype,
                            )
                    }
                },
                Err(e) => {
                    &&& ((e == Error::NotOpen) <==> !old(self).spec_is_open())
                    &&& ((e == Error::SchemaMismatch) <==> (old(self).spec_is_open() && old(
                        incoming,
                    ).spec_rows() > 0 && column_types@.len() + 1 != old(self).spec_schema().len()))
                    &&& (e is CastFailed ==> {
                        let c = e->CastFailed_column;
                        &&& old(self).spec_is_open()
                        &&& old(incoming).spec_rows() > 0
                        &&& 0 <= c < column_types@.len()
                        &&& !crate::schema::castable(
                            column_types@[c as int]@,
                            old(self).spec_schema()[c as int + 1].dtype,
                        )
                        &&& forall|j: int|
                            0 <= j < c ==> crate::schema::castable(
                                column_types@[j]@,
                                old(self).spec_schema()[j + 1].dtype,
                            )
                    })
                    &&& ((e == Error::Capacity) <==> (old(self).spec_is_open() && old(incoming).spec_rows() > 0
                        && column_types@.len() + 1 == old(self).spec_schema().len() && (forall|
                        j: int,
                    |
                        0 <= j < column_types@.len() ==> crate::schema::castable(
                            column_types@[j]@,
                            old(self).spec_schema()[j + 1].dtype,
                        )) && old(self).spec_next_label() + old(incoming).spec_rows() > LABEL_MAX))
                },
            },
    {
        let num_rows = incoming.take();
        if !self.is_open {
            return Err(Error::NotOpen);
        }
        if num_rows == 0 {
            return Ok(ImportPlan { labels: Vec::new(), actions: Vec::new() });
        }
        let cols = column_types.len();
        if cols != self.schema.len() - 1 {
            return Err(Error::SchemaMismatch);
        }
        let mut actions: Vec<ColumnAction> = Vec::new();
        let mut i: usize = 0;
        while i < cols
            invariant
                0 <= i <= cols,
                cols == column_types@.len(),
                cols + 1 == self.spec_schema().len(),
                *self == *old(self),
                self.wf(),
                self.spec_is_open(),
                num_rows > 0,
                num_rows as nat == old(incoming).spec_rows(),
                incoming.spec_rows() == 0,
                actions@.len() == i,
                forall|j: int|
                    0 <= j < i ==> plan_action_ok(
                        actions@[j],
                        column_types@[j]@,
                        self.spec_schema()[j + 1].dtype,
                    ),
                forall|j: int|
                    0 <= j < i ==> crate::schema::castable(
                        column_types@[j]@,
                        self.spec_schema()[j + 1].dtype,
                    ),
            decreases cols - i,
        {
            let incoming = &column_types[i];
            let target = &self.schema.fields[i + 1].dtype;
            if incoming.matches(target) {
                actions.push(ColumnAction::Keep);
            } else if incoming.castable_to(target) {
                actions.push(ColumnAction::Cast(target.duplicate()));
            } else {
                return Err(Error::CastFailed { column: i });
            }
            i = i + 1;
        }
        if !self.allocator.can_advance(num_rows) {
            return Err(Error::Capacity);
        }
        let start = match self.allocator.advance(num_rows) {
            Ok(s) => s,
            Err(_) => {
                proof {
                    assert(false);
                }
                return Err(Error::Capacity);
            },
        };
        let mut labels: Vec<i64> = Vec::new();
        let mut j: usize = 0;
        while j < num_rows
            invariant
                0 <= j <= num_rows,
                0 <= start,
                start + num_rows <= LABEL_MAX,
                labels@ == label_range(start as int, j as nat),
            decreases num_rows - j,
        {
            labels.push(start + j as i64);
            proof {
                assert(labels@ =~= label_range(start as int, j as nat + 1));
            }
            j = j + 1;
        }
        proof {
            lemma_label_range(start as int, num_rows as nat);
        }
        self.assigned = Ghost(
            self.assigned@.union(label_range(start as int, num_rows as nat).to_set()),
        );
        proof {
            assert forall|l: i64| self.assigned@.contains(l) implies 0 <= l
                < self.allocator.spec_next() by {
                if old(self).spec_assigned().contains(l) {
                } else {
                    assert(label_range(start as int, num_rows as nat).to_set().contains(l));
                }
            }
        }
        Ok(ImportPlan { labels, actions })
    }

    /// The distance type the metric string selects.
    fn metric_kind_exec(&self) -> (r: Metric)
        ensures
            r == metric_kind(self.spec_metric()),
    {
        let cosine = String::from_str("cosine");
        let dot = String::from_str("dot");
        let ip = String::from_str("ip");
        if self.metric == cosine {
            Metric::Cosine
        } else if self.metric == dot || self.metric == ip {
            Metric::Dot
        } else {
            Metric::L2
        }
    }

    /// Releases the binding.  Every later operation fails with
    /// `NotOpen`; there is no way back.
    pub fn close(&mut self)
        ensures
            !final(self).spec_is_open(),
            final(self).spec_dimension() == old(self).spec_dimension(),
            final(self).spec_next_label() == old(self).spec_next_label(),
            final(self).spec_schema() == old(self).spec_schema(),
            final(self).spec_metric() == old(self).spec_metric(),
            final(self).spec_table_name() == old(self).spec_table_name(),
            final(self).spec_assigned() == old(self).spec_assigned(),
            old(self).wf() ==> final(self).wf(),
    {
        self.is_open = false;
    }
}

} // verus!
