//! The statistics algebra: estimates of an operator's output derived from its
//! inputs' estimates, and exact statistics computed from materialized batches.

use vstd::prelude::*;
use vstd::pervasive::VecAdditionalExecFns;
use crate::batch::{spec_batch_byte_size, batch_byte_size, Batch};
use crate::scalar::ScalarValue;
use crate::schema::{Field, Schema};

verus! {

/// Per-column optional estimates; absence means "unknown" and must propagate,
/// never silently default to zero.
#[derive(Debug, PartialEq)]
pub struct ColumnStatistics {
    /// Number of null cells, if known.
    pub null_count: Option<usize>,
    /// Number of distinct values, if known.
    pub distinct_count: Option<usize>,
    /// Minimum value, if known.
    pub min_value: Option<ScalarValue>,
    /// Maximum value, if known.
    pub max_value: Option<ScalarValue>,
}

/// A column statistics entry with every estimate unknown.
pub open spec fn spec_unknown_col() -> ColumnStatistics {
    ColumnStatistics { null_count: None, distinct_count: None, min_value: None, max_value: None }
}

impl Default for ColumnStatistics {
    /// The default entry knows nothing.
    fn default() -> (r: Self)
        ensures
            r == spec_unknown_col(),
    {
        ColumnStatistics { null_count: None, distinct_count: None, min_value: None, max_value: None }
    }
}

impl Clone for ColumnStatistics {
    /// A cloned entry is equal to the original.
    fn clone(&self) -> (res: Self)
        ensures
            res == *self,
    {
        ColumnStatistics {
            null_count: self.null_count,
            distinct_count: self.distinct_count,
            min_value: match &self.min_value {
                Some(v) => Some(v.clone()),
                None => None,
            },
            max_value: match &self.max_value {
                Some(v) => Some(v.clone()),
                None => None,
            },
        }
    }
}

/// An operator's output estimates: optional row count, optional total byte
/// size, an exactness flag, and per-column statistics aligned with the
/// operator's output schema.
#[derive(Debug, PartialEq)]
pub struct Statistics {
    /// Output row count, if known.
    pub num_rows: Option<usize>,
    /// Total physical byte size of the output, if known.
    pub total_byte_size: Option<usize>,
    /// Per-column statistics in output schema order, if known at all.
    pub column_statistics: Option<Vec<ColumnStatistics>>,
    /// Whether the estimates are exact rather than approximations.
    pub is_exact: bool,
}

/// The number of null cells in a column.
pub open spec fn spec_nulls_in_col(col: Seq<ScalarValue>) -> int
    decreases col.len(),
{
    if col.len() == 0 {
        0
    } else {
        spec_nulls_in_col(col.drop_last()) + if col.last().spec_is_null() {
            1int
        } else {
            0int
        }
    }
}

/// The total rows over one partition's batches.
pub open spec fn spec_part_rows(part: Seq<Batch>) -> int
    decreases part.len(),
{
    if part.len() == 0 {
        0
    } else {
        spec_part_rows(part.drop_last()) + part.last().spec_num_rows()
    }
}

/// The total rows over all partitions.
pub open spec fn spec_parts_rows(parts: Seq<Vec<Batch>>) -> int
    decreases parts.len(),
{
    if parts.len() == 0 {
        0
    } else {
        spec_parts_rows(parts.drop_last()) + spec_part_rows(parts.last()@)
    }
}

/// The total byte size over one partition's batches.
pub open spec fn spec_part_size(part: Seq<Batch>) -> int
    decreases part.len(),
{
    if part.len() == 0 {
        0
    } else {
        spec_part_size(part.drop_last()) + spec_batch_byte_size(&part.last())
    }
}

/// The total byte size over all partitions.
pub open spec fn spec_parts_size(parts: Seq<Vec<Batch>>) -> int
    decreases parts.len(),
{
    if parts.len() == 0 {
        0
    } else {
        spec_parts_size(parts.drop_last()) + spec_part_size(parts.last()@)
    }
}

/// The nulls of column `j` over one partition's batches.
pub open spec fn spec_part_nulls(part: Seq<Batch>, j: int) -> int
    decreases part.len(),
{
    if part.len() == 0 {
        0
    } else {
        spec_part_nulls(part.drop_last(), j) + spec_nulls_in_col(part.last().spec_cols()[j])
    }
}

/// The nulls of column `j` over all partitions.
pub open spec fn spec_parts_nulls(parts: Seq<Vec<Batch>>, j: int) -> int
    decreases parts.len(),
{
    if parts.len() == 0 {
        0
    } else {
        spec_parts_nulls(parts.drop_last(), j) + spec_part_nulls(parts.last()@, j)
    }
}

/// Every batch of every partition is well-formed and conforms to the schema.
pub open spec fn spec_parts_conform(parts: Seq<Vec<Batch>>, fields: Seq<Field>) -> bool {
    forall|pi: int, bi: int|
        0 <= pi < parts.len() && 0 <= bi < parts[pi]@.len() ==> (#[trigger] parts[pi]@[bi]).wf()
            && parts[pi]@[bi].conforms_to(fields)
}

/// A column holds between zero and its length nulls.
pub proof fn lemma_nulls_in_col_bounds(col: Seq<ScalarValue>)
    ensures
        0 <= spec_nulls_in_col(col) <= col.len(),
    decreases col.len(),
{
    if col.len() > 0 {
        lemma_nulls_in_col_bounds(col.drop_last());
    }
}

/// Row totals are non-negative.
pub proof fn lemma_part_rows_nonneg(part: Seq<Batch>)
    ensures
        spec_part_rows(part) >= 0,
    decreases part.len(),
{
    if part.len() > 0 {
        lemma_part_rows_nonneg(part.drop_last());
    }
}

/// Row totals are non-negative.
pub proof fn lemma_parts_rows_nonneg(parts: Seq<Vec<Batch>>)
    ensures
        spec_parts_rows(parts) >= 0,
    decreases parts.len(),
{
    if parts.len() > 0 {
        lemma_parts_rows_nonneg(parts.drop_last());
        lemma_part_rows_nonneg(parts.last()@);
    }
}

/// A prefix of a partition holds at most the partition's rows.
pub proof fn lemma_part_rows_take_le(part: Seq<Batch>, k: int)
    requires
        0 <= k <= part.len(),
    ensures
        spec_part_rows(part.take(k)) <= spec_part_rows(part),
    decreases part.len() - k,
{
    if k == part.len() {
        assert(part.take(k) =~= part);
    } else {
        assert(part.take(k + 1).drop_last() =~= part.take(k));
        assert(part.take(k + 1).last() == part[k]);
        lemma_part_rows_take_le(part, k + 1);
    }
}

/// A prefix of the partitions holds at most all rows.
pub proof fn lemma_parts_rows_take_le(parts: Seq<Vec<Batch>>, k: int)
    requires
        0 <= k <= parts.len(),
    ensures
        spec_parts_rows(parts.take(k)) <= spec_parts_rows(parts),
    decreases parts.len() - k,
{
    if k == parts.len() {
        assert(parts.take(k) =~= parts);
    } else {
        assert(parts.take(k + 1).drop_last() =~= parts.take(k));
        assert(parts.take(k + 1).last() == parts[k]);
        lemma_part_rows_nonneg(parts[k]@);
        lemma_parts_rows_take_le(parts, k + 1);
    }
}

/// Byte totals of a partition are non-negative.
pub proof fn lemma_part_size_nonneg(part: Seq<Batch>)
    ensures
        spec_part_size(part) >= 0,
    decreases part.len(),
{
    if part.len() > 0 {
        lemma_part_size_nonneg(part.drop_last());
        crate::batch::lemma_cols_byte_size_nonneg(part.last().spec_cols());
    }
}

/// Byte totals over partitions are non-negative.
pub proof fn lemma_parts_size_nonneg(parts: Seq<Vec<Batch>>)
    ensures
        spec_parts_size(parts) >= 0,
    decreases parts.len(),
{
    if parts.len() > 0 {
        lemma_parts_size_nonneg(parts.drop_last());
        lemma_part_size_nonneg(parts.last()@);
    }
}

/// A prefix of a partition weighs at most the partition.
pub proof fn lemma_part_size_take_le(part: Seq<Batch>, k: int)
    requires
        0 <= k <= part.len(),
    ensures
        spec_part_size(part.take(k)) <= spec_part_size(part),
    decreases part.len() - k,
{
    if k == part.len() {
        assert(part.take(k) =~= part);
    } else {
        assert(part.take(k + 1).drop_last() =~= part.take(k));
        assert(part.take(k + 1).last() == part[k]);
        crate::batch::lemma_cols_byte_size_nonneg(part[k].spec_cols());
        lemma_part_size_take_le(part, k + 1);
    }
}

/// A prefix of the partitions weighs at most the whole.
pub proof fn lemma_parts_size_take_le(parts: Seq<Vec<Batch>>, k: int)
    requires
        0 <= k <= parts.len(),
    ensures
        spec_parts_size(parts.take(k)) <= spec_parts_size(parts),
    decreases parts.len() - k,
{
    if k == parts.len() {
        assert(parts.take(k) =~= parts);
    } else {
        assert(parts.take(k + 1).drop_last() =~= parts.take(k));
        assert(parts.take(k + 1).last() == parts[k]);
        lemma_part_size_nonneg(parts[k]@);
        lemma_parts_size_take_le(parts, k + 1);
    }
}

/// In a conforming partition, the nulls of column `j` lie between zero and the
/// partition's rows.
pub proof fn lemma_part_nulls_bounds(part: Seq<Batch>, fields: Seq<Field>, j: int)
    requires
        0 <= j < fields.len(),
        forall|bi: int|
            0 <= bi < part.len() ==> (#[trigger] part[bi]).wf() && part[bi].conforms_to(fields),
    ensures
        0 <= spec_part_nulls(part, j) <= spec_part_rows(part),
    decreases part.len(),
{
    if part.len() > 0 {
        lemma_part_nulls_bounds(part.drop_last(), fields, j);
        let b = part.last();
        assert(b.wf());
        lemma_nulls_in_col_bounds(b.spec_cols()[j]);
        assert(b.spec_cols()[j].len() == b.spec_num_rows());
    }
}

/// Over conforming partitions, the nulls of column `j` lie between zero and
/// the total rows.
pub proof fn lemma_parts_nulls_bounds(parts: Seq<Vec<Batch>>, fields: Seq<Field>, j: int)
    requires
        0 <= j < fields.len(),
        spec_parts_conform(parts, fields),
    ensures
        0 <= spec_parts_nulls(parts, j) <= spec_parts_rows(parts),
    decreases parts.len(),
{
    if parts.len() > 0 {
        assert(spec_parts_conform(parts.drop_last(), fields)) by {
            assert(forall|pi: int, bi: int|
                0 <= pi < parts.drop_last().len() && 0 <= bi < parts.drop_last()[pi]@.len()
                    ==> (#[trigger] parts.drop_last()[pi]@[bi]) == parts[pi]@[bi]);
        }
        lemma_parts_nulls_bounds(parts.drop_last(), fields, j);
        assert(forall|bi: int|
            0 <= bi < parts.last()@.len() ==> (#[trigger] parts.last()@[bi]).wf()
                && parts.last()@[bi].conforms_to(fields)) by {
            assert(forall|bi: int|
                0 <= bi < parts.last()@.len() ==> parts.last()@[bi] == (#[trigger] parts[parts.len()
                    - 1]@[bi]));
        }
        lemma_part_nulls_bounds(parts.last()@, fields, j);
    }
}

/// The number of null cells in one column.
pub fn col_null_count(col: &Vec<ScalarValue>) -> (n: usize)
    ensures
        n == spec_nulls_in_col(col@),
{
    let mut n: usize = 0;
    let mut i: usize = 0;
    while i < col.len()
        invariant
            i <= col@.len(),
            n == spec_nulls_in_col(col@.take(i as int)),
            n <= i,
        decreases col@.len() - i,
    {
        proof {
            assert(col@.take(i + 1).drop_last() =~= col@.take(i as int));
            assert(col@.take(i + 1).last() == col@[i as int]);
        }
        if col[i].is_null() {
            n = n + 1;
        }
        i += 1;
    }
    proof {
        assert(col@.take(col@.len() as int) =~= col@);
    }
    n
}

/// The column indices a statistics computation reads: the given projection, or
/// every column of the schema in order.
pub open spec fn spec_projection(projection: Option<Vec<usize>>, schema: Schema) -> Seq<int> {
    match projection {
        Some(p) => p@.map_values(|x: usize| x as int),
        None => Seq::new(schema.fields@.len(), |i: int| i),
    }
}

/// Computes the statistics of materialized batches: total row count, total
/// nominal byte size, and the null count of every selected column, summed
/// across all partitions. The result is always exact because it only reads
/// materialized data.
pub fn compute_record_batch_statistics(
    batches: &Vec<Vec<Batch>>,
    schema: &Schema,
    projection: Option<Vec<usize>>,
) -> (r: Statistics)
    requires
        spec_parts_conform(batches@, schema.fields@),
        spec_parts_rows(batches@) <= usize::MAX,
        spec_parts_size(batches@) <= usize::MAX,
        projection matches Some(p) ==> forall|k: int|
            0 <= k < p@.len() ==> #[trigger] p@[k] < schema.fields@.len(),
    ensures
        r.num_rows == Some(spec_parts_rows(batches@) as usize),
        r.total_byte_size == Some(spec_parts_size(batches@) as usize),
        r.is_exact,
        r.column_statistics matches Some(cs) && cs@.len() == spec_projection(
            projection,
            *schema,
        ).len() && forall|k: int|
            0 <= k < cs@.len() ==> #[trigger] cs@[k] == (ColumnStatistics {
                null_count: Some(
                    spec_parts_nulls(batches@, spec_projection(projection, *schema)[k]) as usize,
                ),
                distinct_count: None,
                min_value: None,
                max_value: None,
            }),
{
    let ghost fields = schema.fields@;
    let ghost proj = spec_projection(projection, *schema);
    // Resolve the projection: the given indices, or all columns in order.
    let cols: Vec<usize> = match projection {
        Some(p) => p,
        None => {
            let mut all: Vec<usize> = Vec::new();
            let mut i: usize = 0;
            while i < schema.fields.len()
                invariant
                    i <= fields.len(),
                    fields == schema.fields@,
                    all@.len() == i,
                    forall|k: int| 0 <= k < i ==> #[trigger] all@[k] == k,
                decreases fields.len() - i,
            {
                all.push(i);
                i += 1;
            }
            all
        },
    };
    proof {
        assert(cols@.len() == proj.len());
        assert(forall|k: int| 0 <= k < cols@.len() ==> #[trigger] cols@[k] == proj[k]);
        assert(forall|k: int| 0 <= k < cols@.len() ==> #[trigger] cols@[k] < fields.len());
    }

    let mut nb_rows: usize = 0;
    let mut total_byte_size: usize = 0;
    let mut counts: Vec<usize> = Vec::new();
    let mut k0: usize = 0;
    while k0 < cols.len()
        invariant
            counts@.len() == k0,
            k0 <= cols@.len(),
            forall|k: int| 0 <= k < k0 ==> #[trigger] counts@[k] == 0,
        decreases cols@.len() - k0,
    {
        counts.push(0);
        k0 += 1;
    }

    let mut pi: usize = 0;
    while pi < batches.len()
        invariant
            pi <= batches@.len(),
            spec_parts_conform(batches@, fields),
            spec_parts_rows(batches@) <= usize::MAX,
            spec_parts_size(batches@) <= usize::MAX,
            fields == schema.fields@,
            cols@.len() == proj.len(),
            forall|k: int| 0 <= k < cols@.len() ==> #[trigger] cols@[k] == proj[k],
            forall|k: int| 0 <= k < cols@.len() ==> #[trigger] cols@[k] < fields.len(),
            nb_rows == spec_parts_rows(batches@.take(pi as int)),
            total_byte_size == spec_parts_size(batches@.take(pi as int)),
            counts@.len() == cols@.len(),
            forall|k: int|
                0 <= k < cols@.len() ==> #[trigger] counts@[k] == spec_parts_nulls(
                    batches@.take(pi as int),
                    cols@[k] as int,
                ),
        decreases batches@.len() - pi,
    {
        let ghost partv = batches@[pi as int]@;
        
        let mut bi: usize = 0;
        while bi < batches[pi].len()
            invariant
                bi <= partv.len(),
                partv == batches@[pi as int]@,
                pi < batches@.len(),
                spec_parts_conform(batches@, fields),
                spec_parts_rows(batches@) <= usize::MAX,
                spec_parts_size(batches@) <= usize::MAX,
                fields == schema.fields@,
                cols@.len() == proj.len(),
                forall|k: int| 0 <= k < cols@.len() ==> #[trigger] cols@[k] == proj[k],
                forall|k: int| 0 <= k < cols@.len() ==> #[trigger] cols@[k] < fields.len(),
                nb_rows == spec_parts_rows(batches@.take(pi as int)) + spec_part_rows(
                    partv.take(bi as int),
                ),
                total_byte_size == spec_parts_size(batches@.take(pi as int)) + spec_part_size(
                    partv.take(bi as int),
                ),
                counts@.len() == cols@.len(),
                forall|k: int|
                    0 <= k < cols@.len() ==> #[trigger] counts@[k] == spec_parts_nulls(
                        batches@.take(pi as int),
                        cols@[k] as int,
                    ) + spec_part_nulls(partv.take(bi as int), cols@[k] as int),
            decreases partv.len() - bi,
        {
            let b = &batches[pi][bi];
            proof {
                assert(*b == batches@[pi as int]@[bi as int]);
                assert(b.wf() && b.conforms_to(fields));
                // The next row and size totals still fit in a machine word.
                assert(partv.take(bi + 1).drop_last() =~= partv.take(bi as int));
                assert(partv.take(bi + 1).last() == partv[bi as int]);
                assert(batches@.take(pi + 1).drop_last() =~= batches@.take(pi as int));
                assert(batches@.take(pi + 1).last() == batches@[pi as int]);
                lemma_part_rows_take_le(partv, bi + 1);
                lemma_parts_rows_take_le(batches@, pi + 1);
                lemma_part_size_take_le(partv, bi + 1);
                lemma_parts_size_take_le(batches@, pi + 1);
                crate::batch::lemma_cols_byte_size_nonneg(b.spec_cols());
                lemma_part_rows_nonneg(partv.take(bi as int));
                lemma_part_size_nonneg(partv.take(bi as int));
                lemma_parts_rows_nonneg(batches@.take(pi as int));
                lemma_parts_size_nonneg(batches@.take(pi as int));
            }
            nb_rows = nb_rows + b.num_rows();
            total_byte_size = total_byte_size + batch_byte_size(b);
            let mut k: usize = 0;
            while k < cols.len()
                invariant
                    k <= cols@.len(),
                    partv == batches@[pi as int]@,
                    pi < batches@.len(),
                    bi < partv.len(),
                    *b == batches@[pi as int]@[bi as int],
                    spec_parts_conform(batches@, fields),
                    spec_parts_rows(batches@) <= usize::MAX,
                    fields == schema.fields@,
                    cols@.len() == proj.len(),
                    forall|kk: int| 0 <= kk < cols@.len() ==> #[trigger] cols@[kk] == proj[kk],
                    forall|kk: int| 0 <= kk < cols@.len() ==> #[trigger] cols@[kk] < fields.len(),
                    counts@.len() == cols@.len(),
                    forall|kk: int|
                        k <= kk < cols@.len() ==> #[trigger] counts@[kk] == spec_parts_nulls(
                            batches@.take(pi as int),
                            cols@[kk] as int,
                        ) + spec_part_nulls(partv.take(bi as int), cols@[kk] as int),
                    forall|kk: int|
                        0 <= kk < k ==> #[trigger] counts@[kk] == spec_parts_nulls(
                            batches@.take(pi as int),
                            cols@[kk] as int,
                        ) + spec_part_nulls(partv.take(bi + 1), cols@[kk] as int),
                decreases cols@.len() - k,
            {
                let ghost j = cols@[k as int] as int;
                proof {
                    assert(b.wf() && b.conforms_to(fields));
                    assert(partv.take(bi + 1).drop_last() =~= partv.take(bi as int));
                    assert(partv.take(bi + 1).last() == partv[bi as int]);
                    // Bound the running count so the addition cannot overflow.
                    assert(forall|bb: int|
                        0 <= bb < partv.len() ==> (#[trigger] partv[bb]).wf()
                            && partv[bb].conforms_to(fields));
                    assert(forall|bb: int|
                        0 <= bb < partv.take(bi + 1).len() ==> (#[trigger] partv.take(
                            bi + 1,
                        )[bb]).wf() && partv.take(bi + 1)[bb].conforms_to(fields));
                    lemma_part_nulls_bounds(partv.take(bi + 1), fields, j);
                    lemma_parts_nulls_bounds(batches@.take(pi as int), fields, j);
                    assert(spec_parts_conform(batches@.take(pi as int), fields));
                    lemma_part_rows_take_le(partv, bi + 1);
                    lemma_parts_rows_take_le(batches@, pi + 1);
                    assert(batches@.take(pi + 1).drop_last() =~= batches@.take(pi as int));
                    assert(batches@.take(pi + 1).last() == batches@[pi as int]);
                    lemma_parts_rows_nonneg(batches@.take(pi as int));
                    lemma_part_rows_nonneg(partv.take(bi + 1));
                }
                let cnt = col_null_count(b.column(cols[k]));
                let prev = counts[k];
                counts.set(k, prev + cnt);
                k += 1;
            }
            bi += 1;
        }
        proof {
            assert(partv.take(partv.len() as int) =~= partv);
            assert(batches@.take(pi + 1).drop_last() =~= batches@.take(pi as int));
            assert(batches@.take(pi + 1).last() == batches@[pi as int]);
        }
        pi += 1;
    }
    proof {
        assert(batches@.take(batches@.len() as int) =~= batches@);
    }

    let mut column_statistics: Vec<ColumnStatistics> = Vec::new();
    let mut k: usize = 0;
    while k < counts.len()
        invariant
            k <= counts@.len(),
            counts@.len() == cols@.len(),
            column_statistics@.len() == k,
            cols@.len() == proj.len(),
            forall|kk: int| 0 <= kk < cols@.len() ==> #[trigger] cols@[kk] == proj[kk],
            forall|kk: int|
                0 <= kk < cols@.len() ==> #[trigger] counts@[kk] == spec_parts_nulls(
                    batches@,
                    cols@[kk] as int,
                ),
            forall|kk: int|
                0 <= kk < k ==> #[trigger] column_statistics@[kk] == (ColumnStatistics {
                    null_count: Some(spec_parts_nulls(batches@, proj[kk]) as usize),
                    distinct_count: None,
                    min_value: None,
                    max_value: None,
                }),
        decreases counts@.len() - k,
    {
        column_statistics.push(
            ColumnStatistics {
                null_count: Some(counts[k]),
                distinct_count: None,
                min_value: None,
                max_value: None,
            },
        );
        k += 1;
    }

    Statistics {
        num_rows: Some(nb_rows),
        total_byte_size: Some(total_byte_size),
        column_statistics: Some(column_statistics),
        is_exact: true,
    }
}

/// The product of two optional counts: defined only when both are.
pub open spec fn spec_mul_opt(a: Option<usize>, b: Option<usize>) -> Option<usize> {
    match (a, b) {
        (Some(x), Some(y)) => Some((x * y) as usize),
        _ => None,
    }
}

/// Twice the product of two optional byte sizes: defined only when both are.
/// The factor two reflects that every output row duplicates both sides'
/// columns in full.
pub open spec fn spec_twice_mul_opt(a: Option<usize>, b: Option<usize>) -> Option<usize> {
    match (a, b) {
        (Some(x), Some(y)) => Some((2 * x * y) as usize),
        _ => None,
    }
}

/// One side's column statistics: the known entries, or a vector of all-unknown
/// entries sized to that side's column count so the concatenation still aligns
/// with the output schema.
pub open spec fn spec_side_cols(cs: Option<Vec<ColumnStatistics>>, count: int) -> Seq<
    ColumnStatistics,
> {
    match cs {
        Some(v) => v@,
        None => Seq::new(count as nat, |i: int| spec_unknown_col()),
    }
}

/// Rescales one column's statistics under cartesian expansion against the
/// opposite side: min, max and distinct count are invariant; the null count
/// multiplies by the opposite side's row count, and becomes unknown when that
/// count is unknown.
pub open spec fn spec_scale_nulls(s: ColumnStatistics, other_rows: Option<usize>) -> ColumnStatistics {
    ColumnStatistics {
        null_count: match (s.null_count, other_rows) {
            (Some(n), Some(r)) => Some((n * r) as usize),
            _ => None,
        },
        distinct_count: s.distinct_count,
        min_value: s.min_value,
        max_value: s.max_value,
    }
}

/// One side's column statistics, each rescaled against the opposite side's
/// row count.
pub open spec fn spec_scaled_side(side: Seq<ColumnStatistics>, other_rows: Option<usize>) -> Seq<
    ColumnStatistics,
> {
    Seq::new(side.len(), |k: int| spec_scale_nulls(side[k], other_rows))
}

/// The machine-width side conditions of the cartesian-product estimate: every
/// product the algebra forms fits in a machine word.
pub open spec fn spec_product_fits(
    left: Statistics,
    left_col_count: int,
    right: Statistics,
    right_col_count: int,
) -> bool {
    &&& (left.num_rows is Some && right.num_rows is Some) ==> left.num_rows->Some_0
        * right.num_rows->Some_0 <= usize::MAX
    &&& (left.total_byte_size is Some && right.total_byte_size is Some) ==> 2
        * left.total_byte_size->Some_0 * right.total_byte_size->Some_0 <= usize::MAX
    &&& right.num_rows is Some ==> forall|k: int|
        0 <= k < spec_side_cols(left.column_statistics, left_col_count).len() ==> ((#[trigger]
        spec_side_cols(left.column_statistics, left_col_count)[k]).null_count is Some
            ==> spec_side_cols(left.column_statistics, left_col_count)[k].null_count->Some_0
            * right.num_rows->Some_0 <= usize::MAX)
    &&& left.num_rows is Some ==> forall|k: int|
        0 <= k < spec_side_cols(right.column_statistics, right_col_count).len() ==> ((#[trigger]
        spec_side_cols(right.column_statistics, right_col_count)[k]).null_count is Some
            ==> spec_side_cols(right.column_statistics, right_col_count)[k].null_count->Some_0
            * left.num_rows->Some_0 <= usize::MAX)
}

/// One side's column statistics as a vector: the known entries copied, or
/// all-unknown entries sized to the side's column count.
fn side_cols(cs: &Option<Vec<ColumnStatistics>>, count: usize) -> (r: Vec<ColumnStatistics>)
    ensures
        r@ == spec_side_cols(*cs, count as int),
{
    match cs {
        Some(v) => {
            let mut r: Vec<ColumnStatistics> = Vec::new();
            let mut i: usize = 0;
            while i < v.len()
                invariant
                    i <= v@.len(),
                    r@ == v@.take(i as int),
                decreases v@.len() - i,
            {
                r.push(v[i].clone());
                proof {
                    assert(r@ =~= v@.take(i + 1));
                }
                i += 1;
            }
            proof {
                assert(r@ =~= v@);
            }
            r
        },
        None => {
            let mut r: Vec<ColumnStatistics> = Vec::new();
            let mut i: usize = 0;
            while i < count
                invariant
                    i <= count,
                    r@.len() == i,
                    forall|k: int| 0 <= k < i ==> #[trigger] r@[k] == spec_unknown_col(),
                decreases count - i,
            {
                r.push(ColumnStatistics::default());
                i += 1;
            }
            proof {
                assert(r@ =~= spec_side_cols(*cs, count as int));
            }
            r
        },
    }
}

/// The statistics of a cartesian product, derived from the two sides'
/// statistics without touching data. The row count multiplies; the byte size
/// is twice the product of the sides' sizes; each side's per-column min, max
/// and distinct count are invariant while its null count is rescaled by the
/// opposite side's row count, becoming unknown when that row count is unknown.
/// The column counts are required in case the column statistics are missing on
/// one side.
pub fn stats_cartesian_product(
    left_stats: &Statistics,
    left_col_count: usize,
    right_stats: &Statistics,
    right_col_count: usize,
) -> (r: Statistics)
    requires
        spec_product_fits(*left_stats, left_col_count as int, *right_stats, right_col_count as int),
    ensures
        r.is_exact == (left_stats.is_exact && right_stats.is_exact),
        r.num_rows == spec_mul_opt(left_stats.num_rows, right_stats.num_rows),
        r.total_byte_size == spec_twice_mul_opt(
            left_stats.total_byte_size,
            right_stats.total_byte_size,
        ),
        r.column_statistics is None <==> (left_stats.column_statistics is None
            && right_stats.column_statistics is None),
        r.column_statistics matches Some(v) ==> v@ == spec_scaled_side(
            spec_side_cols(left_stats.column_statistics, left_col_count as int),
            right_stats.num_rows,
        ) + spec_scaled_side(
            spec_side_cols(right_stats.column_statistics, right_col_count as int),
            left_stats.num_rows,
        ),
{
    let is_exact = left_stats.is_exact && right_stats.is_exact;
    let num_rows: Option<usize> = match (left_stats.num_rows, right_stats.num_rows) {
        (Some(a), Some(b)) => Some(a * b),
        _ => None,
    };
    let total_byte_size: Option<usize> = match (
        left_stats.total_byte_size,
        right_stats.total_byte_size,
    ) {
        (Some(a), Some(b)) => {
            proof {
                assert(a * b >= 0 && 2 * (a * b) == 2 * a * b) by (nonlinear_arith);
            }
            let ab = a * b;
            Some(2 * ab)
        },
        _ => None,
    };

    let no_column_stats = match (&left_stats.column_statistics, &right_stats.column_statistics) {
        (None, None) => true,
        _ => false,
    };
    let column_statistics: Option<Vec<ColumnStatistics>> = if no_column_stats {
        None
    } else {
        let ghost left_side_spec = spec_side_cols(
            left_stats.column_statistics,
            left_col_count as int,
        );
        let ghost right_side_spec = spec_side_cols(
            right_stats.column_statistics,
            right_col_count as int,
        );
        let left_side = side_cols(&left_stats.column_statistics, left_col_count);
        let right_side = side_cols(&right_stats.column_statistics, right_col_count);
        let mut v: Vec<ColumnStatistics> = Vec::new();
        let mut i: usize = 0;
        while i < left_side.len()
            invariant
                i <= left_side@.len(),
                left_side@ == left_side_spec,
                right_stats.num_rows is Some ==> forall|k: int|
                    0 <= k < left_side_spec.len() ==> ((#[trigger] left_side_spec[k]).null_count
                        is Some ==> left_side_spec[k].null_count->Some_0
                        * right_stats.num_rows->Some_0 <= usize::MAX),
                v@ == spec_scaled_side(left_side_spec, right_stats.num_rows).take(i as int),
            decreases left_side@.len() - i,
        {
            let s = &left_side[i];
            let null_count: Option<usize> = match (s.null_count, right_stats.num_rows) {
                (Some(n), Some(rr)) => Some(n * rr),
                _ => None,
            };
            v.push(
                ColumnStatistics {
                    null_count,
                    distinct_count: s.distinct_count,
                    min_value: match &s.min_value {
                        Some(m) => Some(m.clone()),
                        None => None,
                    },
                    max_value: match &s.max_value {
                        Some(m) => Some(m.clone()),
                        None => None,
                    },
                },
            );
            proof {
                assert(v@ =~= spec_scaled_side(left_side_spec, right_stats.num_rows).take(i + 1));
            }
            i += 1;
        }
        proof {
            assert(v@ =~= spec_scaled_side(left_side_spec, right_stats.num_rows));
        }
        let ghost scaled_left = v@;
        let mut j: usize = 0;
        while j < right_side.len()
            invariant
                j <= right_side@.len(),
                right_side@ == right_side_spec,
                left_stats.num_rows is Some ==> forall|k: int|
                    0 <= k < right_side_spec.len() ==> ((#[trigger] right_side_spec[k]).null_count
                        is Some ==> right_side_spec[k].null_count->Some_0
                        * left_stats.num_rows->Some_0 <= usize::MAX),
                v@ == scaled_left + spec_scaled_side(right_side_spec, left_stats.num_rows).take(
                    j as int,
                ),
                scaled_left == spec_scaled_side(left_side_spec, right_stats.num_rows),
            decreases right_side@.len() - j,
        {
            let s = &right_side[j];
            let null_count: Option<usize> = match (s.null_count, left_stats.num_rows) {
                (Some(n), Some(lr)) => Some(n * lr),
                _ => None,
            };
            v.push(
                ColumnStatistics {
                    null_count,
                    distinct_count: s.distinct_count,
                    min_value: match &s.min_value {
                        Some(m) => Some(m.clone()),
                        None => None,
                    },
                    max_value: match &s.max_value {
                        Some(m) => Some(m.clone()),
                        None => None,
                    },
                },
            );
            proof {
                assert(v@ =~= scaled_left + spec_scaled_side(
                    right_side_spec,
                    left_stats.num_rows,
                ).take(j + 1));
            }
            j += 1;
        }
        proof {
            assert(v@ =~= spec_scaled_side(left_side_spec, right_stats.num_rows)
                + spec_scaled_side(right_side_spec, left_stats.num_rows));
        }
        Some(v)
    };

    Statistics { num_rows, total_byte_size, column_statistics, is_exact }
}

} // verus!
