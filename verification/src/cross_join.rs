//! The cross (cartesian-product) join operator: a build side materialized in
//! memory once and shared by all partitions, and a per-partition streaming
//! state machine that expands every probe-side batch against every build row.

use vstd::prelude::*;
use crate::batch::{clone_cells, spec_batch_byte_size, batch_byte_size, Batch};
use crate::error::ExecError;
use crate::memory::{MemoryPool, MemoryReservation};
use crate::metrics::BuildProbeJoinMetrics;
use crate::once::SharedOnce;
use crate::ordering::SortKey;
use crate::plan::{adjust_right_output_partitioning, ChildPlan, Distribution, Partitioning};
use crate::scalar::ScalarValue;
use crate::schema::Schema;
use crate::stats::{
    spec_part_rows, spec_part_size, spec_product_fits, spec_scaled_side, spec_side_cols,
    spec_mul_opt, spec_twice_mul_opt, stats_cartesian_product, Statistics,
};

verus! {

/// Column `j` of the concatenation of the batches, in arrival order.
pub open spec fn spec_concat_col(batches: Seq<Batch>, j: int) -> Seq<ScalarValue>
    decreases batches.len(),
{
    if batches.len() == 0 {
        Seq::empty()
    } else {
        spec_concat_col(batches.drop_last(), j) + batches.last().spec_cols()[j]
    }
}

/// Every batch is well-formed and conforms to the schema.
pub open spec fn spec_batches_conform(batches: Seq<Batch>, fields: Seq<crate::schema::Field>) -> bool {
    forall|k: int|
        0 <= k < batches.len() ==> (#[trigger] batches[k]).wf() && batches[k].conforms_to(fields)
}

/// A concatenated column is as long as the batches' total rows, and all of
/// its cells carry the column's declared type.
proof fn lemma_concat_col_props(batches: Seq<Batch>, fields: Seq<crate::schema::Field>, j: int)
    requires
        spec_batches_conform(batches, fields),
        0 <= j < fields.len(),
    ensures
        spec_concat_col(batches, j).len() == spec_part_rows(batches),
        forall|i: int|
            0 <= i < spec_concat_col(batches, j).len() ==> crate::schema::cell_matches(
                #[trigger] spec_concat_col(batches, j)[i],
                fields[j].data_type,
            ),
    decreases batches.len(),
{
    if batches.len() > 0 {
        assert(spec_batches_conform(batches.drop_last(), fields));
        lemma_concat_col_props(batches.drop_last(), fields, j);
        let b = batches.last();
        assert(b.wf() && b.conforms_to(fields));
        assert(b.spec_cols()[j].len() == b.spec_num_rows());
    }
}

/// Concatenates conforming batches into one batch keyed off the total row
/// count: column `j` of the result is the batches' columns `j` joined in
/// arrival order.
pub fn concat_batches(schema: &Schema, batches: &Vec<Batch>, row_count: usize) -> (out: Batch)
    requires
        spec_batches_conform(batches@, schema.fields@),
        row_count == spec_part_rows(batches@),
    ensures
        out.wf(),
        out.schema.fields@ == schema.fields@,
        out.spec_num_rows() == (if schema.fields@.len() == 0 {
            0int
        } else {
            spec_part_rows(batches@)
        }),
        out.spec_cols().len() == schema.fields@.len(),
        forall|j: int|
            0 <= j < schema.fields@.len() ==> #[trigger] out.spec_cols()[j] == spec_concat_col(
                batches@,
                j,
            ),
{
    let ncols = schema.fields.len();
    let mut columns: Vec<Vec<ScalarValue>> = Vec::new();
    let mut j: usize = 0;
    while j < ncols
        invariant
            j <= ncols,
            ncols == schema.fields@.len(),
            spec_batches_conform(batches@, schema.fields@),
            row_count == spec_part_rows(batches@),
            columns@.len() == j,
            forall|jj: int|
                0 <= jj < j ==> (#[trigger] columns@[jj])@ == spec_concat_col(batches@, jj),
        decreases ncols - j,
    {
        let mut col: Vec<ScalarValue> = Vec::new();
        let mut k: usize = 0;
        while k < batches.len()
            invariant
                k <= batches@.len(),
                j < ncols,
                ncols == schema.fields@.len(),
                spec_batches_conform(batches@, schema.fields@),
                col@ == spec_concat_col(batches@.take(k as int), j as int),
            decreases batches@.len() - k,
        {
            let b = &batches[k];
            proof {
                assert(b.wf() && b.conforms_to(schema.fields@));
            }
            let cells = b.column(j);
            let mut i: usize = 0;
            while i < cells.len()
                invariant
                    i <= cells@.len(),
                    cells@ == batches@[k as int].spec_cols()[j as int],
                    k < batches@.len(),
                    col@ == spec_concat_col(batches@.take(k as int), j as int) + cells@.take(
                        i as int,
                    ),
                decreases cells@.len() - i,
            {
                col.push(cells[i].clone());
                proof {
                    assert(cells@.take(i + 1).drop_last() =~= cells@.take(i as int));
                    assert(col@ =~= spec_concat_col(batches@.take(k as int), j as int)
                        + cells@.take(i + 1));
                }
                i += 1;
            }
            proof {
                assert(cells@.take(cells@.len() as int) =~= cells@);
                assert(batches@.take(k + 1).drop_last() =~= batches@.take(k as int));
                assert(batches@.take(k + 1).last() == batches@[k as int]);
                assert(col@ =~= spec_concat_col(batches@.take(k + 1), j as int));
            }
            k += 1;
        }
        proof {
            assert(batches@.take(batches@.len() as int) =~= batches@);
        }
        columns.push(col);
        j += 1;
    }
    let out = Batch { schema: schema.clone(), columns };
    proof {
        assert(out.spec_cols() =~= columns@.map_values(|c: Vec<ScalarValue>| c@));
        assert forall|jj: int| 0 <= jj < ncols implies #[trigger] out.spec_cols()[jj]
            == spec_concat_col(batches@, jj) by {}
        assert forall|jj: int| 0 <= jj < ncols implies (#[trigger] out.spec_cols()[jj]).len()
            == spec_part_rows(batches@) by {
            lemma_concat_col_props(batches@, schema.fields@, jj);
        }
        assert forall|jj: int, ii: int|
            0 <= jj < out.spec_cols().len() && 0 <= ii < out.spec_cols()[jj].len()
            implies crate::schema::cell_matches(
            #[trigger] out.spec_cols()[jj][ii],
            out.schema.fields@[jj].data_type,
        ) by {
            lemma_concat_col_props(batches@, schema.fields@, jj);
        }
        if ncols > 0 {
            crate::stats::lemma_part_rows_nonneg(batches@);
        }
    }
    out
}

/// Collects the (already merged) build side: grows the shared reservation by
/// each batch's footprint before accepting it, then concatenates everything
/// into one batch keyed off the total row count. A grow that the pool cannot
/// satisfy aborts the whole build with a resources-exhausted error; the
/// batches accepted before it remain accounted.
pub fn load_left_input(
    left_schema: &Schema,
    batches: Vec<Batch>,
    reservation: &mut MemoryReservation,
    pool: &mut MemoryPool,
    metrics: &mut BuildProbeJoinMetrics,
) -> (r: Result<Batch, ExecError>)
    requires
        old(reservation).wf_with(*old(pool)),
        spec_batches_conform(batches@, left_schema.fields@),
        spec_part_rows(batches@) <= usize::MAX,
        forall|k: int|
            0 <= k < batches@.len() ==> spec_batch_byte_size(&batches@[k]) <= usize::MAX,
    ensures
        final(reservation).wf_with(*final(pool)),
        final(reservation).consumer@ == old(reservation).consumer@,
        final(pool).budget == old(pool).budget,
        final(metrics).input_batches == old(metrics).input_batches,
        final(metrics).input_rows == old(metrics).input_rows,
        final(metrics).output_batches == old(metrics).output_batches,
        final(metrics).output_rows == old(metrics).output_rows,
        old(pool).reserved + spec_part_size(batches@) <= old(pool).budget ==> {
            &&& r matches Ok(b)
            &&& b.wf()
            &&& b.schema.fields@ == left_schema.fields@
            &&& b.spec_num_rows() == (if left_schema.fields@.len() == 0 {
                0int
            } else {
                spec_part_rows(batches@)
            })
            &&& forall|j: int|
                0 <= j < left_schema.fields@.len() ==> #[trigger] b.spec_cols()[j]
                    == spec_concat_col(batches@, j)
            &&& final(pool).reserved == old(pool).reserved + spec_part_size(batches@)
            &&& final(reservation).size == old(reservation).size + spec_part_size(batches@)
            &&& final(metrics).build_input_batches == crate::metrics::spec_sat_add(
                old(metrics).build_input_batches as int,
                batches@.len() as int,
            )
            &&& final(metrics).build_input_rows == crate::metrics::spec_sat_add(
                old(metrics).build_input_rows as int,
                spec_part_rows(batches@),
            )
            &&& final(metrics).build_mem_used == crate::metrics::spec_sat_add(
                old(metrics).build_mem_used as int,
                spec_part_size(batches@),
            )
        },
        old(pool).reserved + spec_part_size(batches@) > old(pool).budget ==> {
            &&& r matches Err(e) && e is ResourcesExhausted
            &&& exists|k: int|
                {
                    &&& 0 <= k < batches@.len()
                    &&& old(pool).reserved + spec_part_size(batches@.take(k)) <= old(pool).budget
                    &&& old(pool).reserved + spec_part_size(#[trigger] batches@.take(k + 1)) > old(
                        pool,
                    ).budget
                    &&& final(pool).reserved == old(pool).reserved + spec_part_size(
                        batches@.take(k),
                    )
                    &&& final(metrics).build_input_batches == crate::metrics::spec_sat_add(
                        old(metrics).build_input_batches as int,
                        k,
                    )
                    &&& final(metrics).build_input_rows == crate::metrics::spec_sat_add(
                        old(metrics).build_input_rows as int,
                        spec_part_rows(batches@.take(k)),
                    )
                    &&& final(metrics).build_mem_used == crate::metrics::spec_sat_add(
                        old(metrics).build_mem_used as int,
                        spec_part_size(batches@.take(k)),
                    )
                }
        },
{
    let mut num_rows: usize = 0;
    let mut k: usize = 0;
    while k < batches.len()
        invariant
            k <= batches@.len(),
            spec_batches_conform(batches@, left_schema.fields@),
            spec_part_rows(batches@) <= usize::MAX,
            forall|kk: int|
                0 <= kk < batches@.len() ==> spec_batch_byte_size(&batches@[kk]) <= usize::MAX,
            reservation.wf_with(*pool),
            reservation.consumer@ == old(reservation).consumer@,
            pool.budget == old(pool).budget,
            pool.reserved == old(pool).reserved + spec_part_size(batches@.take(k as int)),
            reservation.size == old(reservation).size + spec_part_size(batches@.take(k as int)),
            num_rows == spec_part_rows(batches@.take(k as int)),
            metrics.build_input_batches == crate::metrics::spec_sat_add(
                old(metrics).build_input_batches as int,
                k as int,
            ),
            metrics.build_input_rows == crate::metrics::spec_sat_add(
                old(metrics).build_input_rows as int,
                spec_part_rows(batches@.take(k as int)),
            ),
            metrics.build_mem_used == crate::metrics::spec_sat_add(
                old(metrics).build_mem_used as int,
                spec_part_size(batches@.take(k as int)),
            ),
            metrics.input_batches == old(metrics).input_batches,
            metrics.input_rows == old(metrics).input_rows,
            metrics.output_batches == old(metrics).output_batches,
            metrics.output_rows == old(metrics).output_rows,
        decreases batches@.len() - k,
    {
        let b = &batches[k];
        proof {
            assert(batches@.take(k + 1).drop_last() =~= batches@.take(k as int));
            assert(batches@.take(k + 1).last() == batches@[k as int]);
            crate::stats::lemma_part_rows_take_le(batches@, k + 1);
            crate::stats::lemma_part_rows_nonneg(batches@.take(k as int));
            crate::batch::lemma_cols_byte_size_nonneg(batches@[k as int].spec_cols());
            crate::stats::lemma_part_size_nonneg(batches@.take(k as int));
        }
        let batch_size = batch_byte_size(b);
        match reservation.try_grow(pool, batch_size) {
            Ok(()) => {
                proof {
                    crate::metrics::lemma_sat_add_assoc(
                        old(metrics).build_input_batches as int,
                        k as int,
                        1,
                    );
                    crate::metrics::lemma_sat_add_assoc(
                        old(metrics).build_input_rows as int,
                        spec_part_rows(batches@.take(k as int)),
                        b.spec_num_rows(),
                    );
                    crate::metrics::lemma_sat_add_assoc(
                        old(metrics).build_mem_used as int,
                        spec_part_size(batches@.take(k as int)),
                        spec_batch_byte_size(b),
                    );
                }
                metrics.record_build_input(b.num_rows(), batch_size);
            },
            Err(e) => {
                proof {
                    let kk = k as int;
                    assert(old(pool).reserved + spec_part_size(batches@.take(kk)) <= old(
                        pool,
                    ).budget);
                    assert(old(pool).reserved + spec_part_size(batches@.take(kk + 1)) > old(
                        pool,
                    ).budget);
                    crate::stats::lemma_part_size_take_le(batches@, kk + 1);
                    crate::stats::lemma_part_size_nonneg(batches@.take(kk + 1));
                }
                return Err(e);
            },
        }
        num_rows = num_rows + b.num_rows();
        k += 1;
    }
    proof {
        assert(batches@.take(batches@.len() as int) =~= batches@);
    }
    let merged = concat_batches(left_schema, &batches, num_rows);
    Ok(merged)
}

/// `out` expands build row `i` against probe batch `rb`: its leading columns
/// broadcast the build row's cells to the probe batch's row count, and its
/// trailing columns are the probe batch's columns unchanged.
pub open spec fn is_expansion(out: Batch, ld: Batch, i: int, rb: Batch) -> bool {
    &&& out.schema.fields@ == ld.schema.fields@ + rb.schema.fields@
    &&& out.spec_cols().len() == ld.spec_cols().len() + rb.spec_cols().len()
    &&& forall|j: int|
        0 <= j < ld.spec_cols().len() ==> #[trigger] out.spec_cols()[j] == Seq::new(
            rb.spec_num_rows() as nat,
            |r: int| ld.spec_cols()[j][i],
        )
    &&& forall|j: int|
        0 <= j < rb.spec_cols().len() ==> #[trigger] out.spec_cols()[ld.spec_cols().len() + j]
            == rb.spec_cols()[j]
}

/// Row-level reading of an expansion: every output row repeats the build row
/// and then carries the probe row unchanged.
pub proof fn lemma_expansion_rows(out: Batch, ld: Batch, i: int, rb: Batch, r: int)
    requires
        ld.wf(),
        rb.wf(),
        0 <= i < ld.spec_num_rows(),
        is_expansion(out, ld, i, rb),
        0 <= r < rb.spec_num_rows(),
    ensures
        out.spec_row(r) == ld.spec_row(i) + rb.spec_row(r),
{
    assert forall|j: int| 0 <= j < out.spec_cols().len() implies out.spec_row(r)[j] == (
    ld.spec_row(i) + rb.spec_row(r))[j] by {
        if j < ld.spec_cols().len() {
            assert(out.spec_cols()[j] == Seq::new(
                rb.spec_num_rows() as nat,
                |x: int| ld.spec_cols()[j][i],
            ));
        } else {
            let kk = j - ld.spec_cols().len();
            assert(out.spec_cols()[ld.spec_cols().len() + kk] == rb.spec_cols()[kk]);
        }
    }
    assert(out.spec_row(r) =~= ld.spec_row(i) + rb.spec_row(r));
}

/// Builds one output batch: build row `left_index` broadcast to the probe
/// batch's row count as leading columns, concatenated with the probe batch's
/// columns unchanged.
pub fn build_batch(left_index: usize, batch: &Batch, left_data: &Batch, schema: &Schema) -> (out:
    Batch)
    requires
        left_data.wf(),
        batch.wf(),
        left_index < left_data.spec_num_rows(),
        schema.fields@ == left_data.schema.fields@ + batch.schema.fields@,
    ensures
        out.wf(),
        is_expansion(out, *left_data, left_index as int, *batch),
        out.spec_num_rows() == batch.spec_num_rows(),
{
    let n = batch.num_rows();
    let left_cols = left_data.columns.len();
    let mut columns: Vec<Vec<ScalarValue>> = Vec::new();
    let mut j: usize = 0;
    while j < left_cols
        invariant
            j <= left_cols,
            left_cols == left_data.spec_cols().len(),
            left_data.wf(),
            left_index < left_data.spec_num_rows(),
            n == batch.spec_num_rows(),
            columns@.len() == j,
            forall|jj: int|
                0 <= jj < j ==> (#[trigger] columns@[jj])@ == Seq::new(
                    n as nat,
                    |r: int| left_data.spec_cols()[jj][left_index as int],
                ),
        decreases left_cols - j,
    {
        let cell = &left_data.columns[j][left_index];
        let mut col: Vec<ScalarValue> = Vec::new();
        let mut r: usize = 0;
        while r < n
            invariant
                r <= n,
                *cell == left_data.spec_cols()[j as int][left_index as int],
                col@.len() == r,
                forall|rr: int| 0 <= rr < r ==> #[trigger] col@[rr] == *cell,
            decreases n - r,
        {
            col.push(cell.clone());
            r += 1;
        }
        proof {
            assert(col@ =~= Seq::new(n as nat, |rr: int| left_data.spec_cols()[j as int][left_index as int]));
        }
        columns.push(col);
        j += 1;
    }
    let mut j2: usize = 0;
    while j2 < batch.columns.len()
        invariant
            j2 <= batch.spec_cols().len(),
            left_cols == left_data.spec_cols().len(),
            left_data.wf(),
            left_index < left_data.spec_num_rows(),
            n == batch.spec_num_rows(),
            columns@.len() == left_cols + j2,
            forall|jj: int|
                0 <= jj < left_cols ==> (#[trigger] columns@[jj])@ == Seq::new(
                    n as nat,
                    |r: int| left_data.spec_cols()[jj][left_index as int],
                ),
            forall|jj: int|
                0 <= jj < j2 ==> (#[trigger] columns@[left_cols + jj])@ == batch.spec_cols()[jj],
        decreases batch.spec_cols().len() - j2,
    {
        columns.push(clone_cells(&batch.columns[j2]));
        j2 += 1;
    }
    let out = Batch { schema: schema.clone(), columns };
    proof {
        assert(out.spec_cols() =~= columns@.map_values(|c: Vec<ScalarValue>| c@));
        assert(out.spec_cols().len() == left_cols + batch.spec_cols().len());
        assert(left_data.spec_cols().len() > 0) by {
            assert(left_data.spec_num_rows() > 0);
        }
        assert(out.spec_num_rows() == n) by {
            assert(out.spec_cols()[0].len() == n);
        }
        assert forall|jj: int, ii: int|
            0 <= jj < out.spec_cols().len() && 0 <= ii < out.spec_cols()[jj].len()
            implies crate::schema::cell_matches(
            #[trigger] out.spec_cols()[jj][ii],
            out.schema.fields@[jj].data_type,
        ) by {
            if jj < left_cols {
                assert(out.spec_cols()[jj][ii] == left_data.spec_cols()[jj][left_index as int]);
                assert(out.schema.fields@[jj] == left_data.schema.fields@[jj]);
            } else {
                let kk = jj - left_cols;
                assert(columns@[left_cols + kk]@ == batch.spec_cols()[kk]);
                assert(out.spec_cols()[jj][ii] == batch.spec_cols()[kk][ii]);
                assert(out.schema.fields@[jj] == batch.schema.fields@[kk]);
            }
        }
        assert forall|jj: int| 0 <= jj < out.spec_cols().len() implies (#[trigger] out.spec_cols()[jj]).len()
            == out.spec_num_rows() by {
            if jj < left_cols {
            } else {
                let kk = jj - left_cols;
                assert(columns@[left_cols + kk]@ == batch.spec_cols()[kk]);
                assert(out.spec_cols()[jj] == batch.spec_cols()[kk]);
            }
        }
    }
    out
}

/// What one cooperative step of a partition's stream decides.
#[derive(Debug)]
pub enum ReplayStep {
    /// Hand this output batch to the consumer.
    Emit(Batch),
    /// The current probe batch is exhausted: pull the next one.
    NeedRight,
    /// The partition's stream is complete.
    Finished,
}

/// The per-partition streaming state machine: the shared build value once it
/// resolved, the build-row cursor, and the probe batch being replayed. All
/// mutable cursor state lives here, never in call-stack locals.
#[derive(Debug)]
pub struct CrossJoinStream {
    /// The join's output schema: build fields, then probe fields.
    pub schema: Schema,
    /// The build side, once the shared computation resolved.
    pub left_data: Option<Batch>,
    /// The next build row to expand against the current probe batch.
    pub left_index: usize,
    /// The probe batch currently being replayed against remaining build rows.
    pub right_batch: Option<Batch>,
    /// The partition's metrics sink.
    pub join_metrics: BuildProbeJoinMetrics,
}

impl CrossJoinStream {
    /// Well-formedness of the cursor state.
    pub open spec fn wf(&self) -> bool {
        &&& (self.left_data matches Some(ld) ==> ld.wf() && self.left_index
            <= ld.spec_num_rows())
        &&& (self.left_data is None ==> self.left_index == 0 && self.right_batch is None)
        &&& (self.right_batch matches Some(rb) ==> rb.wf() && (self.left_data matches Some(ld)
            && self.schema.fields@ == ld.schema.fields@ + rb.schema.fields@))
        &&& (self.left_index > 0 ==> self.right_batch is Some)
    }

    /// A fresh stream awaiting the shared build value.
    pub fn new(schema: Schema, join_metrics: BuildProbeJoinMetrics) -> (s: CrossJoinStream)
        ensures
            s.wf(),
            s.schema.fields@ == schema.fields@,
            s.left_data is None,
            s.left_index == 0,
            s.right_batch is None,
            s.join_metrics == join_metrics,
    {
        CrossJoinStream { schema, left_data: None, left_index: 0, right_batch: None, join_metrics }
    }

    /// The schema of every batch the stream yields.
    pub fn schema(&self) -> (s: &Schema)
        ensures
            s == &self.schema,
    {
        &self.schema
    }

    /// The shared build value resolved: store it.
    pub fn on_build_ready(&mut self, left: Batch)
        requires
            old(self).wf(),
            old(self).left_data is None,
            left.wf(),
        ensures
            final(self).wf(),
            *final(self) == (CrossJoinStream { left_data: Some(left), ..*old(self) }),
    {
        self.left_data = Some(left);
    }

    /// One cooperative step after the build side is available: finish if the
    /// build side is empty, replay the current probe batch against the next
    /// build row, or ask for the next probe batch.
    pub fn next_step(&mut self) -> (step: ReplayStep)
        requires
            old(self).wf(),
            old(self).left_data is Some,
        ensures
            final(self).wf(),
            final(self).schema == old(self).schema,
            final(self).left_data == old(self).left_data,
            final(self).right_batch == old(self).right_batch,
            old(self).left_data->Some_0.spec_num_rows() == 0 ==> (step is Finished && *final(self)
                == *old(self)),
            (old(self).left_data->Some_0.spec_num_rows() > 0 && 0 < old(self).left_index < old(
                self,
            ).left_data->Some_0.spec_num_rows()) ==> {
                &&& step matches ReplayStep::Emit(b)
                &&& b.wf()
                &&& is_expansion(
                    b,
                    old(self).left_data->Some_0,
                    old(self).left_index as int,
                    old(self).right_batch->Some_0,
                )
                &&& final(self).left_index == old(self).left_index + 1
                &&& crate::metrics::spec_probe_output_update(
                    old(self).join_metrics,
                    final(self).join_metrics,
                    old(self).right_batch->Some_0.spec_num_rows(),
                    false,
                )
            },
            (old(self).left_data->Some_0.spec_num_rows() > 0 && (old(self).left_index == 0 || old(
                self,
            ).left_index == old(self).left_data->Some_0.spec_num_rows())) ==> (step
                is NeedRight && final(self).left_index == 0 && final(self).join_metrics == old(
                self,
            ).join_metrics),
    {
        let rows = match &self.left_data {
            Some(ld) => ld.num_rows(),
            None => 0,
        };
        if rows == 0 {
            return ReplayStep::Finished;
        }
        if self.left_index > 0 && self.left_index < rows {
            let out = match (&self.left_data, &self.right_batch) {
                (Some(ld), Some(rb)) => build_batch(self.left_index, rb, ld, &self.schema),
                _ => unreached(),
            };
            let out_rows = out.num_rows();
            self.join_metrics.record_probe_rows(out_rows);
            self.join_metrics.record_output(out_rows);
            self.left_index = self.left_index + 1;
            return ReplayStep::Emit(out);
        }
        self.left_index = 0;
        ReplayStep::NeedRight
    }

    /// The next probe batch arrived: emit its expansion against build row 0,
    /// latch it for replay, and advance the build-row cursor.
    pub fn on_right_batch(&mut self, batch: Batch) -> (out: Batch)
        requires
            old(self).wf(),
            old(self).left_data matches Some(ld) && ld.spec_num_rows() > 0,
            old(self).left_index == 0,
            batch.wf(),
            old(self).schema.fields@ == old(self).left_data->Some_0.schema.fields@
                + batch.schema.fields@,
        ensures
            final(self).wf(),
            final(self).schema == old(self).schema,
            final(self).left_data == old(self).left_data,
            final(self).left_index == 1,
            final(self).right_batch == Some(batch),
            out.wf(),
            is_expansion(out, old(self).left_data->Some_0, 0, batch),
            out.spec_num_rows() == batch.spec_num_rows(),
            crate::metrics::spec_probe_output_update(
                old(self).join_metrics,
                final(self).join_metrics,
                batch.spec_num_rows(),
                true,
            ),
    {
        let out = match &self.left_data {
            Some(ld) => build_batch(0, &batch, ld, &self.schema),
            None => unreached(),
        };
        let rows = batch.num_rows();
        self.join_metrics.record_probe_input(rows);
        self.join_metrics.record_output(out.num_rows());
        self.left_index = 1;
        self.right_batch = Some(batch);
        out
    }
}

/// The position of the output batch for probe batch `t` and build row `i`
/// under the join's emission order: probe batches outer, in arrival order;
/// build rows inner, in build-side row order.
pub open spec fn emission_index(m: int, t: int, i: int) -> int {
    t * m + i
}

/// Emission positions are non-negative and bounded by the total emission
/// count.
proof fn lemma_emission_index_bound(m: int, t: int, i: int, n: int)
    requires
        m > 0,
        0 <= t < n,
        0 <= i < m,
    ensures
        0 <= emission_index(m, t, i) < n * m,
{
    assert(0 <= t * m + i < n * m) by (nonlinear_arith)
        requires
            m > 0,
            0 <= t < n,
            0 <= i < m,
    ;
}

/// Emission positions are distinct across distinct (probe batch, build row)
/// pairs.
proof fn lemma_emission_index_inj(m: int, t: int, i: int, s: int, j: int)
    requires
        m > 0,
        0 <= t,
        0 <= s,
        0 <= i < m,
        0 <= j < m,
        emission_index(m, t, i) == emission_index(m, s, j),
    ensures
        t == s,
        i == j,
{
    assert(t * m + i == s * m + j ==> t == s && i == j) by (nonlinear_arith)
        requires
            m > 0,
            0 <= t,
            0 <= s,
            0 <= i < m,
            0 <= j < m,
    ;
}

/// The output of a cross join of build side `ld` against probe batches
/// `rights`, in emission order: empty if the build side is empty; otherwise
/// one batch per probe batch and build row, each expanding that build row
/// against that probe batch.
pub open spec fn spec_cross_output(ld: Batch, rights: Seq<Batch>, out: Seq<Batch>) -> bool {
    let m = ld.spec_num_rows();
    &&& out.len() == (if m == 0 {
        0int
    } else {
        rights.len() * m
    })
    &&& forall|t: int, i: int|
        0 <= t < rights.len() && 0 <= i < m ==> {
            let b = out[#[trigger] emission_index(m, t, i)];
            &&& b.wf()
            &&& b.schema.fields@ == ld.schema.fields@ + rights[t].schema.fields@
            &&& b.spec_num_rows() == rights[t].spec_num_rows()
            &&& forall|r: int|
                0 <= r < b.spec_num_rows() ==> #[trigger] b.spec_row(r) == ld.spec_row(i)
                    + rights[t].spec_row(r)
        }
}

/// Runs one partition's cross join to completion over materialized probe
/// batches, driving the streaming state machine: for each probe batch in
/// arrival order, for each build row in build-side row order, emit one output
/// batch; an empty build side completes immediately.
pub fn cross_join_batches(left: &Batch, rights: &Vec<Batch>, schema: &Schema) -> (out: Vec<Batch>)
    requires
        left.wf(),
        forall|k: int| 0 <= k < rights@.len() ==> (#[trigger] rights@[k]).wf(),
        forall|k: int|
            0 <= k < rights@.len() ==> schema.fields@ == left.schema.fields@ + (
            #[trigger] rights@[k]).schema.fields@,
    ensures
        spec_cross_output(*left, rights@, out@),
{
    let ghost m = left.spec_num_rows();
    let mut stream = CrossJoinStream::new(schema.clone(), BuildProbeJoinMetrics::new());
    stream.on_build_ready(left.clone());
    let mut out: Vec<Batch> = Vec::new();
    if left.num_rows() == 0 {
        return out;
    }
    let mut ri: usize = 0;
    loop
        invariant
            stream.wf(),
            m == left.spec_num_rows(),
            m > 0,
            left.wf(),
            forall|k: int| 0 <= k < rights@.len() ==> (#[trigger] rights@[k]).wf(),
            forall|k: int|
                0 <= k < rights@.len() ==> schema.fields@ == left.schema.fields@ + (
                #[trigger] rights@[k]).schema.fields@,
            stream.left_data matches Some(ld) && ld.schema.fields@ == left.schema.fields@
                && ld.spec_cols() == left.spec_cols(),
            stream.schema.fields@ == schema.fields@,
            ri <= rights@.len(),
            stream.left_index <= m,
            stream.left_index == 0 ==> out@.len() == ri * m,
            stream.left_index > 0 ==> 1 <= ri && out@.len() == (ri - 1) * m + stream.left_index
                && (stream.right_batch matches Some(rb) && rb.spec_cols() == rights@[ri
                - 1].spec_cols() && rb.schema.fields@ == rights@[ri - 1].schema.fields@),
            forall|t: int, i: int|
                0 <= t < rights@.len() && 0 <= i < m && emission_index(m, t, i) < out@.len()
                    ==> spec_emitted_ok(out@[#[trigger] emission_index(m, t, i)], *left, rights@, t, i),
        ensures
            out@.len() == rights@.len() * m,
            forall|t: int, i: int|
                0 <= t < rights@.len() && 0 <= i < m ==> spec_emitted_ok(
                    out@[#[trigger] emission_index(m, t, i)],
                    *left,
                    rights@,
                    t,
                    i,
                ),
        decreases rights@.len() - ri, m - stream.left_index,
    {
        let ghost li = stream.left_index as int;
        let ghost pre_len = out@.len() as int;
        match stream.next_step() {
            ReplayStep::Emit(b) => {
                proof {
                    let ld = stream.left_data->Some_0;
                    let rb = stream.right_batch->Some_0;
                    assert(is_expansion(b, ld, li, rb));
                    lemma_transfer_expansion(b, ld, *left, li, rb, rights@[ri - 1]);
                    assert(emission_index(m, ri - 1, li) == pre_len);
                }
                let ghost pre_out = out@;
                out.push(b);
                proof {
                    assert(spec_emitted_ok(out@[emission_index(m, ri - 1, li)], *left, rights@, ri - 1, li));
                    assert forall|t: int, i: int|
                        0 <= t < rights@.len() && 0 <= i < m && emission_index(m, t, i)
                            < out@.len() implies spec_emitted_ok(
                        out@[#[trigger] emission_index(m, t, i)],
                        *left,
                        rights@,
                        t,
                        i,
                    ) by {
                        lemma_emission_index_bound(m, t, i, rights@.len() as int);
                        if emission_index(m, t, i) < pre_len {
                            assert(out@[emission_index(m, t, i)] == pre_out[emission_index(
                                m,
                                t,
                                i,
                            )]);
                        } else {
                            lemma_emission_index_inj(m, t, i, ri - 1, li);
                        }
                    }
                }
            },
            ReplayStep::NeedRight => {
                proof {
                    if li > 0 {
                        assert((ri - 1) * m + m == ri * m) by (nonlinear_arith);
                    }
                }
                if ri < rights.len() {
                    let batch = rights[ri].clone();
                    let first = stream.on_right_batch(batch);
                    proof {
                        let ld = stream.left_data->Some_0;
                        assert(is_expansion(first, ld, 0, stream.right_batch->Some_0));
                        lemma_transfer_expansion(
                            first,
                            ld,
                            *left,
                            0,
                            stream.right_batch->Some_0,
                            rights@[ri as int],
                        );
                        assert(emission_index(m, ri as int, 0) == ri * m);
                    }
                    let ghost pre_out = out@;
                    let ghost mid_len = out@.len() as int;
                    out.push(first);
                    proof {
                        assert(spec_emitted_ok(out@[emission_index(m, ri as int, 0)], *left, rights@, ri as int, 0));
                        assert forall|t: int, i: int|
                            0 <= t < rights@.len() && 0 <= i < m && emission_index(m, t, i)
                                < out@.len() implies spec_emitted_ok(
                            out@[#[trigger] emission_index(m, t, i)],
                            *left,
                            rights@,
                            t,
                            i,
                        ) by {
                            lemma_emission_index_bound(m, t, i, rights@.len() as int);
                            if emission_index(m, t, i) < mid_len {
                                assert(out@[emission_index(m, t, i)] == pre_out[emission_index(
                                    m,
                                    t,
                                    i,
                                )]);
                            } else {
                                lemma_emission_index_inj(m, t, i, ri as int, 0);
                            }
                        }
                    }
                    ri += 1;
                } else {
                    proof {
                        assert forall|t: int, i: int| 0 <= t < rights@.len() && 0 <= i < m
                            implies emission_index(m, t, i) < rights@.len() * m by {
                            assert(t * m + i < rights@.len() * m) by (nonlinear_arith)
                                requires
                                    0 <= t < rights@.len(),
                                    0 <= i < m,
                            ;
                        }
                    }
                    break ;
                }
            },
            ReplayStep::Finished => {
                // The build side was checked non-empty before the loop, so
                // the state machine can never finish here.
                proof {
                    assert(false);
                }
                break ;
            },
        }
    }
    proof {
        assert forall|t: int, i: int|
            0 <= t < rights@.len() && 0 <= i < m implies spec_emitted_ok(
            out@[#[trigger] emission_index(m, t, i)],
            *left,
            rights@,
            t,
            i,
        ) by {}
    }
    out
}

/// What holds of the output batch emitted for probe batch `t` and build row
/// `i`.
pub open spec fn spec_emitted_ok(b: Batch, left: Batch, rights: Seq<Batch>, t: int, i: int) -> bool {
    &&& b.wf()
    &&& b.schema.fields@ == left.schema.fields@ + rights[t].schema.fields@
    &&& b.spec_num_rows() == rights[t].spec_num_rows()
    &&& forall|r: int|
        0 <= r < b.spec_num_rows() ==> #[trigger] b.spec_row(r) == left.spec_row(i)
            + rights[t].spec_row(r)
}

/// An expansion stated against view-equal copies of the build side and probe
/// batch holds of the originals, row by row.
proof fn lemma_transfer_expansion(b: Batch, ld: Batch, left: Batch, i: int, rb: Batch, right: Batch)
    requires
        ld.wf(),
        rb.wf(),
        0 <= i < ld.spec_num_rows(),
        is_expansion(b, ld, i, rb),
        b.wf(),
        ld.schema.fields@ == left.schema.fields@,
        ld.spec_cols() == left.spec_cols(),
        rb.schema.fields@ == right.schema.fields@,
        rb.spec_cols() == right.spec_cols(),
    ensures
        b.schema.fields@ == left.schema.fields@ + right.schema.fields@,
        b.spec_num_rows() == right.spec_num_rows(),
        forall|r: int|
            0 <= r < b.spec_num_rows() ==> #[trigger] b.spec_row(r) == left.spec_row(i)
                + right.spec_row(r),
{
    assert(ld.spec_num_rows() == left.spec_num_rows());
    assert(rb.spec_num_rows() == right.spec_num_rows());
    assert(b.spec_num_rows() == rb.spec_num_rows()) by {
        assert(ld.spec_cols().len() > 0);
        assert(b.spec_cols()[0].len() == rb.spec_num_rows());
    }
    assert forall|r: int| 0 <= r < b.spec_num_rows() implies #[trigger] b.spec_row(r)
        == left.spec_row(i) + right.spec_row(r) by {
        lemma_expansion_rows(b, ld, i, rb, r);
        assert(ld.spec_row(i) =~= left.spec_row(i));
        assert(rb.spec_row(r) =~= right.spec_row(r));
    }
}

/// The cross join operator: combines all values of the left (build) side with
/// all values of the right (probe) side. The build side is materialized in
/// memory once, accounted against a reservation initialized lazily by the
/// first partition to execute, and shared by every partition.
#[derive(Debug)]
pub struct CrossJoinExec {
    /// The left (build) side, fully loaded into memory before probing.
    pub left: ChildPlan,
    /// The right (probe) side, streamed batch by batch.
    pub right: ChildPlan,
    /// The output schema: left fields in order, then right fields in order.
    pub schema: Schema,
    /// The shared once-computed build value.
    pub left_fut: SharedOnce<Batch>,
    /// The operator-level memory reservation, initialized by the first
    /// partition that begins executing and reused thereafter.
    pub reservation: Option<MemoryReservation>,
}

impl CrossJoinExec {
    /// Creates a cross join of the two children; the output schema is the
    /// left fields followed by the right fields.
    pub fn new(left: ChildPlan, right: ChildPlan) -> (e: CrossJoinExec)
        ensures
            e.schema.fields@ == left.schema.fields@ + right.schema.fields@,
            e.left == left,
            e.right == right,
            e.left_fut.state is NotStarted,
            e.reservation is None,
    {
        let schema = Schema::concat(&left.schema, &right.schema);
        CrossJoinExec { left, right, schema, left_fut: SharedOnce::new(), reservation: None }
    }

    /// The left (build) side.
    pub fn left(&self) -> (p: &ChildPlan)
        ensures
            p == &self.left,
    {
        &self.left
    }

    /// The right (probe) side.
    pub fn right(&self) -> (p: &ChildPlan)
        ensures
            p == &self.right,
    {
        &self.right
    }

    /// The schema once the join is applied.
    pub fn schema(&self) -> (s: &Schema)
        ensures
            s == &self.schema,
    {
        &self.schema
    }

    /// Whether this operator's output is unbounded, given whether its
    /// children's are. The build side must be fully materializable, so an
    /// unbounded input is a plan error, never retried.
    pub fn unbounded_output(&self, children: &Vec<bool>) -> (r: Result<bool, ExecError>)
        requires
            children@.len() >= 2,
        ensures
            (children@[0] || children@[1]) <==> r is Err,
            r matches Err(e) ==> e is Plan,
            r matches Ok(b) ==> b == false,
    {
        if children[0] || children[1] {
            Err(
                ExecError::Plan(
                    "Cross Join Error: Cross join is not supported for the unbounded inputs."
                        .to_owned(),
                ),
            )
        } else {
            Ok(false)
        }
    }

    /// The input distributions the operator requires: the left side merged to
    /// a single partition, the right side unconstrained.
    pub fn required_input_distribution(&self) -> (r: Vec<Distribution>)
        ensures
            r@.len() == 2,
            r@[0] is SinglePartition,
            r@[1] is UnspecifiedDistribution,
    {
        let mut r: Vec<Distribution> = Vec::new();
        r.push(Distribution::SinglePartition);
        r.push(Distribution::UnspecifiedDistribution);
        r
    }

    /// The output partitioning mirrors the right side's, with hash column
    /// indices shifted past the prefixed left columns.
    pub fn output_partitioning(&self) -> (r: Partitioning)
        requires
            self.right.partitioning matches Partitioning::Hash(cols, _) ==> forall|k: int|
                0 <= k < cols@.len() ==> #[trigger] cols@[k] + self.left.schema.fields@.len()
                    <= usize::MAX,
        ensures
            self.right.partitioning matches Partitioning::RoundRobinBatch(n) ==> r
                == Partitioning::RoundRobinBatch(n),
            self.right.partitioning matches Partitioning::UnknownPartitioning(n) ==> r
                == Partitioning::UnknownPartitioning(n),
            self.right.partitioning matches Partitioning::Hash(cols, n) ==> (r matches
                Partitioning::Hash(cols2, n2) && n2 == n && cols2@.len() == cols@.len() && (
            forall|k: int|
                0 <= k < cols@.len() ==> #[trigger] cols2@[k] == cols@[k]
                    + self.left.schema.fields@.len())),
    {
        let left_columns_len = self.left.schema.len();
        adjust_right_output_partitioning(&self.right.partitioning, left_columns_len)
    }

    /// The operator declares no output ordering.
    pub fn output_ordering(&self) -> (r: Option<Vec<SortKey>>)
        ensures
            r is None,
    {
        None
    }

    /// The operator's output statistics: the cartesian-product estimate
    /// derived from the children's statistics.
    pub fn statistics(&self) -> (r: Statistics)
        requires
            spec_product_fits(
                self.left.statistics,
                self.left.schema.fields@.len() as int,
                self.right.statistics,
                self.right.schema.fields@.len() as int,
            ),
        ensures
            r.is_exact == (self.left.statistics.is_exact && self.right.statistics.is_exact),
            r.num_rows == spec_mul_opt(self.left.statistics.num_rows, self.right.statistics.num_rows),
            r.total_byte_size == spec_twice_mul_opt(
                self.left.statistics.total_byte_size,
                self.right.statistics.total_byte_size,
            ),
            r.column_statistics is None <==> (self.left.statistics.column_statistics is None
                && self.right.statistics.column_statistics is None),
            r.column_statistics matches Some(v) ==> v@ == spec_scaled_side(
                spec_side_cols(
                    self.left.statistics.column_statistics,
                    self.left.schema.fields@.len() as int,
                ),
                self.right.statistics.num_rows,
            ) + spec_scaled_side(
                spec_side_cols(
                    self.right.statistics.column_statistics,
                    self.right.schema.fields@.len() as int,
                ),
                self.left.statistics.num_rows,
            ),
    {
        stats_cartesian_product(
            &self.left.statistics,
            self.left.schema.len(),
            &self.right.statistics,
            self.right.schema.len(),
        )
    }

    /// Begins executing one output partition: initializes the operator-level
    /// memory reservation exactly once — the first partition to execute
    /// creates it, every later one reuses it — and hands back a fresh
    /// per-partition stream awaiting the shared build value.
    pub fn execute(&mut self, _partition: usize) -> (s: CrossJoinStream)
        ensures
            old(self).reservation is None ==> (final(self).reservation matches Some(res)
                && res.size == 0 && res.consumer@ == "CrossJoinExec"@),
            old(self).reservation matches Some(r0) ==> final(self).reservation == Some(r0),
            final(self).left == old(self).left,
            final(self).right == old(self).right,
            final(self).schema == old(self).schema,
            final(self).left_fut == old(self).left_fut,
            s.wf(),
            s.schema.fields@ == old(self).schema.fields@,
            s.left_data is None,
            s.left_index == 0,
            s.right_batch is None,
            s.join_metrics == crate::metrics::spec_zero_metrics(),
    {
        if self.reservation.is_none() {
            self.reservation = Some(MemoryReservation::new("CrossJoinExec"));
        }
        CrossJoinStream::new(self.schema.clone(), BuildProbeJoinMetrics::new())
    }
}

/// The rows of one batch, in order.
pub open spec fn spec_batch_rows(b: Batch) -> Seq<Seq<ScalarValue>> {
    Seq::new(b.spec_num_rows() as nat, |r: int| b.spec_row(r))
}

/// All rows of a sequence of batches, flattened in emission order.
pub open spec fn spec_all_rows(bs: Seq<Batch>) -> Seq<Seq<ScalarValue>>
    decreases bs.len(),
{
    if bs.len() == 0 {
        Seq::empty()
    } else {
        spec_all_rows(bs.drop_last()) + spec_batch_rows(bs.last())
    }
}

/// The first `i` output batches of a single-probe-batch cross join hold
/// exactly `i` times the probe batch's rows, laid out with the build row
/// outermost.
proof fn lemma_all_rows_prefix(left: Batch, right: Batch, out: Seq<Batch>, i: int)
    requires
        left.wf(),
        right.wf(),
        spec_cross_output(left, seq![right], out),
        left.spec_num_rows() > 0,
        0 <= i <= out.len(),
    ensures
        spec_all_rows(out.take(i)).len() == i * right.spec_num_rows(),
        forall|k: int|
            0 <= k < i * right.spec_num_rows() ==> #[trigger] spec_all_rows(out.take(i))[k]
                == left.spec_row(k / right.spec_num_rows()) + right.spec_row(
                k % right.spec_num_rows(),
            ),
    decreases i,
{
    let m = left.spec_num_rows();
    let n = right.spec_num_rows();
    if i == 0 {
        assert(out.take(0) =~= Seq::<Batch>::empty());
        assert(0 * n == 0);
    } else {
        lemma_all_rows_prefix(left, right, out, i - 1);
        assert(out.take(i).drop_last() =~= out.take(i - 1));
        assert(out.take(i).last() == out[i - 1]);
        assert(seq![right].len() == 1);
        assert(seq![right][0] == right);
        assert(out.len() == 1 * m);
        assert(0 <= i - 1 < m);
        assert(emission_index(m, 0, i - 1) == i - 1);
        let b = out[emission_index(m, 0, i - 1)];
        assert(b.spec_num_rows() == n);
        assert((i - 1) * n + n == i * n) by (nonlinear_arith);
        assert(spec_all_rows(out.take(i)).len() == i * n);
        assert forall|k: int|
            0 <= k < i * n implies #[trigger] spec_all_rows(out.take(i))[k] == left.spec_row(
            k / n,
        ) + right.spec_row(k % n) by {
            if k < (i - 1) * n {
                assert(spec_all_rows(out.take(i))[k] == spec_all_rows(out.take(i - 1))[k]);
            } else {
                let r = k - (i - 1) * n;
                assert(0 <= r < n);
                assert(spec_all_rows(out.take(i))[k] == spec_batch_rows(b)[r]);
                assert(spec_batch_rows(b)[r] == b.spec_row(r));
                assert(b.spec_row(r) == left.spec_row(i - 1) + right.spec_row(r));
                assert(k == (i - 1) * n + r);
                vstd::arithmetic::div_mod::lemma_fundamental_div_mod_converse(k, n, i - 1, r);
            }
        }
    }
}

/// A cross join of an M-row build batch and an N-row probe batch emits
/// exactly M×N rows; under the emission order — probe batch outer, build row
/// inner — output row `k` carries build row `k / N` followed by probe row
/// `k % N`. The join itself is a total function of its inputs: it completes
/// without error.
pub proof fn lemma_cross_join_emits_product(left: Batch, right: Batch, out: Seq<Batch>)
    requires
        left.wf(),
        right.wf(),
        spec_cross_output(left, seq![right], out),
    ensures
        spec_all_rows(out).len() == left.spec_num_rows() * right.spec_num_rows(),
        forall|k: int|
            0 <= k < spec_all_rows(out).len() ==> #[trigger] spec_all_rows(out)[k]
                == left.spec_row(k / right.spec_num_rows()) + right.spec_row(
                k % right.spec_num_rows(),
            ),
{
    let m = left.spec_num_rows();
    let n = right.spec_num_rows();
    if m == 0 {
        assert(out.len() == 0);
        assert(m * n == 0) by (nonlinear_arith)
            requires
                m == 0,
        ;
    } else {
        assert(seq![right].len() == 1);
        assert(out.len() == 1 * m);
        lemma_all_rows_prefix(left, right, out, out.len() as int);
        assert(out.take(out.len() as int) =~= out);
        assert(out.len() * n == m * n) by (nonlinear_arith)
            requires
                out.len() == 1 * m,
        ;
    }
}

/// If either side of the join is empty (zero rows), the join emits zero rows
/// — and, being a total function of its inputs, completes without error.
pub proof fn lemma_cross_join_empty_side(left: Batch, right: Batch, out: Seq<Batch>)
    requires
        left.wf(),
        right.wf(),
        spec_cross_output(left, seq![right], out),
        left.spec_num_rows() == 0 || right.spec_num_rows() == 0,
    ensures
        spec_all_rows(out).len() == 0,
{
    lemma_cross_join_emits_product(left, right, out);
    assert(left.spec_num_rows() * right.spec_num_rows() == 0) by (nonlinear_arith)
        requires
            left.spec_num_rows() == 0 || right.spec_num_rows() == 0,
    ;
}

} // verus!
