//! Columnar batches: immutable sets of equal-length typed columns sharing one
//! schema. Operators never mutate a batch; they only create new batches by
//! selection, replication and concatenation.

use vstd::prelude::*;
use crate::error::ExecError;
use crate::scalar::ScalarValue;
use crate::schema::{cell_matches, check_cell_matches, Schema};

verus! {

/// A fixed set of equal-length typed columns plus the schema they conform to.
#[derive(Debug)]
pub struct Batch {
    /// The schema every column conforms to.
    pub schema: Schema,
    /// The columns, in schema order; all of equal length.
    pub columns: Vec<Vec<ScalarValue>>,
}

impl Batch {
    /// The columns as mathematical sequences of cells.
    pub open spec fn spec_cols(&self) -> Seq<Seq<ScalarValue>> {
        self.columns@.map_values(|c: Vec<ScalarValue>| c@)
    }

    /// The number of rows: the common length of the columns (0 when the batch
    /// has no columns).
    pub open spec fn spec_num_rows(&self) -> int {
        if self.columns@.len() == 0 {
            0
        } else {
            self.spec_cols()[0].len() as int
        }
    }

    /// Row `i`: the `i`-th cell of every column, in column order.
    pub open spec fn spec_row(&self, i: int) -> Seq<ScalarValue> {
        Seq::new(self.spec_cols().len(), |j: int| self.spec_cols()[j][i])
    }

    /// Well-formedness: one column per schema field, all columns of equal
    /// length, and every cell of the type its field declares.
    pub open spec fn wf(&self) -> bool {
        &&& self.columns@.len() == self.schema.fields@.len()
        &&& forall|j: int|
            0 <= j < self.spec_cols().len() ==> (#[trigger] self.spec_cols()[j]).len()
                == self.spec_num_rows()
        &&& forall|j: int, i: int|
            0 <= j < self.spec_cols().len() && 0 <= i < self.spec_cols()[j].len()
                ==> cell_matches(
                #[trigger] self.spec_cols()[j][i],
                self.schema.fields@[j].data_type,
            )
    }

    /// Whether the batch carries exactly the given schema.
    pub open spec fn conforms_to(&self, fields: Seq<crate::schema::Field>) -> bool {
        self.schema.fields@ == fields
    }

    /// Builds a batch from a schema and columns, checking that the columns
    /// conform: one column per field, equal lengths, and cell types matching
    /// the fields. Returns an execution error naming the first violated
    /// condition otherwise.
    pub fn try_new(schema: Schema, columns: Vec<Vec<ScalarValue>>) -> (r: Result<Batch, ExecError>)
        ensures
            r is Ok <==> spec_columns_conform(schema, columns@),
            r matches Ok(b) ==> b.schema.fields@ == schema.fields@ && b.spec_cols()
                == columns@.map_values(|c: Vec<ScalarValue>| c@) && b.wf(),
            r is Err ==> r->Err_0 is Execution,
    {
        if columns.len() != schema.fields.len() {
            return Err(
                ExecError::Execution(
                    "number of columns must match number of schema fields".to_owned(),
                ),
            );
        }
        let num_rows: usize = if columns.len() == 0 {
            0
        } else {
            columns[0].len()
        };
        let mut j: usize = 0;
        while j < columns.len()
            invariant
                j <= columns@.len(),
                columns@.len() == schema.fields@.len(),
                columns@.len() > 0 ==> num_rows == columns@[0]@.len(),
                columns@.len() == 0 ==> num_rows == 0,
                forall|jj: int|
                    0 <= jj < j ==> (#[trigger] columns@[jj]@).len() == num_rows,
                forall|jj: int, i: int|
                    0 <= jj < j && 0 <= i < columns@[jj]@.len() ==> cell_matches(
                        #[trigger] columns@[jj]@[i],
                        schema.fields@[jj].data_type,
                    ),
            decreases columns@.len() - j,
        {
            if columns[j].len() != num_rows {
                return Err(ExecError::Execution("all columns must have the same length".to_owned()));
            }
            let col = &columns[j];
            let dt = schema.fields[j].data_type;
            let mut i: usize = 0;
            while i < col.len()
                invariant
                    i <= col@.len(),
                    col@ == columns@[j as int]@,
                    j < columns@.len(),
                    columns@.len() == schema.fields@.len(),
                    dt == schema.fields@[j as int].data_type,
                    forall|ii: int|
                        0 <= ii < i ==> cell_matches(#[trigger] col@[ii], dt),
                decreases col@.len() - i,
            {
                if !check_cell_matches(&col[i], dt) {
                    return Err(
                        ExecError::Execution(
                            "column cell type must match its schema field".to_owned(),
                        ),
                    );
                }
                i += 1;
            }
            j += 1;
        }
        let b = Batch { schema, columns };
        proof {
            assert(b.spec_cols() =~= columns@.map_values(|c: Vec<ScalarValue>| c@));
        }
        Ok(b)
    }

    /// The number of rows.
    pub fn num_rows(&self) -> (n: usize)
        ensures
            n == self.spec_num_rows(),
    {
        if self.columns.len() == 0 {
            0
        } else {
            self.columns[0].len()
        }
    }

    /// The number of columns.
    pub fn num_columns(&self) -> (n: usize)
        ensures
            n == self.spec_cols().len(),
    {
        self.columns.len()
    }

    /// Column `i`.
    pub fn column(&self, i: usize) -> (c: &Vec<ScalarValue>)
        requires
            i < self.spec_cols().len(),
        ensures
            c@ == self.spec_cols()[i as int],
    {
        &self.columns[i]
    }
}

/// Whether columns conform to a schema: one column per field, equal lengths,
/// and cell types matching the fields.
pub open spec fn spec_columns_conform(schema: Schema, columns: Seq<Vec<ScalarValue>>) -> bool {
    &&& columns.len() == schema.fields@.len()
    &&& forall|j: int|
        0 <= j < columns.len() ==> (#[trigger] columns[j]@).len() == (if columns.len() == 0 {
            0int
        } else {
            columns[0]@.len() as int
        })
    &&& forall|j: int, i: int|
        0 <= j < columns.len() && 0 <= i < columns[j]@.len() ==> cell_matches(
            #[trigger] columns[j]@[i],
            schema.fields@[j].data_type,
        )
}

/// Copies a column; the copy holds equal cells.
pub fn clone_cells(col: &Vec<ScalarValue>) -> (r: Vec<ScalarValue>)
    ensures
        r@ == col@,
{
    let mut r: Vec<ScalarValue> = Vec::new();
    let mut i: usize = 0;
    while i < col.len()
        invariant
            i <= col@.len(),
            r@ == col@.take(i as int),
        decreases col@.len() - i,
    {
        r.push(col[i].clone());
        proof {
            assert(r@ =~= col@.take(i + 1 as int));
        }
        i += 1;
    }
    proof {
        assert(r@ =~= col@);
    }
    r
}

impl Clone for Batch {
    /// A cloned batch has the same schema and the same cells.
    fn clone(&self) -> (res: Self)
        ensures
            res.schema.fields@ == self.schema.fields@,
            res.spec_cols() == self.spec_cols(),
    {
        let mut columns: Vec<Vec<ScalarValue>> = Vec::new();
        let mut j: usize = 0;
        while j < self.columns.len()
            invariant
                j <= self.columns@.len(),
                columns@.len() == j,
                forall|jj: int| 0 <= jj < j ==> (#[trigger] columns@[jj])@ == self.spec_cols()[jj],
            decreases self.columns@.len() - j,
        {
            columns.push(clone_cells(&self.columns[j]));
            j += 1;
        }
        let res = Batch { schema: self.schema.clone(), columns };
        proof {
            assert(res.spec_cols() =~= self.spec_cols());
        }
        res
    }
}

/// The nominal byte size of a column: the sum of its cells' sizes.
pub open spec fn spec_col_byte_size(col: Seq<ScalarValue>) -> int
    decreases col.len(),
{
    if col.len() == 0 {
        0
    } else {
        spec_col_byte_size(col.drop_last()) + col.last().spec_byte_size()
    }
}

/// The nominal byte size of a sequence of columns.
pub open spec fn spec_cols_byte_size(cols: Seq<Seq<ScalarValue>>) -> int
    decreases cols.len(),
{
    if cols.len() == 0 {
        0
    } else {
        spec_cols_byte_size(cols.drop_last()) + spec_col_byte_size(cols.last())
    }
}

/// The total number of bytes of memory occupied by a batch: the sum over its
/// columns of each column's nominal resident size.
pub open spec fn spec_batch_byte_size(b: &Batch) -> int {
    spec_cols_byte_size(b.spec_cols())
}

/// A column's size is non-negative.
pub proof fn lemma_col_byte_size_nonneg(col: Seq<ScalarValue>)
    ensures
        spec_col_byte_size(col) >= 0,
    decreases col.len(),
{
    if col.len() > 0 {
        lemma_col_byte_size_nonneg(col.drop_last());
    }
}

/// A column sequence's size is non-negative.
pub proof fn lemma_cols_byte_size_nonneg(cols: Seq<Seq<ScalarValue>>)
    ensures
        spec_cols_byte_size(cols) >= 0,
    decreases cols.len(),
{
    if cols.len() > 0 {
        lemma_cols_byte_size_nonneg(cols.drop_last());
        lemma_col_byte_size_nonneg(cols.last());
    }
}

/// A prefix of a column weighs at most the whole column.
proof fn lemma_col_byte_size_take_le(col: Seq<ScalarValue>, k: int)
    requires
        0 <= k <= col.len(),
    ensures
        spec_col_byte_size(col.take(k)) <= spec_col_byte_size(col),
    decreases col.len() - k,
{
    if k == col.len() {
        assert(col.take(k) =~= col);
    } else {
        assert(col.take(k + 1).drop_last() =~= col.take(k));
        assert(col.take(k + 1).last() == col[k]);
        lemma_col_byte_size_take_le(col, k + 1);
    }
}

/// A prefix of a column list weighs at most the whole list.
proof fn lemma_cols_byte_size_take_le(cols: Seq<Seq<ScalarValue>>, k: int)
    requires
        0 <= k <= cols.len(),
    ensures
        spec_cols_byte_size(cols.take(k)) <= spec_cols_byte_size(cols),
    decreases cols.len() - k,
{
    if k == cols.len() {
        assert(cols.take(k) =~= cols);
    } else {
        assert(cols.take(k + 1).drop_last() =~= cols.take(k));
        assert(cols.take(k + 1).last() == cols[k]);
        lemma_col_byte_size_nonneg(cols[k]);
        lemma_cols_byte_size_take_le(cols, k + 1);
    }
}

/// The nominal byte size of one column.
pub fn col_byte_size(col: &Vec<ScalarValue>) -> (n: usize)
    requires
        spec_col_byte_size(col@) <= usize::MAX,
    ensures
        n == spec_col_byte_size(col@),
{
    let mut n: usize = 0;
    let mut i: usize = 0;
    while i < col.len()
        invariant
            i <= col@.len(),
            spec_col_byte_size(col@) <= usize::MAX,
            n == spec_col_byte_size(col@.take(i as int)),
        decreases col@.len() - i,
    {
        proof {
            assert(col@.take(i + 1).drop_last() =~= col@.take(i as int));
            assert(col@.take(i + 1).last() == col@[i as int]);
            lemma_col_byte_size_take_le(col@, i + 1);
        }
        n = n + col[i].byte_size();
        i += 1;
    }
    proof {
        assert(col@.take(col@.len() as int) =~= col@);
    }
    n
}

/// The total number of bytes of memory occupied by this batch, saturating at
/// the counter's width: for accounting where no bound on the batch is known.
pub fn batch_byte_size_saturating(batch: &Batch) -> (n: u64)
    ensures
        n == crate::metrics::spec_sat_add(0, spec_batch_byte_size(batch)),
{
    let ghost cols = batch.spec_cols();
    let mut n: u64 = 0;
    let mut j: usize = 0;
    while j < batch.columns.len()
        invariant
            j <= cols.len(),
            cols == batch.spec_cols(),
            cols.len() == batch.columns@.len(),
            n == crate::metrics::spec_sat_add(0, spec_cols_byte_size(cols.take(j as int))),
        decreases cols.len() - j,
    {
        proof {
            assert(cols.take(j + 1).drop_last() =~= cols.take(j as int));
            assert(cols.take(j + 1).last() == cols[j as int]);
            lemma_cols_byte_size_nonneg(cols.take(j as int));
            lemma_col_byte_size_nonneg(cols[j as int]);
            crate::metrics::lemma_sat_add_assoc(
                0,
                spec_cols_byte_size(cols.take(j as int)),
                crate::metrics::spec_sat_add(0, spec_col_byte_size(cols[j as int])),
            );
        }
        n = crate::metrics::counter_add(n, col_byte_size_saturating(&batch.columns[j]));
        j += 1;
    }
    proof {
        assert(cols.take(cols.len() as int) =~= cols);
    }
    n
}

/// The nominal byte size of one column, saturating at the counter's width.
fn col_byte_size_saturating(col: &Vec<ScalarValue>) -> (n: u64)
    ensures
        n == crate::metrics::spec_sat_add(0, spec_col_byte_size(col@)),
{
    let mut n: u64 = 0;
    let mut i: usize = 0;
    while i < col.len()
        invariant
            i <= col@.len(),
            n == crate::metrics::spec_sat_add(0, spec_col_byte_size(col@.take(i as int))),
        decreases col@.len() - i,
    {
        proof {
            assert(col@.take(i + 1).drop_last() =~= col@.take(i as int));
            assert(col@.take(i + 1).last() == col@[i as int]);
            lemma_col_byte_size_nonneg(col@.take(i as int));
            crate::metrics::lemma_sat_add_assoc(
                0,
                spec_col_byte_size(col@.take(i as int)),
                col@[i as int].spec_byte_size(),
            );
        }
        n = crate::metrics::counter_add(n, col[i].byte_size() as u64);
        i += 1;
    }
    proof {
        assert(col@.take(col@.len() as int) =~= col@);
    }
    n
}

/// The total number of bytes of memory occupied by this batch.
pub fn batch_byte_size(batch: &Batch) -> (n: usize)
    requires
        spec_batch_byte_size(batch) <= usize::MAX,
    ensures
        n == spec_batch_byte_size(batch),
{
    let ghost cols = batch.spec_cols();
    let mut n: usize = 0;
    let mut j: usize = 0;
    while j < batch.columns.len()
        invariant
            j <= cols.len(),
            cols == batch.spec_cols(),
            cols.len() == batch.columns@.len(),
            spec_cols_byte_size(cols) <= usize::MAX,
            n == spec_cols_byte_size(cols.take(j as int)),
        decreases cols.len() - j,
    {
        proof {
            assert(cols.take(j + 1).drop_last() =~= cols.take(j as int));
            assert(cols.take(j + 1).last() == cols[j as int]);
            lemma_cols_byte_size_take_le(cols, j + 1);
            lemma_col_byte_size_nonneg(cols[j as int]);
            lemma_cols_byte_size_nonneg(cols.take(j as int));
            lemma_col_byte_size_take_le(cols[j as int], cols[j as int].len() as int);
        }
        n = n + col_byte_size(&batch.columns[j]);
        j += 1;
    }
    proof {
        assert(cols.take(cols.len() as int) =~= cols);
    }
    n
}

} // verus!
