//! The reference batch stream: a pre-materialized ordered sequence of batches
//! behind an index cursor. Polling is a pure index increment — no suspension
//! and no error case once constructed.

use vstd::prelude::*;
use crate::batch::Batch;
use crate::metrics::{spec_sat_add, MemTrackingMetrics};
use crate::schema::Schema;
use crate::stats::spec_part_size;

verus! {

/// A stream over already-materialized batches, all conforming to one schema,
/// reporting every yielded batch to its metrics sink.
#[derive(Debug)]
pub struct SizedRecordBatchStream {
    /// The schema every yielded batch conforms to; stable for the stream's
    /// lifetime.
    pub schema: Schema,
    /// The batches, in the order they are yielded.
    pub batches: Vec<Batch>,
    /// The cursor: how many batches were yielded already.
    pub index: usize,
    /// The sink every yielded batch is reported to.
    pub metrics: MemTrackingMetrics,
}

impl SizedRecordBatchStream {
    /// Well-formedness: the cursor stays within the batches, and every batch
    /// conforms to the stream's schema.
    pub open spec fn wf(&self) -> bool {
        &&& self.index <= self.batches@.len()
        &&& forall|k: int|
            0 <= k < self.batches@.len() ==> (#[trigger] self.batches@[k]).wf()
                && self.batches@[k].conforms_to(self.schema.fields@)
    }

    /// Creates a stream over the given batches and latches their total memory
    /// footprint on the metrics sink.
    pub fn new(schema: Schema, batches: Vec<Batch>, metrics: MemTrackingMetrics) -> (s:
        SizedRecordBatchStream)
        requires
            forall|k: int|
                0 <= k < batches@.len() ==> (#[trigger] batches@[k]).wf()
                    && batches@[k].conforms_to(schema.fields@),
            spec_part_size(batches@) <= usize::MAX,
        ensures
            s.wf(),
            s.schema.fields@ == schema.fields@,
            s.batches@ == batches@,
            s.index == 0,
            s.metrics.mem_used == spec_part_size(batches@),
            s.metrics.output_rows == metrics.output_rows,
    {
        let mut metrics = metrics;
        let mut size: usize = 0;
        let mut k: usize = 0;
        while k < batches.len()
            invariant
                k <= batches@.len(),
                spec_part_size(batches@) <= usize::MAX,
                forall|kk: int| 0 <= kk < batches@.len() ==> (#[trigger] batches@[kk]).wf(),
                size == spec_part_size(batches@.take(k as int)),
            decreases batches@.len() - k,
        {
            proof {
                assert(batches@.take(k + 1).drop_last() =~= batches@.take(k as int));
                assert(batches@.take(k + 1).last() == batches@[k as int]);
                crate::stats::lemma_part_size_take_le(batches@, k + 1);
                crate::stats::lemma_part_size_nonneg(batches@.take(k as int));
                crate::batch::lemma_cols_byte_size_nonneg(batches@[k as int].spec_cols());
            }
            size = size + crate::batch::batch_byte_size(&batches[k]);
            k += 1;
        }
        proof {
            assert(batches@.take(batches@.len() as int) =~= batches@);
        }
        metrics.init_mem_used(size);
        SizedRecordBatchStream { schema, batches, index: 0, metrics }
    }

    /// The schema of every batch the stream yields.
    pub fn schema(&self) -> (s: &Schema)
        ensures
            s == &self.schema,
    {
        &self.schema
    }

    /// Yields the next batch, reporting it to the metrics sink first, or
    /// signals completion and flushes the memory gauge.
    pub fn poll_next(&mut self) -> (r: Option<Batch>)
        requires
            old(self).wf(),
        ensures
            final(self).wf(),
            final(self).schema.fields@ == old(self).schema.fields@,
            final(self).batches@ == old(self).batches@,
            old(self).index < old(self).batches@.len() ==> {
                &&& final(self).index == old(self).index + 1
                &&& r matches Some(b) && b.wf() && b.conforms_to(old(self).schema.fields@)
                    && b.spec_cols() == old(self).batches@[old(self).index as int].spec_cols()
                &&& final(self).metrics.output_rows == spec_sat_add(
                    old(self).metrics.output_rows as int,
                    old(self).batches@[old(self).index as int].spec_num_rows(),
                )
                &&& final(self).metrics.mem_used == old(self).metrics.mem_used
            },
            old(self).index >= old(self).batches@.len() ==> {
                &&& r is None
                &&& final(self).index == old(self).index
                &&& final(self).metrics.output_rows == old(self).metrics.output_rows
                &&& final(self).metrics.mem_used == 0
            },
    {
        if self.index < self.batches.len() {
            let b = self.batches[self.index].clone();
            self.metrics.record_output(b.num_rows());
            self.index = self.index + 1;
            Some(b)
        } else {
            self.metrics.done();
            None
        }
    }
}

} // verus!
