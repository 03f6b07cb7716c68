//! Metrics sinks: named counters operators populate without altering control
//! flow. Every batch a stream yields is reported before it is handed to the
//! consumer; completion flushes the latched memory gauge back to zero.

use vstd::prelude::*;

verus! {

/// Adding to a counter saturates at the counter's width.
pub open spec fn spec_sat_add(a: int, b: int) -> int {
    if a + b <= u64::MAX {
        a + b
    } else {
        u64::MAX as int
    }
}

/// Adds to a counter, saturating at the counter's width.
pub fn counter_add(a: u64, b: u64) -> (r: u64)
    ensures
        r == spec_sat_add(a as int, b as int),
{
    if b > u64::MAX - a {
        u64::MAX
    } else {
        a + b
    }
}

/// The counters and the memory gauge a batch stream reports to.
#[derive(Debug)]
pub struct MemTrackingMetrics {
    /// Rows handed to the consumer so far.
    pub output_rows: u64,
    /// Bytes of memory the stream currently holds; flushed to zero when the
    /// stream completes.
    pub mem_used: u64,
}

impl MemTrackingMetrics {
    /// Creates a sink with all counters at zero.
    pub fn new() -> (m: MemTrackingMetrics)
        ensures
            m.output_rows == 0,
            m.mem_used == 0,
    {
        MemTrackingMetrics { output_rows: 0, mem_used: 0 }
    }

    /// Latches the memory the stream holds.
    pub fn init_mem_used(&mut self, size: usize)
        ensures
            final(self).mem_used == size,
            final(self).output_rows == old(self).output_rows,
    {
        self.mem_used = size as u64;
    }

    /// Reports one yielded batch's rows.
    pub fn record_output(&mut self, rows: usize)
        ensures
            final(self).output_rows == spec_sat_add(old(self).output_rows as int, rows as int),
            final(self).mem_used == old(self).mem_used,
    {
        self.output_rows = counter_add(self.output_rows, rows as u64);
    }

    /// Flushes the memory gauge back to zero on completion.
    pub fn done(&mut self)
        ensures
            final(self).mem_used == 0,
            final(self).output_rows == old(self).output_rows,
    {
        self.mem_used = 0;
    }
}

/// The counters a join operator populates: its build side's consumption and
/// its per-partition probe-side input and output.
#[derive(Debug)]
pub struct BuildProbeJoinMetrics {
    /// Batches consumed building the build side.
    pub build_input_batches: u64,
    /// Rows consumed building the build side.
    pub build_input_rows: u64,
    /// Bytes of memory the build side holds.
    pub build_mem_used: u64,
    /// Probe-side batches consumed.
    pub input_batches: u64,
    /// Probe-side rows consumed.
    pub input_rows: u64,
    /// Batches produced.
    pub output_batches: u64,
    /// Rows produced.
    pub output_rows: u64,
}

/// A join metrics sink with all counters at zero.
pub open spec fn spec_zero_metrics() -> BuildProbeJoinMetrics {
    BuildProbeJoinMetrics {
        build_input_batches: 0,
        build_input_rows: 0,
        build_mem_used: 0,
        input_batches: 0,
        input_rows: 0,
        output_batches: 0,
        output_rows: 0,
    }
}

impl BuildProbeJoinMetrics {
    /// Creates a sink with all counters at zero.
    pub fn new() -> (m: BuildProbeJoinMetrics)
        ensures
            m == spec_zero_metrics(),
    {
        BuildProbeJoinMetrics {
            build_input_batches: 0,
            build_input_rows: 0,
            build_mem_used: 0,
            input_batches: 0,
            input_rows: 0,
            output_batches: 0,
            output_rows: 0,
        }
    }

    /// Reports one build-side batch: its rows and its memory footprint.
    pub fn record_build_input(&mut self, rows: usize, bytes: usize)
        ensures
            final(self).build_input_batches == spec_sat_add(old(self).build_input_batches as int, 1),
            final(self).build_input_rows == spec_sat_add(
                old(self).build_input_rows as int,
                rows as int,
            ),
            final(self).build_mem_used == spec_sat_add(
                old(self).build_mem_used as int,
                bytes as int,
            ),
            final(self).input_batches == old(self).input_batches,
            final(self).input_rows == old(self).input_rows,
            final(self).output_batches == old(self).output_batches,
            final(self).output_rows == old(self).output_rows,
    {
        self.build_input_batches = counter_add(self.build_input_batches, 1);
        self.build_input_rows = counter_add(self.build_input_rows, rows as u64);
        self.build_mem_used = counter_add(self.build_mem_used, bytes as u64);
    }

    /// Reports probe-side rows replayed from the already-latched batch.
    pub fn record_probe_rows(&mut self, rows: usize)
        ensures
            final(self).input_rows == spec_sat_add(old(self).input_rows as int, rows as int),
            final(self).input_batches == old(self).input_batches,
            final(self).build_input_batches == old(self).build_input_batches,
            final(self).build_input_rows == old(self).build_input_rows,
            final(self).build_mem_used == old(self).build_mem_used,
            final(self).output_batches == old(self).output_batches,
            final(self).output_rows == old(self).output_rows,
    {
        self.input_rows = counter_add(self.input_rows, rows as u64);
    }

    /// Reports one probe-side batch's rows.
    pub fn record_probe_input(&mut self, rows: usize)
        ensures
            final(self).input_batches == spec_sat_add(old(self).input_batches as int, 1),
            final(self).input_rows == spec_sat_add(old(self).input_rows as int, rows as int),
            final(self).build_input_batches == old(self).build_input_batches,
            final(self).build_input_rows == old(self).build_input_rows,
            final(self).build_mem_used == old(self).build_mem_used,
            final(self).output_batches == old(self).output_batches,
            final(self).output_rows == old(self).output_rows,
    {
        self.input_batches = counter_add(self.input_batches, 1);
        self.input_rows = counter_add(self.input_rows, rows as u64);
    }

    /// Reports one produced batch's rows.
    pub fn record_output(&mut self, rows: usize)
        ensures
            final(self).output_batches == spec_sat_add(old(self).output_batches as int, 1),
            final(self).output_rows == spec_sat_add(old(self).output_rows as int, rows as int),
            final(self).build_input_batches == old(self).build_input_batches,
            final(self).build_input_rows == old(self).build_input_rows,
            final(self).build_mem_used == old(self).build_mem_used,
            final(self).input_batches == old(self).input_batches,
            final(self).input_rows == old(self).input_rows,
    {
        self.output_batches = counter_add(self.output_batches, 1);
        self.output_rows = counter_add(self.output_rows, rows as u64);
    }
}

/// One join emission's effect on the metrics: `rows` probe rows consumed —
/// counting the batch itself only when it is newly pulled — and one output
/// batch of the same row count produced; build counters untouched.
pub open spec fn spec_probe_output_update(
    pre: BuildProbeJoinMetrics,
    post: BuildProbeJoinMetrics,
    rows: int,
    new_batch: bool,
) -> bool {
    &&& post.build_input_batches == pre.build_input_batches
    &&& post.build_input_rows == pre.build_input_rows
    &&& post.build_mem_used == pre.build_mem_used
    &&& post.input_batches == (if new_batch {
        spec_sat_add(pre.input_batches as int, 1)
    } else {
        pre.input_batches as int
    })
    &&& post.input_rows == spec_sat_add(pre.input_rows as int, rows)
    &&& post.output_batches == spec_sat_add(pre.output_batches as int, 1)
    &&& post.output_rows == spec_sat_add(pre.output_rows as int, rows)
}

/// Saturating additions of non-negative amounts combine: adding `b` then `c`
/// is adding `b + c`.
pub proof fn lemma_sat_add_assoc(a: int, b: int, c: int)
    requires
        0 <= a,
        0 <= b,
        0 <= c,
    ensures
        spec_sat_add(spec_sat_add(a, b), c) == spec_sat_add(a, b + c),
{
}

} // verus!
