//! What an operator consumes of a child plan node: its schema, declared
//! partitioning and ordering, statistics and boundedness — never its
//! internals.

use vstd::prelude::*;
use crate::ordering::SortKey;
use crate::schema::Schema;
use crate::stats::Statistics;

verus! {

/// How an operator's output is split into partitions.
#[derive(Debug)]
pub enum Partitioning {
    /// Round-robin over the given number of partitions.
    RoundRobinBatch(usize),
    /// Partitioned by a hash of the given column indices into the given
    /// number of partitions.
    Hash(Vec<usize>, usize),
    /// An unknown scheme over the given number of partitions.
    UnknownPartitioning(usize),
}

impl Partitioning {
    /// The number of output partitions.
    pub open spec fn spec_partition_count(&self) -> int {
        match self {
            Partitioning::RoundRobinBatch(n) => *n as int,
            Partitioning::Hash(_, n) => *n as int,
            Partitioning::UnknownPartitioning(n) => *n as int,
        }
    }

    /// The number of output partitions.
    pub fn partition_count(&self) -> (n: usize)
        ensures
            n == self.spec_partition_count(),
    {
        match self {
            Partitioning::RoundRobinBatch(n) => *n,
            Partitioning::Hash(_, n) => *n,
            Partitioning::UnknownPartitioning(n) => *n,
        }
    }
}

/// The input distribution an operator requires of one child.
#[derive(Debug)]
pub enum Distribution {
    /// Any distribution is acceptable.
    UnspecifiedDistribution,
    /// The child must deliver a single partition.
    SinglePartition,
    /// The child must be hash-partitioned on the given columns.
    HashPartitioned(Vec<usize>),
}

/// Adjusts the right child's output partitioning for an output schema that
/// prefixes the left child's columns: hash column indices shift by the number
/// of left columns so they still resolve correctly downstream.
pub fn adjust_right_output_partitioning(right: &Partitioning, left_columns_len: usize) -> (r:
    Partitioning)
    requires
        right matches Partitioning::Hash(cols, _) ==> forall|k: int|
            0 <= k < cols@.len() ==> #[trigger] cols@[k] + left_columns_len <= usize::MAX,
    ensures
        right matches Partitioning::RoundRobinBatch(n) ==> r == Partitioning::RoundRobinBatch(*n),
        right matches Partitioning::UnknownPartitioning(n) ==> r
            == Partitioning::UnknownPartitioning(*n),
        right matches Partitioning::Hash(cols, n) ==> (r matches Partitioning::Hash(cols2, n2)
            && n2 == n && cols2@.len() == cols@.len() && (forall|k: int|
            0 <= k < cols@.len() ==> #[trigger] cols2@[k] == cols@[k] + left_columns_len)),
{
    match right {
        Partitioning::RoundRobinBatch(n) => Partitioning::RoundRobinBatch(*n),
        Partitioning::UnknownPartitioning(n) => Partitioning::UnknownPartitioning(*n),
        Partitioning::Hash(cols, n) => {
            let mut shifted: Vec<usize> = Vec::new();
            let mut k: usize = 0;
            while k < cols.len()
                invariant
                    k <= cols@.len(),
                    shifted@.len() == k,
                    forall|kk: int|
                        0 <= kk < cols@.len() ==> #[trigger] cols@[kk] + left_columns_len
                            <= usize::MAX,
                    forall|kk: int|
                        0 <= kk < k ==> #[trigger] shifted@[kk] == cols@[kk] + left_columns_len,
                decreases cols@.len() - k,
            {
                shifted.push(cols[k] + left_columns_len);
                k += 1;
            }
            Partitioning::Hash(shifted, *n)
        },
    }
}

/// What a parent operator consumes of a child: schema, partitioning,
/// ordering, statistics and whether the child's output is unbounded.
#[derive(Debug)]
pub struct ChildPlan {
    /// The child's output schema.
    pub schema: Schema,
    /// The child's declared output partitioning.
    pub partitioning: Partitioning,
    /// The child's declared output ordering, if it promises one.
    pub ordering: Option<Vec<SortKey>>,
    /// The child's output statistics.
    pub statistics: Statistics,
    /// Whether the child generates an infinite stream of records.
    pub unbounded: bool,
}

impl ChildPlan {
    /// Assembles a child-plan summary.
    pub fn new(
        schema: Schema,
        partitioning: Partitioning,
        ordering: Option<Vec<SortKey>>,
        statistics: Statistics,
        unbounded: bool,
    ) -> (p: ChildPlan)
        ensures
            p == (ChildPlan { schema, partitioning, ordering, statistics, unbounded }),
    {
        ChildPlan { schema, partitioning, ordering, statistics, unbounded }
    }

    /// The child's output schema.
    pub fn schema(&self) -> (s: &Schema)
        ensures
            s == &self.schema,
    {
        &self.schema
    }

    /// The child's declared output partitioning.
    pub fn output_partitioning(&self) -> (p: &Partitioning)
        ensures
            p == &self.partitioning,
    {
        &self.partitioning
    }

    /// The child's declared output ordering.
    pub fn output_ordering(&self) -> (o: &Option<Vec<SortKey>>)
        ensures
            o == &self.ordering,
    {
        &self.ordering
    }

    /// The child's output statistics.
    pub fn statistics(&self) -> (s: &Statistics)
        ensures
            s == &self.statistics,
    {
        &self.statistics
    }
}

} // verus!
