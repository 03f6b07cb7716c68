//! Common helpers shared by execution plans.

use vstd::prelude::*;

verus! {

/// The rows as mathematical sequences.
pub open spec fn vecs_views<T>(rows: Seq<Vec<T>>) -> Seq<Seq<T>> {
    rows.map_values(|r: Vec<T>| r@)
}

/// Column `i` of the transposed rows: the `i`-th item of every row that has
/// one, in row order. The first row's length fixes the width, so items beyond
/// it are dropped.
pub open spec fn spec_transpose_row<T>(rows: Seq<Seq<T>>, i: int) -> Seq<T>
    decreases rows.len(),
{
    if rows.len() == 0 {
        Seq::empty()
    } else {
        spec_transpose_row(rows.drop_last(), i) + (if 0 <= i < rows.last().len() {
            seq![rows.last()[i]]
        } else {
            Seq::empty()
        })
    }
}

/// Transposes the given vector of vectors: the result has one row per column
/// of the first input row, and its row `i` collects the `i`-th item of every
/// input row that is long enough, in input order.
pub fn transpose<T>(original: Vec<Vec<T>>) -> (result: Vec<Vec<T>>)
    ensures
        result@.len() == (if original@.len() == 0 {
            0int
        } else {
            original@[0]@.len() as int
        }),
        forall|i: int|
            0 <= i < result@.len() ==> (#[trigger] result@[i])@ == spec_transpose_row(
                vecs_views(original@),
                i,
            ),
{
    let ghost rows0 = vecs_views(original@);
    let mut remaining = original;
    if remaining.len() == 0 {
        return Vec::new();
    }
    let width = remaining[0].len();
    let mut result: Vec<Vec<T>> = Vec::new();
    while result.len() < width
        invariant
            result@.len() <= width,
            forall|i: int| 0 <= i < result@.len() ==> (#[trigger] result@[i])@ == Seq::<T>::empty(),
        decreases width - result@.len(),
    {
        result.push(Vec::new());
    }
    let ghost mut processed: Seq<Seq<T>> = Seq::empty();
    proof {
        assert(processed + vecs_views(remaining@) =~= rows0);
        assert(forall|i: int|
            0 <= i < width ==> (#[trigger] result@[i])@ =~= spec_transpose_row(processed, i));
    }
    while remaining.len() > 0
        invariant
            result@.len() == width,
            processed + vecs_views(remaining@) == rows0,
            forall|i: int|
                0 <= i < width ==> (#[trigger] result@[i])@ == spec_transpose_row(processed, i),
        decreases remaining@.len(),
    {
        let ghost pre = vecs_views(remaining@);
        let mut row = remaining.remove(0);
        let ghost rowv = row@;
        proof {
            assert(rowv == pre[0]);
            assert(vecs_views(remaining@) =~= pre.drop_first());
            assert(processed.push(rowv) + vecs_views(remaining@) =~= rows0);
        }
        let pairs = if width < row.len() {
            width
        } else {
            row.len()
        };
        let mut i: usize = 0;
        while i < pairs
            invariant
                i <= pairs,
                pairs <= width,
                pairs <= rowv.len(),
                pairs == (if width < rowv.len() {
                    width as int
                } else {
                    rowv.len() as int
                }),
                row@ == rowv.skip(i as int),
                result@.len() == width,
                forall|ii: int|
                    0 <= ii < i ==> (#[trigger] result@[ii])@ == spec_transpose_row(processed, ii)
                        + seq![rowv[ii]],
                forall|ii: int|
                    i <= ii < width ==> (#[trigger] result@[ii])@ == spec_transpose_row(
                        processed,
                        ii,
                    ),
            decreases pairs - i,
        {
            let item = row.remove(0);
            proof {
                assert(rowv.skip(i as int)[0] == rowv[i as int]);
                assert(rowv.skip(i as int).remove(0) =~= rowv.skip(i + 1));
            }
            let ghost rs = result@;
            let mut col = result.remove(i);
            col.push(item);
            result.insert(i, col);
            proof {
                assert(result@ =~= rs.update(i as int, col));
            }
            i += 1;
        }
        proof {
            assert(forall|ii: int|
                0 <= ii < width ==> (#[trigger] result@[ii])@ =~= spec_transpose_row(
                    processed.push(rowv),
                    ii,
                )) by {
                assert(processed.push(rowv).drop_last() =~= processed);
                assert(forall|ii: int|
                    0 <= ii < width && ii < pairs ==> (#[trigger] result@[ii])@
                        == spec_transpose_row(processed, ii) + seq![rowv[ii]]);
            }
            processed = processed.push(rowv);
        }
    }
    proof {
        assert(vecs_views(remaining@).len() == 0);
        assert(processed =~= rows0);
        assert(rows0[0] == original@[0]@);
    }
    result
}

} // verus!
