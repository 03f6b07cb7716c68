//! Sort-key sequences and their meet: the finest ordering satisfied by all
//! the given orderings, i.e. their longest common prefix.

use vstd::prelude::*;
use crate::plan::ChildPlan;

verus! {

/// How one sort key orders its values.
#[derive(Clone, Copy, Debug, PartialEq, Eq, Structural)]
pub struct SortOptions {
    /// Whether the ordering is descending.
    pub descending: bool,
    /// Whether nulls sort before all values.
    pub nulls_first: bool,
}

impl Default for SortOptions {
    /// Ascending, nulls first.
    fn default() -> (r: Self)
        ensures
            r == (SortOptions { descending: false, nulls_first: true }),
    {
        SortOptions { descending: false, nulls_first: true }
    }
}

/// One sort key of a declared physical ordering: a column reference plus sort
/// options.
#[derive(Debug)]
pub struct SortKey {
    /// The referenced column's name.
    pub name: String,
    /// The referenced column's index in its schema.
    pub index: usize,
    /// The sort direction and null placement.
    pub options: SortOptions,
}

impl SortKey {
    /// Creates a sort key for the named column.
    pub fn new(name: &str, index: usize, options: SortOptions) -> (k: SortKey)
        ensures
            k.name@ == name@,
            k.index == index,
            k.options == options,
    {
        SortKey { name: name.to_owned(), index, options }
    }

    /// Two sort keys mean the same ordering: same column and same options.
    pub open spec fn key_eq(self, other: SortKey) -> bool {
        &&& self.name@ == other.name@
        &&& self.index == other.index
        &&& self.options == other.options
    }
}

impl Clone for SortKey {
    /// A cloned key is equal to the original.
    fn clone(&self) -> (res: Self)
        ensures
            res == *self,
    {
        SortKey { name: self.name.clone(), index: self.index, options: self.options }
    }
}

impl PartialEq for SortKey {
    fn eq(&self, other: &SortKey) -> (r: bool) {
        self.name == other.name && self.index == other.index && self.options == other.options
    }
}

impl vstd::std_specs::cmp::PartialEqSpecImpl for SortKey {
    open spec fn obeys_eq_spec() -> bool {
        true
    }

    open spec fn eq_spec(&self, other: &SortKey) -> bool {
        self.key_eq(*other)
    }
}

/// The orderings as mathematical sequences of keys.
pub open spec fn ords_views(ords: Seq<Vec<SortKey>>) -> Seq<Seq<SortKey>> {
    ords.map_values(|o: Vec<SortKey>| o@)
}

/// All orderings agree at position `i`: each is long enough and carries the
/// same key there as the first.
pub open spec fn agree_at(ords: Seq<Seq<SortKey>>, i: int) -> bool {
    forall|k: int|
        0 <= k < ords.len() ==> i < (#[trigger] ords[k]).len() && ords[k][i].key_eq(ords[0][i])
}

/// The orderings share a common prefix of the given length.
pub open spec fn common_prefix_len(ords: Seq<Seq<SortKey>>, len: int) -> bool {
    forall|i: int| 0 <= i < len ==> agree_at(ords, i)
}

/// Checks whether all orderings agree at position `idx`.
fn agree_at_exec(orderings: &Vec<Vec<SortKey>>, idx: usize) -> (r: bool)
    requires
        orderings@.len() > 0,
    ensures
        r == agree_at(ords_views(orderings@), idx as int),
{
    let ghost ords = ords_views(orderings@);
    let mut k: usize = 0;
    while k < orderings.len()
        invariant
            k <= ords.len(),
            ords == ords_views(orderings@),
            ords.len() == orderings@.len() > 0,
            forall|kk: int|
                0 <= kk < k ==> idx < (#[trigger] ords[kk]).len() && ords[kk][idx as int].key_eq(
                    ords[0][idx as int],
                ),
        decreases ords.len() - k,
    {
        proof {
            assert(ords[k as int] == orderings@[k as int]@);
            assert(ords[0] == orderings@[0]@);
        }
        if idx >= orderings[k].len() {
            proof {
                assert(!(idx < ords[k as int].len()));
            }
            return false;
        }
        proof {
            if k > 0 {
                assert(idx < ords[0].len());
            }
        }
        if !(orderings[k][idx] == orderings[0][idx]) {
            proof {
                assert(!ords[k as int][idx as int].key_eq(ords[0][idx as int]));
            }
            return false;
        }
        k += 1;
    }
    true
}

/// Copies a prefix of an ordering.
fn clone_prefix(ordering: &Vec<SortKey>, len: usize) -> (r: Vec<SortKey>)
    requires
        len <= ordering@.len(),
    ensures
        r@ == ordering@.take(len as int),
{
    let mut r: Vec<SortKey> = Vec::new();
    let mut i: usize = 0;
    while i < len
        invariant
            i <= len <= ordering@.len(),
            r@ == ordering@.take(i as int),
        decreases len - i,
    {
        r.push(ordering[i].clone());
        proof {
            assert(r@ =~= ordering@.take(i + 1));
        }
        i += 1;
    }
    r
}

/// The meet of the given orderings: their longest common prefix, compared
/// position by position. A disagreement at the first position means no
/// ordering can be promised at all; an ordering that is a prefix of all the
/// others caps the meet at that full (possibly empty) sequence.
pub fn get_meet_of_orderings_helper(orderings: &Vec<Vec<SortKey>>) -> (r: Option<Vec<SortKey>>)
    requires
        orderings@.len() > 0,
    ensures
        r matches Some(p) ==> {
            &&& common_prefix_len(ords_views(orderings@), p@.len() as int)
            &&& !agree_at(ords_views(orderings@), p@.len() as int)
            &&& forall|i: int|
                0 <= i < p@.len() ==> (#[trigger] p@[i]).key_eq(ords_views(orderings@)[0][i])
        },
        r is None <==> (!agree_at(ords_views(orderings@), 0) && (forall|k: int|
            0 <= k < ords_views(orderings@).len() ==> (#[trigger] ords_views(
                orderings@,
            )[k]).len() > 0)),
{
    let ghost ords = ords_views(orderings@);
    let len0 = orderings[0].len();
    let mut l: usize = 0;
    while l < len0 && agree_at_exec(orderings, l)
        invariant
            orderings@.len() > 0,
            ords == ords_views(orderings@),
            len0 == ords[0].len(),
            l <= len0,
            common_prefix_len(ords, l as int),
        decreases len0 - l,
    {
        proof {
            assert(agree_at(ords, l as int));
            assert(forall|i: int| 0 <= i < l + 1 ==> agree_at(ords, i));
        }
        l += 1;
    }
    proof {
        if l == len0 {
            assert(!(l < ords[0].len()));
        }
        assert(!agree_at(ords, l as int));
    }
    if l > 0 {
        Some(clone_prefix(&orderings[0], l))
    } else {
        let mut k: usize = 0;
        while k < orderings.len()
            invariant
                k <= ords.len(),
                ords == ords_views(orderings@),
                ords.len() == orderings@.len() > 0,
                !agree_at(ords, 0),
                forall|kk: int| 0 <= kk < k ==> (#[trigger] ords[kk]).len() > 0,
            decreases ords.len() - k,
        {
            if orderings[k].len() == 0 {
                proof {
                    assert(ords[k as int] == orderings@[k as int]@);
                    assert(ords[k as int].len() == 0);
                }
                return Some(Vec::new());
            }
            proof {
                assert(ords[k as int] == orderings@[k as int]@);
            }
            k += 1;
        }
        None
    }
}

/// The meet really is the longest common prefix: the meet's length, which
/// [`get_meet_of_orderings_helper`] characterizes as a common prefix length
/// at whose end some ordering diverges, bounds every common prefix length.
pub proof fn lemma_meet_is_longest(ords: Seq<Seq<SortKey>>, meet_len: int, other_len: int)
    requires
        0 <= meet_len,
        common_prefix_len(ords, meet_len),
        !agree_at(ords, meet_len),
        common_prefix_len(ords, other_len),
    ensures
        other_len <= meet_len,
{
    if other_len > meet_len {
        assert(agree_at(ords, meet_len));
    }
}

/// The ordering a plan declares, as a sequence of keys; the empty sequence
/// when it declares none (the meet then aborts to "no meet").
pub open spec fn plan_ords(given: Seq<ChildPlan>) -> Seq<Seq<SortKey>> {
    given.map_values(
        |p: ChildPlan|
            match p.ordering {
                Some(o) => o@,
                None => Seq::empty(),
            },
    )
}

/// Calculates the meet of the given plans' declared orderings: the finest
/// ordering satisfied by all of them. A plan that declares no ordering at all
/// makes the whole meet undefined.
pub fn get_meet_of_orderings(given: &Vec<ChildPlan>) -> (r: Option<Vec<SortKey>>)
    requires
        given@.len() > 0,
    ensures
        (exists|k: int| 0 <= k < given@.len() && (#[trigger] given@[k]).ordering is None) ==> r
            is None,
        (forall|k: int| 0 <= k < given@.len() ==> (#[trigger] given@[k]).ordering is Some) ==> {
            &&& (r matches Some(p) ==> {
                &&& common_prefix_len(plan_ords(given@), p@.len() as int)
                &&& !agree_at(plan_ords(given@), p@.len() as int)
                &&& forall|i: int|
                    0 <= i < p@.len() ==> (#[trigger] p@[i]).key_eq(plan_ords(given@)[0][i])
            })
            &&& (r is None <==> (!agree_at(plan_ords(given@), 0) && (forall|k: int|
                0 <= k < plan_ords(given@).len() ==> (#[trigger] plan_ords(given@)[k]).len() > 0)))
        },
{
    let mut orderings: Vec<Vec<SortKey>> = Vec::new();
    let mut k: usize = 0;
    while k < given.len()
        invariant
            k <= given@.len(),
            orderings@.len() == k,
            forall|kk: int| 0 <= kk < k ==> (#[trigger] given@[kk]).ordering is Some,
            forall|kk: int|
                0 <= kk < k ==> (#[trigger] orderings@[kk])@ == plan_ords(given@)[kk],
        decreases given@.len() - k,
    {
        match &given[k].ordering {
            Some(o) => {
                orderings.push(clone_prefix(o, o.len()));
                proof {
                    assert(o@.take(o@.len() as int) =~= o@);
                }
            },
            None => {
                return None;
            },
        }
        k += 1;
    }
    proof {
        assert(ords_views(orderings@) =~= plan_ords(given@));
    }
    get_meet_of_orderings_helper(&orderings)
}

} // verus!
