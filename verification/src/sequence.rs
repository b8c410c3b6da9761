//! Sequences of results: the first failure decides.

use vstd::prelude::*;

verus! {

/// The index of the first `Err` in `rs`, or the length of `rs` where every
/// entry is `Ok`.
pub open spec fn first_error<T, E>(rs: Seq<Result<T, E>>) -> int
    decreases rs.len(),
{
    if rs.len() == 0 {
        0
    } else {
        let k = first_error(rs.drop_last());
        if k < rs.len() - 1 {
            k
        } else if rs.last() is Err {
            rs.len() - 1
        } else {
            rs.len() as int
        }
    }
}

/// All the values where every entry is `Ok`, else the error of the first
/// entry that failed.
pub open spec fn collect<T, E>(rs: Seq<Result<T, E>>) -> Result<Seq<T>, E> {
    let k = first_error(rs);
    if k == rs.len() {
        Ok(Seq::new(rs.len(), |i: int| rs[i]->Ok_0))
    } else {
        Err(rs[k]->Err_0)
    }
}

/// `first_error` is an index up to the length, everything before it is `Ok`,
/// and the entry at it, where there is one, is `Err`.
pub proof fn lemma_first_error<T, E>(rs: Seq<Result<T, E>>)
    ensures
        0 <= first_error(rs) <= rs.len(),
        forall|j: int| 0 <= j < first_error(rs) ==> #[trigger] rs[j] is Ok,
        first_error(rs) < rs.len() ==> rs[first_error(rs)] is Err,
    decreases rs.len(),
{
    if rs.len() > 0 {
        lemma_first_error(rs.drop_last());
        assert forall|j: int| 0 <= j < first_error(rs) implies #[trigger] rs[j] is Ok by {
            if j < rs.len() - 1 {
                assert(rs.drop_last()[j] == rs[j]);
            }
        }
        let k = first_error(rs.drop_last());
        if k < rs.len() - 1 {
            assert(rs.drop_last()[k] == rs[k]);
        }
    }
}

/// The index that `lemma_first_error` describes is the only one.
pub proof fn lemma_first_error_is<T, E>(rs: Seq<Result<T, E>>, k: int)
    requires
        0 <= k <= rs.len(),
        forall|j: int| 0 <= j < k ==> #[trigger] rs[j] is Ok,
        k < rs.len() ==> rs[k] is Err,
    ensures
        first_error(rs) == k,
{
    lemma_first_error(rs);
    let f = first_error(rs);
    if f < k {
        assert(rs[f] is Ok);
    } else if k < f {
        assert(rs[k] is Ok);
    }
}

/// Where every entry is `Ok`, `collect` gives the values.
pub proof fn lemma_collect_ok<T, E>(rs: Seq<Result<T, E>>, vs: Seq<T>)
    requires
        vs.len() == rs.len(),
        forall|j: int| 0 <= j < rs.len() ==> #[trigger] rs[j] == Ok::<T, E>(vs[j]),
    ensures
        collect(rs) == Ok::<Seq<T>, E>(vs),
{
    assert forall|j: int| 0 <= j < rs.len() implies #[trigger] rs[j] is Ok by {
        assert(rs[j] == Ok::<T, E>(vs[j]));
    }
    lemma_first_error_is(rs, rs.len() as int);
    assert(Seq::new(rs.len(), |i: int| rs[i]->Ok_0) =~= vs);
}

/// Where entry `k` is the first to fail, `collect` gives its error.
pub proof fn lemma_collect_err<T, E>(rs: Seq<Result<T, E>>, k: int, e: E)
    requires
        0 <= k < rs.len(),
        forall|j: int| 0 <= j < k ==> #[trigger] rs[j] is Ok,
        rs[k] == Err::<T, E>(e),
    ensures
        collect(rs) == Err::<Seq<T>, E>(e),
{
    lemma_first_error_is(rs, k);
}

} // verus!
