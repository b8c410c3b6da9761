//! Batches of records: the first record that fails decides, and is named.

use vstd::prelude::*;
use crate::errors::{BatchError, RecordError};
use crate::sequence::{first_error, lemma_first_error_is};

verus! {

/// All the records where every one was decoded, else the index of the first
/// that failed, with its error.
pub open spec fn collect_rows<T>(rs: Seq<Result<T, RecordError>>) -> Result<Seq<T>, BatchError> {
    let k = first_error(rs);
    if k == rs.len() {
        Ok(Seq::new(rs.len(), |i: int| rs[i]->Ok_0))
    } else {
        Err(BatchError::Row { row: k as usize, field: rs[k]->Err_0.field, cause: rs[k]->Err_0.cause })
    }
}

/// Where every record was decoded, `collect_rows` gives the records.
pub proof fn lemma_collect_rows_ok<T>(rs: Seq<Result<T, RecordError>>, vs: Seq<T>)
    requires
        vs.len() == rs.len(),
        forall|j: int| 0 <= j < rs.len() ==> #[trigger] rs[j] == Ok::<T, RecordError>(vs[j]),
    ensures
        collect_rows(rs) == Ok::<Seq<T>, BatchError>(vs),
{
    assert forall|j: int| 0 <= j < rs.len() implies #[trigger] rs[j] is Ok by {
        assert(rs[j] == Ok::<T, RecordError>(vs[j]));
    }
    lemma_first_error_is(rs, rs.len() as int);
    assert(Seq::new(rs.len(), |i: int| rs[i]->Ok_0) =~= vs);
}

/// Where record `k` is the first to fail, `collect_rows` names it.
pub proof fn lemma_collect_rows_err<T>(rs: Seq<Result<T, RecordError>>, k: int, e: RecordError)
    requires
        0 <= k < rs.len(),
        forall|j: int| 0 <= j < k ==> #[trigger] rs[j] is Ok,
        rs[k] == Err::<T, RecordError>(e),
    ensures
        collect_rows(rs) == Err::<Seq<T>, BatchError>(
            BatchError::Row { row: k as usize, field: e.field, cause: e.cause },
        ),
{
    lemma_first_error_is(rs, k);
}

} // verus!
