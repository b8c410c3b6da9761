//! What holds of the nested array bridge for every input: round trips, and
//! that what was built can be disposed of once and only once.

use vstd::prelude::*;
use crate::descriptor::{FlatArray, NestedArray};
use crate::errors::{DecodeError, OwnershipError};
use crate::memory::{live_count, Slots};
use crate::nested::{decoded_2d, decoded_3d, decoded_planes, decoded_rows};
use crate::nested::{encoded_2d, encoded_3d, encoded_planes, encoded_rows};
use crate::nested::{memory_extends, released_2d, released_3d, MemoryView};
use crate::ownership::Side;
use crate::region::{addressable, lemma_encoded_2d_extends, lemma_encoded_3d_extends, lemma_encoded_planes_extends};
use crate::region::{lemma_encoded_rows_extends, lemma_killed_fresh, lemma_release_built_2d, lemma_release_built_3d};
use crate::scalar::{decoded, encoded};
use crate::scalar::{lemma_decoded_stable, lemma_round_trip};
use crate::sequence::{lemma_collect_ok, lemma_first_error};

verus! {

/// The lengths of a native two-level array fit the machine's unsigned
/// integer, as those of every vector do.
pub open spec fn native_2d<T>(v: Seq<Seq<T>>) -> bool {
    &&& v.len() <= usize::MAX
    &&& forall|i: int| 0 <= i < v.len() ==> (#[trigger] v[i]).len() <= usize::MAX
}

/// The same of a native three-level array.
pub open spec fn native_3d<T>(v: Seq<Seq<Seq<T>>>) -> bool {
    &&& v.len() <= usize::MAX
    &&& forall|i: int| 0 <= i < v.len() ==> native_2d(#[trigger] v[i])
}

/// Each row that was encoded decodes to what it was.
pub proof fn lemma_encoded_rows_decode<T>(cells: Slots<T>, v: Seq<Seq<T>>)
    requires
        encoded_rows(cells, v).0.len() <= usize::MAX,
        native_2d(v),
    ensures
        forall|i: int| 0 <= i < v.len() ==> #[trigger] decoded(
            encoded_rows(cells, v).0,
            encoded_rows(cells, v).1[i],
        ) == Ok::<Seq<T>, DecodeError>(v[i]),
    decreases v.len(),
{
    if v.len() > 0 {
        let (c1, ds) = encoded_rows(cells, v.drop_last());
        let (c2, d) = encoded(c1, v.last());
        lemma_encoded_rows_extends(cells, v.drop_last());
        assert(native_2d(v.drop_last())) by {
            assert forall|i: int| 0 <= i < v.drop_last().len() implies (#[trigger] v.drop_last()[i]).len()
                <= usize::MAX by {
                assert(v.drop_last()[i] == v[i]);
            }
        }
        lemma_encoded_rows_decode(cells, v.drop_last());
        lemma_round_trip(c1, v.last());
        assert forall|i: int| 0 <= i < v.len() implies #[trigger] decoded(
            encoded_rows(cells, v).0,
            encoded_rows(cells, v).1[i],
        ) == Ok::<Seq<T>, DecodeError>(v[i]) by {
            if i < v.len() - 1 {
                assert(decoded(c1, ds[i]) == Ok::<Seq<T>, DecodeError>(v.drop_last()[i]));
                lemma_decoded_stable(c1, c2, ds[i]);
            }
        }
    }
}

/// Round trip, two levels: decoding what was built gives the rows back, each
/// with its own length.
pub proof fn lemma_round_trip_2d<T>(m: MemoryView<T>, v: Seq<Seq<T>>)
    requires
        addressable(encoded_2d(m, v).0),
        native_2d(v),
    ensures
        decoded_2d(encoded_2d(m, v).0, encoded_2d(m, v).1) == Ok::<Seq<Seq<T>>, DecodeError>(v),
{
    let (cells, ds) = encoded_rows(m.cells, v);
    let (after, d) = encoded_2d(m, v);
    lemma_encoded_rows_extends(m.cells, v);
    lemma_encoded_rows_decode(m.cells, v);
    lemma_round_trip(m.rows, ds);
    assert(decoded(after.rows, d) == Ok::<Seq<FlatArray<T>>, DecodeError>(ds));
    lemma_collect_ok(decoded_rows(cells, ds), v);
}

/// A two-level array that could be decoded still can after the memory has
/// grown, and gives the same.
pub proof fn lemma_decoded_2d_stable<T>(before: MemoryView<T>, after: MemoryView<T>, d: NestedArray<T>)
    requires
        memory_extends(after, before),
        decoded_2d(before, d) is Ok,
    ensures
        decoded_2d(after, d) == decoded_2d(before, d),
{
    let ds = decoded(before.rows, d)->Ok_0;
    lemma_decoded_stable(before.rows, after.rows, d);
    let rs = decoded_rows(before.cells, ds);
    lemma_first_error(rs);
    assert forall|i: int| 0 <= i < ds.len() implies decoded(after.cells, ds[i]) == decoded(
        before.cells,
        ds[i],
    ) by {
        assert(rs[i] is Ok);
        lemma_decoded_stable(before.cells, after.cells, ds[i]);
    }
    assert(decoded_rows(after.cells, ds) =~= rs);
}

/// Each two-level array that was built decodes to what it was.
pub proof fn lemma_encoded_planes_decode<T>(m: MemoryView<T>, v: Seq<Seq<Seq<T>>>)
    requires
        addressable(encoded_planes(m, v).0),
        native_3d(v),
    ensures
        forall|i: int| 0 <= i < v.len() ==> #[trigger] decoded_2d(
            encoded_planes(m, v).0,
            encoded_planes(m, v).1[i],
        ) == Ok::<Seq<Seq<T>>, DecodeError>(v[i]),
    decreases v.len(),
{
    if v.len() > 0 {
        let (m1, ds) = encoded_planes(m, v.drop_last());
        let (m2, d) = encoded_2d(m1, v.last());
        lemma_encoded_planes_extends(m, v.drop_last());
        lemma_encoded_2d_extends(m1, v.last());
        assert(native_3d(v.drop_last())) by {
            assert forall|i: int| 0 <= i < v.drop_last().len() implies native_2d(
                #[trigger] v.drop_last()[i],
            ) by {
                assert(v.drop_last()[i] == v[i]);
            }
        }
        lemma_encoded_planes_decode(m, v.drop_last());
        assert(native_2d(v.last()));
        lemma_round_trip_2d(m1, v.last());
        assert forall|i: int| 0 <= i < v.len() implies #[trigger] decoded_2d(
            encoded_planes(m, v).0,
            encoded_planes(m, v).1[i],
        ) == Ok::<Seq<Seq<T>>, DecodeError>(v[i]) by {
            if i < v.len() - 1 {
                assert(decoded_2d(m1, ds[i]) == Ok::<Seq<Seq<T>>, DecodeError>(v.drop_last()[i]));
                lemma_decoded_2d_stable(m1, m2, ds[i]);
            }
        }
    }
}

/// Round trip, three levels.
pub proof fn lemma_round_trip_3d<T>(m: MemoryView<T>, v: Seq<Seq<Seq<T>>>)
    requires
        addressable(encoded_3d(m, v).0),
        native_3d(v),
    ensures
        decoded_3d(encoded_3d(m, v).0, encoded_3d(m, v).1) == Ok::<Seq<Seq<Seq<T>>>, DecodeError>(v),
{
    let (m1, ds) = encoded_planes(m, v);
    let (after, d) = encoded_3d(m, v);
    lemma_encoded_planes_extends(m, v);
    lemma_encoded_planes_decode(m, v);
    lemma_round_trip(m1.planes, ds);
    assert(decoded(after.planes, d) == Ok::<Seq<NestedArray<T>>, DecodeError>(ds));
    assert forall|i: int| 0 <= i < ds.len() implies #[trigger] decoded_planes(after, ds)[i] == Ok::<
        Seq<Seq<T>>,
        DecodeError,
    >(v[i]) by {
        assert(decoded_2d(m1, ds[i]) == Ok::<Seq<Seq<T>>, DecodeError>(v[i]));
        lemma_decoded_2d_stable(m1, after, ds[i]);
    }
    lemma_collect_ok(decoded_planes(after, ds), v);
}

/// No leak, no double free, two levels: what was built can be disposed of by
/// the native side; after that every buffer that building had allocated is
/// freed, every other buffer is as it was, and a second disposal is refused.
pub proof fn lemma_dispose_once_2d<T>(m: MemoryView<T>, v: Seq<Seq<T>>)
    requires
        addressable(encoded_2d(m, v).0),
        native_2d(v),
    ensures
        released_2d(encoded_2d(m, v).0, encoded_2d(m, v).1, Side::Native).1 is Ok,
        ({
            let d = encoded_2d(m, v).1;
            let after = released_2d(encoded_2d(m, v).0, d, Side::Native).0;
            &&& memory_extends(after, m)
            &&& live_count(after.cells) == live_count(m.cells)
            &&& live_count(after.rows) == live_count(m.rows)
            &&& live_count(after.planes) == live_count(m.planes)
            &&& v.len() > 0 ==> released_2d(after, d, Side::Native).1 == Err::<(), OwnershipError>(
                OwnershipError::NotLive,
            )
        }),
{
    let (built, d) = encoded_2d(m, v);
    lemma_encoded_2d_extends(m, v);
    lemma_release_built_2d(m, v, built);
    lemma_killed_fresh(m.cells, built.cells);
    lemma_killed_fresh(m.rows, built.rows);
    lemma_killed_fresh(m.planes, built.planes);
}

/// No leak, no double free, three levels.
pub proof fn lemma_dispose_once_3d<T>(m: MemoryView<T>, v: Seq<Seq<Seq<T>>>)
    requires
        addressable(encoded_3d(m, v).0),
        native_3d(v),
    ensures
        released_3d(encoded_3d(m, v).0, encoded_3d(m, v).1, Side::Native).1 is Ok,
        ({
            let d = encoded_3d(m, v).1;
            let after = released_3d(encoded_3d(m, v).0, d, Side::Native).0;
            &&& memory_extends(after, m)
            &&& live_count(after.cells) == live_count(m.cells)
            &&& live_count(after.rows) == live_count(m.rows)
            &&& live_count(after.planes) == live_count(m.planes)
            &&& v.len() > 0 ==> released_3d(after, d, Side::Native).1 == Err::<(), OwnershipError>(
                OwnershipError::NotLive,
            )
        }),
{
    let (built, d) = encoded_3d(m, v);
    lemma_encoded_3d_extends(m, v);
    assert forall|i: int| 0 <= i < v.len() implies (#[trigger] v[i]).len() <= usize::MAX by {
        assert(native_2d(v[i]));
    }
    lemma_release_built_3d(m, v, built);
    lemma_killed_fresh(m.cells, built.cells);
    lemma_killed_fresh(m.rows, built.rows);
    lemma_killed_fresh(m.planes, built.planes);
}

} // verus!
