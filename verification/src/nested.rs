//! The nested array bridge: arrays of arrays, two and three levels deep, with
//! rows of any lengths.
//!
//! A level's buffer of descriptors is allocated only when all that it refers
//! to exists, and freed only when all that it refers to has been freed.

use vstd::prelude::*;
use crate::descriptor::{FlatArray, NestedArray, ThreeDimArray};
use crate::errors::{DecodeError, OwnershipError};
use crate::memory::{add_counts, bound, counted, extends, lemma_plus_counts, live_count, released, Arena, Slots};
use crate::ownership::Side;
use crate::scalar::{copy_from_foreign, decoded, dispose, encoded, released_array, to_foreign};
use crate::sequence::{collect, lemma_collect_err, lemma_collect_ok};

verus! {

/// The memory behind the arrays of one element type: the elements, the
/// descriptors of rows, and the descriptors of arrays of rows.
pub struct Memory<T> {
    pub cells: Arena<T>,
    pub rows: Arena<FlatArray<T>>,
    pub planes: Arena<NestedArray<T>>,
}

/// A [`Memory`] as specifications see it.
#[verifier::ext_equal]
pub struct MemoryView<T> {
    pub cells: Slots<T>,
    pub rows: Slots<FlatArray<T>>,
    pub planes: Slots<NestedArray<T>>,
}

impl<T> View for Memory<T> {
    type V = MemoryView<T>;

    open spec fn view(&self) -> MemoryView<T> {
        MemoryView { cells: self.cells@, rows: self.rows@, planes: self.planes@ }
    }
}

/// The number of live buffers of a memory.
pub open spec fn memory_live<T>(m: MemoryView<T>) -> nat {
    live_count(m.cells) + live_count(m.rows) + live_count(m.planes)
}

impl<T: Copy> Memory<T> {
    /// A memory without buffers.
    pub fn new() -> (m: Self)
        ensures
            m@.cells.len() == 0,
            m@.rows.len() == 0,
            m@.planes.len() == 0,
    {
        Memory { cells: Arena::new(), rows: Arena::new(), planes: Arena::new() }
    }

    /// Counts the live buffers; `None` where the machine cannot hold the
    /// number.
    pub fn live_blocks(&self) -> (n: Option<usize>)
        ensures
            n == counted(memory_live(self@)),
    {
        let cells = self.cells.live_blocks();
        let rows = self.rows.live_blocks();
        let planes = self.planes.live_blocks();
        proof {
            lemma_plus_counts(cells as nat, rows as nat);
            lemma_plus_counts((cells + rows) as nat, planes as nat);
        }
        add_counts(add_counts(Some(cells), Some(rows)), Some(planes))
    }
}

/// The rows of a native two-level array.
pub open spec fn rows_of<T>(v: Seq<Vec<T>>) -> Seq<Seq<T>> {
    Seq::new(v.len(), |i: int| v[i]@)
}

/// The rows of rows of a native three-level array.
pub open spec fn planes_of<T>(v: Seq<Vec<Vec<T>>>) -> Seq<Seq<Seq<T>>> {
    Seq::new(v.len(), |i: int| rows_of(v[i]@))
}

/// Every later state of a memory holds every slot of the earlier one.
pub open spec fn memory_extends<T>(after: MemoryView<T>, before: MemoryView<T>) -> bool {
    &&& extends(after.cells, before.cells)
    &&& extends(after.rows, before.rows)
    &&& extends(after.planes, before.planes)
}

/// The rows of `v` encoded one after another, first to last.
pub open spec fn encoded_rows<T>(cells: Slots<T>, v: Seq<Seq<T>>) -> (Slots<T>, Seq<FlatArray<T>>)
    decreases v.len(),
{
    if v.len() == 0 {
        (cells, Seq::empty())
    } else {
        let (c1, ds) = encoded_rows(cells, v.drop_last());
        let (c2, d) = encoded(c1, v.last());
        (c2, ds.push(d))
    }
}

/// What building a two-level array from `v` does to the memory, and the
/// descriptor it gives: every row encoded by itself, then the descriptors of
/// the rows encoded as one array.
pub open spec fn encoded_2d<T>(m: MemoryView<T>, v: Seq<Seq<T>>) -> (MemoryView<T>, NestedArray<T>) {
    let (cells, ds) = encoded_rows(m.cells, v);
    let (rows, d) = encoded(m.rows, ds);
    (MemoryView { cells, rows, planes: m.planes }, d)
}

/// What decoding each of the rows `ds` by itself gives.
pub open spec fn decoded_rows<T>(cells: Slots<T>, ds: Seq<FlatArray<T>>) -> Seq<Result<Seq<T>, DecodeError>> {
    Seq::new(ds.len(), |i: int| decoded(cells, ds[i]))
}

/// What decoding the two-level array `d` gives: its rows, each decoded by
/// itself; the first row that fails decides.
pub open spec fn decoded_2d<T>(m: MemoryView<T>, d: NestedArray<T>) -> Result<Seq<Seq<T>>, DecodeError> {
    match decoded(m.rows, d) {
        Err(e) => Err(e),
        Ok(ds) => collect(decoded_rows(m.cells, ds)),
    }
}

/// The buffers of `ds` freed one after another, first to last, up to the
/// first that is refused.
pub open spec fn released_rows<T>(cells: Slots<T>, ds: Seq<FlatArray<T>>, by: Side) -> (
    Slots<T>,
    Result<(), OwnershipError>,
)
    decreases ds.len(),
{
    if ds.len() == 0 {
        (cells, Ok(()))
    } else {
        let (c1, r1) = released_rows(cells, ds.drop_last(), by);
        if r1 is Err {
            (c1, r1)
        } else {
            match released_array(c1, ds.last(), by) {
                Ok(c2) => (c2, Ok(())),
                Err(e) => (c1, Err(e)),
            }
        }
    }
}

/// What disposing of the two-level array `d` does. The buffer of row
/// descriptors must be one that `by` may free, and hold what `d` claims; then
/// the rows are freed, and after the last of them that buffer itself.
pub open spec fn released_2d<T>(m: MemoryView<T>, d: NestedArray<T>, by: Side) -> (
    MemoryView<T>,
    Result<(), OwnershipError>,
) {
    match d.data {
        None => (m, Ok(())),
        Some(p) => match released(m.rows, p as int, by) {
            Err(e) => (m, Err(e)),
            Ok(rows) => if d.size > bound(m.rows, p as int) {
                (m, Err(OwnershipError::SizeMismatch))
            } else {
                let ds = m.rows[p as int]->Some_0.items.take(d.size as int);
                let (cells, r) = released_rows(m.cells, ds, by);
                if r is Err {
                    (MemoryView { cells, ..m }, r)
                } else {
                    (MemoryView { cells, rows, planes: m.planes }, Ok(()))
                }
            },
        },
    }
}

/// The two-level arrays of `v` built one after another, first to last.
pub open spec fn encoded_planes<T>(m: MemoryView<T>, v: Seq<Seq<Seq<T>>>) -> (
    MemoryView<T>,
    Seq<NestedArray<T>>,
)
    decreases v.len(),
{
    if v.len() == 0 {
        (m, Seq::empty())
    } else {
        let (m1, ds) = encoded_planes(m, v.drop_last());
        let (m2, d) = encoded_2d(m1, v.last());
        (m2, ds.push(d))
    }
}

/// What building a three-level array from `v` does to the memory, and the
/// descriptor it gives.
pub open spec fn encoded_3d<T>(m: MemoryView<T>, v: Seq<Seq<Seq<T>>>) -> (MemoryView<T>, ThreeDimArray<T>) {
    let (m1, ds) = encoded_planes(m, v);
    let (planes, d) = encoded(m1.planes, ds);
    (MemoryView { planes, ..m1 }, d)
}

/// What decoding each of the two-level arrays `ds` by itself gives.
pub open spec fn decoded_planes<T>(m: MemoryView<T>, ds: Seq<NestedArray<T>>) -> Seq<
    Result<Seq<Seq<T>>, DecodeError>,
> {
    Seq::new(ds.len(), |i: int| decoded_2d(m, ds[i]))
}

/// What decoding the three-level array `d` gives.
pub open spec fn decoded_3d<T>(m: MemoryView<T>, d: ThreeDimArray<T>) -> Result<Seq<Seq<Seq<T>>>, DecodeError> {
    match decoded(m.planes, d) {
        Err(e) => Err(e),
        Ok(ds) => collect(decoded_planes(m, ds)),
    }
}

/// The two-level arrays of `ds` disposed of one after another, first to
/// last, up to the first that is refused.
pub open spec fn released_planes<T>(m: MemoryView<T>, ds: Seq<NestedArray<T>>, by: Side) -> (
    MemoryView<T>,
    Result<(), OwnershipError>,
)
    decreases ds.len(),
{
    if ds.len() == 0 {
        (m, Ok(()))
    } else {
        let (m1, r1) = released_planes(m, ds.drop_last(), by);
        if r1 is Err {
            (m1, r1)
        } else {
            released_2d(m1, ds.last(), by)
        }
    }
}

/// What disposing of the three-level array `d` does.
pub open spec fn released_3d<T>(m: MemoryView<T>, d: ThreeDimArray<T>, by: Side) -> (
    MemoryView<T>,
    Result<(), OwnershipError>,
) {
    match d.data {
        None => (m, Ok(())),
        Some(p) => match released(m.planes, p as int, by) {
            Err(e) => (m, Err(e)),
            Ok(planes) => if d.size > bound(m.planes, p as int) {
                (m, Err(OwnershipError::SizeMismatch))
            } else {
                let ds = m.planes[p as int]->Some_0.items.take(d.size as int);
                let (m1, r) = released_planes(m, ds, by);
                if r is Err {
                    (m1, r)
                } else {
                    (MemoryView { planes, ..m1 }, Ok(()))
                }
            },
        },
    }
}

/// Builds a two-level array: one buffer for each row that has elements, and
/// one for the descriptors of the rows.
pub fn build_2d<T: Copy>(mem: &mut Memory<T>, rows: &Vec<Vec<T>>) -> (d: NestedArray<T>)
    ensures
        (final(mem)@, d) == encoded_2d(old(mem)@, rows_of(rows@)),
        d.wf(),
{
    let ghost before = mem@;
    let ghost v = rows_of(rows@);
    let mut descriptors: Vec<FlatArray<T>> = Vec::with_capacity(rows.len());
    let mut i: usize = 0;
    while i < rows.len()
        invariant
            i <= rows.len(),
            v == rows_of(rows@),
            mem.rows@ == before.rows,
            mem.planes@ == before.planes,
            (mem.cells@, descriptors@) == encoded_rows(before.cells, v.take(i as int)),
        decreases rows.len() - i,
    {
        let (d, _) = to_foreign(&mut mem.cells, &rows[i]);
        descriptors.push(d);
        proof {
            assert(v.take(i + 1).drop_last() =~= v.take(i as int));
            assert(v.take(i + 1).last() == rows[i as int]@);
        }
        i += 1;
    }
    proof {
        assert(v.take(i as int) =~= v);
    }
    let (d, _) = to_foreign(&mut mem.rows, &descriptors);
    d
}

/// Decodes a two-level array by copying, row by row.
pub fn decode_2d<T: Copy>(mem: &Memory<T>, d: &NestedArray<T>) -> (r: Result<Vec<Vec<T>>, DecodeError>)
    ensures
        match decoded_2d(mem@, *d) {
            Ok(v) => r is Ok && rows_of(r->Ok_0@) == v,
            Err(e) => r == Err::<Vec<Vec<T>>, DecodeError>(e),
        },
{
    let outer = match copy_from_foreign(&mem.rows, d) {
        Ok(outer) => outer,
        Err(e) => { return Err(e); },
    };
    let ghost rs = decoded_rows(mem.cells@, outer@);
    let mut out: Vec<Vec<T>> = Vec::with_capacity(outer.len());
    let mut i: usize = 0;
    while i < outer.len()
        invariant
            i <= outer.len(),
            out.len() == i,
            decoded(mem.rows@, *d) == Ok::<Seq<FlatArray<T>>, DecodeError>(outer@),
            rs == decoded_rows(mem.cells@, outer@),
            forall|j: int| 0 <= j < i ==> #[trigger] rs[j] == Ok::<Seq<T>, DecodeError>(out@[j]@),
        decreases outer.len() - i,
    {
        match copy_from_foreign(&mem.cells, &outer[i]) {
            Ok(row) => {
                out.push(row);
            },
            Err(e) => {
                proof {
                    assert(rs[i as int] is Err);
                    lemma_collect_err(rs, i as int, e);
                }
                return Err(e);
            },
        }
        i += 1;
    }
    proof {
        lemma_collect_ok(rs, rows_of(out@));
    }
    Ok(out)
}

/// Disposes of a two-level array: the rows first, then the buffer that
/// referred to them.
pub fn dispose_2d<T: Copy>(mem: &mut Memory<T>, d: &NestedArray<T>, by: Side) -> (r: Result<(), OwnershipError>)
    ensures
        final(mem)@ == released_2d(old(mem)@, *d, by).0,
        r == released_2d(old(mem)@, *d, by).1,
{
    let ghost before = mem@;
    let p = match d.data {
        None => { return Ok(()); },
        Some(p) => p,
    };
    match mem.rows.may_release(p, by) {
        Err(e) => { return Err(e); },
        Ok(()) => {},
    }
    if d.size > mem.rows.bound_of(p) {
        return Err(OwnershipError::SizeMismatch);
    }
    let ghost ds = before.rows[p as int]->Some_0.items.take(d.size as int);
    let mut i: usize = 0;
    while i < d.size
        invariant
            i <= d.size <= bound(before.rows, p as int),
            before == old(mem)@,
            d.data == Some(p),
            released(before.rows, p as int, by) is Ok,
            mem.rows@ == before.rows,
            mem.planes@ == before.planes,
            ds == before.rows[p as int]->Some_0.items.take(d.size as int),
            (mem.cells@, Ok::<(), OwnershipError>(())) == released_rows(before.cells, ds.take(i as int), by),
        decreases d.size - i,
    {
        let row = mem.rows.get(p, i);
        proof {
            assert(ds.take(i + 1).drop_last() =~= ds.take(i as int));
            assert(ds.take(i + 1).last() == row);
        }
        match dispose(&mut mem.cells, &row, by) {
            Ok(()) => {},
            Err(e) => {
                proof {
                    lemma_released_rows_sticky(before.cells, ds, i + 1, by);
                }
                return Err(e);
            },
        }
        i += 1;
    }
    proof {
        assert(ds.take(i as int) =~= ds);
    }
    mem.rows.release(p, by)
}

/// Builds a three-level array.
pub fn build_3d<T: Copy>(mem: &mut Memory<T>, planes: &Vec<Vec<Vec<T>>>) -> (d: ThreeDimArray<T>)
    ensures
        (final(mem)@, d) == encoded_3d(old(mem)@, planes_of(planes@)),
        d.wf(),
{
    let ghost before = mem@;
    let ghost v = planes_of(planes@);
    let mut descriptors: Vec<NestedArray<T>> = Vec::with_capacity(planes.len());
    let mut i: usize = 0;
    while i < planes.len()
        invariant
            i <= planes.len(),
            v == planes_of(planes@),
            (mem@, descriptors@) == encoded_planes(before, v.take(i as int)),
        decreases planes.len() - i,
    {
        let d = build_2d(mem, &planes[i]);
        descriptors.push(d);
        proof {
            assert(v.take(i + 1).drop_last() =~= v.take(i as int));
            assert(v.take(i + 1).last() == rows_of(planes[i as int]@));
        }
        i += 1;
    }
    proof {
        assert(v.take(i as int) =~= v);
    }
    let (d, _) = to_foreign(&mut mem.planes, &descriptors);
    d
}

/// Decodes a three-level array by copying.
pub fn decode_3d<T: Copy>(mem: &Memory<T>, d: &ThreeDimArray<T>) -> (r: Result<Vec<Vec<Vec<T>>>, DecodeError>)
    ensures
        match decoded_3d(mem@, *d) {
            Ok(v) => r is Ok && planes_of(r->Ok_0@) == v,
            Err(e) => r == Err::<Vec<Vec<Vec<T>>>, DecodeError>(e),
        },
{
    let outer = match copy_from_foreign(&mem.planes, d) {
        Ok(outer) => outer,
        Err(e) => { return Err(e); },
    };
    let ghost rs = decoded_planes(mem@, outer@);
    let mut out: Vec<Vec<Vec<T>>> = Vec::with_capacity(outer.len());
    let mut i: usize = 0;
    while i < outer.len()
        invariant
            i <= outer.len(),
            out.len() == i,
            decoded(mem.planes@, *d) == Ok::<Seq<NestedArray<T>>, DecodeError>(outer@),
            rs == decoded_planes(mem@, outer@),
            forall|j: int| 0 <= j < i ==> #[trigger] rs[j] == Ok::<Seq<Seq<T>>, DecodeError>(rows_of(out@[j]@)),
        decreases outer.len() - i,
    {
        match decode_2d(mem, &outer[i]) {
            Ok(plane) => {
                out.push(plane);
            },
            Err(e) => {
                proof {
                    assert(rs[i as int] is Err);
                    lemma_collect_err(rs, i as int, e);
                }
                return Err(e);
            },
        }
        i += 1;
    }
    proof {
        lemma_collect_ok(rs, planes_of(out@));
    }
    Ok(out)
}

/// Disposes of a three-level array, innermost buffers first.
pub fn dispose_3d<T: Copy>(mem: &mut Memory<T>, d: &ThreeDimArray<T>, by: Side) -> (r: Result<(), OwnershipError>)
    ensures
        final(mem)@ == released_3d(old(mem)@, *d, by).0,
        r == released_3d(old(mem)@, *d, by).1,
{
    let ghost before = mem@;
    let p = match d.data {
        None => { return Ok(()); },
        Some(p) => p,
    };
    match mem.planes.may_release(p, by) {
        Err(e) => { return Err(e); },
        Ok(()) => {},
    }
    if d.size > mem.planes.bound_of(p) {
        return Err(OwnershipError::SizeMismatch);
    }
    let ghost ds = before.planes[p as int]->Some_0.items.take(d.size as int);
    let mut i: usize = 0;
    while i < d.size
        invariant
            i <= d.size <= bound(before.planes, p as int),
            before == old(mem)@,
            d.data == Some(p),
            released(before.planes, p as int, by) is Ok,
            mem.planes@ == before.planes,
            ds == before.planes[p as int]->Some_0.items.take(d.size as int),
            (mem@, Ok::<(), OwnershipError>(())) == released_planes(before, ds.take(i as int), by),
        decreases d.size - i,
    {
        let plane = mem.planes.get(p, i);
        proof {
            assert(ds.take(i + 1).drop_last() =~= ds.take(i as int));
            assert(ds.take(i + 1).last() == plane);
        }
        match dispose_2d(mem, &plane, by) {
            Ok(()) => {},
            Err(e) => {
                proof {
                    lemma_released_planes_sticky(before, ds, i + 1, by);
                }
                return Err(e);
            },
        }
        i += 1;
    }
    proof {
        assert(ds.take(i as int) =~= ds);
    }
    mem.planes.release(p, by)
}

/// Once a row was refused, the rows behind it change nothing.
pub proof fn lemma_released_rows_sticky<T>(cells: Slots<T>, ds: Seq<FlatArray<T>>, k: int, by: Side)
    requires
        0 <= k <= ds.len(),
        released_rows(cells, ds.take(k), by).1 is Err,
    ensures
        released_rows(cells, ds, by) == released_rows(cells, ds.take(k), by),
    decreases ds.len(),
{
    if k == ds.len() {
        assert(ds.take(k) =~= ds);
    } else {
        assert(ds.drop_last().take(k) =~= ds.take(k));
        lemma_released_rows_sticky(cells, ds.drop_last(), k, by);
    }
}

/// Once a two-level array was refused, those behind it change nothing.
pub proof fn lemma_released_planes_sticky<T>(m: MemoryView<T>, ds: Seq<NestedArray<T>>, k: int, by: Side)
    requires
        0 <= k <= ds.len(),
        released_planes(m, ds.take(k), by).1 is Err,
    ensures
        released_planes(m, ds, by) == released_planes(m, ds.take(k), by),
    decreases ds.len(),
{
    if k == ds.len() {
        assert(ds.take(k) =~= ds);
    } else {
        assert(ds.drop_last().take(k) =~= ds.take(k));
        lemma_released_planes_sticky(m, ds.drop_last(), k, by);
    }
}

} // verus!
