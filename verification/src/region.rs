//! Regions of an arena: the slots that one encoding has added.
//!
//! What was built by one encoding occupies, in every arena, the slots from
//! the length of the arena before to its length after. Disposing of what was
//! built frees exactly those slots, in whatever state the rest of the arena
//! is by then.

use vstd::prelude::*;

use crate::errors::OwnershipError;
use crate::memory::{extends, fresh, live_count, Slots};
use crate::nested::{encoded_2d, encoded_3d, encoded_planes, encoded_rows, memory_extends, memory_live};
use crate::nested::{released_2d, released_3d, released_planes, released_rows, MemoryView};
use crate::ownership::Side;
use crate::scalar::{encoded, released_array};

verus! {

/// The arena `s` holds, from the address `from` on, what `built` holds
/// there.
pub open spec fn region_intact<T>(s: Slots<T>, built: Slots<T>, from: int) -> bool {
    &&& built.len() <= s.len()
    &&& forall|p: int| from <= p < built.len() ==> s[p] == built[p]
}

/// The arena `s` with the slots from `from` up to `to` dead.
pub open spec fn killed<T>(s: Slots<T>, from: int, to: int) -> Slots<T> {
    Seq::new(s.len(), |p: int| if from <= p < to { None } else { s[p] })
}

/// The slots behind the first `from` are all dead.
pub open spec fn dead_from<T>(s: Slots<T>, from: int) -> bool {
    forall|p: int| from <= p < s.len() ==> (#[trigger] s[p]) is None
}

/// The memory `s` holds, in the regions that lie between `at` and `built`,
/// what `built` holds there.
pub open spec fn memory_intact<T>(s: MemoryView<T>, built: MemoryView<T>, at: MemoryView<T>) -> bool {
    &&& region_intact(s.cells, built.cells, at.cells.len() as int)
    &&& region_intact(s.rows, built.rows, at.rows.len() as int)
    &&& region_intact(s.planes, built.planes, at.planes.len() as int)
}

/// The memory `s` with the regions between `at` and `built` dead.
pub open spec fn memory_killed<T>(s: MemoryView<T>, at: MemoryView<T>, built: MemoryView<T>) -> MemoryView<T> {
    MemoryView {
        cells: killed(s.cells, at.cells.len() as int, built.cells.len() as int),
        rows: killed(s.rows, at.rows.len() as int, built.rows.len() as int),
        planes: killed(s.planes, at.planes.len() as int, built.planes.len() as int),
    }
}

/// Every address of the memory fits the machine's unsigned integer.
pub open spec fn addressable<T>(m: MemoryView<T>) -> bool {
    &&& m.cells.len() <= usize::MAX
    &&& m.rows.len() <= usize::MAX
    &&& m.planes.len() <= usize::MAX
}

/// Dead slots at the end count for nothing.
pub proof fn lemma_live_count_dead_tail<T>(after: Slots<T>, before: Slots<T>)
    requires
        extends(after, before),
        dead_from(after, before.len() as int),
    ensures
        live_count(after) == live_count(before),
    decreases after.len(),
{
    if after.len() == before.len() {
        assert(after =~= before);
    } else {
        assert(after.last() is None);
        lemma_live_count_dead_tail(after.drop_last(), before);
    }
}

/// An arena whose fresh region is dead again holds what it held before the
/// region was added, and as many live buffers.
pub proof fn lemma_killed_fresh<T>(before: Slots<T>, built: Slots<T>)
    requires
        extends(built, before),
    ensures
        extends(killed(built, before.len() as int, built.len() as int), before),
        dead_from(killed(built, before.len() as int, built.len() as int), before.len() as int),
        live_count(killed(built, before.len() as int, built.len() as int)) == live_count(before),
{
    lemma_live_count_dead_tail(killed(built, before.len() as int, built.len() as int), before);
}

/// What a memory holds in a larger region, it holds in every part of it:
/// the part up to a memory in between, and, once that part is dead, the
/// part behind it.
pub proof fn lemma_memory_intact_parts<T>(
    s: MemoryView<T>,
    at: MemoryView<T>,
    mid: MemoryView<T>,
    built: MemoryView<T>,
)
    requires
        memory_extends(built, mid),
        memory_extends(mid, at),
        memory_intact(s, built, at),
    ensures
        memory_intact(s, mid, at),
        memory_intact(memory_killed(s, at, mid), built, mid),
{
    lemma_region_intact_parts(s.cells, at.cells, mid.cells, built.cells);
    lemma_region_intact_parts(s.rows, at.rows, mid.rows, built.rows);
    lemma_region_intact_parts(s.planes, at.planes, mid.planes, built.planes);
}

/// The same of one arena.
pub proof fn lemma_region_intact_parts<T>(s: Slots<T>, at: Slots<T>, mid: Slots<T>, built: Slots<T>)
    requires
        extends(built, mid),
        extends(mid, at),
        region_intact(s, built, at.len() as int),
    ensures
        region_intact(s, mid, at.len() as int),
        region_intact(killed(s, at.len() as int, mid.len() as int), built, mid.len() as int),
{
    assert forall|p: int| at.len() <= p < mid.len() implies s[p] == mid[p] by {
        assert(built[p] == mid[p]);
    }
}

/// Killing two regions that touch, in a memory.
pub proof fn lemma_memory_killed_twice<T>(s: MemoryView<T>, a: MemoryView<T>, b: MemoryView<T>, c: MemoryView<T>)
    requires
        memory_extends(c, b),
        memory_extends(b, a),
    ensures
        memory_killed(memory_killed(s, a, b), b, c) == memory_killed(s, a, c),
{
    lemma_killed_twice(s.cells, a.cells.len() as int, b.cells.len() as int, c.cells.len() as int);
    lemma_killed_twice(s.rows, a.rows.len() as int, b.rows.len() as int, c.rows.len() as int);
    lemma_killed_twice(s.planes, a.planes.len() as int, b.planes.len() as int, c.planes.len() as int);
}

/// A memory whose fresh regions are dead again holds what it held before
/// the regions were added, and as many live buffers.
pub proof fn lemma_memory_killed_fresh<T>(before: MemoryView<T>, built: MemoryView<T>)
    requires
        memory_extends(built, before),
    ensures
        memory_extends(memory_killed(built, before, built), before),
        memory_live(memory_killed(built, before, built)) == memory_live(before),
{
    lemma_killed_fresh(before.cells, built.cells);
    lemma_killed_fresh(before.rows, built.rows);
    lemma_killed_fresh(before.planes, built.planes);
}

/// Killing two regions that touch is killing their union.
pub proof fn lemma_killed_twice<T>(s: Slots<T>, a: int, b: int, c: int)
    requires
        a <= b <= c,
    ensures
        killed(killed(s, a, b), b, c) == killed(s, a, c),
{
    assert(killed(killed(s, a, b), b, c) =~= killed(s, a, c));
}

/// Encoding rows only adds buffers, at most one for each row.
pub proof fn lemma_encoded_rows_extends<T>(cells: Slots<T>, v: Seq<Seq<T>>)
    ensures
        extends(encoded_rows(cells, v).0, cells),
        encoded_rows(cells, v).0.len() <= cells.len() + v.len(),
        encoded_rows(cells, v).1.len() == v.len(),
    decreases v.len(),
{
    if v.len() > 0 {
        lemma_encoded_rows_extends(cells, v.drop_last());
    }
}

/// Building a two-level array only adds buffers.
pub proof fn lemma_encoded_2d_extends<T>(m: MemoryView<T>, v: Seq<Seq<T>>)
    ensures
        memory_extends(encoded_2d(m, v).0, m),
        encoded_2d(m, v).0.planes == m.planes,
{
    lemma_encoded_rows_extends(m.cells, v);
}

/// Building two-level arrays one after another only adds buffers.
pub proof fn lemma_encoded_planes_extends<T>(m: MemoryView<T>, v: Seq<Seq<Seq<T>>>)
    ensures
        memory_extends(encoded_planes(m, v).0, m),
        encoded_planes(m, v).0.planes == m.planes,
        encoded_planes(m, v).1.len() == v.len(),
    decreases v.len(),
{
    if v.len() > 0 {
        lemma_encoded_planes_extends(m, v.drop_last());
        lemma_encoded_2d_extends(encoded_planes(m, v.drop_last()).0, v.last());
    }
}

/// Building a three-level array only adds buffers.
pub proof fn lemma_encoded_3d_extends<T>(m: MemoryView<T>, v: Seq<Seq<Seq<T>>>)
    ensures
        memory_extends(encoded_3d(m, v).0, m),
{
    lemma_encoded_planes_extends(m, v);
}

/// The native side can free the buffer that an encoding has added, as long
/// as the buffer is still as it was built; the slot of the buffer is dead
/// afterwards and nothing else has changed.
pub proof fn lemma_release_built<T>(at: Slots<T>, v: Seq<T>, s: Slots<T>)
    requires
        encoded(at, v).0.len() <= usize::MAX,
        region_intact(s, encoded(at, v).0, at.len() as int),
    ensures
        released_array(s, encoded(at, v).1, Side::Native) == Ok::<Slots<T>, OwnershipError>(
            killed(s, at.len() as int, encoded(at, v).0.len() as int),
        ),
{
    let (built, d) = encoded(at, v);
    if v.len() == 0 {
        assert(killed(s, at.len() as int, built.len() as int) =~= s);
    } else {
        let p = at.len() as int;
        assert(s[p] == built[p]);
        assert(s.update(p, None) =~= killed(s, p, built.len() as int));
    }
}

/// The same of rows that were encoded one after another.
pub proof fn lemma_release_built_rows<T>(at: Slots<T>, v: Seq<Seq<T>>, s: Slots<T>)
    requires
        encoded_rows(at, v).0.len() <= usize::MAX,
        region_intact(s, encoded_rows(at, v).0, at.len() as int),
    ensures
        released_rows(s, encoded_rows(at, v).1, Side::Native) == (
            killed(s, at.len() as int, encoded_rows(at, v).0.len() as int),
            Ok::<(), OwnershipError>(()),
        ),
    decreases v.len(),
{
    let (built, ds) = encoded_rows(at, v);
    if v.len() == 0 {
        assert(killed(s, at.len() as int, built.len() as int) =~= s);
    } else {
        let (b1, ds1) = encoded_rows(at, v.drop_last());
        let (b2, d) = encoded(b1, v.last());
        lemma_encoded_rows_extends(at, v.drop_last());
        assert(region_intact(s, b1, at.len() as int)) by {
            assert forall|p: int| at.len() <= p < b1.len() implies s[p] == b1[p] by {
                assert(b2[p] == b1[p]);
            }
        }
        lemma_release_built_rows(at, v.drop_last(), s);
        let s1 = killed(s, at.len() as int, b1.len() as int);
        assert(ds.drop_last() =~= ds1);
        assert(region_intact(s1, b2, b1.len() as int));
        lemma_release_built(b1, v.last(), s1);
        lemma_killed_twice(s, at.len() as int, b1.len() as int, b2.len() as int);
    }
}

/// The same of a two-level array: its rows and the buffer that refers to
/// them are freed, and nothing else changes.
pub proof fn lemma_release_built_2d<T>(at: MemoryView<T>, v: Seq<Seq<T>>, s: MemoryView<T>)
    requires
        addressable(encoded_2d(at, v).0),
        v.len() <= usize::MAX,
        memory_intact(s, encoded_2d(at, v).0, at),
    ensures
        released_2d(s, encoded_2d(at, v).1, Side::Native) == (
            memory_killed(s, at, encoded_2d(at, v).0),
            Ok::<(), OwnershipError>(()),
        ),
{
    let (cells, ds) = encoded_rows(at.cells, v);
    let (built, d) = encoded_2d(at, v);
    lemma_encoded_rows_extends(at.cells, v);
    lemma_release_built_rows(at.cells, v, s.cells);
    assert(killed(s.planes, at.planes.len() as int, built.planes.len() as int) =~= s.planes);
    if v.len() == 0 {
        assert(killed(s.rows, at.rows.len() as int, built.rows.len() as int) =~= s.rows);
    } else {
        let p = at.rows.len() as int;
        assert(s.rows[p] == built.rows[p]);
        assert(s.rows[p]->Some_0.items.take(d.size as int) =~= ds);
        assert(s.rows.update(p, None) =~= killed(s.rows, p, built.rows.len() as int));
    }
}

/// The same of two-level arrays that were built one after another.
pub proof fn lemma_release_built_planes<T>(at: MemoryView<T>, v: Seq<Seq<Seq<T>>>, s: MemoryView<T>)
    requires
        addressable(encoded_planes(at, v).0),
        forall|i: int| 0 <= i < v.len() ==> (#[trigger] v[i]).len() <= usize::MAX,
        memory_intact(s, encoded_planes(at, v).0, at),
    ensures
        released_planes(s, encoded_planes(at, v).1, Side::Native) == (
            memory_killed(s, at, encoded_planes(at, v).0),
            Ok::<(), OwnershipError>(()),
        ),
    decreases v.len(),
{
    let (built, ds) = encoded_planes(at, v);
    if v.len() == 0 {
        assert(killed(s.cells, at.cells.len() as int, built.cells.len() as int) =~= s.cells);
        assert(killed(s.rows, at.rows.len() as int, built.rows.len() as int) =~= s.rows);
        assert(killed(s.planes, at.planes.len() as int, built.planes.len() as int) =~= s.planes);
    } else {
        let (b1, ds1) = encoded_planes(at, v.drop_last());
        let (b2, d) = encoded_2d(b1, v.last());
        lemma_encoded_planes_extends(at, v.drop_last());
        lemma_encoded_2d_extends(b1, v.last());
        assert forall|i: int| 0 <= i < v.drop_last().len() implies (#[trigger] v.drop_last()[i]).len()
            <= usize::MAX by {
            assert(v.drop_last()[i] == v[i]);
        }
        assert(memory_intact(s, b1, at)) by {
            assert forall|p: int| at.cells.len() <= p < b1.cells.len() implies s.cells[p] == b1.cells[p] by {
                assert(b2.cells[p] == b1.cells[p]);
            }
            assert forall|p: int| at.rows.len() <= p < b1.rows.len() implies s.rows[p] == b1.rows[p] by {
                assert(b2.rows[p] == b1.rows[p]);
            }
        }
        lemma_release_built_planes(at, v.drop_last(), s);
        let s1 = memory_killed(s, at, b1);
        assert(ds.drop_last() =~= ds1);
        assert(memory_intact(s1, b2, b1));
        assert(v.last() == v[v.len() - 1]);
        lemma_release_built_2d(b1, v.last(), s1);
        lemma_killed_twice(s.cells, at.cells.len() as int, b1.cells.len() as int, b2.cells.len() as int);
        lemma_killed_twice(s.rows, at.rows.len() as int, b1.rows.len() as int, b2.rows.len() as int);
        lemma_killed_twice(s.planes, at.planes.len() as int, b1.planes.len() as int, b2.planes.len() as int);
    }
}

/// The same of a three-level array.
pub proof fn lemma_release_built_3d<T>(at: MemoryView<T>, v: Seq<Seq<Seq<T>>>, s: MemoryView<T>)
    requires
        addressable(encoded_3d(at, v).0),
        v.len() <= usize::MAX,
        forall|i: int| 0 <= i < v.len() ==> (#[trigger] v[i]).len() <= usize::MAX,
        memory_intact(s, encoded_3d(at, v).0, at),
    ensures
        released_3d(s, encoded_3d(at, v).1, Side::Native) == (
            memory_killed(s, at, encoded_3d(at, v).0),
            Ok::<(), OwnershipError>(()),
        ),
{
    let (m1, ds) = encoded_planes(at, v);
    let (built, d) = encoded_3d(at, v);
    lemma_encoded_planes_extends(at, v);
    if v.len() == 0 {
        assert(killed(s.cells, at.cells.len() as int, built.cells.len() as int) =~= s.cells);
        assert(killed(s.rows, at.rows.len() as int, built.rows.len() as int) =~= s.rows);
        assert(killed(s.planes, at.planes.len() as int, built.planes.len() as int) =~= s.planes);
    } else {
        let p = at.planes.len() as int;
        assert(s.planes[p] == built.planes[p]);
        assert(s.planes[p]->Some_0.items.take(d.size as int) =~= ds);
        assert(memory_intact(s, m1, at));
        lemma_release_built_planes(at, v, s);
        let s1 = memory_killed(s, at, m1);
        assert(s1.planes =~= s.planes);
        assert(s.planes.update(p, None) =~= killed(s.planes, p, built.planes.len() as int));
    }
}

} // verus!
