//! Facts about the heap as a whole.

use vstd::prelude::*;
use crate::heap::{heap_extends, heap_live, HeapView};
use crate::memory::live_count;
use crate::region::{addressable, killed, lemma_killed_fresh, lemma_killed_twice, lemma_memory_intact_parts};
use crate::region::{lemma_memory_killed_fresh, lemma_memory_killed_twice, lemma_region_intact_parts};
use crate::region::{memory_intact, memory_killed, region_intact};

verus! {

/// Every address of the heap fits the machine's unsigned integer.
pub open spec fn heap_addressable(h: HeapView) -> bool {
    &&& addressable(h.bytes)
    &&& addressable(h.int8s)
    &&& addressable(h.int32s)
    &&& addressable(h.int64s)
    &&& addressable(h.sizes)
    &&& addressable(h.floats)
    &&& h.masks.len() <= usize::MAX
    &&& h.classify.len() <= usize::MAX
    &&& h.detection.len() <= usize::MAX
    &&& h.segmentation.len() <= usize::MAX
    &&& h.ocr.len() <= usize::MAX
}

/// The heap `s` holds, in the regions that lie between `at` and `built`,
/// what `built` holds there.
pub open spec fn heap_intact(s: HeapView, built: HeapView, at: HeapView) -> bool {
    &&& memory_intact(s.bytes, built.bytes, at.bytes)
    &&& memory_intact(s.int8s, built.int8s, at.int8s)
    &&& memory_intact(s.int32s, built.int32s, at.int32s)
    &&& memory_intact(s.int64s, built.int64s, at.int64s)
    &&& memory_intact(s.sizes, built.sizes, at.sizes)
    &&& memory_intact(s.floats, built.floats, at.floats)
    &&& region_intact(s.masks, built.masks, at.masks.len() as int)
    &&& region_intact(s.classify, built.classify, at.classify.len() as int)
    &&& region_intact(s.detection, built.detection, at.detection.len() as int)
    &&& region_intact(s.segmentation, built.segmentation, at.segmentation.len() as int)
    &&& region_intact(s.ocr, built.ocr, at.ocr.len() as int)
}

/// The heap `s` with the regions between `at` and `built` dead.
pub open spec fn heap_killed(s: HeapView, at: HeapView, built: HeapView) -> HeapView {
    HeapView {
        bytes: memory_killed(s.bytes, at.bytes, built.bytes),
        int8s: memory_killed(s.int8s, at.int8s, built.int8s),
        int32s: memory_killed(s.int32s, at.int32s, built.int32s),
        int64s: memory_killed(s.int64s, at.int64s, built.int64s),
        sizes: memory_killed(s.sizes, at.sizes, built.sizes),
        floats: memory_killed(s.floats, at.floats, built.floats),
        masks: killed(s.masks, at.masks.len() as int, built.masks.len() as int),
        classify: killed(s.classify, at.classify.len() as int, built.classify.len() as int),
        detection: killed(s.detection, at.detection.len() as int, built.detection.len() as int),
        segmentation: killed(s.segmentation, at.segmentation.len() as int, built.segmentation.len() as int),
        ocr: killed(s.ocr, at.ocr.len() as int, built.ocr.len() as int),
    }
}

/// What a heap holds in a larger region, it holds in every part of it: the
/// part up to a heap in between, and, once that part is dead, the part
/// behind it.
pub proof fn lemma_heap_intact_parts(s: HeapView, at: HeapView, mid: HeapView, built: HeapView)
    requires
        heap_extends(built, mid),
        heap_extends(mid, at),
        heap_intact(s, built, at),
    ensures
        heap_intact(s, mid, at),
        heap_intact(heap_killed(s, at, mid), built, mid),
{
    lemma_memory_intact_parts(s.bytes, at.bytes, mid.bytes, built.bytes);
    lemma_memory_intact_parts(s.int8s, at.int8s, mid.int8s, built.int8s);
    lemma_memory_intact_parts(s.int32s, at.int32s, mid.int32s, built.int32s);
    lemma_memory_intact_parts(s.int64s, at.int64s, mid.int64s, built.int64s);
    lemma_memory_intact_parts(s.sizes, at.sizes, mid.sizes, built.sizes);
    lemma_memory_intact_parts(s.floats, at.floats, mid.floats, built.floats);
    lemma_region_intact_parts(s.masks, at.masks, mid.masks, built.masks);
    lemma_region_intact_parts(s.classify, at.classify, mid.classify, built.classify);
    lemma_region_intact_parts(s.detection, at.detection, mid.detection, built.detection);
    lemma_region_intact_parts(s.segmentation, at.segmentation, mid.segmentation, built.segmentation);
    lemma_region_intact_parts(s.ocr, at.ocr, mid.ocr, built.ocr);
}

/// Killing two regions that touch, in a heap.
pub proof fn lemma_heap_killed_twice(s: HeapView, a: HeapView, b: HeapView, c: HeapView)
    requires
        heap_extends(c, b),
        heap_extends(b, a),
    ensures
        heap_killed(heap_killed(s, a, b), b, c) == heap_killed(s, a, c),
{
    lemma_memory_killed_twice(s.bytes, a.bytes, b.bytes, c.bytes);
    lemma_memory_killed_twice(s.int8s, a.int8s, b.int8s, c.int8s);
    lemma_memory_killed_twice(s.int32s, a.int32s, b.int32s, c.int32s);
    lemma_memory_killed_twice(s.int64s, a.int64s, b.int64s, c.int64s);
    lemma_memory_killed_twice(s.sizes, a.sizes, b.sizes, c.sizes);
    lemma_memory_killed_twice(s.floats, a.floats, b.floats, c.floats);
    lemma_killed_twice(s.masks, a.masks.len() as int, b.masks.len() as int, c.masks.len() as int);
    lemma_killed_twice(s.classify, a.classify.len() as int, b.classify.len() as int, c.classify.len() as int);
    lemma_killed_twice(s.detection, a.detection.len() as int, b.detection.len() as int, c.detection.len() as int);
    lemma_killed_twice(
        s.segmentation,
        a.segmentation.len() as int,
        b.segmentation.len() as int,
        c.segmentation.len() as int,
    );
    lemma_killed_twice(s.ocr, a.ocr.len() as int, b.ocr.len() as int, c.ocr.len() as int);
}

/// A heap whose fresh regions are dead again holds what it held before the
/// regions were added, and as many live buffers.
pub proof fn lemma_heap_killed_fresh(before: HeapView, built: HeapView)
    requires
        heap_extends(built, before),
    ensures
        heap_extends(heap_killed(built, before, built), before),
        heap_live(heap_killed(built, before, built)) == heap_live(before),
{
    lemma_memory_killed_fresh(before.bytes, built.bytes);
    lemma_memory_killed_fresh(before.int8s, built.int8s);
    lemma_memory_killed_fresh(before.int32s, built.int32s);
    lemma_memory_killed_fresh(before.int64s, built.int64s);
    lemma_memory_killed_fresh(before.sizes, built.sizes);
    lemma_memory_killed_fresh(before.floats, built.floats);
    lemma_killed_fresh(before.masks, built.masks);
    lemma_killed_fresh(before.classify, built.classify);
    lemma_killed_fresh(before.detection, built.detection);
    lemma_killed_fresh(before.segmentation, built.segmentation);
    lemma_killed_fresh(before.ocr, built.ocr);
}

} // verus!
