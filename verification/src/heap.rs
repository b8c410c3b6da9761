//! The foreign side's memory as a whole, and the layout of the records that
//! lie in it.

use vstd::prelude::*;
use crate::descriptor::{FlatArray, Float32, NestedArray, StringDescriptor};
use crate::memory::{add_counts, counted, extends, lemma_plus_counts, live_count, Arena, Slots};
use crate::nested::{memory_extends, memory_live, Memory, MemoryView};

verus! {

/// A classification record as it crosses the boundary.
#[derive(Clone, Copy, Debug, PartialEq, Eq)]
pub struct ForeignClassifyResult {
    pub label_ids: FlatArray<i32>,
    pub scores: FlatArray<Float32>,
    pub type_: i32,
}

/// A mask as it crosses the boundary.
#[derive(Clone, Copy, Debug, PartialEq, Eq)]
pub struct ForeignMask {
    pub data: FlatArray<u8>,
    pub shape: FlatArray<i64>,
    pub type_: i32,
}

/// A detection record as it crosses the boundary. `masks` is meaningful only
/// where `contain_masks` is set.
#[derive(Clone, Copy, Debug, PartialEq, Eq)]
pub struct ForeignDetectionResult {
    pub boxes: NestedArray<Float32>,
    pub rotated_boxes: NestedArray<Float32>,
    pub scores: FlatArray<Float32>,
    pub label_ids: FlatArray<i32>,
    pub masks: FlatArray<ForeignMask>,
    pub contain_masks: i8,
    pub type_: i32,
}

/// A segmentation record as it crosses the boundary. `score_map` is
/// meaningful only where `contain_score_map` is set.
#[derive(Clone, Copy, Debug, PartialEq, Eq)]
pub struct ForeignSegmentationResult {
    pub label_map: FlatArray<u8>,
    pub score_map: FlatArray<Float32>,
    pub shape: FlatArray<i64>,
    pub contain_score_map: i8,
    pub type_: i32,
}

/// An OCR record as it crosses the boundary.
#[derive(Clone, Copy, Debug, PartialEq, Eq)]
pub struct ForeignOCRResult {
    pub boxes: NestedArray<i32>,
    pub text: NestedArray<u8>,
    pub rec_scores: FlatArray<Float32>,
    pub cls_scores: FlatArray<Float32>,
    pub cls_labels: FlatArray<i32>,
    pub table_boxes: NestedArray<i32>,
    pub table_structure: NestedArray<u8>,
    pub table_html: StringDescriptor,
    pub type_: i32,
}

/// All the memory that descriptors point into, one part for each type of
/// element.
pub struct Heap {
    pub bytes: Memory<u8>,
    pub int8s: Memory<i8>,
    pub int32s: Memory<i32>,
    pub int64s: Memory<i64>,
    pub sizes: Memory<usize>,
    pub floats: Memory<Float32>,
    pub masks: Arena<ForeignMask>,
    pub classify: Arena<ForeignClassifyResult>,
    pub detection: Arena<ForeignDetectionResult>,
    pub segmentation: Arena<ForeignSegmentationResult>,
    pub ocr: Arena<ForeignOCRResult>,
}

/// A [`Heap`] as specifications see it.
#[verifier::ext_equal]
pub struct HeapView {
    pub bytes: MemoryView<u8>,
    pub int8s: MemoryView<i8>,
    pub int32s: MemoryView<i32>,
    pub int64s: MemoryView<i64>,
    pub sizes: MemoryView<usize>,
    pub floats: MemoryView<Float32>,
    pub masks: Slots<ForeignMask>,
    pub classify: Slots<ForeignClassifyResult>,
    pub detection: Slots<ForeignDetectionResult>,
    pub segmentation: Slots<ForeignSegmentationResult>,
    pub ocr: Slots<ForeignOCRResult>,
}

impl View for Heap {
    type V = HeapView;

    open spec fn view(&self) -> HeapView {
        HeapView {
            bytes: self.bytes@,
            int8s: self.int8s@,
            int32s: self.int32s@,
            int64s: self.int64s@,
            sizes: self.sizes@,
            floats: self.floats@,
            masks: self.masks@,
            classify: self.classify@,
            detection: self.detection@,
            segmentation: self.segmentation@,
            ocr: self.ocr@,
        }
    }
}

impl Heap {
    /// A heap without buffers.
    pub fn new() -> (h: Self)
        ensures
            h@.masks.len() == 0,
            h@.classify.len() == 0,
            h@.detection.len() == 0,
            h@.segmentation.len() == 0,
            h@.ocr.len() == 0,
            h@.bytes.cells.len() == 0 && h@.bytes.rows.len() == 0 && h@.bytes.planes.len() == 0,
            h@.int8s.cells.len() == 0 && h@.int8s.rows.len() == 0 && h@.int8s.planes.len() == 0,
            h@.int32s.cells.len() == 0 && h@.int32s.rows.len() == 0 && h@.int32s.planes.len() == 0,
            h@.int64s.cells.len() == 0 && h@.int64s.rows.len() == 0 && h@.int64s.planes.len() == 0,
            h@.sizes.cells.len() == 0 && h@.sizes.rows.len() == 0 && h@.sizes.planes.len() == 0,
            h@.floats.cells.len() == 0 && h@.floats.rows.len() == 0 && h@.floats.planes.len() == 0,
    {
        Heap {
            bytes: Memory::new(),
            int8s: Memory::new(),
            int32s: Memory::new(),
            int64s: Memory::new(),
            sizes: Memory::new(),
            floats: Memory::new(),
            masks: Arena::new(),
            classify: Arena::new(),
            detection: Arena::new(),
            segmentation: Arena::new(),
            ocr: Arena::new(),
        }
    }
}

/// The number of live buffers of a heap.
pub open spec fn heap_live(h: HeapView) -> nat {
    memory_live(h.bytes) + memory_live(h.int8s) + memory_live(h.int32s) + memory_live(h.int64s) + memory_live(
        h.sizes,
    ) + memory_live(h.floats) + live_count(h.masks) + live_count(h.classify) + live_count(h.detection)
        + live_count(h.segmentation) + live_count(h.ocr)
}

impl Heap {
    /// Counts the live buffers of the whole heap; `None` where the machine
    /// cannot hold the number.
    pub fn live_blocks(&self) -> (n: Option<usize>)
        ensures
            n == counted(heap_live(self@)),
    {
        let ghost h = self@;
        let mut n = self.bytes.live_blocks();
        let ghost mut sum = memory_live(h.bytes);
        proof {
            lemma_plus_counts(sum, memory_live(h.int8s));
        }
        n = add_counts(n, self.int8s.live_blocks());
        proof {
            sum = sum + memory_live(h.int8s);
            lemma_plus_counts(sum, memory_live(h.int32s));
        }
        n = add_counts(n, self.int32s.live_blocks());
        proof {
            sum = sum + memory_live(h.int32s);
            lemma_plus_counts(sum, memory_live(h.int64s));
        }
        n = add_counts(n, self.int64s.live_blocks());
        proof {
            sum = sum + memory_live(h.int64s);
            lemma_plus_counts(sum, memory_live(h.sizes));
        }
        n = add_counts(n, self.sizes.live_blocks());
        proof {
            sum = sum + memory_live(h.sizes);
            lemma_plus_counts(sum, memory_live(h.floats));
        }
        n = add_counts(n, self.floats.live_blocks());
        proof {
            sum = sum + memory_live(h.floats);
            lemma_plus_counts(sum, live_count(h.masks));
        }
        n = add_counts(n, Some(self.masks.live_blocks()));
        proof {
            sum = sum + live_count(h.masks);
            lemma_plus_counts(sum, live_count(h.classify));
        }
        n = add_counts(n, Some(self.classify.live_blocks()));
        proof {
            sum = sum + live_count(h.classify);
            lemma_plus_counts(sum, live_count(h.detection));
        }
        n = add_counts(n, Some(self.detection.live_blocks()));
        proof {
            sum = sum + live_count(h.detection);
            lemma_plus_counts(sum, live_count(h.segmentation));
        }
        n = add_counts(n, Some(self.segmentation.live_blocks()));
        proof {
            sum = sum + live_count(h.segmentation);
            lemma_plus_counts(sum, live_count(h.ocr));
        }
        n = add_counts(n, Some(self.ocr.live_blocks()));
        n
    }
}

/// Every later state of a heap holds every slot of the earlier one.
pub open spec fn heap_extends(after: HeapView, before: HeapView) -> bool {
    &&& memory_extends(after.bytes, before.bytes)
    &&& memory_extends(after.int8s, before.int8s)
    &&& memory_extends(after.int32s, before.int32s)
    &&& memory_extends(after.int64s, before.int64s)
    &&& memory_extends(after.sizes, before.sizes)
    &&& memory_extends(after.floats, before.floats)
    &&& extends(after.masks, before.masks)
    &&& extends(after.classify, before.classify)
    &&& extends(after.detection, before.detection)
    &&& extends(after.segmentation, before.segmentation)
    &&& extends(after.ocr, before.ocr)
}

/// The flag that the integer `raw` stands for.
pub open spec fn flag_of(raw: i8) -> bool {
    raw >= 1
}

/// The integer that stands for the flag `flag`.
pub open spec fn raw_flag(flag: bool) -> i8 {
    if flag {
        1
    } else {
        0
    }
}

} // verus!
