//! What holds of the detection bridge for every input.

use vstd::prelude::*;
use crate::batch::lemma_collect_rows_ok;
use crate::descriptor::FlatArray;
use crate::detection::{decoded_detection, decoded_detection_batch, decoded_detection_rows};
use crate::detection::{decoded_mask, decoded_mask_rows, decoded_masks};
use crate::detection::{encoded_detection, encoded_detection_batch, encoded_detection_rows};
use crate::detection::{encoded_mask, encoded_mask_rows, encoded_masks};
use crate::detection::{released_detection, released_detection_batch, released_detection_rows};
use crate::detection::{released_mask, released_mask_rows, released_masks};
use crate::errors::{BatchError, DecodeError, OwnershipError, RecordError};
use crate::heap::{flag_of, heap_extends, heap_live, ForeignDetectionResult, ForeignMask, HeapView};
use crate::heap_laws::{heap_addressable, heap_intact, heap_killed};
use crate::heap_laws::{lemma_heap_intact_parts, lemma_heap_killed_fresh, lemma_heap_killed_twice};
use crate::ownership::Side;
use crate::region::{killed, lemma_killed_twice, lemma_memory_intact_parts, lemma_memory_killed_twice};
use crate::region::{lemma_release_built, lemma_release_built_2d, memory_killed};
use crate::memory::Slots;
use crate::nested::{encoded_2d, MemoryView};
use crate::nested_laws::{lemma_decoded_2d_stable, lemma_round_trip_2d, native_2d};
use crate::region::lemma_encoded_2d_extends;
use crate::result::{DetectionResultView, MaskView};
use crate::scalar::{decoded, encoded};
use crate::scalar::{lemma_decoded_stable, lemma_round_trip};
use crate::sequence::{lemma_collect_ok, lemma_first_error};

verus! {

/// The lengths of a native mask fit the machine's unsigned integer.
pub open spec fn native_mask(m: MaskView) -> bool {
    &&& m.data.len() <= usize::MAX
    &&& m.shape.len() <= usize::MAX
}

/// The same of every mask of a native array, and of the array.
pub open spec fn native_masks(v: Seq<MaskView>) -> bool {
    &&& v.len() <= usize::MAX
    &&& forall|i: int| 0 <= i < v.len() ==> native_mask(#[trigger] v[i])
}

/// The lengths of a native record fit the machine's unsigned integer.
pub open spec fn native_detection(v: DetectionResultView) -> bool {
    &&& native_2d(v.boxes)
    &&& native_2d(v.rotated_boxes)
    &&& v.scores.len() <= usize::MAX
    &&& v.label_ids.len() <= usize::MAX
    &&& native_masks(v.masks)
}

/// The same of every record of a native batch, and of the batch.
pub open spec fn native_detection_batch(v: Seq<DetectionResultView>) -> bool {
    &&& v.len() <= usize::MAX
    &&& forall|i: int| 0 <= i < v.len() ==> native_detection(#[trigger] v[i])
}

/// The record as a decoder sees it: without the masks where the flag is
/// not set.
pub open spec fn gated_detection(v: DetectionResultView) -> DetectionResultView {
    if v.contain_masks {
        v
    } else {
        DetectionResultView { masks: Seq::empty(), ..v }
    }
}

/// The records of a batch as a decoder sees them.
pub open spec fn gated_detection_batch(v: Seq<DetectionResultView>) -> Seq<DetectionResultView> {
    Seq::new(v.len(), |i: int| gated_detection(v[i]))
}

/// Building masks touches the memory of bytes, of 64-bit integers and of
/// masks, and nothing else.
pub open spec fn same_but_masks(after: HeapView, before: HeapView) -> bool {
    after == (HeapView { bytes: after.bytes, int64s: after.int64s, masks: after.masks, ..before })
}

/// Flag gate: where the flag is not set, the masks decode to nothing and the
/// record decodes to the same whatever stands in the descriptor of the
/// masks, and whatever the memory behind masks holds.
pub proof fn lemma_masks_gated(
    h: HeapView,
    d: ForeignDetectionResult,
    stale: FlatArray<ForeignMask>,
    masks: Slots<ForeignMask>,
    bytes: MemoryView<u8>,
    longs: MemoryView<i64>,
)
    requires
        !flag_of(d.contain_masks),
    ensures
        decoded_detection(h, d) is Ok ==> decoded_detection(h, d)->Ok_0.masks == Seq::<MaskView>::empty(),
        decoded_detection(
            HeapView { masks, bytes, int64s: longs, ..h },
            ForeignDetectionResult { masks: stale, ..d },
        ) == decoded_detection(h, d),
{
}

/// Building a mask only adds buffers.
pub proof fn lemma_encoded_mask_extends(h: HeapView, m: MaskView)
    ensures
        heap_extends(encoded_mask(h, m).0, h),
        same_but_masks(encoded_mask(h, m).0, h),
        encoded_mask(h, m).0.masks == h.masks,
{
}

/// Round trip for one mask.
pub proof fn lemma_round_trip_mask(h: HeapView, m: MaskView)
    requires
        heap_addressable(encoded_mask(h, m).0),
        native_mask(m),
    ensures
        decoded_mask(encoded_mask(h, m).0, encoded_mask(h, m).1) == Ok::<MaskView, DecodeError>(m),
{
    lemma_round_trip(h.bytes.cells, m.data);
    lemma_round_trip(h.int64s.cells, m.shape);
    m.type_.lemma_raw_round_trip();
}

/// A mask that could be decoded still can after the heap has grown, and
/// gives the same.
pub proof fn lemma_decoded_mask_stable(before: HeapView, after: HeapView, d: ForeignMask)
    requires
        heap_extends(after, before),
        decoded_mask(before, d) is Ok,
    ensures
        decoded_mask(after, d) == decoded_mask(before, d),
{
    lemma_decoded_stable(before.bytes.cells, after.bytes.cells, d.data);
    lemma_decoded_stable(before.int64s.cells, after.int64s.cells, d.shape);
}

/// Building masks one after another only adds buffers.
pub proof fn lemma_encoded_mask_rows_extends(h: HeapView, v: Seq<MaskView>)
    ensures
        heap_extends(encoded_mask_rows(h, v).0, h),
        same_but_masks(encoded_mask_rows(h, v).0, h),
        encoded_mask_rows(h, v).0.masks == h.masks,
        encoded_mask_rows(h, v).1.len() == v.len(),
    decreases v.len(),
{
    if v.len() > 0 {
        lemma_encoded_mask_rows_extends(h, v.drop_last());
        lemma_encoded_mask_extends(encoded_mask_rows(h, v.drop_last()).0, v.last());
    }
}

/// Each mask that was built decodes to what it was.
pub proof fn lemma_encoded_mask_rows_decode(h: HeapView, v: Seq<MaskView>)
    requires
        heap_addressable(encoded_mask_rows(h, v).0),
        native_masks(v),
    ensures
        forall|i: int| 0 <= i < v.len() ==> #[trigger] decoded_mask(
            encoded_mask_rows(h, v).0,
            encoded_mask_rows(h, v).1[i],
        ) == Ok::<MaskView, DecodeError>(v[i]),
    decreases v.len(),
{
    if v.len() > 0 {
        let (h1, ds) = encoded_mask_rows(h, v.drop_last());
        let (h2, d) = encoded_mask(h1, v.last());
        lemma_encoded_mask_rows_extends(h, v.drop_last());
        lemma_encoded_mask_extends(h1, v.last());
        assert(native_masks(v.drop_last())) by {
            assert forall|i: int| 0 <= i < v.drop_last().len() implies native_mask(
                #[trigger] v.drop_last()[i],
            ) by {
                assert(v.drop_last()[i] == v[i]);
            }
        }
        lemma_encoded_mask_rows_decode(h, v.drop_last());
        assert(native_mask(v.last()));
        lemma_round_trip_mask(h1, v.last());
        assert forall|i: int| 0 <= i < v.len() implies #[trigger] decoded_mask(
            encoded_mask_rows(h, v).0,
            encoded_mask_rows(h, v).1[i],
        ) == Ok::<MaskView, DecodeError>(v[i]) by {
            if i < v.len() - 1 {
                assert(decoded_mask(h1, ds[i]) == Ok::<MaskView, DecodeError>(v.drop_last()[i]));
                lemma_decoded_mask_stable(h1, h2, ds[i]);
            }
        }
    }
}

/// Building an array of masks only adds buffers, and touches nothing but the
/// memory behind masks.
pub proof fn lemma_encoded_masks_extends(h: HeapView, v: Seq<MaskView>)
    ensures
        heap_extends(encoded_masks(h, v).0, h),
        same_but_masks(encoded_masks(h, v).0, h),
{
    lemma_encoded_mask_rows_extends(h, v);
}

/// Round trip for arrays of masks.
pub proof fn lemma_round_trip_masks(h: HeapView, v: Seq<MaskView>)
    requires
        heap_addressable(encoded_masks(h, v).0),
        native_masks(v),
    ensures
        decoded_masks(encoded_masks(h, v).0, encoded_masks(h, v).1) == Ok::<Seq<MaskView>, DecodeError>(v),
{
    let (h1, ds) = encoded_mask_rows(h, v);
    let (after, d) = encoded_masks(h, v);
    lemma_encoded_mask_rows_extends(h, v);
    lemma_encoded_mask_rows_decode(h, v);
    lemma_round_trip(h1.masks, ds);
    assert(decoded(after.masks, d) == Ok::<Seq<ForeignMask>, DecodeError>(ds));
    assert forall|i: int| 0 <= i < ds.len() implies #[trigger] decoded_mask_rows(after, ds)[i] == Ok::<
        MaskView,
        DecodeError,
    >(v[i]) by {
        assert(decoded_mask(h1, ds[i]) == Ok::<MaskView, DecodeError>(v[i]));
        lemma_decoded_mask_stable(h1, after, ds[i]);
    }
    lemma_collect_ok(decoded_mask_rows(after, ds), v);
}

/// An array of masks that could be decoded still can after the heap has
/// grown, and gives the same.
pub proof fn lemma_decoded_masks_stable(before: HeapView, after: HeapView, d: FlatArray<ForeignMask>)
    requires
        heap_extends(after, before),
        decoded_masks(before, d) is Ok,
    ensures
        decoded_masks(after, d) == decoded_masks(before, d),
{
    let ds = decoded(before.masks, d)->Ok_0;
    lemma_decoded_stable(before.masks, after.masks, d);
    let rs = decoded_mask_rows(before, ds);
    lemma_first_error(rs);
    assert forall|i: int| 0 <= i < ds.len() implies decoded_mask(after, ds[i]) == decoded_mask(
        before,
        ds[i],
    ) by {
        assert(rs[i] is Ok);
        lemma_decoded_mask_stable(before, after, ds[i]);
    }
    assert(decoded_mask_rows(after, ds) =~= rs);
}

/// Building a record only adds buffers, and none to the arena of records.
pub proof fn lemma_encoded_detection_extends(h: HeapView, v: DetectionResultView)
    ensures
        heap_extends(encoded_detection(h, v).0, h),
        encoded_detection(h, v).0.detection == h.detection,
{
    let (f1, boxes) = encoded_2d(h.floats, v.boxes);
    let (f2, rotated_boxes) = encoded_2d(f1, v.rotated_boxes);
    let (f3, scores) = encoded(f2.cells, v.scores);
    let (ints, label_ids) = encoded(h.int32s.cells, v.label_ids);
    let h1 = HeapView {
        floats: MemoryView { cells: f3, ..f2 },
        int32s: MemoryView { cells: ints, ..h.int32s },
        ..h
    };
    lemma_encoded_2d_extends(h.floats, v.boxes);
    lemma_encoded_2d_extends(f1, v.rotated_boxes);
    lemma_encoded_masks_extends(h1, v.masks);
}

/// Round trip: decoding the record that was built gives the record back,
/// without the masks where the flag is not set.
pub proof fn lemma_round_trip_detection(h: HeapView, v: DetectionResultView)
    requires
        heap_addressable(encoded_detection(h, v).0),
        native_detection(v),
    ensures
        decoded_detection(encoded_detection(h, v).0, encoded_detection(h, v).1) == Ok::<
            DetectionResultView,
            RecordError,
        >(gated_detection(v)),
{
    let (f1, boxes) = encoded_2d(h.floats, v.boxes);
    let (f2, rotated_boxes) = encoded_2d(f1, v.rotated_boxes);
    let (f3, scores) = encoded(f2.cells, v.scores);
    let floats = MemoryView { cells: f3, ..f2 };
    let (ints, label_ids) = encoded(h.int32s.cells, v.label_ids);
    let h1 = HeapView { floats, int32s: MemoryView { cells: ints, ..h.int32s }, ..h };
    let (h2, masks) = encoded_masks(h1, v.masks);
    lemma_encoded_2d_extends(h.floats, v.boxes);
    lemma_encoded_2d_extends(f1, v.rotated_boxes);
    lemma_encoded_masks_extends(h1, v.masks);
    assert(h2.floats == floats);
    assert(h2.int32s == h1.int32s);
    lemma_round_trip_2d(h.floats, v.boxes);
    lemma_decoded_2d_stable(f1, floats, boxes);
    lemma_round_trip_2d(f1, v.rotated_boxes);
    lemma_decoded_2d_stable(f2, floats, rotated_boxes);
    lemma_round_trip(f2.cells, v.scores);
    lemma_round_trip(h.int32s.cells, v.label_ids);
    lemma_round_trip_masks(h1, v.masks);
    v.type_.lemma_raw_round_trip();
}

/// A record that could be decoded still can after the heap has grown, and
/// gives the same.
pub proof fn lemma_decoded_detection_stable(before: HeapView, after: HeapView, d: ForeignDetectionResult)
    requires
        heap_extends(after, before),
        decoded_detection(before, d) is Ok,
    ensures
        decoded_detection(after, d) == decoded_detection(before, d),
{
    lemma_decoded_2d_stable(before.floats, after.floats, d.boxes);
    lemma_decoded_2d_stable(before.floats, after.floats, d.rotated_boxes);
    lemma_decoded_stable(before.floats.cells, after.floats.cells, d.scores);
    lemma_decoded_stable(before.int32s.cells, after.int32s.cells, d.label_ids);
    if flag_of(d.contain_masks) {
        lemma_decoded_masks_stable(before, after, d.masks);
    }
}

/// Building records one after another only adds buffers.
pub proof fn lemma_encoded_detection_rows_extends(h: HeapView, v: Seq<DetectionResultView>)
    ensures
        heap_extends(encoded_detection_rows(h, v).0, h),
        encoded_detection_rows(h, v).0.detection == h.detection,
        encoded_detection_rows(h, v).1.len() == v.len(),
    decreases v.len(),
{
    if v.len() > 0 {
        lemma_encoded_detection_rows_extends(h, v.drop_last());
        lemma_encoded_detection_extends(encoded_detection_rows(h, v.drop_last()).0, v.last());
    }
}

/// Each record that was built decodes to what it was.
pub proof fn lemma_encoded_detection_rows_decode(h: HeapView, v: Seq<DetectionResultView>)
    requires
        heap_addressable(encoded_detection_rows(h, v).0),
        native_detection_batch(v),
    ensures
        forall|i: int| 0 <= i < v.len() ==> #[trigger] decoded_detection(
            encoded_detection_rows(h, v).0,
            encoded_detection_rows(h, v).1[i],
        ) == Ok::<DetectionResultView, RecordError>(gated_detection(v[i])),
    decreases v.len(),
{
    if v.len() > 0 {
        let (h1, ds) = encoded_detection_rows(h, v.drop_last());
        let (h2, d) = encoded_detection(h1, v.last());
        lemma_encoded_detection_rows_extends(h, v.drop_last());
        lemma_encoded_detection_extends(h1, v.last());
        assert(native_detection_batch(v.drop_last())) by {
            assert forall|i: int| 0 <= i < v.drop_last().len() implies native_detection(
                #[trigger] v.drop_last()[i],
            ) by {
                assert(v.drop_last()[i] == v[i]);
            }
        }
        lemma_encoded_detection_rows_decode(h, v.drop_last());
        assert(native_detection(v.last()));
        lemma_round_trip_detection(h1, v.last());
        assert forall|i: int| 0 <= i < v.len() implies #[trigger] decoded_detection(
            encoded_detection_rows(h, v).0,
            encoded_detection_rows(h, v).1[i],
        ) == Ok::<DetectionResultView, RecordError>(gated_detection(v[i])) by {
            if i < v.len() - 1 {
                assert(decoded_detection(h1, ds[i]) == Ok::<DetectionResultView, RecordError>(
                    gated_detection(v.drop_last()[i]),
                ));
                lemma_decoded_detection_stable(h1, h2, ds[i]);
            }
        }
    }
}

/// Round trip for batches.
pub proof fn lemma_round_trip_detection_batch(h: HeapView, v: Seq<DetectionResultView>)
    requires
        heap_addressable(encoded_detection_batch(h, v).0),
        native_detection_batch(v),
    ensures
        decoded_detection_batch(encoded_detection_batch(h, v).0, encoded_detection_batch(h, v).1) == Ok::<
            Seq<DetectionResultView>,
            BatchError,
        >(gated_detection_batch(v)),
{
    let (h1, ds) = encoded_detection_rows(h, v);
    let (after, d) = encoded_detection_batch(h, v);
    lemma_encoded_detection_rows_extends(h, v);
    lemma_encoded_detection_rows_decode(h, v);
    lemma_round_trip(h1.detection, ds);
    assert(decoded(after.detection, d) == Ok::<Seq<ForeignDetectionResult>, DecodeError>(ds));
    assert forall|i: int| 0 <= i < ds.len() implies #[trigger] decoded_detection_rows(after, ds)[i] == Ok::<
        DetectionResultView,
        RecordError,
    >(gated_detection_batch(v)[i]) by {
        assert(decoded_detection(h1, ds[i]) == Ok::<DetectionResultView, RecordError>(
            gated_detection(v[i]),
        ));
        lemma_decoded_detection_stable(h1, after, ds[i]);
    }
    lemma_collect_rows_ok(decoded_detection_rows(after, ds), gated_detection_batch(v));
}

/// The native side can dispose of the mask that was built, as long as its
/// buffers are still as they were built.
pub proof fn lemma_release_built_mask(at: HeapView, m: MaskView, s: HeapView)
    requires
        heap_addressable(encoded_mask(at, m).0),
        heap_intact(s, encoded_mask(at, m).0, at),
    ensures
        released_mask(s, encoded_mask(at, m).1, Side::Native) == (
            heap_killed(s, at, encoded_mask(at, m).0),
            Ok::<(), OwnershipError>(()),
        ),
{
    lemma_release_built(at.bytes.cells, m.data, s.bytes.cells);
    lemma_release_built(at.int64s.cells, m.shape, s.int64s.cells);
    assert(released_mask(s, encoded_mask(at, m).1, Side::Native).0 =~~= heap_killed(s, at, encoded_mask(at, m).0));
}

/// The same of masks that were built one after another.
pub proof fn lemma_release_built_mask_rows(at: HeapView, v: Seq<MaskView>, s: HeapView)
    requires
        heap_addressable(encoded_mask_rows(at, v).0),
        heap_intact(s, encoded_mask_rows(at, v).0, at),
    ensures
        released_mask_rows(s, encoded_mask_rows(at, v).1, Side::Native) == (
            heap_killed(s, at, encoded_mask_rows(at, v).0),
            Ok::<(), OwnershipError>(()),
        ),
    decreases v.len(),
{
    let (built, ds) = encoded_mask_rows(at, v);
    if v.len() == 0 {
        assert(heap_killed(s, at, at) =~~= s);
    } else {
        let (b1, ds1) = encoded_mask_rows(at, v.drop_last());
        let (b2, d) = encoded_mask(b1, v.last());
        lemma_encoded_mask_rows_extends(at, v.drop_last());
        lemma_encoded_mask_extends(b1, v.last());
        lemma_heap_intact_parts(s, at, b1, b2);
        lemma_release_built_mask_rows(at, v.drop_last(), s);
        assert(ds.drop_last() =~= ds1);
        lemma_release_built_mask(b1, v.last(), heap_killed(s, at, b1));
        lemma_heap_killed_twice(s, at, b1, b2);
    }
}

/// The same of an array of masks: the masks and the buffer that holds them.
pub proof fn lemma_release_built_masks(at: HeapView, v: Seq<MaskView>, s: HeapView)
    requires
        heap_addressable(encoded_masks(at, v).0),
        v.len() <= usize::MAX,
        heap_intact(s, encoded_masks(at, v).0, at),
    ensures
        released_masks(s, encoded_masks(at, v).1, Side::Native) == (
            heap_killed(s, at, encoded_masks(at, v).0),
            Ok::<(), OwnershipError>(()),
        ),
{
    let (h1, ds) = encoded_mask_rows(at, v);
    let (built, d) = encoded_masks(at, v);
    lemma_encoded_mask_rows_extends(at, v);
    assert(heap_intact(s, h1, at));
    lemma_release_built_mask_rows(at, v, s);
    if v.len() == 0 {
        assert(heap_killed(s, at, built) =~~= s);
    } else {
        let p = at.masks.len() as int;
        assert(s.masks[p] == built.masks[p]);
        assert(s.masks[p]->Some_0.items.take(d.size as int) =~= ds);
        let s1 = heap_killed(s, at, h1);
        assert(s1.masks =~= s.masks);
        assert(s.masks.update(p, None) =~= killed(s.masks, p, built.masks.len() as int));
        assert(released_masks(s, d, Side::Native).0 =~~= heap_killed(s, at, built));
    }
}

/// The native side can dispose of the record that was built, as long as its
/// buffers are still as they were built; they are dead afterwards and
/// nothing else has changed.
pub proof fn lemma_release_built_detection(at: HeapView, v: DetectionResultView, s: HeapView)
    requires
        heap_addressable(encoded_detection(at, v).0),
        native_detection(v),
        heap_intact(s, encoded_detection(at, v).0, at),
    ensures
        released_detection(s, encoded_detection(at, v).1, Side::Native) == (
            heap_killed(s, at, encoded_detection(at, v).0),
            Ok::<(), OwnershipError>(()),
        ),
{
    let (f1, boxes) = encoded_2d(at.floats, v.boxes);
    let (f2, rotated_boxes) = encoded_2d(f1, v.rotated_boxes);
    let (f3, scores) = encoded(f2.cells, v.scores);
    let floats = MemoryView { cells: f3, ..f2 };
    let (ints, label_ids) = encoded(at.int32s.cells, v.label_ids);
    let h1 = HeapView { floats, int32s: MemoryView { cells: ints, ..at.int32s }, ..at };
    let (built, masks) = encoded_masks(h1, v.masks);
    let d = encoded_detection(at, v).1;
    lemma_encoded_2d_extends(at.floats, v.boxes);
    lemma_encoded_2d_extends(f1, v.rotated_boxes);
    lemma_encoded_masks_extends(h1, v.masks);
    assert(built.floats == floats);
    assert(built.int32s == h1.int32s);

    // the boxes
    lemma_memory_intact_parts(s.floats, at.floats, f1, floats);
    lemma_release_built_2d(at.floats, v.boxes, s.floats);
    let g1 = memory_killed(s.floats, at.floats, f1);
    // the rotated boxes
    lemma_memory_intact_parts(g1, f1, f2, floats);
    lemma_release_built_2d(f1, v.rotated_boxes, g1);
    let g2 = memory_killed(g1, f1, f2);
    lemma_memory_killed_twice(s.floats, at.floats, f1, f2);
    // the scores
    lemma_release_built(f2.cells, v.scores, g2.cells);
    let g3 = MemoryView { cells: killed(g2.cells, f2.cells.len() as int, f3.len() as int), ..g2 };
    lemma_killed_twice(s.floats.cells, at.floats.cells.len() as int, f2.cells.len() as int, f3.len() as int);
    assert(g3 =~~= memory_killed(s.floats, at.floats, floats));
    // the labels
    lemma_release_built(at.int32s.cells, v.label_ids, s.int32s.cells);
    let s4 = HeapView {
        int32s: MemoryView {
            cells: killed(s.int32s.cells, at.int32s.cells.len() as int, ints.len() as int),
            ..s.int32s
        },
        floats: g3,
        ..s
    };
    assert(s4 =~~= heap_killed(s, at, h1));
    // the masks
    lemma_heap_intact_parts(s, at, h1, built);
    lemma_release_built_masks(h1, v.masks, s4);
    lemma_heap_killed_twice(s, at, h1, built);
}

/// The same of records that were built one after another.
pub proof fn lemma_release_built_detection_rows(at: HeapView, v: Seq<DetectionResultView>, s: HeapView)
    requires
        heap_addressable(encoded_detection_rows(at, v).0),
        native_detection_batch(v),
        heap_intact(s, encoded_detection_rows(at, v).0, at),
    ensures
        released_detection_rows(s, encoded_detection_rows(at, v).1, Side::Native) == (
            heap_killed(s, at, encoded_detection_rows(at, v).0),
            Ok::<(), OwnershipError>(()),
        ),
    decreases v.len(),
{
    let (built, ds) = encoded_detection_rows(at, v);
    if v.len() == 0 {
        assert(heap_killed(s, at, at) =~~= s);
    } else {
        let (b1, ds1) = encoded_detection_rows(at, v.drop_last());
        let (b2, d) = encoded_detection(b1, v.last());
        lemma_encoded_detection_rows_extends(at, v.drop_last());
        lemma_encoded_detection_extends(b1, v.last());
        lemma_heap_intact_parts(s, at, b1, b2);
        assert(native_detection_batch(v.drop_last())) by {
            assert forall|i: int| 0 <= i < v.drop_last().len() implies native_detection(
                #[trigger] v.drop_last()[i],
            ) by {
                assert(v.drop_last()[i] == v[i]);
            }
        }
        assert(native_detection(v.last()));
        lemma_release_built_detection_rows(at, v.drop_last(), s);
        assert(ds.drop_last() =~= ds1);
        lemma_release_built_detection(b1, v.last(), heap_killed(s, at, b1));
        lemma_heap_killed_twice(s, at, b1, b2);
    }
}

/// The same of a batch: the records and the buffer that holds them.
pub proof fn lemma_release_built_detection_batch(at: HeapView, v: Seq<DetectionResultView>, s: HeapView)
    requires
        heap_addressable(encoded_detection_batch(at, v).0),
        native_detection_batch(v),
        heap_intact(s, encoded_detection_batch(at, v).0, at),
    ensures
        released_detection_batch(s, encoded_detection_batch(at, v).1, Side::Native) == (
            heap_killed(s, at, encoded_detection_batch(at, v).0),
            Ok::<(), OwnershipError>(()),
        ),
{
    let (h1, ds) = encoded_detection_rows(at, v);
    let (built, d) = encoded_detection_batch(at, v);
    lemma_encoded_detection_rows_extends(at, v);
    assert(heap_intact(s, h1, at));
    lemma_release_built_detection_rows(at, v, s);
    if v.len() == 0 {
        assert(heap_killed(s, at, built) =~~= s);
    } else {
        let p = at.detection.len() as int;
        assert(s.detection[p] == built.detection[p]);
        assert(s.detection[p]->Some_0.items.take(d.size as int) =~= ds);
        let s1 = heap_killed(s, at, h1);
        assert(s1.detection =~= s.detection);
        assert(s.detection.update(p, None) =~= killed(s.detection, p, built.detection.len() as int));
        assert(released_detection_batch(s, d, Side::Native).0 =~~= heap_killed(s, at, built));
    }
}

/// No leak, no double free: the record that was built can be disposed of by
/// the native side; after that every buffer that building had allocated is
/// freed and every other buffer is as it was.
pub proof fn lemma_dispose_once_detection(h: HeapView, v: DetectionResultView)
    requires
        heap_addressable(encoded_detection(h, v).0),
        native_detection(v),
    ensures
        released_detection(encoded_detection(h, v).0, encoded_detection(h, v).1, Side::Native).1 is Ok,
        ({
            let after = released_detection(encoded_detection(h, v).0, encoded_detection(h, v).1, Side::Native).0;
            &&& heap_extends(after, h)
            &&& heap_live(after) == heap_live(h)
        }),
{
    let (built, d) = encoded_detection(h, v);
    lemma_encoded_detection_extends(h, v);
    lemma_release_built_detection(h, v, built);
    lemma_heap_killed_fresh(h, built);
}

/// No leak, no double free, for batches; a second disposal of a batch that
/// holds records is refused.
pub proof fn lemma_dispose_once_detection_batch(h: HeapView, v: Seq<DetectionResultView>)
    requires
        heap_addressable(encoded_detection_batch(h, v).0),
        native_detection_batch(v),
    ensures
        released_detection_batch(
            encoded_detection_batch(h, v).0,
            encoded_detection_batch(h, v).1,
            Side::Native,
        ).1 is Ok,
        ({
            let d = encoded_detection_batch(h, v).1;
            let after = released_detection_batch(encoded_detection_batch(h, v).0, d, Side::Native).0;
            &&& heap_extends(after, h)
            &&& heap_live(after) == heap_live(h)
            &&& v.len() > 0 ==> released_detection_batch(after, d, Side::Native).1 == Err::<(), OwnershipError>(
                OwnershipError::NotLive,
            )
        }),
{
    let (built, d) = encoded_detection_batch(h, v);
    lemma_encoded_detection_rows_extends(h, v);
    lemma_release_built_detection_batch(h, v, built);
    lemma_heap_killed_fresh(h, built);
}

} // verus!
