//! The bridge for detection records and their masks.

use vstd::prelude::*;
use crate::batch::{collect_rows, lemma_collect_rows_err, lemma_collect_rows_ok};
use crate::descriptor::FlatArray;
use crate::enum_variables::ResultType;
use crate::errors::{BatchError, DecodeError, Field, OwnershipError, RecordError};
use crate::heap::{flag_of, raw_flag, ForeignDetectionResult, ForeignMask, Heap, HeapView};
use crate::memory::{bound, released};
use crate::nested::{build_2d, decode_2d, decoded_2d, dispose_2d, encoded_2d, released_2d, MemoryView};
use crate::ownership::Side;
use crate::result::{masks_of, DetectionResult, DetectionResultView, Mask, MaskView};
use crate::scalar::{copy_from_foreign, decoded, dispose, encoded, released_array, to_foreign};
use crate::sequence::{collect, lemma_collect_err, lemma_collect_ok};
use crate::type_bridge::common::{bool_to_fd_c_bool, fd_c_bool_to_bool};

verus! {

/// The records of a native array of detection results.
pub open spec fn detection_of(v: Seq<DetectionResult>) -> Seq<DetectionResultView> {
    Seq::new(v.len(), |i: int| v[i]@)
}

/// What building a foreign mask from `m` does to the heap, and the mask it
/// gives.
pub open spec fn encoded_mask(h: HeapView, m: MaskView) -> (HeapView, ForeignMask) {
    let (bytes, data) = encoded(h.bytes.cells, m.data);
    let (longs, shape) = encoded(h.int64s.cells, m.shape);
    (
        HeapView {
            bytes: MemoryView { cells: bytes, ..h.bytes },
            int64s: MemoryView { cells: longs, ..h.int64s },
            ..h
        },
        ForeignMask { data, shape, type_: m.type_.raw() },
    )
}

/// What decoding the foreign mask `d` gives.
pub open spec fn decoded_mask(h: HeapView, d: ForeignMask) -> Result<MaskView, DecodeError> {
    match decoded(h.bytes.cells, d.data) {
        Err(e) => Err(e),
        Ok(data) => match decoded(h.int64s.cells, d.shape) {
            Err(e) => Err(e),
            Ok(shape) => Ok(MaskView { data, shape, type_: ResultType::of_raw(d.type_) }),
        },
    }
}

/// The masks of `v` built one after another, first to last.
pub open spec fn encoded_mask_rows(h: HeapView, v: Seq<MaskView>) -> (HeapView, Seq<ForeignMask>)
    decreases v.len(),
{
    if v.len() == 0 {
        (h, Seq::empty())
    } else {
        let (h1, ds) = encoded_mask_rows(h, v.drop_last());
        let (h2, d) = encoded_mask(h1, v.last());
        (h2, ds.push(d))
    }
}

/// What building an array of masks from `v` does to the heap, and the
/// descriptor it gives.
pub open spec fn encoded_masks(h: HeapView, v: Seq<MaskView>) -> (HeapView, FlatArray<ForeignMask>) {
    let (h1, ds) = encoded_mask_rows(h, v);
    let (masks, d) = encoded(h1.masks, ds);
    (HeapView { masks, ..h1 }, d)
}

/// What decoding each of the masks `ds` by itself gives.
pub open spec fn decoded_mask_rows(h: HeapView, ds: Seq<ForeignMask>) -> Seq<Result<MaskView, DecodeError>> {
    Seq::new(ds.len(), |i: int| decoded_mask(h, ds[i]))
}

/// What decoding the array of masks `d` gives; the first mask that fails
/// decides.
pub open spec fn decoded_masks(h: HeapView, d: FlatArray<ForeignMask>) -> Result<Seq<MaskView>, DecodeError> {
    match decoded(h.masks, d) {
        Err(e) => Err(e),
        Ok(ds) => collect(decoded_mask_rows(h, ds)),
    }
}

/// What decoding the masks of the record `d` gives: nothing where the flag
/// is not set, whatever the descriptor of the masks holds.
pub open spec fn decoded_gated_masks(h: HeapView, d: ForeignDetectionResult) -> Result<Seq<MaskView>, DecodeError> {
    if flag_of(d.contain_masks) {
        decoded_masks(h, d.masks)
    } else {
        Ok(Seq::empty())
    }
}

/// What building a record from `v` does to the heap, and the record it gives.
pub open spec fn encoded_detection(h: HeapView, v: DetectionResultView) -> (HeapView, ForeignDetectionResult) {
    let (f1, boxes) = encoded_2d(h.floats, v.boxes);
    let (f2, rotated_boxes) = encoded_2d(f1, v.rotated_boxes);
    let (f3, scores) = encoded(f2.cells, v.scores);
    let (ints, label_ids) = encoded(h.int32s.cells, v.label_ids);
    let h1 = HeapView {
        floats: MemoryView { cells: f3, ..f2 },
        int32s: MemoryView { cells: ints, ..h.int32s },
        ..h
    };
    let (h2, masks) = encoded_masks(h1, v.masks);
    (
        h2,
        ForeignDetectionResult {
            boxes,
            rotated_boxes,
            scores,
            label_ids,
            masks,
            contain_masks: raw_flag(v.contain_masks),
            type_: v.type_.raw(),
        },
    )
}

/// What decoding the record `d` gives; the first field that fails decides.
pub open spec fn decoded_detection(h: HeapView, d: ForeignDetectionResult) -> Result<
    DetectionResultView,
    RecordError,
> {
    match decoded_2d(h.floats, d.boxes) {
        Err(cause) => Err(RecordError { field: Field::Boxes, cause }),
        Ok(boxes) => match decoded_2d(h.floats, d.rotated_boxes) {
            Err(cause) => Err(RecordError { field: Field::RotatedBoxes, cause }),
            Ok(rotated_boxes) => match decoded(h.floats.cells, d.scores) {
                Err(cause) => Err(RecordError { field: Field::Scores, cause }),
                Ok(scores) => match decoded(h.int32s.cells, d.label_ids) {
                    Err(cause) => Err(RecordError { field: Field::LabelIds, cause }),
                    Ok(label_ids) => match decoded_gated_masks(h, d) {
                        Err(cause) => Err(RecordError { field: Field::Masks, cause }),
                        Ok(masks) => Ok(
                            DetectionResultView {
                                boxes,
                                rotated_boxes,
                                scores,
                                label_ids,
                                masks,
                                contain_masks: flag_of(d.contain_masks),
                                type_: ResultType::of_raw(d.type_),
                            },
                        ),
                    },
                },
            },
        },
    }
}

/// The records of `v` built one after another, first to last.
pub open spec fn encoded_detection_rows(h: HeapView, v: Seq<DetectionResultView>) -> (
    HeapView,
    Seq<ForeignDetectionResult>,
)
    decreases v.len(),
{
    if v.len() == 0 {
        (h, Seq::empty())
    } else {
        let (h1, ds) = encoded_detection_rows(h, v.drop_last());
        let (h2, d) = encoded_detection(h1, v.last());
        (h2, ds.push(d))
    }
}

/// What building a batch from `v` does to the heap, and the descriptor it
/// gives.
pub open spec fn encoded_detection_batch(h: HeapView, v: Seq<DetectionResultView>) -> (
    HeapView,
    FlatArray<ForeignDetectionResult>,
) {
    let (h1, ds) = encoded_detection_rows(h, v);
    let (detection, d) = encoded(h1.detection, ds);
    (HeapView { detection, ..h1 }, d)
}

/// What decoding each of the records `ds` by itself gives.
pub open spec fn decoded_detection_rows(h: HeapView, ds: Seq<ForeignDetectionResult>) -> Seq<
    Result<DetectionResultView, RecordError>,
> {
    Seq::new(ds.len(), |i: int| decoded_detection(h, ds[i]))
}

/// What decoding the batch `d` gives; the first record that fails decides,
/// and its index is reported.
pub open spec fn decoded_detection_batch(h: HeapView, d: FlatArray<ForeignDetectionResult>) -> Result<
    Seq<DetectionResultView>,
    BatchError,
> {
    match decoded(h.detection, d) {
        Err(cause) => Err(BatchError::Records { cause }),
        Ok(ds) => collect_rows(decoded_detection_rows(h, ds)),
    }
}

/// What disposing of the foreign mask `d` does.
pub open spec fn released_mask(h: HeapView, d: ForeignMask, by: Side) -> (HeapView, Result<(), OwnershipError>) {
    match released_array(h.bytes.cells, d.data, by) {
        Err(e) => (h, Err(e)),
        Ok(bytes) => {
            let h1 = HeapView { bytes: MemoryView { cells: bytes, ..h.bytes }, ..h };
            match released_array(h.int64s.cells, d.shape, by) {
                Err(e) => (h1, Err(e)),
                Ok(longs) => (HeapView { int64s: MemoryView { cells: longs, ..h.int64s }, ..h1 }, Ok(())),
            }
        },
    }
}

/// The masks of `ds` disposed of one after another, first to last, up to the
/// first that is refused.
pub open spec fn released_mask_rows(h: HeapView, ds: Seq<ForeignMask>, by: Side) -> (
    HeapView,
    Result<(), OwnershipError>,
)
    decreases ds.len(),
{
    if ds.len() == 0 {
        (h, Ok(()))
    } else {
        let (h1, r1) = released_mask_rows(h, ds.drop_last(), by);
        if r1 is Err {
            (h1, r1)
        } else {
            released_mask(h1, ds.last(), by)
        }
    }
}

/// What disposing of the array of masks `d` does: the masks first, then the
/// buffer that held them.
pub open spec fn released_masks(h: HeapView, d: FlatArray<ForeignMask>, by: Side) -> (
    HeapView,
    Result<(), OwnershipError>,
) {
    match d.data {
        None => (h, Ok(())),
        Some(p) => match released(h.masks, p as int, by) {
            Err(e) => (h, Err(e)),
            Ok(masks) => if d.size > bound(h.masks, p as int) {
                (h, Err(OwnershipError::SizeMismatch))
            } else {
                let ds = h.masks[p as int]->Some_0.items.take(d.size as int);
                let (h1, r) = released_mask_rows(h, ds, by);
                if r is Err {
                    (h1, r)
                } else {
                    (HeapView { masks, ..h1 }, Ok(()))
                }
            },
        },
    }
}

/// Disposing of masks touches the memory of bytes and of 64-bit integers,
/// and nothing else.
pub proof fn lemma_released_mask_rows_frame(h: HeapView, ds: Seq<ForeignMask>, by: Side)
    ensures
        released_mask_rows(h, ds, by).0 == (HeapView {
            bytes: released_mask_rows(h, ds, by).0.bytes,
            int64s: released_mask_rows(h, ds, by).0.int64s,
            ..h
        }),
    decreases ds.len(),
{
    if ds.len() > 0 {
        lemma_released_mask_rows_frame(h, ds.drop_last(), by);
    }
}

/// Disposing of a record leaves the arena of records as it is.
pub proof fn lemma_released_detection_frame(h: HeapView, d: ForeignDetectionResult, by: Side)
    ensures
        released_detection(h, d, by).0.detection == h.detection,
{
    let (f1, r1) = released_2d(h.floats, d.boxes, by);
    let (f2, r2) = released_2d(f1, d.rotated_boxes, by);
    if r1 is Ok && r2 is Ok {
        if let Ok(f3) = released_array(f2.cells, d.scores, by) {
            if let Ok(ints) = released_array(h.int32s.cells, d.label_ids, by) {
                let h4 = HeapView {
                    int32s: MemoryView { cells: ints, ..h.int32s },
                    floats: MemoryView { cells: f3, ..f2 },
                    ..h
                };
                if let Some(p) = d.masks.data {
                    if released(h4.masks, p as int, by) is Ok && d.masks.size <= bound(h4.masks, p as int) {
                        lemma_released_mask_rows_frame(
                            h4,
                            h4.masks[p as int]->Some_0.items.take(d.masks.size as int),
                            by,
                        );
                    }
                }
            }
        }
    }
}

/// Once a mask was refused, those behind it change nothing.
pub proof fn lemma_released_mask_rows_sticky(h: HeapView, ds: Seq<ForeignMask>, k: int, by: Side)
    requires
        0 <= k <= ds.len(),
        released_mask_rows(h, ds.take(k), by).1 is Err,
    ensures
        released_mask_rows(h, ds, by) == released_mask_rows(h, ds.take(k), by),
    decreases ds.len(),
{
    if k == ds.len() {
        assert(ds.take(k) =~= ds);
    } else {
        assert(ds.drop_last().take(k) =~= ds.take(k));
        lemma_released_mask_rows_sticky(h, ds.drop_last(), k, by);
    }
}

/// What disposing of the record `d` does: its arrays are disposed of one
/// after another, up to the first that is refused. The masks are disposed of
/// like the others, whatever the flag says.
pub open spec fn released_detection(h: HeapView, d: ForeignDetectionResult, by: Side) -> (
    HeapView,
    Result<(), OwnershipError>,
) {
    let (f1, r1) = released_2d(h.floats, d.boxes, by);
    let h1 = HeapView { floats: f1, ..h };
    if r1 is Err {
        (h1, r1)
    } else {
        let (f2, r2) = released_2d(f1, d.rotated_boxes, by);
        let h2 = HeapView { floats: f2, ..h };
        if r2 is Err {
            (h2, r2)
        } else {
            match released_array(f2.cells, d.scores, by) {
                Err(e) => (h2, Err(e)),
                Ok(f3) => {
                    let h3 = HeapView { floats: MemoryView { cells: f3, ..f2 }, ..h };
                    match released_array(h.int32s.cells, d.label_ids, by) {
                        Err(e) => (h3, Err(e)),
                        Ok(ints) => released_masks(
                            HeapView { int32s: MemoryView { cells: ints, ..h.int32s }, ..h3 },
                            d.masks,
                            by,
                        ),
                    }
                },
            }
        }
    }
}

/// The records of `ds` disposed of one after another, first to last, up to
/// the first that is refused.
pub open spec fn released_detection_rows(h: HeapView, ds: Seq<ForeignDetectionResult>, by: Side) -> (
    HeapView,
    Result<(), OwnershipError>,
)
    decreases ds.len(),
{
    if ds.len() == 0 {
        (h, Ok(()))
    } else {
        let (h1, r1) = released_detection_rows(h, ds.drop_last(), by);
        if r1 is Err {
            (h1, r1)
        } else {
            released_detection(h1, ds.last(), by)
        }
    }
}

/// What disposing of the batch `d` does. The buffer of records must be one
/// that `by` may free, and hold what `d` claims; then the records are
/// disposed of, and after the last of them that buffer itself.
pub open spec fn released_detection_batch(h: HeapView, d: FlatArray<ForeignDetectionResult>, by: Side) -> (
    HeapView,
    Result<(), OwnershipError>,
) {
    match d.data {
        None => (h, Ok(())),
        Some(p) => match released(h.detection, p as int, by) {
            Err(e) => (h, Err(e)),
            Ok(records) => if d.size > bound(h.detection, p as int) {
                (h, Err(OwnershipError::SizeMismatch))
            } else {
                let ds = h.detection[p as int]->Some_0.items.take(d.size as int);
                let (h1, r) = released_detection_rows(h, ds, by);
                if r is Err {
                    (h1, r)
                } else {
                    (HeapView { detection: records, ..h1 }, Ok(()))
                }
            },
        },
    }
}

/// Once a record was refused, those behind it change nothing.
pub proof fn lemma_released_detection_rows_sticky(h: HeapView, ds: Seq<ForeignDetectionResult>, k: int, by: Side)
    requires
        0 <= k <= ds.len(),
        released_detection_rows(h, ds.take(k), by).1 is Err,
    ensures
        released_detection_rows(h, ds, by) == released_detection_rows(h, ds.take(k), by),
    decreases ds.len(),
{
    if k == ds.len() {
        assert(ds.take(k) =~= ds);
    } else {
        assert(ds.drop_last().take(k) =~= ds.take(k));
        lemma_released_detection_rows_sticky(h, ds.drop_last(), k, by);
    }
}

impl Mask {
    /// Builds the foreign mask.
    pub fn to_raw_ptr(&self, heap: &mut Heap) -> (d: ForeignMask)
        ensures
            (final(heap)@, d) == encoded_mask(old(heap)@, self@),
    {
        let (data, _) = to_foreign(&mut heap.bytes.cells, &self.data);
        let (shape, _) = to_foreign(&mut heap.int64s.cells, &self.shape);
        ForeignMask { data, shape, type_: self.type_.to_raw() }
    }

    /// Decodes a foreign mask by copying.
    pub fn from_raw(heap: &Heap, d: &ForeignMask) -> (r: Result<Mask, DecodeError>)
        ensures
            match decoded_mask(heap@, *d) {
                Ok(m) => r is Ok && r->Ok_0@ == m,
                Err(e) => r == Err::<Mask, DecodeError>(e),
            },
    {
        let data = match copy_from_foreign(&heap.bytes.cells, &d.data) {
            Ok(v) => v,
            Err(e) => { return Err(e); },
        };
        let shape = match copy_from_foreign(&heap.int64s.cells, &d.shape) {
            Ok(v) => v,
            Err(e) => { return Err(e); },
        };
        Ok(Mask { data, shape, type_: ResultType::from(d.type_) })
    }

    /// Disposes of a foreign mask.
    pub fn release_raw(heap: &mut Heap, d: &ForeignMask, by: Side) -> (r: Result<(), OwnershipError>)
        ensures
            final(heap)@ == released_mask(old(heap)@, *d, by).0,
            r == released_mask(old(heap)@, *d, by).1,
    {
        match dispose(&mut heap.bytes.cells, &d.data, by) {
            Err(e) => { return Err(e); },
            Ok(()) => {},
        }
        dispose(&mut heap.int64s.cells, &d.shape, by)
    }
}

/// Disposes of an array of masks: the masks first, then the buffer that held
/// them.
pub fn release_masks(heap: &mut Heap, d: &FlatArray<ForeignMask>, by: Side) -> (r: Result<(), OwnershipError>)
    ensures
        final(heap)@ == released_masks(old(heap)@, *d, by).0,
        r == released_masks(old(heap)@, *d, by).1,
{
    let ghost before = heap@;
    let p = match d.data {
        None => { return Ok(()); },
        Some(p) => p,
    };
    match heap.masks.may_release(p, by) {
        Err(e) => { return Err(e); },
        Ok(()) => {},
    }
    if d.size > heap.masks.bound_of(p) {
        return Err(OwnershipError::SizeMismatch);
    }
    let ghost ds = before.masks[p as int]->Some_0.items.take(d.size as int);
    let mut i: usize = 0;
    while i < d.size
        invariant
            i <= d.size <= bound(before.masks, p as int),
            before == old(heap)@,
            d.data == Some(p),
            released(before.masks, p as int, by) is Ok,
            heap@.masks == before.masks,
            ds == before.masks[p as int]->Some_0.items.take(d.size as int),
            (heap@, Ok::<(), OwnershipError>(())) == released_mask_rows(before, ds.take(i as int), by),
        decreases d.size - i,
    {
        let mask = heap.masks.get(p, i);
        proof {
            assert(ds.take(i + 1).drop_last() =~= ds.take(i as int));
            assert(ds.take(i + 1).last() == mask);
        }
        match Mask::release_raw(heap, &mask, by) {
            Ok(()) => {},
            Err(e) => {
                proof {
                    lemma_released_mask_rows_sticky(before, ds, i + 1, by);
                }
                return Err(e);
            },
        }
        i += 1;
    }
    proof {
        assert(ds.take(i as int) =~= ds);
    }
    heap.masks.release(p, by)
}

/// Builds an array of masks: every mask by itself, then the array of them.
pub fn vec_mask_to_fd_c_two_dim_mask(heap: &mut Heap, masks: &Vec<Mask>) -> (d: FlatArray<ForeignMask>)
    ensures
        (final(heap)@, d) == encoded_masks(old(heap)@, masks_of(masks@)),
        d.wf(),
{
    let ghost before = heap@;
    let ghost v = masks_of(masks@);
    let mut s: Vec<ForeignMask> = Vec::with_capacity(masks.len());
    let mut i: usize = 0;
    while i < masks.len()
        invariant
            i <= masks.len(),
            v == masks_of(masks@),
            (heap@, s@) == encoded_mask_rows(before, v.take(i as int)),
        decreases masks.len() - i,
    {
        let d = masks[i].to_raw_ptr(heap);
        s.push(d);
        proof {
            assert(v.take(i + 1).drop_last() =~= v.take(i as int));
            assert(v.take(i + 1).last() == masks[i as int]@);
        }
        i += 1;
    }
    proof {
        assert(v.take(i as int) =~= v);
    }
    let (d, _) = to_foreign(&mut heap.masks, &s);
    d
}

/// Decodes an array of masks by copying, mask by mask. A null array holds no
/// masks.
pub fn fd_c_two_dim_mask_to_vec_mask(heap: &Heap, masks: &FlatArray<ForeignMask>) -> (r: Result<
    Vec<Mask>,
    DecodeError,
>)
    ensures
        match decoded_masks(heap@, *masks) {
            Ok(v) => r is Ok && masks_of(r->Ok_0@) == v,
            Err(e) => r == Err::<Vec<Mask>, DecodeError>(e),
        },
{
    let raw = match copy_from_foreign(&heap.masks, masks) {
        Ok(raw) => raw,
        Err(e) => { return Err(e); },
    };
    let ghost rs = decoded_mask_rows(heap@, raw@);
    let mut result: Vec<Mask> = Vec::with_capacity(raw.len());
    let mut i: usize = 0;
    while i < raw.len()
        invariant
            i <= raw.len(),
            result.len() == i,
            decoded(heap@.masks, *masks) == Ok::<Seq<ForeignMask>, DecodeError>(raw@),
            rs == decoded_mask_rows(heap@, raw@),
            forall|j: int| 0 <= j < i ==> #[trigger] rs[j] == Ok::<MaskView, DecodeError>(result@[j]@),
        decreases raw.len() - i,
    {
        match Mask::from_raw(heap, &raw[i]) {
            Ok(mask) => {
                result.push(mask);
            },
            Err(e) => {
                proof {
                    assert(rs[i as int] is Err);
                    lemma_collect_err(rs, i as int, e);
                }
                return Err(e);
            },
        }
        i += 1;
    }
    proof {
        lemma_collect_ok(rs, masks_of(result@));
    }
    Ok(result)
}

impl DetectionResult {
    /// Builds the foreign record: every array through the bridge of its
    /// shape, the flag as it is, then the discriminant.
    pub fn build_record(&self, heap: &mut Heap) -> (d: ForeignDetectionResult)
        ensures
            (final(heap)@, d) == encoded_detection(old(heap)@, self@),
    {
        let boxes = build_2d(&mut heap.floats, &self.boxes);
        let rotated_boxes = build_2d(&mut heap.floats, &self.rotated_boxes);
        let (scores, _) = to_foreign(&mut heap.floats.cells, &self.scores);
        let (label_ids, _) = to_foreign(&mut heap.int32s.cells, &self.label_ids);
        let masks = vec_mask_to_fd_c_two_dim_mask(heap, &self.masks);
        ForeignDetectionResult {
            boxes,
            rotated_boxes,
            scores,
            label_ids,
            masks,
            contain_masks: bool_to_fd_c_bool(self.contain_masks),
            type_: self.type_.to_raw(),
        }
    }

    /// Decodes a foreign record by copying. The masks are read only where
    /// the record says that it holds masks.
    pub fn decode_record(heap: &Heap, d: &ForeignDetectionResult) -> (r: Result<DetectionResult, RecordError>)
        ensures
            match decoded_detection(heap@, *d) {
                Ok(v) => r is Ok && r->Ok_0@ == v,
                Err(e) => r == Err::<DetectionResult, RecordError>(e),
            },
    {
        let boxes = match decode_2d(&heap.floats, &d.boxes) {
            Ok(v) => v,
            Err(cause) => { return Err(RecordError { field: Field::Boxes, cause }); },
        };
        let rotated_boxes = match decode_2d(&heap.floats, &d.rotated_boxes) {
            Ok(v) => v,
            Err(cause) => { return Err(RecordError { field: Field::RotatedBoxes, cause }); },
        };
        let scores = match copy_from_foreign(&heap.floats.cells, &d.scores) {
            Ok(v) => v,
            Err(cause) => { return Err(RecordError { field: Field::Scores, cause }); },
        };
        let label_ids = match copy_from_foreign(&heap.int32s.cells, &d.label_ids) {
            Ok(v) => v,
            Err(cause) => { return Err(RecordError { field: Field::LabelIds, cause }); },
        };
        let contain_masks = fd_c_bool_to_bool(d.contain_masks);
        let masks = if contain_masks {
            match fd_c_two_dim_mask_to_vec_mask(heap, &d.masks) {
                Ok(v) => v,
                Err(cause) => { return Err(RecordError { field: Field::Masks, cause }); },
            }
        } else {
            Vec::new()
        };
        let result = DetectionResult {
            boxes,
            rotated_boxes,
            scores,
            label_ids,
            masks,
            contain_masks,
            type_: ResultType::from(d.type_),
        };
        proof {
            if !contain_masks {
                assert(masks_of(result.masks@) =~= Seq::empty());
            }
        }
        Ok(result)
    }

    /// Builds a batch: every record by itself, then the array of the records.
    pub fn build_batch(heap: &mut Heap, values: &Vec<DetectionResult>) -> (d: FlatArray<ForeignDetectionResult>)
        ensures
            (final(heap)@, d) == encoded_detection_batch(old(heap)@, detection_of(values@)),
            d.wf(),
    {
        let ghost before = heap@;
        let ghost v = detection_of(values@);
        let mut records: Vec<ForeignDetectionResult> = Vec::with_capacity(values.len());
        let mut i: usize = 0;
        while i < values.len()
            invariant
                i <= values.len(),
                v == detection_of(values@),
                (heap@, records@) == encoded_detection_rows(before, v.take(i as int)),
            decreases values.len() - i,
        {
            let d = values[i].build_record(heap);
            records.push(d);
            proof {
                assert(v.take(i + 1).drop_last() =~= v.take(i as int));
                assert(v.take(i + 1).last() == values[i as int]@);
            }
            i += 1;
        }
        proof {
            assert(v.take(i as int) =~= v);
        }
        let (d, _) = to_foreign(&mut heap.detection, &records);
        d
    }

    /// Decodes a batch by copying, record by record, and stops at the first
    /// record that fails.
    pub fn decode_batch(heap: &Heap, d: &FlatArray<ForeignDetectionResult>) -> (r: Result<
        Vec<DetectionResult>,
        BatchError,
    >)
        ensures
            match decoded_detection_batch(heap@, *d) {
                Ok(v) => r is Ok && detection_of(r->Ok_0@) == v,
                Err(e) => r == Err::<Vec<DetectionResult>, BatchError>(e),
            },
    {
        let records = match copy_from_foreign(&heap.detection, d) {
            Ok(records) => records,
            Err(cause) => { return Err(BatchError::Records { cause }); },
        };
        let ghost rs = decoded_detection_rows(heap@, records@);
        let mut out: Vec<DetectionResult> = Vec::with_capacity(records.len());
        let mut i: usize = 0;
        while i < records.len()
            invariant
                i <= records.len(),
                out.len() == i,
                decoded(heap@.detection, *d) == Ok::<Seq<ForeignDetectionResult>, DecodeError>(records@),
                rs == decoded_detection_rows(heap@, records@),
                forall|j: int| 0 <= j < i ==> #[trigger] rs[j] == Ok::<DetectionResultView, RecordError>(out@[j]@),
            decreases records.len() - i,
        {
            match DetectionResult::decode_record(heap, &records[i]) {
                Ok(value) => {
                    out.push(value);
                },
                Err(e) => {
                    proof {
                        assert(rs[i as int] is Err);
                        lemma_collect_rows_err(rs, i as int, e);
                    }
                    return Err(BatchError::Row { row: i, field: e.field, cause: e.cause });
                },
            }
            i += 1;
        }
        proof {
            lemma_collect_rows_ok(rs, detection_of(out@));
        }
        Ok(out)
    }

    /// Disposes of a foreign record: every array, each with what it refers
    /// to before the buffer that refers to it.
    pub fn release_raw_ptr(heap: &mut Heap, result: &ForeignDetectionResult, by: Side) -> (r: Result<
        (),
        OwnershipError,
    >)
        ensures
            final(heap)@ == released_detection(old(heap)@, *result, by).0,
            r == released_detection(old(heap)@, *result, by).1,
    {
        match dispose_2d(&mut heap.floats, &result.boxes, by) {
            Err(e) => { return Err(e); },
            Ok(()) => {},
        }
        match dispose_2d(&mut heap.floats, &result.rotated_boxes, by) {
            Err(e) => { return Err(e); },
            Ok(()) => {},
        }
        match dispose(&mut heap.floats.cells, &result.scores, by) {
            Err(e) => { return Err(e); },
            Ok(()) => {},
        }
        match dispose(&mut heap.int32s.cells, &result.label_ids, by) {
            Err(e) => { return Err(e); },
            Ok(()) => {},
        }
        release_masks(heap, &result.masks, by)
    }

    /// Disposes of a batch: the records first, then the buffer that held
    /// them.
    pub fn release_batch(heap: &mut Heap, d: &FlatArray<ForeignDetectionResult>, by: Side) -> (r: Result<
        (),
        OwnershipError,
    >)
        ensures
            final(heap)@ == released_detection_batch(old(heap)@, *d, by).0,
            r == released_detection_batch(old(heap)@, *d, by).1,
    {
        let ghost before = heap@;
        let p = match d.data {
            None => { return Ok(()); },
            Some(p) => p,
        };
        match heap.detection.may_release(p, by) {
            Err(e) => { return Err(e); },
            Ok(()) => {},
        }
        if d.size > heap.detection.bound_of(p) {
            return Err(OwnershipError::SizeMismatch);
        }
        let ghost ds = before.detection[p as int]->Some_0.items.take(d.size as int);
        let mut i: usize = 0;
        while i < d.size
            invariant
                i <= d.size <= bound(before.detection, p as int),
                before == old(heap)@,
                d.data == Some(p),
                released(before.detection, p as int, by) is Ok,
                heap@.detection == before.detection,
                ds == before.detection[p as int]->Some_0.items.take(d.size as int),
                (heap@, Ok::<(), OwnershipError>(())) == released_detection_rows(before, ds.take(i as int), by),
            decreases d.size - i,
        {
            let record = heap.detection.get(p, i);
            proof {
                assert(ds.take(i + 1).drop_last() =~= ds.take(i as int));
                assert(ds.take(i + 1).last() == record);
            }
            proof {
                lemma_released_detection_frame(heap@, record, by);
            }
            match DetectionResult::release_raw_ptr(heap, &record, by) {
                Ok(()) => {},
                Err(e) => {
                    proof {
                        lemma_released_detection_rows_sticky(before, ds, i + 1, by);
                    }
                    return Err(e);
                },
            }
            i += 1;
        }
        proof {
            assert(ds.take(i as int) =~= ds);
        }
        heap.detection.release(p, by)
    }
}

} // verus!
