//! The bridge for segmentation records.

use vstd::prelude::*;
use crate::batch::{collect_rows, lemma_collect_rows_err, lemma_collect_rows_ok};
use crate::descriptor::{FlatArray, Float32};
use crate::enum_variables::ResultType;
use crate::errors::{BatchError, DecodeError, Field, OwnershipError, RecordError};
use crate::heap::{flag_of, raw_flag, ForeignSegmentationResult, Heap, HeapView};
use crate::memory::{bound, released};
use crate::nested::MemoryView;
use crate::ownership::Side;
use crate::result::{SegmentationResult, SegmentationResultView};
use crate::scalar::{copy_from_foreign, decoded, dispose, encoded, released_array, to_foreign};
use crate::type_bridge::common::{bool_to_fd_c_bool, fd_c_bool_to_bool};

verus! {

/// The records of a native array of segmentation results.
pub open spec fn segmentation_of(v: Seq<SegmentationResult>) -> Seq<SegmentationResultView> {
    Seq::new(v.len(), |i: int| v[i]@)
}

/// What building a record from `v` does to the heap, and the record it gives.
pub open spec fn encoded_segmentation(h: HeapView, v: SegmentationResultView) -> (
    HeapView,
    ForeignSegmentationResult,
) {
    let (bytes, label_map) = encoded(h.bytes.cells, v.label_map);
    let (floats, score_map) = encoded(h.floats.cells, v.score_map);
    let (longs, shape) = encoded(h.int64s.cells, v.shape);
    (
        HeapView {
            bytes: MemoryView { cells: bytes, ..h.bytes },
            floats: MemoryView { cells: floats, ..h.floats },
            int64s: MemoryView { cells: longs, ..h.int64s },
            ..h
        },
        ForeignSegmentationResult {
            label_map,
            score_map,
            shape,
            contain_score_map: raw_flag(v.contain_score_map),
            type_: v.type_.raw(),
        },
    )
}

/// What decoding the score map of `d` gives: nothing where the flag is not
/// set, whatever the descriptor of the score map holds.
pub open spec fn decoded_score_map(h: HeapView, d: ForeignSegmentationResult) -> Result<Seq<Float32>, DecodeError> {
    if flag_of(d.contain_score_map) {
        decoded(h.floats.cells, d.score_map)
    } else {
        Ok(Seq::empty())
    }
}

/// What decoding the record `d` gives; the first field that fails decides.
pub open spec fn decoded_segmentation(h: HeapView, d: ForeignSegmentationResult) -> Result<
    SegmentationResultView,
    RecordError,
> {
    match decoded(h.bytes.cells, d.label_map) {
        Err(cause) => Err(RecordError { field: Field::LabelMap, cause }),
        Ok(label_map) => match decoded_score_map(h, d) {
            Err(cause) => Err(RecordError { field: Field::ScoreMap, cause }),
            Ok(score_map) => match decoded(h.int64s.cells, d.shape) {
                Err(cause) => Err(RecordError { field: Field::Shape, cause }),
                Ok(shape) => Ok(
                    SegmentationResultView {
                        label_map,
                        score_map,
                        shape,
                        contain_score_map: flag_of(d.contain_score_map),
                        type_: ResultType::of_raw(d.type_),
                    },
                ),
            },
        },
    }
}

/// The records of `v` built one after another, first to last.
pub open spec fn encoded_segmentation_rows(h: HeapView, v: Seq<SegmentationResultView>) -> (
    HeapView,
    Seq<ForeignSegmentationResult>,
)
    decreases v.len(),
{
    if v.len() == 0 {
        (h, Seq::empty())
    } else {
        let (h1, ds) = encoded_segmentation_rows(h, v.drop_last());
        let (h2, d) = encoded_segmentation(h1, v.last());
        (h2, ds.push(d))
    }
}

/// What building a batch from `v` does to the heap, and the descriptor it
/// gives.
pub open spec fn encoded_segmentation_batch(h: HeapView, v: Seq<SegmentationResultView>) -> (
    HeapView,
    FlatArray<ForeignSegmentationResult>,
) {
    let (h1, ds) = encoded_segmentation_rows(h, v);
    let (segmentation, d) = encoded(h1.segmentation, ds);
    (HeapView { segmentation, ..h1 }, d)
}

/// What decoding each of the records `ds` by itself gives.
pub open spec fn decoded_segmentation_rows(h: HeapView, ds: Seq<ForeignSegmentationResult>) -> Seq<
    Result<SegmentationResultView, RecordError>,
> {
    Seq::new(ds.len(), |i: int| decoded_segmentation(h, ds[i]))
}

/// What decoding the batch `d` gives; the first record that fails decides,
/// and its index is reported.
pub open spec fn decoded_segmentation_batch(h: HeapView, d: FlatArray<ForeignSegmentationResult>) -> Result<
    Seq<SegmentationResultView>,
    BatchError,
> {
    match decoded(h.segmentation, d) {
        Err(cause) => Err(BatchError::Records { cause }),
        Ok(ds) => collect_rows(decoded_segmentation_rows(h, ds)),
    }
}

/// What disposing of the record `d` does: its arrays are freed one after
/// another, up to the first that is refused. The score map is freed like the
/// others, whatever the flag says.
pub open spec fn released_segmentation(h: HeapView, d: ForeignSegmentationResult, by: Side) -> (
    HeapView,
    Result<(), OwnershipError>,
) {
    match released_array(h.bytes.cells, d.label_map, by) {
        Err(e) => (h, Err(e)),
        Ok(bytes) => {
            let h1 = HeapView { bytes: MemoryView { cells: bytes, ..h.bytes }, ..h };
            match released_array(h.floats.cells, d.score_map, by) {
                Err(e) => (h1, Err(e)),
                Ok(floats) => {
                    let h2 = HeapView { floats: MemoryView { cells: floats, ..h.floats }, ..h1 };
                    match released_array(h.int64s.cells, d.shape, by) {
                        Err(e) => (h2, Err(e)),
                        Ok(longs) => (HeapView { int64s: MemoryView { cells: longs, ..h.int64s }, ..h2 }, Ok(())),
                    }
                },
            }
        },
    }
}

/// The records of `ds` disposed of one after another, first to last, up to
/// the first that is refused.
pub open spec fn released_segmentation_rows(h: HeapView, ds: Seq<ForeignSegmentationResult>, by: Side) -> (
    HeapView,
    Result<(), OwnershipError>,
)
    decreases ds.len(),
{
    if ds.len() == 0 {
        (h, Ok(()))
    } else {
        let (h1, r1) = released_segmentation_rows(h, ds.drop_last(), by);
        if r1 is Err {
            (h1, r1)
        } else {
            released_segmentation(h1, ds.last(), by)
        }
    }
}

/// What disposing of the batch `d` does. The buffer of records must be one
/// that `by` may free, and hold what `d` claims; then the records are
/// disposed of, and after the last of them that buffer itself.
pub open spec fn released_segmentation_batch(h: HeapView, d: FlatArray<ForeignSegmentationResult>, by: Side) -> (
    HeapView,
    Result<(), OwnershipError>,
) {
    match d.data {
        None => (h, Ok(())),
        Some(p) => match released(h.segmentation, p as int, by) {
            Err(e) => (h, Err(e)),
            Ok(records) => if d.size > bound(h.segmentation, p as int) {
                (h, Err(OwnershipError::SizeMismatch))
            } else {
                let ds = h.segmentation[p as int]->Some_0.items.take(d.size as int);
                let (h1, r) = released_segmentation_rows(h, ds, by);
                if r is Err {
                    (h1, r)
                } else {
                    (HeapView { segmentation: records, ..h1 }, Ok(()))
                }
            },
        },
    }
}

/// Once a record was refused, those behind it change nothing.
pub proof fn lemma_released_segmentation_rows_sticky(
    h: HeapView,
    ds: Seq<ForeignSegmentationResult>,
    k: int,
    by: Side,
)
    requires
        0 <= k <= ds.len(),
        released_segmentation_rows(h, ds.take(k), by).1 is Err,
    ensures
        released_segmentation_rows(h, ds, by) == released_segmentation_rows(h, ds.take(k), by),
    decreases ds.len(),
{
    if k == ds.len() {
        assert(ds.take(k) =~= ds);
    } else {
        assert(ds.drop_last().take(k) =~= ds.take(k));
        lemma_released_segmentation_rows_sticky(h, ds.drop_last(), k, by);
    }
}

impl SegmentationResult {
    /// Builds the foreign record: every array through the bridge of its
    /// shape, the flag as it is, then the discriminant.
    pub fn build_record(&self, heap: &mut Heap) -> (d: ForeignSegmentationResult)
        ensures
            (final(heap)@, d) == encoded_segmentation(old(heap)@, self@),
    {
        let (label_map, _) = to_foreign(&mut heap.bytes.cells, &self.label_map);
        let (score_map, _) = to_foreign(&mut heap.floats.cells, &self.score_map);
        let (shape, _) = to_foreign(&mut heap.int64s.cells, &self.shape);
        ForeignSegmentationResult {
            label_map,
            score_map,
            shape,
            contain_score_map: bool_to_fd_c_bool(self.contain_score_map),
            type_: self.type_.to_raw(),
        }
    }

    /// Decodes a foreign record by copying. The score map is read only where
    /// the record says that it holds one.
    pub fn decode_record(heap: &Heap, d: &ForeignSegmentationResult) -> (r: Result<SegmentationResult, RecordError>)
        ensures
            match decoded_segmentation(heap@, *d) {
                Ok(v) => r is Ok && r->Ok_0@ == v,
                Err(e) => r == Err::<SegmentationResult, RecordError>(e),
            },
    {
        let label_map = match copy_from_foreign(&heap.bytes.cells, &d.label_map) {
            Ok(v) => v,
            Err(cause) => { return Err(RecordError { field: Field::LabelMap, cause }); },
        };
        let contain_score_map = fd_c_bool_to_bool(d.contain_score_map);
        let score_map = if contain_score_map {
            match copy_from_foreign(&heap.floats.cells, &d.score_map) {
                Ok(v) => v,
                Err(cause) => { return Err(RecordError { field: Field::ScoreMap, cause }); },
            }
        } else {
            Vec::new()
        };
        let shape = match copy_from_foreign(&heap.int64s.cells, &d.shape) {
            Ok(v) => v,
            Err(cause) => { return Err(RecordError { field: Field::Shape, cause }); },
        };
        Ok(SegmentationResult { label_map, score_map, shape, contain_score_map, type_: ResultType::from(d.type_) })
    }

    /// Builds a batch: every record by itself, then the array of the records.
    pub fn build_batch(heap: &mut Heap, values: &Vec<SegmentationResult>) -> (d: FlatArray<
        ForeignSegmentationResult,
    >)
        ensures
            (final(heap)@, d) == encoded_segmentation_batch(old(heap)@, segmentation_of(values@)),
            d.wf(),
    {
        let ghost before = heap@;
        let ghost v = segmentation_of(values@);
        let mut records: Vec<ForeignSegmentationResult> = Vec::with_capacity(values.len());
        let mut i: usize = 0;
        while i < values.len()
            invariant
                i <= values.len(),
                v == segmentation_of(values@),
                (heap@, records@) == encoded_segmentation_rows(before, v.take(i as int)),
            decreases values.len() - i,
        {
            let d = values[i].build_record(heap);
            records.push(d);
            proof {
                assert(v.take(i + 1).drop_last() =~= v.take(i as int));
                assert(v.take(i + 1).last() == values[i as int]@);
            }
            i += 1;
        }
        proof {
            assert(v.take(i as int) =~= v);
        }
        let (d, _) = to_foreign(&mut heap.segmentation, &records);
        d
    }

    /// Decodes a batch by copying, record by record, and stops at the first
    /// record that fails.
    pub fn decode_batch(heap: &Heap, d: &FlatArray<ForeignSegmentationResult>) -> (r: Result<
        Vec<SegmentationResult>,
        BatchError,
    >)
        ensures
            match decoded_segmentation_batch(heap@, *d) {
                Ok(v) => r is Ok && segmentation_of(r->Ok_0@) == v,
                Err(e) => r == Err::<Vec<SegmentationResult>, BatchError>(e),
            },
    {
        let records = match copy_from_foreign(&heap.segmentation, d) {
            Ok(records) => records,
            Err(cause) => { return Err(BatchError::Records { cause }); },
        };
        let ghost rs = decoded_segmentation_rows(heap@, records@);
        let mut out: Vec<SegmentationResult> = Vec::with_capacity(records.len());
        let mut i: usize = 0;
        while i < records.len()
            invariant
                i <= records.len(),
                out.len() == i,
                decoded(heap@.segmentation, *d) == Ok::<Seq<ForeignSegmentationResult>, DecodeError>(records@),
                rs == decoded_segmentation_rows(heap@, records@),
                forall|j: int|
                    0 <= j < i ==> #[trigger] rs[j] == Ok::<SegmentationResultView, RecordError>(out@[j]@),
            decreases records.len() - i,
        {
            match SegmentationResult::decode_record(heap, &records[i]) {
                Ok(value) => {
                    out.push(value);
                },
                Err(e) => {
                    proof {
                        assert(rs[i as int] is Err);
                        lemma_collect_rows_err(rs, i as int, e);
                    }
                    return Err(BatchError::Row { row: i, field: e.field, cause: e.cause });
                },
            }
            i += 1;
        }
        proof {
            lemma_collect_rows_ok(rs, segmentation_of(out@));
        }
        Ok(out)
    }

    /// Disposes of a foreign record.
    pub fn release_raw_ptr(heap: &mut Heap, d: &ForeignSegmentationResult, by: Side) -> (r: Result<
        (),
        OwnershipError,
    >)
        ensures
            final(heap)@ == released_segmentation(old(heap)@, *d, by).0,
            r == released_segmentation(old(heap)@, *d, by).1,
    {
        match dispose(&mut heap.bytes.cells, &d.label_map, by) {
            Err(e) => { return Err(e); },
            Ok(()) => {},
        }
        match dispose(&mut heap.floats.cells, &d.score_map, by) {
            Err(e) => { return Err(e); },
            Ok(()) => {},
        }
        dispose(&mut heap.int64s.cells, &d.shape, by)
    }

    /// Disposes of a batch: the records first, then the buffer that held
    /// them.
    pub fn release_batch(heap: &mut Heap, d: &FlatArray<ForeignSegmentationResult>, by: Side) -> (r: Result<
        (),
        OwnershipError,
    >)
        ensures
            final(heap)@ == released_segmentation_batch(old(heap)@, *d, by).0,
            r == released_segmentation_batch(old(heap)@, *d, by).1,
    {
        let ghost before = heap@;
        let p = match d.data {
            None => { return Ok(()); },
            Some(p) => p,
        };
        match heap.segmentation.may_release(p, by) {
            Err(e) => { return Err(e); },
            Ok(()) => {},
        }
        if d.size > heap.segmentation.bound_of(p) {
            return Err(OwnershipError::SizeMismatch);
        }
        let ghost ds = before.segmentation[p as int]->Some_0.items.take(d.size as int);
        let mut i: usize = 0;
        while i < d.size
            invariant
                i <= d.size <= bound(before.segmentation, p as int),
                before == old(heap)@,
                d.data == Some(p),
                released(before.segmentation, p as int, by) is Ok,
                heap@.segmentation == before.segmentation,
                ds == before.segmentation[p as int]->Some_0.items.take(d.size as int),
                (heap@, Ok::<(), OwnershipError>(())) == released_segmentation_rows(before, ds.take(i as int), by),
            decreases d.size - i,
        {
            let record = heap.segmentation.get(p, i);
            proof {
                assert(ds.take(i + 1).drop_last() =~= ds.take(i as int));
                assert(ds.take(i + 1).last() == record);
            }
            match SegmentationResult::release_raw_ptr(heap, &record, by) {
                Ok(()) => {},
                Err(e) => {
                    proof {
                        lemma_released_segmentation_rows_sticky(before, ds, i + 1, by);
                    }
                    return Err(e);
                },
            }
            i += 1;
        }
        proof {
            assert(ds.take(i as int) =~= ds);
        }
        heap.segmentation.release(p, by)
    }
}

} // verus!
