//! The bridge for classification records.

use vstd::prelude::*;
use crate::batch::{collect_rows, lemma_collect_rows_err, lemma_collect_rows_ok};
use crate::descriptor::FlatArray;
use crate::enum_variables::ResultType;
use crate::errors::{BatchError, DecodeError, Field, OwnershipError, RecordError};
use crate::heap::{ForeignClassifyResult, Heap, HeapView};
use crate::memory::{bound, released};
use crate::nested::MemoryView;
use crate::ownership::Side;
use crate::result::{ClassifyResult, ClassifyResultView};
use crate::scalar::{copy_from_foreign, decoded, dispose, encoded, released_array, to_foreign};

verus! {

/// The records of a native array of classification results.
pub open spec fn classify_of(v: Seq<ClassifyResult>) -> Seq<ClassifyResultView> {
    Seq::new(v.len(), |i: int| v[i]@)
}

/// What building a record from `v` does to the heap, and the record it gives.
pub open spec fn encoded_classify(h: HeapView, v: ClassifyResultView) -> (HeapView, ForeignClassifyResult) {
    let (ints, label_ids) = encoded(h.int32s.cells, v.label_ids);
    let (floats, scores) = encoded(h.floats.cells, v.scores);
    (
        HeapView {
            int32s: MemoryView { cells: ints, ..h.int32s },
            floats: MemoryView { cells: floats, ..h.floats },
            ..h
        },
        ForeignClassifyResult { label_ids, scores, type_: v.type_.raw() },
    )
}

/// What decoding the record `d` gives; the first field that fails decides.
pub open spec fn decoded_classify(h: HeapView, d: ForeignClassifyResult) -> Result<ClassifyResultView, RecordError> {
    match decoded(h.int32s.cells, d.label_ids) {
        Err(cause) => Err(RecordError { field: Field::LabelIds, cause }),
        Ok(label_ids) => match decoded(h.floats.cells, d.scores) {
            Err(cause) => Err(RecordError { field: Field::Scores, cause }),
            Ok(scores) => Ok(ClassifyResultView { label_ids, scores, type_: ResultType::of_raw(d.type_) }),
        },
    }
}

/// The records of `v` built one after another, first to last.
pub open spec fn encoded_classify_rows(h: HeapView, v: Seq<ClassifyResultView>) -> (
    HeapView,
    Seq<ForeignClassifyResult>,
)
    decreases v.len(),
{
    if v.len() == 0 {
        (h, Seq::empty())
    } else {
        let (h1, ds) = encoded_classify_rows(h, v.drop_last());
        let (h2, d) = encoded_classify(h1, v.last());
        (h2, ds.push(d))
    }
}

/// What building a batch from `v` does to the heap, and the descriptor it
/// gives.
pub open spec fn encoded_classify_batch(h: HeapView, v: Seq<ClassifyResultView>) -> (
    HeapView,
    FlatArray<ForeignClassifyResult>,
) {
    let (h1, ds) = encoded_classify_rows(h, v);
    let (classify, d) = encoded(h1.classify, ds);
    (HeapView { classify, ..h1 }, d)
}

/// What decoding each of the records `ds` by itself gives.
pub open spec fn decoded_classify_rows(h: HeapView, ds: Seq<ForeignClassifyResult>) -> Seq<
    Result<ClassifyResultView, RecordError>,
> {
    Seq::new(ds.len(), |i: int| decoded_classify(h, ds[i]))
}

/// What decoding the batch `d` gives; the first record that fails decides,
/// and its index is reported.
pub open spec fn decoded_classify_batch(h: HeapView, d: FlatArray<ForeignClassifyResult>) -> Result<
    Seq<ClassifyResultView>,
    BatchError,
> {
    match decoded(h.classify, d) {
        Err(cause) => Err(BatchError::Records { cause }),
        Ok(ds) => collect_rows(decoded_classify_rows(h, ds)),
    }
}

/// What disposing of the record `d` does: its arrays are freed one after
/// another, up to the first that is refused.
pub open spec fn released_classify(h: HeapView, d: ForeignClassifyResult, by: Side) -> (
    HeapView,
    Result<(), OwnershipError>,
) {
    match released_array(h.int32s.cells, d.label_ids, by) {
        Err(e) => (h, Err(e)),
        Ok(ints) => {
            let h1 = HeapView { int32s: MemoryView { cells: ints, ..h.int32s }, ..h };
            match released_array(h.floats.cells, d.scores, by) {
                Err(e) => (h1, Err(e)),
                Ok(floats) => (HeapView { floats: MemoryView { cells: floats, ..h.floats }, ..h1 }, Ok(())),
            }
        },
    }
}

/// The records of `ds` disposed of one after another, first to last, up to
/// the first that is refused.
pub open spec fn released_classify_rows(h: HeapView, ds: Seq<ForeignClassifyResult>, by: Side) -> (
    HeapView,
    Result<(), OwnershipError>,
)
    decreases ds.len(),
{
    if ds.len() == 0 {
        (h, Ok(()))
    } else {
        let (h1, r1) = released_classify_rows(h, ds.drop_last(), by);
        if r1 is Err {
            (h1, r1)
        } else {
            released_classify(h1, ds.last(), by)
        }
    }
}

/// What disposing of the batch `d` does. The buffer of records must be one
/// that `by` may free, and hold what `d` claims; then the records are
/// disposed of, and after the last of them that buffer itself.
pub open spec fn released_classify_batch(h: HeapView, d: FlatArray<ForeignClassifyResult>, by: Side) -> (
    HeapView,
    Result<(), OwnershipError>,
) {
    match d.data {
        None => (h, Ok(())),
        Some(p) => match released(h.classify, p as int, by) {
            Err(e) => (h, Err(e)),
            Ok(records) => if d.size > bound(h.classify, p as int) {
                (h, Err(OwnershipError::SizeMismatch))
            } else {
                let ds = h.classify[p as int]->Some_0.items.take(d.size as int);
                let (h1, r) = released_classify_rows(h, ds, by);
                if r is Err {
                    (h1, r)
                } else {
                    (HeapView { classify: records, ..h1 }, Ok(()))
                }
            },
        },
    }
}

/// Once a record was refused, those behind it change nothing.
pub proof fn lemma_released_classify_rows_sticky(h: HeapView, ds: Seq<ForeignClassifyResult>, k: int, by: Side)
    requires
        0 <= k <= ds.len(),
        released_classify_rows(h, ds.take(k), by).1 is Err,
    ensures
        released_classify_rows(h, ds, by) == released_classify_rows(h, ds.take(k), by),
    decreases ds.len(),
{
    if k == ds.len() {
        assert(ds.take(k) =~= ds);
    } else {
        assert(ds.drop_last().take(k) =~= ds.take(k));
        lemma_released_classify_rows_sticky(h, ds.drop_last(), k, by);
    }
}

impl ClassifyResult {
    /// Builds the foreign record: every array through the bridge of its
    /// shape, then the discriminant.
    pub fn build_record(&self, heap: &mut Heap) -> (d: ForeignClassifyResult)
        ensures
            (final(heap)@, d) == encoded_classify(old(heap)@, self@),
    {
        let (label_ids, _) = to_foreign(&mut heap.int32s.cells, &self.label_ids);
        let (scores, _) = to_foreign(&mut heap.floats.cells, &self.scores);
        ForeignClassifyResult { label_ids, scores, type_: self.type_.to_raw() }
    }

    /// Decodes a foreign record by copying.
    pub fn decode_record(heap: &Heap, d: &ForeignClassifyResult) -> (r: Result<ClassifyResult, RecordError>)
        ensures
            match decoded_classify(heap@, *d) {
                Ok(v) => r is Ok && r->Ok_0@ == v,
                Err(e) => r == Err::<ClassifyResult, RecordError>(e),
            },
    {
        let label_ids = match copy_from_foreign(&heap.int32s.cells, &d.label_ids) {
            Ok(v) => v,
            Err(cause) => { return Err(RecordError { field: Field::LabelIds, cause }); },
        };
        let scores = match copy_from_foreign(&heap.floats.cells, &d.scores) {
            Ok(v) => v,
            Err(cause) => { return Err(RecordError { field: Field::Scores, cause }); },
        };
        Ok(ClassifyResult { label_ids, scores, type_: ResultType::from(d.type_) })
    }

    /// Builds a batch: every record by itself, then the array of the records.
    pub fn build_batch(heap: &mut Heap, values: &Vec<ClassifyResult>) -> (d: FlatArray<ForeignClassifyResult>)
        ensures
            (final(heap)@, d) == encoded_classify_batch(old(heap)@, classify_of(values@)),
            d.wf(),
    {
        let ghost before = heap@;
        let ghost v = classify_of(values@);
        let mut records: Vec<ForeignClassifyResult> = Vec::with_capacity(values.len());
        let mut i: usize = 0;
        while i < values.len()
            invariant
                i <= values.len(),
                v == classify_of(values@),
                (heap@, records@) == encoded_classify_rows(before, v.take(i as int)),
            decreases values.len() - i,
        {
            let d = values[i].build_record(heap);
            records.push(d);
            proof {
                assert(v.take(i + 1).drop_last() =~= v.take(i as int));
                assert(v.take(i + 1).last() == values[i as int]@);
            }
            i += 1;
        }
        proof {
            assert(v.take(i as int) =~= v);
        }
        let (d, _) = to_foreign(&mut heap.classify, &records);
        d
    }

    /// Decodes a batch by copying, record by record, and stops at the first
    /// record that fails.
    pub fn decode_batch(heap: &Heap, d: &FlatArray<ForeignClassifyResult>) -> (r: Result<
        Vec<ClassifyResult>,
        BatchError,
    >)
        ensures
            match decoded_classify_batch(heap@, *d) {
                Ok(v) => r is Ok && classify_of(r->Ok_0@) == v,
                Err(e) => r == Err::<Vec<ClassifyResult>, BatchError>(e),
            },
    {
        let records = match copy_from_foreign(&heap.classify, d) {
            Ok(records) => records,
            Err(cause) => { return Err(BatchError::Records { cause }); },
        };
        let ghost rs = decoded_classify_rows(heap@, records@);
        let mut out: Vec<ClassifyResult> = Vec::with_capacity(records.len());
        let mut i: usize = 0;
        while i < records.len()
            invariant
                i <= records.len(),
                out.len() == i,
                decoded(heap@.classify, *d) == Ok::<Seq<ForeignClassifyResult>, DecodeError>(records@),
                rs == decoded_classify_rows(heap@, records@),
                forall|j: int| 0 <= j < i ==> #[trigger] rs[j] == Ok::<ClassifyResultView, RecordError>(out@[j]@),
            decreases records.len() - i,
        {
            match ClassifyResult::decode_record(heap, &records[i]) {
                Ok(value) => {
                    out.push(value);
                },
                Err(e) => {
                    proof {
                        assert(rs[i as int] is Err);
                        lemma_collect_rows_err(rs, i as int, e);
                    }
                    return Err(BatchError::Row { row: i, field: e.field, cause: e.cause });
                },
            }
            i += 1;
        }
        proof {
            lemma_collect_rows_ok(rs, classify_of(out@));
        }
        Ok(out)
    }

    /// Disposes of a foreign record.
    pub fn release_raw_ptr(heap: &mut Heap, d: &ForeignClassifyResult, by: Side) -> (r: Result<(), OwnershipError>)
        ensures
            final(heap)@ == released_classify(old(heap)@, *d, by).0,
            r == released_classify(old(heap)@, *d, by).1,
    {
        match dispose(&mut heap.int32s.cells, &d.label_ids, by) {
            Err(e) => { return Err(e); },
            Ok(()) => {},
        }
        dispose(&mut heap.floats.cells, &d.scores, by)
    }

    /// Disposes of a batch: the records first, then the buffer that held
    /// them.
    pub fn release_batch(heap: &mut Heap, d: &FlatArray<ForeignClassifyResult>, by: Side) -> (r: Result<
        (),
        OwnershipError,
    >)
        ensures
            final(heap)@ == released_classify_batch(old(heap)@, *d, by).0,
            r == released_classify_batch(old(heap)@, *d, by).1,
    {
        let ghost before = heap@;
        let p = match d.data {
            None => { return Ok(()); },
            Some(p) => p,
        };
        match heap.classify.may_release(p, by) {
            Err(e) => { return Err(e); },
            Ok(()) => {},
        }
        if d.size > heap.classify.bound_of(p) {
            return Err(OwnershipError::SizeMismatch);
        }
        let ghost ds = before.classify[p as int]->Some_0.items.take(d.size as int);
        let mut i: usize = 0;
        while i < d.size
            invariant
                i <= d.size <= bound(before.classify, p as int),
                before == old(heap)@,
                d.data == Some(p),
                released(before.classify, p as int, by) is Ok,
                heap@.classify == before.classify,
                ds == before.classify[p as int]->Some_0.items.take(d.size as int),
                (heap@, Ok::<(), OwnershipError>(())) == released_classify_rows(before, ds.take(i as int), by),
            decreases d.size - i,
        {
            let record = heap.classify.get(p, i);
            proof {
                assert(ds.take(i + 1).drop_last() =~= ds.take(i as int));
                assert(ds.take(i + 1).last() == record);
            }
            match ClassifyResult::release_raw_ptr(heap, &record, by) {
                Ok(()) => {},
                Err(e) => {
                    proof {
                        lemma_released_classify_rows_sticky(before, ds, i + 1, by);
                    }
                    return Err(e);
                },
            }
            i += 1;
        }
        proof {
            assert(ds.take(i as int) =~= ds);
        }
        heap.classify.release(p, by)
    }
}

} // verus!
