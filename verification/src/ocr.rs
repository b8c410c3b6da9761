//! The bridge for OCR records.

use vstd::prelude::*;
use crate::batch::{collect_rows, lemma_collect_rows_err, lemma_collect_rows_ok};
use crate::descriptor::FlatArray;
use crate::enum_variables::ResultType;
use crate::errors::{BatchError, DecodeError, Field, OwnershipError, RecordError};
use crate::heap::{ForeignOCRResult, Heap, HeapView};
use crate::memory::{bound, released};
use crate::nested::{build_2d, decode_2d, decoded_2d, dispose_2d, encoded_2d, released_2d, MemoryView};
use crate::ownership::Side;
use crate::result::{OCRResult, OCRResultView};
use crate::scalar::{copy_from_foreign, decoded, dispose, encoded, released_array, to_foreign};
use crate::text::{decoded_text, decoded_texts, encoded_text, encoded_texts};
use crate::text::{foreign_to_string, foreign_to_strings, string_to_foreign, strings_to_foreign};

verus! {

/// The records of a native array of OCR results.
pub open spec fn ocr_of(v: Seq<OCRResult>) -> Seq<OCRResultView> {
    Seq::new(v.len(), |i: int| v[i]@)
}

/// What building a record from `v` does to the heap, and the record it gives.
pub open spec fn encoded_ocr(h: HeapView, v: OCRResultView) -> (HeapView, ForeignOCRResult) {
    let (i1, boxes) = encoded_2d(h.int32s, v.boxes);
    let (b1, text) = encoded_texts(h.bytes, v.text);
    let (f1, rec_scores) = encoded(h.floats.cells, v.rec_scores);
    let (f2, cls_scores) = encoded(f1, v.cls_scores);
    let (i2, cls_labels) = encoded(i1.cells, v.cls_labels);
    let (i3, table_boxes) = encoded_2d(MemoryView { cells: i2, ..i1 }, v.table_boxes);
    let (b2, table_structure) = encoded_texts(b1, v.table_structure);
    let (b3, table_html) = encoded_text(b2.cells, v.table_html);
    (
        HeapView {
            int32s: i3,
            bytes: MemoryView { cells: b3, ..b2 },
            floats: MemoryView { cells: f2, ..h.floats },
            ..h
        },
        ForeignOCRResult {
            boxes,
            text,
            rec_scores,
            cls_scores,
            cls_labels,
            table_boxes,
            table_structure,
            table_html,
            type_: v.type_.raw(),
        },
    )
}

/// What decoding the record `d` gives; the first field that fails decides.
pub open spec fn decoded_ocr(h: HeapView, d: ForeignOCRResult) -> Result<OCRResultView, RecordError> {
    match decoded_2d(h.int32s, d.boxes) {
        Err(cause) => Err(RecordError { field: Field::Boxes, cause }),
        Ok(boxes) => match decoded_texts(h.bytes, d.text) {
            Err(cause) => Err(RecordError { field: Field::Text, cause }),
            Ok(text) => match decoded(h.floats.cells, d.rec_scores) {
                Err(cause) => Err(RecordError { field: Field::RecScores, cause }),
                Ok(rec_scores) => match decoded(h.floats.cells, d.cls_scores) {
                    Err(cause) => Err(RecordError { field: Field::ClsScores, cause }),
                    Ok(cls_scores) => match decoded(h.int32s.cells, d.cls_labels) {
                        Err(cause) => Err(RecordError { field: Field::ClsLabels, cause }),
                        Ok(cls_labels) => match decoded_2d(h.int32s, d.table_boxes) {
                            Err(cause) => Err(RecordError { field: Field::TableBoxes, cause }),
                            Ok(table_boxes) => match decoded_texts(h.bytes, d.table_structure) {
                                Err(cause) => Err(RecordError { field: Field::TableStructure, cause }),
                                Ok(table_structure) => match decoded_text(h.bytes.cells, d.table_html) {
                                    Err(cause) => Err(RecordError { field: Field::TableHtml, cause }),
                                    Ok(table_html) => Ok(
                                        OCRResultView {
                                            boxes,
                                            text,
                                            rec_scores,
                                            cls_scores,
                                            cls_labels,
                                            table_boxes,
                                            table_structure,
                                            table_html,
                                            type_: ResultType::of_raw(d.type_),
                                        },
                                    ),
                                },
                            },
                        },
                    },
                },
            },
        },
    }
}

/// The records of `v` built one after another, first to last.
pub open spec fn encoded_ocr_rows(h: HeapView, v: Seq<OCRResultView>) -> (HeapView, Seq<ForeignOCRResult>)
    decreases v.len(),
{
    if v.len() == 0 {
        (h, Seq::empty())
    } else {
        let (h1, ds) = encoded_ocr_rows(h, v.drop_last());
        let (h2, d) = encoded_ocr(h1, v.last());
        (h2, ds.push(d))
    }
}

/// What building a batch from `v` does to the heap, and the descriptor it
/// gives.
pub open spec fn encoded_ocr_batch(h: HeapView, v: Seq<OCRResultView>) -> (HeapView, FlatArray<ForeignOCRResult>) {
    let (h1, ds) = encoded_ocr_rows(h, v);
    let (ocr, d) = encoded(h1.ocr, ds);
    (HeapView { ocr, ..h1 }, d)
}

/// What decoding each of the records `ds` by itself gives.
pub open spec fn decoded_ocr_rows(h: HeapView, ds: Seq<ForeignOCRResult>) -> Seq<Result<OCRResultView, RecordError>> {
    Seq::new(ds.len(), |i: int| decoded_ocr(h, ds[i]))
}

/// What decoding the batch `d` gives; the first record that fails decides,
/// and its index is reported.
pub open spec fn decoded_ocr_batch(h: HeapView, d: FlatArray<ForeignOCRResult>) -> Result<
    Seq<OCRResultView>,
    BatchError,
> {
    match decoded(h.ocr, d) {
        Err(cause) => Err(BatchError::Records { cause }),
        Ok(ds) => collect_rows(decoded_ocr_rows(h, ds)),
    }
}

/// What disposing of the record `d` does: its arrays and texts are disposed
/// of one after another, up to the first that is refused.
pub open spec fn released_ocr(h: HeapView, d: ForeignOCRResult, by: Side) -> (HeapView, Result<(), OwnershipError>) {
    let (i1, r1) = released_2d(h.int32s, d.boxes, by);
    let h1 = HeapView { int32s: i1, ..h };
    if r1 is Err {
        (h1, r1)
    } else {
        let (b1, r2) = released_2d(h.bytes, d.text, by);
        let h2 = HeapView { bytes: b1, ..h1 };
        if r2 is Err {
            (h2, r2)
        } else {
            match released_array(h.floats.cells, d.rec_scores, by) {
                Err(e) => (h2, Err(e)),
                Ok(f1) => {
                    let h3 = HeapView { floats: MemoryView { cells: f1, ..h.floats }, ..h2 };
                    match released_array(f1, d.cls_scores, by) {
                        Err(e) => (h3, Err(e)),
                        Ok(f2) => {
                            let h4 = HeapView { floats: MemoryView { cells: f2, ..h.floats }, ..h3 };
                            match released_array(i1.cells, d.cls_labels, by) {
                                Err(e) => (h4, Err(e)),
                                Ok(i2) => {
                                    let (i3, r6) = released_2d(MemoryView { cells: i2, ..i1 }, d.table_boxes, by);
                                    let h6 = HeapView { int32s: i3, ..h4 };
                                    if r6 is Err {
                                        (h6, r6)
                                    } else {
                                        let (b2, r7) = released_2d(b1, d.table_structure, by);
                                        let h7 = HeapView { bytes: b2, ..h6 };
                                        if r7 is Err {
                                            (h7, r7)
                                        } else {
                                            match released_array(b2.cells, d.table_html, by) {
                                                Err(e) => (h7, Err(e)),
                                                Ok(b3) => (
                                                    HeapView { bytes: MemoryView { cells: b3, ..b2 }, ..h7 },
                                                    Ok(()),
                                                ),
                                            }
                                        }
                                    }
                                },
                            }
                        },
                    }
                },
            }
        }
    }
}

/// The records of `ds` disposed of one after another, first to last, up to
/// the first that is refused.
pub open spec fn released_ocr_rows(h: HeapView, ds: Seq<ForeignOCRResult>, by: Side) -> (
    HeapView,
    Result<(), OwnershipError>,
)
    decreases ds.len(),
{
    if ds.len() == 0 {
        (h, Ok(()))
    } else {
        let (h1, r1) = released_ocr_rows(h, ds.drop_last(), by);
        if r1 is Err {
            (h1, r1)
        } else {
            released_ocr(h1, ds.last(), by)
        }
    }
}

/// What disposing of the batch `d` does. The buffer of records must be one
/// that `by` may free, and hold what `d` claims; then the records are
/// disposed of, and after the last of them that buffer itself.
pub open spec fn released_ocr_batch(h: HeapView, d: FlatArray<ForeignOCRResult>, by: Side) -> (
    HeapView,
    Result<(), OwnershipError>,
) {
    match d.data {
        None => (h, Ok(())),
        Some(p) => match released(h.ocr, p as int, by) {
            Err(e) => (h, Err(e)),
            Ok(records) => if d.size > bound(h.ocr, p as int) {
                (h, Err(OwnershipError::SizeMismatch))
            } else {
                let ds = h.ocr[p as int]->Some_0.items.take(d.size as int);
                let (h1, r) = released_ocr_rows(h, ds, by);
                if r is Err {
                    (h1, r)
                } else {
                    (HeapView { ocr: records, ..h1 }, Ok(()))
                }
            },
        },
    }
}

/// Once a record was refused, those behind it change nothing.
pub proof fn lemma_released_ocr_rows_sticky(h: HeapView, ds: Seq<ForeignOCRResult>, k: int, by: Side)
    requires
        0 <= k <= ds.len(),
        released_ocr_rows(h, ds.take(k), by).1 is Err,
    ensures
        released_ocr_rows(h, ds, by) == released_ocr_rows(h, ds.take(k), by),
    decreases ds.len(),
{
    if k == ds.len() {
        assert(ds.take(k) =~= ds);
    } else {
        assert(ds.drop_last().take(k) =~= ds.take(k));
        lemma_released_ocr_rows_sticky(h, ds.drop_last(), k, by);
    }
}

impl OCRResult {
    /// Builds the foreign record: every array and text through the bridge of
    /// its shape, then the discriminant.
    pub fn build_record(&self, heap: &mut Heap) -> (d: ForeignOCRResult)
        ensures
            (final(heap)@, d) == encoded_ocr(old(heap)@, self@),
    {
        let boxes = build_2d(&mut heap.int32s, &self.boxes);
        let text = strings_to_foreign(&mut heap.bytes, &self.text);
        let (rec_scores, _) = to_foreign(&mut heap.floats.cells, &self.rec_scores);
        let (cls_scores, _) = to_foreign(&mut heap.floats.cells, &self.cls_scores);
        let (cls_labels, _) = to_foreign(&mut heap.int32s.cells, &self.cls_labels);
        let table_boxes = build_2d(&mut heap.int32s, &self.table_boxes);
        let table_structure = strings_to_foreign(&mut heap.bytes, &self.table_structure);
        let table_html = string_to_foreign(&mut heap.bytes.cells, self.table_html.as_str());
        ForeignOCRResult {
            boxes,
            text,
            rec_scores,
            cls_scores,
            cls_labels,
            table_boxes,
            table_structure,
            table_html,
            type_: self.type_.to_raw(),
        }
    }

    /// Decodes a foreign record by copying. Malformed text in any field is
    /// reported with the field.
    pub fn decode_record(heap: &Heap, d: &ForeignOCRResult) -> (r: Result<OCRResult, RecordError>)
        ensures
            match decoded_ocr(heap@, *d) {
                Ok(v) => r is Ok && r->Ok_0@ == v,
                Err(e) => r == Err::<OCRResult, RecordError>(e),
            },
    {
        let boxes = match decode_2d(&heap.int32s, &d.boxes) {
            Ok(v) => v,
            Err(cause) => { return Err(RecordError { field: Field::Boxes, cause }); },
        };
        let text = match foreign_to_strings(&heap.bytes, &d.text) {
            Ok(v) => v,
            Err(cause) => { return Err(RecordError { field: Field::Text, cause }); },
        };
        let rec_scores = match copy_from_foreign(&heap.floats.cells, &d.rec_scores) {
            Ok(v) => v,
            Err(cause) => { return Err(RecordError { field: Field::RecScores, cause }); },
        };
        let cls_scores = match copy_from_foreign(&heap.floats.cells, &d.cls_scores) {
            Ok(v) => v,
            Err(cause) => { return Err(RecordError { field: Field::ClsScores, cause }); },
        };
        let cls_labels = match copy_from_foreign(&heap.int32s.cells, &d.cls_labels) {
            Ok(v) => v,
            Err(cause) => { return Err(RecordError { field: Field::ClsLabels, cause }); },
        };
        let table_boxes = match decode_2d(&heap.int32s, &d.table_boxes) {
            Ok(v) => v,
            Err(cause) => { return Err(RecordError { field: Field::TableBoxes, cause }); },
        };
        let table_structure = match foreign_to_strings(&heap.bytes, &d.table_structure) {
            Ok(v) => v,
            Err(cause) => { return Err(RecordError { field: Field::TableStructure, cause }); },
        };
        let table_html = match foreign_to_string(&heap.bytes.cells, &d.table_html) {
            Ok(v) => v,
            Err(cause) => { return Err(RecordError { field: Field::TableHtml, cause }); },
        };
        Ok(
            OCRResult {
                boxes,
                text,
                rec_scores,
                cls_scores,
                cls_labels,
                table_boxes,
                table_structure,
                table_html,
                type_: ResultType::from(d.type_),
            },
        )
    }

    /// Builds a batch: every record by itself, then the array of the records.
    pub fn build_batch(heap: &mut Heap, values: &Vec<OCRResult>) -> (d: FlatArray<ForeignOCRResult>)
        ensures
            (final(heap)@, d) == encoded_ocr_batch(old(heap)@, ocr_of(values@)),
            d.wf(),
    {
        let ghost before = heap@;
        let ghost v = ocr_of(values@);
        let mut records: Vec<ForeignOCRResult> = Vec::with_capacity(values.len());
        let mut i: usize = 0;
        while i < values.len()
            invariant
                i <= values.len(),
                v == ocr_of(values@),
                (heap@, records@) == encoded_ocr_rows(before, v.take(i as int)),
            decreases values.len() - i,
        {
            let d = values[i].build_record(heap);
            records.push(d);
            proof {
                assert(v.take(i + 1).drop_last() =~= v.take(i as int));
                assert(v.take(i + 1).last() == values[i as int]@);
            }
            i += 1;
        }
        proof {
            assert(v.take(i as int) =~= v);
        }
        let (d, _) = to_foreign(&mut heap.ocr, &records);
        d
    }

    /// Decodes a batch by copying, record by record, and stops at the first
    /// record that fails.
    pub fn decode_batch(heap: &Heap, d: &FlatArray<ForeignOCRResult>) -> (r: Result<Vec<OCRResult>, BatchError>)
        ensures
            match decoded_ocr_batch(heap@, *d) {
                Ok(v) => r is Ok && ocr_of(r->Ok_0@) == v,
                Err(e) => r == Err::<Vec<OCRResult>, BatchError>(e),
            },
    {
        let records = match copy_from_foreign(&heap.ocr, d) {
            Ok(records) => records,
            Err(cause) => { return Err(BatchError::Records { cause }); },
        };
        let ghost rs = decoded_ocr_rows(heap@, records@);
        let mut out: Vec<OCRResult> = Vec::with_capacity(records.len());
        let mut i: usize = 0;
        while i < records.len()
            invariant
                i <= records.len(),
                out.len() == i,
                decoded(heap@.ocr, *d) == Ok::<Seq<ForeignOCRResult>, DecodeError>(records@),
                rs == decoded_ocr_rows(heap@, records@),
                forall|j: int| 0 <= j < i ==> #[trigger] rs[j] == Ok::<OCRResultView, RecordError>(out@[j]@),
            decreases records.len() - i,
        {
            match OCRResult::decode_record(heap, &records[i]) {
                Ok(value) => {
                    out.push(value);
                },
                Err(e) => {
                    proof {
                        assert(rs[i as int] is Err);
                        lemma_collect_rows_err(rs, i as int, e);
                    }
                    return Err(BatchError::Row { row: i, field: e.field, cause: e.cause });
                },
            }
            i += 1;
        }
        proof {
            lemma_collect_rows_ok(rs, ocr_of(out@));
        }
        Ok(out)
    }

    /// Disposes of a foreign record: every array and text, each with what it
    /// refers to before the buffer that refers to it.
    pub fn release_raw_ptr(heap: &mut Heap, d: &ForeignOCRResult, by: Side) -> (r: Result<(), OwnershipError>)
        ensures
            final(heap)@ == released_ocr(old(heap)@, *d, by).0,
            r == released_ocr(old(heap)@, *d, by).1,
    {
        match dispose_2d(&mut heap.int32s, &d.boxes, by) {
            Err(e) => { return Err(e); },
            Ok(()) => {},
        }
        match dispose_2d(&mut heap.bytes, &d.text, by) {
            Err(e) => { return Err(e); },
            Ok(()) => {},
        }
        match dispose(&mut heap.floats.cells, &d.rec_scores, by) {
            Err(e) => { return Err(e); },
            Ok(()) => {},
        }
        match dispose(&mut heap.floats.cells, &d.cls_scores, by) {
            Err(e) => { return Err(e); },
            Ok(()) => {},
        }
        match dispose(&mut heap.int32s.cells, &d.cls_labels, by) {
            Err(e) => { return Err(e); },
            Ok(()) => {},
        }
        match dispose_2d(&mut heap.int32s, &d.table_boxes, by) {
            Err(e) => { return Err(e); },
            Ok(()) => {},
        }
        match dispose_2d(&mut heap.bytes, &d.table_structure, by) {
            Err(e) => { return Err(e); },
            Ok(()) => {},
        }
        dispose(&mut heap.bytes.cells, &d.table_html, by)
    }

    /// Disposes of a batch: the records first, then the buffer that held
    /// them.
    pub fn release_batch(heap: &mut Heap, d: &FlatArray<ForeignOCRResult>, by: Side) -> (r: Result<
        (),
        OwnershipError,
    >)
        ensures
            final(heap)@ == released_ocr_batch(old(heap)@, *d, by).0,
            r == released_ocr_batch(old(heap)@, *d, by).1,
    {
        let ghost before = heap@;
        let p = match d.data {
            None => { return Ok(()); },
            Some(p) => p,
        };
        match heap.ocr.may_release(p, by) {
            Err(e) => { return Err(e); },
            Ok(()) => {},
        }
        if d.size > heap.ocr.bound_of(p) {
            return Err(OwnershipError::SizeMismatch);
        }
        let ghost ds = before.ocr[p as int]->Some_0.items.take(d.size as int);
        let mut i: usize = 0;
        while i < d.size
            invariant
                i <= d.size <= bound(before.ocr, p as int),
                before == old(heap)@,
                d.data == Some(p),
                released(before.ocr, p as int, by) is Ok,
                heap@.ocr == before.ocr,
                ds == before.ocr[p as int]->Some_0.items.take(d.size as int),
                (heap@, Ok::<(), OwnershipError>(())) == released_ocr_rows(before, ds.take(i as int), by),
            decreases d.size - i,
        {
            let record = heap.ocr.get(p, i);
            proof {
                assert(ds.take(i + 1).drop_last() =~= ds.take(i as int));
                assert(ds.take(i + 1).last() == record);
            }
            match OCRResult::release_raw_ptr(heap, &record, by) {
                Ok(()) => {},
                Err(e) => {
                    proof {
                        lemma_released_ocr_rows_sticky(before, ds, i + 1, by);
                    }
                    return Err(e);
                },
            }
            i += 1;
        }
        proof {
            assert(ds.take(i as int) =~= ds);
        }
        heap.ocr.release(p, by)
    }
}

} // verus!
