//! What holds of the OCR bridge for every input.

use vstd::prelude::*;
use vstd::utf8::encode_utf8;
use crate::batch::lemma_collect_rows_ok;
use crate::errors::{BatchError, DecodeError, OwnershipError, RecordError};
use crate::heap::{heap_extends, heap_live, ForeignOCRResult, HeapView};
use crate::heap_laws::{heap_addressable, heap_intact, heap_killed};
use crate::heap_laws::{lemma_heap_intact_parts, lemma_heap_killed_fresh, lemma_heap_killed_twice};
use crate::ownership::Side;
use crate::region::{killed, lemma_killed_twice, lemma_memory_intact_parts, lemma_memory_killed_twice};
use crate::region::{lemma_region_intact_parts, lemma_release_built, lemma_release_built_2d, memory_killed};
use crate::nested::{encoded_2d, MemoryView};
use crate::nested_laws::{lemma_decoded_2d_stable, lemma_round_trip_2d, native_2d};
use crate::region::lemma_encoded_2d_extends;
use crate::ocr::{decoded_ocr, decoded_ocr_batch, decoded_ocr_rows};
use crate::ocr::{encoded_ocr, encoded_ocr_batch, encoded_ocr_rows};
use crate::ocr::{released_ocr, released_ocr_batch, released_ocr_rows};
use crate::result::OCRResultView;
use crate::scalar::{decoded, encoded};
use crate::scalar::{lemma_decoded_stable, lemma_round_trip};
use crate::text::{encoded_text, encoded_texts};
use crate::text_laws::{lemma_decoded_text_stable, lemma_decoded_texts_stable, lemma_encoded_texts_extends};
use crate::text_laws::{lemma_release_built_text, lemma_release_built_texts};
use crate::text_laws::{lemma_round_trip_text, lemma_round_trip_texts, native_texts};

verus! {

/// The lengths of a native record fit the machine's unsigned integer.
pub open spec fn native_ocr(v: OCRResultView) -> bool {
    &&& native_2d(v.boxes)
    &&& native_texts(v.text)
    &&& v.rec_scores.len() <= usize::MAX
    &&& v.cls_scores.len() <= usize::MAX
    &&& v.cls_labels.len() <= usize::MAX
    &&& native_2d(v.table_boxes)
    &&& native_texts(v.table_structure)
    &&& encode_utf8(v.table_html).len() <= usize::MAX
}

/// The same of every record of a native batch, and of the batch.
pub open spec fn native_ocr_batch(v: Seq<OCRResultView>) -> bool {
    &&& v.len() <= usize::MAX
    &&& forall|i: int| 0 <= i < v.len() ==> native_ocr(#[trigger] v[i])
}

/// Building a record only adds buffers, and none to the arena of records.
pub proof fn lemma_encoded_ocr_extends(h: HeapView, v: OCRResultView)
    ensures
        heap_extends(encoded_ocr(h, v).0, h),
        encoded_ocr(h, v).0.ocr == h.ocr,
{
    let (i1, boxes) = encoded_2d(h.int32s, v.boxes);
    let (b1, text) = encoded_texts(h.bytes, v.text);
    let (i2, cls_labels) = encoded(i1.cells, v.cls_labels);
    let (i3, table_boxes) = encoded_2d(MemoryView { cells: i2, ..i1 }, v.table_boxes);
    let (b2, table_structure) = encoded_texts(b1, v.table_structure);
    lemma_encoded_2d_extends(h.int32s, v.boxes);
    lemma_encoded_2d_extends(MemoryView { cells: i2, ..i1 }, v.table_boxes);
    lemma_encoded_texts_extends(h.bytes, v.text);
    lemma_encoded_texts_extends(b1, v.table_structure);
}

/// Round trip: decoding the record that was built gives the record back,
/// every text with every character.
pub proof fn lemma_round_trip_ocr(h: HeapView, v: OCRResultView)
    requires
        heap_addressable(encoded_ocr(h, v).0),
        native_ocr(v),
    ensures
        decoded_ocr(encoded_ocr(h, v).0, encoded_ocr(h, v).1) == Ok::<OCRResultView, RecordError>(v),
{
    let (i1, boxes) = encoded_2d(h.int32s, v.boxes);
    let (b1, text) = encoded_texts(h.bytes, v.text);
    let (f1, rec_scores) = encoded(h.floats.cells, v.rec_scores);
    let (f2, cls_scores) = encoded(f1, v.cls_scores);
    let (i2, cls_labels) = encoded(i1.cells, v.cls_labels);
    let ints = MemoryView { cells: i2, ..i1 };
    let (i3, table_boxes) = encoded_2d(ints, v.table_boxes);
    let (b2, table_structure) = encoded_texts(b1, v.table_structure);
    let (b3, table_html) = encoded_text(b2.cells, v.table_html);
    let bytes = MemoryView { cells: b3, ..b2 };
    lemma_encoded_2d_extends(h.int32s, v.boxes);
    lemma_encoded_2d_extends(ints, v.table_boxes);
    lemma_encoded_texts_extends(h.bytes, v.text);
    lemma_encoded_texts_extends(b1, v.table_structure);

    lemma_round_trip_2d(h.int32s, v.boxes);
    lemma_decoded_2d_stable(i1, i3, boxes);

    lemma_round_trip_texts(h.bytes, v.text);
    lemma_decoded_texts_stable(b1, bytes, text);

    lemma_round_trip(h.floats.cells, v.rec_scores);
    lemma_decoded_stable(f1, f2, rec_scores);
    lemma_round_trip(f1, v.cls_scores);

    lemma_round_trip(i1.cells, v.cls_labels);
    lemma_decoded_stable(i2, i3.cells, cls_labels);

    lemma_round_trip_2d(ints, v.table_boxes);

    lemma_round_trip_texts(b1, v.table_structure);
    lemma_decoded_texts_stable(b2, bytes, table_structure);

    lemma_round_trip_text(b2.cells, v.table_html);
    v.type_.lemma_raw_round_trip();
}

/// A record that could be decoded still can after the heap has grown, and
/// gives the same.
pub proof fn lemma_decoded_ocr_stable(before: HeapView, after: HeapView, d: ForeignOCRResult)
    requires
        heap_extends(after, before),
        decoded_ocr(before, d) is Ok,
    ensures
        decoded_ocr(after, d) == decoded_ocr(before, d),
{
    lemma_decoded_2d_stable(before.int32s, after.int32s, d.boxes);
    lemma_decoded_texts_stable(before.bytes, after.bytes, d.text);
    lemma_decoded_stable(before.floats.cells, after.floats.cells, d.rec_scores);
    lemma_decoded_stable(before.floats.cells, after.floats.cells, d.cls_scores);
    lemma_decoded_stable(before.int32s.cells, after.int32s.cells, d.cls_labels);
    lemma_decoded_2d_stable(before.int32s, after.int32s, d.table_boxes);
    lemma_decoded_texts_stable(before.bytes, after.bytes, d.table_structure);
    lemma_decoded_text_stable(before.bytes.cells, after.bytes.cells, d.table_html);
}

/// Building records one after another only adds buffers.
pub proof fn lemma_encoded_ocr_rows_extends(h: HeapView, v: Seq<OCRResultView>)
    ensures
        heap_extends(encoded_ocr_rows(h, v).0, h),
        encoded_ocr_rows(h, v).0.ocr == h.ocr,
        encoded_ocr_rows(h, v).1.len() == v.len(),
    decreases v.len(),
{
    if v.len() > 0 {
        lemma_encoded_ocr_rows_extends(h, v.drop_last());
        lemma_encoded_ocr_extends(encoded_ocr_rows(h, v.drop_last()).0, v.last());
    }
}

/// Each record that was built decodes to what it was.
pub proof fn lemma_encoded_ocr_rows_decode(h: HeapView, v: Seq<OCRResultView>)
    requires
        heap_addressable(encoded_ocr_rows(h, v).0),
        native_ocr_batch(v),
    ensures
        forall|i: int| 0 <= i < v.len() ==> #[trigger] decoded_ocr(
            encoded_ocr_rows(h, v).0,
            encoded_ocr_rows(h, v).1[i],
        ) == Ok::<OCRResultView, RecordError>(v[i]),
    decreases v.len(),
{
    if v.len() > 0 {
        let (h1, ds) = encoded_ocr_rows(h, v.drop_last());
        let (h2, d) = encoded_ocr(h1, v.last());
        lemma_encoded_ocr_rows_extends(h, v.drop_last());
        lemma_encoded_ocr_extends(h1, v.last());
        assert(native_ocr_batch(v.drop_last())) by {
            assert forall|i: int| 0 <= i < v.drop_last().len() implies native_ocr(
                #[trigger] v.drop_last()[i],
            ) by {
                assert(v.drop_last()[i] == v[i]);
            }
        }
        lemma_encoded_ocr_rows_decode(h, v.drop_last());
        assert(native_ocr(v.last()));
        lemma_round_trip_ocr(h1, v.last());
        assert forall|i: int| 0 <= i < v.len() implies #[trigger] decoded_ocr(
            encoded_ocr_rows(h, v).0,
            encoded_ocr_rows(h, v).1[i],
        ) == Ok::<OCRResultView, RecordError>(v[i]) by {
            if i < v.len() - 1 {
                assert(decoded_ocr(h1, ds[i]) == Ok::<OCRResultView, RecordError>(v.drop_last()[i]));
                lemma_decoded_ocr_stable(h1, h2, ds[i]);
            }
        }
    }
}

/// Round trip for batches.
pub proof fn lemma_round_trip_ocr_batch(h: HeapView, v: Seq<OCRResultView>)
    requires
        heap_addressable(encoded_ocr_batch(h, v).0),
        native_ocr_batch(v),
    ensures
        decoded_ocr_batch(encoded_ocr_batch(h, v).0, encoded_ocr_batch(h, v).1) == Ok::<
            Seq<OCRResultView>,
            BatchError,
        >(v),
{
    let (h1, ds) = encoded_ocr_rows(h, v);
    let (after, d) = encoded_ocr_batch(h, v);
    lemma_encoded_ocr_rows_extends(h, v);
    lemma_encoded_ocr_rows_decode(h, v);
    lemma_round_trip(h1.ocr, ds);
    assert(decoded(after.ocr, d) == Ok::<Seq<ForeignOCRResult>, DecodeError>(ds));
    assert forall|i: int| 0 <= i < ds.len() implies #[trigger] decoded_ocr_rows(after, ds)[i] == Ok::<
        OCRResultView,
        RecordError,
    >(v[i]) by {
        assert(decoded_ocr(h1, ds[i]) == Ok::<OCRResultView, RecordError>(v[i]));
        lemma_decoded_ocr_stable(h1, after, ds[i]);
    }
    lemma_collect_rows_ok(decoded_ocr_rows(after, ds), v);
}

/// The native side can dispose of the record that was built, as long as its
/// buffers are still as they were built; they are dead afterwards and
/// nothing else has changed.
pub proof fn lemma_release_built_ocr(at: HeapView, v: OCRResultView, s: HeapView)
    requires
        heap_addressable(encoded_ocr(at, v).0),
        native_ocr(v),
        heap_intact(s, encoded_ocr(at, v).0, at),
    ensures
        released_ocr(s, encoded_ocr(at, v).1, Side::Native) == (
            heap_killed(s, at, encoded_ocr(at, v).0),
            Ok::<(), OwnershipError>(()),
        ),
{
    let (i1, boxes) = encoded_2d(at.int32s, v.boxes);
    let (b1, text) = encoded_texts(at.bytes, v.text);
    let (f1, rec_scores) = encoded(at.floats.cells, v.rec_scores);
    let (f2, cls_scores) = encoded(f1, v.cls_scores);
    let (i2, cls_labels) = encoded(i1.cells, v.cls_labels);
    let ints = MemoryView { cells: i2, ..i1 };
    let (i3, table_boxes) = encoded_2d(ints, v.table_boxes);
    let (b2, table_structure) = encoded_texts(b1, v.table_structure);
    let (b3, table_html) = encoded_text(b2.cells, v.table_html);
    let bytes = MemoryView { cells: b3, ..b2 };
    let (built, d) = encoded_ocr(at, v);
    lemma_encoded_2d_extends(at.int32s, v.boxes);
    lemma_encoded_2d_extends(ints, v.table_boxes);
    lemma_encoded_texts_extends(at.bytes, v.text);
    lemma_encoded_texts_extends(b1, v.table_structure);

    // the memory of 32-bit integers: boxes, labels, boxes of the table
    lemma_memory_intact_parts(s.int32s, at.int32s, i1, i3);
    lemma_release_built_2d(at.int32s, v.boxes, s.int32s);
    let j1 = memory_killed(s.int32s, at.int32s, i1);
    lemma_memory_intact_parts(j1, i1, ints, i3);
    lemma_release_built(i1.cells, v.cls_labels, j1.cells);
    let j2 = MemoryView { cells: killed(j1.cells, i1.cells.len() as int, i2.len() as int), ..j1 };
    assert(j2 =~~= memory_killed(j1, i1, ints));
    lemma_release_built_2d(ints, v.table_boxes, j2);
    let j3 = memory_killed(j2, ints, i3);
    lemma_memory_killed_twice(s.int32s, at.int32s, i1, ints);
    lemma_memory_killed_twice(s.int32s, at.int32s, ints, i3);
    assert(j3 == memory_killed(s.int32s, at.int32s, i3));

    // the memory of bytes: texts, structure of the table, its markup
    lemma_memory_intact_parts(s.bytes, at.bytes, b1, bytes);
    lemma_release_built_texts(at.bytes, v.text, s.bytes);
    let k1 = memory_killed(s.bytes, at.bytes, b1);
    lemma_memory_intact_parts(k1, b1, b2, bytes);
    lemma_release_built_texts(b1, v.table_structure, k1);
    let k2 = memory_killed(k1, b1, b2);
    lemma_release_built_text(b2.cells, v.table_html, k2.cells);
    let k3 = MemoryView { cells: killed(k2.cells, b2.cells.len() as int, b3.len() as int), ..k2 };
    lemma_memory_killed_twice(s.bytes, at.bytes, b1, b2);
    lemma_killed_twice(s.bytes.cells, at.bytes.cells.len() as int, b2.cells.len() as int, b3.len() as int);
    assert(k3 =~~= memory_killed(s.bytes, at.bytes, bytes));

    // the memory of floats: two arrays of scores
    lemma_region_intact_parts(s.floats.cells, at.floats.cells, f1, f2);
    lemma_release_built(at.floats.cells, v.rec_scores, s.floats.cells);
    let g1 = killed(s.floats.cells, at.floats.cells.len() as int, f1.len() as int);
    lemma_release_built(f1, v.cls_scores, g1);
    let g2 = killed(g1, f1.len() as int, f2.len() as int);
    lemma_killed_twice(s.floats.cells, at.floats.cells.len() as int, f1.len() as int, f2.len() as int);

    assert(released_ocr(s, d, Side::Native).1 is Ok);
    assert(released_ocr(s, d, Side::Native).0 =~~= heap_killed(s, at, built));
}

/// The same of records that were built one after another.
pub proof fn lemma_release_built_ocr_rows(at: HeapView, v: Seq<OCRResultView>, s: HeapView)
    requires
        heap_addressable(encoded_ocr_rows(at, v).0),
        native_ocr_batch(v),
        heap_intact(s, encoded_ocr_rows(at, v).0, at),
    ensures
        released_ocr_rows(s, encoded_ocr_rows(at, v).1, Side::Native) == (
            heap_killed(s, at, encoded_ocr_rows(at, v).0),
            Ok::<(), OwnershipError>(()),
        ),
    decreases v.len(),
{
    let (built, ds) = encoded_ocr_rows(at, v);
    if v.len() == 0 {
        assert(heap_killed(s, at, at) =~~= s);
    } else {
        let (b1, ds1) = encoded_ocr_rows(at, v.drop_last());
        let (b2, d) = encoded_ocr(b1, v.last());
        lemma_encoded_ocr_rows_extends(at, v.drop_last());
        lemma_encoded_ocr_extends(b1, v.last());
        lemma_heap_intact_parts(s, at, b1, b2);
        assert(native_ocr_batch(v.drop_last())) by {
            assert forall|i: int| 0 <= i < v.drop_last().len() implies native_ocr(
                #[trigger] v.drop_last()[i],
            ) by {
                assert(v.drop_last()[i] == v[i]);
            }
        }
        assert(native_ocr(v.last()));
        lemma_release_built_ocr_rows(at, v.drop_last(), s);
        assert(ds.drop_last() =~= ds1);
        lemma_release_built_ocr(b1, v.last(), heap_killed(s, at, b1));
        lemma_heap_killed_twice(s, at, b1, b2);
    }
}

/// The same of a batch: the records and the buffer that holds them.
pub proof fn lemma_release_built_ocr_batch(at: HeapView, v: Seq<OCRResultView>, s: HeapView)
    requires
        heap_addressable(encoded_ocr_batch(at, v).0),
        native_ocr_batch(v),
        heap_intact(s, encoded_ocr_batch(at, v).0, at),
    ensures
        released_ocr_batch(s, encoded_ocr_batch(at, v).1, Side::Native) == (
            heap_killed(s, at, encoded_ocr_batch(at, v).0),
            Ok::<(), OwnershipError>(()),
        ),
{
    let (h1, ds) = encoded_ocr_rows(at, v);
    let (built, d) = encoded_ocr_batch(at, v);
    lemma_encoded_ocr_rows_extends(at, v);
    assert(heap_intact(s, h1, at));
    lemma_release_built_ocr_rows(at, v, s);
    if v.len() == 0 {
        assert(heap_killed(s, at, built) =~~= s);
    } else {
        let p = at.ocr.len() as int;
        assert(s.ocr[p] == built.ocr[p]);
        assert(s.ocr[p]->Some_0.items.take(d.size as int) =~= ds);
        let s1 = heap_killed(s, at, h1);
        assert(s1.ocr =~= s.ocr);
        assert(s.ocr.update(p, None) =~= killed(s.ocr, p, built.ocr.len() as int));
        assert(released_ocr_batch(s, d, Side::Native).0 =~~= heap_killed(s, at, built));
    }
}

/// No leak, no double free: the record that was built can be disposed of by
/// the native side; after that every buffer that building had allocated is
/// freed and every other buffer is as it was.
pub proof fn lemma_dispose_once_ocr(h: HeapView, v: OCRResultView)
    requires
        heap_addressable(encoded_ocr(h, v).0),
        native_ocr(v),
    ensures
        released_ocr(encoded_ocr(h, v).0, encoded_ocr(h, v).1, Side::Native).1 is Ok,
        ({
            let after = released_ocr(encoded_ocr(h, v).0, encoded_ocr(h, v).1, Side::Native).0;
            &&& heap_extends(after, h)
            &&& heap_live(after) == heap_live(h)
        }),
{
    let (built, d) = encoded_ocr(h, v);
    lemma_encoded_ocr_extends(h, v);
    lemma_release_built_ocr(h, v, built);
    lemma_heap_killed_fresh(h, built);
}

/// No leak, no double free, for batches; a second disposal of a batch that
/// holds records is refused.
pub proof fn lemma_dispose_once_ocr_batch(h: HeapView, v: Seq<OCRResultView>)
    requires
        heap_addressable(encoded_ocr_batch(h, v).0),
        native_ocr_batch(v),
    ensures
        released_ocr_batch(
            encoded_ocr_batch(h, v).0,
            encoded_ocr_batch(h, v).1,
            Side::Native,
        ).1 is Ok,
        ({
            let d = encoded_ocr_batch(h, v).1;
            let after = released_ocr_batch(encoded_ocr_batch(h, v).0, d, Side::Native).0;
            &&& heap_extends(after, h)
            &&& heap_live(after) == heap_live(h)
            &&& v.len() > 0 ==> released_ocr_batch(after, d, Side::Native).1 == Err::<(), OwnershipError>(
                OwnershipError::NotLive,
            )
        }),
{
    let (built, d) = encoded_ocr_batch(h, v);
    lemma_encoded_ocr_rows_extends(h, v);
    lemma_release_built_ocr_batch(h, v, built);
    lemma_heap_killed_fresh(h, built);
}

} // verus!
