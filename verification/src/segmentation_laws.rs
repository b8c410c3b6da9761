//! What holds of the segmentation bridge for every input.

use vstd::prelude::*;
use crate::batch::lemma_collect_rows_ok;
use crate::descriptor::{FlatArray, Float32};
use crate::errors::{BatchError, DecodeError, OwnershipError, RecordError};
use crate::heap::{flag_of, heap_extends, heap_live, ForeignSegmentationResult, HeapView};
use crate::heap_laws::{heap_addressable, heap_intact, heap_killed};
use crate::heap_laws::{lemma_heap_intact_parts, lemma_heap_killed_fresh, lemma_heap_killed_twice};
use crate::ownership::Side;
use crate::region::{killed, lemma_release_built};
use crate::nested::MemoryView;
use crate::result::SegmentationResultView;
use crate::scalar::decoded;
use crate::scalar::{lemma_decoded_stable, lemma_round_trip};
use crate::segmentation::{decoded_segmentation, decoded_segmentation_batch, decoded_segmentation_rows};
use crate::segmentation::{encoded_segmentation, encoded_segmentation_batch, encoded_segmentation_rows};
use crate::segmentation::{released_segmentation, released_segmentation_batch, released_segmentation_rows};

verus! {

/// The lengths of a native record fit the machine's unsigned integer.
pub open spec fn native_segmentation(v: SegmentationResultView) -> bool {
    &&& v.label_map.len() <= usize::MAX
    &&& v.score_map.len() <= usize::MAX
    &&& v.shape.len() <= usize::MAX
}

/// The same of every record of a native batch, and of the batch.
pub open spec fn native_segmentation_batch(v: Seq<SegmentationResultView>) -> bool {
    &&& v.len() <= usize::MAX
    &&& forall|i: int| 0 <= i < v.len() ==> native_segmentation(#[trigger] v[i])
}

/// The record as a decoder sees it: without the score map where the flag is
/// not set.
pub open spec fn gated_segmentation(v: SegmentationResultView) -> SegmentationResultView {
    if v.contain_score_map {
        v
    } else {
        SegmentationResultView { score_map: Seq::empty(), ..v }
    }
}

/// The records of a batch as a decoder sees them.
pub open spec fn gated_segmentation_batch(v: Seq<SegmentationResultView>) -> Seq<SegmentationResultView> {
    Seq::new(v.len(), |i: int| gated_segmentation(v[i]))
}

/// Flag gate: where the flag is not set, the score map decodes to nothing
/// and the record decodes to the same whatever stands in the descriptor of
/// the score map, and whatever the memory of floats holds.
pub proof fn lemma_score_map_gated(
    h: HeapView,
    d: ForeignSegmentationResult,
    stale: FlatArray<Float32>,
    floats: MemoryView<Float32>,
)
    requires
        !flag_of(d.contain_score_map),
    ensures
        decoded_segmentation(h, d) is Ok ==> decoded_segmentation(h, d)->Ok_0.score_map == Seq::<
            Float32,
        >::empty(),
        decoded_segmentation(HeapView { floats, ..h }, ForeignSegmentationResult { score_map: stale, ..d })
            == decoded_segmentation(h, d),
{
}

/// Building a record only adds buffers, and none to the arena of records.
pub proof fn lemma_encoded_segmentation_extends(h: HeapView, v: SegmentationResultView)
    ensures
        heap_extends(encoded_segmentation(h, v).0, h),
        encoded_segmentation(h, v).0.segmentation == h.segmentation,
{
}

/// Round trip: decoding the record that was built gives the record back,
/// without the score map where the flag is not set.
pub proof fn lemma_round_trip_segmentation(h: HeapView, v: SegmentationResultView)
    requires
        heap_addressable(encoded_segmentation(h, v).0),
        native_segmentation(v),
    ensures
        decoded_segmentation(encoded_segmentation(h, v).0, encoded_segmentation(h, v).1) == Ok::<
            SegmentationResultView,
            RecordError,
        >(gated_segmentation(v)),
{
    lemma_round_trip(h.bytes.cells, v.label_map);
    lemma_round_trip(h.floats.cells, v.score_map);
    lemma_round_trip(h.int64s.cells, v.shape);
    v.type_.lemma_raw_round_trip();
}

/// A record that could be decoded still can after the heap has grown, and
/// gives the same.
pub proof fn lemma_decoded_segmentation_stable(before: HeapView, after: HeapView, d: ForeignSegmentationResult)
    requires
        heap_extends(after, before),
        decoded_segmentation(before, d) is Ok,
    ensures
        decoded_segmentation(after, d) == decoded_segmentation(before, d),
{
    lemma_decoded_stable(before.bytes.cells, after.bytes.cells, d.label_map);
    if flag_of(d.contain_score_map) {
        lemma_decoded_stable(before.floats.cells, after.floats.cells, d.score_map);
    }
    lemma_decoded_stable(before.int64s.cells, after.int64s.cells, d.shape);
}

/// Building records one after another only adds buffers.
pub proof fn lemma_encoded_segmentation_rows_extends(h: HeapView, v: Seq<SegmentationResultView>)
    ensures
        heap_extends(encoded_segmentation_rows(h, v).0, h),
        encoded_segmentation_rows(h, v).0.segmentation == h.segmentation,
        encoded_segmentation_rows(h, v).1.len() == v.len(),
    decreases v.len(),
{
    if v.len() > 0 {
        lemma_encoded_segmentation_rows_extends(h, v.drop_last());
        lemma_encoded_segmentation_extends(encoded_segmentation_rows(h, v.drop_last()).0, v.last());
    }
}

/// Each record that was built decodes to what it was.
pub proof fn lemma_encoded_segmentation_rows_decode(h: HeapView, v: Seq<SegmentationResultView>)
    requires
        heap_addressable(encoded_segmentation_rows(h, v).0),
        native_segmentation_batch(v),
    ensures
        forall|i: int| 0 <= i < v.len() ==> #[trigger] decoded_segmentation(
            encoded_segmentation_rows(h, v).0,
            encoded_segmentation_rows(h, v).1[i],
        ) == Ok::<SegmentationResultView, RecordError>(gated_segmentation(v[i])),
    decreases v.len(),
{
    if v.len() > 0 {
        let (h1, ds) = encoded_segmentation_rows(h, v.drop_last());
        let (h2, d) = encoded_segmentation(h1, v.last());
        lemma_encoded_segmentation_rows_extends(h, v.drop_last());
        lemma_encoded_segmentation_extends(h1, v.last());
        assert(native_segmentation_batch(v.drop_last())) by {
            assert forall|i: int| 0 <= i < v.drop_last().len() implies native_segmentation(
                #[trigger] v.drop_last()[i],
            ) by {
                assert(v.drop_last()[i] == v[i]);
            }
        }
        lemma_encoded_segmentation_rows_decode(h, v.drop_last());
        assert(native_segmentation(v.last()));
        lemma_round_trip_segmentation(h1, v.last());
        assert forall|i: int| 0 <= i < v.len() implies #[trigger] decoded_segmentation(
            encoded_segmentation_rows(h, v).0,
            encoded_segmentation_rows(h, v).1[i],
        ) == Ok::<SegmentationResultView, RecordError>(gated_segmentation(v[i])) by {
            if i < v.len() - 1 {
                assert(decoded_segmentation(h1, ds[i]) == Ok::<SegmentationResultView, RecordError>(
                    gated_segmentation(v.drop_last()[i]),
                ));
                lemma_decoded_segmentation_stable(h1, h2, ds[i]);
            }
        }
    }
}

/// Round trip for batches.
pub proof fn lemma_round_trip_segmentation_batch(h: HeapView, v: Seq<SegmentationResultView>)
    requires
        heap_addressable(encoded_segmentation_batch(h, v).0),
        native_segmentation_batch(v),
    ensures
        decoded_segmentation_batch(
            encoded_segmentation_batch(h, v).0,
            encoded_segmentation_batch(h, v).1,
        ) == Ok::<Seq<SegmentationResultView>, BatchError>(gated_segmentation_batch(v)),
{
    let (h1, ds) = encoded_segmentation_rows(h, v);
    let (after, d) = encoded_segmentation_batch(h, v);
    lemma_encoded_segmentation_rows_extends(h, v);
    lemma_encoded_segmentation_rows_decode(h, v);
    lemma_round_trip(h1.segmentation, ds);
    assert(decoded(after.segmentation, d) == Ok::<Seq<ForeignSegmentationResult>, DecodeError>(ds));
    assert forall|i: int| 0 <= i < ds.len() implies #[trigger] decoded_segmentation_rows(after, ds)[i]
        == Ok::<SegmentationResultView, RecordError>(gated_segmentation_batch(v)[i]) by {
        assert(decoded_segmentation(h1, ds[i]) == Ok::<SegmentationResultView, RecordError>(
            gated_segmentation(v[i]),
        ));
        lemma_decoded_segmentation_stable(h1, after, ds[i]);
    }
    lemma_collect_rows_ok(decoded_segmentation_rows(after, ds), gated_segmentation_batch(v));
}

/// The native side can dispose of the record that was built, as long as its
/// buffers are still as they were built; they are dead afterwards and
/// nothing else has changed.
pub proof fn lemma_release_built_segmentation(at: HeapView, v: SegmentationResultView, s: HeapView)
    requires
        heap_addressable(encoded_segmentation(at, v).0),
        heap_intact(s, encoded_segmentation(at, v).0, at),
    ensures
        released_segmentation(s, encoded_segmentation(at, v).1, Side::Native) == (
            heap_killed(s, at, encoded_segmentation(at, v).0),
            Ok::<(), OwnershipError>(()),
        ),
{
    lemma_release_built(at.bytes.cells, v.label_map, s.bytes.cells);
    lemma_release_built(at.floats.cells, v.score_map, s.floats.cells);
    lemma_release_built(at.int64s.cells, v.shape, s.int64s.cells);
    assert(released_segmentation(s, encoded_segmentation(at, v).1, Side::Native).0 =~~= heap_killed(
        s,
        at,
        encoded_segmentation(at, v).0,
    ));
}

/// The same of records that were built one after another.
pub proof fn lemma_release_built_segmentation_rows(at: HeapView, v: Seq<SegmentationResultView>, s: HeapView)
    requires
        heap_addressable(encoded_segmentation_rows(at, v).0),
        heap_intact(s, encoded_segmentation_rows(at, v).0, at),
    ensures
        released_segmentation_rows(s, encoded_segmentation_rows(at, v).1, Side::Native) == (
            heap_killed(s, at, encoded_segmentation_rows(at, v).0),
            Ok::<(), OwnershipError>(()),
        ),
    decreases v.len(),
{
    let (built, ds) = encoded_segmentation_rows(at, v);
    if v.len() == 0 {
        assert(heap_killed(s, at, at) =~~= s);
    } else {
        let (b1, ds1) = encoded_segmentation_rows(at, v.drop_last());
        let (b2, d) = encoded_segmentation(b1, v.last());
        lemma_encoded_segmentation_rows_extends(at, v.drop_last());
        lemma_encoded_segmentation_extends(b1, v.last());
        lemma_heap_intact_parts(s, at, b1, b2);
        lemma_release_built_segmentation_rows(at, v.drop_last(), s);
        assert(ds.drop_last() =~= ds1);
        lemma_release_built_segmentation(b1, v.last(), heap_killed(s, at, b1));
        lemma_heap_killed_twice(s, at, b1, b2);
    }
}

/// The same of a batch: the records and the buffer that holds them.
pub proof fn lemma_release_built_segmentation_batch(at: HeapView, v: Seq<SegmentationResultView>, s: HeapView)
    requires
        heap_addressable(encoded_segmentation_batch(at, v).0),
        v.len() <= usize::MAX,
        heap_intact(s, encoded_segmentation_batch(at, v).0, at),
    ensures
        released_segmentation_batch(s, encoded_segmentation_batch(at, v).1, Side::Native) == (
            heap_killed(s, at, encoded_segmentation_batch(at, v).0),
            Ok::<(), OwnershipError>(()),
        ),
{
    let (h1, ds) = encoded_segmentation_rows(at, v);
    let (built, d) = encoded_segmentation_batch(at, v);
    lemma_encoded_segmentation_rows_extends(at, v);
    assert(heap_intact(s, h1, at));
    lemma_release_built_segmentation_rows(at, v, s);
    if v.len() == 0 {
        assert(heap_killed(s, at, built) =~~= s);
    } else {
        let p = at.segmentation.len() as int;
        assert(s.segmentation[p] == built.segmentation[p]);
        assert(s.segmentation[p]->Some_0.items.take(d.size as int) =~= ds);
        let s1 = heap_killed(s, at, h1);
        assert(s1.segmentation =~= s.segmentation);
        assert(s.segmentation.update(p, None) =~= killed(s.segmentation, p, built.segmentation.len() as int));
        assert(released_segmentation_batch(s, d, Side::Native).0 =~~= heap_killed(s, at, built));
    }
}

/// No leak, no double free: the record that was built can be disposed of by
/// the native side; after that every buffer that building had allocated is
/// freed and every other buffer is as it was.
pub proof fn lemma_dispose_once_segmentation(h: HeapView, v: SegmentationResultView)
    requires
        heap_addressable(encoded_segmentation(h, v).0),
    ensures
        released_segmentation(encoded_segmentation(h, v).0, encoded_segmentation(h, v).1, Side::Native).1 is Ok,
        ({
            let after = released_segmentation(
                encoded_segmentation(h, v).0,
                encoded_segmentation(h, v).1,
                Side::Native,
            ).0;
            &&& heap_extends(after, h)
            &&& heap_live(after) == heap_live(h)
        }),
{
    let (built, d) = encoded_segmentation(h, v);
    lemma_encoded_segmentation_extends(h, v);
    lemma_release_built_segmentation(h, v, built);
    lemma_heap_killed_fresh(h, built);
}

/// No leak, no double free, for batches; a second disposal of a batch that
/// holds records is refused.
pub proof fn lemma_dispose_once_segmentation_batch(h: HeapView, v: Seq<SegmentationResultView>)
    requires
        heap_addressable(encoded_segmentation_batch(h, v).0),
        v.len() <= usize::MAX,
    ensures
        released_segmentation_batch(
            encoded_segmentation_batch(h, v).0,
            encoded_segmentation_batch(h, v).1,
            Side::Native,
        ).1 is Ok,
        ({
            let d = encoded_segmentation_batch(h, v).1;
            let after = released_segmentation_batch(encoded_segmentation_batch(h, v).0, d, Side::Native).0;
            &&& heap_extends(after, h)
            &&& heap_live(after) == heap_live(h)
            &&& v.len() > 0 ==> released_segmentation_batch(after, d, Side::Native).1 == Err::<(), OwnershipError>(
                OwnershipError::NotLive,
            )
        }),
{
    let (built, d) = encoded_segmentation_batch(h, v);
    lemma_encoded_segmentation_rows_extends(h, v);
    lemma_release_built_segmentation_batch(h, v, built);
    lemma_heap_killed_fresh(h, built);
}

} // verus!
