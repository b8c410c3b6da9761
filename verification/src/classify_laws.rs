//! What holds of the classification bridge for every input.

use vstd::prelude::*;
use crate::batch::lemma_collect_rows_ok;
use crate::classify::{decoded_classify, decoded_classify_batch, decoded_classify_rows};
use crate::classify::{encoded_classify, encoded_classify_batch, encoded_classify_rows};
use crate::classify::{released_classify, released_classify_batch, released_classify_rows};
use crate::errors::{BatchError, DecodeError, OwnershipError, RecordError};
use crate::heap::{heap_extends, heap_live, ForeignClassifyResult, HeapView};
use crate::heap_laws::{heap_addressable, heap_intact, heap_killed};
use crate::heap_laws::{lemma_heap_intact_parts, lemma_heap_killed_fresh, lemma_heap_killed_twice};
use crate::ownership::Side;
use crate::region::{killed, lemma_release_built};
use crate::result::ClassifyResultView;
use crate::scalar::decoded;
use crate::scalar::{lemma_decoded_stable, lemma_round_trip};

verus! {

/// The lengths of a native record fit the machine's unsigned integer.
pub open spec fn native_classify(v: ClassifyResultView) -> bool {
    &&& v.label_ids.len() <= usize::MAX
    &&& v.scores.len() <= usize::MAX
}

/// The same of every record of a native batch, and of the batch.
pub open spec fn native_classify_batch(v: Seq<ClassifyResultView>) -> bool {
    &&& v.len() <= usize::MAX
    &&& forall|i: int| 0 <= i < v.len() ==> native_classify(#[trigger] v[i])
}

/// Building a record only adds buffers, and none to the arena of records.
pub proof fn lemma_encoded_classify_extends(h: HeapView, v: ClassifyResultView)
    ensures
        heap_extends(encoded_classify(h, v).0, h),
        encoded_classify(h, v).0.classify == h.classify,
{
}

/// Round trip: decoding the record that was built gives the record back.
pub proof fn lemma_round_trip_classify(h: HeapView, v: ClassifyResultView)
    requires
        heap_addressable(encoded_classify(h, v).0),
        native_classify(v),
    ensures
        decoded_classify(encoded_classify(h, v).0, encoded_classify(h, v).1) == Ok::<
            ClassifyResultView,
            RecordError,
        >(v),
{
    lemma_round_trip(h.int32s.cells, v.label_ids);
    lemma_round_trip(h.floats.cells, v.scores);
    v.type_.lemma_raw_round_trip();
}

/// A record that could be decoded still can after the heap has grown, and
/// gives the same.
pub proof fn lemma_decoded_classify_stable(before: HeapView, after: HeapView, d: ForeignClassifyResult)
    requires
        heap_extends(after, before),
        decoded_classify(before, d) is Ok,
    ensures
        decoded_classify(after, d) == decoded_classify(before, d),
{
    lemma_decoded_stable(before.int32s.cells, after.int32s.cells, d.label_ids);
    lemma_decoded_stable(before.floats.cells, after.floats.cells, d.scores);
}

/// Building records one after another only adds buffers.
pub proof fn lemma_encoded_classify_rows_extends(h: HeapView, v: Seq<ClassifyResultView>)
    ensures
        heap_extends(encoded_classify_rows(h, v).0, h),
        encoded_classify_rows(h, v).0.classify == h.classify,
        encoded_classify_rows(h, v).1.len() == v.len(),
    decreases v.len(),
{
    if v.len() > 0 {
        lemma_encoded_classify_rows_extends(h, v.drop_last());
        lemma_encoded_classify_extends(encoded_classify_rows(h, v.drop_last()).0, v.last());
    }
}

/// Each record that was built decodes to what it was.
pub proof fn lemma_encoded_classify_rows_decode(h: HeapView, v: Seq<ClassifyResultView>)
    requires
        heap_addressable(encoded_classify_rows(h, v).0),
        native_classify_batch(v),
    ensures
        forall|i: int| 0 <= i < v.len() ==> #[trigger] decoded_classify(
            encoded_classify_rows(h, v).0,
            encoded_classify_rows(h, v).1[i],
        ) == Ok::<ClassifyResultView, RecordError>(v[i]),
    decreases v.len(),
{
    if v.len() > 0 {
        let (h1, ds) = encoded_classify_rows(h, v.drop_last());
        let (h2, d) = encoded_classify(h1, v.last());
        lemma_encoded_classify_rows_extends(h, v.drop_last());
        lemma_encoded_classify_extends(h1, v.last());
        assert(native_classify_batch(v.drop_last())) by {
            assert forall|i: int| 0 <= i < v.drop_last().len() implies native_classify(
                #[trigger] v.drop_last()[i],
            ) by {
                assert(v.drop_last()[i] == v[i]);
            }
        }
        lemma_encoded_classify_rows_decode(h, v.drop_last());
        assert(native_classify(v.last()));
        lemma_round_trip_classify(h1, v.last());
        assert forall|i: int| 0 <= i < v.len() implies #[trigger] decoded_classify(
            encoded_classify_rows(h, v).0,
            encoded_classify_rows(h, v).1[i],
        ) == Ok::<ClassifyResultView, RecordError>(v[i]) by {
            if i < v.len() - 1 {
                assert(decoded_classify(h1, ds[i]) == Ok::<ClassifyResultView, RecordError>(v.drop_last()[i]));
                lemma_decoded_classify_stable(h1, h2, ds[i]);
            }
        }
    }
}

/// Round trip for batches: decoding the batch that was built gives every
/// record back, in order.
pub proof fn lemma_round_trip_classify_batch(h: HeapView, v: Seq<ClassifyResultView>)
    requires
        heap_addressable(encoded_classify_batch(h, v).0),
        native_classify_batch(v),
    ensures
        decoded_classify_batch(encoded_classify_batch(h, v).0, encoded_classify_batch(h, v).1) == Ok::<
            Seq<ClassifyResultView>,
            BatchError,
        >(v),
{
    let (h1, ds) = encoded_classify_rows(h, v);
    let (after, d) = encoded_classify_batch(h, v);
    lemma_encoded_classify_rows_extends(h, v);
    lemma_encoded_classify_rows_decode(h, v);
    lemma_round_trip(h1.classify, ds);
    assert(decoded(after.classify, d) == Ok::<Seq<ForeignClassifyResult>, DecodeError>(ds));
    assert forall|i: int| 0 <= i < ds.len() implies #[trigger] decoded_classify_rows(after, ds)[i] == Ok::<
        ClassifyResultView,
        RecordError,
    >(v[i]) by {
        assert(decoded_classify(h1, ds[i]) == Ok::<ClassifyResultView, RecordError>(v[i]));
        lemma_decoded_classify_stable(h1, after, ds[i]);
    }
    lemma_collect_rows_ok(decoded_classify_rows(after, ds), v);
}

/// The native side can dispose of the record that was built, as long as its
/// buffers are still as they were built; they are dead afterwards and
/// nothing else has changed.
pub proof fn lemma_release_built_classify(at: HeapView, v: ClassifyResultView, s: HeapView)
    requires
        heap_addressable(encoded_classify(at, v).0),
        heap_intact(s, encoded_classify(at, v).0, at),
    ensures
        released_classify(s, encoded_classify(at, v).1, Side::Native) == (
            heap_killed(s, at, encoded_classify(at, v).0),
            Ok::<(), OwnershipError>(()),
        ),
{
    lemma_release_built(at.int32s.cells, v.label_ids, s.int32s.cells);
    lemma_release_built(at.floats.cells, v.scores, s.floats.cells);
    assert(released_classify(s, encoded_classify(at, v).1, Side::Native).0 =~~= heap_killed(
        s,
        at,
        encoded_classify(at, v).0,
    ));
}

/// The same of records that were built one after another.
pub proof fn lemma_release_built_classify_rows(at: HeapView, v: Seq<ClassifyResultView>, s: HeapView)
    requires
        heap_addressable(encoded_classify_rows(at, v).0),
        heap_intact(s, encoded_classify_rows(at, v).0, at),
    ensures
        released_classify_rows(s, encoded_classify_rows(at, v).1, Side::Native) == (
            heap_killed(s, at, encoded_classify_rows(at, v).0),
            Ok::<(), OwnershipError>(()),
        ),
    decreases v.len(),
{
    let (built, ds) = encoded_classify_rows(at, v);
    if v.len() == 0 {
        assert(heap_killed(s, at, at) =~~= s);
    } else {
        let (b1, ds1) = encoded_classify_rows(at, v.drop_last());
        let (b2, d) = encoded_classify(b1, v.last());
        lemma_encoded_classify_rows_extends(at, v.drop_last());
        lemma_encoded_classify_extends(b1, v.last());
        lemma_heap_intact_parts(s, at, b1, b2);
        lemma_release_built_classify_rows(at, v.drop_last(), s);
        assert(ds.drop_last() =~= ds1);
        lemma_release_built_classify(b1, v.last(), heap_killed(s, at, b1));
        lemma_heap_killed_twice(s, at, b1, b2);
    }
}

/// The same of a batch: the records and the buffer that holds them.
pub proof fn lemma_release_built_classify_batch(at: HeapView, v: Seq<ClassifyResultView>, s: HeapView)
    requires
        heap_addressable(encoded_classify_batch(at, v).0),
        v.len() <= usize::MAX,
        heap_intact(s, encoded_classify_batch(at, v).0, at),
    ensures
        released_classify_batch(s, encoded_classify_batch(at, v).1, Side::Native) == (
            heap_killed(s, at, encoded_classify_batch(at, v).0),
            Ok::<(), OwnershipError>(()),
        ),
{
    let (h1, ds) = encoded_classify_rows(at, v);
    let (built, d) = encoded_classify_batch(at, v);
    lemma_encoded_classify_rows_extends(at, v);
    assert(heap_intact(s, h1, at));
    lemma_release_built_classify_rows(at, v, s);
    if v.len() == 0 {
        assert(heap_killed(s, at, built) =~~= s);
    } else {
        let p = at.classify.len() as int;
        assert(s.classify[p] == built.classify[p]);
        assert(s.classify[p]->Some_0.items.take(d.size as int) =~= ds);
        let s1 = heap_killed(s, at, h1);
        assert(s1.classify =~= s.classify);
        assert(s.classify.update(p, None) =~= killed(s.classify, p, built.classify.len() as int));
        assert(released_classify_batch(s, d, Side::Native).0 =~~= heap_killed(s, at, built));
    }
}

/// No leak, no double free: the record that was built can be disposed of by
/// the native side; after that every buffer that building had allocated is
/// freed and every other buffer is as it was.
pub proof fn lemma_dispose_once_classify(h: HeapView, v: ClassifyResultView)
    requires
        heap_addressable(encoded_classify(h, v).0),
    ensures
        released_classify(encoded_classify(h, v).0, encoded_classify(h, v).1, Side::Native).1 is Ok,
        ({
            let after = released_classify(encoded_classify(h, v).0, encoded_classify(h, v).1, Side::Native).0;
            &&& heap_extends(after, h)
            &&& heap_live(after) == heap_live(h)
        }),
{
    let (built, d) = encoded_classify(h, v);
    lemma_encoded_classify_extends(h, v);
    lemma_release_built_classify(h, v, built);
    lemma_heap_killed_fresh(h, built);
}

/// No leak, no double free, for batches; a second disposal of a batch that
/// holds records is refused.
pub proof fn lemma_dispose_once_classify_batch(h: HeapView, v: Seq<ClassifyResultView>)
    requires
        heap_addressable(encoded_classify_batch(h, v).0),
        v.len() <= usize::MAX,
    ensures
        released_classify_batch(
            encoded_classify_batch(h, v).0,
            encoded_classify_batch(h, v).1,
            Side::Native,
        ).1 is Ok,
        ({
            let d = encoded_classify_batch(h, v).1;
            let after = released_classify_batch(encoded_classify_batch(h, v).0, d, Side::Native).0;
            &&& heap_extends(after, h)
            &&& heap_live(after) == heap_live(h)
            &&& v.len() > 0 ==> released_classify_batch(after, d, Side::Native).1 == Err::<
                (),
                OwnershipError,
            >(OwnershipError::NotLive)
        }),
{
    let (built, d) = encoded_classify_batch(h, v);
    lemma_encoded_classify_rows_extends(h, v);
    lemma_release_built_classify_batch(h, v, built);
    lemma_heap_killed_fresh(h, built);
}

} // verus!
