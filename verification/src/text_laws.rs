//! What holds of the text bridge for every input.

use vstd::prelude::*;
use vstd::utf8::{encode_utf8, encode_utf8_decode_utf8, encode_utf8_valid_utf8};
use crate::descriptor::{NestedArray, StringDescriptor};
use crate::errors::{DecodeError, OwnershipError};
use crate::memory::{extends, live_count, Slots};
use crate::nested::{memory_extends, released_2d, released_rows, MemoryView};
use crate::ownership::Side;
use crate::region::{addressable, killed, lemma_killed_fresh, lemma_killed_twice, memory_intact, memory_killed};
use crate::region::region_intact;
use crate::scalar::{decoded, encoded, released_array};
use crate::scalar::{lemma_decoded_stable, lemma_round_trip};
use crate::sequence::{lemma_collect_ok, lemma_first_error};
use crate::text::{decoded_text, decoded_text_rows, decoded_texts, encoded_text, encoded_text_rows, encoded_texts};

verus! {

/// The bytes of every text of `v` can be counted in the machine's unsigned
/// integer, and so can the texts.
pub open spec fn native_texts(v: Seq<Seq<char>>) -> bool {
    &&& v.len() <= usize::MAX
    &&& forall|i: int| 0 <= i < v.len() ==> encode_utf8(#[trigger] v[i]).len() <= usize::MAX
}

/// Round trip: decoding an encoded string gives the text back, whatever
/// characters it holds.
pub proof fn lemma_round_trip_text(cells: Slots<u8>, text: Seq<char>)
    requires
        cells.len() <= usize::MAX,
        encode_utf8(text).len() <= usize::MAX,
    ensures
        decoded_text(encoded_text(cells, text).0, encoded_text(cells, text).1) == Ok::<
            Seq<char>,
            DecodeError,
        >(text),
{
    let bytes = encode_utf8(text);
    let (after, d) = encoded_text(cells, text);
    encode_utf8_valid_utf8(text);
    encode_utf8_decode_utf8(text);
    if bytes.len() > 0 {
        assert(bytes.push(0u8).take(bytes.len() as int) =~= bytes);
    } else {
        assert(bytes =~= Seq::empty());
    }
    assert(decoded(after, d) == Ok::<Seq<u8>, DecodeError>(bytes));
}

/// A string whose bytes could be read still decodes to the same, text or
/// error, after the arena has grown.
pub proof fn lemma_decoded_text_stable(before: Slots<u8>, after: Slots<u8>, d: StringDescriptor)
    requires
        extends(after, before),
        decoded(before, d) is Ok,
    ensures
        decoded_text(after, d) == decoded_text(before, d),
{
    lemma_decoded_stable(before, after, d);
}

/// Encoding strings adds exactly one buffer for each.
pub proof fn lemma_encoded_text_rows_extends(cells: Slots<u8>, v: Seq<Seq<char>>)
    ensures
        extends(encoded_text_rows(cells, v).0, cells),
        encoded_text_rows(cells, v).0.len() == cells.len() + v.len(),
        encoded_text_rows(cells, v).1.len() == v.len(),
    decreases v.len(),
{
    if v.len() > 0 {
        lemma_encoded_text_rows_extends(cells, v.drop_last());
    }
}

/// Each string that was encoded decodes to what it was.
pub proof fn lemma_encoded_text_rows_decode(cells: Slots<u8>, v: Seq<Seq<char>>)
    requires
        encoded_text_rows(cells, v).0.len() <= usize::MAX,
        native_texts(v),
    ensures
        forall|i: int| 0 <= i < v.len() ==> #[trigger] decoded_text(
            encoded_text_rows(cells, v).0,
            encoded_text_rows(cells, v).1[i],
        ) == Ok::<Seq<char>, DecodeError>(v[i]),
    decreases v.len(),
{
    if v.len() > 0 {
        let (c1, ds) = encoded_text_rows(cells, v.drop_last());
        let (c2, d) = encoded_text(c1, v.last());
        lemma_encoded_text_rows_extends(cells, v.drop_last());
        assert(native_texts(v.drop_last())) by {
            assert forall|i: int| 0 <= i < v.drop_last().len() implies encode_utf8(
                #[trigger] v.drop_last()[i],
            ).len() <= usize::MAX by {
                assert(v.drop_last()[i] == v[i]);
            }
        }
        lemma_encoded_text_rows_decode(cells, v.drop_last());
        lemma_round_trip_text(c1, v.last());
        assert forall|i: int| 0 <= i < v.len() implies #[trigger] decoded_text(
            encoded_text_rows(cells, v).0,
            encoded_text_rows(cells, v).1[i],
        ) == Ok::<Seq<char>, DecodeError>(v[i]) by {
            if i < v.len() - 1 {
                assert(decoded_text(c1, ds[i]) == Ok::<Seq<char>, DecodeError>(v.drop_last()[i]));
                lemma_decoded_text_stable(c1, c2, ds[i]);
            }
        }
    }
}

/// Encoding an array of strings only adds buffers.
pub proof fn lemma_encoded_texts_extends(m: MemoryView<u8>, v: Seq<Seq<char>>)
    ensures
        memory_extends(encoded_texts(m, v).0, m),
        encoded_texts(m, v).0.planes == m.planes,
{
    lemma_encoded_text_rows_extends(m.cells, v);
}

/// Round trip for arrays of strings.
pub proof fn lemma_round_trip_texts(m: MemoryView<u8>, v: Seq<Seq<char>>)
    requires
        addressable(encoded_texts(m, v).0),
        native_texts(v),
    ensures
        decoded_texts(encoded_texts(m, v).0, encoded_texts(m, v).1) == Ok::<Seq<Seq<char>>, DecodeError>(v),
{
    let (cells, ds) = encoded_text_rows(m.cells, v);
    let (after, d) = encoded_texts(m, v);
    lemma_encoded_text_rows_extends(m.cells, v);
    lemma_encoded_text_rows_decode(m.cells, v);
    lemma_round_trip(m.rows, ds);
    assert(decoded(after.rows, d) == Ok::<Seq<StringDescriptor>, DecodeError>(ds));
    lemma_collect_ok(decoded_text_rows(cells, ds), v);
}

/// An array of strings that could be decoded still can after the memory
/// has grown, and gives the same.
pub proof fn lemma_decoded_texts_stable(before: MemoryView<u8>, after: MemoryView<u8>, d: NestedArray<u8>)
    requires
        memory_extends(after, before),
        decoded_texts(before, d) is Ok,
    ensures
        decoded_texts(after, d) == decoded_texts(before, d),
{
    let ds = decoded(before.rows, d)->Ok_0;
    lemma_decoded_stable(before.rows, after.rows, d);
    let rs = decoded_text_rows(before.cells, ds);
    lemma_first_error(rs);
    assert forall|i: int| 0 <= i < ds.len() implies decoded_text(after.cells, ds[i]) == decoded_text(
        before.cells,
        ds[i],
    ) by {
        assert(rs[i] is Ok);
        lemma_decoded_text_stable(before.cells, after.cells, ds[i]);
    }
    assert(decoded_text_rows(after.cells, ds) =~= rs);
}

/// The native side can free the buffer of a string that was encoded, as
/// long as the buffer is still as it was built.
pub proof fn lemma_release_built_text(at: Slots<u8>, text: Seq<char>, s: Slots<u8>)
    requires
        encoded_text(at, text).0.len() <= usize::MAX,
        region_intact(s, encoded_text(at, text).0, at.len() as int),
    ensures
        released_array(s, encoded_text(at, text).1, Side::Native) == Ok::<Slots<u8>, OwnershipError>(
            killed(s, at.len() as int, encoded_text(at, text).0.len() as int),
        ),
{
    let (built, d) = encoded_text(at, text);
    let p = at.len() as int;
    assert(s[p] == built[p]);
    assert(s.update(p, None) =~= killed(s, p, built.len() as int));
}

/// No leak, no double free, for one string.
pub proof fn lemma_dispose_once_text(cells: Slots<u8>, text: Seq<char>)
    requires
        encoded_text(cells, text).0.len() <= usize::MAX,
    ensures
        released_array(encoded_text(cells, text).0, encoded_text(cells, text).1, Side::Native) is Ok,
        ({
            let d = encoded_text(cells, text).1;
            let after = released_array(encoded_text(cells, text).0, d, Side::Native)->Ok_0;
            &&& extends(after, cells)
            &&& live_count(after) == live_count(cells)
            &&& released_array(after, d, Side::Native) == Err::<Slots<u8>, OwnershipError>(
                OwnershipError::NotLive,
            )
        }),
{
    let (built, d) = encoded_text(cells, text);
    lemma_release_built_text(cells, text, built);
    lemma_killed_fresh(cells, built);
}

/// The same of strings that were encoded one after another.
pub proof fn lemma_release_built_text_rows(at: Slots<u8>, v: Seq<Seq<char>>, s: Slots<u8>)
    requires
        encoded_text_rows(at, v).0.len() <= usize::MAX,
        region_intact(s, encoded_text_rows(at, v).0, at.len() as int),
    ensures
        released_rows(s, encoded_text_rows(at, v).1, Side::Native) == (
            killed(s, at.len() as int, encoded_text_rows(at, v).0.len() as int),
            Ok::<(), OwnershipError>(()),
        ),
    decreases v.len(),
{
    let (built, ds) = encoded_text_rows(at, v);
    if v.len() == 0 {
        assert(killed(s, at.len() as int, built.len() as int) =~= s);
    } else {
        let (b1, ds1) = encoded_text_rows(at, v.drop_last());
        let (b2, d) = encoded_text(b1, v.last());
        lemma_encoded_text_rows_extends(at, v.drop_last());
        assert(region_intact(s, b1, at.len() as int)) by {
            assert forall|p: int| at.len() <= p < b1.len() implies s[p] == b1[p] by {
                assert(b2[p] == b1[p]);
            }
        }
        lemma_release_built_text_rows(at, v.drop_last(), s);
        let s1 = killed(s, at.len() as int, b1.len() as int);
        assert(ds.drop_last() =~= ds1);
        assert(region_intact(s1, b2, b1.len() as int));
        lemma_release_built_text(b1, v.last(), s1);
        lemma_killed_twice(s, at.len() as int, b1.len() as int, b2.len() as int);
    }
}

/// The same of an array of strings: the strings and the buffer that refers
/// to them are freed, and nothing else changes.
pub proof fn lemma_release_built_texts(at: MemoryView<u8>, v: Seq<Seq<char>>, s: MemoryView<u8>)
    requires
        addressable(encoded_texts(at, v).0),
        v.len() <= usize::MAX,
        memory_intact(s, encoded_texts(at, v).0, at),
    ensures
        released_2d(s, encoded_texts(at, v).1, Side::Native) == (
            memory_killed(s, at, encoded_texts(at, v).0),
            Ok::<(), OwnershipError>(()),
        ),
{
    let (cells, ds) = encoded_text_rows(at.cells, v);
    let (built, d) = encoded_texts(at, v);
    lemma_encoded_text_rows_extends(at.cells, v);
    lemma_release_built_text_rows(at.cells, v, s.cells);
    assert(killed(s.planes, at.planes.len() as int, built.planes.len() as int) =~= s.planes);
    if v.len() == 0 {
        assert(killed(s.rows, at.rows.len() as int, built.rows.len() as int) =~= s.rows);
    } else {
        let p = at.rows.len() as int;
        assert(s.rows[p] == built.rows[p]);
        assert(s.rows[p]->Some_0.items.take(d.size as int) =~= ds);
        assert(s.rows.update(p, None) =~= killed(s.rows, p, built.rows.len() as int));
    }
}

/// No leak, no double free, for arrays of strings.
pub proof fn lemma_dispose_once_texts(m: MemoryView<u8>, v: Seq<Seq<char>>)
    requires
        addressable(encoded_texts(m, v).0),
        native_texts(v),
    ensures
        released_2d(encoded_texts(m, v).0, encoded_texts(m, v).1, Side::Native).1 is Ok,
        ({
            let d = encoded_texts(m, v).1;
            let after = released_2d(encoded_texts(m, v).0, d, Side::Native).0;
            &&& memory_extends(after, m)
            &&& live_count(after.cells) == live_count(m.cells)
            &&& live_count(after.rows) == live_count(m.rows)
            &&& live_count(after.planes) == live_count(m.planes)
            &&& v.len() > 0 ==> released_2d(after, d, Side::Native).1 == Err::<(), OwnershipError>(
                OwnershipError::NotLive,
            )
        }),
{
    let (built, d) = encoded_texts(m, v);
    lemma_encoded_texts_extends(m, v);
    lemma_release_built_texts(m, v, built);
    lemma_killed_fresh(m.cells, built.cells);
    lemma_killed_fresh(m.rows, built.rows);
    lemma_killed_fresh(m.planes, built.planes);
}

} // verus!
