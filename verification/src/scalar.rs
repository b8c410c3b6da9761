//! The scalar array bridge: one native sequence, one buffer.

use vstd::prelude::*;
use vstd::slice::slice_to_vec;
use crate::descriptor::FlatArray;
use crate::errors::{DecodeError, OwnershipError};
use crate::memory::{bound, extends, fresh, handed_off, live, live_count, released, Arena, Slots};
use crate::memory::{lemma_live_count_push, lemma_live_count_update};
use crate::ownership::{Mode, Side};

verus! {

/// The descriptor `d` claims no more than its buffer holds. A null pointer
/// and a size of zero claim nothing.
pub open spec fn readable<T>(s: Slots<T>, d: FlatArray<T>) -> bool {
    match d.data {
        None => true,
        Some(p) => d.size <= bound(s, p as int),
    }
}

/// The elements that `d` describes: the first `size` of its buffer, and
/// nothing behind a null pointer or where the claim cannot be met.
pub open spec fn contents<T>(s: Slots<T>, d: FlatArray<T>) -> Seq<T> {
    match d.data {
        None => Seq::empty(),
        Some(p) => if 0 < d.size <= bound(s, p as int) {
            s[p as int]->Some_0.items.take(d.size as int)
        } else {
            Seq::empty()
        },
    }
}

/// What a copying decode of `d` gives.
pub open spec fn decoded<T>(s: Slots<T>, d: FlatArray<T>) -> Result<Seq<T>, DecodeError> {
    if readable(s, d) {
        Ok(contents(s, d))
    } else {
        Err(DecodeError::SizeMismatch)
    }
}

/// What encoding `v` does to the arena, and the descriptor it gives: nothing
/// and the null descriptor for an empty `v`, else one new buffer of the
/// native side, holding `v`.
pub open spec fn encoded<T>(s: Slots<T>, v: Seq<T>) -> (Slots<T>, FlatArray<T>) {
    if v.len() == 0 {
        (s, FlatArray::null())
    } else {
        (s.push(fresh(v, Side::Native)), FlatArray::new(v.len() as usize, Some(s.len() as usize)))
    }
}

/// What an adopting decode of `d` does to the arena, and what it gives. The
/// buffer leaves the arena; its length must be the size that `d` states.
pub open spec fn adopted_array<T>(s: Slots<T>, d: FlatArray<T>) -> (Slots<T>, Result<Seq<T>, DecodeError>) {
    match d.data {
        None => (s, Ok(Seq::empty())),
        Some(p) => if d.size == 0 {
            (s, Ok(Seq::empty()))
        } else if bound(s, p as int) != d.size {
            (s, Err(DecodeError::SizeMismatch))
        } else if s[p as int]->Some_0.allocator != Side::Native {
            (s, Err(DecodeError::AllocatorMismatch))
        } else {
            (s.update(p as int, None), Ok(s[p as int]->Some_0.items))
        },
    }
}

/// What disposing of `d` by the side `by` does to the arena.
pub open spec fn released_array<T>(s: Slots<T>, d: FlatArray<T>, by: Side) -> Result<Slots<T>, OwnershipError> {
    match d.data {
        None => Ok(s),
        Some(p) => released(s, p as int, by),
    }
}

/// What handing the buffer of `d` over does to the arena: the owner `from`
/// gives it to the other side. A null descriptor has no buffer to hand over.
pub open spec fn handed_off_array<T>(s: Slots<T>, d: FlatArray<T>, from: Side) -> Result<Slots<T>, OwnershipError> {
    match d.data {
        None => Ok(s),
        Some(p) => handed_off(s, p as int, from),
    }
}

/// Encodes `values`: a buffer of exactly `values.len()` elements in their
/// order, or the null descriptor where there are none. The second component
/// names the side that must free the buffer.
pub fn to_foreign<T: Copy>(cells: &mut Arena<T>, values: &Vec<T>) -> (r: (FlatArray<T>, Side))
    ensures
        (final(cells)@, r.0) == encoded(old(cells)@, values@),
        r.0.wf(),
        r.1 == Side::Native,
{
    if values.len() == 0 {
        (FlatArray::null(), Side::Native)
    } else {
        let buffer = slice_to_vec(values.as_slice());
        let p = cells.allocate(buffer, Side::Native);
        (FlatArray::new(values.len(), Some(p)), Side::Native)
    }
}

/// Decodes `d` by copying: the buffer stays as it is, with its owner.
pub fn copy_from_foreign<T: Copy>(cells: &Arena<T>, d: &FlatArray<T>) -> (r: Result<Vec<T>, DecodeError>)
    ensures
        match decoded(cells@, *d) {
            Ok(v) => r is Ok && r->Ok_0@ == v,
            Err(e) => r == Err::<Vec<T>, DecodeError>(e),
        },
{
    match d.data {
        None => Ok(Vec::new()),
        Some(p) => {
            if d.size == 0 {
                Ok(Vec::new())
            } else if d.size > cells.bound_of(p) {
                Err(DecodeError::SizeMismatch)
            } else {
                Ok(cells.read(p, d.size))
            }
        },
    }
}

/// Decodes `d` by adopting its buffer.
pub fn adopt_from_foreign<T: Copy>(cells: &mut Arena<T>, d: &FlatArray<T>) -> (r: Result<Vec<T>, DecodeError>)
    ensures
        final(cells)@ == adopted_array(old(cells)@, *d).0,
        match adopted_array(old(cells)@, *d).1 {
            Ok(v) => r is Ok && r->Ok_0@ == v,
            Err(e) => r == Err::<Vec<T>, DecodeError>(e),
        },
{
    match d.data {
        None => Ok(Vec::new()),
        Some(p) => {
            if d.size == 0 {
                Ok(Vec::new())
            } else if cells.bound_of(p) != d.size {
                Err(DecodeError::SizeMismatch)
            } else {
                match cells.adopt(p) {
                    Ok(items) => Ok(items),
                    Err(_) => Err(DecodeError::AllocatorMismatch),
                }
            }
        },
    }
}

/// Decodes `d` in the given mode.
pub fn from_foreign<T: Copy>(cells: &mut Arena<T>, d: &FlatArray<T>, mode: Mode) -> (r: Result<Vec<T>, DecodeError>)
    ensures
        mode == Mode::Copying ==> final(cells)@ == old(cells)@ && match decoded(old(cells)@, *d) {
            Ok(v) => r is Ok && r->Ok_0@ == v,
            Err(e) => r == Err::<Vec<T>, DecodeError>(e),
        },
        mode == Mode::Adopting ==> final(cells)@ == adopted_array(old(cells)@, *d).0
            && match adopted_array(old(cells)@, *d).1 {
            Ok(v) => r is Ok && r->Ok_0@ == v,
            Err(e) => r == Err::<Vec<T>, DecodeError>(e),
        },
{
    match mode {
        Mode::Copying => copy_from_foreign(cells, d),
        Mode::Adopting => adopt_from_foreign(cells, d),
    }
}

/// The side `by` frees the buffer of `d`. A null descriptor has none.
pub fn dispose<T: Copy>(cells: &mut Arena<T>, d: &FlatArray<T>, by: Side) -> (r: Result<(), OwnershipError>)
    ensures
        match released_array(old(cells)@, *d, by) {
            Ok(s) => r == Ok::<(), OwnershipError>(()) && final(cells)@ == s,
            Err(e) => r == Err::<(), OwnershipError>(e) && final(cells)@ == old(cells)@,
        },
{
    match d.data {
        None => Ok(()),
        Some(p) => cells.release(p, by),
    }
}

/// The owner `from` hands the buffer of `d` over to the other side. The
/// elements stay where they are; from now on only the other side may free
/// them.
pub fn hand_off<T: Copy>(cells: &mut Arena<T>, d: &FlatArray<T>, from: Side) -> (r: Result<(), OwnershipError>)
    ensures
        match handed_off_array(old(cells)@, *d, from) {
            Ok(s) => r == Ok::<(), OwnershipError>(()) && final(cells)@ == s,
            Err(e) => r == Err::<(), OwnershipError>(e) && final(cells)@ == old(cells)@,
        },
{
    match d.data {
        None => Ok(()),
        Some(p) => cells.hand_off(p, from),
    }
}

/// The side that must free the buffer of `d`, where it has a live buffer.
pub fn owner_of<T: Copy>(cells: &Arena<T>, d: &FlatArray<T>) -> (r: Option<Side>)
    ensures
        match d.data {
            Some(p) if live(cells@, p as int) => r == Some(cells@[p as int]->Some_0.owner),
            _ => r is None,
        },
{
    match d.data {
        None => None,
        Some(p) => cells.owner_of(p),
    }
}

/// Encoding leaves every earlier buffer as it was.
pub proof fn lemma_encoded_extends<T>(s: Slots<T>, v: Seq<T>)
    ensures
        extends(encoded(s, v).0, s),
{
}

/// A descriptor that could be decoded still can after the arena has grown,
/// and gives the same.
pub proof fn lemma_decoded_stable<T>(before: Slots<T>, after: Slots<T>, d: FlatArray<T>)
    requires
        extends(after, before),
        decoded(before, d) is Ok,
    ensures
        decoded(after, d) == decoded(before, d),
{
}

/// Round trip: decoding what was encoded gives the sequence back, in order
/// and with every value as it was.
pub proof fn lemma_round_trip<T>(s: Slots<T>, v: Seq<T>)
    requires
        s.len() <= usize::MAX,
        v.len() <= usize::MAX,
    ensures
        decoded(encoded(s, v).0, encoded(s, v).1) == Ok::<Seq<T>, DecodeError>(v),
{
    let (t, d) = encoded(s, v);
    if v.len() > 0 {
        assert(t[s.len() as int]->Some_0.items.take(v.len() as int) =~= v);
    } else {
        assert(v =~= Seq::empty());
    }
}

/// Round trip by adoption: what the native side has encoded it can take
/// back, with every element, and then the arena holds what it held before.
pub proof fn lemma_round_trip_adopting<T>(s: Slots<T>, v: Seq<T>)
    requires
        s.len() <= usize::MAX,
        v.len() <= usize::MAX,
    ensures
        adopted_array(encoded(s, v).0, encoded(s, v).1).1 == Ok::<Seq<T>, DecodeError>(v),
        extends(adopted_array(encoded(s, v).0, encoded(s, v).1).0, s),
        live_count(adopted_array(encoded(s, v).0, encoded(s, v).1).0) == live_count(s),
{
    let (t, d) = encoded(s, v);
    if v.len() > 0 {
        lemma_live_count_push(s, fresh(v, Side::Native));
        lemma_live_count_update(t, s.len() as int, None);
    } else {
        assert(v =~= Seq::empty());
    }
}

/// The empty sequence encodes to size zero and the null pointer, and leaves
/// the arena alone; a null pointer or a size of zero decodes to the empty
/// sequence whatever the arena holds.
pub proof fn lemma_empty<T>(s: Slots<T>, d: FlatArray<T>)
    ensures
        encoded(s, Seq::<T>::empty()) == (s, FlatArray::<T>::null()),
        d.data is None || d.size == 0 ==> decoded(s, d) == Ok::<Seq<T>, DecodeError>(Seq::empty()),
{
}

/// Two encodings never share a buffer: disposing of either of two arrays
/// that were encoded one after the other leaves the other as it was.
pub proof fn lemma_disposal_is_local<T>(s: Slots<T>, a: Seq<T>, b: Seq<T>)
    requires
        s.len() + 1 <= usize::MAX,
        a.len() <= usize::MAX,
        b.len() <= usize::MAX,
    ensures
        ({
            let (s1, first) = encoded(s, a);
            let (s2, second) = encoded(s1, b);
            &&& released_array(s2, first, Side::Native) is Ok
            &&& released_array(s2, second, Side::Native) is Ok
            &&& decoded(released_array(s2, first, Side::Native)->Ok_0, second) == Ok::<Seq<T>, DecodeError>(b)
            &&& decoded(released_array(s2, second, Side::Native)->Ok_0, first) == Ok::<Seq<T>, DecodeError>(a)
        }),
{
    let (s1, first) = encoded(s, a);
    let (s2, second) = encoded(s1, b);
    lemma_round_trip(s, a);
    lemma_round_trip(s1, b);
    lemma_decoded_stable(s1, s2, first);
    if a.len() > 0 && b.len() > 0 {
        let p = s.len() as int;
        let q = s1.len() as int;
        assert(s2.update(p, None)[q]->Some_0.items.take(b.len() as int) =~= b);
        assert(s2.update(q, None)[p]->Some_0.items.take(a.len() as int) =~= a);
    }
}

/// The hand-off is the one transition of ownership: after it the buffer
/// belongs to the other side, the side that gave it away may no longer free
/// it, and every descriptor decodes to what it decoded to before.
pub proof fn lemma_hand_off<T>(s: Slots<T>, p: int, from: Side, d: FlatArray<T>)
    requires
        handed_off(s, p, from) is Ok,
    ensures
        ({
            let after = handed_off(s, p, from)->Ok_0;
            &&& after[p]->Some_0.owner == from.spec_other()
            &&& released(after, p, from) == Err::<Slots<T>, OwnershipError>(OwnershipError::NotOwner)
            &&& live_count(after) == live_count(s)
            &&& decoded(after, d) == decoded(s, d)
        }),
{
    let after = handed_off(s, p, from)->Ok_0;
    lemma_live_count_update(s, p, after[p]);
}

/// No leak, no double free: encoding and then disposing once frees what was
/// allocated and nothing else, and a second disposal of a buffer is refused.
pub proof fn lemma_dispose_once<T>(s: Slots<T>, v: Seq<T>)
    requires
        s.len() <= usize::MAX,
        v.len() <= usize::MAX,
    ensures
        released_array(encoded(s, v).0, encoded(s, v).1, Side::Native) is Ok,
        ({
            let after = released_array(encoded(s, v).0, encoded(s, v).1, Side::Native)->Ok_0;
            &&& extends(after, s)
            &&& live_count(after) == live_count(s)
            &&& v.len() > 0 ==> released_array(after, encoded(s, v).1, Side::Native)
                == Err::<Slots<T>, OwnershipError>(OwnershipError::NotLive)
        }),
{
    let (t, d) = encoded(s, v);
    if v.len() > 0 {
        lemma_live_count_push(s, fresh(v, Side::Native));
        lemma_live_count_update(t, s.len() as int, None);
    }
}

} // verus!
