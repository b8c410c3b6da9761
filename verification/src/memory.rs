//! A model of the memory that descriptors point into.
//!
//! An [`Arena`] holds the buffers of one element type. An address is an index
//! into the arena; a released buffer leaves a dead slot behind, so a stale
//! address never comes to name a newer buffer. Every buffer records the side
//! that allocated it and the side that owns it.

use vstd::prelude::*;
use crate::errors::OwnershipError;
use crate::ownership::Side;

verus! {

/// A buffer as specifications see it.
pub struct BlockView<T> {
    pub items: Seq<T>,
    pub allocator: Side,
    pub owner: Side,
}

/// The slots of an arena: `None` where a buffer was released.
pub type Slots<T> = Seq<Option<BlockView<T>>>;

/// A live buffer stands at address `p`.
pub open spec fn live<T>(s: Slots<T>, p: int) -> bool {
    0 <= p < s.len() && s[p] is Some
}

/// The number of elements that may be read at address `p`: the length of the
/// buffer there, and nothing where no live buffer stands.
pub open spec fn bound<T>(s: Slots<T>, p: int) -> nat {
    if live(s, p) {
        s[p]->Some_0.items.len()
    } else {
        0
    }
}

/// The number of live buffers.
pub open spec fn live_count<T>(s: Slots<T>) -> nat
    decreases s.len(),
{
    if s.len() == 0 {
        0
    } else {
        live_count(s.drop_last()) + if s.last() is Some { 1nat } else { 0nat }
    }
}

/// The count `n` as a machine integer, where it fits.
pub open spec fn counted(n: nat) -> Option<usize> {
    if n <= usize::MAX {
        Some(n as usize)
    } else {
        None
    }
}

/// The sum of two counts, where both are there and the sum fits.
pub open spec fn plus_counts(a: Option<usize>, b: Option<usize>) -> Option<usize> {
    match (a, b) {
        (Some(m), Some(n)) => counted((m + n) as nat),
        _ => None,
    }
}

/// Adds two counts; the sum is lost where it does not fit.
pub fn add_counts(a: Option<usize>, b: Option<usize>) -> (r: Option<usize>)
    ensures
        r == plus_counts(a, b),
{
    match (a, b) {
        (Some(m), Some(n)) => if m > usize::MAX - n {
            None
        } else {
            Some(m + n)
        },
        _ => None,
    }
}

/// Adding counts as machine integers gives the count of the sum, or
/// nothing where that does not fit.
pub proof fn lemma_plus_counts(x: nat, y: nat)
    ensures
        plus_counts(counted(x), counted(y)) == counted(x + y),
{
}

/// `after` holds every slot of `before` unchanged, and possibly more.
pub open spec fn extends<T>(after: Slots<T>, before: Slots<T>) -> bool {
    &&& before.len() <= after.len()
    &&& forall|p: int| 0 <= p < before.len() ==> after[p] == before[p]
}

/// A fresh buffer, owned by the side that allocated it.
pub open spec fn fresh<T>(items: Seq<T>, by: Side) -> Option<BlockView<T>> {
    Some(BlockView { items, allocator: by, owner: by })
}

/// What [`Arena::hand_off`] does.
pub open spec fn handed_off<T>(s: Slots<T>, p: int, from: Side) -> Result<Slots<T>, OwnershipError> {
    if !live(s, p) {
        Err(OwnershipError::NotLive)
    } else if s[p]->Some_0.owner != from {
        Err(OwnershipError::NotOwner)
    } else {
        Ok(s.update(p, Some(BlockView { owner: from.spec_other(), ..s[p]->Some_0 })))
    }
}

/// What [`Arena::release`] does.
pub open spec fn released<T>(s: Slots<T>, p: int, by: Side) -> Result<Slots<T>, OwnershipError> {
    if !live(s, p) {
        Err(OwnershipError::NotLive)
    } else if s[p]->Some_0.owner != by {
        Err(OwnershipError::NotOwner)
    } else if s[p]->Some_0.allocator != by {
        Err(OwnershipError::AllocatorMismatch)
    } else {
        Ok(s.update(p, None))
    }
}

/// What [`Arena::adopt`] does.
pub open spec fn adopted<T>(s: Slots<T>, p: int) -> Result<(Slots<T>, Seq<T>), OwnershipError> {
    if !live(s, p) {
        Err(OwnershipError::NotLive)
    } else if s[p]->Some_0.allocator != Side::Native {
        Err(OwnershipError::AllocatorMismatch)
    } else {
        Ok((s.update(p, None), s[p]->Some_0.items))
    }
}

/// Only the owner frees a buffer, and only with the allocator that produced
/// it; the buffer is dead afterwards, so that nobody frees it again.
pub proof fn lemma_only_the_owner_frees<T>(s: Slots<T>, p: int, by: Side)
    requires
        released(s, p, by) is Ok,
    ensures
        live(s, p),
        s[p]->Some_0.owner == by,
        s[p]->Some_0.allocator == by,
        !live(released(s, p, by)->Ok_0, p),
        live_count(released(s, p, by)->Ok_0) + 1 == live_count(s),
        forall|other: Side|
            released(released(s, p, by)->Ok_0, p, other) == Err::<Slots<T>, OwnershipError>(
                OwnershipError::NotLive,
            ),
{
    lemma_live_count_update(s, p, None);
}

/// A slot added at the end counts where it holds a buffer.
pub proof fn lemma_live_count_push<T>(s: Slots<T>, x: Option<BlockView<T>>)
    ensures
        live_count(s.push(x)) == live_count(s) + if x is Some { 1nat } else { 0nat },
{
    assert(s.push(x).drop_last() =~= s);
}

/// Rewriting a slot changes the count by the buffer that went and the
/// buffer that came.
pub proof fn lemma_live_count_update<T>(s: Slots<T>, p: int, x: Option<BlockView<T>>)
    requires
        0 <= p < s.len(),
    ensures
        live_count(s.update(p, x)) + (if s[p] is Some { 1nat } else { 0nat })
            == live_count(s) + if x is Some { 1nat } else { 0nat },
    decreases s.len(),
{
    if p == s.len() - 1 {
        assert(s.update(p, x).drop_last() =~= s.drop_last());
    } else {
        lemma_live_count_update(s.drop_last(), p, x);
        assert(s.update(p, x).drop_last() =~= s.drop_last().update(p, x));
    }
}

struct Block<T> {
    items: Vec<T>,
    allocator: Side,
    owner: Side,
}

impl<T> Block<T> {
    spec fn view(&self) -> BlockView<T> {
        BlockView { items: self.items@, allocator: self.allocator, owner: self.owner }
    }
}

spec fn slot_view<T>(slot: Option<Block<T>>) -> Option<BlockView<T>> {
    match slot {
        Some(b) => Some(b.view()),
        None => None,
    }
}

/// The buffers of one element type.
pub struct Arena<T> {
    slots: Vec<Option<Block<T>>>,
}

impl<T> View for Arena<T> {
    type V = Slots<T>;

    closed spec fn view(&self) -> Slots<T> {
        Seq::new(self.slots@.len(), |i: int| slot_view(self.slots@[i]))
    }
}

impl<T: Copy> Arena<T> {
    /// An arena without buffers.
    pub fn new() -> (a: Self)
        ensures
            a@ == Seq::<Option<BlockView<T>>>::empty(),
    {
        let a = Arena { slots: Vec::new() };
        assert(a@ =~= Seq::<Option<BlockView<T>>>::empty());
        a
    }

    /// The number of slots, live and dead.
    pub fn slot_count(&self) -> (n: usize)
        ensures
            n == self@.len(),
    {
        self.slots.len()
    }

    /// Puts `items` into a new buffer, allocated and owned by `by`, and
    /// returns its address.
    pub fn allocate(&mut self, items: Vec<T>, by: Side) -> (p: usize)
        ensures
            p == old(self)@.len(),
            final(self)@ == old(self)@.push(fresh(items@, by)),
    {
        let p: usize = self.slots.len();
        self.slots.push(Some(Block { items, allocator: by, owner: by }));
        assert(self@ =~= old(self)@.push(fresh(items@, by)));
        p
    }

    /// Whether a live buffer stands at `p`.
    pub fn is_live(&self, p: usize) -> (b: bool)
        ensures
            b == live(self@, p as int),
    {
        p < self.slots.len() && self.slots[p].is_some()
    }

    /// The number of elements that may be read at `p`.
    pub fn bound_of(&self, p: usize) -> (n: usize)
        ensures
            n == bound(self@, p as int),
    {
        if p < self.slots.len() {
            match &self.slots[p] {
                Some(b) => b.items.len(),
                None => 0,
            }
        } else {
            0
        }
    }

    /// The owner of the buffer at `p`.
    pub fn owner_of(&self, p: usize) -> (r: Option<Side>)
        ensures
            r is Some <==> live(self@, p as int),
            r matches Some(side) ==> side == self@[p as int]->Some_0.owner,
    {
        if p < self.slots.len() {
            match &self.slots[p] {
                Some(b) => Some(b.owner),
                None => None,
            }
        } else {
            None
        }
    }

    /// The side that allocated the buffer at `p`.
    pub fn allocator_of(&self, p: usize) -> (r: Option<Side>)
        ensures
            r is Some <==> live(self@, p as int),
            r matches Some(side) ==> side == self@[p as int]->Some_0.allocator,
    {
        if p < self.slots.len() {
            match &self.slots[p] {
                Some(b) => Some(b.allocator),
                None => None,
            }
        } else {
            None
        }
    }

    /// The element at index `i` of the buffer at `p`.
    pub fn get(&self, p: usize, i: usize) -> (x: T)
        requires
            i < bound(self@, p as int),
        ensures
            x == self@[p as int]->Some_0.items[i as int],
    {
        match &self.slots[p] {
            Some(b) => b.items[i],
            None => vstd::pervasive::unreached(),
        }
    }

    /// A copy of the first `n` elements of the buffer at `p`.
    pub fn read(&self, p: usize, n: usize) -> (v: Vec<T>)
        requires
            n <= bound(self@, p as int),
        ensures
            v@ == self@[p as int]->Some_0.items.take(n as int),
    {
        let mut v: Vec<T> = Vec::with_capacity(n);
        let mut i: usize = 0;
        while i < n
            invariant
                i <= n <= bound(self@, p as int),
                v@ == self@[p as int]->Some_0.items.take(i as int),
            decreases n - i,
        {
            v.push(self.get(p, i));
            i += 1;
            assert(v@ =~= self@[p as int]->Some_0.items.take(i as int));
        }
        v
    }

    /// The owner `from` gives the buffer at `p` to the other side.
    pub fn hand_off(&mut self, p: usize, from: Side) -> (r: Result<(), OwnershipError>)
        ensures
            match handed_off(old(self)@, p as int, from) {
                Ok(s) => r == Ok::<(), OwnershipError>(()) && final(self)@ == s,
                Err(e) => r == Err::<(), OwnershipError>(e) && final(self)@ == old(self)@,
            },
    {
        if p >= self.slots.len() {
            return Err(OwnershipError::NotLive);
        }
        match self.slots[p].take() {
            None => {
                assert(self@ =~= old(self)@);
                Err(OwnershipError::NotLive)
            },
            Some(b) => {
                if b.owner != from {
                    self.slots.set(p, Some(b));
                    assert(self@ =~= old(self)@);
                    Err(OwnershipError::NotOwner)
                } else {
                    let moved = Block { items: b.items, allocator: b.allocator, owner: from.other() };
                    self.slots.set(p, Some(moved));
                    assert(self@ =~= handed_off(old(self)@, p as int, from)->Ok_0);
                    Ok(())
                }
            },
        }
    }

    /// Whether the side `by` may free the buffer at `p`: what
    /// [`Arena::release`] would answer, with the arena left as it is.
    pub fn may_release(&self, p: usize, by: Side) -> (r: Result<(), OwnershipError>)
        ensures
            match released(self@, p as int, by) {
                Ok(_) => r == Ok::<(), OwnershipError>(()),
                Err(e) => r == Err::<(), OwnershipError>(e),
            },
    {
        if p >= self.slots.len() {
            return Err(OwnershipError::NotLive);
        }
        match &self.slots[p] {
            None => Err(OwnershipError::NotLive),
            Some(b) => {
                if b.owner != by {
                    Err(OwnershipError::NotOwner)
                } else if b.allocator != by {
                    Err(OwnershipError::AllocatorMismatch)
                } else {
                    Ok(())
                }
            },
        }
    }

    /// The side `by` frees the buffer at `p`. Only the owner may, and only
    /// where it is also the side whose allocator produced the buffer.
    pub fn release(&mut self, p: usize, by: Side) -> (r: Result<(), OwnershipError>)
        ensures
            match released(old(self)@, p as int, by) {
                Ok(s) => r == Ok::<(), OwnershipError>(()) && final(self)@ == s,
                Err(e) => r == Err::<(), OwnershipError>(e) && final(self)@ == old(self)@,
            },
    {
        if p >= self.slots.len() {
            return Err(OwnershipError::NotLive);
        }
        match &self.slots[p] {
            None => Err(OwnershipError::NotLive),
            Some(b) => {
                if b.owner != by {
                    Err(OwnershipError::NotOwner)
                } else if b.allocator != by {
                    Err(OwnershipError::AllocatorMismatch)
                } else {
                    self.slots.set(p, None);
                    assert(self@ =~= old(self)@.update(p as int, None));
                    Ok(())
                }
            },
        }
    }

    /// Takes the buffer at `p` out of the arena and into native hands. Only a
    /// buffer that the native allocator produced can be taken.
    pub fn adopt(&mut self, p: usize) -> (r: Result<Vec<T>, OwnershipError>)
        ensures
            match adopted(old(self)@, p as int) {
                Ok((s, items)) => r is Ok && r->Ok_0@ == items && final(self)@ == s,
                Err(e) => r == Err::<Vec<T>, OwnershipError>(e) && final(self)@ == old(self)@,
            },
    {
        if p >= self.slots.len() {
            return Err(OwnershipError::NotLive);
        }
        match self.slots[p].take() {
            None => {
                assert(self@ =~= old(self)@);
                Err(OwnershipError::NotLive)
            },
            Some(b) => {
                if b.allocator != Side::Native {
                    self.slots.set(p, Some(b));
                    assert(self@ =~= old(self)@);
                    Err(OwnershipError::AllocatorMismatch)
                } else {
                    assert(self@ =~= old(self)@.update(p as int, None));
                    Ok(b.items)
                }
            },
        }
    }

    /// Counts the live buffers.
    pub fn live_blocks(&self) -> (n: usize)
        ensures
            n == live_count(self@),
    {
        let mut n: usize = 0;
        let mut i: usize = 0;
        while i < self.slots.len()
            invariant
                i <= self.slots.len(),
                n == live_count(self@.take(i as int)),
                n <= i,
            decreases self.slots.len() - i,
        {
            proof {
                assert(self@.take(i + 1).drop_last() =~= self@.take(i as int));
            }
            if self.slots[i].is_some() {
                n += 1;
            }
            i += 1;
        }
        assert(self@.take(i as int) =~= self@);
        n
    }
}

} // verus!
