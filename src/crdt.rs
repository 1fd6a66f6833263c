use vstd::prelude::*;

use crate::bitreader::{spec_u8, spec_varuint};
use crate::parse_error::{and_next, Decoded};

verus! {

/// Identifies an editable element: a pair of a small part and a counter.
#[derive(Debug, Clone, Copy, PartialEq, Eq, Hash, Structural)]
pub struct CrdtId {
    pub part1: u8,
    pub part2: u32,
}

impl View for CrdtId {
    type V = CrdtId;

    open spec fn view(&self) -> CrdtId {
        *self
    }
}

/// An id on the wire: a byte, then a varuint.
pub open spec fn spec_crdt_id(d: Seq<u8>, p: int) -> Decoded<CrdtId> {
    and_next(spec_u8(d, p), |a: u8, p1: int|
        and_next(spec_varuint(d, p1), |b: u32, p2: int| Decoded::Done(CrdtId { part1: a, part2: b }, p2)))
}

impl CrdtId {
    pub fn default() -> (r: CrdtId)
        ensures
            r == (CrdtId { part1: 0, part2: 0 }),
    {
        CrdtId { part1: 0, part2: 0 }
    }
}

/// A last-writer-wins register: a value with the timestamp of its last write.
#[derive(Debug)]
pub struct LwwValue<T> {
    pub timestamp: CrdtId,
    pub value: T,
}

impl<T: View> View for LwwValue<T> {
    type V = LwwValue<T::V>;

    open spec fn view(&self) -> LwwValue<T::V> {
        LwwValue { timestamp: self.timestamp, value: self.value@ }
    }
}

} // verus!

verus! {

/// A position in an ordered CRDT sequence: its own id, the ids of its
/// neighbours, how many elements were deleted there, and its value.
#[derive(Debug)]
pub struct CrdtSequenceItem<N> {
    pub item_id: CrdtId,
    pub left_id: CrdtId,
    pub right_id: CrdtId,
    pub deleted_length: u32,
    pub value: N,
}

impl<N: View> View for CrdtSequenceItem<N> {
    type V = CrdtSequenceItem<N::V>;

    open spec fn view(&self) -> CrdtSequenceItem<N::V> {
        CrdtSequenceItem {
            item_id: self.item_id,
            left_id: self.left_id,
            right_id: self.right_id,
            deleted_length: self.deleted_length,
            value: self.value@,
        }
    }
}

/// The first place from `i` on whose item has the id `id`, or -1.
pub open spec fn find_item<T>(s: Seq<CrdtSequenceItem<T>>, id: CrdtId, i: int) -> int
    decreases s.len() - i,
{
    if i < 0 || i >= s.len() {
        -1
    } else if s[i].item_id == id {
        i
    } else {
        find_item(s, id, i + 1)
    }
}

/// Adding an item to a sequence keyed by item id: it takes the place of an
/// item with the same id, or else goes at the end.
pub open spec fn with_item<T>(s: Seq<CrdtSequenceItem<T>>, item: CrdtSequenceItem<T>) -> Seq<CrdtSequenceItem<T>> {
    let i = find_item(s, item.item_id, 0);
    if i >= 0 {
        s.update(i, item)
    } else {
        s.push(item)
    }
}

/// `find_item` gives -1 or a place, from `i` on, that holds the id.
pub proof fn lemma_find_item<T>(s: Seq<CrdtSequenceItem<T>>, id: CrdtId, i: int)
    requires
        0 <= i <= s.len(),
    ensures
        find_item(s, id, i) == -1 || (i <= find_item(s, id, i) < s.len() && s[find_item(s, id, i)].item_id == id),
    decreases s.len() - i,
{
    if i < s.len() && s[i].item_id != id {
        lemma_find_item(s, id, i + 1);
    }
}

/// A collection of sequence items in which each item id occurs once.
#[derive(Debug)]
pub struct CrdtSequence<N> {
    pub items: Vec<CrdtSequenceItem<N>>,
}

impl<N: View> View for CrdtSequence<N> {
    type V = Seq<CrdtSequenceItem<N::V>>;

    open spec fn view(&self) -> Seq<CrdtSequenceItem<N::V>> {
        self.items@.map_values(|i: CrdtSequenceItem<N>| i@)
    }
}

impl<N: View> CrdtSequence<N> {
    pub fn new() -> (r: CrdtSequence<N>)
        ensures
            r@ == Seq::<CrdtSequenceItem<N::V>>::empty(),
    {
        let r = CrdtSequence { items: Vec::new() };
        assert(r@ =~= Seq::<CrdtSequenceItem<N::V>>::empty());
        r
    }

    /// Adds an item; one with the same id is replaced and handed back.
    pub fn push(&mut self, item: CrdtSequenceItem<N>) -> (r: Option<CrdtSequenceItem<N>>)
        ensures
            final(self)@ == with_item(old(self)@, item@),
            find_item(old(self)@, item.item_id, 0) >= 0 ==> (r matches Some(o) && o@ == old(self)@[find_item(old(self)@, item.item_id, 0)]),
            find_item(old(self)@, item.item_id, 0) < 0 ==> r is None,
    {
        let ghost s = self@;
        let mut i: usize = 0;
        while i < self.items.len()
            invariant
                s == self@,
                self@ == old(self)@,
                0 <= i <= self.items@.len(),
                find_item(s, item.item_id, 0) == find_item(s, item.item_id, i as int),
            decreases self.items@.len() - i,
        {
            if self.items[i].item_id == item.item_id {
                let old_item = self.items.remove(i);
                self.items.insert(i, item);
                assert(self@ =~= s.update(i as int, item@));
                return Some(old_item);
            }
            i = i + 1;
        }
        self.items.push(item);
        assert(self@ =~= s.push(item@));
        None
    }
}

} // verus!
