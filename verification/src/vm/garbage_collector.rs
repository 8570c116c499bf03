//! The trace list: every word that refers to a heap value is registered here when the
//! value is allocated. What is then done with the list is left to a later sweep.

use vstd::prelude::*;
use bitvec::order::Lsb0;
use bitvec::vec::BitVec;
use crate::word::structure::Word;

verus! {

/// The mark bits of the collector, one for each value that a sweep has looked at.
#[verifier::external_body]
pub struct Marks {
    bits: BitVec<usize, Lsb0>,
}

/// The bits that a bit vector holds, first to last.
pub uninterp spec fn mark_bits(marks: Marks) -> Seq<bool>;

/// Whether every bit is set.
pub open spec fn all_set(bits: Seq<bool>) -> bool {
    forall|i: int| 0 <= i < bits.len() ==> bits[i]
}

/// The most bits for which `BitVec::reserve` accepts a request on every platform.
pub const MARKS_LIMIT: usize = 0x1fff_ffff;

/// `BitVec::new`: a bit vector that holds no bits.
#[verifier::external_body]
fn marks_new() -> (marks: Marks)
    ensures
        mark_bits(marks) == Seq::<bool>::empty(),
{
    Marks { bits: BitVec::new() }
}

/// `BitSlice::all`, through the bit vector: whether every bit is set, which holds of
/// a vector without bits.
#[verifier::external_body]
fn marks_all(marks: &Marks) -> (all: bool)
    ensures
        all == all_set(mark_bits(*marks)),
{
    marks.bits.all()
}

/// `BitVec::reserve`: makes room for `additional` more bits and leaves the bits as they
/// are. The call panics where the requested length cannot be encoded, which the
/// precondition rules out.
#[verifier::external_body]
fn marks_reserve(marks: &mut Marks, additional: usize)
    requires
        mark_bits(*old(marks)).len() + additional <= MARKS_LIMIT,
    ensures
        mark_bits(*final(marks)) == mark_bits(*old(marks)),
{
    marks.bits.reserve(additional)
}

pub struct GarbageCollector {
    tvs: Vec<Word>,
    marks: Marks,
}

impl GarbageCollector {
    /// The words traced so far, oldest first.
    pub closed spec fn traced(&self) -> Seq<Word> {
        self.tvs@
    }

    /// The mark bits.
    pub closed spec fn marks(&self) -> Seq<bool> {
        mark_bits(self.marks)
    }

    /// Whether one more mark bit can be reserved.
    pub open spec fn has_room(&self) -> bool {
        self.marks().len() < MARKS_LIMIT
    }

    pub fn new() -> (gc: GarbageCollector)
        ensures
            gc.traced() == Seq::<Word>::empty(),
            gc.marks() == Seq::<bool>::empty(),
            gc.has_room(),
    {
        GarbageCollector { tvs: Vec::new(), marks: marks_new() }
    }

    /// Whether every mark bit is set.
    pub fn all_marked(&self) -> (all: bool)
        ensures
            all == all_set(self.marks()),
    {
        marks_all(&self.marks)
    }

    /// Traces `tv` if it refers to a heap value.
    pub fn trace_if_heap(&mut self, tv: Word)
        requires
            old(self).has_room(),
        ensures
            final(self).traced() == if tv.spec_is_tag_for_heap() {
                old(self).traced().push(tv)
            } else {
                old(self).traced()
            },
            final(self).marks() == old(self).marks(),
    {
        if tv.is_tag_for_heap() {
            self.trace(tv);
        }
    }

    /// Registers `tv`.
    pub fn trace(&mut self, tv: Word)
        requires
            old(self).has_room(),
        ensures
            final(self).traced() == old(self).traced().push(tv),
            final(self).marks() == old(self).marks(),
    {
        self.tvs.push(tv);
        marks_reserve(&mut self.marks, 1);
    }
}

} // verus!
