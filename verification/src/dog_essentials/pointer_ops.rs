//! Reading numbers out of a run of bytes, one after the other.

use vstd::bytes::{spec_u32_from_le_bytes, u32_from_le_bytes};
use vstd::prelude::*;
use vstd::slice::slice_subrange;

verus! {

/// A place in a run of bytes that moves forward as numbers are read.
pub struct PointerTraverser<'a> {
    bytes: &'a [u8],
    position: usize,
}

impl<'a> PointerTraverser<'a> {
    /// The bytes that the traverser moves over.
    pub closed spec fn bytes(&self) -> Seq<u8> {
        self.bytes@
    }

    /// How many bytes lie behind the traverser.
    pub closed spec fn position(&self) -> int {
        self.position as int
    }

    /// The traverser stands inside its bytes or at their end.
    pub open spec fn wf(&self) -> bool {
        0 <= self.position() <= self.bytes().len()
    }

    /// A traverser at the start of `bytes`.
    pub fn new(bytes: &'a [u8]) -> (traverser: Self)
        ensures
            traverser.wf(),
            traverser.bytes() == bytes@,
            traverser.position() == 0,
    {
        Self { bytes, position: 0 }
    }

    /// Moves `num_bytes` bytes forward, and says whether it did: it stays
    /// where it is when fewer bytes are left.
    pub fn advance_raw(&mut self, num_bytes: u32) -> (moved: bool)
        requires
            old(self).wf(),
        ensures
            final(self).wf(),
            final(self).bytes() == old(self).bytes(),
            moved == (old(self).position() + num_bytes <= old(self).bytes().len()),
            moved ==> final(self).position() == old(self).position() + num_bytes,
            !moved ==> final(self).position() == old(self).position(),
    {
        if num_bytes as usize > self.bytes.len() - self.position {
            return false;
        }
        self.position = self.position + num_bytes as usize;
        true
    }

    /// Moves `num_bytes` bytes back, and says whether it did: it stays where
    /// it is when fewer bytes lie behind it.
    pub fn retreat_raw(&mut self, num_bytes: u32) -> (moved: bool)
        requires
            old(self).wf(),
        ensures
            final(self).wf(),
            final(self).bytes() == old(self).bytes(),
            moved == (num_bytes <= old(self).position()),
            moved ==> final(self).position() == old(self).position() - num_bytes,
            !moved ==> final(self).position() == old(self).position(),
    {
        if num_bytes as usize > self.position {
            return false;
        }
        self.position = self.position - num_bytes as usize;
        true
    }

    /// Reads the little-endian 32-bit number at the traverser's place and
    /// moves behind it. Returns `None`, and stays, when fewer than four
    /// bytes are left.
    pub fn read_and_advance(&mut self) -> (value: Option<u32>)
        requires
            old(self).wf(),
        ensures
            final(self).wf(),
            final(self).bytes() == old(self).bytes(),
            value is Some <==> old(self).position() + 4 <= old(self).bytes().len(),
            value is Some ==> value->0 == spec_u32_from_le_bytes(
                old(self).bytes().subrange(old(self).position(), old(self).position() + 4),
            ) && final(self).position() == old(self).position() + 4,
            value is None ==> final(self).position() == old(self).position(),
    {
        if self.bytes.len() - self.position < 4 {
            return None;
        }
        let value: u32 = u32_from_le_bytes(
            slice_subrange(self.bytes, self.position, self.position + 4),
        );
        self.position = self.position + 4;
        Some(value)
    }
}

} // verus!
