//! The interrupts that come in through the interrupt controllers.

use vstd::prelude::*;
use vstd::std_specs::convert::FromSpecImpl;

verus! {

/// The hardware interrupts that the kernel handles, by their vector.
#[derive(Debug, Copy, Clone, PartialEq, Eq, Structural)]
pub enum InterruptIndex {
    /// The tick of the interval timer, vector 32.
    PitTick,
    /// Input from the keyboard, vector 33.
    Kbd,
}

/// The interrupt that the number `value` stands for. A number that stands
/// for none reads as the tick of the timer.
pub open spec fn interrupt_of(value: u32) -> InterruptIndex {
    if value == 33 {
        InterruptIndex::Kbd
    } else {
        InterruptIndex::PitTick
    }
}

impl From<u32> for InterruptIndex {
    fn from(value: u32) -> (index: Self) {
        match value {
            32 => Self::PitTick,
            33 => Self::Kbd,
            _ => Self::PitTick,
        }
    }
}

impl FromSpecImpl<u32> for InterruptIndex {
    open spec fn obeys_from_spec() -> bool {
        true
    }

    open spec fn from_spec(value: u32) -> Self {
        interrupt_of(value)
    }
}

impl InterruptIndex {
    /// The vector of this interrupt.
    pub open spec fn vector(self) -> u8 {
        match self {
            InterruptIndex::PitTick => 32,
            InterruptIndex::Kbd => 33,
        }
    }

    /// The vector of this interrupt.
    pub fn as_u8(self) -> (value: u8)
        ensures
            value == self.vector(),
            interrupt_of(value as u32) == self,
    {
        match self {
            InterruptIndex::PitTick => 32,
            InterruptIndex::Kbd => 33,
        }
    }

    /// The vector of this interrupt, as an index.
    pub fn as_usize(self) -> (value: usize)
        ensures
            value == self.vector(),
    {
        self.as_u8() as usize
    }
}

} // verus!
