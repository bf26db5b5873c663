//! The exceptions of the processor, and who handles them.

use vstd::prelude::*;
use vstd::std_specs::convert::FromSpecImpl;

verus! {

/// The exceptions that a handler can be set for.
#[derive(Debug, Copy, Clone, PartialEq, Eq, Structural)]
pub enum ExceptionType {
    /// A division by zero.
    Division,
    /// A breakpoint instruction.
    Breakpoint,
    /// An instruction that the processor does not know.
    InvalidOpcode,
    /// A general protection fault.
    ProtectionFault,
    /// An access to a page that is not mapped, or not so.
    PageFault,
    /// An error in a SIMD floating-point instruction.
    FloatingPointError,
    /// An interrupt that cannot be masked.
    NonMaskableInterrupt,
    /// A fault while another was being handled.
    DoubleFault,
}

/// Number of exceptions that a handler can be set for.
pub const EXCEPTION_COUNT: usize = 8;

/// The exception that the number `value` stands for. A number that stands
/// for none reads as a double fault.
pub open spec fn exception_of(value: u32) -> ExceptionType {
    if value == 0 {
        ExceptionType::Division
    } else if value == 1 {
        ExceptionType::Breakpoint
    } else if value == 2 {
        ExceptionType::InvalidOpcode
    } else if value == 3 {
        ExceptionType::ProtectionFault
    } else if value == 4 {
        ExceptionType::PageFault
    } else if value == 5 {
        ExceptionType::FloatingPointError
    } else if value == 6 {
        ExceptionType::NonMaskableInterrupt
    } else {
        ExceptionType::DoubleFault
    }
}

impl From<u32> for ExceptionType {
    fn from(value: u32) -> (kind: Self) {
        match value {
            0 => ExceptionType::Division,
            1 => ExceptionType::Breakpoint,
            2 => ExceptionType::InvalidOpcode,
            3 => ExceptionType::ProtectionFault,
            4 => ExceptionType::PageFault,
            5 => ExceptionType::FloatingPointError,
            6 => ExceptionType::NonMaskableInterrupt,
            _ => ExceptionType::DoubleFault,
        }
    }
}

impl FromSpecImpl<u32> for ExceptionType {
    open spec fn obeys_from_spec() -> bool {
        true
    }

    open spec fn from_spec(value: u32) -> Self {
        exception_of(value)
    }
}

impl ExceptionType {
    /// The number that stands for this exception.
    pub open spec fn number(self) -> u32 {
        match self {
            ExceptionType::Division => 0,
            ExceptionType::Breakpoint => 1,
            ExceptionType::InvalidOpcode => 2,
            ExceptionType::ProtectionFault => 3,
            ExceptionType::PageFault => 4,
            ExceptionType::FloatingPointError => 5,
            ExceptionType::NonMaskableInterrupt => 6,
            ExceptionType::DoubleFault => 65535,
        }
    }

    /// The number that stands for this exception.
    pub fn as_u32(self) -> (value: u32)
        ensures
            value == self.number(),
            exception_of(value) == self,
    {
        match self {
            ExceptionType::Division => 0,
            ExceptionType::Breakpoint => 1,
            ExceptionType::InvalidOpcode => 2,
            ExceptionType::ProtectionFault => 3,
            ExceptionType::PageFault => 4,
            ExceptionType::FloatingPointError => 5,
            ExceptionType::NonMaskableInterrupt => 6,
            ExceptionType::DoubleFault => 65535,
        }
    }

    /// The place of this exception's handler in a table of handlers.
    pub open spec fn slot(self) -> int {
        match self {
            ExceptionType::Division => 0,
            ExceptionType::Breakpoint => 1,
            ExceptionType::InvalidOpcode => 2,
            ExceptionType::ProtectionFault => 3,
            ExceptionType::PageFault => 4,
            ExceptionType::FloatingPointError => 5,
            ExceptionType::NonMaskableInterrupt => 6,
            ExceptionType::DoubleFault => 7,
        }
    }

    /// The place of this exception's handler in a table of handlers.
    pub fn slot_index(self) -> (index: usize)
        ensures
            index == self.slot(),
            index < EXCEPTION_COUNT,
    {
        match self {
            ExceptionType::Division => 0,
            ExceptionType::Breakpoint => 1,
            ExceptionType::InvalidOpcode => 2,
            ExceptionType::ProtectionFault => 3,
            ExceptionType::PageFault => 4,
            ExceptionType::FloatingPointError => 5,
            ExceptionType::NonMaskableInterrupt => 6,
            ExceptionType::DoubleFault => 7,
        }
    }
}

/// The handlers of the processor's exceptions, one place for each
/// exception. `H` is what a handler is to the caller.
pub struct HandlerTable<H> {
    handlers: Vec<Option<H>>,
}

impl<H> HandlerTable<H> {
    /// The handler that is set for each exception, by the exception's place.
    pub closed spec fn handlers(&self) -> Seq<Option<H>> {
        self.handlers@
    }

    /// The table has a place for each exception.
    pub open spec fn wf(&self) -> bool {
        self.handlers().len() == EXCEPTION_COUNT
    }

    /// A table in which no handler is set.
    pub fn new() -> (table: Self)
        ensures
            table.wf(),
            forall|slot: int| 0 <= slot < EXCEPTION_COUNT ==> table.handlers()[slot] is None,
    {
        let mut handlers: Vec<Option<H>> = Vec::new();
        while handlers.len() < EXCEPTION_COUNT
            invariant
                handlers@.len() <= EXCEPTION_COUNT,
                forall|slot: int| 0 <= slot < handlers@.len() ==> handlers@[slot] is None,
            decreases EXCEPTION_COUNT - handlers@.len(),
        {
            handlers.push(None);
        }
        HandlerTable { handlers }
    }

    /// The handler that is set for `exception_type`, if any.
    pub fn handler(&self, exception_type: ExceptionType) -> (handler: &Option<H>)
        requires
            self.wf(),
        ensures
            *handler == self.handlers()[exception_type.slot()],
    {
        &self.handlers[exception_type.slot_index()]
    }
}

/// Sets `handler` as the handler of `exception_type`, in place of the one
/// that was set before. The handlers of the other exceptions stay.
pub fn set_handler<H>(table: &mut HandlerTable<H>, exception_type: ExceptionType, handler: H)
    requires
        old(table).wf(),
    ensures
        final(table).wf(),
        final(table).handlers() == old(table).handlers().update(
            exception_type.slot(),
            Some(handler),
        ),
{
    table.handlers[exception_type.slot_index()] = Some(handler);
}

} // verus!
