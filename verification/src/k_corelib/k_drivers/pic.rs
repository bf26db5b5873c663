//! The pair of 8259 interrupt controllers.
//!
//! The driver decides what is written to which port; the caller does the
//! writing.

use vstd::prelude::*;

verus! {

/// Command sent to begin the initialisation of a controller.
pub const CMD_INIT: u8 = 0x11;

/// Command sent to acknowledge an interrupt.
pub const CMD_END_OF_INTERRUPT: u8 = 0x20;

/// The mode in which the controllers run.
pub const MODE_8086: u8 = 0x01;

/// The port that is written to for a short delay.
pub const WAIT_PORT: u32 = 0x80;

/// The command port of the interval timer.
pub const PIT_COMMAND_PORT: u32 = 0x43;

/// The data port of channel 0 of the interval timer.
pub const PIT_CHANNEL0_PORT: u32 = 0x40;

/// What the interval timer counts down from for 100 ticks a second.
pub const PIT_DIVISOR: u32 = 11931;

/// One byte to write to one port.
#[derive(Debug, Copy, Clone, PartialEq, Eq, Structural)]
pub struct PortWrite {
    /// The port to write to.
    pub port: u32,
    /// The byte to write.
    pub value: u8,
}

/// One interrupt controller.
#[derive(Debug, Copy, Clone, PartialEq, Eq, Structural)]
pub struct Pic {
    /// The vector of the controller's first interrupt.
    pub offset: u8,
    /// The port that takes the controller's commands.
    pub command_port: u8,
    /// The port that takes and gives the controller's data.
    pub data_port: u8,
}

impl Pic {
    /// Whether the controller handles the interrupt with the vector `irq`:
    /// its own eight follow its offset.
    pub open spec fn handles(self, irq: u8) -> bool {
        self.offset <= irq < self.offset + 8
    }
}

/// The two chained interrupt controllers.
#[derive(Debug, Copy, Clone, PartialEq, Eq, Structural)]
pub struct PicPair {
    /// The first controller.
    pub first: Pic,
    /// The second controller, chained to the first.
    pub second: Pic,
}

/// The byte `value` for `port`, and a write to the wait port behind it.
pub open spec fn write_and_wait(port: u8, value: u8) -> Seq<PortWrite> {
    seq![PortWrite { port: port as u32, value }, PortWrite { port: WAIT_PORT, value: 0 }]
}

/// What sets the pair `pair` up: the start of the initialisation, the
/// offsets, the chaining and the mode, each for the first controller and
/// then for the second and each with a wait behind it; then both
/// controllers are unmasked and the interval timer is set to 100 ticks a
/// second.
pub open spec fn init_writes(pair: PicPair) -> Seq<PortWrite> {
    write_and_wait(pair.first.command_port, CMD_INIT) + write_and_wait(
        pair.second.command_port,
        CMD_INIT,
    ) + write_and_wait(pair.first.data_port, pair.first.offset) + write_and_wait(
        pair.second.data_port,
        pair.second.offset,
    ) + write_and_wait(pair.first.data_port, 4) + write_and_wait(pair.second.data_port, 2)
        + write_and_wait(pair.first.data_port, MODE_8086) + write_and_wait(
        pair.second.data_port,
        MODE_8086,
    ) + seq![
        PortWrite { port: pair.first.data_port as u32, value: 0 },
        PortWrite { port: pair.second.data_port as u32, value: 0 },
        PortWrite { port: PIT_COMMAND_PORT, value: 0x36 },
        PortWrite { port: PIT_CHANNEL0_PORT, value: 0x9b },
        PortWrite { port: PIT_CHANNEL0_PORT, value: 0x2e },
    ]
}

/// What acknowledges the interrupt with the vector `irq`: nothing if
/// neither controller handles it, else the command to the second
/// controller if that one handles it, and the command to the first.
pub open spec fn end_of_interrupt_writes(pair: PicPair, irq: u8) -> Seq<PortWrite> {
    if pair.second.handles(irq) {
        seq![
            PortWrite { port: pair.second.command_port as u32, value: CMD_END_OF_INTERRUPT },
            PortWrite { port: pair.first.command_port as u32, value: CMD_END_OF_INTERRUPT },
        ]
    } else if pair.first.handles(irq) {
        seq![PortWrite { port: pair.first.command_port as u32, value: CMD_END_OF_INTERRUPT }]
    } else {
        Seq::empty()
    }
}

/// Adds the byte `value` for `port` to `writes`, and a write to the wait
/// port behind it.
fn push_with_wait(writes: &mut Vec<PortWrite>, port: u8, value: u8)
    ensures
        final(writes)@ == old(writes)@ + write_and_wait(port, value),
{
    writes.push(PortWrite { port: port as u32, value });
    writes.push(PortWrite { port: WAIT_PORT, value: 0 });
    proof {
        assert(writes@ =~= old(writes)@ + write_and_wait(port, value));
    }
}

impl PicPair {
    /// The pair as the PC has it: the first controller at the ports 0x20
    /// and 0x21 with the vectors from 32, the second at 0xA0 and 0xA1 with
    /// the vectors from 40.
    pub fn new() -> (pair: Self)
        ensures
            pair == (PicPair {
                first: Pic { offset: 32, command_port: 0x20, data_port: 0x21 },
                second: Pic { offset: 40, command_port: 0xA0, data_port: 0xA1 },
            }),
    {
        PicPair {
            first: Pic { offset: 32, command_port: 0x20, data_port: 0x21 },
            second: Pic { offset: 40, command_port: 0xA0, data_port: 0xA1 },
        }
    }

    /// The port writes that set the pair up, in order.
    pub fn init(&self) -> (writes: Vec<PortWrite>)
        ensures
            writes@ == init_writes(*self),
    {
        let mut writes: Vec<PortWrite> = Vec::new();
        push_with_wait(&mut writes, self.first.command_port, CMD_INIT);
        push_with_wait(&mut writes, self.second.command_port, CMD_INIT);
        push_with_wait(&mut writes, self.first.data_port, self.first.offset);
        push_with_wait(&mut writes, self.second.data_port, self.second.offset);
        push_with_wait(&mut writes, self.first.data_port, 4);
        push_with_wait(&mut writes, self.second.data_port, 2);
        push_with_wait(&mut writes, self.first.data_port, MODE_8086);
        push_with_wait(&mut writes, self.second.data_port, MODE_8086);
        let ghost waited = writes@;
        writes.push(PortWrite { port: self.first.data_port as u32, value: 0 });
        writes.push(PortWrite { port: self.second.data_port as u32, value: 0 });
        let divisor: u32 = PIT_DIVISOR;
        writes.push(PortWrite { port: PIT_COMMAND_PORT, value: 0x36 });
        writes.push(PortWrite { port: PIT_CHANNEL0_PORT, value: (divisor & 0xff) as u8 });
        writes.push(PortWrite { port: PIT_CHANNEL0_PORT, value: ((divisor >> 8) & 0xff) as u8 });
        proof {
            assert(11931u32 & 0xff == 0x9b) by (bit_vector);
            assert((11931u32 >> 8) & 0xff == 0x2e) by (bit_vector);
            assert(writes@ =~= waited + seq![
                PortWrite { port: self.first.data_port as u32, value: 0 },
                PortWrite { port: self.second.data_port as u32, value: 0 },
                PortWrite { port: PIT_COMMAND_PORT, value: 0x36 },
                PortWrite { port: PIT_CHANNEL0_PORT, value: 0x9b },
                PortWrite { port: PIT_CHANNEL0_PORT, value: 0x2e },
            ]);
        }
        writes
    }

    /// The data port of the first controller, to read its mask from.
    pub fn read_pic1(&self) -> (port: u32)
        ensures
            port == self.first.data_port,
    {
        self.first.data_port as u32
    }

    /// The data port of the second controller, to read its mask from.
    pub fn read_pic2(&self) -> (port: u32)
        ensures
            port == self.second.data_port,
    {
        self.second.data_port as u32
    }

    /// The write that gives the first controller the mask `data`.
    pub fn write_pic1(&self, data: u8) -> (write: PortWrite)
        ensures
            write == (PortWrite { port: self.first.data_port as u32, value: data }),
    {
        PortWrite { port: self.first.data_port as u32, value: data }
    }

    /// The write that gives the second controller the mask `data`.
    pub fn write_pic2(&self, data: u8) -> (write: PortWrite)
        ensures
            write == (PortWrite { port: self.second.data_port as u32, value: data }),
    {
        PortWrite { port: self.second.data_port as u32, value: data }
    }

    /// The write that masks every interrupt of the first controller.
    pub fn disable_pic1(&self) -> (write: PortWrite)
        ensures
            write == (PortWrite { port: self.first.data_port as u32, value: 0xFF }),
    {
        PortWrite { port: self.first.data_port as u32, value: 0xFF }
    }

    /// The write that masks every interrupt of the second controller.
    pub fn disable_pic2(&self) -> (write: PortWrite)
        ensures
            write == (PortWrite { port: self.second.data_port as u32, value: 0xFF }),
    {
        PortWrite { port: self.second.data_port as u32, value: 0xFF }
    }

    /// Whether one of the two controllers handles the interrupt with the
    /// vector `irq`.
    pub fn does_handle_interrupt(&self, irq: u8) -> (handled: bool)
        ensures
            handled == (self.first.handles(irq) || self.second.handles(irq)),
    {
        if self.first.offset <= irq && (irq as u16) < self.first.offset as u16 + 8 {
            return true;
        }
        if self.second.offset <= irq && (irq as u16) < self.second.offset as u16 + 8 {
            return true;
        }
        false
    }

    /// The port writes that acknowledge the interrupt with the vector
    /// `irq`, in order.
    pub fn send_end_of_interrupt(&self, irq: u8) -> (writes: Vec<PortWrite>)
        ensures
            writes@ == end_of_interrupt_writes(*self, irq),
    {
        let mut writes: Vec<PortWrite> = Vec::new();
        if self.does_handle_interrupt(irq) {
            if self.second.offset <= irq && (irq as u16) < self.second.offset as u16 + 8 {
                writes.push(
                    PortWrite {
                        port: self.second.command_port as u32,
                        value: CMD_END_OF_INTERRUPT,
                    },
                );
            }
            writes.push(
                PortWrite { port: self.first.command_port as u32, value: CMD_END_OF_INTERRUPT },
            );
        }
        proof {
            assert(writes@ =~= end_of_interrupt_writes(*self, irq));
        }
        writes
    }
}

} // verus!
