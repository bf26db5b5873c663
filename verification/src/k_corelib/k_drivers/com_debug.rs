//! The first serial port, which the kernel writes its log to.
//!
//! The driver decides what is written to which port; the caller does the
//! writing and the reading.

use super::pic::PortWrite;
use vstd::prelude::*;

verus! {

/// The first port of the serial interface COM1.
pub const PORT: u32 = 0x3f8;

/// The byte that tests the serial chip in loopback mode.
pub const TEST_BYTE: u8 = 0xAE;

/// What sets the serial port up, up to the test of the chip: no
/// interrupts, 38400 baud, eight bits without parity and one stop bit, the
/// buffers on, then loopback mode and the test byte.
pub open spec fn init_writes() -> Seq<PortWrite> {
    seq![
        PortWrite { port: 0x3f9, value: 0x00 },
        PortWrite { port: 0x3fb, value: 0x80 },
        PortWrite { port: 0x3f8, value: 0x03 },
        PortWrite { port: 0x3f9, value: 0x00 },
        PortWrite { port: 0x3fb, value: 0x03 },
        PortWrite { port: 0x3fa, value: 0xC7 },
        PortWrite { port: 0x3fc, value: 0x0B },
        PortWrite { port: 0x3fc, value: 0x1E },
        PortWrite { port: 0x3f8, value: 0xAE },
    ]
}

/// The port writes that set the serial port up, up to the test of the chip:
/// the last of them sends the test byte, which the caller then reads back.
pub fn init_serial() -> (writes: Vec<PortWrite>)
    ensures
        writes@ == init_writes(),
{
    let mut writes: Vec<PortWrite> = Vec::new();
    writes.push(PortWrite { port: PORT + 1, value: 0x00 });
    writes.push(PortWrite { port: PORT + 3, value: 0x80 });
    writes.push(PortWrite { port: PORT, value: 0x03 });
    writes.push(PortWrite { port: PORT + 1, value: 0x00 });
    writes.push(PortWrite { port: PORT + 3, value: 0x03 });
    writes.push(PortWrite { port: PORT + 2, value: 0xC7 });
    writes.push(PortWrite { port: PORT + 4, value: 0x0B });
    writes.push(PortWrite { port: PORT + 4, value: 0x1E });
    writes.push(PortWrite { port: PORT, value: TEST_BYTE });
    proof {
        assert(writes@ =~= init_writes());
    }
    writes
}

/// What ends the set-up once the byte `echo` has come back from the chip:
/// the write that puts the port into normal operation if the chip gave the
/// test byte back, nothing if the chip is faulty.
pub fn finish_init(echo: u8) -> (write: Option<PortWrite>)
    ensures
        echo == TEST_BYTE ==> write == Some(PortWrite { port: 0x3fc, value: 0x0F }),
        echo != TEST_BYTE ==> write is None,
{
    if echo != TEST_BYTE {
        return None;
    }
    Some(PortWrite { port: PORT + 4, value: 0x0F })
}

/// The port that tells whether the transmitter can take a byte.
pub const STATUS_PORT: u32 = 0x3fd;

/// Whether the line status `status` says that the transmitter still holds
/// a byte.
pub fn is_transmit_empty(status: u8) -> (empty: bool)
    ensures
        empty == (status & 0x20 == 0),
{
    (status & 0x20) == 0
}

/// The write that sends `chr`, for when the transmitter can take it.
pub fn write_char(chr: u8) -> (write: PortWrite)
    ensures
        write == (PortWrite { port: PORT, value: chr }),
{
    PortWrite { port: PORT, value: chr }
}

} // verus!
