//! The kernel's log, as it goes out on the serial line.
//!
//! A message is a line of text behind a mark of its severity. What goes on
//! the line is plain ASCII: bytes that a terminal would act on are written
//! out, and bytes beyond ASCII become question marks. The functions here
//! say which bytes to send; sending them is for the caller.

use vstd::prelude::*;
use vstd::utf8::encode_utf8;

verus! {

/// How much a message matters.
#[derive(Debug, Copy, Clone, PartialEq, Eq, Structural)]
pub enum Severity {
    /// Detail that only helps when something is looked for.
    Verbose,
    /// What helps to find a fault.
    Debug,
    /// What is worth knowing.
    Info,
    /// What may become a problem.
    Warn,
    /// What went wrong.
    Error,
    /// What the kernel cannot go on after.
    Fatal,
}

impl Severity {
    /// The number of this severity, from 1 for the least to 6 for the most.
    pub open spec fn number(self) -> u32 {
        match self {
            Severity::Verbose => 1,
            Severity::Debug => 2,
            Severity::Info => 3,
            Severity::Warn => 4,
            Severity::Error => 5,
            Severity::Fatal => 6,
        }
    }

    /// The number of this severity, from 1 for the least to 6 for the most.
    pub fn as_u32(self) -> (value: u32)
        ensures
            value == self.number(),
    {
        match self {
            Severity::Verbose => 1,
            Severity::Debug => 2,
            Severity::Info => 3,
            Severity::Warn => 4,
            Severity::Error => 5,
            Severity::Fatal => 6,
        }
    }

    /// The mark that opens a message of this severity.
    pub open spec fn prefix(self) -> Seq<char> {
        match self {
            Severity::Verbose => "[VERBOSE]: "@,
            Severity::Debug => "[DEBUG]: "@,
            Severity::Info => "[INFO]: "@,
            Severity::Warn => "[WARN]: "@,
            Severity::Error => "[ERROR]: "@,
            Severity::Fatal => "[FATAL]: "@,
        }
    }

    /// The mark that opens a message of this severity.
    pub fn prefix_text(self) -> (text: &'static str)
        ensures
            text@ == self.prefix(),
    {
        match self {
            Severity::Verbose => "[VERBOSE]: ",
            Severity::Debug => "[DEBUG]: ",
            Severity::Info => "[INFO]: ",
            Severity::Warn => "[WARN]: ",
            Severity::Error => "[ERROR]: ",
            Severity::Fatal => "[FATAL]: ",
        }
    }
}

/// What goes on the line for the byte `chr`: a question mark for a byte
/// beyond ASCII; `^B`, `^G`, `^H` and `^I` for break, bell, backspace and
/// tab; a line feed for a line feed or a carriage return; the escape
/// character written out as `\033`, and delete as `\033[3~`; any other byte
/// as it is.
pub open spec fn escaped_byte(chr: u8) -> Seq<u8> {
    if chr >= 128 {
        seq![63u8]
    } else if chr == 3 {
        seq![94u8, 66u8]
    } else if chr == 7 {
        seq![94u8, 71u8]
    } else if chr == 8 {
        seq![94u8, 72u8]
    } else if chr == 9 {
        seq![94u8, 73u8]
    } else if chr == 10 || chr == 13 {
        seq![10u8]
    } else if chr == 27 {
        seq![92u8, 48u8, 51u8, 51u8]
    } else if chr == 127 {
        seq![92u8, 48u8, 51u8, 51u8, 91u8, 51u8, 126u8]
    } else {
        seq![chr]
    }
}

/// What goes on the line for the bytes `message`, byte by byte.
pub open spec fn escaped(message: Seq<u8>) -> Seq<u8>
    decreases message.len(),
{
    if message.len() == 0 {
        Seq::empty()
    } else {
        escaped(message.drop_last()) + escaped_byte(message.last())
    }
}

/// What goes on the line for the message `message` of the severity
/// `severity`: the mark of the severity, the message and a line feed.
pub open spec fn log_bytes(severity: Severity, message: Seq<char>) -> Seq<u8> {
    escaped(encode_utf8(severity.prefix())) + escaped(encode_utf8(message)) + seq![10u8]
}

/// Adds to `bytes` what goes on the line for `message`.
fn write_into(bytes: &mut Vec<u8>, message: &[u8])
    ensures
        final(bytes)@ == old(bytes)@ + escaped(message@),
{
    let ghost before = bytes@;
    let mut i: usize = 0;
    while i < message.len()
        invariant
            i <= message@.len(),
            bytes@ == before + escaped(message@.take(i as int)),
        decreases message@.len() - i,
    {
        let chr: u8 = message[i];
        let ghost sent = bytes@;
        if chr >= 128 {
            bytes.push(63);
        } else if chr == 3 {
            bytes.push(94);
            bytes.push(66);
        } else if chr == 7 {
            bytes.push(94);
            bytes.push(71);
        } else if chr == 8 {
            bytes.push(94);
            bytes.push(72);
        } else if chr == 9 {
            bytes.push(94);
            bytes.push(73);
        } else if chr == 10 || chr == 13 {
            bytes.push(10);
        } else if chr == 27 {
            bytes.push(92);
            bytes.push(48);
            bytes.push(51);
            bytes.push(51);
        } else if chr == 127 {
            bytes.push(92);
            bytes.push(48);
            bytes.push(51);
            bytes.push(51);
            bytes.push(91);
            bytes.push(51);
            bytes.push(126);
        } else {
            bytes.push(chr);
        }
        proof {
            let longer = message@.take(i + 1);
            assert(longer.drop_last() =~= message@.take(i as int));
            assert(longer.last() == chr);
            assert(bytes@ =~= sent + escaped_byte(chr));
            assert(bytes@ =~= before + escaped(longer));
        }
        i = i + 1;
    }
    proof {
        assert(message@.take(message@.len() as int) =~= message@);
    }
}

/// The bytes that `message` puts on the serial line.
pub fn write(message: &str) -> (bytes: Vec<u8>)
    ensures
        bytes@ == escaped(encode_utf8(message@)),
{
    let mut bytes: Vec<u8> = Vec::new();
    write_into(&mut bytes, message.as_bytes());
    bytes
}

/// The bytes that the message `message` of the severity `severity` puts on
/// the serial line.
pub fn log(severity: Severity, message: &str) -> (bytes: Vec<u8>)
    ensures
        bytes@ == log_bytes(severity, message@),
{
    let mut bytes: Vec<u8> = Vec::new();
    write_into(&mut bytes, severity.prefix_text().as_bytes());
    write_into(&mut bytes, message.as_bytes());
    bytes.push(10);
    proof {
        assert(bytes@ =~= log_bytes(severity, message@));
    }
    bytes
}

/// The bytes that a message of the severity "verbose" puts on the serial line.
pub fn log_verbose(message: &str) -> (bytes: Vec<u8>)
    ensures
        bytes@ == log_bytes(Severity::Verbose, message@),
{
    log(Severity::Verbose, message)
}

/// The bytes that a message of the severity "debug" puts on the serial line.
pub fn log_debug(message: &str) -> (bytes: Vec<u8>)
    ensures
        bytes@ == log_bytes(Severity::Debug, message@),
{
    log(Severity::Debug, message)
}

/// The bytes that a message of the severity "info" puts on the serial line.
pub fn log_info(message: &str) -> (bytes: Vec<u8>)
    ensures
        bytes@ == log_bytes(Severity::Info, message@),
{
    log(Severity::Info, message)
}

/// The bytes that a message of the severity "warn" puts on the serial line.
pub fn log_warn(message: &str) -> (bytes: Vec<u8>)
    ensures
        bytes@ == log_bytes(Severity::Warn, message@),
{
    log(Severity::Warn, message)
}

/// The bytes that a message of the severity "error" puts on the serial line.
pub fn log_error(message: &str) -> (bytes: Vec<u8>)
    ensures
        bytes@ == log_bytes(Severity::Error, message@),
{
    log(Severity::Error, message)
}

/// The bytes that a message of the severity "fatal" puts on the serial line.
pub fn log_fatal(message: &str) -> (bytes: Vec<u8>)
    ensures
        bytes@ == log_bytes(Severity::Fatal, message@),
{
    log(Severity::Fatal, message)
}

/// The bytes that `message` puts on the serial line when it is logged as
/// it is, with no mark before it and no line feed behind it.
pub fn log_raw(message: &str) -> (bytes: Vec<u8>)
    ensures
        bytes@ == escaped(encode_utf8(message@)),
{
    write(message)
}

} // verus!
