//! Read and write commands on a byte-addressed target, such as a package file.
use vstd::prelude::*;

use crate::family::{Family, Member};

verus! {

/// IO read command: read `length` bytes at `start`, replying to `on_result`.
#[derive(Clone, Copy, Debug, PartialEq, Eq, Structural)]
pub struct Read {
    pub start: u64,
    pub length: u64,
    pub on_result: u64,
}

/// IO write command: write `data` at `start`.
pub struct Write {
    pub start: u64,
    pub data: Vec<u8>,
}

/// A read or a write, as a file actor receives it.
pub enum FileCommand {
    Read(Read),
    Write(Write),
}

impl FileCommand {
    /// Short name of the command's kind, for logging.
    pub fn kind(&self) -> (r: &'static str)
        ensures
            r@ == (match self {
                FileCommand::Read(_) => "read"@,
                FileCommand::Write(_) => "write"@,
            }),
    {
        match self {
            FileCommand::Read(_) => "read",
            FileCommand::Write(_) => "write",
        }
    }
}

/// Read or write command, where a read replies with a borrowed slice of the target's data.
pub enum ReadWriteCmd {
    Read { start: u64, length: u64, reply: u64 },
    Write { start: u64, data: Vec<u8> },
}

impl ReadWriteCmd {
    /// Short name of the command's kind, for logging.
    pub fn kind(&self) -> (r: &'static str)
        ensures
            r@ == (match self {
                ReadWriteCmd::Read { .. } => "read"@,
                ReadWriteCmd::Write { .. } => "write"@,
            }),
    {
        match self {
            ReadWriteCmd::Read { .. } => "read",
            ReadWriteCmd::Write { .. } => "write",
        }
    }
}

/// Failure of a read on a read-write target.
#[derive(Clone, Copy, Debug, PartialEq, Eq, Structural)]
pub struct ReadError;

/// Result of a read on a read-write target: a slice of the data that was read.
pub type ReadResult<'a> = Result<&'a [u8], ReadError>;

/// The family of read results, over the lifetime of the slice.
///
/// A marker type: it is only named, never built.
pub struct ReadResultF {
    _marker: (),
}

impl Family for ReadResultF {
    type Member<'a> = ReadResult<'a>;
}

impl<'a> Member for ReadResult<'a> {
    type Family = ReadResultF;
}

} // verus!
