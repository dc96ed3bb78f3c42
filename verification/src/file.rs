//! Pterodactil file abstraction: a "file" is an addressable blob of binary data, which actors
//! read and write through messages. This module holds the messages and the in-memory buffer
//! file.
//!
//! Actor addresses are plain `u64` handles here, and message identifiers are the `u128` values
//! of their UUIDs; the runtime that delivers messages maps handles to its own addresses.
use vstd::prelude::*;

verus! {

/// Where a write goes.
#[derive(Clone, Copy, Debug, PartialEq, Eq, Structural)]
pub enum WriteLocation {
    /// At the given byte offset.
    Offset(u64),
    /// Appended. The system file writes it at the end of the file; the buffer file writes it
    /// at the offset equal to the written data's length (see `BufferFile::handle`).
    Append,
}

/// Operation on a file.
pub enum FileAction {
    /// Read `size` bytes at `offset`, replying to `on_result`.
    Read { offset: u64, size: u64, on_result: u64 },
    /// Write `data` at `location`, replying to `on_result`.
    Write { location: WriteLocation, data: Vec<u8>, on_result: u64 },
}

/// Message to a file.
pub struct FileMessage {
    /// Identifier of the request, copied into the reply.
    pub id: u128,
    pub action: FileAction,
}

/// Reply to a read.
pub struct ReadResult {
    pub id: u128,
    pub offset: u64,
    pub data: Vec<u8>,
}

/// Reply to a write.
#[derive(Clone, Copy, Debug, PartialEq, Eq, Structural)]
pub struct WriteResult {
    pub id: u128,
    /// Offset at which the data was written.
    pub offset: u64,
}

/// A reply, and the handle of the actor it goes to.
pub enum FileReply {
    Read { to: u64, result: ReadResult },
    Write { to: u64, result: WriteResult },
}

/// The `size` bytes of `buf` from `offset` on, with zeros past its end.
pub open spec fn padded_read(buf: Seq<u8>, offset: int, size: nat) -> Seq<u8> {
    Seq::new(size, |i: int| if offset + i < buf.len() { buf[offset + i] } else { 0u8 })
}

/// Offset at which a write of `data_len` bytes to `location` starts.
///
/// An append starts at the offset equal to the length of the written data.
pub open spec fn write_start(location: WriteLocation, data_len: nat) -> int {
    match location {
        WriteLocation::Offset(o) => o as int,
        WriteLocation::Append => data_len as int,
    }
}

/// A write of `data_len` bytes to `location` of a buffer of `buf_len` bytes stays within what
/// the buffer handles: it starts inside the buffer and covers everything after its start.
pub open spec fn write_fits(buf_len: nat, location: WriteLocation, data_len: nat) -> bool {
    let start = write_start(location, data_len);
    &&& start <= buf_len
    &&& data_len >= buf_len - start
}

/// The buffer after a write of `data` to `location`.
pub open spec fn spec_write(buf: Seq<u8>, location: WriteLocation, data: Seq<u8>) -> Seq<u8> {
    buf.subrange(0, write_start(location, data.len())) + data
}

/// Reads `size` bytes from `buffer` at `offset`. Bytes past the end of the buffer read as zero.
pub fn read_padded(buffer: &[u8], offset: u64, size: u64) -> (r: Vec<u8>)
    requires
        offset <= buffer@.len(),
    ensures
        r@ == padded_read(buffer@, offset as int, size as usize as nat),
{
    let start = offset as usize;
    let len = size as usize;
    let available = buffer.len() - start;
    let slice_len = if len < available { len } else { available };
    let mut data: Vec<u8> = Vec::new();
    let mut i: usize = 0;
    while i < len
        invariant
            start == offset,
            buffer@.len() <= usize::MAX,
            start <= buffer@.len(),
            available == buffer@.len() - start,
            slice_len <= available,
            slice_len <= len,
            slice_len == len || slice_len == available,
            i <= len,
            data@.len() == i,
            forall|j: int|
                0 <= j < i ==> data@[j] == (if start + j < buffer@.len() {
                    buffer@[start + j]
                } else {
                    0u8
                }),
        decreases len - i,
    {
        if i < slice_len {
            data.push(buffer[start + i]);
        } else {
            data.push(0u8);
        }
        i += 1;
    }
    assert(data@ =~= padded_read(buffer@, offset as int, size as usize as nat));
    data
}

/// Writes `data` into `buffer` at `location`: what is already there is overwritten, and the
/// rest is appended. Returns the offset the write started at.
pub fn write_into(buffer: &mut Vec<u8>, location: WriteLocation, data: &[u8]) -> (r: u64)
    requires
        write_fits(old(buffer)@.len(), location, data@.len()),
    ensures
        final(buffer)@ == spec_write(old(buffer)@, location, data@),
        r == write_start(location, data@.len()),
{
    let at: usize = match location {
        WriteLocation::Offset(o) => o as usize,
        WriteLocation::Append => data.len(),
    };
    let available = buffer.len() - at;
    let ghost start = buffer@.subrange(0, at as int);
    let mut i: usize = 0;
    while i < available
        invariant
            at + available == buffer@.len(),
            buffer@.len() <= usize::MAX,
            available <= data@.len(),
            i <= available,
            buffer@.subrange(0, at as int) == start,
            forall|j: int| 0 <= j < i ==> buffer@[at + j] == data@[j],
        decreases available - i,
    {
        buffer.set(at + i, data[i]);
        i += 1;
    }
    let mut k: usize = available;
    while k < data.len()
        invariant
            available <= k <= data@.len(),
            buffer@.len() == at + k,
            buffer@.subrange(0, at as int) == start,
            forall|j: int| 0 <= j < k ==> buffer@[at + j] == data@[j],
        decreases data@.len() - k,
    {
        buffer.push(data[k]);
        k += 1;
    }
    assert(buffer@ =~= start + data@);
    at as u64
}

/// An in-memory file, backed by a byte buffer.
pub struct BufferFile {
    pub buffer: Vec<u8>,
}

impl BufferFile {
    /// The requirement for `handle` to serve `message` without running off the buffer.
    pub open spec fn accepts(&self, message: &FileMessage) -> bool {
        match message.action {
            FileAction::Read { offset, .. } => offset <= self.buffer@.len(),
            FileAction::Write { location, data, .. } => write_fits(
                self.buffer@.len(),
                location,
                data@.len(),
            ),
        }
    }

    /// Performs a read or a write on the buffer, and returns the reply.
    pub fn handle(&mut self, message: FileMessage) -> (r: FileReply)
        requires
            old(self).accepts(&message),
        ensures
            match message.action {
                FileAction::Read { offset, size, on_result } => {
                    &&& final(self).buffer@ == old(self).buffer@
                    &&& r matches FileReply::Read { to, result }
                    &&& to == on_result
                    &&& result.id == message.id
                    &&& result.offset == offset
                    &&& result.data@ == padded_read(old(self).buffer@, offset as int, size as usize as nat)
                },
                FileAction::Write { location, data, on_result } => {
                    &&& final(self).buffer@ == spec_write(old(self).buffer@, location, data@)
                    &&& r matches FileReply::Write { to, result }
                    &&& to == on_result
                    &&& result.id == message.id
                    &&& result.offset == write_start(location, data@.len())
                },
            },
    {
        let id = message.id;
        match message.action {
            FileAction::Read { offset, size, on_result } => {
                let data = read_padded(self.buffer.as_slice(), offset, size);
                FileReply::Read { to: on_result, result: ReadResult { id, offset, data } }
            },
            FileAction::Write { location, data, on_result } => {
                let offset = write_into(&mut self.buffer, location, data.as_slice());
                FileReply::Write { to: on_result, result: WriteResult { id, offset } }
            },
        }
    }
}

/// A read at the offset of a write, of the written length, gives back the written data.
pub proof fn lemma_read_after_write(buf: Seq<u8>, location: WriteLocation, data: Seq<u8>)
    requires
        write_fits(buf.len(), location, data.len()),
    ensures
        padded_read(
            spec_write(buf, location, data),
            write_start(location, data.len()),
            data.len(),
        ) == data,
{
    let start = write_start(location, data.len());
    let after = spec_write(buf, location, data);
    assert(after.len() == start + data.len());
    assert(padded_read(after, start, data.len()) =~= data);
}

/// A write leaves every byte before its start as it was.
pub proof fn lemma_write_keeps_prefix(buf: Seq<u8>, location: WriteLocation, data: Seq<u8>, i: int)
    requires
        write_fits(buf.len(), location, data.len()),
        0 <= i < write_start(location, data.len()),
    ensures
        spec_write(buf, location, data)[i] == buf[i],
{
}

} // verus!
