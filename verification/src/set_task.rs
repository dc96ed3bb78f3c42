//! The task that adds or replaces an entry in a daicon file: it appends the data to the file,
//! waits for a table slot and for the data's offset, then writes the entry into the slot.
use vstd::prelude::*;

use crate::codec::{encode_entry, encodes_entry, TableEntry};
use crate::file::WriteResult;

verus! {

/// A message to a set task.
pub enum SetTaskMessage {
    /// The file offset of the table slot the entry goes to.
    Slot(u64),
    /// The file's reply to the append of the data.
    AppendResult(WriteResult),
    /// The file's reply to the write of the entry.
    EntryResult(WriteResult),
}

/// What a set task asks the runtime to do after a message.
pub enum SetTaskStep {
    /// Nothing yet.
    Wait,
    /// Write `data`, the encoded entry, at `offset` of `file`.
    WriteEntry { file: u64, offset: u64, data: Vec<u8> },
    /// Reply to `on_result` that the set is done, and stop the task.
    Finish { on_result: u64 },
}

/// The append that starts a set task: `data` goes at the end of `file`.
pub struct AppendRequest {
    pub file: u64,
    pub data: Vec<u8>,
}

/// State of a set task.
pub struct SetTask {
    /// Handle of the file.
    pub file: u64,
    /// Handle that receives the reply once the set is done.
    pub on_result: u64,
    /// File offset of the table slot, once known.
    pub entry_offset: Option<u64>,
    /// File offset of the appended data, once known.
    pub data_offset: Option<u32>,
    /// The entry to write.
    pub entry: TableEntry,
}

impl SetTask {
    /// Handles one message. The task takes its slot once: a slot message after the first one
    /// is dropped and leaves the task as it is, as a once-only relay in front of the task
    /// would. Once both the slot and the data offset are known, the slot and each append reply
    /// write the entry, with the data offset, into the slot. The entry write's reply finishes
    /// the task.
    pub fn process(&mut self, message: SetTaskMessage) -> (r: SetTaskStep)
        ensures
            final(self).file == old(self).file,
            final(self).on_result == old(self).on_result,
            match message {
                SetTaskMessage::EntryResult(_) => {
                    &&& final(self).entry_offset == old(self).entry_offset
                    &&& final(self).data_offset == old(self).data_offset
                    &&& final(self).entry == old(self).entry
                    &&& r matches SetTaskStep::Finish { on_result } && on_result == old(self).on_result
                },
                SetTaskMessage::Slot(_) if old(self).entry_offset is Some => {
                    &&& final(self).entry_offset == old(self).entry_offset
                    &&& final(self).data_offset == old(self).data_offset
                    &&& final(self).entry == old(self).entry
                    &&& r is Wait
                },
                _ => {
                    &&& final(self).entry_offset == (match message {
                        SetTaskMessage::Slot(o) => Some(o),
                        _ => old(self).entry_offset,
                    })
                    &&& final(self).data_offset == (match message {
                        SetTaskMessage::AppendResult(w) => Some(w.offset as u32),
                        _ => old(self).data_offset,
                    })
                    &&& final(self).entry.id == old(self).entry.id
                    &&& final(self).entry.size == old(self).entry.size
                    &&& match (final(self).entry_offset, final(self).data_offset) {
                        (Some(eo), Some(dof)) => {
                            &&& final(self).entry.offset == dof
                            &&& r matches SetTaskStep::WriteEntry { file, offset, data }
                            &&& file == old(self).file
                            &&& offset == eo
                            &&& encodes_entry(data@, final(self).entry)
                        },
                        _ => {
                            &&& final(self).entry == old(self).entry
                            &&& r is Wait
                        },
                    }
                },
            },
    {
        match message {
            SetTaskMessage::Slot(offset) => {
                if self.entry_offset.is_some() {
                    return SetTaskStep::Wait;
                }
                self.entry_offset = Some(offset);
            },
            SetTaskMessage::AppendResult(result) => {
                self.data_offset = Some(result.offset as u32);
            },
            SetTaskMessage::EntryResult(_result) => {
                return SetTaskStep::Finish { on_result: self.on_result };
            },
        }
        match (self.entry_offset, self.data_offset) {
            (Some(entry_offset), Some(data_offset)) => {
                self.entry.offset = data_offset;
                let data = encode_entry(&self.entry);
                SetTaskStep::WriteEntry { file: self.file, offset: entry_offset, data }
            },
            _ => SetTaskStep::Wait,
        }
    }
}

/// Starts a set task for the entry `id` with `data`. Returns the task, whose entry has the
/// identifier and the data's size, and the append of the data to ask of the file.
pub fn start_set_task(file: u64, id: u128, data: Vec<u8>, on_result: u64) -> (r: (SetTask, AppendRequest))
    ensures
        r.0.file == file,
        r.0.on_result == on_result,
        r.0.entry_offset is None,
        r.0.data_offset is None,
        r.0.entry == (TableEntry { id, offset: 0, size: data@.len() as u32 }),
        r.1.file == file,
        r.1.data@ == data@,
{
    let size = data.len() as u32;
    let mut entry = TableEntry::zeroed();
    entry.id = id;
    entry.size = size;
    let task = SetTask { file, on_result, entry_offset: None, data_offset: None, entry };
    (task, AppendRequest { file, data })
}

} // verus!
