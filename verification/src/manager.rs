//! A daicon file manager: loads table entries ("components") by UUID from a file, reading the
//! table header first and the header's valid entries after it.
//!
//! Like the file source, the manager is a state machine: `FileManager::handle` takes one
//! message and returns what to send next.
use vstd::prelude::*;

use crate::codec::{
    decode_entry, decode_header, decodes_entry, encodes_entry, header_from,
    lemma_encode_decoded_entry, native_little, signature, spec_signature, TableEntry,
    TableHeader, ENTRY_SIZE, HEADER_SIZE,
};
use crate::io::Read;
use crate::table::{find_entry, find_spec};

verus! {

/// Load a component, reading tables until it's found, and reply with it to `on_result`.
#[derive(Clone, Copy, Debug, PartialEq, Eq, Structural)]
pub struct Load {
    pub id: u128,
    pub on_result: u64,
}

/// Overwrite or add a component in a table.
#[derive(Clone, Copy, Debug, PartialEq, Eq, Structural)]
pub struct Store {
    pub id: u128,
    pub entry: TableEntry,
}

/// A command to the file manager.
pub enum FileManagerCommand {
    /// Load a component, reading tables until it's found.
    Load(Load),
    /// Overwrite or add a component in a table.
    Store(Store),
    /// Flush pending changes to the target writer with the given handle.
    Flush(u64),
}

/// A message to the file manager.
pub enum Message {
    Command(FileManagerCommand),
    /// The table header, read from the file.
    Header(TableHeader),
    /// The table's entries, read from the file.
    Entries(Vec<TableEntry>),
}

/// What the file manager asks the runtime to do after a message.
#[derive(Clone, Copy, Debug, PartialEq, Eq, Structural)]
pub enum ManagerAction {
    /// Read `length` entries from the file, starting at `start`.
    ReadEntries { start: u64, length: usize },
    /// Reply to a load with the table header and the component's entry.
    Reply { to: u64, header: TableHeader, entry: TableEntry },
}

/// Errors while reading a table through the file manager.
#[derive(Clone, Copy, Debug, PartialEq, Eq, Structural)]
pub enum ManagerError {
    /// The header does not carry the daicon signature.
    InvalidSignature,
    /// The data ended before all the entries.
    UnexpectedEnd,
}

/// State of a file manager.
pub struct FileManager {
    /// Handle of the file's read side.
    pub read: u64,
    /// The cached table header.
    pub header: TableHeader,
    /// The cached table entries.
    pub entries: Vec<TableEntry>,
    /// Loads waiting for their component.
    pub pending: Vec<Load>,
}

/// The loads of `pending` whose component is not among `entries`, in order.
pub open spec fn unresolved_loads(entries: Seq<TableEntry>, pending: Seq<Load>) -> Seq<Load>
    decreases pending.len(),
{
    if pending.len() == 0 {
        pending
    } else {
        let rest = unresolved_loads(entries, pending.drop_last());
        if find_spec(entries, pending.last().id) is None {
            rest.push(pending.last())
        } else {
            rest
        }
    }
}

/// The replies to the loads of `pending` whose component is among `entries`, in order.
pub open spec fn load_replies(
    header: TableHeader,
    entries: Seq<TableEntry>,
    pending: Seq<Load>,
) -> Seq<ManagerAction>
    decreases pending.len(),
{
    if pending.len() == 0 {
        Seq::empty()
    } else {
        let rest = load_replies(header, entries, pending.drop_last());
        match find_spec(entries, pending.last().id) {
            Some(e) => rest.push(
                ManagerAction::Reply { to: pending.last().on_result, header, entry: e },
            ),
            None => rest,
        }
    }
}

/// Starts a daicon file manager on the file's read side `read`, with an empty cache, and
/// the read of the table header to ask of the file, whose reply goes to `on_header`.
pub fn start_file_manager(read: u64, on_header: u64) -> (r: (FileManager, Read))
    ensures
        r.0.read == read,
        r.0.header == (TableHeader { signature: 0, capacity: 0, valid: 0, next: 0 }),
        r.0.entries@.len() == 0,
        r.0.pending@.len() == 0,
        r.1 == (Read { start: 0, length: HEADER_SIZE as u64, on_result: on_header }),
{
    let manager = FileManager {
        read,
        header: TableHeader { signature: 0, capacity: 0, valid: 0, next: 0 },
        entries: Vec::new(),
        pending: Vec::new(),
    };
    (manager, start_read_header(on_header))
}

/// Starts reading a table header: the read to ask of the file.
pub fn start_read_header(on_result: u64) -> (r: Read)
    ensures
        r == (Read { start: 0, length: HEADER_SIZE as u64, on_result }),
{
    Read { start: 0, length: HEADER_SIZE as u64, on_result }
}

/// Checks and decodes the header that a header read gave back. A header without the daicon
/// signature is refused.
pub fn read_header(data: &[u8]) -> (r: Result<TableHeader, ManagerError>)
    requires
        data@.len() == HEADER_SIZE,
    ensures
        header_from(data@, native_little()).signature == spec_signature() ==> r
            == Ok::<TableHeader, ManagerError>(header_from(data@, native_little())),
        header_from(data@, native_little()).signature != spec_signature() ==> r
            == Err::<TableHeader, ManagerError>(ManagerError::InvalidSignature),
{
    let header = decode_header(data);
    if header.signature != signature() {
        return Err(ManagerError::InvalidSignature);
    }
    Ok(header)
}

/// Starts reading `length` entries at `start`: the read to ask of the file.
pub fn start_read_entries(start: u64, length: usize, on_result: u64) -> (r: Read)
    requires
        length * ENTRY_SIZE <= usize::MAX,
    ensures
        r == (Read { start, length: (length * ENTRY_SIZE) as u64, on_result }),
{
    Read { start, length: (length * ENTRY_SIZE) as u64, on_result }
}

/// Decodes `length` entries, one after another, from the data an entries read gave back.
pub fn read_entries(data: &[u8], length: usize) -> (r: Result<Vec<TableEntry>, ManagerError>)
    ensures
        data@.len() < length * ENTRY_SIZE ==> r == Err::<Vec<TableEntry>, ManagerError>(
            ManagerError::UnexpectedEnd,
        ),
        data@.len() >= length * ENTRY_SIZE ==> {
            &&& r is Ok
            &&& r->Ok_0@.len() == length
            &&& forall|j: int|
                0 <= j < length ==> decodes_entry(
                    #[trigger] data@.subrange(j * ENTRY_SIZE, data@.len() as int),
                    r->Ok_0@[j],
                )
            &&& forall|j: int|
                0 <= j < length ==> encodes_entry(
                    #[trigger] data@.subrange(j * ENTRY_SIZE, (j + 1) * ENTRY_SIZE),
                    r->Ok_0@[j],
                )
        },
{
    if data.len() / ENTRY_SIZE < length {
        return Err(ManagerError::UnexpectedEnd);
    }
    let mut entries: Vec<TableEntry> = Vec::new();
    let mut i: usize = 0;
    while i < length
        invariant
            data@.len() >= length * ENTRY_SIZE,
            data@.len() <= usize::MAX,
            i <= length,
            entries@.len() == i,
            forall|j: int|
                0 <= j < i ==> decodes_entry(
                    #[trigger] data@.subrange(j * ENTRY_SIZE, data@.len() as int),
                    entries@[j],
                ),
        decreases length - i,
    {
        let start = i * ENTRY_SIZE;
        let entry = decode_entry(&data[start..data.len()]);
        entries.push(entry);
        i += 1;
    }
    proof {
        assert forall|j: int| 0 <= j < length implies encodes_entry(
            #[trigger] data@.subrange(j * ENTRY_SIZE, (j + 1) * ENTRY_SIZE),
            entries@[j],
        ) by {
            let tail = data@.subrange(j * ENTRY_SIZE, data@.len() as int);
            assert((j + 1) * ENTRY_SIZE <= length * ENTRY_SIZE) by (nonlinear_arith)
                requires 0 <= j < length;
            lemma_encode_decoded_entry(tail, entries@[j]);
            assert(tail.subrange(0, ENTRY_SIZE as int)
                =~= data@.subrange(j * ENTRY_SIZE, (j + 1) * ENTRY_SIZE));
        }
    }
    Ok(entries)
}

impl FileManager {
    /// Replies to the pending loads whose component is cached, and keeps the others.
    pub fn process(&mut self) -> (r: Vec<ManagerAction>)
        ensures
            final(self).read == old(self).read,
            final(self).header == old(self).header,
            final(self).entries@ == old(self).entries@,
            final(self).pending@ == unresolved_loads(old(self).entries@, old(self).pending@),
            r@ == load_replies(old(self).header, old(self).entries@, old(self).pending@),
    {
        let mut pending: Vec<Load> = Vec::new();
        core::mem::swap(&mut pending, &mut self.pending);
        let mut kept: Vec<Load> = Vec::new();
        let mut replies: Vec<ManagerAction> = Vec::new();
        let mut i: usize = 0;
        while i < pending.len()
            invariant
                self.read == old(self).read,
                self.header == old(self).header,
                self.entries@ == old(self).entries@,
                pending@ == old(self).pending@,
                i <= pending@.len(),
                kept@ == unresolved_loads(self.entries@, pending@.take(i as int)),
                replies@ == load_replies(self.header, self.entries@, pending@.take(i as int)),
            decreases pending@.len() - i,
        {
            let load = pending[i];
            proof {
                assert(pending@.take(i + 1).drop_last() =~= pending@.take(i as int));
                assert(pending@.take(i + 1).last() == load);
            }
            match find_entry(&self.entries, load.id) {
                Some(entry) => {
                    replies.push(ManagerAction::Reply { to: load.on_result, header: self.header, entry });
                },
                None => {
                    kept.push(load);
                },
            }
            i += 1;
        }
        proof {
            assert(pending@.take(pending@.len() as int) =~= pending@);
        }
        self.pending = kept;
        replies
    }

    /// Handles one message. Commands and entries are followed by `process`; a header is cached
    /// and its valid entries, which follow it in the file, are read next.
    pub fn handle(&mut self, message: Message) -> (r: Vec<ManagerAction>)
        ensures
            final(self).read == old(self).read,
            match message {
                Message::Command(command) => {
                    let pending = match command {
                        FileManagerCommand::Load(load) => old(self).pending@.push(load),
                        _ => old(self).pending@,
                    };
                    &&& final(self).header == old(self).header
                    &&& final(self).entries@ == old(self).entries@
                    &&& final(self).pending@ == unresolved_loads(old(self).entries@, pending)
                    &&& r@ == load_replies(old(self).header, old(self).entries@, pending)
                },
                Message::Header(header) => {
                    &&& final(self).header == header
                    &&& final(self).entries@ == old(self).entries@
                    &&& final(self).pending@ == old(self).pending@
                    &&& r@ == seq![ManagerAction::ReadEntries { start: HEADER_SIZE as u64, length: header.valid as usize }]
                },
                Message::Entries(entries) => {
                    &&& final(self).header == old(self).header
                    &&& final(self).entries@ == entries@
                    &&& final(self).pending@ == unresolved_loads(entries@, old(self).pending@)
                    &&& r@ == load_replies(old(self).header, entries@, old(self).pending@)
                },
            },
    {
        match message {
            Message::Command(command) => {
                match command {
                    FileManagerCommand::Load(load) => {
                        self.pending.push(load);
                    },
                    FileManagerCommand::Store(_store) => {},
                    FileManagerCommand::Flush(_write) => {},
                }
                self.process()
            },
            Message::Header(header) => {
                self.header = header;
                let mut actions: Vec<ManagerAction> = Vec::new();
                actions.push(
                    ManagerAction::ReadEntries { start: HEADER_SIZE as u64, length: header.valid as usize },
                );
                proof {
                    assert(actions@ =~= seq![ManagerAction::ReadEntries { start: HEADER_SIZE as u64, length: header.valid as usize }]);
                }
                actions
            },
            Message::Entries(entries) => {
                self.entries = entries;
                self.process()
            },
        }
    }
}

/// The loads of `pending` whose component is among `entries`, in order.
pub open spec fn loads_found(entries: Seq<TableEntry>, pending: Seq<Load>) -> Seq<Load> {
    pending.filter(|l: Load| find_spec(entries, l.id) is Some)
}

/// The loads of `pending` whose component is not among `entries`, in order.
pub open spec fn loads_missing(entries: Seq<TableEntry>, pending: Seq<Load>) -> Seq<Load> {
    pending.filter(|l: Load| find_spec(entries, l.id) is None)
}

/// Every pending load whose component is among the entries gets its own reply, in the order
/// the loads came: there are as many replies as such loads, and the k-th reply goes to the
/// k-th such load's reply handle with the header and the entry found for its component. The
/// loads whose component is missing keep waiting, in order, so each load is either answered
/// or still pending.
pub proof fn lemma_every_found_load_is_answered(
    header: TableHeader,
    entries: Seq<TableEntry>,
    pending: Seq<Load>,
)
    ensures
        load_replies(header, entries, pending).len() == loads_found(entries, pending).len(),
        forall|k: int|
            0 <= k < load_replies(header, entries, pending).len() ==> {
                let l = loads_found(entries, pending)[k];
                let e = find_spec(entries, l.id);
                &&& e is Some
                &&& #[trigger] load_replies(header, entries, pending)[k] == (ManagerAction::Reply {
                    to: l.on_result,
                    header,
                    entry: e->Some_0,
                })
            },
        unresolved_loads(entries, pending) == loads_missing(entries, pending),
        load_replies(header, entries, pending).len() + unresolved_loads(entries, pending).len()
            == pending.len(),
    decreases pending.len(),
{
    reveal(Seq::filter);
    if pending.len() > 0 {
        lemma_every_found_load_is_answered(header, entries, pending.drop_last());
    }
}

} // verus!
