//! A daicon "file source": answers requests for entry data by UUID, using a daicon table that
//! it reads from a file, and hands out free table slots to writers.
//!
//! The source is a state machine: `FileSource::handle` takes one event (a request, or a reply
//! from the file) and returns what to send next. The runtime performs those sends and feeds the
//! replies back in.
use vstd::prelude::*;

use crate::codec::{
    decodes_header, encode_header, encodes_header, header_from, native_little, spec_signature,
    TableEntry, TableHeader, HEADER_SIZE,
};
use crate::file::{ReadResult, WriteResult};
use crate::set_task::{start_set_task, AppendRequest, SetTask};
use crate::table::{
    entry_offset, find_spec, first_unallocated, initial_meta, read_error, spec_entry_offset,
    table_from_bytes, valid_run,
    lemma_first_unallocated_unique, lemma_valid_run_unique, CachedTable, TableError, TableView,
};

verus! {

/// Size of the first read of a file's table, in bytes.
pub const TABLE_READ_SIZE: u64 = 65536;

/// A request to the source.
pub struct SourceMessage {
    /// Identifier of the request.
    pub id: u128,
    pub action: SourceAction,
}

/// What a request to the source asks for.
pub enum SourceAction {
    /// Get the data associated with a UUID, replying to `on_result`.
    Get { id: u128, on_result: u64 },
    /// Set the data associated with a UUID, replying to `on_result` once done.
    SetData { id: u128, data: Vec<u8>, on_result: u64 },
}

/// An event for the source to handle.
pub enum SourceEvent {
    /// A request for the data of entry `id`, to be read into `on_result`.
    Get { id: u128, on_result: u64 },
    /// A set task has started, and waits at `slot` for the file offset of its table slot.
    SetStarted { slot: u64 },
    /// The file's reply to the read of the table.
    ReadTableResult(ReadResult),
    /// The file's reply to a header write.
    WriteResult(WriteResult),
}

/// A read to ask of the file.
#[derive(Clone, Copy, Debug, PartialEq, Eq, Structural)]
pub struct ReadRequest {
    pub offset: u64,
    pub size: u64,
    pub on_result: u64,
}

/// A table slot handed to a set task: reply `offset` to `to`, and write `header` to the file
/// at `header_offset`, the table's offset, with the reply going to the source's write result
/// handle.
pub struct SlotGrant {
    pub to: u64,
    pub offset: u64,
    pub header_offset: u64,
    pub header: Vec<u8>,
}

/// What the source asks the runtime to send after an event.
pub struct PendingOutcome {
    /// Reads to ask of the file, one per resolved get request.
    pub reads: Vec<ReadRequest>,
    /// Slots handed out, one per resolved set task.
    pub grants: Vec<SlotGrant>,
}

/// State of a file source.
pub struct FileSource {
    /// Handle of the file.
    pub file: u64,
    /// Handle that receives the file's replies to header writes.
    pub write_result: u64,
    /// The table, once it has been read.
    pub table: Option<CachedTable>,
    /// Set tasks waiting for a slot.
    pub pending_slots: Vec<u64>,
    /// Get requests waiting for their entry.
    pub get_tasks: Vec<(u128, u64)>,
}

/// The contents of a file source.
pub struct SourceView {
    pub file: u64,
    pub write_result: u64,
    pub table: Option<TableView>,
    pub pending_slots: Seq<u64>,
    pub get_tasks: Seq<(u128, u64)>,
}

impl View for FileSource {
    type V = SourceView;

    open spec fn view(&self) -> SourceView {
        SourceView {
            file: self.file,
            write_result: self.write_result,
            table: match self.table {
                Some(t) => Some(t@),
                None => None,
            },
            pending_slots: self.pending_slots@,
            get_tasks: self.get_tasks@,
        }
    }
}

/// The get requests of `tasks` whose entry is not in `entries`, in order.
pub open spec fn unresolved_gets(entries: Seq<TableEntry>, tasks: Seq<(u128, u64)>) -> Seq<(u128, u64)>
    decreases tasks.len(),
{
    if tasks.len() == 0 {
        tasks
    } else {
        let rest = unresolved_gets(entries, tasks.drop_last());
        if find_spec(entries, tasks.last().0) is None {
            rest.push(tasks.last())
        } else {
            rest
        }
    }
}

/// The reads that resolve the get requests of `tasks` whose entry is in `entries`, in order:
/// each reads the entry's data into the request's reply handle.
pub open spec fn resolved_reads(entries: Seq<TableEntry>, tasks: Seq<(u128, u64)>) -> Seq<ReadRequest>
    decreases tasks.len(),
{
    if tasks.len() == 0 {
        Seq::empty()
    } else {
        let rest = resolved_reads(entries, tasks.drop_last());
        match find_spec(entries, tasks.last().0) {
            Some(e) => rest.push(
                ReadRequest { offset: e.offset as u64, size: e.size as u64, on_result: tasks.last().1 },
            ),
            None => rest,
        }
    }
}

/// `a` slots of the table are filled: exactly the first `a` are allocated, and they are
/// exactly the valid ones.
pub open spec fn filled(t: TableView, a: int) -> bool {
    &&& 0 <= a <= t.entries.len()
    &&& t.meta == initial_meta(t.entries.len(), a as nat)
}

/// The number of filled slots of a table that `filled` describes.
pub open spec fn fill_of(t: TableView) -> int {
    choose|a: int| filled(t, a)
}

/// The table after the slots `from..to` have been handed out: they are allocated, valid, and
/// hold a zeroed entry.
pub open spec fn granted_table(t: TableView, from: int, to: int) -> TableView {
    TableView {
        offset: t.offset,
        entries: Seq::new(
            t.entries.len(),
            |i: int|
                if from <= i < to {
                    TableEntry { id: 0, offset: 0, size: 0 }
                } else {
                    t.entries[i]
                },
        ),
        meta: initial_meta(t.entries.len(), to as nat),
    }
}

/// The number of set tasks that a table with `fill` of `capacity` slots filled can serve out of
/// `waiting`.
pub open spec fn served(capacity: int, fill: int, waiting: int) -> int {
    if waiting <= capacity - fill {
        waiting
    } else {
        capacity - fill
    }
}

pub proof fn lemma_filled_unique(t: TableView, a: int, b: int)
    requires
        filled(t, a),
        filled(t, b),
    ensures
        a == b,
{
    if a < b {
        assert(t.meta[a] == initial_meta(t.entries.len(), b as nat)[a]);
    } else if b < a {
        assert(t.meta[b] == initial_meta(t.entries.len(), a as nat)[b]);
    }
}

impl FileSource {
    /// The source's invariant: a table it holds is well formed, and its filled slots are a
    /// prefix that is both allocated and valid.
    pub open spec fn wf(&self) -> bool {
        match self.table {
            Some(t) => t.wf() && exists|a: int| filled(t@, a),
            None => true,
        }
    }

    /// What `check_pending` does to the source: with a table, get requests whose entry exists
    /// are turned into reads, and the first waiting set tasks get the free slots in order, each
    /// with the header that counts its slot as valid. Without a table nothing happens.
    pub open spec fn pending_post(pre: SourceView, post: SourceView, out_reads: Seq<ReadRequest>, out_grants: Seq<(u64, u64, u64, Seq<u8>)>) -> bool {
        match pre.table {
            None => {
                &&& post == pre
                &&& out_reads.len() == 0
                &&& out_grants.len() == 0
            },
            Some(t) => {
                let cap = t.entries.len() as int;
                let a = fill_of(t);
                let k = served(cap, a, pre.pending_slots.len() as int);
                &&& post.file == pre.file
                &&& post.write_result == pre.write_result
                &&& post.get_tasks == unresolved_gets(t.entries, pre.get_tasks)
                &&& out_reads == resolved_reads(t.entries, pre.get_tasks)
                &&& post.table == Some(granted_table(t, a, a + k))
                &&& post.pending_slots == pre.pending_slots.subrange(k, pre.pending_slots.len() as int)
                &&& out_grants.len() == k
                &&& forall|j: int|
                    0 <= j < k ==> {
                        &&& (#[trigger] out_grants[j]).0 == pre.pending_slots[j]
                        &&& out_grants[j].1 == spec_entry_offset(t.offset, a + j)
                        &&& out_grants[j].2 == t.offset
                        &&& encodes_header(
                            out_grants[j].3,
                            TableHeader {
                                signature: spec_signature(),
                                capacity: cap as u16,
                                valid: (a + j + 1) as u16,
                                next: 0,
                            },
                        )
                    }
            },
        }
    }
}


impl FileSource {
    /// Resolves what can be resolved with the table: get requests whose entry exists become
    /// reads, and waiting set tasks get free slots, each followed by a header write.
    pub fn check_pending(&mut self) -> (r: PendingOutcome)
        requires
            old(self).wf(),
        ensures
            final(self).wf(),
            Self::pending_post(old(self)@, final(self)@, r.reads@, grants_view(r.grants@)),
    {
        let mut table = match self.table.take() {
            Some(t) => t,
            None => {
                return PendingOutcome { reads: Vec::new(), grants: Vec::new() };
            },
        };
        let ghost t0 = table@;
        let ghost a = fill_of(t0);
        let ghost cap = t0.entries.len() as int;
        proof {
            let w = choose|w: int| filled(t0, w);
            assert(filled(t0, w));
        }

        // Resolve pending gets
        let mut tasks: Vec<(u128, u64)> = Vec::new();
        core::mem::swap(&mut tasks, &mut self.get_tasks);
        let mut kept: Vec<(u128, u64)> = Vec::new();
        let mut reads: Vec<ReadRequest> = Vec::new();
        let mut i: usize = 0;
        while i < tasks.len()
            invariant
                table@ == t0,
                i <= tasks@.len(),
                kept@ == unresolved_gets(t0.entries, tasks@.take(i as int)),
                reads@ == resolved_reads(t0.entries, tasks@.take(i as int)),
            decreases tasks@.len() - i,
        {
            let task = tasks[i];
            proof {
                assert(tasks@.take(i + 1).drop_last() =~= tasks@.take(i as int));
                assert(tasks@.take(i + 1).last() == task);
            }
            match table.find(task.0) {
                Some(e) => {
                    reads.push(ReadRequest { offset: e.offset as u64, size: e.size as u64, on_result: task.1 });
                },
                None => {
                    kept.push(task);
                },
            }
            i += 1;
        }
        proof {
            assert(tasks@.take(tasks@.len() as int) =~= tasks@);
        }
        self.get_tasks = kept;

        // Resolve pending sets
        let mut slots: Vec<u64> = Vec::new();
        core::mem::swap(&mut slots, &mut self.pending_slots);
        let ghost k = served(cap, a, slots@.len() as int);
        let mut kept_slots: Vec<u64> = Vec::new();
        let mut grants: Vec<SlotGrant> = Vec::new();
        let mut j: usize = 0;
        proof {
            assert(granted_table(t0, a, a).entries =~= t0.entries);
        }
        while j < slots.len()
            invariant
                table.wf(),
                filled(t0, a),
                cap == t0.entries.len(),
                cap <= u16::MAX,
                spec_entry_offset(t0.offset, cap) <= u64::MAX,
                k == served(cap, a, slots@.len() as int),
                j <= slots@.len(),
                grants@.len() == (if j <= k { j as int } else { k }),
                kept_slots@ == slots@.subrange(grants@.len() as int, j as int),
                table@ == granted_table(t0, a, a + grants@.len()),
                forall|g: int|
                    0 <= g < grants@.len() ==> {
                        &&& (#[trigger] grants@[g]).to == slots@[g]
                        &&& grants@[g].offset == spec_entry_offset(t0.offset, a + g)
                        &&& grants@[g].header_offset == t0.offset
                        &&& encodes_header(
                            grants@[g].header@,
                            TableHeader {
                                signature: spec_signature(),
                                capacity: cap as u16,
                                valid: (a + g + 1) as u16,
                                next: 0,
                            },
                        )
                    },
            decreases slots@.len() - j,
        {
            let to = slots[j];
            let ghost g = grants@.len() as int;
            let ghost before = table@;
            match table.try_allocate() {
                Some(index) => {
                    proof {
                        assert(!before.meta[a + g].allocated) by {
                            if a + g >= cap {
                                assert(!before.meta[index as int].allocated);
                            }
                        }
                        if a + g < cap {
                            assert(first_unallocated(before.meta, a + g));
                            lemma_first_unallocated_unique(before.meta, index as int, a + g);
                        }
                    }
                    let offset = entry_offset(table.offset, index);
                    table.mark_valid(index, TableEntry::zeroed());
                    proof {
                        assert(table@.meta =~= initial_meta(cap as nat, (a + g + 1) as nat));
                        assert(table@.entries =~= granted_table(t0, a, a + g + 1).entries);
                    }
                    let header = table.create_header();
                    proof {
                        assert(valid_run(table@.meta, a + g + 1));
                        lemma_valid_run_unique(table@.meta, header.valid as int, a + g + 1);
                    }
                    let data = encode_header(&header);
                    grants.push(SlotGrant { to, offset, header_offset: table.offset, header: data });
                },
                None => {
                    proof {
                        if a + g < cap {
                            assert(!before.meta[a + g].allocated);
                        }
                    }
                    kept_slots.push(to);
                },
            }
            proof {
                assert(kept_slots@ =~= slots@.subrange(grants@.len() as int, j + 1));
            }
            j += 1;
        }
        proof {
            assert(filled(table@, a + k));
        }
        self.pending_slots = kept_slots;
        self.table = Some(table);
        proof {
            assert(self.table.unwrap()@ == table@);
            assert(filled(self.table.unwrap()@, a + k));
            let gv = grants_view(grants@);
            assert forall|g: int| 0 <= g < k implies {
                &&& (#[trigger] gv[g]).0 == slots@[g]
                &&& gv[g].1 == spec_entry_offset(t0.offset, a + g)
                &&& gv[g].2 == t0.offset
                &&& encodes_header(
                    gv[g].3,
                    TableHeader {
                        signature: spec_signature(),
                        capacity: cap as u16,
                        valid: (a + g + 1) as u16,
                        next: 0,
                    },
                )
            } by {
                assert(gv[g] == (grants@[g].to, grants@[g].offset, grants@[g].header_offset, grants@[g].header@));
            }
        }
        PendingOutcome { reads, grants }
    }
}


impl FileSource {
    /// Takes in a request. A get waits for its entry; a set starts a set task on the source's
    /// file, which the runtime runs and then announces with `SourceEvent::SetStarted`.
    pub fn on_source_message(&mut self, message: SourceMessage) -> (r: Option<(SetTask, AppendRequest)>)
        requires
            old(self).wf(),
        ensures
            final(self).wf(),
            match message.action {
                SourceAction::Get { id, on_result } => {
                    &&& r is None
                    &&& final(self)@ == SourceView { get_tasks: old(self)@.get_tasks.push((id, on_result)), ..old(self)@ }
                },
                SourceAction::SetData { id, data, on_result } => {
                    &&& final(self)@ == old(self)@
                    &&& r matches Some((task, append)) && {
                        &&& task.file == old(self).file
                        &&& task.on_result == on_result
                        &&& task.entry_offset is None
                        &&& task.data_offset is None
                        &&& task.entry == (TableEntry { id, offset: 0, size: data@.len() as u32 })
                        &&& append.file == old(self).file
                        &&& append.data@ == data@
                    }
                },
            },
    {
        match message.action {
            SourceAction::Get { id, on_result } => {
                self.get_tasks.push((id, on_result));
                None
            },
            SourceAction::SetData { id, data, on_result } => {
                Some(start_set_task(self.file, id, data, on_result))
            },
        }
    }

    /// What reading the table from `data` does to the source, once the table header has decoded
    /// to `h`: on failure the source is unchanged, on success it holds the table read.
    pub open spec fn table_read_post(
        data: Seq<u8>,
        h: TableHeader,
        pre: SourceView,
        post: SourceView,
        r: Result<(), TableError>,
    ) -> bool {
        match read_error(data, h) {
            Some(e) => r == Err::<(), TableError>(e) && post == pre,
            None => {
                &&& r is Ok
                &&& post.file == pre.file
                &&& post.write_result == pre.write_result
                &&& post.pending_slots == pre.pending_slots
                &&& post.get_tasks == pre.get_tasks
                &&& post.table is Some
                &&& table_from_bytes(data, h, post.table->Some_0)
            },
        }
    }

    /// Reads the table from the file's reply, and keeps it.
    pub fn on_read_table(&mut self, result: ReadResult) -> (r: Result<(), TableError>)
        requires
            old(self).wf(),
        ensures
            final(self).wf(),
            result.data@.len() < HEADER_SIZE ==> r == Err::<(), TableError>(TableError::UnexpectedEnd)
                && final(self)@ == old(self)@,
            result.data@.len() >= HEADER_SIZE ==> Self::table_read_post(
                result.data@,
                header_from(result.data@, native_little()),
                old(self)@,
                final(self)@,
                r,
            ),
    {
        let table = CachedTable::read(result.data.as_slice());
        match table {
            Ok(t) => {
                let ghost tv = t@;
                self.table = Some(t);
                proof {
                    let h = header_from(result.data@, native_little());
                    assert(read_error(result.data@, h) is None);
                    assert(filled(tv, h.valid as int));
                    assert(self.table.unwrap()@ == tv);
                }
                Ok(())
            },
            Err(e) => Err(e),
        }
    }

    /// The source after it has taken in `event`, before it resolves what it can. For a table
    /// read, `h` is what the table's header decoded to.
    pub open spec fn event_post(
        pre: SourceView,
        event: SourceEventView,
        h: TableHeader,
        mid: SourceView,
        r: Result<(), TableError>,
    ) -> bool {
        match event {
            SourceEventView::Get { id, on_result } => r is Ok && mid == SourceView {
                get_tasks: pre.get_tasks.push((id, on_result)),
                ..pre
            },
            SourceEventView::SetStarted { slot } => r is Ok && mid == SourceView {
                pending_slots: pre.pending_slots.push(slot),
                ..pre
            },
            SourceEventView::ReadTableResult { data } => {
                &&& data.len() >= HEADER_SIZE
                &&& decodes_header(data, h)
                &&& Self::table_read_post(data, h, pre, mid, r)
            },
            SourceEventView::WriteResult => r is Ok && mid == pre,
        }
    }

    /// Handles one event, then resolves what can be resolved. A table that fails to read ends
    /// the handling with its error.
    pub fn handle(&mut self, event: SourceEvent) -> (r: Result<PendingOutcome, TableError>)
        requires
            old(self).wf(),
        ensures
            final(self).wf(),
            event.view() matches SourceEventView::ReadTableResult { data } && data.len() < HEADER_SIZE
                ==> r is Err && r->Err_0 == TableError::UnexpectedEnd && final(self)@ == old(self)@,
            !(event.view() matches SourceEventView::ReadTableResult { data } && data.len() < HEADER_SIZE)
                ==> exists|h: TableHeader, mid: SourceView, r0: Result<(), TableError>|
                {
                    &&& Self::event_post(old(self)@, event.view(), h, mid, r0)
                    &&& match r0 {
                        Err(e) => r is Err && r->Err_0 == e && final(self)@ == mid,
                        Ok(_) => r is Ok && Self::pending_post(
                            mid,
                            final(self)@,
                            r->Ok_0.reads@,
                            grants_view(r->Ok_0.grants@),
                        ),
                    }
                },
    {
        let ghost pre = self@;
        let ghost ev = event.view();
        match event {
            SourceEvent::Get { id, on_result } => {
                self.get_tasks.push((id, on_result));
                let ghost mid = self@;
                let out = self.check_pending();
                proof {
                    assert(Self::event_post(pre, ev, arbitrary(), mid, Ok(())));
                }
                Ok(out)
            },
            SourceEvent::SetStarted { slot } => {
                self.pending_slots.push(slot);
                let ghost mid = self@;
                let out = self.check_pending();
                proof {
                    assert(Self::event_post(pre, ev, arbitrary(), mid, Ok(())));
                }
                Ok(out)
            },
            SourceEvent::ReadTableResult(result) => {
                let ghost data = result.data@;
                let read = self.on_read_table(result);
                let ghost mid = self@;
                match read {
                    Err(e) => {
                        proof {
                            if data.len() >= HEADER_SIZE {
                                let h = header_from(data, native_little());
                                assert(Self::event_post(pre, ev, h, mid, read));
                            }
                        }
                        Err(e)
                    },
                    Ok(()) => {
                        let out = self.check_pending();
                        proof {
                            let h = header_from(data, native_little());
                            assert(Self::event_post(pre, ev, h, mid, read));
                        }
                        Ok(out)
                    },
                }
            },
            SourceEvent::WriteResult(_result) => {
                let out = self.check_pending();
                proof {
                    assert(Self::event_post(pre, ev, arbitrary(), pre, Ok(())));
                }
                Ok(out)
            },
        }
    }
}

/// An event, as plain values.
pub enum SourceEventView {
    Get { id: u128, on_result: u64 },
    SetStarted { slot: u64 },
    ReadTableResult { data: Seq<u8> },
    WriteResult,
}

impl SourceEvent {
    pub open spec fn view(&self) -> SourceEventView {
        match self {
            SourceEvent::Get { id, on_result } => SourceEventView::Get { id: *id, on_result: *on_result },
            SourceEvent::SetStarted { slot } => SourceEventView::SetStarted { slot: *slot },
            SourceEvent::ReadTableResult(result) => SourceEventView::ReadTableResult { data: result.data@ },
            SourceEvent::WriteResult(_) => SourceEventView::WriteResult,
        }
    }
}

/// Starts a daicon file source on `file`: a source answers requests by UUID, using the
/// file's table. Returns the source, and the read of the table at the start of
/// the file to ask of the file, whose reply goes to `read_table_result`.
pub fn start_file_source_service(file: u64, read_table_result: u64, write_result: u64) -> (r: (FileSource, ReadRequest))
    ensures
        r.0.wf(),
        r.0@ == (SourceView {
            file,
            write_result,
            table: None,
            pending_slots: Seq::empty(),
            get_tasks: Seq::empty(),
        }),
        r.1 == (ReadRequest { offset: 0, size: TABLE_READ_SIZE, on_result: read_table_result }),
{
    let source = FileSource {
        file,
        write_result,
        table: None,
        pending_slots: Vec::new(),
        get_tasks: Vec::new(),
    };
    proof {
        assert(source@.pending_slots =~= Seq::<u64>::empty());
        assert(source@.get_tasks =~= Seq::<(u128, u64)>::empty());
    }
    (source, ReadRequest { offset: 0, size: TABLE_READ_SIZE, on_result: read_table_result })
}

/// Slots handed out together are handed out in order, each at a later offset than the one
/// before, so no two set tasks share a slot.
pub proof fn lemma_grants_distinct(
    pre: SourceView,
    post: SourceView,
    reads: Seq<ReadRequest>,
    grants: Seq<(u64, u64, u64, Seq<u8>)>,
    j1: int,
    j2: int,
)
    requires
        FileSource::pending_post(pre, post, reads, grants),
        0 <= j1 < j2 < grants.len(),
    ensures
        grants[j1].1 < grants[j2].1,
{
}

/// A set task is left waiting only while the table has no free slot: once pending work has
/// been resolved with a table, either no set task waits or every slot of the table is filled.
pub proof fn lemma_waiting_only_when_full(
    pre: SourceView,
    post: SourceView,
    reads: Seq<ReadRequest>,
    grants: Seq<(u64, u64, u64, Seq<u8>)>,
)
    requires
        FileSource::pending_post(pre, post, reads, grants),
        pre.table is Some,
        exists|a: int| filled(pre.table->Some_0, a),
        post.pending_slots.len() > 0,
    ensures
        post.table is Some,
        filled(post.table->Some_0, post.table->Some_0.entries.len() as int),
{
    let t = pre.table->Some_0;
    let a = fill_of(t);
    let w = choose|w: int| filled(t, w);
    assert(filled(t, a));
    let cap = t.entries.len() as int;
    let k = served(cap, a, pre.pending_slots.len() as int);
    assert(k == cap - a);
    let t2 = post.table->Some_0;
    assert(t2 == granted_table(t, a, a + k));
}

/// A get request is left waiting only while its entry is not in the table.
pub proof fn lemma_gets_wait_for_missing_entries(
    entries: Seq<TableEntry>,
    tasks: Seq<(u128, u64)>,
    i: int,
)
    requires
        0 <= i < unresolved_gets(entries, tasks).len(),
    ensures
        find_spec(entries, unresolved_gets(entries, tasks)[i].0) is None,
    decreases tasks.len(),
{
    if tasks.len() > 0 {
        let rest = unresolved_gets(entries, tasks.drop_last());
        if i < rest.len() {
            lemma_gets_wait_for_missing_entries(entries, tasks.drop_last(), i);
        }
    }
}

/// The get requests of `tasks` whose entry is in `entries`, in order.
pub open spec fn gets_found(entries: Seq<TableEntry>, tasks: Seq<(u128, u64)>) -> Seq<(u128, u64)> {
    tasks.filter(|t: (u128, u64)| find_spec(entries, t.0) is Some)
}

/// The get requests of `tasks` whose entry is not in `entries`, in order.
pub open spec fn gets_missing(entries: Seq<TableEntry>, tasks: Seq<(u128, u64)>) -> Seq<(u128, u64)> {
    tasks.filter(|t: (u128, u64)| find_spec(entries, t.0) is None)
}

proof fn lemma_resolved_reads_are_found_gets(entries: Seq<TableEntry>, tasks: Seq<(u128, u64)>)
    ensures
        resolved_reads(entries, tasks).len() == gets_found(entries, tasks).len(),
        forall|k: int|
            0 <= k < resolved_reads(entries, tasks).len() ==> #[trigger] resolved_reads(entries, tasks)[k]
                == (ReadRequest {
                offset: find_spec(entries, gets_found(entries, tasks)[k].0)->Some_0.offset as u64,
                size: find_spec(entries, gets_found(entries, tasks)[k].0)->Some_0.size as u64,
                on_result: gets_found(entries, tasks)[k].1,
            }),
        unresolved_gets(entries, tasks) == gets_missing(entries, tasks),
        resolved_reads(entries, tasks).len() + unresolved_gets(entries, tasks).len() == tasks.len(),
    decreases tasks.len(),
{
    reveal(Seq::filter);
    if tasks.len() > 0 {
        lemma_resolved_reads_are_found_gets(entries, tasks.drop_last());
    }
}

/// With a table, every waiting get request whose entry is in the table gets its own read, in
/// the order the requests came: there are as many reads as such requests, and the k-th read
/// reads the data of the entry found for the k-th of them into that request's reply handle.
/// The requests whose entry is missing keep waiting, in order, so each request is either
/// answered or still waiting.
pub proof fn lemma_every_found_get_is_read(
    pre: SourceView,
    post: SourceView,
    reads: Seq<ReadRequest>,
    grants: Seq<(u64, u64, u64, Seq<u8>)>,
)
    requires
        FileSource::pending_post(pre, post, reads, grants),
        pre.table is Some,
    ensures
        reads.len() == gets_found(pre.table->Some_0.entries, pre.get_tasks).len(),
        forall|k: int|
            0 <= k < reads.len() ==> {
                let t = gets_found(pre.table->Some_0.entries, pre.get_tasks)[k];
                let e = find_spec(pre.table->Some_0.entries, t.0);
                &&& e is Some
                &&& #[trigger] reads[k] == (ReadRequest {
                    offset: e->Some_0.offset as u64,
                    size: e->Some_0.size as u64,
                    on_result: t.1,
                })
            },
        post.get_tasks == gets_missing(pre.table->Some_0.entries, pre.get_tasks),
        reads.len() + post.get_tasks.len() == pre.get_tasks.len(),
{
    let entries = pre.table->Some_0.entries;
    lemma_resolved_reads_are_found_gets(entries, pre.get_tasks);
    assert forall|k: int| 0 <= k < reads.len() implies find_spec(
        entries,
        gets_found(entries, pre.get_tasks)[k].0,
    ) is Some by {
        pre.get_tasks.lemma_filter_pred(|t: (u128, u64)| find_spec(entries, t.0) is Some, k);
    }
}

/// The grants of an outcome, as plain values.
pub open spec fn grants_view(grants: Seq<SlotGrant>) -> Seq<(u64, u64, u64, Seq<u8>)> {
    grants.map_values(|g: SlotGrant| (g.to, g.offset, g.header_offset, g.header@))
}

} // verus!
