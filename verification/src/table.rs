//! In-memory cached representation of a daicon table.
use vstd::prelude::*;

use crate::codec::{
    decode_entry, decode_header, decodes_entry, default_header, header_from, native_little,
    spec_signature, TableEntry, TableHeader, ENTRY_SIZE, HEADER_SIZE,
};

verus! {

/// Bookkeeping of one table slot.
#[derive(Clone, Copy, Debug, PartialEq, Eq, Structural)]
pub struct EntryMeta {
    /// The slot holds data that readers may see.
    pub valid: bool,
    /// The slot has been handed out for writing.
    pub allocated: bool,
}

impl EntryMeta {
    /// A slot that is neither valid nor allocated.
    pub fn new() -> (r: EntryMeta)
        ensures
            r == (EntryMeta { valid: false, allocated: false }),
    {
        EntryMeta { valid: false, allocated: false }
    }
}

/// Errors while reading a table from bytes.
#[derive(Clone, Copy, Debug, PartialEq, Eq, Structural)]
pub enum TableError {
    /// The data ended before the header or the entries it announces.
    UnexpectedEnd,
    /// The header claims more valid entries than the table has room for.
    ValidExceedsCapacity,
}

/// In-memory cached representation of a table.
pub struct CachedTable {
    /// Offset of the table in its file.
    pub offset: u64,
    /// The table's entries.
    pub entries: Vec<TableEntry>,
    /// Bookkeeping for each entry, index by index.
    pub entries_meta: Vec<EntryMeta>,
}

/// The contents of a cached table.
pub struct TableView {
    pub offset: u64,
    pub entries: Seq<TableEntry>,
    pub meta: Seq<EntryMeta>,
}

impl View for CachedTable {
    type V = TableView;

    open spec fn view(&self) -> TableView {
        TableView { offset: self.offset, entries: self.entries@, meta: self.entries_meta@ }
    }
}

/// `i` is the first index in `entries` whose identifier is `id`.
pub open spec fn first_with_id(entries: Seq<TableEntry>, id: u128, i: int) -> bool {
    &&& 0 <= i < entries.len()
    &&& entries[i].id == id
    &&& forall|j: int| 0 <= j < i ==> entries[j].id != id
}

/// `i` is the first slot in `meta` that has not been allocated.
pub open spec fn first_unallocated(meta: Seq<EntryMeta>, i: int) -> bool {
    &&& 0 <= i < meta.len()
    &&& !meta[i].allocated
    &&& forall|j: int| 0 <= j < i ==> meta[j].allocated
}

/// Every slot in `meta` has been allocated.
pub open spec fn all_allocated(meta: Seq<EntryMeta>) -> bool {
    forall|j: int| 0 <= j < meta.len() ==> meta[j].allocated
}

/// `k` is the length of the longest run of valid slots at the start of `meta`.
pub open spec fn valid_run(meta: Seq<EntryMeta>, k: int) -> bool {
    &&& 0 <= k <= meta.len()
    &&& forall|j: int| 0 <= j < k ==> meta[j].valid
    &&& (k == meta.len() || !meta[k].valid)
}

/// What `CachedTable::find` gives for `id`: the first entry with that identifier.
pub open spec fn find_spec(entries: Seq<TableEntry>, id: u128) -> Option<TableEntry> {
    if exists|i: int| first_with_id(entries, id, i) {
        Some(entries[choose|i: int| first_with_id(entries, id, i)])
    } else {
        None
    }
}

/// The bookkeeping of a freshly read table: the first `valid` of `capacity` slots are valid
/// and allocated, the others neither.
pub open spec fn initial_meta(capacity: nat, valid: nat) -> Seq<EntryMeta> {
    Seq::new(capacity, |i: int| EntryMeta { valid: i < valid, allocated: i < valid })
}

/// Offset in a file of entry `index` of the table at `offset`.
pub open spec fn spec_entry_offset(offset: u64, index: int) -> int {
    offset + HEADER_SIZE + ENTRY_SIZE * index
}

pub proof fn lemma_first_with_id_unique(entries: Seq<TableEntry>, id: u128, i: int, k: int)
    requires
        first_with_id(entries, id, i),
        first_with_id(entries, id, k),
    ensures
        i == k,
{
}

pub proof fn lemma_first_unallocated_unique(meta: Seq<EntryMeta>, i: int, k: int)
    requires
        first_unallocated(meta, i),
        first_unallocated(meta, k),
    ensures
        i == k,
{
}

pub proof fn lemma_valid_run_unique(meta: Seq<EntryMeta>, i: int, k: int)
    requires
        valid_run(meta, i),
        valid_run(meta, k),
    ensures
        i == k,
{
}

/// Finds the first entry with the identifier `id` in `entries`.
pub fn find_entry(entries: &Vec<TableEntry>, id: u128) -> (r: Option<TableEntry>)
    ensures
        r == find_spec(entries@, id),
        r matches Some(e) ==> e.id == id,
        r is None <==> forall|i: int| 0 <= i < entries@.len() ==> entries@[i].id != id,
{
    let mut i: usize = 0;
    while i < entries.len()
        invariant
            i <= entries@.len(),
            forall|j: int| 0 <= j < i ==> entries@[j].id != id,
        decreases entries@.len() - i,
    {
        if entries[i].id == id {
            proof {
                assert(first_with_id(entries@, id, i as int));
                let k = choose|k: int| first_with_id(entries@, id, k);
                lemma_first_with_id_unique(entries@, id, i as int, k);
            }
            return Some(entries[i]);
        }
        i += 1;
    }
    None
}

/// Allocation never hands out a slot twice: once the first free slot has been allocated, the
/// next allocation finds a later slot.
pub proof fn lemma_allocation_advances(meta: Seq<EntryMeta>, i: int, j: int)
    requires
        first_unallocated(meta, i),
        first_unallocated(meta.update(i, EntryMeta { valid: meta[i].valid, allocated: true }), j),
    ensures
        j > i,
{
    let next = meta.update(i, EntryMeta { valid: meta[i].valid, allocated: true });
    if j < i {
        assert(next[j] == meta[j]);
    }
    assert(next[i].allocated);
}

/// The valid count of a table's header never exceeds its capacity.
pub proof fn lemma_header_valid_within_capacity(t: CachedTable, h: TableHeader)
    requires
        t.wf(),
        h.capacity == t.entries@.len(),
        valid_run(t.entries_meta@, h.valid as int),
    ensures
        h.valid <= h.capacity,
{
}

/// Offset in a file of entry `index` of the table at `offset`: the header comes first, then
/// the entries one after another.
pub fn entry_offset(offset: u64, index: usize) -> (r: u64)
    requires
        spec_entry_offset(offset, index as int) <= u64::MAX,
    ensures
        r == spec_entry_offset(offset, index as int),
{
    offset + HEADER_SIZE as u64 + (ENTRY_SIZE as u64 * index as u64)
}

impl CachedTable {
    /// The table's invariant: one bookkeeping record per entry, no more entries than a header
    /// can count, and the whole table addressable in a file.
    pub open spec fn wf(&self) -> bool {
        &&& self.entries@.len() == self.entries_meta@.len()
        &&& self.entries@.len() <= u16::MAX
        &&& spec_entry_offset(self.offset, self.entries@.len() as int) <= u64::MAX
    }

    /// Builds the cached table of a header and the entries read after it. The first
    /// `header.valid` slots are marked valid and allocated.
    pub fn from_parts(header: TableHeader, entries: Vec<TableEntry>) -> (r: CachedTable)
        requires
            entries@.len() == header.capacity,
            header.valid <= header.capacity,
        ensures
            r.wf(),
            r.offset == 0,
            r.entries@ == entries@,
            r.entries_meta@ == initial_meta(header.capacity as nat, header.valid as nat),
    {
        let len = entries.len();
        let valid = header.valid as usize;
        let mut entries_meta: Vec<EntryMeta> = Vec::new();
        let mut i: usize = 0;
        while i < len
            invariant
                len == entries@.len(),
                valid <= len,
                i <= len,
                entries_meta@.len() == i,
                forall|j: int|
                    0 <= j < i ==> entries_meta@[j] == (EntryMeta {
                        valid: j < valid,
                        allocated: j < valid,
                    }),
            decreases len - i,
        {
            let mut meta = EntryMeta::new();
            if i < valid {
                meta.valid = true;
                meta.allocated = true;
            }
            entries_meta.push(meta);
            i += 1;
        }
        assert(entries_meta@ =~= initial_meta(header.capacity as nat, header.valid as nat));
        CachedTable { offset: 0, entries, entries_meta }
    }

    /// Reads a table from the start of `data`: a header, then as many entries as the header's
    /// capacity.
    pub fn read(data: &[u8]) -> (r: Result<CachedTable, TableError>)
        ensures
            data@.len() < HEADER_SIZE ==> r == Err::<CachedTable, TableError>(TableError::UnexpectedEnd),
            data@.len() >= HEADER_SIZE ==> Self::read_outcome(
                data@,
                header_from(data@, native_little()),
                r,
            ),
    {
        if data.len() < HEADER_SIZE {
            return Err(TableError::UnexpectedEnd);
        }
        let header = decode_header(data);
        let capacity = header.capacity as usize;
        if data.len() - HEADER_SIZE < capacity * ENTRY_SIZE {
            return Err(TableError::UnexpectedEnd);
        }
        if header.valid > header.capacity {
            return Err(TableError::ValidExceedsCapacity);
        }
        let mut entries: Vec<TableEntry> = Vec::new();
        let mut i: usize = 0;
        while i < capacity
            invariant
                capacity == header.capacity,
                data@.len() >= HEADER_SIZE + capacity * ENTRY_SIZE,
                i <= capacity,
                entries@.len() == i,
                forall|j: int|
                    0 <= j < i ==> decodes_entry(
                        #[trigger] Self::entry_bytes_at(data@, j),
                        entries@[j],
                    ),
            decreases capacity - i,
        {
            let start = HEADER_SIZE + i * ENTRY_SIZE;
            let entry = decode_entry(&data[start..data.len()]);
            proof {
                assert(data@.subrange(start as int, data@.len() as int).subrange(0, 24)
                    =~= Self::entry_bytes_at(data@, i as int).subrange(0, 24));
            }
            entries.push(entry);
            i += 1;
        }
        let table = Self::from_parts(header, entries);
        Ok(table)
    }


    /// Finds the first entry with the identifier `id`.
    pub fn find(&self, id: u128) -> (r: Option<TableEntry>)
        ensures
            r == find_spec(self.entries@, id),
            r matches Some(e) ==> e.id == id,
            r is None <==> forall|i: int| 0 <= i < self.entries@.len() ==> self.entries@[i].id != id,
    {
        find_entry(&self.entries, id)
    }

    /// Allocates the first slot that hasn't been allocated yet, and returns its index.
    pub fn try_allocate(&mut self) -> (r: Option<usize>)
        ensures
            old(self).wf() ==> final(self).wf(),
            final(self).offset == old(self).offset,
            final(self).entries@ == old(self).entries@,
            match r {
                Some(i) => {
                    &&& first_unallocated(old(self).entries_meta@, i as int)
                    &&& final(self).entries_meta@ == old(self).entries_meta@.update(
                        i as int,
                        EntryMeta { valid: old(self).entries_meta@[i as int].valid, allocated: true },
                    )
                },
                None => {
                    &&& all_allocated(old(self).entries_meta@)
                    &&& final(self).entries_meta@ == old(self).entries_meta@
                },
            },
    {
        let mut i: usize = 0;
        while i < self.entries_meta.len()
            invariant
                self.offset == old(self).offset,
                self.entries@ == old(self).entries@,
                self.entries_meta@ == old(self).entries_meta@,
                i <= self.entries_meta@.len(),
                forall|j: int| 0 <= j < i ==> self.entries_meta@[j].allocated,
            decreases self.entries_meta@.len() - i,
        {
            if !self.entries_meta[i].allocated {
                let mut meta = self.entries_meta[i];
                meta.allocated = true;
                self.entries_meta.set(i, meta);
                return Some(i);
            }
            i += 1;
        }
        None
    }

    /// Marks that an entry is now available, with the given data.
    pub fn mark_valid(&mut self, index: usize, entry: TableEntry)
        requires
            index < old(self).entries@.len(),
            index < old(self).entries_meta@.len(),
        ensures
            old(self).wf() ==> final(self).wf(),
            final(self).offset == old(self).offset,
            final(self).entries@ == old(self).entries@.update(index as int, entry),
            final(self).entries_meta@ == old(self).entries_meta@.update(
                index as int,
                EntryMeta { valid: true, allocated: old(self).entries_meta@[index as int].allocated },
            ),
    {
        self.entries.set(index, entry);
        let mut meta = self.entries_meta[index];
        meta.valid = true;
        self.entries_meta.set(index, meta);
    }

    /// The header that describes this table: its capacity is the number of entries, and the
    /// valid count is the number of valid slots before the first one that isn't.
    pub fn create_header(&self) -> (r: TableHeader)
        requires
            Self::valid_count_fits(self.entries_meta@),
        ensures
            r.signature == spec_signature(),
            r.capacity == self.entries@.len() as u16,
            valid_run(self.entries_meta@, r.valid as int),
            r.next == 0,
    {
        let mut valid: u16 = 0;
        let mut i: usize = 0;
        while i < self.entries_meta.len()
            invariant
                Self::valid_count_fits(self.entries_meta@),
                i <= self.entries_meta@.len(),
                valid == i,
                forall|j: int| 0 <= j < i ==> self.entries_meta@[j].valid,
            ensures
                i <= self.entries_meta@.len(),
                valid == i,
                forall|j: int| 0 <= j < i ==> self.entries_meta@[j].valid,
                i == self.entries_meta@.len() || !self.entries_meta@[i as int].valid,
            decreases self.entries_meta@.len() - i,
        {
            if !self.entries_meta[i].valid {
                break;
            }
            valid += 1;
            i += 1;
        }
        let mut header = default_header();
        header.capacity = self.entries.len() as u16;
        header.valid = valid;
        header
    }

    /// The valid slots at the start of `meta` can be counted in a `u16`: there are no more than
    /// `u16::MAX` slots, or one of the first `u16::MAX + 1` is not valid.
    pub open spec fn valid_count_fits(meta: Seq<EntryMeta>) -> bool {
        meta.len() <= u16::MAX || exists|j: int| 0 <= j <= u16::MAX && !meta[j].valid
    }

    /// The bytes from the start of entry `j` to the end of `data`.
    pub open spec fn entry_bytes_at(data: Seq<u8>, j: int) -> Seq<u8> {
        data.subrange(HEADER_SIZE + j * ENTRY_SIZE, data.len() as int)
    }

    /// What `read` gives for `data` once its header has decoded to `h`.
    pub open spec fn read_outcome(
        data: Seq<u8>,
        h: TableHeader,
        r: Result<CachedTable, TableError>,
    ) -> bool {
        match read_error(data, h) {
            Some(e) => r == Err::<CachedTable, TableError>(e),
            None => r is Ok && r->Ok_0.wf() && table_from_bytes(data, h, r->Ok_0@),
        }
    }
}

/// Why reading a table from `data`, whose header decoded to `h`, fails, if it does.
pub open spec fn read_error(data: Seq<u8>, h: TableHeader) -> Option<TableError> {
    if data.len() < HEADER_SIZE + h.capacity * ENTRY_SIZE {
        Some(TableError::UnexpectedEnd)
    } else if h.valid > h.capacity {
        Some(TableError::ValidExceedsCapacity)
    } else {
        None
    }
}

/// `t` is the table read from `data`, whose header decoded to `h`: at offset zero, with one
/// entry per slot of the header's capacity decoded from the bytes after the header, and the
/// header's valid slots marked valid and allocated.
pub open spec fn table_from_bytes(data: Seq<u8>, h: TableHeader, t: TableView) -> bool {
    &&& t.offset == 0
    &&& t.entries.len() == h.capacity
    &&& forall|j: int|
        0 <= j < h.capacity ==> decodes_entry(
            #[trigger] CachedTable::entry_bytes_at(data, j),
            t.entries[j],
        )
    &&& t.meta == initial_meta(h.capacity as nat, h.valid as nat)
}

} // verus!
