use pterodactil::codec::{TableEntry, TableHeader};
use pterodactil::table::{entry_offset, CachedTable, EntryMeta, TableError};

const SIGNATURE: u32 = 0x306364FF;

fn header_bytes(capacity: u16, valid: u16, next: u64) -> Vec<u8> {
    let mut b = Vec::new();
    b.extend_from_slice(&SIGNATURE.to_ne_bytes());
    b.extend_from_slice(&capacity.to_ne_bytes());
    b.extend_from_slice(&valid.to_ne_bytes());
    b.extend_from_slice(&next.to_ne_bytes());
    b
}

fn entry_bytes(id: u128, offset: u32, size: u32) -> Vec<u8> {
    let be = id.to_be_bytes();
    let mut b = vec![be[3], be[2], be[1], be[0], be[5], be[4], be[7], be[6]];
    b.extend_from_slice(&be[8..16]);
    b.extend_from_slice(&offset.to_ne_bytes());
    b.extend_from_slice(&size.to_ne_bytes());
    b
}

fn table(entries: Vec<TableEntry>, meta: Vec<EntryMeta>) -> CachedTable {
    CachedTable { offset: 0, entries, entries_meta: meta }
}

fn meta(valid: bool, allocated: bool) -> EntryMeta {
    EntryMeta { valid, allocated }
}

fn entry(id: u128, offset: u32, size: u32) -> TableEntry {
    TableEntry { id, offset, size }
}

#[test]
fn entry_offset_skips_header_and_earlier_entries() {
    assert_eq!(entry_offset(0, 0), 16);
    assert_eq!(entry_offset(0, 2), 64);
    assert_eq!(entry_offset(100, 1), 140);
}

#[test]
fn read_short_header_is_unexpected_end() {
    let data = vec![0u8; 15];
    assert_eq!(CachedTable::read(&data).err(), Some(TableError::UnexpectedEnd));
}

#[test]
fn read_short_entries_is_unexpected_end() {
    let mut data = header_bytes(2, 0, 0);
    data.extend(entry_bytes(1, 2, 3));
    assert_eq!(CachedTable::read(&data).err(), Some(TableError::UnexpectedEnd));
}

#[test]
fn read_valid_above_capacity_is_refused() {
    let mut data = header_bytes(1, 2, 0);
    data.extend(entry_bytes(1, 2, 3));
    assert_eq!(CachedTable::read(&data).err(), Some(TableError::ValidExceedsCapacity));
}

#[test]
fn read_decodes_header_and_entries() {
    let id_a: u128 = 0x37cb72a4_caab_440c_8b7c_869019ed348e;
    let id_b: u128 = 0xc18af4e8_fced_4890_b18c_547fcc7df67b;
    let mut data = header_bytes(3, 2, 0);
    data.extend(entry_bytes(id_a, 1000, 20));
    data.extend(entry_bytes(id_b, 1020, 7));
    data.extend(entry_bytes(0, 0, 0));
    data.extend(vec![0xAAu8; 10]);
    let t = CachedTable::read(&data).ok().unwrap();
    assert_eq!(t.offset, 0);
    assert_eq!(t.entries, vec![entry(id_a, 1000, 20), entry(id_b, 1020, 7), entry(0, 0, 0)]);
    assert_eq!(t.entries_meta, vec![meta(true, true), meta(true, true), meta(false, false)]);
    assert_eq!(t.find(id_b), Some(entry(id_b, 1020, 7)));
}

#[test]
fn read_empty_table() {
    let data = header_bytes(0, 0, 0);
    let t = CachedTable::read(&data).ok().unwrap();
    assert!(t.entries.is_empty());
    assert!(t.entries_meta.is_empty());
}

#[test]
fn find_gives_first_match() {
    let t = table(
        vec![entry(5, 1, 1), entry(7, 2, 2), entry(7, 3, 3)],
        vec![meta(true, true); 3],
    );
    assert_eq!(t.find(7), Some(entry(7, 2, 2)));
    assert_eq!(t.find(5), Some(entry(5, 1, 1)));
    assert_eq!(t.find(9), None);
}

#[test]
fn try_allocate_takes_first_free_slot() {
    let mut t = table(
        vec![entry(0, 0, 0); 4],
        vec![meta(true, true), meta(false, false), meta(true, false), meta(false, false)],
    );
    assert_eq!(t.try_allocate(), Some(1));
    assert_eq!(t.entries_meta[1], meta(false, true));
    assert_eq!(t.try_allocate(), Some(2));
    assert_eq!(t.entries_meta[2], meta(true, true));
    assert_eq!(t.try_allocate(), Some(3));
    assert_eq!(t.try_allocate(), None);
    assert_eq!(t.entries_meta, vec![meta(true, true), meta(false, true), meta(true, true), meta(false, true)]);
}

#[test]
fn allocations_never_repeat_a_slot() {
    let mut t = table(vec![entry(0, 0, 0); 3], vec![meta(false, false); 3]);
    let a = t.try_allocate().unwrap();
    let b = t.try_allocate().unwrap();
    let c = t.try_allocate().unwrap();
    assert!(a < b && b < c);
    assert_eq!(t.try_allocate(), None);
}

#[test]
fn mark_valid_stores_entry() {
    let mut t = table(vec![entry(0, 0, 0); 2], vec![meta(false, true), meta(false, false)]);
    t.mark_valid(1, entry(9, 8, 7));
    assert_eq!(t.entries[1], entry(9, 8, 7));
    assert_eq!(t.entries_meta[1], meta(true, false));
    assert_eq!(t.entries_meta[0], meta(false, true));
}

#[test]
fn create_header_counts_leading_valid_slots() {
    let t = table(
        vec![entry(0, 0, 0); 4],
        vec![meta(true, true), meta(true, true), meta(false, true), meta(true, true)],
    );
    let h = t.create_header();
    assert_eq!(h, TableHeader { signature: SIGNATURE, capacity: 4, valid: 2, next: 0 });
    let all = table(vec![entry(0, 0, 0); 2], vec![meta(true, true); 2]);
    assert_eq!(all.create_header().valid, 2);
    let none = table(vec![], vec![]);
    assert_eq!(none.create_header(), TableHeader { signature: SIGNATURE, capacity: 0, valid: 0, next: 0 });
}

