//! Creating an empty daicon package: a table header, followed by room for a fixed number of
//! entries, all zeroed.
use vstd::prelude::*;
use vstd::arithmetic::power::{lemma_pow_positive, pow};
use vstd::arithmetic::div_mod::lemma_div_of0;

use crate::codec::{
    byte_at, decodes_entry, decodes_header, default_header, encode_entry, encode_header,
    encodes_entry, encodes_header, entry_bytes, lemma_header_roundtrip, native_little,
    spec_signature, uint_bytes, uint_le, uint_value, uuid_swap, TableEntry, TableHeader, ENTRY_SIZE, HEADER_SIZE,
};
use crate::table::{read_error, CachedTable};

verus! {

/// Number of entry slots in the table of a new package.
pub const PACKAGE_CAPACITY: u16 = 256;

/// The header of a new package: the daicon signature, room for `PACKAGE_CAPACITY` entries,
/// none of them valid, and no next table.
pub open spec fn package_header() -> TableHeader {
    TableHeader { signature: spec_signature(), capacity: PACKAGE_CAPACITY, valid: 0, next: 0 }
}

/// Every byte of zero is zero.
proof fn lemma_zero_bytes(n: nat, little: bool)
    ensures
        uint_bytes(0, n, little) == Seq::new(n, |i: int| 0u8),
{
    assert forall|i: int| 0 <= i < n implies #[trigger] uint_le(0, n)[i] == 0u8 by {
        lemma_pow_positive(256, i as nat);
        lemma_div_of0(pow(256, i as nat));
        assert(byte_at(0, i as nat) == 0u8);
    }
    assert(uint_le(0, n) =~= Seq::new(n, |i: int| 0u8));
    assert(uint_le(0, n).reverse() =~= Seq::new(n, |i: int| 0u8));
}

/// The zeroed entry encodes to zeros, whatever the byte order.
pub proof fn lemma_zeroed_entry_bytes(little: bool)
    ensures
        entry_bytes(TableEntry { id: 0, offset: 0, size: 0 }, little) == Seq::new(24, |i: int| 0u8),
{
    lemma_zero_bytes(16, false);
    lemma_zero_bytes(4, little);
    assert(entry_bytes(TableEntry { id: 0, offset: 0, size: 0 }, little) =~= Seq::new(24, |i: int| 0u8));
}

/// Zero bytes read as zero, in either byte order.
proof fn lemma_zeros_value(s: Seq<u8>, little: bool)
    requires
        forall|i: int| 0 <= i < s.len() ==> s[i] == 0u8,
    ensures
        uint_value(s, little) == 0,
    decreases s.len(),
{
    if s.len() > 0 {
        lemma_zeros_value(s.drop_first(), little);
        lemma_zeros_value(s.drop_last(), little);
    }
}

/// A new package reads back as an empty table: its header reads as the package header, the
/// read succeeds, and every one of its entries reads as the zeroed entry.
pub proof fn lemma_new_package_reads_empty(bytes: Seq<u8>, j: int)
    requires
        bytes.len() == HEADER_SIZE + PACKAGE_CAPACITY * ENTRY_SIZE,
        encodes_header(bytes.subrange(0, HEADER_SIZE as int), package_header()),
        forall|i: int| HEADER_SIZE <= i < bytes.len() ==> bytes[i] == 0u8,
        0 <= j < PACKAGE_CAPACITY,
    ensures
        decodes_header(bytes, package_header()),
        read_error(bytes, package_header()) is None,
        decodes_entry(CachedTable::entry_bytes_at(bytes, j), TableEntry { id: 0, offset: 0, size: 0 }),
{
    let little = native_little();
    lemma_header_roundtrip(package_header(), little);
    let hb = bytes.subrange(0, HEADER_SIZE as int);
    assert(bytes.subrange(0, 4) =~= hb.subrange(0, 4));
    assert(bytes.subrange(4, 6) =~= hb.subrange(4, 6));
    assert(bytes.subrange(6, 8) =~= hb.subrange(6, 8));
    assert(bytes.subrange(8, 16) =~= hb.subrange(8, 16));
    let eb = CachedTable::entry_bytes_at(bytes, j);
    assert(eb.len() >= 24);
    assert forall|i: int| 0 <= i < eb.len() implies eb[i] == 0u8 by {
        assert(eb[i] == bytes[HEADER_SIZE + j * ENTRY_SIZE + i]);
    }
    lemma_zeros_value(uuid_swap(eb.subrange(0, 16)), false);
    lemma_zeros_value(eb.subrange(16, 20), little);
    lemma_zeros_value(eb.subrange(20, 24), little);
}

/// The contents of a new package file: the table header, then `PACKAGE_CAPACITY` zeroed
/// entries.
pub fn create_package() -> (r: Vec<u8>)
    ensures
        r@.len() == HEADER_SIZE + PACKAGE_CAPACITY * ENTRY_SIZE,
        encodes_header(r@.subrange(0, HEADER_SIZE as int), package_header()),
        forall|i: int| HEADER_SIZE <= i < r@.len() ==> r@[i] == 0u8,
        forall|j: int|
            0 <= j < PACKAGE_CAPACITY ==> encodes_entry(
                #[trigger] r@.subrange(HEADER_SIZE + j * ENTRY_SIZE, HEADER_SIZE + (j + 1) * ENTRY_SIZE),
                TableEntry { id: 0, offset: 0, size: 0 },
            ),
{
    let mut header = default_header();
    header.capacity = PACKAGE_CAPACITY;
    let mut bytes = encode_header(&header);
    let ghost header_part = bytes@;
    let entry = TableEntry::zeroed();
    let mut n: usize = 0;
    while n < PACKAGE_CAPACITY as usize
        invariant
            n <= PACKAGE_CAPACITY,
            entry == (TableEntry { id: 0, offset: 0, size: 0 }),
            header_part.len() == HEADER_SIZE,
            bytes@.len() == HEADER_SIZE + n * ENTRY_SIZE,
            bytes@.subrange(0, HEADER_SIZE as int) == header_part,
            forall|i: int| HEADER_SIZE <= i < bytes@.len() ==> bytes@[i] == 0u8,
        decreases PACKAGE_CAPACITY - n,
    {
        let encoded = encode_entry(&entry);
        proof {
            lemma_zeroed_entry_bytes(native_little());
        }
        let mut k: usize = 0;
        let ghost start = bytes@.len();
        while k < encoded.len()
            invariant
                encoded@ == Seq::new(24, |i: int| 0u8),
                k <= encoded@.len(),
                start == HEADER_SIZE + n * ENTRY_SIZE,
                bytes@.len() == start + k,
                bytes@.subrange(0, HEADER_SIZE as int) == header_part,
                forall|i: int| HEADER_SIZE <= i < bytes@.len() ==> bytes@[i] == 0u8,
            decreases encoded@.len() - k,
        {
            bytes.push(encoded[k]);
            proof {
                assert(bytes@.subrange(0, HEADER_SIZE as int) =~= header_part);
            }
            k += 1;
        }
        n += 1;
    }
    proof {
        lemma_zeroed_entry_bytes(native_little());
        assert forall|j: int| 0 <= j < PACKAGE_CAPACITY implies encodes_entry(
            #[trigger] bytes@.subrange(HEADER_SIZE + j * ENTRY_SIZE, HEADER_SIZE + (j + 1) * ENTRY_SIZE),
            TableEntry { id: 0, offset: 0, size: 0 },
        ) by {
            assert(HEADER_SIZE + (j + 1) * ENTRY_SIZE <= bytes@.len()) by (nonlinear_arith)
                requires 0 <= j < PACKAGE_CAPACITY, bytes@.len() == HEADER_SIZE + PACKAGE_CAPACITY * ENTRY_SIZE;
            assert(bytes@.subrange(HEADER_SIZE + j * ENTRY_SIZE, HEADER_SIZE + (j + 1) * ENTRY_SIZE)
                =~= Seq::new(24, |i: int| 0u8));
        }
    }
    bytes
}

} // verus!
