//! Plain-value views of the daicon 0.8 table types, and their byte encodings.
//!
//! The encodings themselves are computed by the `daicon` and `bytemuck` crates: a
//! `daicon::Header` or `daicon::Entry` is filled through its setters and its memory is taken
//! as bytes. `bytemuck` copies every integer field in the byte order of the machine, which
//! vstd names `endianness()`; the contracts here state the layout in that byte order.
use vstd::prelude::*;
use vstd::endian::{endianness, Endian};
use vstd::arithmetic::div_mod::{lemma_div_denominator, lemma_mod_breakdown, lemma_small_mod};
use vstd::arithmetic::power::{lemma_pow_positive, pow};

verus! {

/// Size in bytes of an encoded table header.
pub const HEADER_SIZE: usize = 16;

/// Size in bytes of an encoded table entry.
pub const ENTRY_SIZE: usize = 24;

/// The signature that marks a daicon table header, 0xFF followed by ASCII "dc0".
pub open spec fn spec_signature() -> u32 {
    0x306364FFu32
}

/// A daicon table header, as plain values.
#[derive(Clone, Copy, Debug, PartialEq, Eq, Structural)]
pub struct TableHeader {
    /// Magic signature of the table.
    pub signature: u32,
    /// Amount of entries of allocated space available in the table.
    pub capacity: u16,
    /// Amount of entries, from the start, that contain valid data.
    pub valid: u16,
    /// Offset of the next table, zero where there is none.
    pub next: u64,
}

/// A daicon table entry, as plain values.
///
/// The identifier is the entry's UUID, as the `u128` that `Uuid::as_u128` gives.
#[derive(Clone, Copy, Debug, PartialEq, Eq, Structural)]
pub struct TableEntry {
    /// UUID of the entry.
    pub id: u128,
    /// Offset of the entry's data.
    pub offset: u32,
    /// Size of the entry's data in bytes.
    pub size: u32,
}

impl TableEntry {
    /// The all-zero entry, as `daicon::Entry::default()` and `Entry::zeroed()` give it.
    pub fn zeroed() -> (r: TableEntry)
        ensures
            r == (TableEntry { id: 0, offset: 0, size: 0 }),
    {
        TableEntry { id: 0, offset: 0, size: 0 }
    }
}

/// Byte `k` (counting from the least significant) of the non-negative integer `v`.
pub open spec fn byte_at(v: int, k: nat) -> u8 {
    ((v / pow(256, k)) % 256) as u8
}

/// The `n` least significant bytes of `v`, least significant first.
pub open spec fn uint_le(v: int, n: nat) -> Seq<u8> {
    Seq::new(n, |i: int| byte_at(v, i as nat))
}

/// The `n` least significant bytes of `v`, in little-endian order or in big-endian order.
pub open spec fn uint_bytes(v: int, n: nat, little: bool) -> Seq<u8> {
    if little {
        uint_le(v, n)
    } else {
        uint_le(v, n).reverse()
    }
}

/// The unsigned integer that the bytes `s` encode, in little- or big-endian order.
pub open spec fn uint_value(s: Seq<u8>, little: bool) -> nat
    decreases s.len(),
{
    if s.len() == 0 {
        0
    } else if little {
        s[0] as nat + 256 * uint_value(s.drop_first(), little)
    } else {
        s.last() as nat + 256 * uint_value(s.drop_last(), little)
    }
}

/// Reorders the 16 bytes of a UUID between its big-endian form and the mixed-endian form that
/// `Uuid::to_bytes_le` and `Uuid::from_bytes_le` use: the first three fields are reversed.
pub open spec fn uuid_swap(b: Seq<u8>) -> Seq<u8> {
    seq![b[3], b[2], b[1], b[0], b[5], b[4], b[7], b[6]] + b.subrange(8, 16)
}

/// The 16 bytes that a daicon entry stores for the UUID `id`.
pub open spec fn id_field(id: u128) -> Seq<u8> {
    uuid_swap(uint_bytes(id as int, 16, false))
}

/// The bytes of an encoded header, with its integers in the given byte order.
pub open spec fn header_bytes(h: TableHeader, little: bool) -> Seq<u8> {
    uint_bytes(h.signature as int, 4, little) + uint_bytes(h.capacity as int, 2, little)
        + uint_bytes(h.valid as int, 2, little) + uint_bytes(h.next as int, 8, little)
}

/// The bytes of an encoded entry, with its integers in the given byte order.
pub open spec fn entry_bytes(e: TableEntry, little: bool) -> Seq<u8> {
    id_field(e.id) + uint_bytes(e.offset as int, 4, little) + uint_bytes(e.size as int, 4, little)
}

/// The header that the first 16 bytes of `b` encode, read in the given byte order.
pub open spec fn header_from(b: Seq<u8>, little: bool) -> TableHeader {
    TableHeader {
        signature: uint_value(b.subrange(0, 4), little) as u32,
        capacity: uint_value(b.subrange(4, 6), little) as u16,
        valid: uint_value(b.subrange(6, 8), little) as u16,
        next: uint_value(b.subrange(8, 16), little) as u64,
    }
}

/// The entry that the first 24 bytes of `b` encode, read in the given byte order.
pub open spec fn entry_from(b: Seq<u8>, little: bool) -> TableEntry {
    TableEntry {
        id: uint_value(uuid_swap(b.subrange(0, 16)), false) as u128,
        offset: uint_value(b.subrange(16, 20), little) as u32,
        size: uint_value(b.subrange(20, 24), little) as u32,
    }
}

/// The machine's byte order is little-endian.
pub open spec fn native_little() -> bool {
    endianness() == Endian::Little
}

/// `bytes` is the encoding of `h` in the machine's byte order.
pub open spec fn encodes_header(bytes: Seq<u8>, h: TableHeader) -> bool {
    bytes == header_bytes(h, native_little())
}

/// `bytes` is the encoding of `e` in the machine's byte order.
pub open spec fn encodes_entry(bytes: Seq<u8>, e: TableEntry) -> bool {
    bytes == entry_bytes(e, native_little())
}

/// `h` is what the first 16 bytes of `bytes` decode to, in the machine's byte order.
pub open spec fn decodes_header(bytes: Seq<u8>, h: TableHeader) -> bool {
    h == header_from(bytes, native_little())
}

/// `e` is what the first 24 bytes of `bytes` decode to, in the machine's byte order.
pub open spec fn decodes_entry(bytes: Seq<u8>, e: TableEntry) -> bool {
    e == entry_from(bytes, native_little())
}

/// Reading the little-endian bytes of `v` back gives `v` modulo 256 to the power `n`.
proof fn lemma_uint_le_value(v: int, n: nat)
    requires
        v >= 0,
    ensures
        uint_value(uint_le(v, n), true) == v % pow(256, n),
    decreases n,
{
    reveal(pow);
    lemma_pow_positive(256, n);
    if n == 0 {
        assert(v % 1 == 0) by (nonlinear_arith);
    } else {
        let s = uint_le(v, n);
        let m = (n - 1) as nat;
        lemma_pow_positive(256, m);
        assert forall|i: int| 0 <= i < m implies #[trigger] s.drop_first()[i] == uint_le(v / 256, m)[i] by {
            lemma_pow_positive(256, i as nat);
            assert(pow(256, (i + 1) as nat) == 256 * pow(256, i as nat));
            lemma_div_denominator(v, 256, pow(256, i as nat));
        }
        assert(s.drop_first() =~= uint_le(v / 256, m));
        lemma_uint_le_value(v / 256, m);
        assert(pow(256, 0) == 1);
        assert(v / 1 == v) by (nonlinear_arith);
        assert(s[0] as int == v % 256);
        lemma_mod_breakdown(v, 256, pow(256, m));
        assert(pow(256, n) == 256 * pow(256, m));
    }
}

/// Reading reversed bytes in big-endian order is reading the bytes in little-endian order.
proof fn lemma_uint_value_reverse(s: Seq<u8>)
    ensures
        uint_value(s.reverse(), false) == uint_value(s, true),
    decreases s.len(),
{
    if s.len() > 0 {
        assert(s.reverse().last() == s[0]);
        assert(s.reverse().drop_last() =~= s.drop_first().reverse());
        lemma_uint_value_reverse(s.drop_first());
    }
}

/// Reading the `n` bytes of `v` back in the byte order they were written in gives `v`, for
/// every `v` that fits in `n` bytes.
pub proof fn lemma_uint_roundtrip(v: int, n: nat, little: bool)
    requires
        0 <= v < pow(256, n),
    ensures
        uint_bytes(v, n, little).len() == n,
        uint_value(uint_bytes(v, n, little), little) == v,
{
    lemma_uint_le_value(v, n);
    if !little {
        lemma_uint_value_reverse(uint_le(v, n));
    }
    lemma_small_mod(v as nat, pow(256, n) as nat);
}

proof fn lemma_pow_values()
    ensures
        pow(256, 2) == 0x1_0000,
        pow(256, 4) == 0x1_0000_0000,
        pow(256, 8) == 0x1_0000_0000_0000_0000,
        pow(256, 16) == 0x1_0000_0000_0000_0000_0000_0000_0000_0000,
{
    reveal_with_fuel(pow, 17);
}

/// Decoding a header's encoding in the byte order it was encoded in gives the header back.
pub proof fn lemma_header_roundtrip(h: TableHeader, little: bool)
    ensures
        header_bytes(h, little).len() == HEADER_SIZE,
        header_from(header_bytes(h, little), little) == h,
{
    lemma_pow_values();
    lemma_uint_roundtrip(h.signature as int, 4, little);
    lemma_uint_roundtrip(h.capacity as int, 2, little);
    lemma_uint_roundtrip(h.valid as int, 2, little);
    lemma_uint_roundtrip(h.next as int, 8, little);
    let b = header_bytes(h, little);
    assert(b.subrange(0, 4) =~= uint_bytes(h.signature as int, 4, little));
    assert(b.subrange(4, 6) =~= uint_bytes(h.capacity as int, 2, little));
    assert(b.subrange(6, 8) =~= uint_bytes(h.valid as int, 2, little));
    assert(b.subrange(8, 16) =~= uint_bytes(h.next as int, 8, little));
}

/// Decoding an entry's encoding in the byte order it was encoded in gives the entry back.
pub proof fn lemma_entry_roundtrip(e: TableEntry, little: bool)
    ensures
        entry_bytes(e, little).len() == ENTRY_SIZE,
        entry_from(entry_bytes(e, little), little) == e,
{
    lemma_pow_values();
    lemma_uint_roundtrip(e.id as int, 16, false);
    lemma_uint_roundtrip(e.offset as int, 4, little);
    lemma_uint_roundtrip(e.size as int, 4, little);
    let b = entry_bytes(e, little);
    let idb = uint_bytes(e.id as int, 16, false);
    assert(b.subrange(0, 16) =~= uuid_swap(idb));
    assert(uuid_swap(uuid_swap(idb)) =~= idb);
    assert(b.subrange(16, 20) =~= uint_bytes(e.offset as int, 4, little));
    assert(b.subrange(20, 24) =~= uint_bytes(e.size as int, 4, little));
}

/// Bytes read as an unsigned integer give a value below 256 to the power of their count.
proof fn lemma_uint_value_bound(s: Seq<u8>, little: bool)
    ensures
        uint_value(s, little) < pow(256, s.len()),
    decreases s.len(),
{
    reveal(pow);
    if s.len() > 0 {
        let rest = if little { s.drop_first() } else { s.drop_last() };
        lemma_uint_value_bound(rest, little);
        let v = uint_value(rest, little);
        let p = pow(256, rest.len());
        assert(v + 1 <= p);
        assert(255 + 256 * v < 256 * p) by (nonlinear_arith)
            requires v + 1 <= p;
    }
}

/// Writing out the little-endian value of `s` in as many bytes as `s` has gives `s` back.
proof fn lemma_uint_le_of_value(s: Seq<u8>)
    ensures
        uint_le(uint_value(s, true) as int, s.len()) == s,
    decreases s.len(),
{
    if s.len() > 0 {
        let rest = s.drop_first();
        let v = uint_value(s, true) as int;
        let w = uint_value(rest, true) as int;
        lemma_uint_le_of_value(rest);
        assert(v == s[0] as int + 256 * w);
        let u = uint_le(v, s.len());
        assert(u[0] == s[0]) by {
            reveal(pow);
            assert(pow(256, 0) == 1);
            assert(v / 1 == v) by (nonlinear_arith);
            assert((s[0] as int + 256 * w) % 256 == s[0] as int) by (nonlinear_arith)
                requires 0 <= s[0] < 256, w >= 0;
        }
        assert forall|i: int| 1 <= i < s.len() implies #[trigger] u[i] == s[i] by {
            reveal(pow);
            lemma_pow_positive(256, (i - 1) as nat);
            assert(pow(256, i as nat) == 256 * pow(256, (i - 1) as nat));
            lemma_div_denominator(v, 256, pow(256, (i - 1) as nat));
            assert(v / 256 == w) by (nonlinear_arith)
                requires v == s[0] as int + 256 * w, 0 <= s[0] < 256;
            assert(uint_le(w, rest.len())[i - 1] == rest[i - 1]);
        }
        assert(u =~= s);
    }
}

/// Writing out the value of `s`, read in a byte order, in that byte order and in as many
/// bytes as `s` has, gives `s` back.
pub proof fn lemma_uint_bytes_of_value(s: Seq<u8>, little: bool)
    ensures
        uint_bytes(uint_value(s, little) as int, s.len(), little) == s,
{
    if little {
        lemma_uint_le_of_value(s);
    } else {
        lemma_uint_value_reverse(s.reverse());
        assert(s.reverse().reverse() =~= s);
        lemma_uint_le_of_value(s.reverse());
    }
}

/// Decoding what a header was encoded to, in the machine's byte order, gives the header back.
pub proof fn lemma_decode_encoded_header(bytes: Seq<u8>, h: TableHeader)
    requires
        encodes_header(bytes, h),
    ensures
        bytes.len() == HEADER_SIZE,
        decodes_header(bytes, h),
{
    lemma_header_roundtrip(h, native_little());
}

/// Decoding what an entry was encoded to, in the machine's byte order, gives the entry back.
pub proof fn lemma_decode_encoded_entry(bytes: Seq<u8>, e: TableEntry)
    requires
        encodes_entry(bytes, e),
    ensures
        bytes.len() == ENTRY_SIZE,
        decodes_entry(bytes, e),
{
    lemma_entry_roundtrip(e, native_little());
}

/// Encoding the header that bytes decode to gives back the first 16 of those bytes.
pub proof fn lemma_encode_decoded_header(bytes: Seq<u8>, h: TableHeader)
    requires
        bytes.len() >= HEADER_SIZE,
        decodes_header(bytes, h),
    ensures
        encodes_header(bytes.subrange(0, HEADER_SIZE as int), h),
{
    let little = native_little();
    lemma_pow_values();
    let (a, b, c, d) = (bytes.subrange(0, 4), bytes.subrange(4, 6), bytes.subrange(6, 8), bytes.subrange(8, 16));
    lemma_uint_value_bound(a, little);
    lemma_uint_value_bound(b, little);
    lemma_uint_value_bound(c, little);
    lemma_uint_value_bound(d, little);
    lemma_uint_bytes_of_value(a, little);
    lemma_uint_bytes_of_value(b, little);
    lemma_uint_bytes_of_value(c, little);
    lemma_uint_bytes_of_value(d, little);
    assert(bytes.subrange(0, HEADER_SIZE as int) =~= a + b + c + d);
}

/// Encoding the entry that bytes decode to gives back the first 24 of those bytes.
pub proof fn lemma_encode_decoded_entry(bytes: Seq<u8>, e: TableEntry)
    requires
        bytes.len() >= ENTRY_SIZE,
        decodes_entry(bytes, e),
    ensures
        encodes_entry(bytes.subrange(0, ENTRY_SIZE as int), e),
{
    let little = native_little();
    lemma_pow_values();
    let (a, b, c) = (bytes.subrange(0, 16), bytes.subrange(16, 20), bytes.subrange(20, 24));
    let sa = uuid_swap(a);
    assert(sa.len() == 16);
    lemma_uint_value_bound(sa, false);
    lemma_uint_value_bound(b, little);
    lemma_uint_value_bound(c, little);
    lemma_uint_bytes_of_value(sa, false);
    lemma_uint_bytes_of_value(b, little);
    lemma_uint_bytes_of_value(c, little);
    assert(uuid_swap(sa) =~= a);
    assert(bytes.subrange(0, ENTRY_SIZE as int) =~= a + b + c);
}

/// The header that `daicon::Header::default()` gives: the daicon signature, and zero in every
/// other field (daicon 0.8 source, `impl Default for Header`).
#[verifier::external_body]
pub(crate) fn default_header() -> (r: TableHeader)
    ensures
        r == (TableHeader { signature: spec_signature(), capacity: 0, valid: 0, next: 0 }),
{
    let h = daicon::Header::default();
    TableHeader {
        signature: h.signature(),
        capacity: h.capacity(),
        valid: h.valid(),
        next: h.next().map_or(0, core::num::NonZeroU64::get),
    }
}

/// The constant `daicon::SIGNATURE`, which daicon 0.8 defines as `0x306364FF`.
#[verifier::external_body]
pub(crate) fn signature() -> (r: u32)
    ensures
        r == spec_signature(),
{
    daicon::SIGNATURE
}

/// Encodes `h` by filling a `daicon::Header` through its setters and taking its memory with
/// `bytemuck::bytes_of`. The header is `repr(C)` with fields signature (u32), capacity (u16),
/// valid (u16) and next (u64), so its 16 bytes are these fields in order, each in the machine's
/// byte order.
#[verifier::external_body]
pub(crate) fn encode_header(h: &TableHeader) -> (r: Vec<u8>)
    ensures
        encodes_header(r@, *h),
{
    let mut header = daicon::Header::default();
    header.set_signature(h.signature);
    header.set_capacity(h.capacity);
    header.set_valid(h.valid);
    header.set_next(core::num::NonZeroU64::new(h.next));
    bytemuck::bytes_of(&header).to_vec()
}

/// Decodes the first 16 bytes of `bytes` as a `daicon::Header` with
/// `bytemuck::pod_read_unaligned`, and reads its fields through its getters. As for
/// `encode_header`, the fields are read in the machine's byte order.
#[verifier::external_body]
pub(crate) fn decode_header(bytes: &[u8]) -> (r: TableHeader)
    requires
        bytes@.len() >= 16,
    ensures
        decodes_header(bytes@, r),
{
    let h: daicon::Header = bytemuck::pod_read_unaligned(&bytes[0..16]);
    TableHeader {
        signature: h.signature(),
        capacity: h.capacity(),
        valid: h.valid(),
        next: h.next().map_or(0, core::num::NonZeroU64::get),
    }
}

/// Encodes `e` by filling a `daicon::Entry` through its setters (the identifier through
/// `Uuid::from_u128`, which `set_id` stores as `Uuid::to_bytes_le`) and taking its memory with
/// `bytemuck::bytes_of`. The entry is `repr(C)` with fields id ([u8; 16]), offset (u32) and
/// size (u32); the two integers are in the machine's byte order.
#[verifier::external_body]
pub(crate) fn encode_entry(e: &TableEntry) -> (r: Vec<u8>)
    ensures
        encodes_entry(r@, *e),
{
    let mut entry = daicon::Entry::default();
    entry.set_id(uuid::Uuid::from_u128(e.id));
    entry.set_offset(e.offset);
    entry.set_size(e.size);
    bytemuck::bytes_of(&entry).to_vec()
}

/// Decodes the first 24 bytes of `bytes` as a `daicon::Entry` with
/// `bytemuck::pod_read_unaligned`, and reads its fields through its getters (the identifier as
/// `Uuid::from_bytes_le` of the stored bytes, then `Uuid::as_u128`). The two integers are read
/// in the machine's byte order.
#[verifier::external_body]
pub(crate) fn decode_entry(bytes: &[u8]) -> (r: TableEntry)
    requires
        bytes@.len() >= 24,
    ensures
        decodes_entry(bytes@, r),
{
    let e: daicon::Entry = bytemuck::pod_read_unaligned(&bytes[0..24]);
    TableEntry { id: e.id().as_u128(), offset: e.offset(), size: e.size() }
}

} // verus!
