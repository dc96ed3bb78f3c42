use pterodactil::package::{create_package, PACKAGE_CAPACITY};
use pterodactil::table::{CachedTable, EntryMeta};

#[test]
fn new_package_has_an_empty_table() {
    let bytes = create_package();
    assert_eq!(bytes.len(), 16 + 256 * 24);
    assert_eq!(&bytes[0..4], &0x306364FFu32.to_ne_bytes());
    assert_eq!(&bytes[4..6], &256u16.to_ne_bytes());
    assert_eq!(&bytes[6..16], &[0u8; 10]);
    assert!(bytes[16..].iter().all(|b| *b == 0));
    let t = CachedTable::read(&bytes).ok().unwrap();
    assert_eq!(t.entries.len(), PACKAGE_CAPACITY as usize);
    assert!(t.entries.iter().all(|e| e.id == 0 && e.offset == 0 && e.size == 0));
    assert!(t.entries_meta.iter().all(|m| *m == EntryMeta { valid: false, allocated: false }));
}
