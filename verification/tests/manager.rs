use pterodactil::codec::{TableEntry, TableHeader};
use pterodactil::io::Read;
use pterodactil::manager::{
    read_entries, read_header, start_file_manager, start_read_entries, start_read_header,
    FileManagerCommand, Load, ManagerAction, ManagerError, Message, Store,
};

const SIGNATURE: u32 = 0x306364FF;

fn header_bytes(signature: u32, capacity: u16, valid: u16) -> Vec<u8> {
    let mut b = Vec::new();
    b.extend_from_slice(&signature.to_ne_bytes());
    b.extend_from_slice(&capacity.to_ne_bytes());
    b.extend_from_slice(&valid.to_ne_bytes());
    b.extend_from_slice(&0u64.to_ne_bytes());
    b
}

fn entry_bytes(id: u128, offset: u32, size: u32) -> Vec<u8> {
    let be = id.to_be_bytes();
    let mut b = vec![be[3], be[2], be[1], be[0], be[5], be[4], be[7], be[6]];
    b.extend_from_slice(&be[8..16]);
    b.extend_from_slice(&offset.to_ne_bytes());
    b.extend_from_slice(&size.to_ne_bytes());
    b
}

#[test]
fn header_read_requests() {
    assert_eq!(start_read_header(5), Read { start: 0, length: 16, on_result: 5 });
    assert_eq!(start_read_entries(16, 3, 6), Read { start: 16, length: 72, on_result: 6 });
}

#[test]
fn header_signature_is_checked() {
    let good = read_header(&header_bytes(SIGNATURE, 4, 2));
    assert_eq!(good, Ok(TableHeader { signature: SIGNATURE, capacity: 4, valid: 2, next: 0 }));
    let bad = read_header(&header_bytes(0x12345678, 4, 2));
    assert_eq!(bad, Err(ManagerError::InvalidSignature));
}

#[test]
fn entries_are_read_in_order() {
    let mut data = entry_bytes(1, 10, 20);
    data.extend(entry_bytes(2, 30, 40));
    assert_eq!(
        read_entries(&data, 2),
        Ok(vec![TableEntry { id: 1, offset: 10, size: 20 }, TableEntry { id: 2, offset: 30, size: 40 }])
    );
    assert_eq!(read_entries(&data, 1), Ok(vec![TableEntry { id: 1, offset: 10, size: 20 }]));
    assert_eq!(read_entries(&data, 3), Err(ManagerError::UnexpectedEnd));
}

#[test]
fn loads_wait_for_entries() {
    let (mut m, read) = start_file_manager(1, 2);
    assert_eq!(read, Read { start: 0, length: 16, on_result: 2 });
    let header = TableHeader { signature: SIGNATURE, capacity: 4, valid: 2, next: 0 };
    let out = m.handle(Message::Command(FileManagerCommand::Load(Load { id: 2, on_result: 10 })));
    assert!(out.is_empty());
    let out = m.handle(Message::Command(FileManagerCommand::Load(Load { id: 3, on_result: 11 })));
    assert!(out.is_empty());
    let out = m.handle(Message::Header(header));
    assert_eq!(out, vec![ManagerAction::ReadEntries { start: 16, length: 2 }]);
    let e1 = TableEntry { id: 1, offset: 10, size: 20 };
    let e2 = TableEntry { id: 2, offset: 30, size: 40 };
    let out = m.handle(Message::Entries(vec![e1, e2]));
    assert_eq!(out, vec![ManagerAction::Reply { to: 10, header, entry: e2 }]);
    assert_eq!(m.pending, vec![Load { id: 3, on_result: 11 }]);
    let out = m.handle(Message::Command(FileManagerCommand::Store(Store { id: 3, entry: e1 })));
    assert!(out.is_empty());
    let out = m.handle(Message::Command(FileManagerCommand::Load(Load { id: 1, on_result: 12 })));
    assert_eq!(out, vec![ManagerAction::Reply { to: 12, header, entry: e1 }]);
    let out = m.handle(Message::Command(FileManagerCommand::Flush(4)));
    assert!(out.is_empty());
    assert_eq!(m.pending, vec![Load { id: 3, on_result: 11 }]);
}
