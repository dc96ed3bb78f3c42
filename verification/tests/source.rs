use pterodactil::codec::TableEntry;
use pterodactil::file::{BufferFile, FileAction, FileMessage, FileReply, ReadResult, WriteLocation, WriteResult};
use pterodactil::package::create_package;
use pterodactil::set_task::{start_set_task, SetTaskMessage, SetTaskStep};
use pterodactil::source::{start_file_source_service, ReadRequest, SourceAction, SourceEvent, SourceMessage};
use pterodactil::table::TableError;

const SIGNATURE: u32 = 0x306364FF;

fn header_bytes(capacity: u16, valid: u16) -> Vec<u8> {
    let mut b = Vec::new();
    b.extend_from_slice(&SIGNATURE.to_ne_bytes());
    b.extend_from_slice(&capacity.to_ne_bytes());
    b.extend_from_slice(&valid.to_ne_bytes());
    b.extend_from_slice(&0u64.to_ne_bytes());
    b
}

fn entry_bytes(id: u128, offset: u32, size: u32) -> Vec<u8> {
    let be = id.to_be_bytes();
    let mut b = vec![be[3], be[2], be[1], be[0], be[5], be[4], be[7], be[6]];
    b.extend_from_slice(&be[8..16]);
    b.extend_from_slice(&offset.to_ne_bytes());
    b.extend_from_slice(&size.to_ne_bytes());
    b
}

fn read_from(file: &mut BufferFile, request: ReadRequest) -> ReadResult {
    let reply = file.handle(FileMessage {
        id: 1,
        action: FileAction::Read { offset: request.offset, size: request.size, on_result: request.on_result },
    });
    match reply {
        FileReply::Read { result, .. } => result,
        _ => panic!("expected a read reply"),
    }
}

#[test]
fn start_reads_the_first_table() {
    let (source, request) = start_file_source_service(1, 2, 3);
    assert_eq!(request, ReadRequest { offset: 0, size: 65536, on_result: 2 });
    assert!(source.table.is_none());
}

#[test]
fn gets_wait_for_the_table_and_resolve_from_it() {
    let id: u128 = 0x37cb72a4_caab_440c_8b7c_869019ed348e;
    let mut data = header_bytes(2, 1);
    data.extend(entry_bytes(id, 100, 12));
    data.extend(entry_bytes(0, 0, 0));
    let mut file = BufferFile { buffer: data };

    let (mut source, request) = start_file_source_service(1, 2, 3);
    let out = source.handle(SourceEvent::Get { id, on_result: 20 }).ok().unwrap();
    assert!(out.reads.is_empty());
    let out = source.handle(SourceEvent::Get { id: 99, on_result: 21 }).ok().unwrap();
    assert!(out.reads.is_empty());
    assert_eq!(source.get_tasks.len(), 2);

    let table = read_from(&mut file, request);
    assert_eq!(table.data.len(), 65536);
    let out = source.handle(SourceEvent::ReadTableResult(table)).ok().unwrap();
    assert_eq!(out.reads, vec![ReadRequest { offset: 100, size: 12, on_result: 20 }]);
    assert!(out.grants.is_empty());
    assert_eq!(source.get_tasks, vec![(99, 21)]);
}

#[test]
fn set_tasks_get_free_slots_in_order() {
    let mut file = BufferFile { buffer: create_package() };
    let (mut source, request) = start_file_source_service(1, 2, 3);
    let table = read_from(&mut file, request);
    let out = source.handle(SourceEvent::ReadTableResult(table)).ok().unwrap();
    assert!(out.reads.is_empty() && out.grants.is_empty());

    let out = source.handle(SourceEvent::SetStarted { slot: 30 }).ok().unwrap();
    assert_eq!(out.grants.len(), 1);
    assert_eq!(out.grants[0].to, 30);
    assert_eq!(out.grants[0].offset, 16);
    assert_eq!(out.grants[0].header, header_bytes(256, 1));

    let out = source.handle(SourceEvent::SetStarted { slot: 31 }).ok().unwrap();
    assert_eq!(out.grants[0].to, 31);
    assert_eq!(out.grants[0].offset, 40);
    assert_eq!(out.grants[0].header, header_bytes(256, 2));
    let t = source.table.as_ref().unwrap();
    assert!(t.entries_meta[0].valid && t.entries_meta[1].valid && !t.entries_meta[2].valid);
    assert_eq!(t.entries[1], TableEntry { id: 0, offset: 0, size: 0 });
}

#[test]
fn set_tasks_wait_while_the_table_is_full() {
    let mut data = header_bytes(1, 1);
    data.extend(entry_bytes(5, 1, 1));
    let mut file = BufferFile { buffer: data };
    let (mut source, request) = start_file_source_service(1, 2, 3);
    let out = source.handle(SourceEvent::SetStarted { slot: 30 }).ok().unwrap();
    assert!(out.grants.is_empty());
    let table = read_from(&mut file, request);
    let out = source.handle(SourceEvent::ReadTableResult(table)).ok().unwrap();
    assert!(out.grants.is_empty());
    assert_eq!(source.pending_slots, vec![30]);
    let out = source.handle(SourceEvent::WriteResult(WriteResult { id: 0, offset: 0 })).ok().unwrap();
    assert!(out.grants.is_empty());
}

#[test]
fn short_table_read_is_an_error() {
    let (mut source, _) = start_file_source_service(1, 2, 3);
    let result = source.handle(SourceEvent::ReadTableResult(ReadResult { id: 0, offset: 0, data: vec![0; 8] }));
    assert_eq!(result.err(), Some(TableError::UnexpectedEnd));
    assert!(source.table.is_none());
}

#[test]
fn set_task_writes_entry_once_slot_and_data_offset_are_known() {
    let id: u128 = 0xc18af4e8_fced_4890_b18c_547fcc7df67b;
    let (mut task, append) = start_set_task(7, id, vec![1, 2, 3], 9);
    assert_eq!(append.file, 7);
    assert_eq!(append.data, vec![1, 2, 3]);
    assert_eq!(task.entry, TableEntry { id, offset: 0, size: 3 });

    assert!(matches!(task.process(SetTaskMessage::AppendResult(WriteResult { id: 0, offset: 6000 })), SetTaskStep::Wait));
    match task.process(SetTaskMessage::Slot(40)) {
        SetTaskStep::WriteEntry { file, offset, data } => {
            assert_eq!(file, 7);
            assert_eq!(offset, 40);
            assert_eq!(data, entry_bytes(id, 6000, 3));
        }
        _ => panic!("expected an entry write"),
    }
    match task.process(SetTaskMessage::EntryResult(WriteResult { id: 0, offset: 40 })) {
        SetTaskStep::Finish { on_result } => assert_eq!(on_result, 9),
        _ => panic!("expected the task to finish"),
    }
}

#[test]
fn whole_set_then_read_through_buffer_file() {
    let id: u128 = 0x1234;
    let mut file = BufferFile { buffer: create_package() };
    let (mut source, request) = start_file_source_service(1, 2, 3);
    let table = read_from(&mut file, request);
    source.handle(SourceEvent::ReadTableResult(table)).ok().unwrap();

    let (mut task, append) = start_set_task(1, id, vec![42u8; 5], 9);
    let reply = file.handle(FileMessage {
        id: 2,
        action: FileAction::Write { location: WriteLocation::Offset(file.buffer.len() as u64), data: append.data, on_result: 0 },
    });
    let data_offset = match reply {
        FileReply::Write { result, .. } => result.offset,
        _ => panic!("expected a write reply"),
    };
    task.process(SetTaskMessage::AppendResult(WriteResult { id: 2, offset: data_offset }));
    let out = source.handle(SourceEvent::SetStarted { slot: 50 }).ok().unwrap();
    let grant = &out.grants[0];
    let step = task.process(SetTaskMessage::Slot(grant.offset));
    let (offset, data) = match step {
        SetTaskStep::WriteEntry { offset, data, .. } => (offset, data),
        _ => panic!("expected an entry write"),
    };
    file.handle(FileMessage { id: 3, action: FileAction::Write { location: WriteLocation::Offset(0), data: {
        let mut all = grant.header.clone();
        all.extend(file.buffer[16..offset as usize].iter().copied());
        all.extend(data);
        all.extend(file.buffer[offset as usize + 24..].iter().copied());
        all
    }, on_result: 0 } });

    let (mut reader, request) = start_file_source_service(1, 2, 3);
    let table = read_from(&mut file, request);
    reader.handle(SourceEvent::ReadTableResult(table)).ok().unwrap();
    let out = reader.handle(SourceEvent::Get { id, on_result: 77 }).ok().unwrap();
    assert_eq!(out.reads, vec![ReadRequest { offset: data_offset, size: 5, on_result: 77 }]);
    let got = read_from(&mut file, out.reads[0]);
    assert_eq!(got.data, vec![42u8; 5]);
}

#[test]
fn source_messages_queue_gets_and_start_set_tasks() {
    let (mut source, _) = start_file_source_service(1, 2, 3);
    let started = source.on_source_message(SourceMessage { id: 1, action: SourceAction::Get { id: 44, on_result: 5 } });
    assert!(started.is_none());
    assert_eq!(source.get_tasks, vec![(44, 5)]);
    let started = source.on_source_message(SourceMessage {
        id: 2,
        action: SourceAction::SetData { id: 45, data: vec![1, 2], on_result: 6 },
    });
    let (task, append) = started.unwrap();
    assert_eq!(task.file, 1);
    assert_eq!(task.on_result, 6);
    assert_eq!(task.entry, TableEntry { id: 45, offset: 0, size: 2 });
    assert_eq!(append.data, vec![1, 2]);
    assert_eq!(source.get_tasks, vec![(44, 5)]);
    assert!(source.pending_slots.is_empty());
}

#[test]
fn set_task_takes_its_slot_once() {
    let (mut task, _) = start_set_task(7, 3, vec![1, 2], 9);
    assert!(matches!(task.process(SetTaskMessage::Slot(100)), SetTaskStep::Wait));
    match task.process(SetTaskMessage::AppendResult(WriteResult { id: 0, offset: 500 })) {
        SetTaskStep::WriteEntry { offset, .. } => assert_eq!(offset, 100),
        _ => panic!("expected an entry write"),
    }
    assert!(matches!(task.process(SetTaskMessage::Slot(200)), SetTaskStep::Wait));
    assert_eq!(task.entry_offset, Some(100));
    match task.process(SetTaskMessage::AppendResult(WriteResult { id: 0, offset: 600 })) {
        SetTaskStep::WriteEntry { offset, data, .. } => {
            assert_eq!(offset, 100);
            assert_eq!(data, entry_bytes(3, 600, 2));
        }
        _ => panic!("expected an entry write"),
    }
}
