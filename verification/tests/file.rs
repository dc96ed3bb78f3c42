use pterodactil::file::{
    read_padded, write_into, BufferFile, FileAction, FileMessage, FileReply, WriteLocation,
};

#[test]
fn read_padded_pads_past_end() {
    let buf = vec![1u8, 2, 3, 4];
    assert_eq!(read_padded(&buf, 1, 2), vec![2, 3]);
    assert_eq!(read_padded(&buf, 2, 5), vec![3, 4, 0, 0, 0]);
    assert_eq!(read_padded(&buf, 4, 3), vec![0, 0, 0]);
    assert_eq!(read_padded(&buf, 0, 0), Vec::<u8>::new());
}

#[test]
fn write_overwrites_and_appends() {
    let mut buf = vec![1u8, 2, 3, 4];
    let at = write_into(&mut buf, WriteLocation::Offset(2), &[9, 9, 9]);
    assert_eq!(at, 2);
    assert_eq!(buf, vec![1, 2, 9, 9, 9]);
}

#[test]
fn write_at_end_appends() {
    let mut buf = vec![1u8, 2];
    let at = write_into(&mut buf, WriteLocation::Offset(2), &[5]);
    assert_eq!(at, 2);
    assert_eq!(buf, vec![1, 2, 5]);
}

#[test]
fn append_writes_at_offset_of_data_length() {
    let mut buf = vec![1u8, 2, 3];
    let at = write_into(&mut buf, WriteLocation::Append, &[7, 8]);
    assert_eq!(at, 2);
    assert_eq!(buf, vec![1, 2, 7, 8]);
}

#[test]
fn buffer_file_read_after_write() {
    let mut file = BufferFile { buffer: vec![0u8; 4] };
    let reply = file.handle(FileMessage {
        id: 11,
        action: FileAction::Write { location: WriteLocation::Offset(1), data: vec![5, 6, 7, 8], on_result: 3 },
    });
    match reply {
        FileReply::Write { to, result } => {
            assert_eq!(to, 3);
            assert_eq!(result.id, 11);
            assert_eq!(result.offset, 1);
        }
        _ => panic!("expected a write reply"),
    }
    assert_eq!(file.buffer, vec![0, 5, 6, 7, 8]);
    let reply = file.handle(FileMessage {
        id: 12,
        action: FileAction::Read { offset: 1, size: 4, on_result: 4 },
    });
    match reply {
        FileReply::Read { to, result } => {
            assert_eq!(to, 4);
            assert_eq!(result.id, 12);
            assert_eq!(result.offset, 1);
            assert_eq!(result.data, vec![5, 6, 7, 8]);
        }
        _ => panic!("expected a read reply"),
    }
}
