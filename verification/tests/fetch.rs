use pterodactil::fetch::{open_fetch_file, FetchEvent};
use pterodactil::file::{FileAction, FileMessage, WriteLocation};

fn read(id: u128, offset: u64, size: u64, on_result: u64) -> FetchEvent {
    FetchEvent::File(FileMessage { id, action: FileAction::Read { offset, size, on_result } })
}

#[test]
fn reads_wait_for_the_fetch() {
    let mut f = open_fetch_file();
    assert!(f.handle(read(1, 0, 2, 10)).is_empty());
    assert!(f.handle(read(2, 3, 4, 11)).is_empty());
    let w = FetchEvent::File(FileMessage {
        id: 3,
        action: FileAction::Write { location: WriteLocation::Append, data: vec![1], on_result: 12 },
    });
    assert!(f.handle(w).is_empty());
    assert_eq!(f.pending.len(), 2);
    let replies = f.handle(FetchEvent::FetchResult(vec![5, 6, 7, 8, 9]));
    assert_eq!(replies.len(), 2);
    assert_eq!(replies[0].to, 10);
    assert_eq!(replies[0].result.id, 1);
    assert_eq!(replies[0].result.data, vec![5, 6]);
    assert_eq!(replies[1].to, 11);
    assert_eq!(replies[1].result.offset, 3);
    assert_eq!(replies[1].result.data, vec![8, 9, 0, 0]);
    assert!(f.pending.is_empty());
    let replies = f.handle(read(4, 1, 1, 13));
    assert_eq!(replies.len(), 1);
    assert_eq!(replies[0].result.data, vec![6]);
}
