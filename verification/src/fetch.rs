//! A file whose data is fetched once, as a whole, over the network: reads that arrive before
//! the data wait, and are answered when it comes.
use vstd::prelude::*;

use crate::file::{padded_read, read_padded, FileAction, FileMessage, ReadResult};

verus! {

/// A read waiting for the data.
#[derive(Clone, Copy, Debug, PartialEq, Eq, Structural)]
pub struct Pending {
    pub id: u128,
    pub offset: u64,
    pub size: u64,
    pub on_result: u64,
}

/// An event for a fetched file.
pub enum FetchEvent {
    /// A file operation. Writes are not supported, and are dropped.
    File(FileMessage),
    /// The fetch finished with the file's data.
    FetchResult(Vec<u8>),
}

/// A reply to a read, and the handle it goes to.
pub struct FetchReply {
    pub to: u64,
    pub result: ReadResult,
}

/// State of a fetched file.
pub struct FetchFile {
    /// The data, once fetched.
    pub data: Option<Vec<u8>>,
    /// Reads waiting for the data.
    pub pending: Vec<Pending>,
}

/// The replies to the reads of `pending` from `data`, in order.
pub open spec fn replies_view(replies: Seq<FetchReply>) -> Seq<(u64, u128, u64, Seq<u8>)> {
    replies.map_values(|r: FetchReply| (r.to, r.result.id, r.result.offset, r.result.data@))
}

/// The replies that answer `pending` from `data`: each read gets `size` bytes of the data from
/// its offset on, zeros past its end.
pub open spec fn answers(data: Seq<u8>, pending: Seq<Pending>) -> Seq<(u64, u128, u64, Seq<u8>)> {
    pending.map_values(
        |p: Pending| (p.on_result, p.id, p.offset, padded_read(data, p.offset as int, p.size as usize as nat)),
    )
}

/// Every waiting read starts inside `data`.
pub open spec fn all_within(data: Seq<u8>, pending: Seq<Pending>) -> bool {
    forall|i: int| 0 <= i < pending.len() ==> #[trigger] pending[i].offset <= data.len()
}

impl FetchFile {
    /// The state's invariant: once the data is there, no read waits.
    pub open spec fn wf(&self) -> bool {
        self.data is Some ==> self.pending@.len() == 0
    }

    /// The requirement for `handle` to answer without running off the data: once the data is
    /// there, every read to answer starts inside it.
    pub open spec fn accepts(&self, event: &FetchEvent) -> bool {
        match event {
            FetchEvent::File(message) => match message.action {
                FileAction::Read { offset, .. } => match self.data {
                    Some(d) => offset <= d@.len(),
                    None => true,
                },
                FileAction::Write { .. } => true,
            },
            FetchEvent::FetchResult(d) => all_within(d@, self.pending@),
        }
    }

    /// Handles one event. A read is queued; the data is kept. After either, if the data is
    /// there, every queued read is answered from it, in order, and the queue empties.
    pub fn handle(&mut self, event: FetchEvent) -> (r: Vec<FetchReply>)
        requires
            old(self).wf(),
            old(self).accepts(&event),
        ensures
            final(self).wf(),
            match event {
                FetchEvent::File(message) => match message.action {
                    FileAction::Read { offset, size, on_result } => {
                        let queued = old(self).pending@.push(
                            Pending { id: message.id, offset, size, on_result },
                        );
                        &&& final(self).data == old(self).data
                        &&& match old(self).data {
                            Some(d) => {
                                &&& final(self).pending@.len() == 0
                                &&& replies_view(r@) == answers(d@, queued)
                            },
                            None => {
                                &&& final(self).pending@ == queued
                                &&& r@.len() == 0
                            },
                        }
                    },
                    FileAction::Write { .. } => {
                        &&& final(self).data == old(self).data
                        &&& final(self).pending@ == old(self).pending@
                        &&& r@.len() == 0
                    },
                },
                FetchEvent::FetchResult(d) => {
                    &&& final(self).data == Some(d)
                    &&& final(self).pending@.len() == 0
                    &&& replies_view(r@) == answers(d@, old(self).pending@)
                },
            },
    {
        match event {
            FetchEvent::File(message) => {
                let id = message.id;
                match message.action {
                    FileAction::Read { offset, size, on_result } => {
                        self.pending.push(Pending { id, offset, size, on_result });
                    },
                    FileAction::Write { .. } => {
                        return Vec::new();
                    },
                }
            },
            FetchEvent::FetchResult(data) => {
                self.data = Some(data);
            },
        }
        let mut replies: Vec<FetchReply> = Vec::new();
        match &self.data {
            Some(data) => {
                let mut pending: Vec<Pending> = Vec::new();
                core::mem::swap(&mut pending, &mut self.pending);
                let mut i: usize = 0;
                while i < pending.len()
                    invariant
                        i <= pending@.len(),
                        all_within(data@, pending@),
                        replies_view(replies@) == answers(data@, pending@.take(i as int)),
                    decreases pending@.len() - i,
                {
                    let p = pending[i];
                    let ghost prev_replies = replies@;
                    let bytes = read_padded(data.as_slice(), p.offset, p.size);
                    replies.push(
                        FetchReply { to: p.on_result, result: ReadResult { id: p.id, offset: p.offset, data: bytes } },
                    );
                    proof {
                        let ghost prev = prev_replies;
                        assert(replies@ =~= prev.push(replies@.last()));
                        assert(pending@.take(i + 1) =~= pending@.take(i as int).push(p));
                        assert(replies_view(replies@) =~= replies_view(prev).push(
                            (p.on_result, p.id, p.offset, bytes@),
                        ));
                        assert(answers(data@, pending@.take(i + 1)) =~= answers(data@, pending@.take(i as int)).push(
                            (p.on_result, p.id, p.offset, padded_read(data@, p.offset as int, p.size as usize as nat)),
                        ));
                    }
                    i += 1;
                }
                proof {
                    assert(pending@.take(pending@.len() as int) =~= pending@);
                }
            },
            None => {},
        }
        replies
    }
}

/// Opens a fetched file, whose fetch has started: no data yet, and no read waiting.
pub fn open_fetch_file() -> (r: FetchFile)
    ensures
        r.wf(),
        r.data is None,
        r.pending@.len() == 0,
{
    FetchFile { data: None, pending: Vec::new() }
}

} // verus!
