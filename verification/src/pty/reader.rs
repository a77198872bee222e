use vstd::prelude::*;

use crate::error::CockpitError;
use crate::text::{copy_of, joined};

verus! {

/// How many bytes one read may bring.
pub const READ_BUF_SIZE: usize = 65536;

/// Max bytes handed out per frame. Caps how long the VT parser blocks the event loop when a
/// program floods output. The rest is handed out on later frames.
pub const MAX_BYTES_PER_FRAME: usize = 16384;

/// What a read of the pseudo-terminal brought.
pub enum ReadOutcome {
    Data(Vec<u8>),
    /// The other side is closed.
    Eof,
    /// There is no more data for now.
    WouldBlock,
    /// The read failed for another reason.
    Failed(String),
}

/// What is to be done next for a frame.
pub enum PtyStep {
    /// Wait until the pseudo-terminal has data.
    Poll,
    /// Read up to the given number of bytes.
    Read(usize),
    /// Hand out the bytes.
    Return(Vec<u8>),
    Fail(CockpitError),
}

/// What a reader holds, as mathematical values.
#[verifier::ext_equal]
pub struct ReaderModel {
    pub registered: bool,
    /// Data of an earlier frame that is still to be handed out.
    pub overflow: Seq<u8>,
    /// Data read for this frame.
    pub drained: Seq<u8>,
}

impl ReaderModel {
    /// All data that is still to be handed out, in order.
    pub open spec fn held(self) -> Seq<u8> {
        self.overflow + self.drained
    }

    /// The data of one frame.
    pub open spec fn frame(self) -> Seq<u8> {
        if self.held().len() <= MAX_BYTES_PER_FRAME {
            self.held()
        } else {
            self.held().take(MAX_BYTES_PER_FRAME as int)
        }
    }

    /// The reader after a frame was handed out.
    pub open spec fn after_frame(self) -> ReaderModel {
        ReaderModel {
            overflow: self.held().skip(self.frame().len() as int),
            drained: Seq::empty(),
            ..self
        }
    }

    /// How many bytes the next read may bring: the read buffer is filled first, then data spills
    /// in blocks of its size.
    pub open spec fn room(self) -> int {
        if self.drained.len() < READ_BUF_SIZE {
            READ_BUF_SIZE - self.drained.len()
        } else {
            READ_BUF_SIZE as int
        }
    }
}

/// Hands out the data of a pseudo-terminal in frames of bounded size.
///
/// Whenever there is data, all of it is read, so that edge-triggered polling is armed again; what
/// exceeds a frame is kept and handed out on the following ones.
pub struct PtyReader {
    overflow: Vec<u8>,
    drained: Vec<u8>,
    registered: bool,
}

impl View for PtyReader {
    type V = ReaderModel;

    closed spec fn view(&self) -> ReaderModel {
        ReaderModel {
            registered: self.registered,
            overflow: self.overflow@,
            drained: self.drained@,
        }
    }
}

impl PtyReader {
    pub fn new() -> (reader: PtyReader)
        ensures
            reader@ == (ReaderModel {
                registered: false,
                overflow: Seq::empty(),
                drained: Seq::empty(),
            }),
    {
        PtyReader { overflow: Vec::new(), drained: Vec::new(), registered: false }
    }

    /// Note that the pseudo-terminal was registered for readable events.
    pub fn register(&mut self)
        ensures
            final(self)@ == (ReaderModel { registered: true, ..old(self)@ }),
    {
        self.registered = true;
    }

    /// How many bytes of earlier frames are still to be handed out.
    pub fn overflow_len(&self) -> (len: usize)
        ensures
            len == self@.overflow.len(),
    {
        self.overflow.len()
    }

    /// Hand out one frame.
    fn take_frame(&mut self) -> (frame: Vec<u8>)
        ensures
            frame@ == old(self)@.frame(),
            final(self)@ == old(self)@.after_frame(),
    {
        let ghost before = self@;
        let mut all: Vec<u8> = Vec::new();
        all.append(&mut self.overflow);
        all.append(&mut self.drained);
        assert(all@ =~= before.held());
        if all.len() > MAX_BYTES_PER_FRAME {
            self.overflow = all.split_off(MAX_BYTES_PER_FRAME);
        }
        assert(all@ =~= before.frame());
        assert(self@ =~= before.after_frame());
        all
    }

    /// Begin a frame: what earlier frames left is served first, without a poll.
    pub fn begin_frame(&mut self) -> (step: PtyStep)
        ensures
            match step {
                PtyStep::Fail(e) => {
                    &&& !old(self)@.registered
                    &&& e.text() == "PTY error: PtyReader not registered"@
                    &&& final(self)@ == old(self)@
                },
                PtyStep::Return(frame) => {
                    &&& old(self)@.registered
                    &&& old(self)@.overflow.len() > 0
                    &&& frame@ == old(self)@.frame()
                    &&& final(self)@ == old(self)@.after_frame()
                },
                PtyStep::Poll => {
                    &&& old(self)@.registered
                    &&& old(self)@.overflow.len() == 0
                    &&& final(self)@ == old(self)@
                },
                PtyStep::Read(_) => false,
            },
    {
        if !self.registered {
            let e = CockpitError::Pty(copy_of("PtyReader not registered"));
            proof {
                reveal_strlit("PTY error: ");
                reveal_strlit("PtyReader not registered");
                reveal_strlit("PTY error: PtyReader not registered");
                assert(e.text() =~= "PTY error: PtyReader not registered"@);
            }
            return PtyStep::Fail(e);
        }
        if self.overflow.len() > 0 {
            return PtyStep::Return(self.take_frame());
        }
        PtyStep::Poll
    }

    /// The next read, while there is data.
    pub fn next_read(&self) -> (step: PtyStep)
        ensures
            step matches PtyStep::Read(n) && n == self@.room(),
    {
        if self.drained.len() < READ_BUF_SIZE {
            PtyStep::Read(READ_BUF_SIZE - self.drained.len())
        } else {
            PtyStep::Read(READ_BUF_SIZE)
        }
    }

    /// Go on after a read: data is kept and read on; a failure is reported only where no data
    /// would be lost with it.
    pub fn after_read(&mut self, outcome: ReadOutcome) -> (step: PtyStep)
        ensures
            match outcome {
                ReadOutcome::Data(bytes) => {
                    let more = ReaderModel { drained: old(self)@.drained + bytes@, ..old(self)@ };
                    &&& final(self)@ == more
                    &&& step matches PtyStep::Read(n) && n == more.room()
                },
                ReadOutcome::Failed(reason) if old(self)@.drained.len() == 0 => {
                    &&& final(self)@ == old(self)@
                    &&& step matches PtyStep::Fail(CockpitError::Pty(m)) && m@ == "read failed: "@
                        + reason@
                },
                _ => {
                    &&& final(self)@ == old(self)@.after_frame()
                    &&& step matches PtyStep::Return(frame) && frame@ == old(self)@.frame()
                },
            },
    {
        match outcome {
            ReadOutcome::Data(bytes) => {
                let mut more = bytes;
                self.drained.append(&mut more);
                self.next_read()
            },
            ReadOutcome::Failed(reason) => {
                if self.drained.len() == 0 {
                    PtyStep::Fail(CockpitError::Pty(joined("read failed: ", &reason)))
                } else {
                    PtyStep::Return(self.take_frame())
                }
            },
            ReadOutcome::Eof => PtyStep::Return(self.take_frame()),
            ReadOutcome::WouldBlock => PtyStep::Return(self.take_frame()),
        }
    }
}

impl Default for PtyReader {
    fn default() -> (reader: PtyReader)
        ensures
            reader@ == (ReaderModel {
                registered: false,
                overflow: Seq::empty(),
                drained: Seq::empty(),
            }),
    {
        PtyReader::new()
    }
}

/// What can happen to a reader, as its data stream sees it.
pub enum StreamEvent {
    /// A read brought data.
    Arrived(Seq<u8>),
    /// A frame was handed out.
    HandedOut,
}

/// The reader after a series of events.
pub open spec fn reader_after(reader: ReaderModel, events: Seq<StreamEvent>) -> ReaderModel
    decreases events.len(),
{
    if events.len() == 0 {
        reader
    } else {
        let before = reader_after(reader, events.drop_last());
        match events.last() {
            StreamEvent::Arrived(bytes) => ReaderModel {
                drained: before.drained + bytes,
                ..before
            },
            StreamEvent::HandedOut => before.after_frame(),
        }
    }
}

/// All data handed out in a series of events, in order.
pub open spec fn handed_out(reader: ReaderModel, events: Seq<StreamEvent>) -> Seq<u8>
    decreases events.len(),
{
    if events.len() == 0 {
        Seq::empty()
    } else {
        let earlier = handed_out(reader, events.drop_last());
        match events.last() {
            StreamEvent::Arrived(_) => earlier,
            StreamEvent::HandedOut => earlier + reader_after(reader, events.drop_last()).frame(),
        }
    }
}

/// All data that arrived in a series of events, in order.
pub open spec fn arrived(events: Seq<StreamEvent>) -> Seq<u8>
    decreases events.len(),
{
    if events.len() == 0 {
        Seq::empty()
    } else {
        match events.last() {
            StreamEvent::Arrived(bytes) => arrived(events.drop_last()) + bytes,
            StreamEvent::HandedOut => arrived(events.drop_last()),
        }
    }
}

/// Nothing is lost, repeated or reordered: what was handed out, followed by what is still held, is
/// what was held at first, followed by what arrived.
pub proof fn no_data_is_lost(reader: ReaderModel, events: Seq<StreamEvent>)
    ensures
        handed_out(reader, events) + reader_after(reader, events).held() == reader.held() + arrived(
            events,
        ),
    decreases events.len(),
{
    if events.len() == 0 {
        assert(Seq::<u8>::empty() + reader.held() =~= reader.held() + Seq::<u8>::empty());
    } else {
        let start = events.drop_last();
        no_data_is_lost(reader, start);
        let before = reader_after(reader, start);
        let after = reader_after(reader, events);
        match events.last() {
            StreamEvent::Arrived(bytes) => {
                assert(after.held() =~= before.held() + bytes);
                assert(handed_out(reader, start) + (before.held() + bytes) =~= (handed_out(
                    reader,
                    start,
                ) + before.held()) + bytes);
                assert((reader.held() + arrived(start)) + bytes =~= reader.held() + (arrived(start)
                    + bytes));
            },
            StreamEvent::HandedOut => {
                assert(before.frame() + after.held() =~= before.held());
                assert((handed_out(reader, start) + before.frame()) + after.held() =~= handed_out(
                    reader,
                    start,
                ) + before.held());
            },
        }
    }
}

/// No frame is larger than the limit, and a frame is empty only where nothing is held.
pub proof fn frames_are_bounded(reader: ReaderModel)
    ensures
        reader.frame().len() <= MAX_BYTES_PER_FRAME,
        reader.frame().len() == 0 ==> reader.held().len() == 0,
{
}

/// A frame is the front of what is held: all of it up to 16 KiB, and 16 KiB of it beyond. What is
/// left over is held for the next frame, and a read is given the 64 KiB of the buffer as far as
/// they are free.
pub proof fn frames_are_fronts(reader: ReaderModel)
    ensures
        reader.frame().is_prefix_of(reader.overflow + reader.drained),
        reader.overflow.len() + reader.drained.len() <= 16 * 1024 ==> reader.frame()
            == reader.overflow + reader.drained && reader.after_frame().held().len() == 0,
        reader.overflow.len() + reader.drained.len() > 16 * 1024 ==> reader.frame().len() == 16
            * 1024,
        reader.frame() + reader.after_frame().overflow == reader.overflow + reader.drained,
        reader.after_frame().drained.len() == 0,
        reader.after_frame().registered == reader.registered,
        reader.drained.len() < 64 * 1024 ==> reader.room() + reader.drained.len() == 64 * 1024,
        reader.drained.len() >= 64 * 1024 ==> reader.room() == 64 * 1024,
{
    let held = reader.overflow + reader.drained;
    assert(reader.frame() + reader.after_frame().overflow =~= held);
    assert(reader.frame() =~= held.take(reader.frame().len() as int));
    if held.len() <= 16 * 1024 {
        assert(reader.after_frame().held().len() == 0);
    }
}

} // verus!
