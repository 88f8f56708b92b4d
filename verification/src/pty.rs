//! The engine of one pseudo-terminal: its size, and the read loop's decisions.
//!
//! The system calls that open a pseudo-terminal, start a process on it and read
//! from it are made by the caller. What is decided here is which size is
//! accepted, and what the read loop does with the outcome of each read.

use crate::error::{PtyStep, SessionError};
use crate::stream::{held_back, ready_bytes, ready_text, StreamDecoder};
use vstd::prelude::*;
use vstd::string::*;

verus! {

/// The name of the event that carries text read from a session.
pub const PTY_DATA_EVENT: &'static str = "pty-data";

/// The name of the event that tells that a session's process has ended.
pub const PTY_EXIT_EVENT: &'static str = "pty-exit";

/// The number of bytes that one read from a pseudo-terminal asks for.
pub const READ_BUFFER_SIZE: usize = 8192;

/// The event that carries text read from a session.
#[derive(Debug, Clone, PartialEq, Eq)]
pub struct PtyDataPayload {
    pub session_id: String,
    pub data: String,
}

/// The event that tells that a session's process has ended.
#[derive(Debug, Clone, PartialEq, Eq)]
pub struct PtyExitPayload {
    pub session_id: String,
}

/// The size of a terminal's display area, in cells and in pixels per cell.
#[derive(Debug, Clone, Copy, PartialEq, Eq, Structural)]
pub struct TerminalSize {
    pub rows: u16,
    pub cols: u16,
    pub pixel_width: u16,
    pub pixel_height: u16,
}

/// Whether a terminal can have `cols` columns and `rows` rows: both are positive.
pub open spec fn valid_size(cols: u16, rows: u16) -> bool {
    cols > 0 && rows > 0
}

/// The size of a terminal of `cols` columns and `rows` rows, whose cells have no
/// known size in pixels.
pub open spec fn size_of(cols: u16, rows: u16) -> TerminalSize {
    TerminalSize { rows, cols, pixel_width: 0, pixel_height: 0 }
}

/// The words that a size without columns or rows is refused with.
pub open spec fn size_refusal() -> Seq<char> {
    "columns and rows must be greater than zero"@
}

/// The size that a terminal is opened or resized with at `step`. A size without
/// columns or without rows is refused with the error of that step.
pub fn pty_size(step: PtyStep, cols: u16, rows: u16) -> (size: Result<TerminalSize, SessionError>)
    ensures
        valid_size(cols, rows) ==> size is Ok && size->Ok_0 == size_of(cols, rows),
        !valid_size(cols, rows) ==> size is Err && size->Err_0.reports(step) && size->Err_0.detail()
            == step.message(size_refusal()),
{
    if cols == 0 || rows == 0 {
        Err(SessionError::failure(step, "columns and rows must be greater than zero"))
    } else {
        Ok(TerminalSize { rows, cols, pixel_width: 0, pixel_height: 0 })
    }
}

/// The outcome of one read from a pseudo-terminal.
#[derive(Debug, Clone, PartialEq, Eq)]
pub enum ReadEvent {
    /// The read returned these bytes.
    Data(Vec<u8>),
    /// The read returned no byte: the process has ended.
    Eof,
    /// The read failed.
    Failed,
}

/// What the read loop does after a read.
#[derive(Debug, Clone, PartialEq, Eq)]
pub enum ReaderAction {
    /// Nothing is sent; the loop reads on.
    Idle,
    /// The text is sent to the caller; the loop reads on.
    Data(PtyDataPayload),
    /// The exit is sent to the caller; the loop ends.
    Exit(PtyExitPayload),
    /// Nothing is sent; the loop ends.
    Stop,
}

/// The state of a session's read loop.
pub struct PtyReader {
    session_id: String,
    decoder: StreamDecoder,
    finished: bool,
}

/// What a read loop is, seen from outside.
pub struct PtyReaderView {
    /// The session whose output is read.
    pub session_id: Seq<char>,
    /// The bytes that were read and not yet sent on.
    pub pending: Seq<u8>,
    /// Whether the loop has ended.
    pub finished: bool,
}

impl View for PtyReader {
    type V = PtyReaderView;

    closed spec fn view(&self) -> PtyReaderView {
        PtyReaderView {
            session_id: self.session_id@,
            pending: self.decoder@,
            finished: self.finished,
        }
    }
}

impl PtyReader {
    /// The read loop of a session before its first read.
    pub fn new(session_id: String) -> (reader: PtyReader)
        ensures
            reader@.session_id == session_id@,
            reader@.pending == Seq::<u8>::empty(),
            !reader@.finished,
    {
        PtyReader { session_id, decoder: StreamDecoder::new(), finished: false }
    }

    /// Whether the loop has ended.
    pub fn is_finished(&self) -> (finished: bool)
        ensures
            finished == self@.finished,
    {
        self.finished
    }

    /// The session whose output is read.
    pub fn session_id(&self) -> (id: &str)
        ensures
            id@ == self@.session_id,
    {
        self.session_id.as_str()
    }

    /// Decides what the loop does after one read.
    ///
    /// Bytes are joined to those held back; their longest well-formed prefix is
    /// sent as text and the rest is held back. The end of the stream sends the
    /// exit and ends the loop, a failed read ends it without a word. A loop that
    /// has ended stays so: whatever comes, nothing is sent and nothing changes.
    pub fn on_read(&mut self, event: ReadEvent) -> (action: ReaderAction)
        ensures
            final(self)@.session_id == old(self)@.session_id,
            old(self)@.finished ==> action is Stop && final(self)@ == old(self)@,
            !old(self)@.finished ==> match event {
                ReadEvent::Data(bytes) => {
                    &&& !final(self)@.finished
                    &&& final(self)@.pending == held_back(old(self)@.pending, bytes@)
                    &&& ready_bytes(old(self)@.pending, bytes@).len() == 0 ==> action is Idle
                    &&& ready_bytes(old(self)@.pending, bytes@).len() > 0 ==> {
                        &&& action is Data
                        &&& action->Data_0.session_id@ == old(self)@.session_id
                        &&& action->Data_0.data@ == ready_text(old(self)@.pending, bytes@)
                    }
                },
                ReadEvent::Eof => {
                    &&& final(self)@.finished
                    &&& final(self)@.pending == old(self)@.pending
                    &&& action is Exit
                    &&& action->Exit_0.session_id@ == old(self)@.session_id
                },
                ReadEvent::Failed => {
                    &&& final(self)@.finished
                    &&& final(self)@.pending == old(self)@.pending
                    &&& action is Stop
                },
            },
    {
        if self.finished {
            return ReaderAction::Stop;
        }
        match event {
            ReadEvent::Data(bytes) => {
                match self.decoder.feed(bytes.as_slice()) {
                    Some(data) => ReaderAction::Data(
                        PtyDataPayload { session_id: self.session_id.clone(), data },
                    ),
                    None => ReaderAction::Idle,
                }
            },
            ReadEvent::Eof => {
                self.finished = true;
                ReaderAction::Exit(PtyExitPayload { session_id: self.session_id.clone() })
            },
            ReadEvent::Failed => {
                self.finished = true;
                ReaderAction::Stop
            },
        }
    }
}

} // verus!
