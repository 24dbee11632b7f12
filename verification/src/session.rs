//! The two receiving workers of a session as state machines.
//!
//! A worker alternates between reading from the connection and deciding.
//! The reading is the caller's; the deciding is here. Each machine says how
//! many bytes it wants next, takes exactly those bytes or the news that the
//! read failed, and says what follows. A machine that wants nothing is
//! closed: its worker ends, and with it the session.

use crate::codec::inflated;
use crate::command::parsed;
use crate::command::payload_len;
use crate::command::payload_len_of;
use crate::command::Command;
use crate::command::InjectorAction;
use crate::frame::rebuilt_from;
use crate::frame::FrameError;
use crate::frame::ViewerPipeline;
use crate::wire::be_value;
use crate::wire::depack;
use crate::wire::FrameMeta;
use crate::wire::LENGTH_PREFIX_LEN;
use vstd::prelude::*;

verus! {

/// The host's command worker: what it waits for.
#[derive(Clone, Copy, Debug, PartialEq, Eq, Structural)]
pub enum CommandReader {
    /// The next byte is an opcode.
    Opcode,
    /// The payload of this opcode comes next.
    Payload(u8),
    /// The worker has ended.
    Closed,
}

/// The command worker's rule: the state after a read and the action to
/// inject, if any. `None` as input stands for a read that failed.
///
/// A byte that is no opcode closes the worker, and so does a failed read. An
/// opcode without payload is acted on at once; any other waits for its
/// payload and is acted on when that has come.
pub open spec fn reader_step(state: CommandReader, input: Option<Seq<u8>>) -> (
    CommandReader,
    Option<InjectorAction>,
) {
    match (state, input) {
        (CommandReader::Opcode, Some(bytes)) => match payload_len_of(bytes[0]) {
            None => (CommandReader::Closed, None),
            Some(n) => if n == 0 {
                match parsed(bytes[0], Seq::empty()) {
                    Some(command) => (CommandReader::Opcode, Some(command.injected())),
                    None => (CommandReader::Closed, None),
                }
            } else {
                (CommandReader::Payload(bytes[0]), None)
            },
        },
        (CommandReader::Payload(opcode), Some(bytes)) => match parsed(opcode, bytes) {
            Some(command) => (CommandReader::Opcode, Some(command.injected())),
            None => (CommandReader::Closed, None),
        },
        _ => (CommandReader::Closed, None),
    }
}

impl CommandReader {
    /// Bytes that the worker reads next; `None` once it has ended.
    pub open spec fn wanted(self) -> Option<nat> {
        match self {
            CommandReader::Opcode => Some(1),
            CommandReader::Payload(opcode) => payload_len_of(opcode),
            CommandReader::Closed => None,
        }
    }

    /// A worker never waits for a payload that does not exist.
    pub open spec fn wf(self) -> bool {
        self matches CommandReader::Payload(opcode) ==> payload_len_of(opcode) matches Some(n) && n
            > 0
    }

    /// A worker at the start of a session.
    pub fn new() -> (reader: CommandReader)
        ensures
            reader == CommandReader::Opcode,
            reader.wf(),
    {
        CommandReader::Opcode
    }

    /// Tells how many bytes to read next, or `None` to end the worker.
    pub fn wants(&self) -> (n: Option<usize>)
        requires
            self.wf(),
        ensures
            match n {
                Some(len) => self.wanted() == Some(len as nat),
                None => self.wanted() is None,
            },
    {
        match *self {
            CommandReader::Opcode => Some(1),
            CommandReader::Payload(opcode) => payload_len(opcode),
            CommandReader::Closed => None,
        }
    }

    /// Takes the bytes that were read, as many as `wants` asked for, or
    /// `None` where the read failed, and returns the action to inject.
    pub fn feed(&mut self, input: Option<&[u8]>) -> (action: Option<InjectorAction>)
        requires
            old(self).wf(),
            old(self).wanted() is Some,
            input matches Some(bytes) ==> old(self).wanted() == Some(bytes@.len()),
        ensures
            final(self).wf(),
            (*final(self), action) == reader_step(
                *old(self),
                match input {
                    Some(bytes) => Some(bytes@),
                    None => None,
                },
            ),
    {
        let bytes: &[u8] = match input {
            Some(bytes) => bytes,
            None => {
                *self = CommandReader::Closed;
                return None;
            },
        };
        match *self {
            CommandReader::Opcode => {
                let opcode: u8 = bytes[0];
                match payload_len(opcode) {
                    None => {
                        *self = CommandReader::Closed;
                        None
                    },
                    Some(n) => {
                        if n == 0 {
                            let empty: [u8; 0] = [];
                            proof {
                                assert(empty@ =~= Seq::<u8>::empty());
                            }
                            match Command::decode(opcode, empty.as_slice()) {
                                Some(command) => Some(command.action()),
                                None => {
                                    *self = CommandReader::Closed;
                                    None
                                },
                            }
                        } else {
                            *self = CommandReader::Payload(opcode);
                            None
                        }
                    },
                }
            },
            CommandReader::Payload(opcode) => {
                match Command::decode(opcode, bytes) {
                    Some(command) => {
                        *self = CommandReader::Opcode;
                        Some(command.action())
                    },
                    None => {
                        *self = CommandReader::Closed;
                        None
                    },
                }
            },
            CommandReader::Closed => None,
        }
    }
}

/// A byte that is no opcode ends the command worker, and nothing is
/// injected for it.
pub proof fn lemma_undefined_opcode_closes(opcode: u8)
    requires
        payload_len_of(opcode) is None,
    ensures
        reader_step(CommandReader::Opcode, Some(seq![opcode])) == (
            CommandReader::Closed,
            None::<InjectorAction>,
        ),
{
}

/// A failed read ends the command worker whatever it was waiting for, and a
/// worker that has ended stays so.
pub proof fn lemma_closed_stays_closed(state: CommandReader, input: Option<Seq<u8>>)
    requires
        state == CommandReader::Closed || input is None,
    ensures
        reader_step(state, input) == (CommandReader::Closed, None::<InjectorAction>),
{
}

/// A record that arrives whole is acted on exactly once: its opcode, then
/// its payload if it has one, lead from a waiting worker back to a waiting
/// worker, with the record's action.
pub proof fn lemma_record_is_acted_on(command: Command)
    ensures
        command.payload().len() == 0 ==> reader_step(
            CommandReader::Opcode,
            Some(seq![command.opcode()]),
        ) == (CommandReader::Opcode, Some(command.injected())),
        command.payload().len() > 0 ==> {
            &&& reader_step(CommandReader::Opcode, Some(seq![command.opcode()])) == (
                CommandReader::Payload(command.opcode()),
                None::<InjectorAction>,
            )
            &&& reader_step(CommandReader::Payload(command.opcode()), Some(command.payload()))
                == (CommandReader::Opcode, Some(command.injected()))
        },
{
    crate::command::lemma_command_round_trip(command);
    if command.payload().len() == 0 {
        assert(command.payload() =~= Seq::<u8>::empty());
    }
}

/// The viewer's frame worker: what it waits for.
#[derive(Clone, Copy, Debug, PartialEq, Eq, Structural)]
pub enum FramePhase {
    /// A length prefix comes next.
    Header,
    /// A payload of this many bytes comes next.
    Payload(usize),
    /// The worker has ended.
    Closed,
}

/// Why the frame worker ended.
#[derive(Clone, Copy, Debug, PartialEq, Eq, Structural)]
pub enum CloseReason {
    /// A read failed or the connection closed.
    Transport,
    /// A payload was refused.
    Frame(FrameError),
}

/// What the frame worker's caller does after a read.
#[derive(Clone, Copy, Debug, PartialEq, Eq, Structural)]
pub enum FrameEvent {
    /// Read on.
    Continue,
    /// A frame has been rebuilt: display it, then read on.
    Ready,
    /// End the worker.
    Stop(CloseReason),
}

/// The viewer's frame worker: the pipeline and what it waits for.
pub struct FrameReader {
    pipeline: ViewerPipeline,
    phase: FramePhase,
}

impl FrameReader {
    /// What the worker waits for.
    pub closed spec fn phase(self) -> FramePhase {
        self.phase
    }

    /// The pipeline that rebuilds the frames.
    pub closed spec fn pipeline(self) -> ViewerPipeline {
        self.pipeline
    }

    /// The pipeline is well formed.
    pub closed spec fn wf(self) -> bool {
        self.pipeline.wf()
    }

    /// Bytes that the worker reads next; `None` once it has ended.
    pub open spec fn wanted(self) -> Option<nat> {
        match self.phase() {
            FramePhase::Header => Some(LENGTH_PREFIX_LEN as nat),
            FramePhase::Payload(n) => Some(n as nat),
            FramePhase::Closed => None,
        }
    }

    /// A worker for a session of the given dimensions, before its first frame.
    pub fn new(meta: FrameMeta) -> (reader: FrameReader)
        requires
            meta.wf(),
        ensures
            reader.wf(),
            reader.phase() == FramePhase::Header,
            reader.pipeline().meta() == meta,
            reader.pipeline().previous() is None,
    {
        FrameReader { pipeline: ViewerPipeline::new(meta), phase: FramePhase::Header }
    }

    /// Tells how many bytes to read next, or `None` to end the worker.
    pub fn wants(&self) -> (n: Option<usize>)
        ensures
            match n {
                Some(len) => self.wanted() == Some(len as nat),
                None => self.wanted() is None,
            },
    {
        match self.phase {
            FramePhase::Header => Some(LENGTH_PREFIX_LEN),
            FramePhase::Payload(n) => Some(n),
            FramePhase::Closed => None,
        }
    }

    /// The frame to display: the last one rebuilt, if any.
    pub fn frame(&self) -> (frame: Option<&Vec<u8>>)
        ensures
            frame matches Some(f) ==> self.pipeline().previous() == Some(f@),
            frame is None <==> self.pipeline().previous() is None,
    {
        self.pipeline.frame()
    }

    /// Takes the bytes that were read, as many as `wants` asked for, or
    /// `None` where the read failed.
    ///
    /// A length prefix makes the worker wait for that many payload bytes. A
    /// payload is decompressed and rebuilt into the next frame. A failed
    /// read or a refused payload ends the worker and leaves the last frame
    /// as it was.
    pub fn feed(&mut self, input: Option<&[u8]>) -> (event: FrameEvent)
        requires
            old(self).wf(),
            old(self).wanted() is Some,
            input matches Some(bytes) ==> old(self).wanted() == Some(bytes@.len()),
        ensures
            final(self).wf(),
            final(self).pipeline().meta() == old(self).pipeline().meta(),
            match (old(self).phase(), input) {
                (_, None) => {
                    &&& event == FrameEvent::Stop(CloseReason::Transport)
                    &&& final(self).phase() == FramePhase::Closed
                    &&& final(self).pipeline() == old(self).pipeline()
                },
                (FramePhase::Header, Some(bytes)) => {
                    &&& event == FrameEvent::Continue
                    &&& final(self).phase() == FramePhase::Payload(be_value(bytes@) as usize)
                    &&& final(self).pipeline() == old(self).pipeline()
                },
                (_, Some(bytes)) => match inflated(bytes@) {
                    None => {
                        &&& event == FrameEvent::Stop(CloseReason::Frame(FrameError::Corrupt))
                        &&& final(self).phase() == FramePhase::Closed
                        &&& final(self).pipeline() == old(self).pipeline()
                    },
                    Some(delta) => if delta.len() == old(self).pipeline().meta().planar_len() {
                        &&& event == FrameEvent::Ready
                        &&& final(self).phase() == FramePhase::Header
                        &&& final(self).pipeline().previous() == Some(
                            rebuilt_from(old(self).pipeline().previous(), delta),
                        )
                    } else {
                        &&& event == FrameEvent::Stop(CloseReason::Frame(FrameError::WrongSize))
                        &&& final(self).phase() == FramePhase::Closed
                        &&& final(self).pipeline() == old(self).pipeline()
                    },
                },
            },
    {
        let bytes: &[u8] = match input {
            Some(bytes) => bytes,
            None => {
                self.phase = FramePhase::Closed;
                return FrameEvent::Stop(CloseReason::Transport);
            },
        };
        match self.phase {
            FramePhase::Header => {
                let header: [u8; 3] = [bytes[0], bytes[1], bytes[2]];
                proof {
                    assert(header@ =~= bytes@);
                }
                self.phase = FramePhase::Payload(depack(&header));
                FrameEvent::Continue
            },
            _ => {
                match self.pipeline.receive(bytes) {
                    Ok(()) => {
                        self.phase = FramePhase::Header;
                        FrameEvent::Ready
                    },
                    Err(error) => {
                        self.phase = FramePhase::Closed;
                        FrameEvent::Stop(CloseReason::Frame(error))
                    },
                }
            },
        }
    }
}

} // verus!
