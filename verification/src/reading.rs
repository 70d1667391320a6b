//! How bytes are gathered from a socket: when to read again, when to stop, when to give up.

use vstd::prelude::*;
use vstd::string::*;

use crate::protocol::{SmtpError, COMMAND_TERM, DRAIN_TIMEOUT_MS};
use crate::text::ends_with;

verus! {

/// How one wait on a socket ended. No bytes at all means that the client has stopped sending.
#[derive(Debug)]
pub enum ReadOutcome {
    Bytes(Vec<u8>),
    TimedOut,
    Cancelled,
    Failed,
}

/// What a [`ReadOutcome`] holds.
pub enum ReadEvent {
    Bytes(Seq<u8>),
    TimedOut,
    Cancelled,
    Failed,
}

impl View for ReadOutcome {
    type V = ReadEvent;

    open spec fn view(&self) -> ReadEvent {
        match *self {
            ReadOutcome::Bytes(bytes) => ReadEvent::Bytes(bytes@),
            ReadOutcome::TimedOut => ReadEvent::TimedOut,
            ReadOutcome::Cancelled => ReadEvent::Cancelled,
            ReadOutcome::Failed => ReadEvent::Failed,
        }
    }
}

/// Why a conversation ended early.
#[derive(Debug)]
pub enum SessionError {
    /// A rule of the conversation was broken, or the server is going down.
    Smtp(SmtpError),
    /// The client sent a command without a single word.
    EmptyCommand,
    /// The socket could not be read.
    ReadFailed,
    /// The socket could not be written.
    WriteFailed,
}

/// What to do after one wait on a socket.
#[derive(Debug)]
pub enum ReadMore {
    /// Wait again, for no longer than `timeout_ms`; `total_read` bytes have arrived so far.
    Again { total_read: usize, timeout_ms: u64 },
    /// The read is complete, with this many bytes.
    Done(usize),
    /// The read has failed.
    Error(SessionError),
}

/// What a [`ReadMore`] says.
pub enum ReadMoreView {
    Again { total_read: nat, timeout_ms: u64 },
    Done(nat),
    Error(SessionError),
}

impl View for ReadMore {
    type V = ReadMoreView;

    open spec fn view(&self) -> ReadMoreView {
        match *self {
            ReadMore::Again { total_read, timeout_ms } => ReadMoreView::Again {
                total_read: total_read as nat,
                timeout_ms,
            },
            ReadMore::Done(n) => ReadMoreView::Done(n as nat),
            ReadMore::Error(error) => ReadMoreView::Error(error),
        }
    }
}

/// Whether `count` more bytes fit, where `total_read` bytes of the same read are in a buffer of
/// `held` bytes already. Those count twice: once by themselves, and once as part of the buffer.
pub open spec fn fits(total_read: nat, count: nat, held: nat, max_read_size: nat) -> bool {
    total_read + count + held < max_read_size
}

/// The bytes in the buffer `to` after one wait.
pub open spec fn buffer_after(
    total_read: nat,
    max_read_size: nat,
    to: Seq<u8>,
    event: ReadEvent,
) -> Seq<u8> {
    match event {
        ReadEvent::Bytes(bytes) => if fits(total_read, bytes.len(), to.len(), max_read_size) {
            to + bytes
        } else {
            to
        },
        _ => to,
    }
}

/// What to do after one wait, where `total_read` bytes of this read are in the buffer `to`
/// already.
pub open spec fn read_after(
    total_read: nat,
    max_read_size: nat,
    to: Seq<u8>,
    event: ReadEvent,
) -> ReadMoreView {
    match event {
        ReadEvent::Bytes(bytes) => if bytes.len() == 0 {
            ReadMoreView::Done(total_read)
        } else if fits(total_read, bytes.len(), to.len(), max_read_size) {
            ReadMoreView::Again {
                total_read: total_read + bytes.len(),
                timeout_ms: DRAIN_TIMEOUT_MS,
            }
        } else {
            ReadMoreView::Error(SessionError::Smtp(SmtpError::PayloadTooLargeError))
        },
        ReadEvent::TimedOut => ReadMoreView::Done(total_read),
        ReadEvent::Cancelled => ReadMoreView::Error(SessionError::Smtp(SmtpError::ServerShutdown)),
        ReadEvent::Failed => ReadMoreView::Error(SessionError::ReadFailed),
    }
}

/// Takes in what one wait on the socket has brought.
pub fn read_more(
    total_read: usize,
    max_read_size: usize,
    to: &mut Vec<u8>,
    outcome: ReadOutcome,
) -> (step: ReadMore)
    ensures
        final(to)@ == buffer_after(
            total_read as nat,
            max_read_size as nat,
            old(to)@,
            outcome@,
        ),
        step@ == read_after(total_read as nat, max_read_size as nat, old(to)@, outcome@),
{
    match outcome {
        ReadOutcome::Bytes(bytes) => {
            if bytes.len() == 0 {
                assert(to@ + bytes@ == to@);
                return ReadMore::Done(total_read);
            }
            let held: usize = to.len();
            if held >= max_read_size || total_read >= max_read_size - held || bytes.len()
                >= max_read_size - held - total_read {
                return ReadMore::Error(SessionError::Smtp(SmtpError::PayloadTooLargeError));
            }
            let total: usize = total_read + bytes.len();
            let mut bytes = bytes;
            to.append(&mut bytes);
            ReadMore::Again { total_read: total, timeout_ms: DRAIN_TIMEOUT_MS }
        },
        ReadOutcome::TimedOut => ReadMore::Done(total_read),
        ReadOutcome::Cancelled => ReadMore::Error(SessionError::Smtp(SmtpError::ServerShutdown)),
        ReadOutcome::Failed => ReadMore::Error(SessionError::ReadFailed),
    }
}

/// What to do after a complete read while a command is awaited.
#[derive(Debug, Clone, Copy)]
pub enum ReadCommand {
    /// The command goes on; this many bytes of it are there.
    Unfinished(usize),
    /// The command is there, with this many bytes.
    Ready(usize),
    /// Nothing came.
    NoContent,
}

/// What a [`ReadCommand`] says.
pub enum ReadCommandView {
    Unfinished(nat),
    Ready(nat),
    NoContent,
}

impl View for ReadCommand {
    type V = ReadCommandView;

    open spec fn view(&self) -> ReadCommandView {
        match *self {
            ReadCommand::Unfinished(n) => ReadCommandView::Unfinished(n as nat),
            ReadCommand::Ready(n) => ReadCommandView::Ready(n as nat),
            ReadCommand::NoContent => ReadCommandView::NoContent,
        }
    }
}

/// What a complete read of `curr_read_bytes` bytes means, where `n` bytes of the command had
/// come before and `to` is the buffer now. A command is there once the buffer ends with
/// [`COMMAND_TERM`], or once nothing more comes.
pub open spec fn command_after(n: nat, curr_read_bytes: nat, to: Seq<u8>) -> ReadCommandView {
    if n + curr_read_bytes == 0 {
        ReadCommandView::NoContent
    } else if curr_read_bytes == 0 || COMMAND_TERM.spec_bytes().is_suffix_of(to) {
        ReadCommandView::Ready(n + curr_read_bytes)
    } else {
        ReadCommandView::Unfinished(n + curr_read_bytes)
    }
}

/// Decides whether the command is complete.
pub fn read_command(n: usize, curr_read_bytes: usize, to: &Vec<u8>) -> (step: ReadCommand)
    requires
        n + curr_read_bytes <= usize::MAX,
    ensures
        step@ == command_after(n as nat, curr_read_bytes as nat, to@),
{
    if curr_read_bytes == 0 {
        if n == 0 {
            ReadCommand::NoContent
        } else {
            ReadCommand::Ready(n)
        }
    } else if ends_with(to, COMMAND_TERM) {
        ReadCommand::Ready(n + curr_read_bytes)
    } else {
        ReadCommand::Unfinished(n + curr_read_bytes)
    }
}

} // verus!
