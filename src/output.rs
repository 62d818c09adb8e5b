//! Process output: what one read of the terminal turns into, and what is
//! shown of a task's log.

use crate::external::{lossy_text, lossy_utf8};
use vstd::prelude::*;

verus! {

/// The most bytes that one read of a terminal takes.
pub const READ_CHUNK_SIZE: usize = 4096;

/// The most bytes of a log that its history shows: the trailing ones.
pub const LOG_HISTORY_LIMIT: u64 = 50_000;

/// A live notification of output of the task `id`.
#[derive(Clone, Debug, PartialEq, Eq)]
pub struct OutputEvent {
    pub id: String,
    pub data: String,
}

/// What one non-empty read of a terminal is turned into: the bytes to append
/// to the task's log and the notification to publish.
#[derive(Clone, Debug)]
pub struct OutputChunk {
    pub bytes: Vec<u8>,
    pub event: OutputEvent,
}

/// What the output pump does after a read.
#[derive(Clone, Debug)]
pub enum PumpStep {
    /// The terminal is closed or failed: the pump ends.
    Finish,
    /// Log and publish the chunk, then read again.
    Forward(OutputChunk),
}

/// One step of the output pump of the task `id`: `read` is the number of
/// bytes that a read placed at the start of `buffer` (a buffer of at most
/// [`READ_CHUNK_SIZE`] bytes), or `None` where the read failed.
pub fn pump_step(id: &str, buffer: &[u8], read: Option<usize>) -> (r: PumpStep)
    requires
        buffer@.len() <= READ_CHUNK_SIZE,
        read matches Some(n) ==> n <= buffer@.len(),
    ensures
        match r {
            PumpStep::Finish => read is None || read == Some(0usize),
            PumpStep::Forward(c) => {
                &&& read is Some
                &&& read.unwrap() > 0
                &&& c.bytes@ == buffer@.subrange(0, read.unwrap() as int)
                &&& c.bytes@.len() <= READ_CHUNK_SIZE
                &&& c.event.id@ == id@
                &&& c.event.data@ == lossy_utf8(c.bytes@)
            },
        },
{
    match read {
        None => PumpStep::Finish,
        Some(n) => {
            if n == 0 {
                PumpStep::Finish
            } else {
                let mut bytes: Vec<u8> = Vec::with_capacity(n);
                let mut i: usize = 0;
                while i < n
                    invariant
                        n <= buffer@.len(),
                        i <= n,
                        bytes@ == buffer@.subrange(0, i as int),
                    decreases n - i,
                {
                    bytes.push(buffer[i]);
                    i += 1;
                    assert(bytes@ =~= buffer@.subrange(0, i as int));
                }
                let data = lossy_text(bytes.as_slice());
                PumpStep::Forward(OutputChunk { bytes, event: OutputEvent { id: id.to_owned(), data } })
            }
        },
    }
}

/// The trailing part of a log that its history shows.
pub open spec fn log_tail(log: Seq<u8>) -> Seq<u8> {
    if log.len() <= LOG_HISTORY_LIMIT {
        log
    } else {
        log.subrange(log.len() - LOG_HISTORY_LIMIT, log.len() as int)
    }
}

/// The offset in a log of `size` bytes where its history begins.
pub fn log_tail_start(size: u64) -> (r: u64)
    ensures
        r == if size <= LOG_HISTORY_LIMIT {
            0
        } else {
            size - LOG_HISTORY_LIMIT
        },
{
    if size <= LOG_HISTORY_LIMIT {
        0
    } else {
        size - LOG_HISTORY_LIMIT
    }
}

/// The history of a log read up to its end (from any offset): its trailing
/// bytes, at most [`LOG_HISTORY_LIMIT`] of them, as text. A character cut
/// in two at the start comes out as a replacement character.
pub fn get_log_history(log: &[u8]) -> (r: String)
    ensures
        r@ == lossy_utf8(log_tail(log@)),
{
    let len = log.len();
    let start: usize = if len as u64 <= LOG_HISTORY_LIMIT {
        0
    } else {
        len - LOG_HISTORY_LIMIT as usize
    };
    let tail = &log[start..len];
    assert(tail@ =~= log_tail(log@));
    lossy_text(tail)
}

} // verus!
