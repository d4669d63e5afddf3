//! The workers that exchange streams.

use vstd::prelude::*;

verus! {

/// How long a worker waits before it tries to connect again.
pub const RECONNECT_PAUSE_MS: u64 = 200;

/// The byte that uploads are made of.
pub const UPLOAD_BYTE: u8 = 0x55;

/// How a read ended.
#[derive(Clone, Copy, Debug, PartialEq, Eq, Structural)]
pub enum ReadOutcome {
    /// So many bytes came; none at the end of the stream.
    Read(usize),
    Failed,
    TimedOut,
}

/// What follows from an exchange: the bytes to count, and whether to connect anew.
#[derive(Clone, Copy, Debug, PartialEq, Eq, Structural)]
pub struct StreamStep {
    pub bytes: usize,
    pub reconnect: bool,
}

/// A payload was written or not.
pub fn on_write(written: bool, payload: usize) -> (r: StreamStep)
    ensures
        r == if written {
            StreamStep { bytes: payload, reconnect: false }
        } else {
            StreamStep { bytes: 0, reconnect: true }
        },
{
    if written {
        StreamStep { bytes: payload, reconnect: false }
    } else {
        StreamStep { bytes: 0, reconnect: true }
    }
}

/// A read ended. One that merely took too long is tried again on the same stream.
pub fn on_read(outcome: ReadOutcome) -> (r: StreamStep)
    ensures
        r == match outcome {
            ReadOutcome::Read(read) => StreamStep { bytes: read, reconnect: read == 0 },
            ReadOutcome::Failed => StreamStep { bytes: 0, reconnect: true },
            ReadOutcome::TimedOut => StreamStep { bytes: 0, reconnect: false },
        },
{
    match outcome {
        ReadOutcome::Read(read) => StreamStep { bytes: read, reconnect: read == 0 },
        ReadOutcome::Failed => StreamStep { bytes: 0, reconnect: true },
        ReadOutcome::TimedOut => StreamStep { bytes: 0, reconnect: false },
    }
}

} // verus!
