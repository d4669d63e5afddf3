//! The workers of a transfer stage: what each does next, and what is counted.

use vstd::prelude::*;

use crate::speedtest::api::ResolvedSpeedtestApi;
use crate::speedtest::browser_protocol::transfer::TransferRequestError;
use crate::speedtest::transfer_util::{request_tally, tally_of, Tally};

verus! {

/// What a worker does next.
#[derive(Clone, Copy, Debug, PartialEq, Eq, Structural)]
pub enum WorkerOrder {
    /// Look at the state of the stage again.
    Turn,
    Connect,
    /// Transfer so many bytes.
    Request(usize),
    /// End, with a farewell to the server or without.
    Finish { farewell: bool },
}

/// How the number of active connections changes.
#[derive(Clone, Copy, Debug, PartialEq, Eq, Structural)]
pub enum ActiveChange {
    Same,
    Up,
    Down,
}

impl ActiveChange {
    pub open spec fn amount(self) -> int {
        match self {
            ActiveChange::Same => 0,
            ActiveChange::Up => 1,
            ActiveChange::Down => -1,
        }
    }
}

/// What follows from an event.
#[derive(Clone, Copy, Debug, PartialEq, Eq, Structural)]
pub struct WorkerStep {
    pub order: WorkerOrder,
    pub tally: Option<Tally>,
    pub active: ActiveChange,
}

/// What happens to a worker. `stop` is set once the stage is over, `target` is the number of
/// workers that may run, and `size` that of the next request.
#[derive(Clone, Copy, Debug, PartialEq, Eq, Structural)]
pub enum WorkerEvent {
    Turn { stop: bool, target: usize, size: usize },
    Connected { size: usize },
    ConnectFailed,
    Transferred,
    TransferFailed,
    /// The stage ended while the worker was waiting.
    Interrupted,
}

/// A worker that downloads over a connection of its own, which it keeps open.
#[derive(Clone, Copy, Debug, PartialEq, Eq, Structural)]
pub struct TcpWorker {
    pub index: usize,
    pub connected: bool,
}

pub open spec fn held(connected: bool) -> int {
    if connected {
        1
    } else {
        0
    }
}

/// The change that leaves nothing counted.
pub open spec fn let_go(connected: bool) -> ActiveChange {
    if connected {
        ActiveChange::Down
    } else {
        ActiveChange::Same
    }
}

impl TcpWorker {
    pub fn new(index: usize) -> (r: TcpWorker)
        ensures
            r == (TcpWorker { index, connected: false }),
    {
        TcpWorker { index, connected: false }
    }

    /// What follows from an event.
    pub open spec fn step(self, event: WorkerEvent) -> WorkerStep {
        match event {
            WorkerEvent::Turn { stop, target, size } => if stop || self.index >= target {
                WorkerStep {
                    order: WorkerOrder::Finish { farewell: self.connected },
                    tally: None,
                    active: let_go(self.connected),
                }
            } else if self.connected {
                WorkerStep {
                    order: WorkerOrder::Request(size),
                    tally: Some(Tally::Attempt),
                    active: ActiveChange::Same,
                }
            } else {
                WorkerStep {
                    order: WorkerOrder::Connect,
                    tally: None,
                    active: ActiveChange::Same,
                }
            },
            WorkerEvent::Connected { size } => WorkerStep {
                order: WorkerOrder::Request(size),
                tally: Some(Tally::Attempt),
                active: if self.connected {
                    ActiveChange::Same
                } else {
                    ActiveChange::Up
                },
            },
            WorkerEvent::ConnectFailed => WorkerStep {
                order: WorkerOrder::Turn,
                tally: Some(Tally::TransportError),
                active: ActiveChange::Same,
            },
            WorkerEvent::Transferred => WorkerStep {
                order: WorkerOrder::Turn,
                tally: Some(Tally::Success),
                active: ActiveChange::Same,
            },
            WorkerEvent::TransferFailed => WorkerStep {
                order: WorkerOrder::Turn,
                tally: Some(Tally::ReadError),
                active: let_go(self.connected),
            },
            WorkerEvent::Interrupted => WorkerStep {
                order: WorkerOrder::Finish { farewell: self.connected },
                tally: None,
                active: let_go(self.connected),
            },
        }
    }

    /// Whether the worker is connected after an event.
    pub open spec fn connected_after(self, event: WorkerEvent) -> bool {
        match event {
            WorkerEvent::Turn { stop, target, .. } => self.connected && !stop && self.index
                < target,
            WorkerEvent::Connected { .. } => true,
            WorkerEvent::ConnectFailed => self.connected,
            WorkerEvent::Transferred => self.connected,
            WorkerEvent::TransferFailed => false,
            WorkerEvent::Interrupted => false,
        }
    }

    pub fn on_event(&mut self, event: WorkerEvent) -> (r: WorkerStep)
        ensures
            r == old(self).step(event),
            *final(self) == (TcpWorker {
                connected: old(self).connected_after(event),
                ..*old(self)
            }),
    {
        let down = if self.connected {
            ActiveChange::Down
        } else {
            ActiveChange::Same
        };
        match event {
            WorkerEvent::Turn { stop, target, size } => {
                if stop || self.index >= target {
                    let farewell = self.connected;
                    self.connected = false;
                    return WorkerStep {
                        order: WorkerOrder::Finish { farewell },
                        tally: None,
                        active: down,
                    };
                }
                if self.connected {
                    return WorkerStep {
                        order: WorkerOrder::Request(size),
                        tally: Some(Tally::Attempt),
                        active: ActiveChange::Same,
                    };
                }
                WorkerStep { order: WorkerOrder::Connect, tally: None, active: ActiveChange::Same }
            },
            WorkerEvent::Connected { size } => {
                let active = if self.connected {
                    ActiveChange::Same
                } else {
                    ActiveChange::Up
                };
                self.connected = true;
                WorkerStep {
                    order: WorkerOrder::Request(size),
                    tally: Some(Tally::Attempt),
                    active,
                }
            },
            WorkerEvent::ConnectFailed => WorkerStep {
                order: WorkerOrder::Turn,
                tally: Some(Tally::TransportError),
                active: ActiveChange::Same,
            },
            WorkerEvent::Transferred => WorkerStep {
                order: WorkerOrder::Turn,
                tally: Some(Tally::Success),
                active: ActiveChange::Same,
            },
            WorkerEvent::TransferFailed => {
                self.connected = false;
                WorkerStep {
                    order: WorkerOrder::Turn,
                    tally: Some(Tally::ReadError),
                    active: down,
                }
            },
            WorkerEvent::Interrupted => {
                let farewell = self.connected;
                self.connected = false;
                WorkerStep { order: WorkerOrder::Finish { farewell }, tally: None, active: down }
            },
        }
    }
}

/// The count of active connections follows the connection of a worker event by event, and a worker
/// that ends holds none.
pub proof fn connections_are_counted_while_held(worker: TcpWorker, event: WorkerEvent)
    ensures
        held(worker.connected_after(event)) == held(worker.connected) + worker.step(
            event,
        ).active.amount(),
        worker.step(event).order is Finish ==> !worker.connected_after(event),
{
}

/// A worker that asks in HTTP requests: what it does at its turn. While a request runs, its
/// connection counts as active.
pub open spec fn request_turn(index: usize, stop: bool, target: usize, size: usize) -> WorkerStep {
    if stop || index >= target {
        WorkerStep {
            order: WorkerOrder::Finish { farewell: false },
            tally: None,
            active: ActiveChange::Same,
        }
    } else {
        WorkerStep {
            order: WorkerOrder::Request(size),
            tally: Some(Tally::Attempt),
            active: ActiveChange::Up,
        }
    }
}

pub fn on_request_turn(index: usize, stop: bool, target: usize, size: usize) -> (r: WorkerStep)
    ensures
        r == request_turn(index, stop, target, size),
{
    if stop || index >= target {
        WorkerStep {
            order: WorkerOrder::Finish { farewell: false },
            tally: None,
            active: ActiveChange::Same,
        }
    } else {
        WorkerStep {
            order: WorkerOrder::Request(size),
            tally: Some(Tally::Attempt),
            active: ActiveChange::Up,
        }
    }
}

/// The end of a request: its outcome, or nothing where the stage ended first.
pub open spec fn request_end(outcome: Option<Result<u64, TransferRequestError>>) -> WorkerStep {
    match outcome {
        Some(result) => WorkerStep {
            order: WorkerOrder::Turn,
            tally: Some(tally_of(result)),
            active: ActiveChange::Down,
        },
        None => WorkerStep {
            order: WorkerOrder::Finish { farewell: false },
            tally: None,
            active: ActiveChange::Down,
        },
    }
}

pub fn on_request_end(outcome: &Option<Result<u64, TransferRequestError>>) -> (r: WorkerStep)
    ensures
        r == request_end(*outcome),
{
    match outcome {
        Some(result) => WorkerStep {
            order: WorkerOrder::Turn,
            tally: Some(request_tally(result)),
            active: ActiveChange::Down,
        },
        None => WorkerStep {
            order: WorkerOrder::Finish { farewell: false },
            tally: None,
            active: ActiveChange::Down,
        },
    }
}

/// A request counts as an active connection exactly while it runs.
pub proof fn requests_are_counted_while_they_run(
    index: usize,
    stop: bool,
    target: usize,
    size: usize,
    outcome: Option<Result<u64, TransferRequestError>>,
)
    ensures
        request_turn(index, stop, target, size).order is Request ==> request_turn(
            index,
            stop,
            target,
            size,
        ).active.amount() + request_end(outcome).active.amount() == 0,
        request_turn(index, stop, target, size).order is Finish ==> request_turn(
            index,
            stop,
            target,
            size,
        ).active.amount() == 0,
{
}

/// A worker that uploads over a connection of its own until a point in time. A connection counts
/// as active while an upload runs.
#[derive(Clone, Copy, Debug, PartialEq, Eq, Structural)]
pub struct UploadTcpWorker {
    pub connected: bool,
}

/// The bytes of one upload over a plain connection.
pub const TCP_UPLOAD_BYTES: usize = 25_000_000;

impl UploadTcpWorker {
    pub fn new() -> (r: UploadTcpWorker)
        ensures
            !r.connected,
    {
        UploadTcpWorker { connected: false }
    }

    /// What the worker does at its turn.
    pub open spec fn turn_step(self, over: bool) -> WorkerStep {
        if over {
            WorkerStep {
                order: WorkerOrder::Finish { farewell: self.connected },
                tally: None,
                active: ActiveChange::Same,
            }
        } else if self.connected {
            WorkerStep {
                order: WorkerOrder::Request(TCP_UPLOAD_BYTES),
                tally: Some(Tally::Attempt),
                active: ActiveChange::Up,
            }
        } else {
            WorkerStep { order: WorkerOrder::Connect, tally: None, active: ActiveChange::Same }
        }
    }

    pub fn on_turn(&self, over: bool) -> (r: WorkerStep)
        ensures
            r == self.turn_step(over),
    {
        if over {
            return WorkerStep {
                order: WorkerOrder::Finish { farewell: self.connected },
                tally: None,
                active: ActiveChange::Same,
            };
        }
        if self.connected {
            WorkerStep {
                order: WorkerOrder::Request(TCP_UPLOAD_BYTES),
                tally: Some(Tally::Attempt),
                active: ActiveChange::Up,
            }
        } else {
            WorkerStep { order: WorkerOrder::Connect, tally: None, active: ActiveChange::Same }
        }
    }

    /// A connection was made or not.
    pub fn on_connect(&mut self, connected: bool) -> (r: WorkerStep)
        ensures
            final(self).connected == connected,
            r == if connected {
                WorkerStep {
                    order: WorkerOrder::Request(TCP_UPLOAD_BYTES),
                    tally: Some(Tally::Attempt),
                    active: ActiveChange::Up,
                }
            } else {
                WorkerStep {
                    order: WorkerOrder::Turn,
                    tally: Some(Tally::TransportError),
                    active: ActiveChange::Same,
                }
            },
    {
        self.connected = connected;
        if connected {
            WorkerStep {
                order: WorkerOrder::Request(TCP_UPLOAD_BYTES),
                tally: Some(Tally::Attempt),
                active: ActiveChange::Up,
            }
        } else {
            WorkerStep {
                order: WorkerOrder::Turn,
                tally: Some(Tally::TransportError),
                active: ActiveChange::Same,
            }
        }
    }

    /// An upload succeeded or failed; a connection on which one failed is given up.
    pub fn on_uploaded(&mut self, succeeded: bool) -> (r: WorkerStep)
        ensures
            final(self).connected == (old(self).connected && succeeded),
            r == (WorkerStep {
                order: WorkerOrder::Turn,
                tally: Some(
                    if succeeded {
                        Tally::Success
                    } else {
                        Tally::ReadError
                    },
                ),
                active: ActiveChange::Down,
            }),
    {
        if succeeded {
            return WorkerStep {
                order: WorkerOrder::Turn,
                tally: Some(Tally::Success),
                active: ActiveChange::Down,
            };
        }
        self.connected = false;
        WorkerStep {
            order: WorkerOrder::Turn,
            tally: Some(Tally::ReadError),
            active: ActiveChange::Down,
        }
    }
}

/// The sizes of upload requests, in turn: 256 KiB and then twice as much each time, five in all.
pub open spec fn upload_size(turn: int) -> int {
    if turn == 0 {
        262_144
    } else if turn == 1 {
        524_288
    } else if turn == 2 {
        1_048_576
    } else if turn == 3 {
        2_097_152
    } else {
        4_194_304
    }
}

/// The bytes of each request of the legacy interface: 256 KiB.
pub const LEGACY_UPLOAD_BYTES: usize = 262_144;

/// The bytes of an upload request: the same for each over the legacy interface and over a plain
/// connection, else those of the worker's turn.
pub open spec fn upload_request_bytes(api: ResolvedSpeedtestApi, turn: int) -> int {
    match api {
        ResolvedSpeedtestApi::Legacy => LEGACY_UPLOAD_BYTES as int,
        ResolvedSpeedtestApi::Modern => upload_size(turn),
        ResolvedSpeedtestApi::ModernTcp => TCP_UPLOAD_BYTES as int,
    }
}

/// What a worker that can send does at its turn: one request after the other until time is over.
pub open spec fn upload_turn(api: ResolvedSpeedtestApi, over: bool, turn: int) -> WorkerStep {
    if over {
        WorkerStep {
            order: WorkerOrder::Finish { farewell: api == ResolvedSpeedtestApi::ModernTcp },
            tally: None,
            active: ActiveChange::Same,
        }
    } else {
        WorkerStep {
            order: WorkerOrder::Request(upload_request_bytes(api, turn) as usize),
            tally: Some(Tally::Attempt),
            active: ActiveChange::Up,
        }
    }
}

/// What a worker of an interface does at its turn. Over a plain connection it holds one; how it
/// comes by it is for [`UploadTcpWorker`].
pub fn on_upload_turn(api: ResolvedSpeedtestApi, over: bool, sizes: &mut SizeCursor) -> (r:
    WorkerStep)
    requires
        old(sizes).turn < 5,
    ensures
        r == upload_turn(api, over, old(sizes).turn as int),
        final(sizes).turn == if over || api != ResolvedSpeedtestApi::Modern {
            old(sizes).turn as int
        } else {
            (old(sizes).turn + 1) % 5
        },
        final(sizes).turn < 5,
{
    if over {
        return WorkerStep {
            order: WorkerOrder::Finish { farewell: api == ResolvedSpeedtestApi::ModernTcp },
            tally: None,
            active: ActiveChange::Same,
        };
    }
    let size: usize = match api {
        ResolvedSpeedtestApi::Legacy => LEGACY_UPLOAD_BYTES,
        ResolvedSpeedtestApi::Modern => sizes.next_size(),
        ResolvedSpeedtestApi::ModernTcp => TCP_UPLOAD_BYTES,
    };
    WorkerStep {
        order: WorkerOrder::Request(size),
        tally: Some(Tally::Attempt),
        active: ActiveChange::Up,
    }
}

/// Over every interface a worker that holds what it needs does the same at its turn as a worker of
/// that interface alone.
pub proof fn interfaces_take_their_turns(over: bool, turn: int, index: usize, target: usize)
    requires
        index < target,
    ensures
        upload_turn(ResolvedSpeedtestApi::Modern, over, turn) == request_turn(
            index,
            over,
            target,
            upload_size(turn) as usize,
        ),
        upload_turn(ResolvedSpeedtestApi::Legacy, over, turn) == request_turn(
            index,
            over,
            target,
            LEGACY_UPLOAD_BYTES,
        ),
        upload_turn(ResolvedSpeedtestApi::ModernTcp, over, turn) == (UploadTcpWorker {
            connected: true,
        }).turn_step(over),
{
}

/// The place of a worker in the list of sizes.
#[derive(Clone, Copy, Debug, PartialEq, Eq, Structural)]
pub struct SizeCursor {
    pub turn: usize,
}

impl SizeCursor {
    /// Workers start at different places.
    pub fn new(worker: usize) -> (r: SizeCursor)
        ensures
            r.turn == worker % 5,
    {
        SizeCursor { turn: worker % 5 }
    }

    /// The size of the next request.
    pub fn next_size(&mut self) -> (r: usize)
        requires
            old(self).turn < 5,
        ensures
            r == upload_size(old(self).turn as int),
            final(self).turn == (old(self).turn + 1) % 5,
            final(self).turn < 5,
    {
        let turn: usize = self.turn;
        self.turn = (turn + 1) % 5;
        if turn == 0 {
            262_144
        } else if turn == 1 {
            524_288
        } else if turn == 2 {
            1_048_576
        } else if turn == 3 {
            2_097_152
        } else {
            4_194_304
        }
    }
}

/// A worker of a connection of its own asks for bytes exactly while the stage runs, its place is
/// among those that may run, and it is connected; it connects where it is not, and gives up a
/// connection that failed.
pub proof fn workers_ask_while_they_may(worker: TcpWorker, stop: bool, target: usize, size: usize)
    ensures
        ({
            let turn = WorkerEvent::Turn { stop, target, size };
            let step = worker.step(turn);
            &&& step.order is Finish <==> stop || worker.index >= target
            &&& !stop && worker.index < target && worker.connected ==> step.order
                == WorkerOrder::Request(size) && step.tally == Some(Tally::Attempt)
            &&& !stop && worker.index < target && !worker.connected ==> step.order
                == WorkerOrder::Connect && step.tally is None
        }),
        worker.step(WorkerEvent::Connected { size }).order == WorkerOrder::Request(size),
        worker.connected_after(WorkerEvent::Connected { size }),
        !worker.connected_after(WorkerEvent::TransferFailed),
        worker.step(WorkerEvent::Transferred).tally == Some(Tally::Success),
        worker.step(WorkerEvent::TransferFailed).tally == Some(Tally::ReadError),
        worker.step(WorkerEvent::ConnectFailed).tally == Some(Tally::TransportError),
{
}

/// A worker that asks in requests does so exactly while the stage runs and its place is among those
/// that may run.
pub proof fn requests_are_made_while_they_may(index: usize, stop: bool, target: usize, size: usize)
    ensures
        request_turn(index, stop, target, size).order == WorkerOrder::Request(size) <==> !stop
            && index < target,
        request_turn(index, stop, target, size).order is Finish <==> stop || index >= target,
{
}

/// The sizes of upload requests double from one to the next, from 256 KiB to 4 MiB.
pub proof fn upload_sizes_double(turn: int)
    requires
        0 <= turn < 4,
    ensures
        upload_size(turn + 1) == 2 * upload_size(turn),
        upload_size(0) == 256 * 1_024,
        upload_size(4) == 4 * 1_024 * 1_024,
{
}

} // verus!
