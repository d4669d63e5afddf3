//! What downloads and uploads share: the servers they use, their workers and their clock.
//!
//! Points in time are nanoseconds of a clock that only runs forward.

use vstd::prelude::*;

use crate::num::whole::{greatest, monus};
use crate::speedtest::browser_protocol::transfer::TransferRequestError;
use crate::speedtest::servers::SpeedtestServer;
use crate::speedtest::throughput::{
    BlendedRate, ThroughputCalculator, TransferConfig,
};

verus! {

/// Nanoseconds in a second.
pub const NANOS: u128 = 1_000_000_000;

/// The servers of a transfer: the pool, or the selected server where the pool is empty.
pub fn normalize_server_pool(
    selected_server: &SpeedtestServer,
    server_pool: &Vec<SpeedtestServer>,
) -> (r: Vec<SpeedtestServer>)
    ensures
        r@ == if server_pool.len() == 0 {
            seq![*selected_server]
        } else {
            server_pool@
        },
        r.len() > 0,
{
    let mut out: Vec<SpeedtestServer> = Vec::new();
    if server_pool.len() == 0 {
        out.push(selected_server.clone());
        assert(out@ =~= seq![*selected_server]);
        return out;
    }
    let mut i: usize = 0;
    while i < server_pool.len()
        invariant
            i <= server_pool.len(),
            out@ == server_pool@.take(i as int),
        decreases server_pool.len() - i,
    {
        out.push(server_pool[i].clone());
        i = i + 1;
        assert(out@ =~= server_pool@.take(i as int));
    }
    assert(server_pool@.take(i as int) =~= server_pool@);
    out
}

/// The first session id in a pool.
pub open spec fn first_guid(pool: Seq<SpeedtestServer>) -> Option<Seq<char>>
    decreases pool.len(),
{
    if pool.len() == 0 {
        None
    } else {
        match pool[0].session_guid {
            Some(guid) => Some(guid@),
            None => first_guid(pool.drop_first()),
        }
    }
}

/// The session id for servers that have none: that of the selected server, else the first in the
/// pool, else a name.
pub open spec fn fallback_guid(selected: SpeedtestServer, pool: Seq<SpeedtestServer>) -> Seq<char> {
    match selected.session_guid {
        Some(guid) => guid@,
        None => match first_guid(pool) {
            Some(guid) => guid,
            None => "tunmux-speedtest"@,
        },
    }
}

pub fn default_guid(selected: &SpeedtestServer, pool: &Vec<SpeedtestServer>) -> (r: String)
    ensures
        r@ == fallback_guid(*selected, pool@),
{
    if let Some(guid) = &selected.session_guid {
        return guid.clone();
    }
    let mut i: usize = 0;
    assert(pool@.skip(0) =~= pool@);
    while i < pool.len()
        invariant
            i <= pool.len(),
            selected.session_guid is None,
            first_guid(pool@) == first_guid(pool@.skip(i as int)),
        decreases pool.len() - i,
    {
        assert(pool@.skip(i as int).drop_first() =~= pool@.skip(i + 1));
        if let Some(guid) = &pool[i].session_guid {
            return guid.clone();
        }
        i = i + 1;
    }
    "tunmux-speedtest".to_owned()
}

/// The session id that a server is asked with.
pub fn server_guid(server: &SpeedtestServer, fallback: &str) -> (r: String)
    ensures
        r@ == match server.session_guid {
            Some(guid) => guid@,
            None => fallback@,
        },
{
    match &server.session_guid {
        Some(guid) => guid.clone(),
        None => fallback.to_owned(),
    }
}

/// The servers of a pool whose ids are in `ready`, in their order.
pub open spec fn ready_in(pool: Seq<SpeedtestServer>, ready: Seq<u64>) -> Seq<SpeedtestServer>
    decreases pool.len(),
{
    if pool.len() == 0 {
        Seq::empty()
    } else {
        let before = ready_in(pool.drop_last(), ready);
        if ready.contains(pool.last().id) {
            before.push(pool.last())
        } else {
            before
        }
    }
}

fn is_ready(ready: &Vec<u64>, id: u64) -> (r: bool)
    ensures
        r == ready@.contains(id),
{
    let mut i: usize = 0;
    while i < ready.len()
        invariant
            i <= ready.len(),
            forall|k: int| 0 <= k < i ==> #[trigger] ready[k] != id,
        decreases ready.len() - i,
    {
        if ready[i] == id {
            assert(ready@[i as int] == id);
            return true;
        }
        i = i + 1;
    }
    false
}

/// The servers that became ready.
pub fn keep_ready(pool: &Vec<SpeedtestServer>, ready: &Vec<u64>) -> (r: Vec<SpeedtestServer>)
    ensures
        r@ == ready_in(pool@, ready@),
{
    let mut out: Vec<SpeedtestServer> = Vec::new();
    let mut i: usize = 0;
    assert(pool@.take(0) =~= Seq::<SpeedtestServer>::empty());
    while i < pool.len()
        invariant
            i <= pool.len(),
            out@ == ready_in(pool@.take(i as int), ready@),
        decreases pool.len() - i,
    {
        assert(pool@.take(i + 1).drop_last() =~= pool@.take(i as int));
        assert(pool@.take(i + 1).last() == pool@[i as int]);
        if is_ready(ready, pool[i].id) {
            out.push(pool[i].clone());
        }
        i = i + 1;
    }
    assert(pool@.take(i as int) =~= pool@);
    out
}

/// The server of a worker: workers take turns.
pub fn worker_server(worker: usize, servers: usize) -> (r: usize)
    requires
        servers > 0,
    ensures
        r == worker % servers,
        r < servers,
{
    worker % servers
}

/// A connection that counts as active as long as it is held.
#[derive(Debug)]
pub struct ActiveConnectionGuard {
    counted: (),
}

/// A counter after one step up or down; it wraps around.
pub open spec fn stepped(counter: usize, up: bool) -> usize {
    if up {
        if counter == usize::MAX {
            0
        } else {
            (counter + 1) as usize
        }
    } else if counter == 0 {
        usize::MAX
    } else {
        (counter - 1) as usize
    }
}

impl ActiveConnectionGuard {
    /// Counts a connection.
    pub fn new(counter: &mut usize) -> (r: ActiveConnectionGuard)
        ensures
            *final(counter) == stepped(*old(counter), true),
    {
        *counter = if *counter == usize::MAX {
            0
        } else {
            *counter + 1
        };
        ActiveConnectionGuard { counted: () }
    }

    /// Counts the connection no longer.
    pub fn release(self, counter: &mut usize)
        ensures
            *final(counter) == stepped(*old(counter), false),
    {
        *counter = if *counter == 0 {
            usize::MAX
        } else {
            *counter - 1
        };
    }
}

/// A connection that is counted and released leaves the count as it was, also where another
/// connection is counted or released in between.
pub proof fn releasing_undoes_counting(counter: usize, up: bool)
    ensures
        stepped(stepped(counter, true), false) == counter,
        stepped(stepped(stepped(counter, true), up), false) == stepped(counter, up),
{
}

/// Counts of what happened to the requests of a stage.
#[derive(Clone, Copy, Debug, PartialEq, Eq, Structural)]
pub struct TransferCounters {
    pub request_attempts: u64,
    pub request_successes: u64,
    pub request_http_errors: u64,
    pub request_transport_errors: u64,
    pub response_read_errors: u64,
}

/// Something to count.
#[derive(Clone, Copy, Debug, PartialEq, Eq, Structural)]
pub enum Tally {
    Attempt,
    Success,
    HttpError,
    TransportError,
    ReadError,
}

/// One more, around the end of the range.
pub open spec fn one_more(n: u64) -> u64 {
    if n == u64::MAX {
        0
    } else {
        (n + 1) as u64
    }
}

impl TransferCounters {
    pub open spec fn none() -> TransferCounters {
        TransferCounters {
            request_attempts: 0,
            request_successes: 0,
            request_http_errors: 0,
            request_transport_errors: 0,
            response_read_errors: 0,
        }
    }

    pub fn new() -> (r: TransferCounters)
        ensures
            r == TransferCounters::none(),
    {
        TransferCounters {
            request_attempts: 0,
            request_successes: 0,
            request_http_errors: 0,
            request_transport_errors: 0,
            response_read_errors: 0,
        }
    }

    pub open spec fn counted(self, tally: Tally) -> TransferCounters {
        match tally {
            Tally::Attempt => TransferCounters {
                request_attempts: one_more(self.request_attempts),
                ..self
            },
            Tally::Success => TransferCounters {
                request_successes: one_more(self.request_successes),
                ..self
            },
            Tally::HttpError => TransferCounters {
                request_http_errors: one_more(self.request_http_errors),
                ..self
            },
            Tally::TransportError => TransferCounters {
                request_transport_errors: one_more(self.request_transport_errors),
                ..self
            },
            Tally::ReadError => TransferCounters {
                response_read_errors: one_more(self.response_read_errors),
                ..self
            },
        }
    }

    pub fn count(&mut self, tally: Tally)
        ensures
            *final(self) == old(self).counted(tally),
    {
        match tally {
            Tally::Attempt => {
                self.request_attempts = self.request_attempts.wrapping_add(1);
            },
            Tally::Success => {
                self.request_successes = self.request_successes.wrapping_add(1);
            },
            Tally::HttpError => {
                self.request_http_errors = self.request_http_errors.wrapping_add(1);
            },
            Tally::TransportError => {
                self.request_transport_errors = self.request_transport_errors.wrapping_add(1);
            },
            Tally::ReadError => {
                self.response_read_errors = self.response_read_errors.wrapping_add(1);
            },
        }
    }

    /// The requests that have ended.
    pub open spec fn outcomes(self) -> int {
        self.request_successes + self.request_http_errors + self.request_transport_errors
            + self.response_read_errors
    }
}

/// How the outcome of a request is counted.
pub open spec fn tally_of(outcome: Result<u64, TransferRequestError>) -> Tally {
    match outcome {
        Ok(_) => Tally::Success,
        Err(TransferRequestError::HttpStatus) => Tally::HttpError,
        Err(TransferRequestError::Transport) => Tally::TransportError,
        Err(TransferRequestError::InvalidEndpoint) => Tally::TransportError,
        Err(TransferRequestError::ResponseRead) => Tally::ReadError,
    }
}

pub fn request_tally(outcome: &Result<u64, TransferRequestError>) -> (r: Tally)
    ensures
        r == tally_of(*outcome),
{
    match outcome {
        Ok(_) => Tally::Success,
        Err(TransferRequestError::HttpStatus) => Tally::HttpError,
        Err(TransferRequestError::Transport) => Tally::TransportError,
        Err(TransferRequestError::InvalidEndpoint) => Tally::TransportError,
        Err(TransferRequestError::ResponseRead) => Tally::ReadError,
    }
}

/// Where every attempt has one outcome, it still has one after an attempt and its outcome have
/// been counted, as long as no count comes to its end.
pub proof fn each_request_is_counted_once(
    counters: TransferCounters,
    outcome: Result<u64, TransferRequestError>,
)
    requires
        counters.request_attempts == counters.outcomes(),
        counters.request_attempts < u64::MAX,
    ensures
        ({
            let after = counters.counted(Tally::Attempt).counted(tally_of(outcome));
            after.request_attempts == after.outcomes()
        }),
{
}

/// The clock of a stage and its workers.
#[derive(Clone, Copy, Debug, PartialEq, Eq, Structural)]
pub struct TransferLoopState {
    pub stage_end_at: u128,
    pub progress_clock_start: Option<u128>,
    pub transfer_started: bool,
    pub last_progress_at: Option<u128>,
    pub spawned_count: usize,
}

/// The milliseconds between two points in time, in 64 bits.
pub open spec fn millis_between(start: int, now: int) -> int {
    (monus(now, start) / 1_000_000) % 0x1_0000_0000_0000_0000
}

pub fn elapsed_ms_since(start: Option<u128>, now: u128) -> (r: u64)
    ensures
        r == match start {
            Some(at) => millis_between(at as int, now as int),
            None => 0,
        },
{
    match start {
        Some(at) => {
            let elapsed: u128 = if now < at {
                0
            } else {
                now - at
            };
            ((elapsed / 1_000_000) % 0x1_0000_0000_0000_0000) as u64
        },
        None => 0,
    }
}

/// Whether progress is due: none has been shown yet, or not for as long as the interval.
pub open spec fn is_due(last: Option<u128>, now: u128, interval_ns: u64) -> bool {
    match last {
        Some(at) => monus(now as int, at as int) >= interval_ns,
        None => true,
    }
}

pub fn should_emit_progress(
    last_progress_at: &mut Option<u128>,
    now: u128,
    interval_ns: u64,
) -> (r: bool)
    ensures
        r == is_due(*old(last_progress_at), now, interval_ns),
        *final(last_progress_at) == if r {
            Some(now)
        } else {
            *old(last_progress_at)
        },
{
    let due: bool = match *last_progress_at {
        Some(at) => {
            let since: u128 = if now < at {
                0
            } else {
                now - at
            };
            since >= interval_ns as u128
        },
        None => true,
    };
    if due {
        *last_progress_at = Some(now);
    }
    due
}

/// How many workers a stage keeps where so many connections are advised: one at least, or nothing
/// would be transferred any more.
pub open spec fn workers_for(advised: int) -> int {
    greatest(advised, 1)
}

/// What to do at a tick of the clock.
#[derive(Clone, Copy, Debug)]
pub struct TransferTick {
    pub elapsed_ns: u128,
    pub blended: BlendedRate,
    /// How many workers may run.
    pub target_workers: usize,
    /// The workers to start: from the first number up to the second, which is left out.
    pub spawn: Option<(usize, usize)>,
    /// The size of the next requests.
    pub request_size: usize,
    /// Whether to show progress.
    pub report: bool,
}

impl TransferLoopState {
    /// A stage that begins at `now` with `workers` workers. Until the first byte its time runs
    /// from its beginning.
    pub fn begin(now: u128, config: &TransferConfig, workers: usize) -> (r: TransferLoopState)
        requires
            now + config.max_seconds * NANOS <= u128::MAX,
        ensures
            r == (TransferLoopState {
                stage_end_at: (now + config.max_seconds * NANOS) as u128,
                progress_clock_start: None,
                transfer_started: false,
                last_progress_at: None,
                spawned_count: workers,
            }),
    {
        TransferLoopState {
            stage_end_at: now + config.max_seconds as u128 * NANOS,
            progress_clock_start: None,
            transfer_started: false,
            last_progress_at: None,
            spawned_count: workers,
        }
    }

    /// The clock once the first byte is known: it is set once, and the stage ends the configured
    /// time after that byte.
    pub open spec fn synced(
        self,
        first_transfer: bool,
        first_byte_at: Option<u128>,
        max_seconds: u64,
    ) -> TransferLoopState {
        match first_byte_at {
            Some(at) => if self.transfer_started || !first_transfer {
                self
            } else {
                TransferLoopState {
                    transfer_started: true,
                    stage_end_at: (at + max_seconds * NANOS) as u128,
                    progress_clock_start: Some(at),
                    ..self
                }
            },
            None => self,
        }
    }

    /// Sets the clock by the first byte.
    pub fn sync_transfer_start(
        &mut self,
        first_transfer: bool,
        first_byte_at: Option<u128>,
        max_seconds: u64,
    )
        requires
            first_byte_at matches Some(at) ==> at + max_seconds * NANOS <= u128::MAX,
        ensures
            *final(self) == old(self).synced(first_transfer, first_byte_at, max_seconds),
    {
        if self.transfer_started || !first_transfer {
            return ;
        }
        if let Some(at) = first_byte_at {
            self.transfer_started = true;
            self.stage_end_at = at + max_seconds as u128 * NANOS;
            self.progress_clock_start = Some(at);
        }
    }

    /// Whether the stage is over.
    pub fn stage_deadline_reached(&self, now: u128) -> (r: bool)
        ensures
            r == (now >= self.stage_end_at),
    {
        now >= self.stage_end_at
    }

    /// The milliseconds that remain of the configured time.
    pub open spec fn remaining_ms(start: u128, now: u128, max_seconds: u64) -> int {
        monus(max_seconds * 1_000, millis_between(start as int, now as int))
    }

    /// Takes a sample into account: how much was transferred after how many milliseconds. Nothing
    /// is done before the first byte. More workers are started where more are advised than were
    /// ever started.
    pub fn on_tick(
        &mut self,
        calc: &mut ThroughputCalculator,
        config: &TransferConfig,
        now: u128,
        sample_ms: u64,
        sample_bytes: u64,
        active_connections: usize,
    ) -> (r: Option<TransferTick>)
        requires
            old(calc)@.valid(),
            config.min_request_size <= config.max_request_size,
            config.max_seconds * 1_000 <= u64::MAX,
        ensures
            final(calc)@.valid(),
            match old(self).progress_clock_start {
                None => r is None && *final(self) == *old(self) && final(calc)@ == old(calc)@,
                Some(start) => {
                    let seen = old(calc)@.recorded(sample_ms, sample_bytes);
                    let wanted = workers_for(seen.advised_connections(config.connections as int));
                    let due = config.progress_interval_nanos is Some && is_due(
                        old(self).last_progress_at,
                        now,
                        config.progress_interval_nanos->0,
                    );
                    &&& final(calc)@ == seen.advised(config.connections as int)
                    &&& r matches Some(tick) && {
                        &&& tick.elapsed_ns == monus(now as int, start as int)
                        &&& tick.blended == seen.blended_speed()
                        &&& tick.target_workers == wanted
                        &&& tick.spawn == if wanted > old(self).spawned_count {
                            Some((old(self).spawned_count, wanted as usize))
                        } else {
                            None
                        }
                        &&& tick.request_size == seen.request_size(
                            greatest(active_connections as int, 1) as usize,
                            Self::remaining_ms(start, now, config.max_seconds) as u64,
                            *config,
                        )
                        &&& tick.report == due
                    }
                    &&& *final(self) == (TransferLoopState {
                        spawned_count: greatest(wanted, old(self).spawned_count as int) as usize,
                        last_progress_at: if due {
                            Some(now)
                        } else {
                            old(self).last_progress_at
                        },
                        ..*old(self)
                    })
                },
            },
    {
        let start: u128 = match self.progress_clock_start {
            Some(start) => start,
            None => {
                return None;
            },
        };
        let elapsed_ns: u128 = if now < start {
            0
        } else {
            now - start
        };
        let ghost seen = calc@.recorded(sample_ms, sample_bytes);
        let blended = calc.record_sample(sample_ms, sample_bytes);
        assert(calc@ == seen);
        let advised: usize = calc.desired_connections(config.connections);
        let wanted: usize = if advised == 0 {
            1
        } else {
            advised
        };
        let spawn = if wanted > self.spawned_count {
            let from: usize = self.spawned_count;
            self.spawned_count = wanted;
            Some((from, wanted))
        } else {
            None
        };
        let elapsed_ms: u64 = elapsed_ms_since(Some(start), now);
        let whole_ms: u64 = config.max_seconds * 1_000;
        let remaining_ms: u64 = if elapsed_ms > whole_ms {
            0
        } else {
            whole_ms - elapsed_ms
        };
        let connections: usize = if active_connections == 0 {
            1
        } else {
            active_connections
        };
        let request_size: usize = calc.suggested_request_size(connections, remaining_ms, config);
        let report: bool = match config.progress_interval_nanos {
            Some(interval) => {
                let mut last = self.last_progress_at;
                let due = should_emit_progress(&mut last, now, interval);
                self.last_progress_at = last;
                due
            },
            None => false,
        };
        Some(
            TransferTick {
                elapsed_ns,
                blended,
                target_workers: wanted,
                spawn,
                request_size,
                report,
            },
        )
    }
}

/// The deadline moves at most once: after the first byte neither samples nor further bytes change
/// when the stage ends.
pub proof fn the_deadline_is_set_once(
    state: TransferLoopState,
    first: u128,
    later: Option<u128>,
    signalled: bool,
    max_seconds: u64,
)
    requires
        !state.transfer_started,
    ensures
        state.synced(true, Some(first), max_seconds).synced(signalled, later, max_seconds)
            == state.synced(true, Some(first), max_seconds),
{
}

/// The servers that take part are those of the pool that became ready, in their order.
pub proof fn ready_servers_take_part(
    pool: Seq<SpeedtestServer>,
    next: SpeedtestServer,
    ready: Seq<u64>,
)
    ensures
        ready_in(pool.push(next), ready) == if ready.contains(next.id) {
            ready_in(pool, ready).push(next)
        } else {
            ready_in(pool, ready)
        },
        ready_in(Seq::empty(), ready).len() == 0,
{
    assert(pool.push(next).drop_last() =~= pool);
}

/// A session id of the selected server goes before those of the pool.
pub proof fn the_own_session_goes_first(
    selected: SpeedtestServer,
    first: SpeedtestServer,
    others: Seq<SpeedtestServer>,
)
    ensures
        selected.session_guid matches Some(guid) ==> fallback_guid(selected, seq![first] + others)
            == guid@,
        selected.session_guid is None ==> (first.session_guid matches Some(guid) ==> fallback_guid(
            selected,
            seq![first] + others,
        ) == guid@),
        selected.session_guid is None && first.session_guid is None ==> fallback_guid(
            selected,
            seq![first] + others,
        ) == fallback_guid(selected, others),
{
    assert((seq![first] + others)[0] == first);
    assert((seq![first] + others).drop_first() =~= others);
}

/// Time that has passed and time that remains make up the configured time, and none remains after
/// it.
pub proof fn passed_and_remaining_time_add_up(start: u128, now: u128, max_seconds: u64)
    requires
        start <= now,
        now - start < 1_000_000 * 0x1_0000_0000_0000_0000,
    ensures
        ({
            let passed = millis_between(start as int, now as int);
            let left = TransferLoopState::remaining_ms(start, now, max_seconds);
            &&& 1_000_000 * passed <= now - start < 1_000_000 * (passed + 1)
            &&& passed <= 1_000 * max_seconds ==> passed + left == 1_000 * max_seconds
            &&& passed >= 1_000 * max_seconds ==> left == 0
        }),
{
}

/// Progress is shown at once, and then not before the interval has passed.
pub proof fn progress_waits_for_the_interval(last: u128, now: u128, interval_ns: u64)
    requires
        last <= now,
    ensures
        is_due(None, now, interval_ns),
        is_due(Some(last), now, interval_ns) <==> last + interval_ns <= now,
{
}

/// The clock of a stage starts with the first byte, and the stage ends the configured time later.
pub proof fn stages_end_on_time(state: TransferLoopState, first: u128, max_seconds: u64)
    requires
        !state.transfer_started,
        first + max_seconds * NANOS <= u128::MAX,
    ensures
        ({
            let after = state.synced(true, Some(first), max_seconds);
            &&& after.transfer_started
            &&& after.progress_clock_start == Some(first)
            &&& after.stage_end_at - first == max_seconds * 1_000_000_000
        }),
        state.synced(true, None, max_seconds) == state,
        state.synced(false, Some(first), max_seconds) == state,
{
}

/// Each outcome of a request is counted under its own kind.
pub proof fn outcomes_are_told_apart(counters: TransferCounters, bytes: u64)
    requires
        counters.request_successes < u64::MAX,
        counters.request_http_errors < u64::MAX,
        counters.request_transport_errors < u64::MAX,
        counters.response_read_errors < u64::MAX,
    ensures
        counters.counted(tally_of(Ok(bytes))).request_successes == counters.request_successes + 1,
        counters.counted(tally_of(Err(TransferRequestError::HttpStatus))).request_http_errors
            == counters.request_http_errors + 1,
        counters.counted(tally_of(Err(TransferRequestError::Transport))).request_transport_errors
            == counters.request_transport_errors + 1,
        counters.counted(tally_of(Err(TransferRequestError::ResponseRead))).response_read_errors
            == counters.response_read_errors + 1,
{
}

/// At least one worker runs, and else as many as are advised.
pub proof fn at_least_one_worker_runs(advised: int)
    ensures
        workers_for(advised) >= 1,
        advised >= 1 ==> workers_for(advised) == advised,
        advised < 1 ==> workers_for(advised) == 1,
{
}

/// One up is one more and one down is one less, within what can be counted.
pub proof fn steps_are_by_one(counter: usize)
    ensures
        counter < usize::MAX ==> stepped(counter, true) == counter + 1,
        counter > 0 ==> stepped(counter, false) == counter - 1,
        counter < u64::MAX ==> one_more(counter as u64) == counter + 1,
{
}

} // verus!
