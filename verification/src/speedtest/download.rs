//! The download stage.

use vstd::prelude::*;

use crate::num::fraction::{mbps, mbps_from_bytes, Fraction};
use crate::num::whole::{greatest, monus};
use crate::speedtest::servers::SpeedtestServer;
use crate::speedtest::throughput::{
    BlendedRate, CalculatorModel, ThroughputCalculator, ThroughputResult, TransferConfig,
};
use crate::speedtest::transfer_util::{
    default_guid, elapsed_ms_since, fallback_guid, is_due, keep_ready, millis_between,
    normalize_server_pool, ready_in, workers_for, TransferCounters, TransferLoopState,
    TransferTick, NANOS,
};
use crate::util::{clamp_worker_count, clamped_workers};

verus! {

/// How often the stage is looked at.
pub const STAGE_POLL_MS: u64 = 50;

/// How long workers may take to end.
pub const STAGE_JOIN_GRACE_MS: u64 = 250;

/// How long a server may take to become ready.
pub const SERVER_READINESS_SECONDS: u64 = 8;

/// What is downloaded to see that a server is ready: 64 KiB.
pub const DOWNLOAD_READINESS_BYTES: usize = 65_536;

/// The outcome of the stage.
#[derive(Debug)]
pub struct DownloadStats {
    pub bytes: u64,
    pub speed: BlendedRate,
    pub actual_duration_ms: u64,
    pub throughput: ThroughputResult,
    pub counters: TransferCounters,
    pub per_server: Vec<PerServerDownloadStats>,
}

/// What came from one server.
#[derive(Clone, Copy, Debug, PartialEq, Eq, Structural)]
pub struct PerServerDownloadStats {
    pub server_id: u64,
    pub bytes: u64,
    pub mbps: Fraction,
}

/// The stage at one point in time.
#[derive(Clone, Copy, Debug, PartialEq, Eq, Structural)]
pub struct DownloadProgress {
    pub elapsed_ns: u128,
    pub bytes: u64,
    pub speed: BlendedRate,
    pub active_connections: usize,
}

/// How the stage starts.
#[derive(Debug)]
pub struct DownloadPlan {
    pub worker_count: usize,
    pub pool: Vec<SpeedtestServer>,
    pub default_guid: String,
}

/// The workers at the start.
pub open spec fn first_workers(config: TransferConfig) -> int {
    let limit = if config.connections == 0 {
        1
    } else {
        config.connections as int
    };
    let wanted = if config.initial_connections < 1 {
        1
    } else if config.initial_connections > limit {
        limit
    } else {
        config.initial_connections as int
    };
    clamped_workers(wanted)
}

pub fn plan_download(
    selected_server: &SpeedtestServer,
    server_pool: &Vec<SpeedtestServer>,
    config: &TransferConfig,
) -> (r: DownloadPlan)
    ensures
        r.worker_count == first_workers(*config),
        r.pool@ == if server_pool.len() == 0 {
            seq![*selected_server]
        } else {
            server_pool@
        },
        r.default_guid@ == fallback_guid(*selected_server, r.pool@),
{
    let pool = normalize_server_pool(selected_server, server_pool);
    let guid = default_guid(selected_server, &pool);
    DownloadPlan {
        worker_count: clamp_worker_count(config.initial_connections()),
        pool,
        default_guid: guid,
    }
}

/// The error where no server became ready.
pub open spec fn not_ready_text() -> Seq<char> {
    "no speedtest servers became ready for download stage"@
}

/// A download stage that runs.
#[derive(Debug)]
pub struct DownloadStage {
    pub servers: Vec<SpeedtestServer>,
    pub config: TransferConfig,
    pub state: TransferLoopState,
    pub calc: ThroughputCalculator,
}

impl DownloadStage {
    pub open spec fn valid(self) -> bool {
        &&& self.servers.len() > 0
        &&& self.calc@.valid()
        &&& usable(self.config)
    }

    /// Starts the stage with the servers of the plan that became ready.
    pub fn begin(plan: &DownloadPlan, ready: &Vec<u64>, config: TransferConfig, now: u128) -> (r:
        Result<DownloadStage, &'static str>)
        requires
            usable(config),
            now + config.max_seconds * NANOS <= u128::MAX,
        ensures
            match r {
                Ok(stage) => {
                    &&& stage.valid()
                    &&& stage.servers@ == ready_in(plan.pool@, ready@)
                    &&& stage.config == config
                    &&& stage.state == (TransferLoopState {
                        stage_end_at: (now + config.max_seconds * NANOS) as u128,
                        progress_clock_start: None,
                        transfer_started: false,
                        last_progress_at: None,
                        spawned_count: plan.worker_count,
                    })
                    &&& stage.calc@ == CalculatorModel::fresh((config.max_seconds * 1_000) as u64)
                },
                Err(reason) => ready_in(plan.pool@, ready@).len() == 0 && reason@
                    == not_ready_text(),
            },
    {
        let servers = keep_ready(&plan.pool, ready);
        if servers.len() == 0 {
            return Err("no speedtest servers became ready for download stage");
        }
        let state = TransferLoopState::begin(now, &config, plan.worker_count);
        let calc = ThroughputCalculator::new(config.max_seconds * 1_000);
        Ok(DownloadStage { servers, config, state, calc })
    }

    /// Takes the bytes so far into account. Returns what to do, and the progress to show.
    pub fn on_tick(&mut self, now: u128, bytes: u64, active_connections: usize) -> (r: Option<
        (TransferTick, Option<DownloadProgress>),
    >)
        requires
            old(self).valid(),
        ensures
            final(self).valid(),
            final(self).servers == old(self).servers,
            final(self).config == old(self).config,
            match old(self).state.progress_clock_start {
                None => r is None && final(self).state == old(self).state && final(self).calc@
                    == old(self).calc@,
                Some(start) => {
                    let seen = old(self).calc@.recorded(
                        millis_between(start as int, now as int) as u64,
                        bytes,
                    );
                    let wanted = workers_for(
                        seen.advised_connections(old(self).config.connections as int),
                    );
                    let due = old(self).config.progress_interval_nanos is Some && is_due(
                        old(self).state.last_progress_at,
                        now,
                        old(self).config.progress_interval_nanos->0,
                    );
                    &&& final(self).state == (TransferLoopState {
                        spawned_count: greatest(
                            wanted,
                            old(self).state.spawned_count as int,
                        ) as usize,
                        last_progress_at: if due {
                            Some(now)
                        } else {
                            old(self).state.last_progress_at
                        },
                        ..old(self).state
                    })
                    &&& final(self).calc@ == seen.advised(old(self).config.connections as int)
                    &&& r matches Some((tick, progress)) && {
                        &&& tick.elapsed_ns == monus(now as int, start as int)
                        &&& tick.blended == seen.blended_speed()
                        &&& tick.target_workers == wanted
                        &&& tick.spawn == if wanted > old(self).state.spawned_count {
                            Some((old(self).state.spawned_count, wanted as usize))
                        } else {
                            None
                        }
                        &&& tick.request_size == seen.request_size(
                            greatest(active_connections as int, 1) as usize,
                            TransferLoopState::remaining_ms(
                                start,
                                now,
                                old(self).config.max_seconds,
                            ) as u64,
                            old(self).config,
                        )
                        &&& tick.report == due
                        &&& progress == if due {
                            Some(
                                DownloadProgress {
                                    elapsed_ns: tick.elapsed_ns,
                                    bytes,
                                    speed: tick.blended,
                                    active_connections,
                                },
                            )
                        } else {
                            None
                        }
                    }
                },
            },
    {
        let sample_ms: u64 = elapsed_ms_since(self.state.progress_clock_start, now);
        let tick = match self.state.on_tick(
            &mut self.calc,
            &self.config,
            now,
            sample_ms,
            bytes,
            active_connections,
        ) {
            Some(tick) => tick,
            None => {
                return None;
            },
        };
        let progress = if tick.report {
            Some(
                DownloadProgress {
                    elapsed_ns: tick.elapsed_ns,
                    bytes,
                    speed: tick.blended,
                    active_connections,
                },
            )
        } else {
            None
        };
        Some((tick, progress))
    }

    /// The outcome. `per_server_bytes` is what came from each of the servers, in their order.
    pub fn finish(
        &self,
        bytes: u64,
        per_server_bytes: &Vec<u64>,
        counters: TransferCounters,
        now: u128,
    ) -> (r: DownloadStats)
        requires
            per_server_bytes.len() == self.servers.len(),
        ensures
            r.bytes == bytes,
            self.calc@.finished(r.throughput),
            r.speed == r.throughput.blended_bps,
            r.actual_duration_ms == match self.state.progress_clock_start {
                Some(start) => millis_between(start as int, now as int),
                None => 0,
            },
            r.counters == counters,
            r.per_server.len() == self.servers.len(),
            forall|i: int|
                0 <= i < r.per_server.len() ==> #[trigger] r.per_server[i] == (
                PerServerDownloadStats {
                    server_id: self.servers[i].id,
                    bytes: per_server_bytes[i],
                    mbps: mbps(per_server_bytes[i], self.config.max_seconds),
                }),
    {
        let throughput = self.calc.finish();
        let mut per_server: Vec<PerServerDownloadStats> = Vec::new();
        let mut i: usize = 0;
        while i < self.servers.len()
            invariant
                i <= self.servers.len(),
                per_server_bytes.len() == self.servers.len(),
                per_server.len() == i,
                forall|k: int|
                    0 <= k < i ==> #[trigger] per_server[k] == (PerServerDownloadStats {
                        server_id: self.servers[k].id,
                        bytes: per_server_bytes[k],
                        mbps: mbps(per_server_bytes[k], self.config.max_seconds),
                    }),
            decreases self.servers.len() - i,
        {
            per_server.push(
                PerServerDownloadStats {
                    server_id: self.servers[i].id,
                    bytes: per_server_bytes[i],
                    mbps: mbps_from_bytes(per_server_bytes[i], self.config.max_seconds),
                },
            );
            i = i + 1;
        }
        DownloadStats {
            bytes,
            speed: throughput.blended_bps,
            actual_duration_ms: elapsed_ms_since(self.state.progress_clock_start, now),
            throughput,
            counters,
            per_server,
        }
    }
}

/// Whether a stage can be run with the configuration: its request sizes are a range, and its
/// duration in milliseconds fits in 64 bits.
pub open spec fn usable(config: TransferConfig) -> bool {
    &&& config.min_request_size <= config.max_request_size
    &&& config.max_seconds * 1_000 <= u64::MAX
}

/// A stage starts with the workers that it is configured to start with, one at least and no more
/// than it may have.
pub proof fn stages_start_with_the_configured_workers(config: TransferConfig)
    ensures
        1 <= first_workers(config) <= 64,
        config.connections > 0 ==> first_workers(config) <= config.connections,
        1 <= config.initial_connections <= config.connections && config.initial_connections <= 64
            ==> first_workers(config) == config.initial_connections,
{
}

} // verus!
