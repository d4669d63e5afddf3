//! The workers that exchange datagrams.

use vstd::prelude::*;

use crate::iperf::model::{IperfDirection, IperfDirectionSummary};
use crate::iperf::proxy::{ProxyScheme, ProxySpec};
use crate::iperf::udp_packet::{
    build_packet, header_of, packet_bytes, parse_header, UdpReceiveMetrics,
};
use crate::num::fraction::{mbps, mbps_from_bytes};
use crate::num::scalar::Scalar;
use crate::num::whole::greatest;

verus! {

/// How the datagrams of a worker travel.
#[derive(Clone, Copy, Debug, PartialEq, Eq, Structural)]
pub enum UdpTransport {
    Direct,
    Socks,
    /// The proxy does not carry datagrams.
    Unavailable,
}

pub fn choose_transport(proxy: &Option<ProxySpec>) -> (r: UdpTransport)
    ensures
        r == match *proxy {
            None => UdpTransport::Direct,
            Some(spec) => if spec.scheme == ProxyScheme::Socks5 || spec.scheme
                == ProxyScheme::Socks5h {
                UdpTransport::Socks
            } else {
                UdpTransport::Unavailable
            },
        },
{
    match proxy {
        None => UdpTransport::Direct,
        Some(spec) => match spec.scheme {
            ProxyScheme::Socks5 | ProxyScheme::Socks5h => UdpTransport::Socks,
            ProxyScheme::Http | ProxyScheme::Https => UdpTransport::Unavailable,
        },
    }
}

/// The first number of a worker's datagrams. Each worker has 2^32 numbers of its own, and takes
/// them by the low 32 bits of its own number.
pub open spec fn first_number(worker_id: int) -> int {
    (worker_id % 0x1_0000_0000) * 0x1_0000_0000 + 1
}

pub fn first_sequence(worker_id: usize) -> (r: u64)
    ensures
        r == first_number(worker_id as int),
{
    (worker_id as u64 % 0x1_0000_0000) * 0x1_0000_0000 + 1
}

/// The numbers of two workers do not meet as long as each sends fewer than 2^32 datagrams.
pub proof fn worker_sequences_are_disjoint(a: int, b: int, sent_a: int, sent_b: int)
    requires
        0 <= a < 0x1_0000_0000,
        0 <= b < 0x1_0000_0000,
        a != b,
        0 <= sent_a < 0x1_0000_0000,
        0 <= sent_b < 0x1_0000_0000,
    ensures
        first_number(a) + sent_a != first_number(b) + sent_b,
{
}

/// The share of the bit rate that falls to each worker, none where it is less than a bit.
pub open spec fn worker_bitrate(bitrate_bps: Option<u64>, workers: usize) -> Option<u64> {
    match bitrate_bps {
        Some(bps) => if workers == 0 || bps / (workers as u64) == 0 {
            None
        } else {
            Some(bps / (workers as u64))
        },
        None => None,
    }
}

pub fn per_worker_bitrate(bitrate_bps: Option<u64>, workers: usize) -> (r: Option<u64>)
    ensures
        r == worker_bitrate(bitrate_bps, workers),
{
    match bitrate_bps {
        Some(bps) => {
            if workers == 0 {
                return None;
            }
            let share: u64 = bps / (workers as u64);
            if share == 0 {
                None
            } else {
                Some(share)
            }
        },
        None => None,
    }
}

/// The pause in nanoseconds between datagrams that keeps to the bit rate, at least a millisecond,
/// in 64 bits.
pub open spec fn packet_pause_ns(packet_size: int, bps: int) -> int {
    greatest((packet_size * 8 * 1_000_000_000) / bps, 1_000_000) % 0x1_0000_0000_0000_0000
}

pub fn packet_pause(packet_size: usize, bps: u64) -> (nanos: u64)
    requires
        bps > 0,
    ensures
        nanos == packet_pause_ns(packet_size as int, bps as int),
{
    let bits: u128 = packet_size as u128 * 8;
    let exact: u128 = (bits * 1_000_000_000) / (bps as u128);
    let least: u128 = if exact < 1_000_000 {
        1_000_000
    } else {
        exact
    };
    (least % 0x1_0000_0000_0000_0000) as u64
}

/// The bytes that a received datagram may have: those of one that is sent, but 2048 at least.
pub fn receive_capacity(packet_size: usize) -> (r: usize)
    ensures
        r == greatest(packet_size as int, 2048),
{
    if packet_size < 2048 {
        2048
    } else {
        packet_size
    }
}

/// What a worker does at its turn.
#[derive(Clone, Copy, Debug, PartialEq, Eq, Structural)]
pub enum UdpTurn {
    /// Send a datagram, and then wait so many nanoseconds.
    Send { pause_ns: Option<u64> },
    /// Receive a datagram of at most so many bytes.
    Receive { capacity: usize },
}

/// Only a worker that sends keeps to a bit rate.
pub open spec fn turn_of(
    direction: IperfDirection,
    packet_size: usize,
    pause_ns: Option<u64>,
) -> UdpTurn {
    match direction {
        IperfDirection::Upload => UdpTurn::Send { pause_ns },
        IperfDirection::Download => UdpTurn::Receive {
            capacity: greatest(packet_size as int, 2048) as usize,
        },
    }
}

/// What a worker has done.
#[derive(Clone, Copy, Debug, PartialEq, Eq, Structural)]
pub struct UdpWorker {
    pub direction: IperfDirection,
    pub packet_size: usize,
    pub next_sequence: u64,
    pub bytes: u64,
    pub receive_metrics: UdpReceiveMetrics,
}

impl UdpWorker {
    /// What the worker does at its turn. `pause_ns` is the pause that the bit rate asks for.
    pub fn on_turn(&self, pause_ns: Option<u64>) -> (r: UdpTurn)
        ensures
            r == turn_of(self.direction, self.packet_size, pause_ns),
    {
        match self.direction {
            IperfDirection::Upload => UdpTurn::Send { pause_ns },
            IperfDirection::Download => UdpTurn::Receive {
                capacity: receive_capacity(self.packet_size),
            },
        }
    }

    pub fn new(direction: IperfDirection, worker_id: usize, packet_size: usize) -> (r: UdpWorker)
        ensures
            r == (UdpWorker {
                direction,
                packet_size,
                next_sequence: first_number(worker_id as int) as u64,
                bytes: 0,
                receive_metrics: UdpReceiveMetrics::fresh(),
            }),
            r.receive_metrics.consistent(),
    {
        UdpWorker {
            direction,
            packet_size,
            next_sequence: first_sequence(worker_id),
            bytes: 0,
            receive_metrics: UdpReceiveMetrics::default(),
        }
    }

    /// The next datagram to send. Its number is used up whether it can be sent or not.
    pub fn next_packet(&mut self) -> (packet: Vec<u8>)
        requires
            old(self).next_sequence < u64::MAX,
        ensures
            exists|sent_micros: u64|
                packet@ == #[trigger] packet_bytes(
                    old(self).next_sequence,
                    old(self).packet_size as int,
                    sent_micros,
                ),
            *final(self) == (UdpWorker {
                next_sequence: (old(self).next_sequence + 1) as u64,
                ..*old(self)
            }),
    {
        let packet = build_packet(self.next_sequence, self.packet_size);
        self.next_sequence = self.next_sequence + 1;
        packet
    }

    /// A datagram of that size was sent.
    pub fn on_sent(&mut self, size: usize)
        requires
            old(self).bytes + size <= u64::MAX,
        ensures
            *final(self) == (UdpWorker { bytes: (old(self).bytes + size) as u64, ..*old(self) }),
    {
        self.bytes = self.bytes + size as u64;
    }

    /// A datagram came at `now_micros`. Returns by how much the time in transit has changed.
    pub fn on_received_at(&mut self, packet: &[u8], now_micros: u64) -> (change: Option<u64>)
        requires
            old(self).bytes + packet.len() <= u64::MAX,
            old(self).receive_metrics.consistent(),
            old(self).receive_metrics.total_packets < u64::MAX,
            header_of(packet@) is Some ==> header_of(packet@)->0.sequence < u64::MAX,
        ensures
            *final(self) == (UdpWorker {
                bytes: (old(self).bytes + packet.len()) as u64,
                receive_metrics: old(self).receive_metrics.counted(
                    header_of(packet@),
                    now_micros,
                ),
                ..*old(self)
            }),
            final(self).receive_metrics.consistent(),
            match change {
                Some(micros) => old(self).receive_metrics.transit_change(
                    header_of(packet@),
                    now_micros,
                ) == Some(micros as int),
                None => old(self).receive_metrics.transit_change(
                    header_of(packet@),
                    now_micros,
                ) is None,
            },
    {
        self.bytes = self.bytes + packet.len() as u64;
        let header = parse_header(packet);
        let mut metrics = self.receive_metrics;
        let change = metrics.on_packet_at(header, now_micros);
        self.receive_metrics = metrics;
        change
    }
}

/// What the workers of a direction have done together.
#[derive(Clone, Copy, Debug, PartialEq, Eq, Structural)]
pub struct UdpAggregate {
    pub direction: IperfDirection,
    pub bytes: u64,
    pub metrics: UdpReceiveMetrics,
}

impl UdpAggregate {
    pub fn new(direction: IperfDirection) -> (r: UdpAggregate)
        ensures
            r == (UdpAggregate { direction, bytes: 0, metrics: UdpReceiveMetrics::fresh() }),
    {
        UdpAggregate { direction, bytes: 0, metrics: UdpReceiveMetrics::default() }
    }

    /// What is known with one more worker; what it has received counts only in the receiving
    /// direction.
    pub open spec fn with_worker(self, worker: UdpWorker) -> UdpAggregate {
        UdpAggregate {
            bytes: (self.bytes + worker.bytes) as u64,
            metrics: if self.direction == IperfDirection::Download {
                self.metrics.joined(worker.receive_metrics)
            } else {
                self.metrics
            },
            ..self
        }
    }

    /// What is known once all the workers have been added, in their order.
    pub open spec fn with_workers(self, workers: Seq<UdpWorker>) -> UdpAggregate {
        workers.fold_left(self, |known: UdpAggregate, w: UdpWorker| known.with_worker(w))
    }

    /// Adds a finished worker; what it has received counts only in the receiving direction.
    pub fn add_worker(&mut self, worker: &UdpWorker)
        requires
            old(self).bytes + worker.bytes <= u64::MAX,
            old(self).metrics.total_packets + worker.receive_metrics.total_packets <= u64::MAX,
            old(self).metrics.lost_packets + worker.receive_metrics.lost_packets <= u64::MAX,
            old(self).metrics.out_of_order + worker.receive_metrics.out_of_order <= u64::MAX,
        ensures
            *final(self) == (UdpAggregate {
                bytes: (old(self).bytes + worker.bytes) as u64,
                metrics: if old(self).direction == IperfDirection::Download {
                    old(self).metrics.joined(worker.receive_metrics)
                } else {
                    old(self).metrics
                },
                ..*old(self)
            }),
            *final(self) == old(self).with_worker(*worker),
            final(self).bytes == old(self).bytes + worker.bytes,
    {
        self.bytes = self.bytes + worker.bytes;
        if self.direction == IperfDirection::Download {
            let mut metrics = self.metrics;
            metrics.merge(&worker.receive_metrics);
            self.metrics = metrics;
        }
    }

    /// The outcome after `seconds`, with the jitter that was measured.
    pub fn summary(&self, seconds: u64, jitter_ms: Scalar) -> (r: IperfDirectionSummary)
        ensures
            r.bytes == self.bytes,
            r.mbps == mbps(self.bytes, seconds),
            r.duration_seconds == seconds,
            if self.direction == IperfDirection::Download {
                &&& r.packets == Some(self.metrics.total_packets)
                &&& r.lost_packets == Some(self.metrics.lost_packets)
                &&& r.jitter_ms == Some(jitter_ms)
                &&& r.out_of_order == Some(self.metrics.out_of_order)
                &&& r.loss_percent == self.metrics.loss()
                &&& self.metrics.total_packets == 0 <==> r.loss_percent is None
                &&& r.loss_percent matches Some(loss) ==> loss.num == self.metrics.lost_packets
                    * 100 && loss.den == self.metrics.total_packets
            } else {
                &&& r.packets is None
                &&& r.lost_packets is None
                &&& r.loss_percent is None
                &&& r.jitter_ms is None
                &&& r.out_of_order is None
            },
    {
        let speed = mbps_from_bytes(self.bytes, seconds);
        match self.direction {
            IperfDirection::Download => IperfDirectionSummary {
                bytes: self.bytes,
                mbps: speed,
                duration_seconds: seconds,
                packets: Some(self.metrics.total_packets),
                lost_packets: Some(self.metrics.lost_packets),
                loss_percent: self.metrics.loss_percent(),
                jitter_ms: Some(jitter_ms),
                out_of_order: Some(self.metrics.out_of_order),
            },
            IperfDirection::Upload => IperfDirectionSummary {
                bytes: self.bytes,
                mbps: speed,
                duration_seconds: seconds,
                packets: None,
                lost_packets: None,
                loss_percent: None,
                jitter_ms: None,
                out_of_order: None,
            },
        }
    }
}

/// The sum of a count over workers.
pub open spec fn over_workers(workers: Seq<UdpWorker>, count: spec_fn(UdpWorker) -> int) -> int {
    workers.map_values(count).fold_left(0, |sum: int, n: int| sum + n)
}

/// The bytes that a worker has moved.
pub open spec fn moved() -> spec_fn(UdpWorker) -> int {
    |w: UdpWorker| w.bytes as int
}

/// The datagrams that a worker has received.
pub open spec fn received() -> spec_fn(UdpWorker) -> int {
    |w: UdpWorker| w.receive_metrics.total_packets as int
}

/// The datagrams that a worker has missed.
pub open spec fn lost() -> spec_fn(UdpWorker) -> int {
    |w: UdpWorker| w.receive_metrics.lost_packets as int
}

/// The datagrams that came late to a worker.
pub open spec fn late() -> spec_fn(UdpWorker) -> int {
    |w: UdpWorker| w.receive_metrics.out_of_order as int
}

proof fn lemma_counts(workers: Seq<UdpWorker>)
    ensures
        over_workers(workers, moved()) >= 0,
        over_workers(workers, received()) >= 0,
        over_workers(workers, lost()) >= 0,
        over_workers(workers, late()) >= 0,
        workers.len() > 0 ==> {
            let before = workers.drop_last();
            &&& over_workers(workers, moved()) == over_workers(before, moved())
                + workers.last().bytes
            &&& over_workers(workers, received()) == over_workers(before, received())
                + workers.last().receive_metrics.total_packets
            &&& over_workers(workers, lost()) == over_workers(before, lost())
                + workers.last().receive_metrics.lost_packets
            &&& over_workers(workers, late()) == over_workers(before, late())
                + workers.last().receive_metrics.out_of_order
        },
    decreases workers.len(),
{
    reveal_with_fuel(Seq::fold_left, 2);
    if workers.len() > 0 {
        lemma_counts(workers.drop_last());
        assert(workers.map_values(moved()).drop_last() =~= workers.drop_last().map_values(moved()));
        assert(workers.map_values(received()).drop_last() =~= workers.drop_last().map_values(
            received(),
        ));
        assert(workers.map_values(lost()).drop_last() =~= workers.drop_last().map_values(lost()));
        assert(workers.map_values(late()).drop_last() =~= workers.drop_last().map_values(late()));
    }
}

/// The outcome of a direction counts every worker: the bytes are the sum of theirs, and so are the
/// datagrams that were received, lost and late where datagrams are received. A worker that has
/// received none has missed none.
pub proof fn workers_add_up(direction: IperfDirection, workers: Seq<UdpWorker>)
    requires
        forall|i: int|
            0 <= i < workers.len() ==> ((#[trigger] workers[i]).receive_metrics.total_packets == 0
                ==> workers[i].receive_metrics.lost_packets == 0
                && workers[i].receive_metrics.out_of_order == 0),
        over_workers(workers, moved()) <= u64::MAX,
        over_workers(workers, received()) <= u64::MAX,
        over_workers(workers, lost()) <= u64::MAX,
        over_workers(workers, late()) <= u64::MAX,
    ensures
        ({
            let start = UdpAggregate {
                direction,
                bytes: 0,
                metrics: UdpReceiveMetrics::fresh(),
            };
            let known = start.with_workers(workers);
            &&& known.direction == direction
            &&& known.bytes == over_workers(workers, moved())
            &&& direction == IperfDirection::Download ==> {
                &&& known.metrics.total_packets == over_workers(workers, received())
                &&& known.metrics.lost_packets == over_workers(workers, lost())
                &&& known.metrics.out_of_order == over_workers(workers, late())
            }
            &&& direction == IperfDirection::Upload ==> known.metrics == start.metrics
        }),
    decreases workers.len(),
{
    reveal_with_fuel(Seq::fold_left, 2);
    lemma_counts(workers);
    if workers.len() > 0 {
        let before = workers.drop_last();
        assert(forall|i: int| 0 <= i < before.len() ==> #[trigger] before[i] == workers[i]);
        lemma_counts(before);
        workers_add_up(direction, before);
        assert(workers.last() == workers[workers.len() - 1]);
    }
}

/// The order in which workers are added does not matter to the counts.
pub proof fn workers_add_up_in_any_order(first: UdpReceiveMetrics, second: UdpReceiveMetrics)
    requires
        first.total_packets > 0,
        second.total_packets > 0,
        first.total_packets + second.total_packets <= u64::MAX,
        first.lost_packets + second.lost_packets <= u64::MAX,
        first.out_of_order + second.out_of_order <= u64::MAX,
    ensures
        first.joined(second).total_packets == second.joined(first).total_packets,
        first.joined(second).lost_packets == second.joined(first).lost_packets,
        first.joined(second).out_of_order == second.joined(first).out_of_order,
        first.joined(second).total_packets > first.total_packets,
{
}

/// Each worker has an equal share of the bit rate: together they keep to it, and come within one
/// bit per second each of using it up.
pub proof fn workers_share_the_bit_rate(bps: u64, workers: usize)
    requires
        0 < workers <= bps,
    ensures
        worker_bitrate(Some(bps), workers) matches Some(share) && share * workers <= bps < (share
            + 1) * workers,
        worker_bitrate(None, workers) is None,
        worker_bitrate(Some(0), workers) is None,
{
    let n = workers as u64;
    let share = bps / n;
    assert(share * n <= bps < (share + 1) * n && share >= 1) by (nonlinear_arith)
        requires
            share == bps / n,
            0 < n <= bps,
    ;
}

/// The pause between datagrams is the time that a datagram takes at the bit rate, in whole
/// nanoseconds, but at least a millisecond.
pub proof fn the_pause_keeps_to_the_bit_rate(packet_size: usize, bps: u64)
    requires
        bps > 0,
        packet_size * 8_000_000_000 < 0x1_0000_0000_0000_0000,
    ensures
        ({
            let pause = packet_pause_ns(packet_size as int, bps as int);
            &&& pause >= 1_000_000
            &&& packet_size * 8_000_000_000 < (pause + 1) * bps
            &&& pause > 1_000_000 ==> pause * bps <= packet_size * 8_000_000_000
        }),
{
    let bits = packet_size * 8 * 1_000_000_000;
    let exact = bits / (bps as int);
    assert(exact * bps <= bits < (exact + 1) * bps && 0 <= exact <= bits) by (nonlinear_arith)
        requires
            bps > 0,
            bits >= 0,
            exact == bits / (bps as int),
    ;
    let pause = packet_pause_ns(packet_size as int, bps as int);
    assert(pause == greatest(exact, 1_000_000));
    assert((pause + 1) * bps >= (exact + 1) * bps) by (nonlinear_arith)
        requires
            pause >= exact,
            bps > 0,
    ;
}

/// The outcome of a direction over datagrams: loss is the lost part of what was received, in
/// percent.
pub proof fn loss_is_lost_over_received(metrics: UdpReceiveMetrics)
    ensures
        match metrics.loss() {
            Some(loss) => metrics.total_packets > 0 && loss.den > 0 && loss.num
                * metrics.total_packets == 100 * metrics.lost_packets * loss.den,
            None => metrics.total_packets == 0,
        },
{
    if metrics.total_packets > 0 {
        let loss = metrics.loss()->0;
        assert(loss.num * metrics.total_packets == 100 * metrics.lost_packets * loss.den)
            by (nonlinear_arith)
            requires
                loss.num == 100 * metrics.lost_packets,
                loss.den == metrics.total_packets,
        ;
    }
}

/// Uploads send with their pause, and downloads read with room for a whole packet.
pub proof fn directions_send_or_receive(packet_size: usize, pause_ns: Option<u64>)
    ensures
        turn_of(IperfDirection::Upload, packet_size, pause_ns) == (UdpTurn::Send { pause_ns }),
        turn_of(IperfDirection::Download, packet_size, pause_ns) matches UdpTurn::Receive {
            capacity,
        } && capacity >= packet_size && capacity >= 2048 && (capacity == packet_size || capacity
            == 2048),
{
}

/// The numbers of a worker begin behind as many ranges of 2^32 as there are workers before it.
pub proof fn workers_count_in_their_own_range(worker_id: int)
    requires
        0 <= worker_id < 0x1_0000_0000,
    ensures
        first_number(worker_id) - 1 == worker_id * 0x1_0000_0000,
        worker_id > 0 ==> first_number(worker_id) - first_number(worker_id - 1) == 0x1_0000_0000,
{
}

} // verus!
