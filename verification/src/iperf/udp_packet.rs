//! The datagrams of the native benchmark.

use vstd::prelude::*;

use crate::clock::now_micros;
use crate::num::fraction::Fraction;
use crate::num::whole::greatest;

verus! {

/// The length of the header: a mark, a sequence number and a time.
pub const HEADER_LEN: usize = 20;

/// What fills a datagram behind its header.
pub const FILL: u8 = 0x31;

/// The mark that a datagram starts with.
pub open spec fn mark() -> Seq<u8> {
    seq![0x54u8, 0x4d, 0x55, 0x58]
}

#[derive(Clone, Copy, Debug, PartialEq, Eq, Structural)]
pub struct UdpHeader {
    pub sequence: u64,
    pub sent_micros: u64,
}

/// A number in `width` bytes, highest first.
pub open spec fn big_endian(value: int, width: int) -> Seq<u8>
    decreases width,
{
    if width <= 0 {
        Seq::empty()
    } else {
        big_endian(value / 256, width - 1).push((value % 256) as u8)
    }
}

/// The number that bytes stand for, highest first.
pub open spec fn from_big_endian(bytes: Seq<u8>) -> int
    decreases bytes.len(),
{
    if bytes.len() == 0 {
        0
    } else {
        from_big_endian(bytes.drop_last()) * 256 + bytes.last()
    }
}

pub open spec fn power256(width: int) -> int
    decreases width,
{
    if width <= 0 {
        1
    } else {
        256 * power256(width - 1)
    }
}

/// Reading a number back from its bytes gives that number.
pub proof fn big_endian_reads_back(value: int, width: int)
    requires
        0 <= width,
        0 <= value < power256(width),
    ensures
        big_endian(value, width).len() == width,
        from_big_endian(big_endian(value, width)) == value,
    decreases width,
{
    if width > 0 {
        assert(value / 256 < power256(width - 1)) by (nonlinear_arith)
            requires
                value < 256 * power256(width - 1),
        ;
        big_endian_reads_back(value / 256, width - 1);
        assert(big_endian(value, width).drop_last() =~= big_endian(value / 256, width - 1));
    }
}

/// A datagram.
pub open spec fn packet_bytes(sequence: u64, payload_len: int, sent_micros: u64) -> Seq<u8> {
    mark() + big_endian(sequence as int, 8) + big_endian(sent_micros as int, 8) + Seq::new(
        greatest(payload_len - HEADER_LEN, 0) as nat,
        |i: int| FILL,
    )
}

fn push_big_endian(out: &mut Vec<u8>, value: u64)
    ensures
        final(out)@ == old(out)@ + big_endian(value as int, 8),
{
    let ghost start = out@;
    let b7: u8 = (value % 256) as u8;
    let v6: u64 = value / 256;
    let v5: u64 = v6 / 256;
    let v4: u64 = v5 / 256;
    let v3: u64 = v4 / 256;
    let v2: u64 = v3 / 256;
    let v1: u64 = v2 / 256;
    let v0: u64 = v1 / 256;
    out.push((v0 % 256) as u8);
    out.push((v1 % 256) as u8);
    out.push((v2 % 256) as u8);
    out.push((v3 % 256) as u8);
    out.push((v4 % 256) as u8);
    out.push((v5 % 256) as u8);
    out.push((v6 % 256) as u8);
    out.push(b7);
    proof {
        reveal_with_fuel(big_endian, 9);
        assert(out@ =~= start + big_endian(value as int, 8));
    }
}

/// The datagram with the given number, sent at the given time.
pub fn build_packet_at(sequence: u64, payload_len: usize, sent_micros: u64) -> (packet: Vec<u8>)
    ensures
        packet@ == packet_bytes(sequence, payload_len as int, sent_micros),
        packet.len() == greatest(payload_len as int, HEADER_LEN as int),
{
    proof {
        lemma_powers();
        big_endian_reads_back(sequence as int, 8);
        big_endian_reads_back(sent_micros as int, 8);
    }
    let mut packet: Vec<u8> = Vec::new();
    packet.push(0x54);
    packet.push(0x4d);
    packet.push(0x55);
    packet.push(0x58);
    assert(packet@ =~= mark());
    push_big_endian(&mut packet, sequence);
    push_big_endian(&mut packet, sent_micros);
    let ghost header = packet@;
    while packet.len() < payload_len
        invariant
            header.len() == HEADER_LEN,
            HEADER_LEN <= packet.len(),
            packet.len() <= payload_len || packet.len() == HEADER_LEN,
            packet@ == header + Seq::new((packet.len() - HEADER_LEN) as nat, |i: int| FILL),
        decreases payload_len - packet.len(),
    {
        packet.push(FILL);
        assert(packet@ =~= header + Seq::new((packet.len() - HEADER_LEN) as nat, |i: int| FILL));
    }
    packet
}

proof fn lemma_powers()
    ensures
        power256(8) == 0x1_0000_0000_0000_0000,
{
    reveal_with_fuel(power256, 9);
}

/// The datagram with the given number, sent now.
pub fn build_packet(sequence: u64, payload_len: usize) -> (packet: Vec<u8>)
    ensures
        exists|sent_micros: u64|
            packet@ == #[trigger] packet_bytes(sequence, payload_len as int, sent_micros),
        packet.len() == greatest(payload_len as int, HEADER_LEN as int),
{
    let now: u64 = now_micros();
    build_packet_at(sequence, payload_len, now)
}

/// The header of a datagram, if it is one.
pub open spec fn header_of(packet: Seq<u8>) -> Option<UdpHeader> {
    if packet.len() < HEADER_LEN || packet.subrange(0, 4) != mark() {
        None
    } else {
        Some(
            UdpHeader {
                sequence: from_big_endian(packet.subrange(4, 12)) as u64,
                sent_micros: from_big_endian(packet.subrange(12, 20)) as u64,
            },
        )
    }
}

fn read_big_endian(packet: &[u8], from: usize) -> (r: u64)
    requires
        from + 8 <= packet.len(),
    ensures
        r == from_big_endian(packet@.subrange(from as int, from + 8)),
{
    let ghost bytes = packet@.subrange(from as int, from + 8);
    let mut value: u64 = 0;
    let mut i: usize = 0;
    assert(bytes.take(0) =~= Seq::<u8>::empty());
    proof {
        reveal_with_fuel(power256, 9);
    }
    while i < 8
        invariant
            from + 8 <= packet.len(),
            i <= 8,
            bytes == packet@.subrange(from as int, from + 8),
            value == from_big_endian(bytes.take(i as int)),
            value < power256(i as int),
            power256(8) == 0x1_0000_0000_0000_0000,
        decreases 8 - i,
    {
        proof {
            assert(bytes.take(i + 1).drop_last() =~= bytes.take(i as int));
            assert(bytes.take(i + 1).last() == packet@[from + i]);
            reveal_with_fuel(power256, 9);
        }
        value = value * 256 + packet[from + i] as u64;
        i = i + 1;
    }
    assert(bytes.take(8) =~= bytes);
    value
}

/// The header of a datagram, if it is one.
pub fn parse_header(packet: &[u8]) -> (r: Option<UdpHeader>)
    ensures
        r == header_of(packet@),
{
    if packet.len() < HEADER_LEN {
        return None;
    }
    let ghost front = packet@.subrange(0, 4);
    if packet[0] != 0x54 || packet[1] != 0x4d || packet[2] != 0x55 || packet[3] != 0x58 {
        proof {
            assert(front[0] == packet@[0] && front[1] == packet@[1] && front[2] == packet@[2]
                && front[3] == packet@[3]);
        }
        return None;
    }
    assert(front =~= mark());
    Some(
        UdpHeader {
            sequence: read_big_endian(packet, 4),
            sent_micros: read_big_endian(packet, 12),
        },
    )
}

/// A receiver reads from a datagram what the sender put in.
pub proof fn header_reads_back(sequence: u64, payload_len: int, sent_micros: u64)
    ensures
        header_of(packet_bytes(sequence, payload_len, sent_micros)) == Some(
            UdpHeader { sequence, sent_micros },
        ),
{
    lemma_powers();
    big_endian_reads_back(sequence as int, 8);
    big_endian_reads_back(sent_micros as int, 8);
    let packet = packet_bytes(sequence, payload_len, sent_micros);
    assert(packet.subrange(0, 4) =~= mark());
    assert(packet.subrange(4, 12) =~= big_endian(sequence as int, 8));
    assert(packet.subrange(12, 20) =~= big_endian(sent_micros as int, 8));
}

/// What a receiver has counted.
#[derive(Clone, Copy, Debug, PartialEq, Eq, Structural)]
pub struct UdpReceiveMetrics {
    pub total_packets: u64,
    pub lost_packets: u64,
    pub out_of_order: u64,
    pub last_transit_micros: Option<u64>,
    pub expected_next_sequence: Option<u64>,
}

impl Default for UdpReceiveMetrics {
    fn default() -> (r: UdpReceiveMetrics)
        ensures
            r == UdpReceiveMetrics::fresh(),
            r.consistent(),
    {
        UdpReceiveMetrics {
            total_packets: 0,
            lost_packets: 0,
            out_of_order: 0,
            last_transit_micros: None,
            expected_next_sequence: None,
        }
    }
}

impl UdpReceiveMetrics {
    pub open spec fn fresh() -> UdpReceiveMetrics {
        UdpReceiveMetrics {
            total_packets: 0,
            lost_packets: 0,
            out_of_order: 0,
            last_transit_micros: None,
            expected_next_sequence: None,
        }
    }

    /// No more datagrams are missing or late than there are numbers so far or datagrams at all.
    pub open spec fn consistent(self) -> bool {
        &&& self.lost_packets <= match self.expected_next_sequence {
            Some(next) => next,
            None => 0,
        }
        &&& self.out_of_order <= self.total_packets
    }

    /// The counts after a datagram: one that is ahead of the expected number leaves a gap of lost
    /// ones, one that is behind it is out of order.
    pub open spec fn counted(self, header: Option<UdpHeader>, now_micros: u64) -> UdpReceiveMetrics {
        let seen = UdpReceiveMetrics { total_packets: (self.total_packets + 1) as u64, ..self };
        match header {
            None => seen,
            Some(h) => {
                let placed = match self.expected_next_sequence {
                    Some(expected) => if h.sequence < expected {
                        UdpReceiveMetrics { out_of_order: (self.out_of_order + 1) as u64, ..seen }
                    } else {
                        UdpReceiveMetrics {
                            lost_packets: (self.lost_packets + (h.sequence - expected)) as u64,
                            expected_next_sequence: Some((h.sequence + 1) as u64),
                            ..seen
                        }
                    },
                    None => UdpReceiveMetrics {
                        expected_next_sequence: Some((h.sequence + 1) as u64),
                        ..seen
                    },
                };
                if now_micros >= h.sent_micros {
                    UdpReceiveMetrics {
                        last_transit_micros: Some((now_micros - h.sent_micros) as u64),
                        ..placed
                    }
                } else {
                    placed
                }
            },
        }
    }

    /// By how much the time in transit differs from that of the datagram before, where both are
    /// known.
    pub open spec fn transit_change(self, header: Option<UdpHeader>, now_micros: u64) -> Option<int> {
        match (header, self.last_transit_micros) {
            (Some(h), Some(last)) => if now_micros >= h.sent_micros {
                let transit = now_micros - h.sent_micros;
                Some(
                    if transit >= last {
                        transit - last
                    } else {
                        last - transit
                    },
                )
            } else {
                None
            },
            _ => None,
        }
    }

    /// Counts a datagram that arrived at `now_micros`, and returns by how much the time in transit
    /// has changed.
    pub fn on_packet_at(&mut self, header: Option<UdpHeader>, now_micros: u64) -> (change: Option<u64>)
        requires
            old(self).consistent(),
            old(self).total_packets < u64::MAX,
            header is Some ==> header->0.sequence < u64::MAX,
        ensures
            *final(self) == old(self).counted(header, now_micros),
            final(self).consistent(),
            match change {
                Some(micros) => old(self).transit_change(header, now_micros) == Some(micros as int),
                None => old(self).transit_change(header, now_micros) is None,
            },
    {
        self.total_packets = self.total_packets + 1;
        let header = match header {
            Some(header) => header,
            None => {
                return None;
            },
        };
        match self.expected_next_sequence {
            None => {
                self.expected_next_sequence = Some(header.sequence + 1);
            },
            Some(expected) => {
                if header.sequence >= expected {
                    self.lost_packets = self.lost_packets + (header.sequence - expected);
                    self.expected_next_sequence = Some(header.sequence + 1);
                } else {
                    self.out_of_order = self.out_of_order + 1;
                }
            },
        }
        let mut change: Option<u64> = None;
        if now_micros >= header.sent_micros {
            let transit: u64 = now_micros - header.sent_micros;
            if let Some(last) = self.last_transit_micros {
                change = Some(
                    if transit >= last {
                        transit - last
                    } else {
                        last - transit
                    },
                );
            }
            self.last_transit_micros = Some(transit);
        }
        change
    }

    /// Counts a datagram that arrived now, and returns by how much the time in transit has changed.
    pub fn on_packet(&mut self, header: Option<UdpHeader>) -> (change: Option<u64>)
        requires
            old(self).consistent(),
            old(self).total_packets < u64::MAX,
            header is Some ==> header->0.sequence < u64::MAX,
        ensures
            exists|now_micros: u64|
                *final(self) == #[trigger] old(self).counted(header, now_micros) && (match change {
                    Some(micros) => old(self).transit_change(header, now_micros) == Some(
                        micros as int,
                    ),
                    None => old(self).transit_change(header, now_micros) is None,
                }),
            final(self).consistent(),
    {
        let now: u64 = now_micros();
        self.on_packet_at(header, now)
    }

    /// The lost datagrams in percent of the received ones, where any were received.
    pub open spec fn loss(self) -> Option<Fraction> {
        if self.total_packets == 0 {
            None
        } else {
            Some(
                Fraction {
                    num: (100 * self.lost_packets) as u128,
                    den: self.total_packets as u128,
                },
            )
        }
    }

    /// The lost datagrams in percent of the received ones.
    pub fn loss_percent(&self) -> (r: Option<Fraction>)
        ensures
            r == if self.total_packets == 0 {
                None
            } else {
                Some(
                    Fraction {
                        num: (self.lost_packets * 100) as u128,
                        den: self.total_packets as u128,
                    },
                )
            },
            r == self.loss(),
    {
        if self.total_packets == 0 {
            return None;
        }
        Some(Fraction { num: self.lost_packets as u128 * 100, den: self.total_packets as u128 })
    }

    /// The counts of both.
    pub open spec fn joined(self, other: UdpReceiveMetrics) -> UdpReceiveMetrics {
        if other.total_packets == 0 {
            self
        } else {
            UdpReceiveMetrics {
                total_packets: (self.total_packets + other.total_packets) as u64,
                lost_packets: (self.lost_packets + other.lost_packets) as u64,
                out_of_order: (self.out_of_order + other.out_of_order) as u64,
                last_transit_micros: match other.last_transit_micros {
                    Some(transit) => Some(transit),
                    None => self.last_transit_micros,
                },
                expected_next_sequence: self.expected_next_sequence,
            }
        }
    }

    /// Adds the counts of another receiver.
    pub fn merge(&mut self, other: &UdpReceiveMetrics)
        requires
            old(self).total_packets + other.total_packets <= u64::MAX,
            old(self).lost_packets + other.lost_packets <= u64::MAX,
            old(self).out_of_order + other.out_of_order <= u64::MAX,
        ensures
            *final(self) == old(self).joined(*other),
            final(self).total_packets == old(self).total_packets + other.total_packets,
            other.total_packets > 0 ==> final(self).lost_packets == old(self).lost_packets
                + other.lost_packets && final(self).out_of_order == old(self).out_of_order
                + other.out_of_order,
    {
        if other.total_packets == 0 {
            return ;
        }
        self.total_packets = self.total_packets + other.total_packets;
        self.lost_packets = self.lost_packets + other.lost_packets;
        self.out_of_order = self.out_of_order + other.out_of_order;
        if other.last_transit_micros.is_some() {
            self.last_transit_micros = other.last_transit_micros;
        }
    }
}

/// Datagrams that come in order, each number once, are neither lost nor late.
pub proof fn in_order_counts_nothing_lost(
    metrics: UdpReceiveMetrics,
    header: UdpHeader,
    now_micros: u64,
)
    requires
        metrics.total_packets < u64::MAX,
        metrics.expected_next_sequence == Some(header.sequence),
        header.sequence < u64::MAX,
    ensures
        ({
            let after = metrics.counted(Some(header), now_micros);
            &&& after.lost_packets == metrics.lost_packets
            &&& after.out_of_order == metrics.out_of_order
            &&& after.expected_next_sequence == Some((header.sequence + 1) as u64)
        }),
{
}

/// Every datagram counts once. Of one that is at or ahead of the expected number, those between are
/// lost; the numbers that were passed are those received or lost. One that is behind is late, and
/// changes neither what is lost nor what is expected.
pub proof fn numbers_are_received_lost_or_late(
    metrics: UdpReceiveMetrics,
    header: UdpHeader,
    expected: u64,
    now_micros: u64,
)
    requires
        metrics.consistent(),
        metrics.total_packets < u64::MAX,
        metrics.expected_next_sequence == Some(expected),
        header.sequence < u64::MAX,
    ensures
        ({
            let after = metrics.counted(Some(header), now_micros);
            &&& after.total_packets == metrics.total_packets + 1
            &&& header.sequence >= expected ==> {
                &&& after.expected_next_sequence is Some
                &&& after.expected_next_sequence->0 == header.sequence + 1
                &&& after.expected_next_sequence->0 - expected == 1 + (after.lost_packets
                    - metrics.lost_packets)
                &&& after.out_of_order == metrics.out_of_order
            }
            &&& header.sequence < expected ==> {
                &&& after.out_of_order == metrics.out_of_order + 1
                &&& after.lost_packets == metrics.lost_packets
                &&& after.expected_next_sequence == metrics.expected_next_sequence
            }
        }),
{
}

/// The first datagram sets the expected number, and loses none. What is no datagram of the
/// benchmark counts as received and as nothing else.
pub proof fn first_and_foreign_datagrams(
    metrics: UdpReceiveMetrics,
    header: UdpHeader,
    now_micros: u64,
)
    requires
        metrics.total_packets < u64::MAX,
        header.sequence < u64::MAX,
    ensures
        metrics.expected_next_sequence is None ==> {
            let after = metrics.counted(Some(header), now_micros);
            &&& after.expected_next_sequence is Some
            &&& after.expected_next_sequence->0 == header.sequence + 1
            &&& after.lost_packets == metrics.lost_packets
            &&& after.out_of_order == metrics.out_of_order
        },
        ({
            let after = metrics.counted(None, now_micros);
            &&& after.total_packets == metrics.total_packets + 1
            &&& after.lost_packets == metrics.lost_packets
            &&& after.out_of_order == metrics.out_of_order
            &&& after.expected_next_sequence == metrics.expected_next_sequence
        }),
{
}

/// The change of the time in transit is the distance of two transits, whichever was longer, and the
/// later one is compared with next.
pub proof fn transits_are_compared_in_turn(
    metrics: UdpReceiveMetrics,
    header: UdpHeader,
    last: u64,
    now_micros: u64,
)
    requires
        metrics.total_packets < u64::MAX,
        header.sequence < u64::MAX,
        metrics.last_transit_micros == Some(last),
        now_micros >= header.sent_micros,
    ensures
        ({
            let transit = now_micros - header.sent_micros;
            let change = metrics.transit_change(Some(header), now_micros);
            &&& change matches Some(c) && c >= 0 && (c == transit - last || c == last - transit)
            &&& metrics.counted(Some(header), now_micros).last_transit_micros == Some(
                transit as u64,
            )
        }),
{
}

/// What is too short, or does not begin with the mark, is no datagram of a run.
pub proof fn foreign_packets_have_no_header(packet: Seq<u8>)
    ensures
        packet.len() < 20 ==> header_of(packet) is None,
        packet.len() >= 20 ==> (header_of(packet) is Some <==> packet[0] == 0x54 && packet[1]
            == 0x4d && packet[2] == 0x55 && packet[3] == 0x58),
{
    if packet.len() >= 20 {
        let front = packet.subrange(0, 4);
        assert(front[0] == packet[0] && front[1] == packet[1] && front[2] == packet[2] && front[3]
            == packet[3]);
        if packet[0] == 0x54 && packet[1] == 0x4d && packet[2] == 0x55 && packet[3] == 0x58 {
            assert(front =~= mark());
        }
    }
}

/// A receiver that has counted nothing yet takes over the counts of another as they are.
pub proof fn the_first_counts_are_taken_over(other: UdpReceiveMetrics)
    requires
        other.total_packets > 0,
    ensures
        UdpReceiveMetrics::fresh().joined(other).total_packets == other.total_packets,
        UdpReceiveMetrics::fresh().joined(other).lost_packets == other.lost_packets,
        UdpReceiveMetrics::fresh().joined(other).out_of_order == other.out_of_order,
        UdpReceiveMetrics::fresh().joined(other).last_transit_micros == other.last_transit_micros,
        UdpReceiveMetrics::fresh().expected_next_sequence is None,
{
}

} // verus!
