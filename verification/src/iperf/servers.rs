//! Public servers of the native benchmark.

use vstd::prelude::*;

use crate::cli::IperfProtocol;
use crate::num::fraction::{lemma_less_steps, Fraction};
use crate::speedtest::latency::{average_latency, mean, span_sum};
use crate::text::{
    contains, copy_opt, eq_ignore_case, holds, lowered, same_but_case, to_lower, trim, trimmed,
};

verus! {

/// The ports that a server listens on, and the protocols that it speaks there.
#[derive(Debug)]
pub enum PortDescriptor {
    Single { port: u16, protocol: String },
    Range { from: u16, to: u16, protocol: String },
}

/// An entry of a server list.
#[derive(Debug)]
pub struct ServerEntry {
    pub region: Option<String>,
    pub host: String,
    pub localization: Option<String>,
    pub status: Option<String>,
    pub port: PortDescriptor,
}

/// A server that can be tried.
#[derive(Debug)]
pub struct IperfServerCandidate {
    pub host: String,
    pub port: u16,
    pub region: Option<String>,
    pub localization: Option<String>,
}

/// The port that is used where a server has it.
pub const DEFAULT_PORT: u16 = 5_201;

impl PortDescriptor {
    pub open spec fn protocols(self) -> Seq<char> {
        match self {
            PortDescriptor::Single { protocol, .. } => protocol@,
            PortDescriptor::Range { protocol, .. } => protocol@,
        }
    }

    /// Whether the protocol is named, in any case.
    pub open spec fn speaks(self, protocol: IperfProtocol) -> bool {
        holds(
            lowered(self.protocols()),
            match protocol {
                IperfProtocol::Tcp => "tcp"@,
                IperfProtocol::Udp => "udp"@,
            },
        )
    }

    /// The port to use: of a range the default port where the range has it, else the first.
    pub open spec fn chosen_port(self) -> u16 {
        match self {
            PortDescriptor::Single { port, .. } => port,
            PortDescriptor::Range { from, to, .. } => if from <= DEFAULT_PORT <= to {
                DEFAULT_PORT
            } else {
                from
            },
        }
    }

    pub fn supports(&self, protocol: IperfProtocol) -> (r: bool)
        ensures
            r == self.speaks(protocol),
    {
        let named: &String = match self {
            PortDescriptor::Single { protocol, .. } => protocol,
            PortDescriptor::Range { protocol, .. } => protocol,
        };
        let small = to_lower(named.as_str());
        match protocol {
            IperfProtocol::Tcp => contains(small.as_str(), "tcp"),
            IperfProtocol::Udp => contains(small.as_str(), "udp"),
        }
    }

    pub fn default_port(&self) -> (r: u16)
        ensures
            r == self.chosen_port(),
    {
        match self {
            PortDescriptor::Single { port, .. } => *port,
            PortDescriptor::Range { from, to, .. } => {
                if *from <= DEFAULT_PORT && DEFAULT_PORT <= *to {
                    DEFAULT_PORT
                } else {
                    *from
                }
            },
        }
    }
}

/// Whether a status says that the server is up.
pub open spec fn status_ok(status: Option<String>) -> bool {
    match status {
        Some(text) => same_but_case(trimmed(text@), "ok"@),
        None => false,
    }
}

pub fn is_status_ok(status: &Option<String>) -> (r: bool)
    ensures
        r == status_ok(*status),
{
    match status {
        Some(text) => eq_ignore_case(trim(text.as_str()).as_str(), "ok"),
        None => false,
    }
}

/// Whether an entry can be used for the protocol.
pub open spec fn usable(entry: ServerEntry, protocol: IperfProtocol) -> bool {
    status_ok(entry.status) && entry.port.speaks(protocol)
}

pub open spec fn candidate(entry: ServerEntry, port_override: Option<u16>) -> IperfServerCandidate {
    IperfServerCandidate {
        host: entry.host,
        port: match port_override {
            Some(port) => port,
            None => entry.port.chosen_port(),
        },
        region: entry.region,
        localization: entry.localization,
    }
}

/// The usable entries as candidates, in their order.
pub open spec fn candidates_in(
    entries: Seq<ServerEntry>,
    protocol: IperfProtocol,
    port_override: Option<u16>,
) -> Seq<IperfServerCandidate>
    decreases entries.len(),
{
    if entries.len() == 0 {
        Seq::empty()
    } else {
        let before = candidates_in(entries.drop_last(), protocol, port_override);
        if usable(entries.last(), protocol) {
            before.push(candidate(entries.last(), port_override))
        } else {
            before
        }
    }
}

/// Why no server can be used.
#[derive(Debug)]
pub enum ServersError {
    /// The list of this file has no server that is up and speaks the protocol.
    NoneUsable { file_path: String, protocol: IperfProtocol },
    /// There is nothing to choose from.
    NoCandidates,
    /// No server answered.
    NoneAnswered,
}

impl ServersError {
    pub open spec fn text(self) -> Seq<char> {
        match self {
            ServersError::NoneUsable { file_path, protocol } => "no usable iperf servers found in '"@
                + file_path@ + "' for protocol "@ + (match protocol {
                IperfProtocol::Tcp => "Tcp"@,
                IperfProtocol::Udp => "Udp"@,
            }),
            ServersError::NoCandidates => "cannot select iperf server from an empty candidate list"@,
            ServersError::NoneAnswered => "all candidate iperf servers failed latency probe"@,
        }
    }

    pub fn message(&self) -> (r: String)
        ensures
            r@ == self.text(),
    {
        match self {
            ServersError::NoneUsable { file_path, protocol } => {
                let mut out = "no usable iperf servers found in '".to_owned();
                out.append(file_path.as_str());
                out.append("' for protocol ");
                out.append(
                    match protocol {
                        IperfProtocol::Tcp => "Tcp",
                        IperfProtocol::Udp => "Udp",
                    },
                );
                out
            },
            ServersError::NoCandidates => {
                "cannot select iperf server from an empty candidate list".to_owned()
            },
            ServersError::NoneAnswered => {
                "all candidate iperf servers failed latency probe".to_owned()
            },
        }
    }
}

/// The servers of the list in `file_path` that can be tried.
pub fn load_candidates(
    file_path: &str,
    entries: &Vec<ServerEntry>,
    protocol: IperfProtocol,
    port_override: Option<u16>,
) -> (r: Result<Vec<IperfServerCandidate>, ServersError>)
    ensures
        match r {
            Ok(list) => list@.len() > 0 && list@ == candidates_in(
                entries@,
                protocol,
                port_override,
            ),
            Err(error) => candidates_in(entries@, protocol, port_override).len() == 0 && (
            error matches ServersError::NoneUsable { file_path: named, protocol: wanted }
                && named@ == file_path@ && wanted == protocol),
        },
{
    let mut out: Vec<IperfServerCandidate> = Vec::new();
    let mut i: usize = 0;
    assert(entries@.take(0) =~= Seq::<ServerEntry>::empty());
    while i < entries.len()
        invariant
            i <= entries.len(),
            out@ == candidates_in(entries@.take(i as int), protocol, port_override),
        decreases entries.len() - i,
    {
        proof {
            assert(entries@.take(i + 1).drop_last() =~= entries@.take(i as int));
            assert(entries@.take(i + 1).last() == entries@[i as int]);
        }
        if is_status_ok(&entries[i].status) && entries[i].port.supports(protocol) {
            let port: u16 = match port_override {
                Some(port) => port,
                None => entries[i].port.default_port(),
            };
            out.push(
                IperfServerCandidate {
                    host: entries[i].host.clone(),
                    port,
                    region: copy_opt(&entries[i].region),
                    localization: copy_opt(&entries[i].localization),
                },
            );
        }
        i = i + 1;
    }
    assert(entries@.take(i as int) =~= entries@);
    if out.len() == 0 {
        return Err(ServersError::NoneUsable { file_path: file_path.to_owned(), protocol });
    }
    Ok(out)
}

/// How many times a candidate is tried, at least once.
pub fn probe_count(latency_samples: usize) -> (r: usize)
    ensures
        r == if latency_samples == 0 {
            1
        } else {
            latency_samples
        },
{
    if latency_samples == 0 {
        1
    } else {
        latency_samples
    }
}

/// What was measured of a candidate: the nanoseconds of each try that succeeded.
#[derive(Debug)]
pub struct IperfProbe {
    pub candidate: IperfServerCandidate,
    pub samples_ns: Vec<i64>,
}

impl IperfProbe {
    pub open spec fn valid(self) -> bool {
        forall|i: int| 0 <= i < self.samples_ns.len() ==> 0 <= #[trigger] self.samples_ns[i]
    }

    pub open spec fn answered(self) -> bool {
        self.samples_ns.len() > 0
    }

    /// The average latency of a candidate that answered.
    pub open spec fn average(self) -> Fraction {
        mean(self.samples_ns@)
    }
}

/// The server that a benchmark is run against.
#[derive(Debug)]
pub struct IperfSelectedServer {
    pub host: String,
    pub port: u16,
    pub average_latency_ns: Fraction,
    pub region: Option<String>,
    pub localization: Option<String>,
}

pub open spec fn selected(probe: IperfProbe) -> IperfSelectedServer {
    IperfSelectedServer {
        host: probe.candidate.host,
        port: probe.candidate.port,
        average_latency_ns: probe.average(),
        region: probe.candidate.region,
        localization: probe.candidate.localization,
    }
}

/// Whether probe `i` is the best of those that answered: none is below it, and none that came
/// before it is equal.
pub open spec fn is_fastest(probes: Seq<IperfProbe>, i: int) -> bool {
    &&& 0 <= i < probes.len()
    &&& probes[i].answered()
    &&& forall|j: int|
        0 <= j < probes.len() && (#[trigger] probes[j]).answered() ==> !probes[j].average().less(
            probes[i].average(),
        )
    &&& forall|j: int|
        0 <= j < i && (#[trigger] probes[j]).answered() ==> probes[i].average().less(
            probes[j].average(),
        )
}

/// The candidate with the lowest average, the first of them in the order of the probes.
pub fn select_best_server(probes: &Vec<IperfProbe>) -> (r: Result<
    IperfSelectedServer,
    ServersError,
>)
    requires
        forall|i: int| 0 <= i < probes.len() ==> (#[trigger] probes[i]).valid(),
    ensures
        match r {
            Ok(server) => exists|i: int|
                #[trigger] is_fastest(probes@, i) && server == selected(probes[i]),
            Err(ServersError::NoCandidates) => probes.len() == 0,
            Err(ServersError::NoneAnswered) => probes.len() > 0 && forall|i: int|
                0 <= i < probes.len() ==> !(#[trigger] probes[i]).answered(),
            Err(ServersError::NoneUsable { .. }) => false,
        },
{
    if probes.len() == 0 {
        return Err(ServersError::NoCandidates);
    }
    let mut best: Option<(usize, Fraction)> = None;
    let mut i: usize = 0;
    while i < probes.len()
        invariant
            i <= probes.len(),
            forall|k: int| 0 <= k < probes.len() ==> (#[trigger] probes[k]).valid(),
            match best {
                Some((at, average)) => {
                    &&& at < i
                    &&& probes[at as int].answered()
                    &&& average == probes[at as int].average()
                    &&& average.den > 0
                    &&& forall|j: int|
                        0 <= j < i && (#[trigger] probes[j]).answered()
                            ==> !probes[j].average().less(average)
                    &&& forall|j: int|
                        0 <= j < at && (#[trigger] probes[j]).answered() ==> average.less(
                            probes[j].average(),
                        )
                },
                None => forall|j: int| 0 <= j < i ==> !(#[trigger] probes[j]).answered(),
            },
        decreases probes.len() - i,
    {
        assert(probes[i as int].valid());
        let measured = average_latency(&probes[i].samples_ns);
        if let Some(average) = measured {
            best = match best {
                Some((at, lowest)) => if average.is_less(lowest) {
                    proof {
                        assert forall|j: int| 0 <= j < i && (#[trigger] probes[j]).answered() implies
                            average.less(probes[j].average()) by {
                            lemma_less_steps(average, lowest, probes[j].average());
                        }
                    }
                    Some((i, average))
                } else {
                    Some((at, lowest))
                },
                None => Some((i, average)),
            };
        }
        i = i + 1;
    }
    match best {
        Some((at, average)) => {
            proof {
                assert(is_fastest(probes@, at as int));
            }
            Ok(
                IperfSelectedServer {
                    host: probes[at].candidate.host.clone(),
                    port: probes[at].candidate.port,
                    average_latency_ns: average,
                    region: copy_opt(&probes[at].candidate.region),
                    localization: copy_opt(&probes[at].candidate.localization),
                },
            )
        },
        None => Err(ServersError::NoneAnswered),
    }
}

/// The port to use is one that the server has: 5201 where it has that, and else its first.
pub proof fn the_port_is_one_of_the_server(entry: ServerEntry, wanted: u16)
    ensures
        candidate(entry, Some(wanted)).port == wanted,
        entry.port matches PortDescriptor::Single { port, .. } ==> candidate(entry, None).port
            == port,
        entry.port matches PortDescriptor::Range { from, to, .. } ==> {
            &&& from <= to ==> from <= candidate(entry, None).port <= to
            &&& from <= 5201 <= to ==> candidate(entry, None).port == 5201
            &&& !(from <= 5201 <= to) ==> candidate(entry, None).port == from
        },
{
}

/// An entry more is a candidate more exactly where its status is a plain `ok` in any case and its
/// protocols name the one that is wanted, and then the last one with the host of the entry.
pub proof fn usable_entries_are_candidates(
    entries: Seq<ServerEntry>,
    next: ServerEntry,
    protocol: IperfProtocol,
    port_override: Option<u16>,
)
    ensures
        ({
            let before = candidates_in(entries, protocol, port_override);
            let after = candidates_in(entries.push(next), protocol, port_override);
            let up = next.status matches Some(text) && lowered(trimmed(text@)) == lowered("ok"@);
            let spoken = lowered(
                match next.port {
                    PortDescriptor::Single { protocol, .. } => protocol@,
                    PortDescriptor::Range { protocol, .. } => protocol@,
                },
            );
            let fits = match protocol {
                IperfProtocol::Tcp => holds(spoken, "tcp"@),
                IperfProtocol::Udp => holds(spoken, "udp"@),
            };
            if up && fits {
                &&& after.len() == before.len() + 1
                &&& after.drop_last() == before
                &&& after.last().host == next.host
                &&& after.last().region == next.region
                &&& after.last().localization == next.localization
                &&& after.last().port == candidate(next, port_override).port
            } else {
                after == before
            }
        }),
        candidates_in(Seq::empty(), protocol, port_override).len() == 0,
{
    assert(entries.push(next).drop_last() =~= entries);
    let after = candidates_in(entries.push(next), protocol, port_override);
    if usable(next, protocol) {
        assert(after.drop_last() =~= candidates_in(entries, protocol, port_override));
    }
}

/// The server that is selected has answered, and its average is the lowest: the time of all its
/// tries over their number is at most that of any other.
pub proof fn the_selected_server_answers_fastest(probes: Seq<IperfProbe>, i: int, j: int)
    requires
        is_fastest(probes, i),
        0 <= j < probes.len(),
        probes[j].samples_ns.len() > 0,
        probes[i].valid(),
        probes[j].valid(),
    ensures
        probes[i].samples_ns.len() > 0,
        span_sum(probes[i].samples_ns@, 0, probes[i].samples_ns.len() as int)
            * probes[j].samples_ns.len() <= span_sum(
            probes[j].samples_ns@,
            0,
            probes[j].samples_ns.len() as int,
        ) * probes[i].samples_ns.len(),
        selected(probes[i]).host == probes[i].candidate.host,
        selected(probes[i]).port == probes[i].candidate.port,
        selected(probes[i]).average_latency_ns == mean(probes[i].samples_ns@),
{
    assert(probes[j].answered());
    assert(!probes[j].average().less(probes[i].average()));
    lemma_sum_fits(probes[i].samples_ns@);
    lemma_sum_fits(probes[j].samples_ns@);
}

proof fn lemma_sum_fits(samples: Seq<i64>)
    requires
        samples.len() <= u64::MAX,
        forall|i: int| 0 <= i < samples.len() ==> 0 <= #[trigger] samples[i],
    ensures
        mean(samples).num == span_sum(samples, 0, samples.len() as int),
        mean(samples).den == samples.len(),
{
    lemma_sum_bounds(samples, samples.len() as int);
}

proof fn lemma_sum_bounds(samples: Seq<i64>, upto: int)
    requires
        0 <= upto <= samples.len() <= u64::MAX,
        forall|i: int| 0 <= i < samples.len() ==> 0 <= #[trigger] samples[i],
    ensures
        0 <= span_sum(samples, 0, upto) <= u128::MAX,
        span_sum(samples, 0, upto) <= upto * i64::MAX,
    decreases upto,
{
    assert(upto * i64::MAX <= u64::MAX * i64::MAX && u64::MAX * i64::MAX <= u128::MAX)
        by (nonlinear_arith)
        requires
            upto <= u64::MAX,
    ;
    if upto > 0 {
        lemma_sum_bounds(samples, upto - 1);
        assert(samples[upto - 1] >= 0);
        assert(upto * i64::MAX == (upto - 1) * i64::MAX + i64::MAX) by (nonlinear_arith);
    }
}

} // verus!
