//! Probes of the time to a server and back.

use vstd::prelude::*;

verus! {

/// What a probe is for.
#[derive(Clone, Copy, Debug, PartialEq, Eq, Structural)]
pub enum ProbeKind {
    /// A number of samples while nothing is transferred.
    Idle,
    /// Samples for a time while a transfer runs.
    Loaded,
    /// Reports of what the server has received.
    UploadStats,
}

/// Why a probe gives nothing.
#[derive(Debug)]
pub enum ProbeError {
    NoSamplesWanted,
    NoEndpoints(ProbeKind),
    /// The last endpoint that was tried.
    Failed { kind: ProbeKind, endpoint: String },
    NoHelloEndpoints,
}

impl ProbeError {
    pub open spec fn text(self) -> Seq<char> {
        match self {
            ProbeError::NoSamplesWanted => "latency samples must be greater than zero"@,
            ProbeError::NoEndpoints(ProbeKind::Idle) =>
                "no websocket endpoint candidates available for latency probing"@,
            ProbeError::NoEndpoints(ProbeKind::Loaded) =>
                "no websocket endpoint candidates available for loaded latency probing"@,
            ProbeError::NoEndpoints(ProbeKind::UploadStats) =>
                "no websocket endpoint candidates available for upload stats stream"@,
            ProbeError::Failed { kind: ProbeKind::Idle, endpoint } =>
                "websocket latency probe failed at "@ + endpoint@,
            ProbeError::Failed { kind: ProbeKind::Loaded, endpoint } =>
                "websocket loaded latency probe failed at "@ + endpoint@,
            ProbeError::Failed { kind: ProbeKind::UploadStats, endpoint } =>
                "upload stats stream websocket failed at "@ + endpoint@,
            ProbeError::NoHelloEndpoints => "no hello endpoint candidates available"@,
        }
    }

    pub fn message(&self) -> (r: String)
        ensures
            r@ == self.text(),
    {
        match self {
            ProbeError::NoSamplesWanted => "latency samples must be greater than zero".to_owned(),
            ProbeError::NoEndpoints(ProbeKind::Idle) =>
                "no websocket endpoint candidates available for latency probing".to_owned(),
            ProbeError::NoEndpoints(ProbeKind::Loaded) =>
                "no websocket endpoint candidates available for loaded latency probing".to_owned(),
            ProbeError::NoEndpoints(ProbeKind::UploadStats) =>
                "no websocket endpoint candidates available for upload stats stream".to_owned(),
            ProbeError::Failed { kind: ProbeKind::Idle, endpoint } => {
                let mut out = "websocket latency probe failed at ".to_owned();
                out.append(endpoint.as_str());
                out
            },
            ProbeError::Failed { kind: ProbeKind::Loaded, endpoint } => {
                let mut out = "websocket loaded latency probe failed at ".to_owned();
                out.append(endpoint.as_str());
                out
            },
            ProbeError::Failed { kind: ProbeKind::UploadStats, endpoint } => {
                let mut out = "upload stats stream websocket failed at ".to_owned();
                out.append(endpoint.as_str());
                out
            },
            ProbeError::NoHelloEndpoints => "no hello endpoint candidates available".to_owned(),
        }
    }
}

/// A probe is asked for samples.
pub fn check_sample_count(samples: usize) -> (r: Result<(), ProbeError>)
    ensures
        match r {
            Ok(()) => samples > 0,
            Err(error) => samples == 0 && error == ProbeError::NoSamplesWanted,
        },
{
    if samples == 0 {
        Err(ProbeError::NoSamplesWanted)
    } else {
        Ok(())
    }
}

/// The error of a probe that failed at each of the endpoints: that of the last.
pub fn probe_failure(kind: ProbeKind, endpoints: &Vec<String>) -> (r: ProbeError)
    ensures
        if endpoints.len() == 0 {
            r == ProbeError::NoEndpoints(kind)
        } else {
            r matches ProbeError::Failed { kind: k, endpoint } && k == kind && endpoint@
                == endpoints@.last()@
        },
{
    if endpoints.len() == 0 {
        return ProbeError::NoEndpoints(kind);
    }
    ProbeError::Failed { kind, endpoint: endpoints[endpoints.len() - 1].clone() }
}

/// How long a probe under load runs: as long as it is asked to, but at least a second.
pub fn loaded_probe_ns(duration_ns: u64) -> (r: u64)
    ensures
        r == if duration_ns < 1_000_000_000 {
            1_000_000_000
        } else {
            duration_ns
        },
{
    if duration_ns < 1_000_000_000 {
        1_000_000_000
    } else {
        duration_ns
    }
}

/// Samples that are being taken over a connection.
#[derive(Debug)]
pub struct SampleRun {
    pub wanted: Option<usize>,
    pub deadline_ns: u64,
    pub samples_ns: Vec<i64>,
    pub broken: bool,
}

impl SampleRun {
    /// A run of a number of samples.
    pub fn counted(wanted: usize) -> (r: SampleRun)
        ensures
            r.wanted == Some(wanted),
            r.samples_ns@ == Seq::<i64>::empty(),
            !r.broken,
    {
        SampleRun { wanted: Some(wanted), deadline_ns: 0, samples_ns: Vec::new(), broken: false }
    }

    /// A run up to a point in time.
    pub fn timed(deadline_ns: u64) -> (r: SampleRun)
        ensures
            r.wanted is None,
            r.deadline_ns == deadline_ns,
            r.samples_ns@ == Seq::<i64>::empty(),
            !r.broken,
    {
        SampleRun { wanted: None, deadline_ns, samples_ns: Vec::new(), broken: false }
    }

    /// Whether another sample is to be taken. A run ends for good with the first exchange that
    /// fails.
    pub open spec fn continues(self, now_ns: u64) -> bool {
        !self.broken && match self.wanted {
            Some(count) => self.samples_ns.len() < count,
            None => now_ns < self.deadline_ns,
        }
    }

    pub fn goes_on(&self, now_ns: u64) -> (r: bool)
        ensures
            r == self.continues(now_ns),
    {
        !self.broken && match self.wanted {
            Some(count) => self.samples_ns.len() < count,
            None => now_ns < self.deadline_ns,
        }
    }

    /// Takes an exchange into account: the nanoseconds that it took, or nothing where it failed.
    pub fn on_exchange(&mut self, elapsed_ns: Option<i64>)
        ensures
            final(self).wanted == old(self).wanted,
            final(self).deadline_ns == old(self).deadline_ns,
            match elapsed_ns {
                Some(ns) => final(self).samples_ns@ == old(self).samples_ns@.push(ns)
                    && final(self).broken == old(self).broken,
                None => final(self).samples_ns@ == old(self).samples_ns@ && final(self).broken,
            },
    {
        match elapsed_ns {
            Some(ns) => {
                self.samples_ns.push(ns);
            },
            None => {
                self.broken = true;
            },
        }
    }
}

/// A run of a number of samples ends with the last of them, one up to a time at that time, and
/// every one with the first exchange that fails.
pub proof fn runs_end_when_they_are_done(run: SampleRun, now_ns: u64)
    ensures
        run.broken ==> !run.continues(now_ns),
        run.wanted matches Some(count) ==> run.samples_ns.len() >= count ==> !run.continues(now_ns),
        run.wanted is None && now_ns >= run.deadline_ns ==> !run.continues(now_ns),
        run.wanted matches Some(count) ==> !run.broken && run.samples_ns.len() < count
            ==> run.continues(now_ns),
        !run.broken && run.wanted is None && now_ns < run.deadline_ns ==> run.continues(now_ns),
{
}

} // verus!
