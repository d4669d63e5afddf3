//! The course of one benchmark direction.

use vstd::prelude::*;

use crate::cli::IperfProtocol;
use crate::iperf::model::{IperfClientConfig, IperfDirection};
use crate::num::whole::greatest;
use crate::util::{clamp_worker_count, clamped_workers};

verus! {

#[derive(Clone, Copy, Debug, PartialEq, Eq, Structural)]
pub enum ControlState {
    Init,
    Connected,
    ParametersExchanged,
    StreamsCreated,
    TestStarted,
    TestRunning,
    ResultsExchanged,
    ResultsDisplayed,
    Done,
}

impl ControlState {
    /// The only state that may follow, none after the last.
    pub open spec fn successor(self) -> Option<ControlState> {
        match self {
            ControlState::Init => Some(ControlState::Connected),
            ControlState::Connected => Some(ControlState::ParametersExchanged),
            ControlState::ParametersExchanged => Some(ControlState::StreamsCreated),
            ControlState::StreamsCreated => Some(ControlState::TestStarted),
            ControlState::TestStarted => Some(ControlState::TestRunning),
            ControlState::TestRunning => Some(ControlState::ResultsExchanged),
            ControlState::ResultsExchanged => Some(ControlState::ResultsDisplayed),
            ControlState::ResultsDisplayed => Some(ControlState::Done),
            ControlState::Done => None,
        }
    }

    /// How many states have been passed.
    pub open spec fn position(self) -> int {
        match self {
            ControlState::Init => 0,
            ControlState::Connected => 1,
            ControlState::ParametersExchanged => 2,
            ControlState::StreamsCreated => 3,
            ControlState::TestStarted => 4,
            ControlState::TestRunning => 5,
            ControlState::ResultsExchanged => 6,
            ControlState::ResultsDisplayed => 7,
            ControlState::Done => 8,
        }
    }

    pub open spec fn name(self) -> Seq<char> {
        match self {
            ControlState::Init => "Init"@,
            ControlState::Connected => "Connected"@,
            ControlState::ParametersExchanged => "ParametersExchanged"@,
            ControlState::StreamsCreated => "StreamsCreated"@,
            ControlState::TestStarted => "TestStarted"@,
            ControlState::TestRunning => "TestRunning"@,
            ControlState::ResultsExchanged => "ResultsExchanged"@,
            ControlState::ResultsDisplayed => "ResultsDisplayed"@,
            ControlState::Done => "Done"@,
        }
    }

    pub fn label(self) -> (r: &'static str)
        ensures
            r@ == self.name(),
    {
        match self {
            ControlState::Init => "Init",
            ControlState::Connected => "Connected",
            ControlState::ParametersExchanged => "ParametersExchanged",
            ControlState::StreamsCreated => "StreamsCreated",
            ControlState::TestStarted => "TestStarted",
            ControlState::TestRunning => "TestRunning",
            ControlState::ResultsExchanged => "ResultsExchanged",
            ControlState::ResultsDisplayed => "ResultsDisplayed",
            ControlState::Done => "Done",
        }
    }

    fn next(self) -> (r: Option<ControlState>)
        ensures
            r == self.successor(),
    {
        match self {
            ControlState::Init => Some(ControlState::Connected),
            ControlState::Connected => Some(ControlState::ParametersExchanged),
            ControlState::ParametersExchanged => Some(ControlState::StreamsCreated),
            ControlState::StreamsCreated => Some(ControlState::TestStarted),
            ControlState::TestStarted => Some(ControlState::TestRunning),
            ControlState::TestRunning => Some(ControlState::ResultsExchanged),
            ControlState::ResultsExchanged => Some(ControlState::ResultsDisplayed),
            ControlState::ResultsDisplayed => Some(ControlState::Done),
            ControlState::Done => None,
        }
    }
}

/// The states form one line: the successor is one further on, and only the last has none.
pub proof fn states_form_a_line(state: ControlState)
    ensures
        match state.successor() {
            Some(next) => next.position() == state.position() + 1,
            None => state.position() == 8 && state == ControlState::Done,
        },
        0 <= state.position() <= 8,
{
}

/// A session can go on to a state exactly where that state stands directly behind its own. From
/// the last state it can go nowhere.
pub proof fn only_the_next_state_follows(from: ControlState, to: ControlState)
    ensures
        refusal(from, to) is None <==> to.position() == from.position() + 1,
        from == ControlState::Done ==> refusal(from, to) == Some(ControlError::AlreadyFinished),
        from != ControlState::Done && refusal(from, to) is Some ==> refusal(from, to)->0
            is InvalidTransition,
{
}

/// What both sides run with.
#[derive(Clone, Copy, Debug, PartialEq, Eq, Structural)]
pub struct NegotiatedParameters {
    pub seconds: u64,
    pub parallel: usize,
    pub packet_size: usize,
    pub bitrate_bps: Option<u64>,
}

/// Why a session cannot go on.
#[derive(Clone, Copy, Debug, PartialEq, Eq, Structural)]
pub enum ControlError {
    AlreadyFinished,
    InvalidTransition { from: ControlState, to: ControlState, expected: ControlState },
    NoBitrateForDownload,
}

impl ControlError {
    pub open spec fn text(self) -> Seq<char> {
        match self {
            ControlError::AlreadyFinished => "control session already finished"@,
            ControlError::InvalidTransition { from, to, expected } =>
                "invalid control state transition: "@ + from.name() + " -> "@ + to.name()
                    + " (expected "@ + expected.name() + seq![')'],
            ControlError::NoBitrateForDownload =>
                "failed negotiating UDP bitrate for download direction"@,
        }
    }

    pub fn message(&self) -> (r: String)
        ensures
            r@ == self.text(),
    {
        match self {
            ControlError::AlreadyFinished => "control session already finished".to_owned(),
            ControlError::InvalidTransition { from, to, expected } => {
                let mut out = "invalid control state transition: ".to_owned();
                out.append(from.label());
                out.append(" -> ");
                out.append(to.label());
                out.append(" (expected ");
                out.append(expected.label());
                out.push(')');
                assert(out@ =~= self.text());
                out
            },
            ControlError::NoBitrateForDownload =>
                "failed negotiating UDP bitrate for download direction".to_owned(),
        }
    }
}

/// The size of a write over a stream: 128 KiB.
pub const TCP_PACKET_SIZE: usize = 131_072;

/// The size of a datagram.
pub const UDP_PACKET_SIZE: usize = 1_200;

/// The bit rate of datagrams where none is configured.
pub const DEFAULT_UDP_BITRATE: u64 = 1_000_000;

/// The bit rate of a run: none over a stream; over datagrams the configured one or the default,
/// and none where that is zero.
pub open spec fn agreed_bitrate(config: IperfClientConfig) -> Option<u64> {
    match config.protocol {
        IperfProtocol::Tcp => None,
        IperfProtocol::Udp => match config.bitrate_bps {
            Some(bps) => if bps > 0 {
                Some(bps)
            } else {
                None
            },
            None => Some(DEFAULT_UDP_BITRATE),
        },
    }
}

/// What a configuration comes to, if it can be run in the direction.
pub open spec fn agreement(config: IperfClientConfig, direction: IperfDirection) -> Result<
    NegotiatedParameters,
    ControlError,
> {
    if direction == IperfDirection::Download && config.protocol == IperfProtocol::Udp
        && agreed_bitrate(config) is None {
        Err(ControlError::NoBitrateForDownload)
    } else {
        Ok(
            NegotiatedParameters {
                seconds: greatest(config.seconds as int, 1) as u64,
                parallel: clamped_workers(config.parallel as int) as usize,
                packet_size: match config.protocol {
                    IperfProtocol::Tcp => TCP_PACKET_SIZE,
                    IperfProtocol::Udp => UDP_PACKET_SIZE,
                },
                bitrate_bps: agreed_bitrate(config),
            },
        )
    }
}

/// The error of going from `from` to `to`, none where that is the next state.
pub open spec fn refusal(from: ControlState, to: ControlState) -> Option<ControlError> {
    match from.successor() {
        None => Some(ControlError::AlreadyFinished),
        Some(expected) => if to == expected {
            None
        } else {
            Some(ControlError::InvalidTransition { from, to, expected })
        },
    }
}

/// A benchmark direction in its course.
#[derive(Debug)]
pub struct ControlSession<'a> {
    state: ControlState,
    config: &'a IperfClientConfig,
    direction: IperfDirection,
}

impl<'a> ControlSession<'a> {
    pub closed spec fn at(self) -> ControlState {
        self.state
    }

    pub closed spec fn configured(self) -> IperfClientConfig {
        *self.config
    }

    pub closed spec fn heading(self) -> IperfDirection {
        self.direction
    }

    pub fn new(config: &'a IperfClientConfig, direction: IperfDirection) -> (r: ControlSession<'a>)
        ensures
            r.at() == ControlState::Init,
            r.configured() == *config,
            r.heading() == direction,
    {
        ControlSession { state: ControlState::Init, config, direction }
    }

    pub fn state(&self) -> (r: ControlState)
        ensures
            r == self.at(),
    {
        self.state
    }

    /// Connects, agrees on the parameters and starts the test. A session that cannot agree stays
    /// where the parameters were exchanged.
    pub fn start(&mut self) -> (r: Result<NegotiatedParameters, ControlError>)
        ensures
            final(self).configured() == old(self).configured(),
            final(self).heading() == old(self).heading(),
            match refusal(old(self).at(), ControlState::Connected) {
                Some(error) => r == Err::<NegotiatedParameters, ControlError>(error)
                    && final(self).at() == old(self).at(),
                None => {
                    &&& r == agreement(old(self).configured(), old(self).heading())
                    &&& final(self).at() == if r is Ok {
                        ControlState::TestRunning
                    } else {
                        ControlState::ParametersExchanged
                    }
                },
            },
    {
        if let Err(error) = self.transition(ControlState::Connected) {
            return Err(error);
        }
        if let Err(error) = self.transition(ControlState::ParametersExchanged) {
            return Err(error);
        }
        let negotiated = match self.negotiate_parameters() {
            Ok(negotiated) => negotiated,
            Err(error) => {
                return Err(error);
            },
        };
        if let Err(error) = self.transition(ControlState::StreamsCreated) {
            return Err(error);
        }
        if let Err(error) = self.transition(ControlState::TestStarted) {
            return Err(error);
        }
        if let Err(error) = self.transition(ControlState::TestRunning) {
            return Err(error);
        }
        Ok(negotiated)
    }

    /// Exchanges and shows the results.
    pub fn finish(&mut self) -> (r: Result<(), ControlError>)
        ensures
            final(self).configured() == old(self).configured(),
            final(self).heading() == old(self).heading(),
            match refusal(old(self).at(), ControlState::ResultsExchanged) {
                Some(error) => r == Err::<(), ControlError>(error) && final(self).at()
                    == old(self).at(),
                None => r is Ok && final(self).at() == ControlState::Done,
            },
    {
        if let Err(error) = self.transition(ControlState::ResultsExchanged) {
            return Err(error);
        }
        if let Err(error) = self.transition(ControlState::ResultsDisplayed) {
            return Err(error);
        }
        self.transition(ControlState::Done)
    }

    fn negotiate_parameters(&self) -> (r: Result<NegotiatedParameters, ControlError>)
        ensures
            r == agreement(self.configured(), self.heading()),
    {
        let parallel: usize = clamp_worker_count(self.config.parallel);
        let seconds: u64 = if self.config.seconds < 1 {
            1
        } else {
            self.config.seconds
        };
        let packet_size: usize = match self.config.protocol {
            IperfProtocol::Tcp => TCP_PACKET_SIZE,
            IperfProtocol::Udp => UDP_PACKET_SIZE,
        };
        let bitrate_bps: Option<u64> = match self.config.protocol {
            IperfProtocol::Tcp => None,
            IperfProtocol::Udp => match self.config.bitrate_bps {
                Some(bps) => if bps > 0 {
                    Some(bps)
                } else {
                    None
                },
                None => Some(DEFAULT_UDP_BITRATE),
            },
        };
        if self.direction == IperfDirection::Download && self.config.protocol == IperfProtocol::Udp
            && bitrate_bps.is_none() {
            return Err(ControlError::NoBitrateForDownload);
        }
        Ok(NegotiatedParameters { seconds, parallel, packet_size, bitrate_bps })
    }

    /// Goes on to a state, which has to be the next one.
    pub fn transition(&mut self, to: ControlState) -> (r: Result<(), ControlError>)
        ensures
            final(self).configured() == old(self).configured(),
            final(self).heading() == old(self).heading(),
            match refusal(old(self).at(), to) {
                Some(error) => r == Err::<(), ControlError>(error) && final(self).at()
                    == old(self).at(),
                None => r is Ok && final(self).at() == to,
            },
    {
        match self.state.next() {
            Some(expected) => {
                if to == expected {
                    self.state = to;
                    Ok(())
                } else {
                    Err(ControlError::InvalidTransition { from: self.state, to, expected })
                }
            },
            None => Err(ControlError::AlreadyFinished),
        }
    }
}

/// Datagrams cannot be received without a bit rate, and every agreed run has at least a second, a
/// worker and, over datagrams in that direction, a bit rate above zero.
pub proof fn agreements_can_be_run(config: IperfClientConfig, direction: IperfDirection)
    ensures
        agreement(config, direction) matches Ok(run) ==> {
            &&& run.seconds >= 1
            &&& 1 <= run.parallel <= crate::util::MAX_BENCHMARK_WORKERS
            &&& run.packet_size >= UDP_PACKET_SIZE
            &&& run.bitrate_bps is Some ==> run.bitrate_bps->0 > 0
            &&& config.protocol == IperfProtocol::Udp && direction == IperfDirection::Download
                ==> run.bitrate_bps is Some
        },
{
}

/// A run is agreed on as it is configured, as far as that can be run: its time, its workers and,
/// for datagrams, its bit rate, which is a megabit per second where none is given.
pub proof fn runs_are_agreed_on_as_configured(
    config: IperfClientConfig,
    direction: IperfDirection,
)
    ensures
        agreement(config, direction) matches Ok(run) ==> {
            &&& config.seconds >= 1 ==> run.seconds == config.seconds
            &&& 1 <= config.parallel <= 64 ==> run.parallel == config.parallel
            &&& config.protocol == IperfProtocol::Tcp ==> run.bitrate_bps is None && run.packet_size
                == 131_072
            &&& config.protocol == IperfProtocol::Udp ==> run.packet_size == 1_200
            &&& config.protocol == IperfProtocol::Udp && config.bitrate_bps is None
                ==> run.bitrate_bps == Some(1_000_000u64)
            &&& config.protocol == IperfProtocol::Udp ==> (config.bitrate_bps matches Some(bps)
                ==> bps > 0 ==> run.bitrate_bps == Some(bps))
        },
        agreement(config, direction) is Err <==> (direction == IperfDirection::Download
            && config.protocol == IperfProtocol::Udp && config.bitrate_bps == Some(0u64)),
{
}

} // verus!
