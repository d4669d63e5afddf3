//! The ways to talk to a server.

use vstd::prelude::*;

verus! {

#[derive(Clone, Copy, Debug, PartialEq, Eq, Structural)]
pub enum SpeedtestApiMode {
    Auto,
    Legacy,
    ModernTcp,
    Modern,
}

/// How bytes are transferred: in HTTP requests, or over a plain connection.
#[derive(Clone, Copy, Debug, PartialEq, Eq, Structural)]
pub enum ModernTransportMode {
    Xhr,
    Tcp,
}

impl ModernTransportMode {
    pub open spec fn name(self) -> Seq<char> {
        match self {
            ModernTransportMode::Xhr => "xhr"@,
            ModernTransportMode::Tcp => "tcp"@,
        }
    }

    pub fn label(self) -> (r: &'static str)
        ensures
            r@ == self.name(),
    {
        match self {
            ModernTransportMode::Xhr => "xhr",
            ModernTransportMode::Tcp => "tcp",
        }
    }
}

/// The transport of a transfer stage.
#[derive(Clone, Copy, Debug, PartialEq, Eq, Structural)]
pub enum TransportProtocol {
    Xhr,
    Tcp,
}

impl TransportProtocol {
    pub open spec fn of(mode: ModernTransportMode) -> TransportProtocol {
        match mode {
            ModernTransportMode::Xhr => TransportProtocol::Xhr,
            ModernTransportMode::Tcp => TransportProtocol::Tcp,
        }
    }

    pub open spec fn name(self) -> Seq<char> {
        match self {
            TransportProtocol::Xhr => "xhr"@,
            TransportProtocol::Tcp => "tcp"@,
        }
    }

    pub fn label(self) -> (r: &'static str)
        ensures
            r@ == self.name(),
    {
        match self {
            TransportProtocol::Xhr => "xhr",
            TransportProtocol::Tcp => "tcp",
        }
    }

    pub fn from_mode(mode: ModernTransportMode) -> (r: TransportProtocol)
        ensures
            r == TransportProtocol::of(mode),
    {
        match mode {
            ModernTransportMode::Xhr => TransportProtocol::Xhr,
            ModernTransportMode::Tcp => TransportProtocol::Tcp,
        }
    }
}

#[derive(Clone, Copy, Debug, PartialEq, Eq, Structural)]
pub enum ResolvedSpeedtestApi {
    Legacy,
    Modern,
    ModernTcp,
}

impl ResolvedSpeedtestApi {
    pub open spec fn name(self) -> Seq<char> {
        match self {
            ResolvedSpeedtestApi::Legacy => "legacy"@,
            ResolvedSpeedtestApi::Modern => "modern"@,
            ResolvedSpeedtestApi::ModernTcp => "modern-tcp"@,
        }
    }

    pub fn label(self) -> (r: &'static str)
        ensures
            r@ == self.name(),
    {
        match self {
            ResolvedSpeedtestApi::Legacy => "legacy",
            ResolvedSpeedtestApi::Modern => "modern",
            ResolvedSpeedtestApi::ModernTcp => "modern-tcp",
        }
    }
}

/// A transport is called what the mode is called that asks for it.
pub proof fn transports_are_called_like_their_mode(mode: ModernTransportMode)
    ensures
        TransportProtocol::of(mode).name() == mode.name(),
        TransportProtocol::of(mode) == TransportProtocol::Tcp <==> mode == ModernTransportMode::Tcp,
{
}

} // verus!
