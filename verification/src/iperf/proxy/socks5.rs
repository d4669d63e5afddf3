//! The SOCKS5 protocol, as the native benchmark speaks it.

use vstd::prelude::*;
use vstd::utf8::{encode_utf8, valid_utf8};

use crate::iperf::proxy::ProxyScheme;
use crate::iperf::udp_packet::{big_endian, big_endian_reads_back, from_big_endian, power256};
use crate::text::{decimal, to_decimal, utf8_text};

verus! {

/// An address of the protocol.
#[derive(Debug)]
pub enum SocksAddress {
    V4([u8; 4]),
    V6([u8; 16]),
    Domain(String),
}

/// The values of a [`SocksAddress`].
pub enum SocksTarget {
    V4(Seq<u8>),
    V6(Seq<u8>),
    Domain(Seq<char>),
}

impl View for SocksAddress {
    type V = SocksTarget;

    open spec fn view(&self) -> SocksTarget {
        match *self {
            SocksAddress::V4(octets) => SocksTarget::V4(octets@),
            SocksAddress::V6(octets) => SocksTarget::V6(octets@),
            SocksAddress::Domain(name) => SocksTarget::Domain(name@),
        }
    }
}

impl SocksTarget {
    /// Whether the address can be written: a name takes at most 255 bytes.
    pub open spec fn writable(self) -> bool {
        match self {
            SocksTarget::V4(octets) => octets.len() == 4,
            SocksTarget::V6(octets) => octets.len() == 16,
            SocksTarget::Domain(name) => encode_utf8(name).len() <= 255,
        }
    }

    /// An address and a port on the wire: the kind of the address, the address, the port. Of the
    /// length of a name one byte is written.
    pub open spec fn wire(self, port: u16) -> Seq<u8> {
        (match self {
            SocksTarget::V4(octets) => seq![1u8] + octets,
            SocksTarget::V6(octets) => seq![4u8] + octets,
            SocksTarget::Domain(name) => seq![3u8, (encode_utf8(name).len() % 256) as u8]
                + encode_utf8(name),
        }) + big_endian(port as int, 2)
    }
}

/// Why the protocol cannot go on.
#[derive(Clone, Copy, Debug, PartialEq, Eq, Structural)]
pub enum Socks5Error {
    InvalidMethodVersion,
    UnsupportedMethod(u8),
    HostTooLong,
    NoAddress,
    SchemeNotSocks,
    UdpSchemeNotSocks,
    InvalidReplyVersion,
    CommandFailed(u8),
    UnsupportedReplyKind(u8),
    ReplyDomainNotText,
    MalformedPacket,
    FragmentedPacket,
    MalformedV4Packet,
    MalformedV6Packet,
    MalformedDomainPacket,
    UnsupportedPacketKind(u8),
}

impl Socks5Error {
    pub open spec fn text(self) -> Seq<char> {
        match self {
            Socks5Error::InvalidMethodVersion =>
                "proxy returned invalid SOCKS version during method selection"@,
            Socks5Error::UnsupportedMethod(method) =>
                "proxy requires unsupported SOCKS5 authentication method "@ + decimal(
                    method as int,
                ),
            Socks5Error::HostTooLong => "target host is too long for SOCKS5 domain encoding"@,
            Socks5Error::NoAddress => "target host resolved to no addresses"@,
            Socks5Error::SchemeNotSocks =>
                "SOCKS5 target encoding requires socks5 or socks5h scheme"@,
            Socks5Error::UdpSchemeNotSocks =>
                "SOCKS5 UDP association requires socks5 or socks5h proxy"@,
            Socks5Error::InvalidReplyVersion =>
                "proxy returned invalid SOCKS version in command reply"@,
            Socks5Error::CommandFailed(code) => "SOCKS5 command failed with error code "@ + decimal(
                code as int,
            ),
            Socks5Error::UnsupportedReplyKind(kind) =>
                "SOCKS5 command reply used unsupported atyp value "@ + decimal(kind as int),
            Socks5Error::ReplyDomainNotText => "SOCKS5 reply domain is not UTF-8"@,
            Socks5Error::MalformedPacket => "received malformed SOCKS5 UDP packet"@,
            Socks5Error::FragmentedPacket => "fragmented SOCKS5 UDP packets are not supported"@,
            Socks5Error::MalformedV4Packet => "received malformed SOCKS5 IPv4 UDP packet"@,
            Socks5Error::MalformedV6Packet => "received malformed SOCKS5 IPv6 UDP packet"@,
            Socks5Error::MalformedDomainPacket => "received malformed SOCKS5 domain UDP packet"@,
            Socks5Error::UnsupportedPacketKind(kind) => "unsupported SOCKS5 UDP atyp value "@
                + decimal(kind as int),
        }
    }

    pub fn message(&self) -> (r: String)
        ensures
            r@ == self.text(),
    {
        match self {
            Socks5Error::InvalidMethodVersion =>
                "proxy returned invalid SOCKS version during method selection".to_owned(),
            Socks5Error::UnsupportedMethod(method) => numbered(
                "proxy requires unsupported SOCKS5 authentication method ",
                *method,
            ),
            Socks5Error::HostTooLong =>
                "target host is too long for SOCKS5 domain encoding".to_owned(),
            Socks5Error::NoAddress => "target host resolved to no addresses".to_owned(),
            Socks5Error::SchemeNotSocks =>
                "SOCKS5 target encoding requires socks5 or socks5h scheme".to_owned(),
            Socks5Error::UdpSchemeNotSocks =>
                "SOCKS5 UDP association requires socks5 or socks5h proxy".to_owned(),
            Socks5Error::InvalidReplyVersion =>
                "proxy returned invalid SOCKS version in command reply".to_owned(),
            Socks5Error::CommandFailed(code) => numbered(
                "SOCKS5 command failed with error code ",
                *code,
            ),
            Socks5Error::UnsupportedReplyKind(kind) => numbered(
                "SOCKS5 command reply used unsupported atyp value ",
                *kind,
            ),
            Socks5Error::ReplyDomainNotText => "SOCKS5 reply domain is not UTF-8".to_owned(),
            Socks5Error::MalformedPacket => "received malformed SOCKS5 UDP packet".to_owned(),
            Socks5Error::FragmentedPacket =>
                "fragmented SOCKS5 UDP packets are not supported".to_owned(),
            Socks5Error::MalformedV4Packet =>
                "received malformed SOCKS5 IPv4 UDP packet".to_owned(),
            Socks5Error::MalformedV6Packet =>
                "received malformed SOCKS5 IPv6 UDP packet".to_owned(),
            Socks5Error::MalformedDomainPacket =>
                "received malformed SOCKS5 domain UDP packet".to_owned(),
            Socks5Error::UnsupportedPacketKind(kind) => numbered(
                "unsupported SOCKS5 UDP atyp value ",
                *kind,
            ),
        }
    }
}

fn numbered(lead: &str, number: u8) -> (r: String)
    ensures
        r@ == lead@ + decimal(number as int),
{
    let mut out = lead.to_owned();
    out.append(to_decimal(number as u64).as_str());
    out
}

fn extend(out: &mut Vec<u8>, more: &[u8])
    ensures
        final(out)@ == old(out)@ + more@,
{
    let ghost start = out@;
    let mut i: usize = 0;
    assert(start + more@.take(0) =~= start);
    while i < more.len()
        invariant
            i <= more.len(),
            out@ == start + more@.take(i as int),
        decreases more.len() - i,
    {
        out.push(more[i]);
        i = i + 1;
        assert(out@ =~= start + more@.take(i as int));
    }
    assert(more@.take(i as int) =~= more@);
}

fn push_port(out: &mut Vec<u8>, port: u16)
    ensures
        final(out)@ == old(out)@ + big_endian(port as int, 2),
{
    let ghost start = out@;
    out.push((port / 256) as u8);
    out.push((port % 256) as u8);
    proof {
        reveal_with_fuel(big_endian, 3);
        assert(out@ =~= start + big_endian(port as int, 2));
    }
}

/// Appends an address and a port.
pub fn append_target(out: &mut Vec<u8>, target: &SocksAddress, port: u16)
    ensures
        final(out)@ == old(out)@ + target@.wire(port),
{
    let ghost start = out@;
    match target {
        SocksAddress::V4(octets) => {
            out.push(1);
            extend(out, octets.as_slice());
            assert(out@ =~= start + (seq![1u8] + octets@));
        },
        SocksAddress::V6(octets) => {
            out.push(4);
            extend(out, octets.as_slice());
            assert(out@ =~= start + (seq![4u8] + octets@));
        },
        SocksAddress::Domain(name) => {
            let bytes = name.as_str().as_bytes();
            out.push(3);
            out.push((bytes.len() % 256) as u8);
            extend(out, bytes);
            assert(out@ =~= start + (seq![3u8, (encode_utf8(name@).len() % 256) as u8]
                + encode_utf8(name@)));
        },
    }
    push_port(out, port);
    assert(out@ =~= start + target@.wire(port));
}

/// The greeting: version 5, one method, no authentication.
pub fn greeting() -> (r: Vec<u8>)
    ensures
        r@ == seq![5u8, 1, 0],
{
    let mut out: Vec<u8> = Vec::new();
    out.push(5);
    out.push(1);
    out.push(0);
    assert(out@ =~= seq![5u8, 1, 0]);
    out
}

/// Checks the proxy's answer to the greeting.
pub fn check_method(version: u8, method: u8) -> (r: Result<(), Socks5Error>)
    ensures
        r == if version != 5 {
            Err::<(), Socks5Error>(Socks5Error::InvalidMethodVersion)
        } else if method != 0 {
            Err(Socks5Error::UnsupportedMethod(method))
        } else {
            Ok(())
        },
{
    if version != 5 {
        return Err(Socks5Error::InvalidMethodVersion);
    }
    if method != 0 {
        return Err(Socks5Error::UnsupportedMethod(method));
    }
    Ok(())
}

/// The address to ask the proxy for: the name itself where the proxy resolves names, else the
/// address that the name was resolved to.
pub open spec fn asked_target(
    scheme: ProxyScheme,
    host: Seq<char>,
    resolved: Option<SocksAddress>,
    wrong_scheme: Socks5Error,
) -> Result<SocksTarget, Socks5Error> {
    match scheme {
        ProxyScheme::Socks5h => Ok(SocksTarget::Domain(host)),
        ProxyScheme::Socks5 => match resolved {
            Some(address) => Ok(address@),
            None => Err(Socks5Error::NoAddress),
        },
        _ => Err(wrong_scheme),
    }
}

/// The address and port of a connection request.
pub fn encode_target(
    scheme: ProxyScheme,
    host: &str,
    port: u16,
    resolved: Option<SocksAddress>,
) -> (r: Result<Vec<u8>, Socks5Error>)
    ensures
        match r {
            Ok(bytes) => {
                &&& asked_target(scheme, host@, resolved, Socks5Error::SchemeNotSocks) is Ok
                &&& scheme == ProxyScheme::Socks5h ==> encode_utf8(host@).len() <= 255
                &&& bytes@ == asked_target(
                    scheme,
                    host@,
                    resolved,
                    Socks5Error::SchemeNotSocks,
                )->Ok_0.wire(port)
            },
            Err(error) => error == if scheme == ProxyScheme::Socks5h {
                Socks5Error::HostTooLong
            } else if scheme == ProxyScheme::Socks5 {
                Socks5Error::NoAddress
            } else {
                Socks5Error::SchemeNotSocks
            } && (scheme == ProxyScheme::Socks5h ==> encode_utf8(host@).len() > 255) && (scheme
                == ProxyScheme::Socks5 ==> resolved is None),
        },
{
    let mut out: Vec<u8> = Vec::new();
    match scheme {
        ProxyScheme::Socks5h => {
            if host.as_bytes().len() > 255 {
                return Err(Socks5Error::HostTooLong);
            }
            append_target(&mut out, &SocksAddress::Domain(host.to_owned()), port);
        },
        ProxyScheme::Socks5 => match resolved {
            Some(address) => append_target(&mut out, &address, port),
            None => {
                return Err(Socks5Error::NoAddress);
            },
        },
        _ => {
            return Err(Socks5Error::SchemeNotSocks);
        },
    }
    proof {
        let target = asked_target(scheme, host@, resolved, Socks5Error::SchemeNotSocks)->Ok_0;
        assert(Seq::<u8>::empty() + target.wire(port) =~= target.wire(port));
    }
    Ok(out)
}

/// The address that datagrams through the proxy go to.
pub fn udp_target(scheme: ProxyScheme, host: &str, resolved: Option<SocksAddress>) -> (r: Result<
    SocksAddress,
    Socks5Error,
>)
    ensures
        match r {
            Ok(address) => asked_target(scheme, host@, resolved, Socks5Error::UdpSchemeNotSocks)
                == Ok::<SocksTarget, Socks5Error>(address@),
            Err(error) => asked_target(scheme, host@, resolved, Socks5Error::UdpSchemeNotSocks)
                == Err::<SocksTarget, Socks5Error>(error),
        },
{
    match scheme {
        ProxyScheme::Socks5h => Ok(SocksAddress::Domain(host.to_owned())),
        ProxyScheme::Socks5 => match resolved {
            Some(address) => Ok(address),
            None => Err(Socks5Error::NoAddress),
        },
        _ => Err(Socks5Error::UdpSchemeNotSocks),
    }
}

/// The command that opens a connection.
pub const COMMAND_CONNECT: u8 = 1;

/// The command that opens a relay for datagrams.
pub const COMMAND_UDP_ASSOCIATE: u8 = 3;

/// A command for an encoded address and port.
pub fn command(code: u8, encoded_target: &Vec<u8>) -> (r: Vec<u8>)
    ensures
        r@ == seq![5u8, code, 0] + encoded_target@,
{
    let mut out: Vec<u8> = Vec::new();
    out.push(5);
    out.push(code);
    out.push(0);
    assert(out@ =~= seq![5u8, code, 0]);
    extend(&mut out, encoded_target.as_slice());
    out
}

/// The request for a relay, which leaves the own address open.
pub fn udp_associate_request() -> (r: Vec<u8>)
    ensures
        r@ == seq![5u8, COMMAND_UDP_ASSOCIATE, 0] + SocksTarget::V4(seq![0u8, 0, 0, 0]).wire(0),
{
    let mut target: Vec<u8> = Vec::new();
    append_target(&mut target, &SocksAddress::V4([0, 0, 0, 0]), 0);
    proof {
        let any = SocksTarget::V4(seq![0u8, 0, 0, 0]);
        assert([0u8, 0, 0, 0]@ =~= seq![0u8, 0, 0, 0]);
        assert(Seq::<u8>::empty() + any.wire(0) =~= any.wire(0));
    }
    command(COMMAND_UDP_ASSOCIATE, &target)
}

/// What a part of a reply calls for.
#[derive(Debug)]
pub enum ReplyStep {
    /// This many more bytes are needed before anything else can be said.
    Need(usize),
    /// The reply is complete and names this address and port.
    Done(SocksAddress, u16),
    Fail(Socks5Error),
}

/// The values of a [`ReplyStep`].
pub enum ReplyStage {
    Need(int),
    Done(SocksTarget, int),
    Fail(Socks5Error),
}

impl View for ReplyStep {
    type V = ReplyStage;

    open spec fn view(&self) -> ReplyStage {
        match *self {
            ReplyStep::Need(count) => ReplyStage::Need(count as int),
            ReplyStep::Done(address, port) => ReplyStage::Done(address@, port as int),
            ReplyStep::Fail(error) => ReplyStage::Fail(error),
        }
    }
}

/// Whether `stage` is what the bytes of a reply received so far call for: version 5, the code
/// zero, a reserved byte, and an address with its port.
pub open spec fn is_reply_stage(bytes: Seq<u8>, stage: ReplyStage) -> bool {
    let count = bytes.len() as int;
    if count < 4 {
        stage == ReplyStage::Need(4 - count)
    } else if bytes[0] != 5 {
        stage == ReplyStage::Fail(Socks5Error::InvalidReplyVersion)
    } else if bytes[1] != 0 {
        stage == ReplyStage::Fail(Socks5Error::CommandFailed(bytes[1]))
    } else if bytes[3] == 1 {
        if count < 10 {
            stage == ReplyStage::Need(10 - count)
        } else {
            stage == ReplyStage::Done(
                SocksTarget::V4(bytes.subrange(4, 8)),
                from_big_endian(bytes.subrange(8, 10)),
            )
        }
    } else if bytes[3] == 4 {
        if count < 22 {
            stage == ReplyStage::Need(22 - count)
        } else {
            stage == ReplyStage::Done(
                SocksTarget::V6(bytes.subrange(4, 20)),
                from_big_endian(bytes.subrange(20, 22)),
            )
        }
    } else if bytes[3] == 3 {
        if count < 5 {
            stage == ReplyStage::Need(5 - count)
        } else {
            let end = 5 + bytes[4];
            if count < end + 2 {
                stage == ReplyStage::Need(end + 2 - count)
            } else if !valid_utf8(bytes.subrange(5, end)) {
                stage == ReplyStage::Fail(Socks5Error::ReplyDomainNotText)
            } else {
                stage matches ReplyStage::Done(SocksTarget::Domain(name), port) && encode_utf8(name)
                    == bytes.subrange(5, end) && port == from_big_endian(
                    bytes.subrange(end, end + 2),
                )
            }
        }
    } else {
        stage == ReplyStage::Fail(Socks5Error::UnsupportedReplyKind(bytes[3]))
    }
}

fn port_at(bytes: &Vec<u8>, at: usize) -> (r: u16)
    requires
        at + 2 <= bytes.len(),
    ensures
        r == from_big_endian(bytes@.subrange(at as int, at + 2)),
{
    proof {
        reveal_with_fuel(from_big_endian, 3);
        let pair = bytes@.subrange(at as int, at + 2);
        assert(pair.drop_last().drop_last().len() == 0);
        assert(pair.drop_last().last() == bytes@[at as int]);
        assert(pair.last() == bytes@[at + 1]);
    }
    bytes[at] as u16 * 256 + bytes[at + 1] as u16
}

/// Reads a reply as far as it has come.
pub fn read_reply(bytes: &Vec<u8>) -> (step: ReplyStep)
    ensures
        is_reply_stage(bytes@, step@),
{
    let count: usize = bytes.len();
    if count < 4 {
        return ReplyStep::Need(4 - count);
    }
    if bytes[0] != 5 {
        return ReplyStep::Fail(Socks5Error::InvalidReplyVersion);
    }
    if bytes[1] != 0 {
        return ReplyStep::Fail(Socks5Error::CommandFailed(bytes[1]));
    }
    let kind: u8 = bytes[3];
    if kind == 1 {
        if count < 10 {
            return ReplyStep::Need(10 - count);
        }
        let octets: [u8; 4] = [bytes[4], bytes[5], bytes[6], bytes[7]];
        assert(octets@ =~= bytes@.subrange(4, 8));
        return ReplyStep::Done(SocksAddress::V4(octets), port_at(bytes, 8));
    }
    if kind == 4 {
        if count < 22 {
            return ReplyStep::Need(22 - count);
        }
        let octets: [u8; 16] = [
            bytes[4],
            bytes[5],
            bytes[6],
            bytes[7],
            bytes[8],
            bytes[9],
            bytes[10],
            bytes[11],
            bytes[12],
            bytes[13],
            bytes[14],
            bytes[15],
            bytes[16],
            bytes[17],
            bytes[18],
            bytes[19],
        ];
        assert(octets@ =~= bytes@.subrange(4, 20));
        return ReplyStep::Done(SocksAddress::V6(octets), port_at(bytes, 20));
    }
    if kind != 3 {
        return ReplyStep::Fail(Socks5Error::UnsupportedReplyKind(kind));
    }
    if count < 5 {
        return ReplyStep::Need(5 - count);
    }
    let end: usize = 5 + bytes[4] as usize;
    if count < end + 2 {
        return ReplyStep::Need(end + 2 - count);
    }
    let mut name: Vec<u8> = Vec::new();
    let mut i: usize = 5;
    while i < end
        invariant
            5 <= i <= end <= bytes.len(),
            name@ == bytes@.subrange(5, i as int),
        decreases end - i,
    {
        name.push(bytes[i]);
        i = i + 1;
        assert(name@ =~= bytes@.subrange(5, i as int));
    }
    let port: u16 = port_at(bytes, end);
    match utf8_text(name) {
        Some(text) => {
            proof {
                vstd::utf8::encode_utf8_valid_utf8(text@);
            }
            ReplyStep::Done(SocksAddress::Domain(text), port)
        },
        None => ReplyStep::Fail(Socks5Error::ReplyDomainNotText),
    }
}

/// A datagram for the relay: three zero bytes, the address and port that it is for, the payload.
pub open spec fn relay_packet(target: SocksTarget, port: u16, payload: Seq<u8>) -> Seq<u8> {
    seq![0u8, 0, 0] + target.wire(port) + payload
}

pub fn wrap_payload(target: &SocksAddress, port: u16, payload: &[u8]) -> (r: Vec<u8>)
    ensures
        r@ == relay_packet(target@, port, payload@),
{
    let mut out: Vec<u8> = Vec::new();
    out.push(0);
    out.push(0);
    out.push(0);
    assert(out@ =~= seq![0u8, 0, 0]);
    append_target(&mut out, target, port);
    extend(&mut out, payload);
    out
}

/// Where the payload of a datagram from the relay starts.
pub open spec fn payload_start(packet: Seq<u8>) -> Result<int, Socks5Error> {
    let size = packet.len() as int;
    if size < 4 {
        Err(Socks5Error::MalformedPacket)
    } else if packet[2] != 0 {
        Err(Socks5Error::FragmentedPacket)
    } else if packet[3] == 1 {
        if size < 10 {
            Err(Socks5Error::MalformedV4Packet)
        } else {
            Ok(10)
        }
    } else if packet[3] == 4 {
        if size < 22 {
            Err(Socks5Error::MalformedV6Packet)
        } else {
            Ok(22)
        }
    } else if packet[3] == 3 {
        if size < 5 || size < 5 + packet[4] + 2 {
            Err(Socks5Error::MalformedDomainPacket)
        } else {
            Ok(5 + packet[4] + 2)
        }
    } else {
        Err(Socks5Error::UnsupportedPacketKind(packet[3]))
    }
}

/// The payload of a datagram from the relay.
pub fn unwrap_payload(packet: &[u8]) -> (r: Result<Vec<u8>, Socks5Error>)
    ensures
        match r {
            Ok(payload) => payload_start(packet@) is Ok && payload@ == packet@.skip(
                payload_start(packet@)->Ok_0,
            ),
            Err(error) => payload_start(packet@) == Err::<int, Socks5Error>(error),
        },
{
    let size: usize = packet.len();
    if size < 4 {
        return Err(Socks5Error::MalformedPacket);
    }
    if packet[2] != 0 {
        return Err(Socks5Error::FragmentedPacket);
    }
    let kind: u8 = packet[3];
    let start: usize = if kind == 1 {
        if size < 10 {
            return Err(Socks5Error::MalformedV4Packet);
        }
        10
    } else if kind == 4 {
        if size < 22 {
            return Err(Socks5Error::MalformedV6Packet);
        }
        22
    } else if kind == 3 {
        if size < 5 || size < 5 + packet[4] as usize + 2 {
            return Err(Socks5Error::MalformedDomainPacket);
        }
        5 + packet[4] as usize + 2
    } else {
        return Err(Socks5Error::UnsupportedPacketKind(kind));
    };
    let mut payload: Vec<u8> = Vec::new();
    let mut i: usize = start;
    while i < size
        invariant
            start <= i <= size,
            size == packet.len(),
            payload@ == packet@.subrange(start as int, i as int),
        decreases size - i,
    {
        payload.push(packet[i]);
        i = i + 1;
        assert(payload@ =~= packet@.subrange(start as int, i as int));
    }
    assert(payload@ =~= packet@.skip(start as int));
    Ok(payload)
}

/// What is wrapped for the relay comes out again unchanged.
pub proof fn relayed_payload_reads_back(target: SocksTarget, port: u16, payload: Seq<u8>)
    requires
        target.writable(),
    ensures
        ({
            let packet = relay_packet(target, port, payload);
            payload_start(packet) is Ok && packet.skip(payload_start(packet)->Ok_0) == payload
        }),
{
    reveal_with_fuel(big_endian, 3);
    let packet = relay_packet(target, port, payload);
    let start = 3 + target.wire(port).len();
    assert(big_endian(port as int, 2).len() == 2);
    assert(packet[2] == 0);
    assert(packet[3] == target.wire(port)[0]);
    if let SocksTarget::Domain(name) = target {
        assert(packet[4] == target.wire(port)[1]);
    }
    assert(payload_start(packet) == Ok::<int, Socks5Error>(start as int));
    assert(packet.skip(start as int) =~= payload);
}

/// A reply that grants a request names an address and a port, and these are what is read from it.
pub proof fn granted_replies_read_back(octets: Seq<u8>, port: u16, stage: ReplyStage)
    requires
        octets.len() == 4 || octets.len() == 16,
        is_reply_stage(
            seq![5u8, 0, 0] + (if octets.len() == 4 {
                SocksTarget::V4(octets)
            } else {
                SocksTarget::V6(octets)
            }).wire(port),
            stage,
        ),
    ensures
        stage == ReplyStage::Done(
            if octets.len() == 4 {
                SocksTarget::V4(octets)
            } else {
                SocksTarget::V6(octets)
            },
            port as int,
        ),
{
    reveal_with_fuel(power256, 3);
    big_endian_reads_back(port as int, 2);
    let tail = big_endian(port as int, 2);
    let n = octets.len() as int;
    let target = if n == 4 {
        SocksTarget::V4(octets)
    } else {
        SocksTarget::V6(octets)
    };
    let bytes = seq![5u8, 0, 0] + target.wire(port);
    assert(bytes[0] == 5 && bytes[1] == 0);
    assert(bytes[3] == if n == 4 {
        1u8
    } else {
        4u8
    });
    assert(bytes.subrange(4, 4 + n) =~= octets);
    assert(bytes.subrange(4 + n, 6 + n) =~= tail);
}

/// A proxy that resolves names is asked for the name, and another one for the address.
pub proof fn names_are_resolved_by_the_proxy_that_can(
    host: Seq<char>,
    address: SocksAddress,
    wrong: Socks5Error,
)
    ensures
        asked_target(ProxyScheme::Socks5h, host, Some(address), wrong) == Ok::<
            SocksTarget,
            Socks5Error,
        >(SocksTarget::Domain(host)),
        asked_target(ProxyScheme::Socks5, host, Some(address), wrong) == Ok::<
            SocksTarget,
            Socks5Error,
        >(address@),
        asked_target(ProxyScheme::Http, host, Some(address), wrong) is Err,
        asked_target(ProxyScheme::Socks5, host, None, wrong) is Err,
{
}

/// A reply that names a host by its name is read back too.
pub proof fn granted_names_read_back(name: Seq<char>, port: u16, stage: ReplyStage)
    requires
        encode_utf8(name).len() < 256,
        is_reply_stage(seq![5u8, 0, 0] + SocksTarget::Domain(name).wire(port), stage),
    ensures
        stage matches ReplyStage::Done(SocksTarget::Domain(read), number) && encode_utf8(read)
            == encode_utf8(name) && number == port,
{
    reveal_with_fuel(power256, 3);
    big_endian_reads_back(port as int, 2);
    vstd::utf8::encode_utf8_valid_utf8(name);
    let text = encode_utf8(name);
    let n = text.len() as int;
    let bytes = seq![5u8, 0, 0] + SocksTarget::Domain(name).wire(port);
    assert(bytes[0] == 5 && bytes[1] == 0 && bytes[3] == 3 && bytes[4] == n);
    assert(bytes.subrange(5, 5 + n) =~= text);
    assert(bytes.subrange(5 + n, 7 + n) =~= big_endian(port as int, 2));
}

} // verus!
