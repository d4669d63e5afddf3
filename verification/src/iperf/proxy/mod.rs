//! Proxies of the native benchmark.

pub mod http_connect;
pub mod socks5;

use vstd::prelude::*;

use crate::cli::IperfProtocol;
use crate::text::same_text;
use crate::urls::{parse_url, parsed_url};

verus! {

#[derive(Clone, Copy, Debug, PartialEq, Eq, Structural)]
pub enum ProxyScheme {
    Http,
    Https,
    Socks5,
    Socks5h,
}

impl ProxyScheme {
    pub open spec fn name(self) -> Seq<char> {
        match self {
            ProxyScheme::Http => "http"@,
            ProxyScheme::Https => "https"@,
            ProxyScheme::Socks5 => "socks5"@,
            ProxyScheme::Socks5h => "socks5h"@,
        }
    }

    pub fn as_str(self) -> (r: &'static str)
        ensures
            r@ == self.name(),
    {
        match self {
            ProxyScheme::Http => "http",
            ProxyScheme::Https => "https",
            ProxyScheme::Socks5 => "socks5",
            ProxyScheme::Socks5h => "socks5h",
        }
    }
}

/// The scheme with the given name.
pub open spec fn scheme_named(name: Seq<char>) -> Option<ProxyScheme> {
    if name == "http"@ {
        Some(ProxyScheme::Http)
    } else if name == "https"@ {
        Some(ProxyScheme::Https)
    } else if name == "socks5"@ {
        Some(ProxyScheme::Socks5)
    } else if name == "socks5h"@ {
        Some(ProxyScheme::Socks5h)
    } else {
        None
    }
}

pub fn find_scheme(name: &str) -> (r: Option<ProxyScheme>)
    ensures
        r == scheme_named(name@),
{
    if same_text(name, "http") {
        Some(ProxyScheme::Http)
    } else if same_text(name, "https") {
        Some(ProxyScheme::Https)
    } else if same_text(name, "socks5") {
        Some(ProxyScheme::Socks5)
    } else if same_text(name, "socks5h") {
        Some(ProxyScheme::Socks5h)
    } else {
        None
    }
}

/// The name of a scheme is that of no other.
pub proof fn scheme_names_read_back(scheme: ProxyScheme)
    ensures
        scheme_named(scheme.name()) == Some(scheme),
{
    reveal_strlit("http");
    reveal_strlit("https");
    reveal_strlit("socks5");
    reveal_strlit("socks5h");
    assert("http"@.len() == 4 && "https"@.len() == 5);
    assert("socks5"@.len() == 6 && "socks5h"@.len() == 7);
}

#[derive(Debug)]
pub struct ProxySpec {
    pub raw_url: String,
    pub scheme: ProxyScheme,
    pub host: String,
    pub port: u16,
}

impl Clone for ProxySpec {
    fn clone(&self) -> (r: ProxySpec)
        ensures
            r == *self,
    {
        ProxySpec {
            raw_url: self.raw_url.clone(),
            scheme: self.scheme,
            host: self.host.clone(),
            port: self.port,
        }
    }
}

/// The values of a [`ProxySpec`].
pub struct ProxyModel {
    pub raw_url: Seq<char>,
    pub scheme: ProxyScheme,
    pub host: Seq<char>,
    pub port: u16,
}

impl View for ProxySpec {
    type V = ProxyModel;

    open spec fn view(&self) -> ProxyModel {
        ProxyModel {
            raw_url: self.raw_url@,
            scheme: self.scheme,
            host: self.host@,
            port: self.port,
        }
    }
}

/// Why a proxy cannot be used.
#[derive(Debug)]
pub enum ProxyError {
    InvalidUrl(String),
    UnsupportedScheme(String),
    MissingHost,
    MissingPort,
    HttpsUnsupported,
    UdpOverHttp,
}

/// The values of a [`ProxyError`].
pub enum ProxyFault {
    InvalidUrl(Seq<char>),
    UnsupportedScheme(Seq<char>),
    MissingHost,
    MissingPort,
    HttpsUnsupported,
    UdpOverHttp,
}

impl View for ProxyError {
    type V = ProxyFault;

    open spec fn view(&self) -> ProxyFault {
        match *self {
            ProxyError::InvalidUrl(url) => ProxyFault::InvalidUrl(url@),
            ProxyError::UnsupportedScheme(scheme) => ProxyFault::UnsupportedScheme(scheme@),
            ProxyError::MissingHost => ProxyFault::MissingHost,
            ProxyError::MissingPort => ProxyFault::MissingPort,
            ProxyError::HttpsUnsupported => ProxyFault::HttpsUnsupported,
            ProxyError::UdpOverHttp => ProxyFault::UdpOverHttp,
        }
    }
}

impl ProxyFault {
    pub open spec fn text(self) -> Seq<char> {
        match self {
            ProxyFault::InvalidUrl(url) => "invalid proxy URL '"@ + url + seq!['\''],
            ProxyFault::UnsupportedScheme(scheme) => unsupported_scheme_text(scheme),
            ProxyFault::MissingHost => "proxy URL missing host component"@,
            ProxyFault::MissingPort => "proxy URL missing port and no default is available"@,
            ProxyFault::HttpsUnsupported =>
                "HTTPS proxy is not yet supported by native iperf command; use http, socks5, or socks5h"@,
            ProxyFault::UdpOverHttp =>
                "UDP is not supported over HTTP proxy; use socks5 or socks5h"@,
        }
    }
}

pub open spec fn unsupported_scheme_text(scheme: Seq<char>) -> Seq<char> {
    "unsupported proxy scheme '"@ + scheme + "' (use http, https, socks5, or socks5h)"@
}

pub fn unsupported_scheme_message(scheme: &str) -> (r: String)
    ensures
        r@ == unsupported_scheme_text(scheme@),
{
    let mut out = "unsupported proxy scheme '".to_owned();
    out.append(scheme);
    out.append("' (use http, https, socks5, or socks5h)");
    assert(out@ =~= unsupported_scheme_text(scheme@));
    out
}

impl ProxyError {
    pub fn message(&self) -> (r: String)
        ensures
            r@ == self@.text(),
    {
        match self {
            ProxyError::InvalidUrl(url) => {
                let mut out = "invalid proxy URL '".to_owned();
                out.append(url.as_str());
                out.push('\'');
                assert(out@ =~= self@.text());
                out
            },
            ProxyError::UnsupportedScheme(scheme) => unsupported_scheme_message(scheme.as_str()),
            ProxyError::MissingHost => "proxy URL missing host component".to_owned(),
            ProxyError::MissingPort =>
                "proxy URL missing port and no default is available".to_owned(),
            ProxyError::HttpsUnsupported =>
                "HTTPS proxy is not yet supported by native iperf command; use http, socks5, or socks5h".to_owned(),
            ProxyError::UdpOverHttp =>
                "UDP is not supported over HTTP proxy; use socks5 or socks5h".to_owned(),
        }
    }
}

/// The proxy that a URL names.
pub open spec fn proxy_of(url: Seq<char>) -> Result<ProxyModel, ProxyFault> {
    match parsed_url(url) {
        None => Err(ProxyFault::InvalidUrl(url)),
        Some(parts) => match scheme_named(parts.scheme) {
            None => Err(ProxyFault::UnsupportedScheme(parts.scheme)),
            Some(scheme) => match (parts.host, parts.port) {
                (Some(host), Some(port)) => Ok(ProxyModel { raw_url: url, scheme, host, port }),
                (Some(_), None) => Err(ProxyFault::MissingPort),
                (None, _) => Err(ProxyFault::MissingHost),
            },
        },
    }
}

pub fn parse_proxy(proxy_url: &str) -> (r: Result<ProxySpec, ProxyError>)
    ensures
        match r {
            Ok(spec) => proxy_of(proxy_url@) == Ok::<ProxyModel, ProxyFault>(spec@),
            Err(error) => proxy_of(proxy_url@) == Err::<ProxyModel, ProxyFault>(error@),
        },
{
    let parts = match parse_url(proxy_url) {
        Ok(parts) => parts,
        Err(_) => {
            return Err(ProxyError::InvalidUrl(proxy_url.to_owned()));
        },
    };
    let scheme = match find_scheme(parts.scheme.as_str()) {
        Some(scheme) => scheme,
        None => {
            return Err(ProxyError::UnsupportedScheme(parts.scheme));
        },
    };
    match parts.host {
        Some(host) => match parts.port {
            Some(port) => Ok(ProxySpec { raw_url: proxy_url.to_owned(), scheme, host, port }),
            None => Err(ProxyError::MissingPort),
        },
        None => Err(ProxyError::MissingHost),
    }
}

/// Why a protocol cannot run through a proxy of the scheme, if it cannot.
pub open spec fn incompatibility(protocol: IperfProtocol, scheme: ProxyScheme) -> Option<
    ProxyFault,
> {
    match (protocol, scheme) {
        (_, ProxyScheme::Https) => Some(ProxyFault::HttpsUnsupported),
        (IperfProtocol::Udp, ProxyScheme::Http) => Some(ProxyFault::UdpOverHttp),
        _ => None,
    }
}

pub fn ensure_compatible(protocol: IperfProtocol, proxy: Option<&ProxySpec>) -> (r: Result<
    (),
    ProxyError,
>)
    ensures
        match r {
            Ok(()) => proxy is None || incompatibility(protocol, proxy->0.scheme) is None,
            Err(error) => proxy is Some && incompatibility(protocol, proxy->0.scheme) == Some(
                error@,
            ),
        },
{
    let proxy = match proxy {
        Some(proxy) => proxy,
        None => {
            return Ok(());
        },
    };
    match (protocol, proxy.scheme) {
        (_, ProxyScheme::Https) => Err(ProxyError::HttpsUnsupported),
        (IperfProtocol::Udp, ProxyScheme::Http) => Err(ProxyError::UdpOverHttp),
        _ => Ok(()),
    }
}

/// Streams run through http and both kinds of socks5 proxies, datagrams through socks5 ones only,
/// and nothing through https.
pub proof fn compatible_pairs(protocol: IperfProtocol, scheme: ProxyScheme)
    ensures
        incompatibility(protocol, scheme) is None <==> (scheme == ProxyScheme::Socks5 || scheme
            == ProxyScheme::Socks5h || (scheme == ProxyScheme::Http && protocol
            == IperfProtocol::Tcp)),
{
}

/// A proxy that is accepted is reached at the host and the port that its URL names, by the protocol
/// that the scheme stands for, and is shown by the URL itself.
pub proof fn proxies_are_reached_where_their_url_says(url: Seq<char>)
    ensures
        proxy_of(url) matches Ok(proxy) ==> parsed_url(url) matches Some(parts) && {
            &&& proxy.raw_url == url
            &&& parts.host == Some(proxy.host)
            &&& parts.port == Some(proxy.port)
            &&& parts.scheme == proxy.scheme.name()
        },
        parsed_url(url) matches Some(parts) ==> parts.host is Some && parts.port is Some
            && scheme_named(parts.scheme) is Some ==> proxy_of(url) is Ok,
{
}

} // verus!
