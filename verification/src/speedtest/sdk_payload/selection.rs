//! The servers in a report.

use vstd::prelude::*;

use crate::model::{ClientMeta, RunResult, Server};
use crate::num::fraction::Fraction;
use crate::num::order::{is_stable_order, stable_order, SortKey};
use crate::num::scalar::Scalar;
use crate::text::{
    decimal, decimal_reads_back, find_char, find_last_char, first_index, from_chars, is_digit,
    last_index, parse_number, parsed_number, the_first_place_is_the_first,
    the_last_place_is_the_last, to_chars,
};
use crate::urls::{opt_view, parse_url, parsed_url};

verus! {

/// How a server answered.
#[derive(Debug)]
pub struct SdkClosestPingDetail {
    pub id: u64,
    pub name: String,
    pub sponsor: String,
    pub host: String,
    pub distance: Scalar,
    pub ping_ns: Fraction,
    pub jitter: Option<Scalar>,
}

/// The servers to choose from, the fastest first.
#[derive(Debug)]
pub struct SdkServerSelection {
    pub closest_ping_details: Vec<SdkClosestPingDetail>,
}

/// A server in the list of the report.
#[derive(Debug)]
pub struct SdkServerListEntry {
    pub url: String,
    pub lat: String,
    pub lon: String,
    pub distance: u64,
    pub name: String,
    pub country: String,
    pub cc: String,
    pub sponsor: String,
    pub id: u64,
    pub preferred: u8,
    pub isp_id: String,
    pub https_functional: u8,
    pub host: String,
    pub hostname: String,
    pub port: u16,
    pub force_ping_select: Option<u8>,
}

/// The servers of a run: the pool, or the selected one where the pool is empty.
pub open spec fn run_servers(result: RunResult, selected: Server) -> Seq<Server> {
    match result.server_pool {
        Some(pool) => if pool.len() > 0 {
            pool@
        } else {
            seq![selected]
        },
        None => seq![selected],
    }
}

pub fn list_servers(result: &RunResult, selected: &Server) -> (r: Vec<Server>)
    ensures
        r@ == run_servers(*result, *selected),
{
    let mut out: Vec<Server> = Vec::new();
    if let Some(pool) = &result.server_pool {
        if pool.len() > 0 {
            let mut i: usize = 0;
            while i < pool.len()
                invariant
                    i <= pool.len(),
                    out@ == pool@.take(i as int),
                decreases pool.len() - i,
            {
                out.push(pool[i].clone());
                i = i + 1;
                assert(out@ =~= pool@.take(i as int));
            }
            assert(pool@.take(i as int) =~= pool@);
            return out;
        }
    }
    out.push(selected.clone());
    assert(out@ =~= seq![*selected]);
    out
}

/// The ping of a server: its own latency, else the fallback.
pub open spec fn server_ping(server: Server, fallback_ns: Fraction) -> Fraction {
    match server.latency_ns {
        Some(ns) => ns,
        None => fallback_ns,
    }
}

pub open spec fn detail_of(server: Server, fallback_ns: Fraction) -> SdkClosestPingDetail {
    SdkClosestPingDetail {
        id: server.id,
        name: server.name,
        sponsor: server.sponsor,
        host: server.host,
        distance: server.distance_km,
        ping_ns: server_ping(server, fallback_ns),
        jitter: server.latency_stddev_ms,
    }
}

/// The servers with a valid ping, in their order.
pub open spec fn pinged(servers: Seq<Server>, fallback_ns: Fraction) -> Seq<SdkClosestPingDetail>
    decreases servers.len(),
{
    if servers.len() == 0 {
        Seq::empty()
    } else {
        let before = pinged(servers.drop_last(), fallback_ns);
        if server_ping(servers.last(), fallback_ns).den > 0 {
            before.push(detail_of(servers.last(), fallback_ns))
        } else {
            before
        }
    }
}

pub open spec fn pings_of(details: Seq<SdkClosestPingDetail>) -> Seq<Fraction> {
    details.map_values(|detail: SdkClosestPingDetail| detail.ping_ns)
}

/// Whether `sorted` is the list with the lowest ping first, equal ones in their order.
pub open spec fn is_by_ping(
    details: Seq<SdkClosestPingDetail>,
    sorted: Seq<SdkClosestPingDetail>,
) -> bool {
    exists|order: Seq<usize>| #[trigger]
        is_stable_order(pings_of(details), order) && sorted == Seq::new(
            order.len(),
            |k: int| details[order[k] as int],
        )
}

fn copy_detail(detail: &SdkClosestPingDetail) -> (r: SdkClosestPingDetail)
    ensures
        r == *detail,
{
    SdkClosestPingDetail {
        id: detail.id,
        name: detail.name.clone(),
        sponsor: detail.sponsor.clone(),
        host: detail.host.clone(),
        distance: detail.distance,
        ping_ns: detail.ping_ns,
        jitter: detail.jitter,
    }
}

fn sort_by_ping(details: &Vec<SdkClosestPingDetail>) -> (r: Vec<SdkClosestPingDetail>)
    requires
        forall|i: int| 0 <= i < details.len() ==> (#[trigger] details[i]).ping_ns.den > 0,
    ensures
        is_by_ping(details@, r@),
        r.len() == details.len(),
{
    let mut keys: Vec<Fraction> = Vec::new();
    let mut i: usize = 0;
    while i < details.len()
        invariant
            i <= details.len(),
            keys@ == pings_of(details@).take(i as int),
            forall|k: int| 0 <= k < details.len() ==> (#[trigger] details[k]).ping_ns.den > 0,
        decreases details.len() - i,
    {
        keys.push(details[i].ping_ns);
        i = i + 1;
        assert(keys@ =~= pings_of(details@).take(i as int));
    }
    assert(keys@ =~= pings_of(details@));
    assert forall|k: int| 0 <= k < keys.len() implies (#[trigger] keys@[k]).valid() by {
        assert(keys@[k] == details[k].ping_ns);
    }
    let order = stable_order(&keys);
    let ghost target = Seq::new(order@.len(), |k: int| details@[order@[k] as int]);
    let mut out: Vec<SdkClosestPingDetail> = Vec::new();
    let mut k: usize = 0;
    while k < order.len()
        invariant
            k <= order.len(),
            keys@ == pings_of(details@),
            is_stable_order(keys@, order@),
            target == Seq::new(order@.len(), |k: int| details@[order@[k] as int]),
            out@ == target.take(k as int),
        decreases order.len() - k,
    {
        assert(order@[k as int] < keys@.len());
        out.push(copy_detail(&details[order[k]]));
        k = k + 1;
        assert(out@ =~= target.take(k as int));
    }
    assert(out@ =~= target);
    out
}

/// The servers to choose from, where any has a valid ping.
pub fn build_server_selection(result: &RunResult, selected: &Server, fallback_ns: Fraction) -> (r:
    Option<SdkServerSelection>)
    ensures
        ({
            let details = pinged(run_servers(*result, *selected), fallback_ns);
            match r {
                Some(selection) => details.len() > 0 && is_by_ping(
                    details,
                    selection.closest_ping_details@,
                ),
                None => details.len() == 0,
            }
        }),
{
    let servers = list_servers(result, selected);
    let mut details: Vec<SdkClosestPingDetail> = Vec::new();
    let mut i: usize = 0;
    assert(servers@.take(0) =~= Seq::<Server>::empty());
    while i < servers.len()
        invariant
            i <= servers.len(),
            details@ == pinged(servers@.take(i as int), fallback_ns),
            forall|k: int| 0 <= k < details.len() ==> (#[trigger] details[k]).ping_ns.den > 0,
        decreases servers.len() - i,
    {
        assert(servers@.take(i + 1).drop_last() =~= servers@.take(i as int));
        assert(servers@.take(i + 1).last() == servers@[i as int]);
        let server = &servers[i];
        let ping_ns: Fraction = match server.latency_ns {
            Some(ns) => ns,
            None => fallback_ns,
        };
        if ping_ns.den > 0 {
            details.push(
                SdkClosestPingDetail {
                    id: server.id,
                    name: server.name.clone(),
                    sponsor: server.sponsor.clone(),
                    host: server.host.clone(),
                    distance: server.distance_km,
                    ping_ns,
                    jitter: server.latency_stddev_ms,
                },
            );
        }
        i = i + 1;
    }
    assert(servers@.take(i as int) =~= servers@);
    if details.len() == 0 {
        return None;
    }
    Some(SdkServerSelection { closest_ping_details: sort_by_ping(&details) })
}

/// The name and the port of a host that is written with one: `name:port`, or `[name]:port`.
pub open spec fn host_parts(host: Seq<char>) -> Option<(Seq<char>, int)> {
    if host.len() > 0 && host[0] == '[' {
        match first_index(host, ']', 0) {
            Some(end) => if end + 1 < host.len() && host[end + 1] == ':' {
                match parsed_number(host.skip(end + 2), u16::MAX as int) {
                    Some(port) => Some((host.subrange(1, end), port)),
                    None => None,
                }
            } else {
                None
            },
            None => None,
        }
    } else {
        match last_index(host, ':', host.len() as int) {
            Some(at) => match parsed_number(host.skip(at + 1), u16::MAX as int) {
                Some(port) => Some((host.take(at), port)),
                None => None,
            },
            None => None,
        }
    }
}

pub fn split_host_port(host: &str) -> (r: Option<(String, u16)>)
    ensures
        match r {
            Some((name, port)) => host_parts(host@) == Some((name@, port as int)),
            None => host_parts(host@) is None,
        },
{
    let chars = to_chars(host);
    if chars.len() > 0 && chars[0] == '[' {
        let end: usize = match find_char(&chars, ']', 0) {
            Some(end) => end,
            None => {
                return None;
            },
        };
        if end + 1 >= chars.len() || chars[end + 1] != ':' {
            return None;
        }
        let digits = from_chars(&chars, end + 2, chars.len());
        assert(digits@ =~= host@.skip(end + 2));
        return match parse_number(digits.as_str(), 65_535) {
            Some(port) => Some((from_chars(&chars, 1, end), port as u16)),
            None => None,
        };
    }
    match find_last_char(&chars, ':') {
        Some(at) => {
            let digits = from_chars(&chars, at + 1, chars.len());
            assert(digits@ =~= host@.skip(at + 1));
            match parse_number(digits.as_str(), 65_535) {
                Some(port) => {
                    let name = from_chars(&chars, 0, at);
                    assert(name@ =~= host@.take(at as int));
                    Some((name, port as u16))
                },
                None => None,
            }
        },
        None => None,
    }
}

/// The host and port to report: those of the host itself, else what the URL gives.
pub open spec fn reported_host(host: Seq<char>, fallback_url: Seq<char>) -> (Seq<char>, int) {
    match host_parts(host) {
        Some(parts) => parts,
        None => url_host(
            match parsed_url(fallback_url) {
                Some(url) => url.host,
                None => None,
            },
            match parsed_url(fallback_url) {
                Some(url) => url.port,
                None => None,
            },
        ),
    }
}

/// The host and port that a URL gives, with names for what it lacks.
pub open spec fn url_host(host: Option<Seq<char>>, port: Option<u16>) -> (Seq<char>, int) {
    (
        match host {
            Some(name) => name,
            None => "unknown"@,
        },
        match port {
            Some(number) => number as int,
            None => 8080,
        },
    )
}

/// The host and port of a URL, of which either may be missing.
pub fn complete_host(host: &Option<String>, port: Option<u16>) -> (r: (String, u16))
    ensures
        (r.0@, r.1 as int) == url_host(opt_view(*host), port),
{
    let name = match host {
        Some(name) => name.clone(),
        None => "unknown".to_owned(),
    };
    let number: u16 = match port {
        Some(number) => number,
        None => 8080,
    };
    (name, number)
}

pub fn parse_host_and_port(host: &str, fallback_url: &str) -> (r: (String, u16))
    ensures
        (r.0@, r.1 as int) == reported_host(host@, fallback_url@),
{
    if let Some(parts) = split_host_port(host) {
        return parts;
    }
    match parse_url(fallback_url) {
        Ok(url) => complete_host(&url.host, url.port),
        Err(_) => complete_host(&None, None),
    }
}

/// The URL of a server for which none is given.
pub open spec fn url_of_host(host: Seq<char>) -> Seq<char> {
    "https://"@ + host + "/speedtest/upload.php"@
}

pub fn url_fallback(host: &str) -> (r: String)
    ensures
        r@ == url_of_host(host@),
{
    let mut out = "https://".to_owned();
    out.append(host);
    out.append("/speedtest/upload.php");
    out
}

/// The text, or what stands for it.
pub open spec fn text_or(text: Option<String>, otherwise: Seq<char>) -> Seq<char> {
    match text {
        Some(t) => t@,
        None => otherwise,
    }
}

fn or_text(text: &Option<String>, otherwise: &str) -> (r: String)
    ensures
        r@ == text_or(*text, otherwise@),
{
    match text {
        Some(t) => t.clone(),
        None => otherwise.to_owned(),
    }
}

/// Whether the entry is that of the server: what the catalog does not say of it is taken from the
/// client or from a default.
pub open spec fn is_entry(server: Server, client: ClientMeta, entry: SdkServerListEntry) -> bool {
    let (hostname, port) = reported_host(server.host@, url_of_host(server.host@));
    &&& entry.url@ == text_or(server.sdk_url, url_of_host(server.host@))
    &&& entry.lat@ == text_or(server.sdk_lat, client.latitude_text@)
    &&& entry.lon@ == text_or(server.sdk_lon, client.longitude_text@)
    &&& entry.distance == server.distance_km.nearest()
    &&& entry.name == server.name
    &&& entry.country == server.country
    &&& entry.cc@ == text_or(server.sdk_cc, client.country@)
    &&& entry.sponsor == server.sponsor
    &&& entry.id == server.id
    &&& entry.preferred == match server.sdk_preferred {
        Some(n) => n,
        None => 0,
    }
    &&& entry.isp_id@ == text_or(server.sdk_isp_id, "0"@)
    &&& entry.https_functional == match server.sdk_https_functional {
        Some(n) => n,
        None => 1,
    }
    &&& entry.host == server.host
    &&& entry.hostname@ == text_or(server.sdk_hostname, hostname)
    &&& entry.port == match server.sdk_port {
        Some(n) => n as int,
        None => port,
    }
    &&& entry.force_ping_select == server.sdk_force_ping_select
}

pub fn build_server_list_entry(server: &Server, client: &ClientMeta) -> (r: SdkServerListEntry)
    ensures
        is_entry(*server, *client, r),
{
    let fallback_url = url_fallback(server.host.as_str());
    let (hostname, port) = parse_host_and_port(server.host.as_str(), fallback_url.as_str());
    SdkServerListEntry {
        url: or_text(&server.sdk_url, fallback_url.as_str()),
        lat: or_text(&server.sdk_lat, client.latitude_text.as_str()),
        lon: or_text(&server.sdk_lon, client.longitude_text.as_str()),
        distance: server.distance_km.round_to_u64(),
        name: server.name.clone(),
        country: server.country.clone(),
        cc: or_text(&server.sdk_cc, client.country.as_str()),
        sponsor: server.sponsor.clone(),
        id: server.id,
        preferred: match server.sdk_preferred {
            Some(n) => n,
            None => 0,
        },
        isp_id: or_text(&server.sdk_isp_id, "0"),
        https_functional: match server.sdk_https_functional {
            Some(n) => n,
            None => 1,
        },
        host: server.host.clone(),
        hostname: or_text(&server.sdk_hostname, hostname.as_str()),
        port: match server.sdk_port {
            Some(n) => n,
            None => port,
        },
        force_ping_select: server.sdk_force_ping_select,
    }
}

/// A host that is written with its port is reported with both.
pub proof fn hosts_are_reported_with_their_port(name: Seq<char>, port: u16, url: Seq<char>)
    requires
        name.len() > 0 ==> name[0] != '[',
    ensures
        reported_host(name + seq![':'] + decimal(port as int), url) == (name, port as int),
{
    let digits = decimal(port as int);
    let host = name + seq![':'] + digits;
    decimal_reads_back(port as int);
    let at = name.len() as int;
    the_last_place_is_the_last(host, ':', host.len() as int);
    assert(host[at] == ':');
    let found = last_index(host, ':', host.len() as int)->0;
    if found > at {
        assert(host[found] == digits[found - at - 1]);
        assert(is_digit(digits[found - at - 1]));
    }
    assert(found == at);
    assert(host.skip(at + 1) =~= digits);
    assert(host.take(at) =~= name);
    assert(is_digit(digits[0]));
    if name.len() == 0 {
        assert(host[0] == ':');
    } else {
        assert(host[0] == name[0]);
    }
}

/// What the catalog says of a server is reported as it says it, and what it does not say is taken
/// from the client.
pub proof fn servers_are_reported_as_the_catalog_has_them(
    server: Server,
    client: ClientMeta,
    entry: SdkServerListEntry,
)
    requires
        is_entry(server, client, entry),
    ensures
        entry.id == server.id,
        entry.name == server.name,
        entry.sponsor == server.sponsor,
        entry.country == server.country,
        entry.host == server.host,
        server.sdk_url matches Some(url) ==> entry.url@ == url@,
        server.sdk_lat matches Some(lat) ==> entry.lat@ == lat@,
        server.sdk_lon matches Some(lon) ==> entry.lon@ == lon@,
        server.sdk_lat is None ==> entry.lat@ == client.latitude_text@,
        server.sdk_lon is None ==> entry.lon@ == client.longitude_text@,
        server.sdk_cc matches Some(cc) ==> entry.cc@ == cc@,
        server.sdk_hostname matches Some(name) ==> entry.hostname@ == name@,
        server.sdk_port matches Some(port) ==> entry.port == port,
        server.sdk_preferred matches Some(n) ==> entry.preferred == n,
        server.sdk_https_functional matches Some(n) ==> entry.https_functional == n,
{
}

/// A host that does not name its port is taken from the address, with port 8080 where that names
/// none either.
pub proof fn the_address_stands_in_for_the_host(host: Seq<char>, url: Seq<char>)
    requires
        !host.contains(':'),
    ensures
        parsed_url(url) matches Some(parts) ==> {
            &&& parts.host matches Some(name) ==> reported_host(host, url).0 == name
            &&& parts.port matches Some(port) ==> reported_host(host, url).1 == port
            &&& parts.port is None ==> reported_host(host, url).1 == 8080
        },
        parsed_url(url) is None ==> reported_host(host, url) == ("unknown"@, 8080int),
{
    the_last_place_is_the_last(host, ':', host.len() as int);
    if last_index(host, ':', host.len() as int) is Some {
        assert(host.contains(host[last_index(host, ':', host.len() as int)->0]));
    }
    if host.len() > 0 && host[0] == '[' {
        if let Some(end) = first_index(host, ']', 0) {
            if end + 1 < host.len() && host[end + 1] == ':' {
                assert(end >= 0) by {
                    the_first_place_is_the_first(host, ']', 0);
                }
                assert(host.contains(host[end + 1]));
            }
        }
    }
}

} // verus!
