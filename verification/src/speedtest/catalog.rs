//! The catalog of servers that the service gives out.

use vstd::prelude::*;

use crate::clock::now_seconds;
use crate::num::scalar::Scalar;
use crate::speedtest::servers::SpeedtestServer;
use crate::speedtest::session::{
    after_cookie_line, cookie_line, expiry_after, generate_session_guid, session_guid,
    ModernSession,
};
use crate::text::{
    copy_opt, decimal, decimal_reads_back, parse_number, parsed_number, to_decimal,
};
use crate::urls::opt_view;

verus! {

/// A JSON value that should be a whole number.
#[derive(Debug)]
pub enum RawId {
    /// A number, and its value where it is whole and not negative.
    Number(Option<u64>),
    Text(String),
    Other,
}

/// A JSON value that should be a number. Of a text, the number that it is written for.
#[derive(Debug)]
pub enum RawDistance {
    Number(Option<Scalar>),
    Text { text: String, number: Option<Scalar> },
    Other,
}

/// A server as the service describes it. `id_shown` and `distance_shown` are the JSON values as
/// they were written.
#[derive(Debug)]
pub struct RawSdkServer {
    pub id: RawId,
    pub id_shown: String,
    pub sponsor: String,
    pub name: String,
    pub country: String,
    pub cc: Option<String>,
    pub lat: Option<String>,
    pub lon: Option<String>,
    pub host: String,
    pub hostname: Option<String>,
    pub port: Option<u16>,
    pub preferred: Option<u8>,
    pub isp_id: Option<String>,
    pub https_functional: Option<u8>,
    pub force_ping_select: Option<u8>,
    pub url: String,
    pub distance: RawDistance,
    pub distance_shown: String,
}

/// The answer of the service.
#[derive(Debug)]
pub struct RawSdkConfig {
    pub isp_id: Option<u64>,
    pub provider_hash: Option<String>,
    pub guid: Option<String>,
    pub client_auth_token: Option<String>,
    pub servers: Vec<RawSdkServer>,
}

/// What is used of the answer.
#[derive(Debug)]
pub struct ParsedSdkCatalog {
    pub servers: Vec<SpeedtestServer>,
    pub guid: Option<String>,
    pub client_auth_token: Option<String>,
    pub provider_isp_id: Option<u64>,
    pub provider_hash: Option<String>,
}

/// Why a value is not a number.
#[derive(Debug)]
pub enum ValueError {
    NotUnsigned,
    NotRepresentable,
    UnreadableInteger(String),
    UnreadableNumber(String),
    NotAnInteger,
    NotANumber,
    NotFinite,
}

impl ValueError {
    pub open spec fn text(self) -> Seq<char> {
        match self {
            ValueError::NotUnsigned => "numeric value is not an unsigned integer"@,
            ValueError::NotRepresentable => "numeric value is not representable as f64"@,
            ValueError::UnreadableInteger(shown) => "cannot parse '"@ + shown@ + "' as u64"@,
            ValueError::UnreadableNumber(shown) => "cannot parse '"@ + shown@ + "' as f64"@,
            ValueError::NotAnInteger => "unsupported value type for u64 conversion"@,
            ValueError::NotANumber => "unsupported value type for f64 conversion"@,
            ValueError::NotFinite => "parsed f64 value is not finite"@,
        }
    }

    pub fn message(&self) -> (r: String)
        ensures
            r@ == self.text(),
    {
        match self {
            ValueError::NotUnsigned => "numeric value is not an unsigned integer".to_owned(),
            ValueError::NotRepresentable => "numeric value is not representable as f64".to_owned(),
            ValueError::UnreadableInteger(shown) => {
                let mut out = "cannot parse '".to_owned();
                out.append(shown.as_str());
                out.append("' as u64");
                out
            },
            ValueError::UnreadableNumber(shown) => {
                let mut out = "cannot parse '".to_owned();
                out.append(shown.as_str());
                out.append("' as f64");
                out
            },
            ValueError::NotAnInteger => "unsupported value type for u64 conversion".to_owned(),
            ValueError::NotANumber => "unsupported value type for f64 conversion".to_owned(),
            ValueError::NotFinite => "parsed f64 value is not finite".to_owned(),
        }
    }
}

/// Why a catalog cannot be used.
#[derive(Debug)]
pub enum CatalogError {
    InvalidId { shown: String, cause: ValueError },
    InvalidDistance { shown: String, cause: ValueError },
    NoServers,
}

impl CatalogError {
    pub open spec fn text(self) -> Seq<char> {
        match self {
            CatalogError::InvalidId { shown, .. } => "invalid speedtest config-sdk server id '"@
                + shown@ + "'"@,
            CatalogError::InvalidDistance { shown, .. } =>
                "invalid speedtest config-sdk server distance '"@ + shown@ + "'"@,
            CatalogError::NoServers =>
                "modern speedtest server catalog returned no usable servers"@,
        }
    }

    pub fn message(&self) -> (r: String)
        ensures
            r@ == self.text(),
    {
        match self {
            CatalogError::InvalidId { shown, .. } => {
                let mut out = "invalid speedtest config-sdk server id '".to_owned();
                out.append(shown.as_str());
                out.append("'");
                out
            },
            CatalogError::InvalidDistance { shown, .. } => {
                let mut out = "invalid speedtest config-sdk server distance '".to_owned();
                out.append(shown.as_str());
                out.append("'");
                out
            },
            CatalogError::NoServers => {
                "modern speedtest server catalog returned no usable servers".to_owned()
            },
        }
    }
}

/// The whole number that a value stands for.
pub open spec fn id_of(value: RawId) -> Result<int, ValueError> {
    match value {
        RawId::Number(Some(n)) => Ok(n as int),
        RawId::Number(None) => Err(ValueError::NotUnsigned),
        RawId::Text(text) => match parsed_number(text@, u64::MAX as int) {
            Some(n) => Ok(n),
            None => Err(ValueError::UnreadableInteger(text)),
        },
        RawId::Other => Err(ValueError::NotAnInteger),
    }
}

pub fn value_to_u64(value: &RawId) -> (r: Result<u64, ValueError>)
    ensures
        match r {
            Ok(n) => id_of(*value) == Ok::<int, ValueError>(n as int),
            Err(error) => id_of(*value) == Err::<int, ValueError>(error),
        },
{
    match value {
        RawId::Number(Some(n)) => Ok(*n),
        RawId::Number(None) => Err(ValueError::NotUnsigned),
        RawId::Text(text) => match parse_number(text.as_str(), u64::MAX) {
            Some(n) => Ok(n),
            None => Err(ValueError::UnreadableInteger(text.clone())),
        },
        RawId::Other => Err(ValueError::NotAnInteger),
    }
}

/// The finite number that a value stands for.
pub open spec fn distance_of(value: RawDistance) -> Result<Scalar, ValueError> {
    match value {
        RawDistance::Number(Some(n)) => if n.finite() {
            Ok(n)
        } else {
            Err(ValueError::NotFinite)
        },
        RawDistance::Number(None) => Err(ValueError::NotRepresentable),
        RawDistance::Text { text, number: Some(n) } => if n.finite() {
            Ok(n)
        } else {
            Err(ValueError::NotFinite)
        },
        RawDistance::Text { text, number: None } => Err(ValueError::UnreadableNumber(text)),
        RawDistance::Other => Err(ValueError::NotANumber),
    }
}

pub fn value_to_number(value: &RawDistance) -> (r: Result<Scalar, ValueError>)
    ensures
        r == distance_of(*value),
{
    let parsed: Scalar = match value {
        RawDistance::Number(Some(n)) => *n,
        RawDistance::Number(None) => {
            return Err(ValueError::NotRepresentable);
        },
        RawDistance::Text { text, number } => match number {
            Some(n) => *n,
            None => {
                return Err(ValueError::UnreadableNumber(text.clone()));
            },
        },
        RawDistance::Other => {
            return Err(ValueError::NotANumber);
        },
    };
    if parsed.is_finite() {
        Ok(parsed)
    } else {
        Err(ValueError::NotFinite)
    }
}

/// Why a server cannot be used.
pub open spec fn server_fault(raw: RawSdkServer) -> Option<CatalogError> {
    match id_of(raw.id) {
        Err(cause) => Some(CatalogError::InvalidId { shown: raw.id_shown, cause }),
        Ok(_) => match distance_of(raw.distance) {
            Err(cause) => Some(CatalogError::InvalidDistance { shown: raw.distance_shown, cause }),
            Ok(_) => None,
        },
    }
}

/// Whether `server` is the one that is described. Where the country has no name its code stands
/// for it.
pub open spec fn describes(raw: RawSdkServer, server: SpeedtestServer) -> bool {
    &&& id_of(raw.id) == Ok::<int, ValueError>(server.id as int)
    &&& distance_of(raw.distance) == Ok::<Scalar, ValueError>(server.distance_km)
    &&& server.sponsor@ == raw.sponsor@
    &&& server.name@ == raw.name@
    &&& server.country@ == if raw.country@.len() == 0 {
        match raw.cc {
            Some(code) => code@,
            None => Seq::empty(),
        }
    } else {
        raw.country@
    }
    &&& server.host@ == raw.host@
    &&& server.url@ == raw.url@
    &&& server.session_guid is None
    &&& server.sdk_lat == raw.lat
    &&& server.sdk_lon == raw.lon
    &&& server.sdk_cc == raw.cc
    &&& server.sdk_preferred == raw.preferred
    &&& server.sdk_isp_id == raw.isp_id
    &&& server.sdk_https_functional == raw.https_functional
    &&& server.sdk_hostname == raw.hostname
    &&& server.sdk_port == raw.port
    &&& server.sdk_force_ping_select == raw.force_ping_select
}

pub fn build_server(raw: &RawSdkServer) -> (r: Result<SpeedtestServer, CatalogError>)
    ensures
        match r {
            Ok(server) => server_fault(*raw) is None && describes(*raw, server),
            Err(error) => server_fault(*raw) == Some(error),
        },
{
    let id: u64 = match value_to_u64(&raw.id) {
        Ok(id) => id,
        Err(cause) => {
            return Err(CatalogError::InvalidId { shown: raw.id_shown.clone(), cause });
        },
    };
    let distance_km = match value_to_number(&raw.distance) {
        Ok(distance) => distance,
        Err(cause) => {
            return Err(
                CatalogError::InvalidDistance { shown: raw.distance_shown.clone(), cause },
            );
        },
    };
    let country = if raw.country.as_str().is_empty() {
        match &raw.cc {
            Some(code) => code.clone(),
            None => String::new(),
        }
    } else {
        raw.country.clone()
    };
    Ok(
        SpeedtestServer {
            id,
            sponsor: raw.sponsor.clone(),
            name: raw.name.clone(),
            country,
            host: raw.host.clone(),
            distance_km,
            url: raw.url.clone(),
            session_guid: None,
            sdk_lat: copy_opt(&raw.lat),
            sdk_lon: copy_opt(&raw.lon),
            sdk_cc: copy_opt(&raw.cc),
            sdk_preferred: raw.preferred,
            sdk_isp_id: copy_opt(&raw.isp_id),
            sdk_https_functional: raw.https_functional,
            sdk_hostname: copy_opt(&raw.hostname),
            sdk_port: raw.port,
            sdk_force_ping_select: raw.force_ping_select,
        },
    )
}

/// The first error among the servers.
pub open spec fn catalog_fault(servers: Seq<RawSdkServer>) -> Option<CatalogError>
    decreases servers.len(),
{
    if servers.len() == 0 {
        None
    } else if server_fault(servers[0]) is Some {
        server_fault(servers[0])
    } else {
        catalog_fault(servers.drop_first())
    }
}

/// Makes a catalog of the answer: all servers, or the error of the first that cannot be used.
pub fn build_catalog(raw: RawSdkConfig) -> (r: Result<ParsedSdkCatalog, CatalogError>)
    ensures
        match r {
            Ok(catalog) => {
                &&& catalog_fault(raw.servers@) is None
                &&& catalog.servers.len() == raw.servers.len()
                &&& forall|i: int|
                    0 <= i < raw.servers.len() ==> describes(
                        #[trigger] raw.servers[i],
                        catalog.servers[i],
                    )
                &&& catalog.guid == raw.guid
                &&& catalog.client_auth_token == raw.client_auth_token
                &&& catalog.provider_isp_id == raw.isp_id
                &&& catalog.provider_hash == raw.provider_hash
            },
            Err(error) => catalog_fault(raw.servers@) == Some(error),
        },
{
    let mut servers: Vec<SpeedtestServer> = Vec::new();
    let mut i: usize = 0;
    assert(raw.servers@.skip(0) =~= raw.servers@);
    while i < raw.servers.len()
        invariant
            i <= raw.servers.len(),
            servers.len() == i,
            catalog_fault(raw.servers@) == catalog_fault(raw.servers@.skip(i as int)),
            forall|k: int|
                0 <= k < i ==> describes(#[trigger] raw.servers[k], servers[k]),
        decreases raw.servers.len() - i,
    {
        assert(raw.servers@.skip(i as int).drop_first() =~= raw.servers@.skip(i + 1));
        match build_server(&raw.servers[i]) {
            Ok(server) => {
                servers.push(server);
            },
            Err(error) => {
                return Err(error);
            },
        }
        i = i + 1;
    }
    Ok(
        ParsedSdkCatalog {
            servers,
            guid: raw.guid,
            client_auth_token: raw.client_auth_token,
            provider_isp_id: raw.isp_id,
            provider_hash: raw.provider_hash,
        },
    )
}

/// The address that a catalog of up to `limit` servers is fetched from.
pub open spec fn catalog_address(limit: int) -> Seq<char> {
    "https://www.speedtest.net/api/js/config-sdk?engine=js&https_functional=true"@ + "&limit="@
        + decimal(limit)
}

pub fn catalog_endpoint(limit: usize) -> (r: String)
    ensures
        r@ == catalog_address(limit as int),
{
    let mut out =
        "https://www.speedtest.net/api/js/config-sdk?engine=js&https_functional=true".to_owned();
    out.append("&limit=");
    out.append(to_decimal(limit as u64).as_str());
    out
}

/// The cookies after a number of `Set-Cookie` lines.
pub open spec fn cookies_after(
    cookies: Map<Seq<char>, Seq<char>>,
    lines: Seq<String>,
) -> Map<Seq<char>, Seq<char>>
    decreases lines.len(),
{
    if lines.len() == 0 {
        cookies
    } else {
        after_cookie_line(cookies_after(cookies, lines.drop_last()), lines.last()@)
    }
}

/// The last date of expiry that the lines give, else the one before them.
pub open spec fn expiry_after_all(expiry: Option<Seq<char>>, lines: Seq<String>) -> Option<
    Seq<char>,
>
    decreases lines.len(),
{
    if lines.len() == 0 {
        expiry
    } else {
        expiry_after(expiry_after_all(expiry, lines.drop_last()), lines.last()@)
    }
}

/// Takes the `Set-Cookie` lines of a response into account, in their order.
pub fn apply_cookies(session: &mut ModernSession, lines: &Vec<String>)
    requires
        old(session).cookies.valid(),
    ensures
        final(session).cookies.valid(),
        final(session).cookies@ == cookies_after(old(session).cookies@, lines@),
        opt_view(final(session).expires_at) == expiry_after_all(
            opt_view(old(session).expires_at),
            lines@,
        ),
        final(session).guid == old(session).guid,
        final(session).client_auth_token == old(session).client_auth_token,
        final(session).provider_isp_id == old(session).provider_isp_id,
        final(session).provider_hash == old(session).provider_hash,
        final(session).saved_at == old(session).saved_at,
{
    let mut i: usize = 0;
    assert(lines@.take(0) =~= Seq::<String>::empty());
    while i < lines.len()
        invariant
            i <= lines.len(),
            session.cookies.valid(),
            session.cookies@ == cookies_after(old(session).cookies@, lines@.take(i as int)),
            opt_view(session.expires_at) == expiry_after_all(
                opt_view(old(session).expires_at),
                lines@.take(i as int),
            ),
            session.guid == old(session).guid,
            session.client_auth_token == old(session).client_auth_token,
            session.provider_isp_id == old(session).provider_isp_id,
            session.provider_hash == old(session).provider_hash,
            session.saved_at == old(session).saved_at,
        decreases lines.len() - i,
    {
        assert(lines@.take(i + 1).drop_last() =~= lines@.take(i as int));
        assert(lines@.take(i + 1).last() == lines@[i as int]);
        session.apply_set_cookie_header_line(lines[i].as_str());
        i = i + 1;
    }
    assert(lines@.take(i as int) =~= lines@);
}

/// The session id that is known: that of the answer, else that of the session so far.
pub open spec fn known_id(catalog: ParsedSdkCatalog, session: ModernSession) -> Option<String> {
    if catalog.guid is Some {
        catalog.guid
    } else {
        session.guid
    }
}

/// The value that replaces `kept`, where there is one.
pub open spec fn renewed<T>(fresh: Option<T>, kept: Option<T>) -> Option<T> {
    if fresh is Some {
        fresh
    } else {
        kept
    }
}

/// Binds the servers of an answer to the session `guid`, and keeps in the session what the answer
/// says of it at the given time.
pub fn bind_catalog(
    session: &mut ModernSession,
    catalog: ParsedSdkCatalog,
    guid: String,
    seconds: u64,
) -> (servers: Vec<SpeedtestServer>)
    ensures
        servers.len() == catalog.servers.len(),
        forall|i: int|
            0 <= i < servers.len() ==> #[trigger] servers[i] == (SpeedtestServer {
                session_guid: Some(guid),
                ..catalog.servers[i]
            }),
        final(session).guid == Some(guid),
        final(session).client_auth_token == renewed(
            catalog.client_auth_token,
            old(session).client_auth_token,
        ),
        final(session).provider_isp_id == renewed(
            catalog.provider_isp_id,
            old(session).provider_isp_id,
        ),
        final(session).provider_hash == renewed(catalog.provider_hash, old(session).provider_hash),
        final(session).saved_at is Some,
        final(session).saved_at->0@ == decimal(seconds as int),
        final(session).cookies == old(session).cookies,
        final(session).expires_at == old(session).expires_at,
{
    let ghost given = catalog.servers@;
    let mut servers = catalog.servers;
    let mut i: usize = 0;
    while i < servers.len()
        invariant
            i <= servers.len(),
            servers.len() == given.len(),
            forall|k: int|
                0 <= k < i ==> #[trigger] servers[k] == (SpeedtestServer {
                    session_guid: Some(guid),
                    ..given[k]
                }),
            forall|k: int| i <= k < servers.len() ==> #[trigger] servers[k] == given[k],
        decreases servers.len() - i,
    {
        let mut server = servers[i].clone();
        server.session_guid = Some(guid.clone());
        servers.set(i, server);
        i = i + 1;
    }
    session.guid = Some(guid);
    if catalog.client_auth_token.is_some() {
        session.client_auth_token = catalog.client_auth_token;
    }
    if catalog.provider_isp_id.is_some() {
        session.provider_isp_id = catalog.provider_isp_id;
    }
    if catalog.provider_hash.is_some() {
        session.provider_hash = catalog.provider_hash;
    }
    session.touch_saved_at_time(seconds);
    servers
}

/// Binds the servers of an answer to the session that is known, or to a new one, and keeps in the
/// session what the answer says of it.
pub fn absorb_catalog(
    session: &mut ModernSession,
    catalog: ParsedSdkCatalog,
    process_id: u32,
) -> (servers: Vec<SpeedtestServer>)
    ensures
        servers.len() == catalog.servers.len(),
        final(session).guid is Some,
        match known_id(catalog, *old(session)) {
            Some(id) => final(session).guid == Some(id),
            None => exists|seconds: u64, nanos: u32|
                nanos < 1_000_000_000 && final(session).guid->0@ == #[trigger] session_guid(
                    seconds,
                    nanos,
                    process_id,
                ),
        },
        forall|i: int|
            0 <= i < servers.len() ==> #[trigger] servers[i] == (SpeedtestServer {
                session_guid: final(session).guid,
                ..catalog.servers[i]
            }),
        final(session).client_auth_token == renewed(
            catalog.client_auth_token,
            old(session).client_auth_token,
        ),
        final(session).provider_isp_id == renewed(
            catalog.provider_isp_id,
            old(session).provider_isp_id,
        ),
        final(session).provider_hash == renewed(catalog.provider_hash, old(session).provider_hash),
        final(session).saved_at is Some,
        exists|seconds: u64| final(session).saved_at->0@ == #[trigger] decimal(seconds as int),
        final(session).cookies == old(session).cookies,
        final(session).expires_at == old(session).expires_at,
{
    let guid = match &catalog.guid {
        Some(id) => id.clone(),
        None => match &session.guid {
            Some(id) => id.clone(),
            None => generate_session_guid(process_id),
        },
    };
    let seconds: u64 = now_seconds();
    bind_catalog(session, catalog, guid, seconds)
}

/// A catalog can be used if it has a server.
pub fn require_servers(servers: Vec<SpeedtestServer>) -> (r: Result<
    Vec<SpeedtestServer>,
    CatalogError,
>)
    ensures
        match r {
            Ok(same) => servers.len() > 0 && same == servers,
            Err(error) => servers.len() == 0 && error == CatalogError::NoServers,
        },
{
    if servers.len() == 0 {
        Err(CatalogError::NoServers)
    } else {
        Ok(servers)
    }
}

/// An id can be given as a number or as its digits.
pub proof fn ids_are_read_as_numbers_or_digits(n: u64, text: String)
    requires
        text@ == decimal(n as int),
    ensures
        id_of(RawId::Number(Some(n))) == Ok::<int, ValueError>(n as int),
        id_of(RawId::Text(text)) == Ok::<int, ValueError>(n as int),
        id_of(RawId::Other) is Err,
{
    decimal_reads_back(n as int);
}

/// A catalog can be used exactly where every server of it can; the first one that cannot is named.
pub proof fn the_first_fault_is_named(servers: Seq<RawSdkServer>)
    ensures
        catalog_fault(servers) is None <==> forall|i: int|
            0 <= i < servers.len() ==> server_fault(#[trigger] servers[i]) is None,
        catalog_fault(servers) is Some ==> exists|i: int|
            0 <= i < servers.len() && server_fault(#[trigger] servers[i]) == catalog_fault(servers)
                && forall|k: int| 0 <= k < i ==> server_fault(#[trigger] servers[k]) is None,
    decreases servers.len(),
{
    if servers.len() > 0 {
        if server_fault(servers[0]) is None {
            let rest = servers.drop_first();
            the_first_fault_is_named(rest);
            assert forall|i: int| 0 <= i < rest.len() implies #[trigger] rest[i] == servers[i
                + 1] by {}
            if catalog_fault(servers) is Some {
                let i = choose|i: int|
                    0 <= i < rest.len() && server_fault(#[trigger] rest[i]) == catalog_fault(rest)
                        && forall|k: int| 0 <= k < i ==> server_fault(#[trigger] rest[k]) is None;
                assert(server_fault(servers[i + 1]) == catalog_fault(servers));
                assert forall|k: int| 0 <= k < i + 1 implies server_fault(
                    #[trigger] servers[k],
                ) is None by {
                    if k > 0 {
                        assert(servers[k] == rest[k - 1]);
                    }
                }
            } else {
                assert forall|i: int| 0 <= i < servers.len() implies server_fault(
                    #[trigger] servers[i],
                ) is None by {
                    if i > 0 {
                        assert(servers[i] == rest[i - 1]);
                    }
                }
            }
        }
    }
}

/// A server has what the service says of it.
pub proof fn servers_are_as_described(raw: RawSdkServer, server: SpeedtestServer)
    requires
        describes(raw, server),
    ensures
        raw.id matches RawId::Number(Some(n)) ==> server.id == n,
        server.name@ == raw.name@,
        server.sponsor@ == raw.sponsor@,
        server.host@ == raw.host@,
        server.url@ == raw.url@,
        raw.country@.len() > 0 ==> server.country@ == raw.country@,
        raw.country@.len() == 0 ==> (raw.cc matches Some(code) ==> server.country@ == code@),
        server.sdk_lat == raw.lat,
        server.sdk_lon == raw.lon,
        server.sdk_port == raw.port,
        server.sdk_hostname == raw.hostname,
        server.session_guid is None,
{
}

/// What an answer says goes before what was known; what it does not say stays.
pub proof fn answers_go_before_what_was_known<T>(fresh: Option<T>, known: Option<T>)
    ensures
        fresh is Some ==> renewed(fresh, known) == fresh,
        fresh is None ==> renewed(fresh, known) == known,
{
}

/// Lines are taken into account one after the other.
pub proof fn cookie_lines_count_in_turn(
    cookies: Map<Seq<char>, Seq<char>>,
    lines: Seq<String>,
    next: String,
)
    ensures
        cookies_after(cookies, Seq::empty()) == cookies,
        cookies_after(cookies, lines.push(next)) == after_cookie_line(
            cookies_after(cookies, lines),
            next@,
        ),
{
    assert(lines.push(next).drop_last() =~= lines);
}

/// The last line that sets an expiry sets it for the session.
pub proof fn the_last_expiry_counts(expiry: Option<Seq<char>>, lines: Seq<String>, next: String)
    ensures
        cookie_line(next@) matches Some(cookie) ==> cookie.expires_at is Some ==> expiry_after_all(
            expiry,
            lines.push(next),
        ) == cookie.expires_at,
        cookie_line(next@) is None || cookie_line(next@)->0.expires_at is None ==> expiry_after_all(
            expiry,
            lines.push(next),
        ) == expiry_after_all(expiry, lines),
        expiry_after_all(expiry, Seq::empty()) == expiry,
{
    assert(lines.push(next).drop_last() =~= lines);
}

/// Distances are taken as they are where they are numbers, and refused where they are not finite.
pub proof fn only_finite_distances_are_taken(value: RawDistance)
    ensures
        distance_of(value) matches Ok(n) ==> n.finite() && (value == RawDistance::Number(Some(n))
            || (value matches RawDistance::Text { text, number } && number == Some(n))),
        value matches RawDistance::Number(Some(n)) ==> n.finite() ==> distance_of(value) == Ok::<
            Scalar,
            ValueError,
        >(n),
{
}

/// The id that the catalog gives goes before the one that the session has.
pub proof fn the_id_of_the_catalog_goes_first(catalog: ParsedSdkCatalog, session: ModernSession)
    ensures
        catalog.guid matches Some(guid) ==> known_id(catalog, session) == Some(guid),
        catalog.guid is None ==> known_id(catalog, session) == session.guid,
{
}

} // verus!
