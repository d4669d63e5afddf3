//! The addresses that a test server is reached at.

use vstd::prelude::*;

use crate::speedtest::servers::SpeedtestServer;
use crate::text::{
    contains, decimal, decimal_reads_back, dedup, deduped, deduped_keeps_each_once, drop_empty,
    find_last_char, from_chars, holds, join, joined, last_index, nonempty, parse_number,
    parsed_number, pieces, same_text, split, the_last_place_is_the_last, to_chars, to_decimal,
    trim, trimmed, views,
};
use crate::urls::{
    parse_url, parsed_url, path_weight, replace_path, url_with_path, MAX_URL_CHARS,
};

verus! {

/// Why a server has no address.
#[derive(Debug)]
pub enum EndpointError {
    EmptyHost,
    InvalidServerUrl(String),
    MissingHost,
    MissingPort,
    InvalidHost(String),
    InvalidWebsocketHost(String),
    NotHierarchical,
    TooLong,
}

/// The values of [`EndpointError`].
pub enum EndpointFault {
    EmptyHost,
    InvalidServerUrl(Seq<char>),
    MissingHost,
    MissingPort,
    InvalidHost(Seq<char>),
    InvalidWebsocketHost(Seq<char>),
    NotHierarchical,
    TooLong,
}

impl View for EndpointError {
    type V = EndpointFault;

    open spec fn view(&self) -> EndpointFault {
        match *self {
            EndpointError::EmptyHost => EndpointFault::EmptyHost,
            EndpointError::InvalidServerUrl(url) => EndpointFault::InvalidServerUrl(url@),
            EndpointError::MissingHost => EndpointFault::MissingHost,
            EndpointError::MissingPort => EndpointFault::MissingPort,
            EndpointError::InvalidHost(host) => EndpointFault::InvalidHost(host@),
            EndpointError::InvalidWebsocketHost(host) => EndpointFault::InvalidWebsocketHost(host@),
            EndpointError::NotHierarchical => EndpointFault::NotHierarchical,
            EndpointError::TooLong => EndpointFault::TooLong,
        }
    }
}

impl EndpointFault {
    /// What the error tells the user.
    pub open spec fn text(self) -> Seq<char> {
        match self {
            EndpointFault::EmptyHost => "speedtest server host is empty"@,
            EndpointFault::InvalidServerUrl(url) => "invalid speedtest server URL '"@ + url + seq![
                '\'',
            ],
            EndpointFault::MissingHost => "speedtest server URL is missing host"@,
            EndpointFault::MissingPort => "speedtest server URL is missing resolvable port"@,
            EndpointFault::InvalidHost(host) => "invalid speedtest browser endpoint host '"@ + host
                + seq!['\''],
            EndpointFault::InvalidWebsocketHost(host) => "invalid websocket endpoint host '"@ + host
                + seq!['\''],
            EndpointFault::NotHierarchical => "endpoint URL is not hierarchical"@,
            EndpointFault::TooLong => "endpoint URL is too long"@,
        }
    }
}

fn quoted(lead: &str, text: &String) -> (r: String)
    ensures
        r@ == lead@ + text@ + seq!['\''],
{
    let mut out = lead.to_owned();
    out.append(text.as_str());
    out.push('\'');
    assert(out@ =~= lead@ + text@ + seq!['\'']);
    out
}

impl EndpointError {
    pub fn message(&self) -> (r: String)
        ensures
            r@ == self@.text(),
    {
        match self {
            EndpointError::EmptyHost => "speedtest server host is empty".to_owned(),
            EndpointError::InvalidServerUrl(url) => quoted("invalid speedtest server URL '", url),
            EndpointError::MissingHost => "speedtest server URL is missing host".to_owned(),
            EndpointError::MissingPort =>
                "speedtest server URL is missing resolvable port".to_owned(),
            EndpointError::InvalidHost(host) =>
                quoted("invalid speedtest browser endpoint host '", host),
            EndpointError::InvalidWebsocketHost(host) =>
                quoted("invalid websocket endpoint host '", host),
            EndpointError::NotHierarchical => "endpoint URL is not hierarchical".to_owned(),
            EndpointError::TooLong => "endpoint URL is too long".to_owned(),
        }
    }
}

/// Whether a host is written with a port: an address in brackets with a colon behind them, or
/// anything with a port number behind its last colon.
pub open spec fn written_with_port(host: Seq<char>) -> bool {
    ||| (host.len() > 0 && host[0] == '[' && host.contains(':') && holds(host, seq![']', ':']))
    ||| match last_index(host, ':', host.len() as int) {
        Some(at) => parsed_number(host.skip(at + 1), u16::MAX as int) is Some,
        None => false,
    }
}

pub fn looks_like_host_with_port(host: &str) -> (r: bool)
    ensures
        r == written_with_port(host@),
{
    let chars = to_chars(host);
    let colon = find_last_char(&chars, ':');
    if chars.len() > 0 && chars[0] == '[' && colon.is_some() {
        proof {
            reveal_strlit("]:");
            assert("]:"@ =~= seq![']', ':']);
            assert(host@.contains(':'));
        }
        if contains(host, "]:") {
            return true;
        }
    }
    match colon {
        Some(at) => {
            let port = from_chars(&chars, at + 1, chars.len());
            assert(port@ =~= host@.skip(at + 1));
            proof {
                reveal_strlit("]:");
                assert("]:"@ =~= seq![']', ':']);
            }
            parse_number(port.as_str(), 65535).is_some()
        },
        None => {
            proof {
                lemma_no_last_index(host@, ':', host@.len() as int);
            }
            false
        },
    }
}

proof fn lemma_no_last_index(text: Seq<char>, c: char, to: int)
    requires
        0 <= to <= text.len(),
        last_index(text, c, to) is None,
    ensures
        forall|i: int| 0 <= i < to ==> text[i] != c,
    decreases to,
{
    if to > 0 {
        lemma_no_last_index(text, c, to - 1);
    }
}

/// The host and port that a server is reached at: its host where that has a port, else what its
/// URL gives.
pub open spec fn resolved_endpoint(server: SpeedtestServer) -> Result<Seq<char>, EndpointFault> {
    if written_with_port(server.host@) {
        Ok(server.host@)
    } else {
        match parsed_url(server.url@) {
            None => Err(EndpointFault::InvalidServerUrl(server.url@)),
            Some(url) => match (url.host, url.port) {
                (Some(host), Some(port)) => Ok(host + seq![':'] + decimal(port as int)),
                (Some(_), None) => Err(EndpointFault::MissingPort),
                (None, _) => Err(EndpointFault::MissingHost),
            },
        }
    }
}

/// The text `host:port`, where both are known.
pub fn join_endpoint(host: &Option<String>, port: Option<u16>) -> (r: Result<String, EndpointError>)
    ensures
        match (*host, port, r) {
            (Some(name), Some(number), Ok(text)) => text@ == name@ + seq![':'] + decimal(
                number as int,
            ),
            (Some(_), None, Err(error)) => error is MissingPort,
            (None, _, Err(error)) => error is MissingHost,
            _ => false,
        },
{
    match host {
        Some(name) => match port {
            Some(number) => {
                let mut out = name.clone();
                out.push(':');
                out.append(to_decimal(number as u64).as_str());
                assert(out@ =~= name@ + seq![':'] + decimal(number as int));
                Ok(out)
            },
            None => Err(EndpointError::MissingPort),
        },
        None => Err(EndpointError::MissingHost),
    }
}

pub fn resolve_endpoint(server: &SpeedtestServer) -> (r: Result<String, EndpointError>)
    ensures
        match r {
            Ok(host) => resolved_endpoint(*server) == Ok::<Seq<char>, EndpointFault>(host@),
            Err(error) => resolved_endpoint(*server) == Err::<Seq<char>, EndpointFault>(error@),
        },
{
    if looks_like_host_with_port(server.host.as_str()) {
        return Ok(server.host.clone());
    }
    match parse_url(server.url.as_str()) {
        Ok(url) => join_endpoint(&url.host, url.port),
        Err(_) => Err(EndpointError::InvalidServerUrl(server.url.clone())),
    }
}

/// The host and port that a server is reached at, for a server that has a host.
pub open spec fn host_port(server: SpeedtestServer) -> Result<Seq<char>, EndpointFault> {
    if trimmed(server.host@).len() == 0 {
        Err(EndpointFault::EmptyHost)
    } else {
        resolved_endpoint(server)
    }
}

pub fn host_with_port(server: &SpeedtestServer) -> (r: Result<String, EndpointError>)
    ensures
        match r {
            Ok(host) => host_port(*server) == Ok::<Seq<char>, EndpointFault>(host@),
            Err(error) => host_port(*server) == Err::<Seq<char>, EndpointFault>(error@),
        },
{
    if trim(server.host.as_str()).as_str().is_empty() {
        return Err(EndpointError::EmptyHost);
    }
    resolve_endpoint(server)
}

/// The paths to try for `path`: the path itself, and beside the script that the server's URL
/// names, with and without `.php`; for an upload also that script.
pub open spec fn candidate_paths(segments: Option<Seq<Seq<char>>>, path: Seq<char>) -> Seq<
    Seq<char>,
> {
    let own = match segments {
        Some(list) => nonempty(list),
        None => Seq::empty(),
    };
    if own.len() == 0 {
        seq![path]
    } else {
        let parent = own.drop_last();
        let prefix = if parent.len() == 0 {
            Seq::empty()
        } else {
            joined(parent, seq!['/']).push('/')
        };
        let beside = seq![path, prefix + path, prefix + path + ".php"@];
        deduped(
            if path == "upload"@ {
                beside + seq![joined(own, seq!['/']), prefix + "upload.php"@]
            } else {
                beside
            },
        )
    }
}

pub open spec fn url_segments(url: Seq<char>) -> Option<Seq<Seq<char>>> {
    match parsed_url(url) {
        Some(parts) => parts.segments,
        None => None,
    }
}

/// The paths to try for `path` on a server whose URL has the given segments.
pub fn endpoint_path_candidates(segments: &Option<Vec<String>>, path: &str) -> (r: Vec<String>)
    ensures
        views(r@) == candidate_paths(
            match *segments {
                Some(list) => Some(views(list@)),
                None => None,
            },
            path@,
        ),
{
    let own: Vec<String> = match segments {
        Some(list) => drop_empty(list),
        None => Vec::new(),
    };
    let ghost parts = views(own@);
    let mut out: Vec<String> = Vec::new();
    out.push(path.to_owned());
    if own.len() == 0 {
        assert(parts =~= Seq::<Seq<char>>::empty());
        assert(views(out@) =~= seq![path@]);
        return out;
    }
    proof {
        reveal_strlit("/");
        assert("/"@ =~= seq!['/']);
        assert(parts.take(parts.len() - 1) =~= parts.drop_last());
        assert(parts.take(parts.len() as int) =~= parts);
    }
    let mut prefix = join(&own, own.len() - 1, "/");
    if own.len() > 1 {
        prefix.push('/');
    } else {
        assert(prefix@ =~= Seq::<char>::empty());
    }
    let mut beside = prefix.clone();
    beside.append(path);
    let mut script = beside.clone();
    script.append(".php");
    out.push(beside);
    out.push(script);
    assert(views(out@) =~= seq![path@, prefix@ + path@, prefix@ + path@ + ".php"@]);
    if same_text(path, "upload") {
        let ghost before = views(out@);
        let whole = join(&own, own.len(), "/");
        let mut upload = prefix;
        upload.append("upload.php");
        out.push(whole);
        out.push(upload);
        assert(views(out@) =~= before + seq![whole@, upload@]);
    }
    dedup(&out)
}

/// The URLs of the first `upto` candidate paths under `base`, if each is one.
pub open spec fn based_urls(base: Seq<char>, candidates: Seq<Seq<char>>, upto: int) -> Option<
    Seq<Seq<char>>,
>
    decreases upto,
{
    if upto <= 0 {
        Some(Seq::empty())
    } else {
        match (
            based_urls(base, candidates, upto - 1),
            url_with_path(base, nonempty(pieces(candidates[upto - 1], '/'))),
        ) {
            (Some(before), Some(url)) => Some(before.push(url)),
            _ => None,
        }
    }
}

pub open spec fn site(scheme: Seq<char>, host: Seq<char>) -> Seq<char> {
    scheme + "://"@ + host + seq!['/']
}

/// Whether every candidate path under `base` is short enough for a URL.
pub open spec fn short_enough(base: Seq<char>, candidates: Seq<Seq<char>>) -> bool {
    forall|i: int|
        #![trigger candidates[i]]
        0 <= i < candidates.len() ==> base.len() + path_weight(nonempty(pieces(candidates[i], '/')))
            <= MAX_URL_CHARS
}

/// The URLs to try at a host: every candidate path with https, then every one with http, each URL
/// once.
pub open spec fn urls_at(host: Seq<char>, candidates: Seq<Seq<char>>) -> Result<
    Seq<Seq<char>>,
    EndpointFault,
> {
    let secure = site("https"@, host);
    let plain = site("http"@, host);
    let count = candidates.len() as int;
    if parsed_url(secure) is None {
        Err(EndpointFault::InvalidHost(host))
    } else if !short_enough(secure, candidates) {
        Err(EndpointFault::TooLong)
    } else if based_urls(secure, candidates, count) is None {
        Err(EndpointFault::NotHierarchical)
    } else if parsed_url(plain) is None {
        Err(EndpointFault::InvalidHost(host))
    } else if !short_enough(plain, candidates) {
        Err(EndpointFault::TooLong)
    } else if based_urls(plain, candidates, count) is None {
        Err(EndpointFault::NotHierarchical)
    } else {
        Ok(
            deduped(
                based_urls(secure, candidates, count)->0 + based_urls(plain, candidates, count)->0,
            ),
        )
    }
}

fn site_url(scheme: &str, host: &str) -> (r: String)
    ensures
        r@ == site(scheme@, host@),
{
    let mut out = scheme.to_owned();
    out.append("://");
    out.append(host);
    out.push('/');
    assert(out@ =~= site(scheme@, host@));
    out
}

fn weigh(segments: &Vec<String>) -> (r: u64)
    ensures
        r == if path_weight(views(segments@)) <= MAX_URL_CHARS {
            path_weight(views(segments@))
        } else {
            MAX_URL_CHARS + 1
        },
{
    let ghost all = views(segments@);
    let mut total: u64 = 0;
    let mut i: usize = 0;
    assert(all.take(0) =~= Seq::<Seq<char>>::empty());
    while i < segments.len()
        invariant
            i <= segments.len(),
            all == views(segments@),
            total == path_weight(all.take(i as int)),
            total <= MAX_URL_CHARS,
        decreases segments.len() - i,
    {
        let length: usize = segments[i].as_str().unicode_len();
        proof {
            assert(all.take(i + 1).drop_last() =~= all.take(i as int));
            assert(all.take(i + 1).last() == segments@[i as int]@);
        }
        if length as u64 >= MAX_URL_CHARS || total + length as u64 + 1 > MAX_URL_CHARS {
            proof {
                lemma_weight_grows(all, i + 1);
                assert(all.take(all.len() as int) =~= all);
            }
            return MAX_URL_CHARS + 1;
        }
        total = total + length as u64 + 1;
        i = i + 1;
    }
    assert(all.take(i as int) =~= all);
    total
}

proof fn lemma_weight_grows(segments: Seq<Seq<char>>, upto: int)
    requires
        0 <= upto <= segments.len(),
    ensures
        path_weight(segments.take(upto)) <= path_weight(segments),
    decreases segments.len(),
{
    if upto < segments.len() {
        lemma_weight_grows(segments.drop_last(), upto);
        assert(segments.drop_last().take(upto) =~= segments.take(upto));
    } else {
        assert(segments.take(upto) =~= segments);
    }
}

/// The URLs of the candidates under one base, with the faults in the order in which they count.
fn collect_urls(base: &str, host: &str, candidates: &Vec<String>) -> (r: Result<
    Vec<String>,
    EndpointError,
>)
    ensures
        ({
            let list = views(candidates@);
            let count = list.len() as int;
            match r {
                Ok(urls) => {
                    &&& parsed_url(base@) is Some
                    &&& short_enough(base@, list)
                    &&& based_urls(base@, list, count) == Some(views(urls@))
                },
                Err(error) => error@ == if parsed_url(base@) is None {
                    EndpointFault::InvalidHost(host@)
                } else if !short_enough(base@, list) {
                    EndpointFault::TooLong
                } else {
                    EndpointFault::NotHierarchical
                } && !(parsed_url(base@) is Some && short_enough(base@, list) && based_urls(
                    base@,
                    list,
                    count,
                ) is Some),
            }
        }),
{
    if parse_url(base).is_err() {
        return Err(EndpointError::InvalidHost(host.to_owned()));
    }
    let ghost list = views(candidates@);
    let base_length: usize = base.unicode_len();
    let mut paths: Vec<Vec<String>> = Vec::new();
    let mut i: usize = 0;
    while i < candidates.len()
        invariant
            i <= candidates.len(),
            list == views(candidates@),
            parsed_url(base@) is Some,
            base_length == base@.len(),
            paths.len() == i,
            forall|k: int|
                #![trigger list[k]]
                #![trigger paths[k]]
                0 <= k < i ==> views(paths[k]@) == nonempty(pieces(list[k], '/')) && base@.len()
                    + path_weight(nonempty(pieces(list[k], '/'))) <= MAX_URL_CHARS,
        decreases candidates.len() - i,
    {
        assert(list[i as int] == candidates@[i as int]@);
        let parts = split(candidates[i].as_str(), '/');
        let segments = drop_empty(&parts);
        let weight: u64 = weigh(&segments);
        proof {
            lemma_weight_is_positive(views(segments@));
        }
        if base_length as u64 > MAX_URL_CHARS || base_length as u64 + weight > MAX_URL_CHARS {
            assert(!short_enough(base@, list)) by {
                assert(list[i as int] == candidates@[i as int]@);
            }
            return Err(EndpointError::TooLong);
        }
        paths.push(segments);
        i = i + 1;
    }
    let mut urls: Vec<String> = Vec::new();
    let mut k: usize = 0;
    assert(views(urls@) =~= Seq::<Seq<char>>::empty());
    while k < paths.len()
        invariant
            k <= paths.len(),
            list == views(candidates@),
            paths.len() == list.len(),
            forall|m: int|
                #![trigger list[m]]
                #![trigger paths[m]]
                0 <= m < paths.len() ==> views(paths[m]@) == nonempty(pieces(list[m], '/'))
                    && base@.len() + path_weight(nonempty(pieces(list[m], '/'))) <= MAX_URL_CHARS,
            parsed_url(base@) is Some,
            short_enough(base@, list),
            based_urls(base@, list, k as int) == Some(views(urls@)),
        decreases paths.len() - k,
    {
        let ghost before = views(urls@);
        match replace_path(base, &paths[k]) {
            Some(url) => {
                urls.push(url);
                assert(views(urls@) =~= before.push(url@));
            },
            None => {
                proof {
                    lemma_based_fails(base@, list, k + 1, list.len() as int);
                }
                return Err(EndpointError::NotHierarchical);
            },
        }
        k = k + 1;
    }
    Ok(urls)
}

proof fn lemma_weight_is_positive(segments: Seq<Seq<char>>)
    ensures
        path_weight(segments) >= 0,
    decreases segments.len(),
{
    if segments.len() > 0 {
        lemma_weight_is_positive(segments.drop_last());
    }
}

proof fn lemma_based_fails(base: Seq<char>, candidates: Seq<Seq<char>>, at: int, upto: int)
    requires
        at <= upto,
        based_urls(base, candidates, at) is None,
    ensures
        based_urls(base, candidates, upto) is None,
    decreases upto - at,
{
    if at < upto {
        lemma_based_fails(base, candidates, at, upto - 1);
    }
}

/// The URLs to try on a server for `path`.
pub open spec fn server_urls(server: SpeedtestServer, path: Seq<char>) -> Result<
    Seq<Seq<char>>,
    EndpointFault,
> {
    match host_port(server) {
        Ok(host) => urls_at(host, candidate_paths(url_segments(server.url@), path)),
        Err(fault) => Err(fault),
    }
}

/// The URLs to try at `host` for the given candidate paths.
pub fn build_urls(host: &str, candidates: &Vec<String>) -> (r: Result<Vec<String>, EndpointError>)
    ensures
        match r {
            Ok(urls) => urls_at(host@, views(candidates@)) == Ok::<Seq<Seq<char>>, EndpointFault>(
                views(urls@),
            ),
            Err(error) => urls_at(host@, views(candidates@)) == Err::<
                Seq<Seq<char>>,
                EndpointFault,
            >(error@),
        },
{
    let secure = site_url("https", host);
    let plain = site_url("http", host);
    let mut urls = match collect_urls(secure.as_str(), host, candidates) {
        Ok(urls) => urls,
        Err(error) => {
            return Err(error);
        },
    };
    let more = match collect_urls(plain.as_str(), host, candidates) {
        Ok(urls) => urls,
        Err(error) => {
            return Err(error);
        },
    };
    let ghost first = views(urls@);
    let mut i: usize = 0;
    assert(first + views(more@).take(0) =~= first);
    while i < more.len()
        invariant
            i <= more.len(),
            views(urls@) == first + views(more@).take(i as int),
        decreases more.len() - i,
    {
        let ghost before = views(urls@);
        urls.push(more[i].clone());
        assert(views(urls@) =~= before.push(views(more@)[i as int]));
        i = i + 1;
        assert(views(urls@) =~= first + views(more@).take(i as int));
    }
    assert(views(more@).take(i as int) =~= views(more@));
    Ok(dedup(&urls))
}

pub fn endpoint_urls(server: &SpeedtestServer, path: &str) -> (r: Result<
    Vec<String>,
    EndpointError,
>)
    ensures
        match r {
            Ok(urls) => server_urls(*server, path@) == Ok::<Seq<Seq<char>>, EndpointFault>(
                views(urls@),
            ),
            Err(error) => server_urls(*server, path@) == Err::<Seq<Seq<char>>, EndpointFault>(
                error@,
            ),
        },
{
    let host = match host_with_port(server) {
        Ok(host) => host,
        Err(error) => {
            return Err(error);
        },
    };
    let segments: Option<Vec<String>> = match parse_url(server.url.as_str()) {
        Ok(parts) => parts.segments,
        Err(_) => None,
    };
    let candidates = endpoint_path_candidates(&segments, path);
    build_urls(host.as_str(), &candidates)
}

/// The URLs to try are all different.
pub proof fn endpoint_urls_are_distinct(server: SpeedtestServer, path: Seq<char>)
    requires
        server_urls(server, path) is Ok,
    ensures
        server_urls(server, path)->Ok_0.no_duplicates(),
{
    let host = host_port(server)->Ok_0;
    let candidates = candidate_paths(url_segments(server.url@), path);
    let count = candidates.len() as int;
    crate::text::deduped_keeps_each_once(
        based_urls(site("https"@, host), candidates, count)->0 + based_urls(
            site("http"@, host),
            candidates,
            count,
        )->0,
    );
}

/// The websocket addresses of a server: first the secure one.
pub open spec fn websocket_urls(host: Seq<char>) -> Result<Seq<Seq<char>>, EndpointFault> {
    let secure = parsed_url("wss://"@ + host + "/ws"@);
    let plain = parsed_url("ws://"@ + host + "/ws"@);
    match (secure, plain) {
        (Some(first), Some(second)) => Ok(seq![first.text, second.text]),
        _ => Err(EndpointFault::InvalidWebsocketHost(host)),
    }
}

fn websocket_url(lead: &str, host: &str) -> (r: Result<String, EndpointError>)
    ensures
        match r {
            Ok(url) => parsed_url(lead@ + host@ + "/ws"@) is Some && parsed_url(
                lead@ + host@ + "/ws"@,
            )->0.text == url@,
            Err(error) => parsed_url(lead@ + host@ + "/ws"@) is None && error@
                == EndpointFault::InvalidWebsocketHost(host@),
        },
{
    let mut text = lead.to_owned();
    text.append(host);
    text.append("/ws");
    assert(text@ =~= lead@ + host@ + "/ws"@);
    match parse_url(text.as_str()) {
        Ok(parts) => Ok(parts.text),
        Err(_) => Err(EndpointError::InvalidWebsocketHost(host.to_owned())),
    }
}

pub fn websocket_endpoints(server: &SpeedtestServer) -> (r: Result<Vec<String>, EndpointError>)
    ensures
        ({
            let expected = match host_port(*server) {
                Ok(host) => websocket_urls(host),
                Err(fault) => Err(fault),
            };
            match r {
                Ok(urls) => expected == Ok::<Seq<Seq<char>>, EndpointFault>(views(urls@)),
                Err(error) => expected == Err::<Seq<Seq<char>>, EndpointFault>(error@),
            }
        }),
{
    let host = match host_with_port(server) {
        Ok(host) => host,
        Err(error) => {
            return Err(error);
        },
    };
    let secure = match websocket_url("wss://", host.as_str()) {
        Ok(url) => url,
        Err(error) => {
            return Err(error);
        },
    };
    let plain = match websocket_url("ws://", host.as_str()) {
        Ok(url) => url,
        Err(error) => {
            return Err(error);
        },
    };
    let mut urls: Vec<String> = Vec::new();
    urls.push(secure);
    urls.push(plain);
    assert(views(urls@) =~= seq![secure@, plain@]);
    Ok(urls)
}

proof fn lemma_based(base: Seq<char>, candidates: Seq<Seq<char>>, upto: int)
    requires
        0 <= upto <= candidates.len(),
        based_urls(base, candidates, upto) is Some,
    ensures
        based_urls(base, candidates, upto)->0.len() == upto,
        forall|i: int|
            0 <= i < upto ==> url_with_path(base, nonempty(pieces(#[trigger] candidates[i], '/')))
                == Some(based_urls(base, candidates, upto)->0[i]),
    decreases upto,
{
    if upto > 0 {
        lemma_based(base, candidates, upto - 1);
    }
}

/// Every candidate path is tried under both schemes, and first of all the first path in a secure
/// way.
pub proof fn paths_are_tried_in_both_schemes(host: Seq<char>, candidates: Seq<Seq<char>>, i: int)
    requires
        urls_at(host, candidates) is Ok,
        0 <= i < candidates.len(),
    ensures
        ({
            let urls = urls_at(host, candidates)->Ok_0;
            let path = nonempty(pieces(candidates[i], '/'));
            let first = nonempty(pieces(candidates[0], '/'));
            &&& urls.len() > 0
            &&& Some(urls[0]) == url_with_path("https"@ + "://"@ + host + seq!['/'], first)
            &&& urls.contains(url_with_path("https"@ + "://"@ + host + seq!['/'], path)->0)
            &&& urls.contains(url_with_path("http"@ + "://"@ + host + seq!['/'], path)->0)
        }),
{
    let count = candidates.len() as int;
    let secure = site("https"@, host);
    let plain = site("http"@, host);
    lemma_based(secure, candidates, count);
    lemma_based(plain, candidates, count);
    let a = based_urls(secure, candidates, count)->0;
    let b = based_urls(plain, candidates, count)->0;
    let all = a + b;
    deduped_keeps_each_once(all);
    assert(all[0] == a[0]);
    assert(url_with_path(secure, nonempty(pieces(candidates[0], '/'))) == Some(a[0]));
    assert(url_with_path(secure, nonempty(pieces(candidates[i], '/'))) == Some(a[i]));
    assert(url_with_path(plain, nonempty(pieces(candidates[i], '/'))) == Some(b[i]));
    assert(all[i] == a[i]);
    assert(all[count + i] == b[i]);
    assert(all.contains(a[i]) && all.contains(b[i]));
}

/// The path that is asked for is the first to be tried.
pub proof fn the_path_itself_is_tried_first(segments: Option<Seq<Seq<char>>>, path: Seq<char>)
    ensures
        candidate_paths(segments, path).len() > 0,
        candidate_paths(segments, path)[0] == path,
        candidate_paths(segments, path).no_duplicates(),
{
    let own = match segments {
        Some(list) => nonempty(list),
        None => Seq::empty(),
    };
    if own.len() > 0 {
        let parent = own.drop_last();
        let prefix = if parent.len() == 0 {
            Seq::empty()
        } else {
            joined(parent, seq!['/']).push('/')
        };
        let beside = seq![path, prefix + path, prefix + path + ".php"@];
        let more = beside + seq![joined(own, seq!['/']), prefix + "upload.php"@];
        deduped_keeps_each_once(beside);
        deduped_keeps_each_once(more);
        assert(more[0] == path);
    }
}

/// A host that is written with its port is reached there, and else where its URL says.
pub proof fn servers_are_reached_where_they_say(
    server: SpeedtestServer,
    name: Seq<char>,
    port: u16,
)
    requires
        server.host@ == name + seq![':'] + decimal(port as int),
    ensures
        written_with_port(server.host@),
        resolved_endpoint(server) == Ok::<Seq<char>, EndpointFault>(server.host@),
{
    let digits = decimal(port as int);
    decimal_reads_back(port as int);
    let host = server.host@;
    let at = name.len() as int;
    the_last_place_is_the_last(host, ':', host.len() as int);
    assert(host[at] == ':');
    let found = last_index(host, ':', host.len() as int)->0;
    if found > at {
        assert(host[found] == digits[found - at - 1]);
        assert(crate::text::is_digit(digits[found - at - 1]));
    }
    assert(found == at);
    assert(host.skip(at + 1) =~= digits);
    assert(digits[0] != '+') by {
        assert(crate::text::is_digit(digits[0]));
    }
}

/// A server without a host cannot be reached, and that alone is said of it.
pub proof fn blank_hosts_are_refused(server: SpeedtestServer)
    ensures
        trimmed(server.host@).len() == 0 ==> host_port(server) == Err::<Seq<char>, EndpointFault>(
            EndpointFault::EmptyHost,
        ),
        trimmed(server.host@).len() > 0 ==> host_port(server) == resolved_endpoint(server),
{
}

/// Beside the path of the server the path is tried with and without `.php`, and for uploads the
/// path that the server itself names too.
pub proof fn paths_beside_the_own_are_tried(segments: Seq<Seq<char>>, path: Seq<char>)
    requires
        nonempty(segments).len() > 0,
    ensures
        ({
            let own = nonempty(segments);
            let tried = candidate_paths(Some(segments), path);
            let prefix = if own.len() == 1 {
                Seq::empty()
            } else {
                joined(own.drop_last(), seq!['/']).push('/')
            };
            &&& tried.contains(path)
            &&& tried.contains(prefix + path)
            &&& tried.contains(prefix + path + ".php"@)
            &&& path == "upload"@ ==> tried.contains(joined(own, seq!['/'])) && tried.contains(
                prefix + "upload.php"@,
            )
            &&& path != "upload"@ ==> tried.len() <= 3
        }),
{
    let own = nonempty(segments);
    let parent = own.drop_last();
    let prefix = if parent.len() == 0 {
        Seq::empty()
    } else {
        joined(parent, seq!['/']).push('/')
    };
    let beside = seq![path, prefix + path, prefix + path + ".php"@];
    let more = beside + seq![joined(own, seq!['/']), prefix + "upload.php"@];
    let all = if path == "upload"@ {
        more
    } else {
        beside
    };
    deduped_keeps_each_once(all);
    assert(all[0] == path && all[1] == prefix + path && all[2] == prefix + path + ".php"@);
    assert(all.contains(all[0]) && all.contains(all[1]) && all.contains(all[2]));
    if path == "upload"@ {
        assert(all[3] == joined(own, seq!['/']) && all[4] == prefix + "upload.php"@);
        assert(all.contains(all[3]) && all.contains(all[4]));
    }
}

} // verus!
