//! Transfers in HTTP requests.

use vstd::prelude::*;
use vstd::utf8::{char_is_scalar, encode_scalar, encode_utf8};

use crate::clock::now_nanos_wide;
use crate::num::whole::least;
use crate::speedtest::browser_protocol::endpoints::{endpoint_urls, server_urls, EndpointFault};
use crate::speedtest::servers::SpeedtestServer;
use crate::text::{
    decimal, from_chars, hexadecimal, hexadecimals_read_back, to_chars, to_decimal, to_hexadecimal,
    views,
};
use crate::urls::{
    append_query, pairs_of, query_weight, url_with_query, MAX_URL_CHARS,
};

verus! {

/// Why a request failed.
#[derive(Clone, Copy, Debug, PartialEq, Eq, Structural)]
pub enum TransferRequestError {
    HttpStatus,
    Transport,
    ResponseRead,
    InvalidEndpoint,
}

impl TransferRequestError {
    pub open spec fn text(self) -> Seq<char> {
        match self {
            TransferRequestError::HttpStatus => "HTTP status error"@,
            TransferRequestError::Transport => "request transport error"@,
            TransferRequestError::ResponseRead => "response read error"@,
            TransferRequestError::InvalidEndpoint => "invalid endpoint"@,
        }
    }

    pub fn message(&self) -> (r: String)
        ensures
            r@ == self.text(),
    {
        match self {
            TransferRequestError::HttpStatus => "HTTP status error".to_owned(),
            TransferRequestError::Transport => "request transport error".to_owned(),
            TransferRequestError::ResponseRead => "response read error".to_owned(),
            TransferRequestError::InvalidEndpoint => "invalid endpoint".to_owned(),
        }
    }
}

/// The headers of every request.
pub open spec fn request_headers() -> Seq<(Seq<char>, Seq<char>)> {
    seq![
        ("Origin"@, "https://www.speedtest.net"@),
        ("Referer"@, "https://www.speedtest.net/"@),
        ("User-Agent"@, "Mozilla/5.0"@),
        ("Accept"@, "*/*"@),
        ("Accept-Language"@, "en-US,en;q=0.9"@),
        ("Cache-Control"@, "no-cache"@),
        ("Pragma"@, "no-cache"@),
    ]
}

pub open spec fn header_views(headers: Seq<(&'static str, &'static str)>) -> Seq<
    (Seq<char>, Seq<char>),
> {
    headers.map_values(|header: (&'static str, &'static str)| (header.0@, header.1@))
}

pub fn browser_headers() -> (r: Vec<(&'static str, &'static str)>)
    ensures
        header_views(r@) == request_headers(),
{
    let headers: Vec<(&'static str, &'static str)> = vec![
        ("Origin", "https://www.speedtest.net"),
        ("Referer", "https://www.speedtest.net/"),
        ("User-Agent", "Mozilla/5.0"),
        ("Accept", "*/*"),
        ("Accept-Language", "en-US,en;q=0.9"),
        ("Cache-Control", "no-cache"),
        ("Pragma", "no-cache"),
    ];
    assert(header_views(headers@) =~= request_headers());
    headers
}

/// The headers of a web socket: those of a request but for the page that refers to it.
pub fn websocket_headers() -> (r: Vec<(&'static str, &'static str)>)
    ensures
        header_views(r@) == request_headers().remove(1),
{
    let headers: Vec<(&'static str, &'static str)> = vec![
        ("Origin", "https://www.speedtest.net"),
        ("User-Agent", "Mozilla/5.0"),
        ("Accept", "*/*"),
        ("Accept-Language", "en-US,en;q=0.9"),
        ("Cache-Control", "no-cache"),
        ("Pragma", "no-cache"),
    ];
    assert(header_views(headers@) =~= request_headers().remove(1));
    headers
}

/// Each of the URLs with the pairs in its query; nothing where one of them cannot have them.
pub open spec fn with_queries(
    urls: Seq<Seq<char>>,
    pairs: Seq<(Seq<char>, Seq<char>)>,
) -> Option<Seq<Seq<char>>>
    decreases urls.len(),
{
    if urls.len() == 0 {
        Some(Seq::empty())
    } else {
        match (with_queries(urls.drop_last(), pairs), url_with_query(urls.last(), pairs)) {
            (Some(before), Some(url)) => if urls.last().len() + query_weight(pairs)
                <= MAX_URL_CHARS {
                Some(before.push(url))
            } else {
                None
            },
            _ => None,
        }
    }
}

fn pair_weight(pairs: &Vec<(String, String)>) -> (r: Option<u64>)
    ensures
        match r {
            Some(weight) => weight == query_weight(pairs_of(pairs@)) && weight <= MAX_URL_CHARS,
            None => query_weight(pairs_of(pairs@)) > MAX_URL_CHARS,
        },
{
    let ghost all = pairs_of(pairs@);
    let mut weight: u64 = 0;
    let mut i: usize = 0;
    assert(all.take(0) =~= Seq::<(Seq<char>, Seq<char>)>::empty());
    while i < pairs.len()
        invariant
            i <= pairs.len(),
            all == pairs_of(pairs@),
            weight == query_weight(all.take(i as int)),
            weight <= MAX_URL_CHARS,
        decreases pairs.len() - i,
    {
        let ghost next = all.take(i + 1);
        assert(next.drop_last() =~= all.take(i as int));
        assert(next.last() == (pairs[i as int].0@, pairs[i as int].1@));
        let name: usize = pairs[i].0.as_str().unicode_len();
        let value: usize = pairs[i].1.as_str().unicode_len();
        let sum: u128 = weight as u128 + name as u128 + value as u128 + 2;
        proof {
            lemma_weight_grows(all, i + 1, pairs.len() as int);
            assert(all.take(pairs.len() as int) =~= all);
        }
        if sum > MAX_URL_CHARS as u128 {
            return None;
        }
        weight = sum as u64;
        i = i + 1;
    }
    assert(all.take(i as int) =~= all);
    Some(weight)
}

proof fn lemma_weight_grows(pairs: Seq<(Seq<char>, Seq<char>)>, from: int, to: int)
    requires
        0 <= from <= to <= pairs.len(),
    ensures
        query_weight(pairs.take(from)) <= query_weight(pairs.take(to)),
    decreases to - from,
{
    if from < to {
        lemma_weight_grows(pairs, from, to - 1);
        assert(pairs.take(to).drop_last() =~= pairs.take(to - 1));
    }
}

/// The URLs to try for a request, each with the pairs in its query.
pub open spec fn requested_urls(
    server: SpeedtestServer,
    path: Seq<char>,
    pairs: Seq<(Seq<char>, Seq<char>)>,
) -> Option<Seq<Seq<char>>> {
    match server_urls(server, path) {
        Ok(urls) => with_queries(urls, pairs),
        Err(_) => None,
    }
}

fn add_queries(urls: &Vec<String>, pairs: &Vec<(String, String)>) -> (r: Option<Vec<String>>)
    ensures
        match r {
            Some(list) => with_queries(views(urls@), pairs_of(pairs@)) == Some(views(list@)),
            None => with_queries(views(urls@), pairs_of(pairs@)) is None,
        },
{
    let ghost all = views(urls@);
    let ghost query = pairs_of(pairs@);
    let mut out: Vec<String> = Vec::new();
    let mut i: usize = 0;
    assert(all.take(0) =~= Seq::<Seq<char>>::empty());
    assert(views(out@) =~= Seq::<Seq<char>>::empty());
    while i < urls.len()
        invariant
            i <= urls.len(),
            all == views(urls@),
            query == pairs_of(pairs@),
            with_queries(all.take(i as int), query) == Some(views(out@)),
        decreases urls.len() - i,
    {
        let ghost before = views(out@);
        proof {
            assert(all.take(i + 1).drop_last() =~= all.take(i as int));
            assert(all.take(i + 1).last() == urls[i as int]@);
            lemma_queries_stay_missing(all, query, i + 1);
        }
        let length: usize = urls[i].as_str().unicode_len();
        let fits: bool = match pair_weight(pairs) {
            Some(weight) => length as u128 + weight as u128 <= MAX_URL_CHARS as u128,
            None => false,
        };
        if !fits {
            assert(with_queries(all.take(i + 1), query) is None);
            return None;
        }
        match append_query(urls[i].as_str(), pairs) {
            Some(url) => {
                out.push(url);
                assert(views(out@) =~= before.push(url@));
            },
            None => {
                assert(with_queries(all.take(i + 1), query) is None);
                return None;
            },
        }
        i = i + 1;
    }
    assert(all.take(i as int) =~= all);
    Some(out)
}

proof fn lemma_queries_stay_missing(
    urls: Seq<Seq<char>>,
    pairs: Seq<(Seq<char>, Seq<char>)>,
    from: int,
)
    requires
        0 <= from <= urls.len(),
    ensures
        with_queries(urls.take(from), pairs) is None ==> with_queries(urls, pairs) is None,
    decreases urls.len() - from,
{
    if from < urls.len() {
        lemma_queries_stay_missing(urls, pairs, from + 1);
        assert(urls.take(from + 1).drop_last() =~= urls.take(from));
    } else {
        assert(urls.take(from) =~= urls);
    }
}

/// The URLs to try for a request.
pub fn request_urls(
    server: &SpeedtestServer,
    path: &str,
    pairs: &Vec<(String, String)>,
) -> (r: Result<Vec<String>, TransferRequestError>)
    ensures
        match r {
            Ok(urls) => requested_urls(*server, path@, pairs_of(pairs@)) == Some(views(urls@)),
            Err(error) => requested_urls(*server, path@, pairs_of(pairs@)) is None && error
                == TransferRequestError::InvalidEndpoint,
        },
{
    match endpoint_urls(server, path) {
        Ok(urls) => match add_queries(&urls, pairs) {
            Some(list) => Ok(list),
            None => Err(TransferRequestError::InvalidEndpoint),
        },
        Err(_) => Err(TransferRequestError::InvalidEndpoint),
    }
}

/// The query of a download.
pub open spec fn size_query(size: int) -> Seq<(Seq<char>, Seq<char>)> {
    seq![("size"@, decimal(size))]
}

pub fn download_query(size: usize) -> (r: Vec<(String, String)>)
    ensures
        pairs_of(r@) == size_query(size as int),
{
    let mut pairs: Vec<(String, String)> = Vec::new();
    pairs.push(("size".to_owned(), to_decimal(size as u64)));
    assert(pairs_of(pairs@) =~= size_query(size as int));
    pairs
}

/// The URLs to try for a download of `size` bytes.
pub fn download_urls(server: &SpeedtestServer, size: usize) -> (r: Result<
    Vec<String>,
    TransferRequestError,
>)
    ensures
        match r {
            Ok(urls) => requested_urls(*server, "download"@, size_query(size as int)) == Some(
                views(urls@),
            ),
            Err(error) => requested_urls(*server, "download"@, size_query(size as int)) is None
                && error == TransferRequestError::InvalidEndpoint,
        },
{
    request_urls(server, "download", &download_query(size))
}

/// The query of a download in a session.
pub open spec fn session_pairs(token: Seq<char>, size: int, guid: Seq<char>) -> Seq<
    (Seq<char>, Seq<char>),
> {
    seq![("nocache"@, token), ("size"@, decimal(size)), ("guid"@, guid)]
}

pub fn session_download_query(token: &str, size: usize, guid: &str) -> (r: Vec<(String, String)>)
    ensures
        pairs_of(r@) == session_pairs(token@, size as int, guid@),
{
    let mut pairs: Vec<(String, String)> = Vec::new();
    pairs.push(("nocache".to_owned(), token.to_owned()));
    pairs.push(("size".to_owned(), to_decimal(size as u64)));
    pairs.push(("guid".to_owned(), guid.to_owned()));
    assert(pairs_of(pairs@) =~= session_pairs(token@, size as int, guid@));
    pairs
}

/// The URLs to try for an upload.
pub fn upload_urls(server: &SpeedtestServer) -> (r: Result<Vec<String>, TransferRequestError>)
    ensures
        match r {
            Ok(urls) => server_urls(*server, "upload"@) == Ok::<Seq<Seq<char>>, EndpointFault>(
                views(urls@),
            ),
            Err(error) => server_urls(*server, "upload"@) is Err && error
                == TransferRequestError::InvalidEndpoint,
        },
{
    match endpoint_urls(server, "upload") {
        Ok(urls) => Ok(urls),
        Err(_) => Err(TransferRequestError::InvalidEndpoint),
    }
}

/// A token that keeps answers from being cached: a time and a count.
pub open spec fn nocache_text(nanos: int, counter: int) -> Seq<char> {
    hexadecimal(nanos) + seq!['-'] + hexadecimal(counter)
}

pub fn nocache_token(nanos: u128, counter: u64) -> (r: String)
    ensures
        r@ == nocache_text(nanos as int, counter as int),
{
    let mut out = to_hexadecimal(nanos);
    out.push('-');
    out.append(to_hexadecimal(counter as u128).as_str());
    assert(out@ =~= nocache_text(nanos as int, counter as int));
    out
}

/// The token for the `counter`-th request, at this time.
pub fn next_nocache_token(counter: u64) -> (r: String)
    ensures
        exists|nanos: u128| r@ == #[trigger] nocache_text(nanos as int, counter as int),
{
    nocache_token(now_nanos_wide(), counter)
}

/// The query of an empty request, which measures the time to the server and back.
pub open spec fn hello_pairs(token: Seq<char>, guid: Seq<char>) -> Seq<(Seq<char>, Seq<char>)> {
    seq![("nocache"@, token), ("guid"@, guid)]
}

pub fn hello_query(token: &str, guid: &str) -> (r: Vec<(String, String)>)
    ensures
        pairs_of(r@) == hello_pairs(token@, guid@),
{
    let mut pairs: Vec<(String, String)> = Vec::new();
    pairs.push(("nocache".to_owned(), token.to_owned()));
    pairs.push(("guid".to_owned(), guid.to_owned()));
    assert(pairs_of(pairs@) =~= hello_pairs(token@, guid@));
    pairs
}

/// How a request to one URL ended.
#[derive(Clone, Copy, Debug, PartialEq, Eq, Structural)]
pub enum RequestOutcome {
    /// It could not be sent.
    NotSent,
    /// The server answered with an error.
    Refused,
    /// So many bytes came or went, and the answer was read to its end or not.
    Answered { bytes: u64, complete: bool },
}

/// Requests to one URL after the other until one succeeds.
#[derive(Clone, Copy, Debug, PartialEq, Eq, Structural)]
pub struct RequestAttempts {
    pub last_error: Option<TransferRequestError>,
}

/// The bytes that a download of any length counts with, where it counts.
pub open spec fn downloaded(outcome: RequestOutcome) -> Option<u64> {
    match outcome {
        RequestOutcome::Answered { bytes, complete } => if complete || bytes > 0 {
            Some(bytes)
        } else {
            None
        },
        _ => None,
    }
}

/// The bytes that a download of an announced length counts with, where it counts.
pub open spec fn downloaded_whole(outcome: RequestOutcome, announced: Option<u64>) -> Option<u64> {
    match outcome {
        RequestOutcome::Answered { bytes, complete } => if bytes > 0 {
            Some(bytes)
        } else if !complete && announced is Some && announced->0 > 0 {
            announced
        } else {
            None
        },
        _ => None,
    }
}

/// The bytes that an upload counts with, where it counts.
pub open spec fn uploaded(outcome: RequestOutcome) -> Option<u64> {
    match outcome {
        RequestOutcome::Answered { bytes, complete } => if complete {
            Some(bytes)
        } else {
            None
        },
        _ => None,
    }
}

impl RequestAttempts {
    pub fn new() -> (r: RequestAttempts)
        ensures
            r.last_error is None,
    {
        RequestAttempts { last_error: None }
    }

    /// Takes a download into account. Bytes that came count even if the answer broke off.
    pub fn on_download(&mut self, outcome: RequestOutcome) -> (done: Option<u64>)
        ensures
            done == downloaded(outcome),
            match outcome {
                RequestOutcome::NotSent => done is None && final(self).last_error == Some(
                    TransferRequestError::Transport,
                ),
                RequestOutcome::Refused => done is None && final(self).last_error == Some(
                    TransferRequestError::HttpStatus,
                ),
                RequestOutcome::Answered { bytes, complete } => if complete || bytes > 0 {
                    done == Some(bytes) && *final(self) == *old(self)
                } else {
                    done is None && final(self).last_error == Some(
                        TransferRequestError::ResponseRead,
                    )
                },
            },
    {
        match outcome {
            RequestOutcome::NotSent => {
                self.last_error = Some(TransferRequestError::Transport);
                None
            },
            RequestOutcome::Refused => {
                self.last_error = Some(TransferRequestError::HttpStatus);
                None
            },
            RequestOutcome::Answered { bytes, complete } => {
                if complete || bytes > 0 {
                    return Some(bytes);
                }
                self.last_error = Some(TransferRequestError::ResponseRead);
                None
            },
        }
    }

    /// Takes a download into account for which nothing is counted while it runs. Where the answer
    /// broke off before any byte came, the length that it announced stands for it; an answer
    /// without any byte is passed over.
    pub fn on_whole_download(
        &mut self,
        outcome: RequestOutcome,
        announced: Option<u64>,
    ) -> (done: Option<u64>)
        ensures
            done == downloaded_whole(outcome, announced),
            match outcome {
                RequestOutcome::NotSent => done is None && final(self).last_error == Some(
                    TransferRequestError::Transport,
                ),
                RequestOutcome::Refused => done is None && final(self).last_error == Some(
                    TransferRequestError::HttpStatus,
                ),
                RequestOutcome::Answered { bytes, complete } => if bytes > 0 {
                    done == Some(bytes) && *final(self) == *old(self)
                } else if complete {
                    done is None && *final(self) == *old(self)
                } else if announced is Some && announced->0 > 0 {
                    done == announced && *final(self) == *old(self)
                } else {
                    done is None && final(self).last_error == Some(
                        TransferRequestError::ResponseRead,
                    )
                },
            },
    {
        match outcome {
            RequestOutcome::NotSent => {
                self.last_error = Some(TransferRequestError::Transport);
                None
            },
            RequestOutcome::Refused => {
                self.last_error = Some(TransferRequestError::HttpStatus);
                None
            },
            RequestOutcome::Answered { bytes, complete } => {
                if bytes > 0 {
                    return Some(bytes);
                }
                if complete {
                    return None;
                }
                if let Some(length) = announced {
                    if length > 0 {
                        return Some(length);
                    }
                }
                self.last_error = Some(TransferRequestError::ResponseRead);
                None
            },
        }
    }

    /// Takes an upload into account. It counts only if the answer was read to its end.
    pub fn on_upload(&mut self, outcome: RequestOutcome) -> (done: Option<u64>)
        ensures
            done == uploaded(outcome),
            match outcome {
                RequestOutcome::NotSent => done is None && final(self).last_error == Some(
                    TransferRequestError::Transport,
                ),
                RequestOutcome::Refused => done is None && final(self).last_error == Some(
                    TransferRequestError::HttpStatus,
                ),
                RequestOutcome::Answered { bytes, complete } => if complete {
                    done == Some(bytes) && *final(self) == *old(self)
                } else {
                    done is None && final(self).last_error == Some(
                        TransferRequestError::ResponseRead,
                    )
                },
            },
    {
        match outcome {
            RequestOutcome::NotSent => {
                self.last_error = Some(TransferRequestError::Transport);
                None
            },
            RequestOutcome::Refused => {
                self.last_error = Some(TransferRequestError::HttpStatus);
                None
            },
            RequestOutcome::Answered { bytes, complete } => {
                if complete {
                    return Some(bytes);
                }
                self.last_error = Some(TransferRequestError::ResponseRead);
                None
            },
        }
    }

    /// The error once every URL has been tried: that of the last one.
    pub fn failure(&self) -> (r: TransferRequestError)
        ensures
            r == match self.last_error {
                Some(error) => error,
                None => TransferRequestError::InvalidEndpoint,
            },
    {
        match self.last_error {
            Some(error) => error,
            None => TransferRequestError::InvalidEndpoint,
        }
    }
}

/// The most bytes of an upload that are handed over at once: 32 KiB.
pub const UPLOAD_CHUNK_BYTES: usize = 32_768;

/// The end of the chunk that starts at `offset`, if anything is left there.
pub open spec fn chunk_after(offset: int, length: int) -> Option<int> {
    if offset >= length {
        None
    } else {
        Some(least(offset + UPLOAD_CHUNK_BYTES, length))
    }
}

pub fn chunk_end(offset: usize, length: usize) -> (r: Option<usize>)
    ensures
        match r {
            Some(end) => chunk_after(offset as int, length as int) == Some(end as int) && offset
                < end <= length,
            None => chunk_after(offset as int, length as int) is None,
        },
{
    if offset >= length {
        return None;
    }
    if length - offset > UPLOAD_CHUNK_BYTES {
        Some(offset + UPLOAD_CHUNK_BYTES)
    } else {
        Some(length)
    }
}

/// The bytes that chunks hand over from `offset` on.
pub open spec fn chunked_bytes(offset: int, length: int) -> int
    decreases length - offset,
{
    match chunk_after(offset, length) {
        Some(end) => (end - offset) + chunked_bytes(end, length),
        None => 0,
    }
}

/// The chunks of an upload make up all of it.
pub proof fn chunks_cover_the_payload(offset: int, length: int)
    requires
        0 <= offset <= length,
    ensures
        chunked_bytes(offset, length) == length - offset,
    decreases length - offset,
{
    if let Some(end) = chunk_after(offset, length) {
        chunks_cover_the_payload(end, length);
    }
}

/// The bytes that a character takes in UTF-8.
pub open spec fn char_width(c: char) -> int {
    if (c as int) < 0x80 {
        1
    } else if (c as int) < 0x800 {
        2
    } else if (c as int) < 0x1_0000 {
        3
    } else {
        4
    }
}

fn width_of(c: char) -> (r: usize)
    ensures
        r == char_width(c),
        1 <= r <= 4,
{
    let code: u32 = c as u32;
    if code < 0x80 {
        1
    } else if code < 0x800 {
        2
    } else if code < 0x1_0000 {
        3
    } else {
        4
    }
}

/// The bytes that a text takes in UTF-8.
pub open spec fn text_width(text: Seq<char>) -> int
    decreases text.len(),
{
    if text.len() == 0 {
        0
    } else {
        text_width(text.drop_last()) + char_width(text.last())
    }
}

/// The most bytes of an answer that are logged.
pub const MAX_LOG_BYTES: usize = 1_024;

/// Whether `shown` stands for the text in a log: the text itself, or as much of its start as the
/// log takes and three dots.
pub open spec fn is_log_text(text: Seq<char>, shown: Seq<char>) -> bool {
    if text_width(text) <= MAX_LOG_BYTES {
        shown == text
    } else {
        exists|n: int|
            0 <= n < text.len() && shown == #[trigger] text.take(n) + "..."@ && text_width(
                text.take(n),
            ) <= MAX_LOG_BYTES < text_width(text.take(n + 1))
    }
}

proof fn lemma_width_grows(text: Seq<char>, from: int, to: int)
    requires
        0 <= from <= to <= text.len(),
    ensures
        text_width(text.take(from)) <= text_width(text.take(to)),
    decreases to - from,
{
    if from < to {
        lemma_width_grows(text, from, to - 1);
        assert(text.take(to).drop_last() =~= text.take(to - 1));
    }
}

pub fn truncate_for_log(body: &str) -> (r: String)
    ensures
        is_log_text(body@, r@),
{
    let chars = to_chars(body);
    let mut width: usize = 0;
    let mut n: usize = 0;
    assert(chars@.take(0) =~= Seq::<char>::empty());
    while n < chars.len()
        invariant
            n <= chars.len(),
            chars@ == body@,
            width == text_width(chars@.take(n as int)),
            width <= MAX_LOG_BYTES,
        decreases chars.len() - n,
    {
        assert(chars@.take(n + 1).drop_last() =~= chars@.take(n as int));
        assert(chars@.take(n + 1).last() == chars@[n as int]);
        let own: usize = width_of(chars[n]);
        if width + own > MAX_LOG_BYTES {
            proof {
                lemma_width_grows(chars@, n + 1, chars.len() as int);
                assert(chars@.take(chars.len() as int) =~= chars@);
            }
            let mut out = from_chars(&chars, 0, n);
            assert(out@ =~= chars@.take(n as int));
            out.append("...");
            return out;
        }
        width = width + own;
        n = n + 1;
    }
    assert(chars@.take(n as int) =~= chars@);
    body.to_owned()
}

proof fn lemma_char_width(c: char)
    ensures
        encode_scalar(c as u32).len() == char_width(c),
{
    char_is_scalar(c);
}

proof fn lemma_widths(text: Seq<char>)
    ensures
        text_width(text) == encode_utf8(text).len(),
    decreases text.len(),
{
    if text.len() > 0 {
        lemma_widths(text.drop_first());
        lemma_width_of_sum(seq![text[0]], text.drop_first());
        assert(seq![text[0]] + text.drop_first() =~= text);
        assert(seq![text[0]].drop_last() =~= Seq::empty());
        assert(text_width(seq![text[0]].drop_last()) == 0);
        assert(text_width(seq![text[0]]) == char_width(text[0]));
        lemma_char_width(text[0]);
    }
}

proof fn lemma_width_of_sum(a: Seq<char>, b: Seq<char>)
    ensures
        text_width(a + b) == text_width(a) + text_width(b),
    decreases b.len(),
{
    if b.len() > 0 {
        lemma_width_of_sum(a, b.drop_last());
        assert((a + b).drop_last() =~= a + b.drop_last());
    } else {
        assert(a + b =~= a);
    }
}

/// What is logged of a text is the whole text, or a front of it that is marked as cut. It takes no
/// more bytes than the limit and the mark.
pub proof fn long_texts_are_cut(text: Seq<char>, shown: Seq<char>)
    requires
        is_log_text(text, shown),
    ensures
        encode_utf8(text).len() <= MAX_LOG_BYTES ==> shown == text,
        encode_utf8(text).len() > MAX_LOG_BYTES ==> {
            &&& 3 <= shown.len() < text.len() + 3
            &&& shown.skip(shown.len() - 3) == seq!['.', '.', '.']
            &&& shown.take(shown.len() - 3) == text.take(shown.len() - 3)
            &&& encode_utf8(text.take(shown.len() - 3)).len() <= MAX_LOG_BYTES
            &&& encode_utf8(text.take(shown.len() - 2)).len() > MAX_LOG_BYTES
        },
{
    lemma_widths(text);
    if encode_utf8(text).len() > MAX_LOG_BYTES {
        reveal_strlit("...");
        let n = choose|n: int|
            0 <= n < text.len() && shown == #[trigger] text.take(n) + "..."@ && text_width(
                text.take(n),
            ) <= MAX_LOG_BYTES < text_width(text.take(n + 1));
        lemma_widths(text.take(n));
        lemma_widths(text.take(n + 1));
        assert(shown.skip(n) =~= seq!['.', '.', '.']);
        assert(shown.take(n) =~= text.take(n));
        assert(shown.len() == n + 3);
    }
}

/// Each address is asked with the same query, in its order.
pub proof fn every_address_gets_the_query(
    urls: Seq<Seq<char>>,
    pairs: Seq<(Seq<char>, Seq<char>)>,
    i: int,
)
    requires
        0 <= i < urls.len(),
        with_queries(urls, pairs) is Some,
    ensures
        with_queries(urls, pairs)->0.len() == urls.len(),
        url_with_query(urls[i], pairs) == Some(with_queries(urls, pairs)->0[i]),
    decreases urls.len(),
{
    let before = urls.drop_last();
    reveal_with_fuel(with_queries, 2);
    if before.len() > 0 {
        every_address_gets_the_query(
            before,
            pairs,
            if i < before.len() {
                i
            } else {
                0
            },
        );
    }
}

/// Requests that are made at one time carry different tokens.
pub proof fn tokens_differ_by_their_count(nanos: int, a: int, b: int)
    requires
        0 <= nanos,
        0 <= a,
        0 <= b,
        nocache_text(nanos, a) == nocache_text(nanos, b),
    ensures
        a == b,
{
    let front = hexadecimal(nanos) + seq!['-'];
    let n = front.len() as int;
    assert(nocache_text(nanos, a).skip(n) =~= hexadecimal(a));
    assert(nocache_text(nanos, b).skip(n) =~= hexadecimal(b));
    hexadecimals_read_back(a);
    hexadecimals_read_back(b);
}

/// A request counts with the bytes that it moved. A download that was cut off counts with what came,
/// an upload only as a whole, and one that was not answered does not count.
pub proof fn requests_count_with_what_they_moved(
    bytes: u64,
    complete: bool,
    announced: Option<u64>,
)
    requires
        bytes > 0,
    ensures
        downloaded(RequestOutcome::Answered { bytes, complete }) == Some(bytes),
        downloaded_whole(RequestOutcome::Answered { bytes, complete }, announced) == Some(bytes),
        uploaded(RequestOutcome::Answered { bytes, complete: true }) == Some(bytes),
        uploaded(RequestOutcome::Answered { bytes, complete: false }) is None,
        downloaded(RequestOutcome::Answered { bytes: 0, complete: false }) is None,
        downloaded_whole(RequestOutcome::Answered { bytes: 0, complete: false }, Some(bytes))
            == Some(bytes),
        downloaded_whole(RequestOutcome::Answered { bytes: 0, complete: true }, announced) is None,
        downloaded(RequestOutcome::NotSent) is None && downloaded(RequestOutcome::Refused) is None,
        uploaded(RequestOutcome::NotSent) is None && uploaded(RequestOutcome::Refused) is None,
        downloaded_whole(RequestOutcome::NotSent, announced) is None,
        downloaded_whole(RequestOutcome::Refused, announced) is None,
{
}

} // verus!
