//! Tunnels through HTTP proxies.

use vstd::prelude::*;

use crate::text::{
    begins_with, decimal, find_char, first_index, from_chars, lossy_text, read_lossy, starts_with,
    the_first_place_is_the_first, to_chars, to_decimal,
};

verus! {

/// The most bytes of a response that are read before its end must have come: 16 KiB.
pub const MAX_RESPONSE_BYTES: usize = 16_384;

/// `host:port`.
pub open spec fn authority(host: Seq<char>, port: u16) -> Seq<char> {
    host + seq![':'] + decimal(port as int)
}

pub fn authority_text(host: &str, port: u16) -> (r: String)
    ensures
        r@ == authority(host@, port),
{
    let mut out = host.to_owned();
    out.push(':');
    out.append(to_decimal(port as u64).as_str());
    assert(out@ =~= authority(host@, port));
    out
}

/// The request for a tunnel to the target.
pub open spec fn connect_request(host: Seq<char>, port: u16) -> Seq<char> {
    "CONNECT "@ + authority(host, port) + " HTTP/1.1\r\nHost: "@ + authority(host, port)
        + "\r\nProxy-Connection: Keep-Alive\r\n\r\n"@
}

pub fn build_connect_request(host: &str, port: u16) -> (r: String)
    ensures
        r@ == connect_request(host@, port),
{
    let target = authority_text(host, port);
    let mut out = "CONNECT ".to_owned();
    out.append(target.as_str());
    out.append(" HTTP/1.1\r\nHost: ");
    out.append(target.as_str());
    out.append("\r\nProxy-Connection: Keep-Alive\r\n\r\n");
    assert(out@ =~= connect_request(host@, port));
    out
}

/// Whether the empty line that ends the headers stands at `at`.
pub open spec fn headers_end_at(response: Seq<u8>, at: int) -> bool {
    0 <= at && at + 4 <= response.len() && response[at] == 13 && response[at + 1] == 10
        && response[at + 2] == 13 && response[at + 3] == 10
}

/// Whether the headers are complete.
pub open spec fn headers_complete(response: Seq<u8>) -> bool {
    exists|at: int| headers_end_at(response, at)
}

/// What the response so far calls for.
#[derive(Debug)]
pub enum ConnectStep {
    ReadMore,
    /// The tunnel is open.
    Open,
    /// The proxy closed the connection too early.
    Closed,
    /// The headers do not end.
    TooLarge,
    /// The proxy refuses, with this status line.
    Refused(String),
}

/// The first line of a text, without the characters that end it.
pub open spec fn first_line(text: Seq<char>) -> Seq<char> {
    match first_index(text, '\n', 0) {
        Some(at) => if at > 0 && text[at - 1] == '\r' {
            text.take(at - 1)
        } else {
            text.take(at)
        },
        None => text,
    }
}

/// Whether a status line grants the tunnel.
pub open spec fn granted(status: Seq<char>) -> bool {
    begins_with(status, "HTTP/1.1 200"@) || begins_with(status, "HTTP/1.0 200"@)
}

/// Whether a complete response opens the tunnel, and if not its status line.
pub fn judge_response(text: &str) -> (r: Result<(), String>)
    ensures
        match r {
            Ok(()) => granted(first_line(text@)),
            Err(status) => !granted(first_line(text@)) && status@ == first_line(text@),
        },
{
    let chars = to_chars(text);
    let line: Vec<char> = match find_char(&chars, '\n', 0) {
        Some(at) => {
            let end: usize = if at > 0 && chars[at - 1] == '\r' {
                at - 1
            } else {
                at
            };
            let head = from_chars(&chars, 0, end);
            assert(head@ =~= first_line(text@));
            to_chars(head.as_str())
        },
        None => chars,
    };
    if starts_with(&line, "HTTP/1.1 200") || starts_with(&line, "HTTP/1.0 200") {
        return Ok(());
    }
    let status = from_chars(&line, 0, line.len());
    assert(status@ =~= line@);
    Err(status)
}

fn ends_headers(response: &Vec<u8>) -> (r: bool)
    ensures
        r == headers_complete(response@),
{
    let mut at: usize = 0;
    while at < response.len() && response.len() - at >= 4
        invariant
            at <= response.len(),
            forall|k: int| 0 <= k < at ==> !headers_end_at(response@, k),
        decreases response.len() - at,
    {
        if response[at] == 13 && response[at + 1] == 10 && response[at + 2] == 13 && response[at
            + 3] == 10 {
            assert(headers_end_at(response@, at as int));
            return true;
        }
        at = at + 1;
    }
    false
}

/// Takes the bytes of the response into account of which the last read brought `read`.
pub fn on_response(response: &Vec<u8>, read: usize) -> (step: ConnectStep)
    ensures
        match step {
            ConnectStep::Closed => read == 0,
            ConnectStep::ReadMore => read > 0 && !headers_complete(response@) && response.len()
                <= MAX_RESPONSE_BYTES,
            ConnectStep::TooLarge => read > 0 && !headers_complete(response@) && response.len()
                > MAX_RESPONSE_BYTES,
            ConnectStep::Open => read > 0 && headers_complete(response@) && granted(
                first_line(lossy_text(response@)),
            ),
            ConnectStep::Refused(status) => read > 0 && headers_complete(response@) && !granted(
                first_line(lossy_text(response@)),
            ) && status@ == first_line(lossy_text(response@)),
        },
{
    if read == 0 {
        return ConnectStep::Closed;
    }
    if !ends_headers(response) {
        if response.len() > MAX_RESPONSE_BYTES {
            return ConnectStep::TooLarge;
        }
        return ConnectStep::ReadMore;
    }
    let text = read_lossy(response);
    match judge_response(text.as_str()) {
        Ok(()) => ConnectStep::Open,
        Err(status) => ConnectStep::Refused(status),
    }
}

/// The first line of a response is what stands before its line end.
pub proof fn the_first_line_ends_at_its_line_end(line: Seq<char>, rest: Seq<char>)
    requires
        !line.contains('\n'),
        line.len() > 0 ==> line.last() != '\r',
    ensures
        first_line(line + seq!['\r', '\n'] + rest) == line,
        first_line(line + seq!['\n'] + rest) == line,
        first_line(line) == line,
{
    let a = line + seq!['\r', '\n'] + rest;
    let b = line + seq!['\n'] + rest;
    let n = line.len() as int;
    assert forall|k: int| 0 <= k < n implies #[trigger] line[k] != '\n' by {
        assert(line.contains(line[k]));
    }
    the_first_place_is_the_first(a, '\n', 0);
    the_first_place_is_the_first(b, '\n', 0);
    the_first_place_is_the_first(line, '\n', 0);
    assert(a[n + 1] == '\n' && a[n] == '\r');
    assert(b[n] == '\n');
    let at = first_index(a, '\n', 0)->0;
    if at < n {
        assert(a[at] == line[at]);
    }
    let bt = first_index(b, '\n', 0)->0;
    if bt < n {
        assert(b[bt] == line[bt]);
    }
    assert(a.take(n) =~= line);
    assert(b.take(n) =~= line);
    if n > 0 {
        assert(b[n - 1] == line.last());
    }
    if first_index(line, '\n', 0) is Some {
        assert(line.contains(line[first_index(line, '\n', 0)->0]));
    }
}

/// The target is named in the request, by its host and its port.
pub proof fn requests_name_their_target(host: Seq<char>, port: u16)
    ensures
        begins_with(
            connect_request(host, port),
            "CONNECT "@ + host + seq![':'] + decimal(port as int),
        ),
{
    let front = "CONNECT "@ + host + seq![':'] + decimal(port as int);
    let all = connect_request(host, port);
    assert(all.take(front.len() as int) =~= front);
}

/// The headers end at the first empty line, wherever it stands; without a line end there is none.
pub proof fn headers_end_with_an_empty_line(headers: Seq<u8>, rest: Seq<u8>)
    ensures
        headers_complete(headers + seq![13u8, 10, 13, 10] + rest),
        !headers.contains(10u8) ==> !headers_complete(headers),
        headers.len() < 4 ==> !headers_complete(headers),
{
    let all = headers + seq![13u8, 10, 13, 10] + rest;
    assert(headers_end_at(all, headers.len() as int));
    if headers_complete(headers) {
        let at = choose|at: int| headers_end_at(headers, at);
        assert(headers.contains(headers[at + 1]));
    }
}

/// A tunnel is granted by the status 200 and by no other one.
pub proof fn only_success_grants(code: Seq<char>, rest: Seq<char>)
    requires
        code.len() == 3,
    ensures
        granted("HTTP/1.1 "@ + code + rest) <==> code == seq!['2', '0', '0'],
        granted("HTTP/1.0 "@ + code + rest) <==> code == seq!['2', '0', '0'],
{
    reveal_strlit("HTTP/1.1 ");
    reveal_strlit("HTTP/1.0 ");
    reveal_strlit("HTTP/1.1 200");
    reveal_strlit("HTTP/1.0 200");
    let a = "HTTP/1.1 "@ + code + rest;
    let b = "HTTP/1.0 "@ + code + rest;
    let good = seq!['2', '0', '0'];
    if code == good {
        assert(a.take(12) =~= "HTTP/1.1 200"@);
        assert(b.take(12) =~= "HTTP/1.0 200"@);
    } else {
        let k = choose|k: int| 0 <= k < 3 && code[k] != good[k];
        if forall|k: int| 0 <= k < 3 ==> code[k] == good[k] {
            assert(code =~= good);
        }
        assert(a.take(12)[9 + k] == code[k]);
        assert(b.take(12)[9 + k] == code[k]);
        assert(a.take(12)[7] == '1');
        assert(b.take(12)[7] == '0');
        assert("HTTP/1.1 200"@[9 + k] == good[k]);
        assert("HTTP/1.0 200"@[9 + k] == good[k]);
    }
}

} // verus!
