//! What is printed at the end.
//!
//! Numbers with decimals come in as texts; what stands around them, and in which colour, is decided
//! here.

use vstd::prelude::*;

use crate::iperf::schema::{IperfDirectionOut, IperfJsonV1, IperfProtocolOut};
use crate::model::{BenchmarkResult, ClientMeta, RunResult, Server};
use crate::num::fraction::Fraction;
use crate::num::scalar::Scalar;
use crate::text::{
    decimal, holds, pad_right, padded, padding_keeps_the_text, sums_hold_what_their_parts_hold,
    texts_hold_their_parts, to_decimal, views,
};

verus! {

/// Whether texts are coloured.
#[derive(Clone, Copy, Debug, PartialEq, Eq, Structural)]
pub struct Theme {
    pub color: bool,
}

/// A text in a colour.
pub open spec fn painted(theme: Theme, text: Seq<char>, code: Seq<char>) -> Seq<char> {
    if theme.color {
        "\x1b["@ + code + "m"@ + text + "\x1b[0m"@
    } else {
        text
    }
}

pub open spec fn as_section(theme: Theme, text: Seq<char>) -> Seq<char> {
    painted(theme, text, "1;36"@)
}

pub open spec fn as_key(theme: Theme, text: Seq<char>) -> Seq<char> {
    painted(theme, text, "1;34"@)
}

pub open spec fn as_muted(theme: Theme, text: Seq<char>) -> Seq<char> {
    painted(theme, text, "2"@)
}

pub open spec fn as_badge(theme: Theme, text: Seq<char>, code: Seq<char>) -> Seq<char> {
    painted(theme, "["@ + text + "]"@, code)
}

impl Theme {
    pub fn paint(&self, text: &str, code: &str) -> (r: String)
        ensures
            r@ == painted(*self, text@, code@),
    {
        if !self.color {
            return text.to_owned();
        }
        let mut out = "\x1b[".to_owned();
        out.append(code);
        out.append("m");
        out.append(text);
        out.append("\x1b[0m");
        out
    }

    pub fn section(&self, text: &str) -> (r: String)
        ensures
            r@ == as_section(*self, text@),
    {
        self.paint(text, "1;36")
    }

    pub fn key(&self, text: &str) -> (r: String)
        ensures
            r@ == as_key(*self, text@),
    {
        self.paint(text, "1;34")
    }

    pub fn muted(&self, text: &str) -> (r: String)
        ensures
            r@ == as_muted(*self, text@),
    {
        self.paint(text, "2")
    }

    pub fn badge(&self, text: &str, color: &str) -> (r: String)
        ensures
            r@ == as_badge(*self, text@, color@),
    {
        let mut inner = "[".to_owned();
        inner.append(text);
        inner.append("]");
        self.paint(inner.as_str(), color)
    }
}

/// 1000 as a number in binary.
pub const THOUSAND_BITS: u64 = 0x408f_4000_0000_0000;

/// 250 as a number in binary.
pub const QUARTER_THOUSAND_BITS: u64 = 0x406f_4000_0000_0000;

/// 50 as a number in binary.
pub const FIFTY_BITS: u64 = 0x4049_0000_0000_0000;

/// The colour of a speed that is at least a thousand, 250 or 50 megabits per second, or less.
pub open spec fn speed_color(thousand: bool, quarter: bool, fifty: bool) -> Seq<char> {
    if thousand {
        "1;32"@
    } else if quarter {
        "32"@
    } else if fifty {
        "33"@
    } else {
        "31"@
    }
}

/// Whether a number reaches another one.
pub open spec fn reaches(mbps: Scalar, bits: u64) -> bool {
    !mbps.not_a_number() && mbps.order() >= bits
}

pub open spec fn color_of_speed(mbps: Scalar) -> Seq<char> {
    speed_color(
        reaches(mbps, THOUSAND_BITS),
        reaches(mbps, QUARTER_THOUSAND_BITS),
        reaches(mbps, FIFTY_BITS),
    )
}

fn at_least(mbps: Scalar, bits: u64) -> (r: bool)
    requires
        bits < 0x7ff0_0000_0000_0000,
    ensures
        r == reaches(mbps, bits),
{
    !mbps.is_less(Scalar { bits }) && !is_nan(mbps)
}

fn is_nan(value: Scalar) -> (r: bool)
    ensures
        r == value.not_a_number(),
{
    value.bits % 0x8000_0000_0000_0000 > 0x7ff0_0000_0000_0000
}

pub fn throughput_color(mbps: Scalar) -> (r: &'static str)
    ensures
        r@ == color_of_speed(mbps),
{
    if at_least(mbps, THOUSAND_BITS) {
        "1;32"
    } else if at_least(mbps, QUARTER_THOUSAND_BITS) {
        "32"
    } else if at_least(mbps, FIFTY_BITS) {
        "33"
    } else {
        "31"
    }
}

pub open spec fn color_of_share(mbps: Fraction) -> Seq<char> {
    speed_color(
        mbps.num >= 1_000 * mbps.den,
        mbps.num >= 250 * mbps.den,
        mbps.num >= 50 * mbps.den,
    )
}

/// The colour of the speed of one server.
pub fn share_color(mbps: Fraction) -> (r: &'static str)
    ensures
        r@ == color_of_share(mbps),
{
    if !mbps.is_less(Fraction { num: 1_000, den: 1 }) {
        "1;32"
    } else if !mbps.is_less(Fraction { num: 250, den: 1 }) {
        "32"
    } else if !mbps.is_less(Fraction { num: 50, den: 1 }) {
        "33"
    } else {
        "31"
    }
}

/// The colour of a latency of `ns / parts` nanoseconds: up to 8 ms, up to 20 ms, or more.
pub open spec fn color_of_latency(ns: int, parts: int) -> Seq<char> {
    if ns <= 8_000_000 * parts {
        "1;32"@
    } else if ns <= 20_000_000 * parts {
        "33"@
    } else {
        "31"@
    }
}

pub fn latency_color(ns: Fraction) -> (r: &'static str)
    ensures
        r@ == color_of_latency(ns.num as int, ns.den as int),
{
    if !(Fraction { num: 8_000_000, den: 1 }).is_less(ns) {
        "1;32"
    } else if !(Fraction { num: 20_000_000, den: 1 }).is_less(ns) {
        "33"
    } else {
        "31"
    }
}

/// The colour of a jitter in microseconds.
pub fn jitter_color(us: u128) -> (r: &'static str)
    ensures
        r@ == color_of_latency(us * 1_000, 1),
{
    if us <= 8_000 {
        "1;32"
    } else if us <= 20_000 {
        "33"
    } else {
        "31"
    }
}

/// The unit of an amount of data, from bytes (0) to terabytes (4): the greatest one that the amount
/// has at least one of.
pub open spec fn unit_of(bytes: u64) -> int {
    if bytes < 1_000 {
        0
    } else if bytes < 1_000_000 {
        1
    } else if bytes < 1_000_000_000 {
        2
    } else if bytes < 1_000_000_000_000 {
        3
    } else {
        4
    }
}

pub fn byte_unit(bytes: u64) -> (r: usize)
    ensures
        r == unit_of(bytes),
{
    if bytes < 1_000 {
        0
    } else if bytes < 1_000_000 {
        1
    } else if bytes < 1_000_000_000 {
        2
    } else if bytes < 1_000_000_000_000 {
        3
    } else {
        4
    }
}

pub open spec fn unit_name(unit: int) -> Seq<char> {
    if unit == 0 {
        "B"@
    } else if unit == 1 {
        "KB"@
    } else if unit == 2 {
        "MB"@
    } else if unit == 3 {
        "GB"@
    } else {
        "TB"@
    }
}

/// An amount of data in its unit, of which `scaled` is the amount where it is not whole bytes.
pub open spec fn bytes_text(bytes: u64, scaled: Seq<char>) -> Seq<char> {
    if unit_of(bytes) == 0 {
        decimal(bytes as int) + " "@ + "B"@
    } else {
        scaled + " "@ + unit_name(unit_of(bytes))
    }
}

/// An amount of data in its unit. `scaled` is the amount in that unit with two decimals, which
/// whole bytes do not need.
pub fn format_bytes(bytes: u64, scaled: &str) -> (r: String)
    ensures
        r@ == bytes_text(bytes, scaled@),
{
    let unit: usize = byte_unit(bytes);
    let mut out = if unit == 0 {
        to_decimal(bytes)
    } else {
        scaled.to_owned()
    };
    out.append(" ");
    out.append(
        if unit == 0 {
            "B"
        } else if unit == 1 {
            "KB"
        } else if unit == 2 {
            "MB"
        } else if unit == 3 {
            "GB"
        } else {
            "TB"
        },
    );
    out
}

/// Whether a stage ended more than half a second before its time.
pub open spec fn ended_early(configured: u64, actual_ms: Option<u64>) -> bool {
    match actual_ms {
        Some(ms) => ms > 0 && ms + 500 < configured * 1_000,
        None => false,
    }
}

/// The seconds of a stage, of which `actual` are those that it took where it ended early.
pub open spec fn duration_text(configured: u64, actual_ms: Option<u64>, actual: Seq<char>) -> Seq<
    char,
> {
    if ended_early(configured, actual_ms) {
        actual + "s"@
    } else {
        decimal(configured as int) + "s"@
    }
}

/// The duration of a stage: the configured one, or the actual one where the stage ended early.
/// `actual` is the actual duration in seconds with one decimal.
pub fn format_stage_duration(configured: u64, actual_ms: Option<u64>, actual: &str) -> (r: String)
    ensures
        r@ == duration_text(configured, actual_ms, actual@),
{
    let early: bool = match actual_ms {
        Some(ms) => ms > 0 && (ms as u128) + 500 < configured as u128 * 1_000,
        None => false,
    };
    let mut out = if early {
        actual.to_owned()
    } else {
        to_decimal(configured)
    };
    out.append("s");
    out
}

/// The figures of a server as texts: kilometres, milliseconds and megabits per second with two
/// decimals, and the data scaled to its unit. A text counts only where its figure is known.
#[derive(Debug)]
pub struct ServerTexts {
    pub distance: String,
    pub latency: String,
    pub stddev: String,
    pub download_mbps: String,
    pub download_bytes: String,
}

/// The figures of a direction as texts: megabits per second, the data scaled to its unit, the
/// seconds that it took and the milliseconds of its latency.
#[derive(Debug)]
pub struct DirectionTexts {
    pub mbps: String,
    pub bytes: String,
    pub duration: String,
    pub latency: String,
}

/// The figures of a result as texts.
#[derive(Debug)]
pub struct HumanTexts {
    pub server: ServerTexts,
    pub pool: Vec<ServerTexts>,
    pub ping: String,
    pub jitter: String,
    pub download: DirectionTexts,
    pub upload: DirectionTexts,
}

fn put(out: &mut Vec<String>, line: String)
    ensures
        views(final(out)@) == views(old(out)@).push(line@),
{
    let ghost before = views(out@);
    out.push(line);
    assert(views(out@) =~= before.push(line@));
}

fn put_all(out: &mut Vec<String>, lines: &Vec<String>)
    ensures
        views(final(out)@) == views(old(out)@) + views(lines@),
{
    let ghost before = views(out@);
    let ghost all = views(lines@);
    let mut i: usize = 0;
    assert(before + all.take(0) =~= before);
    while i < lines.len()
        invariant
            i <= lines.len(),
            all == views(lines@),
            views(out@) == before + all.take(i as int),
        decreases lines.len() - i,
    {
        put(out, lines[i].clone());
        assert(all.take(i + 1) =~= all.take(i as int).push(lines[i as int]@));
        assert(before + all.take(i + 1) =~= (before + all.take(i as int)).push(lines[i as int]@));
        i = i + 1;
    }
    assert(all.take(i as int) =~= all);
}

pub open spec fn none() -> Seq<Seq<char>> {
    Seq::empty()
}

/// The lines before those of the server.
pub open spec fn head_lines(t: Theme, result: RunResult) -> Seq<Seq<char>> {
    none().push(as_section(t, "=== Speedtest Result ==="@)).push(
        as_key(t, "timestamp"@) + "  "@ + as_muted(t, result.timestamp@),
    ) + (match result.speedtest_api {
        Some(api) => none().push(as_key(t, "mode"@) + "       "@ + painted(t, api@, "1;35"@)),
        None => none(),
    }) + none().push(Seq::empty())
}

fn print_head(t: &Theme, result: &RunResult) -> (r: Vec<String>)
    ensures
        views(r@) == head_lines(*t, *result),
{
    let mut out: Vec<String> = Vec::new();
    assert(views(out@) =~= none());
    put(&mut out, t.section("=== Speedtest Result ==="));
    let mut line = t.key("timestamp");
    line.append("  ");
    line.append(t.muted(result.timestamp.as_str()).as_str());
    put(&mut out, line);
    if let Some(api) = &result.speedtest_api {
        let mut line = t.key("mode");
        line.append("       ");
        line.append(t.paint(api.as_str(), "1;35").as_str());
        put(&mut out, line);
    }
    put(&mut out, String::new());
    assert(views(out@) =~= head_lines(*t, *result));
    out
}

/// The latency of the selected server.
pub open spec fn latency_line(t: Theme, server: Server, texts: ServerTexts) -> Seq<Seq<char>> {
    match server.latency_ns {
        Some(ns) => none().push(
            "  "@ + as_key(t, "latency"@) + " "@ + painted(
                t,
                texts.latency@ + "ms"@,
                color_of_latency(ns.num as int, ns.den as int),
            ) + (if server.latency_stddev_ms is Some {
                " (std "@ + as_muted(t, texts.stddev@ + "ms"@) + ")"@
            } else {
                Seq::empty()
            }),
        ),
        None => none(),
    }
}

/// A line with a key and a value, set in.
pub open spec fn entry(t: Theme, key: Seq<char>, value: Seq<char>) -> Seq<char> {
    "  "@ + as_key(t, key) + " "@ + value
}

fn entry_line(t: &Theme, key: &str, value: &str) -> (r: String)
    ensures
        r@ == entry(*t, key@, value@),
{
    let mut line = "  ".to_owned();
    line.append(t.key(key).as_str());
    line.append(" ");
    line.append(value);
    line
}

/// The lines of the selected server.
pub open spec fn server_lines(t: Theme, server: Option<Server>, texts: ServerTexts) -> Seq<
    Seq<char>,
> {
    (match server {
        Some(s) => none().push(as_section(t, "Server"@)).push(
            entry(
                t,
                "id"@,
                painted(t, decimal(s.id as int), "1;37"@) + " ("@ + s.sponsor@ + ")"@,
            ),
        ).push(entry(t, "location"@, s.name@)).push(entry(t, "country"@, s.country@)).push(
            entry(t, "host"@, s.host@),
        ).push(entry(t, "distance"@, as_muted(t, texts.distance@ + " km"@))) + latency_line(
            t,
            s,
            texts,
        ),
        None => none().push(as_key(t, "server"@) + " "@ + as_muted(t, "not selected"@)),
    }) + none().push(Seq::empty())
}

fn print_server(t: &Theme, server: &Option<Server>, texts: &ServerTexts) -> (r: Vec<String>)
    ensures
        views(r@) == server_lines(*t, *server, *texts),
{
    let mut out: Vec<String> = Vec::new();
    assert(views(out@) =~= none());
    match server {
        Some(s) => {
            put(&mut out, t.section("Server"));
            let mut id = t.paint(to_decimal(s.id).as_str(), "1;37");
            id.append(" (");
            id.append(s.sponsor.as_str());
            id.append(")");
            put(&mut out, entry_line(t, "id", id.as_str()));
            put(&mut out, entry_line(t, "location", s.name.as_str()));
            put(&mut out, entry_line(t, "country", s.country.as_str()));
            put(&mut out, entry_line(t, "host", s.host.as_str()));
            let mut distance = texts.distance.clone();
            distance.append(" km");
            put(&mut out, entry_line(t, "distance", t.muted(distance.as_str()).as_str()));
            if let Some(ns) = s.latency_ns {
                let mut latency = texts.latency.clone();
                latency.append("ms");
                let mut line = "  ".to_owned();
                line.append(t.key("latency").as_str());
                line.append(" ");
                line.append(t.paint(latency.as_str(), latency_color(ns)).as_str());
                let mut suffix = String::new();
                if s.latency_stddev_ms.is_some() {
                    let mut stddev = texts.stddev.clone();
                    stddev.append("ms");
                    suffix = " (std ".to_owned();
                    suffix.append(t.muted(stddev.as_str()).as_str());
                    suffix.append(")");
                }
                line.append(suffix.as_str());
                put(&mut out, line);
            }
        },
        None => {
            let mut line = t.key("server");
            line.append(" ");
            line.append(t.muted("not selected").as_str());
            put(&mut out, line);
        },
    }
    put(&mut out, String::new());
    assert(views(out@) =~= server_lines(*t, *server, *texts));
    out
}

/// The latency of a server of the pool.
pub open spec fn pool_latency_text(server: Server, texts: ServerTexts) -> Seq<char> {
    if server.latency_ns is None {
        "lat n/a"@
    } else if server.latency_stddev_ms is Some {
        "lat "@ + texts.latency@ + "ms (std "@ + texts.stddev@ + "ms)"@
    } else {
        "lat "@ + texts.latency@ + "ms"@
    }
}

/// What came from a server of the pool.
pub open spec fn pool_download_text(t: Theme, server: Server, texts: ServerTexts) -> Seq<char> {
    match (server.download_avg_mbps, server.download_bytes) {
        (Some(mbps), Some(bytes)) => "dl "@ + painted(
            t,
            texts.download_mbps@ + "Mbps"@,
            color_of_share(mbps),
        ) + " / "@ + as_muted(t, bytes_text(bytes, texts.download_bytes@)),
        _ => "dl n/a"@,
    }
}

pub open spec fn pool_line(t: Theme, server: Server, texts: ServerTexts) -> Seq<char> {
    "  - id="@ + painted(t, decimal(server.id as int), "1;37"@) + " "@ + padded(server.name@, 14)
        + " "@ + padded(server.host@, 26) + " | "@ + pool_latency_text(server, texts) + " | "@
        + pool_download_text(t, server, texts)
}

fn print_pool_line(t: &Theme, server: &Server, texts: &ServerTexts) -> (r: String)
    ensures
        r@ == pool_line(*t, *server, *texts),
{
    let mut line = "  - id=".to_owned();
    line.append(t.paint(to_decimal(server.id).as_str(), "1;37").as_str());
    line.append(" ");
    line.append(pad_right(server.name.as_str(), 14).as_str());
    line.append(" ");
    line.append(pad_right(server.host.as_str(), 26).as_str());
    line.append(" | ");
    let mut latency = "lat ".to_owned();
    if server.latency_ns.is_none() {
        latency.append("n/a");
        proof {
            reveal_strlit("lat ");
            reveal_strlit("n/a");
            reveal_strlit("lat n/a");
            assert("lat "@ + "n/a"@ =~= "lat n/a"@);
        }
    } else {
        latency.append(texts.latency.as_str());
        if server.latency_stddev_ms.is_some() {
            latency.append("ms (std ");
            latency.append(texts.stddev.as_str());
            latency.append("ms)");
        } else {
            latency.append("ms");
        }
    }
    line.append(latency.as_str());
    line.append(" | ");
    match (server.download_avg_mbps, server.download_bytes) {
        (Some(mbps), Some(bytes)) => {
            let shown = format_bytes(bytes, texts.download_bytes.as_str());
            let mut speed = texts.download_mbps.clone();
            speed.append("Mbps");
            let mut download = "dl ".to_owned();
            download.append(t.paint(speed.as_str(), share_color(mbps)).as_str());
            download.append(" / ");
            download.append(t.muted(shown.as_str()).as_str());
            line.append(download.as_str());
        },
        _ => {
            line.append("dl n/a");
        },
    }
    line
}

pub open spec fn pool_entries(t: Theme, pool: Seq<Server>, texts: Seq<ServerTexts>) -> Seq<
    Seq<char>,
> {
    Seq::new(pool.len(), |i: int| pool_line(t, pool[i], texts[i]))
}

/// The lines of the pool, where there is one.
pub open spec fn pool_lines(
    t: Theme,
    pool: Option<Vec<Server>>,
    texts: Seq<ServerTexts>,
) -> Seq<Seq<char>> {
    match pool {
        Some(servers) => if servers.len() == 0 {
            none()
        } else {
            none().push(
                as_section(t, "Server Pool"@) + " "@ + as_muted(
                    t,
                    "("@ + decimal(servers.len() as int) + ")"@,
                ),
            ) + pool_entries(t, servers@, texts) + none().push(Seq::empty())
        },
        None => none(),
    }
}

fn print_pool(t: &Theme, pool: &Option<Vec<Server>>, texts: &Vec<ServerTexts>) -> (r: Vec<String>)
    requires
        pool matches Some(servers) ==> servers.len() == texts.len(),
    ensures
        views(r@) == pool_lines(*t, *pool, texts@),
{
    let mut out: Vec<String> = Vec::new();
    assert(views(out@) =~= none());
    if let Some(servers) = pool {
        if servers.len() > 0 {
            let mut count = "(".to_owned();
            count.append(to_decimal(servers.len() as u64).as_str());
            count.append(")");
            let mut line = t.section("Server Pool");
            line.append(" ");
            line.append(t.muted(count.as_str()).as_str());
            put(&mut out, line);
            let ghost head = views(out@);
            let ghost entries = pool_entries(*t, servers@, texts@);
            let mut i: usize = 0;
            assert(head + entries.take(0) =~= head);
            while i < servers.len()
                invariant
                    i <= servers.len(),
                    servers.len() == texts.len(),
                    entries == pool_entries(*t, servers@, texts@),
                    views(out@) == head + entries.take(i as int),
                decreases servers.len() - i,
            {
                put(&mut out, print_pool_line(t, &servers[i], &texts[i]));
                assert(entries.take(i + 1) =~= entries.take(i as int).push(entries[i as int]));
                assert(head + entries.take(i + 1) =~= (head + entries.take(i as int)).push(
                    entries[i as int],
                ));
                i = i + 1;
            }
            assert(entries.take(i as int) =~= entries);
            put(&mut out, String::new());
            assert(views(out@) =~= pool_lines(*t, *pool, texts@));
        }
    }
    out
}

/// The lines of the client, where it is known.
pub open spec fn client_lines(t: Theme, client: Option<ClientMeta>) -> Seq<Seq<char>> {
    match client {
        Some(c) => none().push(as_section(t, "Client"@)).push(entry(t, "ip"@, c.ip@)).push(
            entry(t, "isp"@, c.isp@),
        ).push(entry(t, "country"@, c.country@)).push(
            entry(t, "location"@, c.latitude_text@ + ","@ + c.longitude_text@),
        ).push(Seq::empty()),
        None => none(),
    }
}

fn print_client(t: &Theme, client: &Option<ClientMeta>) -> (r: Vec<String>)
    ensures
        views(r@) == client_lines(*t, *client),
{
    let mut out: Vec<String> = Vec::new();
    assert(views(out@) =~= none());
    if let Some(c) = client {
        put(&mut out, t.section("Client"));
        put(&mut out, entry_line(t, "ip", c.ip.as_str()));
        put(&mut out, entry_line(t, "isp", c.isp.as_str()));
        put(&mut out, entry_line(t, "country", c.country.as_str()));
        let mut location = c.latitude_text.clone();
        location.append(",");
        location.append(c.longitude_text.as_str());
        put(&mut out, entry_line(t, "location", location.as_str()));
        put(&mut out, String::new());
        assert(views(out@) =~= client_lines(*t, *client));
    }
    out
}

/// The line of the ping, where it is known.
pub open spec fn ping_lines(t: Theme, result: RunResult, texts: HumanTexts) -> Seq<Seq<char>> {
    match result.ping_ns {
        Some(ns) => none().push(
            "  "@ + as_badge(
                t,
                "PING"@,
                color_of_latency(ns.num as int, ns.den as int),
            ) + " "@ + painted(
                t,
                texts.ping@ + " ms"@,
                color_of_latency(ns.num as int, ns.den as int),
            ) + (match result.jitter_us {
                Some(us) => " (jitter "@ + painted(
                    t,
                    texts.jitter@ + "ms"@,
                    color_of_latency(us * 1_000, 1),
                ) + ")"@,
                None => Seq::empty(),
            }),
        ),
        None => none(),
    }
}

fn print_ping(t: &Theme, result: &RunResult, texts: &HumanTexts) -> (r: Vec<String>)
    ensures
        views(r@) == ping_lines(*t, *result, *texts),
{
    let mut out: Vec<String> = Vec::new();
    assert(views(out@) =~= none());
    if let Some(ns) = result.ping_ns {
        let mut ping = texts.ping.clone();
        ping.append(" ms");
        let mut line = "  ".to_owned();
        line.append(t.badge("PING", latency_color(ns)).as_str());
        line.append(" ");
        line.append(t.paint(ping.as_str(), latency_color(ns)).as_str());
        let mut suffix = String::new();
        if let Some(us) = result.jitter_us {
            let mut jitter = texts.jitter.clone();
            jitter.append("ms");
            suffix = " (jitter ".to_owned();
            suffix.append(t.paint(jitter.as_str(), jitter_color(us)).as_str());
            suffix.append(")");
        }
        line.append(suffix.as_str());
        put(&mut out, line);
        assert(views(out@) =~= ping_lines(*t, *result, *texts));
    }
    out
}

/// The line of a direction, where it was run.
pub open spec fn direction_lines(
    t: Theme,
    badge: Seq<char>,
    direction: Option<BenchmarkResult>,
    latency_ns: Option<Fraction>,
    texts: DirectionTexts,
) -> Seq<Seq<char>> {
    match direction {
        Some(d) => none().push(
            "  "@ + as_badge(t, badge, color_of_speed(d.mbps)) + " "@ + painted(
                t,
                texts.mbps@ + " Mbps"@,
                color_of_speed(d.mbps),
            ) + "  "@ + bytes_text(d.bytes, texts.bytes@) + " in "@ + duration_text(
                d.duration_seconds,
                d.actual_duration_ms,
                texts.duration@,
            ) + " ("@ + decimal(d.connections as int) + " workers)"@ + (match latency_ns {
                Some(ns) => " latency "@ + painted(
                    t,
                    texts.latency@ + "ms"@,
                    color_of_latency(ns.num as int, ns.den as int),
                ),
                None => Seq::empty(),
            }),
        ),
        None => none(),
    }
}

fn print_direction(
    t: &Theme,
    badge: &str,
    direction: &Option<BenchmarkResult>,
    latency_ns: Option<Fraction>,
    texts: &DirectionTexts,
) -> (r: Vec<String>)
    ensures
        views(r@) == direction_lines(*t, badge@, *direction, latency_ns, *texts),
{
    let mut out: Vec<String> = Vec::new();
    assert(views(out@) =~= none());
    if let Some(d) = direction {
        let color = throughput_color(d.mbps);
        let mut speed = texts.mbps.clone();
        speed.append(" Mbps");
        let mut line = "  ".to_owned();
        line.append(t.badge(badge, color).as_str());
        line.append(" ");
        line.append(t.paint(speed.as_str(), color).as_str());
        line.append("  ");
        line.append(format_bytes(d.bytes, texts.bytes.as_str()).as_str());
        line.append(" in ");
        line.append(
            format_stage_duration(
                d.duration_seconds,
                d.actual_duration_ms,
                texts.duration.as_str(),
            ).as_str(),
        );
        line.append(" (");
        line.append(to_decimal(d.connections as u64).as_str());
        line.append(" workers)");
        let mut suffix = String::new();
        if let Some(ns) = latency_ns {
            let mut latency = texts.latency.clone();
            latency.append("ms");
            suffix = " latency ".to_owned();
            suffix.append(t.paint(latency.as_str(), latency_color(ns)).as_str());
        }
        line.append(suffix.as_str());
        put(&mut out, line);
        assert(views(out@) =~= direction_lines(*t, badge@, *direction, latency_ns, *texts));
    }
    out
}

/// The line of the proxy.
pub open spec fn proxy_line(t: Theme, proxy: Option<String>) -> Seq<char> {
    entry(
        t,
        "proxy"@,
        match proxy {
            Some(url) => painted(t, url@, "36"@),
            None => as_muted(t, "none"@),
        },
    )
}

/// The result of a speed test, line by line.
pub open spec fn human_lines(t: Theme, result: RunResult, texts: HumanTexts) -> Seq<Seq<char>> {
    head_lines(t, result) + server_lines(t, result.server, texts.server) + pool_lines(
        t,
        result.server_pool,
        texts.pool@,
    ) + client_lines(t, result.client) + none().push(as_section(t, "Results"@)) + ping_lines(
        t,
        result,
        texts,
    ) + direction_lines(
        t,
        "DOWN"@,
        result.download,
        result.download_latency_ns,
        texts.download,
    ) + direction_lines(t, "UP"@, result.upload, result.upload_latency_ns, texts.upload)
        + none().push(proxy_line(t, result.proxy))
}

pub fn print_human(t: &Theme, result: &RunResult, texts: &HumanTexts) -> (r: Vec<String>)
    requires
        result.server_pool matches Some(servers) ==> servers.len() == texts.pool.len(),
    ensures
        views(r@) == human_lines(*t, *result, *texts),
{
    let mut out = print_head(t, result);
    put_all(&mut out, &print_server(t, &result.server, &texts.server));
    put_all(&mut out, &print_pool(t, &result.server_pool, &texts.pool));
    put_all(&mut out, &print_client(t, &result.client));
    put(&mut out, t.section("Results"));
    put_all(&mut out, &print_ping(t, result, texts));
    put_all(
        &mut out,
        &print_direction(
            t,
            "DOWN",
            &result.download,
            result.download_latency_ns,
            &texts.download,
        ),
    );
    put_all(
        &mut out,
        &print_direction(t, "UP", &result.upload, result.upload_latency_ns, &texts.upload),
    );
    let proxy = match &result.proxy {
        Some(url) => t.paint(url.as_str(), "36"),
        None => t.muted("none"),
    };
    put(&mut out, entry_line(t, "proxy", proxy.as_str()));
    assert(views(out@) =~= human_lines(*t, *result, *texts));
    out
}

/// The figures of a direction of a native benchmark as texts: the speed with two decimals, the
/// others as they are written for diagnosis.
#[derive(Debug)]
pub struct IperfTexts {
    pub mbps: String,
    pub loss_percent: String,
    pub jitter_ms: String,
}

/// A number that may be missing, as it is written for diagnosis.
pub open spec fn maybe_number(number: Option<u64>) -> Seq<char> {
    match number {
        Some(n) => "Some("@ + decimal(n as int) + ")"@,
        None => "None"@,
    }
}

fn maybe_number_text(number: Option<u64>) -> (r: String)
    ensures
        r@ == maybe_number(number),
{
    match number {
        Some(n) => {
            let mut out = "Some(".to_owned();
            out.append(to_decimal(n).as_str());
            out.append(")");
            out
        },
        None => "None".to_owned(),
    }
}

/// The lines of a direction of a native benchmark.
pub open spec fn iperf_direction_lines(
    label: Seq<char>,
    result: Option<IperfDirectionOut>,
    texts: IperfTexts,
) -> Seq<Seq<char>> {
    match result {
        Some(d) => none().push(
            label + ": "@ + texts.mbps@ + " Mbps (bytes="@ + decimal(d.bytes as int)
                + " duration="@ + decimal(d.duration_seconds as int) + "s)"@,
        ) + (match d.packets {
            Some(packets) => none().push(
                label + " udp: packets="@ + decimal(packets as int) + " lost="@ + maybe_number(
                    d.lost_packets,
                ) + " loss_percent="@ + texts.loss_percent@ + " jitter_ms="@ + texts.jitter_ms@
                    + " out_of_order="@ + maybe_number(d.out_of_order),
            ),
            None => none(),
        }),
        None => none().push(label + ": skipped"@),
    }
}

fn print_iperf_direction(label: &str, result: &Option<IperfDirectionOut>, texts: &IperfTexts) -> (r:
    Vec<String>)
    ensures
        views(r@) == iperf_direction_lines(label@, *result, *texts),
{
    let mut out: Vec<String> = Vec::new();
    assert(views(out@) =~= none());
    match result {
        Some(d) => {
            let mut line = label.to_owned();
            line.append(": ");
            line.append(texts.mbps.as_str());
            line.append(" Mbps (bytes=");
            line.append(to_decimal(d.bytes).as_str());
            line.append(" duration=");
            line.append(to_decimal(d.duration_seconds).as_str());
            line.append("s)");
            put(&mut out, line);
            if let Some(packets) = d.packets {
                let mut line = label.to_owned();
                line.append(" udp: packets=");
                line.append(to_decimal(packets).as_str());
                line.append(" lost=");
                line.append(maybe_number_text(d.lost_packets).as_str());
                line.append(" loss_percent=");
                line.append(texts.loss_percent.as_str());
                line.append(" jitter_ms=");
                line.append(texts.jitter_ms.as_str());
                line.append(" out_of_order=");
                line.append(maybe_number_text(d.out_of_order).as_str());
                put(&mut out, line);
            }
        },
        None => {
            let mut line = label.to_owned();
            line.append(": skipped");
            put(&mut out, line);
        },
    }
    assert(views(out@) =~= iperf_direction_lines(label@, *result, *texts));
    out
}

/// A line with a key and a value.
pub open spec fn pair(t: Theme, key: Seq<char>, value: Seq<char>) -> Seq<char> {
    as_key(t, key) + " "@ + value
}

fn pair_line(t: &Theme, key: &str, value: &str) -> (r: String)
    ensures
        r@ == pair(*t, key@, value@),
{
    let mut line = t.key(key);
    line.append(" ");
    line.append(value);
    line
}

pub open spec fn protocol_name(protocol: IperfProtocolOut) -> Seq<char> {
    match protocol {
        IperfProtocolOut::Tcp => "tcp"@,
        IperfProtocolOut::Udp => "udp"@,
    }
}

/// The lines of a native benchmark before those of its directions.
pub open spec fn iperf_head_lines(t: Theme, result: IperfJsonV1) -> Seq<Seq<char>> {
    none().push(as_section(t, "iPerf Result"@)).push(
        pair(t, "schema:"@, as_muted(t, result.schema@)),
    ).push(pair(t, "timestamp:"@, as_muted(t, result.timestamp@))).push(
        pair(
            t,
            "target:"@,
            result.target.host@ + ":"@ + decimal(result.target.port as int) + " protocol="@
                + protocol_name(result.protocol),
        ),
    ).push(
        pair(
            t,
            "proxy:"@,
            match result.proxy {
                Some(proxy) => proxy.url@ + " ("@ + proxy.scheme@ + ")"@,
                None => as_muted(t, "none"@),
            },
        ),
    ).push(
        pair(
            t,
            "config:"@,
            "seconds="@ + decimal(result.config.seconds as int) + " parallel="@ + decimal(
                result.config.parallel as int,
            ) + " bitrate_bps="@ + (match result.config.bitrate_bps {
                Some(bps) => decimal(bps as int),
                None => "none"@,
            }),
        ),
    )
}

fn print_iperf_head(t: &Theme, result: &IperfJsonV1) -> (r: Vec<String>)
    ensures
        views(r@) == iperf_head_lines(*t, *result),
{
    let mut out: Vec<String> = Vec::new();
    assert(views(out@) =~= none());
    put(&mut out, t.section("iPerf Result"));
    put(&mut out, pair_line(t, "schema:", t.muted(result.schema).as_str()));
    put(&mut out, pair_line(t, "timestamp:", t.muted(result.timestamp.as_str()).as_str()));
    let mut target = result.target.host.clone();
    target.append(":");
    target.append(to_decimal(result.target.port as u64).as_str());
    target.append(" protocol=");
    target.append(
        match result.protocol {
            IperfProtocolOut::Tcp => "tcp",
            IperfProtocolOut::Udp => "udp",
        },
    );
    put(&mut out, pair_line(t, "target:", target.as_str()));
    let proxy = match &result.proxy {
        Some(proxy) => {
            let mut text = proxy.url.clone();
            text.append(" (");
            text.append(proxy.scheme);
            text.append(")");
            text
        },
        None => t.muted("none"),
    };
    put(&mut out, pair_line(t, "proxy:", proxy.as_str()));
    let mut config = "seconds=".to_owned();
    config.append(to_decimal(result.config.seconds).as_str());
    config.append(" parallel=");
    config.append(to_decimal(result.config.parallel as u64).as_str());
    config.append(" bitrate_bps=");
    match result.config.bitrate_bps {
        Some(bps) => {
            config.append(to_decimal(bps).as_str());
        },
        None => {
            config.append("none");
        },
    }
    put(&mut out, pair_line(t, "config:", config.as_str()));
    assert(views(out@) =~= iperf_head_lines(*t, *result));
    out
}

/// The result of a native benchmark, line by line.
pub open spec fn iperf_lines(
    t: Theme,
    result: IperfJsonV1,
    upload: IperfTexts,
    download: IperfTexts,
) -> Seq<Seq<char>> {
    iperf_head_lines(t, result) + iperf_direction_lines("upload"@, result.results.upload, upload)
        + iperf_direction_lines("download"@, result.results.download, download)
}

pub fn print_iperf_human(
    t: &Theme,
    result: &IperfJsonV1,
    upload: &IperfTexts,
    download: &IperfTexts,
) -> (r: Vec<String>)
    ensures
        views(r@) == iperf_lines(*t, *result, *upload, *download),
{
    let mut out = print_iperf_head(t, result);
    put_all(&mut out, &print_iperf_direction("upload", &result.results.upload, upload));
    put_all(&mut out, &print_iperf_direction("download", &result.results.download, download));
    out
}

/// Without colours a text stays as it is.
pub proof fn plain_texts_stay(text: Seq<char>, code: Seq<char>)
    ensures
        painted(Theme { color: false }, text, code) == text,
{
}

/// The unit of an amount is the greatest of which it has at least one.
pub proof fn units_fit_their_amounts(bytes: u64)
    ensures
        unit_of(bytes) == 0 <==> bytes < 1_000,
        unit_of(bytes) == 1 <==> 1_000 <= bytes < 1_000_000,
        unit_of(bytes) == 2 <==> 1_000_000 <= bytes < 1_000_000_000,
        unit_of(bytes) == 3 <==> 1_000_000_000 <= bytes < 1_000_000_000_000,
        unit_of(bytes) == 4 <==> bytes >= 1_000_000_000_000,
{
}

/// A stage is shown with the time that it took where that is known and more than half a second
/// short, and else with the time that it was given.
pub proof fn short_stages_are_shown_as_short(configured: u64, ms: u64, actual: Seq<char>)
    ensures
        0 < ms && ms + 500 < configured * 1_000 ==> duration_text(configured, Some(ms), actual)
            == actual + "s"@,
        ms + 500 >= configured * 1_000 ==> duration_text(configured, Some(ms), actual) == decimal(
            configured as int,
        ) + "s"@,
        duration_text(configured, None, actual) == decimal(configured as int) + "s"@,
{
}

/// Faster is greener: a thousand megabits per second, 250 and 50 are the steps.
pub proof fn speeds_are_coloured_by_step(mbps: Fraction)
    ensures
        mbps.num >= 1_000 * mbps.den ==> color_of_share(mbps) == "1;32"@,
        250 * mbps.den <= mbps.num < 1_000 * mbps.den ==> color_of_share(mbps) == "32"@,
        50 * mbps.den <= mbps.num < 250 * mbps.den ==> color_of_share(mbps) == "33"@,
        mbps.num < 50 * mbps.den ==> color_of_share(mbps) == "31"@,
{
}

/// Latencies of up to 8 ms are green, of up to 20 ms yellow, and longer ones red.
pub proof fn latencies_are_coloured_by_step(ns: int, parts: int)
    requires
        parts > 0,
    ensures
        ns <= 8_000_000 * parts ==> color_of_latency(ns, parts) == "1;32"@,
        8_000_000 * parts < ns <= 20_000_000 * parts ==> color_of_latency(ns, parts) == "33"@,
        ns > 20_000_000 * parts ==> color_of_latency(ns, parts) == "31"@,
{
}

proof fn lemma_in_sum(a: Seq<Seq<char>>, b: Seq<Seq<char>>, line: Seq<char>)
    ensures
        a.contains(line) || b.contains(line) ==> (a + b).contains(line),
{
    if a.contains(line) {
        let k = choose|k: int| 0 <= k < a.len() && a[k] == line;
        assert((a + b)[k] == line);
    } else if b.contains(line) {
        let k = choose|k: int| 0 <= k < b.len() && b[k] == line;
        assert((a + b)[a.len() + k] == line);
    }
}

/// Everything that is known of a run is printed: its head, its server, its pool, its client, its
/// ping, both directions and its proxy.
pub proof fn everything_known_is_printed(
    t: Theme,
    result: RunResult,
    texts: HumanTexts,
    line: Seq<char>,
)
    ensures
        ({
            let down = direction_lines(
                t,
                "DOWN"@,
                result.download,
                result.download_latency_ns,
                texts.download,
            );
            let up = direction_lines(
                t,
                "UP"@,
                result.upload,
                result.upload_latency_ns,
                texts.upload,
            );
            let known = {
                ||| head_lines(t, result).contains(line)
                ||| server_lines(t, result.server, texts.server).contains(line)
                ||| pool_lines(t, result.server_pool, texts.pool@).contains(line)
                ||| client_lines(t, result.client).contains(line)
                ||| ping_lines(t, result, texts).contains(line)
                ||| down.contains(line)
                ||| up.contains(line)
                ||| line == proxy_line(t, result.proxy)
            };
            known ==> human_lines(t, result, texts).contains(line)
        }),
        result.download is Some ==> direction_lines(
            t,
            "DOWN"@,
            result.download,
            result.download_latency_ns,
            texts.download,
        ).len() == 1,
        result.upload is Some ==> direction_lines(
            t,
            "UP"@,
            result.upload,
            result.upload_latency_ns,
            texts.upload,
        ).len() == 1,
        result.ping_ns is Some ==> ping_lines(t, result, texts).len() == 1,
{
    let a = head_lines(t, result);
    let b = server_lines(t, result.server, texts.server);
    let c = pool_lines(t, result.server_pool, texts.pool@);
    let d = client_lines(t, result.client);
    let e = none().push(as_section(t, "Results"@));
    let f = ping_lines(t, result, texts);
    let g = direction_lines(
        t,
        "DOWN"@,
        result.download,
        result.download_latency_ns,
        texts.download,
    );
    let h = direction_lines(t, "UP"@, result.upload, result.upload_latency_ns, texts.upload);
    let i = none().push(proxy_line(t, result.proxy));
    assert(i[0] == proxy_line(t, result.proxy));
    assert(i.contains(proxy_line(t, result.proxy)));
    lemma_in_sum(a, b, line);
    lemma_in_sum(a + b, c, line);
    lemma_in_sum(a + b + c, d, line);
    lemma_in_sum(a + b + c + d, e, line);
    lemma_in_sum(a + b + c + d + e, f, line);
    lemma_in_sum(a + b + c + d + e + f, g, line);
    lemma_in_sum(a + b + c + d + e + f + g, h, line);
    lemma_in_sum(a + b + c + d + e + f + g + h, i, line);
}

/// A painted text holds the text itself, coloured or not.
pub proof fn painting_keeps_the_text(t: Theme, text: Seq<char>, code: Seq<char>, part: Seq<char>)
    requires
        holds(text, part),
    ensures
        holds(painted(t, text, code), part),
{
    let front = "\x1b["@ + code + "m"@;
    sums_hold_what_their_parts_hold(front, text, part);
    sums_hold_what_their_parts_hold(front + text, "\x1b[0m"@, part);
}

proof fn lemma_direction(
    badge: Seq<char>,
    speed: Seq<char>,
    data: Seq<char>,
    time: Seq<char>,
    many: Seq<char>,
    latency: Seq<char>,
    part: Seq<char>,
)
    requires
        holds(badge, part) || holds(speed, part) || holds(data, part) || holds(time, part)
            || holds(many, part) || holds(latency, part),
    ensures
        holds(
            "  "@ + badge + " "@ + speed + "  "@ + data + " in "@ + time + " ("@ + many
                + " workers)"@ + latency,
            part,
        ),
{
    let a = "  "@ + badge;
    sums_hold_what_their_parts_hold("  "@, badge, part);
    sums_hold_what_their_parts_hold(a, " "@, part);
    let b = a + " "@ + speed;
    sums_hold_what_their_parts_hold(a + " "@, speed, part);
    sums_hold_what_their_parts_hold(b, "  "@, part);
    let c = b + "  "@ + data;
    sums_hold_what_their_parts_hold(b + "  "@, data, part);
    sums_hold_what_their_parts_hold(c, " in "@, part);
    let d = c + " in "@ + time;
    sums_hold_what_their_parts_hold(c + " in "@, time, part);
    sums_hold_what_their_parts_hold(d, " ("@, part);
    let e = d + " ("@ + many;
    sums_hold_what_their_parts_hold(d + " ("@, many, part);
    sums_hold_what_their_parts_hold(e, " workers)"@, part);
    sums_hold_what_their_parts_hold(e + " workers)"@, latency, part);
}

/// The line of a direction tells its name, its speed, its data, its time, its workers and, where it
/// is known, its latency.
pub proof fn directions_tell_their_figures(
    t: Theme,
    badge: Seq<char>,
    d: BenchmarkResult,
    latency_ns: Option<Fraction>,
    texts: DirectionTexts,
)
    ensures
        ({
            let line = direction_lines(t, badge, Some(d), latency_ns, texts)[0];
            &&& holds(line, badge)
            &&& holds(line, texts.mbps@ + " Mbps"@)
            &&& holds(line, bytes_text(d.bytes, texts.bytes@))
            &&& holds(
                line,
                duration_text(d.duration_seconds, d.actual_duration_ms, texts.duration@),
            )
            &&& holds(line, decimal(d.connections as int))
            &&& latency_ns is Some ==> holds(line, texts.latency@ + "ms"@)
        }),
{
    let color = color_of_speed(d.mbps);
    let name = as_badge(t, badge, color);
    let fast = texts.mbps@ + " Mbps"@;
    let speed = painted(t, fast, color);
    let data = bytes_text(d.bytes, texts.bytes@);
    let time = duration_text(d.duration_seconds, d.actual_duration_ms, texts.duration@);
    let many = decimal(d.connections as int);
    let delay = texts.latency@ + "ms"@;
    let latency = match latency_ns {
        Some(ns) => " latency "@ + painted(
            t,
            delay,
            color_of_latency(ns.num as int, ns.den as int),
        ),
        None => Seq::empty(),
    };
    texts_hold_their_parts(badge, Seq::empty(), 0, 0);
    sums_hold_what_their_parts_hold("["@, badge, badge);
    sums_hold_what_their_parts_hold("["@ + badge, "]"@, badge);
    painting_keeps_the_text(t, "["@ + badge + "]"@, color, badge);
    lemma_direction(name, speed, data, time, many, latency, badge);
    texts_hold_their_parts(fast, Seq::empty(), 0, 0);
    painting_keeps_the_text(t, fast, color, fast);
    lemma_direction(name, speed, data, time, many, latency, fast);
    texts_hold_their_parts(data, Seq::empty(), 0, 0);
    lemma_direction(name, speed, data, time, many, latency, data);
    texts_hold_their_parts(time, Seq::empty(), 0, 0);
    lemma_direction(name, speed, data, time, many, latency, time);
    texts_hold_their_parts(many, Seq::empty(), 0, 0);
    lemma_direction(name, speed, data, time, many, latency, many);
    if let Some(ns) = latency_ns {
        let code = color_of_latency(ns.num as int, ns.den as int);
        texts_hold_their_parts(delay, Seq::empty(), 0, 0);
        painting_keeps_the_text(t, delay, code, delay);
        sums_hold_what_their_parts_hold(" latency "@, painted(t, delay, code), delay);
        lemma_direction(name, speed, data, time, many, latency, delay);
    }
}

/// Every server of a pool has a line that tells its id, its name and its host.
pub proof fn every_server_of_the_pool_is_printed(
    t: Theme,
    pool: Vec<Server>,
    texts: Seq<ServerTexts>,
    i: int,
)
    requires
        0 <= i < pool.len(),
    ensures
        pool_lines(t, Some(pool), texts).len() == pool.len() + 2,
        ({
            let line = pool_lines(t, Some(pool), texts)[i + 1];
            &&& holds(line, decimal(pool[i].id as int))
            &&& holds(line, pool[i].name@)
            &&& holds(line, pool[i].host@)
        }),
{
    let server = pool[i];
    let line = pool_lines(t, Some(pool), texts)[i + 1];
    assert(line == pool_line(t, server, texts[i]));
    let id = decimal(server.id as int);
    lemma_pool_line(t, server, texts[i], id);
    lemma_pool_line(t, server, texts[i], server.name@);
    lemma_pool_line(t, server, texts[i], server.host@);
}

proof fn lemma_pool_line(t: Theme, server: Server, texts: ServerTexts, part: Seq<char>)
    requires
        part == decimal(server.id as int) || part == server.name@ || part == server.host@,
    ensures
        holds(pool_line(t, server, texts), part),
{
    let id = decimal(server.id as int);
    texts_hold_their_parts(part, Seq::empty(), 0, 0);
    let shown = painted(t, id, "1;37"@);
    let name = padded(server.name@, 14);
    let host = padded(server.host@, 26);
    let a = "  - id="@ + shown;
    let b = a + " "@ + name;
    let c = b + " "@ + host;
    let d = c + " | "@ + pool_latency_text(server, texts);
    if part == id {
        painting_keeps_the_text(t, id, "1;37"@, part);
        sums_hold_what_their_parts_hold("  - id="@, shown, part);
        sums_hold_what_their_parts_hold(a, " "@, part);
        sums_hold_what_their_parts_hold(a + " "@, name, part);
        sums_hold_what_their_parts_hold(b, " "@, part);
        sums_hold_what_their_parts_hold(b + " "@, host, part);
    } else if part == server.name@ {
        padding_keeps_the_text(server.name@, 14, part);
        sums_hold_what_their_parts_hold(a + " "@, name, part);
        sums_hold_what_their_parts_hold(b, " "@, part);
        sums_hold_what_their_parts_hold(b + " "@, host, part);
    } else {
        padding_keeps_the_text(server.host@, 26, part);
        sums_hold_what_their_parts_hold(b + " "@, host, part);
    }
    sums_hold_what_their_parts_hold(c, " | "@, part);
    sums_hold_what_their_parts_hold(c + " | "@, pool_latency_text(server, texts), part);
    sums_hold_what_their_parts_hold(d, " | "@, part);
    sums_hold_what_their_parts_hold(d + " | "@, pool_download_text(t, server, texts), part);
}

/// A native benchmark prints both directions, each by its name and with its own figures, and says
/// of one that was not run that it was skipped.
pub proof fn benchmarks_print_both_directions(
    t: Theme,
    result: IperfJsonV1,
    upload: IperfTexts,
    download: IperfTexts,
)
    ensures
        ({
            let lines = iperf_lines(t, result, upload, download);
            let head = iperf_head_lines(t, result);
            &&& forall|k: int| 0 <= k < head.len() ==> #[trigger] lines[k] == head[k]
            &&& match result.results.upload {
                Some(d) => lines[head.len() as int] == "upload"@ + ": "@ + upload.mbps@
                    + " Mbps (bytes="@ + decimal(d.bytes as int) + " duration="@ + decimal(
                    d.duration_seconds as int,
                ) + "s)"@,
                None => lines[head.len() as int] == "upload"@ + ": skipped"@,
            }
            &&& match result.results.download {
                Some(d) => lines.contains(
                    "download"@ + ": "@ + download.mbps@ + " Mbps (bytes="@ + decimal(
                        d.bytes as int,
                    ) + " duration="@ + decimal(d.duration_seconds as int) + "s)"@,
                ),
                None => lines.last() == "download"@ + ": skipped"@,
            }
        }),
{
    let head = iperf_head_lines(t, result);
    let up = iperf_direction_lines("upload"@, result.results.upload, upload);
    let down = iperf_direction_lines("download"@, result.results.download, download);
    let lines = iperf_lines(t, result, upload, download);
    let at = (head.len() + up.len()) as int;
    assert(lines[at] == down[0]);
    assert(lines.contains(lines[at]));
}

/// The speed of a direction is coloured by the same steps; what is not a number is red.
pub proof fn measured_speeds_are_coloured_by_step(mbps: Scalar)
    ensures
        mbps.not_a_number() ==> color_of_speed(mbps) == "31"@,
        !mbps.not_a_number() && mbps.order() >= 0x408f_4000_0000_0000 ==> color_of_speed(mbps)
            == "1;32"@,
        !mbps.not_a_number() && 0x406f_4000_0000_0000 <= mbps.order() < 0x408f_4000_0000_0000
            ==> color_of_speed(mbps) == "32"@,
        !mbps.not_a_number() && 0x4049_0000_0000_0000 <= mbps.order() < 0x406f_4000_0000_0000
            ==> color_of_speed(mbps) == "33"@,
        !mbps.not_a_number() && mbps.order() < 0x4049_0000_0000_0000 ==> color_of_speed(mbps)
            == "31"@,
{
}

/// A latency is shown where it is known, and its deviation where that is known too.
pub proof fn known_latencies_are_shown(t: Theme, server: Server, texts: ServerTexts)
    ensures
        server.latency_ns is None ==> {
            &&& latency_line(t, server, texts).len() == 0
            &&& pool_latency_text(server, texts) == "lat n/a"@
        },
        server.latency_ns is Some ==> {
            &&& latency_line(t, server, texts).len() == 1
            &&& holds(latency_line(t, server, texts)[0], texts.latency@)
            &&& holds(pool_latency_text(server, texts), texts.latency@)
            &&& server.latency_stddev_ms is Some ==> holds(
                latency_line(t, server, texts)[0],
                texts.stddev@,
            ) && holds(pool_latency_text(server, texts), texts.stddev@)
            &&& server.latency_stddev_ms is None ==> pool_latency_text(server, texts) == "lat "@
                + texts.latency@ + "ms"@
        },
{
    if let Some(ns) = server.latency_ns {
        let code = color_of_latency(ns.num as int, ns.den as int);
        let shown = texts.latency@ + "ms"@;
        let front = "  "@ + as_key(t, "latency"@) + " "@;
        let deviation = texts.stddev@ + "ms"@;
        let muted = as_muted(t, deviation);
        let tail = if server.latency_stddev_ms is Some {
            " (std "@ + muted + ")"@
        } else {
            Seq::empty()
        };
        texts_hold_their_parts(texts.latency@, Seq::empty(), 0, 0);
        texts_hold_their_parts(texts.stddev@, Seq::empty(), 0, 0);
        sums_hold_what_their_parts_hold(texts.latency@, "ms"@, texts.latency@);
        painting_keeps_the_text(t, shown, code, texts.latency@);
        sums_hold_what_their_parts_hold(front, painted(t, shown, code), texts.latency@);
        sums_hold_what_their_parts_hold(front + painted(t, shown, code), tail, texts.latency@);
        let a = "lat "@ + texts.latency@;
        sums_hold_what_their_parts_hold("lat "@, texts.latency@, texts.latency@);
        sums_hold_what_their_parts_hold(a, "ms"@, texts.latency@);
        sums_hold_what_their_parts_hold(a, "ms (std "@, texts.latency@);
        let b = a + "ms (std "@ + texts.stddev@;
        sums_hold_what_their_parts_hold(a + "ms (std "@, texts.stddev@, texts.latency@);
        sums_hold_what_their_parts_hold(b, "ms)"@, texts.latency@);
        sums_hold_what_their_parts_hold(a + "ms (std "@, texts.stddev@, texts.stddev@);
        sums_hold_what_their_parts_hold(b, "ms)"@, texts.stddev@);
        sums_hold_what_their_parts_hold(texts.stddev@, "ms"@, texts.stddev@);
        painting_keeps_the_text(t, deviation, "2"@, texts.stddev@);
        sums_hold_what_their_parts_hold(" (std "@, muted, texts.stddev@);
        sums_hold_what_their_parts_hold(" (std "@ + muted, ")"@, texts.stddev@);
        sums_hold_what_their_parts_hold(front + painted(t, shown, code), tail, texts.stddev@);
    }
}

} // verus!
