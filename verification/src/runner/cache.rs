//! The commands on the cached catalog.

use vstd::prelude::*;

use crate::cli::CacheShowArgs;
use crate::model::Server;
use crate::num::whole::least;
use crate::speedtest::servers::{filter_servers, found, SpeedtestServer};
use crate::text::{decimal, holds, stands_at, str_view, to_decimal, views};
use crate::urls::opt_view;

verus! {

/// A listing of the cache.
#[derive(Debug)]
pub struct CacheShowOutput {
    pub total_cached: usize,
    pub filtered: usize,
    pub servers: Vec<Server>,
}

/// A cached server as it is listed, without what only a run could tell.
pub open spec fn listed_server(server: SpeedtestServer) -> Server {
    Server {
        id: server.id,
        sponsor: server.sponsor,
        name: server.name,
        country: server.country,
        host: server.host,
        distance_km: server.distance_km,
        latency_ns: None,
        latency_stddev_ms: None,
        download_avg_mbps: None,
        download_bytes: None,
        sdk_url: None,
        sdk_lat: None,
        sdk_lon: None,
        sdk_cc: None,
        sdk_preferred: None,
        sdk_isp_id: None,
        sdk_https_functional: None,
        sdk_hostname: None,
        sdk_port: None,
        sdk_force_ping_select: None,
    }
}

pub fn cache_server_to_output(server: &SpeedtestServer) -> (r: Server)
    ensures
        r == listed_server(*server),
{
    Server {
        id: server.id,
        sponsor: server.sponsor.clone(),
        name: server.name.clone(),
        country: server.country.clone(),
        host: server.host.clone(),
        distance_km: server.distance_km,
        latency_ns: None,
        latency_stddev_ms: None,
        download_avg_mbps: None,
        download_bytes: None,
        sdk_url: None,
        sdk_lat: None,
        sdk_lon: None,
        sdk_cc: None,
        sdk_preferred: None,
        sdk_isp_id: None,
        sdk_https_functional: None,
        sdk_hostname: None,
        sdk_port: None,
        sdk_force_ping_select: None,
    }
}

/// The servers to list: the first of those that are found, as many as are asked for.
pub open spec fn listed_servers(
    cached: Seq<SpeedtestServer>,
    search: Option<Seq<char>>,
    limit: int,
) -> Seq<Server> {
    let hits = found(cached, search);
    hits.take(least(limit, hits.len() as int)).map_values(
        |server: SpeedtestServer| listed_server(server),
    )
}

/// Lists the cache.
pub fn list_cache(cached: &Vec<SpeedtestServer>, show: &CacheShowArgs) -> (r: CacheShowOutput)
    ensures
        r.total_cached == cached.len(),
        r.filtered == found(cached@, opt_view(show.search)).len(),
        r.servers@ == listed_servers(cached@, opt_view(show.search), show.limit as int),
{
    let search: Option<&str> = match &show.search {
        Some(text) => Some(text.as_str()),
        None => None,
    };
    let hits = filter_servers(cached, search);
    let ghost all = found(cached@, opt_view(show.search));
    assert(str_view(search) == opt_view(show.search));
    let count: usize = if show.limit < hits.len() {
        show.limit
    } else {
        hits.len()
    };
    let ghost target = listed_servers(cached@, opt_view(show.search), show.limit as int);
    assert(hits@.map_values(|s: &SpeedtestServer| *s) == all);
    let mut servers: Vec<Server> = Vec::new();
    let mut i: usize = 0;
    while i < count
        invariant
            i <= count <= hits.len(),
            count == target.len(),
            hits.len() == all.len(),
            forall|k: int| 0 <= k < hits.len() ==> *(#[trigger] hits@[k]) == all[k],
            target == all.take(count as int).map_values(
                |server: SpeedtestServer| listed_server(server),
            ),
            servers@ == target.take(i as int),
        decreases count - i,
    {
        servers.push(cache_server_to_output(hits[i]));
        assert(servers@ =~= target.take(i + 1));
        i = i + 1;
    }
    assert(servers@ =~= target);
    CacheShowOutput { total_cached: cached.len(), filtered: hits.len(), servers }
}

/// The line of a listed server.
pub open spec fn server_line(server: Server) -> Seq<char> {
    "- "@ + decimal(server.id as int) + " | "@ + server.sponsor@ + " | "@ + server.name@ + ", "@
        + server.country@ + " | "@ + server.host@
}

fn print_server(server: &Server) -> (r: String)
    ensures
        r@ == server_line(*server),
{
    let mut out = "- ".to_owned();
    out.append(to_decimal(server.id).as_str());
    out.append(" | ");
    out.append(server.sponsor.as_str());
    out.append(" | ");
    out.append(server.name.as_str());
    out.append(", ");
    out.append(server.country.as_str());
    out.append(" | ");
    out.append(server.host.as_str());
    out
}

/// The lines of a listing.
pub open spec fn cache_lines(
    path: Seq<char>,
    search: Option<Seq<char>>,
    output: CacheShowOutput,
) -> Seq<Seq<char>> {
    let none = Seq::<Seq<char>>::empty();
    none.push("cache: "@ + path).push("total cached: "@ + decimal(output.total_cached as int)) + (
    match search {
        Some(text) => none.push("search: "@ + text).push(
            "filtered: "@ + decimal(output.filtered as int),
        ),
        None => none,
    }) + none.push("showing: "@ + decimal(output.servers.len() as int)) + (
    if output.servers.len() == 0 {
        none.push("no cached servers match"@)
    } else {
        output.servers@.map_values(|server: Server| server_line(server))
    })
}

fn put(out: &mut Vec<String>, line: String)
    ensures
        views(final(out)@) == views(old(out)@).push(line@),
{
    let ghost before = views(out@);
    out.push(line);
    assert(views(out@) =~= before.push(line@));
}

fn labelled(label: &str, value: &str) -> (r: String)
    ensures
        r@ == label@ + value@,
{
    let mut out = label.to_owned();
    out.append(value);
    out
}

/// The listing as text.
pub fn print_cache(path: &str, search: Option<&str>, output: &CacheShowOutput) -> (r: Vec<String>)
    ensures
        views(r@) == cache_lines(path@, str_view(search), *output),
{
    let mut out: Vec<String> = Vec::new();
    assert(views(out@) =~= Seq::<Seq<char>>::empty());
    put(&mut out, labelled("cache: ", path));
    put(&mut out, labelled("total cached: ", to_decimal(output.total_cached as u64).as_str()));
    if let Some(text) = search {
        put(&mut out, labelled("search: ", text));
        put(&mut out, labelled("filtered: ", to_decimal(output.filtered as u64).as_str()));
    }
    put(&mut out, labelled("showing: ", to_decimal(output.servers.len() as u64).as_str()));
    if output.servers.len() == 0 {
        put(&mut out, "no cached servers match".to_owned());
        assert(views(out@) =~= cache_lines(path@, str_view(search), *output));
        return out;
    }
    let ghost head = views(out@);
    let ghost entries = output.servers@.map_values(|server: Server| server_line(server));
    let mut i: usize = 0;
    assert(head + entries.take(0) =~= head);
    while i < output.servers.len()
        invariant
            i <= output.servers.len(),
            entries == output.servers@.map_values(|server: Server| server_line(server)),
            views(out@) == head + entries.take(i as int),
        decreases output.servers.len() - i,
    {
        put(&mut out, print_server(&output.servers[i]));
        assert(entries.take(i + 1) =~= entries.take(i as int).push(entries[i as int]));
        assert(head + entries.take(i + 1) =~= (head + entries.take(i as int)).push(
            entries[i as int],
        ));
        i = i + 1;
    }
    assert(entries.take(i as int) =~= entries);
    assert(views(out@) =~= cache_lines(path@, str_view(search), *output));
    out
}

/// What is said of a cache file that was to be removed.
pub fn print_cleared(path: &str, removed: bool) -> (r: String)
    ensures
        r@ == if removed {
            "cleared cache file: "@ + path@
        } else {
            "cache file not found: "@ + path@
        },
{
    if removed {
        labelled("cleared cache file: ", path)
    } else {
        labelled("cache file not found: ", path)
    }
}

/// A listing shows the first of the servers that are found, in their order, as many as are asked
/// for, and each as the cache has it.
pub proof fn listings_show_the_first_hits(
    cached: Seq<SpeedtestServer>,
    search: Option<Seq<char>>,
    limit: int,
    i: int,
)
    requires
        limit >= 0,
    ensures
        ({
            let hits = found(cached, search);
            let shown = listed_servers(cached, search, limit);
            &&& limit <= hits.len() ==> shown.len() == limit
            &&& limit > hits.len() ==> shown.len() == hits.len()
            &&& 0 <= i < shown.len() ==> {
                &&& shown[i].id == hits[i].id
                &&& shown[i].sponsor == hits[i].sponsor
                &&& shown[i].name == hits[i].name
                &&& shown[i].country == hits[i].country
                &&& shown[i].host == hits[i].host
                &&& shown[i].distance_km == hits[i].distance_km
                &&& shown[i].latency_ns is None
            }
        }),
{
}

/// The line of a server names it, its operator and its place.
pub proof fn lines_name_their_server(server: Server)
    ensures
        holds(server_line(server), decimal(server.id as int)),
        holds(server_line(server), server.sponsor@),
        holds(server_line(server), server.name@),
        holds(server_line(server), server.country@),
        holds(server_line(server), server.host@),
{
    let (a, b, c, d, e) = (
        decimal(server.id as int),
        server.sponsor@,
        server.name@,
        server.country@,
        server.host@,
    );
    let (p, q, r) = ("- "@, " | "@, ", "@);
    let line = server_line(server);
    lemma_part(line, p, a, q + b + q + c + r + d + q + e);
    lemma_part(line, p + a + q, b, q + c + r + d + q + e);
    lemma_part(line, p + a + q + b + q, c, r + d + q + e);
    lemma_part(line, p + a + q + b + q + c + r, d, q + e);
    lemma_part(line, p + a + q + b + q + c + r + d + q, e, Seq::empty());
}

proof fn lemma_part(text: Seq<char>, front: Seq<char>, part: Seq<char>, back: Seq<char>)
    requires
        text =~= front + part + back,
    ensures
        holds(text, part),
{
    let at = front.len() as int;
    assert(text.subrange(at, at + part.len()) =~= part);
    assert(stands_at(text, at, part));
}

/// A listing tells how many servers there are, found and shown, and has a line for each shown one.
pub proof fn listings_have_a_line_for_each_server(
    path: Seq<char>,
    output: CacheShowOutput,
    i: int,
)
    requires
        0 <= i < output.servers.len(),
    ensures
        ({
            let lines = cache_lines(path, None, output);
            &&& lines.len() == output.servers.len() + 3
            &&& lines[0] == "cache: "@ + path
            &&& lines[1] == "total cached: "@ + decimal(output.total_cached as int)
            &&& lines[2] == "showing: "@ + decimal(output.servers.len() as int)
            &&& lines[i + 3] == server_line(output.servers@[i])
        }),
{
}

} // verus!
