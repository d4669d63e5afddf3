//! Catalogs of test servers.

use vstd::prelude::*;

use crate::num::scalar::Scalar;
use crate::speedtest::select::{find_server, first_with_id, the_wanted_server_is_found};
use crate::text::{
    contains, copy_opt, decimal, holds, lowered, str_view, to_decimal, to_lower, trim, trimmed,
};

verus! {

/// A test server.
#[derive(Debug)]
pub struct SpeedtestServer {
    pub id: u64,
    pub sponsor: String,
    pub name: String,
    pub country: String,
    pub host: String,
    pub distance_km: Scalar,
    pub url: String,
    pub session_guid: Option<String>,
    pub sdk_lat: Option<String>,
    pub sdk_lon: Option<String>,
    pub sdk_cc: Option<String>,
    pub sdk_preferred: Option<u8>,
    pub sdk_isp_id: Option<String>,
    pub sdk_https_functional: Option<u8>,
    pub sdk_hostname: Option<String>,
    pub sdk_port: Option<u16>,
    pub sdk_force_ping_select: Option<u8>,
}

impl Clone for SpeedtestServer {
    fn clone(&self) -> (r: SpeedtestServer)
        ensures
            r == *self,
    {
        SpeedtestServer {
            id: self.id,
            sponsor: self.sponsor.clone(),
            name: self.name.clone(),
            country: self.country.clone(),
            host: self.host.clone(),
            distance_km: self.distance_km,
            url: self.url.clone(),
            session_guid: copy_opt(&self.session_guid),
            sdk_lat: copy_opt(&self.sdk_lat),
            sdk_lon: copy_opt(&self.sdk_lon),
            sdk_cc: copy_opt(&self.sdk_cc),
            sdk_preferred: self.sdk_preferred,
            sdk_isp_id: copy_opt(&self.sdk_isp_id),
            sdk_https_functional: self.sdk_https_functional,
            sdk_hostname: copy_opt(&self.sdk_hostname),
            sdk_port: self.sdk_port,
            sdk_force_ping_select: self.sdk_force_ping_select,
        }
    }
}

/// The most servers that are kept in the cache.
pub const MAX_CACHED_SERVERS: usize = 10_000;

pub open spec fn has_id(servers: Seq<SpeedtestServer>, id: u64) -> bool {
    exists|i: int| 0 <= i < servers.len() && (#[trigger] servers[i]).id == id
}

/// The first server of each id among the first `upto` of `all`, no more than the cache holds.
pub open spec fn merged(all: Seq<SpeedtestServer>, upto: int) -> Seq<SpeedtestServer>
    decreases upto,
{
    if upto <= 0 {
        Seq::empty()
    } else {
        let before = merged(all, upto - 1);
        if before.len() < MAX_CACHED_SERVERS && !has_id(before, all[upto - 1].id) {
            before.push(all[upto - 1])
        } else {
            before
        }
    }
}

/// The catalog to cache: the fetched servers, then the cached ones with other ids.
pub open spec fn merged_catalog(
    fetched: Seq<SpeedtestServer>,
    cached: Seq<SpeedtestServer>,
) -> Seq<SpeedtestServer> {
    merged(fetched + cached, (fetched + cached).len() as int)
}

proof fn lemma_merged(all: Seq<SpeedtestServer>, upto: int)
    requires
        0 <= upto <= all.len(),
    ensures
        merged(all, upto).len() <= MAX_CACHED_SERVERS,
        merged(all, upto).len() <= upto,
        forall|i: int, j: int|
            0 <= i < j < merged(all, upto).len() ==> (#[trigger] merged(all, upto)[i]).id != (
            #[trigger] merged(all, upto)[j]).id,
        forall|i: int|
            0 <= i < merged(all, upto).len() ==> exists|k: int|
                #![trigger all[k]]
                0 <= k < upto && all[k] == #[trigger] merged(all, upto)[i] && forall|m: int|
                    0 <= m < k ==> (#[trigger] all[m]).id != all[k].id,
        merged(all, upto).len() < MAX_CACHED_SERVERS ==> forall|k: int|
            0 <= k < upto ==> has_id(merged(all, upto), (#[trigger] all[k]).id),
    decreases upto,
{
    if upto > 0 {
        lemma_merged(all, upto - 1);
        let before = merged(all, upto - 1);
        let now = merged(all, upto);
        let next = all[upto - 1];
        if before.len() < MAX_CACHED_SERVERS {
            if !has_id(before, next.id) {
                assert forall|i: int| 0 <= i < now.len() implies exists|k: int|
                    #![trigger all[k]]
                    0 <= k < upto && all[k] == #[trigger] now[i] && forall|m: int|
                        0 <= m < k ==> (#[trigger] all[m]).id != all[k].id by {
                    if i < before.len() {
                        assert(now[i] == before[i]);
                    } else {
                        assert forall|m: int| 0 <= m < upto - 1 implies (#[trigger] all[m]).id
                            != next.id by {
                            assert(has_id(before, all[m].id));
                        }
                        assert(all[upto - 1] == now[i]);
                    }
                }
                assert forall|i: int, j: int| 0 <= i < j < now.len() implies (
                #[trigger] now[i]).id != (#[trigger] now[j]).id by {
                    if j == before.len() {
                        assert(now[i] == before[i]);
                    }
                }
                assert forall|k: int| 0 <= k < upto implies has_id(now, (#[trigger] all[k]).id) by {
                    if k < upto - 1 {
                        assert(has_id(before, all[k].id));
                        let i = choose|i: int|
                            0 <= i < before.len() && (#[trigger] before[i]).id == all[k].id;
                        assert(now[i].id == all[k].id);
                    } else {
                        assert(now[before.len() as int].id == next.id);
                    }
                }
            } else {
                assert forall|i: int| 0 <= i < now.len() implies exists|k: int|
                    #![trigger all[k]]
                    0 <= k < upto && all[k] == #[trigger] now[i] && forall|m: int|
                        0 <= m < k ==> (#[trigger] all[m]).id != all[k].id by {
                    assert(now[i] == before[i]);
                }
            }
        } else {
            assert forall|i: int| 0 <= i < now.len() implies exists|k: int|
                #![trigger all[k]]
                0 <= k < upto && all[k] == #[trigger] now[i] && forall|m: int|
                    0 <= m < k ==> (#[trigger] all[m]).id != all[k].id by {
                assert(now[i] == before[i]);
            }
        }
    }
}

/// No id occurs twice in a merged catalog, and the catalog fits the cache.
pub proof fn merged_ids_are_distinct(
    fetched: Seq<SpeedtestServer>,
    cached: Seq<SpeedtestServer>,
)
    ensures
        merged_catalog(fetched, cached).len() <= MAX_CACHED_SERVERS,
        forall|i: int, j: int|
            0 <= i < j < merged_catalog(fetched, cached).len() ==> (#[trigger] merged_catalog(
                fetched,
                cached,
            )[i]).id != (#[trigger] merged_catalog(fetched, cached)[j]).id,
{
    lemma_merged(fetched + cached, (fetched + cached).len() as int);
}

/// Where a fetched and a cached server have one id, the merged catalog holds the fetched one.
pub proof fn merging_prefers_fetched(
    fetched: Seq<SpeedtestServer>,
    cached: Seq<SpeedtestServer>,
    i: int,
)
    requires
        0 <= i < merged_catalog(fetched, cached).len(),
        has_id(fetched, merged_catalog(fetched, cached)[i].id),
    ensures
        fetched.contains(merged_catalog(fetched, cached)[i]),
{
    let all = fetched + cached;
    lemma_merged(all, all.len() as int);
    let out = merged_catalog(fetched, cached);
    let k = choose|k: int|
        #![trigger all[k]]
        0 <= k < all.len() && all[k] == out[i] && forall|m: int|
            0 <= m < k ==> (#[trigger] all[m]).id != all[k].id;
    let f = choose|f: int| 0 <= f < fetched.len() && (#[trigger] fetched[f]).id == out[i].id;
    assert(all[f].id == all[k].id);
    assert(k <= f);
    assert(fetched[k] == out[i]);
}

/// Every server that was fetched or cached is in the merged catalog under its id, unless the
/// catalog is full.
pub proof fn merging_loses_no_id(
    fetched: Seq<SpeedtestServer>,
    cached: Seq<SpeedtestServer>,
    id: u64,
)
    requires
        merged_catalog(fetched, cached).len() < MAX_CACHED_SERVERS,
        has_id(fetched, id) || has_id(cached, id),
    ensures
        has_id(merged_catalog(fetched, cached), id),
{
    let all = fetched + cached;
    lemma_merged(all, all.len() as int);
    if has_id(fetched, id) {
        let f = choose|f: int| 0 <= f < fetched.len() && (#[trigger] fetched[f]).id == id;
        assert(all[f].id == id);
    } else {
        let c = choose|c: int| 0 <= c < cached.len() && (#[trigger] cached[c]).id == id;
        assert(all[fetched.len() + c].id == id);
    }
}

fn knows_id(servers: &Vec<SpeedtestServer>, id: u64) -> (r: bool)
    ensures
        r == has_id(servers@, id),
{
    let mut i: usize = 0;
    while i < servers.len()
        invariant
            i <= servers.len(),
            forall|k: int| 0 <= k < i ==> (#[trigger] servers[k]).id != id,
        decreases servers.len() - i,
    {
        if servers[i].id == id {
            return true;
        }
        i = i + 1;
    }
    false
}

/// The catalog to cache from fetched and cached servers.
pub fn merge_server_catalog(
    fetched: &Vec<SpeedtestServer>,
    cached: &Vec<SpeedtestServer>,
) -> (r: Vec<SpeedtestServer>)
    ensures
        r@ == merged_catalog(fetched@, cached@),
{
    let ghost all = fetched@ + cached@;
    let mut out: Vec<SpeedtestServer> = Vec::new();
    let mut i: usize = 0;
    while i < fetched.len()
        invariant
            i <= fetched.len(),
            all == fetched@ + cached@,
            out@ == merged(all, i as int),
        decreases fetched.len() - i,
    {
        assert(all[i as int] == fetched@[i as int]);
        if out.len() < MAX_CACHED_SERVERS && !knows_id(&out, fetched[i].id) {
            out.push(fetched[i].clone());
        }
        i = i + 1;
    }
    let mut j: usize = 0;
    while j < cached.len()
        invariant
            j <= cached.len(),
            all == fetched@ + cached@,
            out@ == merged(all, fetched.len() + j),
        decreases cached.len() - j,
    {
        assert(all[fetched.len() + j] == cached@[j as int]);
        if out.len() < MAX_CACHED_SERVERS && !knows_id(&out, cached[j].id) {
            out.push(cached[j].clone());
        }
        j = j + 1;
    }
    out
}

/// The servers to run with: the fetched ones, and the cached one with the wanted id where it was
/// not fetched.
pub open spec fn runtime_catalog(
    fetched: Seq<SpeedtestServer>,
    cached: Seq<SpeedtestServer>,
    selected_server_id: Option<u64>,
) -> Seq<SpeedtestServer> {
    match selected_server_id {
        Some(id) => match first_with_id(cached, id, 0) {
            Some(i) => if has_id(fetched, id) {
                fetched
            } else {
                fetched.push(cached[i])
            },
            None => fetched,
        },
        None => fetched,
    }
}

pub fn copy_servers(servers: &Vec<SpeedtestServer>) -> (r: Vec<SpeedtestServer>)
    ensures
        r@ == servers@,
{
    let mut out: Vec<SpeedtestServer> = Vec::new();
    let mut i: usize = 0;
    while i < servers.len()
        invariant
            i <= servers.len(),
            out@ == servers@.take(i as int),
        decreases servers.len() - i,
    {
        out.push(servers[i].clone());
        i = i + 1;
        assert(out@ =~= servers@.take(i as int));
    }
    assert(out@ =~= servers@);
    out
}

pub fn build_runtime_catalog(
    fetched: &Vec<SpeedtestServer>,
    cached: &Vec<SpeedtestServer>,
    selected_server_id: Option<u64>,
) -> (r: Vec<SpeedtestServer>)
    ensures
        r@ == runtime_catalog(fetched@, cached@, selected_server_id),
{
    let mut out = copy_servers(fetched);
    if let Some(id) = selected_server_id {
        if !knows_id(fetched, id) {
            if let Ok(server) = find_server(cached, id) {
                out.push(server);
            }
        }
    }
    out
}

pub open spec fn without_session(server: SpeedtestServer) -> SpeedtestServer {
    SpeedtestServer { session_guid: None, ..server }
}

/// The servers to run with, and the servers to cache, which carry no session.
pub fn build_runtime_and_cache_catalogs(
    fetched: &Vec<SpeedtestServer>,
    cached: &Vec<SpeedtestServer>,
    selected_server_id: Option<u64>,
) -> (r: (Vec<SpeedtestServer>, Vec<SpeedtestServer>))
    ensures
        r.0@ == runtime_catalog(fetched@, cached@, selected_server_id),
        r.1@ == merged_catalog(fetched@, cached@).map_values(
            |s: SpeedtestServer| without_session(s),
        ),
{
    let runtime = build_runtime_catalog(fetched, cached, selected_server_id);
    let merged_servers = merge_server_catalog(fetched, cached);
    let mut cache: Vec<SpeedtestServer> = Vec::new();
    let mut i: usize = 0;
    let ghost wanted = merged_servers@.map_values(|s: SpeedtestServer| without_session(s));
    while i < merged_servers.len()
        invariant
            i <= merged_servers.len(),
            wanted == merged_servers@.map_values(|s: SpeedtestServer| without_session(s)),
            cache@ == wanted.take(i as int),
        decreases merged_servers.len() - i,
    {
        let mut server = merged_servers[i].clone();
        server.session_guid = None;
        cache.push(server);
        i = i + 1;
        assert(cache@ =~= wanted.take(i as int));
    }
    assert(cache@ =~= wanted);
    (runtime, cache)
}

/// Whether a server matches a query in small letters: its id, sponsor, name, country or host holds
/// the query.
pub open spec fn matches_query(server: SpeedtestServer, query: Seq<char>) -> bool {
    ||| holds(decimal(server.id as int), query)
    ||| holds(lowered(server.sponsor@), query)
    ||| holds(lowered(server.name@), query)
    ||| holds(lowered(server.country@), query)
    ||| holds(lowered(server.host@), query)
}

/// The servers that match a query, in their order.
pub open spec fn matching(servers: Seq<SpeedtestServer>, query: Seq<char>) -> Seq<SpeedtestServer>
    decreases servers.len(),
{
    if servers.len() == 0 {
        Seq::empty()
    } else if matches_query(servers.last(), query) {
        matching(servers.drop_last(), query).push(servers.last())
    } else {
        matching(servers.drop_last(), query)
    }
}

/// The servers that a search finds. A search for nothing but white space finds all.
pub open spec fn found(servers: Seq<SpeedtestServer>, search: Option<Seq<char>>) -> Seq<
    SpeedtestServer,
> {
    match search {
        Some(raw) => if trimmed(raw).len() == 0 {
            servers
        } else {
            matching(servers, lowered(trimmed(raw)))
        },
        None => servers,
    }
}

fn server_matches(server: &SpeedtestServer, query: &str) -> (r: bool)
    ensures
        r == matches_query(*server, query@),
{
    contains(to_decimal(server.id).as_str(), query) || contains(
        to_lower(server.sponsor.as_str()).as_str(),
        query,
    ) || contains(to_lower(server.name.as_str()).as_str(), query) || contains(
        to_lower(server.country.as_str()).as_str(),
        query,
    ) || contains(to_lower(server.host.as_str()).as_str(), query)
}

/// The servers that a search finds.
pub fn filter_servers<'a>(servers: &'a Vec<SpeedtestServer>, search: Option<&str>) -> (r: Vec<
    &'a SpeedtestServer,
>)
    ensures
        r@.map_values(|s: &SpeedtestServer| *s) == found(servers@, str_view(search)),
{
    let query: Option<String> = match search {
        Some(raw) => {
            let text = to_lower(trim(raw).as_str());
            if text.as_str().is_empty() {
                None
            } else {
                Some(text)
            }
        },
        None => None,
    };
    let mut out: Vec<&'a SpeedtestServer> = Vec::new();
    let mut i: usize = 0;
    assert(servers@.take(0) =~= Seq::<SpeedtestServer>::empty());
    assert(out@.map_values(|s: &SpeedtestServer| *s) =~= Seq::<SpeedtestServer>::empty());
    while i < servers.len()
        invariant
            i <= servers.len(),
            out@.map_values(|s: &SpeedtestServer| *s) == match query {
                Some(q) => matching(servers@.take(i as int), q@),
                None => servers@.take(i as int),
            },
        decreases servers.len() - i,
    {
        let ghost before = out@.map_values(|s: &SpeedtestServer| *s);
        proof {
            assert(servers@.take(i + 1).drop_last() =~= servers@.take(i as int));
            assert(servers@.take(i + 1).last() == servers@[i as int]);
            assert(servers@.take(i + 1) =~= servers@.take(i as int).push(servers@[i as int]));
        }
        let wanted: bool = match &query {
            Some(q) => server_matches(&servers[i], q.as_str()),
            None => true,
        };
        if wanted {
            out.push(&servers[i]);
            assert(out@.map_values(|s: &SpeedtestServer| *s) =~= before.push(servers@[i as int]));
        }
        i = i + 1;
    }
    assert(servers@.take(i as int) =~= servers@);
    out
}

/// A search for a text finds exactly the servers whose id, sponsor, name, country or host holds it,
/// whatever the case. A search for nothing finds all.
pub proof fn searches_find_what_holds_the_text(
    servers: Seq<SpeedtestServer>,
    search: Seq<char>,
    server: SpeedtestServer,
)
    ensures
        found(servers, None) == servers,
        trimmed(search).len() == 0 ==> found(servers, Some(search)) == servers,
        trimmed(search).len() > 0 ==> {
            let wanted = lowered(trimmed(search));
            let hit = {
                ||| holds(decimal(server.id as int), wanted)
                ||| holds(lowered(server.sponsor@), wanted)
                ||| holds(lowered(server.name@), wanted)
                ||| holds(lowered(server.country@), wanted)
                ||| holds(lowered(server.host@), wanted)
            };
            found(servers, Some(search)).contains(server) <==> servers.contains(server) && hit
        },
        found(servers, Some(search)).len() <= servers.len(),
{
    lemma_matching(servers, lowered(trimmed(search)), server);
}

proof fn lemma_matching(servers: Seq<SpeedtestServer>, query: Seq<char>, server: SpeedtestServer)
    ensures
        matching(servers, query).contains(server) <==> servers.contains(server) && matches_query(
            server,
            query,
        ),
        matching(servers, query).len() <= servers.len(),
    decreases servers.len(),
{
    if servers.len() > 0 {
        let before = servers.drop_last();
        lemma_matching(before, query, server);
        let list = matching(servers, query);
        let shorter = matching(before, query);
        if servers.contains(server) && matches_query(server, query) {
            let k = choose|k: int| 0 <= k < servers.len() && servers[k] == server;
            if k < before.len() {
                assert(before[k] == server);
                let m = choose|m: int| 0 <= m < shorter.len() && shorter[m] == server;
                assert(list[m] == server);
            } else {
                assert(list.last() == server);
            }
        }
        if list.contains(server) {
            let k = choose|k: int| 0 <= k < list.len() && list[k] == server;
            if k < shorter.len() {
                assert(shorter[k] == server);
                let m = choose|m: int| 0 <= m < before.len() && before[m] == server;
                assert(servers[m] == server);
            } else {
                assert(servers.last() == server);
                assert(servers[servers.len() - 1] == server);
            }
        }
    }
}

/// Servers are found in the order of the catalog: one more comes last, where it is a hit.
pub proof fn searches_keep_the_order(
    servers: Seq<SpeedtestServer>,
    next: SpeedtestServer,
    search: Seq<char>,
)
    ensures
        ({
            let before = found(servers, Some(search));
            let after = found(servers.push(next), Some(search));
            after == before || after == before.push(next)
        }),
{
    assert(servers.push(next).drop_last() =~= servers);
}

/// A run works with the servers that were fetched, in their order, and with the wanted one from the
/// cache where it was not among them.
pub proof fn the_wanted_server_is_in_the_runtime_catalog(
    fetched: Seq<SpeedtestServer>,
    cached: Seq<SpeedtestServer>,
    id: u64,
)
    ensures
        runtime_catalog(fetched, cached, None) == fetched,
        ({
            let catalog = runtime_catalog(fetched, cached, Some(id));
            &&& fetched.len() <= catalog.len() <= fetched.len() + 1
            &&& catalog.take(fetched.len() as int) == fetched
            &&& has_id(fetched, id) || has_id(cached, id) ==> has_id(catalog, id)
            &&& has_id(fetched, id) ==> catalog == fetched
            &&& catalog.len() > fetched.len() ==> catalog.last().id == id && cached.contains(
                catalog.last(),
            )
        }),
{
    the_wanted_server_is_found(cached, id);
    let catalog = runtime_catalog(fetched, cached, Some(id));
    assert(catalog.take(fetched.len() as int) =~= fetched);
    if has_id(fetched, id) {
        assert(catalog == fetched);
    } else if has_id(cached, id) {
        assert(catalog.last().id == id);
        assert(catalog[catalog.len() - 1].id == id);
    }
}

/// A merged catalog holds nothing but what was fetched or cached.
pub proof fn merging_makes_nothing_up(
    fetched: Seq<SpeedtestServer>,
    cached: Seq<SpeedtestServer>,
    i: int,
)
    requires
        0 <= i < merged_catalog(fetched, cached).len(),
    ensures
        fetched.contains(merged_catalog(fetched, cached)[i]) || cached.contains(
            merged_catalog(fetched, cached)[i],
        ),
{
    let all = fetched + cached;
    lemma_merged(all, all.len() as int);
    let one = merged_catalog(fetched, cached)[i];
    let k = choose|k: int|
        #![trigger all[k]]
        0 <= k < all.len() && all[k] == one && forall|m: int|
            0 <= m < k ==> (#[trigger] all[m]).id != all[k].id;
    if k < fetched.len() {
        assert(fetched[k] == one);
    } else {
        assert(cached[k - fetched.len()] == one);
    }
}

/// What is stored of a server is all of it but the session.
pub proof fn sessions_are_not_stored(server: SpeedtestServer)
    ensures
        without_session(server).session_guid is None,
        without_session(server).id == server.id,
        without_session(server).name == server.name,
        without_session(server).host == server.host,
        without_session(server).country == server.country,
        server.session_guid is None ==> without_session(server) == server,
{
}

} // verus!
