//! The report of a run in the form of the service.

pub mod buckets;
pub mod latency;
pub mod laws;
pub mod metadata;
pub mod prepare;
pub mod selection;
pub mod throughput;
pub mod util;

use vstd::prelude::*;

use crate::model::{ClientMeta, RunResult, SdkArtifacts, Server};
use crate::num::fraction::Fraction;
use crate::speedtest::sdk_payload::metadata::{
    build_sdk_app, build_sdk_configs, build_sdk_location, has_constants, SdkApp, SdkConfigs,
    SdkLocation,
};
use crate::speedtest::sdk_payload::prepare::{
    are_prepared, prepare_sdk_measurements, reportable, InvalidThroughput, PreparedSdkMeasurements,
};
use crate::speedtest::sdk_payload::selection::{
    build_server_list_entry, is_entry, list_servers, parse_host_and_port, reported_host,
    run_servers, url_fallback, url_of_host, SdkServerListEntry,
};

verus! {

/// The report of a run.
#[derive(Debug)]
pub struct SdkPayload {
    pub app: SdkApp,
    pub serverid: u64,
    pub source: &'static str,
    pub configs: SdkConfigs,
    pub location: SdkLocation,
    pub isp_name: String,
    pub guid: String,
    pub server_selection_guid: String,
    pub server_selection_method: &'static str,
    pub spoofed: bool,
    pub measurements: PreparedSdkMeasurements,
}

/// Why a run cannot be reported.
#[derive(Clone, Copy, Debug, PartialEq, Eq, Structural)]
pub enum SdkPayloadError {
    MissingClient,
    MissingServer,
    MissingPing,
    InvalidPing,
    InvalidThroughput,
}

impl SdkPayloadError {
    pub open spec fn text(self) -> Seq<char> {
        match self {
            SdkPayloadError::MissingClient =>
                "cannot build SDK payload without client metadata"@,
            SdkPayloadError::MissingServer =>
                "cannot build SDK payload without selected server"@,
            SdkPayloadError::MissingPing => "cannot build SDK payload without ping result"@,
            SdkPayloadError::InvalidPing => "ping must be a finite non-negative number"@,
            SdkPayloadError::InvalidThroughput =>
                "throughput Mbps must be a finite non-negative number"@,
        }
    }

    pub fn message(&self) -> (r: String)
        ensures
            r@ == self.text(),
    {
        match self {
            SdkPayloadError::MissingClient =>
                "cannot build SDK payload without client metadata".to_owned(),
            SdkPayloadError::MissingServer =>
                "cannot build SDK payload without selected server".to_owned(),
            SdkPayloadError::MissingPing =>
                "cannot build SDK payload without ping result".to_owned(),
            SdkPayloadError::InvalidPing => "ping must be a finite non-negative number".to_owned(),
            SdkPayloadError::InvalidThroughput =>
                "throughput Mbps must be a finite non-negative number".to_owned(),
        }
    }
}

/// The first thing that keeps a run from being reported.
pub open spec fn payload_fault(result: RunResult) -> Option<SdkPayloadError> {
    if result.client is None {
        Some(SdkPayloadError::MissingClient)
    } else if result.server is None {
        Some(SdkPayloadError::MissingServer)
    } else if result.ping_ns is None {
        Some(SdkPayloadError::MissingPing)
    } else if result.ping_ns->0.den == 0 {
        Some(SdkPayloadError::InvalidPing)
    } else if !reportable(result.download) || !reportable(result.upload) {
        Some(SdkPayloadError::InvalidThroughput)
    } else {
        None
    }
}

/// Whether the list has an entry for each server, in their order.
pub open spec fn are_entries(
    servers: Seq<Server>,
    client: ClientMeta,
    entries: Seq<SdkServerListEntry>,
) -> bool {
    &&& entries.len() == servers.len()
    &&& forall|i: int|
        0 <= i < servers.len() ==> is_entry(#[trigger] servers[i], client, entries[i])
}

/// Whether the payload reports the run.
pub open spec fn reports(
    result: RunResult,
    artifacts: SdkArtifacts,
    guid: Seq<char>,
    client_is_v6: bool,
    average_text: Seq<char>,
    payload: SdkPayload,
) -> bool {
    let client = result.client->0;
    let server = result.server->0;
    let (hostname, port) = reported_host(server.host@, url_of_host(server.host@));
    let m = payload.measurements;
    &&& payload.app.commit@ == "tunmux-generated"@
    &&& payload.app.version@ == "3.1.1"@
    &&& payload.serverid == server.id
    &&& payload.source@ == "st4-js"@
    &&& has_constants(payload.configs)
    &&& payload.configs.provider.country_code == client.country
    &&& payload.configs.provider.ip_address == client.ip
    &&& payload.configs.provider.isp_name == client.isp
    &&& payload.configs.provider.provider_name == client.isp
    &&& payload.configs.provider.isp_id == client.isp_id
    &&& payload.configs.provider.provider_hash == client.provider_hash
    &&& are_entries(run_servers(result, server), client, payload.configs.server_list@)
    &&& payload.configs.latency_protocol == m.protocols.latency_protocol
    &&& payload.configs.download_protocol == m.protocols.download_protocol
    &&& payload.configs.upload_protocol == m.protocols.upload_protocol
    &&& payload.configs.host@ == hostname
    &&& payload.configs.port == port
    &&& payload.location == (SdkLocation {
        country: client.country,
        country_code: client.country,
        lat: client.latitude,
        lon: client.longitude,
    })
    &&& payload.isp_name == client.isp
    &&& payload.guid@ == guid
    &&& payload.server_selection_guid@ == guid
    &&& payload.server_selection_method@ == "auto"@
    &&& !payload.spoofed
    &&& are_prepared(
        result,
        artifacts,
        server,
        result.ping_ns->0,
        average_text,
        client_is_v6,
        m,
    )
}

fn list_entries(servers: &Vec<Server>, client: &ClientMeta) -> (r: Vec<SdkServerListEntry>)
    ensures
        are_entries(servers@, *client, r@),
{
    let mut out: Vec<SdkServerListEntry> = Vec::new();
    let mut i: usize = 0;
    while i < servers.len()
        invariant
            i <= servers.len(),
            out.len() == i,
            forall|k: int| 0 <= k < i ==> is_entry(#[trigger] servers[k], *client, out[k]),
        decreases servers.len() - i,
    {
        out.push(build_server_list_entry(&servers[i], client));
        i = i + 1;
    }
    out
}

/// The report of a run. `client_is_v6` says whether the client's address is one of IPv6, and
/// `average_text` gives the average latency of the server in milliseconds.
pub fn build_sdk_result_payload(
    result: &RunResult,
    artifacts: &SdkArtifacts,
    guid: &str,
    client_is_v6: bool,
    average_text: &str,
) -> (r: Result<SdkPayload, SdkPayloadError>)
    ensures
        match r {
            Ok(payload) => payload_fault(*result) is None && reports(
                *result,
                *artifacts,
                guid@,
                client_is_v6,
                average_text@,
                payload,
            ) && payload.measurements.hash@.len() == 32,
            Err(error) => payload_fault(*result) == Some(error),
        },
{
    let client = match &result.client {
        Some(client) => client,
        None => {
            return Err(SdkPayloadError::MissingClient);
        },
    };
    let server = match &result.server {
        Some(server) => server,
        None => {
            return Err(SdkPayloadError::MissingServer);
        },
    };
    let average: Fraction = match result.ping_ns {
        Some(average) => average,
        None => {
            return Err(SdkPayloadError::MissingPing);
        },
    };
    if average.den == 0 {
        return Err(SdkPayloadError::InvalidPing);
    }
    let fallback_url = url_fallback(server.host.as_str());
    let (hostname, port) = parse_host_and_port(server.host.as_str(), fallback_url.as_str());
    let servers = list_servers(result, server);
    let server_list = list_entries(&servers, client);
    let measurements = match prepare_sdk_measurements(
        result,
        artifacts,
        server,
        average,
        average_text,
        client_is_v6,
    ) {
        Ok(measurements) => measurements,
        Err(InvalidThroughput) => {
            return Err(SdkPayloadError::InvalidThroughput);
        },
    };
    Ok(
        SdkPayload {
            app: build_sdk_app(),
            serverid: server.id,
            source: "st4-js",
            configs: build_sdk_configs(
                client,
                measurements.protocols,
                server_list,
                hostname,
                port,
            ),
            location: build_sdk_location(client),
            isp_name: client.isp.clone(),
            guid: guid.to_owned(),
            server_selection_guid: guid.to_owned(),
            server_selection_method: "auto",
            spoofed: false,
            measurements,
        },
    )
}

/// A direction that was not run leaves nothing of itself in the report.
pub proof fn missing_directions_are_left_out(
    result: RunResult,
    artifacts: SdkArtifacts,
    guid: Seq<char>,
    client_is_v6: bool,
    average_text: Seq<char>,
    payload: SdkPayload,
)
    requires
        reports(result, artifacts, guid, client_is_v6, average_text, payload),
    ensures
        result.download is None ==> {
            &&& payload.measurements.download is None
            &&& payload.measurements.download_speeds is None
            &&& payload.measurements.download_samples is None
            &&& payload.measurements.download_latency is None
        },
        result.upload is None ==> {
            &&& payload.measurements.upload_speeds is None
            &&& payload.measurements.upload_samples is None
            &&& payload.measurements.upload_latency is None
        },
        result.upload is None && crate::speedtest::sdk_payload::throughput::remote_upload(
            result,
            artifacts,
        ) is None ==> payload.measurements.upload is None,
{
}

/// A run can be reported once its client, its server and its ping are known, whatever directions
/// were run; what is missing first is named.
pub proof fn whole_runs_can_be_reported(result: RunResult)
    ensures
        result.client is Some && result.server is Some && (result.ping_ns matches Some(ping)
            && ping.den > 0) && result.download is None && result.upload is None
            ==> payload_fault(result) is None,
        result.client is None ==> payload_fault(result) == Some(SdkPayloadError::MissingClient),
        result.client is Some && result.server is None ==> payload_fault(result) == Some(
            SdkPayloadError::MissingServer,
        ),
        result.client is Some && result.server is Some && result.ping_ns is None ==> payload_fault(
            result,
        ) == Some(SdkPayloadError::MissingPing),
{
}

/// A report names the run's own server and client, and lists every server of the run in its order.
pub proof fn reports_name_the_server_and_the_client(
    result: RunResult,
    artifacts: SdkArtifacts,
    guid: Seq<char>,
    client_is_v6: bool,
    average_text: Seq<char>,
    payload: SdkPayload,
    i: int,
)
    requires
        reports(result, artifacts, guid, client_is_v6, average_text, payload),
        result.server_pool matches Some(pool) && 0 <= i < pool@.len(),
    ensures
        payload.serverid == result.server->0.id,
        payload.guid@ == guid,
        payload.isp_name == result.client->0.isp,
        payload.location.lat == result.client->0.latitude,
        payload.location.lon == result.client->0.longitude,
        payload.configs.provider.ip_address == result.client->0.ip,
        payload.configs.latency_protocol == payload.measurements.protocols.latency_protocol,
        payload.configs.download_protocol == payload.measurements.protocols.download_protocol,
        payload.configs.upload_protocol == payload.measurements.protocols.upload_protocol,
        payload.configs.server_list@.len() == result.server_pool->0@.len(),
        payload.configs.server_list@[i].id == result.server_pool->0@[i].id,
        payload.configs.server_list@[i].host == result.server_pool->0@[i].host,
{
    let servers = run_servers(result, result.server->0);
    assert(servers == result.server_pool->0@);
    assert(is_entry(servers[i], result.client->0, payload.configs.server_list@[i]));
}

} // verus!
