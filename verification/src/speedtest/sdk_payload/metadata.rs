//! The constant parts of a report, and what it says of the client.

use vstd::prelude::*;

use crate::model::{ClientMeta, RunResult};
use crate::num::scalar::Scalar;
use crate::speedtest::sdk_payload::selection::SdkServerListEntry;
use crate::text::{copy_opt, same_text};
use crate::urls::opt_view;

verus! {

/// The protocols of a run.
#[derive(Clone, Copy, Debug)]
pub struct SdkProtocols {
    pub test_method: &'static str,
    pub latency_protocol: &'static str,
    pub download_protocol: &'static str,
    pub upload_protocol: &'static str,
    pub latency_connection_protocol: &'static str,
    pub download_connection_protocol: &'static str,
    pub upload_connection_protocol: &'static str,
}

/// Whether the protocols are those of a run over plain connections, or in HTTP requests.
pub open spec fn are_protocols(over_tcp: bool, p: SdkProtocols) -> bool {
    let plain = if over_tcp {
        "tcp"@
    } else {
        "xhr"@
    };
    let secure = if over_tcp {
        "tcps"@
    } else {
        "xhrs"@
    };
    &&& p.test_method@ == if over_tcp {
        "wss,tcps,tcps"@
    } else {
        "wss,xhrs,xhrs"@
    }
    &&& p.latency_protocol@ == "ws"@
    &&& p.download_protocol@ == plain
    &&& p.upload_protocol@ == plain
    &&& p.latency_connection_protocol@ == "wss"@
    &&& p.download_connection_protocol@ == secure
    &&& p.upload_connection_protocol@ == secure
}

/// The protocols of a run whose mode has the given name.
pub fn infer_protocols(speedtest_api: &Option<String>) -> (r: SdkProtocols)
    ensures
        are_protocols(opt_view(*speedtest_api) == Some("tcp"@), r),
{
    let over_tcp: bool = match speedtest_api {
        Some(name) => same_text(name.as_str(), "tcp"),
        None => false,
    };
    if over_tcp {
        SdkProtocols {
            test_method: "wss,tcps,tcps",
            latency_protocol: "ws",
            download_protocol: "tcp",
            upload_protocol: "tcp",
            latency_connection_protocol: "wss",
            download_connection_protocol: "tcps",
            upload_connection_protocol: "tcps",
        }
    } else {
        SdkProtocols {
            test_method: "wss,xhrs,xhrs",
            latency_protocol: "ws",
            download_protocol: "xhr",
            upload_protocol: "xhr",
            latency_connection_protocol: "wss",
            download_connection_protocol: "xhrs",
            upload_connection_protocol: "xhrs",
        }
    }
}

#[derive(Clone, Copy, Debug)]
pub struct SdkApp {
    pub commit: &'static str,
    pub version: &'static str,
}

pub fn build_sdk_app() -> (r: SdkApp)
    ensures
        r.commit@ == "tunmux-generated"@,
        r.version@ == "3.1.1"@,
{
    SdkApp { commit: "tunmux-generated", version: "3.1.1" }
}

#[derive(Clone, Copy, Debug)]
pub struct SdkJsEngine {
    pub save_content_type: &'static str,
    pub save_type: &'static str,
}

#[derive(Clone, Copy, Debug)]
pub struct SdkSwf {
    pub engine: &'static str,
    pub express: &'static str,
}

#[derive(Debug)]
pub struct SdkProvider {
    pub country_code: String,
    pub ip_address: String,
    pub isp_name: String,
    pub provider_name: String,
    pub isp_id: Option<u64>,
    pub provider_hash: Option<String>,
}

#[derive(Debug)]
pub struct SdkLocation {
    pub country: String,
    pub country_code: String,
    pub lat: Scalar,
    pub lon: Scalar,
}

#[derive(Clone, Copy, Debug)]
pub struct SdkLogErrorsToServer {
    pub level: &'static str,
    pub use_costanza: bool,
    pub max_per_client: u64,
    pub allow_during_test: bool,
    pub expensive_stack_traces: bool,
}

#[derive(Clone, Copy, Debug)]
pub struct SdkConnections {
    pub is_vpn: bool,
    pub selection_method: &'static str,
    pub mode: &'static str,
}

/// The configuration in a report.
#[derive(Debug)]
pub struct SdkConfigs {
    pub remote_debugging: bool,
    pub max_display_servers: u64,
    pub request_web_location: bool,
    pub short_tests: bool,
    pub automatic_stage_progression: bool,
    pub event_skip_interval: u64,
    pub latency_max_servers: u64,
    pub js_engine: SdkJsEngine,
    pub stages_list: Vec<&'static str>,
    pub loaded_latency_enabled: bool,
    pub swf: SdkSwf,
    pub provider: SdkProvider,
    pub vpn_detected: bool,
    pub log_errors_to_server: SdkLogErrorsToServer,
    pub connections: SdkConnections,
    pub server_list: Vec<SdkServerListEntry>,
    pub latency_protocol: &'static str,
    pub download_protocol: &'static str,
    pub upload_protocol: &'static str,
    pub host: String,
    pub port: u16,
    pub server_version: &'static str,
    pub server_build: &'static str,
}

/// What the configuration says whatever the run was.
pub open spec fn has_constants(c: SdkConfigs) -> bool {
    &&& !c.remote_debugging
    &&& c.max_display_servers == 20
    &&& c.request_web_location
    &&& !c.short_tests
    &&& !c.automatic_stage_progression
    &&& c.event_skip_interval == 2
    &&& c.latency_max_servers == 10
    &&& c.js_engine.save_content_type@ == "application/json"@
    &&& c.js_engine.save_type@ == "st4-js"@
    &&& c.stages_list@.map_values(|name: &'static str| name@) == seq![
        "latency"@,
        "download"@,
        "upload"@,
        "save"@,
    ]
    &&& c.loaded_latency_enabled
    &&& c.swf.engine@ == "/engine.swf"@
    &&& c.swf.express@ == "/expressInstall.swf"@
    &&& !c.vpn_detected
    &&& c.log_errors_to_server.level@ == "warn"@
    &&& c.log_errors_to_server.use_costanza
    &&& c.log_errors_to_server.max_per_client == 100
    &&& !c.log_errors_to_server.allow_during_test
    &&& c.log_errors_to_server.expensive_stack_traces
    &&& !c.connections.is_vpn
    &&& c.connections.selection_method@ == "auto"@
    &&& c.connections.mode@ == "multi"@
    &&& c.server_version@ == "2.11.1"@
    &&& c.server_build@ == "tunmux-generated"@
}

pub fn build_sdk_configs(
    client: &ClientMeta,
    protocols: SdkProtocols,
    server_list: Vec<SdkServerListEntry>,
    hostname: String,
    port: u16,
) -> (r: SdkConfigs)
    ensures
        has_constants(r),
        r.provider.country_code == client.country,
        r.provider.ip_address == client.ip,
        r.provider.isp_name == client.isp,
        r.provider.provider_name == client.isp,
        r.provider.isp_id == client.isp_id,
        r.provider.provider_hash == client.provider_hash,
        r.server_list == server_list,
        r.latency_protocol == protocols.latency_protocol,
        r.download_protocol == protocols.download_protocol,
        r.upload_protocol == protocols.upload_protocol,
        r.host == hostname,
        r.port == port,
{
    let stages_list: Vec<&'static str> = vec!["latency", "download", "upload", "save"];
    assert(stages_list@.map_values(|name: &'static str| name@) =~= seq![
        "latency"@,
        "download"@,
        "upload"@,
        "save"@,
    ]);
    SdkConfigs {
        remote_debugging: false,
        max_display_servers: 20,
        request_web_location: true,
        short_tests: false,
        automatic_stage_progression: false,
        event_skip_interval: 2,
        latency_max_servers: 10,
        js_engine: SdkJsEngine { save_content_type: "application/json", save_type: "st4-js" },
        stages_list,
        loaded_latency_enabled: true,
        swf: SdkSwf { engine: "/engine.swf", express: "/expressInstall.swf" },
        provider: SdkProvider {
            country_code: client.country.clone(),
            ip_address: client.ip.clone(),
            isp_name: client.isp.clone(),
            provider_name: client.isp.clone(),
            isp_id: client.isp_id,
            provider_hash: copy_opt(&client.provider_hash),
        },
        vpn_detected: false,
        log_errors_to_server: SdkLogErrorsToServer {
            level: "warn",
            use_costanza: true,
            max_per_client: 100,
            allow_during_test: false,
            expensive_stack_traces: true,
        },
        connections: SdkConnections { is_vpn: false, selection_method: "auto", mode: "multi" },
        server_list,
        latency_protocol: protocols.latency_protocol,
        download_protocol: protocols.download_protocol,
        upload_protocol: protocols.upload_protocol,
        host: hostname,
        port,
        server_version: "2.11.1",
        server_build: "tunmux-generated",
    }
}

pub fn build_sdk_location(client: &ClientMeta) -> (r: SdkLocation)
    ensures
        r == (SdkLocation {
            country: client.country,
            country_code: client.country,
            lat: client.latitude,
            lon: client.longitude,
        }),
{
    SdkLocation {
        country: client.country.clone(),
        country_code: client.country.clone(),
        lat: client.latitude,
        lon: client.longitude,
    }
}

/// The client's address, and again as an IPv6 address where it is one.
pub fn split_client_ips(client_ip: &str, is_v6: bool) -> (r: (Option<String>, Option<String>))
    ensures
        opt_view(r.0) == Some(client_ip@),
        opt_view(r.1) == if is_v6 {
            Some(client_ip@)
        } else {
            None
        },
{
    let second = if is_v6 {
        Some(client_ip.to_owned())
    } else {
        None
    };
    (Some(client_ip.to_owned()), second)
}

/// What a report says beside the measurements. The details themselves follow where there are any.
#[derive(Debug)]
pub struct SdkSupplementalData {
    pub details_included: bool,
    pub proxy: Option<String>,
    pub speedtest_api: Option<String>,
}

pub fn build_supplemental_data(result: &RunResult) -> (r: SdkSupplementalData)
    ensures
        r == (SdkSupplementalData {
            details_included: result.details is Some,
            proxy: result.proxy,
            speedtest_api: result.speedtest_api,
        }),
{
    SdkSupplementalData {
        details_included: result.details.is_some(),
        proxy: copy_opt(&result.proxy),
        speedtest_api: copy_opt(&result.speedtest_api),
    }
}

} // verus!
