//! The data of a speedtest run.

use vstd::prelude::*;

use crate::num::fraction::Fraction;
use crate::num::rate::Rate;
use crate::num::scalar::Scalar;
use crate::speedtest::throughput::BlendedRate;
use crate::speedtest::transfer_util::TransferCounters;
use crate::text::copy_opt;

verus! {

/// Who runs the test.
#[derive(Debug)]
pub struct ClientMeta {
    pub ip: String,
    pub isp: String,
    pub country: String,
    pub latitude: Scalar,
    pub longitude: Scalar,
    /// The latitude with four decimals.
    pub latitude_text: String,
    /// The longitude with four decimals.
    pub longitude_text: String,
    pub isp_id: Option<u64>,
    pub provider_hash: Option<String>,
}

/// A server as the report shows it. Its latency is the average in nanoseconds.
#[derive(Debug)]
pub struct Server {
    pub id: u64,
    pub sponsor: String,
    pub name: String,
    pub country: String,
    pub host: String,
    pub distance_km: Scalar,
    pub latency_ns: Option<Fraction>,
    pub latency_stddev_ms: Option<Scalar>,
    pub download_avg_mbps: Option<Fraction>,
    pub download_bytes: Option<u64>,
    pub sdk_url: Option<String>,
    pub sdk_lat: Option<String>,
    pub sdk_lon: Option<String>,
    pub sdk_cc: Option<String>,
    pub sdk_preferred: Option<u8>,
    pub sdk_isp_id: Option<String>,
    pub sdk_https_functional: Option<u8>,
    pub sdk_hostname: Option<String>,
    pub sdk_port: Option<u16>,
    pub sdk_force_ping_select: Option<u8>,
}

impl Clone for Server {
    fn clone(&self) -> (r: Server)
        ensures
            r == *self,
    {
        Server {
            id: self.id,
            sponsor: self.sponsor.clone(),
            name: self.name.clone(),
            country: self.country.clone(),
            host: self.host.clone(),
            distance_km: self.distance_km,
            latency_ns: self.latency_ns,
            latency_stddev_ms: self.latency_stddev_ms,
            download_avg_mbps: self.download_avg_mbps,
            download_bytes: self.download_bytes,
            sdk_url: copy_opt(&self.sdk_url),
            sdk_lat: copy_opt(&self.sdk_lat),
            sdk_lon: copy_opt(&self.sdk_lon),
            sdk_cc: copy_opt(&self.sdk_cc),
            sdk_preferred: self.sdk_preferred,
            sdk_isp_id: copy_opt(&self.sdk_isp_id),
            sdk_https_functional: self.sdk_https_functional,
            sdk_hostname: copy_opt(&self.sdk_hostname),
            sdk_port: self.sdk_port,
            sdk_force_ping_select: self.sdk_force_ping_select,
        }
    }
}

/// A speed as it is shown, and in whole bits per second.
#[derive(Clone, Copy, Debug, PartialEq, Eq, Structural)]
pub struct Speed {
    pub mbps: Scalar,
    pub bps: u64,
}

/// The outcome of one direction.
#[derive(Clone, Copy, Debug, PartialEq, Eq, Structural)]
pub struct BenchmarkResult {
    pub mbps: Scalar,
    /// The speed in whole bits per second.
    pub bps: u64,
    pub bytes: u64,
    pub duration_seconds: u64,
    pub connections: usize,
    /// The time from the first byte on.
    pub actual_duration_ms: Option<u64>,
    pub average: Option<Rate>,
    pub mst: Option<Rate>,
}

/// The state of a transfer at one point in time.
#[derive(Clone, Copy, Debug, PartialEq, Eq, Structural)]
pub struct ThroughputInterval {
    pub elapsed_ns: u64,
    pub bytes: u64,
    pub mbps: Scalar,
    /// The speed in whole bits per second.
    pub bps: u64,
}

/// The speeds of one direction, in bytes per millisecond.
#[derive(Clone, Copy, Debug, PartialEq, Eq, Structural)]
pub struct MstSpeedsOut {
    pub average: Rate,
    pub mst_66_20: Rate,
    pub mst_66_30: Rate,
    pub mst_75_30: Rate,
    pub blended: BlendedRate,
    pub superspeed: Rate,
}

/// A time bucket of one direction.
#[derive(Clone, Copy, Debug, PartialEq, Eq, Structural)]
pub struct MstBucketOut {
    pub start_ms: u64,
    pub stop_ms: u64,
    pub bytes: u64,
    pub bandwidth: Rate,
}

/// What was recorded of one direction.
#[derive(Debug)]
pub struct DirectionDetails {
    pub counters: TransferCounters,
    pub intervals: Vec<ThroughputInterval>,
    pub remote_intervals: Option<Vec<ThroughputInterval>>,
    pub mst_speeds: Option<MstSpeedsOut>,
    pub mst_buckets: Option<Vec<MstBucketOut>>,
}

/// How the selected server answered.
#[derive(Debug)]
pub struct SelectedServerLatencyDetails {
    /// The average in nanoseconds.
    pub average: Fraction,
    pub variance_ms: Scalar,
    pub stddev_ms: Option<Scalar>,
    pub samples_ns: Option<Vec<i64>>,
}

/// What was recorded of a run.
#[derive(Debug)]
pub struct RunDetails {
    pub interval_seconds: u64,
    pub selected_server_latency: SelectedServerLatencyDetails,
    pub download: Option<DirectionDetails>,
    pub upload: Option<DirectionDetails>,
}

/// The outcome of a run. Latencies are averages in nanoseconds.
#[derive(Debug)]
pub struct RunResult {
    pub timestamp: String,
    pub speedtest_api: Option<String>,
    pub client: Option<ClientMeta>,
    pub server: Option<Server>,
    pub server_pool: Option<Vec<Server>>,
    pub ping_ns: Option<Fraction>,
    pub jitter_us: Option<u128>,
    pub download: Option<BenchmarkResult>,
    pub download_latency_ns: Option<Fraction>,
    pub upload: Option<BenchmarkResult>,
    pub upload_latency_ns: Option<Fraction>,
    pub proxy: Option<String>,
    pub details: Option<RunDetails>,
}

/// Measurements that a report is built from beside the outcome itself. Latencies are in
/// nanoseconds; a negative one is not a valid reading.
#[derive(Debug)]
pub struct SdkArtifacts {
    pub selected_latency_samples_ns: Option<Vec<i64>>,
    pub download_intervals: Option<Vec<ThroughputInterval>>,
    pub upload_intervals: Option<Vec<ThroughputInterval>>,
    pub upload_remote_intervals: Option<Vec<ThroughputInterval>>,
    pub download_latency_samples_ns: Option<Vec<i64>>,
    pub upload_latency_samples_ns: Option<Vec<i64>>,
}

impl SdkArtifacts {
    /// Nothing was measured.
    pub open spec fn none() -> SdkArtifacts {
        SdkArtifacts {
            selected_latency_samples_ns: None,
            download_intervals: None,
            upload_intervals: None,
            upload_remote_intervals: None,
            download_latency_samples_ns: None,
            upload_latency_samples_ns: None,
        }
    }
}

impl Default for SdkArtifacts {
    fn default() -> (r: SdkArtifacts)
        ensures
            r == SdkArtifacts::none(),
    {
        SdkArtifacts {
            selected_latency_samples_ns: None,
            download_intervals: None,
            upload_intervals: None,
            upload_remote_intervals: None,
            download_latency_samples_ns: None,
            upload_latency_samples_ns: None,
        }
    }
}

} // verus!
