//! The record of one experiment run.

use vstd::prelude::*;

use crate::stream::Rate;
use crate::text::join2;
use crate::time::{Duration, Timestamp};

verus! {

/// The version of iroh that the experiment runs on.
pub const IROH_VERSION: &'static str = "1.0.3";

/// Selected path kind.
#[derive(Debug, Clone, Copy, PartialEq, Eq, Structural)]
pub enum SelectedPath {
    /// Direct IP path only.
    DirectIp,
    /// Relay path only.
    Relay,
    /// Both direct and relay paths are active (migration period).
    Mixed,
    /// No usable path.
    NoPath,
}

/// Throughput of a payload, as the numbers it is computed from.
#[derive(Debug, Clone, Copy, PartialEq, Eq, Structural)]
pub enum Throughput {
    /// The rate of a framed stream over its frame span.
    Stream(Rate),
    /// So many bytes in this time, which is never below a millisecond.
    Transfer { bytes: u64, elapsed: Duration },
}

/// A time, or a millisecond where it is shorter.
pub open spec fn at_least_a_millisecond(elapsed: Duration) -> Duration {
    if elapsed.secs == 0 && elapsed.nanos < 1_000_000 {
        Duration { secs: 0, nanos: 1_000_000 }
    } else {
        elapsed
    }
}

impl Throughput {
    /// The throughput of a transfer; one that took next to no time counts as
    /// a millisecond.
    pub fn of_transfer(bytes: u64, elapsed: Duration) -> (res: Self)
        ensures
            res == (Throughput::Transfer { bytes, elapsed: at_least_a_millisecond(elapsed) }),
    {
        let elapsed = if elapsed.secs == 0 && elapsed.nanos < 1_000_000 {
            Duration { secs: 0, nanos: 1_000_000 }
        } else {
            elapsed
        };
        Throughput::Transfer { bytes, elapsed }
    }
}

/// One run of one experiment cell. Public IPs are never stored; only
/// comparison results.
///
/// Fields that a run does not measure are `None`, so an absent measurement is
/// never mistaken for a measured zero.
#[derive(Debug, Clone)]
pub struct ExperimentResult {
    pub schema_version: u32,
    pub run_id: String,
    pub timestamp: Timestamp,
    pub git_revision: Option<String>,
    pub iroh_version: String,
    pub method: String,
    pub network_profile: String,
    pub reference_method: Option<String>,
    pub observed_ip_equal: Option<bool>,
    pub observed_port_equal: Option<bool>,
    pub probe_latency_ms: Option<u64>,
    /// Whether both ends of this observation used the same kind of socket
    /// (false for standalone probes: NATs with per-destination mappings may
    /// show a different mapping than an iroh connection would get). Null
    /// when the run does not measure it.
    pub same_socket_as_iroh: Option<bool>,
    /// Whether an iroh direct connection was established. Null for methods
    /// that do not attempt one (e.g. external-address probes), so an
    /// unattempted check is never mistaken for a measured failure.
    pub direct_connection_success: Option<bool>,
    pub time_to_direct_ms: Option<u64>,
    pub selected_path: Option<SelectedPath>,
    pub relay_control_tx_bytes: Option<u64>,
    pub relay_control_rx_bytes: Option<u64>,
    pub relay_media_tx_bytes: Option<u64>,
    pub relay_media_rx_bytes: Option<u64>,
    pub payload_bytes: u64,
    /// Throughput of the payload transfer, to be written in Mbit/s.
    pub media_throughput_mbps: Option<Throughput>,
    pub failure_reason: Option<String>,
}

/// An [`ExperimentResult`] as plain values.
#[verifier::ext_equal]
pub struct ResultView {
    pub schema_version: u32,
    pub run_id: Seq<char>,
    pub timestamp: Timestamp,
    pub git_revision: Option<Seq<char>>,
    pub iroh_version: Seq<char>,
    pub method: Seq<char>,
    pub network_profile: Seq<char>,
    pub reference_method: Option<Seq<char>>,
    pub observed_ip_equal: Option<bool>,
    pub observed_port_equal: Option<bool>,
    pub probe_latency_ms: Option<u64>,
    pub same_socket_as_iroh: Option<bool>,
    pub direct_connection_success: Option<bool>,
    pub time_to_direct_ms: Option<u64>,
    pub selected_path: Option<SelectedPath>,
    pub relay_control_tx_bytes: Option<u64>,
    pub relay_control_rx_bytes: Option<u64>,
    pub relay_media_tx_bytes: Option<u64>,
    pub relay_media_rx_bytes: Option<u64>,
    pub payload_bytes: u64,
    pub media_throughput_mbps: Option<Throughput>,
    pub failure_reason: Option<Seq<char>>,
}

/// An optional text as plain values.
pub open spec fn text_of(s: Option<String>) -> Option<Seq<char>> {
    match s {
        Some(s) => Some(s@),
        None => None,
    }
}

impl View for ExperimentResult {
    type V = ResultView;

    open spec fn view(&self) -> ResultView {
        ResultView {
            schema_version: self.schema_version,
            run_id: self.run_id@,
            timestamp: self.timestamp,
            git_revision: text_of(self.git_revision),
            iroh_version: self.iroh_version@,
            method: self.method@,
            network_profile: self.network_profile@,
            reference_method: text_of(self.reference_method),
            observed_ip_equal: self.observed_ip_equal,
            observed_port_equal: self.observed_port_equal,
            probe_latency_ms: self.probe_latency_ms,
            same_socket_as_iroh: self.same_socket_as_iroh,
            direct_connection_success: self.direct_connection_success,
            time_to_direct_ms: self.time_to_direct_ms,
            selected_path: self.selected_path,
            relay_control_tx_bytes: self.relay_control_tx_bytes,
            relay_control_rx_bytes: self.relay_control_rx_bytes,
            relay_media_tx_bytes: self.relay_media_tx_bytes,
            relay_media_rx_bytes: self.relay_media_rx_bytes,
            payload_bytes: self.payload_bytes,
            media_throughput_mbps: self.media_throughput_mbps,
            failure_reason: text_of(self.failure_reason),
        }
    }
}

impl ResultView {
    /// A run of which nothing is known yet.
    pub open spec fn fresh(
        run_id: Seq<char>,
        method: Seq<char>,
        network_profile: Seq<char>,
        timestamp: Timestamp,
    ) -> ResultView {
        ResultView {
            schema_version: 1,
            run_id,
            timestamp,
            git_revision: None,
            iroh_version: IROH_VERSION@,
            method,
            network_profile,
            reference_method: None,
            observed_ip_equal: None,
            observed_port_equal: None,
            probe_latency_ms: None,
            same_socket_as_iroh: None,
            direct_connection_success: None,
            time_to_direct_ms: None,
            selected_path: None,
            relay_control_tx_bytes: None,
            relay_control_rx_bytes: None,
            relay_media_tx_bytes: None,
            relay_media_rx_bytes: None,
            payload_bytes: 0,
            media_throughput_mbps: None,
            failure_reason: None,
        }
    }
}

/// Build a fresh result for a run at a point in time, with all counters
/// unknown / unset.
pub fn new_result_at(run_id: String, method: &str, network_profile: &str, timestamp: Timestamp) -> (res:
    ExperimentResult)
    ensures
        res@ == ResultView::fresh(run_id@, method@, network_profile@, timestamp),
{
    ExperimentResult {
        schema_version: 1,
        run_id,
        timestamp,
        git_revision: None,
        iroh_version: IROH_VERSION.to_owned(),
        method: method.to_owned(),
        network_profile: network_profile.to_owned(),
        reference_method: None,
        observed_ip_equal: None,
        observed_port_equal: None,
        probe_latency_ms: None,
        same_socket_as_iroh: None,
        direct_connection_success: None,
        time_to_direct_ms: None,
        selected_path: None,
        relay_control_tx_bytes: None,
        relay_control_rx_bytes: None,
        relay_media_tx_bytes: None,
        relay_media_rx_bytes: None,
        payload_bytes: 0,
        media_throughput_mbps: None,
        failure_reason: None,
    }
}

/// Build a fresh result for a run that starts now, with all counters unknown /
/// unset.
pub fn new_result(run_id: String, method: &str, network_profile: &str) -> (res: ExperimentResult)
    ensures
        res@ == ResultView::fresh(run_id@, method@, network_profile@, res.timestamp),
        res.timestamp.wf(),
{
    new_result_at(run_id, method, network_profile, Timestamp::now())
}

impl ExperimentResult {
    /// Whether the run as a whole succeeded: it did unless it recorded why it
    /// failed.
    pub fn verdict(&self) -> (res: Result<(), String>)
        ensures
            match text_of(self.failure_reason) {
                None => res is Ok,
                Some(reason) => res matches Err(e) && e@ == "run failed: "@ + reason,
            },
    {
        match &self.failure_reason {
            None => Ok(()),
            Some(reason) => Err(join2("run failed: ", reason.as_str())),
        }
    }
}

/// A run that ended before it could measure anything.
#[derive(Debug, Clone)]
pub struct RunFailure {
    /// Null where no direct connection was attempted, false where an attempt
    /// failed.
    pub direct_connection_success: Option<bool>,
    pub reason: String,
}

impl RunFailure {
    /// A failure during setup, before any direct attempt.
    pub fn setup(reason: String) -> (res: Self)
        ensures
            res.direct_connection_success is None,
            res.reason == reason,
    {
        RunFailure { direct_connection_success: None, reason }
    }

    /// A failed attempt at a direct connection.
    pub fn failed_direct(reason: String) -> (res: Self)
        ensures
            res.direct_connection_success == Some(false),
            res.reason == reason,
    {
        RunFailure { direct_connection_success: Some(false), reason }
    }

    /// Record the failure in the result of the run.
    pub fn record(self, result: &mut ExperimentResult)
        ensures
            final(result)@ == (ResultView {
                direct_connection_success: self.direct_connection_success,
                failure_reason: Some(self.reason@),
                ..old(result)@
            }),
    {
        result.direct_connection_success = self.direct_connection_success;
        result.failure_reason = Some(self.reason);
    }
}

// ---------------------------------------------------------------------------
// Laws
// ---------------------------------------------------------------------------

/// A fresh result carries what it was made with and claims no measurement.
pub proof fn law_fresh_claims_nothing(
    run_id: Seq<char>,
    method: Seq<char>,
    network_profile: Seq<char>,
    timestamp: Timestamp,
)
    ensures
        ({
            let r = ResultView::fresh(run_id, method, network_profile, timestamp);
            &&& r.schema_version == 1
            &&& r.run_id == run_id
            &&& r.timestamp == timestamp
            &&& r.method == method
            &&& r.network_profile == network_profile
            &&& r.iroh_version == "1.0.3"@
            &&& r.git_revision is None
            &&& r.reference_method is None
            &&& r.observed_ip_equal is None
            &&& r.observed_port_equal is None
            &&& r.probe_latency_ms is None
            &&& r.same_socket_as_iroh is None
            &&& r.direct_connection_success is None
            &&& r.time_to_direct_ms is None
            &&& r.selected_path is None
            &&& r.relay_control_tx_bytes is None
            &&& r.relay_control_rx_bytes is None
            &&& r.relay_media_tx_bytes is None
            &&& r.relay_media_rx_bytes is None
            &&& r.payload_bytes == 0
            &&& r.media_throughput_mbps is None
            &&& r.failure_reason is None
        }),
{
}

/// A transfer's time is taken as it is, but never below a millisecond.
pub proof fn law_time_floor(elapsed: Duration)
    requires
        elapsed.nanos < 1_000_000_000,
    ensures
        ({
            let taken = at_least_a_millisecond(elapsed);
            let total = elapsed.secs * 1_000_000_000 + elapsed.nanos;
            &&& total >= 1_000_000 ==> taken == elapsed
            &&& total < 1_000_000 ==> taken.secs == 0 && taken.nanos == 1_000_000
        }),
{
}

/// A result shows all that it holds.
pub proof fn law_result_hides_nothing(r: ExperimentResult)
    ensures
        r@.schema_version == r.schema_version,
        r@.run_id == r.run_id@,
        r@.timestamp == r.timestamp,
        r@.iroh_version == r.iroh_version@,
        r@.method == r.method@,
        r@.network_profile == r.network_profile@,
        r.git_revision is None <==> r@.git_revision is None,
        r.git_revision matches Some(t) ==> r@.git_revision == Some(t@),
        r.reference_method is None <==> r@.reference_method is None,
        r.reference_method matches Some(t) ==> r@.reference_method == Some(t@),
        r@.observed_ip_equal == r.observed_ip_equal,
        r@.observed_port_equal == r.observed_port_equal,
        r@.probe_latency_ms == r.probe_latency_ms,
        r@.same_socket_as_iroh == r.same_socket_as_iroh,
        r@.direct_connection_success == r.direct_connection_success,
        r@.time_to_direct_ms == r.time_to_direct_ms,
        r@.selected_path == r.selected_path,
        r@.relay_control_tx_bytes == r.relay_control_tx_bytes,
        r@.relay_control_rx_bytes == r.relay_control_rx_bytes,
        r@.relay_media_tx_bytes == r.relay_media_tx_bytes,
        r@.relay_media_rx_bytes == r.relay_media_rx_bytes,
        r@.payload_bytes == r.payload_bytes,
        r@.media_throughput_mbps == r.media_throughput_mbps,
        r.failure_reason is None <==> r@.failure_reason is None,
        r.failure_reason matches Some(t) ==> r@.failure_reason == Some(t@),
{
}

} // verus!
