//! HTTP/3 observer: what the edge reports of the client's address, and how it
//! compares with another discovery method.

use vstd::prelude::*;
use vstd::string::{StrSliceExecFns, StringExecFns};

use crate::addr::{IpAddr, SocketAddr, SocketAddrView};
use crate::result::{ExperimentResult, ResultView};
use crate::text::{because, join2, join3, parse_u16, push_decimal, with_cause, IntError};
use crate::time::Duration;

verus! {

/// Header that reports the client's IP.
pub const HDR_OBSERVED_IP: &'static str = "x-observed-ip";

/// Header that reports the client's port.
pub const HDR_OBSERVED_PORT: &'static str = "x-observed-port";

/// Header that reports the round-trip time in milliseconds.
pub const HDR_OBSERVED_RTT_MS: &'static str = "x-observed-rtt-ms";

/// Header that reports the responding data center.
pub const HDR_COLLO: &'static str = "x-observed-colo";

/// One HTTP/3 observation from the edge.
#[derive(Debug, Clone)]
pub struct H3Observation {
    /// Hostname probed (never an IP in public results).
    pub server_host: String,
    /// Client IP as seen by the edge.
    pub observed_ip: Option<IpAddr>,
    /// Client port as seen by the edge, where the platform exposes it.
    pub observed_port: Option<u16>,
    /// Smoothed round-trip time in milliseconds, as the edge wrote it.
    pub rtt_ms: Option<String>,
    /// IATA code of the responding data center.
    pub colo: Option<String>,
    /// Total probe wall time.
    pub duration: Duration,
    /// False for a probe from its own socket.
    pub same_socket_as_iroh: bool,
}

/// Comparison categories between two discovery methods.
#[derive(Debug, Clone, Copy, PartialEq, Eq, Structural)]
pub enum Comparison {
    /// Same IP, and both methods agree on the port.
    SameIpSamePort,
    /// Same IP but ports differ (per-destination NAT mapping).
    SameIpDifferentPort,
    /// Same IP; one method could not report a port.
    SameIpPortMissing,
    /// Different public IPs were observed.
    DifferentIp,
}

/// How a socket address compares with an IP and a port that may be missing.
pub open spec fn comparison(addr: SocketAddrView, ip: Seq<u8>, port: Option<u16>) -> Comparison {
    if addr.octets != ip {
        Comparison::DifferentIp
    } else {
        match port {
            None => Comparison::SameIpPortMissing,
            Some(p) => if p == addr.port {
                Comparison::SameIpSamePort
            } else {
                Comparison::SameIpDifferentPort
            },
        }
    }
}

/// Compare a STUN observation against an H3 observation.
pub fn compare(stun_addr: SocketAddr, h3: &H3Observation) -> (res: Result<Comparison, String>)
    ensures
        match h3.observed_ip {
            Some(ip) => res == Ok::<Comparison, String>(
                comparison(stun_addr@, ip@, h3.observed_port),
            ),
            None => res matches Err(e) && e@ == "H3 observation has no observed ip"@,
        },
{
    match h3.observed_ip {
        None => Err("H3 observation has no observed ip".to_owned()),
        Some(h3_ip) => {
            if stun_addr.ip() != h3_ip {
                return Ok(Comparison::DifferentIp);
            }
            match h3.observed_port {
                None => Ok(Comparison::SameIpPortMissing),
                Some(p) => if p == stun_addr.port() {
                    Ok(Comparison::SameIpSamePort)
                } else {
                    Ok(Comparison::SameIpDifferentPort)
                },
            }
        },
    }
}

/// The URI to request: the port belongs to it when it is not the default one,
/// so servers that route on the authority see the real origin.
pub open spec fn uri_of(host: Seq<char>, path: Seq<char>, port: u16) -> Seq<char> {
    if port == 443 {
        "https://"@ + host + path
    } else {
        "https://"@ + host + ":"@ + crate::text::decimal(port as nat) + path
    }
}

/// The URI to request.
pub fn request_uri(host: &str, path: &str, port: u16) -> (res: String)
    ensures
        res@ == uri_of(host@, path@, port),
{
    let mut out = join2("https://", host);
    if port != 443 {
        out.append(":");
        push_decimal(&mut out, port as u64);
    }
    out.append(path);
    out
}

/// What became of the header that reports the client's IP.
#[derive(Debug, Clone)]
pub enum IpHeader {
    /// The response has no such header.
    Missing,
    /// Its value is no IP address, for this reason.
    Invalid(String),
    Ip(IpAddr),
}

/// Why a response is no observation.
#[derive(Debug, Clone)]
pub enum ObserveError {
    /// The edge returned this status.
    Status(String),
    MissingIp,
    /// The reported IP does not parse, for this reason.
    InvalidIp(String),
    InvalidPort(IntError),
}

/// An [`ObserveError`] as plain values.
pub enum ObserveErrorView {
    Status(Seq<char>),
    MissingIp,
    InvalidIp(Seq<char>),
    InvalidPort(IntError),
}

impl View for ObserveError {
    type V = ObserveErrorView;

    open spec fn view(&self) -> ObserveErrorView {
        match self {
            ObserveError::Status(s) => ObserveErrorView::Status(s@),
            ObserveError::MissingIp => ObserveErrorView::MissingIp,
            ObserveError::InvalidIp(s) => ObserveErrorView::InvalidIp(s@),
            ObserveError::InvalidPort(e) => ObserveErrorView::InvalidPort(*e),
        }
    }
}

impl ObserveErrorView {
    /// The diagnostic, causes included.
    pub open spec fn text(self) -> Seq<char> {
        match self {
            ObserveErrorView::Status(s) => "edge returned "@ + s
                + "; check zone config in infra/cloudflare/"@,
            ObserveErrorView::MissingIp =>
                "response lacks x-observed-ip; check zone config in infra/cloudflare/"@,
            ObserveErrorView::InvalidIp(cause) => "x-observed-ip is not a valid IP address: "@
                + cause,
            ObserveErrorView::InvalidPort(cause) => "x-observed-port is not a valid u16 port: "@
                + cause.text(),
        }
    }
}

impl ObserveError {
    /// The diagnostic, causes included.
    pub fn to_string(&self) -> (res: String)
        ensures
            res@ == self@.text(),
    {
        match self {
            ObserveError::Status(s) => join3(
                "edge returned ",
                s.as_str(),
                "; check zone config in infra/cloudflare/",
            ),
            ObserveError::MissingIp =>
                "response lacks x-observed-ip; check zone config in infra/cloudflare/".to_owned(),
            ObserveError::InvalidIp(cause) => join2(
                "x-observed-ip is not a valid IP address: ",
                cause.as_str(),
            ),
            ObserveError::InvalidPort(cause) => {
                let cause = cause.to_string();
                join2("x-observed-port is not a valid u16 port: ", cause.as_str())
            },
        }
    }
}

/// The edge's answer, as far as the observer reads it.
#[derive(Debug, Clone)]
pub struct EdgeResponse {
    /// The status code.
    pub status: u16,
    /// The status as it prints.
    pub status_text: String,
    pub ip: IpHeader,
    pub port: Option<String>,
    /// The round-trip time header, where its value is a number.
    pub rtt_ms: Option<String>,
    pub colo: Option<String>,
}

/// The port that a header reports. An empty value means that the port was not
/// reported; any other has to be a port.
pub open spec fn port_of(header: Option<Seq<char>>) -> Result<Option<u16>, ObserveErrorView> {
    match header {
        None => Ok(None),
        Some(v) => if v.len() == 0 {
            Ok(None)
        } else {
            match crate::text::u16_of(v) {
                Some(p) => Ok(Some(p)),
                None => Err(ObserveErrorView::InvalidPort(crate::text::u16_error(v))),
            }
        },
    }
}

/// Whether a status code stands for success.
pub open spec fn is_success(status: u16) -> bool {
    200 <= status <= 299
}

/// What an answer observes: the client's IP and port.
pub open spec fn observed(response: EdgeResponse) -> Result<
    (IpAddr, Option<u16>),
    ObserveErrorView,
> {
    if !is_success(response.status) {
        Err(ObserveErrorView::Status(response.status_text@))
    } else {
        match response.ip {
            IpHeader::Missing => Err(ObserveErrorView::MissingIp),
            IpHeader::Invalid(cause) => Err(ObserveErrorView::InvalidIp(cause@)),
            IpHeader::Ip(ip) => match port_of(crate::result::text_of(response.port)) {
                Ok(port) => Ok((ip, port)),
                Err(e) => Err(e),
            },
        }
    }
}

/// Read an observation out of the edge's answer.
///
/// A success without a parsable IP means that the zone is misconfigured: the
/// required observation did not happen, so it fails the probe instead of
/// being reported as absent. Malformed measurement data fails it too.
pub fn observe(host: &str, response: EdgeResponse, duration: Duration) -> (res: Result<
    H3Observation,
    ObserveError,
>)
    ensures
        match res {
            Ok(o) => {
                &&& o.server_host@ == host@
                &&& o.observed_ip matches Some(ip)
                &&& observed(response) == Ok::<(IpAddr, Option<u16>), ObserveErrorView>(
                    (ip, o.observed_port),
                )
                &&& o.rtt_ms == response.rtt_ms
                &&& o.colo == response.colo
                &&& o.duration == duration
                &&& !o.same_socket_as_iroh
            },
            Err(e) => observed(response) == Err::<(IpAddr, Option<u16>), ObserveErrorView>(e@),
        },
{
    if response.status < 200 || response.status > 299 {
        return Err(ObserveError::Status(response.status_text));
    }
    let ip = match response.ip {
        IpHeader::Missing => {
            return Err(ObserveError::MissingIp);
        },
        IpHeader::Invalid(cause) => {
            return Err(ObserveError::InvalidIp(cause));
        },
        IpHeader::Ip(ip) => ip,
    };
    let observed_port = match &response.port {
        None => None,
        Some(v) => {
            if v.as_str().unicode_len() == 0 {
                None
            } else {
                match parse_u16(v.as_str()) {
                    Ok(p) => Some(p),
                    Err(e) => {
                        return Err(ObserveError::InvalidPort(e));
                    },
                }
            }
        },
    };
    Ok(
        H3Observation {
            server_host: host.to_owned(),
            observed_ip: Some(ip),
            observed_port,
            rtt_ms: response.rtt_ms,
            colo: response.colo,
            duration,
            same_socket_as_iroh: false,
        },
    )
}

/// Whether a comparison found the same IP.
pub open spec fn same_ip(c: Comparison) -> bool {
    c != Comparison::DifferentIp
}

/// Record an observation in the result of the run. The reference is recorded
/// only when a comparison happened, so an un-referenced run does not claim
/// one.
pub fn record(
    observation: &H3Observation,
    comparison: Option<Comparison>,
    result: &mut ExperimentResult,
)
    ensures
        final(result)@ == (ResultView {
            reference_method: match comparison {
                Some(_) => Some("cloudflare-stun"@),
                None => None,
            },
            observed_ip_equal: match comparison {
                Some(c) => Some(same_ip(c)),
                None => None,
            },
            probe_latency_ms: Some(
                (observation.duration.millis() % 0x1_0000_0000_0000_0000) as u64,
            ),
            ..old(result)@
        }),
{
    match comparison {
        Some(c) => {
            result.reference_method = Some("cloudflare-stun".to_owned());
            result.observed_ip_equal = Some(c != Comparison::DifferentIp);
        },
        None => {
            result.reference_method = None;
            result.observed_ip_equal = None;
        },
    }
    result.probe_latency_ms = Some(observation.duration.as_millis_u64());
}

// ---------------------------------------------------------------------------
// The reference observation
// ---------------------------------------------------------------------------

/// A JSON value. Verus sees nothing inside it; what the observer reads of it
/// is named by [`string_members`].
#[verifier::external_type_specification]
#[verifier::external_body]
pub struct ExJsonValue(serde_json::Value);

/// The string members of a JSON value by their keys; none where it is no
/// object.
pub uninterp spec fn string_members(value: serde_json::Value) -> Map<Seq<char>, Seq<char>>;

/// What a text reads as in JSON: the string members of its value or, where it
/// is no JSON, the diagnostic.
pub uninterp spec fn json_reading(text: Seq<char>) -> Result<
    Map<Seq<char>, Seq<char>>,
    Seq<char>,
>;

/// `serde_json::from_str` reads a text as one JSON value, or says why it is
/// none. Which value that is, as far as its string members go, and what the
/// diagnostic says depend on the text alone; both are named, not spelled out.
#[verifier::external_body]
fn parse_json(text: &str) -> (res: Result<serde_json::Value, String>)
    ensures
        match res {
            Ok(v) => json_reading(text@) == Ok::<Map<Seq<char>, Seq<char>>, Seq<char>>(
                string_members(v),
            ),
            Err(e) => json_reading(text@) == Err::<Map<Seq<char>, Seq<char>>, Seq<char>>(e@),
        },
{
    serde_json::from_str(text).map_err(|e| e.to_string())
}

/// `serde_json::Value::get` looks up a key in an object and gives nothing for
/// any other value; `as_str` takes what was found where it is a string.
#[verifier::external_body]
fn string_member(value: &serde_json::Value, key: &str) -> (res: Option<String>)
    ensures
        match res {
            Some(s) => string_members(*value).contains_key(key@) && string_members(*value)[key@]
                == s@,
            None => !string_members(*value).contains_key(key@),
        },
{
    value.get(key).and_then(|v| v.as_str()).map(|s| s.to_owned())
}

/// Why a STUN observation cannot serve as the reference.
#[derive(Debug, Clone, PartialEq, Eq)]
pub enum ReferenceError {
    /// It is no JSON, for this reason.
    NotJson(String),
    NoObservedAddr,
}

/// A [`ReferenceError`] as plain values.
pub enum ReferenceErrorView {
    NotJson(Seq<char>),
    NoObservedAddr,
}

impl View for ReferenceError {
    type V = ReferenceErrorView;

    open spec fn view(&self) -> ReferenceErrorView {
        match self {
            ReferenceError::NotJson(cause) => ReferenceErrorView::NotJson(cause@),
            ReferenceError::NoObservedAddr => ReferenceErrorView::NoObservedAddr,
        }
    }
}

impl ReferenceErrorView {
    /// The diagnostic, causes included.
    pub open spec fn text(self) -> Seq<char> {
        match self {
            ReferenceErrorView::NotJson(cause) => because("parse STUN json"@, cause),
            ReferenceErrorView::NoObservedAddr => "STUN json lacks observed_addr"@,
        }
    }
}

impl ReferenceError {
    /// The diagnostic, causes included.
    pub fn to_string(&self) -> (res: String)
        ensures
            res@ == self@.text(),
    {
        match self {
            ReferenceError::NotJson(cause) => with_cause("parse STUN json", cause.as_str()),
            ReferenceError::NoObservedAddr => "STUN json lacks observed_addr".to_owned(),
        }
    }
}

/// The text of the address in a reference, given what became of reading it as
/// JSON: the string under the key for the address, if there is one, or why it
/// is no JSON.
pub fn reference_of(member: Result<Option<String>, String>) -> (res: Result<
    String,
    ReferenceError,
>)
    ensures
        match member {
            Err(cause) => res matches Err(e) && e@ == ReferenceErrorView::NotJson(cause@),
            Ok(None) => res matches Err(e) && e@ == ReferenceErrorView::NoObservedAddr,
            Ok(Some(s)) => res == Ok::<String, ReferenceError>(s),
        },
{
    match member {
        Err(cause) => Err(ReferenceError::NotJson(cause)),
        Ok(None) => Err(ReferenceError::NoObservedAddr),
        Ok(Some(s)) => Ok(s),
    }
}

/// The text of the address that a STUN observation in JSON reports.
pub fn observed_addr_in(json: &str) -> (res: Result<String, ReferenceError>)
    ensures
        match json_reading(json@) {
            Err(cause) => res matches Err(e) && e@ == ReferenceErrorView::NotJson(cause),
            Ok(members) => if members.contains_key("observed_addr"@) {
                res matches Ok(t) && t@ == members["observed_addr"@]
            } else {
                res matches Err(e) && e@ == ReferenceErrorView::NoObservedAddr
            },
        },
{
    reference_of(
        match parse_json(json) {
            Ok(value) => Ok(string_member(&value, "observed_addr")),
            Err(cause) => Err(cause),
        },
    )
}

// ---------------------------------------------------------------------------
// Laws
// ---------------------------------------------------------------------------

/// Two methods that saw the same address agree, and an address compares with
/// itself as the same IP and port.
pub proof fn law_compare_reflexive(addr: SocketAddrView)
    ensures
        comparison(addr, addr.octets, Some(addr.port)) == Comparison::SameIpSamePort,
{
}

/// A comparison finds the same IP exactly when the IPs are the same, whatever
/// the ports; without a port it never claims that the ports agree or differ.
pub proof fn law_compare_ip(addr: SocketAddrView, ip: Seq<u8>, port: Option<u16>)
    ensures
        same_ip(comparison(addr, ip, port)) <==> addr.octets == ip,
        port is None ==> comparison(addr, ip, port) == Comparison::SameIpPortMissing || comparison(
            addr,
            ip,
            port,
        ) == Comparison::DifferentIp,
{
}

/// What a comparison finds, in every case.
pub proof fn law_comparison(addr: SocketAddrView, ip: Seq<u8>, port: Option<u16>)
    ensures
        comparison(addr, ip, port) == Comparison::DifferentIp <==> addr.octets != ip,
        comparison(addr, ip, port) == Comparison::SameIpPortMissing <==> addr.octets == ip
            && port is None,
        comparison(addr, ip, port) == Comparison::SameIpSamePort <==> addr.octets == ip && port
            == Some(addr.port),
        comparison(addr, ip, port) == Comparison::SameIpDifferentPort <==> addr.octets == ip
            && port is Some && port != Some(addr.port),
        same_ip(Comparison::SameIpSamePort),
        same_ip(Comparison::SameIpDifferentPort),
        same_ip(Comparison::SameIpPortMissing),
        !same_ip(Comparison::DifferentIp),
{
}

/// The URI is the host and the path over HTTPS, with the port between them
/// where it is not 443.
pub proof fn law_request_uri(host: Seq<char>, path: Seq<char>, port: u16)
    ensures
        uri_of(host, path, 443) == "https://"@ + host + path,
        port != 443 ==> uri_of(host, path, port) == "https://"@ + host + ":"@
            + crate::text::decimal(port as nat) + path,
{
}

/// What an answer observes, in every case: a status outside 200 to 299 comes
/// first, then the IP header, then the port, which may be missing or empty but
/// not malformed.
pub proof fn law_observed(response: EdgeResponse)
    ensures
        ({
            let res = observed(response);
            let fine = response.status >= 200 && response.status < 300;
            &&& !fine ==> res == Err::<(IpAddr, Option<u16>), ObserveErrorView>(
                ObserveErrorView::Status(response.status_text@),
            )
            &&& fine ==> (response.ip matches IpHeader::Missing ==> res == Err::<
                (IpAddr, Option<u16>),
                ObserveErrorView,
            >(ObserveErrorView::MissingIp))
            &&& fine ==> (response.ip matches IpHeader::Invalid(cause) ==> res == Err::<
                (IpAddr, Option<u16>),
                ObserveErrorView,
            >(ObserveErrorView::InvalidIp(cause@)))
            &&& fine ==> (response.ip matches IpHeader::Ip(ip) ==> {
                &&& response.port is None ==> res == Ok::<(IpAddr, Option<u16>), ObserveErrorView>(
                    (ip, None),
                )
                &&& response.port matches Some(text) ==> {
                    &&& text@.len() == 0 ==> res == Ok::<(IpAddr, Option<u16>), ObserveErrorView>(
                        (ip, None),
                    )
                    &&& text@.len() > 0 ==> (crate::text::u16_of(text@) matches Some(p) ==> res
                        == Ok::<(IpAddr, Option<u16>), ObserveErrorView>((ip, Some(p))))
                    &&& text@.len() > 0 && crate::text::u16_of(text@) is None ==> res == Err::<
                        (IpAddr, Option<u16>),
                        ObserveErrorView,
                    >(ObserveErrorView::InvalidPort(crate::text::u16_error(text@)))
                }
            })
        }),
{
}

} // verus!
