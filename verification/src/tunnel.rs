//! TCP tunnel protocol: handshake framing and service routing.
//!
//! One local TCP connection maps onto one bidirectional stream:
//!
//! ```text
//! client -> gateway: u8 version(=0), u16 BE len(service_id), service_id
//! gateway -> client: u8 status
//! afterwards:        raw bidirectional bytes until both sides close
//! ```
//!
//! The gateway only forwards to services listed in its [`ServiceMap`], so it
//! is never an open proxy.

use vstd::prelude::*;
use vstd::string::StringExecFns;
use vstd::utf8::{decode_utf8, encode_utf8, valid_utf8};

use crate::services::ServiceMap;
use crate::text::{
    because, cause_of, decimal_of, from_utf8, join2, join3, push_decimal, quote, with_cause,
};
use crate::wire::{push_bytes, push_u16, read_u16};

verus! {

/// Current handshake protocol version.
pub const PROTOCOL_VERSION: u8 = 0;

/// Maximum accepted length of a service id.
pub const MAX_SERVICE_ID_LEN: u16 = 256;

/// Gateway response to a tunnel request.
#[derive(Debug, Clone, Copy, PartialEq, Eq, Structural)]
pub enum TunnelStatus {
    /// Tunnel established; raw bytes follow.
    Established,
    /// Requested service id is not in the gateway's allowlist.
    UnknownService,
    /// Remote endpoint is not authorized to use this gateway.
    Unauthorized,
    /// Service is allowlisted but its upstream TCP address is unreachable.
    UpstreamUnreachable,
    /// Malformed handshake request.
    BadRequest,
}

impl TunnelStatus {
    /// The status on the wire.
    pub open spec fn code(self) -> u8 {
        match self {
            TunnelStatus::Established => 0,
            TunnelStatus::UnknownService => 1,
            TunnelStatus::Unauthorized => 2,
            TunnelStatus::UpstreamUnreachable => 3,
            TunnelStatus::BadRequest => 4,
        }
    }

    /// The status with this code, if there is one.
    pub open spec fn of_code(v: u8) -> Option<TunnelStatus> {
        match v {
            0 => Some(TunnelStatus::Established),
            1 => Some(TunnelStatus::UnknownService),
            2 => Some(TunnelStatus::Unauthorized),
            3 => Some(TunnelStatus::UpstreamUnreachable),
            4 => Some(TunnelStatus::BadRequest),
            _ => None,
        }
    }

    pub fn from_u8(v: u8) -> (res: Option<Self>)
        ensures
            res == TunnelStatus::of_code(v),
            res matches Some(s) ==> s.code() == v,
            res is None <==> v > 4,
    {
        match v {
            0 => Some(TunnelStatus::Established),
            1 => Some(TunnelStatus::UnknownService),
            2 => Some(TunnelStatus::Unauthorized),
            3 => Some(TunnelStatus::UpstreamUnreachable),
            4 => Some(TunnelStatus::BadRequest),
            _ => None,
        }
    }

    pub fn to_u8(&self) -> (res: u8)
        ensures
            res == self.code(),
    {
        match self {
            TunnelStatus::Established => 0,
            TunnelStatus::UnknownService => 1,
            TunnelStatus::Unauthorized => 2,
            TunnelStatus::UpstreamUnreachable => 3,
            TunnelStatus::BadRequest => 4,
        }
    }

    /// The status in words.
    pub open spec fn words(self) -> Seq<char> {
        match self {
            TunnelStatus::Established => "ok"@,
            TunnelStatus::UnknownService => "unknown service"@,
            TunnelStatus::Unauthorized => "unauthorized endpoint"@,
            TunnelStatus::UpstreamUnreachable => "upstream unreachable"@,
            TunnelStatus::BadRequest => "bad request"@,
        }
    }

    pub fn message(&self) -> (res: &'static str)
        ensures
            res@ == self.words(),
    {
        match self {
            TunnelStatus::Established => "ok",
            TunnelStatus::UnknownService => "unknown service",
            TunnelStatus::Unauthorized => "unauthorized endpoint",
            TunnelStatus::UpstreamUnreachable => "upstream unreachable",
            TunnelStatus::BadRequest => "bad request",
        }
    }
}

// ---------------------------------------------------------------------------
// Handshake framing
// ---------------------------------------------------------------------------

/// A tunnel request on the wire.
pub open spec fn request_wire(service_id: Seq<char>) -> Seq<u8> {
    seq![PROTOCOL_VERSION] + crate::wire::be_bytes(encode_utf8(service_id).len(), 2) + encode_utf8(
        service_id,
    )
}

/// Why a service id cannot be requested.
#[derive(Debug, Clone, Copy, PartialEq, Eq, Structural)]
pub enum ServiceIdError {
    /// Its length does not fit the length field.
    TooLongForWire,
    /// It is longer than any gateway accepts.
    TooLong,
}

impl ServiceIdError {
    /// The diagnostic, causes included.
    pub open spec fn text(self) -> Seq<char> {
        match self {
            ServiceIdError::TooLongForWire =>
                "service id longer than u16::MAX: out of range integral type conversion attempted"@,
            ServiceIdError::TooLong => "service id exceeds 256 bytes"@,
        }
    }

    pub fn to_string(&self) -> (res: String)
        ensures
            res@ == self.text(),
    {
        match self {
            ServiceIdError::TooLongForWire =>
                "service id longer than u16::MAX: out of range integral type conversion attempted"
                    .to_owned(),
            ServiceIdError::TooLong => "service id exceeds 256 bytes".to_owned(),
        }
    }
}

/// Append a tunnel request for `service_id`; a refused one appends nothing.
pub fn write_request(out: &mut Vec<u8>, service_id: &str) -> (res: Result<(), ServiceIdError>)
    ensures
        ({
            let n = encode_utf8(service_id@).len();
            match res {
                Ok(_) => n <= MAX_SERVICE_ID_LEN && final(out)@ == old(out)@ + request_wire(
                    service_id@,
                ),
                Err(ServiceIdError::TooLong) => MAX_SERVICE_ID_LEN < n <= u16::MAX && final(out)@
                    == old(out)@,
                Err(ServiceIdError::TooLongForWire) => n > u16::MAX && final(out)@ == old(out)@,
            }
        }),
{
    let bytes = service_id.as_bytes();
    if bytes.len() > 0xffff {
        return Err(ServiceIdError::TooLongForWire);
    }
    if bytes.len() > MAX_SERVICE_ID_LEN as usize {
        return Err(ServiceIdError::TooLong);
    }
    out.push(PROTOCOL_VERSION);
    push_u16(out, bytes.len() as u16);
    push_bytes(out, bytes);
    assert(out@ =~= old(out)@ + request_wire(service_id@));
    Ok(())
}

/// Why a tunnel request is malformed. Where the stream gave out, the cause
/// goes with it.
#[derive(Debug, Clone, PartialEq, Eq)]
pub enum BadRequest {
    /// Nothing more came before the version.
    NoVersion(String),
    UnsupportedVersion(u8),
    /// Nothing more came inside the length.
    NoLength(String),
    /// The service id claims this length.
    TooLarge(u16),
    /// Nothing more came inside the service id.
    NoServiceId(String),
    NotUtf8(String),
}

/// A [`BadRequest`] as plain values.
pub enum BadRequestView {
    NoVersion(Seq<char>),
    UnsupportedVersion(u8),
    NoLength(Seq<char>),
    TooLarge(u16),
    NoServiceId(Seq<char>),
    NotUtf8(Seq<char>),
}

impl View for BadRequest {
    type V = BadRequestView;

    open spec fn view(&self) -> BadRequestView {
        match self {
            BadRequest::NoVersion(cause) => BadRequestView::NoVersion(cause@),
            BadRequest::UnsupportedVersion(v) => BadRequestView::UnsupportedVersion(*v),
            BadRequest::NoLength(cause) => BadRequestView::NoLength(cause@),
            BadRequest::TooLarge(n) => BadRequestView::TooLarge(*n),
            BadRequest::NoServiceId(cause) => BadRequestView::NoServiceId(cause@),
            BadRequest::NotUtf8(cause) => BadRequestView::NotUtf8(cause@),
        }
    }
}

impl BadRequestView {
    /// The diagnostic, causes included.
    pub open spec fn text(self) -> Seq<char> {
        match self {
            BadRequestView::NoVersion(cause) => because("reading protocol version"@, cause),
            BadRequestView::UnsupportedVersion(v) => "unsupported tunnel protocol version "@
                + crate::text::decimal(v as nat),
            BadRequestView::NoLength(cause) => because("reading service id length"@, cause),
            BadRequestView::TooLarge(n) => "service id length "@ + crate::text::decimal(n as nat)
                + " too large"@,
            BadRequestView::NoServiceId(cause) => because("reading service id"@, cause),
            BadRequestView::NotUtf8(cause) => because("service id is not valid UTF-8"@, cause),
        }
    }
}

impl BadRequest {
    /// The diagnostic, causes included.
    pub fn to_string(&self) -> (res: String)
        ensures
            res@ == self@.text(),
    {
        match self {
            BadRequest::NoVersion(cause) => with_cause("reading protocol version", cause.as_str()),
            BadRequest::UnsupportedVersion(v) => {
                let v = decimal_of(*v as u64);
                join2("unsupported tunnel protocol version ", v.as_str())
            },
            BadRequest::NoLength(cause) => with_cause("reading service id length", cause.as_str()),
            BadRequest::TooLarge(n) => {
                let n = decimal_of(*n as u64);
                join3("service id length ", n.as_str(), " too large")
            },
            BadRequest::NoServiceId(cause) => with_cause("reading service id", cause.as_str()),
            BadRequest::NotUtf8(cause) => with_cause(
                "service id is not valid UTF-8",
                cause.as_str(),
            ),
        }
    }
}

/// What the bytes at the head of a stream amount to as a tunnel request.
#[derive(Debug, Clone)]
pub enum RequestRead {
    /// So many bytes more have to be read.
    Need(usize),
    /// The request is malformed.
    Bad(BadRequest),
    /// A whole request stands at the head and takes so many bytes.
    Request { service_id: String, consumed: usize },
}

/// A [`RequestRead`] as plain values.
pub enum RequestReadView {
    Need(nat),
    Bad(BadRequestView),
    Request { service_id: Seq<char>, consumed: nat },
}

impl View for RequestRead {
    type V = RequestReadView;

    open spec fn view(&self) -> RequestReadView {
        match self {
            RequestRead::Need(n) => RequestReadView::Need(*n as nat),
            RequestRead::Bad(e) => RequestReadView::Bad(e@),
            RequestRead::Request { service_id, consumed } => RequestReadView::Request {
                service_id: service_id@,
                consumed: *consumed as nat,
            },
        }
    }
}

/// What the bytes at the head of a stream amount to as a tunnel request; `end`
/// is why no more will come, where none will.
pub open spec fn request_read(buf: Seq<u8>, end: Option<Seq<char>>) -> RequestReadView {
    if buf.len() < 1 {
        match end {
            Some(cause) => RequestReadView::Bad(BadRequestView::NoVersion(cause)),
            None => RequestReadView::Need(1),
        }
    } else if buf[0] != PROTOCOL_VERSION {
        RequestReadView::Bad(BadRequestView::UnsupportedVersion(buf[0]))
    } else if buf.len() < 3 {
        match end {
            Some(cause) => RequestReadView::Bad(BadRequestView::NoLength(cause)),
            None => RequestReadView::Need((3 - buf.len()) as nat),
        }
    } else {
        let len = crate::wire::be_value(buf.subrange(1, 3));
        if len > MAX_SERVICE_ID_LEN {
            RequestReadView::Bad(BadRequestView::TooLarge(len as u16))
        } else if buf.len() < 3 + len {
            match end {
                Some(cause) => RequestReadView::Bad(BadRequestView::NoServiceId(cause)),
                None => RequestReadView::Need((3 + len - buf.len()) as nat),
            }
        } else {
            let id = buf.subrange(3, 3 + len as int);
            if valid_utf8(id) {
                RequestReadView::Request { service_id: decode_utf8(id), consumed: 3 + len }
            } else {
                RequestReadView::Bad(BadRequestView::NotUtf8(crate::text::utf8_error(id)))
            }
        }
    }
}

/// Read a tunnel request off the head of what has arrived; `end` is why no
/// more will come, where none will.
pub fn read_request(buf: &[u8], end: Option<&str>) -> (res: RequestRead)
    ensures
        res@ == request_read(buf@, cause_of(end)),
{
    if buf.len() < 1 {
        return match end {
            Some(cause) => RequestRead::Bad(BadRequest::NoVersion(cause.to_owned())),
            None => RequestRead::Need(1),
        };
    }
    let version = buf[0];
    if version != PROTOCOL_VERSION {
        return RequestRead::Bad(BadRequest::UnsupportedVersion(version));
    }
    if buf.len() < 3 {
        return match end {
            Some(cause) => RequestRead::Bad(BadRequest::NoLength(cause.to_owned())),
            None => RequestRead::Need(3 - buf.len()),
        };
    }
    let len = read_u16(buf, 1);
    if len > MAX_SERVICE_ID_LEN {
        return RequestRead::Bad(BadRequest::TooLarge(len));
    }
    let total: usize = 3 + len as usize;
    if buf.len() < total {
        return match end {
            Some(cause) => RequestRead::Bad(BadRequest::NoServiceId(cause.to_owned())),
            None => RequestRead::Need(total - buf.len()),
        };
    }
    let mut id: Vec<u8> = Vec::with_capacity(len as usize);
    push_bytes(&mut id, &buf[3..total]);
    assert(id@ =~= buf@.subrange(3, total as int));
    match from_utf8(id) {
        Ok(service_id) => RequestRead::Request { service_id, consumed: total },
        Err(cause) => RequestRead::Bad(BadRequest::NotUtf8(cause)),
    }
}

/// Append a [`TunnelStatus`] reply.
pub fn write_status(out: &mut Vec<u8>, status: TunnelStatus)
    ensures
        final(out)@ == old(out)@.push(status.code()),
{
    out.push(status.to_u8());
}

/// What the bytes at the head of a stream amount to as a status reply.
#[derive(Debug, Clone, PartialEq, Eq)]
pub enum StatusRead {
    /// One byte has to be read.
    Need,
    /// No reply came, for this reason.
    Ended(String),
    /// No status has this code.
    Unknown(u8),
    Status(TunnelStatus),
}

/// A [`StatusRead`] as plain values.
pub enum StatusReadView {
    Need,
    Ended(Seq<char>),
    Unknown(u8),
    Status(TunnelStatus),
}

impl View for StatusRead {
    type V = StatusReadView;

    open spec fn view(&self) -> StatusReadView {
        match self {
            StatusRead::Need => StatusReadView::Need,
            StatusRead::Ended(cause) => StatusReadView::Ended(cause@),
            StatusRead::Unknown(v) => StatusReadView::Unknown(*v),
            StatusRead::Status(status) => StatusReadView::Status(*status),
        }
    }
}

/// What the bytes at the head of a stream amount to as a status reply; `end`
/// is why no more will come, where none will.
pub open spec fn status_read(buf: Seq<u8>, end: Option<Seq<char>>) -> StatusReadView {
    if buf.len() == 0 {
        match end {
            Some(cause) => StatusReadView::Ended(cause),
            None => StatusReadView::Need,
        }
    } else {
        match TunnelStatus::of_code(buf[0]) {
            Some(status) => StatusReadView::Status(status),
            None => StatusReadView::Unknown(buf[0]),
        }
    }
}

impl StatusRead {
    /// The diagnostic, causes included, where this is a failure.
    pub fn error(&self) -> (res: Option<String>)
        ensures
            match self@ {
                StatusReadView::Ended(cause) => res matches Some(e) && e@ == because(
                    "reading tunnel status"@,
                    cause,
                ),
                StatusReadView::Unknown(v) => res matches Some(e) && e@
                    == "unknown tunnel status code "@ + crate::text::decimal(v as nat),
                _ => res is None,
            },
    {
        match self {
            StatusRead::Ended(cause) => Some(with_cause("reading tunnel status", cause.as_str())),
            StatusRead::Unknown(v) => {
                let v = decimal_of(*v as u64);
                Some(join2("unknown tunnel status code ", v.as_str()))
            },
            _ => None,
        }
    }
}

/// Read a [`TunnelStatus`] reply off the head of what has arrived; `end` is
/// why no more will come, where none will.
pub fn read_status(buf: &[u8], end: Option<&str>) -> (res: StatusRead)
    ensures
        res@ == status_read(buf@, cause_of(end)),
{
    if buf.len() == 0 {
        return match end {
            Some(cause) => StatusRead::Ended(cause.to_owned()),
            None => StatusRead::Need,
        };
    }
    match TunnelStatus::from_u8(buf[0]) {
        Some(status) => StatusRead::Status(status),
        None => StatusRead::Unknown(buf[0]),
    }
}

// ---------------------------------------------------------------------------
// Gateway side of one stream
// ---------------------------------------------------------------------------

/// What the gateway does with a stream.
#[derive(Debug, Clone)]
pub enum ServeStep {
    /// Read so many bytes more.
    Read(usize),
    /// The request is malformed: send [`TunnelStatus::BadRequest`], then fail.
    Malformed(BadRequest),
    /// The service is not listed: send [`TunnelStatus::UnknownService`].
    Unknown { service_id: String },
    /// Connect to this upstream; the request took so many bytes.
    Dial { service_id: String, target: String, consumed: usize },
}

/// A [`ServeStep`] as plain values.
pub enum ServeStepView {
    Read(nat),
    Malformed(BadRequestView),
    Unknown { service_id: Seq<char> },
    Dial { service_id: Seq<char>, target: Seq<char>, consumed: nat },
}

impl View for ServeStep {
    type V = ServeStepView;

    open spec fn view(&self) -> ServeStepView {
        match self {
            ServeStep::Read(n) => ServeStepView::Read(*n as nat),
            ServeStep::Malformed(e) => ServeStepView::Malformed(e@),
            ServeStep::Unknown { service_id } => ServeStepView::Unknown { service_id: service_id@ },
            ServeStep::Dial { service_id, target, consumed } => ServeStepView::Dial {
                service_id: service_id@,
                target: target@,
                consumed: *consumed as nat,
            },
        }
    }
}

/// What the gateway does with a stream on which these bytes have arrived.
pub open spec fn serve_outcome(
    buf: Seq<u8>,
    end: Option<Seq<char>>,
    services: Map<Seq<char>, Seq<char>>,
) -> ServeStepView {
    match request_read(buf, end) {
        RequestReadView::Need(n) => ServeStepView::Read(n),
        RequestReadView::Bad(e) => ServeStepView::Malformed(e),
        RequestReadView::Request { service_id, consumed } => if services.contains_key(service_id) {
            ServeStepView::Dial { service_id, target: services[service_id], consumed }
        } else {
            ServeStepView::Unknown { service_id }
        },
    }
}

/// Gateway-side handling of one tunnelled stream: read the handshake and route
/// to the allowlisted upstream.
pub fn serve_stream(buf: &[u8], end: Option<&str>, services: &ServiceMap) -> (res: ServeStep)
    ensures
        res@ == serve_outcome(buf@, cause_of(end), services@),
{
    match read_request(buf, end) {
        RequestRead::Need(n) => ServeStep::Read(n),
        RequestRead::Bad(e) => ServeStep::Malformed(e),
        RequestRead::Request { service_id, consumed } => {
            match services.get(service_id.as_str()) {
                Some(target) => {
                    let target = target.to_owned();
                    ServeStep::Dial { service_id, target, consumed }
                },
                None => ServeStep::Unknown { service_id },
            }
        },
    }
}

impl ServeStep {
    /// The status that goes to the client at this point, if one does; after
    /// dialing it depends on whether the upstream could be reached.
    pub fn reply(&self, upstream_reached: bool) -> (res: Option<TunnelStatus>)
        ensures
            res == (match self@ {
                ServeStepView::Read(_) => None,
                ServeStepView::Malformed(_) => Some(TunnelStatus::BadRequest),
                ServeStepView::Unknown { .. } => Some(TunnelStatus::UnknownService),
                ServeStepView::Dial { .. } => Some(
                    if upstream_reached {
                        TunnelStatus::Established
                    } else {
                        TunnelStatus::UpstreamUnreachable
                    },
                ),
            }),
    {
        match self {
            ServeStep::Read(_) => None,
            ServeStep::Malformed(_) => Some(TunnelStatus::BadRequest),
            ServeStep::Unknown { .. } => Some(TunnelStatus::UnknownService),
            ServeStep::Dial { .. } => if upstream_reached {
                Some(TunnelStatus::Established)
            } else {
                Some(TunnelStatus::UpstreamUnreachable)
            },
        }
    }

    /// The failure that the gateway logs at this point, if there is one:
    /// `cause` is why the upstream could not be reached.
    pub fn failure(&self, cause: Option<&str>) -> (res: Option<String>)
        ensures
            match (self@, cause) {
                (ServeStepView::Malformed(e), _) => res matches Some(t) && t@
                    == "malformed tunnel request: "@ + e.text(),
                (ServeStepView::Dial { target, .. }, Some(c)) => res matches Some(t) && t@
                    == "dial upstream "@ + target + ": "@ + c@,
                _ => res is None,
            },
    {
        match (self, cause) {
            (ServeStep::Malformed(e), _) => {
                let e = e.to_string();
                Some(join2("malformed tunnel request: ", e.as_str()))
            },
            (ServeStep::Dial { target, .. }, Some(c)) => {
                let mut out = join3("dial upstream ", target.as_str(), ": ");
                out.append(c);
                Some(out)
            },
            _ => None,
        }
    }
}

/// What the gateway does with a stream of an endpoint that it rejects.
#[derive(Debug, Clone, Copy, PartialEq, Eq, Structural)]
pub enum RefuseStep {
    /// Read so many bytes more.
    Read(usize),
    /// Answer with this status and end the stream.
    Reply(TunnelStatus),
    /// Close the connection without an answer.
    Close,
}

/// What the gateway does with a stream of an endpoint that it rejects: a whole
/// request is told that the endpoint is not authorized, whatever service it
/// asks for. Anything else, or nothing, closes the connection.
pub open spec fn refuse_outcome(buf: Seq<u8>, end: Option<Seq<char>>) -> RefuseStep {
    match request_read(buf, end) {
        RequestReadView::Need(n) => RefuseStep::Read(n as usize),
        RequestReadView::Bad(_) => RefuseStep::Close,
        RequestReadView::Request { .. } => RefuseStep::Reply(TunnelStatus::Unauthorized),
    }
}

/// Gateway-side handling of a stream of an endpoint that it rejects: read the
/// request just far enough to answer it.
pub fn refuse_stream(buf: &[u8], end: Option<&str>) -> (res: RefuseStep)
    ensures
        res == refuse_outcome(buf@, cause_of(end)),
{
    match read_request(buf, end) {
        RequestRead::Need(n) => RefuseStep::Read(n),
        RequestRead::Bad(_) => RefuseStep::Close,
        RequestRead::Request { .. } => RefuseStep::Reply(TunnelStatus::Unauthorized),
    }
}

/// Bytes moved through one tunnelled stream, by direction.
///
/// Named fields (not a bare tuple) so an upload/download swap is a type
/// error rather than a silent mislabel.
#[derive(Debug, Clone, Copy, PartialEq, Eq, Structural)]
pub struct ByteCounts {
    /// Bytes sent from the client towards the gateway (upload).
    pub to_gateway: u64,
    /// Bytes received from the gateway by the client (download).
    pub from_gateway: u64,
}

impl ByteCounts {
    /// The counts on the client, where so many bytes were copied from the
    /// stream to the local connection and so many the other way.
    pub fn on_client(stream_to_local: u64, local_to_stream: u64) -> (res: Self)
        ensures
            res.to_gateway == local_to_stream,
            res.from_gateway == stream_to_local,
    {
        ByteCounts { to_gateway: local_to_stream, from_gateway: stream_to_local }
    }

    /// The counts on the gateway, where so many bytes were copied from the
    /// stream to the upstream connection and so many the other way.
    pub fn on_gateway(stream_to_upstream: u64, upstream_to_stream: u64) -> (res: Self)
        ensures
            res.to_gateway == stream_to_upstream,
            res.from_gateway == upstream_to_stream,
    {
        ByteCounts { to_gateway: stream_to_upstream, from_gateway: upstream_to_stream }
    }

    /// The report on a tunnel that closed.
    pub fn report(&self, service_id: &str) -> (res: String)
        ensures
            res@ == "TUNNEL_CLOSED service="@ + service_id@ + " UP_BYTES="@ + crate::text::decimal(
                self.to_gateway as nat,
            ) + " DOWN_BYTES="@ + crate::text::decimal(self.from_gateway as nat),
    {
        let mut out = join3("TUNNEL_CLOSED service=", service_id, " UP_BYTES=");
        push_decimal(&mut out, self.to_gateway);
        out.append(" DOWN_BYTES=");
        push_decimal(&mut out, self.from_gateway);
        out
    }
}

/// Client-side decision on the gateway's reply: go on, or give up on a
/// rejected service.
pub fn drive_client(status: TunnelStatus, service_id: &str) -> (res: Result<(), String>)
    ensures
        match res {
            Ok(_) => status == TunnelStatus::Established,
            Err(e) => status != TunnelStatus::Established && e@ == "gateway rejected service "@
                + crate::text::quoted(service_id@) + ": "@ + status.words(),
        },
{
    if status == TunnelStatus::Established {
        return Ok(());
    }
    let quoted = quote(service_id);
    let mut out = join3("gateway rejected service ", quoted.as_str(), ": ");
    out.append(status.message());
    Err(out)
}

// ---------------------------------------------------------------------------
// Laws
// ---------------------------------------------------------------------------

/// A request reads back as the service it asks for, whatever follows it on the
/// stream.
pub proof fn law_request_roundtrip(
    service_id: Seq<char>,
    rest: Seq<u8>,
    end: Option<Seq<char>>,
)
    requires
        encode_utf8(service_id).len() <= MAX_SERVICE_ID_LEN,
    ensures
        request_read(request_wire(service_id) + rest, end) == (RequestReadView::Request {
            service_id,
            consumed: request_wire(service_id).len(),
        }),
{
    let id = encode_utf8(service_id);
    let w = request_wire(service_id) + rest;
    reveal_with_fuel(crate::wire::byte_range, 3);
    crate::wire::lemma_be_roundtrip(id.len(), 2);
    assert(w.subrange(1, 3) =~= crate::wire::be_bytes(id.len(), 2));
    assert(w.subrange(3, 3 + id.len() as int) =~= id);
    vstd::utf8::encode_utf8_valid_utf8(service_id);
    vstd::utf8::encode_utf8_decode_utf8(service_id);
}

/// A request that has not arrived in full is never acted on: more bytes are
/// asked for, never beyond the request's end.
pub proof fn law_partial_request_waits(service_id: Seq<char>, n: nat)
    requires
        encode_utf8(service_id).len() <= MAX_SERVICE_ID_LEN,
        n < request_wire(service_id).len(),
    ensures
        request_read(request_wire(service_id).take(n as int), None) matches RequestReadView::Need(
            more,
        ) && 0 < more && n + more <= request_wire(service_id).len(),
{
    let id = encode_utf8(service_id);
    let w = request_wire(service_id);
    reveal_with_fuel(crate::wire::byte_range, 3);
    crate::wire::lemma_be_roundtrip(id.len(), 2);
    if n >= 3 {
        assert(w.take(n as int).subrange(1, 3) =~= crate::wire::be_bytes(id.len(), 2));
    }
}

/// A status reads back as it was written.
pub proof fn law_status_roundtrip(status: TunnelStatus, rest: Seq<u8>, end: Option<Seq<char>>)
    ensures
        status_read(seq![status.code()] + rest, end) == StatusReadView::Status(status),
{
}

/// The gateway is no open proxy: it dials nothing but the listed target of a
/// listed service, and only the service that the request asked for.
pub proof fn law_only_listed_services(
    buf: Seq<u8>,
    end: Option<Seq<char>>,
    services: Map<Seq<char>, Seq<char>>,
    service_id: Seq<char>,
    target: Seq<char>,
    consumed: nat,
)
    requires
        serve_outcome(buf, end, services) == (ServeStepView::Dial {
            service_id,
            target,
            consumed,
        }),
    ensures
        services.contains_key(service_id),
        services[service_id] == target,
        request_read(buf, end) == (RequestReadView::Request { service_id, consumed }),
{
}

/// A rejected endpoint learns nothing of what is listed: a whole request is
/// answered the same whatever it asks for, and any other stream gets no answer
/// at all.
pub proof fn law_rejection_tells_nothing(
    service_id: Seq<char>,
    rest: Seq<u8>,
    buf: Seq<u8>,
    end: Option<Seq<char>>,
)
    requires
        encode_utf8(service_id).len() <= MAX_SERVICE_ID_LEN,
    ensures
        refuse_outcome(request_wire(service_id) + rest, end) == RefuseStep::Reply(
            TunnelStatus::Unauthorized,
        ),
        refuse_outcome(buf, end) matches RefuseStep::Reply(status) ==> status
            == TunnelStatus::Unauthorized && request_read(buf, end) is Request,
        end is Some ==> !(refuse_outcome(buf, end) is Read),
{
    law_request_roundtrip(service_id, rest, end);
}

/// A well-formed request for a service is dialed when it is listed and
/// answered as unknown when it is not.
pub proof fn law_request_is_routed(service_id: Seq<char>, services: Map<Seq<char>, Seq<char>>)
    requires
        encode_utf8(service_id).len() <= MAX_SERVICE_ID_LEN,
    ensures
        serve_outcome(request_wire(service_id), None, services) == (if services.contains_key(
            service_id,
        ) {
            ServeStepView::Dial {
                service_id,
                target: services[service_id],
                consumed: request_wire(service_id).len(),
            }
        } else {
            ServeStepView::Unknown { service_id }
        }),
{
    law_request_roundtrip(service_id, Seq::empty(), None);
    assert(request_wire(service_id) + Seq::<u8>::empty() =~= request_wire(service_id));
}

/// A status and its code stand for each other, and the codes are those of the
/// protocol.
pub proof fn law_status_codes(status: TunnelStatus, code: u8)
    ensures
        TunnelStatus::Established.code() == 0,
        TunnelStatus::UnknownService.code() == 1,
        TunnelStatus::Unauthorized.code() == 2,
        TunnelStatus::UpstreamUnreachable.code() == 3,
        TunnelStatus::BadRequest.code() == 4,
        TunnelStatus::of_code(code) == Some(status) <==> status.code() == code,
        TunnelStatus::of_code(code) is None <==> code > 4,
{
}

/// A request byte by byte: version 0, the length of the service id in network
/// order, the service id in UTF-8.
pub proof fn law_request_layout(service_id: Seq<char>)
    requires
        encode_utf8(service_id).len() <= u16::MAX,
    ensures
        request_wire(service_id) == seq![
            0u8,
            (encode_utf8(service_id).len() / 256) as u8,
            (encode_utf8(service_id).len() % 256) as u8,
        ] + encode_utf8(service_id),
{
    crate::wire::lemma_be_bytes_2(encode_utf8(service_id).len());
    assert(request_wire(service_id) =~= seq![
        0u8,
        (encode_utf8(service_id).len() / 256) as u8,
        (encode_utf8(service_id).len() % 256) as u8,
    ] + encode_utf8(service_id));
}

/// What the head of a stream amounts to as a request, byte by byte: version,
/// length and service id are each asked for in turn and refused as soon as
/// they are wrong; where no more come, that is the error.
pub proof fn law_request_head(buf: Seq<u8>, end: Option<Seq<char>>)
    ensures
        ({
            let res = request_read(buf, end);
            let len = buf[1] * 256 + buf[2];
            let id = buf.subrange(3, 3 + len);
            &&& buf.len() == 0 && end is None ==> res == RequestReadView::Need(1)
            &&& buf.len() == 0 ==> (end matches Some(cause) ==> res == RequestReadView::Bad(
                BadRequestView::NoVersion(cause),
            ))
            &&& buf.len() > 0 && buf[0] != 0 ==> res == RequestReadView::Bad(
                BadRequestView::UnsupportedVersion(buf[0]),
            )
            &&& 0 < buf.len() < 3 && buf[0] == 0 && end is None ==> res == RequestReadView::Need(
                (3 - buf.len()) as nat,
            )
            &&& 0 < buf.len() < 3 && buf[0] == 0 ==> (end matches Some(cause) ==> res
                == RequestReadView::Bad(BadRequestView::NoLength(cause)))
            &&& buf.len() >= 3 && buf[0] == 0 && len > 256 ==> res == RequestReadView::Bad(
                BadRequestView::TooLarge(len as u16),
            )
            &&& buf.len() >= 3 && buf[0] == 0 && len <= 256 && buf.len() < 3 + len && end is None
                ==> res == RequestReadView::Need((3 + len - buf.len()) as nat)
            &&& buf.len() >= 3 && buf[0] == 0 && len <= 256 && buf.len() < 3 + len ==> (
            end matches Some(cause) ==> res == RequestReadView::Bad(
                BadRequestView::NoServiceId(cause),
            ))
            &&& buf.len() >= 3 && buf[0] == 0 && len <= 256 && buf.len() >= 3 + len && valid_utf8(
                id,
            ) ==> res == (RequestReadView::Request {
                service_id: decode_utf8(id),
                consumed: (3 + len) as nat,
            })
            &&& buf.len() >= 3 && buf[0] == 0 && len <= 256 && buf.len() >= 3 + len && !valid_utf8(
                id,
            ) ==> res == RequestReadView::Bad(
                BadRequestView::NotUtf8(crate::text::utf8_error(id)),
            )
        }),
        MAX_SERVICE_ID_LEN == 256,
        PROTOCOL_VERSION == 0,
{
    if buf.len() >= 3 {
        crate::wire::lemma_be_value_2(buf.subrange(1, 3));
    }
}

/// What the head of a stream amounts to as a status reply: its first byte,
/// where there is one.
pub proof fn law_status_head(buf: Seq<u8>, end: Option<Seq<char>>, status: TunnelStatus)
    ensures
        buf.len() == 0 && end is None ==> status_read(buf, end) == StatusReadView::Need,
        buf.len() == 0 ==> (end matches Some(cause) ==> status_read(buf, end)
            == StatusReadView::Ended(cause)),
        buf.len() > 0 && buf[0] == status.code() ==> status_read(buf, end)
            == StatusReadView::Status(status),
        buf.len() > 0 && buf[0] > 4 ==> status_read(buf, end) == StatusReadView::Unknown(buf[0]),
{
}

/// What the gateway does with a stream, in every case: what the request reads
/// as, and for a whole request whether its service is listed.
pub proof fn law_stream_is_served(
    buf: Seq<u8>,
    end: Option<Seq<char>>,
    services: Map<Seq<char>, Seq<char>>,
)
    ensures
        request_read(buf, end) matches RequestReadView::Need(n) ==> serve_outcome(
            buf,
            end,
            services,
        ) == ServeStepView::Read(n),
        request_read(buf, end) matches RequestReadView::Bad(e) ==> serve_outcome(buf, end, services)
            == ServeStepView::Malformed(e),
        request_read(buf, end) matches RequestReadView::Request { service_id, consumed } ==> {
            &&& services.dom().contains(service_id) ==> serve_outcome(buf, end, services)
                == (ServeStepView::Dial { service_id, target: services[service_id], consumed })
            &&& !services.dom().contains(service_id) ==> serve_outcome(buf, end, services)
                == (ServeStepView::Unknown { service_id })
        },
        request_read(buf, end) matches RequestReadView::Need(n) ==> refuse_outcome(buf, end)
            == RefuseStep::Read(n as usize),
        request_read(buf, end) is Bad ==> refuse_outcome(buf, end) == RefuseStep::Close,
        request_read(buf, end) is Request ==> refuse_outcome(buf, end) == RefuseStep::Reply(
            TunnelStatus::Unauthorized,
        ),
{
}

} // verus!
