//! Media sessions: control-plane frames, the session token, and what a session
//! amounts to.

use vstd::prelude::*;
use vstd::string::StringExecFns;

use crate::gate::GateState;
use crate::result::{ExperimentResult, ResultView, SelectedPath, Throughput};
use crate::stream::{Sender, StreamStats};
use crate::text::{because, cause_of, decimal_of, join3, push_decimal, with_cause};
use crate::wire::{push_bytes, push_u32, read_u32, same_bytes};

verus! {

// ---------------------------------------------------------------------------
// Length-prefixed frames
// ---------------------------------------------------------------------------

/// The longest frame body that is accepted.
pub const MAX_FRAME_LEN: u32 = 65536;

/// One frame on the wire: its length, then its body.
pub open spec fn framed(payload: Seq<u8>) -> Seq<u8> {
    crate::wire::be_bytes(payload.len(), 4) + payload
}

/// Append one frame. Refuses, and appends nothing for, a body whose length
/// does not fit the length field.
pub fn write_frame(out: &mut Vec<u8>, payload: &[u8]) -> (res: Result<(), FrameError>)
    ensures
        match res {
            Ok(_) => payload@.len() <= u32::MAX && final(out)@ == old(out)@ + framed(payload@),
            Err(e) => payload@.len() > u32::MAX && e@ == FrameErrorView::TooLarge && final(out)@
                == old(out)@,
        },
{
    if payload.len() as u64 > 0xffff_ffff {
        return Err(FrameError::TooLarge);
    }
    push_u32(out, payload.len() as u32);
    push_bytes(out, payload);
    assert(out@ =~= old(out)@ + framed(payload@));
    Ok(())
}

/// Why a frame cannot be written or read. Where the stream gave out, the cause
/// goes with it.
#[derive(Debug, Clone, PartialEq, Eq)]
pub enum FrameError {
    /// The body is too long for the length field.
    TooLarge,
    /// Nothing more came inside the length.
    NoLength(String),
    /// The frame claims a longer body than is accepted.
    OverLimit(u32),
    /// Nothing more came inside the body.
    NoBody(String),
}

/// A [`FrameError`] as plain values.
pub enum FrameErrorView {
    TooLarge,
    NoLength(Seq<char>),
    OverLimit(u32),
    NoBody(Seq<char>),
}

impl View for FrameError {
    type V = FrameErrorView;

    open spec fn view(&self) -> FrameErrorView {
        match self {
            FrameError::TooLarge => FrameErrorView::TooLarge,
            FrameError::NoLength(cause) => FrameErrorView::NoLength(cause@),
            FrameError::OverLimit(n) => FrameErrorView::OverLimit(*n),
            FrameError::NoBody(cause) => FrameErrorView::NoBody(cause@),
        }
    }
}

impl FrameErrorView {
    /// The diagnostic, causes included.
    pub open spec fn text(self) -> Seq<char> {
        match self {
            FrameErrorView::TooLarge =>
                "frame too large: out of range integral type conversion attempted"@,
            FrameErrorView::NoLength(cause) => because("read frame length"@, cause),
            FrameErrorView::OverLimit(n) => "frame length "@ + crate::text::decimal(n as nat)
                + " exceeds limit"@,
            FrameErrorView::NoBody(cause) => because("read frame body"@, cause),
        }
    }
}

impl FrameError {
    /// The diagnostic, causes included.
    pub fn to_string(&self) -> (res: String)
        ensures
            res@ == self@.text(),
    {
        match self {
            FrameError::TooLarge =>
                "frame too large: out of range integral type conversion attempted".to_owned(),
            FrameError::NoLength(cause) => with_cause("read frame length", cause.as_str()),
            FrameError::OverLimit(n) => {
                let n = decimal_of(*n as u64);
                join3("frame length ", n.as_str(), " exceeds limit")
            },
            FrameError::NoBody(cause) => with_cause("read frame body", cause.as_str()),
        }
    }
}

/// What the bytes at the head of a stream amount to as a frame.
#[derive(Debug, Clone)]
pub enum FrameRead {
    /// So many bytes more have to be read.
    Need(usize),
    /// There is no frame to be had.
    Bad(FrameError),
    /// A whole frame stands at the head and takes so many bytes.
    Frame { payload: Vec<u8>, consumed: usize },
}

/// A [`FrameRead`] as plain values.
pub enum FrameReadView {
    Need(nat),
    Bad(FrameErrorView),
    Frame { payload: Seq<u8>, consumed: nat },
}

impl View for FrameRead {
    type V = FrameReadView;

    open spec fn view(&self) -> FrameReadView {
        match self {
            FrameRead::Need(n) => FrameReadView::Need(*n as nat),
            FrameRead::Bad(e) => FrameReadView::Bad(e@),
            FrameRead::Frame { payload, consumed } => FrameReadView::Frame {
                payload: payload@,
                consumed: *consumed as nat,
            },
        }
    }
}

/// What the bytes at the head of a stream amount to as a frame; `end` is why
/// no more will come, where none will.
pub open spec fn frame_read(buf: Seq<u8>, end: Option<Seq<char>>) -> FrameReadView {
    if buf.len() < 4 {
        match end {
            Some(cause) => FrameReadView::Bad(FrameErrorView::NoLength(cause)),
            None => FrameReadView::Need((4 - buf.len()) as nat),
        }
    } else {
        let len = crate::wire::be_value(buf.subrange(0, 4));
        if len > MAX_FRAME_LEN {
            FrameReadView::Bad(FrameErrorView::OverLimit(len as u32))
        } else if buf.len() < 4 + len {
            match end {
                Some(cause) => FrameReadView::Bad(FrameErrorView::NoBody(cause)),
                None => FrameReadView::Need((4 + len - buf.len()) as nat),
            }
        } else {
            FrameReadView::Frame { payload: buf.subrange(4, 4 + len as int), consumed: 4 + len }
        }
    }
}

/// Read one frame off the head of what has arrived; `end` is why no more will
/// come, where none will.
pub fn read_frame(buf: &[u8], end: Option<&str>) -> (res: FrameRead)
    ensures
        res@ == frame_read(buf@, cause_of(end)),
{
    if buf.len() < 4 {
        return match end {
            Some(cause) => FrameRead::Bad(FrameError::NoLength(cause.to_owned())),
            None => FrameRead::Need(4 - buf.len()),
        };
    }
    let len = read_u32(buf, 0);
    if len > MAX_FRAME_LEN {
        return FrameRead::Bad(FrameError::OverLimit(len));
    }
    let total: usize = 4 + len as usize;
    if buf.len() < total {
        return match end {
            Some(cause) => FrameRead::Bad(FrameError::NoBody(cause.to_owned())),
            None => FrameRead::Need(total - buf.len()),
        };
    }
    let mut payload: Vec<u8> = Vec::with_capacity(len as usize);
    push_bytes(&mut payload, &buf[4..total]);
    assert(payload@ =~= buf@.subrange(4, total as int));
    FrameRead::Frame { payload, consumed: total }
}

// ---------------------------------------------------------------------------
// Handshakes
// ---------------------------------------------------------------------------

/// How long a session token is.
pub const TOKEN_LEN: usize = 16;

/// A one-shot session token: only whoever completed the control handshake can
/// pass the media handshake. Which token comes out is chance.
pub fn session_token() -> (res: Vec<u8>)
    ensures
        res@.len() == TOKEN_LEN,
{
    crate::rng::random_bytes(TOKEN_LEN)
}

/// Why a handshake failed.
#[derive(Debug, Clone, PartialEq, Eq)]
pub enum HandshakeError {
    /// A frame could not be written or read.
    Frame(FrameError),
    /// The control request carries something.
    UnexpectedRequest,
    /// The media request carries another token.
    TokenMismatch,
    /// The receiver answered with something else than `ready`.
    NotReady,
}

/// A [`HandshakeError`] as plain values.
pub enum HandshakeErrorView {
    Frame(FrameErrorView),
    UnexpectedRequest,
    TokenMismatch,
    NotReady,
}

impl View for HandshakeError {
    type V = HandshakeErrorView;

    open spec fn view(&self) -> HandshakeErrorView {
        match self {
            HandshakeError::Frame(e) => HandshakeErrorView::Frame(e@),
            HandshakeError::UnexpectedRequest => HandshakeErrorView::UnexpectedRequest,
            HandshakeError::TokenMismatch => HandshakeErrorView::TokenMismatch,
            HandshakeError::NotReady => HandshakeErrorView::NotReady,
        }
    }
}

impl HandshakeErrorView {
    /// The diagnostic, causes included.
    pub open spec fn text(self) -> Seq<char> {
        match self {
            HandshakeErrorView::Frame(e) => e.text(),
            HandshakeErrorView::UnexpectedRequest => "unexpected request payload"@,
            HandshakeErrorView::TokenMismatch => "session token mismatch"@,
            HandshakeErrorView::NotReady => "receiver not ready"@,
        }
    }
}

impl HandshakeError {
    /// The diagnostic, causes included.
    pub fn to_string(&self) -> (res: String)
        ensures
            res@ == self@.text(),
    {
        match self {
            HandshakeError::Frame(e) => e.to_string(),
            HandshakeError::UnexpectedRequest => "unexpected request payload".to_owned(),
            HandshakeError::TokenMismatch => "session token mismatch".to_owned(),
            HandshakeError::NotReady => "receiver not ready".to_owned(),
        }
    }
}

/// What a sender writes to ask for the receiver's candidates: an empty frame.
pub fn request_candidates(out: &mut Vec<u8>)
    ensures
        final(out)@ == old(out)@ + framed(Seq::empty()),
{
    push_u32(out, 0);
    assert(framed(Seq::empty()) =~= crate::wire::be_bytes(0, 4));
}

/// Append the receiver's candidates, serialized, as one frame.
pub fn send_candidates(out: &mut Vec<u8>, json: &[u8]) -> (res: Result<(), FrameError>)
    ensures
        match res {
            Ok(_) => json@.len() <= u32::MAX && final(out)@ == old(out)@ + framed(json@),
            Err(e) => json@.len() > u32::MAX && e@ == FrameErrorView::TooLarge && final(out)@
                == old(out)@,
        },
{
    write_frame(out, json)
}

/// The receiver's answer to a candidate request: the serialized candidates,
/// then the session token, one frame each.
pub fn serve_candidates(request: &[u8], json: &[u8], token: &[u8]) -> (res: Result<
    Vec<u8>,
    HandshakeError,
>)
    ensures
        match res {
            Ok(reply) => request@.len() == 0 && json@.len() <= u32::MAX && token@.len() <= u32::MAX
                && reply@ == framed(json@) + framed(token@),
            Err(e) => if request@.len() > 0 {
                e@ == HandshakeErrorView::UnexpectedRequest
            } else {
                (json@.len() > u32::MAX || token@.len() > u32::MAX) && e@ == HandshakeErrorView::Frame(
                    FrameErrorView::TooLarge,
                )
            },
        },
{
    if request.len() > 0 {
        return Err(HandshakeError::UnexpectedRequest);
    }
    let mut out: Vec<u8> = Vec::new();
    match send_candidates(&mut out, json) {
        Ok(_) => {},
        Err(e) => {
            return Err(HandshakeError::Frame(e));
        },
    }
    match write_frame(&mut out, token) {
        Ok(_) => {
            assert(out@ =~= framed(json@) + framed(token@));
            Ok(out)
        },
        Err(e) => Err(HandshakeError::Frame(e)),
    }
}

/// What has arrived of the receiver's answer.
#[derive(Debug, Clone)]
pub enum CandidateReply {
    /// So many bytes more have to be read.
    Need(usize),
    Bad(FrameError),
    /// The serialized candidates and the session token.
    Reply { json: Vec<u8>, token: Vec<u8> },
}

/// A [`CandidateReply`] as plain values.
pub enum CandidateReplyView {
    Need(nat),
    Bad(FrameErrorView),
    Reply { json: Seq<u8>, token: Seq<u8> },
}

impl View for CandidateReply {
    type V = CandidateReplyView;

    open spec fn view(&self) -> CandidateReplyView {
        match self {
            CandidateReply::Need(n) => CandidateReplyView::Need(*n as nat),
            CandidateReply::Bad(e) => CandidateReplyView::Bad(e@),
            CandidateReply::Reply { json, token } => CandidateReplyView::Reply {
                json: json@,
                token: token@,
            },
        }
    }
}

/// What has arrived of the receiver's answer.
pub open spec fn reply_read(buf: Seq<u8>, end: Option<Seq<char>>) -> CandidateReplyView {
    match frame_read(buf, end) {
        FrameReadView::Need(n) => CandidateReplyView::Need(n),
        FrameReadView::Bad(e) => CandidateReplyView::Bad(e),
        FrameReadView::Frame { payload: json, consumed } => match frame_read(
            buf.skip(consumed as int),
            end,
        ) {
            FrameReadView::Need(n) => CandidateReplyView::Need(n),
            FrameReadView::Bad(e) => CandidateReplyView::Bad(e),
            FrameReadView::Frame { payload: token, .. } => CandidateReplyView::Reply {
                json,
                token,
            },
        },
    }
}

/// Read the receiver's candidates and session token off what has arrived; `end`
/// is why no more will come, where none will.
pub fn recv_candidates(buf: &[u8], end: Option<&str>) -> (res: CandidateReply)
    ensures
        res@ == reply_read(buf@, cause_of(end)),
{
    match read_frame(buf, end) {
        FrameRead::Need(n) => CandidateReply::Need(n),
        FrameRead::Bad(e) => CandidateReply::Bad(e),
        FrameRead::Frame { payload: json, consumed } => {
            let rest = &buf[consumed..buf.len()];
            assert(rest@ =~= buf@.skip(consumed as int));
            match read_frame(rest, end) {
                FrameRead::Need(n) => CandidateReply::Need(n),
                FrameRead::Bad(e) => CandidateReply::Bad(e),
                FrameRead::Frame { payload: token, .. } => CandidateReply::Reply { json, token },
            }
        },
    }
}

/// The receiver's answer to a media request: `ready` where the request carries
/// this session's token.
pub fn accept_media(request: &[u8], token: &[u8]) -> (res: Result<Vec<u8>, HandshakeError>)
    ensures
        match res {
            Ok(reply) => request@ == token@ && reply@ == framed(READY_BYTES@),
            Err(e) => request@ != token@ && e@ == HandshakeErrorView::TokenMismatch,
        },
{
    if !same_bytes(request, token) {
        return Err(HandshakeError::TokenMismatch);
    }
    let mut out: Vec<u8> = Vec::new();
    push_u32(&mut out, 5);
    push_bytes(&mut out, READY_BYTES.as_slice());
    assert(out@ =~= framed(READY_BYTES@));
    Ok(out)
}

/// The word `ready`.
pub const READY_BYTES: [u8; 5] = [0x72, 0x65, 0x61, 0x64, 0x79];

/// Check the receiver's answer to a media request.
pub fn check_ready(answer: &[u8]) -> (res: Result<(), HandshakeError>)
    ensures
        match res {
            Ok(_) => answer@ == READY_BYTES@,
            Err(e) => answer@ != READY_BYTES@ && e@ == HandshakeErrorView::NotReady,
        },
{
    if same_bytes(answer, READY_BYTES.as_slice()) {
        Ok(())
    } else {
        Err(HandshakeError::NotReady)
    }
}

// ---------------------------------------------------------------------------
// Outcome
// ---------------------------------------------------------------------------

/// Role of the running side.
#[derive(Debug, Clone, Copy, PartialEq, Eq, Structural)]
pub enum MediaRole {
    /// Home side: accepts control + media connections, receives media.
    Receiver,
    /// Remote side: dials control + media, sends media.
    Sender,
}

/// Outcome of one full media session (used for result recording).
#[derive(Debug, Clone, Copy, PartialEq, Eq)]
pub struct SessionOutcome {
    pub role: MediaRole,
    pub direct_connection_success: bool,
    pub time_to_direct_ms: Option<u64>,
    pub stream: StreamStats,
    /// Always 0 in a compliant run; nonzero proves a relay path existed.
    pub relay_media_bytes: u64,
    /// Count of relay paths ever observed by the monitor.
    pub ever_relay_paths: u64,
    /// Whether the receiver saw the stream through to its end.
    pub receiver_confirmed: bool,
}

/// How long it took from the start until a direct path was ready, where media
/// flowed over one: until the media gate first allowed streaming or, where the
/// first frame came in before this side's gate had noticed, until that frame.
pub open spec fn time_to_direct(stats: StreamStats, started_ms: u64, ready_ms: Option<u64>) -> Option<
    u64,
> {
    match stats.first_frame_unix_ms {
        Some(first) => {
            let ready = match ready_ms {
                Some(ready) => ready,
                None => first,
            };
            Some(
                if ready >= started_ms {
                    (ready - started_ms) as u64
                } else {
                    0
                },
            )
        },
        None => None,
    }
}

impl SessionOutcome {
    /// What a session amounts to. `started_ms` is when it began, `ready_ms`
    /// when its gate first allowed streaming.
    pub fn of_session(
        role: MediaRole,
        stream: StreamStats,
        started_ms: u64,
        ready_ms: Option<u64>,
        ever_relay_paths: u64,
        receiver_confirmed: bool,
    ) -> (res: Self)
        ensures
            res == (SessionOutcome {
                role,
                direct_connection_success: stream.frames > 0,
                time_to_direct_ms: time_to_direct(stream, started_ms, ready_ms),
                stream,
                relay_media_bytes: 0,
                ever_relay_paths,
                receiver_confirmed,
            }),
            res.time_to_direct_ms is Some <==> res.stream.first_frame_unix_ms is Some,
    {
        let time_to_direct_ms = match (stream.first_frame_unix_ms, ready_ms) {
            (Some(_), Some(ready)) => Some(ready.saturating_sub(started_ms)),
            (Some(first), None) => Some(first.saturating_sub(started_ms)),
            _ => None,
        };
        SessionOutcome {
            role,
            direct_connection_success: stream.frames > 0,
            time_to_direct_ms,
            stream,
            relay_media_bytes: 0,
            ever_relay_paths,
            receiver_confirmed,
        }
    }

    /// What a session amounts to for its sender. A sender that sent a frame
    /// knows since when it was allowed to, so the time that it took to get a
    /// direct path ends there.
    pub fn of_sender(
        sender: &Sender,
        started_ms: u64,
        ever_relay_paths: u64,
        receiver_confirmed: bool,
    ) -> (res: Self)
        ensures
            res == (SessionOutcome {
                role: MediaRole::Sender,
                direct_connection_success: sender@.stats.frames > 0,
                time_to_direct_ms: time_to_direct(sender@.stats, started_ms, sender@.ready_ms),
                stream: sender@.stats,
                relay_media_bytes: 0,
                ever_relay_paths,
                receiver_confirmed,
            }),
            res.time_to_direct_ms is Some <==> res.stream.first_frame_unix_ms is Some,
            res.time_to_direct_ms is Some <==> res.direct_connection_success,
            res.time_to_direct_ms is Some ==> sender@.ready_ms is Some,
    {
        let ready_ms = sender.ready_ms();
        SessionOutcome::of_session(
            MediaRole::Sender,
            sender.stats(),
            started_ms,
            ready_ms,
            ever_relay_paths,
            receiver_confirmed,
        )
    }

    /// Why the session counts as failed, if it does: the media gate tripped, or the
    /// sender never heard that its stream arrived.
    pub open spec fn failure(self, gate: GateState) -> Option<Seq<char>> {
        if self.ever_relay_paths > 0 || gate is Stopped {
            Some(
                "fail-closed gate tripped: ever_relay_paths="@ + crate::text::decimal(
                    self.ever_relay_paths as nat,
                ) + " gate="@ + gate.name(),
            )
        } else if self.role == MediaRole::Sender && !self.receiver_confirmed {
            Some("receiver never confirmed stream completion"@)
        } else {
            None
        }
    }

    /// The throughput to record.
    pub open spec fn throughput(self) -> Option<Throughput> {
        match (self.stream.first_frame_unix_ms, self.stream.last_frame_unix_ms) {
            (Some(first), Some(last)) => if last > first && self.stream.frames >= 2 {
                Some(
                    Throughput::Stream(
                        crate::stream::Rate {
                            bytes: self.stream.bytes_on_wire,
                            span_ms: (last - first) as u64,
                        },
                    ),
                )
            } else {
                None
            },
            _ => None,
        }
    }

    /// Record the session in the result of the run.
    pub fn record(&self, gate: GateState, result: &mut ExperimentResult)
        ensures
            final(result)@ == (ResultView {
                direct_connection_success: Some(self.direct_connection_success),
                time_to_direct_ms: self.time_to_direct_ms,
                selected_path: if self.direct_connection_success {
                    Some(SelectedPath::DirectIp)
                } else {
                    old(result)@.selected_path
                },
                payload_bytes: self.stream.payload_bytes,
                media_throughput_mbps: self.throughput(),
                relay_media_rx_bytes: if self.role == MediaRole::Receiver {
                    Some(self.relay_media_bytes)
                } else {
                    old(result)@.relay_media_rx_bytes
                },
                relay_media_tx_bytes: if self.role == MediaRole::Sender {
                    Some(self.relay_media_bytes)
                } else {
                    old(result)@.relay_media_tx_bytes
                },
                failure_reason: match self.failure(gate) {
                    Some(reason) => Some(reason),
                    None => old(result)@.failure_reason,
                },
                ..old(result)@
            }),
    {
        result.direct_connection_success = Some(self.direct_connection_success);
        result.time_to_direct_ms = self.time_to_direct_ms;
        // A successful run streamed only under a direct-selected gate.
        if self.direct_connection_success {
            result.selected_path = Some(SelectedPath::DirectIp);
        }
        result.payload_bytes = self.stream.payload_bytes;
        result.media_throughput_mbps = match self.stream.throughput_mbps() {
            Some(rate) => Some(Throughput::Stream(rate)),
            None => None,
        };
        match self.role {
            MediaRole::Receiver => {
                result.relay_media_rx_bytes = Some(self.relay_media_bytes);
            },
            MediaRole::Sender => {
                result.relay_media_tx_bytes = Some(self.relay_media_bytes);
            },
        }
        let stopped = gate.stop_reason().is_some();
        if self.ever_relay_paths > 0 || stopped {
            let mut reason = "fail-closed gate tripped: ever_relay_paths=".to_owned();
            push_decimal(&mut reason, self.ever_relay_paths);
            reason.append(" gate=");
            let name = gate.to_string();
            reason.append(name.as_str());
            result.failure_reason = Some(reason);
        } else if self.role == MediaRole::Sender && !self.receiver_confirmed {
            result.failure_reason = Some(
                "receiver never confirmed stream completion".to_owned(),
            );
        }
    }
}

// ---------------------------------------------------------------------------
// Laws
// ---------------------------------------------------------------------------

/// A frame within the limit reads back as it was written, whatever follows it
/// on the stream.
pub proof fn law_frame_roundtrip(payload: Seq<u8>, rest: Seq<u8>, end: Option<Seq<char>>)
    requires
        payload.len() <= MAX_FRAME_LEN,
    ensures
        framed(payload).len() == 4 + payload.len(),
        frame_read(framed(payload) + rest, end) == (FrameReadView::Frame {
            payload,
            consumed: 4 + payload.len(),
        }),
{
    let w = framed(payload) + rest;
    reveal_with_fuel(crate::wire::byte_range, 5);
    crate::wire::lemma_be_roundtrip(payload.len(), 4);
    assert(w.subrange(0, 4) =~= crate::wire::be_bytes(payload.len(), 4));
    assert(w.subrange(4, 4 + payload.len() as int) =~= payload);
}

/// A frame over the limit is refused as soon as its length is known, whatever
/// follows.
pub proof fn law_oversized_frame_refused(payload: Seq<u8>, rest: Seq<u8>, end: Option<Seq<char>>)
    requires
        MAX_FRAME_LEN < payload.len() <= u32::MAX,
    ensures
        frame_read(framed(payload) + rest, end) == FrameReadView::Bad(
            FrameErrorView::OverLimit(payload.len() as u32),
        ),
        frame_read(framed(payload).take(4), end) == FrameReadView::Bad(
            FrameErrorView::OverLimit(payload.len() as u32),
        ),
{
    let w = framed(payload) + rest;
    reveal_with_fuel(crate::wire::byte_range, 5);
    crate::wire::lemma_be_roundtrip(payload.len(), 4);
    assert(w.subrange(0, 4) =~= crate::wire::be_bytes(payload.len(), 4));
    assert(framed(payload).take(4).subrange(0, 4) =~= crate::wire::be_bytes(payload.len(), 4));
}

/// What the receiver serves, the sender reads: the same candidates and the
/// same token.
pub proof fn law_candidate_exchange(json: Seq<u8>, token: Seq<u8>, end: Option<Seq<char>>)
    requires
        json.len() <= MAX_FRAME_LEN,
        token.len() <= MAX_FRAME_LEN,
    ensures
        reply_read(framed(json) + framed(token), end) == (CandidateReplyView::Reply {
            json,
            token,
        }),
{
    law_frame_roundtrip(json, framed(token), end);
    law_frame_roundtrip(token, Seq::empty(), end);
    assert((framed(json) + framed(token)).skip(4 + json.len() as int) =~= framed(token));
    assert(framed(token) + Seq::<u8>::empty() =~= framed(token));
}

/// A run that counts as compliant saw no relay path, and its gate never
/// stopped it.
pub proof fn law_no_failure_means_compliant(outcome: SessionOutcome, gate: GateState)
    requires
        outcome.failure(gate) is None,
    ensures
        outcome.ever_relay_paths == 0,
        !(gate is Stopped),
        outcome.role == MediaRole::Sender ==> outcome.receiver_confirmed,
{
}

/// A frame byte by byte: the length of its body in network order, then the
/// body.
pub proof fn law_frame_layout(payload: Seq<u8>)
    requires
        payload.len() <= u32::MAX,
    ensures
        framed(payload) == seq![
            (payload.len() / 0x100_0000) as u8,
            (payload.len() / 0x1_0000 % 0x100) as u8,
            (payload.len() / 0x100 % 0x100) as u8,
            (payload.len() % 0x100) as u8,
        ] + payload,
{
    crate::wire::law_network_order(
        0,
        payload.len() as u32,
        0,
        Seq::new(2, |i: int| 0u8),
        Seq::new(4, |i: int| 0u8),
        Seq::new(8, |i: int| 0u8),
    );
    assert(framed(payload) =~= seq![
        (payload.len() / 0x100_0000) as u8,
        (payload.len() / 0x1_0000 % 0x100) as u8,
        (payload.len() / 0x100 % 0x100) as u8,
        (payload.len() % 0x100) as u8,
    ] + payload);
}

/// What the head of a stream amounts to as a frame, byte by byte: more bytes
/// are asked for up to the end of the length and then of the body, which is
/// refused over 65536 bytes; where no more come, that is the error.
pub proof fn law_frame_head(buf: Seq<u8>, end: Option<Seq<char>>)
    ensures
        buf.len() < 4 && end is None ==> frame_read(buf, end) == FrameReadView::Need(
            (4 - buf.len()) as nat,
        ),
        buf.len() < 4 ==> (end matches Some(cause) ==> frame_read(buf, end) == FrameReadView::Bad(
            FrameErrorView::NoLength(cause),
        )),
        buf.len() >= 4 ==> ({
            let len = buf[0] * 0x100_0000 + buf[1] * 0x1_0000 + buf[2] * 0x100 + buf[3];
            &&& len > 65536 ==> frame_read(buf, end) == FrameReadView::Bad(
                FrameErrorView::OverLimit(len as u32),
            )
            &&& len <= 65536 && buf.len() < 4 + len && end is None ==> frame_read(buf, end)
                == FrameReadView::Need((4 + len - buf.len()) as nat)
            &&& len <= 65536 && buf.len() < 4 + len ==> (end matches Some(cause) ==> frame_read(
                buf,
                end,
            ) == FrameReadView::Bad(FrameErrorView::NoBody(cause)))
            &&& len <= 65536 && buf.len() >= 4 + len ==> frame_read(buf, end)
                == (FrameReadView::Frame {
                payload: buf.subrange(4, 4 + len),
                consumed: (4 + len) as nat,
            })
        }),
{
    if buf.len() >= 4 {
        crate::wire::law_network_order(
            0,
            0,
            0,
            Seq::new(2, |i: int| 0u8),
            buf.subrange(0, 4),
            Seq::new(8, |i: int| 0u8),
        );
    }
}

/// The receiver's answer is read as two frames, one behind the other: what the
/// first reads as decides until it is whole, then what the second reads as.
pub proof fn law_reply_is_two_frames(json: Seq<u8>, rest: Seq<u8>, end: Option<Seq<char>>)
    requires
        json.len() <= 65536,
    ensures
        ({
            let res = reply_read(framed(json) + rest, end);
            &&& frame_read(rest, end) matches FrameReadView::Need(n) ==> res
                == CandidateReplyView::Need(n)
            &&& frame_read(rest, end) matches FrameReadView::Bad(e) ==> res
                == CandidateReplyView::Bad(e)
            &&& frame_read(rest, end) matches FrameReadView::Frame { payload, .. } ==> res
                == (CandidateReplyView::Reply { json, token: payload })
        }),
        frame_read(rest, end) matches FrameReadView::Need(n) ==> reply_read(rest, end)
            == CandidateReplyView::Need(n),
        frame_read(rest, end) matches FrameReadView::Bad(e) ==> reply_read(rest, end)
            == CandidateReplyView::Bad(e),
{
    law_frame_roundtrip(json, rest, end);
    assert((framed(json) + rest).skip(4 + json.len() as int) =~= rest);
}

/// The time to direct is known exactly where a frame flowed. It runs from the
/// start until the media gate was ready or, where that is not known, until the
/// first frame, and is never negative.
pub proof fn law_time_to_direct(stats: StreamStats, started_ms: u64, ready_ms: Option<u64>)
    ensures
        time_to_direct(stats, started_ms, ready_ms) is Some <==> stats.first_frame_unix_ms is Some,
        stats.first_frame_unix_ms is Some ==> (ready_ms matches Some(ready) ==> time_to_direct(
            stats,
            started_ms,
            ready_ms,
        ) == Some(
            if ready < started_ms {
                0u64
            } else {
                (ready - started_ms) as u64
            },
        )),
        stats.first_frame_unix_ms matches Some(first) ==> (ready_ms is None ==> time_to_direct(
            stats,
            started_ms,
            ready_ms,
        ) == Some(
            if first < started_ms {
                0u64
            } else {
                (first - started_ms) as u64
            },
        )),
{
}

/// A session counts as failed exactly where a relay path was seen, the media
/// gate stopped it, or it is the sender's and the receiver never confirmed;
/// the first two are told apart from the last.
pub proof fn law_session_failure(outcome: SessionOutcome, gate: GateState)
    ensures
        ({
            let tripped = outcome.ever_relay_paths > 0 || (gate matches GateState::Stopped(_));
            let unconfirmed = outcome.role == MediaRole::Sender && !outcome.receiver_confirmed;
            &&& outcome.failure(gate) is Some <==> tripped || unconfirmed
            &&& tripped ==> outcome.failure(gate) == Some(
                "fail-closed gate tripped: ever_relay_paths="@ + crate::text::decimal(
                    outcome.ever_relay_paths as nat,
                ) + " gate="@ + gate.name(),
            )
            &&& !tripped && unconfirmed ==> outcome.failure(gate) == Some(
                "receiver never confirmed stream completion"@,
            )
        }),
{
}

/// The throughput recorded is everything on the wire over the span from the
/// first frame to the last. It takes two frames and a span longer than zero.
pub proof fn law_session_throughput(outcome: SessionOutcome)
    ensures
        outcome.throughput() is Some <==> outcome.stream.frames >= 2
            && outcome.stream.first_frame_unix_ms is Some && outcome.stream.last_frame_unix_ms is Some
            && outcome.stream.first_frame_unix_ms->Some_0
            < outcome.stream.last_frame_unix_ms->Some_0,
        outcome.throughput() matches Some(t) ==> (t matches Throughput::Stream(rate) && rate.bytes
            == outcome.stream.bytes_on_wire && outcome.stream.first_frame_unix_ms->Some_0
            + rate.span_ms == outcome.stream.last_frame_unix_ms->Some_0),
{
}

/// The limits of the control plane: frames of 64 KiB, tokens of sixteen bytes,
/// and the word `ready`.
pub proof fn law_control_limits()
    ensures
        MAX_FRAME_LEN == 65536,
        TOKEN_LEN == 16,
        READY_BYTES@ == seq![114u8, 101u8, 97u8, 100u8, 121u8],
{
    assert(READY_BYTES@ =~= seq![114u8, 101u8, 97u8, 100u8, 121u8]);
}

} // verus!
