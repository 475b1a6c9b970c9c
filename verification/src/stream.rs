//! Synthetic media stream: framed, rate-limited, sequence-checked.

use vstd::prelude::*;
use vstd::string::StringExecFns;

use crate::gate::{
    law_ready_means_direct, law_stop_latches, GateState, GateView, MediaGate, PathSignal,
    StopReason,
};
use crate::text::push_decimal;
use crate::time::Duration;
use crate::wire::{push_bytes, push_u16, push_u32, push_u64, read_u16, read_u32, read_u64};

verus! {

/// Parameters of the synthetic media flow.
#[derive(Debug, Clone, Copy, PartialEq, Eq, Structural)]
pub struct SyntheticConfig {
    /// Target average rate in bits per second.
    pub bitrate_bps: u64,
    /// Payload bytes per frame (excludes the frame header).
    pub frame_payload_bytes: u16,
    /// How long to stream once the media gate allows it.
    pub duration: Duration,
}

impl SyntheticConfig {
    /// Frame header: seq(u32) + sent-at unix ms(u64) + payload len(u16).
    pub const HEADER_BYTES: usize = 14;

    /// The payload bytes per frame, at least one.
    pub open spec fn payload_bytes(self) -> nat {
        if self.frame_payload_bytes >= 1 {
            self.frame_payload_bytes as nat
        } else {
            1
        }
    }

    /// How many nanoseconds the bits of one payload take at the rate; a second
    /// where there is no rate.
    pub open spec fn interval_nanos(self) -> nat {
        if self.bitrate_bps == 0 {
            1_000_000_000
        } else {
            (8 * self.payload_bytes() * 1_000_000_000) / self.bitrate_bps as nat
        }
    }

    pub fn frame_bytes(&self) -> (res: usize)
        ensures
            res == 14 + self.frame_payload_bytes,
    {
        Self::HEADER_BYTES + self.frame_payload_bytes as usize
    }

    /// Interval between frames to hit `bitrate_bps` on average: as long as the
    /// bits of one payload take at that rate, in whole nanoseconds. Without a
    /// rate it is a second.
    pub fn frame_interval(&self) -> (res: Duration)
        ensures
            res.wf(),
            res.secs * 1_000_000_000 + res.nanos == self.interval_nanos(),
    {
        if self.bitrate_bps == 0 {
            return Duration::from_secs(1);
        }
        let payload: u64 = if self.frame_payload_bytes >= 1 {
            self.frame_payload_bytes as u64
        } else {
            1
        };
        Duration::from_nanos(8 * payload * 1_000_000_000 / self.bitrate_bps)
    }
}

/// Statistics reported by whichever side ran the synthetic stream.
#[derive(Debug, Clone, Copy, PartialEq, Eq)]
pub struct StreamStats {
    pub frames: u64,
    /// Everything sent or received, frame headers included.
    pub bytes_on_wire: u64,
    /// The frames' payloads alone.
    pub payload_bytes: u64,
    pub first_frame_unix_ms: Option<u64>,
    pub last_frame_unix_ms: Option<u64>,
    pub stop_reason: Option<StopReason>,
}

/// The average rate of a stream as a fraction: so many bytes over so many
/// milliseconds.
#[derive(Debug, Clone, Copy, PartialEq, Eq, Structural)]
pub struct Rate {
    pub bytes: u64,
    pub span_ms: u64,
}

impl StreamStats {
    /// Statistics of a stream without frames.
    pub open spec fn empty() -> StreamStats {
        StreamStats {
            frames: 0,
            bytes_on_wire: 0,
            payload_bytes: 0,
            first_frame_unix_ms: None,
            last_frame_unix_ms: None,
            stop_reason: None,
        }
    }

    /// The statistics after one more frame with this payload length, stamped
    /// with this time.
    pub open spec fn with_frame(self, payload_len: nat, stamp: u64) -> StreamStats {
        StreamStats {
            frames: (self.frames + 1) as u64,
            bytes_on_wire: (self.bytes_on_wire + 14 + payload_len) as u64,
            payload_bytes: (self.payload_bytes + payload_len) as u64,
            first_frame_unix_ms: match self.first_frame_unix_ms {
                Some(first) => Some(first),
                None => Some(stamp),
            },
            last_frame_unix_ms: Some(stamp),
            stop_reason: self.stop_reason,
        }
    }

    /// Whether the counters have room for one more frame.
    pub open spec fn has_room(self, payload_len: nat) -> bool {
        &&& self.frames < u64::MAX
        &&& self.bytes_on_wire + 14 + payload_len <= u64::MAX
        &&& self.payload_bytes + payload_len <= u64::MAX
    }

    /// Whether the counters have room for one more frame.
    pub fn room_for(&self, payload_len: u16) -> (res: bool)
        ensures
            res == self.has_room(payload_len as nat),
    {
        self.frames < u64::MAX && self.bytes_on_wire <= u64::MAX - 14 - payload_len as u64
            && self.payload_bytes <= u64::MAX - payload_len as u64
    }

    fn count(&mut self, payload_len: u16, stamp: u64)
        requires
            old(self).has_room(payload_len as nat),
        ensures
            *final(self) == old(self).with_frame(payload_len as nat, stamp),
    {
        self.frames = self.frames + 1;
        self.bytes_on_wire = self.bytes_on_wire + 14 + payload_len as u64;
        self.payload_bytes = self.payload_bytes + payload_len as u64;
        if self.first_frame_unix_ms.is_none() {
            self.first_frame_unix_ms = Some(stamp);
        }
        self.last_frame_unix_ms = Some(stamp);
    }

    /// Average throughput across the observed frame span, as a fraction to be
    /// scaled to Mbit/s; needs two frames and a span longer than zero.
    pub fn throughput_mbps(&self) -> (res: Option<Rate>)
        ensures
            match (self.first_frame_unix_ms, self.last_frame_unix_ms) {
                (Some(first), Some(last)) => if last > first && self.frames >= 2 {
                    res == Some(
                        Rate { bytes: self.bytes_on_wire, span_ms: (last - first) as u64 },
                    )
                } else {
                    res is None
                },
                _ => res is None,
            },
    {
        match (self.first_frame_unix_ms, self.last_frame_unix_ms) {
            (Some(first), Some(last)) => {
                if last <= first || self.frames < 2 {
                    return None;
                }
                Some(Rate { bytes: self.bytes_on_wire, span_ms: last - first })
            },
            _ => None,
        }
    }
}

impl Default for StreamStats {
    fn default() -> (res: Self)
        ensures
            res == StreamStats::empty(),
    {
        StreamStats {
            frames: 0,
            bytes_on_wire: 0,
            payload_bytes: 0,
            first_frame_unix_ms: None,
            last_frame_unix_ms: None,
            stop_reason: None,
        }
    }
}

// ---------------------------------------------------------------------------
// Frames
// ---------------------------------------------------------------------------

/// One frame on the wire.
pub open spec fn frame_wire(seq: u32, sent_ms: u64, payload: Seq<u8>) -> Seq<u8> {
    crate::wire::be_bytes(seq as nat, 4) + crate::wire::be_bytes(sent_ms as nat, 8)
        + crate::wire::be_bytes(payload.len(), 2) + payload
}

/// One parsed inbound frame.
#[derive(Debug, Clone, Copy, PartialEq, Eq, Structural)]
pub struct Frame {
    pub seq: u32,
    pub sent_ms: u64,
    pub payload_len: u16,
}

/// What the bytes at the head of a stream amount to.
#[derive(Debug, Clone, Copy, PartialEq, Eq, Structural)]
pub enum FrameRead {
    /// So many bytes more have to be read.
    Need(usize),
    /// The stream ended at a frame boundary: a clean end.
    Fin,
    /// The stream ended inside a frame.
    Cut,
    /// A whole frame stands at the head.
    Frame(Frame),
}

/// What the bytes at the head of a stream amount to.
pub open spec fn frame_read(buf: Seq<u8>, ended: bool) -> FrameRead {
    if buf.len() == 0 && ended {
        FrameRead::Fin
    } else if buf.len() < 14 {
        if ended {
            FrameRead::Cut
        } else {
            FrameRead::Need((14 - buf.len()) as usize)
        }
    } else {
        let payload_len = crate::wire::be_value(buf.subrange(12, 14));
        if buf.len() < 14 + payload_len {
            if ended {
                FrameRead::Cut
            } else {
                FrameRead::Need((14 + payload_len - buf.len()) as usize)
            }
        } else {
            FrameRead::Frame(
                Frame {
                    seq: crate::wire::be_value(buf.subrange(0, 4)) as u32,
                    sent_ms: crate::wire::be_value(buf.subrange(4, 12)) as u64,
                    payload_len: payload_len as u16,
                },
            )
        }
    }
}

/// Read one frame off the head of what has arrived; `ended` tells that
/// nothing more will.
pub fn read_frame_synced(buf: &[u8], ended: bool) -> (res: FrameRead)
    ensures
        res == frame_read(buf@, ended),
{
    if buf.len() == 0 && ended {
        return FrameRead::Fin;
    }
    if buf.len() < SyntheticConfig::HEADER_BYTES {
        return if ended {
            FrameRead::Cut
        } else {
            FrameRead::Need(SyntheticConfig::HEADER_BYTES - buf.len())
        };
    }
    let payload_len = read_u16(buf, 12);
    let total: usize = SyntheticConfig::HEADER_BYTES + payload_len as usize;
    if buf.len() < total {
        return if ended {
            FrameRead::Cut
        } else {
            FrameRead::Need(total - buf.len())
        };
    }
    FrameRead::Frame(Frame { seq: read_u32(buf, 0), sent_ms: read_u64(buf, 4), payload_len })
}

impl Frame {
    /// How many bytes the frame takes on the wire.
    pub fn wire_bytes(&self) -> (res: u64)
        ensures
            res == 14 + self.payload_len,
    {
        14 + self.payload_len as u64
    }
}

// ---------------------------------------------------------------------------
// Receiver
// ---------------------------------------------------------------------------

/// Why reception failed.
#[derive(Debug, Clone, Copy, PartialEq, Eq, Structural)]
pub enum ReceiveError {
    /// A frame is missing or repeated.
    Discontinuity { got: u32, expected: u32 },
    /// The stream broke off, and no gate stop explained it.
    CutBeforeStop,
}

impl ReceiveError {
    /// The diagnostic.
    pub open spec fn text(self) -> Seq<char> {
        match self {
            ReceiveError::Discontinuity { got, expected } => "sequence discontinuity: got "@
                + crate::text::decimal(got as nat) + ", expected "@ + crate::text::decimal(
                expected as nat,
            ),
            ReceiveError::CutBeforeStop => "frame read failed before any gate stop"@,
        }
    }

    pub fn to_string(&self) -> (res: String)
        ensures
            res@ == self.text(),
    {
        match self {
            ReceiveError::Discontinuity { got, expected } => {
                let mut out = "sequence discontinuity: got ".to_owned();
                push_decimal(&mut out, *got as u64);
                out.append(", expected ");
                push_decimal(&mut out, *expected as u64);
                out
            },
            ReceiveError::CutBeforeStop => "frame read failed before any gate stop".to_owned(),
        }
    }
}

/// Receiving side of the synthetic stream.
///
/// Verifies sequence continuity starting at zero.
#[derive(Debug, Clone, Copy, PartialEq, Eq)]
pub struct Receiver {
    pub stats: StreamStats,
    pub expected_seq: u32,
}

/// The earlier of two times.
pub open spec fn earlier(a: u64, b: u64) -> u64 {
    if a <= b {
        a
    } else {
        b
    }
}

impl Receiver {
    /// A receiver that has received nothing.
    pub open spec fn initial() -> Receiver {
        Receiver { stats: StreamStats::empty(), expected_seq: 0 }
    }

    /// The receiver after a frame in sequence. The frame counts for the time
    /// it was sent, but never for one that has not come yet.
    pub open spec fn with_frame(self, frame: Frame, now_ms: u64) -> Receiver {
        Receiver {
            stats: self.stats.with_frame(
                frame.payload_len as nat,
                earlier(frame.sent_ms, now_ms),
            ),
            expected_seq: if self.expected_seq == u32::MAX {
                0
            } else {
                (self.expected_seq + 1) as u32
            },
        }
    }

    /// The receiver with the reason recorded for which the media gate stopped.
    pub open spec fn stopped_by(self, gate: GateState) -> Receiver {
        Receiver { stats: StreamStats { stop_reason: gate.reason(), ..self.stats }, ..self }
    }

    pub fn new() -> (res: Self)
        ensures
            res == Receiver::initial(),
    {
        Receiver { stats: StreamStats::default(), expected_seq: 0 }
    }

    /// How long a broken stream waits for the media gate to explain it.
    pub fn latch_wait() -> (res: Duration)
        ensures
            res == (Duration { secs: 2, nanos: 0 }),
    {
        Duration::from_secs(2)
    }

    /// Look at the media gate. A latched gate ends reception: returns `true` and
    /// records why.
    pub fn gate_changed(&mut self, gate: GateState) -> (done: bool)
        ensures
            done == (gate is Stopped),
            *final(self) == (if done {
                old(self).stopped_by(gate)
            } else {
                *old(self)
            }),
    {
        match gate {
            GateState::Stopped(reason) => {
                self.stats.stop_reason = Some(reason);
                true
            },
            _ => false,
        }
    }

    /// A frame arrived at time `now_ms`.
    pub fn frame(&mut self, frame: &Frame, now_ms: u64) -> (res: Result<(), ReceiveError>)
        requires
            old(self).stats.has_room(frame.payload_len as nat),
        ensures
            res is Ok <==> frame.seq == old(self).expected_seq,
            res is Ok ==> *final(self) == old(self).with_frame(*frame, now_ms),
            res is Err ==> *final(self) == *old(self),
            res matches Err(e) ==> e == (ReceiveError::Discontinuity {
                got: frame.seq,
                expected: old(self).expected_seq,
            }),
    {
        if frame.seq != self.expected_seq {
            return Err(
                ReceiveError::Discontinuity { got: frame.seq, expected: self.expected_seq },
            );
        }
        self.expected_seq = self.expected_seq.wrapping_add(1);
        let stamp: u64 = if frame.sent_ms <= now_ms {
            frame.sent_ms
        } else {
            now_ms
        };
        self.stats.count(frame.payload_len, stamp);
        Ok(())
    }

    /// The stream ended cleanly; record why the media gate stopped, if it did.
    pub fn fin(&mut self, gate: GateState)
        ensures
            *final(self) == old(self).stopped_by(gate),
    {
        self.stats.stop_reason = gate.stop_reason();
    }

    /// The stream broke off. The media gate gets a moment to notice; `gate` is
    /// its state after that wait.
    pub fn cut(&mut self, gate: GateState) -> (res: Result<(), ReceiveError>)
        ensures
            res is Ok <==> gate is Stopped,
            res is Ok ==> *final(self) == old(self).stopped_by(gate),
            res matches Err(e) ==> e == ReceiveError::CutBeforeStop && *final(self) == *old(self),
    {
        if self.gate_changed(gate) {
            Ok(())
        } else {
            Err(ReceiveError::CutBeforeStop)
        }
    }

    /// The statistics, and the number of frames received.
    pub fn finish(self) -> (res: (StreamStats, u64))
        ensures
            res.0 == self.stats,
            res.1 == self.stats.frames,
    {
        (self.stats, self.stats.frames)
    }
}

// ---------------------------------------------------------------------------
// Sender
// ---------------------------------------------------------------------------

/// The kinds of I/O failure that the sender tells apart.
#[derive(Debug, Clone, Copy, PartialEq, Eq, Structural)]
pub enum IoFailure {
    BrokenPipe,
    ConnectionReset,
    NotConnected,
    UnexpectedEof,
    Other,
}

/// Whether a failed write means that the connection is gone.
pub fn is_closed(failure: &IoFailure) -> (res: bool)
    ensures
        res == (*failure != IoFailure::Other),
{
    match failure {
        IoFailure::BrokenPipe => true,
        IoFailure::ConnectionReset => true,
        IoFailure::NotConnected => true,
        IoFailure::UnexpectedEof => true,
        IoFailure::Other => false,
    }
}

/// What the sender does before its first frame.
#[derive(Debug, Clone, Copy, PartialEq, Eq, Structural)]
pub enum WaitStep {
    /// A direct path is ready: start streaming.
    GoOn,
    /// Wait for the media gate to change, or for the time to be up.
    Wait,
    /// No direct path was ready in time.
    TimedOut,
    /// Nobody will change the media gate any more.
    GateClosed,
}

/// What the sender does before its first frame, from the state of the media
/// gate last announced, whether the time to wait is up, and whether whoever
/// announces it is gone.
pub open spec fn wait_step(announced: GateState, time_is_up: bool, gate_gone: bool) -> WaitStep {
    if announced == GateState::DirectReady {
        WaitStep::GoOn
    } else if gate_gone {
        WaitStep::GateClosed
    } else if time_is_up {
        WaitStep::TimedOut
    } else {
        WaitStep::Wait
    }
}

/// Decide whether to start streaming. That is so if and only if the media gate
/// last announced a direct path; a wait that is up, or that nothing can end,
/// fails.
pub fn await_direct(announced: GateState, time_is_up: bool, gate_gone: bool) -> (res: WaitStep)
    ensures
        res == wait_step(announced, time_is_up, gate_gone),
        res == WaitStep::GoOn <==> announced == GateState::DirectReady,
        time_is_up || gate_gone ==> res != WaitStep::Wait,
{
    if announced.allows_streaming() {
        WaitStep::GoOn
    } else if gate_gone {
        WaitStep::GateClosed
    } else if time_is_up {
        WaitStep::TimedOut
    } else {
        WaitStep::Wait
    }
}

impl WaitStep {
    /// The diagnostic, causes included, where this is a failure.
    pub fn error(&self) -> (res: Option<String>)
        ensures
            match *self {
                WaitStep::TimedOut => res matches Some(e) && e@
                    == "timed out waiting for direct-ready: deadline has elapsed"@,
                WaitStep::GateClosed => res matches Some(e) && e@ == "gate closed"@,
                _ => res is None,
            },
    {
        match self {
            WaitStep::TimedOut => Some(
                "timed out waiting for direct-ready: deadline has elapsed".to_owned(),
            ),
            WaitStep::GateClosed => Some("gate closed".to_owned()),
            _ => None,
        }
    }
}

/// What the sender does when it wakes up.
#[derive(Debug, Clone, Copy, PartialEq, Eq, Structural)]
pub enum SendStep {
    /// Write the next frame.
    Emit,
    /// The duration is over: finish the stream so the receiver sees its end.
    Finish,
    /// The media gate no longer allows streaming.
    Stop,
}

/// What the sender does when it wakes up, from the state of the media gate
/// last announced, the deadline, and the state of the media gate now.
pub open spec fn send_step(announced: GateState, past_deadline: bool, now: GateState) -> SendStep {
    if announced is Stopped {
        SendStep::Stop
    } else if past_deadline {
        SendStep::Finish
    } else if now != GateState::DirectReady {
        SendStep::Stop
    } else {
        SendStep::Emit
    }
}

/// A [`Sender`] as plain values.
pub struct SenderView {
    pub config: SyntheticConfig,
    pub stats: StreamStats,
    pub seq: u32,
    pub ready_ms: Option<u64>,
}

impl SenderView {
    /// A sender that has sent nothing.
    pub open spec fn initial(config: SyntheticConfig) -> SenderView {
        SenderView { config, stats: StreamStats::empty(), seq: 0, ready_ms: None }
    }

    /// The payload of every frame.
    pub open spec fn payload(self) -> Seq<u8> {
        Seq::new(self.config.frame_payload_bytes as nat, |i: int| 0xABu8)
    }

    /// The sender after its next frame, stamped `now_ms`, was written.
    pub open spec fn with_frame(self, now_ms: u64) -> SenderView {
        SenderView {
            stats: self.stats.with_frame(self.config.frame_payload_bytes as nat, now_ms),
            seq: if self.seq == u32::MAX {
                0
            } else {
                (self.seq + 1) as u32
            },
            ..self
        }
    }

    /// The sender with the reason recorded for which it stopped.
    pub open spec fn stopped_by(self, reason: Option<StopReason>) -> SenderView {
        SenderView { stats: StreamStats { stop_reason: reason, ..self.stats }, ..self }
    }

    /// The sender after waking up to this step, under a media gate in this
    /// state that first allowed streaming at that time.
    pub open spec fn woken(self, step: SendStep, gate: GateState, ready: Option<u64>) -> SenderView {
        match step {
            SendStep::Emit => SenderView { ready_ms: ready, ..self },
            SendStep::Finish => self,
            SendStep::Stop => self.stopped_by(gate.reason()),
        }
    }
}

/// Sending side of the synthetic stream.
#[derive(Debug)]
pub struct Sender {
    config: SyntheticConfig,
    stats: StreamStats,
    seq: u32,
    /// When the media gate first allowed streaming, once a frame was due.
    ready_ms: Option<u64>,
}

impl View for Sender {
    type V = SenderView;

    closed spec fn view(&self) -> SenderView {
        SenderView {
            config: self.config,
            stats: self.stats,
            seq: self.seq,
            ready_ms: self.ready_ms,
        }
    }
}

impl Sender {
    /// A sender that sent a frame knows when the first one went out, and since
    /// when streaming was allowed.
    #[verifier::type_invariant]
    spec fn sent_when_allowed(self) -> bool {
        &&& self.stats.frames > 0 <==> self.stats.first_frame_unix_ms is Some
        &&& self.stats.first_frame_unix_ms is Some ==> self.ready_ms is Some
    }

    pub fn new(config: SyntheticConfig) -> (res: Self)
        ensures
            res@ == SenderView::initial(config),
    {
        Sender { config, stats: StreamStats::default(), seq: 0, ready_ms: None }
    }

    /// What was sent so far.
    pub fn stats(&self) -> (res: StreamStats)
        ensures
            res == self@.stats,
            res.frames > 0 <==> res.first_frame_unix_ms is Some,
    {
        proof {
            use_type_invariant(self);
        }
        self.stats
    }

    /// When the media gate first allowed streaming, as far as the sender has
    /// seen. Where a frame was sent, it has.
    pub fn ready_ms(&self) -> (res: Option<u64>)
        ensures
            res == self@.ready_ms,
            self@.stats.first_frame_unix_ms is Some ==> res is Some,
    {
        proof {
            use_type_invariant(self);
        }
        self.ready_ms
    }

    /// Decide what to do on waking up, from the media gate state last announced,
    /// the deadline, and the media gate as it is now. Stopping records the
    /// reason; a frame that is due records since when it may be sent.
    pub fn wake(&mut self, announced: GateState, past_deadline: bool, gate: &MediaGate) -> (res:
        SendStep)
        ensures
            res == send_step(announced, past_deadline, gate@.state),
            final(self)@ == old(self)@.woken(res, gate@.state, gate.ready()),
            res == SendStep::Emit ==> final(self)@.ready_ms is Some,
    {
        proof {
            use_type_invariant(&*self);
        }
        let now = gate.state();
        if let GateState::Stopped(_) = announced {
            self.stats.stop_reason = now.stop_reason();
            return SendStep::Stop;
        }
        if past_deadline {
            return SendStep::Finish;
        }
        if !now.allows_streaming() {
            self.stats.stop_reason = now.stop_reason();
            return SendStep::Stop;
        }
        self.ready_ms = gate.ready_ms();
        SendStep::Emit
    }

    /// The bytes of the next frame, stamped `now_ms`.
    pub fn next_frame(&self, now_ms: u64) -> (res: Vec<u8>)
        ensures
            res@ == frame_wire(self@.seq, now_ms, self@.payload()),
    {
        let n: usize = self.config.frame_payload_bytes as usize;
        let mut out: Vec<u8> = Vec::with_capacity(self.config.frame_bytes());
        push_u32(&mut out, self.seq);
        push_u64(&mut out, now_ms);
        push_u16(&mut out, self.config.frame_payload_bytes);
        let payload: Vec<u8> = vec![0xABu8; n];
        assert(payload@ =~= self@.payload());
        push_bytes(&mut out, payload.as_slice());
        assert(out@ =~= frame_wire(self.seq, now_ms, self@.payload()));
        out
    }

    /// Whether the counters have room for one more frame.
    pub fn has_room(&self) -> (res: bool)
        ensures
            res == self@.stats.has_room(self@.config.frame_payload_bytes as nat),
    {
        self.stats.room_for(self.config.frame_payload_bytes)
    }

    /// The next frame, stamped `now_ms`, was written, as it was due.
    pub fn sent(&mut self, now_ms: u64)
        requires
            old(self)@.stats.has_room(old(self)@.config.frame_payload_bytes as nat),
            old(self)@.ready_ms is Some,
        ensures
            final(self)@ == old(self)@.with_frame(now_ms),
    {
        proof {
            use_type_invariant(&*self);
        }
        let mut stats = self.stats;
        stats.count(self.config.frame_payload_bytes, now_ms);
        self.stats = stats;
        self.seq = self.seq.wrapping_add(1);
    }

    /// Writing failed. A connection that is gone ends the stream and is
    /// recorded; any other failure is an error: returns `false`.
    pub fn write_failed(&mut self, failure: &IoFailure) -> (ended: bool)
        ensures
            ended == (*failure != IoFailure::Other),
            final(self)@ == (if ended {
                old(self)@.stopped_by(Some(StopReason::ConnectionClosed))
            } else {
                old(self)@
            }),
    {
        proof {
            use_type_invariant(&*self);
        }
        if is_closed(failure) {
            self.stats.stop_reason = Some(StopReason::ConnectionClosed);
            true
        } else {
            false
        }
    }
}

// ---------------------------------------------------------------------------
// Laws
// ---------------------------------------------------------------------------

/// One payload per interval hits the target rate: the bits that the rate allows
/// in one interval are those of one payload, to less than what it allows in a
/// nanosecond.
pub proof fn law_interval_hits_bitrate(config: SyntheticConfig)
    requires
        config.bitrate_bps > 0,
    ensures
        config.interval_nanos() * config.bitrate_bps <= 8 * config.payload_bytes() * 1_000_000_000
            < (config.interval_nanos() + 1) * config.bitrate_bps,
{
    let bits = 8 * config.payload_bytes() * 1_000_000_000;
    let rate = config.bitrate_bps as int;
    vstd::arithmetic::div_mod::lemma_fundamental_div_mod(bits as int, rate);
    let n = config.interval_nanos() as int;
    assert(n * rate == rate * n) by (nonlinear_arith);
    assert((n + 1) * rate == n * rate + rate) by (nonlinear_arith);
}

/// Media flows over direct paths only: a frame is written only while the
/// signals seen so far held no relay path and no close, and the last snapshot
/// had a direct path open and selected.
pub proof fn law_media_is_direct_only(
    signals: Seq<PathSignal>,
    announced: GateState,
    past_deadline: bool,
)
    requires
        send_step(announced, past_deadline, GateView::initial().run(signals).state)
            == SendStep::Emit,
    ensures
        forall|i: int| 0 <= i < signals.len() ==> !crate::gate::fatal(#[trigger] signals[i]),
        signals.len() > 0,
        signals.last() matches PathSignal::Snapshot { open_direct, selected_direct, .. }
            && open_direct > 0 && selected_direct,
{
    law_ready_means_direct(signals);
}

/// Streaming starts over direct paths only: the wait goes on to it only after
/// signals that held no relay path and no close, the last of which had a direct
/// path open and selected. Once the media gate has stopped, it never does.
pub proof fn law_start_is_direct_only(
    signals: Seq<PathSignal>,
    more: Seq<PathSignal>,
    time_is_up: bool,
    gate_gone: bool,
)
    ensures
        wait_step(GateView::initial().run(signals).state, time_is_up, gate_gone) == WaitStep::GoOn
            ==> (forall|i: int|
            0 <= i < signals.len() ==> !crate::gate::fatal(#[trigger] signals[i]))
            && signals.len() > 0 && (signals.last() matches PathSignal::Snapshot {
            open_direct,
            selected_direct,
            ..
        } && open_direct > 0 && selected_direct),
        GateView::initial().run(signals).state is Stopped ==> wait_step(
            GateView::initial().run(signals).run(more).state,
            time_is_up,
            gate_gone,
        ) != WaitStep::GoOn,
{
    let gate = GateView::initial().run(signals);
    if gate.state == GateState::DirectReady {
        law_ready_means_direct(signals);
    }
    if gate.state is Stopped {
        law_stop_latches(gate, more);
    }
}

/// Once the media gate has stopped, no frame is written any more, whatever
/// signals follow.
pub proof fn law_no_media_after_stop(
    gate: GateView,
    signals: Seq<PathSignal>,
    announced: GateState,
    past_deadline: bool,
)
    requires
        gate.state is Stopped,
    ensures
        send_step(announced, past_deadline, gate.run(signals).state) != SendStep::Emit,
{
    law_stop_latches(gate, signals);
}

/// A frame reads back as it was written, whatever follows it on the stream.
pub proof fn law_frame_roundtrip(
    seq: u32,
    sent_ms: u64,
    payload: Seq<u8>,
    rest: Seq<u8>,
    ended: bool,
)
    requires
        payload.len() < 0x1_0000,
    ensures
        frame_wire(seq, sent_ms, payload).len() == 14 + payload.len(),
        frame_read(frame_wire(seq, sent_ms, payload) + rest, ended) == FrameRead::Frame(
            Frame { seq, sent_ms, payload_len: payload.len() as u16 },
        ),
{
    let w = frame_wire(seq, sent_ms, payload) + rest;
    reveal_with_fuel(crate::wire::byte_range, 9);
    crate::wire::lemma_be_roundtrip(seq as nat, 4);
    crate::wire::lemma_be_roundtrip(sent_ms as nat, 8);
    crate::wire::lemma_be_roundtrip(payload.len(), 2);
    assert(w.subrange(0, 4) =~= crate::wire::be_bytes(seq as nat, 4));
    assert(w.subrange(4, 12) =~= crate::wire::be_bytes(sent_ms as nat, 8));
    assert(w.subrange(12, 14) =~= crate::wire::be_bytes(payload.len(), 2));
}

/// A frame that has not arrived in full is never taken for one: more bytes
/// are asked for, never beyond the frame's end.
pub proof fn law_partial_frame_waits(seq: u32, sent_ms: u64, payload: Seq<u8>, n: nat)
    requires
        payload.len() < 0x1_0000,
        n < 14 + payload.len(),
    ensures
        frame_read(frame_wire(seq, sent_ms, payload).take(n as int), false) matches FrameRead::Need(
            more,
        ) && 0 < more && n + more <= 14 + payload.len(),
{
    let w = frame_wire(seq, sent_ms, payload);
    reveal_with_fuel(crate::wire::byte_range, 5);
    crate::wire::lemma_be_bytes_len(seq as nat, 4);
    crate::wire::lemma_be_bytes_len(sent_ms as nat, 8);
    crate::wire::lemma_be_roundtrip(payload.len(), 2);
    if n >= 14 {
        assert(w.take(n as int).subrange(12, 14) =~= crate::wire::be_bytes(payload.len(), 2));
    }
}

/// Frames one after another on the wire, each filled as a sender fills it.
pub open spec fn frames_wire(frames: Seq<Frame>) -> Seq<u8>
    decreases frames.len(),
{
    if frames.len() == 0 {
        Seq::empty()
    } else {
        let f = frames[0];
        frame_wire(f.seq, f.sent_ms, Seq::new(f.payload_len as nat, |i: int| 0xABu8))
            + frames_wire(frames.skip(1))
    }
}

/// The frames that are read off a stream that has ended, one after another.
pub open spec fn frames_on(wire: Seq<u8>) -> Seq<Frame>
    decreases wire.len(),
{
    match frame_read(wire, true) {
        FrameRead::Frame(f) => seq![f] + frames_on(wire.skip(14 + f.payload_len)),
        _ => Seq::empty(),
    }
}

/// The frames written to a stream are the frames read off it, in order and
/// without one lost or made up.
pub proof fn law_stream_carries_frames(frames: Seq<Frame>)
    ensures
        frames_on(frames_wire(frames)) == frames,
    decreases frames.len(),
{
    let wire = frames_wire(frames);
    if frames.len() == 0 {
        assert(frame_read(wire, true) == FrameRead::Fin);
        assert(frames =~= Seq::empty());
    } else {
        let f = frames[0];
        let payload = Seq::new(f.payload_len as nat, |i: int| 0xABu8);
        let rest = frames_wire(frames.skip(1));
        law_frame_roundtrip(f.seq, f.sent_ms, payload, rest, true);
        assert(wire.skip(14 + f.payload_len) =~= rest);
        law_stream_carries_frames(frames.skip(1));
        assert(frames =~= seq![f] + frames.skip(1));
    }
}

/// A sender after writing one frame at each of these times.
pub open spec fn sent_all(sender: SenderView, times: Seq<u64>) -> SenderView
    decreases times.len(),
{
    if times.len() == 0 {
        sender
    } else {
        sent_all(sender, times.drop_last()).with_frame(times.last())
    }
}

/// The frames that a sender writes at these times.
pub open spec fn sent_frames(config: SyntheticConfig, times: Seq<u64>) -> Seq<Frame> {
    Seq::new(
        times.len(),
        |i: int|
            Frame {
                seq: sent_all(SenderView::initial(config), times.take(i)).seq,
                sent_ms: times[i],
                payload_len: config.frame_payload_bytes,
            },
    )
}

/// A receiver after these frames arrived at these times, unless one of them
/// was out of sequence.
pub open spec fn received_all(frames: Seq<Frame>, nows: Seq<u64>) -> Option<Receiver>
    decreases frames.len(),
{
    if frames.len() == 0 {
        Some(Receiver::initial())
    } else {
        match received_all(frames.drop_last(), nows.drop_last()) {
            Some(r) if r.expected_seq == frames.last().seq => Some(
                r.with_frame(frames.last(), nows.last()),
            ),
            _ => None,
        }
    }
}

/// What a sender counts after `n` frames.
proof fn lemma_sent_counts(config: SyntheticConfig, times: Seq<u64>)
    requires
        times.len() * (14 + config.frame_payload_bytes) <= u64::MAX,
    ensures
        ({
            let s = sent_all(SenderView::initial(config), times);
            &&& s.config == config
            &&& s.stats.frames == times.len()
            &&& s.stats.payload_bytes == times.len() * config.frame_payload_bytes
            &&& s.stats.bytes_on_wire == s.stats.payload_bytes + 14 * s.stats.frames
            &&& s.stats.stop_reason is None
        }),
    decreases times.len(),
{
    let n = times.len() as int;
    let p = config.frame_payload_bytes as int;
    assert(n * (14 + p) == n * p + 14 * n) by (nonlinear_arith);
    assert(n >= 0 && p >= 0 ==> n * p >= 0) by (nonlinear_arith);
    if n > 0 {
        assert((n - 1) * (14 + p) == n * (14 + p) - (14 + p)) by (nonlinear_arith);
        assert((n - 1) * p == n * p - p) by (nonlinear_arith);
        lemma_sent_counts(config, times.drop_last());
    } else {
        assert(n * p == 0) by (nonlinear_arith)
            requires
                n == 0,
        ;
    }
}

/// The frames that a sender writes arrive in sequence, and receiver and
/// sender agree on how many there were, on the bytes on the wire and on the
/// bytes of payload. On both sides the wire carries fourteen bytes per frame
/// on top of the payload.
pub proof fn law_stream_agreement(config: SyntheticConfig, times: Seq<u64>, nows: Seq<u64>)
    requires
        times.len() == nows.len(),
        times.len() * (14 + config.frame_payload_bytes) <= u64::MAX,
    ensures
        ({
            let s = sent_all(SenderView::initial(config), times);
            &&& received_all(sent_frames(config, times), nows) matches Some(r)
            &&& r.expected_seq == s.seq
            &&& r.stats.frames == s.stats.frames == times.len()
            &&& r.stats.bytes_on_wire == s.stats.bytes_on_wire
            &&& r.stats.payload_bytes == s.stats.payload_bytes
            &&& s.stats.bytes_on_wire == s.stats.payload_bytes + 14 * s.stats.frames
        }),
    decreases times.len(),
{
    lemma_sent_counts(config, times);
    if times.len() > 0 {
        let frames = sent_frames(config, times);
        let n = times.len() as int;
        let p = config.frame_payload_bytes as int;
        assert((n - 1) * (14 + p) <= n * (14 + p)) by (nonlinear_arith)
            requires
                p >= 0,
        ;
        lemma_sent_counts(config, times.drop_last());
        law_stream_agreement(config, times.drop_last(), nows.drop_last());
        assert(frames.drop_last() =~= sent_frames(config, times.drop_last())) by {
            assert forall|i: int| 0 <= i < n - 1 implies frames[i] == sent_frames(
                config,
                times.drop_last(),
            )[i] by {
                assert(times.drop_last().take(i) =~= times.take(i));
            }
        }
        assert(times.take(n - 1) =~= times.drop_last());
    }
}

/// A frame that repeats, skips or reorders is refused, and nothing is counted
/// for it: with one missing frame the stream does not pass.
pub proof fn law_gap_is_detected(config: SyntheticConfig, times: Seq<u64>, nows: Seq<u64>, i: int)
    requires
        0 <= i < times.len() - 1,
        times.len() < 0x1_0000_0000,
        nows.len() == times.len() - 1,
    ensures
        received_all(sent_frames(config, times).remove(i), nows) is None,
{
    let frames = sent_frames(config, times);
    let gapped = frames.remove(i);
    lemma_seq_numbers(config, times.take(i));
    lemma_seq_numbers(config, times.take(i + 1));
    let head = gapped.take(i + 1);
    assert(head.last() == frames[i + 1]);
    lemma_expected_seq(head.drop_last(), nows.take(i));
    assert(received_all(head, nows.take(i + 1)) is None) by {
        assert(nows.take(i + 1).drop_last() =~= nows.take(i));
    }
    lemma_refused_stays_refused(gapped, nows, i + 1);
}

/// Frames are numbered from zero.
proof fn lemma_seq_numbers(config: SyntheticConfig, times: Seq<u64>)
    requires
        times.len() < 0x1_0000_0000,
    ensures
        sent_all(SenderView::initial(config), times).seq == times.len(),
    decreases times.len(),
{
    if times.len() > 0 {
        lemma_seq_numbers(config, times.drop_last());
    }
}

/// What a receiver that took `n` frames expects next.
proof fn lemma_expected_seq(frames: Seq<Frame>, nows: Seq<u64>)
    requires
        frames.len() < 0x1_0000_0000,
    ensures
        received_all(frames, nows) matches Some(r) ==> r.expected_seq == frames.len(),
    decreases frames.len(),
{
    if frames.len() > 0 {
        lemma_expected_seq(frames.drop_last(), nows.drop_last());
    }
}

/// A stream that was refused stays refused.
proof fn lemma_refused_stays_refused(frames: Seq<Frame>, nows: Seq<u64>, n: int)
    requires
        frames.len() == nows.len(),
        0 <= n <= frames.len(),
        received_all(frames.take(n), nows.take(n)) is None,
    ensures
        received_all(frames, nows) is None,
    decreases frames.len(),
{
    if n == frames.len() {
        assert(frames.take(n) =~= frames);
        assert(nows.take(n) =~= nows);
    } else {
        assert(frames.drop_last().take(n) =~= frames.take(n));
        assert(nows.drop_last().take(n) =~= nows.take(n));
        lemma_refused_stays_refused(frames.drop_last(), nows.drop_last(), n);
    }
}

/// What a sender does on waking up, in every case: it stops whenever a stop was
/// announced, and whenever the media gate does not allow streaming before the
/// deadline; it finishes only past the deadline with no stop announced; it
/// writes a frame whenever nothing speaks against it.
pub proof fn law_wake_decides(announced: GateState, past_deadline: bool, now: GateState)
    ensures
        (announced matches GateState::Stopped(_)) ==> send_step(announced, past_deadline, now)
            == SendStep::Stop,
        !past_deadline && now != GateState::DirectReady ==> send_step(
            announced,
            past_deadline,
            now,
        ) == SendStep::Stop,
        send_step(announced, past_deadline, now) == SendStep::Finish <==> past_deadline && !(
        announced matches GateState::Stopped(_)),
        send_step(announced, past_deadline, now) == SendStep::Emit <==> !past_deadline && !(
        announced matches GateState::Stopped(_)) && now == GateState::DirectReady,
{
}

/// A sender that stops under a stopped media gate records the reason; one that
/// goes on or finishes changes no statistics. Only a frame that is due moves
/// the time from which streaming was allowed.
pub proof fn law_stop_is_recorded(
    sender: SenderView,
    announced: GateState,
    past_deadline: bool,
    now: GateState,
    ready: Option<u64>,
)
    ensures
        ({
            let step = send_step(announced, past_deadline, now);
            let after = sender.woken(step, now, ready);
            &&& step == SendStep::Stop ==> (now matches GateState::Stopped(r)
                ==> after.stats.stop_reason == Some(r))
            &&& step == SendStep::Stop && !(now matches GateState::Stopped(_)) ==> after.stats.stop_reason
                is None
            &&& step != SendStep::Stop ==> after.stats == sender.stats
            &&& after.stats.frames == sender.stats.frames
            &&& after.stats.bytes_on_wire == sender.stats.bytes_on_wire
            &&& after.stats.payload_bytes == sender.stats.payload_bytes
            &&& after.stats.first_frame_unix_ms == sender.stats.first_frame_unix_ms
            &&& after.stats.last_frame_unix_ms == sender.stats.last_frame_unix_ms
            &&& after.seq == sender.seq
            &&& after.config == sender.config
            &&& after.ready_ms == (if step == SendStep::Emit {
                ready
            } else {
                sender.ready_ms
            })
        }),
{
}

/// What a sender does before its first frame, in every case.
pub proof fn law_wait_decides(announced: GateState, time_is_up: bool, gate_gone: bool)
    ensures
        wait_step(announced, time_is_up, gate_gone) == WaitStep::GoOn <==> announced
            == GateState::DirectReady,
        wait_step(announced, time_is_up, gate_gone) == WaitStep::GateClosed <==> announced
            != GateState::DirectReady && gate_gone,
        wait_step(announced, time_is_up, gate_gone) == WaitStep::TimedOut <==> announced
            != GateState::DirectReady && !gate_gone && time_is_up,
        wait_step(announced, time_is_up, gate_gone) == WaitStep::Wait <==> announced
            != GateState::DirectReady && !gate_gone && !time_is_up,
{
}

/// A frame byte by byte: number, time and payload length in network order,
/// then the payload.
pub proof fn law_frame_layout(seq: u32, sent_ms: u64, payload: Seq<u8>)
    requires
        payload.len() < 0x1_0000,
    ensures
        frame_wire(seq, sent_ms, payload) == seq![
            (seq / 0x100_0000) as u8,
            (seq / 0x1_0000 % 0x100) as u8,
            (seq / 0x100 % 0x100) as u8,
            (seq % 0x100) as u8,
            (sent_ms / 0x100_0000_0000_0000) as u8,
            (sent_ms / 0x1_0000_0000_0000 % 0x100) as u8,
            (sent_ms / 0x100_0000_0000 % 0x100) as u8,
            (sent_ms / 0x1_0000_0000 % 0x100) as u8,
            (sent_ms / 0x100_0000 % 0x100) as u8,
            (sent_ms / 0x1_0000 % 0x100) as u8,
            (sent_ms / 0x100 % 0x100) as u8,
            (sent_ms % 0x100) as u8,
            (payload.len() / 0x100) as u8,
            (payload.len() % 0x100) as u8,
        ] + payload,
{
    crate::wire::law_network_order(
        payload.len() as u16,
        seq,
        sent_ms,
        Seq::new(2, |i: int| 0u8),
        Seq::new(4, |i: int| 0u8),
        Seq::new(8, |i: int| 0u8),
    );
    assert(frame_wire(seq, sent_ms, payload) =~= seq![
        (seq / 0x100_0000) as u8,
        (seq / 0x1_0000 % 0x100) as u8,
        (seq / 0x100 % 0x100) as u8,
        (seq % 0x100) as u8,
        (sent_ms / 0x100_0000_0000_0000) as u8,
        (sent_ms / 0x1_0000_0000_0000 % 0x100) as u8,
        (sent_ms / 0x100_0000_0000 % 0x100) as u8,
        (sent_ms / 0x1_0000_0000 % 0x100) as u8,
        (sent_ms / 0x100_0000 % 0x100) as u8,
        (sent_ms / 0x1_0000 % 0x100) as u8,
        (sent_ms / 0x100 % 0x100) as u8,
        (sent_ms % 0x100) as u8,
        (payload.len() / 0x100) as u8,
        (payload.len() % 0x100) as u8,
    ] + payload);
}

/// What the head of a stream amounts to, byte by byte: more bytes are asked
/// for up to the end of the header and then of the payload; a stream that ends
/// between two frames ends cleanly, one that ends inside a frame is cut; a
/// whole frame has the number, time and length that its header spells.
pub proof fn law_stream_head(buf: Seq<u8>, ended: bool)
    ensures
        buf.len() == 0 && ended ==> frame_read(buf, ended) == FrameRead::Fin,
        0 < buf.len() < 14 && ended ==> frame_read(buf, ended) == FrameRead::Cut,
        buf.len() < 14 && !ended ==> frame_read(buf, ended) == FrameRead::Need(
            (14 - buf.len()) as usize,
        ),
        buf.len() >= 14 ==> ({
            let total = 14 + buf[12] * 256 + buf[13];
            &&& buf.len() < total && ended ==> frame_read(buf, ended) == FrameRead::Cut
            &&& buf.len() < total && !ended ==> frame_read(buf, ended) == FrameRead::Need(
                (total - buf.len()) as usize,
            )
            &&& buf.len() >= total ==> frame_read(buf, ended) == FrameRead::Frame(
                Frame {
                    seq: (buf[0] * 0x100_0000 + buf[1] * 0x1_0000 + buf[2] * 0x100
                        + buf[3]) as u32,
                    sent_ms: (buf[4] * 0x100_0000_0000_0000 + buf[5] * 0x1_0000_0000_0000 + buf[6]
                        * 0x100_0000_0000 + buf[7] * 0x1_0000_0000 + buf[8] * 0x100_0000 + buf[9]
                        * 0x1_0000 + buf[10] * 0x100 + buf[11]) as u64,
                    payload_len: (buf[12] * 256 + buf[13]) as u16,
                },
            )
        }),
{
    if buf.len() >= 14 {
        crate::wire::law_network_order(
            0,
            0,
            0,
            buf.subrange(12, 14),
            buf.subrange(0, 4),
            buf.subrange(4, 12),
        );
    }
}

/// One more frame counts as one frame, as its payload, and as fourteen bytes
/// more on the wire; the first time is kept and the last one is the frame's.
/// The counters have room for it exactly where these sums fit in 64 bits.
pub proof fn law_frame_is_counted(stats: StreamStats, payload_len: u16, stamp: u64)
    ensures
        stats.has_room(payload_len as nat) <==> stats.frames + 1 <= u64::MAX && stats.bytes_on_wire
            + payload_len + 14 <= u64::MAX && stats.payload_bytes + payload_len <= u64::MAX,
        stats.has_room(payload_len as nat) ==> ({
            let after = stats.with_frame(payload_len as nat, stamp);
            &&& after.frames == stats.frames + 1
            &&& after.bytes_on_wire == stats.bytes_on_wire + payload_len + 14
            &&& after.payload_bytes == stats.payload_bytes + payload_len
            &&& stats.first_frame_unix_ms is Some ==> after.first_frame_unix_ms
                == stats.first_frame_unix_ms
            &&& stats.first_frame_unix_ms is None ==> after.first_frame_unix_ms == Some(stamp)
            &&& after.last_frame_unix_ms == Some(stamp)
            &&& after.stop_reason == stats.stop_reason
        }),
        StreamStats::empty().frames == 0,
        StreamStats::empty().bytes_on_wire == 0,
        StreamStats::empty().payload_bytes == 0,
        StreamStats::empty().first_frame_unix_ms is None,
        StreamStats::empty().last_frame_unix_ms is None,
        StreamStats::empty().stop_reason is None,
{
}

/// A receiver counts a frame in sequence for the time it was sent, or for the
/// present where that is earlier, and expects the next number, which wraps
/// after 2^32 - 1. A stop records its reason and nothing else.
pub proof fn law_receiver_counts(
    receiver: Receiver,
    frame: Frame,
    now_ms: u64,
    gate: GateState,
)
    requires
        receiver.stats.has_room(frame.payload_len as nat),
    ensures
        ({
            let after = receiver.with_frame(frame, now_ms);
            &&& after.expected_seq == (receiver.expected_seq + 1) % 0x1_0000_0000
            &&& after.stats.frames == receiver.stats.frames + 1
            &&& after.stats.bytes_on_wire == receiver.stats.bytes_on_wire + frame.payload_len + 14
            &&& after.stats.payload_bytes == receiver.stats.payload_bytes + frame.payload_len
            &&& after.stats.stop_reason == receiver.stats.stop_reason
            &&& after.stats.last_frame_unix_ms matches Some(t) && t <= now_ms && t
                <= frame.sent_ms && (t == now_ms || t == frame.sent_ms)
            &&& receiver.stats.first_frame_unix_ms is None ==> after.stats.first_frame_unix_ms
                == after.stats.last_frame_unix_ms
            &&& receiver.stats.first_frame_unix_ms is Some ==> after.stats.first_frame_unix_ms
                == receiver.stats.first_frame_unix_ms
        }),
        ({
            let after = receiver.stopped_by(gate);
            &&& gate matches GateState::Stopped(r) ==> after.stats.stop_reason == Some(r)
            &&& !(gate matches GateState::Stopped(_)) ==> after.stats.stop_reason is None
            &&& after.expected_seq == receiver.expected_seq
            &&& after.stats.frames == receiver.stats.frames
            &&& after.stats.bytes_on_wire == receiver.stats.bytes_on_wire
            &&& after.stats.payload_bytes == receiver.stats.payload_bytes
            &&& after.stats.first_frame_unix_ms == receiver.stats.first_frame_unix_ms
            &&& after.stats.last_frame_unix_ms == receiver.stats.last_frame_unix_ms
        }),
        Receiver::initial().expected_seq == 0,
        Receiver::initial().stats.frames == 0,
        Receiver::initial().stats.bytes_on_wire == 0,
        Receiver::initial().stats.payload_bytes == 0,
        Receiver::initial().stats.first_frame_unix_ms is None,
        Receiver::initial().stats.last_frame_unix_ms is None,
        Receiver::initial().stats.stop_reason is None,
{
}

/// A sender numbers its frames one after another from zero, wrapping after
/// 2^32 - 1, fills each with as many bytes 0xab as it is set to, and counts it
/// for the time it went out.
pub proof fn law_sender_counts(sender: SenderView, now_ms: u64)
    requires
        sender.stats.has_room(sender.config.frame_payload_bytes as nat),
    ensures
        ({
            let after = sender.with_frame(now_ms);
            &&& after.seq == (sender.seq + 1) % 0x1_0000_0000
            &&& after.config == sender.config
            &&& after.ready_ms == sender.ready_ms
            &&& after.stats.frames == sender.stats.frames + 1
            &&& after.stats.bytes_on_wire == sender.stats.bytes_on_wire
                + sender.config.frame_payload_bytes + 14
            &&& after.stats.payload_bytes == sender.stats.payload_bytes
                + sender.config.frame_payload_bytes
            &&& after.stats.last_frame_unix_ms == Some(now_ms)
            &&& sender.stats.first_frame_unix_ms is None ==> after.stats.first_frame_unix_ms
                == Some(now_ms)
            &&& sender.stats.first_frame_unix_ms is Some ==> after.stats.first_frame_unix_ms
                == sender.stats.first_frame_unix_ms
            &&& after.stats.stop_reason == sender.stats.stop_reason
        }),
        sender.payload().len() == sender.config.frame_payload_bytes,
        forall|i: int| 0 <= i < sender.payload().len() ==> #[trigger] sender.payload()[i] == 0xab,
        SenderView::initial(sender.config).config == sender.config,
        SenderView::initial(sender.config).seq == 0,
        SenderView::initial(sender.config).stats.frames == 0,
        SenderView::initial(sender.config).ready_ms is None,
        forall|reason: Option<StopReason>| #[trigger]
            sender.stopped_by(reason) == (SenderView {
                stats: StreamStats { stop_reason: reason, ..sender.stats },
                ..sender
            }),
{
}

/// The interval is as long as the bits of one payload take at the rate, to the
/// nanosecond: a payload of `p` bytes at `r` bits per second takes `8 p / r`
/// seconds. No payload counts as one byte, no rate gives a second.
pub proof fn law_interval_in_nanoseconds(config: SyntheticConfig)
    ensures
        config.bitrate_bps == 0 ==> config.interval_nanos() == 1_000_000_000,
        config.bitrate_bps > 0 && config.frame_payload_bytes > 0 ==> config.interval_nanos()
            * config.bitrate_bps <= config.frame_payload_bytes * 8_000_000_000 < (
        config.interval_nanos() + 1) * config.bitrate_bps,
        config.bitrate_bps > 0 && config.frame_payload_bytes == 0 ==> config.interval_nanos()
            * config.bitrate_bps <= 8_000_000_000 < (config.interval_nanos() + 1)
            * config.bitrate_bps,
{
    if config.bitrate_bps > 0 {
        law_interval_hits_bitrate(config);
    }
}

} // verus!
