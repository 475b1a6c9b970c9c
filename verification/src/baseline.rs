//! Baseline echo experiment: transfer, path telemetry, and the result.

use vstd::prelude::*;
use vstd::utf8::{decode_utf8, encode_utf8, valid_utf8};

use crate::result::{ExperimentResult, ResultView, SelectedPath, Throughput};
use crate::rng::random_bytes;
use crate::session::{
    read_frame, write_frame, FrameError, FrameErrorView, FrameRead, FrameReadView,
};
use crate::text::{because, cause_of, decimal_of, from_utf8, join2, with_cause};
use crate::time::Duration;
use crate::wire::same_bytes;

verus! {

/// Amount of test data transferred: 10 MiB.
pub const TEST_PAYLOAD_BYTES: usize = 10485760;

/// The most that is written or read in one go.
pub const CHUNK_BYTES: usize = 65536;

/// Upper bound in seconds for waiting on a relay -> direct migration after the
/// payload transfer completes.
pub const DIRECT_MIGRATION_TIMEOUT_SECS: u64 = 30;

// ---------------------------------------------------------------------------
// Run id
// ---------------------------------------------------------------------------

/// Append the run id that the dialer chose, at the head of its stream, so both
/// sides record the run under the same id.
pub fn write_run_id(out: &mut Vec<u8>, run_id: &str) -> (res: Result<(), FrameError>)
    ensures
        match res {
            Ok(_) => encode_utf8(run_id@).len() <= u32::MAX && final(out)@ == old(out)@
                + crate::session::framed(encode_utf8(run_id@)),
            Err(e) => encode_utf8(run_id@).len() > u32::MAX && e@ == FrameErrorView::TooLarge
                && final(out)@ == old(out)@,
        },
{
    write_frame(out, run_id.as_bytes())
}

/// What has arrived of the run id.
#[derive(Debug, Clone)]
pub enum RunIdRead {
    /// So many bytes more have to be read.
    Need(usize),
    Bad(FrameError),
    /// The run id is no text, for this reason.
    NotUtf8(String),
    /// The run id, which takes so many bytes.
    RunId { run_id: String, consumed: usize },
}

/// A [`RunIdRead`] as plain values.
pub enum RunIdReadView {
    Need(nat),
    Bad(FrameErrorView),
    NotUtf8(Seq<char>),
    RunId { run_id: Seq<char>, consumed: nat },
}

impl View for RunIdRead {
    type V = RunIdReadView;

    open spec fn view(&self) -> RunIdReadView {
        match self {
            RunIdRead::Need(n) => RunIdReadView::Need(*n as nat),
            RunIdRead::Bad(e) => RunIdReadView::Bad(e@),
            RunIdRead::NotUtf8(cause) => RunIdReadView::NotUtf8(cause@),
            RunIdRead::RunId { run_id, consumed } => RunIdReadView::RunId {
                run_id: run_id@,
                consumed: *consumed as nat,
            },
        }
    }
}

/// What has arrived of the run id.
pub open spec fn run_id_read(buf: Seq<u8>, end: Option<Seq<char>>) -> RunIdReadView {
    match crate::session::frame_read(buf, end) {
        FrameReadView::Need(n) => RunIdReadView::Need(n),
        FrameReadView::Bad(e) => RunIdReadView::Bad(e),
        FrameReadView::Frame { payload, consumed } => if valid_utf8(payload) {
            RunIdReadView::RunId { run_id: decode_utf8(payload), consumed }
        } else {
            RunIdReadView::NotUtf8(crate::text::utf8_error(payload))
        },
    }
}

/// Read the run id off the head of what has arrived.
pub fn read_run_id(buf: &[u8], end: Option<&str>) -> (res: RunIdRead)
    ensures
        res@ == run_id_read(buf@, cause_of(end)),
{
    match read_frame(buf, end) {
        FrameRead::Need(n) => RunIdRead::Need(n),
        FrameRead::Bad(e) => RunIdRead::Bad(e),
        FrameRead::Frame { payload, consumed } => match from_utf8(payload) {
            Ok(run_id) => RunIdRead::RunId { run_id, consumed },
            Err(cause) => RunIdRead::NotUtf8(cause),
        },
    }
}

impl RunIdRead {
    /// The diagnostic, causes included, where this is a failure.
    pub fn error(&self) -> (res: Option<String>)
        ensures
            match self@ {
                RunIdReadView::Bad(e) => res matches Some(t) && t@ == because(
                    "reading run id"@,
                    e.text(),
                ),
                RunIdReadView::NotUtf8(cause) => res matches Some(t) && t@ == because(
                    "run id is not valid UTF-8"@,
                    cause,
                ),
                _ => res is None,
            },
    {
        match self {
            RunIdRead::Bad(e) => {
                let e = e.to_string();
                Some(with_cause("reading run id", e.as_str()))
            },
            RunIdRead::NotUtf8(cause) => Some(
                with_cause("run id is not valid UTF-8", cause.as_str()),
            ),
            _ => None,
        }
    }
}

// ---------------------------------------------------------------------------
// Transfer
// ---------------------------------------------------------------------------

/// The acceptor's side of the transfer: everything the dialer sends goes back.
#[derive(Debug, Clone, Copy, PartialEq, Eq, Structural)]
pub struct Echo {
    pub echoed: u64,
}

/// What the acceptor does after reading from the stream.
#[derive(Debug, Clone, Copy, PartialEq, Eq, Structural)]
pub enum EchoStep {
    /// Write back what was read.
    WriteBack,
    /// The transfer is over.
    Done,
    /// The stream ended before the payload was complete.
    EndedEarly,
}

impl EchoStep {
    /// The diagnostic, where this is a failure.
    pub fn error(&self) -> (res: Option<&'static str>)
        ensures
            match *self {
                EchoStep::EndedEarly => res matches Some(e) && e@ == "stream ended early"@,
                _ => res is None,
            },
    {
        match self {
            EchoStep::EndedEarly => Some("stream ended early"),
            _ => None,
        }
    }
}

impl Echo {
    pub fn new() -> (res: Self)
        ensures
            res.echoed == 0,
    {
        Echo { echoed: 0 }
    }

    /// Whether more payload is expected.
    pub fn wants_more(&self) -> (res: bool)
        ensures
            res == (self.echoed < TEST_PAYLOAD_BYTES),
    {
        self.echoed < TEST_PAYLOAD_BYTES as u64
    }

    /// So many bytes were read, or the stream has ended.
    pub fn read(&mut self, n: Option<usize>) -> (res: EchoStep)
        requires
            n matches Some(n) ==> old(self).echoed + n <= u64::MAX,
        ensures
            res == (match n {
                None => EchoStep::EndedEarly,
                Some(0) => EchoStep::Done,
                Some(_) => EchoStep::WriteBack,
            }),
            final(self).echoed == old(self).echoed + (match n {
                Some(n) => n as int,
                None => 0int,
            }),
    {
        match n {
            None => EchoStep::EndedEarly,
            Some(n) => {
                if n == 0 {
                    return EchoStep::Done;
                }
                self.echoed = self.echoed + n as u64;
                EchoStep::WriteBack
            },
        }
    }
}

/// The dialer's side of the transfer: send chunks and check what comes back.
#[derive(Debug)]
pub struct Transfer {
    sent: u64,
    echoed: u64,
}

/// A [`Transfer`] as plain values.
pub struct TransferView {
    pub sent: nat,
    pub echoed: nat,
}

impl View for Transfer {
    type V = TransferView;

    closed spec fn view(&self) -> TransferView {
        TransferView { sent: self.sent as nat, echoed: self.echoed as nat }
    }
}

impl TransferView {
    /// The length of the next chunk; zero when all is sent.
    pub open spec fn next_len(self) -> int {
        let left = TEST_PAYLOAD_BYTES - self.sent;
        if left < CHUNK_BYTES {
            left
        } else {
            CHUNK_BYTES as int
        }
    }

    /// The transfer after so many bytes were written.
    pub open spec fn wrote(self, n: nat) -> TransferView {
        TransferView { sent: self.sent + n, ..self }
    }

    /// The transfer after so many bytes came back as they were sent.
    pub open spec fn read_back(self, n: nat) -> TransferView {
        TransferView { echoed: self.echoed + n, ..self }
    }
}

/// What the dialer does next.
#[derive(Debug, Clone)]
pub enum TransferStep {
    /// Write this chunk of random payload.
    Send(Vec<u8>),
    /// Read back what is outstanding.
    AwaitEcho,
    /// The whole payload was sent, and came back.
    Done,
}

/// The echo differs from what was sent, up to this offset.
#[derive(Debug, Clone, Copy, PartialEq, Eq, Structural)]
pub struct EchoMismatch {
    pub offset: u64,
}

impl EchoMismatch {
    /// The diagnostic.
    pub open spec fn text(self) -> Seq<char> {
        "echo mismatch at offset "@ + crate::text::decimal(self.offset as nat)
    }

    pub fn to_string(&self) -> (res: String)
        ensures
            res@ == self.text(),
    {
        let offset = decimal_of(self.offset);
        join2("echo mismatch at offset ", offset.as_str())
    }
}

impl Transfer {
    /// What was echoed was sent, and no more was sent than there is to send.
    #[verifier::type_invariant]
    spec fn wf(self) -> bool {
        self.echoed <= self.sent <= TEST_PAYLOAD_BYTES
    }

    pub fn new() -> (res: Self)
        ensures
            res@ == (TransferView { sent: 0, echoed: 0 }),
    {
        Transfer { sent: 0, echoed: 0 }
    }

    /// How many bytes were sent: no more than there are to send.
    pub fn sent(&self) -> (res: u64)
        ensures
            res == self@.sent,
            res <= TEST_PAYLOAD_BYTES,
    {
        proof {
            use_type_invariant(self);
        }
        self.sent
    }

    /// How many bytes came back: no more than were sent.
    pub fn echoed(&self) -> (res: u64)
        ensures
            res == self@.echoed,
            res <= self@.sent,
    {
        proof {
            use_type_invariant(self);
        }
        self.echoed
    }

    /// What comes next: the next chunk once everything sent came back, until
    /// the whole payload has.
    pub fn next_step(&self) -> (res: TransferStep)
        ensures
            match res {
                TransferStep::Send(chunk) => self@.echoed == self@.sent && self@.sent
                    < TEST_PAYLOAD_BYTES && chunk@.len() == self@.next_len(),
                TransferStep::AwaitEcho => self@.echoed < self@.sent,
                TransferStep::Done => self@.echoed == self@.sent && self@.sent
                    == TEST_PAYLOAD_BYTES,
            },
    {
        proof {
            use_type_invariant(self);
        }
        if self.echoed < self.sent {
            return TransferStep::AwaitEcho;
        }
        if self.sent >= TEST_PAYLOAD_BYTES as u64 {
            return TransferStep::Done;
        }
        let left: usize = TEST_PAYLOAD_BYTES - self.sent as usize;
        let n: usize = if left < CHUNK_BYTES {
            left
        } else {
            CHUNK_BYTES
        };
        TransferStep::Send(random_bytes(n))
    }

    /// A chunk of so many bytes was written.
    pub fn wrote(&mut self, n: usize)
        requires
            old(self)@.sent + n <= TEST_PAYLOAD_BYTES,
        ensures
            final(self)@ == old(self)@.wrote(n as nat),
    {
        proof {
            use_type_invariant(&*self);
        }
        self.sent = self.sent + n as u64;
    }

    /// The echo of the last chunk arrived: it has to be that chunk.
    pub fn read_back(&mut self, chunk: &[u8], echo: &[u8]) -> (res: Result<(), EchoMismatch>)
        requires
            old(self)@.echoed + chunk@.len() <= old(self)@.sent,
        ensures
            match res {
                Ok(_) => chunk@ == echo@ && final(self)@ == old(self)@.read_back(chunk@.len()),
                Err(e) => chunk@ != echo@ && e.offset == old(self)@.sent && final(self)@
                    == old(self)@,
            },
    {
        proof {
            use_type_invariant(&*self);
        }
        if !same_bytes(chunk, echo) {
            return Err(EchoMismatch { offset: self.sent });
        }
        self.echoed = self.echoed + chunk.len() as u64;
        Ok(())
    }
}

// ---------------------------------------------------------------------------
// Path telemetry
// ---------------------------------------------------------------------------

/// What the path events of a connection have shown.
#[derive(Debug, Clone, Copy, PartialEq, Eq)]
pub struct PathTelemetry {
    /// When a non-relay path was first selected, counted from the start.
    pub first_direct: Option<Duration>,
    /// Whether the most recently selected path goes through a relay.
    pub last_selected_is_relay: bool,
}

impl PathTelemetry {
    /// Nothing seen yet: until shown otherwise, the path is a relay.
    pub fn new() -> (res: Self)
        ensures
            res == (PathTelemetry { first_direct: None, last_selected_is_relay: true }),
    {
        PathTelemetry { first_direct: None, last_selected_is_relay: true }
    }

    /// A path was selected, this long after the start.
    pub fn selected(&mut self, is_relay: bool, elapsed: Duration)
        ensures
            *final(self) == (PathTelemetry {
                first_direct: match old(self).first_direct {
                    Some(first) => Some(first),
                    None => if is_relay {
                        None
                    } else {
                        Some(elapsed)
                    },
                },
                last_selected_is_relay: is_relay,
            }),
    {
        self.last_selected_is_relay = is_relay;
        if !is_relay && self.first_direct.is_none() {
            self.first_direct = Some(elapsed);
        }
    }
}

/// What a snapshot says of one path.
#[derive(Debug, Clone, Copy, PartialEq, Eq, Structural)]
pub struct PathSample {
    pub is_selected: bool,
    pub is_relay: bool,
    pub rtt: Duration,
}

/// The final state of a connection's paths.
#[derive(Debug, Clone, Copy, PartialEq, Eq)]
pub struct PathState {
    pub first_direct: Option<Duration>,
    pub selected_rtt: Option<Duration>,
    pub selected_is_relay: bool,
}

/// The first selected path, if there is one.
pub open spec fn first_selected(paths: Seq<PathSample>) -> Option<PathSample>
    decreases paths.len(),
{
    if paths.len() == 0 {
        None
    } else if paths[0].is_selected {
        Some(paths[0])
    } else {
        first_selected(paths.skip(1))
    }
}

/// The state that a live snapshot and the event telemetry amount to.
pub open spec fn path_state(
    paths: Seq<PathSample>,
    first_direct: Option<Duration>,
    fallback_relay: bool,
) -> PathState {
    match first_selected(paths) {
        Some(p) => PathState {
            first_direct,
            selected_rtt: Some(p.rtt),
            selected_is_relay: p.is_relay,
        },
        None => PathState { first_direct, selected_rtt: None, selected_is_relay: fallback_relay },
    }
}

/// Sample the live path snapshot plus the event telemetry: first-direct
/// timing, the selected path's round-trip time, and whether it is a relay.
/// `fallback_relay` is used when no path is selected.
pub fn snapshot_path_state(
    paths: &Vec<PathSample>,
    telemetry: &PathTelemetry,
    fallback_relay: bool,
) -> (res: PathState)
    ensures
        res == path_state(paths@, telemetry.first_direct, fallback_relay),
{
    let mut i: usize = 0;
    assert(paths@.skip(0) =~= paths@);
    while i < paths.len()
        invariant
            i <= paths@.len(),
            first_selected(paths@) == first_selected(paths@.skip(i as int)),
        decreases paths@.len() - i,
    {
        let path = paths[i];
        assert(paths@.skip(i as int)[0] == path);
        if path.is_selected {
            return PathState {
                first_direct: telemetry.first_direct,
                selected_rtt: Some(path.rtt),
                selected_is_relay: path.is_relay,
            };
        }
        assert(paths@.skip(i as int).skip(1) =~= paths@.skip(i + 1));
        i = i + 1;
    }
    PathState {
        first_direct: telemetry.first_direct,
        selected_rtt: None,
        selected_is_relay: fallback_relay,
    }
}

/// Whether a time is past the migration timeout.
pub open spec fn timed_out(elapsed: Duration) -> bool {
    elapsed.secs > DIRECT_MIGRATION_TIMEOUT_SECS || (elapsed.secs == DIRECT_MIGRATION_TIMEOUT_SECS
        && elapsed.nanos > 0)
}

fn is_timed_out(elapsed: Duration) -> (res: bool)
    ensures
        res == timed_out(elapsed),
{
    elapsed.secs > DIRECT_MIGRATION_TIMEOUT_SECS || (elapsed.secs == DIRECT_MIGRATION_TIMEOUT_SECS
        && elapsed.nanos > 0)
}

/// Whether the dialer stops waiting for the direct migration: a direct path
/// was observed, the connection closed, or the time is up. A fixed window
/// would truncate observation on slow networks and bias the success rates.
pub fn dialer_done(telemetry: &PathTelemetry, closed: bool, elapsed: Duration) -> (res: bool)
    ensures
        res == (telemetry.first_direct is Some || closed || timed_out(elapsed)),
{
    telemetry.first_direct.is_some() || closed || is_timed_out(elapsed)
}

/// Whether the acceptor stops waiting for the direct migration: as for the
/// dialer, or the most recently selected path is direct.
pub fn acceptor_done(telemetry: &PathTelemetry, closed: bool, elapsed: Duration) -> (res: bool)
    ensures
        res == (!telemetry.last_selected_is_relay || telemetry.first_direct is Some || closed
            || timed_out(elapsed)),
{
    !telemetry.last_selected_is_relay || telemetry.first_direct.is_some() || closed
        || is_timed_out(elapsed)
}

// ---------------------------------------------------------------------------
// Result
// ---------------------------------------------------------------------------

impl PathState {
    /// A direct path may be established and later lost before sampling;
    /// success means that one was observed at any point in the run.
    pub open spec fn direct(self) -> bool {
        self.first_direct is Some || !self.selected_is_relay
    }

    /// The result with the path telemetry of the run filled in.
    pub open spec fn fill(self, result: ResultView) -> ResultView {
        ResultView {
            direct_connection_success: Some(self.direct()),
            time_to_direct_ms: match self.first_direct {
                Some(d) => Some((d.millis() % 0x1_0000_0000_0000_0000) as u64),
                None => None,
            },
            selected_path: Some(
                if self.selected_is_relay {
                    SelectedPath::Relay
                } else {
                    SelectedPath::DirectIp
                },
            ),
            ..result
        }
    }

    /// Record the path telemetry in the result of the run.
    pub fn record(&self, result: &mut ExperimentResult)
        ensures
            final(result)@ == self.fill(old(result)@),
    {
        result.direct_connection_success = Some(
            self.first_direct.is_some() || !self.selected_is_relay,
        );
        result.time_to_direct_ms = match self.first_direct {
            Some(d) => Some(d.as_millis_u64()),
            None => None,
        };
        result.selected_path = if self.selected_is_relay {
            Some(SelectedPath::Relay)
        } else {
            Some(SelectedPath::DirectIp)
        };
    }

    /// Record a completed transfer: the path telemetry, the payload and its
    /// throughput over the transfer window.
    pub fn record_transfer(&self, payload_bytes: u64, elapsed: Duration, result: &mut ExperimentResult)
        ensures
            final(result)@ == (ResultView {
                payload_bytes,
                media_throughput_mbps: Some(
                    Throughput::Transfer {
                        bytes: payload_bytes,
                        elapsed: crate::result::at_least_a_millisecond(elapsed),
                    },
                ),
                ..self.fill(old(result)@)
            }),
    {
        self.record(result);
        result.payload_bytes = payload_bytes;
        result.media_throughput_mbps = Some(Throughput::of_transfer(payload_bytes, elapsed));
    }

    /// Record a transfer that failed: it must not turn the run into a
    /// direct-connection failure, so the observed telemetry is kept.
    pub fn record_failure(&self, reason: String, result: &mut ExperimentResult)
        ensures
            final(result)@ == (ResultView {
                failure_reason: Some(reason@),
                ..self.fill(old(result)@)
            }),
    {
        self.record(result);
        result.failure_reason = Some(reason);
    }
}

// ---------------------------------------------------------------------------
// Laws
// ---------------------------------------------------------------------------

/// Both sides record a run under the id that the dialer chose: what it writes
/// is what the acceptor reads, whatever follows on the stream.
pub proof fn law_run_id_shared(run_id: Seq<char>, rest: Seq<u8>, end: Option<Seq<char>>)
    requires
        encode_utf8(run_id).len() <= crate::session::MAX_FRAME_LEN,
    ensures
        run_id_read(crate::session::framed(encode_utf8(run_id)) + rest, end)
            == (RunIdReadView::RunId { run_id, consumed: 4 + encode_utf8(run_id).len() }),
{
    crate::session::law_frame_roundtrip(encode_utf8(run_id), rest, end);
    vstd::utf8::encode_utf8_valid_utf8(run_id);
    vstd::utf8::encode_utf8_decode_utf8(run_id);
}

/// The chunks of a transfer add up: as long as payload is left, the next chunk
/// is not empty and does not exceed what is left.
pub proof fn law_transfer_progress(transfer: TransferView)
    requires
        transfer.sent < TEST_PAYLOAD_BYTES,
    ensures
        0 < transfer.next_len() <= CHUNK_BYTES,
        transfer.sent + transfer.next_len() <= TEST_PAYLOAD_BYTES,
{
}

/// One round of a transfer: a chunk, and what came back for it.
pub struct Round {
    pub chunk: Seq<u8>,
    pub echo: Seq<u8>,
}

/// A transfer after these rounds, unless a chunk was out of turn or its echo
/// was refused.
pub open spec fn after_rounds(rounds: Seq<Round>) -> Option<TransferView>
    decreases rounds.len(),
{
    if rounds.len() == 0 {
        Some(TransferView { sent: 0, echoed: 0 })
    } else {
        let round = rounds.last();
        match after_rounds(rounds.drop_last()) {
            Some(t) if t.echoed == t.sent && t.sent < TEST_PAYLOAD_BYTES && round.chunk.len()
                == t.next_len() && round.chunk == round.echo => Some(
                t.wrote(round.chunk.len()).read_back(round.chunk.len()),
            ),
            _ => None,
        }
    }
}

/// Everything that was sent in these rounds.
pub open spec fn all_sent(rounds: Seq<Round>) -> Seq<u8>
    decreases rounds.len(),
{
    if rounds.len() == 0 {
        Seq::empty()
    } else {
        all_sent(rounds.drop_last()) + rounds.last().chunk
    }
}

/// Everything that came back in these rounds.
pub open spec fn all_echoed(rounds: Seq<Round>) -> Seq<u8>
    decreases rounds.len(),
{
    if rounds.len() == 0 {
        Seq::empty()
    } else {
        all_echoed(rounds.drop_last()) + rounds.last().echo
    }
}

/// A transfer that went through any number of rounds sent whole chunks, and
/// all of it came back unchanged. It is done after 160 rounds and no sooner,
/// with the whole payload sent and checked.
pub proof fn law_whole_transfer(rounds: Seq<Round>)
    requires
        after_rounds(rounds) is Some,
    ensures
        ({
            let t = after_rounds(rounds)->Some_0;
            &&& t.echoed == t.sent == rounds.len() * CHUNK_BYTES
            &&& all_sent(rounds).len() == t.sent
            &&& all_echoed(rounds) == all_sent(rounds)
            &&& rounds.len() <= 160
            &&& t.sent == TEST_PAYLOAD_BYTES <==> rounds.len() == 160
        }),
        forall|i: int|
            0 <= i < rounds.len() ==> (#[trigger] rounds[i]).chunk == rounds[i].echo,
    decreases rounds.len(),
{
    if rounds.len() > 0 {
        law_whole_transfer(rounds.drop_last());
        assert forall|i: int| 0 <= i < rounds.len() implies (#[trigger] rounds[i]).chunk
            == rounds[i].echo by {
            if i < rounds.len() - 1 {
                assert(rounds.drop_last()[i] == rounds[i]);
            }
        }
    }
}

/// A chunk that comes back unlike it was sent ends the transfer: no later
/// round makes up for it.
pub proof fn law_damage_is_final(rounds: Seq<Round>, i: int)
    requires
        0 <= i < rounds.len(),
        rounds[i].chunk != rounds[i].echo,
    ensures
        after_rounds(rounds) is None,
{
    if after_rounds(rounds) is Some {
        law_whole_transfer(rounds);
    }
}

/// A failed transfer over a direct path is still a direct connection.
pub proof fn law_failure_keeps_direct(state: PathState, result: ResultView)
    requires
        state.first_direct is Some,
    ensures
        state.fill(result).direct_connection_success == Some(true),
        state.fill(result).time_to_direct_ms is Some,
{
}

/// What is recorded of a run's paths, whether its transfer completed or not: a
/// direct IP path exactly where the selected path is no relay, a relay exactly
/// where it is one; success exactly where a direct path was seen at some time
/// or is selected now; the time to it where one was seen; nothing else.
pub proof fn law_paths_are_recorded(state: PathState, result: ResultView)
    ensures
        ({
            let after = state.fill(result);
            &&& !state.selected_is_relay ==> after.selected_path == Some(SelectedPath::DirectIp)
            &&& state.selected_is_relay ==> after.selected_path == Some(SelectedPath::Relay)
            &&& after.direct_connection_success == Some(
                state.first_direct is Some || !state.selected_is_relay,
            )
            &&& state.first_direct is None ==> after.time_to_direct_ms is None
            &&& state.first_direct matches Some(d) ==> (d.secs * 1000 + d.nanos / 1_000_000
                <= u64::MAX ==> after.time_to_direct_ms == Some(
                (d.secs * 1000 + d.nanos / 1_000_000) as u64,
            ))
            &&& after.schema_version == result.schema_version
            &&& after.run_id == result.run_id
            &&& after.timestamp == result.timestamp
            &&& after.git_revision == result.git_revision
            &&& after.iroh_version == result.iroh_version
            &&& after.method == result.method
            &&& after.network_profile == result.network_profile
            &&& after.reference_method == result.reference_method
            &&& after.observed_ip_equal == result.observed_ip_equal
            &&& after.observed_port_equal == result.observed_port_equal
            &&& after.probe_latency_ms == result.probe_latency_ms
            &&& after.same_socket_as_iroh == result.same_socket_as_iroh
            &&& after.relay_control_tx_bytes == result.relay_control_tx_bytes
            &&& after.relay_control_rx_bytes == result.relay_control_rx_bytes
            &&& after.relay_media_tx_bytes == result.relay_media_tx_bytes
            &&& after.relay_media_rx_bytes == result.relay_media_rx_bytes
            &&& after.payload_bytes == result.payload_bytes
            &&& after.media_throughput_mbps == result.media_throughput_mbps
            &&& after.failure_reason == result.failure_reason
        }),
        state.direct() <==> state.first_direct is Some || !state.selected_is_relay,
{
}

/// The first selected path of a snapshot gives the round-trip time and tells
/// whether the run is relayed; where none is selected there is no round-trip
/// time, and the fallback tells. The time of the first direct path comes from
/// the events.
pub proof fn law_first_selected_path_decides(
    paths: Seq<PathSample>,
    first_direct: Option<Duration>,
    fallback_relay: bool,
    i: int,
)
    requires
        0 <= i <= paths.len(),
        i < paths.len() ==> paths[i].is_selected,
        forall|j: int| 0 <= j < i ==> !(#[trigger] paths[j]).is_selected,
    ensures
        ({
            let state = path_state(paths, first_direct, fallback_relay);
            &&& state.first_direct == first_direct
            &&& i < paths.len() ==> state.selected_rtt == Some(paths[i].rtt)
                && state.selected_is_relay == paths[i].is_relay
            &&& i == paths.len() ==> state.selected_rtt is None && state.selected_is_relay
                == fallback_relay
        }),
    decreases paths.len(),
{
    if i > 0 {
        assert(!paths[0].is_selected);
        let rest = paths.skip(1);
        assert forall|j: int| 0 <= j < i - 1 implies !(#[trigger] rest[j]).is_selected by {
            assert(rest[j] == paths[j + 1]);
        }
        if i < paths.len() {
            assert(rest[i - 1] == paths[i]);
        }
        law_first_selected_path_decides(rest, first_direct, fallback_relay, i - 1);
    }
}

/// The wait for a direct path is over after thirty seconds, and not before.
pub proof fn law_migration_timeout(elapsed: Duration)
    requires
        elapsed.nanos < 1_000_000_000,
    ensures
        timed_out(elapsed) <==> elapsed.secs * 1_000_000_000 + elapsed.nanos > 30_000_000_000,
{
}

/// A transfer is 10 MiB in chunks of 64 KiB: the next chunk is a whole one, or
/// what is left where that is less. Writing and reading back move their own
/// count and no other.
pub proof fn law_transfer_in_chunks(transfer: TransferView, n: nat)
    ensures
        TEST_PAYLOAD_BYTES == 10 * 1024 * 1024,
        CHUNK_BYTES == 64 * 1024,
        transfer.sent + 65536 <= 10485760 ==> transfer.next_len() == 65536,
        transfer.sent <= 10485760 < transfer.sent + 65536 ==> transfer.next_len() == 10485760
            - transfer.sent,
        transfer.wrote(n).sent == transfer.sent + n,
        transfer.wrote(n).echoed == transfer.echoed,
        transfer.read_back(n).echoed == transfer.echoed + n,
        transfer.read_back(n).sent == transfer.sent,
{
}

/// What the head of a stream amounts to as a run id, byte by byte: four bytes
/// of length, then that many bytes of UTF-8.
pub proof fn law_run_id_head(buf: Seq<u8>, end: Option<Seq<char>>)
    ensures
        buf.len() < 4 && end is None ==> run_id_read(buf, end) == RunIdReadView::Need(
            (4 - buf.len()) as nat,
        ),
        buf.len() >= 4 ==> ({
            let len = buf[0] * 0x100_0000 + buf[1] * 0x1_0000 + buf[2] * 0x100 + buf[3];
            let body = buf.subrange(4, 4 + len);
            &&& len > 65536 ==> run_id_read(buf, end) == RunIdReadView::Bad(
                FrameErrorView::OverLimit(len as u32),
            )
            &&& len <= 65536 && buf.len() < 4 + len && end is None ==> run_id_read(buf, end)
                == RunIdReadView::Need((4 + len - buf.len()) as nat)
            &&& len <= 65536 && buf.len() >= 4 + len && valid_utf8(body) ==> run_id_read(buf, end)
                == (RunIdReadView::RunId {
                run_id: decode_utf8(body),
                consumed: (4 + len) as nat,
            })
            &&& len <= 65536 && buf.len() >= 4 + len && !valid_utf8(body) ==> run_id_read(buf, end)
                == RunIdReadView::NotUtf8(crate::text::utf8_error(body))
        }),
        end matches Some(cause) ==> {
            &&& buf.len() < 4 ==> run_id_read(buf, end) == RunIdReadView::Bad(
                FrameErrorView::NoLength(cause),
            )
            &&& buf.len() >= 4 && buf[0] * 0x100_0000 + buf[1] * 0x1_0000 + buf[2] * 0x100 + buf[3]
                <= 65536 && buf.len() < 4 + buf[0] * 0x100_0000 + buf[1] * 0x1_0000 + buf[2] * 0x100
                + buf[3] ==> run_id_read(buf, end) == RunIdReadView::Bad(
                FrameErrorView::NoBody(cause),
            )
        },
{
    crate::session::law_frame_head(buf, end);
}

/// A time to the first direct path whose milliseconds do not fit 64 bits is
/// recorded as what is left of them after taking off 2^64 as often as it goes.
pub proof fn law_direct_time_wraps(
    state: PathState,
    result: ResultView,
    d: Duration,
    times: nat,
    rest: nat,
)
    requires
        state.first_direct == Some(d),
        d.secs * 1000 + d.nanos / 1_000_000 == times * 18446744073709551616 + rest,
        rest <= u64::MAX,
    ensures
        state.fill(result).time_to_direct_ms == Some(rest as u64),
{
}

} // verus!
