//! Fail-closed media gate: a latching state machine over path telemetry.

use vstd::prelude::*;

use crate::text::join3;
use crate::time::unix_millis;

verus! {

/// Why media was stopped. Once set, the media gate never reopens.
#[derive(Debug, Clone, Copy, PartialEq, Eq, Structural)]
pub enum StopReason {
    /// Any relay path was observed on the media connection.
    RelayPathObserved,
    /// The last open direct path closed, or selection left the direct path.
    DirectPathLost,
    /// The connection closed underneath us.
    ConnectionClosed,
}

/// Current gate decision derived from path telemetry.
#[derive(Debug, Clone, Copy, PartialEq, Eq, Structural)]
pub enum GateState {
    /// No direct path yet: streaming forbidden.
    AwaitingDirect,
    /// Direct path open and selected: streaming allowed.
    DirectReady,
    /// Terminal failure; media must stop and stay stopped.
    Stopped(StopReason),
}

/// Raw signals derived from path telemetry.
#[derive(Debug, Clone, Copy, PartialEq, Eq, Structural)]
pub enum PathSignal {
    /// Idempotent reconciliation from one snapshot of the paths.
    ///
    /// Snapshot-driven on purpose: the initial path may be selected *before*
    /// anyone subscribes to events, so counting events can miss state; every
    /// snapshot fully re-derives the media gate decision.
    Snapshot {
        /// Number of currently open non-relay paths.
        open_direct: usize,
        /// Any relay path is currently open.
        has_relay: bool,
        /// The selected transmission path is a direct IP path.
        selected_direct: bool,
    },
    ConnectionClosed,
}

impl StopReason {
    /// The name of the reason.
    pub open spec fn name(self) -> Seq<char> {
        match self {
            StopReason::RelayPathObserved => "RelayPathObserved"@,
            StopReason::DirectPathLost => "DirectPathLost"@,
            StopReason::ConnectionClosed => "ConnectionClosed"@,
        }
    }

    fn name_text(&self) -> (res: &'static str)
        ensures
            res@ == self.name(),
    {
        match self {
            StopReason::RelayPathObserved => "RelayPathObserved",
            StopReason::DirectPathLost => "DirectPathLost",
            StopReason::ConnectionClosed => "ConnectionClosed",
        }
    }
}

impl GateState {
    /// The name of the state, with the reason where it has one.
    pub open spec fn name(self) -> Seq<char> {
        match self {
            GateState::AwaitingDirect => "AwaitingDirect"@,
            GateState::DirectReady => "DirectReady"@,
            GateState::Stopped(reason) => "Stopped("@ + reason.name() + ")"@,
        }
    }

    /// The name of the state, for diagnostics.
    pub fn to_string(&self) -> (res: String)
        ensures
            res@ == self.name(),
    {
        match self {
            GateState::AwaitingDirect => "AwaitingDirect".to_owned(),
            GateState::DirectReady => "DirectReady".to_owned(),
            GateState::Stopped(reason) => join3("Stopped(", reason.name_text(), ")"),
        }
    }

    /// Whether media may flow.
    pub fn allows_streaming(&self) -> (res: bool)
        ensures
            res == (*self == GateState::DirectReady),
    {
        *self == GateState::DirectReady
    }

    /// Why media was stopped, if it was.
    pub fn stop_reason(&self) -> (res: Option<StopReason>)
        ensures
            res == self.reason(),
    {
        match self {
            GateState::Stopped(reason) => Some(*reason),
            _ => None,
        }
    }

    /// Why media was stopped, if it was.
    pub open spec fn reason(self) -> Option<StopReason> {
        match self {
            GateState::Stopped(reason) => Some(reason),
            _ => None,
        }
    }
}

/// Latching fail-closed gate fed with raw path signals.
///
/// - Streaming is only allowed in [`GateState::DirectReady`].
/// - Every transition into [`GateState::Stopped`] is final.
/// - Seeing a relay path stops media even if it was never selected.
/// - Losing all direct paths (after having had one) stops media.
#[derive(Debug)]
pub struct MediaGate {
    state: GateState,
    ever_had_direct: bool,
    /// When streaming was first allowed, as Unix time in milliseconds.
    ready_ms: Option<u64>,
}

/// What a [`MediaGate`] decides on, as plain values. The time that it keeps
/// beside them is [`MediaGate::ready`].
pub struct GateView {
    pub state: GateState,
    pub ever_had_direct: bool,
}

impl View for MediaGate {
    type V = GateView;

    closed spec fn view(&self) -> GateView {
        GateView { state: self.state, ever_had_direct: self.ever_had_direct }
    }
}

impl GateView {
    /// A gate that has seen nothing yet.
    pub open spec fn initial() -> GateView {
        GateView { state: GateState::AwaitingDirect, ever_had_direct: false }
    }

    /// The media gate after one signal.
    pub open spec fn apply(self, signal: PathSignal) -> GateView {
        if self.state is Stopped {
            self
        } else {
            match signal {
                PathSignal::ConnectionClosed => GateView {
                    state: GateState::Stopped(StopReason::ConnectionClosed),
                    ..self
                },
                PathSignal::Snapshot { open_direct, has_relay, selected_direct } => if has_relay {
                    GateView { state: GateState::Stopped(StopReason::RelayPathObserved), ..self }
                } else {
                    let ever_had_direct = self.ever_had_direct || open_direct > 0;
                    let usable = open_direct > 0 && selected_direct;
                    let lost = self.ever_had_direct && open_direct == 0;
                    let left = self.state == GateState::DirectReady && !usable;
                    let state = if lost || left {
                        GateState::Stopped(StopReason::DirectPathLost)
                    } else if usable {
                        GateState::DirectReady
                    } else {
                        self.state
                    };
                    GateView { state, ever_had_direct }
                },
            }
        }
    }

    /// The media gate after a run of signals.
    pub open spec fn run(self, signals: Seq<PathSignal>) -> GateView
        decreases signals.len(),
    {
        if signals.len() == 0 {
            self
        } else {
            self.run(signals.drop_last()).apply(signals.last())
        }
    }
}

/// When streaming was first allowed, after a signal at `now_ms` that led to
/// this state.
pub open spec fn ready_after(before: Option<u64>, state: GateState, now_ms: u64) -> Option<u64> {
    match before {
        Some(first) => Some(first),
        None => if state == GateState::DirectReady {
            Some(now_ms)
        } else {
            None
        },
    }
}

impl MediaGate {
    /// When streaming was first allowed.
    pub closed spec fn ready(&self) -> Option<u64> {
        self.ready_ms
    }

    /// A gate that allows streaming knows since when.
    #[verifier::type_invariant]
    spec fn knows_since_when(self) -> bool {
        self.state == GateState::DirectReady ==> self.ready_ms is Some
    }

    pub fn new() -> (res: Self)
        ensures
            res@ == GateView::initial(),
            res.ready() is None,
    {
        MediaGate { state: GateState::AwaitingDirect, ever_had_direct: false, ready_ms: None }
    }

    pub fn state(&self) -> (res: GateState)
        ensures
            res == self@.state,
    {
        self.state
    }

    /// When streaming was first allowed, if it ever was. A gate that allows it
    /// knows since when.
    pub fn ready_ms(&self) -> (res: Option<u64>)
        ensures
            res == self.ready(),
            self@.state == GateState::DirectReady ==> res is Some,
    {
        proof {
            use_type_invariant(self);
        }
        self.ready_ms
    }

    /// Feed one raw signal now; returns the state after applying it.
    pub fn apply(&mut self, signal: PathSignal) -> (res: GateState)
        ensures
            final(self)@ == old(self)@.apply(signal),
            res == final(self)@.state,
            exists|now_ms: u64|
                final(self).ready() == #[trigger] ready_after(old(self).ready(), res, now_ms),
    {
        self.apply_at(signal, unix_millis())
    }

    /// Feed one raw signal at time `now_ms`; returns the state after applying
    /// it. The first time that streaming is allowed is kept.
    pub fn apply_at(&mut self, signal: PathSignal, now_ms: u64) -> (res: GateState)
        ensures
            final(self)@ == old(self)@.apply(signal),
            res == final(self)@.state,
            final(self).ready() == ready_after(old(self).ready(), res, now_ms),
    {
        proof {
            use_type_invariant(&*self);
        }
        // Already latched: ignore everything else.
        if let GateState::Stopped(_) = self.state {
            return self.state;
        }
        match signal {
            PathSignal::ConnectionClosed => self.stop(StopReason::ConnectionClosed),
            PathSignal::Snapshot { open_direct, has_relay, selected_direct } => {
                if has_relay {
                    return self.stop(StopReason::RelayPathObserved);
                }
                if open_direct > 0 {
                    self.ever_had_direct = true;
                } else if self.ever_had_direct {
                    // Had a direct path, now none left: fail closed instead
                    // of waiting for the connection to close.
                    return self.stop(StopReason::DirectPathLost);
                }
                if selected_direct && open_direct > 0 {
                    if self.ready_ms.is_none() {
                        self.ready_ms = Some(now_ms);
                    }
                    self.state = GateState::DirectReady;
                } else if self.state == GateState::DirectReady {
                    // Selection left the direct path without a close event:
                    // treat as loss of the usable path.
                    return self.stop(StopReason::DirectPathLost);
                }
                self.state
            },
        }
    }

    fn stop(&mut self, reason: StopReason) -> (res: GateState)
        ensures
            final(self)@ == (GateView { state: GateState::Stopped(reason), ..old(self)@ }),
            final(self).ready() == old(self).ready(),
            res == GateState::Stopped(reason),
    {
        self.state = GateState::Stopped(reason);
        self.state
    }
}

impl Default for MediaGate {
    fn default() -> (res: Self)
        ensures
            res@ == GateView::initial(),
            res.ready() is None,
    {
        MediaGate::new()
    }
}

// ---------------------------------------------------------------------------
// Path monitor
// ---------------------------------------------------------------------------

/// What a snapshot says of one path.
#[derive(Debug, Clone, Copy, PartialEq, Eq, Structural)]
pub struct PathInfo {
    pub is_relay: bool,
    pub is_selected: bool,
}

/// How many of the paths go through a relay.
pub open spec fn relay_count(paths: Seq<PathInfo>) -> nat
    decreases paths.len(),
{
    if paths.len() == 0 {
        0
    } else if paths.last().is_relay {
        relay_count(paths.drop_last()) + 1
    } else {
        relay_count(paths.drop_last())
    }
}

/// The signal that a snapshot of the paths amounts to.
pub open spec fn snapshot_signal(paths: Seq<PathInfo>) -> PathSignal {
    PathSignal::Snapshot {
        open_direct: (paths.len() - relay_count(paths)) as usize,
        has_relay: relay_count(paths) > 0,
        selected_direct: exists|i: int|
            0 <= i < paths.len() && !(#[trigger] paths[i]).is_relay && paths[i].is_selected,
    }
}

/// What the monitor does when it wakes up.
#[derive(Debug, Clone, Copy, PartialEq, Eq, Structural)]
pub enum MonitorStep {
    /// Reconcile the media gate with a snapshot of the paths.
    Reconcile,
    /// The connection closed under the session: latch the media gate.
    Latch,
    /// The connection closed once the session was over: there are no paths
    /// left for a last reconcile.
    Leave,
}

/// Watches the paths of a media connection on behalf of a gate.
#[derive(Debug, Clone, Copy)]
pub struct MediaMonitor {
    /// Number of relay paths ever seen (must stay zero for a compliant run).
    ever_relay_paths: u64,
    stopping: bool,
}

/// A [`MediaMonitor`] as plain values.
pub struct MonitorView {
    pub ever_relay_paths: u64,
    pub stopping: bool,
}

impl View for MediaMonitor {
    type V = MonitorView;

    closed spec fn view(&self) -> MonitorView {
        MonitorView { ever_relay_paths: self.ever_relay_paths, stopping: self.stopping }
    }
}

proof fn lemma_relay_count_bound(paths: Seq<PathInfo>)
    ensures
        relay_count(paths) <= paths.len(),
    decreases paths.len(),
{
    if paths.len() > 0 {
        lemma_relay_count_bound(paths.drop_last());
    }
}

/// Count the relay paths of a snapshot and derive its signal.
pub fn read_paths(paths: &Vec<PathInfo>) -> (res: (PathSignal, usize))
    ensures
        res.0 == snapshot_signal(paths@),
        res.1 == relay_count(paths@),
{
    let mut relays: usize = 0;
    let mut open_direct: usize = 0;
    let mut selected_direct = false;
    let mut i: usize = 0;
    while i < paths.len()
        invariant
            i <= paths@.len(),
            relays == relay_count(paths@.take(i as int)),
            relays + open_direct == i,
            selected_direct == exists|k: int|
                0 <= k < i && !(#[trigger] paths@[k]).is_relay && paths@[k].is_selected,
        decreases paths@.len() - i,
    {
        let path = paths[i];
        assert(paths@.take(i + 1).drop_last() =~= paths@.take(i as int));
        assert(path == paths@[i as int]);
        if path.is_relay {
            relays = relays + 1;
        } else {
            open_direct = open_direct + 1;
            if path.is_selected {
                selected_direct = true;
            }
        }
        i = i + 1;
    }
    assert(paths@.take(i as int) =~= paths@);
    (PathSignal::Snapshot { open_direct, has_relay: relays > 0, selected_direct }, relays)
}

impl MediaMonitor {
    pub fn new() -> (res: Self)
        ensures
            res@ == (MonitorView { ever_relay_paths: 0, stopping: false }),
    {
        MediaMonitor { ever_relay_paths: 0, stopping: false }
    }

    /// Decide what to do on waking up, from whether the connection has closed.
    pub fn wake(&self, closed: bool) -> (res: MonitorStep)
        ensures
            res == (if !closed {
                MonitorStep::Reconcile
            } else if self@.stopping {
                MonitorStep::Leave
            } else {
                MonitorStep::Latch
            }),
    {
        if !closed {
            MonitorStep::Reconcile
        } else if self.stopping {
            MonitorStep::Leave
        } else {
            MonitorStep::Latch
        }
    }

    /// Reconcile the media gate with a snapshot of the paths taken at `now_ms`.
    /// Returns whether the monitor is done: the media gate has latched, or the
    /// monitor was asked to finish and this was its last reconcile.
    pub fn reconcile(&mut self, gate: &mut MediaGate, paths: &Vec<PathInfo>, now_ms: u64) -> (done:
        bool)
        ensures
            final(gate)@ == old(gate)@.apply(snapshot_signal(paths@)),
            final(gate).ready() == ready_after(old(gate).ready(), final(gate)@.state, now_ms),
            final(self)@.ever_relay_paths == (old(self)@.ever_relay_paths + relay_count(paths@))
                % 0x1_0000_0000_0000_0000,
            final(self)@.stopping == old(self)@.stopping,
            done == (final(gate)@.state is Stopped || old(self)@.stopping),
    {
        let (signal, relays) = read_paths(paths);
        self.ever_relay_paths = self.ever_relay_paths.wrapping_add(relays as u64);
        match gate.apply_at(signal, now_ms) {
            GateState::Stopped(_) => true,
            _ => self.stopping,
        }
    }

    /// The connection closed: latch the media gate. The monitor is done.
    pub fn connection_closed(&mut self, gate: &mut MediaGate, now_ms: u64)
        ensures
            final(gate)@ == old(gate)@.apply(PathSignal::ConnectionClosed),
            final(gate).ready() == old(gate).ready(),
            final(self)@ == old(self)@,
    {
        gate.apply_at(PathSignal::ConnectionClosed, now_ms);
    }

    /// Ask the monitor to finish after its next reconcile.
    pub fn stop(&mut self)
        ensures
            final(self)@ == (MonitorView { stopping: true, ..old(self)@ }),
    {
        self.stopping = true;
    }

    /// Whether the monitor was asked to finish.
    pub fn is_stopping(&self) -> (res: bool)
        ensures
            res == self@.stopping,
    {
        self.stopping
    }

    /// Count of relay paths ever observed on this connection.
    pub fn ever_relay_paths(&self) -> (res: u64)
        ensures
            res == self@.ever_relay_paths,
    {
        self.ever_relay_paths
    }
}

// ---------------------------------------------------------------------------
// Laws
// ---------------------------------------------------------------------------

/// Once stopped, a gate stays stopped for the same reason, whatever follows.
pub proof fn law_stop_latches(gate: GateView, signals: Seq<PathSignal>)
    requires
        gate.state is Stopped,
    ensures
        gate.run(signals) == gate,
    decreases signals.len(),
{
    if signals.len() > 0 {
        law_stop_latches(gate, signals.drop_last());
    }
}

/// A run of signals is the run of its first part, then of the rest.
proof fn lemma_run_split(gate: GateView, signals: Seq<PathSignal>, n: int)
    requires
        0 <= n <= signals.len(),
    ensures
        gate.run(signals) == gate.run(signals.take(n)).run(signals.skip(n)),
    decreases signals.len(),
{
    if n == signals.len() {
        assert(signals.take(n) =~= signals);
        assert(signals.skip(n) =~= Seq::empty());
    } else {
        lemma_run_split(gate, signals.drop_last(), n);
        assert(signals.drop_last().take(n) =~= signals.take(n));
        assert(signals.drop_last().skip(n) =~= signals.skip(n).drop_last());
        assert(signals.skip(n).last() == signals.last());
    }
}

/// A snapshot with a relay path, or the end of the connection.
pub open spec fn fatal(signal: PathSignal) -> bool {
    match signal {
        PathSignal::Snapshot { has_relay, .. } => has_relay,
        PathSignal::ConnectionClosed => true,
    }
}

/// A relay path seen once, selected or not, or a closed connection, stops
/// media for good, wherever in the run it occurred.
pub proof fn law_fatal_signal_stops(gate: GateView, signals: Seq<PathSignal>, i: int)
    requires
        0 <= i < signals.len(),
        fatal(signals[i]),
    ensures
        gate.run(signals).state is Stopped,
{
    let head = signals.take(i + 1);
    assert(head.drop_last() =~= signals.take(i));
    assert(head.last() == signals[i]);
    assert(gate.run(head).state is Stopped);
    lemma_run_split(gate, signals, i + 1);
    law_stop_latches(gate.run(head), signals.skip(i + 1));
}

/// A gate that allows streaming after a run of signals saw no relay path and
/// no close in it, and the last snapshot had a direct path open and selected.
pub proof fn law_ready_means_direct(signals: Seq<PathSignal>)
    requires
        GateView::initial().run(signals).state == GateState::DirectReady,
    ensures
        forall|i: int| 0 <= i < signals.len() ==> !fatal(#[trigger] signals[i]),
        signals.len() > 0,
        signals.last() matches PathSignal::Snapshot { open_direct, selected_direct, .. }
            && open_direct > 0 && selected_direct,
{
    assert forall|i: int| 0 <= i < signals.len() implies !fatal(#[trigger] signals[i]) by {
        if fatal(signals[i]) {
            law_fatal_signal_stops(GateView::initial(), signals, i);
        }
    }
}

/// Losing the last direct path, or the selection leaving the direct path,
/// stops a gate that allowed streaming; so a ready gate stays ready only under
/// a snapshot without relay that selects an open direct path.
pub proof fn law_direct_loss_stops(gate: GateView, signal: PathSignal)
    requires
        gate.state == GateState::DirectReady,
    ensures
        gate.apply(signal).state == GateState::DirectReady <==> (signal matches
            PathSignal::Snapshot { open_direct, has_relay, selected_direct } && open_direct > 0
            && !has_relay && selected_direct),
        gate.apply(signal).state != GateState::DirectReady ==> gate.apply(signal).state is Stopped,
        signal matches PathSignal::Snapshot { open_direct, has_relay, selected_direct } && !has_relay
            && (open_direct == 0 || !selected_direct) ==> gate.apply(signal).state
            == GateState::Stopped(StopReason::DirectPathLost),
{
}

/// A connection that has no open path yet has not lost one, and has none to
/// stream over: however often that is seen, whatever is said to be selected,
/// the media gate keeps waiting.
pub proof fn law_empty_start_is_not_loss(signals: Seq<PathSignal>)
    requires
        forall|i: int|
            0 <= i < signals.len() ==> (#[trigger] signals[i] matches PathSignal::Snapshot {
                open_direct,
                has_relay,
                ..
            } && open_direct == 0 && !has_relay),
    ensures
        GateView::initial().run(signals) == GateView::initial(),
    decreases signals.len(),
{
    if signals.len() > 0 {
        assert forall|i: int| 0 <= i < signals.len() - 1 implies (
        #[trigger] signals.drop_last()[i] matches PathSignal::Snapshot {
            open_direct,
            has_relay,
            ..
        } && open_direct == 0 && !has_relay) by {
            assert(signals.drop_last()[i] == signals[i]);
        }
        law_empty_start_is_not_loss(signals.drop_last());
        assert(signals.last() == signals[signals.len() - 1]);
    }
}

/// A snapshot taken twice in a row decides as one does.
pub proof fn law_snapshot_is_idempotent(gate: GateView, signal: PathSignal)
    ensures
        gate.apply(signal).apply(signal) == gate.apply(signal),
{
}

/// The time at which streaming was first allowed is recorded then and never
/// changes.
pub proof fn law_ready_time_is_kept(before: Option<u64>, state: GateState, now_ms: u64)
    ensures
        state == GateState::DirectReady ==> ready_after(before, state, now_ms) is Some,
        before is Some ==> ready_after(before, state, now_ms) == before,
        before is None && state == GateState::DirectReady ==> ready_after(before, state, now_ms)
            == Some(now_ms),
{
}

/// A snapshot in which some direct path is open.
pub open spec fn shows_direct(signal: PathSignal) -> bool {
    signal matches PathSignal::Snapshot { open_direct, .. } && open_direct > 0
}

/// A snapshot in which a direct path is open and selected.
pub open spec fn shows_usable(signal: PathSignal) -> bool {
    signal matches PathSignal::Snapshot { open_direct, selected_direct, .. } && open_direct > 0
        && selected_direct
}

/// Whether the signal at this position is one to stop at, after the ones
/// before it: the connection closed, a relay path is there, no direct path is
/// left though there was one, or there is no usable one though there was.
pub open spec fn stops_at(signals: Seq<PathSignal>, i: int) -> bool {
    match signals[i] {
        PathSignal::ConnectionClosed => true,
        PathSignal::Snapshot { open_direct, has_relay, selected_direct } => {
            ||| has_relay
            ||| open_direct == 0 && exists|k: int| 0 <= k < i && shows_direct(#[trigger] signals[k])
            ||| (open_direct == 0 || !selected_direct) && exists|k: int|
                0 <= k < i && shows_usable(#[trigger] signals[k])
        },
    }
}

/// Why media is stopped at a signal to stop at.
pub open spec fn stop_cause(signal: PathSignal) -> StopReason {
    match signal {
        PathSignal::ConnectionClosed => StopReason::ConnectionClosed,
        PathSignal::Snapshot { has_relay, .. } => if has_relay {
            StopReason::RelayPathObserved
        } else {
            StopReason::DirectPathLost
        },
    }
}

/// As long as there is no signal to stop at, the media gate waits until a
/// snapshot shows a usable direct path, and allows streaming from then on.
proof fn lemma_unstopped(signals: Seq<PathSignal>)
    requires
        forall|i: int| 0 <= i < signals.len() ==> !#[trigger] stops_at(signals, i),
    ensures
        ({
            let gate = GateView::initial().run(signals);
            &&& !(gate.state is Stopped)
            &&& gate.ever_had_direct <==> exists|k: int|
                0 <= k < signals.len() && shows_direct(#[trigger] signals[k])
            &&& gate.state == GateState::DirectReady <==> exists|k: int|
                0 <= k < signals.len() && shows_usable(#[trigger] signals[k])
        }),
    decreases signals.len(),
{
    if signals.len() > 0 {
        let prev = signals.drop_last();
        let last = signals.len() - 1;
        assert forall|i: int| 0 <= i < prev.len() implies !#[trigger] stops_at(prev, i) by {
            lemma_stops_at_prefix(signals, last, i);
            assert(prev =~= signals.take(last));
        }
        lemma_unstopped(prev);
        assert(!stops_at(signals, last));
        assert forall|k: int| 0 <= k < last implies #[trigger] signals[k] == prev[k] by {}
        if exists|k: int| 0 <= k < prev.len() && shows_direct(#[trigger] prev[k]) {
            let k = choose|k: int| 0 <= k < prev.len() && shows_direct(#[trigger] prev[k]);
            assert(shows_direct(signals[k]));
        }
        if exists|k: int| 0 <= k < prev.len() && shows_usable(#[trigger] prev[k]) {
            let k = choose|k: int| 0 <= k < prev.len() && shows_usable(#[trigger] prev[k]);
            assert(shows_usable(signals[k]));
        }
        if exists|k: int| 0 <= k < last && shows_direct(#[trigger] signals[k]) {
            let k = choose|k: int| 0 <= k < last && shows_direct(#[trigger] signals[k]);
            assert(shows_direct(prev[k]));
        }
        if exists|k: int| 0 <= k < last && shows_usable(#[trigger] signals[k]) {
            let k = choose|k: int| 0 <= k < last && shows_usable(#[trigger] signals[k]);
            assert(shows_usable(prev[k]));
        }
        assert(signals.last() == signals[last]);
    }
}

/// Only what came before decides whether a signal is one to stop at.
proof fn lemma_stops_at_prefix(signals: Seq<PathSignal>, n: int, i: int)
    requires
        0 <= i < n <= signals.len(),
    ensures
        stops_at(signals.take(n), i) == stops_at(signals, i),
{
    let head = signals.take(n);
    assert forall|k: int| 0 <= k < n implies #[trigger] head[k] == signals[k] by {}
    if exists|k: int| 0 <= k < i && shows_direct(#[trigger] head[k]) {
        let k = choose|k: int| 0 <= k < i && shows_direct(#[trigger] head[k]);
        assert(shows_direct(signals[k]));
    }
    if exists|k: int| 0 <= k < i && shows_direct(#[trigger] signals[k]) {
        let k = choose|k: int| 0 <= k < i && shows_direct(#[trigger] signals[k]);
        assert(shows_direct(head[k]));
    }
    if exists|k: int| 0 <= k < i && shows_usable(#[trigger] head[k]) {
        let k = choose|k: int| 0 <= k < i && shows_usable(#[trigger] head[k]);
        assert(shows_usable(signals[k]));
    }
    if exists|k: int| 0 <= k < i && shows_usable(#[trigger] signals[k]) {
        let k = choose|k: int| 0 <= k < i && shows_usable(#[trigger] signals[k]);
        assert(shows_usable(head[k]));
    }
}

/// The first signal to stop at decides for good, and for what reason; without
/// one, streaming is allowed exactly from the first snapshot on that shows a
/// usable direct path.
pub proof fn law_first_stop_decides(signals: Seq<PathSignal>, i: int)
    requires
        0 <= i <= signals.len(),
        i < signals.len() ==> stops_at(signals, i),
        forall|j: int| 0 <= j < i ==> !#[trigger] stops_at(signals, j),
    ensures
        i < signals.len() ==> GateView::initial().run(signals).state == GateState::Stopped(
            stop_cause(signals[i]),
        ),
        i == signals.len() ==> GateView::initial().run(signals).state == (if exists|k: int|
            0 <= k < signals.len() && shows_usable(#[trigger] signals[k]) {
            GateState::DirectReady
        } else {
            GateState::AwaitingDirect
        }),
{
    let before = signals.take(i);
    assert forall|j: int| 0 <= j < before.len() implies !#[trigger] stops_at(before, j) by {
        lemma_stops_at_prefix(signals, i, j);
    }
    lemma_unstopped(before);
    if i == signals.len() {
        assert(before =~= signals);
    } else {
        assert forall|k: int| 0 <= k < i implies #[trigger] before[k] == signals[k] by {}
        if exists|k: int| 0 <= k < i && shows_direct(#[trigger] signals[k]) {
            let k = choose|k: int| 0 <= k < i && shows_direct(#[trigger] signals[k]);
            assert(shows_direct(before[k]));
        }
        if exists|k: int| 0 <= k < i && shows_usable(#[trigger] signals[k]) {
            let k = choose|k: int| 0 <= k < i && shows_usable(#[trigger] signals[k]);
            assert(shows_usable(before[k]));
        }
        let head = signals.take(i + 1);
        assert(head.drop_last() =~= before);
        assert(head.last() == signals[i]);
        lemma_run_split(GateView::initial(), signals, i + 1);
        law_stop_latches(GateView::initial().run(head), signals.skip(i + 1));
    }
}

/// There is a first signal to stop at, where there is one.
proof fn lemma_first_stop(signals: Seq<PathSignal>, n: int) -> (i: int)
    requires
        0 <= n < signals.len(),
        stops_at(signals, n),
    ensures
        0 <= i <= n,
        stops_at(signals, i),
        forall|j: int| 0 <= j < i ==> !#[trigger] stops_at(signals, j),
    decreases n,
{
    if forall|j: int| 0 <= j < n ==> !#[trigger] stops_at(signals, j) {
        n
    } else {
        let j = choose|j: int| 0 <= j < n && #[trigger] stops_at(signals, j);
        lemma_first_stop(signals, j)
    }
}

/// Losing all direct paths after having had one stops media for good, whether
/// or not it was ever allowed to flow. Where no relay path and no close came
/// before, the reason is that the direct path was lost.
pub proof fn law_lost_path_is_remembered(signals: Seq<PathSignal>, had: int, lost: int)
    requires
        0 <= had < lost < signals.len(),
        signals[had] matches PathSignal::Snapshot { open_direct, .. } && open_direct > 0,
        signals[lost] matches PathSignal::Snapshot { open_direct, .. } && open_direct == 0,
    ensures
        GateView::initial().run(signals).state is Stopped,
        (forall|k: int|
            0 <= k <= lost ==> ((#[trigger] signals[k]) matches PathSignal::Snapshot {
                has_relay,
                ..
            } && !has_relay)) ==> GateView::initial().run(signals).state == GateState::Stopped(
            StopReason::DirectPathLost,
        ),
{
    assert(shows_direct(signals[had]));
    assert(stops_at(signals, lost));
    let i = lemma_first_stop(signals, lost);
    law_first_stop_decides(signals, i);
}

/// One more path in a snapshot: a relay path is counted as one and shows that
/// there is a relay, a direct path counts as open, and is usable where it is
/// selected.
pub proof fn law_snapshot_counts_paths(paths: Seq<PathInfo>, path: PathInfo)
    requires
        paths.len() < usize::MAX,
    ensures
        relay_count(Seq::empty()) == 0,
        relay_count(paths.push(path)) == relay_count(paths) + (if path.is_relay {
            1int
        } else {
            0
        }),
        ({
            let before = snapshot_signal(paths);
            let after = snapshot_signal(paths.push(path));
            &&& before matches PathSignal::Snapshot { open_direct, has_relay, selected_direct }
            &&& after == (PathSignal::Snapshot {
                open_direct: if path.is_relay {
                    open_direct
                } else {
                    (open_direct + 1) as usize
                },
                has_relay: has_relay || path.is_relay,
                selected_direct: selected_direct || !path.is_relay && path.is_selected,
            })
        }),
        snapshot_signal(Seq::empty()) == (PathSignal::Snapshot {
            open_direct: 0,
            has_relay: false,
            selected_direct: false,
        }),
{
    let more = paths.push(path);
    assert(more.drop_last() =~= paths);
    lemma_relay_count_bound(paths);
    if exists|i: int|
        0 <= i < paths.len() && !(#[trigger] paths[i]).is_relay && paths[i].is_selected {
        let i = choose|i: int|
            0 <= i < paths.len() && !(#[trigger] paths[i]).is_relay && paths[i].is_selected;
        assert(more[i] == paths[i]);
    }
    if !path.is_relay && path.is_selected {
        assert(more[paths.len() as int] == path);
    }
    if exists|i: int|
        0 <= i < more.len() && !(#[trigger] more[i]).is_relay && more[i].is_selected {
        let i = choose|i: int|
            0 <= i < more.len() && !(#[trigger] more[i]).is_relay && more[i].is_selected;
        if i < paths.len() {
            assert(paths[i] == more[i]);
        }
    }
}

/// A state that is stopped names its reason, and no other names one.
pub proof fn law_only_a_stop_has_a_reason(state: GateState, reason: StopReason)
    ensures
        state.reason() == Some(reason) <==> state == GateState::Stopped(reason),
{
}

/// A waiting gate allows streaming on the first snapshot without relay that has
/// a direct path open and selected, and on nothing else.
pub proof fn law_open_and_selected_allows(gate: GateView, signal: PathSignal)
    requires
        gate.state == GateState::AwaitingDirect,
    ensures
        gate.apply(signal).state == GateState::DirectReady <==> (signal matches
            PathSignal::Snapshot { open_direct, has_relay, selected_direct } && open_direct > 0
            && !has_relay && selected_direct),
        gate.apply(signal).state == GateState::AwaitingDirect <==> (signal matches
            PathSignal::Snapshot { open_direct, has_relay, selected_direct } && !has_relay && (
        open_direct > 0 && !selected_direct || open_direct == 0 && !gate.ever_had_direct)),
        GateView::initial().state == GateState::AwaitingDirect,
        !GateView::initial().ever_had_direct,
{
}

} // verus!
