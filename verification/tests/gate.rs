//! The fail-closed gate and its path monitor.

use iroh_experiment::gate::{
    read_paths, GateState, MediaGate, MediaMonitor, MonitorStep, PathInfo, PathSignal, StopReason,
};

fn gate() -> MediaGate {
    MediaGate::new()
}

fn snap(open_direct: usize, has_relay: bool, selected_direct: bool) -> PathSignal {
    PathSignal::Snapshot {
        open_direct,
        has_relay,
        selected_direct,
    }
}

#[test]
fn streaming_blocked_until_direct_selected() {
    let mut g = gate();
    assert_eq!(g.state(), GateState::AwaitingDirect);

    // A direct path opens but nothing is selected yet: still not ready.
    assert_eq!(g.apply(snap(1, false, false)), GateState::AwaitingDirect);

    // Selection confirms the direct path.
    assert_eq!(g.apply(snap(1, false, true)), GateState::DirectReady);
}

#[test]
fn last_direct_close_stops_and_latches() {
    let mut g = gate();
    g.apply(snap(1, false, true));
    assert_eq!(g.state(), GateState::DirectReady);

    assert_eq!(
        g.apply(snap(0, false, false)),
        GateState::Stopped(StopReason::DirectPathLost)
    );

    // Latched: later good news must not reopen the media gate.
    assert_eq!(
        g.apply(snap(1, false, true)),
        GateState::Stopped(StopReason::DirectPathLost)
    );
}

#[test]
fn relay_seen_stops_even_without_selection() {
    let mut g = gate();
    assert_eq!(
        g.apply(snap(1, true, false)),
        GateState::Stopped(StopReason::RelayPathObserved)
    );
}

#[test]
fn selected_relay_stops_active_stream() {
    let mut g = gate();
    g.apply(snap(1, false, true));
    assert_eq!(
        g.apply(snap(1, true, true)),
        GateState::Stopped(StopReason::RelayPathObserved)
    );
}

#[test]
fn empty_snapshot_before_first_path_is_not_loss() {
    let mut g = gate();
    // Connections start with no paths at all; that must not latch.
    assert_eq!(g.apply(snap(0, false, false)), GateState::AwaitingDirect);
    assert_eq!(g.apply(snap(1, false, true)), GateState::DirectReady);
}

#[test]
fn a_selected_path_that_is_not_open_allows_nothing() {
    let mut g = gate();
    assert_eq!(g.apply(snap(0, false, true)), GateState::AwaitingDirect);
    assert!(!g.state().allows_streaming());
    assert_eq!(g.ready_ms(), None);
    g.apply(snap(1, false, true));
    assert_eq!(
        g.apply(snap(0, false, true)),
        GateState::Stopped(StopReason::DirectPathLost)
    );
}

#[test]
fn the_first_ready_time_is_kept() {
    let mut g = gate();
    g.apply_at(snap(1, false, false), 5);
    assert_eq!(g.ready_ms(), None);
    g.apply_at(snap(1, false, true), 7);
    g.apply_at(snap(2, false, true), 9);
    assert_eq!(g.ready_ms(), Some(7));
    g.apply_at(PathSignal::ConnectionClosed, 11);
    assert_eq!(g.ready_ms(), Some(7));

    let mut now = gate();
    now.apply(snap(1, false, true));
    assert!(now.ready_ms().is_some_and(|ms| ms > 1_600_000_000_000));
}

#[test]
fn selection_leaving_direct_is_path_loss() {
    let mut g = gate();
    g.apply(snap(1, false, true));
    // Path still open but selection moved away (migration window).
    assert_eq!(
        g.apply(snap(1, false, false)),
        GateState::Stopped(StopReason::DirectPathLost)
    );
}

#[test]
fn connection_closed_stops() {
    let mut g = gate();
    assert_eq!(
        g.apply(PathSignal::ConnectionClosed),
        GateState::Stopped(StopReason::ConnectionClosed)
    );
}

#[test]
fn multiple_direct_paths_require_all_closed() {
    let mut g = gate();
    g.apply(snap(2, false, true));

    // One of two paths closes; the other stays up, so keep streaming.
    assert_eq!(g.apply(snap(1, false, true)), GateState::DirectReady);

    assert_eq!(
        g.apply(snap(0, false, false)),
        GateState::Stopped(StopReason::DirectPathLost)
    );
}

#[test]
fn stopped_ignores_everything() {
    let mut g = gate();
    g.apply(snap(1, true, false));
    let latched = g.state();
    assert_eq!(g.apply(snap(5, false, true)), latched);
    assert_eq!(g.apply(PathSignal::ConnectionClosed), latched);
}

#[test]
fn a_repeated_snapshot_changes_nothing() {
    for signal in [snap(1, false, true), snap(2, false, false), snap(1, true, true)] {
        let mut g = gate();
        let once = g.apply(signal);
        assert_eq!(g.apply(signal), once);
    }
}

#[test]
fn default_gate_waits_for_direct() {
    let g = MediaGate::default();
    assert_eq!(g.state(), GateState::AwaitingDirect);
    assert!(!g.state().allows_streaming());
    assert_eq!(g.state().stop_reason(), None);
}

#[test]
fn states_print_their_names() {
    assert_eq!(GateState::AwaitingDirect.to_string(), "AwaitingDirect");
    assert_eq!(GateState::DirectReady.to_string(), "DirectReady");
    assert_eq!(
        GateState::Stopped(StopReason::RelayPathObserved).to_string(),
        "Stopped(RelayPathObserved)"
    );
    assert_eq!(
        GateState::Stopped(StopReason::DirectPathLost).to_string(),
        format!("{:?}", GateState::Stopped(StopReason::DirectPathLost))
    );
    assert_eq!(
        GateState::Stopped(StopReason::ConnectionClosed).to_string(),
        format!("{:?}", GateState::Stopped(StopReason::ConnectionClosed))
    );
}

fn path(is_relay: bool, is_selected: bool) -> PathInfo {
    PathInfo {
        is_relay,
        is_selected,
    }
}

#[test]
fn snapshots_count_relay_and_direct_paths() {
    let paths = vec![path(true, true), path(false, false), path(false, true), path(true, false)];
    assert_eq!(read_paths(&paths), (snap(2, true, true), 2));
    // A selected relay path is not a selected direct path.
    assert_eq!(read_paths(&vec![path(true, true)]), (snap(0, true, false), 1));
    assert_eq!(read_paths(&vec![]), (snap(0, false, false), 0));
}

#[test]
fn monitor_counts_relays_and_stops_with_the_gate() {
    let mut g = gate();
    let mut m = MediaMonitor::new();
    assert!(!m.reconcile(&mut g, &vec![path(false, true)], 40));
    assert_eq!(g.state(), GateState::DirectReady);
    assert_eq!(g.ready_ms(), Some(40));
    assert_eq!(m.ever_relay_paths(), 0);

    let paths = vec![path(false, true), path(true, false), path(true, false)];
    assert!(m.reconcile(&mut g, &paths, 50));
    assert_eq!(g.state(), GateState::Stopped(StopReason::RelayPathObserved));
    assert_eq!(m.ever_relay_paths(), 2);
}

#[test]
fn monitor_finishes_after_its_next_reconcile() {
    let mut g = gate();
    let mut m = MediaMonitor::new();
    assert!(!m.reconcile(&mut g, &vec![path(false, true)], 1));
    assert!(!m.is_stopping());
    m.stop();
    assert!(m.is_stopping());
    assert!(m.reconcile(&mut g, &vec![path(false, true)], 2));
    assert_eq!(g.state(), GateState::DirectReady);
    // What the last snapshot shows still counts.
    assert!(m.reconcile(&mut g, &vec![path(true, false)], 3));
    assert_eq!(g.state(), GateState::Stopped(StopReason::RelayPathObserved));
    assert_eq!(m.ever_relay_paths(), 1);
}

#[test]
fn monitor_latches_a_closed_connection() {
    let mut g = gate();
    let mut m = MediaMonitor::new();
    m.connection_closed(&mut g, 1);
    assert_eq!(g.state(), GateState::Stopped(StopReason::ConnectionClosed));
}

#[test]
fn monitor_tells_a_lost_connection_from_a_finished_session() {
    let mut m = MediaMonitor::new();
    assert_eq!(m.wake(false), MonitorStep::Reconcile);
    assert_eq!(m.wake(true), MonitorStep::Latch);
    m.stop();
    assert_eq!(m.wake(false), MonitorStep::Reconcile);
    assert_eq!(m.wake(true), MonitorStep::Leave);
}
