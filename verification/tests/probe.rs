//! The external-address probe, driven by hand in place of a socket.

use iroh_experiment::addr::{IpAddr, SocketAddr};
use iroh_experiment::probe::{
    server_failure, verdict, Probe, ProbeAction, ProbeConfig, ProbeError, Sweep, SweepStep,
};
use iroh_experiment::stun::{
    encode_binding_error, encode_binding_success, parse_binding_request, ResponseError,
    TransactionId,
};
use iroh_experiment::time::{Duration, Timestamp};

fn fast() -> ProbeConfig {
    ProbeConfig {
        attempt_timeout: Duration::from_millis(150),
        attempts: 2,
    }
}

fn loopback(port: u16) -> SocketAddr {
    SocketAddr::new(IpAddr::V4([127, 0, 0, 1]), port)
}

fn v6(port: u16) -> SocketAddr {
    SocketAddr::new(IpAddr::V6([0; 16]), port)
}

fn start() -> Probe {
    let (probe, action) = Probe::start(loopback(3478), TransactionId::random(), &fast());
    assert!(matches!(action, ProbeAction::Send(d) if d.is_zero()));
    probe
}

/// What a well-behaved server answers to the probe's request.
fn answer(probe: &Probe, peer: SocketAddr) -> Vec<u8> {
    let txn = parse_binding_request(&probe.request()).expect("valid request");
    encode_binding_success(peer, &txn)
}

#[test]
fn probe_reports_peer_observed_address_and_rtt() {
    let mut probe = start();
    let peer = loopback(40001);
    let reply = answer(&probe, peer);
    let addr = match probe.datagram(&loopback(3478), &reply) {
        ProbeAction::Observed(addr) => addr,
        other => panic!("expected an observation, got {other:?}"),
    };
    let rtt = Duration::from_millis(12);
    let obs = probe.observation(addr, rtt, Timestamp::SinceEpoch(Duration::from_secs(7)));
    assert_eq!(obs.observed_addr, peer);
    assert_eq!(obs.method, "cloudflare-stun");
    assert_eq!(obs.server, loopback(3478));
    assert_eq!(obs.rtt, rtt);
    assert_eq!(obs.observed_at, Timestamp::SinceEpoch(Duration::from_secs(7)));
}

/// The client must ignore datagrams with a foreign transaction id and keep
/// waiting for the real response within the same attempt window.
#[test]
fn stale_responses_are_ignored_until_real_one_arrives() {
    let mut probe = start();
    let peer = loopback(40001);
    let stale = encode_binding_success(peer, &TransactionId::random());
    assert!(matches!(probe.datagram(&loopback(3478), &stale), ProbeAction::Wait));
    let reply = answer(&probe, peer);
    assert!(matches!(
        probe.datagram(&loopback(3478), &reply),
        ProbeAction::Observed(a) if a == peer
    ));
}

#[test]
fn error_response_fails_probe_with_code() {
    let mut probe = start();
    let txn = parse_binding_request(&probe.request()).unwrap();
    let reply = encode_binding_error(420, "Unknown Attribute", &txn);
    match probe.datagram(&loopback(3478), &reply) {
        ProbeAction::Fail(e) => {
            assert!(e.to_string().contains("420"));
            assert_eq!(e.to_string(), "STUN server rejected probe: 420 Unknown Attribute");
        }
        other => panic!("error response must fail the probe, got {other:?}"),
    }
}

#[test]
fn silent_server_times_out_with_retries() {
    let mut probe = start();
    // attempts(2) x window + one 200ms linear backoff between them.
    match probe.window_closed() {
        ProbeAction::Send(pause) => assert_eq!(pause, Duration::from_millis(200)),
        other => panic!("retries must actually happen, got {other:?}"),
    }
    match probe.window_closed() {
        ProbeAction::Fail(e) => {
            assert!(e.to_string().contains("no response"));
            assert!(matches!(e, ProbeError::NoResponse));
        }
        other => panic!("must time out, got {other:?}"),
    }
}

#[test]
fn backoff_grows_linearly() {
    let cfg = ProbeConfig {
        attempt_timeout: Duration::from_secs(1),
        attempts: 4,
    };
    let (mut probe, _) = Probe::start(loopback(1), TransactionId::random(), &cfg);
    for pause in [200u64, 400, 600] {
        match probe.window_closed() {
            ProbeAction::Send(d) => assert_eq!(d.as_millis(), pause as u128),
            other => panic!("expected a retry, got {other:?}"),
        }
    }
    assert!(matches!(probe.window_closed(), ProbeAction::Fail(_)));
}

#[test]
fn wrong_traffic_is_told_apart_from_silence() {
    let cfg = ProbeConfig {
        attempt_timeout: Duration::from_secs(1),
        attempts: 1,
    };
    let (mut probe, _) = Probe::start(loopback(1), TransactionId::random(), &cfg);
    // From a stranger: not even noted.
    let mut silent = probe.clone();
    assert!(matches!(silent.datagram(&loopback(2), &[1, 2, 3]), ProbeAction::Wait));
    assert!(matches!(silent.window_closed(), ProbeAction::Fail(ProbeError::NoResponse)));
    // From the server, but garbage.
    assert!(matches!(probe.datagram(&loopback(1), &[1, 2, 3]), ProbeAction::Wait));
    match probe.window_closed() {
        ProbeAction::Fail(e) => {
            assert_eq!(
                e.to_string(),
                "datagrams arrived but none matched: datagram shorter than STUN header (3)"
            );
            assert!(matches!(e, ProbeError::NoneMatched(ResponseError::TooShort(3))));
        }
        other => panic!("expected a failure, got {other:?}"),
    }
}

#[test]
fn failed_receive_is_retried_and_reported() {
    let mut probe = start();
    assert!(matches!(
        probe.recv_failed("connection refused".to_string()),
        ProbeAction::Send(_)
    ));
    match probe.recv_failed("connection refused".to_string()) {
        ProbeAction::Fail(e) => {
            assert_eq!(e.to_string(), "recv failed: connection refused");
        }
        other => panic!("expected a failure, got {other:?}"),
    }
}

#[test]
fn no_attempts_fail_at_once() {
    let cfg = ProbeConfig {
        attempt_timeout: Duration::from_secs(1),
        attempts: 0,
    };
    let (mut probe, action) = Probe::start(loopback(1), TransactionId::random(), &cfg);
    match action {
        ProbeAction::Fail(e) => assert_eq!(e.to_string(), "probe failed"),
        other => panic!("expected a failure, got {other:?}"),
    }
    assert!(matches!(probe.window_closed(), ProbeAction::Fail(_)));
}

#[test]
fn sweep_binds_once_per_family_change() {
    let addrs = vec![v6(1), v6(2), loopback(3)];
    let mut sweep = Sweep::new("stun.example", addrs).expect("addresses");
    assert!(matches!(sweep.next(), SweepStep::Bind(false)));
    sweep.bound(false);
    assert!(matches!(sweep.next(), SweepStep::Probe(a) if a == v6(1)));
    sweep.failed("unreachable".to_string());
    // Same family: the socket is kept.
    assert!(matches!(sweep.next(), SweepStep::Probe(a) if a == v6(2)));
    sweep.failed("unreachable".to_string());
    assert!(matches!(sweep.next(), SweepStep::Bind(true)));
    sweep.bound(true);
    assert!(matches!(sweep.next(), SweepStep::Probe(a) if a == loopback(3)));
    sweep.failed("no response within attempt window".to_string());
    assert!(matches!(sweep.next(), SweepStep::Exhausted));
    // Past the end nothing moves.
    sweep.failed("no response within attempt window".to_string());
    assert!(matches!(sweep.next(), SweepStep::Exhausted));
    assert_eq!(sweep.failure(), "no response within attempt window");
}

#[test]
fn sweep_without_addresses_is_refused() {
    let err = Sweep::new("stun.example:3478", vec![]).expect_err("nothing resolved");
    assert_eq!(err, "no addresses for stun.example:3478");
    let sweep = Sweep::new("stun.example", vec![loopback(1)]).expect("one address");
    assert_eq!(sweep.failure(), "no usable address family");
}

#[test]
fn one_success_is_enough() {
    let failures = vec![
        server_failure("a:1", "no response within attempt window"),
        server_failure("b:2", "probe failed"),
    ];
    assert!(verdict(true, &failures).is_ok());
    assert_eq!(
        verdict(false, &failures),
        Err("all probes failed; a:1: no response within attempt window; b:2: probe failed".to_string())
    );
    assert_eq!(verdict(false, &vec![]), Err("all probes failed; ".to_string()));
}
