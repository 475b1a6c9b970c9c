//! Results, timestamps, the baseline transfer and the HTTP/3 observer.

use iroh_experiment::addr::{IpAddr, SocketAddr};
use iroh_experiment::baseline::{
    acceptor_done, dialer_done, read_run_id, snapshot_path_state, write_run_id, Echo, EchoStep,
    PathSample, PathTelemetry, RunIdRead, Transfer, TransferStep, CHUNK_BYTES,
    TEST_PAYLOAD_BYTES,
};
use iroh_experiment::observer::{
    compare, observe, observed_addr_in, record, reference_of, request_uri, Comparison,
    EdgeResponse, H3Observation, IpHeader, ReferenceError,
};
use iroh_experiment::result::{
    new_result, new_result_at, RunFailure, SelectedPath, Throughput, IROH_VERSION,
};
use iroh_experiment::rfc3339::{deserialize, serialize, TimestampError};
use iroh_experiment::session::FrameError;
use iroh_experiment::text::{parse_u16, trim, IntError};
use iroh_experiment::time::{
    run_suffix, run_suffix_at, unix_millis, unix_ms_at, unix_ms_now, Duration, Timestamp,
};

#[test]
fn comparison_categories_match_plan_e3() {
    let base = H3Observation {
        server_host: "observe.example.invalid".into(),
        observed_ip: Some(IpAddr::V4([203, 0, 113, 20])),
        observed_port: None,
        rtt_ms: None,
        colo: None,
        duration: Duration::from_secs(0),
        same_socket_as_iroh: false,
    };
    let stun_same = SocketAddr::new(base.observed_ip.unwrap(), 40000);
    // Port missing from H3 (platform limit): best case is port-missing.
    assert_eq!(
        compare(stun_same, &base).unwrap(),
        Comparison::SameIpPortMissing
    );

    // Different IP.
    let other = H3Observation {
        observed_ip: Some(IpAddr::V4([198, 51, 100, 9])),
        ..base.clone()
    };
    assert_eq!(compare(stun_same, &other).unwrap(), Comparison::DifferentIp);

    // If a future platform exposes the port, both agree/differ correctly.
    let with_port = H3Observation {
        observed_port: Some(40001),
        ..base.clone()
    };
    assert_eq!(
        compare(stun_same, &with_port).unwrap(),
        Comparison::SameIpDifferentPort
    );
    let matching = H3Observation {
        observed_port: Some(40000),
        ..base
    };
    assert_eq!(
        compare(stun_same, &matching).unwrap(),
        Comparison::SameIpSamePort
    );
}

fn edge() -> EdgeResponse {
    EdgeResponse {
        status: 200,
        status_text: "200 OK".to_string(),
        ip: IpHeader::Ip(IpAddr::V4([203, 0, 113, 20])),
        port: None,
        rtt_ms: Some("42".to_string()),
        colo: Some("NRT".to_string()),
    }
}

#[test]
fn edge_headers_become_an_observation() {
    let o = observe("observe.example.invalid", edge(), Duration::from_millis(80)).expect("complete");
    assert_eq!(o.server_host, "observe.example.invalid");
    assert_eq!(o.observed_ip, Some(IpAddr::V4([203, 0, 113, 20])));
    assert_eq!(o.observed_port, None, "port must stay missing");
    assert_eq!(o.rtt_ms.as_deref(), Some("42"));
    assert_eq!(o.colo.as_deref(), Some("NRT"));
    assert!(!o.same_socket_as_iroh);
    // An empty port header means that the port was not reported.
    let empty = EdgeResponse {
        port: Some(String::new()),
        ..edge()
    };
    assert_eq!(observe("h", empty, o.duration).unwrap().observed_port, None);
    let port = EdgeResponse {
        port: Some("40000".to_string()),
        ..edge()
    };
    assert_eq!(observe("h", port, o.duration).unwrap().observed_port, Some(40000));
}

#[test]
fn every_observation_error_has_an_input() {
    let text = |r: EdgeResponse| {
        observe("h", r, Duration::from_secs(0))
            .expect_err("no observation")
            .to_string()
    };
    assert_eq!(
        text(EdgeResponse {
            status: 404,
            status_text: "404 Not Found".to_string(),
            ..edge()
        }),
        "edge returned 404 Not Found; check zone config in infra/cloudflare/"
    );
    for (status, success) in [(199u16, false), (200, true), (299, true), (300, false)] {
        let response = EdgeResponse { status, ..edge() };
        assert_eq!(observe("h", response, Duration::from_secs(0)).is_ok(), success);
    }
    assert_eq!(
        text(EdgeResponse {
            ip: IpHeader::Missing,
            ..edge()
        }),
        "response lacks x-observed-ip; check zone config in infra/cloudflare/"
    );
    assert_eq!(
        text(EdgeResponse {
            ip: IpHeader::Invalid("invalid IP address syntax".to_string()),
            ..edge()
        }),
        "x-observed-ip is not a valid IP address: invalid IP address syntax"
    );
    assert_eq!(
        text(EdgeResponse {
            port: Some("-1".to_string()),
            ..edge()
        }),
        "x-observed-port is not a valid u16 port: invalid digit found in string"
    );
    let none = H3Observation {
        observed_ip: None,
        ..observe("h", edge(), Duration::from_secs(0)).unwrap()
    };
    assert_eq!(
        compare(SocketAddr::new(IpAddr::V4([1, 1, 1, 1]), 1), &none),
        Err("H3 observation has no observed ip".to_string())
    );
}

#[test]
fn the_authority_names_an_unusual_port() {
    assert_eq!(request_uri("h.example", "/observe", 443), "https://h.example/observe");
    assert_eq!(
        request_uri("h.example", "/observe", 8443),
        "https://h.example:8443/observe"
    );
}

#[test]
fn a_reference_is_recorded_only_after_a_comparison() {
    let o = observe("h", edge(), Duration::from_millis(1234)).unwrap();
    let mut result = new_result("id".to_string(), "cloudflare-h3", "L0");
    record(&o, None, &mut result);
    assert_eq!(result.reference_method, None);
    assert_eq!(result.observed_ip_equal, None);
    assert_eq!(result.probe_latency_ms, Some(1234));
    record(&o, Some(Comparison::SameIpPortMissing), &mut result);
    assert_eq!(result.reference_method.as_deref(), Some("cloudflare-stun"));
    assert_eq!(result.observed_ip_equal, Some(true));
    record(&o, Some(Comparison::DifferentIp), &mut result);
    assert_eq!(result.observed_ip_equal, Some(false));
}

#[test]
fn the_reference_address_comes_out_of_json() {
    assert_eq!(
        observed_addr_in(r#"{"method":"x","observed_addr":"203.0.113.20:40000"}"#),
        Ok("203.0.113.20:40000".to_string())
    );
    let err = observed_addr_in("{").expect_err("no JSON");
    assert!(matches!(err, ReferenceError::NotJson(_)));
    assert_eq!(
        err.to_string(),
        "parse STUN json: EOF while parsing an object at line 1 column 1"
    );
    assert_eq!(
        observed_addr_in("{}").expect_err("nothing in it"),
        ReferenceError::NoObservedAddr
    );
    assert_eq!(
        observed_addr_in(r#"{"observed_addr":7}"#),
        Err(ReferenceError::NoObservedAddr)
    );
    assert_eq!(observed_addr_in("[]"), Err(ReferenceError::NoObservedAddr));
    assert_eq!(
        ReferenceError::NoObservedAddr.to_string(),
        "STUN json lacks observed_addr"
    );
    assert_eq!(reference_of(Ok(Some("a".to_string()))), Ok("a".to_string()));
    assert_eq!(reference_of(Ok(None)), Err(ReferenceError::NoObservedAddr));
    assert_eq!(
        reference_of(Err("why".to_string())),
        Err(ReferenceError::NotJson("why".to_string()))
    );
}

#[test]
fn fresh_results_claim_nothing() {
    let at = Timestamp::SinceEpoch(Duration::from_secs(5));
    let r = new_result_at("run".to_string(), "baseline", "L0", at);
    assert_eq!(r.schema_version, 1);
    assert_eq!(r.run_id, "run");
    assert_eq!(r.method, "baseline");
    assert_eq!(r.network_profile, "L0");
    assert_eq!(r.iroh_version, IROH_VERSION);
    assert_eq!(r.iroh_version, "1.0.3");
    assert_eq!(r.timestamp, at);
    assert_eq!(r.direct_connection_success, None);
    assert_eq!(r.payload_bytes, 0);
    assert_eq!(r.failure_reason, None);
    assert!(matches!(
        new_result("x".to_string(), "m", "p").timestamp,
        Timestamp::SinceEpoch(d) if d.secs > 1_600_000_000
    ));
}

#[test]
fn failures_tell_setup_from_attempt() {
    let mut r = new_result("id".to_string(), "baseline", "L0");
    RunFailure::setup("invalid EndpointId".to_string()).record(&mut r);
    assert_eq!(r.direct_connection_success, None);
    assert_eq!(r.verdict(), Err("run failed: invalid EndpointId".to_string()));
    RunFailure::failed_direct("connect failed".to_string()).record(&mut r);
    assert_eq!(r.direct_connection_success, Some(false));
    assert_eq!(r.failure_reason.as_deref(), Some("connect failed"));
}

#[test]
fn timestamps_are_written_to_the_second() {
    let t = Timestamp::SinceEpoch(Duration {
        secs: 1_518_563_287,
        nanos: 133_000_000,
    });
    let text = serialize(&t).expect("after the epoch");
    assert_eq!(text, "2018-02-13T23:08:07Z");
    assert_eq!(
        deserialize(&text),
        Ok(Timestamp::SinceEpoch(Duration::from_secs(1_518_563_287)))
    );
    assert_eq!(
        deserialize("2018-02-14T00:28:07.133Z"),
        Ok(Timestamp::SinceEpoch(Duration {
            secs: 1_518_568_087,
            nanos: 133_000_000
        }))
    );
    let last = Timestamp::SinceEpoch(Duration::from_secs(253_402_300_799));
    assert_eq!(serialize(&last), Ok("9999-12-31T23:59:59Z".to_string()));
}

#[test]
fn every_timestamp_error_has_an_input() {
    assert_eq!(
        serialize(&Timestamp::BeforeEpoch),
        Err("timestamp before unix epoch cannot be formatted as RFC 3339".to_string())
    );
    let text = |s: &str| deserialize(s).expect_err("no timestamp").to_string();
    assert_eq!(deserialize("yesterday"), Err(TimestampError::InvalidFormat));
    assert_eq!(text("yesterday"), "timestamp format is invalid");
    assert_eq!(text("2018-13-14T00:28:07Z"), "numeric component is out of range");
    assert_eq!(
        text("2018-0x-14T00:28:07Z"),
        "bad character where digit is expected"
    );
}

#[test]
fn clock_readings_become_milliseconds() {
    assert_eq!(unix_ms_at(None), 0);
    let d = Duration {
        secs: 12,
        nanos: 345_999_999,
    };
    assert_eq!(unix_ms_at(Some(d)), 12_345);
    assert_eq!(run_suffix_at(Some(d)), "12345");
    assert_eq!(run_suffix_at(None), "0");
    let top = Duration {
        secs: u64::MAX,
        nanos: 0,
    };
    assert_eq!(run_suffix_at(Some(top)), "18446744073709551615000");
    assert!(unix_ms_now() > 1_600_000_000_000);
    assert!(unix_millis() > 1_600_000_000_000);
    assert!(run_suffix().parse::<u64>().unwrap() > 1_600_000_000_000);
}

#[test]
fn durations_convert() {
    assert_eq!(
        Duration::from_millis(1_250),
        Duration {
            secs: 1,
            nanos: 250_000_000
        }
    );
    assert_eq!(
        Duration::from_nanos(1_000_000_001),
        Duration { secs: 1, nanos: 1 }
    );
    assert_eq!(Duration::from_millis(1_250).as_millis(), 1_250);
    assert!(Duration::from_secs(0).is_zero());
    assert!(!Duration::from_nanos(1).is_zero());
    assert_eq!(Timestamp::of_reading(None), Timestamp::BeforeEpoch);
}

#[test]
fn ports_parse_like_numbers() {
    assert_eq!(parse_u16("+80"), Ok(80));
    assert_eq!(parse_u16("00080"), Ok(80));
    assert_eq!(parse_u16("65535"), Ok(65535));
    assert_eq!(parse_u16(""), Err(IntError::Empty));
    assert_eq!(parse_u16("+"), Err(IntError::InvalidDigit));
    assert_eq!(parse_u16("8 "), Err(IntError::InvalidDigit));
    assert_eq!(parse_u16("99999x"), Err(IntError::TooLarge));
    for s in ["", "+", "-1", "1x", "65536", "99999x", "9999x", "+80", "٣"] {
        assert_eq!(parse_u16(s).ok(), s.parse::<u16>().ok(), "{s}");
        if let Err(e) = parse_u16(s) {
            assert_eq!(e.to_string(), s.parse::<u16>().unwrap_err().to_string(), "{s}");
        }
    }
}

#[test]
fn white_space_is_trimmed() {
    let listed = |c: char| {
        matches!(
            c as u32,
            0x9..=0xd | 0x20 | 0x85 | 0xa0 | 0x1680 | 0x2000..=0x200a | 0x2028 | 0x2029 | 0x202f
                | 0x205f | 0x3000
        )
    };
    let mut found = 0;
    for c in (0..=0x10ffffu32).filter_map(char::from_u32) {
        assert_eq!(c.is_whitespace(), listed(c), "{c:?}");
        if listed(c) {
            found += 1;
            assert_eq!(trim(&format!("{c}a{c}b{c}{c}")), format!("a{c}b"));
        }
    }
    assert_eq!(found, 25);
    assert_eq!(trim("\u{200b}a\u{180e}"), "\u{200b}a\u{180e}");
}

#[test]
fn both_sides_share_the_run_id() {
    let mut stream = Vec::new();
    write_run_id(&mut stream, "baseline-dial-1700000000000").expect("short");
    stream.extend_from_slice(b"payload");
    match read_run_id(&stream, None) {
        RunIdRead::RunId { run_id, consumed } => {
            assert_eq!(run_id, "baseline-dial-1700000000000");
            assert_eq!(&stream[consumed..], b"payload");
        }
        other => panic!("unexpected {other:?}"),
    }
    assert!(matches!(read_run_id(&stream[..1], None), RunIdRead::Need(3)));
    assert_eq!(read_run_id(&stream, None).error(), None);
    let cut = read_run_id(&stream[..1], Some("early eof"));
    assert!(matches!(cut, RunIdRead::Bad(FrameError::NoLength(_))));
    assert_eq!(
        cut.error(),
        Some("reading run id: read frame length: early eof".to_string())
    );
    assert_eq!(
        read_run_id(&[0, 0, 0, 1, 0xff], None).error(),
        Some(
            "run id is not valid UTF-8: invalid utf-8 sequence of 1 bytes from index 0".to_string()
        )
    );
}

#[test]
fn the_whole_payload_goes_out_in_chunks() {
    let mut transfer = Transfer::new();
    let mut echo = Echo::new();
    let mut chunks = 0;
    while let TransferStep::Send(chunk) = transfer.next_step() {
        assert!(echo.wants_more());
        assert_eq!(chunk.len(), CHUNK_BYTES);
        transfer.wrote(chunk.len());
        assert!(matches!(transfer.next_step(), TransferStep::AwaitEcho));
        assert_eq!(echo.read(Some(chunk.len())), EchoStep::WriteBack);
        transfer.read_back(&chunk, &chunk).expect("the same bytes");
        chunks += 1;
    }
    assert!(matches!(transfer.next_step(), TransferStep::Done));
    assert_eq!(chunks, 160);
    assert_eq!(transfer.sent(), TEST_PAYLOAD_BYTES as u64);
    assert_eq!(transfer.echoed(), TEST_PAYLOAD_BYTES as u64);
    assert_eq!(echo.echoed, 10 * 1024 * 1024);
    assert!(!echo.wants_more());
}

#[test]
fn the_payload_is_random() {
    let chunk = || match Transfer::new().next_step() {
        TransferStep::Send(chunk) => chunk,
        other => panic!("unexpected {other:?}"),
    };
    assert_ne!(chunk(), chunk());
}

#[test]
fn a_damaged_echo_is_noticed() {
    let mut transfer = Transfer::new();
    transfer.wrote(3);
    let err = transfer.read_back(b"abc", b"abd").expect_err("damaged");
    assert_eq!(err.offset, 3);
    assert_eq!(err.to_string(), "echo mismatch at offset 3");
    assert_eq!(transfer.echoed(), 0);
    assert!(matches!(transfer.next_step(), TransferStep::AwaitEcho));
}

#[test]
fn the_echo_ends_with_the_stream() {
    let mut echo = Echo::new();
    assert_eq!(echo.read(Some(0)), EchoStep::Done);
    assert_eq!(EchoStep::Done.error(), None);
    assert_eq!(echo.read(None), EchoStep::EndedEarly);
    assert_eq!(EchoStep::EndedEarly.error(), Some("stream ended early"));
    assert_eq!(echo.echoed, 0);
}

fn sample(is_selected: bool, is_relay: bool, ms: u64) -> PathSample {
    PathSample {
        is_selected,
        is_relay,
        rtt: Duration::from_millis(ms),
    }
}

#[test]
fn the_selected_path_decides() {
    let telemetry = PathTelemetry::new();
    let state = snapshot_path_state(
        &vec![sample(false, true, 9), sample(true, false, 5)],
        &telemetry,
        true,
    );
    assert!(!state.selected_is_relay);
    assert_eq!(state.selected_rtt, Some(Duration::from_millis(5)));
    let none = snapshot_path_state(&vec![sample(false, false, 9)], &telemetry, true);
    assert!(none.selected_is_relay);
    assert_eq!(none.selected_rtt, None);
}

#[test]
fn the_first_direct_path_is_kept() {
    let mut telemetry = PathTelemetry::new();
    telemetry.selected(true, Duration::from_millis(10));
    assert_eq!(telemetry.first_direct, None);
    telemetry.selected(false, Duration::from_millis(20));
    telemetry.selected(true, Duration::from_millis(30));
    telemetry.selected(false, Duration::from_millis(40));
    telemetry.selected(true, Duration::from_millis(50));
    assert_eq!(telemetry.first_direct, Some(Duration::from_millis(20)));
    assert!(telemetry.last_selected_is_relay);
}

#[test]
fn waiting_for_direct_ends() {
    let waiting = PathTelemetry::new();
    let at = Duration::from_secs(30);
    let later = Duration { secs: 30, nanos: 1 };
    assert!(!dialer_done(&waiting, false, at));
    assert!(!acceptor_done(&waiting, false, at));
    assert!(dialer_done(&waiting, false, later));
    assert!(acceptor_done(&waiting, false, later));
    assert!(dialer_done(&waiting, true, at));
    assert!(acceptor_done(&waiting, true, at));
    let mut direct = waiting;
    direct.selected(false, at);
    assert!(dialer_done(&direct, false, at));
    assert!(acceptor_done(&direct, false, at));
}

#[test]
fn a_transfer_is_recorded_with_its_paths() {
    let mut telemetry = PathTelemetry::new();
    telemetry.selected(false, Duration::from_millis(321));
    // The direct path was lost again before the end.
    let state = snapshot_path_state(&vec![sample(true, true, 40)], &telemetry, true);
    let mut r = new_result("id".to_string(), "baseline", "L0");
    state.record_transfer(1_000, Duration::from_nanos(5), &mut r);
    assert_eq!(r.direct_connection_success, Some(true));
    assert_eq!(r.time_to_direct_ms, Some(321));
    assert_eq!(r.selected_path, Some(SelectedPath::Relay));
    assert_eq!(r.payload_bytes, 1_000);
    assert_eq!(
        r.media_throughput_mbps,
        Some(Throughput::Transfer {
            bytes: 1_000,
            elapsed: Duration::from_millis(1)
        })
    );

    let mut failed = new_result("id".to_string(), "baseline", "L0");
    state.record_failure("echo read failed".to_string(), &mut failed);
    assert_eq!(failed.direct_connection_success, Some(true));
    assert_eq!(failed.failure_reason.as_deref(), Some("echo read failed"));
    assert_eq!(failed.payload_bytes, 0);

    let relayed = snapshot_path_state(&vec![], &PathTelemetry::new(), true);
    let mut r = new_result("id".to_string(), "baseline", "L0");
    relayed.record(&mut r);
    assert_eq!(r.direct_connection_success, Some(false));
    assert_eq!(r.time_to_direct_ms, None);
}
