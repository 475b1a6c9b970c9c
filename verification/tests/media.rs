//! Synthetic stream and media sessions.

use iroh_experiment::gate::{GateState, MediaGate, PathSignal, StopReason};
use iroh_experiment::result::{new_result_at, SelectedPath, Throughput};
use iroh_experiment::session::{
    accept_media, check_ready, read_frame, recv_candidates, request_candidates, send_candidates,
    serve_candidates, session_token, write_frame, CandidateReply, FrameError, FrameRead,
    HandshakeError, MediaRole, SessionOutcome, MAX_FRAME_LEN, READY_BYTES, TOKEN_LEN,
};
use iroh_experiment::stream::{
    await_direct, is_closed, read_frame_synced, Frame, FrameRead as Synced, IoFailure, Rate,
    ReceiveError, Receiver, SendStep, Sender, StreamStats, SyntheticConfig, WaitStep,
};
use iroh_experiment::time::{Duration, Timestamp};

fn cfg() -> SyntheticConfig {
    SyntheticConfig {
        bitrate_bps: 1_000_000,
        frame_payload_bytes: 1200,
        duration: Duration::from_secs(3),
    }
}

/// A media gate that allowed streaming at this time.
fn ready_at(ms: u64) -> MediaGate {
    let mut gate = MediaGate::new();
    let direct = PathSignal::Snapshot {
        open_direct: 1,
        has_relay: false,
        selected_direct: true,
    };
    assert_eq!(gate.apply_at(direct, ms), GateState::DirectReady);
    gate
}

/// A media gate that lost its direct path.
fn lost() -> MediaGate {
    let mut gate = ready_at(1);
    let none = PathSignal::Snapshot {
        open_direct: 0,
        has_relay: false,
        selected_direct: false,
    };
    gate.apply_at(none, 2);
    gate
}

#[test]
fn frames_have_a_fourteen_byte_header() {
    assert_eq!(SyntheticConfig::HEADER_BYTES, 14);
    assert_eq!(cfg().frame_bytes(), 1214);
}

#[test]
fn frame_interval_hits_the_bitrate() {
    // 9600 bits per payload.
    for (bitrate_bps, frame_payload_bytes, nanos) in [
        (1_000_000u64, 1200u16, 9_600_000u64),
        (5_000_000, 1200, 1_920_000),
        // Less than one frame per second.
        (800, 1000, 10_000_000_000),
        // Without a rate, one frame per second.
        (0, 1200, 1_000_000_000),
        (0, 0, 1_000_000_000),
        // A payload of nothing counts as one byte.
        (7, 0, 1_142_857_142),
        (8, 1, 1_000_000_000),
        (u64::MAX, 1, 0),
    ] {
        let config = SyntheticConfig {
            bitrate_bps,
            frame_payload_bytes,
            duration: Duration::from_secs(1),
        };
        assert_eq!(config.frame_interval(), Duration::from_nanos(nanos));
    }
}

#[test]
fn a_frame_reads_back() {
    let config = SyntheticConfig {
        frame_payload_bytes: 3,
        ..cfg()
    };
    let mut sender = Sender::new(config);
    let gate = ready_at(1);
    for _ in 0..0x0304 {
        assert_eq!(sender.wake(gate.state(), false, &gate), SendStep::Emit);
        assert!(sender.has_room());
        sender.sent(2);
    }
    let mut bytes = sender.next_frame(0x0a0b);
    assert_eq!(
        bytes,
        vec![0, 0, 3, 4, 0, 0, 0, 0, 0, 0, 0x0a, 0x0b, 0, 3, 0xab, 0xab, 0xab]
    );
    bytes.push(0x77);
    let frame = Frame {
        seq: 0x0304,
        sent_ms: 0x0a0b,
        payload_len: 3,
    };
    assert_eq!(read_frame_synced(&bytes, false), Synced::Frame(frame));
    assert_eq!(frame.wire_bytes(), 17);
    bytes[0] = 1;
    bytes[1] = 2;
    assert_eq!(
        read_frame_synced(&bytes, false),
        Synced::Frame(Frame {
            seq: 0x0102_0304,
            ..frame
        })
    );
}

#[test]
fn a_partial_frame_waits_or_ends() {
    let bytes = Sender::new(cfg()).next_frame(5);
    assert_eq!(read_frame_synced(&bytes[..0], false), Synced::Need(14));
    assert_eq!(read_frame_synced(&bytes[..13], false), Synced::Need(1));
    assert_eq!(read_frame_synced(&bytes[..14], false), Synced::Need(1200));
    // Only an end between two frames is a clean one.
    assert_eq!(read_frame_synced(&bytes[..0], true), Synced::Fin);
    assert_eq!(read_frame_synced(&bytes[..1], true), Synced::Cut);
    assert_eq!(read_frame_synced(&bytes[..13], true), Synced::Cut);
    assert_eq!(read_frame_synced(&bytes[..14], true), Synced::Cut);
    assert_eq!(read_frame_synced(&bytes[..1213], true), Synced::Cut);
}

#[test]
fn sender_and_receiver_agree() {
    let mut sender = Sender::new(cfg());
    let mut receiver = Receiver::new();
    let mut wire: Vec<u8> = Vec::new();
    let gate = ready_at(990);
    for i in 0..60u64 {
        let step = sender.wake(GateState::DirectReady, false, &gate);
        assert_eq!(step, SendStep::Emit);
        wire.extend_from_slice(&sender.next_frame(1_000 + i * 10));
        assert!(sender.has_room());
        sender.sent(1_000 + i * 10);
    }
    let mut at = 0;
    loop {
        match read_frame_synced(&wire[at..], true) {
            Synced::Frame(frame) => {
                assert!(receiver.stats.room_for(frame.payload_len));
                receiver.frame(&frame, 5_000).expect("in sequence");
                at += frame.wire_bytes() as usize;
            }
            Synced::Fin => break,
            other => panic!("unexpected {other:?}"),
        }
    }
    receiver.fin(GateState::DirectReady);
    let (stats, frames) = receiver.finish();
    assert_eq!(frames, 60);
    assert_eq!(stats, sender.stats());
    assert_eq!(stats.frames, 60);
    assert_eq!(stats.payload_bytes, 72_000);
    assert_eq!(stats.bytes_on_wire, 72_000 + 14 * 60);
    assert_eq!(stats.first_frame_unix_ms, Some(1_000));
    assert_eq!(stats.last_frame_unix_ms, Some(1_590));
    assert_eq!(
        stats.throughput_mbps(),
        Some(Rate {
            bytes: 72_840,
            span_ms: 590
        })
    );
}

#[test]
fn throughput_needs_two_frames_and_a_span() {
    let empty = StreamStats::default();
    assert_eq!(empty.throughput_mbps(), None);
    let one = StreamStats {
        frames: 1,
        first_frame_unix_ms: Some(1),
        last_frame_unix_ms: Some(9),
        ..empty
    };
    assert_eq!(one.throughput_mbps(), None);
    let same_instant = StreamStats {
        frames: 2,
        last_frame_unix_ms: Some(1),
        ..one
    };
    assert_eq!(same_instant.throughput_mbps(), None);
}

#[test]
fn a_gap_in_the_sequence_is_refused() {
    let mut receiver = Receiver::new();
    let frame = Frame {
        seq: 1,
        sent_ms: 7,
        payload_len: 2,
    };
    let err = receiver.frame(&frame, 9).expect_err("frame 0 is missing");
    assert_eq!(err, ReceiveError::Discontinuity { got: 1, expected: 0 });
    assert_eq!(err.to_string(), "sequence discontinuity: got 1, expected 0");
    assert_eq!(receiver, Receiver::new());
}

#[test]
fn frames_never_count_for_the_future() {
    let mut receiver = Receiver::new();
    let frame = Frame {
        seq: 0,
        sent_ms: 500,
        payload_len: 0,
    };
    receiver.frame(&frame, 400).expect("in sequence");
    assert_eq!(receiver.stats.last_frame_unix_ms, Some(400));
}

#[test]
fn sequence_numbers_wrap() {
    let mut receiver = Receiver {
        expected_seq: u32::MAX,
        ..Receiver::new()
    };
    let frame = Frame {
        seq: u32::MAX,
        sent_ms: 0,
        payload_len: 0,
    };
    receiver.frame(&frame, 0).expect("in sequence");
    assert_eq!(receiver.expected_seq, 0);
    // The count of frames goes on.
    assert_eq!(receiver.finish().1, 1);
}

#[test]
fn full_counters_have_no_room() {
    let full = StreamStats {
        bytes_on_wire: u64::MAX - 15,
        ..StreamStats::default()
    };
    assert!(full.room_for(1));
    assert!(!full.room_for(2));
}

#[test]
fn a_latched_media_gate_ends_both_sides() {
    let stopped = GateState::Stopped(StopReason::DirectPathLost);
    let mut receiver = Receiver::new();
    assert!(!receiver.gate_changed(GateState::DirectReady));
    assert!(receiver.gate_changed(stopped));
    assert_eq!(receiver.stats.stop_reason, Some(StopReason::DirectPathLost));

    let mut sender = Sender::new(cfg());
    assert_eq!(sender.wake(stopped, true, &lost()), SendStep::Stop);
    assert_eq!(sender.stats().stop_reason, Some(StopReason::DirectPathLost));
}

#[test]
fn streaming_waits_for_a_direct_path() {
    let ready = GateState::DirectReady;
    let waiting = GateState::AwaitingDirect;
    let stopped = GateState::Stopped(StopReason::RelayPathObserved);
    for up in [false, true] {
        for gone in [false, true] {
            assert_eq!(await_direct(ready, up, gone), WaitStep::GoOn);
        }
    }
    for state in [waiting, stopped] {
        assert_eq!(await_direct(state, false, false), WaitStep::Wait);
        assert_eq!(await_direct(state, true, false), WaitStep::TimedOut);
        assert_eq!(await_direct(state, true, true), WaitStep::GateClosed);
    }
    assert_eq!(WaitStep::GoOn.error(), None);
    assert_eq!(WaitStep::Wait.error(), None);
    assert_eq!(
        WaitStep::TimedOut.error(),
        Some("timed out waiting for direct-ready: deadline has elapsed".to_string())
    );
    assert_eq!(WaitStep::GateClosed.error(), Some("gate closed".to_string()));
}

#[test]
fn the_sender_emits_only_while_direct() {
    let ready = GateState::DirectReady;
    let mut sender = Sender::new(cfg());
    assert_eq!(sender.ready_ms(), None);
    assert_eq!(sender.wake(ready, true, &ready_at(3)), SendStep::Finish);
    assert_eq!(sender.ready_ms(), None);
    assert_eq!(sender.wake(ready, false, &ready_at(3)), SendStep::Emit);
    assert_eq!(sender.ready_ms(), Some(3));
    assert_eq!(sender.wake(ready, false, &MediaGate::new()), SendStep::Stop);
    assert_eq!(sender.stats().stop_reason, None);
    assert_eq!(sender.stats().frames, 0);
}

#[test]
fn a_cut_stream_needs_a_reason() {
    let mut receiver = Receiver::new();
    let err = receiver.cut(GateState::DirectReady).expect_err("unexplained");
    assert_eq!(err.to_string(), "frame read failed before any gate stop");
    receiver
        .cut(GateState::Stopped(StopReason::ConnectionClosed))
        .expect("explained");
    assert_eq!(receiver.stats.stop_reason, Some(StopReason::ConnectionClosed));
    assert_eq!(Receiver::latch_wait(), Duration::from_secs(2));
}

#[test]
fn a_lost_connection_ends_the_stream() {
    for failure in [
        IoFailure::BrokenPipe,
        IoFailure::ConnectionReset,
        IoFailure::NotConnected,
        IoFailure::UnexpectedEof,
    ] {
        let mut sender = Sender::new(cfg());
        assert!(is_closed(&failure));
        assert!(sender.write_failed(&failure));
        assert_eq!(sender.stats().stop_reason, Some(StopReason::ConnectionClosed));
    }
    let mut sender = Sender::new(cfg());
    assert!(!sender.write_failed(&IoFailure::Other));
    assert_eq!(sender.stats().stop_reason, None);
}

#[test]
fn control_frames_read_back() {
    let mut out = Vec::new();
    write_frame(&mut out, b"abc").expect("short");
    assert_eq!(out, vec![0, 0, 0, 3, b'a', b'b', b'c']);
    assert!(matches!(read_frame(&out[..2], None), FrameRead::Need(2)));
    assert!(matches!(read_frame(&out[..5], None), FrameRead::Need(2)));
    match read_frame(&out, None) {
        FrameRead::Frame { payload, consumed } => {
            assert_eq!(payload, b"abc");
            assert_eq!(consumed, 7);
        }
        other => panic!("unexpected {other:?}"),
    }
}

#[test]
fn every_frame_error_has_an_input() {
    assert!(matches!(
        read_frame(&[0, 0], Some("unexpected end of file")),
        FrameRead::Bad(e) if e.to_string() == "read frame length: unexpected end of file"
    ));
    assert!(matches!(
        read_frame(&[0, 0, 0, 2, 9], Some("early eof")),
        FrameRead::Bad(e) if e.to_string() == "read frame body: early eof"
    ));
    match read_frame(&[0, 1, 0, 1], None) {
        FrameRead::Bad(e) => {
            assert_eq!(e, FrameError::OverLimit(MAX_FRAME_LEN + 1));
            assert_eq!(e.to_string(), "frame length 65537 exceeds limit");
        }
        other => panic!("unexpected {other:?}"),
    }
    assert_eq!(
        FrameError::TooLarge.to_string(),
        "frame too large: out of range integral type conversion attempted"
    );
    assert_eq!(
        u32::try_from(u64::MAX).unwrap_err().to_string(),
        "out of range integral type conversion attempted"
    );
}

#[test]
fn candidates_and_token_travel_together() {
    let mut request = Vec::new();
    request_candidates(&mut request);
    let asked = match read_frame(&request, None) {
        FrameRead::Frame { payload, .. } => payload,
        other => panic!("unexpected {other:?}"),
    };
    let token = session_token();
    let reply = serve_candidates(&asked, b"[]", &token).expect("an empty request");
    match recv_candidates(&reply, None) {
        CandidateReply::Reply { json, token: got } => {
            assert_eq!(json, b"[]");
            assert_eq!(got, token);
        }
        other => panic!("unexpected {other:?}"),
    }
    assert!(matches!(recv_candidates(&reply[..6], None), CandidateReply::Need(4)));
    assert!(matches!(
        recv_candidates(&reply[..6], Some("reset")),
        CandidateReply::Bad(FrameError::NoLength(cause)) if cause == "reset"
    ));
    let err = serve_candidates(b"?", b"[]", &token).expect_err("not empty");
    assert_eq!(err.to_string(), "unexpected request payload");

    let mut alone = Vec::new();
    send_candidates(&mut alone, b"[]").expect("short");
    assert_eq!(alone, vec![0, 0, 0, 2, b'[', b']']);
}

#[test]
fn session_tokens_are_fresh() {
    let a = session_token();
    let b = session_token();
    assert_eq!(a.len(), TOKEN_LEN);
    assert_ne!(a, b);
    assert_ne!(a, vec![0u8; TOKEN_LEN]);
}

#[test]
fn only_the_token_holder_passes() {
    let token = session_token();
    let reply = accept_media(&token, &token).expect("the token");
    let answer = match read_frame(&reply, None) {
        FrameRead::Frame { payload, .. } => payload,
        other => panic!("unexpected {other:?}"),
    };
    assert_eq!(answer, b"ready");
    assert_eq!(&answer[..], &READY_BYTES[..]);
    check_ready(&answer).expect("ready");
    assert_eq!(
        check_ready(b"later").expect_err("something else").to_string(),
        "receiver not ready"
    );
    let err = accept_media(&session_token(), &token).expect_err("another token");
    assert_eq!(err, HandshakeError::TokenMismatch);
    assert_eq!(err.to_string(), "session token mismatch");
    assert_eq!(accept_media(b"", &token), Err(HandshakeError::TokenMismatch));
}

fn streamed() -> StreamStats {
    StreamStats {
        frames: 3,
        bytes_on_wire: 342,
        payload_bytes: 300,
        first_frame_unix_ms: Some(2_000),
        last_frame_unix_ms: Some(2_100),
        stop_reason: None,
    }
}

#[test]
fn a_clean_session_is_recorded() {
    let outcome =
        SessionOutcome::of_session(MediaRole::Sender, streamed(), 1_500, Some(1_750), 0, true);
    assert!(outcome.direct_connection_success);
    assert_eq!(outcome.time_to_direct_ms, Some(250));
    assert_eq!(outcome.relay_media_bytes, 0);

    let mut result = new_result_at("r".to_string(), "direct-media", "L0", Timestamp::BeforeEpoch);
    outcome.record(GateState::DirectReady, &mut result);
    assert_eq!(result.direct_connection_success, Some(true));
    assert_eq!(result.selected_path, Some(SelectedPath::DirectIp));
    assert_eq!(result.payload_bytes, 300);
    assert_eq!(
        result.media_throughput_mbps,
        Some(Throughput::Stream(Rate {
            bytes: 342,
            span_ms: 100
        }))
    );
    assert_eq!(result.relay_media_tx_bytes, Some(0));
    assert_eq!(result.relay_media_rx_bytes, None);
    assert_eq!(result.failure_reason, None);
    assert!(result.verdict().is_ok());
}

#[test]
fn a_tripped_media_gate_is_a_failure() {
    let outcome =
        SessionOutcome::of_session(MediaRole::Receiver, streamed(), 1_500, None, 2, false);
    // Its gate never got as far as the first frame.
    assert_eq!(outcome.time_to_direct_ms, Some(500));
    let mut result = new_result_at("r".to_string(), "direct-media", "L0", Timestamp::BeforeEpoch);
    outcome.record(
        GateState::Stopped(StopReason::RelayPathObserved),
        &mut result,
    );
    assert_eq!(result.relay_media_rx_bytes, Some(0));
    assert_eq!(
        result.verdict(),
        Err("run failed: fail-closed gate tripped: ever_relay_paths=2 gate=Stopped(RelayPathObserved)"
            .to_string())
    );
}

#[test]
fn an_unconfirmed_stream_is_a_failure_for_the_sender_only() {
    let stats = StreamStats::default();
    for (role, reason) in [
        (
            MediaRole::Sender,
            Some("receiver never confirmed stream completion".to_string()),
        ),
        (MediaRole::Receiver, None),
    ] {
        let outcome = SessionOutcome::of_session(role, stats, 9, Some(3), 0, false);
        assert!(!outcome.direct_connection_success);
        let mut result =
            new_result_at("r".to_string(), "direct-media", "L0", Timestamp::BeforeEpoch);
        outcome.record(GateState::DirectReady, &mut result);
        assert_eq!(result.failure_reason, reason);
        assert_eq!(result.selected_path, None);
    }
}

#[test]
fn a_clock_that_went_back_counts_as_no_time() {
    let outcome = SessionOutcome::of_session(MediaRole::Sender, streamed(), 900, Some(800), 0, true);
    assert_eq!(outcome.time_to_direct_ms, Some(0));
}

#[test]
fn a_sender_knows_its_time_to_direct_once_a_frame_is_out() {
    let mut sender = Sender::new(cfg());
    let gate = ready_at(1_750);
    let outcome = SessionOutcome::of_sender(&sender, 1_500, 0, false);
    assert_eq!(outcome.time_to_direct_ms, None);
    assert_eq!(outcome.stream.first_frame_unix_ms, None);

    assert_eq!(sender.wake(gate.state(), false, &gate), SendStep::Emit);
    assert_eq!(SessionOutcome::of_sender(&sender, 1_500, 0, false).time_to_direct_ms, None);

    sender.sent(2_000);
    let outcome = SessionOutcome::of_sender(&sender, 1_500, 0, true);
    assert_eq!(outcome.role, MediaRole::Sender);
    assert!(outcome.direct_connection_success);
    assert!(outcome.receiver_confirmed);
    assert_eq!(outcome.time_to_direct_ms, Some(250));
    assert_eq!(outcome.stream.first_frame_unix_ms, Some(2_000));
}

#[test]
fn without_a_frame_there_is_no_time_to_direct() {
    let none = StreamStats::default();
    let outcome = SessionOutcome::of_session(MediaRole::Receiver, none, 5, Some(9), 0, false);
    assert_eq!(outcome.time_to_direct_ms, None);
}
