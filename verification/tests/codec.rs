//! STUN codec: wire format, transaction-id authentication, and
//! XOR-MAPPED-ADDRESS decoding for both address families.

use iroh_experiment::addr::{IpAddr, SocketAddr};
use iroh_experiment::probe::ProbeConfig;
use iroh_experiment::stun::{
    encode_binding_error, encode_binding_request, encode_binding_success, is_stun_packet,
    parse_authenticated_error, parse_binding_request, parse_binding_response, AuthError,
    RequestError, ResponseError, StunError, TransactionId, ATTR_ERROR_CODE, BINDING_ERROR,
    BINDING_REQUEST, BINDING_SUCCESS, MAGIC_COOKIE,
};
use iroh_experiment::time::Duration;

fn v4(a: u8, b: u8, c: u8, d: u8, port: u16) -> SocketAddr {
    SocketAddr::new(IpAddr::V4([a, b, c, d]), port)
}

/// Deterministic vector: Binding Request with an all-zero txn.
#[test]
fn binding_request_wire_format() {
    let txn = TransactionId::from_bytes([0u8; 12]);
    let buf = encode_binding_request(&txn);
    assert_eq!(buf.len(), 20);
    assert_eq!(&buf[0..2], &BINDING_REQUEST.to_be_bytes());
    assert_eq!(&buf[2..4], &[0, 0]); // no attributes
    assert_eq!(&buf[4..8], &MAGIC_COOKIE.to_be_bytes());
    assert_eq!(&buf[8..20], &[0u8; 12]);
    // STUN keeps the top two bits of byte 0 zero (demux contract).
    assert!(buf[0] & 0xc0 == 0);
}

#[test]
fn success_response_decodes_v4() {
    let txn = TransactionId::random();
    let observed = v4(203, 0, 113, 20, 53124);
    let buf = encode_binding_success(observed, &txn);

    let parsed = parse_binding_response(&buf, &txn).expect("parses");
    assert_eq!(parsed.xor_mapped_address, observed);
}

#[test]
fn success_response_decodes_v6() {
    let txn = TransactionId::random();
    let ip: [u8; 16] = [
        0x20, 0x01, 0x0d, 0xb8, 0x00, 0x01, 0x00, 0x02, 0x00, 0x03, 0x00, 0x04, 0x00, 0x05, 0x00,
        0x06,
    ];
    let observed = SocketAddr::new(IpAddr::V6(ip), 42424);
    let buf = encode_binding_success(observed, &txn);

    let parsed = parse_binding_response(&buf, &txn).expect("parses");
    assert_eq!(parsed.xor_mapped_address, observed);
}

#[test]
fn mismatched_transaction_id_is_rejected() {
    let real = TransactionId::random();
    let forged = TransactionId::random();
    let observed = v4(127, 0, 0, 1, 1234);
    let buf = encode_binding_success(observed, &forged);

    let err = parse_binding_response(&buf, &real).expect_err("must reject");
    assert!(err.to_string().contains("transaction id"));
}

#[test]
fn error_response_surfaces_code_and_reason() {
    let txn = TransactionId::random();
    let buf = encode_binding_error(420, "Unknown Attribute", &txn);
    let err = parse_binding_response(&buf, &txn).expect_err("error response");
    assert!(err.to_string().contains("420"));
    assert!(err.to_string().contains("Unknown Attribute"));
}

#[test]
fn error_from_wrong_transaction_is_rejected() {
    let real = TransactionId::random();
    let other = TransactionId::random();
    let buf = encode_binding_error(500, "oops", &other);
    let err = parse_binding_response(&buf, &real).expect_err("must reject");
    // Must be rejected as unauthenticated, not surfaced as a server error.
    assert!(err.to_string().contains("transaction id"));
}

#[test]
fn garbage_and_short_buffers_are_rejected() {
    let txn = TransactionId::random();
    for bad in [
        &[][..],
        &[0u8; 10][..],
        // QUIC long-header-looking first byte must never parse as STUN.
        &[0xc3, 0x00, 0x00, 0x00, 0x01][..],
    ] {
        assert!(
            parse_binding_response(bad, &txn).is_err(),
            "expected rejection of {} bytes",
            bad.len()
        );
    }
}

/// Attribute walking must skip padding after odd-length values and still
/// find a later XOR-MAPPED-ADDRESS.
#[test]
fn attributes_with_padding_are_skipped() {
    let txn = TransactionId::random();
    let observed = v4(198, 51, 100, 7, 9999);
    let mut buf = encode_binding_success(observed, &txn);

    // Splice a 3-byte SOFTWARE-like attribute (type 0x8022) in front of the
    // XOR-MAPPED-ADDRESS; its value pads to 4 bytes.
    let header_len = 20;
    let attr: [u8; 8] = [0x80, 0x22, 0x00, 0x03, b'a', b'b', b'c', 0x00];
    let old_tail = buf.split_off(header_len);
    buf.extend_from_slice(&attr);
    buf.extend_from_slice(&old_tail);

    // The spliced attribute extends the message; patch the message-length
    // field accordingly.
    let msg_len = u16::from_be_bytes([buf[2], buf[3]]) + attr.len() as u16;
    buf[2..4].copy_from_slice(&msg_len.to_be_bytes());

    let parsed = parse_binding_response(&buf, &txn).expect("parses past padding");
    assert_eq!(parsed.xor_mapped_address, observed);
}

#[test]
fn demux_classifier_separates_stun_from_quic() {
    let txn = TransactionId::random();
    let stun = encode_binding_request(&txn);
    assert!(is_stun_packet(&stun));
    assert!(is_stun_packet(&[0u8; 20]));

    // QUIC version-negotiation long header starts with 0xc? (fixed bit set).
    assert!(!is_stun_packet(&[0xc3, 0x00, 0x00, 0x00, 0x01]));
    // QUIC short header has fixed bit + one spin/reserved bit pattern.
    assert!(!is_stun_packet(&[0x40 | 0x03, 0x00, 0x00, 0x00, 0x01]));
    assert!(!is_stun_packet(&[]));
    assert!(!is_stun_packet(&[0u8; 19]));
}

/// The encoder/decoder pair must agree on the XOR transform even though the
/// test cannot know the peer's mapping in advance.
#[test]
fn xor_roundtrip_preserves_port_range() {
    for port in [1u16, 53, 3478, 443, 65535] {
        let txn = TransactionId::random();
        let observed = v4(127, 0, 0, 1, port);
        let buf = encode_binding_success(observed, &txn);
        let parsed = parse_binding_response(&buf, &txn).unwrap();
        assert_eq!(parsed.xor_mapped_address.port(), port);
    }
}

/// Sanity guard so tests never silently grow multi-second runtimes.
#[test]
fn default_probe_budget_stays_small() {
    let cfg = ProbeConfig::default();
    assert_eq!(cfg.attempts, 3);
    assert_eq!(cfg.attempt_timeout, Duration::from_secs(2));
}

#[test]
fn success_response_has_the_masked_bytes() {
    let txn = TransactionId::from_bytes([1, 2, 3, 4, 5, 6, 7, 8, 9, 10, 11, 12]);
    let buf = encode_binding_success(v4(192, 0, 2, 1, 32853), &txn);
    let expected: [u8; 32] = [
        0x01, 0x01, 0x00, 0x0c, 0x21, 0x12, 0xa4, 0x42, 1, 2, 3, 4, 5, 6, 7, 8, 9, 10, 11, 12, 0x00,
        0x20, 0x00, 0x08, 0x00, 0x01, 0xa1, 0x47, 0xe1, 0x12, 0xa6, 0x43,
    ];
    assert_eq!(&buf[..], &expected[..]);
}

#[test]
fn error_response_is_padded_to_four_bytes() {
    let txn = TransactionId::from_bytes([9; 12]);
    let buf = encode_binding_error(401, "No", &txn);
    assert_eq!(buf.len(), 32);
    assert_eq!(&buf[0..2], &BINDING_ERROR.to_be_bytes());
    assert_eq!(&buf[2..4], &[0, 12]);
    assert_eq!(&buf[20..22], &ATTR_ERROR_CODE.to_be_bytes());
    assert_eq!(&buf[22..24], &[0, 6]);
    assert_eq!(&buf[24..32], &[0, 0, 4, 1, b'N', b'o', 0, 0]);
}

#[test]
fn authenticated_error_reads_back_code_and_trimmed_reason() {
    let txn = TransactionId::random();
    let buf = encode_binding_error(438, "  Stale Nonce \n", &txn);
    let err = parse_authenticated_error(&buf, &txn).expect("our own error");
    assert_eq!(err, StunError { code: 438, reason: "Stale Nonce".to_string() });
}

#[test]
fn malformed_reason_is_replaced_not_refused() {
    let txn = TransactionId::random();
    let mut buf = encode_binding_error(400, "bad?", &txn);
    let at = buf.len() - 1;
    buf[at] = 0xff;
    let err = parse_authenticated_error(&buf, &txn).expect("our own error");
    assert_eq!(err.reason, "bad\u{fffd}");
}

#[test]
fn request_reads_back_its_transaction() {
    let txn = TransactionId::random();
    let parsed = parse_binding_request(&encode_binding_request(&txn)).expect("well-formed");
    assert_eq!(parsed, txn);
    assert_eq!(parsed.as_bytes(), txn.as_bytes());
}

#[test]
fn two_random_transactions_differ() {
    assert_ne!(TransactionId::random(), TransactionId::random());
}

#[test]
fn every_request_error_has_an_input() {
    let txn = TransactionId::from_bytes([3; 12]);
    let good = encode_binding_request(&txn);

    assert_eq!(parse_binding_request(&good[..19]), Err(RequestError::TooShort));

    let mut quic = good.clone();
    quic[0] = 0x40;
    assert_eq!(parse_binding_request(&quic), Err(RequestError::NotStun));

    let mut other = good.clone();
    other[0] = 0x01;
    let err = parse_binding_request(&other).expect_err("a response");
    assert_eq!(err, RequestError::UnexpectedType(BINDING_SUCCESS));
    assert_eq!(err.to_string(), "unexpected message type 0x0101");

    let mut cookie = good;
    cookie[7] = 0;
    let err = parse_binding_request(&cookie).expect_err("no cookie");
    assert_eq!(err, RequestError::CookieMismatch);
    assert_eq!(err.to_string(), "magic cookie mismatch");
    assert_eq!(RequestError::TooShort.to_string(), "datagram too short");
    assert_eq!(RequestError::NotStun.to_string(), "not a STUN packet");
}

#[test]
fn every_response_error_has_an_input() {
    let txn = TransactionId::from_bytes([5; 12]);
    let other = TransactionId::from_bytes([6; 12]);
    let good = encode_binding_success(v4(192, 0, 2, 9, 4000), &txn);
    let text = |buf: &[u8], txn: &TransactionId| {
        parse_binding_response(buf, txn).expect_err("refused").to_string()
    };

    assert_eq!(text(&good[..7], &txn), "datagram shorter than STUN header (7)");

    let mut quic = good.clone();
    quic[0] = 0xc1;
    assert_eq!(text(&quic, &txn), "not a STUN packet (top bits set)");

    let request = encode_binding_request(&txn);
    assert_eq!(text(&request, &txn), "unexpected message type 0x0001");

    let mut cookie = good.clone();
    cookie[4] = 0x0f;
    assert_eq!(text(&cookie, &txn), "magic cookie mismatch (0x0f12a442)");

    assert_eq!(
        text(&good, &other),
        "transaction id mismatch (spoofed or stale response)"
    );
    let error = encode_binding_error(500, "Server Error", &txn);
    assert_eq!(text(&error, &other), "transaction id mismatch on error response");
    assert_eq!(
        text(&error, &txn),
        "server returned error StunError { code: 500, reason: \"Server Error\" }"
    );

    // The message claims more attribute bytes than arrived.
    assert!(matches!(
        parse_binding_response(&good[..24], &txn),
        Err(ResponseError::Truncated)
    ));

    let mut bare = good[..20].to_vec();
    bare[3] = 0;
    assert_eq!(text(&bare, &txn), "no valid XOR-MAPPED-ADDRESS in success response");
    bare[1] = 0x11;
    assert_eq!(text(&bare, &txn), "no ERROR-CODE attribute in error response");
}

#[test]
fn every_authenticated_error_failure_has_an_input() {
    let txn = TransactionId::from_bytes([5; 12]);
    let other = TransactionId::from_bytes([6; 12]);
    let error = encode_binding_error(500, "Server Error", &txn);
    let success = encode_binding_success(v4(192, 0, 2, 9, 4000), &txn);

    assert_eq!(parse_authenticated_error(&error[..19], &txn), Err(AuthError::TooShort));
    assert_eq!(parse_authenticated_error(&success, &txn), Err(AuthError::NotErrorResponse));
    let mut cookie = error.clone();
    cookie[6] = 0;
    assert_eq!(parse_authenticated_error(&cookie, &txn), Err(AuthError::CookieMismatch));
    assert_eq!(
        parse_authenticated_error(&error, &other),
        Err(AuthError::TransactionMismatch)
    );
    assert_eq!(parse_authenticated_error(&error[..30], &txn), Err(AuthError::Truncated));
    let mut bare = error[..20].to_vec();
    bare[3] = 0;
    let err = parse_authenticated_error(&bare, &txn).expect_err("no attribute");
    assert_eq!(err, AuthError::NoErrorCode);
    assert_eq!(err.to_string(), "no ERROR-CODE attribute");
}

#[test]
fn unknown_address_family_is_refused() {
    let txn = TransactionId::from_bytes([5; 12]);
    let mut buf = encode_binding_success(v4(192, 0, 2, 9, 4000), &txn);
    buf[25] = 0x03;
    assert!(matches!(
        parse_binding_response(&buf, &txn),
        Err(ResponseError::NoAddress)
    ));
}
