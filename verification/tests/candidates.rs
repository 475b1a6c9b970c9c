//! Candidates: lifetimes, epochs, choosing whom to dial.

use iroh_experiment::addr::{first_specified, IpAddr, SocketAddr};
use iroh_experiment::candidate::{
    choose_target, local_candidates, media_direct_addrs, validate_candidate,
    validate_candidate_at, AdvertiseError, CandidateError, CandidateSource, DialError,
    DirectCandidate, EndpointId, KeyError, MediaTransport,
};
use iroh_experiment::time::{unix_millis, Duration};

fn addr(port: u16) -> SocketAddr {
    SocketAddr::new(IpAddr::V4([203, 0, 113, 7]), port)
}

fn cand(ttl_ms: u64, epoch: u64) -> DirectCandidate {
    let endpoint_id = EndpointId::from_bytes(*iroh::SecretKey::generate().public().as_bytes());
    DirectCandidate::local(
        endpoint_id,
        addr(4001),
        Duration::from_millis(ttl_ms),
        epoch,
    )
    .unwrap()
}

#[test]
fn fresh_candidate_with_known_epoch_passes() {
    validate_candidate(&cand(30_000, 0), &[0]).unwrap();
}

#[test]
fn expired_candidate_rejected() {
    // TTL zero means already expired when validated a moment later.
    let c = cand(0, 0);
    while unix_millis() < c.observed_at_unix_ms + 2 {}
    assert!(validate_candidate(&c, &[0]).is_err());
}

#[test]
fn unknown_epoch_rejected() {
    // Candidate claims epoch 7 but we only know 0 and 1 (interface changed).
    assert!(validate_candidate(&cand(30_000, 7), &[0, 1]).is_err());
}

fn at(id: u8, port: u16, expires: u64, epoch: u64) -> DirectCandidate {
    DirectCandidate {
        endpoint_id: EndpointId::from_bytes([id; 32]),
        addr: addr(port),
        source: CandidateSource::Local,
        observed_at_unix_ms: 0,
        expires_at_unix_ms: expires,
        network_epoch: epoch,
    }
}

#[test]
fn a_candidate_expires_at_its_last_millisecond() {
    let c = at(1, 1, 1000, 4);
    assert!(!c.is_expired(999));
    assert!(c.is_expired(1000));
    assert_eq!(validate_candidate_at(&c, &[3, 4], 999), Ok(()));
    let err = validate_candidate_at(&c, &[3, 4], 1000).expect_err("expired");
    assert_eq!(err, CandidateError::Expired(1000));
    assert_eq!(err.to_string(), "candidate expired at 1000");
    let err = validate_candidate_at(&c, &[3], 0).expect_err("unknown epoch");
    assert_eq!(err, CandidateError::UnknownEpoch(4));
    assert_eq!(
        err.to_string(),
        "candidate network_epoch 4 is not currently known"
    );
}

#[test]
fn local_and_manual_candidates_carry_their_source() {
    let before = unix_millis();
    let id = EndpointId::from_bytes([9; 32]);
    let ttl = Duration::from_secs(30);
    let local = DirectCandidate::local(id, addr(1), ttl, 5).expect("fits");
    let manual = DirectCandidate::manual(id, addr(2), ttl, 5).expect("fits");
    assert_eq!(local.source, CandidateSource::Local);
    assert_eq!(manual.source, CandidateSource::Manual);
    assert_eq!(manual.addr, addr(2));
    assert_eq!(local.expires_at_unix_ms, local.observed_at_unix_ms + 30_000);
    assert!(local.observed_at_unix_ms >= before);
    assert_eq!(local.network_epoch, 5);
}

#[test]
fn an_expiry_that_does_not_fit_is_refused() {
    let id = EndpointId::from_bytes([9; 32]);
    let far = Duration::from_millis(u64::MAX);
    assert!(DirectCandidate::local(id, addr(1), far, 0).is_none());
    assert_eq!(
        local_candidates(id, &vec![addr(1)], far, 0, 1),
        Err(AdvertiseError::ExpiryTooFar)
    );
    assert_eq!(
        AdvertiseError::ExpiryTooFar.to_string(),
        "candidate expiry out of range"
    );
}

#[test]
fn every_direct_address_is_advertised() {
    let id = EndpointId::from_bytes([9; 32]);
    let ttl = Duration::from_millis(500);
    let cands = local_candidates(id, &vec![addr(1), addr(2)], ttl, 3, 1_000).expect("two");
    assert_eq!(cands.len(), 2);
    assert_eq!(cands[1].addr, addr(2));
    assert_eq!(cands[1].expires_at_unix_ms, 1_500);
    assert_eq!(cands[1].network_epoch, 3);
    let err = local_candidates(id, &vec![], ttl, 3, 1_000).expect_err("none");
    assert_eq!(err.to_string(), "media endpoint has no direct addresses");
}

#[test]
fn only_candidates_of_the_known_epoch_are_dialed() {
    let cands = vec![at(1, 1, 100, 0), at(2, 2, 100, 7), at(1, 3, 100, 0)];
    let target = choose_target(&cands, 0, 99).expect("two usable");
    assert_eq!(target.endpoint_id, EndpointId::from_bytes([1; 32]));
    assert_eq!(target.first.addr, addr(1));
    assert_eq!(target.addrs, vec![addr(1), addr(3)]);
    assert_eq!(choose_target(&cands, 7, 99).expect("one usable").first.addr, addr(2));
}

#[test]
fn every_dial_error_has_an_input() {
    let text = |cands: Vec<DirectCandidate>| {
        choose_target(&cands, 0, 50).expect_err("refused").to_string()
    };
    assert_eq!(text(vec![]), "receiver published no candidates");
    assert_eq!(text(vec![at(1, 1, 100, 1)]), "no candidate from a known epoch");
    assert_eq!(
        text(vec![at(1, 1, 100, 0), at(1, 2, 50, 0)]),
        "candidate rejected (fail-closed): candidate expired at 50"
    );
    assert_eq!(
        text(vec![at(1, 1, 100, 0), at(2, 2, 100, 0)]),
        "advertised candidates disagree on endpoint id"
    );
    // An expired candidate of another epoch does not matter.
    assert!(choose_target(&vec![at(1, 1, 100, 0), at(1, 2, 50, 1)], 0, 50).is_ok());
    assert_eq!(
        choose_target(&vec![], 0, 50).expect_err("empty"),
        DialError::NoCandidates
    );
}

#[test]
fn relay_transport_is_refused() {
    let transports = vec![
        MediaTransport::Ip(addr(1)),
        MediaTransport::Other("Relay(https://relay.example/)".to_string()),
    ];
    assert_eq!(
        media_direct_addrs(&transports),
        Err("media endpoint must never expose non-IP transport, got Relay(https://relay.example/)"
            .to_string())
    );
    assert_eq!(
        media_direct_addrs(&vec![MediaTransport::Ip(addr(1)), MediaTransport::Ip(addr(2))]),
        Ok(vec![addr(1), addr(2)])
    );
}

#[test]
fn the_first_concrete_address_is_dialed() {
    let any = SocketAddr::new(IpAddr::V4([0; 4]), 1);
    assert_eq!(first_specified(&vec![any, addr(2), addr(3)]), Some(addr(2)));
    assert_eq!(first_specified(&vec![any]), None);
}

#[test]
fn endpoint_ids_parse_from_hex() {
    let key = iroh::SecretKey::generate().public();
    let id = EndpointId::parse(&key.to_string()).expect("an id prints as it parses");
    assert_eq!(id.as_bytes(), key.as_bytes());
}

#[test]
fn every_key_error_has_an_input() {
    let text = |s: &str| EndpointId::parse(s).expect_err("no id").to_string();
    assert_eq!(EndpointId::parse("abc"), Err(KeyError::InvalidLength));
    assert_eq!(text("abc"), "invalid length");
    assert_eq!(text(&"zz".repeat(32)), "failed to decode hex string");
    assert_eq!(text(&"1".repeat(52)), "failed to decode base32 string");
    // Not the y-coordinate of a point on the curve.
    let mut bad = String::from("02");
    bad.push_str(&"00".repeat(31));
    assert_eq!(EndpointId::parse(&bad), Err(KeyError::InvalidKeyData));
    assert_eq!(text(&bad), "data is not a valid public key");
}
