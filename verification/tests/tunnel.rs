//! The tunnel protocol, the routing table and the access rules.

use iroh_experiment::candidate::EndpointId;
use iroh_experiment::client::{check_service, evicts, get_or_dial, is_connection_lost, Cached};
use iroh_experiment::gateway::{configure, connection_scope, make_rule, parse_allow_rule, AllowRule};
use iroh_experiment::keyfile::{load_or_create_key, restrict_key_permissions, KeyFile, KeyStep};
use iroh_experiment::services::ServiceMap;
use iroh_experiment::stream::IoFailure;
use iroh_experiment::tunnel::{
    drive_client, read_request, read_status, refuse_stream, serve_stream, write_request,
    write_status, BadRequest, ByteCounts, RefuseStep, RequestRead, ServeStep, ServiceIdError, StatusRead, TunnelStatus,
};

fn services(specs: &[&str]) -> ServiceMap {
    let specs: Vec<String> = specs.iter().map(|s| s.to_string()).collect();
    ServiceMap::from_specs(&specs).expect("valid specs")
}

fn request(service: &str) -> Vec<u8> {
    let mut out = Vec::new();
    write_request(&mut out, service).expect("a short id");
    out
}

#[test]
fn status_codes_round_trip() {
    for (code, message) in [
        (0u8, "ok"),
        (1, "unknown service"),
        (2, "unauthorized endpoint"),
        (3, "upstream unreachable"),
        (4, "bad request"),
    ] {
        let status = TunnelStatus::from_u8(code).expect("a status");
        assert_eq!(status.to_u8(), code);
        assert_eq!(status.message(), message);
        let mut out = Vec::new();
        write_status(&mut out, status);
        assert_eq!(out, vec![code]);
        assert_eq!(read_status(&out, None), StatusRead::Status(status));
    }
    assert_eq!(TunnelStatus::from_u8(5), None);
    assert_eq!(TunnelStatus::from_u8(255), None);
}

#[test]
fn every_status_failure_has_an_input() {
    assert_eq!(read_status(&[], None), StatusRead::Need);
    assert_eq!(read_status(&[], None).error(), None);
    assert_eq!(
        read_status(&[], Some("connection lost")).error(),
        Some("reading tunnel status: connection lost".to_string())
    );
    assert_eq!(
        read_status(&[9], None).error(),
        Some("unknown tunnel status code 9".to_string())
    );
}

#[test]
fn requests_have_version_length_and_id() {
    assert_eq!(request("echo"), vec![0, 0, 4, b'e', b'c', b'h', b'o']);
    let mut bytes = request("カメラ");
    assert_eq!(bytes.len(), 12);
    bytes.push(1);
    match read_request(&bytes, None) {
        RequestRead::Request { service_id, consumed } => {
            assert_eq!(service_id, "カメラ");
            assert_eq!(consumed, 12);
        }
        other => panic!("unexpected {other:?}"),
    }
}

#[test]
fn long_service_ids_are_not_sent() {
    let mut out = vec![7];
    assert!(write_request(&mut out, &"a".repeat(256)).is_ok());
    let mut out = vec![7];
    let err = write_request(&mut out, &"a".repeat(257)).expect_err("too long");
    assert_eq!(err, ServiceIdError::TooLong);
    assert_eq!(err.to_string(), "service id exceeds 256 bytes");
    let err = write_request(&mut out, &"a".repeat(65_536)).expect_err("too long");
    assert_eq!(err, ServiceIdError::TooLongForWire);
    assert_eq!(
        err.to_string(),
        "service id longer than u16::MAX: out of range integral type conversion attempted"
    );
    assert_eq!(out, vec![7]);
}

#[test]
fn every_malformed_request_has_an_input() {
    let bad = |buf: &[u8]| match read_request(buf, Some("early eof")) {
        RequestRead::Bad(e) => e.to_string(),
        other => panic!("unexpected {other:?}"),
    };
    assert_eq!(bad(&[]), "reading protocol version: early eof");
    assert_eq!(bad(&[3]), "unsupported tunnel protocol version 3");
    assert_eq!(bad(&[0, 0]), "reading service id length: early eof");
    assert_eq!(bad(&[0, 1, 1]), "service id length 257 too large");
    assert_eq!(bad(&[0, 0, 2, b'a']), "reading service id: early eof");
    assert_eq!(
        bad(&[0, 0, 1, 0xff]),
        "service id is not valid UTF-8: invalid utf-8 sequence of 1 bytes from index 0"
    );
    // A wrong version is refused before anything else arrives.
    assert!(matches!(
        read_request(&[1], None),
        RequestRead::Bad(BadRequest::UnsupportedVersion(1))
    ));
    assert!(matches!(read_request(&[], None), RequestRead::Need(1)));
    assert!(matches!(read_request(&[0], None), RequestRead::Need(2)));
    assert!(matches!(read_request(&[0, 0, 9], None), RequestRead::Need(9)));
}

#[test]
fn unknown_service_is_rejected() {
    let map = services(&["echo=127.0.0.1:7"]);
    let step = serve_stream(&request("nope"), None, &map);
    assert_eq!(step.reply(false), Some(TunnelStatus::UnknownService));
    assert_eq!(step.failure(None), None);
}

#[test]
fn unreachable_upstream_reports_status() {
    let map = services(&["dead=127.0.0.1:9"]);
    let step = serve_stream(&request("dead"), None, &map);
    assert_eq!(step.reply(false), Some(TunnelStatus::UpstreamUnreachable));
    assert_eq!(
        step.failure(Some("connection refused")),
        Some("dial upstream 127.0.0.1:9: connection refused".to_string())
    );
    assert_eq!(step.reply(true), Some(TunnelStatus::Established));
    match step {
        ServeStep::Dial { service_id, target, consumed } => {
            assert_eq!(service_id, "dead");
            assert_eq!(target, "127.0.0.1:9");
            assert_eq!(consumed, 7);
        }
        other => panic!("unexpected {other:?}"),
    }
}

#[test]
fn malformed_requests_are_answered() {
    let map = services(&["echo=127.0.0.1:7"]);
    let step = serve_stream(&[7], None, &map);
    assert_eq!(step.reply(true), Some(TunnelStatus::BadRequest));
    assert_eq!(
        step.failure(None),
        Some("malformed tunnel request: unsupported tunnel protocol version 7".to_string())
    );
    assert_eq!(
        serve_stream(&[0], Some("reset by peer"), &map).failure(None),
        Some(
            "malformed tunnel request: reading service id length: reset by peer".to_string()
        )
    );
    assert!(matches!(serve_stream(&[], None, &map), ServeStep::Read(1)));
    assert_eq!(serve_stream(&[], None, &map).reply(false), None);
}

#[test]
fn rejected_endpoints_are_told_so() {
    for service in ["echo", "nope"] {
        assert_eq!(
            refuse_stream(&request(service), None),
            RefuseStep::Reply(TunnelStatus::Unauthorized)
        );
    }
    assert_eq!(refuse_stream(&[], None), RefuseStep::Read(1));
    assert_eq!(refuse_stream(&[0, 0, 4, b'e'], None), RefuseStep::Read(3));
    // A wrong version, or a request that never comes in full.
    assert_eq!(refuse_stream(&[7], None), RefuseStep::Close);
    assert_eq!(refuse_stream(&[], Some("deadline has elapsed")), RefuseStep::Close);
    assert_eq!(refuse_stream(&[0, 0, 4, b'e'], Some("early eof")), RefuseStep::Close);
}

/// The client byte counters must follow the advertised direction: N bytes
/// upstream and a different M bytes downstream must be labeled correctly.
#[test]
fn drive_client_byte_counters_follow_direction() {
    let counts = ByteCounts::on_client(7000, 100);
    assert_eq!(counts.to_gateway, 100, "UP must be client->gateway");
    assert_eq!(counts.from_gateway, 7000, "DOWN must be gateway->client");
    assert_eq!(ByteCounts::on_gateway(100, 7000), counts);
    assert_eq!(
        counts.report("asym"),
        "TUNNEL_CLOSED service=asym UP_BYTES=100 DOWN_BYTES=7000"
    );
}

/// Client-side rejection path: a status other than established is an error.
#[test]
fn drive_client_surfaces_rejection() {
    let map = services(&[]);
    let status = serve_stream(&request("anything"), None, &map)
        .reply(false)
        .expect("an answer");
    let err = drive_client(status, "anything");
    assert!(err.is_err());
    assert_eq!(
        err,
        Err("gateway rejected service \"anything\": unknown service".to_string())
    );
    assert!(drive_client(TunnelStatus::Established, "anything").is_ok());
}

#[test]
fn the_last_spec_for_a_name_wins() {
    let map = services(&["cam=10.0.0.2:80", "nas=[fd00::1]:445", "cam=10.0.0.3:81"]);
    assert_eq!(map.len(), 2);
    assert!(!map.is_empty());
    assert_eq!(map.get("cam"), Some("10.0.0.3:81"));
    assert_eq!(map.get("nas"), Some("[fd00::1]:445"));
    assert_eq!(map.get("tv"), None);
    let copy = map.clone();
    assert_eq!(copy.get("cam"), Some("10.0.0.3:81"));
    assert!(ServiceMap::default().is_empty());
}

#[test]
fn every_spec_error_has_an_input() {
    let text = |spec: &str| {
        ServiceMap::from_specs(&[spec.to_string()])
            .expect_err("malformed")
            .to_string()
    };
    assert_eq!(
        text("cam"),
        "invalid --service \"cam\": expected name=host:port"
    );
    assert_eq!(text("=host:1"), "empty service name in \"=host:1\"");
    assert_eq!(
        text("cam=host"),
        "invalid upstream for service \"cam\": missing :port"
    );
    assert_eq!(
        text("cam=host:http"),
        "invalid upstream for service \"cam\": port \"http\" is not a valid u16: invalid digit found in string"
    );
    assert_eq!(
        text("cam=host:65536"),
        "invalid upstream for service \"cam\": port \"65536\" is not a valid u16: number too large to fit in target type"
    );
    assert_eq!(
        text("cam=host:"),
        "invalid upstream for service \"cam\": port \"\" is not a valid u16: cannot parse integer from empty string"
    );
    // The text before the last colon is not looked at.
    assert_eq!(services(&["a=b=c:d:7"]).get("a"), Some("b=c:d:7"));
}

#[test]
fn the_first_malformed_spec_is_reported() {
    let specs = vec!["ok=h:1".to_string(), "bad".to_string(), "=h:1".to_string()];
    let err = ServiceMap::from_specs(&specs).expect_err("two malformed");
    assert_eq!(
        err.to_string(),
        "invalid --service \"bad\": expected name=host:port"
    );
}

#[test]
fn a_gateway_needs_a_service() {
    assert_eq!(
        configure(&[]).expect_err("no service"),
        "at least one --service is required"
    );
    assert_eq!(configure(&["a=h:1".to_string()]).expect("one").len(), 1);
    assert!(configure(&["a".to_string()]).is_err());
}

fn id(n: u8) -> EndpointId {
    EndpointId::from_bytes([n; 32])
}

fn rule(n: u8, service: Option<&str>) -> AllowRule {
    AllowRule {
        endpoint: id(n),
        service: service.map(|s| s.to_string()),
    }
}

#[test]
fn without_rules_everyone_may_use_everything() {
    let map = services(&["a=h:1", "b=h:2"]);
    let scoped = connection_scope(&id(1), &vec![], &map).expect("anyone");
    assert_eq!(scoped.len(), 2);
}

#[test]
fn rules_limit_an_endpoint_to_its_services() {
    let map = services(&["a=h:1", "b=h:2"]);
    let rules = vec![
        rule(1, Some("a")),
        rule(1, Some("missing")),
        rule(2, Some("a")),
        rule(2, None),
        rule(3, Some("missing")),
    ];
    let one = connection_scope(&id(1), &rules, &map).expect("mentioned");
    assert_eq!(one.len(), 1);
    assert_eq!(one.get("a"), Some("h:1"));
    assert_eq!(one.get("b"), None);
    // A rule without a service grants all of them.
    assert_eq!(connection_scope(&id(2), &rules, &map).expect("mentioned").len(), 2);
    // Mentioned, but for nothing that is configured.
    assert!(connection_scope(&id(3), &rules, &map).expect("mentioned").is_empty());
    assert!(connection_scope(&id(4), &rules, &map).is_none());
}

#[test]
fn allow_rules_parse() {
    let key = iroh::SecretKey::generate().public();
    let whole = parse_allow_rule(&key.to_string()).expect("an id");
    assert_eq!(whole.endpoint.as_bytes(), key.as_bytes());
    assert_eq!(whole.service, None);
    let scoped = parse_allow_rule(&format!("{key}=cam=1")).expect("an id and a service");
    assert_eq!(scoped.endpoint, whole.endpoint);
    assert_eq!(scoped.service.as_deref(), Some("cam=1"));
    let err = parse_allow_rule("abc=cam").expect_err("no id");
    assert_eq!(
        err.to_string(),
        "invalid EndpointId in \"abc=cam\": invalid length"
    );
    let made = make_rule("raw", Ok(id(5)), None).expect("an id");
    assert_eq!(made.endpoint, id(5));
}

#[test]
fn a_persisted_key_is_reused() {
    let created = match load_or_create_key("gateway", &KeyFile::Missing) {
        KeyStep::Create(key) => key,
        other => panic!("create key, got {other:?}"),
    };
    match load_or_create_key("gateway", &KeyFile::Found(created.to_vec())) {
        KeyStep::Use(key) => assert_eq!(
            key, created,
            "restart must reuse the persisted key so the EndpointId stays stable"
        ),
        other => panic!("reload key, got {other:?}"),
    }
    match load_or_create_key("client", &KeyFile::Missing) {
        KeyStep::Create(key) => assert_ne!(key, created),
        other => panic!("create key, got {other:?}"),
    }
}

#[test]
fn every_key_file_failure_has_an_input() {
    let text = |file: KeyFile| match load_or_create_key("client", &file) {
        KeyStep::Fail(e) => e,
        other => panic!("unexpected {other:?}"),
    };
    assert_eq!(
        text(KeyFile::Found(vec![0; 31])),
        "parse client key file: invalid length"
    );
    assert_eq!(
        text(KeyFile::Unreadable("permission denied".to_string())),
        "read client key file: permission denied"
    );
}

#[test]
fn key_files_are_owner_only() {
    assert_eq!(restrict_key_permissions(0o100644), Some(0o600));
    assert_eq!(restrict_key_permissions(0o100601), Some(0o600));
    assert_eq!(restrict_key_permissions(0o100600), None);
    assert_eq!(restrict_key_permissions(0o100400), None);
}

#[test]
fn unroutable_service_ids_fail_early() {
    assert!(check_service("cam").is_ok());
    assert_eq!(
        check_service(""),
        Err("--service must not be empty".to_string())
    );
    assert_eq!(
        check_service(&"é".repeat(129)),
        Err("--service exceeds 256 bytes".to_string())
    );
    assert!(check_service(&"é".repeat(128)).is_ok());
}

#[test]
fn a_lost_connection_is_recognized() {
    assert!(is_connection_lost(&vec![IoFailure::Other, IoFailure::ConnectionReset], ""));
    assert!(is_connection_lost(&vec![IoFailure::NotConnected], "tunnel pipe failed"));
    assert!(is_connection_lost(&vec![], "write: connection lost to peer"));
    assert!(!is_connection_lost(&vec![IoFailure::BrokenPipe], "connection los"));
    assert!(!is_connection_lost(&vec![], ""));
}

#[test]
fn only_a_dead_connection_is_evicted() {
    assert!(get_or_dial(Cached::Live));
    assert!(!get_or_dial(Cached::Closed));
    assert!(!get_or_dial(Cached::Empty));
    assert!(evicts(true, Cached::Closed));
    assert!(!evicts(true, Cached::Live));
    assert!(!evicts(true, Cached::Empty));
    assert!(!evicts(false, Cached::Closed));
}
