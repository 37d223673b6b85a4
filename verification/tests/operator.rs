use aegis::api::{
    ack_alert, at_least, create_token, events_for_agent, filter_alerts, filter_detections,
    filter_scores, get_agent, is_loopback_address, list_agents, list_alerts, list_detections,
    list_scores, page_size, revoke_token, security_headers, AgentRecord, AlertQuery, ApiError,
    DetectionQuery, EventQuery, EventRecord, ScoreQuery, TokenRecord,
};
use aegis::cli::{
    agent_header, agent_line, alert_header, alert_line, alerts_path, created_text,
    detection_line, detections_path, percent_encode, plugin_header, plugin_line,
    score_line, scores_path, status_text, token_header, token_line, token_path, truncate,
    version_text, with_query, ReplyError, Revocation,
};
use aegis::event::{Event, EventPayload};
use aegis::http::Response;
use aegis::plugin::{PluginKind, PluginMetadata};
use aegis::registry::RouterError;
use aegis::rows::{AgentRow, AlertRow, DetectionRow, EventRow, ScoreRow, TokenRow};
use aegis::store::{Store, StoreError};
use tempfile::TempDir;

fn open_tmp() -> (TempDir, Store) {
    let dir = TempDir::new().expect("tempdir");
    let store = Store::open(dir.path().to_str().unwrap()).expect("open store");
    (dir, store)
}

fn response(status: u16, body: &[u8]) -> Response {
    Response {
        status,
        body: body.to_vec(),
    }
}

#[test]
fn truncate_keeps_columns() {
    assert_eq!(truncate("abc", 3), "abc");
    assert_eq!(truncate("abcd", 3), "ab…");
    assert_eq!(truncate("éééé", 3), "éé…");
    assert_eq!(truncate("a", 0), "");
    assert_eq!(truncate("", 0), "");
    assert_eq!(truncate("ab", 1), "…");
}

#[test]
fn queries_are_encoded() {
    assert_eq!(percent_encode("a b&c=é~"), "a%20b%26c%3D%C3%A9~");
    assert_eq!(with_query("/p", &vec![]), "/p");
    assert_eq!(
        with_query(
            "/p",
            &vec![("a".into(), "1 2".into()), ("b".into(), "x".into())]
        ),
        "/p?a=1%202&b=x"
    );
    assert_eq!(
        alerts_path(Some(10), Some("high"), true),
        "/api/v1/alerts?limit=10&severity=high&acknowledged=false"
    );
    assert_eq!(alerts_path(None, None, false), "/api/v1/alerts");
    assert_eq!(scores_path(Some("a1"), Some("50")), "/api/v1/scores/a1");
    assert_eq!(scores_path(None, Some("50")), "/api/v1/scores?min_score=50");
    assert_eq!(
        detections_path(None, Some("agent"), Some("0.5")),
        "/api/v1/detections?verdict=agent&min_confidence=0.5"
    );
    assert_eq!(detections_path(Some("a1"), None, None), "/api/v1/detections/a1");
    assert_eq!(token_path("t"), "/api/v1/tokens/t");
}

#[test]
fn tables_are_aligned() {
    assert_eq!(
        token_header(),
        format!("{:64}  {:6}  {:20}  CREATED_AT_NS", "TOKEN", "USED", "LABEL")
    );
    assert_eq!(
        token_line("tok", true, "a label that is too long", 7),
        format!("{:64}  {:6}  {:20}  {}", "tok", true, "a label that is too…", 7)
    );
    assert_eq!(
        agent_header(),
        format!("{:36}  {:24}  {:10}  LAST_SEEN_NS", "AGENT_ID", "HOSTNAME", "OS")
    );
    assert_eq!(
        agent_line("a1", "box", "Linux", 99),
        format!("{:36}  {:24}  {:10}  {}", "a1", "box", "Linux", 99)
    );
    assert_eq!(
        alert_header(),
        format!("{:10}  {:30}  {:36}  {:5}  TS_NS", "SEVERITY", "TITLE", "AGENT_ID", "ACK")
    );
    assert_eq!(
        alert_line("critical", "boom", "a1", false, 7),
        format!("{:10}  {:30}  {:36}  {:5}  {}", "critical", "boom", "a1", false, 7)
    );
    assert!(score_line("a1", "uid:1000", "82.5", 7).contains("82.5"));
    assert!(detection_line("a1", "s", "agent", "0.91", 7).contains("0.91"));
    let meta = PluginMetadata::new("n", "1.0", "d", PluginKind::Sink);
    assert_eq!(
        plugin_header(),
        format!("{:24} {:10} {:8} DESCRIPTION", "NAME", "KIND", "VERSION")
    );
    assert_eq!(
        plugin_line(&meta),
        format!("{:24} {:10} {:8} {}", "n", "Sink", "1.0", "d")
    );
    assert_eq!(
        version_text("0.1.0"),
        "aegisctl 0.1.0\nplugin API version 1\nwire protocol version 1"
    );
}

#[test]
fn responses_are_judged() {
    assert_eq!(response(200, b"{}").json_ok(), Ok(()));
    assert_eq!(response(200, b"{").json_ok(), Err(ReplyError::InvalidJson));
    assert_eq!(
        ReplyError::InvalidJson.message(),
        "server returned invalid JSON"
    );
    assert_eq!(
        response(404, br#"{"error":"agent not found"}"#).json_ok(),
        Err(ReplyError::Status("server error (404): agent not found".into()))
    );
    assert_eq!(response(500, b" \n").error_detail(), "server returned HTTP 500");
    assert_eq!(
        response(502, b" bad gateway ").error_detail(),
        "server returned HTTP 502: bad gateway"
    );
    assert_eq!(
        response(502, br#"{"error":5}"#).error_detail(),
        "server returned HTTP 502: {\"error\":5}"
    );
    assert_eq!(response(500, b"\xff").error_detail(), "server returned HTTP 500: \u{fffd}");
    assert_eq!(response(204, b"").revocation(), Revocation::Revoked);
    assert_eq!(response(409, b"").revocation(), Revocation::Refused);
    assert_eq!(
        response(500, b"").revocation(),
        Revocation::Failed("server returned HTTP 500".into())
    );
}

#[test]
fn status_and_creation_are_printed() {
    let info = br#"{"fingerprint":"abc123","proto_version":1}"#;
    let listing = response(200, br#"[{"agent_id":"a1"},{"agent_id":"a2"}]"#);
    assert_eq!(
        status_text(info, Some(&listing)),
        "fingerprint:    abc123\nproto version:  1\nagents:         2"
    );
    assert_eq!(
        status_text(b"{}", None),
        "fingerprint:    \nproto version:  0\nagents:         (unavailable)"
    );
    assert_eq!(
        status_text(info, Some(&response(500, b"[]"))),
        "fingerprint:    abc123\nproto version:  1\nagents:         (unavailable)"
    );
    assert_eq!(
        created_text(br#"{"token":"t0","fingerprint":"f0"}"#),
        "token:       t0\nfingerprint: f0\n\nPin the fingerprint on the agent, then enroll with the token above."
    );
}

#[test]
fn doubles_compare_by_their_bits() {
    let values = [
        f64::NEG_INFINITY,
        -1e300,
        -1.5,
        -f64::MIN_POSITIVE,
        -0.0,
        0.0,
        5e-324,
        0.5,
        0.95,
        1.0,
        88.5,
        f64::MAX,
        f64::INFINITY,
        f64::NAN,
        -f64::NAN,
    ];
    for a in values {
        for b in values {
            assert_eq!(at_least(a.to_bits(), b.to_bits()), a >= b, "{a} >= {b}");
        }
    }
}

fn score(subject: &str, value: f64) -> ScoreRow {
    ScoreRow {
        agent_id: "a".into(),
        subject: subject.into(),
        model: "m".into(),
        score_bits: value.to_bits(),
        ts_ns: 1,
    }
}

fn alert(id: u128, severity: &str, ts_ns: u64) -> AlertRow {
    AlertRow {
        id: uuid::Uuid::from_u128(id).to_string(),
        agent_id: if id % 2 == 0 { "even" } else { "odd" }.into(),
        severity: severity.into(),
        title: "t".into(),
        detail: "d".into(),
        subject: None,
        ts_ns,
        acknowledged: false,
    }
}

#[test]
fn listings_filter_and_cap() {
    let rows = vec![score("s1", 10.0), score("s2", 50.0), score("s2", 90.0)];
    let q = |subject: Option<&str>, min: Option<f64>, limit: Option<usize>| ScoreQuery {
        subject: subject.map(|s| s.to_string()),
        min_score_bits: min.map(|m| m.to_bits()),
        limit,
    };
    assert_eq!(filter_scores(&rows, &q(None, None, None)).len(), 3);
    assert_eq!(filter_scores(&rows, &q(Some("s2"), None, None)).len(), 2);
    let high = filter_scores(&rows, &q(None, Some(50.0), None));
    assert_eq!(high.len(), 2);
    assert_eq!(high[0].subject, "s2");
    assert_eq!(filter_scores(&rows, &q(None, Some(50.0), Some(1))).len(), 1);

    let det = |verdict: &str, c: f64| DetectionRow {
        agent_id: "a".into(),
        subject: "s".into(),
        verdict: verdict.into(),
        confidence_bits: c.to_bits(),
        model: "m".into(),
        reasons: vec!["r".into()],
        ts_ns: 1,
    };
    let dets = vec![det("agent", 0.9), det("human", 0.8), det("agent", 0.3)];
    let kept = filter_detections(
        &dets,
        &DetectionQuery {
            verdict: Some("agent".into()),
            min_confidence_bits: Some(0.5f64.to_bits()),
            limit: None,
        },
    );
    assert_eq!(kept.len(), 1);
    assert_eq!(kept[0].reasons, vec!["r".to_string()]);

    let window = vec![alert(2, "high", 30), alert(1, "low", 20), alert(4, "high", 10)];
    let base = AlertQuery {
        severity: None,
        acknowledged: None,
        agent_id: None,
        since_ns: None,
        limit: None,
    };
    let ids = |q: &AlertQuery| {
        filter_alerts(&window, q)
            .iter()
            .map(|a| a.ts_ns)
            .collect::<Vec<_>>()
    };
    assert_eq!(ids(&base), vec![30, 20, 10]);
    assert_eq!(
        ids(&AlertQuery { severity: Some("high".into()), ..base.clone() }),
        vec![30, 10]
    );
    assert_eq!(ids(&AlertQuery { since_ns: Some(20), ..base.clone() }), vec![30, 20]);
    assert_eq!(
        ids(&AlertQuery { agent_id: Some("odd".into()), ..base.clone() }),
        vec![20]
    );
    assert_eq!(
        ids(&AlertQuery { acknowledged: Some(true), ..base.clone() }),
        Vec::<u64>::new()
    );
    assert_eq!(ids(&AlertQuery { limit: Some(1), ..base }), vec![30]);
}

#[test]
fn api_over_the_store() {
    let (_d, mut store) = open_tmp();
    assert!(list_agents(&store).unwrap().is_empty());
    match get_agent(&store, "x") {
        Err(e) => {
            assert_eq!(e.status(), 404);
            assert_eq!(e.message(), "agent not found");
        }
        Ok(_) => panic!("no such agent"),
    }
    store.upsert_score(&score("s1", 10.0)).unwrap();
    let all = ScoreQuery { subject: None, min_score_bits: None, limit: None };
    assert_eq!(list_scores(&store, &all).unwrap().len(), 1);
    let dets = DetectionQuery { verdict: None, min_confidence_bits: None, limit: None };
    assert!(list_detections(&store, &dets).unwrap().is_empty());

    for i in 0..3u128 {
        store.append_alert(&alert(i, "high", 100 + i as u64)).unwrap();
    }
    let q = AlertQuery {
        severity: None,
        acknowledged: Some(false),
        agent_id: None,
        since_ns: None,
        limit: Some(2),
    };
    let listed = list_alerts(&store, &q).unwrap();
    assert_eq!(listed.iter().map(|a| a.ts_ns).collect::<Vec<_>>(), vec![102, 101]);
    ack_alert(&mut store, &listed[0].id).unwrap();
    assert_eq!(list_alerts(&store, &q).unwrap()[0].ts_ns, 101);
    assert_eq!(ack_alert(&mut store, "nope").unwrap_err().status(), 404);

    let ev = Event::new("a", "p", EventPayload::Heartbeat { uptime_s: 1 });
    store.write_event(&ev, b"{}".to_vec()).unwrap();
    let page = EventQuery { page: None, page_size: None };
    assert_eq!(events_for_agent(&store, "a", &page).unwrap().len(), 1);
    assert_eq!(page_size(&page), 50);
    assert_eq!(page_size(&EventQuery { page: None, page_size: Some(9_999) }), 500);
    assert_eq!(page_size(&EventQuery { page: None, page_size: Some(7) }), 7);

    let (token, _) = create_token(&mut store, "l").unwrap();
    revoke_token(&mut store, &token).unwrap();
    let e = revoke_token(&mut store, &token).unwrap_err();
    assert_eq!(e.status(), 409);
    assert_eq!(e.message(), "token is unknown or already used");
    let e = create_token(&mut store, &"x".repeat(257)).unwrap_err();
    assert_eq!(e.status(), 400);
    assert_eq!(e.message(), "label too long (max 256 bytes)");
}

#[test]
fn api_errors_and_records() {
    let e = ApiError::from_router(RouterError::ChannelFull);
    assert_eq!(e.status(), 503);
    assert_eq!(e.message(), "agent command channel is full");
    let e = ApiError::from_router(RouterError::NotConnected);
    assert_eq!(e.status(), 404);
    assert_eq!(e.message(), "agent is not connected");
    let e = ApiError::Internal(StoreError::Corrupt);
    assert_eq!(e.status(), 500);
    assert_eq!(e.message(), "internal server error");

    let record = AgentRecord::from_row(AgentRow {
        agent_id: "a".into(),
        hostname: "h".into(),
        os: "o".into(),
        pubkey: [0xab; 32],
        enrolled_at_ns: 1,
        last_seen_ns: 2,
    });
    assert_eq!(record.pubkey_hex, "ab".repeat(32));
    let record = EventRecord::from_row(EventRow {
        id: [0x11; 16],
        ts_ns: 1,
        agent_id: "a".into(),
        source: "s".into(),
        kind: "k".into(),
        payload_json: b"{}".to_vec(),
    });
    assert_eq!(record.id, "11111111-1111-1111-1111-111111111111");
    assert_eq!(record.payload_json, b"{}");
    // What is no JSON is shown as null.
    let record = EventRecord::from_row(EventRow {
        id: [0x11; 16],
        ts_ns: 1,
        agent_id: "a".into(),
        source: "s".into(),
        kind: "k".into(),
        payload_json: b"{".to_vec(),
    });
    assert_eq!(record.payload_json, b"null");
    let record = TokenRecord::from_row(
        "t".into(),
        TokenRow { created_at_ns: 3, label: "l".into(), used: true },
    );
    assert!(record.used);
    assert!(is_loopback_address("127.0.0.1:8080"));
    assert!(!is_loopback_address("0.0.0.0:8080"));
    assert_eq!(security_headers()[1].value, "DENY");
}
