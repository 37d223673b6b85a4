use aegis::dedup::{id_number, DedupWindow, DEDUP_CAPACITY, DEDUP_EVICTED};
use aegis::enroll::{create_token, nonce_from_challenge};
use aegis::event::{Event, EventPayload, Severity, Verdict};
use aegis::ingest::{
    admits_connection, coerce_pubkey, is_ingestible, on_challenge_reply, on_first_frame,
    on_first_frame_with, route_frame, FirstStep, ProofStep, Route, Session, MAX_CONNECTIONS,
};
use aegis::live::LiveEvent;
use aegis::plugin::PluginKind;
use aegis::proto::{
    encode_frame, FrameError, FrameReader, Message, ReadStep, ServerCommand, MAX_FRAME_BYTES,
    PROTO_VERSION, READ_CHUNK_BYTES,
};
use aegis::sink::{self, Persisted};
use aegis::store::Store;
use aegis::tls::auth_challenge_digest;
use base64::Engine;
use ed25519_dalek::{Signer, SigningKey};
use tempfile::TempDir;
use uuid::Uuid;

fn open_tmp() -> (TempDir, Store) {
    let dir = TempDir::new().expect("tempdir");
    let store = Store::open(dir.path().to_str().unwrap()).expect("open store");
    (dir, store)
}

#[test]
fn ingestible_kinds_allow_raw_reject_derived() {
    for k in [
        "input.keystroke",
        "command.observed",
        "session.start",
        "session.end",
        "process.exec",
        "heartbeat",
    ] {
        assert!(is_ingestible(k), "{k} should be ingestible");
    }
    for k in ["score", "detection", "alert", "custom"] {
        assert!(!is_ingestible(k), "{k} must not be ingestible");
    }
    // The typed payloads map to the expected allow/deny outcome.
    assert!(is_ingestible(
        EventPayload::Heartbeat { uptime_s: 1 }.default_kind()
    ));
    assert!(!is_ingestible(
        EventPayload::Alert {
            severity: Severity::High,
            title: "t".into(),
            detail: "d".into(),
            subject: None,
        }
        .default_kind()
    ));
}

#[test]
fn coerce_pubkey_checks_length() {
    assert_eq!(coerce_pubkey(&[7u8; 32]), Some([7u8; 32]));
    assert_eq!(coerce_pubkey(&[7u8; 31]), None);
    assert_eq!(coerce_pubkey(&[7u8; 33]), None);
    assert_eq!(coerce_pubkey(&[]), None);
}

#[test]
fn dedup_set_collapses_repeat_ids() {
    let mut seen = DedupWindow::new();
    let id = id_number(Uuid::new_v4().as_bytes());
    assert!(seen.insert(id));
    assert!(!seen.insert(id), "second insert of same id is a dup");
}

#[test]
fn full_window_forgets_its_oldest_quarter() {
    let mut seen = DedupWindow::new();
    for n in 0..DEDUP_CAPACITY as u128 {
        assert!(seen.insert(n));
    }
    assert_eq!(seen.len(), DEDUP_CAPACITY);
    // The arrival that finds the window full makes room first.
    assert!(seen.insert(u128::MAX));
    assert_eq!(seen.len(), DEDUP_CAPACITY - DEDUP_EVICTED + 1);
    // The most recent three quarters are remembered, the oldest are not.
    assert!(!seen.insert(DEDUP_EVICTED as u128));
    assert!(!seen.insert(DEDUP_CAPACITY as u128 - 1));
    assert!(seen.insert(DEDUP_EVICTED as u128 - 1));
}

#[test]
fn id_numbers_are_big_endian() {
    let id = Uuid::new_v4();
    assert_eq!(id_number(id.as_bytes()), id.as_u128());
    assert_eq!(id_number(&[0xff; 16]), u128::MAX);
}

#[test]
fn connection_cap() {
    assert!(admits_connection(MAX_CONNECTIONS - 1));
    assert!(!admits_connection(MAX_CONNECTIONS));
}

fn hello(version: u16, agent_id: &str, key: &[u8]) -> Message {
    Message::ClientHello {
        proto_version: version,
        agent_id: agent_id.to_string(),
        hostname: "h".into(),
        os: "o".into(),
        agent_pubkey: key.to_vec(),
    }
}

fn refusal(step: FirstStep) -> String {
    match step {
        FirstStep::Reply(Message::ServerHello {
            proto_version,
            accepted,
            reason,
        }) => {
            assert_eq!(proto_version, PROTO_VERSION);
            assert!(!accepted);
            reason.unwrap()
        }
        other => panic!("expected a refusal, got {other:?}"),
    }
}

fn enroll_over_the_wire(store: &mut Store, key: &[u8; 32]) -> String {
    let (token, _) = create_token(store, "t").unwrap();
    let step = on_first_frame(
        store,
        &Message::EnrollRequest {
            token,
            hostname: "host".into(),
            os: "Linux".into(),
            agent_pubkey: key.to_vec(),
        },
    );
    match step {
        FirstStep::Reply(Message::EnrollResponse {
            accepted: true,
            agent_id,
            reason: None,
        }) => agent_id,
        other => panic!("expected an enrollment, got {other:?}"),
    }
}

#[test]
fn first_frame_refusals() {
    let (_d, mut store) = open_tmp();
    let key = [5u8; 32];
    let agent_id = enroll_over_the_wire(&mut store, &key);

    assert_eq!(
        refusal(on_first_frame(&mut store, &hello(2, &agent_id, &key))),
        "unsupported proto_version 2"
    );
    assert_eq!(
        refusal(on_first_frame(&mut store, &hello(1, "ghost", &key))),
        "unknown agent"
    );
    assert_eq!(
        refusal(on_first_frame(&mut store, &hello(1, &agent_id, &[6u8; 32]))),
        "pubkey mismatch"
    );
    assert_eq!(
        refusal(on_first_frame(&mut store, &hello(1, &agent_id, &[5u8; 31]))),
        "pubkey mismatch"
    );
    assert!(matches!(
        on_first_frame(&mut store, &Message::Ping),
        FirstStep::Close
    ));

    // Enrollment refusals carry their reason and no identity.
    for (token, key, want) in [
        ("nope", vec![1u8; 32], "unknown or invalid enrollment token"),
        ("nope", vec![1u8; 3], "agent_pubkey must be 32 bytes"),
    ] {
        let step = on_first_frame(
            &mut store,
            &Message::EnrollRequest {
                token: token.into(),
                hostname: "h".into(),
                os: "o".into(),
                agent_pubkey: key,
            },
        );
        match step {
            FirstStep::Reply(Message::EnrollResponse {
                accepted: false,
                agent_id,
                reason: Some(reason),
            }) => {
                assert_eq!(agent_id, "");
                assert_eq!(reason, want);
            }
            other => panic!("expected a refusal, got {other:?}"),
        }
    }
}

fn open_session(store: &mut Store) -> Session {
    let signing = SigningKey::generate(&mut rand::rngs::OsRng);
    let key = signing.verifying_key().to_bytes();
    let agent_id = enroll_over_the_wire(store, &key);
    let challenge_id = [8u8; 16];
    let step = on_first_frame_with(store, &hello(1, &agent_id, &key), 0, &[0; 16], &challenge_id);
    let pending = match step {
        FirstStep::Challenge(p) => p,
        other => panic!("expected a challenge, got {other:?}"),
    };
    match pending.challenge_message() {
        Message::Command { id, command } => {
            assert_eq!(id, challenge_id);
            assert_eq!(command, ServerCommand::Noop);
        }
        other => panic!("expected a command, got {other:?}"),
    }
    let pin = [1u8; 32];
    let exporter = [2u8; 32];
    let digest = auth_challenge_digest(
        &pin,
        &agent_id,
        &nonce_from_challenge(&challenge_id),
        &exporter,
    );
    let sig = base64::engine::general_purpose::STANDARD.encode(signing.sign(&digest).to_bytes());
    let reply = Message::CommandResult {
        id: challenge_id,
        ok: true,
        detail: Some(sig),
    };
    match on_challenge_reply(pending, &reply, &pin, &exporter) {
        ProofStep::Accept(
            Message::ServerHello {
                accepted: true,
                reason: None,
                ..
            },
            session,
        ) => {
            assert_eq!(session.agent_id(), agent_id);
            session
        }
        _ => panic!("expected an accepted session"),
    }
}

#[test]
fn challenge_replies_are_judged() {
    let (_d, mut store) = open_tmp();
    let key = [5u8; 32];
    let agent_id = enroll_over_the_wire(&mut store, &key);
    let id = [8u8; 16];
    for (reply, want) in [
        (Message::Ping, "malformed challenge response"),
        (
            Message::CommandResult {
                id: [9u8; 16],
                ok: true,
                detail: Some("x".into()),
            },
            "malformed challenge response",
        ),
        (
            Message::CommandResult {
                id,
                ok: false,
                detail: Some("x".into()),
            },
            "malformed challenge response",
        ),
        (
            Message::CommandResult {
                id,
                ok: true,
                detail: None,
            },
            "malformed challenge response",
        ),
        (
            Message::CommandResult {
                id,
                ok: true,
                detail: Some("bogus".into()),
            },
            "authentication failed",
        ),
    ] {
        let step =
            on_first_frame_with(&mut store, &hello(1, &agent_id, &key), 0, &[0; 16], &id);
        let pending = match step {
            FirstStep::Challenge(p) => p,
            other => panic!("expected a challenge, got {other:?}"),
        };
        match on_challenge_reply(pending, &reply, &[0; 32], &[0; 32]) {
            ProofStep::Reject(Message::ServerHello {
                accepted: false,
                reason: Some(reason),
                ..
            }) => assert_eq!(reason, want),
            _ => panic!("expected a rejection"),
        }
    }
}

#[test]
fn batch_admits_raw_events_once_under_the_sessions_identity() {
    let (_d, mut store) = open_tmp();
    let mut session = open_session(&mut store);
    let me = session.agent_id().to_string();

    let raw = Event::new("someone-else", "plugin-tty", EventPayload::Heartbeat { uptime_s: 1 });
    let forged = Event::new(
        "someone-else",
        "x",
        EventPayload::Score {
            subject: "s".into(),
            model: "m".into(),
            score_bits: 0,
            features: vec![],
        },
    );
    let batch = vec![
        (raw.clone(), Some(b"{}".to_vec())),
        (raw.clone(), Some(b"{}".to_vec())),
        (forged, Some(b"{}".to_vec())),
        (
            Event::new("a", "x", EventPayload::SessionEnd { session_id: "s".into() }),
            Some(b"{}".to_vec()),
        ),
    ];
    let (emit, ack) = session.on_batch(&mut store, &[3u8; 16], batch);
    assert_eq!(emit.len(), 2);
    assert_eq!(emit[0].id, raw.id);
    assert_eq!(emit[1].kind, "session.end");
    assert!(emit.iter().all(|e| e.agent_id == me));
    assert!(matches!(
        ack,
        Message::BatchAck { batch_id, accepted: 2 } if batch_id == [3u8; 16]
    ));
    // What was emitted is in the audit log, under the session's identity.
    let log = store.events_for_agent(&me, 0, 10).unwrap();
    assert_eq!(log.len(), 2);
    assert!(store.events_for_agent("someone-else", 0, 10).unwrap().is_empty());
    // Liveness was refreshed.
    assert!(store.agent(&me).unwrap().unwrap().last_seen_ns > 0);

    // A retransmission is dropped.
    let (emit, _) = session.on_batch(&mut store, &[4u8; 16], vec![(raw, Some(b"{}".to_vec()))]);
    assert!(emit.is_empty());
    assert_eq!(store.events_for_agent(&me, 0, 10).unwrap().len(), 2);

    // An event without JSON is seen, but neither stored nor emitted.
    let odd = Event::new("a", "x", EventPayload::SessionEnd { session_id: "t".into() });
    let (emit, _) = session.on_batch(&mut store, &[5u8; 16], vec![(odd.clone(), None)]);
    assert!(emit.is_empty());
    let (emit, _) = session.on_batch(&mut store, &[6u8; 16], vec![(odd, Some(b"{}".to_vec()))]);
    assert!(emit.is_empty());
    assert_eq!(store.events_for_agent(&me, 0, 10).unwrap().len(), 2);
}

#[test]
fn frames_of_an_open_session_are_routed() {
    assert!(matches!(route_frame(&Message::Ping), Route::Reply(Message::Pong)));
    assert!(matches!(route_frame(&Message::Pong), Route::Ignore));
    assert!(matches!(
        route_frame(&Message::EventBatch {
            batch_id: [0; 16],
            events: vec![]
        }),
        Route::Batch
    ));
    assert!(matches!(route_frame(&hello(1, "a", &[])), Route::Ignore));
}

#[test]
fn metadata_and_subscriptions_are_correct() {
    let md = sink::metadata();
    assert_eq!(md.name, "store-sink");
    assert_eq!(md.kind, PluginKind::Sink);

    // Subscribes to exactly the derived kinds + heartbeat; not raw kinds.
    let subs = sink::subscriptions();
    for k in ["score", "detection", "alert", "heartbeat"] {
        assert!(subs.matches(k), "{k} should be subscribed");
    }
    for k in [
        "input.keystroke",
        "command.observed",
        "session.start",
        "session.end",
        "process.exec",
        "custom",
    ] {
        assert!(
            !subs.matches(k),
            "{k} must NOT be subscribed (ingest writes raw)"
        );
    }
}

#[test]
fn sink_persists_and_publishes() {
    let (_d, mut store) = open_tmp();
    let agent_id = enroll_over_the_wire(&mut store, &[1u8; 32]);

    let det = Event::new(
        &agent_id,
        "p",
        EventPayload::Detection {
            subject: "s1".into(),
            verdict: Verdict::Agent,
            confidence_bits: 0.9f64.to_bits(),
            model: "m".into(),
            reasons: vec!["fast".into()],
            features: vec![],
        },
    );
    match sink::handle(&mut store, &det, b"{}".to_vec()).unwrap() {
        Persisted::Publish(live) => {
            assert_eq!(live.name(), "detection");
            match live {
                LiveEvent::Detection { verdict, subject, .. } => {
                    assert_eq!(verdict, "agent");
                    assert_eq!(subject, "s1");
                }
                other => panic!("unexpected: {other:?}"),
            }
        }
        other => panic!("unexpected: {other:?}"),
    }
    assert!(store.detection(&agent_id, "s1").unwrap().is_some());

    let score = Event::new(
        &agent_id,
        "p",
        EventPayload::Score {
            subject: "s1".into(),
            model: "m".into(),
            score_bits: 70.0f64.to_bits(),
            features: vec![],
        },
    );
    assert!(matches!(
        sink::handle(&mut store, &score, b"{}".to_vec()).unwrap(),
        Persisted::Publish(LiveEvent::Score { .. })
    ));
    assert!(store.score(&agent_id, "s1").unwrap().is_some());

    let alert = Event::new(
        &agent_id,
        "p",
        EventPayload::Alert {
            severity: Severity::Critical,
            title: "boom".into(),
            detail: "d".into(),
            subject: None,
        },
    );
    assert!(matches!(
        sink::handle_as(&mut store, &alert, b"{}".to_vec(), &[7u8; 16]).unwrap(),
        Persisted::Publish(LiveEvent::Alert { .. })
    ));
    let alerts = store.alerts_recent(5).unwrap();
    assert_eq!(alerts[0].severity, "critical");
    assert_eq!(alerts[0].id, "07070707-0707-0707-0707-070707070707");

    let mut beat = Event::new(&agent_id, "p", EventPayload::Heartbeat { uptime_s: 1 });
    beat.ts_ns = 77;
    match sink::handle(&mut store, &beat, b"{}".to_vec()).unwrap() {
        Persisted::Publish(LiveEvent::AgentSeen { hostname, ts_ns, .. }) => {
            assert_eq!(hostname.as_deref(), Some("host"));
            assert_eq!(ts_ns, 77);
        }
        other => panic!("unexpected: {other:?}"),
    }
    assert_eq!(store.agent(&agent_id).unwrap().unwrap().last_seen_ns, 77);
    // A heartbeat of an unknown agent is published without a hostname.
    let stranger = Event::new("ghost", "p", EventPayload::Heartbeat { uptime_s: 1 });
    assert!(matches!(
        sink::handle(&mut store, &stranger, b"{}".to_vec()).unwrap(),
        Persisted::Publish(LiveEvent::AgentSeen { hostname: None, .. })
    ));

    // A kind without its payload, and an unexpected kind, are logged only.
    let odd = Event::new("ghost", "p", EventPayload::Heartbeat { uptime_s: 1 }).with_kind("score");
    assert!(matches!(
        sink::handle(&mut store, &odd, b"{}".to_vec()).unwrap(),
        Persisted::PayloadMismatch
    ));
    let other = Event::new("ghost", "p", EventPayload::Custom("{}".into()));
    assert!(matches!(
        sink::handle(&mut store, &other, b"{}".to_vec()).unwrap(),
        Persisted::Unexpected
    ));
    assert_eq!(store.events_for_agent("ghost", 0, 10).unwrap().len(), 3);
}

/// Drives a reader over a byte stream, at most `step` bytes a read. Gives the
/// body and how much of the stream was consumed.
fn read_frame(stream: &[u8], step: usize) -> Result<(Vec<u8>, usize), FrameError> {
    let mut reader = FrameReader::new();
    let mut at = 0;
    loop {
        match reader.next_step() {
            ReadStep::Read(n) => {
                assert!(n > 0 && n <= READ_CHUNK_BYTES);
                let end = stream.len().min(at + n.min(step));
                reader.feed(&stream[at..end])?;
                at = end;
            }
            ReadStep::Done => return Ok((reader.into_body(), at)),
            ReadStep::TooLarge(len) => return Err(FrameError::TooLarge(len)),
        }
    }
}

#[test]
fn prop_two_frames_no_bleed() {
    let bodies: Vec<Vec<u8>> = vec![
        vec![],
        b"{}".to_vec(),
        vec![0xff; 300],
        vec![7; READ_CHUNK_BYTES],
        vec![8; READ_CHUNK_BYTES + 1],
    ];
    for a in &bodies {
        for b in &bodies {
            let mut stream = encode_frame(a).unwrap();
            stream.extend(encode_frame(b).unwrap());
            for step in [1usize, 3, 1 << 20] {
                if step == 1 && stream.len() > 1_000 {
                    continue;
                }
                let (one, used) = read_frame(&stream, step).unwrap();
                assert_eq!(&one, a);
                assert_eq!(used, 4 + a.len());
                let (two, used) = read_frame(&stream[used..], step).unwrap();
                assert_eq!(&two, b);
                assert_eq!(used, 4 + b.len());
            }
        }
    }
}

#[test]
fn prop_truncated_frame_is_closed_or_io() {
    let full = encode_frame(br#"{"msg":"ping"}"#).unwrap();
    for keep in 0..full.len() {
        assert_eq!(read_frame(&full[..keep], 5).unwrap_err(), FrameError::Closed);
    }
}

#[test]
fn prop_random_body_never_panics() {
    let mut seed = 1u32;
    for len in [0usize, 1, 2, 17, 255, 256, 4095] {
        let body: Vec<u8> = (0..len)
            .map(|_| {
                seed = seed.wrapping_mul(1_664_525).wrapping_add(1_013_904_223);
                (seed >> 24) as u8
            })
            .collect();
        let (got, _) = read_frame(&encode_frame(&body).unwrap(), 64).unwrap();
        assert_eq!(got, body);
    }
}

#[test]
fn oversized_frames_are_refused() {
    assert_eq!(
        read_frame(&[0xff; 4], 4).unwrap_err(),
        FrameError::TooLarge(u32::MAX as usize)
    );
    assert_eq!(
        encode_frame(&vec![0u8; MAX_FRAME_BYTES + 1]).unwrap_err(),
        FrameError::TooLarge(MAX_FRAME_BYTES + 1)
    );
    let mut header = FrameReader::new();
    header.feed(&(MAX_FRAME_BYTES as u32).to_be_bytes()).unwrap();
    // A large announcement asks for one bounded chunk at a time.
    assert_eq!(header.next_step(), ReadStep::Read(READ_CHUNK_BYTES));
    assert_eq!(encode_frame(b"ab").unwrap(), vec![0, 0, 0, 2, b'a', b'b']);
}
