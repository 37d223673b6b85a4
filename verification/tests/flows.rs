use aegis::api::{self, AgentRecord, AlertQuery, ApiError, EventQuery, EventRecord, ScoreQuery};
use aegis::cli::{
    agent_table, alert_lines, alert_table, alerts_path, create_body, created_text,
    detection_lines, detections_path, pretty_body, revocation_json, score_table, scores_path, status_json, status_text, token_path,
    token_table, verdict_table, ReplyError, Revocation,
};
use aegis::dashboard::{static_handler, Served};
use aegis::enroll::{
    create_token, enroll, enroll_outcome, list_tokens, new_token, nonce_from_challenge,
    EnrollOutcome, TokenError,
};
use aegis::event::{Event, EventPayload, Severity, Verdict};
use aegis::http::Response;
use aegis::ingest::{
    answer_hello, emit_if_stored, on_challenge_reply, on_first_frame, FirstStep, ProofStep, Session,
};
use aegis::live::LiveEvent;
use aegis::proto::{
    encode_frame, FrameError, FrameReader, Message, ReadStep, ServerCommand, MAX_FRAME_BYTES,
    PROTO_VERSION, READ_CHUNK_BYTES,
};
use aegis::registry::{send_outcome, Enqueue, Router, RouterError};
use aegis::rows::{AgentRow, AlertRow, ScoreRow, TokenRow};
use aegis::sink::{self, Persisted};
use aegis::store::{
    agent_reply, finished, index_reply, may_revoke, oldest_alert, read_agents, read_page,
    read_tokens, refreshed, retention_cutoff, token_reply, EnrollReject, Store, StoreError,
};
use aegis::tls::auth_challenge_digest;
use base64::Engine;
use ed25519_dalek::{Signer, SigningKey};
use tempfile::TempDir;
use uuid::Uuid;

fn open_tmp() -> (TempDir, Store) {
    let dir = TempDir::new().expect("tempdir");
    let store = Store::open(dir.path().to_str().unwrap()).expect("open store");
    (dir, store)
}

fn enrolled(store: &mut Store, hostname: &str, key: [u8; 32]) -> String {
    let (token, _) = create_token(store, "host").unwrap();
    match enroll(store, &token, hostname, "Linux", key).unwrap() {
        EnrollOutcome::Accepted { agent_id } => agent_id,
        other => panic!("enroll failed: {other:?}"),
    }
}

// --- Framing ---------------------------------------------------------------

/// Reads one frame off a byte stream, at most `step` bytes at a time. Gives the
/// outcome, the bytes consumed and the largest read that was asked for.
fn read_frame(stream: &[u8], step: usize) -> (Result<Vec<u8>, FrameError>, usize, usize) {
    let mut reader = FrameReader::new();
    let mut at = 0;
    let mut largest = 0;
    loop {
        match reader.next_step() {
            ReadStep::Read(n) => {
                largest = largest.max(n);
                let end = stream.len().min(at + n.min(step));
                if let Err(e) = reader.feed(&stream[at..end]) {
                    return (Err(e), at, largest);
                }
                at = end;
            }
            ReadStep::Done => return (Ok(reader.into_body()), at, largest),
            ReadStep::TooLarge(len) => return (Err(FrameError::TooLarge(len)), at, largest),
        }
    }
}

#[test]
fn empty_stream_is_closed() {
    assert_eq!(read_frame(&[], 64).0, Err(FrameError::Closed));
}

#[test]
fn partial_length_prefix_is_closed() {
    for n in 1..4usize {
        assert_eq!(read_frame(&vec![0u8; n], 64).0, Err(FrameError::Closed));
    }
}

#[test]
fn header_only_no_body_is_closed() {
    assert_eq!(
        read_frame(&50u32.to_be_bytes(), 64).0,
        Err(FrameError::Closed)
    );
}

#[test]
fn partial_body_then_eof_is_closed() {
    let mut stream = (1024u32 * 1024).to_be_bytes().to_vec();
    stream.extend_from_slice(b"abc");
    assert_eq!(read_frame(&stream, 64).0, Err(FrameError::Closed));
}

#[test]
fn read_message_short_body_then_eof_is_closed() {
    // Announce a 1 MiB body but provide only 3 bytes, then EOF.
    let announced: u32 = 1024 * 1024;
    let mut stream = announced.to_be_bytes().to_vec();
    stream.extend_from_slice(b"abc");
    assert_eq!(read_frame(&stream, 1 << 20).0, Err(FrameError::Closed));
}

#[test]
fn read_message_oversized_length_is_rejected() {
    let announced: u32 = (MAX_FRAME_BYTES as u32).saturating_add(1);
    assert!(matches!(
        read_frame(&announced.to_be_bytes(), 64).0,
        Err(FrameError::TooLarge(_))
    ));
}

#[test]
fn oversized_prefix_rejected_without_large_read() {
    let announced: u32 = (MAX_FRAME_BYTES as u32).saturating_add(1);
    let (res, consumed, largest) = read_frame(&announced.to_be_bytes(), 64);
    assert_eq!(res, Err(FrameError::TooLarge(announced as usize)));
    assert!(largest <= 4);
    assert_eq!(consumed, 4);
}

#[test]
fn u32_max_prefix_is_frame_too_large() {
    let (res, _, largest) = read_frame(&u32::MAX.to_be_bytes(), 64);
    assert_eq!(res, Err(FrameError::TooLarge(u32::MAX as usize)));
    assert!(largest <= 4);
}

#[test]
fn announce_max_send_nothing_is_closed() {
    let (res, _, largest) = read_frame(&(MAX_FRAME_BYTES as u32).to_be_bytes(), 64);
    assert_eq!(res, Err(FrameError::Closed));
    assert!(largest <= READ_CHUNK_BYTES);
}

#[test]
fn trickled_body_one_byte_per_poll_roundtrips() {
    let body = br#"{"msg":"command","command":{"cmd":"isolate","reason":"trickle-test"}}"#;
    let framed = encode_frame(body).unwrap();
    assert_eq!(read_frame(&framed, 1).0.unwrap(), body);
}

#[test]
fn body_split_on_chunk_boundaries_roundtrips() {
    let body: Vec<u8> = (0..5 * READ_CHUNK_BYTES + 17).map(|i| i as u8).collect();
    let framed = encode_frame(&body).unwrap();
    for step in [READ_CHUNK_BYTES - 1, READ_CHUNK_BYTES, READ_CHUNK_BYTES + 1] {
        let (res, consumed, _) = read_frame(&framed, step);
        assert_eq!(res.unwrap(), body);
        assert_eq!(consumed, framed.len());
    }
}

#[test]
fn read_message_large_legit_frame_roundtrips() {
    let body = vec![b'x'; 4 * READ_CHUNK_BYTES + 1];
    let framed = encode_frame(&body).unwrap();
    assert_eq!(read_frame(&framed, 1 << 20).0.unwrap(), body);
}

#[test]
fn write_side_rejects_oversized_frame() {
    let huge = vec![b'x'; MAX_FRAME_BYTES + 1024];
    assert_eq!(
        encode_frame(&huge).unwrap_err(),
        FrameError::TooLarge(MAX_FRAME_BYTES + 1024)
    );
}

#[test]
fn valid_frame_then_trailing_garbage() {
    let mut stream = encode_frame(br#"{"msg":"ping"}"#).unwrap();
    let first_frame_len = stream.len();
    stream.extend_from_slice(&[0xDE, 0xAD, 0xBE, 0xEF, 0x00, 0x01, 0x02]);
    let (res, consumed, _) = read_frame(&stream, 1 << 20);
    assert_eq!(res.unwrap(), br#"{"msg":"ping"}"#);
    assert_eq!(consumed, first_frame_len);
    assert!(read_frame(&stream[consumed..], 64).0.is_err());
}

// --- Sessions ----------------------------------------------------------------

fn authenticate(
    store: &mut Store,
    agent_id: &str,
    signing_key: &SigningKey,
    pin: &[u8; 32],
    exporter: &[u8; 32],
) -> Session {
    let hello = Message::ClientHello {
        proto_version: PROTO_VERSION,
        agent_id: agent_id.to_string(),
        hostname: "host".into(),
        os: "Linux".into(),
        agent_pubkey: signing_key.verifying_key().to_bytes().to_vec(),
    };
    let pending = match on_first_frame(store, &hello) {
        FirstStep::Challenge(pending) => pending,
        other => panic!("expected a challenge, got {other:?}"),
    };
    let challenge_id = match pending.challenge_message() {
        Message::Command {
            id,
            command: ServerCommand::Noop,
        } => id,
        other => panic!("expected Noop challenge, got {other:?}"),
    };
    let nonce = nonce_from_challenge(&challenge_id);
    let digest = auth_challenge_digest(pin, agent_id, &nonce, exporter);
    let sig =
        base64::engine::general_purpose::STANDARD.encode(signing_key.sign(&digest).to_bytes());
    let reply = Message::CommandResult {
        id: challenge_id,
        ok: true,
        detail: Some(sig),
    };
    match on_challenge_reply(pending, &reply, pin, exporter) {
        ProofStep::Accept(Message::ServerHello { accepted: true, .. }, session) => session,
        _ => panic!("expected ServerHello accepted"),
    }
}

#[test]
fn end_to_end_session_persists_and_emits() {
    let (_dir, mut store) = open_tmp();
    let signing_key = SigningKey::generate(&mut rand::rngs::OsRng);
    let agent_id = enrolled(&mut store, "host", signing_key.verifying_key().to_bytes());
    let mut session = authenticate(&mut store, &agent_id, &signing_key, &[4; 32], &[5; 32]);
    session.touch(&mut store, 123).unwrap();
    assert_eq!(store.agent(&agent_id).unwrap().unwrap().last_seen_ns, 123);

    let mut valid = Event::new(
        "SPOOFED-AGENT", // must be overwritten
        "plugin-tty",
        EventPayload::Keystroke {
            session_id: "s1".into(),
            inter_arrival_ns: 1_000_000,
            is_paste: false,
            burst_len: 1,
        },
    );
    valid.ts_ns = 5_000;
    let derived = Event::new(
        "SPOOFED-AGENT",
        "plugin-x",
        EventPayload::Alert {
            severity: Severity::Critical,
            title: "forged".into(),
            detail: "should be rejected".into(),
            subject: None,
        },
    );
    let batch_id = Uuid::new_v4().into_bytes();
    let (emit, ack) = session.on_batch(
        &mut store,
        &batch_id,
        vec![(valid, Some(b"{}".to_vec())), (derived, Some(b"{}".to_vec()))],
    );
    match ack {
        Message::BatchAck {
            batch_id: got,
            accepted,
        } => {
            assert_eq!(got, batch_id);
            assert_eq!(accepted, 1, "only the raw keystroke should be accepted");
        }
        other => panic!("expected BatchAck, got {other:?}"),
    }
    let events = store.events_for_agent(&agent_id, 0, 10).unwrap();
    assert_eq!(events.len(), 1, "one raw event persisted under real agent_id");
    assert_eq!(events[0].kind, "input.keystroke");
    assert_eq!(events[0].agent_id, agent_id);
    assert!(store
        .events_for_agent("SPOOFED-AGENT", 0, 10)
        .unwrap()
        .is_empty());
    assert_eq!(emit.len(), 1, "exactly one event emitted");

    // One event at a time: a repeat and a forgery are not taken in.
    let again = Event::new("x", "p", EventPayload::Heartbeat { uptime_s: 1 });
    let taken = session.take_in(again.clone()).expect("fresh and raw");
    assert_eq!(taken.agent_id, agent_id);
    assert_eq!(taken.id, again.id);
    assert!(session.take_in(again).is_none());
    let finding = Event::new("x", "p", EventPayload::Custom("{}".into()));
    assert!(session.take_in(finding).is_none());
}

#[test]
fn unknown_agent_is_rejected() {
    let (_dir, mut store) = open_tmp();
    let hello = Message::ClientHello {
        proto_version: PROTO_VERSION,
        agent_id: "never-enrolled".into(),
        hostname: "h".into(),
        os: "o".into(),
        agent_pubkey: vec![0u8; 32],
    };
    match on_first_frame(&mut store, &hello) {
        FirstStep::Reply(Message::ServerHello {
            accepted: false,
            reason,
            ..
        }) => assert!(reason.unwrap_or_default().contains("unknown")),
        other => panic!("expected rejection, got {other:?}"),
    }
}

#[test]
fn a_failed_lookup_refuses_the_session() {
    match answer_hello(Err(StoreError::Corrupt), "a", &[0; 32], &[0; 16]) {
        FirstStep::Reply(Message::ServerHello {
            accepted: false,
            reason,
            ..
        }) => assert_eq!(reason.as_deref(), Some("internal error")),
        other => panic!("expected rejection, got {other:?}"),
    }
}

#[test]
fn wire_enrollment_round_trip() {
    let (_dir, mut store) = open_tmp();
    let (token, _) = create_token(&mut store, "laptop").unwrap();
    let signing_key = SigningKey::generate(&mut rand::rngs::OsRng);
    let request = Message::EnrollRequest {
        token: token.clone(),
        hostname: "laptop".into(),
        os: "Linux".into(),
        agent_pubkey: signing_key.verifying_key().to_bytes().to_vec(),
    };
    let agent_id = match on_first_frame(&mut store, &request) {
        FirstStep::Reply(Message::EnrollResponse {
            accepted: true,
            agent_id,
            ..
        }) => agent_id,
        other => panic!("expected acceptance, got {other:?}"),
    };
    assert!(Uuid::parse_str(&agent_id).is_ok());
    // The agent row now exists; the token is burned.
    assert!(store.agent(&agent_id).unwrap().is_some());
    assert!(list_tokens(&store)
        .unwrap()
        .iter()
        .find(|(t, _)| *t == token)
        .map(|(_, r)| r.used)
        .unwrap());
}

#[test]
fn database_answers_are_decoded() {
    let agent = postcard::to_allocvec(&("a", "h", "o", [7u8; 32], 1u64, 2u64)).unwrap();
    let row = agent_reply(Ok(Some(agent.clone()))).unwrap().unwrap();
    assert_eq!(row.hostname, "h");
    assert_eq!(row.last_seen_ns, 2);
    assert!(agent_reply(Ok(None)).unwrap().is_none());
    assert!(matches!(
        agent_reply(Ok(Some(vec![0xff]))),
        Err(StoreError::Corrupt)
    ));
    let token = postcard::to_allocvec(&(5u64, "l", true)).unwrap();
    assert!(token_reply(Ok(Some(token.clone()))).unwrap().unwrap().used);
    assert_eq!(read_agents(&vec![("a".into(), agent)]).unwrap().len(), 1);
    assert!(read_agents(&vec![("a".into(), vec![])]).is_err());
    assert_eq!(read_tokens(&vec![("t".into(), token)]).unwrap()[0].0, "t");
}

// --- The sink ------------------------------------------------------------------

#[test]
fn handle_detection_writes_event_and_cell() {
    let (_dir, mut store) = open_tmp();
    let mut ev = Event::new(
        "agent-1",
        "plugin-agent-detect",
        EventPayload::Detection {
            subject: "tty-7".into(),
            verdict: Verdict::Agent,
            confidence_bits: 0.92f64.to_bits(),
            model: "detect/v1".into(),
            reasons: vec!["regular cadence".into()],
            features: vec![],
        },
    );
    ev.ts_ns = 10_000;
    sink::handle(&mut store, &ev, b"{}".to_vec()).unwrap();

    let det = store.detection("agent-1", "tty-7").unwrap().unwrap();
    assert_eq!(det.verdict, "agent");
    assert_eq!(f64::from_bits(det.confidence_bits), 0.92);
    let evs = store.events_for_agent("agent-1", 0, 10).unwrap();
    assert_eq!(evs.len(), 1);
    assert_eq!(evs[0].kind, "detection");
}

fn score_event() -> Event {
    Event::new(
        "agent-1",
        "plugin-scoring",
        EventPayload::Score {
            subject: "tty-7".into(),
            model: "risk/v1".into(),
            score_bits: 73.5f64.to_bits(),
            features: vec![],
        },
    )
}

#[test]
fn handle_score_writes_event_and_cell() {
    let (_dir, mut store) = open_tmp();
    sink::handle(&mut store, &score_event(), b"{}".to_vec()).unwrap();
    let score = store.score("agent-1", "tty-7").unwrap().unwrap();
    assert_eq!(f64::from_bits(score.score_bits), 73.5);
    assert_eq!(store.events_for_agent("agent-1", 0, 10).unwrap().len(), 1);
}

#[test]
fn handle_alert_appends_to_log() {
    let (_dir, mut store) = open_tmp();
    let ev = Event::new(
        "agent-1",
        "plugin-scoring",
        EventPayload::Alert {
            severity: Severity::Critical,
            title: "automation detected".into(),
            detail: "subject tty-7 looks scripted".into(),
            subject: Some("tty-7".into()),
        },
    );
    sink::handle(&mut store, &ev, b"{}".to_vec()).unwrap();
    let alerts = store.alerts_recent(10).unwrap();
    assert_eq!(alerts.len(), 1);
    assert_eq!(alerts[0].severity, "critical");
    assert_eq!(alerts[0].title, "automation detected");
    assert!(!alerts[0].acknowledged);
}

#[test]
fn handle_publishes_live_event_to_subscriber() {
    let (_dir, mut store) = open_tmp();
    match sink::handle(&mut store, &score_event(), b"{}".to_vec()).unwrap() {
        Persisted::Publish(LiveEvent::Score {
            agent_id,
            subject,
            score_bits,
            ..
        }) => {
            assert_eq!(agent_id, "agent-1");
            assert_eq!(subject, "tty-7");
            assert_eq!(f64::from_bits(score_bits), 73.5);
        }
        other => panic!("unexpected live event: {other:?}"),
    }
}

#[test]
fn handle_heartbeat_touches_agent_and_logs() {
    let (_dir, mut store) = open_tmp();
    let agent_id = enrolled(&mut store, "host", [9u8; 32]);
    let mut ev = Event::new(&agent_id, "agent", EventPayload::Heartbeat { uptime_s: 42 });
    ev.ts_ns = 555_000;
    sink::handle(&mut store, &ev, b"{}".to_vec()).unwrap();
    assert_eq!(
        store.agent(&agent_id).unwrap().unwrap().last_seen_ns,
        555_000,
        "heartbeat should refresh last_seen_ns"
    );
    assert_eq!(store.events_for_agent(&agent_id, 0, 10).unwrap().len(), 1);
}

#[test]
fn hostname_of_a_heartbeat() {
    let (_dir, mut store) = open_tmp();
    let agent_id = enrolled(&mut store, "box", [9u8; 32]);
    assert_eq!(
        sink::seen_hostname(store.agent(&agent_id)).as_deref(),
        Some("box")
    );
    assert_eq!(sink::seen_hostname(Ok(None)), None);
    assert_eq!(sink::seen_hostname(Err(StoreError::Corrupt)), None);
}

#[test]
fn publication_follows_kind_and_payload() {
    let beat = Event::new("a", "agent", EventPayload::Heartbeat { uptime_s: 1 });
    match sink::publication(&beat, Some("box".to_string())) {
        Persisted::Publish(LiveEvent::AgentSeen { agent_id, hostname, ts_ns }) => {
            assert_eq!(agent_id, "a");
            assert_eq!(hostname.as_deref(), Some("box"));
            assert_eq!(ts_ns, beat.ts_ns);
        }
        other => panic!("unexpected: {other:?}"),
    }
    let alert = Event::new(
        "a",
        "p",
        EventPayload::Alert {
            severity: Severity::High,
            title: "t".to_string(),
            detail: "d".to_string(),
            subject: None,
        },
    );
    match sink::publication(&alert, None) {
        Persisted::Publish(LiveEvent::Alert { severity, title, subject, .. }) => {
            assert_eq!(severity, "high");
            assert_eq!(title, "t");
            assert_eq!(subject, None);
        }
        other => panic!("unexpected: {other:?}"),
    }
    assert!(matches!(
        sink::publication(&beat.clone().with_kind("alert"), None),
        Persisted::PayloadMismatch
    ));
    assert!(matches!(
        sink::publication(&alert.with_kind("custom"), None),
        Persisted::Unexpected
    ));
}

#[test]
fn only_a_stored_event_is_emitted() {
    let ev = score_event();
    let id = ev.id;
    assert_eq!(emit_if_stored(ev.clone(), Ok(())).map(|e| e.id), Some(id));
    assert!(emit_if_stored(ev, Err(StoreError::Corrupt)).is_none());
}

// --- The router -----------------------------------------------------------------

/// A router over bounded queues, as its owner keeps them.
struct Queues {
    router: Router,
    queues: Vec<(Vec<ServerCommand>, usize, bool)>,
}

impl Queues {
    fn new() -> Self {
        Queues {
            router: Router::new(),
            queues: Vec::new(),
        }
    }

    fn channel(&mut self, capacity: usize) -> u64 {
        self.queues.push((Vec::new(), capacity, true));
        self.queues.len() as u64 - 1
    }

    fn send(&mut self, agent_id: &str, cmd: ServerCommand) -> Result<(), RouterError> {
        match self.router.channel(agent_id) {
            None => send_outcome(false, Enqueue::Closed),
            Some(channel) => {
                let (queue, capacity, open) = &mut self.queues[channel as usize];
                let queued = if !*open {
                    Enqueue::Closed
                } else if queue.len() == *capacity {
                    Enqueue::Full
                } else {
                    queue.push(cmd);
                    Enqueue::Queued
                };
                send_outcome(true, queued)
            }
        }
    }
}

#[test]
fn register_send_and_receive() {
    let mut q = Queues::new();
    let ch = q.channel(4);
    q.router.register("agent-1", ch);
    assert!(q.router.is_connected("agent-1"));
    assert_eq!(q.router.connected_count(), 1);
    let cmd = ServerCommand::Rescore {
        subject: "s1".into(),
    };
    q.send("agent-1", cmd.clone()).expect("send to connected agent");
    assert_eq!(q.queues[ch as usize].0, vec![cmd]);
}

#[test]
fn send_to_unknown_agent_is_not_connected() {
    let mut q = Queues::new();
    assert_eq!(
        q.send("ghost", ServerCommand::Noop),
        Err(RouterError::NotConnected)
    );
    assert!(!q.router.is_connected("ghost"));
}

#[test]
fn full_channel_reports_channel_full() {
    let mut q = Queues::new();
    let ch = q.channel(1);
    q.router.register("a", ch);
    q.send("a", ServerCommand::Noop).unwrap();
    assert_eq!(
        q.send("a", ServerCommand::Noop),
        Err(RouterError::ChannelFull)
    );
}

#[test]
fn dropped_receiver_reports_not_connected() {
    let mut q = Queues::new();
    let ch = q.channel(1);
    q.router.register("a", ch);
    q.queues[ch as usize].2 = false; // session ended; receiver gone
    assert_eq!(
        q.send("a", ServerCommand::Noop),
        Err(RouterError::NotConnected)
    );
}

#[test]
fn reconnect_replaces_sender_last_writer_wins() {
    let mut q = Queues::new();
    let old = q.channel(4);
    let new = q.channel(4);
    q.router.register("a", old);
    q.router.register("a", new);
    q.send("a", ServerCommand::Noop).unwrap();
    assert_eq!(q.queues[new as usize].0.len(), 1);
    assert!(q.queues[old as usize].0.is_empty());
}

#[test]
fn unregister_only_removes_matching_session() {
    let mut q = Queues::new();
    let old = q.channel(4);
    let new = q.channel(4);
    q.router.register("a", old);
    q.router.register("a", new);
    assert!(!q.router.unregister("a", old));
    assert!(q.router.is_connected("a"), "newer session must survive");
    assert!(q.router.unregister("a", new));
    assert!(!q.router.is_connected("a"));
}

// --- The operator API ---------------------------------------------------------------

#[test]
fn list_agents_empty_is_ok_and_empty_array() {
    let (_dir, store) = open_tmp();
    assert!(api::list_agents(&store).unwrap().is_empty());
}

#[test]
fn agents_list_exposes_pubkey_hex() {
    let (_dir, mut store) = open_tmp();
    let agent_id = enrolled(&mut store, "h", [0xABu8; 32]);
    let rows = api::list_agents(&store).unwrap();
    assert_eq!(rows.len(), 1);
    let record = AgentRecord::from_row(rows.into_iter().next().unwrap());
    assert_eq!(record.agent_id, agent_id);
    assert_eq!(record.pubkey_hex, "ab".repeat(32));
    assert_eq!(
        api::get_agent(&store, &agent_id).unwrap().pubkey_hex,
        "ab".repeat(32)
    );
}

#[test]
fn get_unknown_agent_is_404() {
    let (_dir, store) = open_tmp();
    assert_eq!(api::get_agent(&store, "nope").unwrap_err().status(), 404);
}

#[test]
fn create_then_list_then_revoke_token() {
    let (_dir, mut store) = open_tmp();
    let (token, _) = api::create_token(&mut store, "laptop-7").unwrap();
    assert_eq!(token.len(), 64, "32-byte hex token");

    let listed = list_tokens(&store).unwrap();
    assert_eq!(listed.len(), 1);
    assert_eq!(listed[0].0, token);
    assert_eq!(listed[0].1.label, "laptop-7");
    assert!(!listed[0].1.used);

    api::revoke_token(&mut store, &token).unwrap();
    let e = api::revoke_token(&mut store, &token).unwrap_err();
    assert_eq!(e.status(), 409);
}

#[test]
fn command_to_unknown_agent_is_404() {
    let mut q = Queues::new();
    let e = q.send("ghost", ServerCommand::Noop).unwrap_err();
    assert_eq!(ApiError::from_router(e).status(), 404);
}

#[test]
fn ack_unknown_alert_is_404() {
    let (_dir, mut store) = open_tmp();
    let e = api::ack_alert(&mut store, "does-not-exist").unwrap_err();
    assert_eq!(e.status(), 404);
}

#[test]
fn security_headers_present_on_responses() {
    let h = api::security_headers();
    let value = |name: &str| h.iter().find(|h| h.name == name).unwrap().value;
    assert_eq!(value("x-content-type-options"), "nosniff");
    assert_eq!(value("x-frame-options"), "DENY");
    assert!(value("content-security-policy").contains("default-src 'self'"));
}

#[test]
fn scores_filter_by_min_score_and_subject() {
    let (_dir, mut store) = open_tmp();
    for (subject, score) in [("s1", 10.0f64), ("s2", 90.0)] {
        store
            .upsert_score(&ScoreRow {
                agent_id: "a".into(),
                subject: subject.into(),
                model: "risk/v1".into(),
                score_bits: score.to_bits(),
                ts_ns: 1,
            })
            .unwrap();
    }
    let by_score = ScoreQuery {
        subject: None,
        min_score_bits: Some(50.0f64.to_bits()),
        limit: None,
    };
    let rows = api::list_scores(&store, &by_score).unwrap();
    assert_eq!(rows.len(), 1);
    assert_eq!(rows[0].subject, "s2");
    let by_subject = ScoreQuery {
        subject: Some("s1".into()),
        min_score_bits: None,
        limit: None,
    };
    let rows = api::list_scores(&store, &by_subject).unwrap();
    assert_eq!(rows.len(), 1);
    assert_eq!(rows[0].subject, "s1");
}

#[test]
fn alerts_filter_by_acknowledged() {
    let (_dir, mut store) = open_tmp();
    for (ack, ts) in [(false, 100u64), (true, 200u64)] {
        store
            .append_alert(&AlertRow {
                id: Uuid::new_v4().to_string(),
                agent_id: "a".into(),
                severity: "high".into(),
                title: "t".into(),
                detail: "d".into(),
                subject: None,
                ts_ns: ts,
                acknowledged: ack,
            })
            .unwrap();
    }
    let q = AlertQuery {
        severity: None,
        acknowledged: Some(false),
        agent_id: None,
        since_ns: None,
        limit: None,
    };
    let rows = api::list_alerts(&store, &q).unwrap();
    assert_eq!(rows.len(), 1, "only the unacknowledged alert");
    assert!(!rows[0].acknowledged);
}

#[test]
fn events_record_parses_payload_as_json() {
    let (_dir, mut store) = open_tmp();
    let mut ev = Event::new(
        "agent-z",
        "plugin-tty",
        EventPayload::Keystroke {
            session_id: "s1".into(),
            inter_arrival_ns: 1_000_000,
            is_paste: false,
            burst_len: 1,
        },
    );
    ev.ts_ns = 7;
    let json = br#"{"type":"keystroke","session_id":"s1","inter_arrival_ns":1000000,"is_paste":false,"burst_len":1}"#;
    store.write_event(&ev, json.to_vec()).unwrap();
    let q = EventQuery {
        page: None,
        page_size: None,
    };
    let rows = api::events_for_agent(&store, "agent-z", &q).unwrap();
    assert_eq!(rows.len(), 1);
    let record = EventRecord::from_row(rows.into_iter().next().unwrap());
    assert_eq!(record.kind, "input.keystroke");
    let v: serde_json::Value = serde_json::from_slice(&record.payload_json).unwrap();
    assert!(v.is_object(), "payload parsed to JSON");
}

// --- The dashboard ---------------------------------------------------------------------

fn assets() -> Vec<String> {
    vec!["index.html".to_string(), "app.css".to_string()]
}

#[test]
fn root_serves_placeholder_index() {
    match static_handler("/", &assets()) {
        Served::Asset(0, ct) => assert!(ct.starts_with("text/html"), "got {ct}"),
        other => panic!("unexpected: {other:?}"),
    }
}

#[test]
fn unknown_spa_path_falls_back_to_index_with_200() {
    assert_eq!(static_handler("/agents/some-uuid", &assets()), Served::Index(0));
}

#[test]
fn fallback_serves_dashboard_index() {
    assert_eq!(static_handler("/some/spa/route", &assets()), Served::Index(0));
}

#[test]
fn known_asset_gets_correct_mime() {
    match static_handler("/app.css", &assets()) {
        Served::Asset(1, ct) => assert!(ct.starts_with("text/css"), "css mime, got {ct}"),
        other => panic!("unexpected: {other:?}"),
    }
}

// --- The command line -------------------------------------------------------------------

fn ok(body: &str) -> Response {
    Response {
        status: 200,
        body: body.as_bytes().to_vec(),
    }
}

#[test]
fn status_prints_fingerprint_and_agent_count() {
    let info = ok(r#"{"fingerprint":"abc123","proto_version":1}"#);
    assert!(info.json_ok().is_ok());
    let agents = ok(r#"[{"agent_id":"a1"},{"agent_id":"a2"}]"#);
    let out = status_text(&info.body, Some(&agents));
    assert!(out.contains("abc123"), "fingerprint missing: {out}");
    assert!(out.contains("proto version:  1"), "proto missing: {out}");
    assert!(out.contains("agents:         2"), "agent count missing: {out}");
}

#[test]
fn agents_table_and_json() {
    let resp = ok(
        r#"[{"agent_id":"agent-1","hostname":"box","os":"Linux","pubkey_hex":"ab","enrolled_at_ns":1,"last_seen_ns":99}]"#,
    );
    let lines = agent_table(&resp.body);
    assert_eq!(lines.len(), 2);
    assert!(lines[0].contains("AGENT_ID"));
    assert_eq!(
        lines[1],
        format!("{:36}  {:24}  {:10}  {}", "agent-1", "box", "Linux", 99)
    );
    // A body that is no array lists nothing.
    assert_eq!(agent_table(b"{}").len(), 1);
    // Missing members are shown empty.
    assert_eq!(
        agent_table(b"[{}]")[1],
        format!("{:36}  {:24}  {:10}  {}", "", "", "", 0)
    );
}

#[test]
fn alerts_table_and_filters() {
    assert_eq!(
        alerts_path(Some(10), Some("critical"), true),
        "/api/v1/alerts?limit=10&severity=critical&acknowledged=false"
    );
    let lines = alert_table(
        br#"[{"id":"x","agent_id":"a1","severity":"critical","title":"boom","detail":"d","subject":null,"ts_ns":7,"acknowledged":false}]"#,
    );
    assert!(lines[0].contains("SEVERITY"));
    assert_eq!(
        lines[1],
        format!("{:10}  {:30}  {:36}  {:5}  {}", "critical", "boom", "a1", false, 7)
    );
}

#[test]
fn scores_table_json_and_per_agent() {
    assert_eq!(scores_path(None, Some("50")), "/api/v1/scores?min_score=50");
    let lines = score_table(
        br#"[{"agent_id":"a1","subject":"uid:1000","model":"risk-aggregator/v1","score":82.5,"ts_ns":7}]"#,
    );
    assert!(lines[0].contains("SUBJECT"));
    assert!(lines[1].contains("uid:1000"));
    assert!(lines[1].contains("82.5"));
    assert_eq!(scores_path(Some("a1"), None), "/api/v1/scores/a1");
    let lines = score_table(
        br#"[{"agent_id":"a1","subject":"sess-1","model":"risk-aggregator/v1","score":12.0,"ts_ns":9}]"#,
    );
    assert!(lines[1].contains("sess-1"));
}

#[test]
fn detections_table_json_and_per_agent_filter() {
    assert_eq!(
        detections_path(None, Some("agent"), Some("0.5")),
        "/api/v1/detections?verdict=agent&min_confidence=0.5"
    );
    let lines = verdict_table(
        br#"[{"agent_id":"a1","subject":"sess-1","verdict":"agent","confidence":0.91,"model":"m","reasons":["r"],"ts_ns":7}]"#,
        None,
    );
    assert!(lines[0].contains("VERDICT"));
    assert!(lines[1].contains("agent"));
    assert!(lines[1].contains("0.91"));
    // The listing of one agent comes unfiltered.
    let both = br#"[{"agent_id":"a1","subject":"sess-1","verdict":"agent","confidence":0.91,"model":"m","reasons":["r"],"ts_ns":7},
                {"agent_id":"a1","subject":"sess-2","verdict":"human","confidence":0.80,"model":"m","reasons":[],"ts_ns":8}]"#;
    let lines = verdict_table(both, Some("agent"));
    assert_eq!(lines.len(), 2);
    assert!(lines[1].contains("sess-1"));
    assert_eq!(verdict_table(both, None).len(), 3);
}

#[test]
fn enroll_token_create_list_revoke() {
    let created = created_text(
        br#"{"token":"deadbeef","fingerprint":"fp-xyz","created_at_ns":123}"#,
    );
    assert!(created.contains("deadbeef"));
    assert!(created.contains("fp-xyz"));
    let lines = token_table(
        br#"[{"token":"deadbeef","label":"laptop","created_at_ns":123,"used":false}]"#,
    );
    assert!(lines[0].contains("TOKEN"));
    assert_eq!(
        lines[1],
        format!("{:64}  {:6}  {:20}  {}", "deadbeef", false, "laptop", 123)
    );
    assert_eq!(token_path("deadbeef"), "/api/v1/tokens/deadbeef");
    let resp = Response {
        status: 204,
        body: vec![],
    };
    assert_eq!(resp.revocation(), Revocation::Revoked);
}

#[test]
fn revoke_conflict_reports_already_used() {
    let resp = Response {
        status: 409,
        body: br#"{"error":"token is unknown or already used"}"#.to_vec(),
    };
    assert_eq!(resp.revocation(), Revocation::Refused);
}

#[test]
fn server_error_surfaces_message_and_fails() {
    let resp = Response {
        status: 500,
        body: br#"{"error":"internal server error"}"#.to_vec(),
    };
    match resp.json_ok() {
        Err(ReplyError::Status(line)) => assert!(line.contains("internal server error")),
        other => panic!("a 500 should fail the command: {other:?}"),
    }
}

// --- What follows a reply of the store -------------------------------------------

fn storage_error() -> redb::Error {
    redb::Error::Corrupted("disk".to_string())
}

fn agent_row() -> AgentRow {
    AgentRow {
        agent_id: "a-1".to_string(),
        hostname: "box".to_string(),
        os: "linux".to_string(),
        pubkey: [0xab; 32],
        enrolled_at_ns: 1,
        last_seen_ns: 2,
    }
}

fn stored_alert(id: &str) -> Vec<u8> {
    postcard::to_allocvec(&(id, "a", "high", "t", "d", None::<String>, 7u64, false)).unwrap()
}

fn stored_event(id: u8) -> Vec<u8> {
    postcard::to_allocvec(&([id; 16], 7u64, "a", "s", "k", vec![1u8])).unwrap()
}

#[test]
fn index_cell_is_read_or_empty_or_corrupt() {
    let keys = vec![[1u8; 24], [2u8; 24]];
    let bytes = postcard::to_allocvec(&keys).unwrap();
    assert_eq!(index_reply(Ok(Some(bytes))).unwrap(), keys);
    assert!(index_reply(Ok(None)).unwrap().is_empty());
    assert!(matches!(
        index_reply(Ok(Some(vec![0xff]))),
        Err(StoreError::Corrupt)
    ));
    assert!(matches!(
        index_reply(Err(storage_error())),
        Err(StoreError::Storage(_))
    ));
}

#[test]
fn page_leaves_out_what_is_absent() {
    let rows = read_page(&vec![Some(stored_event(3)), None, Some(stored_event(1))]).unwrap();
    let ids: Vec<[u8; 16]> = rows.iter().map(|row| row.id).collect();
    assert_eq!(ids, vec![[3u8; 16], [1u8; 16]]);
    assert!(read_page(&vec![]).unwrap().is_empty());
    assert!(matches!(
        read_page(&vec![Some(stored_event(3)), Some(vec![0xff])]),
        Err(StoreError::Corrupt)
    ));
}

#[test]
fn oldest_alert_comes_before_what_is_unreadable() {
    let entries = vec![
        (vec![1], stored_alert("x")),
        (vec![2], stored_alert("y")),
        (vec![3], stored_alert("y")),
        (vec![4], vec![0xff]),
    ];
    let (at, row) = oldest_alert(&entries, "y").unwrap().unwrap();
    assert_eq!(at, 1);
    assert_eq!(row.id, "y");
    assert!(!row.acknowledged);
    assert!(matches!(
        oldest_alert(&entries, "z"),
        Err(StoreError::Corrupt)
    ));
    assert!(oldest_alert(&entries[..3].to_vec(), "z").unwrap().is_none());
}

#[test]
fn only_an_unused_token_may_be_revoked() {
    let token = |used: bool| {
        Some(TokenRow {
            created_at_ns: 1,
            label: String::new(),
            used,
        })
    };
    assert!(may_revoke(&token(false)));
    assert!(!may_revoke(&token(true)));
    assert!(!may_revoke(&None));
}

#[test]
fn refreshing_changes_the_time_alone() {
    let row = refreshed(Ok(Some(agent_row())), 99).unwrap().unwrap();
    assert_eq!(row.last_seen_ns, 99);
    assert_eq!(row.enrolled_at_ns, 1);
    assert_eq!(row.agent_id, "a-1");
    assert!(refreshed(Ok(None), 99).unwrap().is_none());
    assert!(matches!(
        refreshed(Err(StoreError::Corrupt), 99),
        Err(StoreError::Corrupt)
    ));
    assert!(finished(Ok(())).is_ok());
    assert!(matches!(
        finished(Err(storage_error())),
        Err(StoreError::Storage(_))
    ));
}

#[test]
fn cutoff_is_the_least_key_of_its_time() {
    let key = retention_cutoff(0x0102, 0x0001).unwrap();
    assert_eq!(&key[..8], &[0, 0, 0, 0, 0, 0, 1, 1]);
    assert_eq!(&key[8..], &[0u8; 16]);
    assert_eq!(retention_cutoff(5, 5), Some([0u8; 24]));
    assert_eq!(retention_cutoff(4, 5), None);
}

#[test]
fn answers_follow_the_store() {
    let record = api::agent_answer(Ok(Some(agent_row()))).unwrap();
    assert_eq!(record.agent_id, "a-1");
    assert_eq!(record.pubkey_hex, "ab".repeat(32));
    assert_eq!(api::agent_answer(Ok(None)).unwrap_err().status(), 404);
    assert_eq!(
        api::agent_answer(Err(StoreError::Corrupt)).unwrap_err().status(),
        500
    );
    assert!(api::ack_answer(Ok(true)).is_ok());
    assert_eq!(api::ack_answer(Ok(false)).unwrap_err().status(), 404);
    assert_eq!(
        api::ack_answer(Err(StoreError::Corrupt)).unwrap_err().status(),
        500
    );
    assert!(api::revoke_answer(Ok(true)).is_ok());
    assert_eq!(api::revoke_answer(Ok(false)).unwrap_err().status(), 409);
    assert_eq!(
        api::revoke_answer(Err(StoreError::Corrupt)).unwrap_err().status(),
        500
    );
}

#[test]
fn token_answers_and_drafts() {
    let (token, row) = new_token("lab", &[0x0f; 32], 5).unwrap();
    assert_eq!(token, "0f".repeat(32));
    assert_eq!(row.created_at_ns, 5);
    assert_eq!(row.label, "lab");
    assert!(!row.used);
    assert!(matches!(
        new_token(&"x".repeat(257), &[0; 32], 5),
        Err(TokenError::LabelTooLong(257))
    ));
    assert_eq!(api::token_answer(Ok((token, row))).unwrap().1.label, "lab");
    let e = api::token_answer(Err(TokenError::LabelTooLong(300))).unwrap_err();
    assert_eq!(e.status(), 400);
    assert_eq!(e.message(), "label too long (max 256 bytes)");
    assert_eq!(
        api::token_answer(Err(TokenError::Store(StoreError::Corrupt)))
            .unwrap_err()
            .status(),
        500
    );
}

#[test]
fn enroll_outcome_follows_the_store() {
    match enroll_outcome(Ok(Ok(("id".to_string(), agent_row())))).unwrap() {
        EnrollOutcome::Accepted { agent_id } => assert_eq!(agent_id, "id"),
        other => panic!("unexpected: {other:?}"),
    }
    match enroll_outcome(Ok(Err(EnrollReject::TokenUsed))).unwrap() {
        EnrollOutcome::Rejected { reason } => {
            assert_eq!(reason, EnrollReject::TokenUsed.to_string())
        }
        other => panic!("unexpected: {other:?}"),
    }
    assert!(enroll_outcome(Err(StoreError::Corrupt)).is_err());
}

#[test]
fn assigned_identifier_is_a_random_uuid() {
    let (_dir, mut store) = open_tmp();
    let agent_id = enrolled(&mut store, "host", [9u8; 32]);
    let id = Uuid::parse_str(&agent_id).unwrap();
    assert_eq!(id.get_version_num(), 4);
    assert_eq!(id.into_bytes()[8] / 64, 2);
}

#[test]
fn json_output_is_pretty() {
    assert_eq!(
        pretty_body(br#"{"b":[1],"a":null}"#).unwrap(),
        "{\n  \"a\": null,\n  \"b\": [\n    1\n  ]\n}"
    );
    assert_eq!(pretty_body(b"not json"), None);
    assert_eq!(
        pretty_body(revocation_json(204, &Revocation::Revoked).as_bytes()).unwrap(),
        "{\n  \"revoked\": true,\n  \"status\": 204\n}"
    );
    assert_eq!(
        revocation_json(409, &Revocation::Refused),
        "{\"status\":409,\"revoked\":false}"
    );
}

#[test]
fn status_json_carries_the_agent_count() {
    let info = br#"{"fingerprint":"ff","proto_version":1}"#;
    let listing = Response {
        status: 200,
        body: b"[{},{}]".to_vec(),
    };
    assert_eq!(
        status_json(info, Some(&listing)).unwrap(),
        "{\n  \"agent_count\": 2,\n  \"fingerprint\": \"ff\",\n  \"proto_version\": 1\n}"
    );
    assert_eq!(status_json(info, None), pretty_body(info));
    assert_eq!(status_json(b"{", None), None);
    // A body that is no object is shown as it is.
    assert_eq!(status_json(b"[1]", Some(&listing)), pretty_body(b"[1]"));
}

#[test]
fn request_body_escapes_the_label() {
    assert_eq!(
        create_body("a \"b\"").unwrap(),
        "{\"label\":\"a \\\"b\\\"\"}"
    );
}

#[test]
fn tables_take_columns() {
    let s = |v: &str| vec![v.to_string(), "x".to_string()];
    let lines = alert_lines(&s("high"), &s("t"), &s("a1"), &vec![true, false], &vec![7, 8]);
    assert_eq!(lines.len(), 3);
    assert!(lines[1].starts_with("high"));
    assert!(lines[1].ends_with("7"));
    let lines = detection_lines(&s("a1"), &s("sub"), &s("agent"), &s("0.5"), &vec![1, 2], Some("x"));
    assert_eq!(lines.len(), 2);
    assert!(lines[1].ends_with("2"));
}

/// The members of an item are read from the listing as it came, also where writing the
/// item out and reading it again would give something else.
#[test]
fn items_are_read_in_place() {
    let name = "$serde_json::private::RawValue";
    let body = format!("[{{\"agent_id\":\"a1\",\"{name}\":\"no json\",\"hostname\":\"h\"}}]");
    let lines = agent_table(body.as_bytes());
    assert!(lines[1].starts_with("a1"));
    assert!(lines[1].contains("h"));
    let info = format!("{{\"fingerprint\":\"ff\",\"{name}\":\"no json\"}}");
    let listing = Response {
        status: 200,
        body: b"[1]".to_vec(),
    };
    let shown = status_json(info.as_bytes(), Some(&listing)).unwrap();
    assert!(shown.contains("\"agent_count\": 1"));
    assert!(shown.contains("\"fingerprint\": \"ff\""));
}
