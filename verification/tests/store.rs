use aegis::enroll::{create_token, create_token_from, enroll, list_tokens, revoke_token, TokenError};
use aegis::enroll::{enroll_at, EnrollOutcome, MAX_ENROLL_FIELD_LEN, MAX_TOKEN_LABEL_LEN};
use aegis::event::{now_ns, timestamp_ns, Event, EventPayload, Severity, Verdict};
use aegis::keys::{composite_key, subject_key};
use aegis::rows::{AlertRow, DetectionRow, ScoreRow, TokenRow};
use aegis::store::{
    cap_index, database_path, judge_token, page_bounds, EnrollReject, Store, StoreError,
    AGENT_EVENT_INDEX_LIMIT, RETENTION_NS,
};
use tempfile::TempDir;
use uuid::Uuid;

fn open_tmp() -> (TempDir, Store) {
    let dir = TempDir::new().expect("tempdir");
    let store = open_at(&dir);
    (dir, store)
}

fn open_at(dir: &TempDir) -> Store {
    Store::open(dir.path().to_str().unwrap()).expect("open store")
}

const KEYSTROKE_JSON: &[u8] = br#"{"type":"keystroke","session_id":"s1","inter_arrival_ns":100000000,"is_paste":false,"burst_len":1}"#;

/// Build a raw keystroke event with a specific timestamp and agent.
fn keystroke_event(agent: &str, ts_ns: u64) -> Event {
    let mut ev = Event::new(
        agent,
        "plugin-tty",
        EventPayload::Keystroke {
            session_id: "s1".into(),
            inter_arrival_ns: 100_000_000,
            is_paste: false,
            burst_len: 1,
        },
    );
    ev.ts_ns = ts_ns;
    ev
}

fn write(store: &mut Store, ev: &Event) {
    store.write_event(ev, KEYSTROKE_JSON.to_vec()).unwrap();
}

fn alert(id: &str, title: &str, ts_ns: u64) -> AlertRow {
    AlertRow {
        id: id.to_string(),
        agent_id: "a".into(),
        severity: "high".into(),
        title: title.to_string(),
        detail: "d".into(),
        subject: Some("s1".into()),
        ts_ns,
        acknowledged: false,
    }
}

#[test]
fn open_is_idempotent_and_takes_file_lock() {
    let dir = TempDir::new().unwrap();
    {
        let _s = open_at(&dir);
        // The redb file should exist now.
        assert!(dir.path().join("aegis.redb").exists());
        // A second handle on a locked file fails to open.
        assert!(matches!(
            Store::open(dir.path().to_str().unwrap()),
            Err(StoreError::Storage(_))
        ));
    }
    // Reopening the same directory after the first handle dropped works
    // (file lock released on drop).
    let _s2 = open_at(&dir);
}

#[test]
fn database_file_lies_in_the_data_dir() {
    assert_eq!(database_path("data"), "data/aegis.redb");
    assert_eq!(database_path("data/"), "data/aegis.redb");
    assert_eq!(database_path(""), "aegis.redb");
}

#[test]
fn write_event_roundtrips_and_indexes_by_agent() {
    let (_dir, mut store) = open_tmp();
    let ev = keystroke_event("agent-a", 1_000);
    write(&mut store, &ev);

    let page = store.events_for_agent("agent-a", 0, 10).unwrap();
    assert_eq!(page.len(), 1);
    assert_eq!(page[0].id, ev.id);
    assert_eq!(page[0].ts_ns, 1_000);
    assert_eq!(page[0].kind, "input.keystroke");
    assert_eq!(page[0].agent_id, "agent-a");

    // payload_json is the verbatim JSON of the payload.
    assert_eq!(page[0].payload_json, KEYSTROKE_JSON);
    let parsed: serde_json::Value = serde_json::from_slice(&page[0].payload_json).unwrap();
    assert_eq!(parsed["type"], "keystroke");

    // A different agent has no events.
    assert!(store.events_for_agent("agent-b", 0, 10).unwrap().is_empty());
}

#[test]
fn events_for_agent_is_newest_first_and_paginates() {
    let (_dir, mut store) = open_tmp();
    // Insert 5 events with increasing timestamps.
    for ts in 1..=5u64 {
        write(&mut store, &keystroke_event("a", ts));
    }
    // Page 0, size 2 => newest two (ts 5, 4).
    let p0 = store.events_for_agent("a", 0, 2).unwrap();
    assert_eq!(
        p0.iter().map(|r| r.ts_ns).collect::<Vec<_>>(),
        vec![5, 4],
        "page 0 should be the newest two, newest first"
    );
    // Page 1, size 2 => ts 3, 2.
    let p1 = store.events_for_agent("a", 1, 2).unwrap();
    assert_eq!(p1.iter().map(|r| r.ts_ns).collect::<Vec<_>>(), vec![3, 2]);
    // Page 2, size 2 => ts 1 only.
    let p2 = store.events_for_agent("a", 2, 2).unwrap();
    assert_eq!(p2.iter().map(|r| r.ts_ns).collect::<Vec<_>>(), vec![1]);
    // Page 3 is past the end.
    assert!(store.events_for_agent("a", 3, 2).unwrap().is_empty());
    // So is a page whose start does not fit a machine word.
    assert!(store.events_for_agent("a", usize::MAX, 2).unwrap().is_empty());
}

#[test]
fn page_bounds_cover_the_index_from_its_end() {
    assert_eq!(page_bounds(5, 0, 2), (3, 5));
    assert_eq!(page_bounds(5, 2, 2), (0, 1));
    assert_eq!(page_bounds(5, 3, 2), (0, 0));
    assert_eq!(page_bounds(5, 0, 0), (5, 5));
}

#[test]
fn detection_and_score_upsert_overwrites_same_subject() {
    let (_dir, mut store) = open_tmp();
    let d1 = DetectionRow {
        agent_id: "a".into(),
        subject: "s1".into(),
        verdict: Verdict::Uncertain.to_string(),
        confidence_bits: 0.4f64.to_bits(),
        model: "m".into(),
        reasons: vec![],
        ts_ns: 10,
    };
    store.upsert_detection(&d1).unwrap();
    let d2 = DetectionRow {
        confidence_bits: 0.95f64.to_bits(),
        verdict: Verdict::Agent.to_string(),
        ts_ns: 20,
        ..d1.clone()
    };
    store.upsert_detection(&d2).unwrap();

    let got = store.detection("a", "s1").unwrap().unwrap();
    assert_eq!(got.verdict, "agent");
    assert_eq!(f64::from_bits(got.confidence_bits), 0.95);
    assert_eq!(got.ts_ns, 20);

    let s1 = ScoreRow {
        agent_id: "a".into(),
        subject: "s1".into(),
        model: "risk/v1".into(),
        score_bits: 12.0f64.to_bits(),
        ts_ns: 10,
    };
    store.upsert_score(&s1).unwrap();
    store
        .upsert_score(&ScoreRow {
            score_bits: 88.5f64.to_bits(),
            ts_ns: 30,
            ..s1.clone()
        })
        .unwrap();
    let gs = store.score("a", "s1").unwrap().unwrap();
    assert_eq!(f64::from_bits(gs.score_bits), 88.5);
    assert_eq!(gs.ts_ns, 30);

    // No collision across agents using the same bare subject.
    assert!(store.score("b", "s1").unwrap().is_none());
    assert!(store.detection("b", "s1").unwrap().is_none());
}

#[test]
fn stored_rows_have_the_encoding_of_their_structs() {
    let (dir, mut store) = open_tmp();
    store
        .upsert_score(&ScoreRow {
            agent_id: "a".into(),
            subject: "s".into(),
            model: "m".into(),
            score_bits: 1.5f64.to_bits(),
            ts_ns: 300,
        })
        .unwrap();
    drop(store);
    let db = redb::Database::create(dir.path().join("aegis.redb")).unwrap();
    let txn = db.begin_read().unwrap();
    let table: redb::ReadOnlyTable<&str, &[u8]> =
        txn.open_table(redb::TableDefinition::new("scores")).unwrap();
    let stored = table.get("a:s").unwrap().unwrap().value().to_vec();
    let expected = postcard::to_allocvec(&("a", "s", "m", 1.5f64, 300u64)).unwrap();
    assert_eq!(stored, expected);
}

#[test]
fn alerts_recent_returns_newest_first() {
    let (_dir, mut store) = open_tmp();
    for ts in [100u64, 300, 200] {
        store
            .append_alert(&alert(
                &Uuid::new_v4().to_string(),
                &format!("alert-{ts}"),
                ts,
            ))
            .unwrap();
    }
    let recent = store.alerts_recent(2).unwrap();
    assert_eq!(
        recent.iter().map(|a| a.ts_ns).collect::<Vec<_>>(),
        vec![300, 200],
        "newest first, limited to 2"
    );
    let all = store.alerts_recent(100).unwrap();
    assert_eq!(all.len(), 3);
    assert!(store.alerts_recent(0).unwrap().is_empty());
}

#[test]
fn agents_list_touch_and_lookup() {
    let (dir, mut store) = open_tmp();
    // touch on an absent agent is a no-op (does not create it).
    store.touch_agent("ghost", 999).unwrap();
    assert!(store.agents().unwrap().is_empty());
    assert!(store.agent("ghost").unwrap().is_none());

    // Insert an agent through the database itself.
    drop(store);
    {
        let db = redb::Database::create(dir.path().join("aegis.redb")).unwrap();
        let wtxn = db.begin_write().unwrap();
        {
            let mut t = wtxn
                .open_table(redb::TableDefinition::<&str, &[u8]>::new("agents"))
                .unwrap();
            let bytes =
                postcard::to_allocvec(&("agent-x", "host", "Linux", [7u8; 32], 1u64, 1u64)).unwrap();
            t.insert("agent-x", &bytes[..]).unwrap();
        }
        wtxn.commit().unwrap();
    }
    let mut store = open_at(&dir);

    let listed = store.agents().unwrap();
    assert_eq!(listed.len(), 1);
    assert_eq!(listed[0].agent_id, "agent-x");
    assert_eq!(listed[0].pubkey, [7u8; 32]);

    // touch updates last_seen_ns.
    store.touch_agent("agent-x", 42).unwrap();
    assert_eq!(store.agent("agent-x").unwrap().unwrap().last_seen_ns, 42);
}

#[test]
fn undecodable_rows_are_reported_as_corrupt() {
    let (dir, store) = open_tmp();
    drop(store);
    {
        let db = redb::Database::create(dir.path().join("aegis.redb")).unwrap();
        let wtxn = db.begin_write().unwrap();
        for table in ["agents", "enroll_tokens", "scores", "detections", "events_by_agent"] {
            let mut t = wtxn
                .open_table(redb::TableDefinition::<&str, &[u8]>::new(table))
                .unwrap();
            t.insert("bad:bad", &[0xffu8][..]).unwrap();
        }
        let mut t = wtxn
            .open_table(redb::TableDefinition::<&[u8], &[u8]>::new("alerts"))
            .unwrap();
        t.insert(&[1u8][..], &[0xffu8][..]).unwrap();
        drop(t);
        wtxn.commit().unwrap();
    }
    let mut store = open_at(&dir);
    assert!(matches!(store.agent("bad:bad"), Err(StoreError::Corrupt)));
    assert!(matches!(store.agents(), Err(StoreError::Corrupt)));
    assert!(matches!(store.touch_agent("bad:bad", 1), Err(StoreError::Corrupt)));
    assert!(matches!(store.score("bad", "bad"), Err(StoreError::Corrupt)));
    assert!(matches!(store.detections(), Err(StoreError::Corrupt)));
    assert!(matches!(store.list_tokens(), Err(StoreError::Corrupt)));
    assert!(matches!(
        store.revoke_token_if_unused("bad:bad"),
        Err(StoreError::Corrupt)
    ));
    assert!(matches!(
        store.enroll_txn("bad:bad", 1, 1, "h", "o", [0; 32]),
        Err(StoreError::Corrupt)
    ));
    assert!(matches!(
        store.events_for_agent("bad:bad", 0, 1),
        Err(StoreError::Corrupt)
    ));
    assert!(matches!(
        store.write_event(&keystroke_event("bad:bad", 1), Vec::new()),
        Err(StoreError::Corrupt)
    ));
    assert!(matches!(store.alerts_recent(5), Err(StoreError::Corrupt)));
    assert!(matches!(store.acknowledge_alert("x"), Err(StoreError::Corrupt)));
}

#[test]
fn from_event_helpers_extract_typed_payloads() {
    let det = Event::new(
        "a",
        "plugin-agent-detect",
        EventPayload::Detection {
            subject: "s1".into(),
            verdict: Verdict::Agent,
            confidence_bits: 0.9f64.to_bits(),
            model: "m".into(),
            reasons: vec!["fast".into()],
            features: vec![],
        },
    );
    let dr = DetectionRow::from_event(&det).unwrap();
    assert_eq!(dr.verdict, "agent");
    assert_eq!(dr.reasons, vec!["fast".to_string()]);

    let sc = Event::new(
        "a",
        "plugin-scoring",
        EventPayload::Score {
            subject: "s1".into(),
            model: "risk/v1".into(),
            score_bits: 50.0f64.to_bits(),
            features: vec![],
        },
    );
    assert_eq!(
        f64::from_bits(ScoreRow::from_event(&sc).unwrap().score_bits),
        50.0
    );

    let al = Event::new(
        "a",
        "plugin-scoring",
        EventPayload::Alert {
            severity: Severity::High,
            title: "t".into(),
            detail: "d".into(),
            subject: Some("s1".into()),
        },
    );
    let ar = AlertRow::from_event(&al).unwrap();
    assert_eq!(ar.severity, "high");
    assert!(!ar.acknowledged);
    assert!(Uuid::parse_str(&ar.id).is_ok());
    let fixed = AlertRow::from_event_as(&al, &[0u8; 16]).unwrap();
    assert_eq!(fixed.id, "00000000-0000-0000-0000-000000000000");

    // Wrong payload kind yields None.
    let hb = Event::new("a", "agent", EventPayload::Heartbeat { uptime_s: 1 });
    assert!(DetectionRow::from_event(&hb).is_none());
    assert!(ScoreRow::from_event(&hb).is_none());
    assert!(AlertRow::from_event(&hb).is_none());
}

#[test]
fn compact_prunes_old_events_and_alerts() {
    let (_dir, mut store) = open_tmp();
    let now = now_ns();
    // One recent event/alert and one ancient one (well past a 1s retention).
    let recent_ev = keystroke_event("a", now);
    let old_ev = keystroke_event("a", 1_000); // ~epoch, definitely expired
    write(&mut store, &recent_ev);
    write(&mut store, &old_ev);

    store
        .append_alert(&alert(&Uuid::new_v4().to_string(), "recent", now))
        .unwrap();
    store
        .append_alert(&alert(&Uuid::new_v4().to_string(), "old", 1_000))
        .unwrap();

    // Retain only the last second of data.
    store.compact(1_000_000_000).unwrap();

    // Only the recent alert survives.
    let alerts = store.alerts_recent(100).unwrap();
    assert_eq!(alerts.len(), 1);
    assert_eq!(alerts[0].title, "recent");

    // events_by_agent still references both keys, but the pruned event row
    // is gone from `events`, so only the recent one comes back.
    let evs = store.events_for_agent("a", 0, 100).unwrap();
    assert_eq!(evs.len(), 1);
    assert_eq!(evs[0].ts_ns, now);
}

#[test]
fn retention_boundary_is_inclusive() {
    let (_dir, mut store) = open_tmp();
    for ts in [99u64, 100, 101] {
        write(&mut store, &keystroke_event("a", ts));
    }
    store
        .upsert_score(&ScoreRow {
            agent_id: "a".into(),
            subject: "s".into(),
            model: "m".into(),
            score_bits: 0,
            ts_ns: 1,
        })
        .unwrap();
    store.compact_at(1_100, 1_000).unwrap();
    let left = store.events_for_agent("a", 0, 10).unwrap();
    assert_eq!(left.iter().map(|r| r.ts_ns).collect::<Vec<_>>(), vec![101, 100]);
    // Current state does not expire.
    assert!(store.score("a", "s").unwrap().is_some());
    assert_eq!(RETENTION_NS, 30 * 24 * 60 * 60 * 1_000_000_000);
}

#[test]
fn retention_no_op_when_clock_below_window() {
    // If now_ns() < retention_ns the cutoff underflows; compact must not
    // delete anything (and must not panic).
    let (_dir, mut store) = open_tmp();
    write(&mut store, &keystroke_event("a", 5));
    // u64::MAX retention => now - retention underflows => skip pruning.
    store.compact(u64::MAX).unwrap();
    assert_eq!(store.events_for_agent("a", 0, 10).unwrap().len(), 1);
}

#[test]
fn scores_and_detections_list_all_and_filter_by_agent() {
    let (_dir, mut store) = open_tmp();
    // Two agents, one shared bare subject; the composite key prevents
    // collisions, so each agent has its own cell.
    for (agent, score) in [("a", 10.0f64), ("b", 20.0)] {
        store
            .upsert_score(&ScoreRow {
                agent_id: agent.into(),
                subject: "s1".into(),
                model: "risk/v1".into(),
                score_bits: score.to_bits(),
                ts_ns: 1,
            })
            .unwrap();
        store
            .upsert_detection(&DetectionRow {
                agent_id: agent.into(),
                subject: "s1".into(),
                verdict: Verdict::Uncertain.to_string(),
                confidence_bits: 0.5f64.to_bits(),
                model: "m".into(),
                reasons: vec![],
                ts_ns: 1,
            })
            .unwrap();
    }

    // Collection reads see both agents' cells.
    assert_eq!(store.scores().unwrap().len(), 2);
    assert_eq!(store.detections().unwrap().len(), 2);

    // Per-agent reads filter on agent_id.
    let a_scores = store.scores_for_agent("a").unwrap();
    assert_eq!(a_scores.len(), 1);
    assert_eq!(f64::from_bits(a_scores[0].score_bits), 10.0);
    let b_dets = store.detections_for_agent("b").unwrap();
    assert_eq!(b_dets.len(), 1);
    assert_eq!(b_dets[0].agent_id, "b");

    // An agent with no cells yields empty vectors, not an error.
    assert!(store.scores_for_agent("ghost").unwrap().is_empty());
    assert!(store.detections_for_agent("ghost").unwrap().is_empty());
}

#[test]
fn acknowledge_alert_flips_and_returns_false_on_unknown() {
    let (_dir, mut store) = open_tmp();
    let id = Uuid::new_v4().to_string();
    store.append_alert(&alert(&id, "t", 500)).unwrap();

    // Acking a known id flips the flag and reports success.
    assert!(store.acknowledge_alert(&id).unwrap());
    let after = store.alerts_recent(10).unwrap();
    assert_eq!(after.len(), 1, "ack must not duplicate the row");
    assert!(after[0].acknowledged);
    assert_eq!(after[0].id, id, "re-inserted under the same logical row");

    // Acking it again is still Ok(true) (idempotent flip).
    assert!(store.acknowledge_alert(&id).unwrap());

    // An unknown id reports false (mapped to 404 by the API).
    assert!(!store.acknowledge_alert("does-not-exist").unwrap());
}

#[test]
fn acknowledging_an_alert_without_uuid_does_not_duplicate_it() {
    let (_dir, mut store) = open_tmp();
    store.append_alert(&alert("not-a-uuid", "t", 500)).unwrap();
    assert!(store.acknowledge_alert("not-a-uuid").unwrap());
    let after = store.alerts_recent(10).unwrap();
    assert_eq!(after.len(), 1);
    assert!(after[0].acknowledged);
}

#[test]
fn index_eviction_keeps_newest_when_over_limit() {
    let keys: Vec<[u8; 24]> = (0..(AGENT_EVENT_INDEX_LIMIT as u64 + 3))
        .map(|i| composite_key(i, Uuid::nil().as_bytes()))
        .collect();
    let keys = cap_index(keys);
    assert_eq!(keys.len(), AGENT_EVENT_INDEX_LIMIT);
    // The first surviving key corresponds to ts=3 (0,1,2 evicted).
    assert_eq!(&keys[0][..8], &3u64.to_be_bytes());
}

#[test]
fn composite_keys_order_by_time_then_id() {
    let key = composite_key(0x0102_0304_0506_0708, &[9u8; 16]);
    assert_eq!(&key[..8], &[1, 2, 3, 4, 5, 6, 7, 8]);
    assert_eq!(&key[8..], &[9u8; 16]);
    assert!(composite_key(255, &[0xff; 16]) < composite_key(256, &[0; 16]));
    assert_eq!(subject_key("a", "s"), "a:s");
}

#[test]
fn create_token_is_hex64_and_unused() {
    let (_d, mut store) = open_tmp();
    let (token, row) = create_token(&mut store, "laptop-3").unwrap();
    assert_eq!(token.len(), 64, "token is 32 bytes hex");
    assert!(token.chars().all(|c| c.is_ascii_hexdigit()));
    assert_eq!(row.label, "laptop-3");
    assert!(!row.used);

    // It shows up in the listing, still unused.
    let listed = list_tokens(&store).unwrap();
    assert_eq!(listed.len(), 1);
    assert_eq!(listed[0].0, token);
    assert!(!listed[0].1.used);
}

#[test]
fn create_token_from_fixed_bytes() {
    let (_d, mut store) = open_tmp();
    let (token, row) = create_token_from(&mut store, "l", &[0xabu8; 32], 7).unwrap();
    assert_eq!(token, "ab".repeat(32));
    assert_eq!(row.created_at_ns, 7);
    let (other, _) = create_token(&mut store, "l").unwrap();
    assert_ne!(other, token);
}

#[test]
fn enroll_burns_token_and_assigns_uuid() {
    let (_d, mut store) = open_tmp();
    let (token, _) = create_token(&mut store, "host").unwrap();
    let pubkey = [9u8; 32];

    let outcome = enroll(&mut store, &token, "host-a", "Linux", pubkey).unwrap();
    let agent_id = match outcome {
        EnrollOutcome::Accepted { agent_id } => agent_id,
        other => panic!("expected acceptance, got {other:?}"),
    };
    // UUIDv4: parseable and contains no ':' (subject-key invariant).
    assert!(Uuid::parse_str(&agent_id).is_ok());
    assert!(!agent_id.contains(':'));

    // The agent row exists with the stored pubkey.
    let row = store.agent(&agent_id).unwrap().expect("agent row");
    assert_eq!(row.pubkey, pubkey);
    assert_eq!(row.hostname, "host-a");
}

#[test]
fn enroll_token_is_single_use() {
    let (_d, mut store) = open_tmp();
    let (token, _) = create_token(&mut store, "host").unwrap();

    // First enroll succeeds.
    let first = enroll(&mut store, &token, "h", "os", [1u8; 32]).unwrap();
    assert!(matches!(first, EnrollOutcome::Accepted { .. }));

    // Second enroll with the SAME token is rejected (burned), and creates no
    // second agent.
    let before = store.agents().unwrap().len();
    let second = enroll(&mut store, &token, "h", "os", [2u8; 32]).unwrap();
    match second {
        EnrollOutcome::Rejected { reason } => {
            assert!(reason.to_lowercase().contains("used"), "reason: {reason}");
        }
        other => panic!("expected rejection, got {other:?}"),
    }
    assert_eq!(store.agents().unwrap().len(), before, "no second agent");
}

#[test]
fn create_token_rejects_overlong_label() {
    let (_d, mut store) = open_tmp();
    let long = "x".repeat(MAX_TOKEN_LABEL_LEN + 1);
    assert!(
        create_token(&mut store, &long).is_err(),
        "over-long label must be rejected"
    );
    assert!(matches!(
        create_token(&mut store, &long),
        Err(TokenError::LabelTooLong(257))
    ));
    // A label at the limit is accepted.
    let ok = "y".repeat(MAX_TOKEN_LABEL_LEN);
    assert!(create_token(&mut store, &ok).is_ok());
    // The limit counts bytes.
    assert!(create_token(&mut store, &"é".repeat(129)).is_err());
}

#[test]
fn enroll_rejects_overlong_hostname_or_os_without_burning_token() {
    let (_d, mut store) = open_tmp();
    let (token, _) = create_token(&mut store, "host").unwrap();
    let long = "h".repeat(MAX_ENROLL_FIELD_LEN + 1);

    // Over-long hostname is rejected...
    let outcome = enroll(&mut store, &token, &long, "Linux", [1u8; 32]).unwrap();
    assert!(matches!(outcome, EnrollOutcome::Rejected { .. }));
    // ...and the token is NOT burned (the request was malformed, not used).
    assert!(store.agents().unwrap().is_empty(), "no agent created");
    let still_unused = list_tokens(&store)
        .unwrap()
        .into_iter()
        .find(|(t, _)| *t == token)
        .map(|(_, r)| !r.used)
        .unwrap_or(false);
    assert!(still_unused, "token must remain reusable after a rejection");
    assert_eq!(
        enroll(&mut store, &token, "h", &long, [1u8; 32]).unwrap(),
        EnrollOutcome::Rejected {
            reason: "hostname/os too long (max 255 bytes each)".to_string()
        }
    );

    // The same token then enrolls fine with sane fields.
    let ok = enroll(&mut store, &token, "host-a", "Linux", [1u8; 32]).unwrap();
    assert!(matches!(ok, EnrollOutcome::Accepted { .. }));
}

#[test]
fn enroll_unknown_token_rejected() {
    let (_d, mut store) = open_tmp();
    let outcome = enroll(&mut store, "deadbeef", "h", "os", [0u8; 32]).unwrap();
    assert!(matches!(outcome, EnrollOutcome::Rejected { .. }));
    assert!(store.agents().unwrap().is_empty());
}

#[test]
fn revoke_unused_then_already_used() {
    let (_d, mut store) = open_tmp();
    let (t1, _) = create_token(&mut store, "a").unwrap();
    // Revoking an unused token succeeds and removes it.
    assert!(revoke_token(&mut store, &t1).unwrap());
    assert!(enroll(&mut store, &t1, "h", "o", [0u8; 32])
        .unwrap()
        .eq(&EnrollOutcome::Rejected {
            reason: EnrollReject::UnknownToken.to_string()
        }));

    // A consumed token cannot be revoked (maps to 409 in the API).
    let (t2, _) = create_token(&mut store, "b").unwrap();
    enroll(&mut store, &t2, "h", "o", [0u8; 32]).unwrap();
    assert!(
        !revoke_token(&mut store, &t2).unwrap(),
        "used token not revocable"
    );
    // An unknown token also returns false.
    assert!(!revoke_token(&mut store, "nope").unwrap());
}

#[test]
fn tokens_expire_with_their_window() {
    let row = |used: bool| {
        Some(TokenRow {
            created_at_ns: 100,
            label: String::new(),
            used,
        })
    };
    assert!(judge_token(row(false), 110, 10).is_ok());
    assert_eq!(
        judge_token(row(false), 111, 10).unwrap_err(),
        EnrollReject::TokenExpired
    );
    // A clock that went backwards does not expire it.
    assert!(judge_token(row(false), 1, 0).is_ok());
    assert_eq!(
        judge_token(row(true), 100, 10).unwrap_err(),
        EnrollReject::TokenUsed
    );
    assert_eq!(
        judge_token(None, 100, 10).unwrap_err(),
        EnrollReject::UnknownToken
    );
    assert_eq!(
        EnrollReject::TokenExpired.to_string(),
        "enrollment token expired"
    );

    let (_d, mut store) = open_tmp();
    let (token, _) = create_token_from(&mut store, "l", &[1u8; 32], 0).unwrap();
    let day = 86_400_000_000_000u64;
    let late = enroll_at(&mut store, &token, "h", "o", [0; 32], day + 1, &[2u8; 16]).unwrap();
    assert_eq!(
        late,
        EnrollOutcome::Rejected {
            reason: "enrollment token expired".to_string()
        }
    );
    let ok = enroll_at(&mut store, &token, "h", "o", [0; 32], day, &[2u8; 16]).unwrap();
    assert_eq!(
        ok,
        EnrollOutcome::Accepted {
            agent_id: "02020202-0202-0202-0202-020202020202".to_string()
        }
    );
}

#[test]
fn timestamps_wrap_and_default() {
    assert_eq!(timestamp_ns(None), 0);
    assert_eq!(timestamp_ns(Some(5)), 5);
    assert_eq!(timestamp_ns(Some((1u128 << 64) + 7)), 7);
    assert!(now_ns() > 1_500_000_000_000_000_000);
}
