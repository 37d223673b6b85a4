//! The store sink: persists derived events and heartbeats, and says what to put
//! on the live feed.
//!
//! Raw collector kinds reach the store before they reach the bus, so the sink
//! subscribes to none of them.
use crate::event::{Event, EventPayload};
use crate::live::{LiveEvent, LiveView};
use crate::plugin::{PluginKind, PluginMetadata, Subscriptions};
use crate::rows::{AgentRow, AgentView, AlertRow, DetectionRow, ScoreRow};
use crate::store::{Store, StoreError, StoreView};
use crate::{ids, keys, plugin, rows, store, text};
use vstd::prelude::*;

verus! {

/// How often the retention sweep runs, in seconds.
pub const COMPACT_INTERVAL_SECS: u64 = 3600;

/// The kinds that the sink subscribes to.
pub open spec fn sink_kinds() -> Seq<Seq<char>> {
    seq!["score"@, "detection"@, "alert"@, "heartbeat"@]
}

/// The sink's identity.
pub fn metadata() -> (out: PluginMetadata)
    ensures
        out.name@ == "store-sink"@,
        out.version@ == "0.1.0"@,
        out.description@
            == "Persists derived events (detections, scores, alerts) and heartbeats to the embedded store"@,
        out.kind == PluginKind::Sink,
        out.api_version == plugin::PLUGIN_API_VERSION,
{
    PluginMetadata::new(
        "store-sink",
        "0.1.0",
        "Persists derived events (detections, scores, alerts) and heartbeats to the embedded store",
        PluginKind::Sink,
    )
}

/// The sink's subscriptions: the derived kinds plus `heartbeat`.
pub fn subscriptions() -> (out: Subscriptions)
    ensures
        forall|kind: Seq<char>| #[trigger] out.wants(kind) <==> sink_kinds().contains(kind),
{
    let list: [&str; 4] = ["score", "detection", "alert", "heartbeat"];
    let out: Subscriptions = Subscriptions::kinds(&list);
    assert(plugin::slices(list@) =~= sink_kinds());
    out
}

/// What came of persisting one event.
#[derive(Debug, Clone)]
pub enum Persisted {
    /// To be published on the live feed.
    Publish(LiveEvent),
    /// The kind promises a payload that the event does not carry; it is in the
    /// audit log only.
    PayloadMismatch,
    /// A kind that the sink does not subscribe to; it is in the audit log only.
    Unexpected,
}

/// The store after an event was persisted. `alert_id` is the identifier that a
/// new alert gets.
pub open spec fn recorded(
    s: StoreView,
    ev: Event,
    payload_json: Seq<u8>,
    alert_id: Seq<u8>,
) -> StoreView {
    let logged = s.write_event(store::event_row_view(ev, payload_json));
    if ev.kind@ == "detection"@ {
        match DetectionRow::of_event(ev) {
            Some(row) => logged.put_detection(row),
            None => logged,
        }
    } else if ev.kind@ == "score"@ {
        match ScoreRow::of_event(ev) {
            Some(row) => logged.put_score(row),
            None => logged,
        }
    } else if ev.kind@ == "alert"@ {
        match AlertRow::of_event(ev, alert_id) {
            Some(row) => logged.put_alert(keys::row_key(ev.ts_ns, alert_id), row),
            None => logged,
        }
    } else if ev.kind@ == "heartbeat"@ && logged.agents.contains_key(ev.agent_id@)
        && logged.agents[ev.agent_id@] is Some {
        logged.put_agent(
            ev.agent_id@,
            AgentView { last_seen_ns: ev.ts_ns, ..logged.agents[ev.agent_id@].unwrap() },
        )
    } else {
        logged
    }
}

/// What is said of an event that was persisted. `hostname` is that of the agent
/// that a heartbeat is from, if it is known.
pub open spec fn published(ev: Event, hostname: Option<Seq<char>>, out: Persisted) -> bool {
    if ev.kind@ == "detection"@ {
        match DetectionRow::of_event(ev) {
            Some(row) => out matches Persisted::Publish(live) && live@ == (LiveView::Detection {
                agent_id: row.agent_id,
                subject: row.subject,
                verdict: row.verdict,
                confidence_bits: row.confidence_bits,
                ts_ns: row.ts_ns,
            }),
            None => out is PayloadMismatch,
        }
    } else if ev.kind@ == "score"@ {
        match ScoreRow::of_event(ev) {
            Some(row) => out matches Persisted::Publish(live) && live@ == (LiveView::Score {
                agent_id: row.agent_id,
                subject: row.subject,
                score_bits: row.score_bits,
                ts_ns: row.ts_ns,
            }),
            None => out is PayloadMismatch,
        }
    } else if ev.kind@ == "alert"@ {
        match AlertRow::of_event(ev, Seq::empty()) {
            Some(row) => out matches Persisted::Publish(live) && live@ == (LiveView::Alert {
                agent_id: row.agent_id,
                severity: row.severity,
                title: row.title,
                subject: row.subject,
                ts_ns: row.ts_ns,
            }),
            None => out is PayloadMismatch,
        }
    } else if ev.kind@ == "heartbeat"@ {
        out matches Persisted::Publish(live) && live@ == (LiveView::AgentSeen {
            agent_id: ev.agent_id@,
            hostname,
            ts_ns: ev.ts_ns,
        })
    } else {
        out is Unexpected
    }
}

/// What persisting an event says, given the store after it: a heartbeat names the
/// host of its agent, if that is enrolled and could be read.
pub open spec fn reported(after: StoreView, ev: Event, out: Persisted) -> bool {
    ||| published(ev, None, out)
    ||| {
        &&& after.agents.contains_key(ev.agent_id@)
        &&& after.agents[ev.agent_id@] is Some
        &&& published(ev, Some(after.agents[ev.agent_id@].unwrap().hostname), out)
    }
}

/// The hostname that a heartbeat is published with: that of the enrolled agent.
/// Where it cannot be read there is none.
pub fn seen_hostname(lookup: Result<Option<AgentRow>, StoreError>) -> (hostname: Option<String>)
    ensures
        match lookup {
            Ok(Some(row)) => hostname == Some(row.hostname),
            _ => hostname is None,
        },
{
    match lookup {
        Ok(Some(row)) => Some(row.hostname),
        _ => None,
    }
}

/// What to say of an event once it is persisted, given the hostname of its agent if
/// that is known.
pub fn publication(ev: &Event, hostname: Option<String>) -> (out: Persisted)
    ensures
        published(*ev, rows::opt_chars(hostname), out),
{
    let kind: &str = ev.kind.as_str();
    if text::same(kind, "detection") {
        match DetectionRow::from_event(ev) {
            Some(row) => Persisted::Publish(
                LiveEvent::Detection {
                    agent_id: row.agent_id,
                    subject: row.subject,
                    verdict: row.verdict,
                    confidence_bits: row.confidence_bits,
                    ts_ns: row.ts_ns,
                },
            ),
            None => Persisted::PayloadMismatch,
        }
    } else if text::same(kind, "score") {
        match ScoreRow::from_event(ev) {
            Some(row) => Persisted::Publish(
                LiveEvent::Score {
                    agent_id: row.agent_id,
                    subject: row.subject,
                    score_bits: row.score_bits,
                    ts_ns: row.ts_ns,
                },
            ),
            None => Persisted::PayloadMismatch,
        }
    } else if text::same(kind, "alert") {
        match &ev.payload {
            EventPayload::Alert { severity, title, subject, .. } => Persisted::Publish(
                LiveEvent::Alert {
                    agent_id: ev.agent_id.clone(),
                    severity: severity.name(),
                    title: title.clone(),
                    subject: rows::copy_opt(subject),
                    ts_ns: ev.ts_ns,
                },
            ),
            _ => Persisted::PayloadMismatch,
        }
    } else if text::same(kind, "heartbeat") {
        Persisted::Publish(
            LiveEvent::AgentSeen { agent_id: ev.agent_id.clone(), hostname, ts_ns: ev.ts_ns },
        )
    } else {
        Persisted::Unexpected
    }
}

/// Persist one subscribed event with a random identifier for a new alert.
///
/// Every event goes to the audit log, then the write of its kind is made. Where
/// a hostname cannot be read, a heartbeat is published without one.
pub fn handle(store: &mut Store, ev: &Event, payload_json: Vec<u8>) -> (res: Result<
    Persisted,
    StoreError,
>)
    requires
        old(store).wf(),
    ensures
        final(store).wf(),
        exists|alert_id: Seq<u8>|
            ids::is_v4(alert_id) && #[trigger] handled(
                old(store)@,
                *ev,
                payload_json@,
                alert_id,
                res,
                final(store)@,
            ),
{
    let alert_id: [u8; 16] = ids::new_v4();
    let res: Result<Persisted, StoreError> = handle_as(store, ev, payload_json, &alert_id);
    assert(ids::is_v4(alert_id@));
    res
}

/// Whether what persisting an event has to read does not decode: the index of its
/// agent or, for a heartbeat, the agent.
pub open spec fn unreadable(s: StoreView, ev: Event) -> bool {
    s.index_corrupt(ev.agent_id@) || ev.kind@ == "heartbeat"@ && store::corrupt(
        s.agents,
        ev.agent_id@,
    )
}

/// A heartbeat is of no other kind that the sink takes.
proof fn lemma_heartbeat_differs()
    ensures
        "heartbeat"@ != "detection"@,
        "heartbeat"@ != "score"@,
        "heartbeat"@ != "alert"@,
{
    reveal_strlit("heartbeat");
    reveal_strlit("detection");
    reveal_strlit("score");
    reveal_strlit("alert");
    assert("heartbeat"@[0] == 'h');
    assert("detection"@[0] == 'd');
}

/// What persisting an event comes to: its whole effect and its report, or an
/// error after none of its writes, the first, or both. It fails where the agent's
/// index is no index, or a heartbeat's agent has bytes that are no row; only these
/// make the store corrupt here.
pub open spec fn handled(
    before: StoreView,
    ev: Event,
    payload_json: Seq<u8>,
    alert_id: Seq<u8>,
    res: Result<Persisted, StoreError>,
    after: StoreView,
) -> bool {
    match res {
        Ok(out) => {
            &&& !unreadable(before, ev)
            &&& after == recorded(before, ev, payload_json, alert_id)
            &&& reported(after, ev, out)
        },
        Err(e) => {
            &&& e is Corrupt ==> unreadable(before, ev)
            &&& {
                ||| after == before
                ||| after == before.write_event(store::event_row_view(ev, payload_json))
                ||| after == recorded(before, ev, payload_json, alert_id)
            }
        },
    }
}

/// [`handle`] with a given identifier for a new alert.
pub fn handle_as(
    store: &mut Store,
    ev: &Event,
    payload_json: Vec<u8>,
    alert_id: &[u8; 16],
) -> (res: Result<Persisted, StoreError>)
    requires
        old(store).wf(),
    ensures
        final(store).wf(),
        handled(old(store)@, *ev, payload_json@, alert_id@, res, final(store)@),
{
    proof {
        lemma_heartbeat_differs();
    }
    if let Err(e) = store.write_event(ev, payload_json) {
        return Err(e);
    }
    let kind: &str = ev.kind.as_str();
    let mut hostname: Option<String> = None;
    if text::same(kind, "detection") {
        if let Some(row) = DetectionRow::from_event(ev) {
            if let Err(e) = store.upsert_detection(&row) {
                return Err(e);
            }
        }
    } else if text::same(kind, "score") {
        if let Some(row) = ScoreRow::from_event(ev) {
            if let Err(e) = store.upsert_score(&row) {
                return Err(e);
            }
        }
    } else if text::same(kind, "alert") {
        if let Some(row) = AlertRow::from_event_as(ev, alert_id) {
            if let Err(e) = store.append_alert_with(&row, alert_id) {
                return Err(e);
            }
        }
    } else if text::same(kind, "heartbeat") {
        proof {
            let agents = store@.agents;
            if agents.contains_key(ev.agent_id@) && agents[ev.agent_id@] is Some {
                assert(store::found(agents, ev.agent_id@, agents[ev.agent_id@].unwrap()));
            }
        }
        if let Err(e) = store.touch_agent(ev.agent_id.as_str(), ev.ts_ns) {
            return Err(e);
        }
        hostname = seen_hostname(store.agent(ev.agent_id.as_str()));
    }
    Ok(publication(ev, hostname))
}

} // verus!
