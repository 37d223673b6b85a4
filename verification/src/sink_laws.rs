//! Laws of the store sink: what a handled event leaves in the store, and what is said
//! of it.
use crate::event::{Event, EventPayload};
use crate::live::LiveEvent;
use crate::plugin::Subscriptions;
use crate::rows::AgentRow;
use crate::sink::{self, Persisted};
use crate::store::{Store, StoreError};
use crate::{ids, keys, plugin};
use vstd::prelude::*;

verus! {

/// The kinds that the sink tells apart are different.
proof fn lemma_kinds_differ()
    ensures
        "detection"@ != "score"@,
        "detection"@ != "alert"@,
        "detection"@ != "heartbeat"@,
        "score"@ != "alert"@,
        "score"@ != "heartbeat"@,
        "alert"@ != "heartbeat"@,
{
    reveal_strlit("detection");
    reveal_strlit("score");
    reveal_strlit("alert");
    reveal_strlit("heartbeat");
    assert("detection"@.len() == 9 && "detection"@[0] == 'd');
    assert("score"@.len() == 5 && "score"@[0] == 's');
    assert("alert"@.len() == 5 && "alert"@[0] == 'a');
    assert("heartbeat"@.len() == 9 && "heartbeat"@[0] == 'h');
}

/// Once a detection was handled, the cell of its agent and subject holds that event's
/// verdict, confidence, model, reasons and time, whatever it held before. No other cell
/// changes, nor any score, alert, agent or token.
pub proof fn law_handled_detection_is_the_latest(
    store: &mut Store,
    ev: &Event,
    payload_json: Vec<u8>,
    alert_id: &[u8; 16],
    out: Persisted,
)
    requires
        old(store).wf(),
        ev.kind@ == "detection"@,
        ev.payload is Detection,
        call_ensures(
            sink::handle_as,
            (store, ev, payload_json, alert_id),
            Ok::<Persisted, StoreError>(out),
        ),
    ensures
        ev.payload matches EventPayload::Detection {
            subject,
            verdict,
            confidence_bits,
            model,
            reasons,
            ..
        } && {
            let cell = ev.agent_id@ + seq![':'] + subject@;
            &&& final(store)@.detections.contains_key(cell)
            &&& final(store)@.detections[cell] matches Some(row) && {
                &&& row.agent_id == ev.agent_id@
                &&& row.subject == subject@
                &&& verdict is Human ==> row.verdict == "human"@
                &&& verdict is Agent ==> row.verdict == "agent"@
                &&& verdict is Uncertain ==> row.verdict == "uncertain"@
                &&& row.confidence_bits == confidence_bits
                &&& row.model == model@
                &&& row.reasons.len() == reasons@.len()
                &&& forall|i: int|
                    0 <= i < reasons@.len() ==> #[trigger] row.reasons[i] == reasons@[i]@
                &&& row.ts_ns == ev.ts_ns
            }
            &&& forall|k: Seq<char>|
                k != cell ==> #[trigger] final(store)@.detections[k] == old(store)@.detections[k]
            &&& forall|k: Seq<char>|
                k != cell ==> (#[trigger] final(store)@.detections.contains_key(k) <==> old(store)@.detections.contains_key(k))
            &&& out matches Persisted::Publish(
                LiveEvent::Detection {
                    agent_id: a,
                    subject: s,
                    verdict: v,
                    confidence_bits: c,
                    ts_ns: t,
                },
            ) && {
                &&& a@ == ev.agent_id@
                &&& s@ == subject@
                &&& verdict is Human ==> v@ == "human"@
                &&& verdict is Agent ==> v@ == "agent"@
                &&& verdict is Uncertain ==> v@ == "uncertain"@
                &&& c == confidence_bits
                &&& t == ev.ts_ns
            }
        },
        final(store)@.scores == old(store)@.scores,
        final(store)@.alerts == old(store)@.alerts,
        final(store)@.agents == old(store)@.agents,
        final(store)@.tokens == old(store)@.tokens,
{
    lemma_kinds_differ();
    if let EventPayload::Detection { subject, reasons, .. } = ev.payload {
        let cell = ev.agent_id@ + seq![':'] + subject@;
        let row = final(store)@.detections[cell].unwrap();
        assert(row.reasons == plugin::names(reasons@));
        assert forall|i: int| 0 <= i < reasons@.len() implies #[trigger] row.reasons[i]
            == reasons@[i]@ by {
            assert(plugin::names(reasons@)[i] == reasons@[i]@);
        }
    }
}

/// Once a score was handled, the cell of its agent and subject holds that event's model,
/// score and time, whatever it held before. No other cell changes, nor any detection,
/// alert, agent or token.
pub proof fn law_handled_score_is_the_latest(
    store: &mut Store,
    ev: &Event,
    payload_json: Vec<u8>,
    alert_id: &[u8; 16],
    out: Persisted,
)
    requires
        old(store).wf(),
        ev.kind@ == "score"@,
        ev.payload is Score,
        call_ensures(
            sink::handle_as,
            (store, ev, payload_json, alert_id),
            Ok::<Persisted, StoreError>(out),
        ),
    ensures
        ev.payload matches EventPayload::Score { subject, model, score_bits, .. } && {
            let cell = ev.agent_id@ + seq![':'] + subject@;
            &&& final(store)@.scores.contains_key(cell)
            &&& final(store)@.scores[cell] matches Some(row) && {
                &&& row.agent_id == ev.agent_id@
                &&& row.subject == subject@
                &&& row.model == model@
                &&& row.score_bits == score_bits
                &&& row.ts_ns == ev.ts_ns
            }
            &&& forall|k: Seq<char>|
                k != cell ==> #[trigger] final(store)@.scores[k] == old(store)@.scores[k]
            &&& forall|k: Seq<char>|
                k != cell ==> (#[trigger] final(store)@.scores.contains_key(k) <==> old(store)@.scores.contains_key(k))
            &&& out matches Persisted::Publish(
                LiveEvent::Score { agent_id: a, subject: s, score_bits: b, ts_ns: t },
            ) && a@ == ev.agent_id@ && s@ == subject@ && b == score_bits && t == ev.ts_ns
        },
        final(store)@.detections == old(store)@.detections,
        final(store)@.alerts == old(store)@.alerts,
        final(store)@.agents == old(store)@.agents,
        final(store)@.tokens == old(store)@.tokens,
{
    lemma_kinds_differ();
}

/// Once an alert was handled, the alert log has it under its time and the new
/// identifier, with the event's severity, title, detail and subject, not acknowledged.
/// No other alert changes, nor any detection, score, agent or token.
pub proof fn law_handled_alert_is_logged(
    store: &mut Store,
    ev: &Event,
    payload_json: Vec<u8>,
    alert_id: &[u8; 16],
    out: Persisted,
)
    requires
        old(store).wf(),
        ev.kind@ == "alert"@,
        ev.payload is Alert,
        call_ensures(
            sink::handle_as,
            (store, ev, payload_json, alert_id),
            Ok::<Persisted, StoreError>(out),
        ),
    ensures
        ev.payload matches EventPayload::Alert { severity, title, detail, subject } && {
            let key = keys::row_key(ev.ts_ns, alert_id@);
            &&& final(store)@.alerts.contains_key(key)
            &&& final(store)@.alerts[key] matches Some(row) && {
                &&& row.id == ids::uuid_text(alert_id@)
                &&& row.agent_id == ev.agent_id@
                &&& severity is Info ==> row.severity == "info"@
                &&& severity is Low ==> row.severity == "low"@
                &&& severity is Medium ==> row.severity == "medium"@
                &&& severity is High ==> row.severity == "high"@
                &&& severity is Critical ==> row.severity == "critical"@
                &&& row.title == title@
                &&& row.detail == detail@
                &&& row.subject is Some <==> subject is Some
                &&& subject is Some ==> row.subject.unwrap() == subject.unwrap()@
                &&& row.ts_ns == ev.ts_ns
                &&& !row.acknowledged
            }
            &&& forall|k: Seq<u8>|
                k != key ==> #[trigger] final(store)@.alerts[k] == old(store)@.alerts[k]
            &&& forall|k: Seq<u8>|
                k != key ==> (#[trigger] final(store)@.alerts.contains_key(k) <==> old(store)@.alerts.contains_key(k))
            &&& out matches Persisted::Publish(
                LiveEvent::Alert { agent_id: a, severity: v, title: h, subject: s, ts_ns: t },
            ) && {
                &&& a@ == ev.agent_id@
                &&& severity is Info ==> v@ == "info"@
                &&& severity is Low ==> v@ == "low"@
                &&& severity is Medium ==> v@ == "medium"@
                &&& severity is High ==> v@ == "high"@
                &&& severity is Critical ==> v@ == "critical"@
                &&& h@ == title@
                &&& s is Some <==> subject is Some
                &&& subject is Some ==> s.unwrap()@ == subject.unwrap()@
                &&& t == ev.ts_ns
            }
        },
        final(store)@.detections == old(store)@.detections,
        final(store)@.scores == old(store)@.scores,
        final(store)@.agents == old(store)@.agents,
        final(store)@.tokens == old(store)@.tokens,
{
    lemma_kinds_differ();
}

/// A heartbeat sets when its agent was last seen, if that agent is enrolled, and nothing
/// else but the log; it is published under the agent's own identifier and time, with no
/// hostname but the agent's.
pub proof fn law_handled_heartbeat_touches_its_agent(
    store: &mut Store,
    ev: &Event,
    payload_json: Vec<u8>,
    alert_id: &[u8; 16],
    out: Persisted,
)
    requires
        old(store).wf(),
        ev.kind@ == "heartbeat"@,
        call_ensures(
            sink::handle_as,
            (store, ev, payload_json, alert_id),
            Ok::<Persisted, StoreError>(out),
        ),
    ensures
        old(store)@.agents.contains_key(ev.agent_id@) ==> {
            let was = old(store)@.agents[ev.agent_id@];
            let is = final(store)@.agents[ev.agent_id@];
            &&& was is Some && is is Some
            &&& is.unwrap().last_seen_ns == ev.ts_ns
            &&& is.unwrap().agent_id == was.unwrap().agent_id
            &&& is.unwrap().hostname == was.unwrap().hostname
            &&& is.unwrap().os == was.unwrap().os
            &&& is.unwrap().pubkey == was.unwrap().pubkey
            &&& is.unwrap().enrolled_at_ns == was.unwrap().enrolled_at_ns
        },
        forall|k: Seq<char>|
            #[trigger] final(store)@.agents.contains_key(k) <==> old(store)@.agents.contains_key(k),
        forall|k: Seq<char>|
            k != ev.agent_id@ ==> #[trigger] final(store)@.agents[k] == old(store)@.agents[k],
        final(store)@.detections == old(store)@.detections,
        final(store)@.scores == old(store)@.scores,
        final(store)@.alerts == old(store)@.alerts,
        final(store)@.tokens == old(store)@.tokens,
        out matches Persisted::Publish(
            LiveEvent::AgentSeen { agent_id, hostname, ts_ns },
        ) && {
            &&& agent_id@ == ev.agent_id@
            &&& ts_ns == ev.ts_ns
            &&& hostname is Some ==> old(store)@.agents.contains_key(ev.agent_id@)
                && hostname.unwrap()@ == old(store)@.agents[ev.agent_id@].unwrap().hostname
        },
{
    lemma_kinds_differ();
}

/// Whatever its kind, a handled event is in the audit log under its time and
/// identifier, field by field.
pub proof fn law_handled_event_is_logged(
    store: &mut Store,
    ev: &Event,
    payload_json: Vec<u8>,
    alert_id: &[u8; 16],
    out: Persisted,
)
    requires
        old(store).wf(),
        call_ensures(
            sink::handle_as,
            (store, ev, payload_json, alert_id),
            Ok::<Persisted, StoreError>(out),
        ),
    ensures
        ({
            let key = keys::row_key(ev.ts_ns, ev.id@);
            &&& final(store)@.events.contains_key(key)
            &&& final(store)@.events[key] matches Some(row) && {
                &&& row.id == ev.id@
                &&& row.ts_ns == ev.ts_ns
                &&& row.agent_id == ev.agent_id@
                &&& row.source == ev.source@
                &&& row.kind == ev.kind@
                &&& row.payload_json == payload_json@
            }
            &&& forall|k: Seq<u8>|
                k != key ==> #[trigger] final(store)@.events[k] == old(store)@.events[k]
            &&& final(store)@.index[ev.agent_id@] is Some
            &&& final(store)@.index[ev.agent_id@].unwrap().len() > 0
            &&& final(store)@.index[ev.agent_id@].unwrap().last() == key
        }),
        final(store)@.tokens == old(store)@.tokens,
{
}

/// An event of another kind, or one whose payload is not what its kind promises, is
/// logged and has no other effect; it is not published.
pub proof fn law_other_events_are_only_logged(
    store: &mut Store,
    ev: &Event,
    payload_json: Vec<u8>,
    alert_id: &[u8; 16],
    out: Persisted,
)
    requires
        old(store).wf(),
        ev.kind@ != "heartbeat"@,
        ev.kind@ == "detection"@ ==> !(ev.payload is Detection),
        ev.kind@ == "score"@ ==> !(ev.payload is Score),
        ev.kind@ == "alert"@ ==> !(ev.payload is Alert),
        call_ensures(
            sink::handle_as,
            (store, ev, payload_json, alert_id),
            Ok::<Persisted, StoreError>(out),
        ),
    ensures
        final(store)@.detections == old(store)@.detections,
        final(store)@.scores == old(store)@.scores,
        final(store)@.alerts == old(store)@.alerts,
        final(store)@.agents == old(store)@.agents,
        final(store)@.tokens == old(store)@.tokens,
        !(out is Publish),
        out is PayloadMismatch <==> ev.kind@ == "detection"@ || ev.kind@ == "score"@ || ev.kind@
            == "alert"@,
{
    lemma_kinds_differ();
}

/// The hostname of a heartbeat is that of the agent's row, and there is none without a
/// row.
pub proof fn law_heartbeat_names_the_enrolled_host(
    row: AgentRow,
    named: Option<String>,
    error: StoreError,
    unread: Option<String>,
    unknown: Option<String>,
)
    requires
        call_ensures(
            sink::seen_hostname,
            (Ok::<Option<AgentRow>, StoreError>(Some(row)),),
            named,
        ),
        call_ensures(
            sink::seen_hostname,
            (Err::<Option<AgentRow>, StoreError>(error),),
            unread,
        ),
        call_ensures(
            sink::seen_hostname,
            (Ok::<Option<AgentRow>, StoreError>(None::<AgentRow>),),
            unknown,
        ),
    ensures
        named matches Some(h) && h@ == row.hostname@,
        unread is None,
        unknown is None,
{
}

/// What is published of an event is the event's own.
pub proof fn law_publication_is_the_event(
    ev: &Event,
    hostname: Option<String>,
    out: Persisted,
)
    requires
        call_ensures(sink::publication, (ev, hostname), out),
    ensures
        ev.kind@ == "heartbeat"@ ==> (out matches Persisted::Publish(
            LiveEvent::AgentSeen { agent_id: a, hostname: h, ts_ns: t },
        ) && a@ == ev.agent_id@ && t == ev.ts_ns && (h is Some <==> hostname is Some) && (
        hostname is Some ==> h.unwrap()@ == hostname.unwrap()@)),
        ev.kind@ == "score"@ ==> match ev.payload {
            EventPayload::Score { subject, score_bits, .. } => out matches Persisted::Publish(
                LiveEvent::Score { agent_id: a, subject: s, score_bits: b, ts_ns: t },
            ) && a@ == ev.agent_id@ && s@ == subject@ && b == score_bits && t == ev.ts_ns,
            _ => out is PayloadMismatch,
        },
        ev.kind@ == "detection"@ ==> match ev.payload {
            EventPayload::Detection { subject, confidence_bits, .. } => out
                matches Persisted::Publish(
                LiveEvent::Detection {
                    agent_id: a,
                    subject: s,
                    confidence_bits: c,
                    ts_ns: t,
                    ..
                },
            ) && a@ == ev.agent_id@ && s@ == subject@ && c == confidence_bits && t == ev.ts_ns,
            _ => out is PayloadMismatch,
        },
        ev.kind@ == "alert"@ ==> match ev.payload {
            EventPayload::Alert { title, .. } => out matches Persisted::Publish(
                LiveEvent::Alert { agent_id: a, title: h, ts_ns: t, .. },
            ) && a@ == ev.agent_id@ && h@ == title@ && t == ev.ts_ns,
            _ => out is PayloadMismatch,
        },
        ev.kind@ != "heartbeat"@ && ev.kind@ != "score"@ && ev.kind@ != "detection"@ && ev.kind@
            != "alert"@ ==> out is Unexpected,
{
    lemma_kinds_differ();
}

/// The sink takes scores, detections, alerts and heartbeats, and no other kind.
pub proof fn law_sink_takes_four_kinds(out: Subscriptions, kind: Seq<char>)
    requires
        call_ensures(sink::subscriptions, (), out),
    ensures
        out.wants(kind) <==> kind == "score"@ || kind == "detection"@ || kind == "alert"@ || kind
            == "heartbeat"@,
{
    let kinds = sink::sink_kinds();
    assert(kinds[0] == "score"@ && kinds[1] == "detection"@);
    assert(kinds[2] == "alert"@ && kinds[3] == "heartbeat"@);
}

/// The retention sweep runs hourly.
pub proof fn law_sweep_is_hourly()
    ensures
        sink::COMPACT_INTERVAL_SECS == 60 * 60,
{
}

/// Persisting an event under a random identifier leaves what persisting it under a given
/// one does: the log has it, and the cell of a detection or a score holds it.
pub proof fn law_handled_findings_are_the_latest(
    store: &mut Store,
    ev: &Event,
    payload_json: Vec<u8>,
    out: Persisted,
)
    requires
        old(store).wf(),
        call_ensures(
            sink::handle,
            (store, ev, payload_json),
            Ok::<Persisted, StoreError>(out),
        ),
    ensures
        ({
            let key = keys::row_key(ev.ts_ns, ev.id@);
            &&& final(store)@.events.contains_key(key)
            &&& final(store)@.events[key] matches Some(row) && {
                &&& row.id == ev.id@
                &&& row.ts_ns == ev.ts_ns
                &&& row.agent_id == ev.agent_id@
                &&& row.source == ev.source@
                &&& row.kind == ev.kind@
                &&& row.payload_json == payload_json@
            }
        }),
        ev.kind@ == "detection"@ ==> match ev.payload {
            EventPayload::Detection { subject, confidence_bits, model, .. } => final(store)@.detections[ev.agent_id@ + seq![':'] + subject@] matches Some(row) && {
                &&& row.agent_id == ev.agent_id@
                &&& row.subject == subject@
                &&& row.confidence_bits == confidence_bits
                &&& row.model == model@
                &&& row.ts_ns == ev.ts_ns
            },
            _ => final(store)@.detections == old(store)@.detections,
        },
        ev.kind@ != "detection"@ ==> final(store)@.detections == old(store)@.detections,
        ev.kind@ == "score"@ ==> match ev.payload {
            EventPayload::Score { subject, model, score_bits, .. } => final(store)@.scores[ev.agent_id@ + seq![':'] + subject@] matches Some(row) && {
                &&& row.agent_id == ev.agent_id@
                &&& row.subject == subject@
                &&& row.model == model@
                &&& row.score_bits == score_bits
                &&& row.ts_ns == ev.ts_ns
            },
            _ => final(store)@.scores == old(store)@.scores,
        },
        ev.kind@ != "score"@ ==> final(store)@.scores == old(store)@.scores,
        ev.kind@ == "alert"@ ==> match ev.payload {
            EventPayload::Alert { title, detail, .. } => exists|id: Seq<u8>|
                ids::is_v4(id) && (#[trigger] final(store)@.alerts[keys::row_key(ev.ts_ns, id)]
                    matches Some(row) && {
                    &&& row.id == ids::uuid_text(id)
                    &&& row.agent_id == ev.agent_id@
                    &&& row.title == title@
                    &&& row.detail == detail@
                    &&& row.ts_ns == ev.ts_ns
                    &&& !row.acknowledged
                }),
            _ => final(store)@.alerts == old(store)@.alerts,
        },
        ev.kind@ != "alert"@ ==> final(store)@.alerts == old(store)@.alerts,
        ev.kind@ != "heartbeat"@ ==> final(store)@.agents == old(store)@.agents,
        final(store)@.tokens == old(store)@.tokens,
{
    lemma_kinds_differ();
    let id = choose|id: Seq<u8>|
        ids::is_v4(id) && #[trigger] sink::handled(
            old(store)@,
            *ev,
            payload_json@,
            id,
            Ok::<Persisted, StoreError>(out),
            final(store)@,
        );
    if ev.kind@ == "alert"@ && ev.payload is Alert {
        let row = final(store)@.alerts[keys::row_key(ev.ts_ns, id)];
        assert(row is Some);
    }
}

} // verus!
