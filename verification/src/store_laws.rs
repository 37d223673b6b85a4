//! What holds of the store across operations.
use crate::rows::{
    AgentRow, AgentView, AlertRow, AlertView, DetectionRow, DetectionView, EventRow, EventView, ScoreRow,
    ScoreView, TokenRow, TokenView,
};
use crate::event::Event;
use crate::store::{EnrollReject, Store, StoreError, StoreView, AGENT_EVENT_INDEX_LIMIT};
use crate::{ids, keys, kv, plugin, rows, store};
use vstd::prelude::*;

verus! {

/// A score is read back as it was written, and replaces the one before it.
pub proof fn law_latest_score_is_read_back(s: StoreView, earlier: ScoreView, row: ScoreView)
    requires
        earlier.agent_id == row.agent_id,
        earlier.subject == row.subject,
    ensures
        store::found(
            s.put_score(row).scores,
            keys::subject_cell(row.agent_id, row.subject),
            row,
        ),
        s.put_score(earlier).put_score(row) == s.put_score(row),
{
    assert(s.put_score(earlier).put_score(row).scores =~= s.put_score(row).scores);
}

/// A detection is read back as it was written, and replaces the one before it.
pub proof fn law_latest_detection_is_read_back(
    s: StoreView,
    earlier: DetectionView,
    row: DetectionView,
)
    requires
        earlier.agent_id == row.agent_id,
        earlier.subject == row.subject,
    ensures
        store::found(
            s.put_detection(row).detections,
            keys::subject_cell(row.agent_id, row.subject),
            row,
        ),
        s.put_detection(earlier).put_detection(row) == s.put_detection(row),
{
    assert(s.put_detection(earlier).put_detection(row).detections
        =~= s.put_detection(row).detections);
}

/// A write for one agent leaves every cell of another agent as it is, also where
/// both use the same subject.
pub proof fn law_agents_do_not_share_cells(
    s: StoreView,
    score: ScoreView,
    detection: DetectionView,
    agent_id: Seq<char>,
    subject: Seq<char>,
)
    requires
        !agent_id.contains(':'),
        !score.agent_id.contains(':'),
        !detection.agent_id.contains(':'),
        score.agent_id != agent_id,
        detection.agent_id != agent_id,
    ensures
        ({
            let cell = keys::subject_cell(agent_id, subject);
            let after = s.put_score(score).put_detection(detection);
            &&& after.scores.contains_key(cell) == s.scores.contains_key(cell)
            &&& after.scores[cell] == s.scores[cell]
            &&& after.detections.contains_key(cell) == s.detections.contains_key(cell)
            &&& after.detections[cell] == s.detections[cell]
        }),
{
    let cell = keys::subject_cell(agent_id, subject);
    if cell == keys::subject_cell(score.agent_id, score.subject) {
        keys::law_subject_cells_do_not_collide(
            agent_id,
            subject,
            score.agent_id,
            score.subject,
        );
    }
    if cell == keys::subject_cell(detection.agent_id, detection.subject) {
        keys::law_subject_cells_do_not_collide(
            agent_id,
            subject,
            detection.agent_id,
            detection.subject,
        );
    }
}

/// A token admits one agent: once it did, every further attempt is refused as
/// used, whenever it comes.
pub proof fn law_token_is_single_use(
    s: StoreView,
    token: Seq<char>,
    row: TokenView,
    agent: AgentView,
    now_ns: u64,
    validity_ns: u64,
)
    ensures
        store::refusal(
            s.burn_and_enroll(token, row, agent).token_row(token),
            now_ns,
            validity_ns,
        ) == Some(EnrollReject::TokenUsed),
{
}

/// A revoked token is unknown from then on.
pub proof fn law_revoked_token_is_unknown(
    s: StoreView,
    token: Seq<char>,
    now_ns: u64,
    validity_ns: u64,
)
    ensures
        store::refusal(s.remove_token(token).token_row(token), now_ns, validity_ns) == Some(
            EnrollReject::UnknownToken,
        ),
{
}

/// A token that was just created is accepted throughout its validity window and
/// refused as expired after it.
pub proof fn law_token_expires_with_its_window(
    s: StoreView,
    token: Seq<char>,
    row: TokenView,
    now_ns: u64,
    validity_ns: u64,
)
    requires
        !row.used,
    ensures
        now_ns <= row.created_at_ns + validity_ns ==> store::refusal(
            s.put_token(token, row).token_row(token),
            now_ns,
            validity_ns,
        ) is None,
        now_ns > row.created_at_ns + validity_ns ==> store::refusal(
            s.put_token(token, row).token_row(token),
            now_ns,
            validity_ns,
        ) == Some(EnrollReject::TokenExpired),
{
}

/// An enrollment, whatever came of it, leaves the store as it was or leaves the
/// token consumed together with its agent: never one without the other.
pub proof fn law_enrollment_is_atomic(
    before: StoreView,
    token: Seq<char>,
    now_ns: u64,
    validity_ns: u64,
    agent: AgentView,
    res: Result<Result<(String, AgentRow), EnrollReject>, StoreError>,
    after: StoreView,
)
    requires
        store::enrolled(before, token, now_ns, validity_ns, agent, res, after),
    ensures
        after == before || {
            &&& after.token_row(token) is Some
            &&& after.token_row(token).unwrap().used
            &&& store::found(after.agents, agent.agent_id, agent)
        },
        res matches Ok(Ok(_)) ==> after != before,
        res matches Ok(Err(_)) ==> after == before,
{
    if res matches Ok(Ok(_)) {
        assert(!before.token_row(token).unwrap().used);
    }
}

/// An agent's index never holds more than its limit, and the newest event is
/// always in it.
pub proof fn law_index_is_bounded(s: StoreView, row: EventView)
    ensures
        s.write_event(row).index_keys(row.agent_id).len() <= AGENT_EVENT_INDEX_LIMIT,
        s.write_event(row).index_keys(row.agent_id).last() == keys::row_key(row.ts_ns, row.id),
{
}

/// The store after a run of writes.
pub open spec fn written(s: StoreView, rows: Seq<EventView>) -> StoreView
    decreases rows.len(),
{
    if rows.len() == 0 {
        s
    } else {
        written(s, rows.drop_last()).write_event(rows.last())
    }
}

/// The keys of a run of events, in order.
pub open spec fn row_keys(rows: Seq<EventView>) -> Seq<Seq<u8>> {
    rows.map_values(|row: EventView| keys::row_key(row.ts_ns, row.id))
}

/// After a run of writes for an agent its index holds the newest keys, in the order of
/// the writes, after those it had: as many as the limit allows.
pub proof fn law_index_holds_the_newest_of_a_run(
    s: StoreView,
    agent_id: Seq<char>,
    rows: Seq<EventView>,
)
    requires
        s.index_keys(agent_id).len() <= AGENT_EVENT_INDEX_LIMIT,
        forall|i: int| 0 <= i < rows.len() ==> (#[trigger] rows[i]).agent_id == agent_id,
    ensures
        written(s, rows).index_keys(agent_id) == store::capped(
            s.index_keys(agent_id) + row_keys(rows),
        ),
    decreases rows.len(),
{
    let had = s.index_keys(agent_id);
    if rows.len() == 0 {
        assert(had + row_keys(rows) =~= had);
    } else {
        let rest = rows.drop_last();
        law_index_holds_the_newest_of_a_run(s, agent_id, rest);
        let key = keys::row_key(rows.last().ts_ns, rows.last().id);
        let before = had + row_keys(rest);
        assert(rows[rows.len() - 1].agent_id == agent_id);
        assert(had + row_keys(rows) =~= before.push(key));
        assert(store::capped(store::capped(before).push(key)) =~= store::capped(before.push(key)));
    }
}

/// An event that was just written is the first of its agent's first page.
pub proof fn law_written_event_leads_the_first_page(s: StoreView, row: EventView, size: nat)
    requires
        size > 0,
    ensures
        ({
            let after = s.write_event(row);
            let page = store::page_of(after.index_keys(row.agent_id), 0, size);
            &&& page.len() > 0
            &&& page[0] == keys::row_key(row.ts_ns, row.id)
            &&& store::found(after.events, page[0], row)
        }),
{
    assert(0 * size == 0) by (nonlinear_arith);
}

/// The events of one agent are no concern of another's index.
pub proof fn law_events_are_indexed_by_agent(s: StoreView, row: EventView, agent_id: Seq<char>)
    requires
        agent_id != row.agent_id,
    ensures
        s.write_event(row).index_keys(agent_id) == s.index_keys(agent_id),
{
}

/// Acknowledging an alert twice is acknowledging it once; no alert is added or
/// lost, and none but that one changes.
pub proof fn law_acknowledge_is_idempotent(s: StoreView, key: Seq<u8>)
    requires
        s.alerts.contains_key(key),
        s.alerts[key] is Some,
    ensures
        s.acknowledge(key).acknowledge(key) == s.acknowledge(key),
        s.acknowledge(key).alerts.dom() == s.alerts.dom(),
        s.acknowledge(key).alerts[key].unwrap().acknowledged,
        forall|k: Seq<u8>| k != key ==> #[trigger] s.acknowledge(key).alerts[k] == s.alerts[k],
{
    assert(s.acknowledge(key).acknowledge(key).alerts =~= s.acknowledge(key).alerts);
    assert(s.acknowledge(key).alerts.dom() =~= s.alerts.dom());
}

/// Retention keeps the events and alerts of the window and drops the older ones;
/// everything else stays.
pub proof fn law_retention_drops_what_is_older(
    s: StoreView,
    now: u64,
    retention_ns: u64,
    ts_ns: u64,
    id: Seq<u8>,
)
    requires
        now >= retention_ns,
        id.len() == 16,
    ensures
        ({
            let after = s.expire(now, retention_ns);
            let key = keys::row_key(ts_ns, id);
            let kept = ts_ns >= now - retention_ns;
            &&& after.events.contains_key(key) == (kept && s.events.contains_key(key))
            &&& after.alerts.contains_key(key) == (kept && s.alerts.contains_key(key))
            &&& kept && s.events.contains_key(key) ==> after.events[key] == s.events[key]
            &&& kept && s.alerts.contains_key(key) ==> after.alerts[key] == s.alerts[key]
            &&& after == (StoreView { events: after.events, alerts: after.alerts, ..s })
        }),
{
    keys::law_cutoff_separates_by_age(ts_ns, id, (now - retention_ns) as u64);
}

/// A clock that has not reached the retention window expires nothing.
pub proof fn law_retention_below_window_is_a_no_op(s: StoreView, now: u64, retention_ns: u64)
    requires
        now < retention_ns,
    ensures
        s.expire(now, retention_ns) == s,
{
}

/// Every alert that decodes stands under a key that begins with its time.
pub open spec fn alerts_keyed_by_time(s: StoreView) -> bool {
    forall|k: Seq<u8>, row: AlertView| #[trigger]
        store::found(s.alerts, k, row) ==> exists|id: Seq<u8>| k == keys::row_key(row.ts_ns, id)
}

/// Appending, acknowledging and expiring keep every alert under its time.
pub proof fn law_alerts_stay_keyed_by_time(
    s: StoreView,
    row: AlertView,
    fallback: Seq<u8>,
    acked: Seq<u8>,
    now: u64,
    retention_ns: u64,
)
    requires
        alerts_keyed_by_time(s),
        s.alerts.contains_key(acked),
        s.alerts[acked] is Some,
    ensures
        alerts_keyed_by_time(s.put_alert(store::alert_key(row, fallback), row)),
        alerts_keyed_by_time(s.acknowledge(acked)),
        alerts_keyed_by_time(s.expire(now, retention_ns)),
{
    let appended = s.put_alert(store::alert_key(row, fallback), row);
    assert forall|k: Seq<u8>, r: AlertView| #[trigger]
        store::found(appended.alerts, k, r) implies exists|id: Seq<u8>|
        k == keys::row_key(r.ts_ns, id) by {
        if k == store::alert_key(row, fallback) {
            assert(r == row);
        } else {
            assert(store::found(s.alerts, k, r));
        }
    }
    let was = s.alerts[acked].unwrap();
    assert(store::found(s.alerts, acked, was));
    assert forall|k: Seq<u8>, r: AlertView| #[trigger]
        store::found(s.acknowledge(acked).alerts, k, r) implies exists|id: Seq<u8>|
        k == keys::row_key(r.ts_ns, id) by {
        if k == acked {
            assert(r.ts_ns == was.ts_ns);
        } else {
            assert(store::found(s.alerts, k, r));
        }
    }
    assert forall|k: Seq<u8>, r: AlertView| #[trigger]
        store::found(s.expire(now, retention_ns).alerts, k, r) implies exists|id: Seq<u8>|
        k == keys::row_key(r.ts_ns, id) by {
        assert(store::found(s.alerts, k, r));
    }
}

/// An event that was written is in the log under its time and identifier, field by
/// field; no other event, and nothing but its agent's index, changes.
pub proof fn law_written_event_is_logged_field_by_field(
    store: &mut Store,
    ev: &Event,
    payload_json: Vec<u8>,
)
    requires
        old(store).wf(),
        call_ensures(Store::write_event, (store, ev, payload_json), Ok::<(), StoreError>(())),
    ensures
        ({
            let key = keys::row_key(ev.ts_ns, ev.id@);
            &&& final(store)@.events.contains_key(key)
            &&& final(store)@.events[key] matches Some(row) && {
                &&& row.id == ev.id@
                &&& row.ts_ns == ev.ts_ns
                &&& row.agent_id == ev.agent_id@
                &&& row.source == ev.source@
                &&& row.kind == ev.kind@
                &&& row.payload_json == payload_json@
            }
            &&& forall|k: Seq<u8>|
                k != key ==> (#[trigger] final(store)@.events.contains_key(k)
                    <==> old(store)@.events.contains_key(k))
            &&& forall|k: Seq<u8>|
                k != key ==> #[trigger] final(store)@.events[k] == old(store)@.events[k]
            &&& final(store)@.index[ev.agent_id@] is Some
            &&& ({
                let was = if old(store)@.index.contains_key(ev.agent_id@) {
                    old(store)@.index[ev.agent_id@].unwrap()
                } else {
                    Seq::empty()
                };
                let now = final(store)@.index[ev.agent_id@].unwrap();
                &&& now.len() > 0
                &&& now.last() == key
                &&& was.len() < 10_000 ==> now == was.push(key)
                &&& was.len() == 10_000 ==> now == was.skip(1).push(key)
            })
        }),
        forall|a: Seq<char>|
            a != ev.agent_id@ ==> #[trigger] final(store)@.index[a] == old(store)@.index[a],
        final(store)@.detections == old(store)@.detections,
        final(store)@.scores == old(store)@.scores,
        final(store)@.alerts == old(store)@.alerts,
        final(store)@.agents == old(store)@.agents,
        final(store)@.tokens == old(store)@.tokens,
{
}

/// The cell of an agent's subject: both, with a colon between them.
pub proof fn law_cell_is_agent_colon_subject(agent_id: &str, subject: &str, key: String)
    requires
        call_ensures(keys::subject_key, (agent_id, subject), key),
    ensures
        key@.len() == agent_id@.len() + 1 + subject@.len(),
        key@.take(agent_id@.len() as int) == agent_id@,
        key@[agent_id@.len() as int] == ':',
        key@.skip(agent_id@.len() as int + 1) == subject@,
{
    assert(key@.take(agent_id@.len() as int) =~= agent_id@);
    assert(key@.skip(agent_id@.len() as int + 1) =~= subject@);
}

/// A detection that was written is what is read of its agent and subject from then on,
/// whatever was there before; nothing else changes.
pub proof fn law_upserted_detection_is_the_latest(
    store: &mut Store,
    row: &DetectionRow,
    reader: &Store,
    agent_id: &str,
    subject: &str,
    read: Option<DetectionRow>,
)
    requires
        old(store).wf(),
        call_ensures(Store::upsert_detection, (store, row), Ok::<(), StoreError>(())),
        reader@ == final(store)@,
        agent_id@ == row.agent_id@,
        subject@ == row.subject@,
        call_ensures(
            Store::detection,
            (reader, agent_id, subject),
            Ok::<Option<DetectionRow>, StoreError>(read),
        ),
    ensures
        read matches Some(r) && {
            &&& r.agent_id@ == row.agent_id@
            &&& r.subject@ == row.subject@
            &&& r.verdict@ == row.verdict@
            &&& r.confidence_bits == row.confidence_bits
            &&& r.model@ == row.model@
            &&& plugin::names(r.reasons@) == plugin::names(row.reasons@)
            &&& r.ts_ns == row.ts_ns
        },
        forall|k: Seq<char>|
            k != row.agent_id@ + seq![':'] + row.subject@ ==> #[trigger] final(store)@.detections[k]
                == old(store)@.detections[k],
        final(store)@.events == old(store)@.events,
        final(store)@.index == old(store)@.index,
        final(store)@.scores == old(store)@.scores,
        final(store)@.alerts == old(store)@.alerts,
        final(store)@.agents == old(store)@.agents,
        final(store)@.tokens == old(store)@.tokens,
{
    if let Some(r) = read {
        assert(r@ == row@);
        assert(r@.agent_id == row@.agent_id);
    }
}

/// A score that was written is what is read of its agent and subject from then on,
/// whatever was there before; nothing else changes.
pub proof fn law_upserted_score_is_the_latest(
    store: &mut Store,
    row: &ScoreRow,
    reader: &Store,
    agent_id: &str,
    subject: &str,
    read: Option<ScoreRow>,
)
    requires
        old(store).wf(),
        call_ensures(Store::upsert_score, (store, row), Ok::<(), StoreError>(())),
        reader@ == final(store)@,
        agent_id@ == row.agent_id@,
        subject@ == row.subject@,
        call_ensures(
            Store::score,
            (reader, agent_id, subject),
            Ok::<Option<ScoreRow>, StoreError>(read),
        ),
    ensures
        read matches Some(r) && {
            &&& r.agent_id@ == row.agent_id@
            &&& r.subject@ == row.subject@
            &&& r.model@ == row.model@
            &&& r.score_bits == row.score_bits
            &&& r.ts_ns == row.ts_ns
        },
        forall|k: Seq<char>|
            k != row.agent_id@ + seq![':'] + row.subject@ ==> #[trigger] final(store)@.scores[k]
                == old(store)@.scores[k],
        final(store)@.events == old(store)@.events,
        final(store)@.index == old(store)@.index,
        final(store)@.detections == old(store)@.detections,
        final(store)@.alerts == old(store)@.alerts,
        final(store)@.agents == old(store)@.agents,
        final(store)@.tokens == old(store)@.tokens,
{
    if let Some(r) = read {
        assert(r@ == row@);
        assert(r@.agent_id == row@.agent_id);
    }
}

/// An alert that was appended stands in the log field by field, under its time and its
/// identifier, or the one given in its place; no other alert changes.
pub proof fn law_appended_alert_is_logged_field_by_field(
    store: &mut Store,
    row: &AlertRow,
    fallback: &[u8; 16],
)
    requires
        old(store).wf(),
        call_ensures(Store::append_alert_with, (store, row, fallback), Ok::<(), StoreError>(())),
    ensures
        ({
            let id = if ids::uuid_of(row.id@) is Some {
                ids::uuid_of(row.id@).unwrap()
            } else {
                fallback@
            };
            let key = keys::row_key(row.ts_ns, id);
            &&& final(store)@.alerts.contains_key(key)
            &&& final(store)@.alerts[key] matches Some(r) && {
                &&& r.id == row.id@
                &&& r.agent_id == row.agent_id@
                &&& r.severity == row.severity@
                &&& r.title == row.title@
                &&& r.detail == row.detail@
                &&& r.subject == rows::opt_chars(row.subject)
                &&& r.ts_ns == row.ts_ns
                &&& r.acknowledged == row.acknowledged
            }
            &&& forall|k: Seq<u8>|
                k != key ==> (#[trigger] final(store)@.alerts.contains_key(k)
                    <==> old(store)@.alerts.contains_key(k))
            &&& forall|k: Seq<u8>|
                k != key ==> #[trigger] final(store)@.alerts[k] == old(store)@.alerts[k]
        }),
        final(store)@.events == old(store)@.events,
        final(store)@.index == old(store)@.index,
        final(store)@.detections == old(store)@.detections,
        final(store)@.scores == old(store)@.scores,
        final(store)@.agents == old(store)@.agents,
        final(store)@.tokens == old(store)@.tokens,
{
}

/// Touching an enrolled agent sets when it was last seen and nothing else, of that agent
/// or of any other; an agent that is not enrolled is not made.
pub proof fn law_touch_sets_the_time_alone(store: &mut Store, agent_id: &str, ts_ns: u64)
    requires
        old(store).wf(),
        call_ensures(Store::touch_agent, (store, agent_id, ts_ns), Ok::<(), StoreError>(())),
    ensures
        final(store)@.agents.contains_key(agent_id@) <==> old(store)@.agents.contains_key(agent_id@),
        old(store)@.agents.contains_key(agent_id@) ==> {
            let was = old(store)@.agents[agent_id@];
            let now = final(store)@.agents[agent_id@];
            &&& was is Some && now is Some
            &&& now.unwrap().last_seen_ns == ts_ns
            &&& now.unwrap().agent_id == was.unwrap().agent_id
            &&& now.unwrap().hostname == was.unwrap().hostname
            &&& now.unwrap().os == was.unwrap().os
            &&& now.unwrap().pubkey == was.unwrap().pubkey
            &&& now.unwrap().enrolled_at_ns == was.unwrap().enrolled_at_ns
        },
        forall|k: Seq<char>|
            k != agent_id@ ==> #[trigger] final(store)@.agents[k] == old(store)@.agents[k],
        final(store)@.events == old(store)@.events,
        final(store)@.index == old(store)@.index,
        final(store)@.detections == old(store)@.detections,
        final(store)@.scores == old(store)@.scores,
        final(store)@.alerts == old(store)@.alerts,
        final(store)@.tokens == old(store)@.tokens,
{
    let agents = old(store)@.agents;
    if agents.contains_key(agent_id@) && agents[agent_id@] is Some {
        assert(store::found(agents, agent_id@, agents[agent_id@].unwrap()));
    } else if agents.contains_key(agent_id@) {
        assert(store::corrupt(agents, agent_id@));
    }
}

/// A token that was inserted is read back as it is, and no other token changes.
pub proof fn law_inserted_token_is_read_back(
    store: &mut Store,
    token: &str,
    row: &TokenRow,
    reader: &Store,
    read: Option<TokenRow>,
)
    requires
        old(store).wf(),
        call_ensures(Store::insert_token, (store, token, row), Ok::<(), StoreError>(())),
        reader@ == final(store)@,
        call_ensures(
            Store::token,
            (reader, token),
            Ok::<Option<TokenRow>, StoreError>(read),
        ),
    ensures
        read matches Some(r) && {
            &&& r.created_at_ns == row.created_at_ns
            &&& r.label@ == row.label@
            &&& r.used == row.used
        },
        forall|k: Seq<char>|
            k != token@ ==> #[trigger] final(store)@.tokens[k] == old(store)@.tokens[k],
        final(store)@.agents == old(store)@.agents,
        final(store)@.events == old(store)@.events,
        final(store)@.alerts == old(store)@.alerts,
{
    if let Some(r) = read {
        assert(r@ == row@);
        assert(r@.label == row@.label);
    }
}

/// A revocation removes an unused token and leaves every other; one that is used or
/// unknown is refused, and stays.
pub proof fn law_revocation_spares_used_tokens(store: &mut Store, token: &str, removed: bool)
    requires
        old(store).wf(),
        call_ensures(
            Store::revoke_token_if_unused,
            (store, token),
            Ok::<bool, StoreError>(removed),
        ),
    ensures
        removed <==> old(store)@.tokens.contains_key(token@) && old(store)@.tokens[token@] is Some && !old(store)@.tokens[token@].unwrap().used,
        removed ==> !final(store)@.tokens.contains_key(token@),
        !removed ==> final(store)@ == old(store)@,
        forall|k: Seq<char>|
            k != token@ ==> (#[trigger] final(store)@.tokens.contains_key(k) <==> old(store)@.tokens.contains_key(k)),
        forall|k: Seq<char>|
            k != token@ && old(store)@.tokens.contains_key(k) ==> #[trigger] final(store)@.tokens[k]
                == old(store)@.tokens[k],
        final(store)@.agents == old(store)@.agents,
        final(store)@.events == old(store)@.events,
        final(store)@.alerts == old(store)@.alerts,
{
}

/// An accepted enrollment records the endpoint as it presented itself: under the text of
/// the assigned identifier there is a row with that hostname, operating system and key,
/// enrolled and last seen now. The token is consumed and otherwise as it was. No other
/// agent and no other token changes.
pub proof fn law_enrolled_agent_is_recorded_as_presented(
    store: &mut Store,
    id: &[u8; 16],
    token: &str,
    now_ns: u64,
    validity_ns: u64,
    hostname: &str,
    os: &str,
    pubkey: [u8; 32],
    out: (String, AgentRow),
)
    requires
        old(store).wf(),
        call_ensures(
            Store::enroll_as,
            (store, id, token, now_ns, validity_ns, hostname, os, pubkey),
            Ok::<Result<(String, AgentRow), EnrollReject>, StoreError>(
                Ok::<(String, AgentRow), EnrollReject>(out),
            ),
        ),
    ensures
        out.0@ == ids::uuid_text(id@),
        out.1.agent_id@ == out.0@,
        out.1.hostname@ == hostname@,
        out.1.os@ == os@,
        out.1.pubkey@ == pubkey@,
        out.1.enrolled_at_ns == now_ns,
        out.1.last_seen_ns == now_ns,
        final(store)@.agents.contains_key(out.0@),
        final(store)@.agents[out.0@] matches Some(row) && {
            &&& row.agent_id == out.0@
            &&& row.hostname == hostname@
            &&& row.os == os@
            &&& row.pubkey == pubkey@
            &&& row.enrolled_at_ns == now_ns
            &&& row.last_seen_ns == now_ns
        },
        forall|k: Seq<char>|
            k != out.0@ ==> #[trigger] final(store)@.agents[k] == old(store)@.agents[k],
        old(store)@.tokens.contains_key(token@),
        old(store)@.tokens[token@] matches Some(was) && !was.used && now_ns - was.created_at_ns
            <= validity_ns && (final(store)@.tokens[token@] matches Some(is) && is.used
            && is.created_at_ns == was.created_at_ns && is.label == was.label),
        forall|k: Seq<char>|
            k != token@ ==> #[trigger] final(store)@.tokens[k] == old(store)@.tokens[k],
        final(store)@.events == old(store)@.events,
        final(store)@.index == old(store)@.index,
        final(store)@.detections == old(store)@.detections,
        final(store)@.scores == old(store)@.scores,
        final(store)@.alerts == old(store)@.alerts,
{
    assert(out.1@.agent_id == out.1.agent_id@);
    assert(out.1@.hostname == out.1.hostname@);
    assert(out.1@.os == out.1.os@);
    assert(out.1@.pubkey == out.1.pubkey@);
}

/// A refused enrollment has a reason: the token is not on file, or was used, or is older
/// than its window; and it leaves the store as it was.
pub proof fn law_refused_enrollment_has_its_reason(
    store: &mut Store,
    id: &[u8; 16],
    token: &str,
    now_ns: u64,
    validity_ns: u64,
    hostname: &str,
    os: &str,
    pubkey: [u8; 32],
    reject: EnrollReject,
)
    requires
        old(store).wf(),
        call_ensures(
            Store::enroll_as,
            (store, id, token, now_ns, validity_ns, hostname, os, pubkey),
            Ok::<Result<(String, AgentRow), EnrollReject>, StoreError>(
                Err::<(String, AgentRow), EnrollReject>(reject),
            ),
        ),
    ensures
        final(store)@ == old(store)@,
        reject == EnrollReject::UnknownToken <==> !old(store)@.tokens.contains_key(token@),
        reject == EnrollReject::TokenUsed ==> (old(store)@.tokens[token@] matches Some(row)
            && row.used),
        reject == EnrollReject::TokenExpired ==> (old(store)@.tokens[token@] matches Some(row)
            && !row.used && now_ns > row.created_at_ns + validity_ns),
{
}

/// What a token is worth: unknown if there is none, used if it was used, expired if its
/// window is over, and given back as it is otherwise.
pub proof fn law_token_is_judged_by_use_and_age(
    token: Option<TokenRow>,
    now_ns: u64,
    validity_ns: u64,
    out: Result<TokenRow, EnrollReject>,
)
    requires
        call_ensures(store::judge_token, (token, now_ns, validity_ns), out),
    ensures
        token is None <==> out == Err::<TokenRow, EnrollReject>(EnrollReject::UnknownToken),
        token matches Some(row) ==> {
            &&& row.used <==> out == Err::<TokenRow, EnrollReject>(EnrollReject::TokenUsed)
            &&& !row.used && now_ns > row.created_at_ns + validity_ns <==> out == Err::<
                TokenRow,
                EnrollReject,
            >(EnrollReject::TokenExpired)
            &&& !row.used && now_ns <= row.created_at_ns + validity_ns <==> out == Ok::<
                TokenRow,
                EnrollReject,
            >(row)
        },
{
}

/// The reasons that an agent is told.
pub proof fn law_reject_reasons(reject: &EnrollReject, said: String)
    requires
        call_ensures(EnrollReject::to_string, (reject,), said),
    ensures
        *reject == EnrollReject::UnknownToken ==> said@ == "unknown or invalid enrollment token"@,
        *reject == EnrollReject::TokenUsed ==> said@ == "enrollment token already used"@,
        *reject == EnrollReject::TokenExpired ==> said@ == "enrollment token expired"@,
{
}

/// Acknowledging sets the flag of the oldest alert with the identifier and changes
/// nothing else; where none has it, nothing changes.
pub proof fn law_acknowledging_sets_one_flag(store: &mut Store, id: &str, hit: bool)
    requires
        old(store).wf(),
        call_ensures(Store::acknowledge_alert, (store, id), Ok::<bool, StoreError>(hit)),
    ensures
        !hit ==> final(store)@ == old(store)@,
        !hit ==> forall|k: Seq<u8>|
            #[trigger] old(store)@.alerts.contains_key(k) ==> (old(store)@.alerts[k] matches Some(
                row,
            ) && row.id != id@),
        hit ==> exists|k: Seq<u8>| #[trigger] flag_set(old(store)@, final(store)@, id@, k),
{
    if hit {
        let key = choose|key: Seq<u8>|
            store::oldest_with_id(old(store)@.alerts, id@, key) && #[trigger] old(store)@.acknowledge(key) == final(store)@;
        assert(final(store)@.alerts.dom() =~= old(store)@.alerts.dom());
        assert forall|k: Seq<u8>| #[trigger] old(store)@.alerts.contains_key(k)
            && kv::bytes_less(k, key) implies (old(store)@.alerts[k] matches Some(row) && row.id
            != id@) by {
            assert(!store::corrupt(old(store)@.alerts, k) && !store::has_id(
                old(store)@.alerts,
                k,
                id@,
            ));
        }
        assert(flag_set(old(store)@, final(store)@, id@, key));
    } else {
        assert forall|k: Seq<u8>| #[trigger] old(store)@.alerts.contains_key(k) implies old(store)@.alerts[k] matches Some(row) && row.id != id@ by {
            assert(!store::corrupt(old(store)@.alerts, k) && !store::has_id(
                old(store)@.alerts,
                k,
                id@,
            ));
        }
    }
}

/// The alert under a key has the identifier and none below it has; afterwards it is
/// acknowledged, and all else is as it was.
pub open spec fn flag_set(
    before: StoreView,
    after: StoreView,
    id: Seq<char>,
    key: Seq<u8>,
) -> bool {
    &&& before.alerts.contains_key(key)
    &&& before.alerts[key] matches Some(was) && was.id == id && (
    after.alerts[key] matches Some(is) && {
        &&& is.acknowledged
        &&& is.id == was.id
        &&& is.agent_id == was.agent_id
        &&& is.severity == was.severity
        &&& is.title == was.title
        &&& is.detail == was.detail
        &&& is.subject == was.subject
        &&& is.ts_ns == was.ts_ns
    })
    &&& forall|k: Seq<u8>|
        #[trigger] before.alerts.contains_key(k) && kv::bytes_less(k, key) ==> (
        before.alerts[k] matches Some(row) && row.id != id)
    &&& after.alerts.dom() == before.alerts.dom()
    &&& forall|k: Seq<u8>| k != key ==> #[trigger] after.alerts[k] == before.alerts[k]
    &&& after.events == before.events
    &&& after.index == before.index
    &&& after.detections == before.detections
    &&& after.scores == before.scores
    &&& after.agents == before.agents
    &&& after.tokens == before.tokens
}

/// Compaction keeps every event and alert of the window and drops every older one;
/// detections, scores, agents, tokens and indexes stay.
pub proof fn law_compaction_keeps_the_window(
    store: &mut Store,
    now: u64,
    retention_ns: u64,
    reclaimed: bool,
    ts_ns: u64,
    id: Seq<u8>,
)
    requires
        old(store).wf(),
        id.len() == 16,
        call_ensures(
            Store::compact_at,
            (store, now, retention_ns),
            Ok::<bool, StoreError>(reclaimed),
        ),
    ensures
        ({
            let key = keys::row_key(ts_ns, id);
            let kept = ts_ns + retention_ns >= now;
            &&& final(store)@.events.contains_key(key) <==> kept && old(store)@.events.contains_key(key)
            &&& final(store)@.alerts.contains_key(key) <==> kept && old(store)@.alerts.contains_key(key)
            &&& kept && old(store)@.events.contains_key(key) ==> final(store)@.events[key] == old(store)@.events[key]
            &&& kept && old(store)@.alerts.contains_key(key) ==> final(store)@.alerts[key] == old(store)@.alerts[key]
        }),
        final(store)@.index == old(store)@.index,
        final(store)@.detections == old(store)@.detections,
        final(store)@.scores == old(store)@.scores,
        final(store)@.agents == old(store)@.agents,
        final(store)@.tokens == old(store)@.tokens,
{
    if now >= retention_ns {
        law_retention_drops_what_is_older(old(store)@, now, retention_ns, ts_ns, id);
    }
}

/// A listing has every row of the table, and nothing else.
pub proof fn law_listing_is_the_table<V>(
    table: Map<Seq<char>, Option<V>>,
    values: Seq<V>,
    key: Seq<char>,
    row: V,
)
    requires
        store::listed(table, values),
    ensures
        table.contains_key(key) && table[key] == Some(row) ==> values.contains(row),
        values.contains(row) ==> exists|k: Seq<char>|
            #[trigger] table.contains_key(k) && table[k] == Some(row),
        forall|k: Seq<char>| #[trigger] table.contains_key(k) ==> table[k] is Some,
{
    let order = choose|order: Seq<Seq<char>>| #[trigger] store::lists(table, order, values);
    if table.contains_key(key) && table[key] == Some(row) {
        assert(order.contains(key));
        let p = choose|p: int| 0 <= p < order.len() && order[p] == key;
        assert(store::found(table, order[p], values[p]));
        assert(values[p] == row);
    }
    if values.contains(row) {
        let p = choose|p: int| 0 <= p < values.len() && values[p] == row;
        assert(store::found(table, order[p], values[p]));
        assert(table.contains_key(order[p]));
    }
    assert forall|k: Seq<char>| #[trigger] table.contains_key(k) implies table[k] is Some by {
        assert(order.contains(k));
        let p = choose|p: int| 0 <= p < order.len() && order[p] == k;
        assert(store::found(table, order[p], values[p]));
    }
}

/// An agent that is enrolled is in the listing of agents, and what is read of it alone
/// is what the listing has.
pub proof fn law_agent_is_listed_as_it_is_read(
    store: &Store,
    agent_id: &str,
    row: AgentRow,
    all: Vec<AgentRow>,
)
    requires
        store.wf(),
        call_ensures(
            Store::agent,
            (store, agent_id),
            Ok::<Option<AgentRow>, StoreError>(Some(row)),
        ),
        call_ensures(Store::agents, (store,), Ok::<Vec<AgentRow>, StoreError>(all)),
    ensures
        exists|i: int|
            0 <= i < all@.len() && (#[trigger] all@[i]).agent_id@ == row.agent_id@
                && all@[i].hostname@ == row.hostname@ && all@[i].os@ == row.os@ && all@[i].pubkey@
                == row.pubkey@ && all@[i].enrolled_at_ns == row.enrolled_at_ns
                && all@[i].last_seen_ns == row.last_seen_ns,
{
    law_listing_is_the_table(store@.agents, store::agent_views(all@), agent_id@, row@);
    let views = store::agent_views(all@);
    let p = choose|p: int| 0 <= p < views.len() && views[p] == row@;
    assert(all@[p]@ == row@);
    assert(all@[p]@.hostname == row@.hostname);
}

/// The scores and detections of one agent are those of the whole listing that are its
/// own.
pub proof fn law_listing_of_an_agent_is_its_own(
    store: &Store,
    agent_id: &str,
    scores: Vec<ScoreRow>,
    detections: Vec<DetectionRow>,
    key: Seq<char>,
    score: ScoreView,
    detection: DetectionView,
)
    requires
        store.wf(),
        call_ensures(
            Store::scores_for_agent,
            (store, agent_id),
            Ok::<Vec<ScoreRow>, StoreError>(scores),
        ),
        call_ensures(
            Store::detections_for_agent,
            (store, agent_id),
            Ok::<Vec<DetectionRow>, StoreError>(detections),
        ),
    ensures
        forall|i: int| 0 <= i < scores@.len() ==> (#[trigger] scores@[i]).agent_id@ == agent_id@,
        forall|i: int|
            0 <= i < detections@.len() ==> (#[trigger] detections@[i]).agent_id@ == agent_id@,
        store@.scores.contains_key(key) && store@.scores[key] == Some(score) && score.agent_id
            == agent_id@ ==> exists|i: int| 0 <= i < scores@.len() && (#[trigger] scores@[i])@
            == score,
        store@.detections.contains_key(key) && store@.detections[key] == Some(detection)
            && detection.agent_id == agent_id@ ==> exists|i: int|
            0 <= i < detections@.len() && (#[trigger] detections@[i])@ == detection,
{
    let own_score = |row: ScoreView| row.agent_id == agent_id@;
    let all_scores = choose|all: Seq<ScoreView>| #[trigger]
        store::listed(store@.scores, all) && store::score_views(scores@) == all.filter(own_score);
    law_listing_is_the_table(store@.scores, all_scores, key, score);
    assert forall|i: int| 0 <= i < scores@.len() implies (#[trigger] scores@[i]).agent_id@
        == agent_id@ by {
        all_scores.lemma_filter_pred(own_score, i);
        assert(store::score_views(scores@)[i] == scores@[i]@);
    }
    if all_scores.contains(score) && own_score(score) {
        let p = choose|p: int| 0 <= p < all_scores.len() && all_scores[p] == score;
        all_scores.lemma_filter_contains(own_score, p);
        let q = choose|q: int|
            0 <= q < store::score_views(scores@).len() && store::score_views(scores@)[q] == score;
        assert(scores@[q]@ == score);
    }
    let own = |row: DetectionView| row.agent_id == agent_id@;
    let all = choose|all: Seq<DetectionView>| #[trigger]
        store::listed(store@.detections, all) && store::detection_views(detections@) == all.filter(
            own,
        );
    law_listing_is_the_table(store@.detections, all, key, detection);
    assert forall|i: int| 0 <= i < detections@.len() implies (#[trigger] detections@[i]).agent_id@
        == agent_id@ by {
        all.lemma_filter_pred(own, i);
        assert(store::detection_views(detections@)[i] == detections@[i]@);
    }
    if all.contains(detection) && own(detection) {
        let p = choose|p: int| 0 <= p < all.len() && all[p] == detection;
        all.lemma_filter_contains(own, p);
        let q = choose|q: int|
            0 <= q < store::detection_views(detections@).len() && store::detection_views(
                detections@,
            )[q] == detection;
        assert(detections@[q]@ == detection);
    }
}

/// A page counts from the end of the index: entry `i` of page `p` is the key that was
/// written `p * size + i` writes before the last.
pub proof fn law_pages_count_from_the_newest(keys: Seq<Seq<u8>>, page: nat, size: nat, i: int)
    requires
        0 <= i < size,
    ensures
        page * size + i < keys.len() <==> i < store::page_of(keys, page, size).len(),
        page * size + i < keys.len() ==> store::page_of(keys, page, size)[i] == keys[keys.len() - 1
            - (page * size + i)],
        store::page_of(keys, page, size).len() <= size,
{
    assert(page * size >= 0) by (nonlinear_arith);
}

/// The log has the event under one of these keys.
pub open spec fn logged_under(
    events: Map<Seq<u8>, Option<EventView>>,
    keys: Seq<Seq<u8>>,
    row: EventView,
) -> bool {
    exists|i: int|
        0 <= i < keys.len() && events.contains_key(#[trigger] keys[i]) && events[keys[i]] == Some(
            row,
        )
}

/// The events of a page are the logged rows of its keys, in order: a key whose row was
/// pruned is passed over, and no other event is shown.
pub proof fn law_page_shows_the_logged_rows(
    events: Map<Seq<u8>, Option<EventView>>,
    keys: Seq<Seq<u8>>,
    out: Seq<EventView>,
)
    requires
        store::present(events, keys) == Some(out),
    ensures
        out.len() <= keys.len(),
        forall|i: int|
            0 <= i < keys.len() && events.contains_key(#[trigger] keys[i]) ==> events[keys[i]] is Some
                && out.contains(events[keys[i]].unwrap()),
        forall|j: int| 0 <= j < out.len() ==> logged_under(events, keys, #[trigger] out[j]),
        (forall|i: int| 0 <= i < keys.len() ==> events.contains_key(#[trigger] keys[i])) ==> {
            &&& out.len() == keys.len()
            &&& forall|i: int| 0 <= i < keys.len() ==> events[#[trigger] keys[i]] == Some(out[i])
        },
    decreases keys.len(),
{
    if keys.len() > 0 {
        let rest = keys.drop_last();
        let before = store::present(events, rest).unwrap();
        law_page_shows_the_logged_rows(events, rest, before);
        let last = keys.last();
        assert forall|i: int| 0 <= i < keys.len() && events.contains_key(
            #[trigger] keys[i],
        ) implies events[keys[i]] is Some && out.contains(events[keys[i]].unwrap()) by {
            if i < rest.len() {
                assert(rest[i] == keys[i]);
                let row = events[keys[i]].unwrap();
                let p = choose|p: int| 0 <= p < before.len() && before[p] == row;
                assert(out[p] == row);
            } else {
                assert(out[out.len() - 1] == events[last].unwrap());
            }
        }
        assert forall|j: int| 0 <= j < out.len() implies logged_under(
            events,
            keys,
            #[trigger] out[j],
        ) by {
            if j < before.len() {
                assert(out[j] == before[j]);
                assert(logged_under(events, rest, before[j]));
                let i = choose|i: int|
                    0 <= i < rest.len() && events.contains_key(#[trigger] rest[i])
                        && events[rest[i]] == Some(before[j]);
                assert(keys[i] == rest[i]);
            } else {
                assert(keys[keys.len() - 1] == last);
            }
        }
        if forall|i: int| 0 <= i < keys.len() ==> events.contains_key(#[trigger] keys[i]) {
            assert forall|i: int| 0 <= i < rest.len() implies events.contains_key(
                #[trigger] rest[i],
            ) by {
                assert(keys[i] == rest[i]);
            }
            assert(events.contains_key(keys[keys.len() - 1]));
            assert forall|i: int| 0 <= i < keys.len() implies events[#[trigger] keys[i]] == Some(
                out[i],
            ) by {
                if i < rest.len() {
                    assert(keys[i] == rest[i]);
                    assert(out[i] == before[i]);
                }
            }
        }
    }
}

/// The index of an agent keeps its keys as they are up to the limit; past it the oldest
/// leave, and only as many as must.
pub proof fn law_index_sheds_its_oldest(keys: Vec<[u8; 24]>, out: Vec<[u8; 24]>)
    requires
        call_ensures(store::cap_index, (keys,), out),
    ensures
        keys@.len() <= 10_000 ==> rows::key_list(out@) == rows::key_list(keys@),
        keys@.len() > 10_000 ==> rows::key_list(out@) == rows::key_list(keys@).skip(
            keys@.len() - 10_000,
        ),
{
}

/// What the store promises to keep: ten thousand keys an agent, and thirty days.
pub proof fn law_store_limits()
    ensures
        AGENT_EVENT_INDEX_LIMIT == 10_000,
        store::RETENTION_NS == 30 * 24 * 60 * 60 * 1_000_000_000,
{
}

/// The recent alerts come newest first.
pub proof fn law_recent_alerts_descend_in_time(s: StoreView, limit: nat, out: Seq<AlertView>)
    requires
        alerts_keyed_by_time(s),
        store::newest(s.alerts, limit, out),
    ensures
        out.len() <= limit,
        forall|i: int, j: int|
            0 <= i < j < out.len() ==> (#[trigger] out[i]).ts_ns >= (#[trigger] out[j]).ts_ns,
{
    let order = choose|order: Seq<Seq<u8>>| #[trigger]
        store::lists_newest(s.alerts, limit, order, out);
    assert forall|i: int, j: int| 0 <= i < j < out.len() implies (#[trigger] out[i]).ts_ns >= (
    #[trigger] out[j]).ts_ns by {
        assert(store::found(s.alerts, order[i], out[i]));
        assert(store::found(s.alerts, order[j], out[j]));
        let id_i = choose|id: Seq<u8>| order[i] == keys::row_key(out[i].ts_ns, id);
        let id_j = choose|id: Seq<u8>| order[j] == keys::row_key(out[j].ts_ns, id);
        assert(kv::bytes_less(order[j], order[i]));
        if out[i].ts_ns < out[j].ts_ns {
            keys::law_key_order_is_time_order(out[i].ts_ns, id_i, out[j].ts_ns, id_j);
            keys::lemma_less_is_asymmetric(order[j], order[i]);
        }
    }
}

/// The recent alerts are those of the log with the greatest keys, greatest first: no more
/// than asked for, and none is left out while there is room.
pub proof fn law_recent_alerts_are_the_newest(
    store: &Store,
    limit: usize,
    out: Vec<AlertRow>,
    key: Seq<u8>,
)
    requires
        store.wf(),
        call_ensures(
            Store::alerts_recent,
            (store, limit),
            Ok::<Vec<AlertRow>, StoreError>(out),
        ),
        store@.alerts.contains_key(key),
    ensures
        out@.len() <= limit,
        store@.alerts[key] is Some || out@.len() == limit,
        (exists|i: int| 0 <= i < out@.len() && Some((#[trigger] out@[i])@) == store@.alerts[key])
            || out@.len() == limit && forall|i: int|
            0 <= i < out@.len() ==> under_greater_key(store@, key, (#[trigger] out@[i])@),
{
    let views = store::alert_views(out@);
    let order = choose|order: Seq<Seq<u8>>| #[trigger]
        store::lists_newest(store@.alerts, limit as nat, order, views);
    if order.contains(key) {
        let i = choose|i: int| 0 <= i < order.len() && order[i] == key;
        assert(store::found(store@.alerts, order[i], views[i]));
        assert(views[i] == out@[i]@);
    } else {
        assert forall|i: int| 0 <= i < out@.len() implies under_greater_key(
            store@,
            key,
            (#[trigger] out@[i])@,
        ) by {
            assert(views[i] == out@[i]@);
            assert(store::found(store@.alerts, order[i], views[i]));
            assert(kv::bytes_less(key, order[i]));
        }
    }
}

/// The log has the alert under a greater key.
pub open spec fn under_greater_key(s: StoreView, key: Seq<u8>, row: AlertView) -> bool {
    exists|k: Seq<u8>| #[trigger]
        s.alerts.contains_key(k) && kv::bytes_less(key, k) && s.alerts[k] == Some(row)
}

/// The scores and detections on file are listed, each of them, and nothing else.
pub proof fn law_findings_are_listed(
    store: &Store,
    scores: Vec<ScoreRow>,
    detections: Vec<DetectionRow>,
    key: Seq<char>,
)
    requires
        store.wf(),
        call_ensures(Store::scores, (store,), Ok::<Vec<ScoreRow>, StoreError>(scores)),
        call_ensures(Store::detections, (store,), Ok::<Vec<DetectionRow>, StoreError>(detections)),
    ensures
        store@.scores.contains_key(key) ==> exists|i: int|
            0 <= i < scores@.len() && Some((#[trigger] scores@[i])@) == store@.scores[key],
        store@.detections.contains_key(key) ==> exists|i: int|
            0 <= i < detections@.len() && Some((#[trigger] detections@[i])@)
                == store@.detections[key],
{
    if store@.scores.contains_key(key) {
        let views = store::score_views(scores@);
        let row = store@.scores[key];
        law_listing_is_the_table(store@.scores, views, key, row.unwrap());
        let i = choose|i: int| 0 <= i < views.len() && views[i] == row.unwrap();
        assert(scores@[i]@ == views[i]);
    }
    if store@.detections.contains_key(key) {
        let views = store::detection_views(detections@);
        let row = store@.detections[key];
        law_listing_is_the_table(store@.detections, views, key, row.unwrap());
        let i = choose|i: int| 0 <= i < views.len() && views[i] == row.unwrap();
        assert(detections@[i]@ == views[i]);
    }
}

/// Enrolling under a random identifier records the endpoint as it presented itself.
pub proof fn law_enrolled_under_a_random_identifier(
    store: &mut Store,
    token: &str,
    now_ns: u64,
    validity_ns: u64,
    hostname: &str,
    os: &str,
    pubkey: [u8; 32],
    out: (String, AgentRow),
)
    requires
        old(store).wf(),
        call_ensures(
            Store::enroll_txn,
            (store, token, now_ns, validity_ns, hostname, os, pubkey),
            Ok::<Result<(String, AgentRow), EnrollReject>, StoreError>(
                Ok::<(String, AgentRow), EnrollReject>(out),
            ),
        ),
    ensures
        exists|id: Seq<u8>| ids::is_v4(id) && out.0@ == #[trigger] ids::uuid_text(id),
        out.1.agent_id@ == out.0@,
        out.1.hostname@ == hostname@,
        out.1.os@ == os@,
        out.1.pubkey@ == pubkey@,
        out.1.enrolled_at_ns == now_ns,
        out.1.last_seen_ns == now_ns,
        final(store)@.agents[out.0@] == Some(out.1@),
        old(store)@.tokens[token@] matches Some(was) && !was.used && now_ns - was.created_at_ns
            <= validity_ns,
        final(store)@.tokens[token@] matches Some(is) && is.used,
{
    let id = choose|id: Seq<u8>|
        ids::is_v4(id) && #[trigger] store::enrolled(
            old(store)@,
            token@,
            now_ns,
            validity_ns,
            store::new_agent(ids::uuid_text(id), hostname@, os@, pubkey@, now_ns),
            Ok::<Result<(String, AgentRow), EnrollReject>, StoreError>(
                Ok::<(String, AgentRow), EnrollReject>(out),
            ),
            final(store)@,
        );
    assert(out.0@ == ids::uuid_text(id));
    assert(out.1@.agent_id == out.1.agent_id@);
    assert(out.1@.hostname == out.1.hostname@);
    assert(out.1@.os == out.1.os@);
    assert(out.1@.pubkey == out.1.pubkey@);
}

/// An alert whose identifier is a UUID is appended under its time and that identifier.
pub proof fn law_appended_alert_keeps_its_identifier(store: &mut Store, row: &AlertRow)
    requires
        old(store).wf(),
        ids::uuid_of(row.id@) is Some,
        call_ensures(Store::append_alert, (store, row), Ok::<(), StoreError>(())),
    ensures
        ({
            let key = keys::row_key(row.ts_ns, ids::uuid_of(row.id@).unwrap());
            &&& final(store)@.alerts.contains_key(key)
            &&& final(store)@.alerts[key] == Some(row@)
            &&& forall|k: Seq<u8>|
                k != key ==> #[trigger] final(store)@.alerts[k] == old(store)@.alerts[k]
        }),
        final(store)@.events == old(store)@.events,
        final(store)@.agents == old(store)@.agents,
        final(store)@.tokens == old(store)@.tokens,
{
}

/// Refreshing an agent writes its row with a new time, and none where there is no agent.
pub proof fn law_refreshed_row_has_a_new_time(
    row: AgentRow,
    error: StoreError,
    ts_ns: u64,
    known: Result<Option<AgentRow>, StoreError>,
    unknown: Result<Option<AgentRow>, StoreError>,
    failed: Result<Option<AgentRow>, StoreError>,
)
    requires
        call_ensures(
            store::refreshed,
            (Ok::<Option<AgentRow>, StoreError>(Some(row)), ts_ns),
            known,
        ),
        call_ensures(
            store::refreshed,
            (Ok::<Option<AgentRow>, StoreError>(None::<AgentRow>), ts_ns),
            unknown,
        ),
        call_ensures(
            store::refreshed,
            (Err::<Option<AgentRow>, StoreError>(error), ts_ns),
            failed,
        ),
    ensures
        known matches Ok(Some(now)) && now.last_seen_ns == ts_ns && now.agent_id@ == row.agent_id@
            && now.hostname@ == row.hostname@ && now.os@ == row.os@ && now.pubkey@ == row.pubkey@
            && now.enrolled_at_ns == row.enrolled_at_ns,
        unknown == Ok::<Option<AgentRow>, StoreError>(None),
        failed == Err::<Option<AgentRow>, StoreError>(error),
{
}

/// The cutoff is the least key of the start of the window; there is none where the clock
/// has not reached the window.
pub proof fn law_cutoff_is_the_start_of_the_window(
    now: u64,
    retention_ns: u64,
    cutoff: Option<[u8; 24]>,
    ts_ns: u64,
    id: Seq<u8>,
)
    requires
        call_ensures(store::retention_cutoff, (now, retention_ns), cutoff),
        id.len() == 16,
    ensures
        cutoff is Some <==> now >= retention_ns,
        cutoff matches Some(key) ==> (kv::bytes_less(keys::row_key(ts_ns, id), key@) <==> ts_ns
            + retention_ns < now),
{
    if let Some(key) = cutoff {
        keys::law_cutoff_separates_by_age(ts_ns, id, (now - retention_ns) as u64);
    }
}

/// Only a token that is on file unused may be revoked.
pub proof fn law_only_unused_tokens_are_revoked(
    row: TokenRow,
    known: bool,
    unknown: bool,
)
    requires
        call_ensures(store::may_revoke, (&Some(row),), known),
        call_ensures(store::may_revoke, (&None::<TokenRow>,), unknown),
    ensures
        known <==> !row.used,
        !unknown,
{
}

/// What a read comes to is the row that the bytes denote, nothing where there are none,
/// and an error where they denote no row.
pub proof fn law_replies_are_what_the_bytes_denote(
    bytes: Vec<u8>,
    agent: Result<Option<AgentRow>, StoreError>,
    token: Result<Option<TokenRow>, StoreError>,
    score: Result<Option<ScoreRow>, StoreError>,
    detection: Result<Option<DetectionRow>, StoreError>,
    index: Result<Vec<[u8; 24]>, StoreError>,
)
    requires
        call_ensures(
            store::agent_reply,
            (Ok::<Option<Vec<u8>>, redb::Error>(Some(bytes)),),
            agent,
        ),
        call_ensures(
            store::token_reply,
            (Ok::<Option<Vec<u8>>, redb::Error>(Some(bytes)),),
            token,
        ),
        call_ensures(
            store::score_reply,
            (Ok::<Option<Vec<u8>>, redb::Error>(Some(bytes)),),
            score,
        ),
        call_ensures(
            store::detection_reply,
            (Ok::<Option<Vec<u8>>, redb::Error>(Some(bytes)),),
            detection,
        ),
        call_ensures(
            store::index_reply,
            (Ok::<Option<Vec<u8>>, redb::Error>(Some(bytes)),),
            index,
        ),
    ensures
        agent matches Ok(Some(row)) ==> rows::agent_of(bytes@) == Some(row@),
        agent is Ok <==> rows::agent_of(bytes@) is Some,
        agent is Ok ==> agent.unwrap() is Some,
        token matches Ok(Some(row)) ==> rows::token_of(bytes@) == Some(row@),
        token is Ok <==> rows::token_of(bytes@) is Some,
        token is Ok ==> token.unwrap() is Some,
        score matches Ok(Some(row)) ==> rows::score_of(bytes@) == Some(row@),
        score is Ok <==> rows::score_of(bytes@) is Some,
        score is Ok ==> score.unwrap() is Some,
        detection matches Ok(Some(row)) ==> rows::detection_of(bytes@) == Some(row@),
        detection is Ok <==> rows::detection_of(bytes@) is Some,
        detection is Ok ==> detection.unwrap() is Some,
        index matches Ok(list) ==> rows::index_of(bytes@) == Some(rows::key_list(list@)),
        index is Ok <==> rows::index_of(bytes@) is Some,
{
}

/// A page covers `size` keys of the index, counted from its end.
pub proof fn law_page_bounds(total: usize, page: usize, size: usize, bounds: (usize, usize))
    requires
        call_ensures(store::page_bounds, (total, page, size), bounds),
    ensures
        bounds.0 <= bounds.1 <= total,
        page * size < total ==> bounds.1 == total - page * size && bounds.1 - bounds.0 == (if size
            <= total - page * size {
            size as int
        } else {
            total - page * size
        }),
        page * size >= total ==> bounds.0 == bounds.1,
{
}

/// The store of a directory is one file in it.
pub proof fn law_database_path(data_dir: &str, path: String)
    requires
        call_ensures(store::database_path, (data_dir,), path),
        data_dir@.len() > 0,
        data_dir@[data_dir@.len() - 1] != '/',
    ensures
        path@ == data_dir@ + "/aegis.redb"@,
{
    reveal_strlit("aegis.redb");
    reveal_strlit("/aegis.redb");
    assert("aegis.redb"@[0] == 'a');
    assert("/aegis.redb"@ =~= seq!['/'] + "aegis.redb"@);
    assert(data_dir@ + seq!['/'] + "aegis.redb"@ =~= data_dir@ + "/aegis.redb"@);
}

/// One page of an agent's events: no more than its size; where none was pruned, entry `i`
/// is the event that was written `page * size + i` writes before the agent's last.
pub proof fn law_stored_page(
    store: &Store,
    agent_id: &str,
    page: usize,
    size: usize,
    out: Vec<EventRow>,
    i: int,
)
    requires
        store.wf(),
        call_ensures(
            Store::events_for_agent,
            (store, agent_id, page, size),
            Ok::<Vec<EventRow>, StoreError>(out),
        ),
        store@.index.contains_key(agent_id@),
        0 <= i < size,
        forall|k: Seq<u8>|
            store@.index[agent_id@].unwrap().contains(k) ==> #[trigger] store@.events.contains_key(
                k,
            ),
    ensures
        out@.len() <= size,
        ({
            let keys = store@.index[agent_id@].unwrap();
            let place = page * size + i;
            &&& i < out@.len() <==> place < keys.len()
            &&& place < keys.len() ==> store@.events[keys[keys.len() - 1 - place]] == Some(
                out@[i]@,
            )
        }),
{
    let keys = store@.index[agent_id@].unwrap();
    assert(store@.index_keys(agent_id@) == keys);
    let shown = store::page_of(keys, page as nat, size as nat);
    assert(page * size >= 0) by (nonlinear_arith);
    law_pages_count_from_the_newest(keys, page as nat, size as nat, i);
    assert forall|j: int| 0 <= j < shown.len() implies store@.events.contains_key(
        #[trigger] shown[j],
    ) by {
        law_pages_count_from_the_newest(keys, page as nat, size as nat, j);
        let place = page * size + j;
        assert(keys.contains(keys[keys.len() - 1 - place]));
    }
    law_page_shows_the_logged_rows(store@.events, shown, store::event_views(out@));
    assert(store::event_views(out@).len() == out@.len());
    if i < out@.len() {
        assert(store@.events[shown[i]] == Some(store::event_views(out@)[i]));
        assert(store::event_views(out@)[i] == out@[i]@);
    }
}

/// Compaction at the time of the call keeps what is no older than the window, drops what
/// is, and changes nothing else.
pub proof fn law_compaction_spares_all_but_old_logs(
    store: &mut Store,
    retention_ns: u64,
    reclaimed: bool,
)
    requires
        old(store).wf(),
        call_ensures(Store::compact, (store, retention_ns), Ok::<bool, StoreError>(reclaimed)),
    ensures
        exists|now: u64| #[trigger] keeps_the_window(old(store)@, final(store)@, now, retention_ns),
        final(store)@.index == old(store)@.index,
        final(store)@.detections == old(store)@.detections,
        final(store)@.scores == old(store)@.scores,
        final(store)@.agents == old(store)@.agents,
        final(store)@.tokens == old(store)@.tokens,
{
    let now = choose|now: u64| #[trigger]
        store::stepped(old(store)@, old(store)@.expire(now, retention_ns), true, final(store)@);
    assert forall|ts_ns: u64, id: Seq<u8>| id.len() == 16 implies {
        let key = #[trigger] keys::row_key(ts_ns, id);
        &&& final(store)@.events.contains_key(key) <==> ts_ns + retention_ns >= now && old(
            store
        )@.events.contains_key(key)
        &&& final(store)@.alerts.contains_key(key) <==> ts_ns + retention_ns >= now && old(
            store
        )@.alerts.contains_key(key)
    } by {
        if now >= retention_ns {
            law_retention_drops_what_is_older(old(store)@, now, retention_ns, ts_ns, id);
        }
    }
    assert(keeps_the_window(old(store)@, final(store)@, now, retention_ns));
}

/// The logs afterwards have what they had that is no older than the window.
pub open spec fn keeps_the_window(
    before: StoreView,
    after: StoreView,
    now: u64,
    retention_ns: u64,
) -> bool {
    forall|ts_ns: u64, id: Seq<u8>|
        id.len() == 16 ==> {
            let key = #[trigger] keys::row_key(ts_ns, id);
            &&& after.events.contains_key(key) <==> ts_ns + retention_ns >= now
                && before.events.contains_key(key)
            &&& after.alerts.contains_key(key) <==> ts_ns + retention_ns >= now
                && before.alerts.contains_key(key)
        }
}

/// The first alert of a listing with an identifier: it has it, none before it has, and
/// there is none exactly if none has.
pub proof fn law_oldest_alert_is_the_first(
    entries: &Vec<(Vec<u8>, Vec<u8>)>,
    id: &str,
    res: Option<(usize, AlertRow)>,
)
    requires
        call_ensures(
            store::oldest_alert,
            (entries, id),
            Ok::<Option<(usize, AlertRow)>, StoreError>(res),
        ),
    ensures
        res matches Some(hit) ==> {
            &&& hit.0 < entries@.len()
            &&& rows::alert_of(entries@[hit.0 as int].1@) == Some(hit.1@)
            &&& hit.1.id@ == id@
            &&& forall|j: int|
                0 <= j < hit.0 ==> (rows::alert_of((#[trigger] entries@[j]).1@) matches Some(row)
                    && row.id != id@)
        },
        res is None ==> forall|j: int|
            0 <= j < entries@.len() ==> (rows::alert_of((#[trigger] entries@[j]).1@) matches Some(
                row,
            ) && row.id != id@),
{
}

/// A listing that is read has the row of each entry, in order.
pub proof fn law_listings_are_read_in_order(
    agent_cells: &Vec<(String, Vec<u8>)>,
    agents: Vec<AgentRow>,
    score_cells: &Vec<(String, Vec<u8>)>,
    scores: Vec<ScoreRow>,
    detection_cells: &Vec<(String, Vec<u8>)>,
    detections: Vec<DetectionRow>,
    alert_rows: &Vec<(Vec<u8>, Vec<u8>)>,
    alerts: Vec<AlertRow>,
    token_cells: &Vec<(String, Vec<u8>)>,
    tokens: Vec<(String, TokenRow)>,
)
    requires
        call_ensures(
            store::read_agents,
            (agent_cells,),
            Ok::<Vec<AgentRow>, StoreError>(agents),
        ),
        call_ensures(
            store::read_scores,
            (score_cells,),
            Ok::<Vec<ScoreRow>, StoreError>(scores),
        ),
        call_ensures(
            store::read_detections,
            (detection_cells,),
            Ok::<Vec<DetectionRow>, StoreError>(detections),
        ),
        call_ensures(
            store::read_alerts,
            (alert_rows,),
            Ok::<Vec<AlertRow>, StoreError>(alerts),
        ),
        call_ensures(
            store::read_tokens,
            (token_cells,),
            Ok::<Vec<(String, TokenRow)>, StoreError>(tokens),
        ),
    ensures
        agents@.len() == agent_cells@.len(),
        forall|i: int|
            0 <= i < agents@.len() ==> rows::agent_of(agent_cells@[i].1@) == Some(
                (#[trigger] agents@[i])@,
            ),
        scores@.len() == score_cells@.len(),
        forall|i: int|
            0 <= i < scores@.len() ==> rows::score_of(score_cells@[i].1@) == Some(
                (#[trigger] scores@[i])@,
            ),
        detections@.len() == detection_cells@.len(),
        forall|i: int|
            0 <= i < detections@.len() ==> rows::detection_of(detection_cells@[i].1@) == Some(
                (#[trigger] detections@[i])@,
            ),
        alerts@.len() == alert_rows@.len(),
        forall|i: int|
            0 <= i < alerts@.len() ==> rows::alert_of(alert_rows@[i].1@) == Some(
                (#[trigger] alerts@[i])@,
            ),
        tokens@.len() == token_cells@.len(),
        forall|i: int|
            0 <= i < tokens@.len() ==> (#[trigger] tokens@[i]).0@ == token_cells@[i].0@
                && rows::token_of(token_cells@[i].1@) == Some(tokens@[i].1@),
{
}

/// A page that is read has the event of each entry that is there, in order: all of them,
/// where none is missing.
pub proof fn law_page_is_read_in_order(entries: &Vec<Option<Vec<u8>>>, out: Vec<EventRow>)
    requires
        call_ensures(store::read_page, (entries,), Ok::<Vec<EventRow>, StoreError>(out)),
        forall|i: int| 0 <= i < entries@.len() ==> (#[trigger] entries@[i]) is Some,
    ensures
        out@.len() == entries@.len(),
        forall|i: int|
            0 <= i < entries@.len() ==> rows::event_of((#[trigger] entries@[i]).unwrap()@) == Some(
                out@[i]@,
            ),
{
    lemma_full_page(entries@, store::event_views(out@));
    assert forall|i: int| 0 <= i < entries@.len() implies rows::event_of(
        (#[trigger] entries@[i]).unwrap()@,
    ) == Some(out@[i]@) by {
        assert(store::event_views(out@)[i] == out@[i]@);
    }
}

proof fn lemma_full_page(entries: Seq<Option<Vec<u8>>>, shown: Seq<EventView>)
    requires
        store::page_rows(entries) == Some(shown),
        forall|i: int| 0 <= i < entries.len() ==> (#[trigger] entries[i]) is Some,
    ensures
        shown.len() == entries.len(),
        forall|i: int|
            0 <= i < entries.len() ==> rows::event_of((#[trigger] entries[i]).unwrap()@) == Some(
                shown[i],
            ),
    decreases entries.len(),
{
    if entries.len() > 0 {
        let rest = entries.drop_last();
        let before = store::page_rows(rest).unwrap();
        assert forall|i: int| 0 <= i < rest.len() implies (#[trigger] rest[i]) is Some by {
            assert(rest[i] == entries[i]);
        }
        lemma_full_page(rest, before);
        assert(entries[entries.len() - 1] == entries.last());
        assert forall|i: int| 0 <= i < entries.len() implies rows::event_of(
            (#[trigger] entries[i]).unwrap()@,
        ) == Some(shown[i]) by {
            if i < rest.len() {
                assert(rest[i] == entries[i]);
                assert(shown[i] == before[i]);
            }
        }
    }
}

} // verus!
