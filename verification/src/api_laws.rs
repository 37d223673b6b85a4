//! Laws of the operator API: what a listing shows, what it may leave out, and how a
//! request is answered.
use crate::api::{
    self, AgentRecord, AlertQuery, ApiError, DetectionQuery, EventQuery, EventRecord, Header,
    ScoreQuery, TokenRecord,
};
use crate::enroll::TokenError;
use crate::registry::RouterError;
use crate::rows::{
    AgentRow, AlertRow, AlertView, DetectionRow, DetectionView, EventRow, ScoreRow, ScoreView,
    TokenRow,
};
use crate::store::{Store, StoreError};
use crate::{encoding, ids, json, keys, kv, store, store_laws};
use vstd::prelude::*;
use vstd::utf8;

verus! {

/// The row is on file, under some key.
pub open spec fn on_file<K, V>(table: Map<K, Option<V>>, row: V) -> bool {
    exists|k: K| #[trigger] table.contains_key(k) && table[k] == Some(row)
}

/// The row is on file, under a greater key.
pub open spec fn on_file_above<V>(
    table: Map<Seq<u8>, Option<V>>,
    key: Seq<u8>,
    row: V,
) -> bool {
    exists|k: Seq<u8>| #[trigger]
        table.contains_key(k) && kv::bytes_less(key, k) && table[k] == Some(row)
}

/// The row is on file, under a key that comes first.
pub open spec fn on_file_before<V>(
    table: Map<Seq<char>, Option<V>>,
    key: Seq<char>,
    row: V,
) -> bool {
    exists|k: Seq<char>| #[trigger]
        table.contains_key(k) && kv::bytes_less(utf8::encode_utf8(k), utf8::encode_utf8(key))
            && table[k] == Some(row)
}

/// What is kept of a sequence is in it and passes.
proof fn lemma_kept_pass<V>(all: Seq<V>, keep: spec_fn(V) -> bool, limit: Option<usize>)
    ensures
        ({
            let out = api::first_rows(all.filter(keep), limit);
            &&& out.len() <= all.filter(keep).len()
            &&& limit matches Some(n) ==> out.len() <= n
            &&& forall|j: int|
                0 <= j < out.len() ==> keep(#[trigger] out[j]) && all.contains(out[j])
        }),
{
    let out = api::first_rows(all.filter(keep), limit);
    assert forall|j: int| 0 <= j < out.len() implies keep(#[trigger] out[j]) && all.contains(
        out[j],
    ) by {
        assert(out[j] == all.filter(keep)[j]);
        all.lemma_filter_pred(keep, j);
        all.lemma_filter_contains_rev(keep, out[j]);
    }
}

/// What passes is kept, unless as many as the limit allows that stand before it are kept
/// in its place.
proof fn lemma_passing_is_kept<V>(
    all: Seq<V>,
    keep: spec_fn(V) -> bool,
    limit: Option<usize>,
    i: int,
)
    requires
        0 <= i < all.len(),
        keep(all[i]),
    ensures
        ({
            let out = api::first_rows(all.filter(keep), limit);
            ||| out.contains(all[i])
            ||| limit matches Some(n) && out.len() == n && forall|j: int|
                0 <= j < out.len() ==> all.take(i).contains(#[trigger] out[j])
        }),
{
    let head = all.take(i);
    let tail = all.skip(i + 1);
    let one = seq![all[i]];
    assert(all =~= head + (one + tail));
    Seq::filter_distributes_over_add(head, one + tail, keep);
    Seq::filter_distributes_over_add(one, tail, keep);
    reveal(Seq::filter);
    assert(one.drop_last() =~= Seq::empty());
    assert(one.drop_last().filter(keep) =~= Seq::empty());
    assert(one.filter(keep) =~= one);
    let c = head.filter(keep).len() as int;
    assert(all.filter(keep)[c] == all[i]);
    let out = api::first_rows(all.filter(keep), limit);
    if c < out.len() {
        assert(out[c] == all[i]);
    } else {
        assert forall|j: int| 0 <= j < out.len() implies head.contains(#[trigger] out[j]) by {
            assert(out[j] == all.filter(keep)[j]);
            assert(all.filter(keep)[j] == head.filter(keep)[j]);
            head.lemma_filter_contains_rev(keep, out[j]);
        }
    }
}

/// What is kept stays in order.
proof fn lemma_kept_in_order<V>(all: Seq<V>, keep: spec_fn(V) -> bool, a: int, b: int)
    requires
        0 <= a < b < all.filter(keep).len(),
    ensures
        exists|i: int, j: int|
            0 <= i < j < all.len() && #[trigger] all[i] == all.filter(keep)[a] && #[trigger] all[j]
                == all.filter(keep)[b],
    decreases all.len(),
{
    reveal(Seq::filter);
    let rest = all.drop_last();
    let before = rest.filter(keep);
    if b < before.len() {
        lemma_kept_in_order(rest, keep, a, b);
        let (i, j) = choose|i: int, j: int|
            0 <= i < j < rest.len() && #[trigger] rest[i] == before[a] && #[trigger] rest[j]
                == before[b];
        assert(all[i] == rest[i] && all[j] == rest[j]);
        assert(all.filter(keep)[a] == before[a] && all.filter(keep)[b] == before[b]);
    } else {
        rest.lemma_filter_contains_rev(keep, before[a]);
        let i = choose|i: int| 0 <= i < rest.len() && rest[i] == before[a];
        assert(all[i] == rest[i] && all[all.len() - 1] == all.last());
        assert(all.filter(keep)[a] == before[a]);
    }
}

/// Different members of a sequence cannot all be members of a shorter one.
proof fn lemma_more_than_fit(many: Seq<Seq<u8>>, few: Seq<Seq<u8>>)
    requires
        many.no_duplicates(),
        forall|i: int| 0 <= i < many.len() ==> few.contains(#[trigger] many[i]),
    ensures
        many.len() <= few.len(),
{
    many.unique_seq_to_set();
    few.lemma_cardinality_of_set();
    assert forall|k: Seq<u8>| many.to_set().contains(k) implies few.to_set().contains(k) by {
        let i = choose|i: int| 0 <= i < many.len() && many[i] == k;
        assert(few.contains(many[i]));
    }
    vstd::set_lib::lemma_len_subset(many.to_set(), few.to_set());
}

/// The filters come before the limit: an alert that passes them, with fewer than two
/// hundred (or than the limit, where that is more) newer ones in the log, is listed; or
/// else as many as the limit allows are listed that pass too and are newer.
pub proof fn law_passing_alert_is_listed_or_outranked(
    store: &Store,
    q: &AlertQuery,
    out: Vec<AlertRow>,
    key: Seq<u8>,
    row: AlertView,
    newer: Seq<Seq<u8>>,
)
    requires
        store.wf(),
        call_ensures(api::list_alerts, (store, q), Ok::<Vec<AlertRow>, ApiError>(out)),
        store@.alerts.contains_key(key),
        store@.alerts[key] == Some(row),
        q.severity matches Some(s) ==> row.severity == s@,
        q.acknowledged matches Some(a) ==> row.acknowledged == a,
        q.agent_id matches Some(id) ==> row.agent_id == id@,
        q.since_ns matches Some(since) ==> row.ts_ns >= since,
        forall|k: Seq<u8>| #[trigger]
            store@.alerts.contains_key(k) && kv::bytes_less(key, k) ==> newer.contains(k),
        newer.len() < 200 || (q.limit matches Some(n) && newer.len() < n),
    ensures
        ({
            ||| exists|j: int| 0 <= j < out@.len() && (#[trigger] out@[j])@ == row
            ||| {
                &&& q.limit matches Some(n) ==> out@.len() == n
                &&& q.limit is None ==> out@.len() == 200
                &&& forall|j: int|
                    0 <= j < out@.len() ==> on_file_above(
                        store@.alerts,
                        key,
                        (#[trigger] out@[j])@,
                    )
            }
        }),
{
    let keep = |r: AlertView| q.admits(r);
    let window = choose|window: Seq<AlertView>| #[trigger]
        store::newest(store@.alerts, q.window(), window) && store::alert_views(out@)
            == api::first_rows(window.filter(keep), Some(q.cap() as usize));
    let order = choose|order: Seq<Seq<u8>>| #[trigger]
        store::lists_newest(store@.alerts, q.window(), order, window);
    if !order.contains(key) {
        assert(order.no_duplicates()) by {
            assert forall|i: int, j: int| 0 <= i < j < order.len() implies order[i]
                != order[j] by {
                keys::lemma_less_is_asymmetric(order[j], order[i]);
            }
        }
        assert forall|i: int| 0 <= i < order.len() implies newer.contains(
            #[trigger] order[i],
        ) by {
            assert(store::found(store@.alerts, order[i], window[i]));
            assert(store@.alerts.contains_key(order[i]));
        }
        lemma_more_than_fit(order, newer);
    }
    let i = choose|i: int| 0 <= i < order.len() && order[i] == key;
    assert(store::found(store@.alerts, order[i], window[i]));
    assert(window[i] == row);
    lemma_passing_is_kept(window, keep, Some(q.cap() as usize), i);
    let shown = store::alert_views(out@);
    if shown.contains(row) {
        let j = choose|j: int| 0 <= j < shown.len() && shown[j] == row;
        assert(out@[j]@ == row);
    } else {
        assert forall|j: int| 0 <= j < out@.len() implies on_file_above(
            store@.alerts,
            key,
            (#[trigger] out@[j])@,
        ) by {
            assert(shown[j] == out@[j]@);
            assert(window.take(i).contains(shown[j]));
            let m = choose|m: int| 0 <= m < i && window.take(i)[m] == shown[j];
            assert(window[m] == shown[j]);
            assert(store::found(store@.alerts, order[m], window[m]));
            assert(kv::bytes_less(order[i], order[m]));
            assert(store@.alerts.contains_key(order[m]));
        }
    }
}

/// Every listed alert is in the log and passes the filters, there are no more than the
/// limit, and they come newest first.
pub proof fn law_listed_alerts_pass_newest_first(
    store: &Store,
    q: &AlertQuery,
    out: Vec<AlertRow>,
)
    requires
        store.wf(),
        call_ensures(api::list_alerts, (store, q), Ok::<Vec<AlertRow>, ApiError>(out)),
    ensures
        q.limit matches Some(n) ==> out@.len() <= n,
        q.limit is None ==> out@.len() <= 200,
        forall|j: int|
            0 <= j < out@.len() ==> {
                let row = #[trigger] out@[j];
                &&& q.severity matches Some(s) ==> row.severity@ == s@
                &&& q.acknowledged matches Some(a) ==> row.acknowledged == a
                &&& q.agent_id matches Some(id) ==> row.agent_id@ == id@
                &&& q.since_ns matches Some(since) ==> row.ts_ns >= since
            },
        forall|j: int|
            0 <= j < out@.len() ==> on_file(store@.alerts, (#[trigger] out@[j])@),
        forall|a: int, b: int|
            0 <= a < b < out@.len() ==> in_descending_order(store, #[trigger] out@[a], #[trigger] out@[b]),
{
    let keep = |r: AlertView| q.admits(r);
    let window = choose|window: Seq<AlertView>| #[trigger]
        store::newest(store@.alerts, q.window(), window) && store::alert_views(out@)
            == api::first_rows(window.filter(keep), Some(q.cap() as usize));
    let order = choose|order: Seq<Seq<u8>>| #[trigger]
        store::lists_newest(store@.alerts, q.window(), order, window);
    lemma_kept_pass(window, keep, Some(q.cap() as usize));
    let shown = store::alert_views(out@);
    assert forall|j: int| 0 <= j < out@.len() implies ({
        let row = #[trigger] out@[j];
        &&& q.severity matches Some(s) ==> row.severity@ == s@
        &&& q.acknowledged matches Some(a) ==> row.acknowledged == a
        &&& q.agent_id matches Some(id) ==> row.agent_id@ == id@
        &&& q.since_ns matches Some(since) ==> row.ts_ns >= since
    }) by {
        assert(shown[j] == out@[j]@);
        assert(keep(shown[j]));
    }
    assert forall|j: int| 0 <= j < out@.len() implies on_file(
        store@.alerts,
        (#[trigger] out@[j])@,
    ) by {
        assert(shown[j] == out@[j]@);
        assert(window.contains(shown[j]));
        let m = choose|m: int| 0 <= m < window.len() && window[m] == shown[j];
        assert(store::found(store@.alerts, order[m], window[m]));
    }
    assert forall|a: int, b: int| 0 <= a < b < out@.len() implies in_descending_order(
        store,
        #[trigger] out@[a],
        #[trigger] out@[b],
    ) by {
        assert(shown[a] == out@[a]@ && shown[b] == out@[b]@);
        lemma_kept_in_order(window, keep, a, b);
        let (i, j) = choose|i: int, j: int|
            0 <= i < j < window.len() && #[trigger] window[i] == window.filter(keep)[a]
                && #[trigger] window[j] == window.filter(keep)[b];
        assert(store::found(store@.alerts, order[i], window[i]));
        assert(store::found(store@.alerts, order[j], window[j]));
        assert(kv::bytes_less(order[j], order[i]));
    }
}

/// Two alerts of the log, the first under the greater key.
pub open spec fn in_descending_order(store: &Store, first: AlertRow, second: AlertRow) -> bool {
    exists|a: Seq<u8>, b: Seq<u8>|
        #![trigger store@.alerts.contains_key(a), store@.alerts.contains_key(b)]
        kv::bytes_less(b, a) && store@.alerts.contains_key(a) && store@.alerts.contains_key(b)
            && store@.alerts[a] == Some(first@) && store@.alerts[b] == Some(second@)
}

/// Every listed score is on file and passes the filters; one on file that passes is
/// listed, unless as many as the limit allows come before it.
pub proof fn law_score_listing(
    store: &Store,
    q: &ScoreQuery,
    out: Vec<ScoreRow>,
    key: Seq<char>,
    row: ScoreView,
)
    requires
        store.wf(),
        call_ensures(api::list_scores, (store, q), Ok::<Vec<ScoreRow>, ApiError>(out)),
    ensures
        q.limit matches Some(n) ==> out@.len() <= n,
        forall|j: int|
            0 <= j < out@.len() ==> {
                let shown = #[trigger] out@[j];
                &&& q.subject matches Some(s) ==> shown.subject@ == s@
                &&& q.min_score_bits matches Some(min) ==> api::double_at_least(
                    shown.score_bits,
                    min,
                )
                &&& on_file(store@.scores, shown@)
            },
        store@.scores.contains_key(key) && store@.scores[key] == Some(row) && (
        q.subject matches Some(s) ==> row.subject == s@) && (
        q.min_score_bits matches Some(min) ==> api::double_at_least(row.score_bits, min)) ==> {
            ||| exists|j: int| 0 <= j < out@.len() && (#[trigger] out@[j])@ == row
            ||| q.limit matches Some(n) && out@.len() == n && forall|j: int|
                0 <= j < out@.len() ==> on_file_before(
                    store@.scores,
                    key,
                    (#[trigger] out@[j])@,
                )
        },
{
    let keep = |r: ScoreView| q.admits(r);
    let all = choose|all: Seq<ScoreView>| #[trigger]
        store::listed(store@.scores, all) && store::score_views(out@) == api::first_rows(
            all.filter(keep),
            q.limit,
        );
    let order = choose|order: Seq<Seq<char>>| #[trigger]
        store::lists(store@.scores, order, all);
    lemma_kept_pass(all, keep, q.limit);
    let shown = store::score_views(out@);
    assert forall|j: int| 0 <= j < out@.len() implies ({
        let shown = #[trigger] out@[j];
        &&& q.subject matches Some(s) ==> shown.subject@ == s@
        &&& q.min_score_bits matches Some(min) ==> api::double_at_least(shown.score_bits, min)
        &&& on_file(store@.scores, shown@)
    }) by {
        assert(shown[j] == out@[j]@);
        assert(keep(shown[j]) && all.contains(shown[j]));
        let m = choose|m: int| 0 <= m < all.len() && all[m] == shown[j];
        assert(store::found(store@.scores, order[m], all[m]));
    }
    if store@.scores.contains_key(key) && store@.scores[key] == Some(row) && keep(row) {
        assert(order.contains(key));
        let i = choose|i: int| 0 <= i < order.len() && order[i] == key;
        assert(store::found(store@.scores, order[i], all[i]));
        lemma_passing_is_kept(all, keep, q.limit, i);
        if shown.contains(row) {
            let j = choose|j: int| 0 <= j < shown.len() && shown[j] == row;
            assert(out@[j]@ == row);
        } else {
            assert forall|j: int| 0 <= j < out@.len() implies on_file_before(
                store@.scores,
                key,
                (#[trigger] out@[j])@,
            ) by {
                assert(shown[j] == out@[j]@);
                assert(all.take(i).contains(shown[j]));
                let m = choose|m: int| 0 <= m < i && all.take(i)[m] == shown[j];
                assert(all[m] == shown[j]);
                assert(store::found(store@.scores, order[m], all[m]));
                assert(order[i] == key);
            }
        }
    }
}

/// Every listed detection is on file and passes the filters; one on file that passes is
/// listed, unless as many as the limit allows come before it.
pub proof fn law_detection_listing(
    store: &Store,
    q: &DetectionQuery,
    out: Vec<DetectionRow>,
    key: Seq<char>,
    row: DetectionView,
)
    requires
        store.wf(),
        call_ensures(api::list_detections, (store, q), Ok::<Vec<DetectionRow>, ApiError>(out)),
    ensures
        q.limit matches Some(n) ==> out@.len() <= n,
        forall|j: int|
            0 <= j < out@.len() ==> {
                let shown = #[trigger] out@[j];
                &&& q.verdict matches Some(v) ==> shown.verdict@ == v@
                &&& q.min_confidence_bits matches Some(min) ==> api::double_at_least(
                    shown.confidence_bits,
                    min,
                )
                &&& on_file(store@.detections, shown@)
            },
        store@.detections.contains_key(key) && store@.detections[key] == Some(row) && (
        q.verdict matches Some(v) ==> row.verdict == v@) && (
        q.min_confidence_bits matches Some(min) ==> api::double_at_least(
            row.confidence_bits,
            min,
        )) ==> {
            ||| exists|j: int| 0 <= j < out@.len() && (#[trigger] out@[j])@ == row
            ||| q.limit matches Some(n) && out@.len() == n && forall|j: int|
                0 <= j < out@.len() ==> on_file_before(
                    store@.detections,
                    key,
                    (#[trigger] out@[j])@,
                )
        },
{
    let keep = |r: DetectionView| q.admits(r);
    let all = choose|all: Seq<DetectionView>| #[trigger]
        store::listed(store@.detections, all) && store::detection_views(out@) == api::first_rows(
            all.filter(keep),
            q.limit,
        );
    let order = choose|order: Seq<Seq<char>>| #[trigger]
        store::lists(store@.detections, order, all);
    lemma_kept_pass(all, keep, q.limit);
    let shown = store::detection_views(out@);
    assert forall|j: int| 0 <= j < out@.len() implies ({
        let shown = #[trigger] out@[j];
        &&& q.verdict matches Some(v) ==> shown.verdict@ == v@
        &&& q.min_confidence_bits matches Some(min) ==> api::double_at_least(
            shown.confidence_bits,
            min,
        )
        &&& on_file(store@.detections, shown@)
    }) by {
        assert(shown[j] == out@[j]@);
        assert(keep(shown[j]) && all.contains(shown[j]));
        let m = choose|m: int| 0 <= m < all.len() && all[m] == shown[j];
        assert(store::found(store@.detections, order[m], all[m]));
    }
    if store@.detections.contains_key(key) && store@.detections[key] == Some(row) && keep(row) {
        assert(order.contains(key));
        let i = choose|i: int| 0 <= i < order.len() && order[i] == key;
        assert(store::found(store@.detections, order[i], all[i]));
        lemma_passing_is_kept(all, keep, q.limit, i);
        if shown.contains(row) {
            let j = choose|j: int| 0 <= j < shown.len() && shown[j] == row;
            assert(out@[j]@ == row);
        } else {
            assert forall|j: int| 0 <= j < out@.len() implies on_file_before(
                store@.detections,
                key,
                (#[trigger] out@[j])@,
            ) by {
                assert(shown[j] == out@[j]@);
                assert(all.take(i).contains(shown[j]));
                let m = choose|m: int| 0 <= m < i && all.take(i)[m] == shown[j];
                assert(all[m] == shown[j]);
                assert(store::found(store@.detections, order[m], all[m]));
                assert(order[i] == key);
            }
        }
    }
}

/// Doubles compare as numbers: what is no number compares with nothing, the two zeros
/// are equal, numbers of one sign compare by magnitude, and the negative are below the
/// positive.
pub proof fn law_doubles_compare_as_numbers(a: u64, b: u64, yes: bool)
    requires
        call_ensures(api::at_least, (a, b), yes),
    ensures
        ({
            let sign: int = 0x8000_0000_0000_0000;
            let magnitude_a = if a >= sign { a - sign } else { a as int };
            let magnitude_b = if b >= sign { b - sign } else { b as int };
            let infinity: int = 0x7ff0_0000_0000_0000;
            &&& magnitude_a > infinity || magnitude_b > infinity ==> !yes
            &&& magnitude_a <= infinity && magnitude_b <= infinity ==> {
                &&& a < sign && b < sign ==> (yes <==> magnitude_a >= magnitude_b)
                &&& a >= sign && b >= sign ==> (yes <==> magnitude_a <= magnitude_b)
                &&& a < sign && b >= sign ==> yes
                &&& a >= sign && b < sign ==> (yes <==> magnitude_a == 0 && magnitude_b == 0)
            }
            &&& yes == api::double_at_least(a, b)
        }),
{
    let sign: int = 0x8000_0000_0000_0000;
    assert(a >= sign ==> (a as int) % sign == a - sign) by (nonlinear_arith)
        requires
            sign == 0x8000_0000_0000_0000,
            a <= 0xffff_ffff_ffff_ffff,
    ;
    assert(b >= sign ==> (b as int) % sign == b - sign) by (nonlinear_arith)
        requires
            sign == 0x8000_0000_0000_0000,
            b <= 0xffff_ffff_ffff_ffff,
    ;
}

/// A request for an agent shows the agent on file, field by field, and its key in
/// hexadecimal.
pub proof fn law_agent_is_shown_as_on_file(
    store: &Store,
    agent_id: &str,
    record: AgentRecord,
)
    requires
        store.wf(),
        call_ensures(
            api::get_agent,
            (store, agent_id),
            Ok::<AgentRecord, ApiError>(record),
        ),
    ensures
        store@.agents.contains_key(agent_id@),
        store@.agents[agent_id@] matches Some(row) && {
            &&& record.agent_id@ == row.agent_id
            &&& record.hostname@ == row.hostname
            &&& record.os@ == row.os
            &&& record.pubkey_hex@ == encoding::lower_hex(row.pubkey)
            &&& record.enrolled_at_ns == row.enrolled_at_ns
            &&& record.last_seen_ns == row.last_seen_ns
        },
{
}

/// The records of the API have every field of the rows that they show.
pub proof fn law_records_show_their_rows(
    agent: AgentRow,
    agent_record: AgentRecord,
    event: EventRow,
    event_record: EventRecord,
    token: String,
    row: TokenRow,
    token_record: TokenRecord,
)
    requires
        call_ensures(AgentRecord::from_row, (agent,), agent_record),
        call_ensures(EventRecord::from_row, (event,), event_record),
        call_ensures(TokenRecord::from_row, (token, row), token_record),
    ensures
        agent_record.agent_id@ == agent.agent_id@,
        agent_record.hostname@ == agent.hostname@,
        agent_record.os@ == agent.os@,
        agent_record.pubkey_hex@ == encoding::lower_hex(agent.pubkey@),
        agent_record.enrolled_at_ns == agent.enrolled_at_ns,
        agent_record.last_seen_ns == agent.last_seen_ns,
        event_record.id@ == ids::uuid_text(event.id@),
        event_record.ts_ns == event.ts_ns,
        event_record.agent_id@ == event.agent_id@,
        event_record.source@ == event.source@,
        event_record.kind@ == event.kind@,
        json::is_json(event.payload_json@) ==> event_record.payload_json@ == event.payload_json@,
        !json::is_json(event.payload_json@) ==> event_record.payload_json@ == utf8::encode_utf8(
            "null"@,
        ),
        token_record.token@ == token@,
        token_record.label@ == row.label@,
        token_record.created_at_ns == row.created_at_ns,
        token_record.used == row.used,
{
}

/// The status of each error, and the message: the error's own, but of an internal one
/// that it is internal and nothing more.
pub proof fn law_errors_have_their_status(error: &ApiError, code: u16, message: String)
    requires
        call_ensures(ApiError::status, (error,), code),
        call_ensures(ApiError::message, (error,), message),
    ensures
        *error matches ApiError::BadRequest(m) ==> code == 400 && message@ == m@,
        *error matches ApiError::NotFound(m) ==> code == 404 && message@ == m@,
        *error matches ApiError::Conflict(m) ==> code == 409 && message@ == m@,
        *error matches ApiError::ServiceUnavailable(m) ==> code == 503 && message@ == m@,
        *error is Internal ==> code == 500 && message@ == "internal server error"@,
{
}

/// A command for an agent that is not connected is not found, and one for a full channel
/// is to be tried later.
pub proof fn law_undelivered_commands(
    away: ApiError,
    away_code: u16,
    full: ApiError,
    full_code: u16,
)
    requires
        call_ensures(ApiError::from_router, (RouterError::NotConnected,), away),
        call_ensures(ApiError::status, (&away,), away_code),
        call_ensures(ApiError::from_router, (RouterError::ChannelFull,), full),
        call_ensures(ApiError::status, (&full,), full_code),
    ensures
        away_code == 404,
        full_code == 503,
{
}

/// What looking up, acknowledging, revoking and creating are answered.
pub proof fn law_answers_follow_the_store(
    missing: Result<AgentRecord, ApiError>,
    acked: Result<(), ApiError>,
    unacked: Result<(), ApiError>,
    revoked: Result<(), ApiError>,
    kept: Result<(), ApiError>,
    length: usize,
    refused: Result<(String, TokenRow), ApiError>,
)
    requires
        call_ensures(
            api::agent_answer,
            (Ok::<Option<AgentRow>, StoreError>(None::<AgentRow>),),
            missing,
        ),
        call_ensures(api::ack_answer, (Ok::<bool, StoreError>(true),), acked),
        call_ensures(api::ack_answer, (Ok::<bool, StoreError>(false),), unacked),
        call_ensures(api::revoke_answer, (Ok::<bool, StoreError>(true),), revoked),
        call_ensures(api::revoke_answer, (Ok::<bool, StoreError>(false),), kept),
        call_ensures(
            api::token_answer,
            (Err::<(String, TokenRow), TokenError>(TokenError::LabelTooLong(length)),),
            refused,
        ),
    ensures
        missing matches Err(ApiError::NotFound(m)) && m@ == "agent not found"@,
        acked is Ok,
        unacked matches Err(ApiError::NotFound(m)) && m@ == "alert not found"@,
        revoked is Ok,
        kept matches Err(ApiError::Conflict(m)) && m@ == "token is unknown or already used"@,
        refused matches Err(ApiError::BadRequest(m)) && m@ == "label too long (max 256 bytes)"@,
{
}

/// An error of the store is an internal one, whatever was asked.
pub proof fn law_store_errors_are_internal(
    error: StoreError,
    agent: Result<AgentRecord, ApiError>,
    ack: Result<(), ApiError>,
    revoke: Result<(), ApiError>,
    token: Result<(String, TokenRow), ApiError>,
)
    requires
        call_ensures(
            api::agent_answer,
            (Err::<Option<AgentRow>, StoreError>(error),),
            agent,
        ),
        call_ensures(api::ack_answer, (Err::<bool, StoreError>(error),), ack),
        call_ensures(api::revoke_answer, (Err::<bool, StoreError>(error),), revoke),
        call_ensures(
            api::token_answer,
            (Err::<(String, TokenRow), TokenError>(TokenError::Store(error)),),
            token,
        ),
    ensures
        agent matches Err(e) && e is Internal,
        ack matches Err(e) && e is Internal,
        revoke matches Err(e) && e is Internal,
        token matches Err(e) && e is Internal,
{
}

/// A page is the first unless another is asked for, of fifty events unless another size
/// is, and of no more than five hundred.
pub proof fn law_page_defaults(q: &EventQuery, page: usize, size: usize)
    requires
        call_ensures(api::page_number, (q,), page),
        call_ensures(api::page_size, (q,), size),
    ensures
        q.page is None ==> page == 0,
        q.page matches Some(p) ==> page == p,
        q.page_size is None ==> size == 50,
        q.page_size matches Some(n) ==> (n <= 500 ==> size == n) && (n > 500 ==> size == 500),
{
}

/// A page of events holds no more than its size; each is a logged event of a key of the
/// agent's index; and where none was pruned, entry `i` is the event that was written
/// `page * size + i` writes before the agent's last.
pub proof fn law_event_page(
    store: &Store,
    agent_id: &str,
    q: &EventQuery,
    page: usize,
    size: usize,
    out: Vec<EventRow>,
    i: int,
)
    requires
        store.wf(),
        call_ensures(api::page_number, (q,), page),
        call_ensures(api::page_size, (q,), size),
        call_ensures(
            api::events_for_agent,
            (store, agent_id, q),
            Ok::<Vec<EventRow>, ApiError>(out),
        ),
        store@.index.contains_key(agent_id@),
        0 <= i < size,
        forall|k: Seq<u8>|
            store@.index[agent_id@].unwrap().contains(k) ==> #[trigger] store@.events.contains_key(
                k,
            ),
    ensures
        out@.len() <= size,
        ({
            let keys = store@.index[agent_id@].unwrap();
            let place = page * size + i;
            &&& i < out@.len() <==> place < keys.len()
            &&& place < keys.len() ==> store@.events[keys[keys.len() - 1 - place]] == Some(
                out@[i]@,
            )
        }),
{
    let keys = store@.index[agent_id@].unwrap();
    assert(store@.index_keys(agent_id@) == keys);
    let shown = store::page_of(keys, page as nat, size as nat);
    assert(page * size >= 0) by (nonlinear_arith);
    store_laws::law_pages_count_from_the_newest(keys, page as nat, size as nat, i);
    assert forall|j: int| 0 <= j < shown.len() implies store@.events.contains_key(
        #[trigger] shown[j],
    ) by {
        store_laws::law_pages_count_from_the_newest(keys, page as nat, size as nat, j);
        let place = page * size + j;
        assert(keys.contains(keys[keys.len() - 1 - place]));
    }
    store_laws::law_page_shows_the_logged_rows(store@.events, shown, store::event_views(out@));
    assert(store::event_views(out@).len() == out@.len());
    if i < out@.len() {
        assert(store@.events[shown[i]] == Some(store::event_views(out@)[i]));
        assert(store::event_views(out@)[i] == out@[i]@);
    }
}

/// An address is loopback exactly if it begins with `127.`.
pub proof fn law_loopback_begins_with_127(addr: &str, yes: bool)
    requires
        call_ensures(api::is_loopback_address, (addr,), yes),
    ensures
        yes <==> addr@.len() >= 4 && addr@[0] == '1' && addr@[1] == '2' && addr@[2] == '7'
            && addr@[3] == '.',
{
    reveal_strlit("127.");
    assert("127."@ =~= seq!['1', '2', '7', '.']);
    if addr@.len() >= 4 && addr@[0] == '1' && addr@[1] == '2' && addr@[2] == '7' && addr@[3]
        == '.' {
        assert("127."@ =~= addr@.subrange(0, 4));
    }
    if yes {
        assert(addr@.subrange(0, 4) == "127."@);
        assert(addr@[0] == addr@.subrange(0, 4)[0] && addr@[1] == addr@.subrange(0, 4)[1]);
        assert(addr@[2] == addr@.subrange(0, 4)[2] && addr@[3] == addr@.subrange(0, 4)[3]);
    }
}

/// No response may be sniffed or framed, and what it loads is of the same origin.
pub proof fn law_security_headers(out: [Header; 3])
    requires
        call_ensures(api::security_headers, (), out),
    ensures
        out@[0].name@ == "x-content-type-options"@ && out@[0].value@ == "nosniff"@,
        out@[1].name@ == "x-frame-options"@ && out@[1].value@ == "DENY"@,
        out@[2].name@ == "content-security-policy"@ && out@[2].value@
            == "default-src 'self'; connect-src 'self'"@,
{
}

/// The live feed holds 1024 events for a subscriber that falls behind.
pub proof fn law_live_feed_capacity()
    ensures
        api::LIVE_CHANNEL_CAPACITY == 1024,
{
}

/// Every enrolled agent is listed, as it is on file, and nothing else is.
pub proof fn law_agent_listing(store: &Store, out: Vec<AgentRow>, agent_id: Seq<char>)
    requires
        store.wf(),
        call_ensures(api::list_agents, (store,), Ok::<Vec<AgentRow>, ApiError>(out)),
    ensures
        forall|i: int| 0 <= i < out@.len() ==> on_file(store@.agents, (#[trigger] out@[i])@),
        store@.agents.contains_key(agent_id) ==> exists|i: int|
            0 <= i < out@.len() && Some((#[trigger] out@[i])@) == store@.agents[agent_id],
{
    let views = store::agent_views(out@);
    assert forall|i: int| 0 <= i < out@.len() implies on_file(
        store@.agents,
        (#[trigger] out@[i])@,
    ) by {
        assert(views[i] == out@[i]@);
        assert(views.contains(views[i]));
        store_laws::law_listing_is_the_table(store@.agents, views, agent_id, views[i]);
    }
    if store@.agents.contains_key(agent_id) {
        let row = store@.agents[agent_id];
        store_laws::law_listing_is_the_table(store@.agents, views, agent_id, row.unwrap());
        let i = choose|i: int| 0 <= i < views.len() && views[i] == row.unwrap();
        assert(out@[i]@ == views[i]);
    }
}

/// An acknowledged alert has its flag set and is otherwise as it was; no other alert
/// changes. Where none has the identifier, nothing does.
pub proof fn law_acknowledgement_sets_one_flag(
    store: &mut Store,
    id: &str,
    res: Result<(), ApiError>,
)
    requires
        old(store).wf(),
        call_ensures(api::ack_alert, (store, id), res),
    ensures
        res is Ok ==> exists|k: Seq<u8>| #[trigger]
            store_laws::flag_set(old(store)@, final(store)@, id@, k),
        res matches Err(ApiError::NotFound(m)) ==> final(store)@ == old(store)@ && m@
            == "alert not found"@,
        !(res matches Err(ApiError::BadRequest(_))),
{
    if res is Ok {
        let key = choose|key: Seq<u8>|
            store::oldest_with_id(old(store)@.alerts, id@, key) && #[trigger] old(store)@.acknowledge(key) == final(store)@;
        assert(final(store)@.alerts.dom() =~= old(store)@.alerts.dom());
        assert forall|k: Seq<u8>| #[trigger] old(store)@.alerts.contains_key(k)
            && kv::bytes_less(k, key) implies (old(store)@.alerts[k] matches Some(row) && row.id
            != id@) by {
            assert(!store::corrupt(old(store)@.alerts, k) && !store::has_id(
                old(store)@.alerts,
                k,
                id@,
            ));
        }
        assert(store_laws::flag_set(old(store)@, final(store)@, id@, key));
    }
}

/// A token that was asked for is on file unused under its label; a label of more than 256
/// bytes is a bad request, and makes none.
pub proof fn law_requested_token(
    store: &mut Store,
    label: &str,
    res: Result<(String, TokenRow), ApiError>,
)
    requires
        old(store).wf(),
        call_ensures(api::create_token, (store, label), res),
    ensures
        utf8::encode_utf8(label@).len() > 256 <==> (res matches Err(ApiError::BadRequest(_))),
        res matches Err(ApiError::BadRequest(m)) ==> final(store)@ == old(store)@ && m@
            == "label too long (max 256 bytes)"@,
        res matches Ok(out) ==> {
            &&& out.1.label@ == label@ && !out.1.used
            &&& final(store)@.tokens[out.0@] matches Some(row) && row.label == label@ && !row.used
            &&& forall|k: Seq<char>|
                k != out.0@ ==> #[trigger] final(store)@.tokens[k] == old(store)@.tokens[k]
            &&& final(store)@.agents == old(store)@.agents
        },
{
    if let Ok(out) = res {
        assert(out.1@.label == out.1.label@);
    }
}

/// Revoking an unused token removes it and leaves everything else; a used or unknown one
/// is a conflict, and nothing changes.
pub proof fn law_requested_revocation(store: &mut Store, token: &str, res: Result<(), ApiError>)
    requires
        old(store).wf(),
        call_ensures(api::revoke_token, (store, token), res),
    ensures
        res is Ok ==> {
            &&& old(store)@.tokens[token@] matches Some(was) && !was.used
            &&& !final(store)@.tokens.contains_key(token@)
            &&& forall|k: Seq<char>|
                k != token@ && old(store)@.tokens.contains_key(k) ==> #[trigger] final(store)@.tokens.contains_key(k) && final(store)@.tokens[k] == old(store)@.tokens[k]
            &&& final(store)@.agents == old(store)@.agents
        },
        res matches Err(ApiError::Conflict(m)) ==> {
            &&& final(store)@ == old(store)@
            &&& m@ == "token is unknown or already used"@
            &&& old(store)@.tokens.contains_key(token@) ==> old(store)@.tokens[token@].unwrap().used
        },
{
}

/// Filtering keeps what passes, in order, up to the limit; a row that passes is kept
/// unless as many as the limit allows that stand before it are.
pub proof fn law_filtering_alerts(
    window: &Vec<AlertRow>,
    q: &AlertQuery,
    out: Vec<AlertRow>,
    i: int,
)
    requires
        call_ensures(api::filter_alerts, (window, q), out),
        0 <= i < window@.len(),
    ensures
        q.limit matches Some(n) ==> out@.len() <= n,
        q.limit is None ==> out@.len() <= 200,
        forall|j: int|
            0 <= j < out@.len() ==> {
                let row = #[trigger] out@[j];
                &&& q.severity matches Some(s) ==> row.severity@ == s@
                &&& q.acknowledged matches Some(a) ==> row.acknowledged == a
                &&& q.agent_id matches Some(id) ==> row.agent_id@ == id@
                &&& q.since_ns matches Some(since) ==> row.ts_ns >= since
            },
        ({
            let row = window@[i];
            &&& q.severity matches Some(s) ==> row.severity@ == s@
            &&& q.acknowledged matches Some(a) ==> row.acknowledged == a
            &&& q.agent_id matches Some(id) ==> row.agent_id@ == id@
            &&& q.since_ns matches Some(since) ==> row.ts_ns >= since
        }) ==> {
            ||| exists|j: int| 0 <= j < out@.len() && (#[trigger] out@[j])@ == window@[i]@
            ||| {
                &&& q.limit matches Some(n) ==> out@.len() == n
                &&& q.limit is None ==> out@.len() == 200
                &&& forall|j: int|
                    0 <= j < out@.len() ==> stands_before(
                        store::alert_views(window@),
                        i,
                        (#[trigger] out@[j])@,
                    )
            }
        },
{
    let keep = |r: AlertView| q.admits(r);
    let all = store::alert_views(window@);
    let cap = Some(q.cap() as usize);
    let shown = store::alert_views(out@);
    lemma_kept_pass(all, keep, cap);
    assert(all[i] == window@[i]@);
    assert forall|j: int| 0 <= j < out@.len() implies ({
        let row = #[trigger] out@[j];
        &&& q.severity matches Some(s) ==> row.severity@ == s@
        &&& q.acknowledged matches Some(a) ==> row.acknowledged == a
        &&& q.agent_id matches Some(id) ==> row.agent_id@ == id@
        &&& q.since_ns matches Some(since) ==> row.ts_ns >= since
    }) by {
        assert(shown[j] == out@[j]@);
        assert(keep(shown[j]));
    }
    if keep(all[i]) {
        lemma_passing_is_kept(all, keep, cap, i);
        if shown.contains(all[i]) {
            let j = choose|j: int| 0 <= j < shown.len() && shown[j] == all[i];
            assert(out@[j]@ == shown[j]);
        } else {
            assert forall|j: int| 0 <= j < out@.len() implies stands_before(
                all,
                i,
                (#[trigger] out@[j])@,
            ) by {
                assert(shown[j] == out@[j]@);
                assert(all.take(i).contains(shown[j]));
                let m = choose|m: int| 0 <= m < i && all.take(i)[m] == shown[j];
                assert(all[m] == shown[j]);
            }
        }
    }
}

/// The row stands before this place.
pub open spec fn stands_before<V>(all: Seq<V>, i: int, row: V) -> bool {
    exists|m: int| 0 <= m < i && #[trigger] all[m] == row
}

/// Filtering keeps the scores and detections that pass, in order, up to the limit; without
/// filters and limit it keeps all.
pub proof fn law_filtering_findings(
    scores: &Vec<ScoreRow>,
    score_query: &ScoreQuery,
    kept_scores: Vec<ScoreRow>,
    detections: &Vec<DetectionRow>,
    detection_query: &DetectionQuery,
    kept_detections: Vec<DetectionRow>,
)
    requires
        call_ensures(api::filter_scores, (scores, score_query), kept_scores),
        call_ensures(api::filter_detections, (detections, detection_query), kept_detections),
    ensures
        score_query.limit matches Some(n) ==> kept_scores@.len() <= n,
        detection_query.limit matches Some(n) ==> kept_detections@.len() <= n,
        forall|j: int|
            0 <= j < kept_scores@.len() ==> {
                let row = #[trigger] kept_scores@[j];
                &&& score_query.subject matches Some(s) ==> row.subject@ == s@
                &&& score_query.min_score_bits matches Some(min) ==> api::double_at_least(
                    row.score_bits,
                    min,
                )
            },
        forall|j: int|
            0 <= j < kept_detections@.len() ==> {
                let row = #[trigger] kept_detections@[j];
                &&& detection_query.verdict matches Some(v) ==> row.verdict@ == v@
                &&& detection_query.min_confidence_bits matches Some(min) ==> api::double_at_least(
                    row.confidence_bits,
                    min,
                )
            },
        score_query.subject is None && score_query.min_score_bits is None && score_query.limit is None
            ==> store::score_views(kept_scores@) == store::score_views(scores@),
        detection_query.verdict is None && detection_query.min_confidence_bits is None
            && detection_query.limit is None ==> store::detection_views(kept_detections@)
            == store::detection_views(detections@),
{
    let keep = |r: ScoreView| score_query.admits(r);
    let all = store::score_views(scores@);
    let shown = store::score_views(kept_scores@);
    lemma_kept_pass(all, keep, score_query.limit);
    assert forall|j: int| 0 <= j < kept_scores@.len() implies ({
        let row = #[trigger] kept_scores@[j];
        &&& score_query.subject matches Some(s) ==> row.subject@ == s@
        &&& score_query.min_score_bits matches Some(min) ==> api::double_at_least(
            row.score_bits,
            min,
        )
    }) by {
        assert(shown[j] == kept_scores@[j]@);
        assert(keep(shown[j]));
    }
    if score_query.subject is None && score_query.min_score_bits is None {
        lemma_all_kept(all, keep);
    }
    let keep = |r: DetectionView| detection_query.admits(r);
    let all = store::detection_views(detections@);
    let shown = store::detection_views(kept_detections@);
    lemma_kept_pass(all, keep, detection_query.limit);
    assert forall|j: int| 0 <= j < kept_detections@.len() implies ({
        let row = #[trigger] kept_detections@[j];
        &&& detection_query.verdict matches Some(v) ==> row.verdict@ == v@
        &&& detection_query.min_confidence_bits matches Some(min) ==> api::double_at_least(
            row.confidence_bits,
            min,
        )
    }) by {
        assert(shown[j] == kept_detections@[j]@);
        assert(keep(shown[j]));
    }
    if detection_query.verdict is None && detection_query.min_confidence_bits is None {
        lemma_all_kept(all, keep);
    }
}

proof fn lemma_all_kept<V>(all: Seq<V>, keep: spec_fn(V) -> bool)
    requires
        forall|i: int| 0 <= i < all.len() ==> keep(#[trigger] all[i]),
    ensures
        all.filter(keep) == all,
    decreases all.len(),
{
    reveal(Seq::filter);
    if all.len() > 0 {
        let rest = all.drop_last();
        assert forall|i: int| 0 <= i < rest.len() implies keep(#[trigger] rest[i]) by {
            assert(rest[i] == all[i]);
        }
        lemma_all_kept(rest, keep);
        assert(keep(all[all.len() - 1]));
        assert(all.filter(keep) =~= all);
    } else {
        assert(all.filter(keep) =~= all);
    }
}

} // verus!
