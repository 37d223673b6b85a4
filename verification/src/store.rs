//! The embedded store: audit log, latest cells, alert log, agents and tokens.
//!
//! [`StoreView`] is the store as a value: seven maps of rows. A row is `None`
//! where the file holds bytes that are no row. Every method says what it makes of
//! that value; a write is one transaction, so a failed one leaves the value as it
//! was or applies whole.
use crate::event::{now_ns, Event};
use crate::rows::{
    AgentRow, AgentView, AlertRow, AlertView, DetectionRow, DetectionView, EventRow, EventView,
    ScoreRow, ScoreView, TokenRow, TokenView,
};
use crate::{host, ids, keys, kv, rows, text};
use vstd::prelude::*;
use vstd::utf8;

verus! {

/// Most keys that one agent's event index keeps; the oldest leave first.
pub const AGENT_EVENT_INDEX_LIMIT: usize = 10_000;

/// Default telemetry retention window: 30 days, in nanoseconds.
pub const RETENTION_NS: u64 = 2_592_000_000_000_000;

/// Why a store operation failed.
#[derive(Debug)]
pub enum StoreError {
    /// The embedded database failed.
    Storage(redb::Error),
    /// A row of the file does not decode.
    Corrupt,
}

/// Why an enrollment was refused. No agent was created and no token was burned.
#[derive(Debug, Clone, Copy, PartialEq, Eq, Structural)]
pub enum EnrollReject {
    /// The presented token is not on file.
    UnknownToken,
    /// The token exists but was already consumed by a prior enrollment.
    TokenUsed,
    /// The token is older than the configured validity window.
    TokenExpired,
}

impl EnrollReject {
    pub open spec fn reason(self) -> Seq<char> {
        match self {
            EnrollReject::UnknownToken => "unknown or invalid enrollment token"@,
            EnrollReject::TokenUsed => "enrollment token already used"@,
            EnrollReject::TokenExpired => "enrollment token expired"@,
        }
    }

    /// The reason that the agent is told.
    pub fn to_string(&self) -> (out: String)
        ensures
            out@ == self.reason(),
    {
        match self {
            EnrollReject::UnknownToken => "unknown or invalid enrollment token".to_owned(),
            EnrollReject::TokenUsed => "enrollment token already used".to_owned(),
            EnrollReject::TokenExpired => "enrollment token expired".to_owned(),
        }
    }
}

/// The store as a value.
#[verifier::ext_equal]
pub struct StoreView {
    /// The raw audit log, by row key.
    pub events: Map<Seq<u8>, Option<EventView>>,
    /// The row keys of each agent's events, newest last.
    pub index: Map<Seq<char>, Option<Seq<Seq<u8>>>>,
    /// The latest detection of each subject, by subject cell.
    pub detections: Map<Seq<char>, Option<DetectionView>>,
    /// The latest score of each subject, by subject cell.
    pub scores: Map<Seq<char>, Option<ScoreView>>,
    /// The alert log, by row key.
    pub alerts: Map<Seq<u8>, Option<AlertView>>,
    /// The enrolled agents, by identifier.
    pub agents: Map<Seq<char>, Option<AgentView>>,
    /// The enrollment tokens, by token.
    pub tokens: Map<Seq<char>, Option<TokenView>>,
}

/// At most the newest [`AGENT_EVENT_INDEX_LIMIT`] keys.
pub open spec fn capped(keys: Seq<Seq<u8>>) -> Seq<Seq<u8>> {
    if keys.len() > AGENT_EVENT_INDEX_LIMIT {
        keys.skip(keys.len() - AGENT_EVENT_INDEX_LIMIT)
    } else {
        keys
    }
}

impl StoreView {
    /// Whether an agent's index cell is there but does not decode.
    pub open spec fn index_corrupt(self, agent_id: Seq<char>) -> bool {
        self.index.contains_key(agent_id) && self.index[agent_id] is None
    }

    /// The row keys of an agent's events; none for an agent without any.
    pub open spec fn index_keys(self, agent_id: Seq<char>) -> Seq<Seq<u8>> {
        if self.index.contains_key(agent_id) && self.index[agent_id] is Some {
            self.index[agent_id].unwrap()
        } else {
            Seq::empty()
        }
    }

    /// With an event in the log and its key last in its agent's index.
    pub open spec fn write_event(self, row: EventView) -> StoreView {
        let key = keys::row_key(row.ts_ns, row.id);
        StoreView {
            events: self.events.insert(key, Some(row)),
            index: self.index.insert(
                row.agent_id,
                Some(capped(self.index_keys(row.agent_id).push(key))),
            ),
            ..self
        }
    }

    pub open spec fn put_detection(self, row: DetectionView) -> StoreView {
        StoreView {
            detections: self.detections.insert(
                keys::subject_cell(row.agent_id, row.subject),
                Some(row),
            ),
            ..self
        }
    }

    pub open spec fn put_score(self, row: ScoreView) -> StoreView {
        StoreView {
            scores: self.scores.insert(keys::subject_cell(row.agent_id, row.subject), Some(row)),
            ..self
        }
    }

    pub open spec fn put_alert(self, key: Seq<u8>, row: AlertView) -> StoreView {
        StoreView { alerts: self.alerts.insert(key, Some(row)), ..self }
    }

    pub open spec fn put_agent(self, agent_id: Seq<char>, row: AgentView) -> StoreView {
        StoreView { agents: self.agents.insert(agent_id, Some(row)), ..self }
    }

    pub open spec fn put_token(self, token: Seq<char>, row: TokenView) -> StoreView {
        StoreView { tokens: self.tokens.insert(token, Some(row)), ..self }
    }

    pub open spec fn remove_token(self, token: Seq<char>) -> StoreView {
        StoreView { tokens: self.tokens.remove(token), ..self }
    }

    /// Without the events and alerts below a key.
    pub open spec fn prune(self, cutoff: Seq<u8>) -> StoreView {
        let kept = Set::new(|k: Seq<u8>| !kv::bytes_less(k, cutoff));
        StoreView {
            events: self.events.restrict(kept),
            alerts: self.alerts.restrict(kept),
            ..self
        }
    }
}

/// What a write made of the store: all of its effect where it succeeded, all or
/// none of it where it failed.
pub open spec fn stepped(before: StoreView, effect: StoreView, ok: bool, after: StoreView) -> bool {
    after == effect || (!ok && after == before)
}

/// The row of an event.
pub open spec fn event_row_view(ev: Event, payload_json: Seq<u8>) -> EventView {
    EventView {
        id: ev.id@,
        ts_ns: ev.ts_ns,
        agent_id: ev.agent_id@,
        source: ev.source@,
        kind: ev.kind@,
        payload_json,
    }
}

/// The key of an alert: its time, then its identifier, or `fallback` where that
/// is no UUID.
pub open spec fn alert_key(row: AlertView, fallback: Seq<u8>) -> Seq<u8> {
    keys::row_key(
        row.ts_ns,
        match ids::uuid_of(row.id) {
            Some(id) => id,
            None => fallback,
        },
    )
}

/// The table has this row under this key.
pub open spec fn found<K, V>(table: Map<K, Option<V>>, key: K, row: V) -> bool {
    table.contains_key(key) && table[key] == Some(row)
}

/// The table has bytes that are no row under this key.
pub open spec fn corrupt<K, V>(table: Map<K, Option<V>>, key: K) -> bool {
    table.contains_key(key) && table[key] is None
}

/// The token is on file and was not consumed.
pub open spec fn unused(tokens: Map<Seq<char>, Option<TokenView>>, token: Seq<char>) -> bool {
    tokens.contains_key(token) && tokens[token] is Some && !tokens[token].unwrap().used
}

/// The reason to refuse a token, if there is one: it is unknown, or used, or
/// older than the validity window.
pub open spec fn refusal(token: Option<TokenView>, now_ns: u64, validity_ns: u64) -> Option<
    EnrollReject,
> {
    match token {
        None => Some(EnrollReject::UnknownToken),
        Some(row) => if row.used {
            Some(EnrollReject::TokenUsed)
        } else if now_ns - row.created_at_ns > validity_ns {
            Some(EnrollReject::TokenExpired)
        } else {
            None
        },
    }
}

/// Decides whether a token may be consumed now; gives it back if so.
pub fn judge_token(token: Option<TokenRow>, now_ns: u64, validity_ns: u64) -> (out: Result<
    TokenRow,
    EnrollReject,
>)
    ensures
        match out {
            Ok(row) => token == Some(row) && refusal(Some(row@), now_ns, validity_ns) is None,
            Err(reason) => refusal(
                match token {
                    Some(row) => Some(row@),
                    None => None,
                },
                now_ns,
                validity_ns,
            ) == Some(reason),
        },
{
    match token {
        None => Err(EnrollReject::UnknownToken),
        Some(row) => {
            if row.used {
                Err(EnrollReject::TokenUsed)
            } else if now_ns.saturating_sub(row.created_at_ns) > validity_ns {
                Err(EnrollReject::TokenExpired)
            } else {
                Ok(row)
            }
        },
    }
}

/// The row of an agent that is enrolled now.
pub open spec fn new_agent(
    agent_id: Seq<char>,
    hostname: Seq<char>,
    os: Seq<char>,
    pubkey: Seq<u8>,
    now_ns: u64,
) -> AgentView {
    AgentView { agent_id, hostname, os, pubkey, enrolled_at_ns: now_ns, last_seen_ns: now_ns }
}

impl StoreView {
    /// The token on file, where it decodes.
    pub open spec fn token_row(self, token: Seq<char>) -> Option<TokenView> {
        if self.tokens.contains_key(token) {
            self.tokens[token]
        } else {
            None
        }
    }

    /// With a token consumed and the agent that it admitted.
    pub open spec fn burn_and_enroll(
        self,
        token: Seq<char>,
        row: TokenView,
        agent: AgentView,
    ) -> StoreView {
        self.put_token(token, TokenView { used: true, ..row }).put_agent(agent.agent_id, agent)
    }
}

/// What an enrollment with a token comes to. `agent` is the row that it would
/// write.
pub open spec fn enrolled(
    before: StoreView,
    token: Seq<char>,
    now_ns: u64,
    validity_ns: u64,
    agent: AgentView,
    res: Result<Result<(String, AgentRow), EnrollReject>, StoreError>,
    after: StoreView,
) -> bool {
    if corrupt(before.tokens, token) {
        res is Err && after == before
    } else {
        match refusal(before.token_row(token), now_ns, validity_ns) {
            Some(reason) => {
                &&& after == before
                &&& match res {
                    Ok(outcome) => outcome == Err::<(String, AgentRow), EnrollReject>(reason),
                    Err(e) => e is Storage,
                }
            },
            None => {
                &&& stepped(
                    before,
                    before.burn_and_enroll(token, before.token_row(token).unwrap(), agent),
                    res is Ok,
                    after,
                )
                &&& match res {
                    Ok(outcome) => {
                        &&& outcome is Ok
                        &&& outcome->Ok_0.0@ == agent.agent_id
                        &&& outcome->Ok_0.1@ == agent
                    },
                    Err(e) => e is Storage,
                }
            },
        }
    }
}

/// At most the newest keys, in the same order.
pub fn cap_index(keys: Vec<[u8; 24]>) -> (out: Vec<[u8; 24]>)
    ensures
        rows::key_list(out@) == capped(rows::key_list(keys@)),
{
    let total: usize = keys.len();
    if total > AGENT_EVENT_INDEX_LIMIT {
        let overflow: usize = total - AGENT_EVENT_INDEX_LIMIT;
        let mut all: Vec<[u8; 24]> = keys;
        let out: Vec<[u8; 24]> = all.split_off(overflow);
        assert(rows::key_list(out@) =~= capped(rows::key_list(keys@)));
        out
    } else {
        keys
    }
}

/// `values` are the rows of the table in ascending order of keys; `order` is the
/// keys in that order. Every row decodes.
pub open spec fn lists<V>(
    table: Map<Seq<char>, Option<V>>,
    order: Seq<Seq<char>>,
    values: Seq<V>,
) -> bool {
    &&& order.len() == values.len()
    &&& forall|i: int| 0 <= i < order.len() ==> found(table, #[trigger] order[i], values[i])
    &&& forall|k: Seq<char>| #[trigger] table.contains_key(k) ==> order.contains(k)
    &&& forall|i: int, j: int|
        0 <= i < j < order.len() ==> kv::bytes_less(
            utf8::encode_utf8(#[trigger] order[i]),
            utf8::encode_utf8(#[trigger] order[j]),
        )
}

/// `values` are the rows of the table, all of them, in ascending order of keys.
pub open spec fn listed<V>(table: Map<Seq<char>, Option<V>>, values: Seq<V>) -> bool {
    exists|order: Seq<Seq<char>>| #[trigger] lists(table, order, values)
}

/// The keys of a listing's cells.
spec fn cell_keys(cells: Seq<(String, Vec<u8>)>) -> Seq<Seq<char>> {
    cells.map_values(|c: (String, Vec<u8>)| c.0@)
}

/// Where the cells list a table and decode to these values, the values are the rows of
/// the decoded table, in order of keys.
proof fn lemma_listed<V>(
    raw: Map<Seq<char>, Seq<u8>>,
    table: Map<Seq<char>, Option<V>>,
    cells: Seq<(String, Vec<u8>)>,
    values: Seq<V>,
)
    requires
        kv::lists_cells(raw, cells),
        forall|k: Seq<char>| #[trigger] table.contains_key(k) <==> raw.contains_key(k),
        values.len() == cells.len(),
        forall|i: int| 0 <= i < cells.len() ==> table[(#[trigger] cells[i]).0@] == Some(values[i]),
    ensures
        lists(table, cell_keys(cells), values),
        listed(table, values),
{
    let order = cell_keys(cells);
    assert forall|i: int| 0 <= i < order.len() implies found(table, #[trigger] order[i], values[i]) by {
        assert(order[i] == cells[i].0@);
    }
    assert forall|k: Seq<char>| #[trigger] table.contains_key(k) implies order.contains(k) by {
        assert(raw.contains_key(k));
        let p = choose|p: int| 0 <= p < cells.len() && (#[trigger] cells[p]).0@ == k;
        assert(order[p] == k);
    }
    assert forall|i: int, j: int| 0 <= i < j < order.len() implies kv::bytes_less(
        utf8::encode_utf8(#[trigger] order[i]),
        utf8::encode_utf8(#[trigger] order[j]),
    ) by {
        assert(order[i] == cells[i].0@ && order[j] == cells[j].0@);
    }
    assert(lists(table, order, values));
}

/// A list of agents as values.
pub open spec fn agent_views(list: Seq<AgentRow>) -> Seq<AgentView> {
    list.map_values(|row: AgentRow| row@)
}

/// A list of scores as values.
pub open spec fn score_views(list: Seq<ScoreRow>) -> Seq<ScoreView> {
    list.map_values(|row: ScoreRow| row@)
}

/// A list of detections as values.
pub open spec fn detection_views(list: Seq<DetectionRow>) -> Seq<DetectionView> {
    list.map_values(|row: DetectionRow| row@)
}

/// A list of events as values.
pub open spec fn event_views(list: Seq<EventRow>) -> Seq<EventView> {
    list.map_values(|row: EventRow| row@)
}

/// A list of alerts as values.
pub open spec fn alert_views(list: Seq<AlertRow>) -> Seq<AlertView> {
    list.map_values(|row: AlertRow| row@)
}

/// A list of tokens, each with its row, as values.
pub open spec fn token_views(list: Seq<(String, TokenRow)>) -> Seq<TokenView> {
    list.map_values(|entry: (String, TokenRow)| entry.1@)
}

/// The token strings of a list.
pub open spec fn token_names(list: Seq<(String, TokenRow)>) -> Seq<Seq<char>> {
    list.map_values(|entry: (String, TokenRow)| entry.0@)
}

pub fn copy_score(row: &ScoreRow) -> (out: ScoreRow)
    ensures
        out@ == row@,
{
    ScoreRow {
        agent_id: row.agent_id.clone(),
        subject: row.subject.clone(),
        model: row.model.clone(),
        score_bits: row.score_bits,
        ts_ns: row.ts_ns,
    }
}

pub fn copy_detection(row: &DetectionRow) -> (out: DetectionRow)
    ensures
        out@ == row@,
{
    DetectionRow {
        agent_id: row.agent_id.clone(),
        subject: row.subject.clone(),
        verdict: row.verdict.clone(),
        confidence_bits: row.confidence_bits,
        model: row.model.clone(),
        reasons: rows::copy_strings(&row.reasons),
        ts_ns: row.ts_ns,
    }
}

/// The scores of one agent among many, in the same order.
pub fn scores_of_agent(all: &Vec<ScoreRow>, agent_id: &str) -> (out: Vec<ScoreRow>)
    ensures
        score_views(out@) == score_views(all@).filter(|row: ScoreView| row.agent_id == agent_id@),
{
    let ghost mine = |row: ScoreView| row.agent_id == agent_id@;
    let mut out: Vec<ScoreRow> = Vec::new();
    let mut i: usize = 0;
    assert(score_views(all@).take(0).filter(mine) =~= Seq::empty());
    while i < all.len()
        invariant
            i <= all@.len(),
            mine == (|row: ScoreView| row.agent_id == agent_id@),
            score_views(out@) == score_views(all@).take(i as int).filter(mine),
        decreases all@.len() - i,
    {
        let ghost seen = score_views(all@).take(i as int);
        let ghost more = score_views(all@).take(i + 1);
        let ghost before = out@;
        assert(more.drop_last() =~= seen);
        assert(more.last() == all@[i as int]@);
        reveal(Seq::filter);
        if text::same(all[i].agent_id.as_str(), agent_id) {
            out.push(copy_score(&all[i]));
            assert(score_views(out@) =~= score_views(before).push(all@[i as int]@));
        }
        i = i + 1;
    }
    assert(score_views(all@).take(all@.len() as int) =~= score_views(all@));
    out
}

/// The detections of one agent among many, in the same order.
pub fn detections_of_agent(all: &Vec<DetectionRow>, agent_id: &str) -> (out: Vec<DetectionRow>)
    ensures
        detection_views(out@) == detection_views(all@).filter(|row: DetectionView| row.agent_id == agent_id@),
{
    let ghost mine = |row: DetectionView| row.agent_id == agent_id@;
    let mut out: Vec<DetectionRow> = Vec::new();
    let mut i: usize = 0;
    assert(detection_views(all@).take(0).filter(mine) =~= Seq::empty());
    while i < all.len()
        invariant
            i <= all@.len(),
            mine == (|row: DetectionView| row.agent_id == agent_id@),
            detection_views(out@) == detection_views(all@).take(i as int).filter(mine),
        decreases all@.len() - i,
    {
        let ghost seen = detection_views(all@).take(i as int);
        let ghost more = detection_views(all@).take(i + 1);
        let ghost before = out@;
        assert(more.drop_last() =~= seen);
        assert(more.last() == all@[i as int]@);
        reveal(Seq::filter);
        if text::same(all[i].agent_id.as_str(), agent_id) {
            out.push(copy_detection(&all[i]));
            assert(detection_views(out@) =~= detection_views(before).push(all@[i as int]@));
        }
        i = i + 1;
    }
    assert(detection_views(all@).take(all@.len() as int) =~= detection_views(all@));
    out
}

/// One page of a list of keys, the list walked from its end: page `p` holds the
/// keys from place `p * size` on.
pub open spec fn page_of(keys: Seq<Seq<u8>>, page: nat, size: nat) -> Seq<Seq<u8>> {
    let newest_first = keys.reverse();
    let from = min(page * size, newest_first.len());
    newest_first.subrange(from as int, min(from + size, newest_first.len()) as int)
}

pub open spec fn min(a: nat, b: nat) -> nat {
    if a < b {
        a
    } else {
        b
    }
}

/// The pages up to one, put together, are the newest keys, newest first: no key
/// is on two pages and none is missed.
pub proof fn law_pages_tile_the_index(keys: Seq<Seq<u8>>, pages: nat, size: nat)
    ensures
        pages_up_to(keys, pages, size) == keys.reverse().take(
            min(pages * size, keys.len()) as int,
        ),
    decreases pages,
{
    let all = keys.reverse();
    if pages == 0 {
        assert(0 * size == 0) by (nonlinear_arith);
        assert(all.take(0) =~= Seq::empty());
    } else {
        let p = (pages - 1) as nat;
        law_pages_tile_the_index(keys, p, size);
        assert(pages * size == p * size + size) by (nonlinear_arith)
            requires
                pages == p + 1,
        ;
        assert(pages_up_to(keys, pages, size) =~= all.take(min(pages * size, keys.len()) as int));
    }
}

/// The first pages, one after another.
pub open spec fn pages_up_to(keys: Seq<Seq<u8>>, pages: nat, size: nat) -> Seq<Seq<u8>>
    decreases pages,
{
    if pages == 0 {
        Seq::empty()
    } else {
        pages_up_to(keys, (pages - 1) as nat, size) + page_of(keys, (pages - 1) as nat, size)
    }
}

/// The stretch of a list of `total` keys, newest last, that one page covers.
pub fn page_bounds(total: usize, page: usize, page_size: usize) -> (bounds: (usize, usize))
    ensures
        bounds.0 <= bounds.1 <= total,
        page * page_size < total ==> bounds.1 == total - page * page_size,
        page * page_size >= total ==> bounds.1 == 0,
        bounds.1 > page_size ==> bounds.0 == bounds.1 - page_size,
        bounds.1 <= page_size ==> bounds.0 == 0,
        forall|keys: Seq<Seq<u8>>|
            keys.len() == total ==> #[trigger] page_of(keys, page as nat, page_size as nat)
                == keys.subrange(bounds.0 as int, bounds.1 as int).reverse(),
{
    let skip: usize = match page.checked_mul(page_size) {
        Some(skip) => if skip < total {
            skip
        } else {
            total
        },
        None => total,
    };
    let end: usize = total - skip;
    let start: usize = end.saturating_sub(page_size);
    proof {
        assert forall|keys: Seq<Seq<u8>>| keys.len() == total implies #[trigger] page_of(
            keys,
            page as nat,
            page_size as nat,
        ) == keys.subrange(start as int, end as int).reverse() by {
            assert(page_of(keys, page as nat, page_size as nat) =~= keys.subrange(
                start as int,
                end as int,
            ).reverse());
        }
    }
    (start, end)
}

/// The events under these keys that are there, in the same order; nothing where
/// one of them does not decode.
pub open spec fn present(
    events: Map<Seq<u8>, Option<EventView>>,
    keys: Seq<Seq<u8>>,
) -> Option<Seq<EventView>>
    decreases keys.len(),
{
    if keys.len() == 0 {
        Some(Seq::empty())
    } else {
        match present(events, keys.drop_last()) {
            None => None,
            Some(rows) => if !events.contains_key(keys.last()) {
                Some(rows)
            } else {
                match events[keys.last()] {
                    Some(row) => Some(rows.push(row)),
                    None => None,
                }
            },
        }
    }
}

/// The events that the entries of a page denote, in the same order, where an entry
/// that is absent denotes none; nothing where one of them does not decode.
pub open spec fn page_rows(entries: Seq<Option<Vec<u8>>>) -> Option<Seq<EventView>>
    decreases entries.len(),
{
    if entries.len() == 0 {
        Some(Seq::empty())
    } else {
        match page_rows(entries.drop_last()) {
            None => None,
            Some(rows) => match entries.last() {
                None => Some(rows),
                Some(bytes) => match rows::event_of(bytes@) {
                    Some(row) => Some(rows.push(row)),
                    None => None,
                },
            },
        }
    }
}

proof fn lemma_page_rows_prefix(entries: Seq<Option<Vec<u8>>>, n: int)
    requires
        0 <= n <= entries.len(),
        page_rows(entries.take(n)) is None,
    ensures
        page_rows(entries) is None,
    decreases entries.len() - n,
{
    if n == entries.len() {
        assert(entries.take(n) =~= entries);
    } else {
        assert(entries.take(n + 1).drop_last() =~= entries.take(n));
        lemma_page_rows_prefix(entries, n + 1);
    }
}

/// Whether the entry is what the table has under the key.
spec fn entry_of(
    events: Map<Seq<u8>, Option<EventView>>,
    key: Seq<u8>,
    entry: Option<Vec<u8>>,
) -> bool {
    match entry {
        Some(bytes) => events.contains_key(key) && events[key] == rows::event_of(bytes@),
        None => !events.contains_key(key),
    }
}

proof fn lemma_page_rows_are_present(
    events: Map<Seq<u8>, Option<EventView>>,
    keys: Seq<Seq<u8>>,
    entries: Seq<Option<Vec<u8>>>,
)
    requires
        keys.len() == entries.len(),
        forall|i: int| 0 <= i < keys.len() ==> entry_of(events, keys[i], #[trigger] entries[i]),
    ensures
        page_rows(entries) == present(events, keys),
    decreases keys.len(),
{
    if keys.len() > 0 {
        lemma_page_rows_are_present(events, keys.drop_last(), entries.drop_last());
        assert(entry_of(events, keys.last(), entries[entries.len() - 1]));
    }
}

proof fn lemma_empty_page(page: nat, size: nat)
    ensures
        page_of(Seq::empty(), page, size) == Seq::<Seq<u8>>::empty(),
{
    assert(page_of(Seq::empty(), page, size) =~= Seq::<Seq<u8>>::empty());
}

/// `values` are the rows of the table with the `limit` greatest keys, greatest
/// first; `order` is those keys.
pub open spec fn lists_newest<V>(
    table: Map<Seq<u8>, Option<V>>,
    limit: nat,
    order: Seq<Seq<u8>>,
    values: Seq<V>,
) -> bool {
    &&& order.len() == values.len()
    &&& order.len() <= limit
    &&& forall|i: int| 0 <= i < order.len() ==> found(table, #[trigger] order[i], values[i])
    &&& forall|k: Seq<u8>| #[trigger]
        table.contains_key(k) ==> {
            ||| order.contains(k)
            ||| order.len() == limit && forall|i: int|
                0 <= i < order.len() ==> kv::bytes_less(k, #[trigger] order[i])
        }
    &&& forall|i: int, j: int|
        0 <= i < j < order.len() ==> kv::bytes_less(#[trigger] order[j], #[trigger] order[i])
}

/// `values` are the newest rows of the table, newest first, at most `limit`.
pub open spec fn newest<V>(table: Map<Seq<u8>, Option<V>>, limit: nat, values: Seq<V>) -> bool {
    exists|order: Seq<Seq<u8>>| #[trigger] lists_newest(table, limit, order, values)
}

/// The row under a key is there and has this `id`.
pub open spec fn has_id(
    alerts: Map<Seq<u8>, Option<AlertView>>,
    key: Seq<u8>,
    id: Seq<char>,
) -> bool {
    alerts.contains_key(key) && alerts[key] is Some && alerts[key].unwrap().id == id
}

/// The first key, in order of keys, of an alert with this `id`; every alert
/// before it decodes.
pub open spec fn oldest_with_id(
    alerts: Map<Seq<u8>, Option<AlertView>>,
    id: Seq<char>,
    key: Seq<u8>,
) -> bool {
    &&& has_id(alerts, key, id)
    &&& forall|k: Seq<u8>| #[trigger]
        alerts.contains_key(k) && kv::bytes_less(k, key) ==> !corrupt(alerts, k) && !has_id(
            alerts,
            k,
            id,
        )
}

/// An alert does not decode and none before it, in order of keys, has this `id`.
pub open spec fn corrupt_before(
    alerts: Map<Seq<u8>, Option<AlertView>>,
    id: Seq<char>,
) -> bool {
    exists|key: Seq<u8>|
        #[trigger] corrupt(alerts, key) && forall|k: Seq<u8>| #[trigger]
            alerts.contains_key(k) && kv::bytes_less(k, key) ==> !has_id(alerts, k, id)
}

/// A key below that of a listing's entry is that of an earlier entry.
proof fn lemma_entries_before(
    alerts: Map<Seq<u8>, Option<AlertView>>,
    entries: Seq<(Vec<u8>, Vec<u8>)>,
    i: int,
)
    requires
        0 <= i < entries.len(),
        forall|k: Seq<u8>| #[trigger]
            alerts.contains_key(k) ==> exists|p: int|
                0 <= p < entries.len() && (#[trigger] entries[p]).0@ == k,
        forall|a: int, b: int|
            0 <= a < b < entries.len() ==> kv::bytes_less(
                (#[trigger] entries[a]).0@,
                (#[trigger] entries[b]).0@,
            ),
    ensures
        forall|k: Seq<u8>| #[trigger]
            alerts.contains_key(k) && kv::bytes_less(k, entries[i].0@) ==> exists|p: int|
                0 <= p < i && (#[trigger] entries[p]).0@ == k,
{
    assert forall|k: Seq<u8>| #[trigger]
        alerts.contains_key(k) && kv::bytes_less(k, entries[i].0@) implies exists|p: int|
        0 <= p < i && (#[trigger] entries[p]).0@ == k by {
        let p = choose|p: int| 0 <= p < entries.len() && (#[trigger] entries[p]).0@ == k;
        if p >= i {
            if p > i {
                assert(kv::bytes_less(entries[i].0@, entries[p].0@));
            }
            keys::lemma_less_is_asymmetric(k, entries[i].0@);
        }
    }
}

/// The oldest alert with this `id` was acknowledged.
pub open spec fn acknowledged_oldest(before: StoreView, id: Seq<char>, after: StoreView) -> bool {
    exists|key: Seq<u8>|
        oldest_with_id(before.alerts, id, key) && #[trigger] before.acknowledge(key) == after
}

impl StoreView {
    /// With the alert under a key acknowledged.
    pub open spec fn acknowledge(self, key: Seq<u8>) -> StoreView {
        self.put_alert(key, AlertView { acknowledged: true, ..self.alerts[key].unwrap() })
    }

    /// Without the events and alerts that are older than the retention window; a
    /// clock below the window expires nothing.
    pub open spec fn expire(self, now: u64, retention_ns: u64) -> StoreView {
        if now >= retention_ns {
            self.prune(keys::cutoff_key((now - retention_ns) as u64))
        } else {
            self
        }
    }
}

/// The embedded store. Its owner is the only one to write the file.
pub struct Store {
    db: redb::Database,
}

/// A table with its values decoded.
pub open spec fn decoded<K, V>(m: Map<K, Seq<u8>>, decode: spec_fn(Seq<u8>) -> Option<V>) -> Map<
    K,
    Option<V>,
> {
    Map::new(|k: K| m.contains_key(k), |k: K| decode(m[k]))
}

spec fn view_of(t: kv::Tables) -> StoreView {
    StoreView {
        events: decoded(t.rows["events"@], |b: Seq<u8>| rows::event_of(b)),
        index: decoded(t.cells["events_by_agent"@], |b: Seq<u8>| rows::index_of(b)),
        detections: decoded(t.cells["detections"@], |b: Seq<u8>| rows::detection_of(b)),
        scores: decoded(t.cells["scores"@], |b: Seq<u8>| rows::score_of(b)),
        alerts: decoded(t.rows["alerts"@], |b: Seq<u8>| rows::alert_of(b)),
        agents: decoded(t.cells["agents"@], |b: Seq<u8>| rows::agent_of(b)),
        tokens: decoded(t.cells["enroll_tokens"@], |b: Seq<u8>| rows::token_of(b)),
    }
}

spec fn has_tables(t: kv::Tables) -> bool {
    &&& t.rows.contains_key("events"@)
    &&& t.rows.contains_key("alerts"@)
    &&& t.cells.contains_key("events_by_agent"@)
    &&& t.cells.contains_key("detections"@)
    &&& t.cells.contains_key("scores"@)
    &&& t.cells.contains_key("agents"@)
    &&& t.cells.contains_key("enroll_tokens"@)
}

proof fn lemma_names()
    ensures
        "events"@.len() == 6,
        "alerts"@.len() == 6,
        "events"@ != "alerts"@,
        "events_by_agent"@.len() == 15,
        "detections"@.len() == 10,
        "scores"@.len() == 6,
        "agents"@.len() == 6,
        "enroll_tokens"@.len() == 13,
        "scores"@ != "agents"@,
{
    reveal_strlit("events");
    reveal_strlit("alerts");
    reveal_strlit("events_by_agent");
    reveal_strlit("detections");
    reveal_strlit("scores");
    reveal_strlit("agents");
    reveal_strlit("enroll_tokens");
    assert("events"@[0] == 'e');
    assert("alerts"@[0] == 'a');
    assert("scores"@[0] == 's');
    assert("agents"@[0] == 'a');
}

proof fn lemma_put_cell(t: kv::Tables, table: Seq<char>, key: Seq<char>, value: Seq<u8>)
    requires
        has_tables(t),
    ensures
        has_tables(t.put_cell(table, key, value)),
        ({
            let before = view_of(t);
            let after = view_of(t.put_cell(table, key, value));
            &&& after.events == before.events
            &&& after.alerts == before.alerts
            &&& after.index == (if table == "events_by_agent"@ {
                before.index.insert(key, rows::index_of(value))
            } else {
                before.index
            })
            &&& after.detections == (if table == "detections"@ {
                before.detections.insert(key, rows::detection_of(value))
            } else {
                before.detections
            })
            &&& after.scores == (if table == "scores"@ {
                before.scores.insert(key, rows::score_of(value))
            } else {
                before.scores
            })
            &&& after.agents == (if table == "agents"@ {
                before.agents.insert(key, rows::agent_of(value))
            } else {
                before.agents
            })
            &&& after.tokens == (if table == "enroll_tokens"@ {
                before.tokens.insert(key, rows::token_of(value))
            } else {
                before.tokens
            })
        }),
{
    lemma_names();
    let before = view_of(t);
    let after = view_of(t.put_cell(table, key, value));
    assert(after.index =~= if table == "events_by_agent"@ {
        before.index.insert(key, rows::index_of(value))
    } else {
        before.index
    });
    assert(after.detections =~= if table == "detections"@ {
        before.detections.insert(key, rows::detection_of(value))
    } else {
        before.detections
    });
    assert(after.scores =~= if table == "scores"@ {
        before.scores.insert(key, rows::score_of(value))
    } else {
        before.scores
    });
    assert(after.agents =~= if table == "agents"@ {
        before.agents.insert(key, rows::agent_of(value))
    } else {
        before.agents
    });
    assert(after.tokens =~= if table == "enroll_tokens"@ {
        before.tokens.insert(key, rows::token_of(value))
    } else {
        before.tokens
    });
}

proof fn lemma_put_row(t: kv::Tables, table: Seq<char>, key: Seq<u8>, value: Seq<u8>)
    requires
        has_tables(t),
    ensures
        has_tables(t.put_row(table, key, value)),
        ({
            let before = view_of(t);
            let after = view_of(t.put_row(table, key, value));
            &&& after == (StoreView { events: after.events, alerts: after.alerts, ..before })
            &&& after.events == (if table == "events"@ {
                before.events.insert(key, rows::event_of(value))
            } else {
                before.events
            })
            &&& after.alerts == (if table == "alerts"@ {
                before.alerts.insert(key, rows::alert_of(value))
            } else {
                before.alerts
            })
        }),
{
    lemma_names();
    let before = view_of(t);
    let after = view_of(t.put_row(table, key, value));
    assert(after.events =~= if table == "events"@ {
        before.events.insert(key, rows::event_of(value))
    } else {
        before.events
    });
    assert(after.alerts =~= if table == "alerts"@ {
        before.alerts.insert(key, rows::alert_of(value))
    } else {
        before.alerts
    });
}

impl View for Store {
    type V = StoreView;

    closed spec fn view(&self) -> StoreView {
        view_of(kv::tables(self.db))
    }
}

/// The database file of a data directory.
pub fn database_path(data_dir: &str) -> (path: String)
    ensures
        path@ == host::path_below(data_dir@, "aegis.redb"@),
{
    host::join_path(data_dir, "aegis.redb")
}

fn stored(res: Result<Vec<u8>, postcard::Error>) -> (bytes: Vec<u8>)
    requires
        res is Ok,
    ensures
        bytes == res->Ok_0,
{
    match res {
        Ok(bytes) => bytes,
        Err(_) => Vec::new(),
    }
}

/// What a write comes to, given what the database answered.
pub fn finished(res: Result<(), redb::Error>) -> (out: Result<(), StoreError>)
    ensures
        match res {
            Ok(_) => out is Ok,
            Err(e) => out == Err::<(), StoreError>(StoreError::Storage(e)),
        },
{
    match res {
        Ok(_) => Ok(()),
        Err(e) => Err(StoreError::Storage(e)),
    }
}

/// What reading an agent cell comes to, given what the database answered.
pub fn agent_reply(reply: Result<Option<Vec<u8>>, redb::Error>) -> (res: Result<
    Option<AgentRow>,
    StoreError,
>)
    ensures
        match reply {
            Ok(Some(bytes)) => match rows::agent_of(bytes@) {
                Some(view) => res matches Ok(Some(row)) && row@ == view,
                None => res == Err::<Option<AgentRow>, StoreError>(StoreError::Corrupt),
            },
            Ok(None) => res == Ok::<Option<AgentRow>, StoreError>(None),
            Err(e) => res == Err::<Option<AgentRow>, StoreError>(StoreError::Storage(e)),
        },
{
    match reply {
        Ok(Some(bytes)) => match rows::decode_agent(bytes.as_slice()) {
            Some(row) => Ok(Some(row)),
            None => Err(StoreError::Corrupt),
        },
        Ok(None) => Ok(None),
        Err(e) => Err(StoreError::Storage(e)),
    }
}

/// What reading a token cell comes to, given what the database answered.
pub fn token_reply(reply: Result<Option<Vec<u8>>, redb::Error>) -> (res: Result<
    Option<TokenRow>,
    StoreError,
>)
    ensures
        match reply {
            Ok(Some(bytes)) => match rows::token_of(bytes@) {
                Some(view) => res matches Ok(Some(row)) && row@ == view,
                None => res == Err::<Option<TokenRow>, StoreError>(StoreError::Corrupt),
            },
            Ok(None) => res == Ok::<Option<TokenRow>, StoreError>(None),
            Err(e) => res == Err::<Option<TokenRow>, StoreError>(StoreError::Storage(e)),
        },
{
    match reply {
        Ok(Some(bytes)) => match rows::decode_token(bytes.as_slice()) {
            Some(row) => Ok(Some(row)),
            None => Err(StoreError::Corrupt),
        },
        Ok(None) => Ok(None),
        Err(e) => Err(StoreError::Storage(e)),
    }
}

/// What reading a score cell comes to, given what the database answered.
pub fn score_reply(reply: Result<Option<Vec<u8>>, redb::Error>) -> (res: Result<
    Option<ScoreRow>,
    StoreError,
>)
    ensures
        match reply {
            Ok(Some(bytes)) => match rows::score_of(bytes@) {
                Some(view) => res matches Ok(Some(row)) && row@ == view,
                None => res == Err::<Option<ScoreRow>, StoreError>(StoreError::Corrupt),
            },
            Ok(None) => res == Ok::<Option<ScoreRow>, StoreError>(None),
            Err(e) => res == Err::<Option<ScoreRow>, StoreError>(StoreError::Storage(e)),
        },
{
    match reply {
        Ok(Some(bytes)) => match rows::decode_score(bytes.as_slice()) {
            Some(row) => Ok(Some(row)),
            None => Err(StoreError::Corrupt),
        },
        Ok(None) => Ok(None),
        Err(e) => Err(StoreError::Storage(e)),
    }
}

/// What reading a detection cell comes to, given what the database answered.
pub fn detection_reply(reply: Result<Option<Vec<u8>>, redb::Error>) -> (res: Result<
    Option<DetectionRow>,
    StoreError,
>)
    ensures
        match reply {
            Ok(Some(bytes)) => match rows::detection_of(bytes@) {
                Some(view) => res matches Ok(Some(row)) && row@ == view,
                None => res == Err::<Option<DetectionRow>, StoreError>(StoreError::Corrupt),
            },
            Ok(None) => res == Ok::<Option<DetectionRow>, StoreError>(None),
            Err(e) => res == Err::<Option<DetectionRow>, StoreError>(StoreError::Storage(e)),
        },
{
    match reply {
        Ok(Some(bytes)) => match rows::decode_detection(bytes.as_slice()) {
            Some(row) => Ok(Some(row)),
            None => Err(StoreError::Corrupt),
        },
        Ok(None) => Ok(None),
        Err(e) => Err(StoreError::Storage(e)),
    }
}

/// The keys that an index cell holds, given what the database answered: none where
/// the cell is absent.
pub fn index_reply(reply: Result<Option<Vec<u8>>, redb::Error>) -> (res: Result<
    Vec<[u8; 24]>,
    StoreError,
>)
    ensures
        match reply {
            Ok(Some(bytes)) => match rows::index_of(bytes@) {
                Some(keys) => res matches Ok(list) && rows::key_list(list@) == keys,
                None => res == Err::<Vec<[u8; 24]>, StoreError>(StoreError::Corrupt),
            },
            Ok(None) => res matches Ok(list) && list@.len() == 0,
            Err(e) => res == Err::<Vec<[u8; 24]>, StoreError>(StoreError::Storage(e)),
        },
{
    match reply {
        Ok(Some(bytes)) => match rows::decode_index(bytes.as_slice()) {
            Some(list) => Ok(list),
            None => Err(StoreError::Corrupt),
        },
        Ok(None) => Ok(Vec::new()),
        Err(e) => Err(StoreError::Storage(e)),
    }
}

/// Decodes the entries of a page that are there, in the same order; fails where one
/// of them is no event.
pub fn read_page(entries: &Vec<Option<Vec<u8>>>) -> (res: Result<Vec<EventRow>, StoreError>)
    ensures
        match res {
            Ok(out) => page_rows(entries@) == Some(event_views(out@)),
            Err(e) => e == StoreError::Corrupt && page_rows(entries@) is None,
        },
{
    let mut out: Vec<EventRow> = Vec::new();
    let mut i: usize = 0;
    assert(entries@.take(0) =~= Seq::empty());
    assert(event_views(out@) =~= Seq::empty());
    while i < entries.len()
        invariant
            i <= entries@.len(),
            page_rows(entries@.take(i as int)) == Some(event_views(out@)),
        decreases entries@.len() - i,
    {
        let ghost before = out@;
        assert(entries@.take(i + 1).drop_last() =~= entries@.take(i as int));
        assert(entries@.take(i + 1).last() == entries@[i as int]);
        if let Some(bytes) = &entries[i] {
            match rows::decode_event(bytes.as_slice()) {
                Some(row) => {
                    out.push(row);
                    assert(event_views(out@) =~= event_views(before).push(row@));
                },
                None => {
                    proof {
                        lemma_page_rows_prefix(entries@, i + 1);
                    }
                    return Err(StoreError::Corrupt);
                },
            }
        }
        i = i + 1;
    }
    assert(entries@.take(i as int) =~= entries@);
    Ok(out)
}

/// The bytes are an alert with another `id`.
pub open spec fn other_alert(bytes: Seq<u8>, id: Seq<char>) -> bool {
    rows::alert_of(bytes) matches Some(row) && row.id != id
}

/// Entry `i` is no alert, and every one before it is an alert with another `id`.
pub open spec fn unreadable_at(
    entries: Seq<(Vec<u8>, Vec<u8>)>,
    id: Seq<char>,
    i: int,
) -> bool {
    &&& 0 <= i < entries.len()
    &&& rows::alert_of(entries[i].1@) is None
    &&& forall|j: int| 0 <= j < i ==> other_alert((#[trigger] entries[j]).1@, id)
}

/// Finds the first alert of a listing with this `id`: its place and the alert. Fails
/// where an entry before it is no alert.
pub fn oldest_alert(entries: &Vec<(Vec<u8>, Vec<u8>)>, id: &str) -> (res: Result<
    Option<(usize, AlertRow)>,
    StoreError,
>)
    ensures
        match res {
            Ok(Some(hit)) => {
                &&& hit.0 < entries@.len()
                &&& rows::alert_of(entries@[hit.0 as int].1@) == Some(hit.1@)
                &&& hit.1.id@ == id@
                &&& forall|j: int|
                    0 <= j < hit.0 ==> other_alert((#[trigger] entries@[j]).1@, id@)
            },
            Ok(None) => forall|j: int|
                0 <= j < entries@.len() ==> other_alert((#[trigger] entries@[j]).1@, id@),
            Err(e) => e == StoreError::Corrupt && exists|i: int|
                #[trigger] unreadable_at(entries@, id@, i),
        },
{
    let mut i: usize = 0;
    while i < entries.len()
        invariant
            i <= entries@.len(),
            forall|j: int| 0 <= j < i ==> other_alert((#[trigger] entries@[j]).1@, id@),
        decreases entries@.len() - i,
    {
        match rows::decode_alert(entries[i].1.as_slice()) {
            None => {
                assert(unreadable_at(entries@, id@, i as int));
                return Err(StoreError::Corrupt);
            },
            Some(row) => {
                if text::same(row.id.as_str(), id) {
                    return Ok(Some((i, row)));
                }
            },
        }
        i = i + 1;
    }
    Ok(None)
}

/// The row that refreshing an agent's liveness writes, given what looking the agent up
/// came to: none where it is not enrolled.
pub fn refreshed(lookup: Result<Option<AgentRow>, StoreError>, ts_ns: u64) -> (res: Result<
    Option<AgentRow>,
    StoreError,
>)
    ensures
        match lookup {
            Ok(Some(row)) => res == Ok::<Option<AgentRow>, StoreError>(
                Some(AgentRow { last_seen_ns: ts_ns, ..row }),
            ),
            _ => res == lookup,
        },
{
    match lookup {
        Ok(Some(row)) => {
            let mut row: AgentRow = row;
            row.last_seen_ns = ts_ns;
            Ok(Some(row))
        },
        other => other,
    }
}

/// The key below which events and alerts are older than the retention window; none
/// where the clock has not reached the window.
pub fn retention_cutoff(now: u64, retention_ns: u64) -> (cutoff: Option<[u8; 24]>)
    ensures
        match cutoff {
            Some(key) => now >= retention_ns && key@ == keys::cutoff_key(
                (now - retention_ns) as u64,
            ),
            None => now < retention_ns,
        },
{
    if now < retention_ns {
        return None;
    }
    let zeros: [u8; 16] = [0; 16];
    assert(zeros@ =~= Seq::new(16, |i: int| 0u8));
    Some(keys::composite_key(now - retention_ns, &zeros))
}

/// Whether the token on file, if there is one, may be revoked: only while unused.
pub fn may_revoke(token: &Option<TokenRow>) -> (yes: bool)
    ensures
        yes == (token is Some && !token.unwrap().used),
{
    match token {
        Some(row) => !row.used,
        None => false,
    }
}

/// Decodes the agents of a listing, in the same order; fails where one of them is
/// no row.
pub fn read_agents(entries: &Vec<(String, Vec<u8>)>) -> (res: Result<Vec<AgentRow>, StoreError>)
    ensures
        match res {
            Ok(out) => {
                &&& out@.len() == entries@.len()
                &&& forall|i: int|
                    0 <= i < out@.len() ==> rows::agent_of(entries@[i].1@) == Some(
                        (#[trigger] out@[i])@,
                    )
            },
            Err(e) => {
                &&& e == StoreError::Corrupt
                &&& exists|i: int|
                    0 <= i < entries@.len() && rows::agent_of((#[trigger] entries@[i]).1@) is None
            },
        },
{
    let mut out: Vec<AgentRow> = Vec::new();
    let mut i: usize = 0;
    while i < entries.len()
        invariant
            i <= entries@.len(),
            out@.len() == i,
            forall|j: int|
                0 <= j < i ==> rows::agent_of(entries@[j].1@) == Some((#[trigger] out@[j])@),
        decreases entries@.len() - i,
    {
        match rows::decode_agent(entries[i].1.as_slice()) {
            Some(row) => {
                out.push(row);
            },
            None => {
                assert(rows::agent_of(entries@[i as int].1@) is None);
                return Err(StoreError::Corrupt);
            },
        }
        i = i + 1;
    }
    Ok(out)
}

/// Decodes the scores of a listing, in the same order; fails where one of them is
/// no row.
pub fn read_scores(entries: &Vec<(String, Vec<u8>)>) -> (res: Result<Vec<ScoreRow>, StoreError>)
    ensures
        match res {
            Ok(out) => {
                &&& out@.len() == entries@.len()
                &&& forall|i: int|
                    0 <= i < out@.len() ==> rows::score_of(entries@[i].1@) == Some(
                        (#[trigger] out@[i])@,
                    )
            },
            Err(e) => {
                &&& e == StoreError::Corrupt
                &&& exists|i: int|
                    0 <= i < entries@.len() && rows::score_of((#[trigger] entries@[i]).1@) is None
            },
        },
{
    let mut out: Vec<ScoreRow> = Vec::new();
    let mut i: usize = 0;
    while i < entries.len()
        invariant
            i <= entries@.len(),
            out@.len() == i,
            forall|j: int|
                0 <= j < i ==> rows::score_of(entries@[j].1@) == Some((#[trigger] out@[j])@),
        decreases entries@.len() - i,
    {
        match rows::decode_score(entries[i].1.as_slice()) {
            Some(row) => {
                out.push(row);
            },
            None => {
                assert(rows::score_of(entries@[i as int].1@) is None);
                return Err(StoreError::Corrupt);
            },
        }
        i = i + 1;
    }
    Ok(out)
}

/// Decodes the detections of a listing, in the same order; fails where one of them is
/// no row.
pub fn read_detections(entries: &Vec<(String, Vec<u8>)>) -> (res: Result<Vec<DetectionRow>, StoreError>)
    ensures
        match res {
            Ok(out) => {
                &&& out@.len() == entries@.len()
                &&& forall|i: int|
                    0 <= i < out@.len() ==> rows::detection_of(entries@[i].1@) == Some(
                        (#[trigger] out@[i])@,
                    )
            },
            Err(e) => {
                &&& e == StoreError::Corrupt
                &&& exists|i: int|
                    0 <= i < entries@.len() && rows::detection_of((#[trigger] entries@[i]).1@) is None
            },
        },
{
    let mut out: Vec<DetectionRow> = Vec::new();
    let mut i: usize = 0;
    while i < entries.len()
        invariant
            i <= entries@.len(),
            out@.len() == i,
            forall|j: int|
                0 <= j < i ==> rows::detection_of(entries@[j].1@) == Some((#[trigger] out@[j])@),
        decreases entries@.len() - i,
    {
        match rows::decode_detection(entries[i].1.as_slice()) {
            Some(row) => {
                out.push(row);
            },
            None => {
                assert(rows::detection_of(entries@[i as int].1@) is None);
                return Err(StoreError::Corrupt);
            },
        }
        i = i + 1;
    }
    Ok(out)
}

/// Decodes the alerts of a listing, in the same order; fails where one of them is
/// no row.
pub fn read_alerts(entries: &Vec<(Vec<u8>, Vec<u8>)>) -> (res: Result<Vec<AlertRow>, StoreError>)
    ensures
        match res {
            Ok(out) => {
                &&& out@.len() == entries@.len()
                &&& forall|i: int|
                    0 <= i < out@.len() ==> rows::alert_of(entries@[i].1@) == Some(
                        (#[trigger] out@[i])@,
                    )
            },
            Err(e) => {
                &&& e == StoreError::Corrupt
                &&& exists|i: int|
                    0 <= i < entries@.len() && rows::alert_of((#[trigger] entries@[i]).1@) is None
            },
        },
{
    let mut out: Vec<AlertRow> = Vec::new();
    let mut i: usize = 0;
    while i < entries.len()
        invariant
            i <= entries@.len(),
            out@.len() == i,
            forall|j: int|
                0 <= j < i ==> rows::alert_of(entries@[j].1@) == Some((#[trigger] out@[j])@),
        decreases entries@.len() - i,
    {
        match rows::decode_alert(entries[i].1.as_slice()) {
            Some(row) => {
                out.push(row);
            },
            None => {
                assert(rows::alert_of(entries@[i as int].1@) is None);
                return Err(StoreError::Corrupt);
            },
        }
        i = i + 1;
    }
    Ok(out)
}

/// Decodes the tokens of a listing, each with its name, in the same order; fails
/// where one of them is no row.
pub fn read_tokens(entries: &Vec<(String, Vec<u8>)>) -> (res: Result<
    Vec<(String, TokenRow)>,
    StoreError,
>)
    ensures
        match res {
            Ok(out) => {
                &&& out@.len() == entries@.len()
                &&& forall|i: int|
                    0 <= i < out@.len() ==> (#[trigger] out@[i]).0@ == entries@[i].0@
                        && rows::token_of(entries@[i].1@) == Some(out@[i].1@)
            },
            Err(e) => {
                &&& e == StoreError::Corrupt
                &&& exists|i: int|
                    0 <= i < entries@.len() && rows::token_of((#[trigger] entries@[i]).1@) is None
            },
        },
{
    let mut out: Vec<(String, TokenRow)> = Vec::new();
    let mut i: usize = 0;
    while i < entries.len()
        invariant
            i <= entries@.len(),
            out@.len() == i,
            forall|j: int|
                0 <= j < i ==> (#[trigger] out@[j]).0@ == entries@[j].0@ && rows::token_of(
                    entries@[j].1@,
                ) == Some(out@[j].1@),
        decreases entries@.len() - i,
    {
        match rows::decode_token(entries[i].1.as_slice()) {
            Some(row) => {
                out.push((entries[i].0.clone(), row));
            },
            None => {
                assert(rows::token_of(entries@[i as int].1@) is None);
                return Err(StoreError::Corrupt);
            },
        }
        i = i + 1;
    }
    Ok(out)
}

impl Store {
    /// Every table is there.
    pub closed spec fn wf(&self) -> bool {
        has_tables(kv::tables(self.db))
    }

    /// Open (creating if absent) the store in `data_dir`, which must exist. Every
    /// table is materialised, so later reads find it. What the file held before
    /// is still there.
    pub fn open(data_dir: &str) -> (res: Result<Store, StoreError>)
        ensures
            match res {
                Ok(store) => store.wf(),
                Err(e) => e is Storage,
            },
    {
        let path: String = database_path(data_dir);
        let mut db: redb::Database = match kv::open_database(path.as_str()) {
            Ok(db) => db,
            Err(e) => return Err(StoreError::Storage(e)),
        };
        proof {
            lemma_names();
        }
        if let Err(e) = kv::create_tables(
            &mut db,
            ("events", "alerts"),
            ("events_by_agent", "detections", "scores", "agents", "enroll_tokens"),
        ) {
            return Err(StoreError::Storage(e));
        }
        Ok(Store { db })
    }

    /// Upsert the latest detection of a subject.
    pub fn upsert_detection(&mut self, row: &DetectionRow) -> (res: Result<(), StoreError>)
        requires
            old(self).wf(),
        ensures
            final(self).wf(),
            stepped(old(self)@, old(self)@.put_detection(row@), res is Ok, final(self)@),
            res matches Err(e) ==> e is Storage,
    {
        let key: String = keys::subject_key(row.agent_id.as_str(), row.subject.as_str());
        let bytes: Vec<u8> = stored(rows::encode_detection(row));
        proof {
            lemma_names();
            lemma_put_cell(kv::tables(self.db), "detections"@, key@, bytes@);
        }
        finished(kv::put_cell(&mut self.db, "detections", key.as_str(), bytes.as_slice()))
    }

    /// Upsert the latest risk score of a subject.
    pub fn upsert_score(&mut self, row: &ScoreRow) -> (res: Result<(), StoreError>)
        requires
            old(self).wf(),
        ensures
            final(self).wf(),
            stepped(old(self)@, old(self)@.put_score(row@), res is Ok, final(self)@),
            res matches Err(e) ==> e is Storage,
    {
        let key: String = keys::subject_key(row.agent_id.as_str(), row.subject.as_str());
        let bytes: Vec<u8> = stored(rows::encode_score(row));
        proof {
            lemma_names();
            lemma_put_cell(kv::tables(self.db), "scores"@, key@, bytes@);
        }
        finished(kv::put_cell(&mut self.db, "scores", key.as_str(), bytes.as_slice()))
    }

    /// Persist a raw event in the audit log and add its key to its agent's index,
    /// in one transaction. `payload_json` is the JSON of the event's payload.
    pub fn write_event(&mut self, ev: &Event, payload_json: Vec<u8>) -> (res: Result<(), StoreError>)
        requires
            old(self).wf(),
        ensures
            final(self).wf(),
            !old(self)@.index_corrupt(ev.agent_id@) ==> {
                &&& stepped(
                    old(self)@,
                    old(self)@.write_event(event_row_view(*ev, payload_json@)),
                    res is Ok,
                    final(self)@,
                )
                &&& res matches Err(e) ==> e is Storage
            },
            old(self)@.index_corrupt(ev.agent_id@) ==> res is Err && final(self)@ == old(self)@,
    {
        let row: EventRow = EventRow {
            id: ev.id,
            ts_ns: ev.ts_ns,
            agent_id: ev.agent_id.clone(),
            source: ev.source.clone(),
            kind: ev.kind.clone(),
            payload_json,
        };
        let bytes: Vec<u8> = stored(rows::encode_event(&row));
        let key: [u8; 24] = keys::composite_key(ev.ts_ns, &ev.id);
        proof {
            lemma_names();
        }
        let mut list: Vec<[u8; 24]> = match index_reply(
            kv::get_cell(&self.db, "events_by_agent", ev.agent_id.as_str()),
        ) {
            Ok(list) => list,
            Err(e) => return Err(e),
        };
        assert(rows::key_list(list@) =~= self@.index_keys(ev.agent_id@));
        let ghost earlier = list@;
        list.push(key);
        assert(rows::key_list(list@) =~= rows::key_list(earlier).push(key@));
        let list: Vec<[u8; 24]> = cap_index(list);
        let index_bytes: Vec<u8> = stored(rows::encode_index(&list));
        proof {
            let t = kv::tables(self.db);
            lemma_put_row(t, "events"@, key@, bytes@);
            let t2 = t.put_row("events"@, key@, bytes@);
            lemma_put_cell(t2, "events_by_agent"@, ev.agent_id@, index_bytes@);
            let t3 = t2.put_cell("events_by_agent"@, ev.agent_id@, index_bytes@);
            assert(view_of(t3) =~= self@.write_event(row@));
        }
        finished(
            kv::put_row_and_cell(
                &mut self.db,
                ("events", key.as_slice(), bytes.as_slice()),
                ("events_by_agent", ev.agent_id.as_str(), index_bytes.as_slice()),
            ),
        )
    }

    /// Append an alert to the alert log. Its key is made of its time and its
    /// identifier; an alert whose `id` is no UUID gets a random one in its key,
    /// so it is still stored in order of time.
    pub fn append_alert(&mut self, row: &AlertRow) -> (res: Result<(), StoreError>)
        requires
            old(self).wf(),
        ensures
            final(self).wf(),
            exists|fallback: Seq<u8>|
                ids::is_v4(fallback) && #[trigger] stepped(
                    old(self)@,
                    old(self)@.put_alert(alert_key(row@, fallback), row@),
                    res is Ok,
                    final(self)@,
                ),
            res matches Err(e) ==> e is Storage,
    {
        let fallback: [u8; 16] = ids::new_v4();
        self.append_alert_with(row, &fallback)
    }

    /// Append an alert, with the identifier that stands in its key if its own
    /// `id` is no UUID.
    pub fn append_alert_with(&mut self, row: &AlertRow, fallback: &[u8; 16]) -> (res: Result<
        (),
        StoreError,
    >)
        requires
            old(self).wf(),
        ensures
            final(self).wf(),
            stepped(
                old(self)@,
                old(self)@.put_alert(alert_key(row@, fallback@), row@),
                res is Ok,
                final(self)@,
            ),
            res matches Err(e) ==> e is Storage,
    {
        let key: [u8; 24] = match ids::parse_uuid(row.id.as_str()) {
            Some(id) => keys::composite_key(row.ts_ns, &id),
            None => keys::composite_key(row.ts_ns, fallback),
        };
        let bytes: Vec<u8> = stored(rows::encode_alert(row));
        proof {
            lemma_names();
            lemma_put_row(kv::tables(self.db), "alerts"@, key@, bytes@);
        }
        finished(kv::put_row(&mut self.db, "alerts", key.as_slice(), bytes.as_slice()))
    }

    /// Look up a single enrolled agent by id.
    pub fn agent(&self, agent_id: &str) -> (res: Result<Option<AgentRow>, StoreError>)
        requires
            self.wf(),
        ensures
            match res {
                Ok(Some(row)) => found(self@.agents, agent_id@, row@),
                Ok(None) => !self@.agents.contains_key(agent_id@),
                Err(StoreError::Corrupt) => corrupt(self@.agents, agent_id@),
                Err(StoreError::Storage(_)) => true,
            },
    {
        proof {
            lemma_names();
        }
        agent_reply(kv::get_cell(&self.db, "agents", agent_id))
    }

    /// Update an agent's `last_seen_ns`. No-op if the agent is not enrolled.
    pub fn touch_agent(&mut self, agent_id: &str, ts_ns: u64) -> (res: Result<(), StoreError>)
        requires
            old(self).wf(),
        ensures
            final(self).wf(),
            !old(self)@.agents.contains_key(agent_id@) ==> final(self)@ == old(self)@,
            corrupt(old(self)@.agents, agent_id@) ==> res is Err && final(self)@ == old(self)@,
            forall|row: AgentView| #[trigger]
                found(old(self)@.agents, agent_id@, row) ==> stepped(
                    old(self)@,
                    old(self)@.put_agent(agent_id@, AgentView { last_seen_ns: ts_ns, ..row }),
                    res is Ok,
                    final(self)@,
                ),
            res == Err::<(), StoreError>(StoreError::Corrupt) ==> corrupt(
                old(self)@.agents,
                agent_id@,
            ),
    {
        match refreshed(self.agent(agent_id), ts_ns) {
            Ok(Some(row)) => {
                let bytes: Vec<u8> = stored(rows::encode_agent(&row));
                proof {
                    lemma_names();
                    lemma_put_cell(kv::tables(self.db), "agents"@, agent_id@, bytes@);
                    assert(row@ =~= AgentView {
                        last_seen_ns: ts_ns,
                        ..self@.agents[agent_id@].unwrap()
                    });
                }
                finished(kv::put_cell(&mut self.db, "agents", agent_id, bytes.as_slice()))
            },
            Ok(None) => Ok(()),
            Err(e) => Err(e),
        }
    }

    /// The latest risk score of a subject, if any.
    pub fn score(&self, agent_id: &str, subject: &str) -> (res: Result<
        Option<ScoreRow>,
        StoreError,
    >)
        requires
            self.wf(),
        ensures
            match res {
                Ok(Some(row)) => found(
                    self@.scores,
                    keys::subject_cell(agent_id@, subject@),
                    row@,
                ),
                Ok(None) => !self@.scores.contains_key(keys::subject_cell(agent_id@, subject@)),
                Err(StoreError::Corrupt) => corrupt(
                    self@.scores,
                    keys::subject_cell(agent_id@, subject@),
                ),
                Err(StoreError::Storage(_)) => true,
            },
    {
        proof {
            lemma_names();
        }
        let key: String = keys::subject_key(agent_id, subject);
        score_reply(kv::get_cell(&self.db, "scores", key.as_str()))
    }

    /// The latest detection of a subject, if any.
    pub fn detection(&self, agent_id: &str, subject: &str) -> (res: Result<
        Option<DetectionRow>,
        StoreError,
    >)
        requires
            self.wf(),
        ensures
            match res {
                Ok(Some(row)) => found(
                    self@.detections,
                    keys::subject_cell(agent_id@, subject@),
                    row@,
                ),
                Ok(None) => !self@.detections.contains_key(
                    keys::subject_cell(agent_id@, subject@),
                ),
                Err(StoreError::Corrupt) => corrupt(
                    self@.detections,
                    keys::subject_cell(agent_id@, subject@),
                ),
                Err(StoreError::Storage(_)) => true,
            },
    {
        proof {
            lemma_names();
        }
        let key: String = keys::subject_key(agent_id, subject);
        detection_reply(kv::get_cell(&self.db, "detections", key.as_str()))
    }

    /// Insert (or overwrite) an enrollment token.
    pub fn insert_token(&mut self, token: &str, row: &TokenRow) -> (res: Result<(), StoreError>)
        requires
            old(self).wf(),
        ensures
            final(self).wf(),
            stepped(old(self)@, old(self)@.put_token(token@, row@), res is Ok, final(self)@),
            res matches Err(e) ==> e is Storage,
    {
        let bytes: Vec<u8> = stored(rows::encode_token(row));
        proof {
            lemma_names();
            lemma_put_cell(kv::tables(self.db), "enroll_tokens"@, token@, bytes@);
        }
        finished(kv::put_cell(&mut self.db, "enroll_tokens", token, bytes.as_slice()))
    }

    /// The token on file, if it is.
    pub fn token(&self, token: &str) -> (res: Result<Option<TokenRow>, StoreError>)
        requires
            self.wf(),
        ensures
            match res {
                Ok(Some(row)) => found(self@.tokens, token@, row@),
                Ok(None) => !self@.tokens.contains_key(token@),
                Err(StoreError::Corrupt) => corrupt(self@.tokens, token@),
                Err(StoreError::Storage(_)) => true,
            },
    {
        proof {
            lemma_names();
        }
        token_reply(kv::get_cell(&self.db, "enroll_tokens", token))
    }

    /// Revoke (delete) a token unless it has already been consumed.
    ///
    /// `true` if a still-unused token was removed, `false` if the token does not
    /// exist or was already used.
    pub fn revoke_token_if_unused(&mut self, token: &str) -> (res: Result<bool, StoreError>)
        requires
            old(self).wf(),
        ensures
            final(self).wf(),
            match res {
                Ok(true) => unused(old(self)@.tokens, token@) && final(self)@
                    == old(self)@.remove_token(token@),
                Ok(false) => !corrupt(old(self)@.tokens, token@) && !unused(
                    old(self)@.tokens,
                    token@,
                ) && final(self)@ == old(self)@,
                Err(StoreError::Corrupt) => corrupt(old(self)@.tokens, token@) && final(self)@
                    == old(self)@,
                Err(StoreError::Storage(_)) => final(self)@ == old(self)@ || unused(
                    old(self)@.tokens,
                    token@,
                ) && final(self)@ == old(self)@.remove_token(token@),
            },
    {
        let on_file: Option<TokenRow> = match self.token(token) {
            Ok(on_file) => on_file,
            Err(e) => return Err(e),
        };
        if !may_revoke(&on_file) {
            return Ok(false);
        }
        proof {
            lemma_names();
            let t = kv::tables(self.db);
            let after = t.remove_cell("enroll_tokens"@, token@);
            assert(view_of(after).tokens =~= view_of(t).tokens.remove(token@));
            assert(view_of(after) =~= self@.remove_token(token@));
        }
        match kv::remove_cell(&mut self.db, "enroll_tokens", token) {
            Ok(_) => Ok(true),
            Err(e) => Err(StoreError::Storage(e)),
        }
    }

    /// Atomically validate and burn a token, then enrol a new agent, both in one
    /// transaction.
    ///
    /// On success the token is marked used, a random identifier is assigned, and
    /// the agent's row is written. A refusal changes nothing.
    pub fn enroll_txn(
        &mut self,
        token: &str,
        now_ns: u64,
        validity_ns: u64,
        hostname: &str,
        os: &str,
        pubkey: [u8; 32],
    ) -> (res: Result<Result<(String, AgentRow), EnrollReject>, StoreError>)
        requires
            old(self).wf(),
        ensures
            final(self).wf(),
            exists|id: Seq<u8>|
                ids::is_v4(id) && #[trigger] enrolled(
                    old(self)@,
                    token@,
                    now_ns,
                    validity_ns,
                    new_agent(ids::uuid_text(id), hostname@, os@, pubkey@, now_ns),
                    res,
                    final(self)@,
                ),
    {
        let id: [u8; 16] = ids::new_v4();
        self.enroll_as(&id, token, now_ns, validity_ns, hostname, os, pubkey)
    }

    /// [`Store::enroll_txn`] with a given identifier to assign.
    pub fn enroll_as(
        &mut self,
        id: &[u8; 16],
        token: &str,
        now_ns: u64,
        validity_ns: u64,
        hostname: &str,
        os: &str,
        pubkey: [u8; 32],
    ) -> (res: Result<Result<(String, AgentRow), EnrollReject>, StoreError>)
        requires
            old(self).wf(),
        ensures
            final(self).wf(),
            enrolled(
                old(self)@,
                token@,
                now_ns,
                validity_ns,
                new_agent(ids::uuid_text(id@), hostname@, os@, pubkey@, now_ns),
                res,
                final(self)@,
            ),
    {
        let on_file: Option<TokenRow> = match self.token(token) {
            Ok(on_file) => on_file,
            Err(e) => return Err(e),
        };
        let mut row: TokenRow = match judge_token(on_file, now_ns, validity_ns) {
            Ok(row) => row,
            Err(reason) => return Ok(Err(reason)),
        };
        let ghost before = row@;
        row.used = true;
        let token_bytes: Vec<u8> = stored(rows::encode_token(&row));
        let agent_id: String = ids::uuid_string(id);
        let agent: AgentRow = AgentRow {
            agent_id: agent_id.clone(),
            hostname: hostname.to_owned(),
            os: os.to_owned(),
            pubkey,
            enrolled_at_ns: now_ns,
            last_seen_ns: now_ns,
        };
        let agent_bytes: Vec<u8> = stored(rows::encode_agent(&agent));
        proof {
            lemma_names();
            let t = kv::tables(self.db);
            lemma_put_cell(t, "enroll_tokens"@, token@, token_bytes@);
            let t2 = t.put_cell("enroll_tokens"@, token@, token_bytes@);
            lemma_put_cell(t2, "agents"@, agent_id@, agent_bytes@);
            let t3 = t2.put_cell("agents"@, agent_id@, agent_bytes@);
            assert(agent@ =~= new_agent(ids::uuid_text(id@), hostname@, os@, pubkey@, now_ns));
            assert(row@ =~= TokenView { used: true, ..before });
            assert(view_of(t3) =~= self@.burn_and_enroll(token@, before, agent@));
        }
        match kv::put_two_cells(
            &mut self.db,
            ("enroll_tokens", token, token_bytes.as_slice()),
            ("agents", agent_id.as_str(), agent_bytes.as_slice()),
        ) {
            Ok(_) => Ok(Ok((agent_id, agent))),
            Err(e) => Err(StoreError::Storage(e)),
        }
    }

    /// All enrolled agents, in order of their identifiers.
    pub fn agents(&self) -> (res: Result<Vec<AgentRow>, StoreError>)
        requires
            self.wf(),
        ensures
            match res {
                Ok(out) => listed(self@.agents, agent_views(out@)),
                Err(StoreError::Corrupt) => exists|k: Seq<char>| corrupt(self@.agents, k),
                Err(StoreError::Storage(_)) => true,
            },
    {
        proof {
            lemma_names();
        }
        let cells: Vec<(String, Vec<u8>)> = match kv::list_cells(&self.db, "agents") {
            Ok(cells) => cells,
            Err(e) => return Err(StoreError::Storage(e)),
        };
        let res: Result<Vec<AgentRow>, StoreError> = read_agents(&cells);
        proof {
            let raw = kv::cell_tables(self.db)["agents"@];
            match &res {
                Ok(out) => {
                    assert forall|i: int| 0 <= i < cells@.len() implies self@.agents[(
                    #[trigger] cells@[i]).0@] == Some(agent_views(out@)[i]) by {
                        assert(out@[i]@ == agent_views(out@)[i]);
                    }
                    lemma_listed(raw, self@.agents, cells@, agent_views(out@));
                },
                Err(_) => {
                    let p = choose|p: int|
                        0 <= p < cells@.len() && rows::agent_of((#[trigger] cells@[p]).1@) is None;
                    assert(corrupt(self@.agents, cells@[p].0@));
                },
            }
        }
        res
    }

    /// All latest-per-subject risk scores, in order of their keys.
    pub fn scores(&self) -> (res: Result<Vec<ScoreRow>, StoreError>)
        requires
            self.wf(),
        ensures
            match res {
                Ok(out) => listed(self@.scores, score_views(out@)),
                Err(StoreError::Corrupt) => exists|k: Seq<char>| corrupt(self@.scores, k),
                Err(StoreError::Storage(_)) => true,
            },
    {
        proof {
            lemma_names();
        }
        let cells: Vec<(String, Vec<u8>)> = match kv::list_cells(&self.db, "scores") {
            Ok(cells) => cells,
            Err(e) => return Err(StoreError::Storage(e)),
        };
        let res: Result<Vec<ScoreRow>, StoreError> = read_scores(&cells);
        proof {
            let raw = kv::cell_tables(self.db)["scores"@];
            match &res {
                Ok(out) => {
                    assert forall|i: int| 0 <= i < cells@.len() implies self@.scores[(
                    #[trigger] cells@[i]).0@] == Some(score_views(out@)[i]) by {
                        assert(out@[i]@ == score_views(out@)[i]);
                    }
                    lemma_listed(raw, self@.scores, cells@, score_views(out@));
                },
                Err(_) => {
                    let p = choose|p: int|
                        0 <= p < cells@.len() && rows::score_of((#[trigger] cells@[p]).1@) is None;
                    assert(corrupt(self@.scores, cells@[p].0@));
                },
            }
        }
        res
    }

    /// All latest-per-subject risk scores of one agent.
    pub fn scores_for_agent(&self, agent_id: &str) -> (res: Result<Vec<ScoreRow>, StoreError>)
        requires
            self.wf(),
        ensures
            match res {
                Ok(out) => exists|all: Seq<ScoreView>| #[trigger]
                    listed(self@.scores, all) && score_views(out@) == all.filter(
                        |row: ScoreView| row.agent_id == agent_id@,
                    ),
                Err(StoreError::Corrupt) => exists|k: Seq<char>| corrupt(self@.scores, k),
                Err(StoreError::Storage(_)) => true,
            },
    {
        let all: Vec<ScoreRow> = match self.scores() {
            Ok(all) => all,
            Err(e) => return Err(e),
        };
        Ok(scores_of_agent(&all, agent_id))
    }

    /// All latest-per-subject detections, in order of their keys.
    pub fn detections(&self) -> (res: Result<Vec<DetectionRow>, StoreError>)
        requires
            self.wf(),
        ensures
            match res {
                Ok(out) => listed(self@.detections, detection_views(out@)),
                Err(StoreError::Corrupt) => exists|k: Seq<char>| corrupt(self@.detections, k),
                Err(StoreError::Storage(_)) => true,
            },
    {
        proof {
            lemma_names();
        }
        let cells: Vec<(String, Vec<u8>)> = match kv::list_cells(&self.db, "detections") {
            Ok(cells) => cells,
            Err(e) => return Err(StoreError::Storage(e)),
        };
        let res: Result<Vec<DetectionRow>, StoreError> = read_detections(&cells);
        proof {
            let raw = kv::cell_tables(self.db)["detections"@];
            match &res {
                Ok(out) => {
                    assert forall|i: int| 0 <= i < cells@.len() implies self@.detections[(
                    #[trigger] cells@[i]).0@] == Some(detection_views(out@)[i]) by {
                        assert(out@[i]@ == detection_views(out@)[i]);
                    }
                    lemma_listed(raw, self@.detections, cells@, detection_views(out@));
                },
                Err(_) => {
                    let p = choose|p: int|
                        0 <= p < cells@.len() && rows::detection_of((#[trigger] cells@[p]).1@) is None;
                    assert(corrupt(self@.detections, cells@[p].0@));
                },
            }
        }
        res
    }

    /// All latest-per-subject detections of one agent.
    pub fn detections_for_agent(&self, agent_id: &str) -> (res: Result<Vec<DetectionRow>, StoreError>)
        requires
            self.wf(),
        ensures
            match res {
                Ok(out) => exists|all: Seq<DetectionView>| #[trigger]
                    listed(self@.detections, all) && detection_views(out@) == all.filter(
                        |row: DetectionView| row.agent_id == agent_id@,
                    ),
                Err(StoreError::Corrupt) => exists|k: Seq<char>| corrupt(self@.detections, k),
                Err(StoreError::Storage(_)) => true,
            },
    {
        let all: Vec<DetectionRow> = match self.detections() {
            Ok(all) => all,
            Err(e) => return Err(e),
        };
        Ok(detections_of_agent(&all, agent_id))
    }

    /// All enrollment tokens with their rows, in order of the tokens.
    pub fn list_tokens(&self) -> (res: Result<Vec<(String, TokenRow)>, StoreError>)
        requires
            self.wf(),
        ensures
            match res {
                Ok(out) => lists(self@.tokens, token_names(out@), token_views(out@)),
                Err(StoreError::Corrupt) => exists|k: Seq<char>| corrupt(self@.tokens, k),
                Err(StoreError::Storage(_)) => true,
            },
    {
        proof {
            lemma_names();
        }
        let cells: Vec<(String, Vec<u8>)> = match kv::list_cells(&self.db, "enroll_tokens") {
            Ok(cells) => cells,
            Err(e) => return Err(StoreError::Storage(e)),
        };
        let res: Result<Vec<(String, TokenRow)>, StoreError> = read_tokens(&cells);
        proof {
            let raw = kv::cell_tables(self.db)["enroll_tokens"@];
            match &res {
                Ok(out) => {
                    assert forall|i: int| 0 <= i < cells@.len() implies self@.tokens[(
                    #[trigger] cells@[i]).0@] == Some(token_views(out@)[i]) by {
                        assert(out@[i].1@ == token_views(out@)[i]);
                    }
                    lemma_listed(raw, self@.tokens, cells@, token_views(out@));
                    assert(token_names(out@) =~= cell_keys(cells@));
                },
                Err(_) => {
                    let p = choose|p: int|
                        0 <= p < cells@.len() && rows::token_of((#[trigger] cells@[p]).1@) is None;
                    assert(corrupt(self@.tokens, cells@[p].0@));
                },
            }
        }
        res
    }

    /// One page of an agent's events, newest first: page zero holds the newest
    /// `page_size` events. Events that were pruned are left out of their page.
    pub fn events_for_agent(&self, agent_id: &str, page: usize, page_size: usize) -> (res: Result<
        Vec<EventRow>,
        StoreError,
    >)
        requires
            self.wf(),
        ensures
            match res {
                Ok(out) => !self@.index_corrupt(agent_id@) && present(
                    self@.events,
                    page_of(self@.index_keys(agent_id@), page as nat, page_size as nat),
                ) == Some(event_views(out@)),
                Err(StoreError::Corrupt) => self@.index_corrupt(agent_id@) || present(
                    self@.events,
                    page_of(self@.index_keys(agent_id@), page as nat, page_size as nat),
                ) is None,
                Err(StoreError::Storage(_)) => true,
            },
    {
        proof {
            lemma_names();
        }
        let list: Vec<[u8; 24]> = match index_reply(
            kv::get_cell(&self.db, "events_by_agent", agent_id),
        ) {
            Ok(list) => list,
            Err(e) => return Err(e),
        };
        let ghost all = rows::key_list(list@);
        assert(all =~= self@.index_keys(agent_id@));
        let (start, end): (usize, usize) = page_bounds(list.len(), page, page_size);
        let ghost wanted = page_of(all, page as nat, page_size as nat);
        let mut entries: Vec<Option<Vec<u8>>> = Vec::new();
        let mut i: usize = end;
        while i > start
            invariant
                self.wf(),
                "events"@.len() > 0,
                start <= i <= end <= list@.len(),
                all == rows::key_list(list@),
                wanted == all.subrange(start as int, end as int).reverse(),
                entries@.len() == end - i,
                forall|j: int|
                    0 <= j < entries@.len() ==> entry_of(
                        self@.events,
                        wanted[j],
                        #[trigger] entries@[j],
                    ),
            decreases i - start,
        {
            i = i - 1;
            let key: &[u8; 24] = &list[i];
            assert(wanted[end - i - 1] == key@);
            match kv::get_row(&self.db, "events", key.as_slice()) {
                Ok(entry) => entries.push(entry),
                Err(e) => return Err(StoreError::Storage(e)),
            }
        }
        proof {
            lemma_page_rows_are_present(self@.events, wanted, entries@);
        }
        read_page(&entries)
    }

    /// The `limit` most recent alerts, newest first.
    pub fn alerts_recent(&self, limit: usize) -> (res: Result<Vec<AlertRow>, StoreError>)
        requires
            self.wf(),
        ensures
            match res {
                Ok(out) => newest(self@.alerts, limit as nat, alert_views(out@)),
                Err(StoreError::Corrupt) => exists|k: Seq<u8>| corrupt(self@.alerts, k),
                Err(StoreError::Storage(_)) => true,
            },
    {
        proof {
            lemma_names();
        }
        let entries: Vec<(Vec<u8>, Vec<u8>)> = match kv::last_rows(&self.db, "alerts", limit) {
            Ok(entries) => entries,
            Err(e) => return Err(StoreError::Storage(e)),
        };
        let ghost order = entries@.map_values(|c: (Vec<u8>, Vec<u8>)| c.0@);
        let res: Result<Vec<AlertRow>, StoreError> = read_alerts(&entries);
        proof {
            let table = kv::row_tables(self.db)["alerts"@];
            assert forall|i: int| 0 <= i < entries@.len() implies table.contains_key(
                #[trigger] order[i],
            ) && table[order[i]] == entries@[i].1@ by {
                assert(order[i] == entries@[i].0@);
            }
            match &res {
                Ok(out) => {
                    assert forall|k: Seq<u8>| #[trigger] self@.alerts.contains_key(k) implies {
                        ||| order.contains(k)
                        ||| order.len() == limit && forall|i: int|
                            0 <= i < order.len() ==> kv::bytes_less(k, #[trigger] order[i])
                    } by {
                        assert(table.contains_key(k));
                        if exists|p: int| 0 <= p < entries@.len() && (#[trigger] entries@[p]).0@ == k {
                            let p = choose|p: int|
                                0 <= p < entries@.len() && (#[trigger] entries@[p]).0@ == k;
                            assert(order[p] == k);
                        } else {
                            assert forall|i: int| 0 <= i < order.len() implies kv::bytes_less(
                                k,
                                #[trigger] order[i],
                            ) by {
                                assert(order[i] == entries@[i].0@);
                            }
                        }
                    }
                    assert forall|i: int| 0 <= i < order.len() implies found(
                        self@.alerts,
                        #[trigger] order[i],
                        alert_views(out@)[i],
                    ) by {
                        assert(out@[i]@ == alert_views(out@)[i]);
                    }
                    assert(lists_newest(self@.alerts, limit as nat, order, alert_views(out@)));
                },
                Err(_) => {
                    let p = choose|p: int|
                        0 <= p < entries@.len() && rows::alert_of((#[trigger] entries@[p]).1@) is None;
                    assert(order[p] == entries@[p].0@);
                    assert(corrupt(self@.alerts, order[p]));
                },
            }
        }
        res
    }

    /// Mark an alert acknowledged by its `id`, returning whether it was found.
    ///
    /// Of several alerts with that `id` the oldest is marked. The row stays under
    /// its key.
    pub fn acknowledge_alert(&mut self, id: &str) -> (res: Result<bool, StoreError>)
        requires
            old(self).wf(),
        ensures
            final(self).wf(),
            match res {
                Ok(true) => acknowledged_oldest(old(self)@, id@, final(self)@),
                Ok(false) => final(self)@ == old(self)@ && forall|key: Seq<u8>| #[trigger]
                    old(self)@.alerts.contains_key(key) ==> !corrupt(old(self)@.alerts, key)
                        && !has_id(old(self)@.alerts, key, id@),
                Err(StoreError::Corrupt) => final(self)@ == old(self)@ && corrupt_before(
                    old(self)@.alerts,
                    id@,
                ),
                Err(StoreError::Storage(_)) => final(self)@ == old(self)@ || acknowledged_oldest(
                    old(self)@,
                    id@,
                    final(self)@,
                ),
            },
    {
        proof {
            lemma_names();
        }
        let entries: Vec<(Vec<u8>, Vec<u8>)> = match kv::list_rows(&self.db, "alerts") {
            Ok(entries) => entries,
            Err(e) => return Err(StoreError::Storage(e)),
        };
        let ghost before = self@;
        let res: Result<Option<(usize, AlertRow)>, StoreError> = oldest_alert(&entries, id);
        proof {
            assert forall|j: int| 0 <= j < entries@.len() implies before.alerts.contains_key(
                (#[trigger] entries@[j]).0@,
            ) && before.alerts[entries@[j].0@] == rows::alert_of(entries@[j].1@) by {
            }
            match &res {
                Ok(Some(hit)) => {
                    lemma_entries_before(before.alerts, entries@, hit.0 as int);
                },
                Ok(None) => {
                    assert forall|k: Seq<u8>| #[trigger]
                        before.alerts.contains_key(k) implies !corrupt(before.alerts, k)
                        && !has_id(before.alerts, k, id@) by {
                        assert(kv::row_tables(self.db)["alerts"@].contains_key(k));
                        let p = choose|p: int|
                            0 <= p < entries@.len() && (#[trigger] entries@[p]).0@ == k;
                    }
                },
                Err(_) => {
                    let i = choose|i: int| #[trigger] unreadable_at(entries@, id@, i);
                    lemma_entries_before(before.alerts, entries@, i);
                    assert(corrupt(before.alerts, entries@[i].0@));
                },
            }
        }
        let (i, row): (usize, AlertRow) = match res {
            Ok(Some(hit)) => hit,
            Ok(None) => return Ok(false),
            Err(e) => return Err(e),
        };
        let ghost key = entries@[i as int].0@;
        let ghost was = row@;
        let mut row: AlertRow = row;
        row.acknowledged = true;
        let bytes: Vec<u8> = stored(rows::encode_alert(&row));
        proof {
            assert(row@ =~= AlertView { acknowledged: true, ..was });
            assert(found(before.alerts, key, was));
            assert(oldest_with_id(before.alerts, id@, key));
            lemma_put_row(kv::tables(self.db), "alerts"@, key, bytes@);
            assert(view_of(kv::tables(self.db).put_row("alerts"@, key, bytes@))
                =~= before.acknowledge(key));
        }
        match kv::put_row(&mut self.db, "alerts", entries[i].0.as_slice(), bytes.as_slice()) {
            Ok(_) => Ok(true),
            Err(e) => Err(StoreError::Storage(e)),
        }
    }

    /// Prune the append-only logs older than `retention_ns` and defragment the
    /// file. Returns whether space was reclaimed.
    pub fn compact(&mut self, retention_ns: u64) -> (res: Result<bool, StoreError>)
        requires
            old(self).wf(),
        ensures
            final(self).wf(),
            exists|now: u64| #[trigger]
                stepped(
                    old(self)@,
                    old(self)@.expire(now, retention_ns),
                    res is Ok,
                    final(self)@,
                ),
            res matches Err(e) ==> e is Storage,
    {
        let now: u64 = now_ns();
        self.compact_at(now, retention_ns)
    }

    /// [`Store::compact`] at a given time.
    ///
    /// Only events and alerts expire; detections, scores, agents and tokens are
    /// current state and stay. A clock that has not reached the window expires
    /// nothing.
    pub fn compact_at(&mut self, now: u64, retention_ns: u64) -> (res: Result<bool, StoreError>)
        requires
            old(self).wf(),
        ensures
            final(self).wf(),
            stepped(old(self)@, old(self)@.expire(now, retention_ns), res is Ok, final(self)@),
            res matches Err(e) ==> e is Storage,
    {
        if let Some(cutoff) = retention_cutoff(now, retention_ns) {
            proof {
                lemma_names();
                let t = kv::tables(self.db);
                let t2 = t.prune_rows("events"@, cutoff@).prune_rows("alerts"@, cutoff@);
                assert(view_of(t2).events =~= self@.prune(cutoff@).events);
                assert(view_of(t2).alerts =~= self@.prune(cutoff@).alerts);
                assert(view_of(t2) =~= self@.expire(now, retention_ns));
            }
            if let Err(e) = kv::prune_rows(&mut self.db, "events", "alerts", cutoff.as_slice()) {
                return Err(StoreError::Storage(e));
            }
        }
        match kv::compact_file(&mut self.db) {
            Ok(reclaimed) => Ok(reclaimed),
            Err(e) => Err(StoreError::Storage(e)),
        }
    }
}

} // verus!
