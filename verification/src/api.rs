//! The operator API: what each request reads or changes, and how it fails.
use crate::enroll::{TokenError, MAX_TOKEN_LABEL_LEN};
use crate::registry::RouterError;
use crate::rows::{
    AgentRow, AgentView, AlertRow, AlertView, DetectionRow, DetectionView, EventRow, ScoreRow,
    ScoreView, TokenRow,
};
use crate::store::{Store, StoreError};
use crate::{bytes, encoding, enroll, ids, json, rows, store, text};
use vstd::prelude::*;
use vstd::utf8;

verus! {

/// Capacity of the live feed. Subscribers that fall this far behind skip the gap.
pub const LIVE_CHANNEL_CAPACITY: usize = 1024;

/// Alerts listed when no `limit` is given.
pub const DEFAULT_ALERT_LIMIT: usize = 200;

/// Events on a page when no size is given.
pub const DEFAULT_EVENT_PAGE_SIZE: usize = 50;

/// Most events on a page.
pub const MAX_EVENT_PAGE_SIZE: usize = 500;

/// Static facts about this server.
#[derive(Debug, Clone)]
pub struct ServerInfo {
    /// Hex SHA-256 of the server's leaf TLS certificate: the pin for agents.
    pub fingerprint: String,
    /// The wire protocol version agents must speak.
    pub proto_version: u16,
}

/// An agent as the API returns it: its key as hexadecimal text.
#[derive(Debug, Clone)]
pub struct AgentRecord {
    pub agent_id: String,
    pub hostname: String,
    pub os: String,
    pub pubkey_hex: String,
    pub enrolled_at_ns: u64,
    pub last_seen_ns: u64,
}

impl AgentRecord {
    /// Whether this is the record of a stored agent.
    pub open spec fn shows(self, row: AgentView) -> bool {
        &&& self.agent_id@ == row.agent_id
        &&& self.hostname@ == row.hostname
        &&& self.os@ == row.os
        &&& self.pubkey_hex@ == encoding::lower_hex(row.pubkey)
        &&& self.enrolled_at_ns == row.enrolled_at_ns
        &&& self.last_seen_ns == row.last_seen_ns
    }

    /// The record of a stored agent.
    pub fn from_row(r: AgentRow) -> (out: AgentRecord)
        ensures
            out.agent_id == r.agent_id,
            out.hostname == r.hostname,
            out.os == r.os,
            out.pubkey_hex@ == encoding::lower_hex(r.pubkey@),
            out.enrolled_at_ns == r.enrolled_at_ns,
            out.last_seen_ns == r.last_seen_ns,
    {
        AgentRecord {
            agent_id: r.agent_id,
            hostname: r.hostname,
            os: r.os,
            pubkey_hex: encoding::hex_encode(r.pubkey.as_slice()),
            enrolled_at_ns: r.enrolled_at_ns,
            last_seen_ns: r.last_seen_ns,
        }
    }
}

/// An event as the API returns it: its identifier as text. The payload is the
/// JSON that was stored, or `null` where what was stored is no JSON.
#[derive(Debug, Clone)]
pub struct EventRecord {
    pub id: String,
    pub ts_ns: u64,
    pub agent_id: String,
    pub source: String,
    pub kind: String,
    pub payload_json: Vec<u8>,
}

impl EventRecord {
    /// The record of a stored event.
    pub fn from_row(r: EventRow) -> (out: EventRecord)
        ensures
            out.id@ == ids::uuid_text(r.id@),
            out.ts_ns == r.ts_ns,
            out.agent_id == r.agent_id,
            out.source == r.source,
            out.kind == r.kind,
            out.payload_json@ == (if json::is_json(r.payload_json@) {
                r.payload_json@
            } else {
                utf8::encode_utf8("null"@)
            }),
    {
        let payload_json: Vec<u8> = if json::check_json(r.payload_json.as_slice()) {
            r.payload_json
        } else {
            bytes::copy_of("null".as_bytes())
        };
        EventRecord {
            id: ids::uuid_string(&r.id),
            ts_ns: r.ts_ns,
            agent_id: r.agent_id,
            source: r.source,
            kind: r.kind,
            payload_json,
        }
    }
}

/// A token as the API returns it.
#[derive(Debug, Clone)]
pub struct TokenRecord {
    pub token: String,
    pub label: String,
    pub created_at_ns: u64,
    pub used: bool,
}

impl TokenRecord {
    /// The record of a stored token.
    pub fn from_row(token: String, row: TokenRow) -> (out: TokenRecord)
        ensures
            out.token == token,
            out.label == row.label,
            out.created_at_ns == row.created_at_ns,
            out.used == row.used,
    {
        TokenRecord { token, label: row.label, created_at_ns: row.created_at_ns, used: row.used }
    }
}

/// How a request fails.
#[derive(Debug)]
pub enum ApiError {
    /// The request failed validation.
    BadRequest(String),
    /// The addressed resource does not exist, or the agent is not connected.
    NotFound(String),
    /// The request conflicts with current state.
    Conflict(String),
    /// The agent's command channel is full; retry later.
    ServiceUnavailable(String),
    /// An internal error; the detail is logged, not exposed.
    Internal(StoreError),
}

impl ApiError {
    pub fn not_found(msg: &str) -> (e: ApiError)
        ensures
            e matches ApiError::NotFound(m) && m@ == msg@,
    {
        ApiError::NotFound(msg.to_owned())
    }

    /// The error of a command that could not be delivered.
    pub fn from_router(e: RouterError) -> (out: ApiError)
        ensures
            match e {
                RouterError::NotConnected => out matches ApiError::NotFound(m) && m@ == e.says(),
                RouterError::ChannelFull => out matches ApiError::ServiceUnavailable(m) && m@
                    == e.says(),
            },
    {
        match e {
            RouterError::NotConnected => ApiError::NotFound(e.to_string()),
            RouterError::ChannelFull => ApiError::ServiceUnavailable(e.to_string()),
        }
    }

    pub open spec fn status_code(self) -> u16 {
        match self {
            ApiError::BadRequest(_) => 400,
            ApiError::NotFound(_) => 404,
            ApiError::Conflict(_) => 409,
            ApiError::ServiceUnavailable(_) => 503,
            ApiError::Internal(_) => 500,
        }
    }

    pub open spec fn public_message(self) -> Seq<char> {
        match self {
            ApiError::BadRequest(m) => m@,
            ApiError::NotFound(m) => m@,
            ApiError::Conflict(m) => m@,
            ApiError::ServiceUnavailable(m) => m@,
            ApiError::Internal(_) => "internal server error"@,
        }
    }

    /// The HTTP status of the response.
    pub fn status(&self) -> (code: u16)
        ensures
            code == self.status_code(),
    {
        match self {
            ApiError::BadRequest(_) => 400,
            ApiError::NotFound(_) => 404,
            ApiError::Conflict(_) => 409,
            ApiError::ServiceUnavailable(_) => 503,
            ApiError::Internal(_) => 500,
        }
    }

    /// The message of the response: never the detail of an internal error.
    pub fn message(&self) -> (out: String)
        ensures
            out@ == self.public_message(),
    {
        match self {
            ApiError::BadRequest(m) => m.clone(),
            ApiError::NotFound(m) => m.clone(),
            ApiError::Conflict(m) => m.clone(),
            ApiError::ServiceUnavailable(m) => m.clone(),
            ApiError::Internal(_) => "internal server error".to_owned(),
        }
    }
}

/// An internal error says nothing of its cause.
pub proof fn law_internal_errors_are_opaque(a: StoreError, b: StoreError)
    ensures
        ApiError::Internal(a).public_message() == ApiError::Internal(b).public_message(),
        ApiError::Internal(a).status_code() == 500,
{
}

/// Whether the bits of a double are no number.
pub open spec fn is_nan(bits: u64) -> bool {
    bits % 0x8000_0000_0000_0000 > 0x7ff0_0000_0000_0000
}

/// The place of a double on the number line: its magnitude bits, negative where
/// its sign bit is set. Both zeros have one place.
pub open spec fn rank(bits: u64) -> int {
    if bits >= 0x8000_0000_0000_0000 {
        -(bits - 0x8000_0000_0000_0000)
    } else {
        bits as int
    }
}

/// Whether one double is at least another; nothing is at least, or at most, what
/// is no number.
pub open spec fn double_at_least(a: u64, b: u64) -> bool {
    !is_nan(a) && !is_nan(b) && rank(a) >= rank(b)
}

/// Compares two doubles by their bits.
pub fn at_least(a: u64, b: u64) -> (yes: bool)
    ensures
        yes == double_at_least(a, b),
{
    let sign: u64 = 0x8000_0000_0000_0000;
    let ma: u64 = a % sign;
    let mb: u64 = b % sign;
    if ma > 0x7ff0_0000_0000_0000 || mb > 0x7ff0_0000_0000_0000 {
        return false;
    }
    if a < sign {
        if b < sign {
            ma >= mb
        } else {
            true
        }
    } else {
        if b < sign {
            ma == 0 && mb == 0
        } else {
            ma <= mb
        }
    }
}

/// Filters of a score listing.
#[derive(Debug, Clone)]
pub struct ScoreQuery {
    pub subject: Option<String>,
    /// The least score, as the bits of a double.
    pub min_score_bits: Option<u64>,
    pub limit: Option<usize>,
}

/// Filters of a detection listing.
#[derive(Debug, Clone)]
pub struct DetectionQuery {
    pub verdict: Option<String>,
    /// The least confidence, as the bits of a double.
    pub min_confidence_bits: Option<u64>,
    pub limit: Option<usize>,
}

/// Filters of an alert listing.
#[derive(Debug, Clone)]
pub struct AlertQuery {
    pub severity: Option<String>,
    pub acknowledged: Option<bool>,
    pub agent_id: Option<String>,
    pub since_ns: Option<u64>,
    pub limit: Option<usize>,
}

/// Pagination of an event listing.
#[derive(Debug, Clone)]
pub struct EventQuery {
    pub page: Option<usize>,
    pub page_size: Option<usize>,
}

impl ScoreQuery {
    /// Whether a score passes the filters.
    pub open spec fn admits(self, row: ScoreView) -> bool {
        &&& self.subject matches Some(s) ==> row.subject == s@
        &&& self.min_score_bits matches Some(min) ==> double_at_least(row.score_bits, min)
    }

    fn passes(&self, row: &ScoreRow) -> (yes: bool)
        ensures
            yes == self.admits(row@),
    {
        let subject: bool = match &self.subject {
            Some(s) => text::same(row.subject.as_str(), s.as_str()),
            None => true,
        };
        let score: bool = match self.min_score_bits {
            Some(min) => at_least(row.score_bits, min),
            None => true,
        };
        subject && score
    }
}

impl DetectionQuery {
    /// Whether a detection passes the filters.
    pub open spec fn admits(self, row: DetectionView) -> bool {
        &&& self.verdict matches Some(v) ==> row.verdict == v@
        &&& self.min_confidence_bits matches Some(min) ==> double_at_least(
            row.confidence_bits,
            min,
        )
    }

    fn passes(&self, row: &DetectionRow) -> (yes: bool)
        ensures
            yes == self.admits(row@),
    {
        let verdict: bool = match &self.verdict {
            Some(v) => text::same(row.verdict.as_str(), v.as_str()),
            None => true,
        };
        let confidence: bool = match self.min_confidence_bits {
            Some(min) => at_least(row.confidence_bits, min),
            None => true,
        };
        verdict && confidence
    }
}

impl AlertQuery {
    /// Whether an alert passes the filters.
    pub open spec fn admits(self, row: AlertView) -> bool {
        &&& self.severity matches Some(s) ==> row.severity == s@
        &&& self.acknowledged matches Some(a) ==> row.acknowledged == a
        &&& self.agent_id matches Some(id) ==> row.agent_id == id@
        &&& self.since_ns matches Some(since) ==> row.ts_ns >= since
    }

    fn passes(&self, row: &AlertRow) -> (yes: bool)
        ensures
            yes == self.admits(row@),
    {
        let severity: bool = match &self.severity {
            Some(s) => text::same(row.severity.as_str(), s.as_str()),
            None => true,
        };
        let acknowledged: bool = match self.acknowledged {
            Some(a) => row.acknowledged == a,
            None => true,
        };
        let agent: bool = match &self.agent_id {
            Some(id) => text::same(row.agent_id.as_str(), id.as_str()),
            None => true,
        };
        let since: bool = match self.since_ns {
            Some(since) => row.ts_ns >= since,
            None => true,
        };
        severity && acknowledged && agent && since
    }

    /// How many alerts are listed at most.
    pub open spec fn cap(self) -> nat {
        match self.limit {
            Some(n) => n as nat,
            None => DEFAULT_ALERT_LIMIT as nat,
        }
    }

    /// How many of the newest alerts are filtered.
    pub open spec fn window(self) -> nat {
        if self.cap() > DEFAULT_ALERT_LIMIT {
            self.cap()
        } else {
            DEFAULT_ALERT_LIMIT as nat
        }
    }
}

/// The first rows, at most so many.
pub open spec fn first_rows<V>(rows: Seq<V>, limit: Option<usize>) -> Seq<V> {
    match limit {
        Some(n) => if n < rows.len() {
            rows.take(n as int)
        } else {
            rows
        },
        None => rows,
    }
}

/// Keeps the scores that pass the filters, in order, and caps them.
pub fn filter_scores(all: &Vec<ScoreRow>, q: &ScoreQuery) -> (out: Vec<ScoreRow>)
    ensures
        store::score_views(out@) == first_rows(
            store::score_views(all@).filter(|row: ScoreView| q.admits(row)),
            q.limit,
        ),
{
    let ghost keep = |row: ScoreView| q.admits(row);
    let ghost views = store::score_views(all@);
    let mut out: Vec<ScoreRow> = Vec::new();
    let mut i: usize = 0;
    reveal(Seq::filter);
    assert(views.take(0).filter(keep) =~= Seq::empty());
    while i < all.len()
        invariant
            i <= all@.len(),
            keep == (|row: ScoreView| q.admits(row)),
            views == store::score_views(all@),
            store::score_views(out@) == views.take(i as int).filter(keep),
        decreases all@.len() - i,
    {
        let ghost before = out@;
        assert(views.take(i + 1).drop_last() =~= views.take(i as int));
        assert(views.take(i + 1).last() == all@[i as int]@);
        reveal(Seq::filter);
        if q.passes(&all[i]) {
            out.push(store::copy_score(&all[i]));
            assert(store::score_views(out@) =~= store::score_views(before).push(all@[i as int]@));
        }
        i = i + 1;
    }
    assert(views.take(all@.len() as int) =~= views);
    if let Some(limit) = q.limit {
        if limit < out.len() {
            let ghost full = out@;
            out.truncate(limit);
            assert(store::score_views(out@) =~= store::score_views(full).take(limit as int));
        }
    }
    out
}

/// Keeps the detections that pass the filters, in order, and caps them.
pub fn filter_detections(all: &Vec<DetectionRow>, q: &DetectionQuery) -> (out: Vec<DetectionRow>)
    ensures
        store::detection_views(out@) == first_rows(
            store::detection_views(all@).filter(|row: DetectionView| q.admits(row)),
            q.limit,
        ),
{
    let ghost keep = |row: DetectionView| q.admits(row);
    let ghost views = store::detection_views(all@);
    let mut out: Vec<DetectionRow> = Vec::new();
    let mut i: usize = 0;
    reveal(Seq::filter);
    assert(views.take(0).filter(keep) =~= Seq::empty());
    while i < all.len()
        invariant
            i <= all@.len(),
            keep == (|row: DetectionView| q.admits(row)),
            views == store::detection_views(all@),
            store::detection_views(out@) == views.take(i as int).filter(keep),
        decreases all@.len() - i,
    {
        let ghost before = out@;
        assert(views.take(i + 1).drop_last() =~= views.take(i as int));
        assert(views.take(i + 1).last() == all@[i as int]@);
        reveal(Seq::filter);
        if q.passes(&all[i]) {
            out.push(store::copy_detection(&all[i]));
            assert(store::detection_views(out@) =~= store::detection_views(before).push(
                all@[i as int]@,
            ));
        }
        i = i + 1;
    }
    assert(views.take(all@.len() as int) =~= views);
    if let Some(limit) = q.limit {
        if limit < out.len() {
            let ghost full = out@;
            out.truncate(limit);
            assert(store::detection_views(out@) =~= store::detection_views(full).take(
                limit as int,
            ));
        }
    }
    out
}

fn copy_alert(row: &AlertRow) -> (out: AlertRow)
    ensures
        out@ == row@,
{
    AlertRow {
        id: row.id.clone(),
        agent_id: row.agent_id.clone(),
        severity: row.severity.clone(),
        title: row.title.clone(),
        detail: row.detail.clone(),
        subject: rows::copy_opt(&row.subject),
        ts_ns: row.ts_ns,
        acknowledged: row.acknowledged,
    }
}

/// Keeps the alerts that pass the filters, in order, and caps them.
pub fn filter_alerts(window: &Vec<AlertRow>, q: &AlertQuery) -> (out: Vec<AlertRow>)
    ensures
        store::alert_views(out@) == first_rows(
            store::alert_views(window@).filter(|row: AlertView| q.admits(row)),
            Some(q.cap() as usize),
        ),
{
    let ghost keep = |row: AlertView| q.admits(row);
    let ghost views = store::alert_views(window@);
    let mut out: Vec<AlertRow> = Vec::new();
    let mut i: usize = 0;
    reveal(Seq::filter);
    assert(views.take(0).filter(keep) =~= Seq::empty());
    while i < window.len()
        invariant
            i <= window@.len(),
            keep == (|row: AlertView| q.admits(row)),
            views == store::alert_views(window@),
            store::alert_views(out@) == views.take(i as int).filter(keep),
        decreases window@.len() - i,
    {
        let ghost before = out@;
        assert(views.take(i + 1).drop_last() =~= views.take(i as int));
        assert(views.take(i + 1).last() == window@[i as int]@);
        reveal(Seq::filter);
        if q.passes(&window[i]) {
            out.push(copy_alert(&window[i]));
            assert(store::alert_views(out@) =~= store::alert_views(before).push(
                window@[i as int]@,
            ));
        }
        i = i + 1;
    }
    assert(views.take(window@.len() as int) =~= views);
    let cap: usize = match q.limit {
        Some(n) => n,
        None => DEFAULT_ALERT_LIMIT,
    };
    if cap < out.len() {
        let ghost full = out@;
        out.truncate(cap);
        assert(store::alert_views(out@) =~= store::alert_views(full).take(cap as int));
    }
    out
}

/// All enrolled agents.
pub fn list_agents(store: &Store) -> (res: Result<Vec<AgentRow>, ApiError>)
    requires
        store.wf(),
    ensures
        match res {
            Ok(out) => store::listed(store@.agents, store::agent_views(out@)),
            Err(ApiError::Internal(StoreError::Corrupt)) => exists|k: Seq<char>|
                store::corrupt(store@.agents, k),
            Err(e) => e is Internal,
        },
{
    match store.agents() {
        Ok(out) => Ok(out),
        Err(e) => Err(ApiError::Internal(e)),
    }
}

/// The answer to a request for an agent, given what looking it up came to.
pub fn agent_answer(reply: Result<Option<AgentRow>, StoreError>) -> (res: Result<
    AgentRecord,
    ApiError,
>)
    ensures
        match reply {
            Ok(Some(row)) => res matches Ok(record) && record.shows(row@),
            Ok(None) => res matches Err(ApiError::NotFound(m)) && m@ == "agent not found"@,
            Err(e) => res == Err::<AgentRecord, ApiError>(ApiError::Internal(e)),
        },
{
    match reply {
        Ok(Some(row)) => Ok(AgentRecord::from_row(row)),
        Ok(None) => Err(ApiError::not_found("agent not found")),
        Err(e) => Err(ApiError::Internal(e)),
    }
}

/// One agent, or not found.
pub fn get_agent(store: &Store, agent_id: &str) -> (res: Result<AgentRecord, ApiError>)
    requires
        store.wf(),
    ensures
        match res {
            Ok(record) => store@.agents.contains_key(agent_id@) && (store@.agents[agent_id@] matches Some(
                row,
            ) && record.shows(row)),
            Err(ApiError::NotFound(m)) => !store@.agents.contains_key(agent_id@) && m@
                == "agent not found"@,
            Err(ApiError::Internal(StoreError::Corrupt)) => store::corrupt(
                store@.agents,
                agent_id@,
            ),
            Err(e) => e is Internal,
        },
{
    agent_answer(store.agent(agent_id))
}

/// Latest scores across all subjects, filtered and capped.
pub fn list_scores(store: &Store, q: &ScoreQuery) -> (res: Result<Vec<ScoreRow>, ApiError>)
    requires
        store.wf(),
    ensures
        match res {
            Ok(out) => exists|all: Seq<ScoreView>| #[trigger]
                store::listed(store@.scores, all) && store::score_views(out@) == first_rows(
                    all.filter(|row: ScoreView| q.admits(row)),
                    q.limit,
                ),
            Err(ApiError::Internal(StoreError::Corrupt)) => exists|k: Seq<char>|
                store::corrupt(store@.scores, k),
            Err(e) => e is Internal,
        },
{
    match store.scores() {
        Ok(all) => {
            let out: Vec<ScoreRow> = filter_scores(&all, q);
            assert(store::listed(store@.scores, store::score_views(all@)));
            Ok(out)
        },
        Err(e) => Err(ApiError::Internal(e)),
    }
}

/// Latest detections across all subjects, filtered and capped.
pub fn list_detections(store: &Store, q: &DetectionQuery) -> (res: Result<
    Vec<DetectionRow>,
    ApiError,
>)
    requires
        store.wf(),
    ensures
        match res {
            Ok(out) => exists|all: Seq<DetectionView>| #[trigger]
                store::listed(store@.detections, all) && store::detection_views(out@)
                    == first_rows(all.filter(|row: DetectionView| q.admits(row)), q.limit),
            Err(ApiError::Internal(StoreError::Corrupt)) => exists|k: Seq<char>|
                store::corrupt(store@.detections, k),
            Err(e) => e is Internal,
        },
{
    match store.detections() {
        Ok(all) => {
            let out: Vec<DetectionRow> = filter_detections(&all, q);
            assert(store::listed(store@.detections, store::detection_views(all@)));
            Ok(out)
        },
        Err(e) => Err(ApiError::Internal(e)),
    }
}

/// Recent alerts, newest first, filtered and capped. The filters apply to the
/// newest alerts: as many as asked for, but no fewer than the default.
pub fn list_alerts(store: &Store, q: &AlertQuery) -> (res: Result<Vec<AlertRow>, ApiError>)
    requires
        store.wf(),
    ensures
        match res {
            Ok(out) => exists|window: Seq<AlertView>| #[trigger]
                store::newest(store@.alerts, q.window(), window) && store::alert_views(out@)
                    == first_rows(
                    window.filter(|row: AlertView| q.admits(row)),
                    Some(q.cap() as usize),
                ),
            Err(ApiError::Internal(StoreError::Corrupt)) => exists|k: Seq<u8>|
                store::corrupt(store@.alerts, k),
            Err(e) => e is Internal,
        },
{
    let cap: usize = match q.limit {
        Some(n) => n,
        None => DEFAULT_ALERT_LIMIT,
    };
    let size: usize = if cap > DEFAULT_ALERT_LIMIT {
        cap
    } else {
        DEFAULT_ALERT_LIMIT
    };
    match store.alerts_recent(size) {
        Ok(window) => {
            let out: Vec<AlertRow> = filter_alerts(&window, q);
            assert(store::newest(store@.alerts, q.window(), store::alert_views(window@)));
            Ok(out)
        },
        Err(e) => Err(ApiError::Internal(e)),
    }
}

/// The answer to an acknowledgement, given whether the store found the alert.
pub fn ack_answer(reply: Result<bool, StoreError>) -> (res: Result<(), ApiError>)
    ensures
        match reply {
            Ok(true) => res is Ok,
            Ok(false) => res matches Err(ApiError::NotFound(m)) && m@ == "alert not found"@,
            Err(e) => res == Err::<(), ApiError>(ApiError::Internal(e)),
        },
{
    match reply {
        Ok(true) => Ok(()),
        Ok(false) => Err(ApiError::not_found("alert not found")),
        Err(e) => Err(ApiError::Internal(e)),
    }
}

/// Acknowledge an alert by its `id`.
pub fn ack_alert(store: &mut Store, id: &str) -> (res: Result<(), ApiError>)
    requires
        old(store).wf(),
    ensures
        final(store).wf(),
        match res {
            Ok(_) => store::acknowledged_oldest(old(store)@, id@, final(store)@),
            Err(ApiError::NotFound(m)) => {
                &&& m@ == "alert not found"@
                &&& final(store)@ == old(store)@
                &&& forall|key: Seq<u8>| #[trigger]
                    old(store)@.alerts.contains_key(key) ==> !store::corrupt(
                        old(store)@.alerts,
                        key,
                    ) && !store::has_id(old(store)@.alerts, key, id@)
            },
            Err(ApiError::Internal(StoreError::Corrupt)) => final(store)@ == old(store)@
                && store::corrupt_before(old(store)@.alerts, id@),
            Err(e) => e is Internal && (final(store)@ == old(store)@ || store::acknowledged_oldest(
                old(store)@,
                id@,
                final(store)@,
            )),
        },
{
    ack_answer(store.acknowledge_alert(id))
}

/// The page that a query asks for: the first by default.
pub fn page_number(q: &EventQuery) -> (page: usize)
    ensures
        page == (match q.page {
            Some(p) => p,
            None => 0,
        }),
{
    match q.page {
        Some(p) => p,
        None => 0,
    }
}

/// The size of a page: the default unless given, and never above the cap.
pub fn page_size(q: &EventQuery) -> (size: usize)
    ensures
        size == (match q.page_size {
            Some(n) => if n < MAX_EVENT_PAGE_SIZE {
                n
            } else {
                MAX_EVENT_PAGE_SIZE
            },
            None => DEFAULT_EVENT_PAGE_SIZE,
        }),
        size <= MAX_EVENT_PAGE_SIZE,
{
    match q.page_size {
        Some(n) => if n < MAX_EVENT_PAGE_SIZE {
            n
        } else {
            MAX_EVENT_PAGE_SIZE
        },
        None => DEFAULT_EVENT_PAGE_SIZE,
    }
}

/// One page of an agent's events, newest first.
pub fn events_for_agent(store: &Store, agent_id: &str, q: &EventQuery) -> (res: Result<
    Vec<EventRow>,
    ApiError,
>)
    requires
        store.wf(),
    ensures
        ({
            let page: nat = match q.page {
                Some(p) => p as nat,
                None => 0,
            };
            let size: nat = match q.page_size {
                Some(n) => store::min(n as nat, MAX_EVENT_PAGE_SIZE as nat),
                None => DEFAULT_EVENT_PAGE_SIZE as nat,
            };
            match res {
                Ok(out) => !store@.index_corrupt(agent_id@) && store::present(
                    store@.events,
                    store::page_of(store@.index_keys(agent_id@), page, size),
                ) == Some(store::event_views(out@)),
                Err(ApiError::Internal(StoreError::Corrupt)) => store@.index_corrupt(agent_id@)
                    || store::present(
                    store@.events,
                    store::page_of(store@.index_keys(agent_id@), page, size),
                ) is None,
                Err(e) => e is Internal,
            }
        }),
{
    match store.events_for_agent(agent_id, page_number(q), page_size(q)) {
        Ok(out) => Ok(out),
        Err(e) => Err(ApiError::Internal(e)),
    }
}

/// The message that an over-long label is refused with.
pub open spec fn label_too_long() -> Seq<char> {
    "label too long (max 256 bytes)"@
}

/// The answer to a request for a token, given what creating it came to.
pub fn token_answer(reply: Result<(String, TokenRow), TokenError>) -> (res: Result<
    (String, TokenRow),
    ApiError,
>)
    ensures
        match reply {
            Ok(out) => res == Ok::<(String, TokenRow), ApiError>(out),
            Err(TokenError::LabelTooLong(_)) => res matches Err(ApiError::BadRequest(m)) && m@
                == label_too_long(),
            Err(TokenError::Store(e)) => res == Err::<(String, TokenRow), ApiError>(
                ApiError::Internal(e),
            ),
        },
{
    match reply {
        Ok(out) => Ok(out),
        Err(TokenError::LabelTooLong(_)) => Err(
            ApiError::BadRequest("label too long (max 256 bytes)".to_owned()),
        ),
        Err(TokenError::Store(e)) => Err(ApiError::Internal(e)),
    }
}

/// Mint a one-time enrollment token.
pub fn create_token(store: &mut Store, label: &str) -> (res: Result<(String, TokenRow), ApiError>)
    requires
        old(store).wf(),
    ensures
        final(store).wf(),
        enroll::byte_len(label@) > MAX_TOKEN_LABEL_LEN ==> {
            &&& final(store)@ == old(store)@
            &&& res matches Err(ApiError::BadRequest(m)) && m@ == label_too_long()
        },
        enroll::byte_len(label@) <= MAX_TOKEN_LABEL_LEN ==> match res {
            Ok(out) => enroll::token_minted(old(store)@, label@, Ok(out), final(store)@),
            Err(ApiError::Internal(e)) => enroll::token_minted(
                old(store)@,
                label@,
                Err(TokenError::Store(e)),
                final(store)@,
            ),
            Err(_) => false,
        },
{
    token_answer(enroll::create_token(store, label))
}

/// The answer to a revocation, given whether the store removed the token.
pub fn revoke_answer(reply: Result<bool, StoreError>) -> (res: Result<(), ApiError>)
    ensures
        match reply {
            Ok(true) => res is Ok,
            Ok(false) => res matches Err(ApiError::Conflict(m)) && m@
                == "token is unknown or already used"@,
            Err(e) => res == Err::<(), ApiError>(ApiError::Internal(e)),
        },
{
    match reply {
        Ok(true) => Ok(()),
        Ok(false) => Err(ApiError::Conflict("token is unknown or already used".to_owned())),
        Err(e) => Err(ApiError::Internal(e)),
    }
}

/// Revoke an unused token.
pub fn revoke_token(store: &mut Store, token: &str) -> (res: Result<(), ApiError>)
    requires
        old(store).wf(),
    ensures
        final(store).wf(),
        match res {
            Ok(_) => store::unused(old(store)@.tokens, token@) && final(store)@
                == old(store)@.remove_token(token@),
            Err(ApiError::Conflict(m)) => !store::corrupt(old(store)@.tokens, token@)
                && !store::unused(old(store)@.tokens, token@) && final(store)@ == old(store)@ && m@
                == "token is unknown or already used"@,
            Err(ApiError::Internal(StoreError::Corrupt)) => store::corrupt(
                old(store)@.tokens,
                token@,
            ) && final(store)@ == old(store)@,
            Err(e) => e is Internal && (final(store)@ == old(store)@ || store::unused(
                old(store)@.tokens,
                token@,
            ) && final(store)@ == old(store)@.remove_token(token@)),
        },
{
    revoke_answer(enroll::revoke_token(store, token))
}

/// Whether an address to listen on is loopback. The API is unauthenticated, so
/// any other address deserves a warning.
pub fn is_loopback_address(addr: &str) -> (yes: bool)
    ensures
        yes == "127."@.is_prefix_of(addr@),
{
    let chars: Vec<char> = text::chars_of(addr);
    text::starts_with_str(chars.as_slice(), "127.")
}

/// A response header: name and value.
#[derive(Debug, Clone, Copy)]
pub struct Header {
    pub name: &'static str,
    pub value: &'static str,
}

/// The headers that every response carries: no sniffing, no framing, and same
/// origin for everything that the dashboard loads or connects to.
pub fn security_headers() -> (out: [Header; 3])
    ensures
        out@[0].name@ == "x-content-type-options"@,
        out@[0].value@ == "nosniff"@,
        out@[1].name@ == "x-frame-options"@,
        out@[1].value@ == "DENY"@,
        out@[2].name@ == "content-security-policy"@,
        out@[2].value@ == "default-src 'self'; connect-src 'self'"@,
{
    [
        Header { name: "x-content-type-options", value: "nosniff" },
        Header { name: "x-frame-options", value: "DENY" },
        Header {
            name: "content-security-policy",
            value: "default-src 'self'; connect-src 'self'",
        },
    ]
}

} // verus!
