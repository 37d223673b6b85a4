//! The rows of the store and their stored form: every call into `postcard`.
//!
//! A row is stored as the postcard encoding of the tuple of its fields, which is
//! the encoding of a struct with those fields. A real number is carried as the
//! bits of an IEEE 754 double and stored as its eight bytes, low byte first.
use crate::event::{Event, EventPayload};
use crate::{ids, plugin};
use vstd::prelude::*;

verus! {

#[verifier::external_type_specification]
#[verifier::external_body]
pub struct ExPostcardError(postcard::Error);

/// The characters of an optional string.
pub open spec fn opt_chars(s: Option<String>) -> Option<Seq<char>> {
    match s {
        Some(s) => Some(s@),
        None => None,
    }
}

/// One persisted event of the raw audit log. `payload_json` holds the verbatim
/// JSON of the originating payload.
#[derive(Debug, Clone)]
pub struct EventRow {
    pub id: [u8; 16],
    pub ts_ns: u64,
    pub agent_id: String,
    pub source: String,
    pub kind: String,
    pub payload_json: Vec<u8>,
}

/// [`EventRow`] as a value.
#[verifier::ext_equal]
pub struct EventView {
    pub id: Seq<u8>,
    pub ts_ns: u64,
    pub agent_id: Seq<char>,
    pub source: Seq<char>,
    pub kind: Seq<char>,
    pub payload_json: Seq<u8>,
}

impl View for EventRow {
    type V = EventView;

    open spec fn view(&self) -> EventView {
        EventView {
            id: self.id@,
            ts_ns: self.ts_ns,
            agent_id: self.agent_id@,
            source: self.source@,
            kind: self.kind@,
            payload_json: self.payload_json@,
        }
    }
}

/// The event that stored bytes denote, if they denote one.
pub uninterp spec fn event_of(bytes: Seq<u8>) -> Option<EventView>;

/// The stored form of an event.
///
/// Calls `postcard::to_allocvec`, which cannot fail on these fields. Reading the
/// result gives the event back.
#[verifier::external_body]
pub(crate) fn encode_event(row: &EventRow) -> (res: Result<Vec<u8>, postcard::Error>)
    ensures
        res is Ok,
        event_of(res->Ok_0@) == Some(row@),
{
    postcard::to_allocvec(&(
        row.id,
        row.ts_ns,
        &row.agent_id,
        &row.source,
        &row.kind,
        &row.payload_json,
    ))
}

/// Reads an event.
///
/// Calls `postcard::from_bytes`.
#[verifier::external_body]
pub(crate) fn decode_event(bytes: &[u8]) -> (out: Option<EventRow>)
    ensures
        match out {
            Some(row) => event_of(bytes@) == Some(row@),
            None => event_of(bytes@) is None,
        },
{
    let fields: Result<([u8; 16], u64, String, String, String, Vec<u8>), postcard::Error> = postcard::from_bytes(bytes);
    let (id, ts_ns, agent_id, source, kind, payload_json) = fields.ok()?;
    Some(EventRow { id, ts_ns, agent_id, source, kind, payload_json })
}

/// Latest human-vs-agent classification of a subject.
#[derive(Debug, Clone)]
pub struct DetectionRow {
    pub agent_id: String,
    pub subject: String,
    pub verdict: String,
    pub confidence_bits: u64,
    pub model: String,
    pub reasons: Vec<String>,
    pub ts_ns: u64,
}

/// [`DetectionRow`] as a value.
#[verifier::ext_equal]
pub struct DetectionView {
    pub agent_id: Seq<char>,
    pub subject: Seq<char>,
    pub verdict: Seq<char>,
    pub confidence_bits: u64,
    pub model: Seq<char>,
    pub reasons: Seq<Seq<char>>,
    pub ts_ns: u64,
}

impl View for DetectionRow {
    type V = DetectionView;

    open spec fn view(&self) -> DetectionView {
        DetectionView {
            agent_id: self.agent_id@,
            subject: self.subject@,
            verdict: self.verdict@,
            confidence_bits: self.confidence_bits,
            model: self.model@,
            reasons: plugin::names(self.reasons@),
            ts_ns: self.ts_ns,
        }
    }
}

/// The detection that stored bytes denote, if they denote one.
pub uninterp spec fn detection_of(bytes: Seq<u8>) -> Option<DetectionView>;

/// The stored form of a detection.
///
/// Calls `postcard::to_allocvec`, which cannot fail on these fields. Reading the
/// result gives the detection back.
#[verifier::external_body]
pub(crate) fn encode_detection(row: &DetectionRow) -> (res: Result<Vec<u8>, postcard::Error>)
    ensures
        res is Ok,
        detection_of(res->Ok_0@) == Some(row@),
{
    postcard::to_allocvec(&(
        &row.agent_id,
        &row.subject,
        &row.verdict,
        row.confidence_bits.to_le_bytes(),
        &row.model,
        &row.reasons,
        row.ts_ns,
    ))
}

/// Reads a detection.
///
/// Calls `postcard::from_bytes`.
#[verifier::external_body]
pub(crate) fn decode_detection(bytes: &[u8]) -> (out: Option<DetectionRow>)
    ensures
        match out {
            Some(row) => detection_of(bytes@) == Some(row@),
            None => detection_of(bytes@) is None,
        },
{
    let fields: Result<(String, String, String, [u8; 8], String, Vec<String>, u64), postcard::Error> = postcard::from_bytes(bytes);
    let (agent_id, subject, verdict, confidence_bits, model, reasons, ts_ns) = fields.ok()?;
    let confidence_bits = u64::from_le_bytes(confidence_bits);
    Some(DetectionRow { agent_id, subject, verdict, confidence_bits, model, reasons, ts_ns })
}

/// Latest risk score of a subject.
#[derive(Debug, Clone)]
pub struct ScoreRow {
    pub agent_id: String,
    pub subject: String,
    pub model: String,
    pub score_bits: u64,
    pub ts_ns: u64,
}

/// [`ScoreRow`] as a value.
#[verifier::ext_equal]
pub struct ScoreView {
    pub agent_id: Seq<char>,
    pub subject: Seq<char>,
    pub model: Seq<char>,
    pub score_bits: u64,
    pub ts_ns: u64,
}

impl View for ScoreRow {
    type V = ScoreView;

    open spec fn view(&self) -> ScoreView {
        ScoreView {
            agent_id: self.agent_id@,
            subject: self.subject@,
            model: self.model@,
            score_bits: self.score_bits,
            ts_ns: self.ts_ns,
        }
    }
}

/// The score that stored bytes denote, if they denote one.
pub uninterp spec fn score_of(bytes: Seq<u8>) -> Option<ScoreView>;

/// The stored form of a score.
///
/// Calls `postcard::to_allocvec`, which cannot fail on these fields. Reading the
/// result gives the score back.
#[verifier::external_body]
pub(crate) fn encode_score(row: &ScoreRow) -> (res: Result<Vec<u8>, postcard::Error>)
    ensures
        res is Ok,
        score_of(res->Ok_0@) == Some(row@),
{
    postcard::to_allocvec(&(
        &row.agent_id,
        &row.subject,
        &row.model,
        row.score_bits.to_le_bytes(),
        row.ts_ns,
    ))
}

/// Reads a score.
///
/// Calls `postcard::from_bytes`.
#[verifier::external_body]
pub(crate) fn decode_score(bytes: &[u8]) -> (out: Option<ScoreRow>)
    ensures
        match out {
            Some(row) => score_of(bytes@) == Some(row@),
            None => score_of(bytes@) is None,
        },
{
    let fields: Result<(String, String, String, [u8; 8], u64), postcard::Error> = postcard::from_bytes(bytes);
    let (agent_id, subject, model, score_bits, ts_ns) = fields.ok()?;
    let score_bits = u64::from_le_bytes(score_bits);
    Some(ScoreRow { agent_id, subject, model, score_bits, ts_ns })
}

/// One actionable alert of the append-only alert log.
#[derive(Debug, Clone)]
pub struct AlertRow {
    pub id: String,
    pub agent_id: String,
    pub severity: String,
    pub title: String,
    pub detail: String,
    pub subject: Option<String>,
    pub ts_ns: u64,
    pub acknowledged: bool,
}

/// [`AlertRow`] as a value.
#[verifier::ext_equal]
pub struct AlertView {
    pub id: Seq<char>,
    pub agent_id: Seq<char>,
    pub severity: Seq<char>,
    pub title: Seq<char>,
    pub detail: Seq<char>,
    pub subject: Option<Seq<char>>,
    pub ts_ns: u64,
    pub acknowledged: bool,
}

impl View for AlertRow {
    type V = AlertView;

    open spec fn view(&self) -> AlertView {
        AlertView {
            id: self.id@,
            agent_id: self.agent_id@,
            severity: self.severity@,
            title: self.title@,
            detail: self.detail@,
            subject: opt_chars(self.subject),
            ts_ns: self.ts_ns,
            acknowledged: self.acknowledged,
        }
    }
}

/// The alert that stored bytes denote, if they denote one.
pub uninterp spec fn alert_of(bytes: Seq<u8>) -> Option<AlertView>;

/// The stored form of an alert.
///
/// Calls `postcard::to_allocvec`, which cannot fail on these fields. Reading the
/// result gives the alert back.
#[verifier::external_body]
pub(crate) fn encode_alert(row: &AlertRow) -> (res: Result<Vec<u8>, postcard::Error>)
    ensures
        res is Ok,
        alert_of(res->Ok_0@) == Some(row@),
{
    postcard::to_allocvec(&(
        &row.id,
        &row.agent_id,
        &row.severity,
        &row.title,
        &row.detail,
        &row.subject,
        row.ts_ns,
        row.acknowledged,
    ))
}

/// Reads an alert.
///
/// Calls `postcard::from_bytes`.
#[verifier::external_body]
pub(crate) fn decode_alert(bytes: &[u8]) -> (out: Option<AlertRow>)
    ensures
        match out {
            Some(row) => alert_of(bytes@) == Some(row@),
            None => alert_of(bytes@) is None,
        },
{
    let fields: Result<(String, String, String, String, String, Option<String>, u64, bool), postcard::Error> = postcard::from_bytes(bytes);
    let (id, agent_id, severity, title, detail, subject, ts_ns, acknowledged) = fields.ok()?;
    Some(AlertRow { id, agent_id, severity, title, detail, subject, ts_ns, acknowledged })
}

/// Identity and liveness of one enrolled agent.
#[derive(Debug, Clone)]
pub struct AgentRow {
    pub agent_id: String,
    pub hostname: String,
    pub os: String,
    pub pubkey: [u8; 32],
    pub enrolled_at_ns: u64,
    pub last_seen_ns: u64,
}

/// [`AgentRow`] as a value.
#[verifier::ext_equal]
pub struct AgentView {
    pub agent_id: Seq<char>,
    pub hostname: Seq<char>,
    pub os: Seq<char>,
    pub pubkey: Seq<u8>,
    pub enrolled_at_ns: u64,
    pub last_seen_ns: u64,
}

impl View for AgentRow {
    type V = AgentView;

    open spec fn view(&self) -> AgentView {
        AgentView {
            agent_id: self.agent_id@,
            hostname: self.hostname@,
            os: self.os@,
            pubkey: self.pubkey@,
            enrolled_at_ns: self.enrolled_at_ns,
            last_seen_ns: self.last_seen_ns,
        }
    }
}

/// The agent that stored bytes denote, if they denote one.
pub uninterp spec fn agent_of(bytes: Seq<u8>) -> Option<AgentView>;

/// The stored form of an agent.
///
/// Calls `postcard::to_allocvec`, which cannot fail on these fields. Reading the
/// result gives the agent back.
#[verifier::external_body]
pub(crate) fn encode_agent(row: &AgentRow) -> (res: Result<Vec<u8>, postcard::Error>)
    ensures
        res is Ok,
        agent_of(res->Ok_0@) == Some(row@),
{
    postcard::to_allocvec(&(
        &row.agent_id,
        &row.hostname,
        &row.os,
        row.pubkey,
        row.enrolled_at_ns,
        row.last_seen_ns,
    ))
}

/// Reads an agent.
///
/// Calls `postcard::from_bytes`.
#[verifier::external_body]
pub(crate) fn decode_agent(bytes: &[u8]) -> (out: Option<AgentRow>)
    ensures
        match out {
            Some(row) => agent_of(bytes@) == Some(row@),
            None => agent_of(bytes@) is None,
        },
{
    let fields: Result<(String, String, String, [u8; 32], u64, u64), postcard::Error> = postcard::from_bytes(bytes);
    let (agent_id, hostname, os, pubkey, enrolled_at_ns, last_seen_ns) = fields.ok()?;
    Some(AgentRow { agent_id, hostname, os, pubkey, enrolled_at_ns, last_seen_ns })
}

/// One one-time enrollment token.
#[derive(Debug, Clone)]
pub struct TokenRow {
    pub created_at_ns: u64,
    pub label: String,
    pub used: bool,
}

/// [`TokenRow`] as a value.
#[verifier::ext_equal]
pub struct TokenView {
    pub created_at_ns: u64,
    pub label: Seq<char>,
    pub used: bool,
}

impl View for TokenRow {
    type V = TokenView;

    open spec fn view(&self) -> TokenView {
        TokenView {
            created_at_ns: self.created_at_ns,
            label: self.label@,
            used: self.used,
        }
    }
}

/// The token that stored bytes denote, if they denote one.
pub uninterp spec fn token_of(bytes: Seq<u8>) -> Option<TokenView>;

/// The stored form of a token.
///
/// Calls `postcard::to_allocvec`, which cannot fail on these fields. Reading the
/// result gives the token back.
#[verifier::external_body]
pub(crate) fn encode_token(row: &TokenRow) -> (res: Result<Vec<u8>, postcard::Error>)
    ensures
        res is Ok,
        token_of(res->Ok_0@) == Some(row@),
{
    postcard::to_allocvec(&(
        row.created_at_ns,
        &row.label,
        row.used,
    ))
}

/// Reads a token.
///
/// Calls `postcard::from_bytes`.
#[verifier::external_body]
pub(crate) fn decode_token(bytes: &[u8]) -> (out: Option<TokenRow>)
    ensures
        match out {
            Some(row) => token_of(bytes@) == Some(row@),
            None => token_of(bytes@) is None,
        },
{
    let fields: Result<(u64, String, bool), postcard::Error> = postcard::from_bytes(bytes);
    let (created_at_ns, label, used) = fields.ok()?;
    Some(TokenRow { created_at_ns, label, used })
}

/// A copy of a list of strings.
pub fn copy_strings(list: &Vec<String>) -> (out: Vec<String>)
    ensures
        plugin::names(out@) == plugin::names(list@),
{
    let mut out: Vec<String> = Vec::new();
    let mut i: usize = 0;
    while i < list.len()
        invariant
            i <= list@.len(),
            out@.len() == i,
            forall|j: int| 0 <= j < i ==> (#[trigger] out@[j])@ == list@[j]@,
        decreases list@.len() - i,
    {
        out.push(list[i].clone());
        i = i + 1;
    }
    assert(plugin::names(out@) =~= plugin::names(list@));
    out
}

/// A copy of an optional string.
pub fn copy_opt(s: &Option<String>) -> (out: Option<String>)
    ensures
        opt_chars(out) == opt_chars(*s),
{
    match s {
        Some(s) => Some(s.clone()),
        None => None,
    }
}

impl DetectionRow {
    /// The row of a detection event, if it is one.
    pub open spec fn of_event(ev: Event) -> Option<DetectionView> {
        match ev.payload {
            EventPayload::Detection { subject, verdict, confidence_bits, model, reasons, .. } => Some(
                DetectionView {
                    agent_id: ev.agent_id@,
                    subject: subject@,
                    verdict: verdict.name_chars(),
                    confidence_bits,
                    model: model@,
                    reasons: plugin::names(reasons@),
                    ts_ns: ev.ts_ns,
                },
            ),
            _ => None,
        }
    }

    /// Build a row from a `detection` event; `None` for any other payload.
    pub fn from_event(ev: &Event) -> (out: Option<DetectionRow>)
        ensures
            match out {
                Some(row) => DetectionRow::of_event(*ev) == Some(row@),
                None => DetectionRow::of_event(*ev) is None,
            },
    {
        match &ev.payload {
            EventPayload::Detection { subject, verdict, confidence_bits, model, reasons, .. } => Some(
                DetectionRow {
                    agent_id: ev.agent_id.clone(),
                    subject: subject.clone(),
                    verdict: verdict.to_string(),
                    confidence_bits: *confidence_bits,
                    model: model.clone(),
                    reasons: copy_strings(reasons),
                    ts_ns: ev.ts_ns,
                },
            ),
            _ => None,
        }
    }
}

impl ScoreRow {
    /// The row of a score event, if it is one.
    pub open spec fn of_event(ev: Event) -> Option<ScoreView> {
        match ev.payload {
            EventPayload::Score { subject, model, score_bits, .. } => Some(
                ScoreView {
                    agent_id: ev.agent_id@,
                    subject: subject@,
                    model: model@,
                    score_bits,
                    ts_ns: ev.ts_ns,
                },
            ),
            _ => None,
        }
    }

    /// Build a row from a `score` event; `None` for any other payload.
    pub fn from_event(ev: &Event) -> (out: Option<ScoreRow>)
        ensures
            match out {
                Some(row) => ScoreRow::of_event(*ev) == Some(row@),
                None => ScoreRow::of_event(*ev) is None,
            },
    {
        match &ev.payload {
            EventPayload::Score { subject, model, score_bits, .. } => Some(
                ScoreRow {
                    agent_id: ev.agent_id.clone(),
                    subject: subject.clone(),
                    model: model.clone(),
                    score_bits: *score_bits,
                    ts_ns: ev.ts_ns,
                },
            ),
            _ => None,
        }
    }
}

impl AlertRow {
    /// The row of an alert event under an identifier, if it is one.
    pub open spec fn of_event(ev: Event, id: Seq<u8>) -> Option<AlertView> {
        match ev.payload {
            EventPayload::Alert { severity, title, detail, subject } => Some(
                AlertView {
                    id: ids::uuid_text(id),
                    agent_id: ev.agent_id@,
                    severity: severity.name_chars(),
                    title: title@,
                    detail: detail@,
                    subject: opt_chars(subject),
                    ts_ns: ev.ts_ns,
                    acknowledged: false,
                },
            ),
            _ => None,
        }
    }

    /// Build a row (with a random identifier, unacknowledged) from an `alert`
    /// event; `None` for any other payload.
    pub fn from_event(ev: &Event) -> (out: Option<AlertRow>)
        ensures
            exists|id: Seq<u8>|
                ids::is_v4(id) && match out {
                    Some(row) => #[trigger] AlertRow::of_event(*ev, id) == Some(row@)
                        && ids::uuid_of(row.id@) == Some(id),
                    None => AlertRow::of_event(*ev, id) is None,
                },
    {
        let id: [u8; 16] = ids::new_v4();
        let out: Option<AlertRow> = AlertRow::from_event_as(ev, &id);
        assert(ids::is_v4(id@));
        out
    }

    /// [`AlertRow::from_event`] with a given identifier.
    pub fn from_event_as(ev: &Event, id: &[u8; 16]) -> (out: Option<AlertRow>)
        ensures
            match out {
                Some(row) => AlertRow::of_event(*ev, id@) == Some(row@) && ids::uuid_of(row.id@)
                    == Some(id@),
                None => AlertRow::of_event(*ev, id@) is None,
            },
    {
        match &ev.payload {
            EventPayload::Alert { severity, title, detail, subject } => Some(
                AlertRow {
                    id: ids::uuid_string(id),
                    agent_id: ev.agent_id.clone(),
                    severity: severity.name(),
                    title: title.clone(),
                    detail: detail.clone(),
                    subject: copy_opt(subject),
                    ts_ns: ev.ts_ns,
                    acknowledged: false,
                },
            ),
            _ => None,
        }
    }
}

/// The row of a detection has the event's agent and time and the payload's subject,
/// verdict, confidence, model and reasons; nothing else makes a row.
pub proof fn law_detection_row_is_the_event(ev: &Event, out: Option<DetectionRow>)
    requires
        call_ensures(DetectionRow::from_event, (ev,), out),
    ensures
        out is Some <==> ev.payload is Detection,
        ev.payload matches EventPayload::Detection {
            subject,
            verdict,
            confidence_bits,
            model,
            reasons,
            ..
        } ==> {
            let row = out.unwrap();
            &&& row.agent_id@ == ev.agent_id@
            &&& row.subject@ == subject@
            &&& verdict is Human ==> row.verdict@ == "human"@
            &&& verdict is Agent ==> row.verdict@ == "agent"@
            &&& verdict is Uncertain ==> row.verdict@ == "uncertain"@
            &&& row.confidence_bits == confidence_bits
            &&& row.model@ == model@
            &&& row.reasons@.len() == reasons@.len()
            &&& forall|i: int| 0 <= i < reasons@.len() ==> (#[trigger] row.reasons@[i])@
                == reasons@[i]@
            &&& row.ts_ns == ev.ts_ns
        },
{
    if let Some(row) = out {
        if let EventPayload::Detection { reasons, .. } = ev.payload {
            assert(plugin::names(row.reasons@).len() == plugin::names(reasons@).len());
            assert forall|i: int| 0 <= i < reasons@.len() implies (#[trigger] row.reasons@[i])@
                == reasons@[i]@ by {
                assert(plugin::names(row.reasons@)[i] == plugin::names(reasons@)[i]);
            }
        }
    }
}

/// The row of a score has the event's agent and time and the payload's subject, model
/// and score; nothing else makes a row.
pub proof fn law_score_row_is_the_event(ev: &Event, out: Option<ScoreRow>)
    requires
        call_ensures(ScoreRow::from_event, (ev,), out),
    ensures
        out is Some <==> ev.payload is Score,
        ev.payload matches EventPayload::Score { subject, model, score_bits, .. } ==> {
            let row = out.unwrap();
            &&& row.agent_id@ == ev.agent_id@
            &&& row.subject@ == subject@
            &&& row.model@ == model@
            &&& row.score_bits == score_bits
            &&& row.ts_ns == ev.ts_ns
        },
{
}

/// The row of an alert has the event's agent and time, the payload's severity, title,
/// detail and subject, and the identifier it is given; it starts unacknowledged.
pub proof fn law_alert_row_is_the_event(ev: &Event, id: &[u8; 16], out: Option<AlertRow>)
    requires
        call_ensures(AlertRow::from_event_as, (ev, id), out),
    ensures
        out is Some <==> ev.payload is Alert,
        ev.payload matches EventPayload::Alert { severity, title, detail, subject } ==> {
            let row = out.unwrap();
            &&& ids::uuid_of(row.id@) == Some(id@)
            &&& row.agent_id@ == ev.agent_id@
            &&& severity is Info ==> row.severity@ == "info"@
            &&& severity is Low ==> row.severity@ == "low"@
            &&& severity is Medium ==> row.severity@ == "medium"@
            &&& severity is High ==> row.severity@ == "high"@
            &&& severity is Critical ==> row.severity@ == "critical"@
            &&& row.title@ == title@
            &&& row.detail@ == detail@
            &&& row.subject is Some <==> subject is Some
            &&& subject is Some ==> row.subject.unwrap()@ == subject.unwrap()@
            &&& row.ts_ns == ev.ts_ns
            &&& !row.acknowledged
        },
{
}

/// The row of an alert under a random identifier is the event's as well.
pub proof fn law_new_alert_row_is_the_event(ev: &Event, out: Option<AlertRow>)
    requires
        call_ensures(AlertRow::from_event, (ev,), out),
    ensures
        out is Some <==> ev.payload is Alert,
        ev.payload matches EventPayload::Alert { title, detail, .. } ==> {
            let row = out.unwrap();
            &&& row.agent_id@ == ev.agent_id@
            &&& row.title@ == title@
            &&& row.detail@ == detail@
            &&& row.ts_ns == ev.ts_ns
            &&& !row.acknowledged
        },
{
}

/// A row as a value has every field of the row.
pub proof fn law_rows_show_their_fields(
    event: EventRow,
    detection: DetectionRow,
    score: ScoreRow,
    alert: AlertRow,
    agent: AgentRow,
    token: TokenRow,
)
    ensures
        event@.id == event.id@ && event@.ts_ns == event.ts_ns,
        event@.agent_id == event.agent_id@ && event@.source == event.source@,
        event@.kind == event.kind@ && event@.payload_json == event.payload_json@,
        detection@.agent_id == detection.agent_id@ && detection@.subject == detection.subject@,
        detection@.verdict == detection.verdict@ && detection@.model == detection.model@,
        detection@.confidence_bits == detection.confidence_bits,
        detection@.ts_ns == detection.ts_ns,
        detection@.reasons.len() == detection.reasons@.len(),
        forall|i: int|
            0 <= i < detection.reasons@.len() ==> #[trigger] detection@.reasons[i]
                == detection.reasons@[i]@,
        score@.agent_id == score.agent_id@ && score@.subject == score.subject@,
        score@.model == score.model@ && score@.score_bits == score.score_bits,
        score@.ts_ns == score.ts_ns,
        alert@.id == alert.id@ && alert@.agent_id == alert.agent_id@,
        alert@.severity == alert.severity@ && alert@.title == alert.title@,
        alert@.detail == alert.detail@ && alert@.ts_ns == alert.ts_ns,
        alert@.acknowledged == alert.acknowledged,
        alert@.subject is Some <==> alert.subject is Some,
        alert.subject is Some ==> alert@.subject.unwrap() == alert.subject.unwrap()@,
        agent@.agent_id == agent.agent_id@ && agent@.hostname == agent.hostname@,
        agent@.os == agent.os@ && agent@.pubkey == agent.pubkey@,
        agent@.enrolled_at_ns == agent.enrolled_at_ns && agent@.last_seen_ns == agent.last_seen_ns,
        token@.created_at_ns == token.created_at_ns && token@.label == token.label@,
        token@.used == token.used,
{
}

/// The keys of an index cell, as byte strings.
pub open spec fn key_list(keys: Seq<[u8; 24]>) -> Seq<Seq<u8>> {
    keys.map_values(|k: [u8; 24]| k@)
}

/// The keys that a stored index cell denotes, if it denotes any.
pub uninterp spec fn index_of(bytes: Seq<u8>) -> Option<Seq<Seq<u8>>>;

/// The stored form of an index cell.
///
/// Calls `postcard::to_allocvec`, which cannot fail on a list of byte arrays.
/// Reading the result gives the keys back.
#[verifier::external_body]
pub(crate) fn encode_index(keys: &Vec<[u8; 24]>) -> (res: Result<Vec<u8>, postcard::Error>)
    ensures
        res is Ok,
        index_of(res->Ok_0@) == Some(key_list(keys@)),
{
    postcard::to_allocvec(keys)
}

/// Reads an index cell.
///
/// Calls `postcard::from_bytes`.
#[verifier::external_body]
pub(crate) fn decode_index(bytes: &[u8]) -> (out: Option<Vec<[u8; 24]>>)
    ensures
        match out {
            Some(keys) => index_of(bytes@) == Some(key_list(keys@)),
            None => index_of(bytes@) is None,
        },
{
    postcard::from_bytes(bytes).ok()
}

} // verus!
