//! The unified event schema.
//!
//! Real-valued fields (scores, confidences, entropies, features) are carried as
//! the bits of an IEEE 754 double: nothing here computes on them. A free-form
//! payload is carried as JSON text.
use crate::{ids, text};
use vstd::prelude::*;

verus! {

/// Severity of an actionable alert.
#[derive(Debug, Clone, Copy, PartialEq, Eq, PartialOrd, Ord, Structural)]
pub enum Severity {
    Info,
    Low,
    Medium,
    High,
    Critical,
}

impl Severity {
    pub open spec fn name_chars(self) -> Seq<char> {
        match self {
            Severity::Info => "info"@,
            Severity::Low => "low"@,
            Severity::Medium => "medium"@,
            Severity::High => "high"@,
            Severity::Critical => "critical"@,
        }
    }

    /// The lower-case name.
    pub fn name(&self) -> (out: String)
        ensures
            out@ == self.name_chars(),
    {
        match self {
            Severity::Info => "info".to_owned(),
            Severity::Low => "low".to_owned(),
            Severity::Medium => "medium".to_owned(),
            Severity::High => "high".to_owned(),
            Severity::Critical => "critical".to_owned(),
        }
    }
}

/// Human-vs-agent classification.
#[derive(Debug, Clone, Copy, PartialEq, Eq, Structural)]
pub enum Verdict {
    Human,
    Agent,
    Uncertain,
}

impl Verdict {
    pub open spec fn name_chars(self) -> Seq<char> {
        match self {
            Verdict::Human => "human"@,
            Verdict::Agent => "agent"@,
            Verdict::Uncertain => "uncertain"@,
        }
    }

    /// The lower-case name.
    pub fn to_string(&self) -> (out: String)
        ensures
            out@ == self.name_chars(),
    {
        match self {
            Verdict::Human => "human".to_owned(),
            Verdict::Agent => "agent".to_owned(),
            Verdict::Uncertain => "uncertain".to_owned(),
        }
    }
}

/// The typed body of an event.
#[derive(Debug, Clone)]
pub enum EventPayload {
    /// A process was executed.
    ProcessExec {
        pid: u32,
        ppid: u32,
        uid: u32,
        exe: String,
        cmdline: Vec<String>,
        cwd: Option<String>,
    },
    /// An interactive session began.
    SessionStart {
        session_id: String,
        tty: Option<String>,
        user: String,
        remote: Option<String>,
    },
    /// An interactive session ended.
    SessionEnd { session_id: String },
    /// Timing of one keystroke or paste, without its content.
    Keystroke { session_id: String, inter_arrival_ns: u64, is_paste: bool, burst_len: u32 },
    /// Shape of one command line, without its text.
    CommandObserved {
        session_id: String,
        command_len: u32,
        token_count: u32,
        shannon_entropy_bits: u64,
        had_backspace: bool,
        edit_distance_prev: u32,
        inter_command_ns: u64,
        command_hash: String,
    },
    /// A risk score for a subject.
    Score { subject: String, model: String, score_bits: u64, features: Vec<(String, u64)> },
    /// A human-vs-agent classification of a subject.
    Detection {
        subject: String,
        verdict: Verdict,
        confidence_bits: u64,
        model: String,
        reasons: Vec<String>,
        features: Vec<(String, u64)>,
    },
    /// An actionable alert.
    Alert { severity: Severity, title: String, detail: String, subject: Option<String> },
    /// Liveness of an agent.
    Heartbeat { uptime_s: u64 },
    /// Anything else, as JSON text.
    Custom(String),
}

impl EventPayload {
    /// The kind that a payload is published under unless told otherwise.
    pub open spec fn kind_chars(self) -> Seq<char> {
        match self {
            EventPayload::ProcessExec { .. } => "process.exec"@,
            EventPayload::SessionStart { .. } => "session.start"@,
            EventPayload::SessionEnd { .. } => "session.end"@,
            EventPayload::Keystroke { .. } => "input.keystroke"@,
            EventPayload::CommandObserved { .. } => "command.observed"@,
            EventPayload::Score { .. } => "score"@,
            EventPayload::Detection { .. } => "detection"@,
            EventPayload::Alert { .. } => "alert"@,
            EventPayload::Heartbeat { .. } => "heartbeat"@,
            EventPayload::Custom(_) => "custom"@,
        }
    }

    /// The default topic of this payload.
    pub fn default_kind(&self) -> (kind: &'static str)
        ensures
            kind@ == self.kind_chars(),
            self is ProcessExec ==> kind@ == "process.exec"@,
            self is SessionStart ==> kind@ == "session.start"@,
            self is SessionEnd ==> kind@ == "session.end"@,
            self is Keystroke ==> kind@ == "input.keystroke"@,
            self is CommandObserved ==> kind@ == "command.observed"@,
            self is Score ==> kind@ == "score"@,
            self is Detection ==> kind@ == "detection"@,
            self is Alert ==> kind@ == "alert"@,
            self is Heartbeat ==> kind@ == "heartbeat"@,
            self is Custom ==> kind@ == "custom"@,
    {
        match self {
            EventPayload::ProcessExec { .. } => "process.exec",
            EventPayload::SessionStart { .. } => "session.start",
            EventPayload::SessionEnd { .. } => "session.end",
            EventPayload::Keystroke { .. } => "input.keystroke",
            EventPayload::CommandObserved { .. } => "command.observed",
            EventPayload::Score { .. } => "score",
            EventPayload::Detection { .. } => "detection",
            EventPayload::Alert { .. } => "alert",
            EventPayload::Heartbeat { .. } => "heartbeat",
            EventPayload::Custom(_) => "custom",
        }
    }
}

/// String labels by name.
#[derive(Debug, Clone)]
pub struct Labels {
    entries: Vec<(String, String)>,
}

impl View for Labels {
    type V = Map<Seq<char>, Seq<char>>;

    closed spec fn view(&self) -> Map<Seq<char>, Seq<char>> {
        Map::new(
            |k: Seq<char>| exists|i: int| 0 <= i < self.entries@.len() && (#[trigger] self.entries@[i]).0@ == k,
            |k: Seq<char>| self.entries@[self.place(k)].1@,
        )
    }
}

impl Labels {
    closed spec fn place(self, k: Seq<char>) -> int {
        choose|i: int| 0 <= i < self.entries@.len() && (#[trigger] self.entries@[i]).0@ == k
    }

    /// No name stands twice.
    pub closed spec fn wf(self) -> bool {
        forall|i: int, j: int|
            0 <= i < j < self.entries@.len() ==> (#[trigger] self.entries@[i]).0@ != (
            #[trigger] self.entries@[j]).0@
    }

    proof fn lemma_entry(self, i: int)
        requires
            self.wf(),
            0 <= i < self.entries@.len(),
        ensures
            self@.contains_key(self.entries@[i].0@),
            self@[self.entries@[i].0@] == self.entries@[i].1@,
    {
        let k = self.entries@[i].0@;
        let p = self.place(k);
        assert(self.entries@[p].0@ == k);
        if p < i {
            assert(self.entries@[p].0@ != self.entries@[i].0@);
        } else if i < p {
            assert(self.entries@[i].0@ != self.entries@[p].0@);
        }
    }

    /// No labels.
    pub fn new() -> (out: Labels)
        ensures
            out.wf(),
            out@ == Map::<Seq<char>, Seq<char>>::empty(),
    {
        let out: Labels = Labels { entries: Vec::new() };
        assert(out@ =~= Map::<Seq<char>, Seq<char>>::empty());
        out
    }

    /// Sets a label, replacing what stood under the name.
    pub fn insert(&mut self, key: &str, value: &str)
        requires
            old(self).wf(),
        ensures
            final(self).wf(),
            final(self)@ == old(self)@.insert(key@, value@),
    {
        let mut i: usize = 0;
        while i < self.entries.len()
            invariant
                *self == *old(self),
                self.wf(),
                i <= self.entries@.len(),
                forall|j: int| 0 <= j < i ==> (#[trigger] self.entries@[j]).0@ != key@,
            decreases self.entries@.len() - i,
        {
            if text::same(self.entries[i].0.as_str(), key) {
                let name: String = key.to_owned();
                let content: String = value.to_owned();
                self.entries.set(i, (name, content));
                proof {
                    let before = *old(self);
                    let after = *self;
                    assert(after.wf());
                    assert forall|k: Seq<char>| #[trigger] after@.contains_key(k) == before@.insert(
                        key@,
                        value@,
                    ).contains_key(k) by {
                        if before@.contains_key(k) {
                            let p = before.place(k);
                            assert(after.entries@[p].0@ == k);
                        }
                        if after@.contains_key(k) {
                            let p = after.place(k);
                            assert(before.entries@[p].0@ == k);
                        }
                        assert(after.entries@[i as int].0@ == key@);
                    }
                    assert forall|k: Seq<char>| after@.contains_key(k) implies #[trigger] after@[k]
                        == before@.insert(key@, value@)[k] by {
                        let p = after.place(k);
                        after.lemma_entry(p);
                        before.lemma_entry(p);
                        after.lemma_entry(i as int);
                        if k != key@ {
                            assert(p != i);
                        }
                    }
                    assert(after@ =~= before@.insert(key@, value@));
                }
                return ;
            }
            i = i + 1;
        }
        let name: String = key.to_owned();
        let content: String = value.to_owned();
        self.entries.push((name, content));
        proof {
            let before = *old(self);
            let after = *self;
            let n = before.entries@.len() as int;
            assert(after.wf());
            assert forall|k: Seq<char>| #[trigger] after@.contains_key(k) == before@.insert(
                key@,
                value@,
            ).contains_key(k) by {
                if before@.contains_key(k) {
                    let p = before.place(k);
                    assert(after.entries@[p].0@ == k);
                }
                if after@.contains_key(k) && k != key@ {
                    let p = after.place(k);
                    assert(p != n);
                    assert(before.entries@[p].0@ == k);
                }
                assert(after.entries@[n].0@ == key@);
            }
            assert forall|k: Seq<char>| after@.contains_key(k) implies #[trigger] after@[k]
                == before@.insert(key@, value@)[k] by {
                let p = after.place(k);
                after.lemma_entry(p);
                after.lemma_entry(n);
                if k != key@ {
                    assert(p != n);
                    before.lemma_entry(p);
                }
            }
            assert(after@ =~= before@.insert(key@, value@));
        }
    }

    /// The label under a name.
    pub fn get(&self, key: &str) -> (out: Option<String>)
        requires
            self.wf(),
        ensures
            match out {
                Some(value) => self@.contains_key(key@) && self@[key@] == value@,
                None => !self@.contains_key(key@),
            },
    {
        let mut i: usize = 0;
        while i < self.entries.len()
            invariant
                self.wf(),
                i <= self.entries@.len(),
                forall|j: int| 0 <= j < i ==> (#[trigger] self.entries@[j]).0@ != key@,
            decreases self.entries@.len() - i,
        {
            if text::same(self.entries[i].0.as_str(), key) {
                proof {
                    self.lemma_entry(i as int);
                }
                return Some(self.entries[i].1.clone());
            }
            i = i + 1;
        }
        None
    }

    /// The labels in the order in which their names were first set.
    pub closed spec fn pairs(self) -> Seq<(Seq<char>, Seq<char>)> {
        self.entries@.map_values(|e: (String, String)| (e.0@, e.1@))
    }

    /// The list of pairs is the map: every label is in it, and every pair is a
    /// label.
    pub proof fn law_pairs_are_the_labels(self)
        requires
            self.wf(),
        ensures
            forall|i: int|
                0 <= i < self.pairs().len() ==> self@.contains_key((#[trigger] self.pairs()[i]).0)
                    && self@[self.pairs()[i].0] == self.pairs()[i].1,
            forall|k: Seq<char>| #[trigger]
                self@.contains_key(k) ==> self.pairs().contains((k, self@[k])),
    {
        assert forall|i: int| 0 <= i < self.pairs().len() implies self@.contains_key(
            (#[trigger] self.pairs()[i]).0,
        ) && self@[self.pairs()[i].0] == self.pairs()[i].1 by {
            self.lemma_entry(i);
        }
        assert forall|k: Seq<char>| #[trigger] self@.contains_key(k) implies self.pairs().contains(
            (k, self@[k]),
        ) by {
            let p = self.place(k);
            assert(self.pairs()[p] == (k, self@[k]));
        }
    }

    /// How many labels there are.
    pub fn len(&self) -> (n: usize)
        ensures
            n == self.pairs().len(),
    {
        self.entries.len()
    }

    /// The name and value at a place below [`Labels::len`].
    pub fn entry(&self, i: usize) -> (out: (String, String))
        requires
            i < self.pairs().len(),
        ensures
            (out.0@, out.1@) == self.pairs()[i as int],
    {
        (self.entries[i].0.clone(), self.entries[i].1.clone())
    }
}

/// One event on the bus.
#[derive(Debug, Clone)]
pub struct Event {
    /// The sixteen bytes of a UUID.
    pub id: [u8; 16],
    /// Nanoseconds since the Unix epoch.
    pub ts_ns: u64,
    /// The endpoint it belongs to.
    pub agent_id: String,
    /// The plugin that made it.
    pub source: String,
    /// The topic it is routed by.
    pub kind: String,
    pub payload: EventPayload,
    pub labels: Labels,
}

impl Event {
    /// A fresh event under its payload's default kind, without labels. Its
    /// identifier is random.
    pub fn new(agent_id: &str, source: &str, payload: EventPayload) -> (ev: Event)
        ensures
            ids::is_v4(ev.id@),
            ev.agent_id@ == agent_id@,
            ev.source@ == source@,
            ev.kind@ == payload.kind_chars(),
            ev.payload == payload,
            ev.labels.wf(),
            ev.labels@ == Map::<Seq<char>, Seq<char>>::empty(),
    {
        Event::with_identity(ids::new_v4(), now_ns(), agent_id, source, payload)
    }

    /// An event with a given identifier and time.
    pub fn with_identity(
        id: [u8; 16],
        ts_ns: u64,
        agent_id: &str,
        source: &str,
        payload: EventPayload,
    ) -> (ev: Event)
        ensures
            ev.id == id,
            ev.ts_ns == ts_ns,
            ev.agent_id@ == agent_id@,
            ev.source@ == source@,
            ev.kind@ == payload.kind_chars(),
            ev.payload == payload,
            ev.labels.wf(),
            ev.labels@ == Map::<Seq<char>, Seq<char>>::empty(),
    {
        let kind: String = payload.default_kind().to_owned();
        Event {
            id,
            ts_ns,
            agent_id: agent_id.to_owned(),
            source: source.to_owned(),
            kind,
            payload,
            labels: Labels::new(),
        }
    }

    /// The same event with one more label.
    pub fn with_label(self, k: &str, v: &str) -> (ev: Event)
        requires
            self.labels.wf(),
        ensures
            ev == (Event { labels: ev.labels, ..self }),
            ev.labels.wf(),
            ev.labels@ == self.labels@.insert(k@, v@),
    {
        let mut labels: Labels = self.labels;
        labels.insert(k, v);
        Event {
            id: self.id,
            ts_ns: self.ts_ns,
            agent_id: self.agent_id,
            source: self.source,
            kind: self.kind,
            payload: self.payload,
            labels,
        }
    }

    /// The same event under another kind.
    pub fn with_kind(self, kind: &str) -> (ev: Event)
        ensures
            ev == (Event { kind: ev.kind, ..self }),
            ev.kind@ == kind@,
    {
        Event {
            id: self.id,
            ts_ns: self.ts_ns,
            agent_id: self.agent_id,
            source: self.source,
            kind: kind.to_owned(),
            payload: self.payload,
            labels: self.labels,
        }
    }
}

/// Every payload is published under the topic that is documented for its variant.
pub proof fn law_payloads_have_their_topics(
    agent_id: &str,
    source: &str,
    payload: EventPayload,
    ev: Event,
)
    requires
        call_ensures(Event::new, (agent_id, source, payload), ev),
    ensures
        payload is ProcessExec ==> ev.kind@ == "process.exec"@,
        payload is SessionStart ==> ev.kind@ == "session.start"@,
        payload is SessionEnd ==> ev.kind@ == "session.end"@,
        payload is Keystroke ==> ev.kind@ == "input.keystroke"@,
        payload is CommandObserved ==> ev.kind@ == "command.observed"@,
        payload is Score ==> ev.kind@ == "score"@,
        payload is Detection ==> ev.kind@ == "detection"@,
        payload is Alert ==> ev.kind@ == "alert"@,
        payload is Heartbeat ==> ev.kind@ == "heartbeat"@,
        payload is Custom ==> ev.kind@ == "custom"@,
        ev.payload == payload,
        ev.agent_id@ == agent_id@,
        ev.source@ == source@,
        ev.labels@.dom().is_empty(),
{
    assert(ev.labels@.dom() =~= Set::empty());
}

/// The default topic of a payload, whoever asks for it.
pub proof fn law_default_topics(payload: &EventPayload, kind: &'static str)
    requires
        call_ensures(EventPayload::default_kind, (payload,), kind),
    ensures
        *payload is ProcessExec ==> kind@ == "process.exec"@,
        *payload is SessionStart ==> kind@ == "session.start"@,
        *payload is SessionEnd ==> kind@ == "session.end"@,
        *payload is Keystroke ==> kind@ == "input.keystroke"@,
        *payload is CommandObserved ==> kind@ == "command.observed"@,
        *payload is Score ==> kind@ == "score"@,
        *payload is Detection ==> kind@ == "detection"@,
        *payload is Alert ==> kind@ == "alert"@,
        *payload is Heartbeat ==> kind@ == "heartbeat"@,
        *payload is Custom ==> kind@ == "custom"@,
{
}

/// Payloads of different variants have different topics, so a subscription to one
/// topic gets one variant.
pub proof fn law_topics_tell_payloads_apart(a: EventPayload, b: EventPayload)
    requires
        a.kind_chars() == b.kind_chars(),
    ensures
        a is ProcessExec <==> b is ProcessExec,
        a is SessionStart <==> b is SessionStart,
        a is SessionEnd <==> b is SessionEnd,
        a is Keystroke <==> b is Keystroke,
        a is CommandObserved <==> b is CommandObserved,
        a is Score <==> b is Score,
        a is Detection <==> b is Detection,
        a is Alert <==> b is Alert,
        a is Heartbeat <==> b is Heartbeat,
        a is Custom <==> b is Custom,
{
    reveal_strlit("process.exec");
    assert("process.exec"@.len() == 12);
    reveal_strlit("session.start");
    assert("session.start"@.len() == 13);
    reveal_strlit("session.end");
    assert("session.end"@.len() == 11);
    reveal_strlit("input.keystroke");
    assert("input.keystroke"@.len() == 15);
    reveal_strlit("command.observed");
    assert("command.observed"@.len() == 16);
    reveal_strlit("score");
    assert("score"@.len() == 5);
    reveal_strlit("detection");
    assert("detection"@.len() == 9);
    reveal_strlit("alert");
    assert("alert"@.len() == 5);
    reveal_strlit("heartbeat");
    assert("heartbeat"@.len() == 9);
    reveal_strlit("custom");
    assert("custom"@.len() == 6);
    assert("score"@[0] == 's' && "alert"@[0] == 'a');
    assert("detection"@[0] == 'd' && "heartbeat"@[0] == 'h');
}

/// Labels and kind can be set without touching anything else of an event.
pub proof fn law_builders_change_one_thing(
    ev: Event,
    name: &str,
    value: &str,
    labelled: Event,
    renamed: Event,
)
    requires
        ev.labels.wf(),
        call_ensures(Event::with_label, (ev, name, value), labelled),
        call_ensures(Event::with_kind, (ev, value), renamed),
    ensures
        labelled.labels@.contains_key(name@),
        labelled.labels@[name@] == value@,
        forall|k: Seq<char>|
            k != name@ ==> (#[trigger] labelled.labels@.contains_key(k) <==> ev.labels@.contains_key(
                k,
            )),
        forall|k: Seq<char>|
            k != name@ && ev.labels@.contains_key(k) ==> #[trigger] labelled.labels@[k]
                == ev.labels@[k],
        labelled.id == ev.id && labelled.ts_ns == ev.ts_ns,
        labelled.agent_id == ev.agent_id && labelled.source == ev.source,
        labelled.kind == ev.kind && labelled.payload == ev.payload,
        renamed.kind@ == value@,
        renamed.id == ev.id && renamed.ts_ns == ev.ts_ns,
        renamed.agent_id == ev.agent_id && renamed.source == ev.source,
        renamed.payload == ev.payload && renamed.labels == ev.labels,
{
}

/// Severities and verdicts go by their lower-case names, no two by one.
pub proof fn law_names_of_severities_and_verdicts(
    severity: &Severity,
    severity_name: String,
    verdict: &Verdict,
    verdict_name: String,
)
    requires
        call_ensures(Severity::name, (severity,), severity_name),
        call_ensures(Verdict::to_string, (verdict,), verdict_name),
    ensures
        *severity == Severity::Info <==> severity_name@ == "info"@,
        *severity == Severity::Low <==> severity_name@ == "low"@,
        *severity == Severity::Medium <==> severity_name@ == "medium"@,
        *severity == Severity::High <==> severity_name@ == "high"@,
        *severity == Severity::Critical <==> severity_name@ == "critical"@,
        *verdict == Verdict::Human <==> verdict_name@ == "human"@,
        *verdict == Verdict::Agent <==> verdict_name@ == "agent"@,
        *verdict == Verdict::Uncertain <==> verdict_name@ == "uncertain"@,
{
    reveal_strlit("info");
    assert("info"@.len() == 4);
    reveal_strlit("low");
    assert("low"@.len() == 3);
    reveal_strlit("medium");
    assert("medium"@.len() == 6);
    reveal_strlit("high");
    assert("high"@.len() == 4);
    reveal_strlit("critical");
    assert("critical"@.len() == 8);
    reveal_strlit("human");
    assert("human"@.len() == 5);
    reveal_strlit("agent");
    assert("agent"@.len() == 5);
    reveal_strlit("uncertain");
    assert("uncertain"@.len() == 9);
    assert("info"@[0] == 'i' && "high"@[0] == 'h');
    assert("human"@[0] == 'h' && "agent"@[0] == 'a');
}

/// A clock reading that fits sixty-four bits is the timestamp; a clock before the epoch
/// reads zero.
pub proof fn law_timestamp_is_the_reading(nanos: u128, ts_ns: u64, before_epoch: u64)
    requires
        nanos <= u64::MAX,
        call_ensures(timestamp_ns, (Some(nanos),), ts_ns),
        call_ensures(timestamp_ns, (None::<u128>,), before_epoch),
    ensures
        ts_ns == nanos,
        before_epoch == 0,
{
}

/// Nanoseconds since the Unix epoch, if the clock is past it.
///
/// Calls `SystemTime::elapsed` of std on the epoch. Nothing is stated of the time
/// that it reads.
#[verifier::external_body]
fn epoch_nanos() -> (out: Option<u128>) {
    std::time::UNIX_EPOCH.elapsed().ok().map(|d| d.as_nanos())
}

/// A clock reading as a timestamp: its low sixty-four bits, or zero for a clock
/// before the epoch.
pub fn timestamp_ns(nanos: Option<u128>) -> (ts_ns: u64)
    ensures
        match nanos {
            Some(n) => ts_ns == n % 0x1_0000_0000_0000_0000,
            None => ts_ns == 0,
        },
{
    match nanos {
        Some(n) => {
            assert((n as u64) as u128 == n % 0x1_0000_0000_0000_0000u128) by (bit_vector);
            #[verifier::truncate]
            (n as u64)
        },
        None => 0,
    }
}

/// The current time in nanoseconds since the Unix epoch.
pub fn now_ns() -> (ts_ns: u64) {
    timestamp_ns(epoch_nanos())
}

/// A label that was set is read back, in place of what stood under its name; others stay.
pub proof fn law_label_is_read_back(
    labels: &mut Labels,
    key: &str,
    value: &str,
    before: &Labels,
    after: &Labels,
    read: Option<String>,
    other: &str,
    other_before: Option<String>,
    other_after: Option<String>,
)
    requires
        old(labels).wf(),
        *before == *old(labels),
        call_ensures(Labels::insert, (labels, key, value), ()),
        *after == *final(labels),
        call_ensures(Labels::get, (after, key), read),
        other@ != key@,
        call_ensures(Labels::get, (before, other), other_before),
        call_ensures(Labels::get, (after, other), other_after),
    ensures
        read matches Some(v) && v@ == value@,
        other_after is Some <==> other_before is Some,
        other_before is Some ==> other_after.unwrap()@ == other_before.unwrap()@,
{
}

/// An event with a given identity has it, and what it is given besides, each in its own
/// place.
pub proof fn law_event_is_what_it_is_made_of(
    id: [u8; 16],
    ts_ns: u64,
    agent_id: &str,
    source: &str,
    payload: EventPayload,
    ev: Event,
    label: &str,
    read: Option<String>,
)
    requires
        call_ensures(Event::with_identity, (id, ts_ns, agent_id, source, payload), ev),
        call_ensures(Labels::get, (&ev.labels, label), read),
    ensures
        ev.id == id,
        ev.ts_ns == ts_ns,
        ev.agent_id@ == agent_id@,
        ev.source@ == source@,
        ev.payload == payload,
        read is None,
{
}

/// A new list of labels is empty, and its entries are its labels.
pub proof fn law_label_entries(
    empty: Labels,
    n: usize,
    labels: &Labels,
    i: usize,
    entry: (String, String),
    read: Option<String>,
    name: &str,
)
    requires
        call_ensures(Labels::new, (), empty),
        call_ensures(Labels::len, (&empty,), n),
        labels.wf(),
        i < labels.pairs().len(),
        call_ensures(Labels::entry, (labels, i), entry),
        name@ == entry.0@,
        call_ensures(Labels::get, (labels, name), read),
    ensures
        n == 0,
        read matches Some(value) && value@ == entry.1@,
{
    empty.law_pairs_are_the_labels();
    labels.law_pairs_are_the_labels();
    if empty.pairs().len() > 0 {
        assert(empty@.contains_key(empty.pairs()[0].0));
    }
    assert(labels@.contains_key(labels.pairs()[i as int].0));
}

} // verus!
