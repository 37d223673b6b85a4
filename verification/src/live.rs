//! Events of the live feed.
use crate::rows;
use vstd::prelude::*;

verus! {

/// One event on the live feed, published after each durable write.
#[derive(Debug, Clone)]
pub enum LiveEvent {
    /// A risk score was (re)computed for a subject.
    Score { agent_id: String, subject: String, score_bits: u64, ts_ns: u64 },
    /// A human-vs-agent detection landed for a subject.
    Detection {
        agent_id: String,
        subject: String,
        verdict: String,
        confidence_bits: u64,
        ts_ns: u64,
    },
    /// An alert was raised.
    Alert {
        agent_id: String,
        severity: String,
        title: String,
        subject: Option<String>,
        ts_ns: u64,
    },
    /// An agent was seen (heartbeat); `hostname` is present if the agent is
    /// enrolled.
    AgentSeen { agent_id: String, hostname: Option<String>, ts_ns: u64 },
}

/// [`LiveEvent`] as a value.
#[verifier::ext_equal]
pub enum LiveView {
    Score { agent_id: Seq<char>, subject: Seq<char>, score_bits: u64, ts_ns: u64 },
    Detection {
        agent_id: Seq<char>,
        subject: Seq<char>,
        verdict: Seq<char>,
        confidence_bits: u64,
        ts_ns: u64,
    },
    Alert {
        agent_id: Seq<char>,
        severity: Seq<char>,
        title: Seq<char>,
        subject: Option<Seq<char>>,
        ts_ns: u64,
    },
    AgentSeen { agent_id: Seq<char>, hostname: Option<Seq<char>>, ts_ns: u64 },
}

impl View for LiveEvent {
    type V = LiveView;

    open spec fn view(&self) -> LiveView {
        match *self {
            LiveEvent::Score { agent_id, subject, score_bits, ts_ns } => LiveView::Score {
                agent_id: agent_id@,
                subject: subject@,
                score_bits,
                ts_ns,
            },
            LiveEvent::Detection { agent_id, subject, verdict, confidence_bits, ts_ns } =>
                LiveView::Detection {
                agent_id: agent_id@,
                subject: subject@,
                verdict: verdict@,
                confidence_bits,
                ts_ns,
            },
            LiveEvent::Alert { agent_id, severity, title, subject, ts_ns } => LiveView::Alert {
                agent_id: agent_id@,
                severity: severity@,
                title: title@,
                subject: rows::opt_chars(subject),
                ts_ns,
            },
            LiveEvent::AgentSeen { agent_id, hostname, ts_ns } => LiveView::AgentSeen {
                agent_id: agent_id@,
                hostname: rows::opt_chars(hostname),
                ts_ns,
            },
        }
    }
}

impl LiveEvent {
    /// The event name that listeners of the feed attach to.
    pub fn name(&self) -> (name: &'static str)
        ensures
            name@ == (match self@ {
                LiveView::Score { .. } => "score"@,
                LiveView::Detection { .. } => "detection"@,
                LiveView::Alert { .. } => "alert"@,
                LiveView::AgentSeen { .. } => "agent_seen"@,
            }),
    {
        match self {
            LiveEvent::Score { .. } => "score",
            LiveEvent::Detection { .. } => "detection",
            LiveEvent::Alert { .. } => "alert",
            LiveEvent::AgentSeen { .. } => "agent_seen",
        }
    }
}

/// Each event of the feed goes under its own name.
pub proof fn law_live_events_have_their_names(event: &LiveEvent, name: &'static str)
    requires
        call_ensures(LiveEvent::name, (event,), name),
    ensures
        *event is Score ==> name@ == "score"@,
        *event is Detection ==> name@ == "detection"@,
        *event is Alert ==> name@ == "alert"@,
        *event is AgentSeen ==> name@ == "agent_seen"@,
{
}

} // verus!
