//! The event bus: routing by subscription, delivery policy and drop counters.
//!
//! Telemetry is best-effort: where a bounded queue is full it is dropped and
//! counted, so memory stays bounded. Findings (detections, scores and alerts) are
//! never dropped on a full queue: their publisher waits.
use crate::event::Event;
use crate::plugin::Subscriptions;
use crate::text;
use vstd::prelude::*;

verus! {

/// How an event is put on a bounded queue.
#[derive(Debug, Clone, Copy, PartialEq, Eq, Structural)]
pub enum Delivery {
    /// Wait for room.
    Wait,
    /// Drop where there is no room.
    Try,
}

/// The kinds that are never dropped on a full queue.
pub open spec fn critical_kinds() -> Seq<Seq<char>> {
    seq!["detection"@, "score"@, "alert"@]
}

/// The delivery policy of a kind.
pub fn delivery(kind: &str) -> (d: Delivery)
    ensures
        d == (if critical_kinds().contains(kind@) {
            Delivery::Wait
        } else {
            Delivery::Try
        }),
{
    let critical: bool = text::same(kind, "detection") || text::same(kind, "score") || text::same(
        kind,
        "alert",
    );
    proof {
        let list = critical_kinds();
        assert(list[0] == "detection"@);
        assert(list[1] == "score"@);
        assert(list[2] == "alert"@);
    }
    if critical {
        Delivery::Wait
    } else {
        Delivery::Try
    }
}

/// What became of putting an event on a queue without waiting.
#[derive(Debug, Clone, Copy, PartialEq, Eq, Structural)]
pub enum TrySend {
    Queued,
    /// The queue was full; the event is dropped.
    Full,
    /// The receiver is gone; the event is dropped.
    Closed,
}

/// Events dropped on full queues since the bus started.
#[derive(Debug, Clone, Copy)]
pub struct BusMetrics {
    ingress_dropped: u64,
    fanout_dropped: u64,
}

impl BusMetrics {
    pub closed spec fn ingress(self) -> nat {
        self.ingress_dropped as nat
    }

    pub closed spec fn fanout(self) -> nat {
        self.fanout_dropped as nat
    }

    /// Nothing dropped yet.
    pub fn new() -> (m: BusMetrics)
        ensures
            m.ingress() == 0,
            m.fanout() == 0,
    {
        BusMetrics { ingress_dropped: 0, fanout_dropped: 0 }
    }

    /// Events dropped on the way in.
    pub fn ingress_dropped(&self) -> (n: u64)
        ensures
            n == self.ingress(),
    {
        self.ingress_dropped
    }

    /// Events dropped on the way out to a plugin.
    pub fn fanout_dropped(&self) -> (n: u64)
        ensures
            n == self.fanout(),
    {
        self.fanout_dropped
    }

    /// Counts an attempt on the ingress queue.
    pub fn record_ingress(&mut self, outcome: TrySend)
        ensures
            final(self).fanout() == old(self).fanout(),
            final(self).ingress() == (if outcome is Full && old(self).ingress() < u64::MAX {
                old(self).ingress() + 1
            } else {
                old(self).ingress()
            }),
    {
        if let TrySend::Full = outcome {
            self.ingress_dropped = self.ingress_dropped.saturating_add(1);
        }
    }

    /// Counts an attempt on a plugin's queue.
    pub fn record_fanout(&mut self, outcome: TrySend)
        ensures
            final(self).ingress() == old(self).ingress(),
            final(self).fanout() == (if outcome is Full && old(self).fanout() < u64::MAX {
                old(self).fanout() + 1
            } else {
                old(self).fanout()
            }),
    {
        if let TrySend::Full = outcome {
            self.fanout_dropped = self.fanout_dropped.saturating_add(1);
        }
    }
}

/// The places of the routes that want a kind, in order.
pub open spec fn targets(routes: Seq<Subscriptions>, kind: Seq<char>) -> Seq<int>
    decreases routes.len(),
{
    if routes.len() == 0 {
        Seq::empty()
    } else if routes.last().wants(kind) {
        targets(routes.drop_last(), kind).push(routes.len() - 1)
    } else {
        targets(routes.drop_last(), kind)
    }
}

/// The routes that an event of this kind fans out to, by place, in order.
pub fn fan_out(routes: &Vec<Subscriptions>, kind: &str) -> (out: Vec<usize>)
    ensures
        out@.map_values(|p: usize| p as int) == targets(routes@, kind@),
{
    let mut out: Vec<usize> = Vec::new();
    let mut i: usize = 0;
    assert(routes@.take(0) =~= Seq::empty());
    while i < routes.len()
        invariant
            i <= routes@.len(),
            out@.map_values(|p: usize| p as int) == targets(routes@.take(i as int), kind@),
        decreases routes@.len() - i,
    {
        let ghost before = out@;
        assert(routes@.take(i + 1).drop_last() =~= routes@.take(i as int));
        assert(routes@.take(i + 1).last() == routes@[i as int]);
        if routes[i].matches(kind) {
            out.push(i);
            assert(out@.map_values(|p: usize| p as int) =~= before.map_values(
                |p: usize| p as int,
            ).push(i as int));
        }
        i = i + 1;
    }
    assert(routes@.take(routes@.len() as int) =~= routes@);
    out
}

/// An event reaches a route exactly if the route's subscription wants its kind.
pub proof fn law_routing_follows_subscriptions(
    routes: Seq<Subscriptions>,
    kind: Seq<char>,
    place: int,
)
    ensures
        targets(routes, kind).contains(place) <==> 0 <= place < routes.len()
            && routes[place].wants(kind),
    decreases routes.len(),
{
    if routes.len() > 0 {
        let rest = routes.drop_last();
        law_routing_follows_subscriptions(rest, kind, place);
        let n = routes.len() - 1;
        if routes.last().wants(kind) {
            let all = targets(rest, kind).push(n);
            assert(all[all.len() - 1] == n);
            if targets(rest, kind).contains(place) {
                let p = choose|p: int|
                    0 <= p < targets(rest, kind).len() && targets(rest, kind)[p] == place;
                assert(all[p] == place);
            }
            if all.contains(place) && place != n {
                let p = choose|p: int| 0 <= p < all.len() && all[p] == place;
                assert(targets(rest, kind)[p] == place);
            }
        }
    }
}

/// An event reaches each route at most once, in the order of the routes.
pub proof fn law_route_is_reached_once(routes: Seq<Subscriptions>, kind: Seq<char>)
    ensures
        forall|i: int, j: int|
            0 <= i < j < targets(routes, kind).len() ==> #[trigger] targets(routes, kind)[i]
                < #[trigger] targets(routes, kind)[j],
        targets(routes, kind).no_duplicates(),
    decreases routes.len(),
{
    if routes.len() > 0 {
        let rest = routes.drop_last();
        law_route_is_reached_once(rest, kind);
        assert forall|i: int| 0 <= i < targets(rest, kind).len() implies #[trigger] targets(
            rest,
            kind,
        )[i] < routes.len() - 1 by {
            assert(targets(rest, kind).contains(targets(rest, kind)[i]));
            law_routing_follows_subscriptions(rest, kind, targets(rest, kind)[i]);
        }
    }
}

/// Stamps an event that a plugin emits: its source is the plugin's name and its
/// agent is this host's identity, whatever the plugin wrote there.
pub fn stamp(event: Event, plugin_name: &str, agent_id: &str) -> (out: Event)
    ensures
        out.source@ == plugin_name@,
        out.agent_id@ == agent_id@,
        out == (Event { source: out.source, agent_id: out.agent_id, ..event }),
{
    Event {
        id: event.id,
        ts_ns: event.ts_ns,
        agent_id: agent_id.to_owned(),
        source: plugin_name.to_owned(),
        kind: event.kind,
        payload: event.payload,
        labels: event.labels,
    }
}

} // verus!
