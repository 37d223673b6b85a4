//! The table of connected agents, for command delivery.
//!
//! Each session registers its command channel under its agent. A channel is known
//! by a number that its owner never gives twice.
use crate::text;
use vstd::prelude::*;

verus! {

/// Why a command could not be delivered to an agent.
#[derive(Debug, Clone, Copy, PartialEq, Eq, Structural)]
pub enum RouterError {
    /// No live session is registered for this agent.
    NotConnected,
    /// A session exists but its command queue is full.
    ChannelFull,
}

impl RouterError {
    pub open spec fn says(self) -> Seq<char> {
        match self {
            RouterError::NotConnected => "agent is not connected"@,
            RouterError::ChannelFull => "agent command channel is full"@,
        }
    }

    pub fn to_string(&self) -> (out: String)
        ensures
            out@ == self.says(),
    {
        match self {
            RouterError::NotConnected => "agent is not connected".to_owned(),
            RouterError::ChannelFull => "agent command channel is full".to_owned(),
        }
    }
}

/// What became of putting a command on a session's queue without waiting.
#[derive(Debug, Clone, Copy, PartialEq, Eq, Structural)]
pub enum Enqueue {
    Queued,
    Full,
    /// The session ended in the meantime.
    Closed,
}

/// Whether an agent's session has this channel.
pub open spec fn is_session(
    table: Map<Seq<char>, u64>,
    agent_id: Seq<char>,
    channel: u64,
) -> bool {
    table.contains_key(agent_id) && table[agent_id] == channel
}

/// The table after a session ended: without it, unless another replaced it.
pub open spec fn without_session(
    table: Map<Seq<char>, u64>,
    agent_id: Seq<char>,
    channel: u64,
) -> Map<Seq<char>, u64> {
    if is_session(table, agent_id, channel) {
        table.remove(agent_id)
    } else {
        table
    }
}

/// Live agents and their channels.
pub struct Router {
    entries: Vec<(String, u64)>,
}

impl View for Router {
    type V = Map<Seq<char>, u64>;

    closed spec fn view(&self) -> Map<Seq<char>, u64> {
        Map::new(
            |k: Seq<char>| exists|i: int| 0 <= i < self.entries@.len() && (#[trigger] self.entries@[i]).0@ == k,
            |k: Seq<char>| self.entries@[self.place(k)].1,
        )
    }
}

impl Router {
    closed spec fn place(self, k: Seq<char>) -> int {
        choose|i: int| 0 <= i < self.entries@.len() && (#[trigger] self.entries@[i]).0@ == k
    }

    /// No agent stands twice.
    pub closed spec fn wf(self) -> bool {
        forall|i: int, j: int|
            0 <= i < j < self.entries@.len() ==> (#[trigger] self.entries@[i]).0@ != (
            #[trigger] self.entries@[j]).0@
    }

    proof fn lemma_entry(self, i: int)
        requires
            self.wf(),
            0 <= i < self.entries@.len(),
        ensures
            self@.contains_key(self.entries@[i].0@),
            self@[self.entries@[i].0@] == self.entries@[i].1,
    {
        let k = self.entries@[i].0@;
        let p = self.place(k);
        assert(self.entries@[p].0@ == k);
        if p < i {
            assert(self.entries@[p].0@ != self.entries@[i].0@);
        } else if i < p {
            assert(self.entries@[i].0@ != self.entries@[p].0@);
        }
    }

    /// An empty router.
    pub fn new() -> (r: Router)
        ensures
            r.wf(),
            r@ == Map::<Seq<char>, u64>::empty(),
    {
        let r: Router = Router { entries: Vec::new() };
        assert(r@ =~= Map::<Seq<char>, u64>::empty());
        r
    }

    fn position(&self, agent_id: &str) -> (at: Option<usize>)
        requires
            self.wf(),
        ensures
            match at {
                Some(i) => i < self.entries@.len() && self.entries@[i as int].0@ == agent_id@
                    && self@.contains_key(agent_id@) && self@[agent_id@]
                    == self.entries@[i as int].1,
                None => !self@.contains_key(agent_id@),
            },
    {
        let mut i: usize = 0;
        while i < self.entries.len()
            invariant
                self.wf(),
                i <= self.entries@.len(),
                forall|j: int| 0 <= j < i ==> (#[trigger] self.entries@[j]).0@ != agent_id@,
            decreases self.entries@.len() - i,
        {
            if text::same(self.entries[i].0.as_str(), agent_id) {
                proof {
                    self.lemma_entry(i as int);
                }
                return Some(i);
            }
            i = i + 1;
        }
        None
    }

    /// The channel of a connected agent.
    pub fn channel(&self, agent_id: &str) -> (out: Option<u64>)
        requires
            self.wf(),
        ensures
            match out {
                Some(channel) => self@.contains_key(agent_id@) && self@[agent_id@] == channel,
                None => !self@.contains_key(agent_id@),
            },
    {
        match self.position(agent_id) {
            Some(i) => Some(self.entries[i].1),
            None => None,
        }
    }

    /// Register (or replace) the channel of a connected agent: the last one to
    /// register is the one that receives commands.
    pub fn register(&mut self, agent_id: &str, channel: u64)
        requires
            old(self).wf(),
        ensures
            final(self).wf(),
            final(self)@ == old(self)@.insert(agent_id@, channel),
    {
        let ghost before = *self;
        match self.position(agent_id) {
            Some(i) => {
                let name: String = agent_id.to_owned();
                self.entries.set(i, (name, channel));
                proof {
                    let after = *self;
                    assert(after.wf());
                    assert forall|k: Seq<char>| #[trigger] after@.contains_key(k) == before@.insert(
                        agent_id@,
                        channel,
                    ).contains_key(k) by {
                        if before@.contains_key(k) {
                            let p = before.place(k);
                            assert(after.entries@[p].0@ == k);
                        }
                        if after@.contains_key(k) {
                            let p = after.place(k);
                            assert(before.entries@[p].0@ == k);
                        }
                    }
                    assert forall|k: Seq<char>| after@.contains_key(k) implies #[trigger] after@[k]
                        == before@.insert(agent_id@, channel)[k] by {
                        let p = after.place(k);
                        after.lemma_entry(p);
                        before.lemma_entry(p);
                        after.lemma_entry(i as int);
                        if k != agent_id@ {
                            assert(p != i);
                        }
                    }
                    assert(after@ =~= before@.insert(agent_id@, channel));
                }
            },
            None => {
                let name: String = agent_id.to_owned();
                self.entries.push((name, channel));
                proof {
                    let after = *self;
                    let n = before.entries@.len() as int;
                    assert forall|i: int, j: int|
                        0 <= i < j < after.entries@.len() implies (#[trigger] after.entries@[i]).0@
                        != (#[trigger] after.entries@[j]).0@ by {
                        if j == n {
                            assert(after.entries@[i] == before.entries@[i]);
                            before.lemma_entry(i);
                        }
                    }
                    assert(after.wf());
                    assert forall|k: Seq<char>| #[trigger] after@.contains_key(k) == before@.insert(
                        agent_id@,
                        channel,
                    ).contains_key(k) by {
                        if before@.contains_key(k) {
                            let p = before.place(k);
                            assert(after.entries@[p].0@ == k);
                        }
                        if after@.contains_key(k) && k != agent_id@ {
                            let p = after.place(k);
                            assert(p != n);
                            assert(before.entries@[p].0@ == k);
                        }
                        assert(after.entries@[n].0@ == agent_id@);
                    }
                    assert forall|k: Seq<char>| after@.contains_key(k) implies #[trigger] after@[k]
                        == before@.insert(agent_id@, channel)[k] by {
                        let p = after.place(k);
                        after.lemma_entry(p);
                        after.lemma_entry(n);
                        if k != agent_id@ {
                            assert(p != n);
                            before.lemma_entry(p);
                        }
                    }
                    assert(after@ =~= before@.insert(agent_id@, channel));
                }
            },
        }
    }

    /// Remove an agent's session on disconnect, unless a newer session has
    /// replaced its channel. Says whether it was removed.
    pub fn unregister(&mut self, agent_id: &str, channel: u64) -> (removed: bool)
        requires
            old(self).wf(),
        ensures
            final(self).wf(),
            removed == is_session(old(self)@, agent_id@, channel),
            final(self)@ == without_session(old(self)@, agent_id@, channel),
    {
        let ghost before = *self;
        match self.position(agent_id) {
            Some(i) => {
                if self.entries[i].1 != channel {
                    return false;
                }
                self.entries.remove(i);
                proof {
                    let after = *self;
                    assert forall|a: int, b: int|
                        0 <= a < b < after.entries@.len() implies (#[trigger] after.entries@[a]).0@
                        != (#[trigger] after.entries@[b]).0@ by {
                        let pa = if a < i {
                            a
                        } else {
                            a + 1
                        };
                        let pb = if b < i {
                            b
                        } else {
                            b + 1
                        };
                        assert(after.entries@[a] == before.entries@[pa]);
                        assert(after.entries@[b] == before.entries@[pb]);
                    }
                    assert(after.wf());
                    assert forall|k: Seq<char>| #[trigger] after@.contains_key(k) == before@.remove(
                        agent_id@,
                    ).contains_key(k) by {
                        if after@.contains_key(k) {
                            let p = after.place(k);
                            let q = if p < i {
                                p
                            } else {
                                p + 1
                            };
                            assert(before.entries@[q].0@ == k);
                            if q < i {
                                assert(before.entries@[q].0@ != before.entries@[i as int].0@);
                            } else {
                                assert(before.entries@[i as int].0@ != before.entries@[q].0@);
                            }
                        }
                        if before@.contains_key(k) && k != agent_id@ {
                            let q = before.place(k);
                            let p = if q < i {
                                q
                            } else {
                                q - 1
                            };
                            assert(after.entries@[p].0@ == k);
                        }
                    }
                    assert forall|k: Seq<char>| after@.contains_key(k) implies #[trigger] after@[k]
                        == before@.remove(agent_id@)[k] by {
                        let p = after.place(k);
                        let q = if p < i {
                            p
                        } else {
                            p + 1
                        };
                        assert(after.entries@[p] == before.entries@[q]);
                        after.lemma_entry(p);
                        before.lemma_entry(q);
                    }
                    assert(after@ =~= before@.remove(agent_id@));
                }
                true
            },
            None => false,
        }
    }

    /// Whether a live session is registered for this agent.
    pub fn is_connected(&self, agent_id: &str) -> (yes: bool)
        requires
            self.wf(),
        ensures
            yes == self@.contains_key(agent_id@),
    {
        self.position(agent_id).is_some()
    }

    /// Number of currently connected agents.
    pub fn connected_count(&self) -> (n: usize)
        requires
            self.wf(),
        ensures
            self@.dom().finite(),
            n == self@.dom().len(),
    {
        proof {
            let agents = Seq::new(self.entries@.len(), |i: int| self.entries@[i].0@);
            assert(agents.to_set() =~= self@.dom()) by {
                assert forall|k: Seq<char>| #[trigger] agents.to_set().contains(k)
                    == self@.dom().contains(k) by {
                    if agents.contains(k) {
                        let p = choose|p: int| 0 <= p < agents.len() && agents[p] == k;
                        assert(self.entries@[p].0@ == k);
                    }
                    if self@.contains_key(k) {
                        let p = self.place(k);
                        assert(agents[p] == k);
                    }
                }
            }
            assert(agents.no_duplicates());
            agents.unique_seq_to_set();
        }
        self.entries.len()
    }
}

/// The outcome of a send: `found` says whether the agent had a channel, `queued`
/// what came of putting the command on it.
pub fn send_outcome(found: bool, queued: Enqueue) -> (res: Result<(), RouterError>)
    ensures
        res == (if !found {
            Err::<(), RouterError>(RouterError::NotConnected)
        } else {
            match queued {
                Enqueue::Queued => Ok(()),
                Enqueue::Full => Err(RouterError::ChannelFull),
                Enqueue::Closed => Err(RouterError::NotConnected),
            }
        }),
{
    if !found {
        return Err(RouterError::NotConnected);
    }
    match queued {
        Enqueue::Queued => Ok(()),
        Enqueue::Full => Err(RouterError::ChannelFull),
        Enqueue::Closed => Err(RouterError::NotConnected),
    }
}

/// A session that was replaced cannot take its successor down: where another
/// channel registered last, the end of the old session changes nothing.
pub proof fn law_stale_session_cannot_unregister(
    table: Map<Seq<char>, u64>,
    agent_id: Seq<char>,
    old_channel: u64,
    new_channel: u64,
)
    requires
        old_channel != new_channel,
    ensures
        ({
            let now = table.insert(agent_id, old_channel).insert(agent_id, new_channel);
            without_session(now, agent_id, old_channel) == now
        }),
{
}

/// A session that ends takes its own registration with it and touches no other.
pub proof fn law_session_ends_alone(
    table: Map<Seq<char>, u64>,
    agent_id: Seq<char>,
    channel: u64,
    other: Seq<char>,
)
    requires
        other != agent_id,
    ensures
        ({
            let after = without_session(table.insert(agent_id, channel), agent_id, channel);
            &&& !after.contains_key(agent_id)
            &&& after.contains_key(other) == table.contains_key(other)
            &&& table.contains_key(other) ==> after[other] == table[other]
        }),
{
}

} // verus!
