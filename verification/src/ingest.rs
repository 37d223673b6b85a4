//! The server's side of an agent connection: enrollment, authentication and the
//! online session.
//!
//! A connection is driven by its frames. The first one either enrolls an agent,
//! or opens a session, which then has to answer a challenge. Only an answered
//! challenge makes a [`Session`], and only a session takes events. The caller
//! performs the reads, the writes and the emits that are asked for here.
use crate::dedup::DedupWindow;
use crate::enroll::EnrollOutcome;
use crate::event::{now_ns, Event};
use crate::pin::PIN_LEN;
use crate::proto::{Message, ServerCommand, PROTO_VERSION};
use crate::rows::AgentRow;
use crate::store::{Store, StoreError, StoreView};
use crate::{bytes, crypto, dedup, encoding, enroll, ids, keys, pin, rows, sink, store, text};
use vstd::prelude::*;
use vstd::utf8;

verus! {

/// Most connections that are served at once; one more is dropped.
pub const MAX_CONNECTIONS: usize = 1024;

/// How long, in seconds, a new connection has to send its first frame.
pub const FIRST_FRAME_TIMEOUT_SECS: u64 = 30;

/// Capacity of a session's command queue.
pub const COMMAND_QUEUE_DEPTH: usize = 64;

/// Whether one more connection is served while `active` are.
pub fn admits_connection(active: usize) -> (yes: bool)
    ensures
        yes == (active < MAX_CONNECTIONS),
{
    active < MAX_CONNECTIONS
}

/// Raw telemetry kinds that an agent is allowed to push. Derived kinds are made
/// by the server alone, so an agent cannot forge findings.
pub open spec fn ingestible_kinds() -> Seq<Seq<char>> {
    seq![
        "input.keystroke"@,
        "command.observed"@,
        "session.start"@,
        "session.end"@,
        "process.exec"@,
        "heartbeat"@,
    ]
}

/// Whether `kind` is an ingestible raw-telemetry kind.
pub fn is_ingestible(kind: &str) -> (yes: bool)
    ensures
        yes == ingestible_kinds().contains(kind@),
{
    let yes: bool = text::same(kind, "input.keystroke") || text::same(kind, "command.observed")
        || text::same(kind, "session.start") || text::same(kind, "session.end") || text::same(
        kind,
        "process.exec",
    ) || text::same(kind, "heartbeat");
    proof {
        let list = ingestible_kinds();
        assert(list[0] == "input.keystroke"@);
        assert(list[1] == "command.observed"@);
        assert(list[2] == "session.start"@);
        assert(list[3] == "session.end"@);
        assert(list[4] == "process.exec"@);
        assert(list[5] == "heartbeat"@);
    }
    yes
}

/// Coerce wire bytes into a fixed 32-byte key, or `None` if the length is wrong.
pub fn coerce_pubkey(bytes: &[u8]) -> (out: Option<[u8; 32]>)
    ensures
        match out {
            Some(key) => key@ == bytes@,
            None => bytes@.len() != 32,
        },
{
    pin::array32(bytes)
}

/// Whether a message is a `ServerHello` at the current version.
pub open spec fn is_hello(msg: Message, accepted: bool, reason: Option<Seq<char>>) -> bool {
    msg matches Message::ServerHello { proto_version: v, accepted: a, reason: r } && v
        == PROTO_VERSION && a == accepted && rows::opt_chars(r) == reason
}

/// Build a `ServerHello` with the current protocol version.
pub fn server_hello(accepted: bool, reason: Option<String>) -> (msg: Message)
    ensures
        is_hello(msg, accepted, rows::opt_chars(reason)),
{
    Message::ServerHello { proto_version: PROTO_VERSION, accepted, reason }
}

fn refuse(reason: &str) -> (msg: Message)
    ensures
        is_hello(msg, false, Some(reason@)),
{
    server_hello(false, Some(reason.to_owned()))
}

/// A session that was asked for and has yet to prove its identity.
#[derive(Debug)]
pub struct Pending {
    agent_id: String,
    pubkey: [u8; 32],
    challenge_id: [u8; 16],
}

impl Pending {
    pub closed spec fn agent(self) -> Seq<char> {
        self.agent_id@
    }

    pub closed spec fn key(self) -> Seq<u8> {
        self.pubkey@
    }

    pub closed spec fn challenge(self) -> Seq<u8> {
        self.challenge_id@
    }

    /// The challenge to send: a no-op command under the challenge identifier.
    pub fn challenge_message(&self) -> (msg: Message)
        ensures
            msg matches Message::Command { id, command } && id@ == self.challenge() && command
                == ServerCommand::Noop,
    {
        Message::Command { id: self.challenge_id, command: ServerCommand::Noop }
    }
}

/// What to do after the first frame.
#[derive(Debug)]
pub enum FirstStep {
    /// Send this and close.
    Reply(Message),
    /// Send the challenge and wait for its answer.
    Challenge(Pending),
    /// Close: the frame has no place here.
    Close,
}

/// The response to an enrollment: accepted or not, the identifier, the reason.
pub open spec fn enroll_reply(res: Result<EnrollOutcome, StoreError>) -> (
    bool,
    Seq<char>,
    Option<Seq<char>>,
) {
    match res {
        Ok(EnrollOutcome::Accepted { agent_id }) => (true, agent_id@, None),
        Ok(EnrollOutcome::Rejected { reason }) => (false, Seq::empty(), Some(reason@)),
        Err(_) => (false, Seq::empty(), Some("internal error"@)),
    }
}

/// Whether a step answers an enrollment with this reply.
pub open spec fn replies(step: FirstStep, reply: (bool, Seq<char>, Option<Seq<char>>)) -> bool {
    step matches FirstStep::Reply(Message::EnrollResponse { accepted, agent_id, reason })
        && accepted == reply.0 && agent_id@ == reply.1 && rows::opt_chars(reason) == reply.2
}

/// Whether a step refuses a session for this reason.
pub open spec fn refuses(step: FirstStep, reason: Seq<char>) -> bool {
    step matches FirstStep::Reply(msg) && is_hello(msg, false, Some(reason))
}

/// Whether a step challenges an agent to prove that it holds a key.
pub open spec fn challenges(
    step: FirstStep,
    agent_id: Seq<char>,
    pubkey: Seq<u8>,
    challenge_id: Seq<u8>,
) -> bool {
    step matches FirstStep::Challenge(p) && p.agent() == agent_id && p.key() == pubkey
        && p.challenge() == challenge_id
}

/// What a request to open a session comes to: it is refused unless it speaks the
/// current version, is from an enrolled agent, and presents the key that the
/// agent enrolled with. Only then is it challenged.
pub open spec fn hello_step(
    s: StoreView,
    proto_version: u16,
    agent_id: Seq<char>,
    pubkey: Seq<u8>,
    challenge_id: Seq<u8>,
    step: FirstStep,
) -> bool {
    if proto_version != PROTO_VERSION {
        refuses(step, "unsupported proto_version "@ + text::decimal(proto_version as nat))
    } else {
        // The lookup may fail, whatever the store holds.
        refuses(step, "internal error"@) || if !s.agents.contains_key(agent_id) {
            refuses(step, "unknown agent"@)
        } else {
            match s.agents[agent_id] {
                None => false,
                Some(row) => if pubkey != row.pubkey {
                    refuses(step, "pubkey mismatch"@)
                } else {
                    challenges(step, agent_id, row.pubkey, challenge_id)
                },
            }
        }
    }
}

/// What a first frame comes to, at a given time, for a given identifier to assign
/// and a given challenge.
pub open spec fn first_step(
    before: StoreView,
    first: Message,
    now: u64,
    id: Seq<u8>,
    challenge_id: Seq<u8>,
    step: FirstStep,
    after: StoreView,
) -> bool {
    match first {
        Message::EnrollRequest { token, hostname, os, agent_pubkey } => {
            if agent_pubkey@.len() != 32 {
                after == before && replies(
                    step,
                    (false, Seq::empty(), Some("agent_pubkey must be 32 bytes"@)),
                )
            } else {
                exists|res: Result<EnrollOutcome, StoreError>|
                    #[trigger] enroll::enrollment(
                        before,
                        token@,
                        hostname@,
                        os@,
                        agent_pubkey@,
                        now,
                        id,
                        res,
                        after,
                    ) && replies(step, enroll_reply(res))
            }
        },
        Message::ClientHello { proto_version, agent_id, agent_pubkey, .. } => {
            after == before && hello_step(
                before,
                proto_version,
                agent_id@,
                agent_pubkey@,
                challenge_id,
                step,
            )
        },
        _ => after == before && step is Close,
    }
}

/// Handles the first frame of a connection.
pub fn on_first_frame(store: &mut Store, first: &Message) -> (step: FirstStep)
    requires
        old(store).wf(),
    ensures
        final(store).wf(),
        exists|now: u64, id: Seq<u8>, challenge_id: Seq<u8>|
            ids::is_v4(id) && ids::is_v4(challenge_id) && #[trigger] first_step(
                old(store)@,
                *first,
                now,
                id,
                challenge_id,
                step,
                final(store)@,
            ),
{
    let now: u64 = now_ns();
    let id: [u8; 16] = ids::new_v4();
    let challenge_id: [u8; 16] = enroll::make_challenge();
    let step: FirstStep = on_first_frame_with(store, first, now, &id, &challenge_id);
    assert(ids::is_v4(id@) && ids::is_v4(challenge_id@));
    step
}

/// The answer to an enrollment, given what it came to.
pub fn enroll_response(res: Result<EnrollOutcome, StoreError>) -> (step: FirstStep)
    ensures
        replies(step, enroll_reply(res)),
{
    FirstStep::Reply(
        match res {
            Ok(EnrollOutcome::Accepted { agent_id }) => Message::EnrollResponse {
                accepted: true,
                agent_id,
                reason: None,
            },
            Ok(EnrollOutcome::Rejected { reason }) => Message::EnrollResponse {
                accepted: false,
                agent_id: String::new(),
                reason: Some(reason),
            },
            Err(_) => Message::EnrollResponse {
                accepted: false,
                agent_id: String::new(),
                reason: Some("internal error".to_owned()),
            },
        },
    )
}

/// Answers a request to open a session at the current version, given what looking
/// the agent up came to.
pub fn answer_hello(
    lookup: Result<Option<AgentRow>, StoreError>,
    agent_id: &str,
    agent_pubkey: &[u8],
    challenge_id: &[u8; 16],
) -> (step: FirstStep)
    ensures
        match lookup {
            Ok(Some(row)) => if agent_pubkey@ != row.pubkey@ {
                refuses(step, "pubkey mismatch"@)
            } else {
                challenges(step, agent_id@, row.pubkey@, challenge_id@)
            },
            Ok(None) => refuses(step, "unknown agent"@),
            Err(_) => refuses(step, "internal error"@),
        },
{
    match lookup {
        Ok(Some(row)) => {
            if !bytes::same(agent_pubkey, row.pubkey.as_slice()) {
                return FirstStep::Reply(refuse("pubkey mismatch"));
            }
            FirstStep::Challenge(
                Pending {
                    agent_id: agent_id.to_owned(),
                    pubkey: row.pubkey,
                    challenge_id: *challenge_id,
                },
            )
        },
        Ok(None) => FirstStep::Reply(refuse("unknown agent")),
        Err(_) => FirstStep::Reply(refuse("internal error")),
    }
}

/// [`on_first_frame`] at a given time, with a given identifier to assign and a
/// given challenge.
pub fn on_first_frame_with(
    store: &mut Store,
    first: &Message,
    now: u64,
    id: &[u8; 16],
    challenge_id: &[u8; 16],
) -> (step: FirstStep)
    requires
        old(store).wf(),
    ensures
        final(store).wf(),
        first_step(old(store)@, *first, now, id@, challenge_id@, step, final(store)@),
{
    match first {
        Message::EnrollRequest { token, hostname, os, agent_pubkey } => {
            match coerce_pubkey(agent_pubkey.as_slice()) {
                Some(key) => {
                    let ghost before = store@;
                    let res: Result<EnrollOutcome, StoreError> = enroll::enroll_at(
                        store,
                        token.as_str(),
                        hostname.as_str(),
                        os.as_str(),
                        key,
                        now,
                        id,
                    );
                    assert(enroll::enrollment(
                        before,
                        token@,
                        hostname@,
                        os@,
                        agent_pubkey@,
                        now,
                        id@,
                        res,
                        store@,
                    ));
                    enroll_response(res)
                },
                None => FirstStep::Reply(
                    Message::EnrollResponse {
                        accepted: false,
                        agent_id: String::new(),
                        reason: Some("agent_pubkey must be 32 bytes".to_owned()),
                    },
                ),
            }
        },
        Message::ClientHello { proto_version, agent_id, agent_pubkey, .. } => {
            if *proto_version != PROTO_VERSION {
                let mut reason: String = "unsupported proto_version ".to_owned();
                text::push_decimal(&mut reason, *proto_version as u64);
                return FirstStep::Reply(refuse(reason.as_str()));
            }
            answer_hello(
                store.agent(agent_id.as_str()),
                agent_id.as_str(),
                agent_pubkey.as_slice(),
                challenge_id,
            )
        },
        _ => FirstStep::Close,
    }
}

/// The signature text of an answer to the challenge, if the message is one.
pub open spec fn answer_text(reply: Message, challenge_id: Seq<u8>) -> Option<Seq<char>> {
    match reply {
        Message::CommandResult { id, ok, detail } => if id@ == challenge_id && ok {
            rows::opt_chars(detail)
        } else {
            None
        },
        _ => None,
    }
}

/// What to do after the answer to the challenge.
pub enum ProofStep {
    /// Send this and close.
    Reject(Message),
    /// Send this; the session is open.
    Accept(Message, Session),
}

/// Judges the answer to a challenge. A session opens exactly if the answer is a
/// signature, by the agent's enrolled key, over this server's pin, the agent's
/// identifier, this challenge and this connection's keying material.
pub fn on_challenge_reply(
    pending: Pending,
    reply: &Message,
    pin: &[u8; PIN_LEN],
    tls_exporter: &[u8],
) -> (step: ProofStep)
    ensures
        match answer_text(*reply, pending.challenge()) {
            None => step matches ProofStep::Reject(msg) && is_hello(
                msg,
                false,
                Some("malformed challenge response"@),
            ),
            Some(sig) => if enroll::answers(
                pending.key(),
                pin@,
                pending.agent(),
                pending.challenge(),
                tls_exporter@,
                sig,
            ) {
                step matches ProofStep::Accept(msg, session) && is_hello(msg, true, None)
                    && session.wf() && session.agent() == pending.agent() && session.window()
                    == Seq::<u128>::empty()
            } else {
                step matches ProofStep::Reject(msg) && is_hello(
                    msg,
                    false,
                    Some("authentication failed"@),
                )
            },
        },
{
    let sig: &String = match reply {
        Message::CommandResult { id, ok, detail } => {
            if !bytes::same(id.as_slice(), pending.challenge_id.as_slice()) || !*ok {
                return ProofStep::Reject(refuse("malformed challenge response"));
            }
            match detail {
                Some(sig) => sig,
                None => return ProofStep::Reject(refuse("malformed challenge response")),
            }
        },
        _ => return ProofStep::Reject(refuse("malformed challenge response")),
    };
    if !enroll::verify_challenge(
        &pending.pubkey,
        pin,
        pending.agent_id.as_str(),
        &pending.challenge_id,
        tls_exporter,
        sig.as_str(),
    ) {
        return ProofStep::Reject(refuse("authentication failed"));
    }
    ProofStep::Accept(
        server_hello(true, None),
        Session { agent_id: pending.agent_id, seen: DedupWindow::new() },
    )
}

/// An authenticated session.
pub struct Session {
    agent_id: String,
    seen: DedupWindow,
}

/// What became of the attempt to persist an admitted event.
pub enum WriteFate {
    /// It was persisted.
    Stored,
    /// The store failed and nothing changed.
    Failed,
    /// The store failed, with the write applied.
    FailedAfterWrite,
}

/// A batch on its way: the window, the store and the events to emit.
#[verifier::ext_equal]
pub struct BatchState {
    pub seen: Seq<u128>,
    pub store: StoreView,
    pub emitted: Seq<Event>,
}

/// Whether an event is new to the window and of an ingestible kind.
pub open spec fn admitted(seen: Seq<u128>, ev: Event) -> bool {
    !dedup::with_room(seen).contains(dedup::number(ev.id@) as u128) && ingestible_kinds().contains(
        ev.kind@,
    )
}

/// The bytes of an optional byte string.
pub open spec fn opt_bytes(bytes: Option<Vec<u8>>) -> Option<Seq<u8>> {
    match bytes {
        Some(bytes) => Some(bytes@),
        None => None,
    }
}

/// One event of a batch. An admitted event gets the authenticated identity, is
/// persisted, and only then emitted. One whose payload has no JSON is not persisted.
pub open spec fn batch_step(
    st: BatchState,
    agent_id: String,
    ev: Event,
    payload_json: Option<Seq<u8>>,
    fate: WriteFate,
) -> Option<BatchState> {
    let seen = dedup::after_arrival(st.seen, dedup::number(ev.id@) as u128);
    if !admitted(st.seen, ev) || payload_json is None {
        Some(BatchState { seen, ..st })
    } else {
        let stamped = Event { agent_id, ..ev };
        let written = st.store.write_event(store::event_row_view(stamped, payload_json.unwrap()));
        match fate {
            WriteFate::Stored => if st.store.index_corrupt(agent_id@) {
                None
            } else {
                Some(BatchState { seen, store: written, emitted: st.emitted.push(stamped) })
            },
            WriteFate::Failed => Some(BatchState { seen, ..st }),
            WriteFate::FailedAfterWrite => Some(BatchState { seen, store: written, ..st }),
        }
    }
}

/// What is emitted of an admitted event once its write was tried: the event itself
/// if it was persisted, nothing if the store failed.
pub fn emit_if_stored(event: Event, written: Result<(), StoreError>) -> (out: Option<Event>)
    ensures
        match written {
            Ok(_) => out == Some(event),
            Err(_) => out is None,
        },
{
    match written {
        Ok(_) => Some(event),
        Err(_) => None,
    }
}

/// A whole batch, event by event, each with its payload and the fate of its write.
pub open spec fn batch_run(
    st: BatchState,
    agent_id: String,
    events: Seq<(Event, Option<Vec<u8>>)>,
    fates: Seq<WriteFate>,
) -> Option<BatchState>
    decreases events.len(),
{
    if events.len() == 0 {
        Some(st)
    } else {
        match batch_run(st, agent_id, events.drop_last(), fates.drop_last()) {
            Some(mid) => batch_step(
                mid,
                agent_id,
                events.last().0,
                opt_bytes(events.last().1),
                fates.last(),
            ),
            None => None,
        }
    }
}

/// What a frame of an open session asks for.
#[derive(Debug)]
pub enum Route {
    /// Hand the events to [`Session::on_batch`].
    Batch,
    /// Send this.
    Reply(Message),
    /// Nothing.
    Ignore,
}

/// Routes a frame of an open session: batches are taken in, pings are answered,
/// and everything else is ignored.
pub fn route_frame(frame: &Message) -> (route: Route)
    ensures
        match *frame {
            Message::EventBatch { .. } => route is Batch,
            Message::Ping => route == Route::Reply(Message::Pong),
            _ => route is Ignore,
        },
{
    match frame {
        Message::EventBatch { .. } => Route::Batch,
        Message::Ping => Route::Reply(Message::Pong),
        _ => Route::Ignore,
    }
}

impl Session {
    pub closed spec fn wf(&self) -> bool {
        self.seen.wf()
    }

    /// The authenticated identity.
    pub closed spec fn agent(&self) -> Seq<char> {
        self.agent_id@
    }

    pub closed spec fn identity(&self) -> String {
        self.agent_id
    }

    /// The identifiers recently seen.
    pub closed spec fn window(&self) -> Seq<u128> {
        self.seen@
    }

    /// The agent that this session belongs to.
    pub fn agent_id(&self) -> (id: &str)
        ensures
            id@ == self.agent(),
    {
        self.agent_id.as_str()
    }

    /// Decides on one event that arrived: gives it back under the authenticated
    /// identity if it is to be persisted and emitted, and nothing if it was seen
    /// before or is of a kind that agents may not push.
    pub fn take_in(&mut self, event: Event) -> (out: Option<Event>)
        requires
            old(self).wf(),
        ensures
            final(self).wf(),
            final(self).identity() == old(self).identity(),
            final(self).window() == dedup::after_arrival(
                old(self).window(),
                dedup::number(event.id@) as u128,
            ),
            out == (if admitted(old(self).window(), event) {
                Some(Event { agent_id: old(self).identity(), ..event })
            } else {
                None
            }),
    {
        let fresh: bool = self.seen.insert(dedup::id_number(&event.id));
        if fresh && is_ingestible(event.kind.as_str()) {
            let mut stamped: Event = event;
            stamped.agent_id = self.agent_id.clone();
            Some(stamped)
        } else {
            None
        }
    }

    /// Refreshes the agent's liveness in the store.
    pub fn touch(&self, store: &mut Store, now: u64) -> (res: Result<(), StoreError>)
        requires
            old(store).wf(),
        ensures
            final(store).wf(),
            touched(old(store)@, self.agent(), now, res, final(store)@),
    {
        proof {
            let agents = store@.agents;
            let id = self.agent_id@;
            if agents.contains_key(id) && agents[id] is Some {
                assert(store::found(agents, id, agents[id].unwrap()));
            }
        }
        store.touch_agent(self.agent_id.as_str(), now)
    }

    /// Takes in a batch of events, each with the JSON of its payload if it has
    /// one: persists the admitted ones under the authenticated identity and returns them, in
    /// order, to be emitted.
    pub fn ingest(&mut self, store: &mut Store, events: Vec<(Event, Option<Vec<u8>>)>) -> (emit: Vec<Event>)
        requires
            old(self).wf(),
            old(store).wf(),
        ensures
            final(self).wf(),
            final(self).identity() == old(self).identity(),
            final(store).wf(),
            emit@.len() <= events@.len(),
            exists|fates: Seq<WriteFate>|
                fates.len() == events@.len() && #[trigger] batch_run(
                    BatchState {
                        seen: old(self).window(),
                        store: old(store)@,
                        emitted: Seq::empty(),
                    },
                    old(self).identity(),
                    events@,
                    fates,
                ) == Some(
                    BatchState {
                        seen: final(self).window(),
                        store: final(store)@,
                        emitted: emit@,
                    },
                ),
    {
        let ghost all = events@;
        let ghost init = BatchState { seen: self.window(), store: store@, emitted: Seq::empty() };
        let mut rest: Vec<(Event, Option<Vec<u8>>)> = Vec::new();
        let mut events: Vec<(Event, Option<Vec<u8>>)> = events;
        while events.len() > 0
            invariant
                events@ == all.take(events@.len() as int),
                rest@ == all.skip(events@.len() as int).reverse(),
                events@.len() <= all.len(),
            decreases events@.len(),
        {
            let ghost n = events@.len();
            if let Some(last) = events.pop() {
                rest.push(last);
                assert(events@ =~= all.take(n - 1));
                assert(rest@ =~= all.skip(n - 1).reverse());
            }
        }
        let mut emit: Vec<Event> = Vec::new();
        let ghost mut fates: Seq<WriteFate> = Seq::empty();
        let ghost mut done: int = 0;
        assert(all.skip(0) =~= all);
        assert(all.take(0) =~= Seq::empty());
        while rest.len() > 0
            invariant
                self.wf(),
                self.agent_id == old(self).agent_id,
                store.wf(),
                0 <= done <= all.len(),
                rest@ == all.skip(done).reverse(),
                fates.len() == done,
                emit@.len() <= done,
                batch_run(init, self.agent_id, all.take(done), fates) == Some(
                    BatchState { seen: self.window(), store: store@, emitted: emit@ },
                ),
            decreases rest@.len(),
        {
            let ghost st = BatchState { seen: self.window(), store: store@, emitted: emit@ };
            let ghost before = rest@;
            if let Some((event, payload_json)) = rest.pop() {
                let ghost json = opt_bytes(payload_json);
                let ghost mut fate = WriteFate::Failed;
                assert(before.last() == all[done]);
                assert(rest@ =~= all.skip(done + 1).reverse());
                assert(all.take(done + 1).drop_last() =~= all.take(done));
                assert(all.take(done + 1).last() == all[done]);
                if let (Some(stamped), Some(payload_json)) = (self.take_in(event), payload_json) {
                    let written: Result<(), StoreError> = store.write_event(&stamped, payload_json);
                    proof {
                        if written is Ok {
                            fate = WriteFate::Stored;
                        } else if store@ != st.store {
                            fate = WriteFate::FailedAfterWrite;
                        }
                    }
                    if let Some(stored) = emit_if_stored(stamped, written) {
                        emit.push(stored);
                    }
                }
                proof {
                    let longer = fates.push(fate);
                    assert(longer.drop_last() =~= fates);
                    assert(batch_step(st, self.agent_id, event, json, fate) == Some(
                        BatchState { seen: self.window(), store: store@, emitted: emit@ },
                    ));
                    fates = longer;
                    done = done + 1;
                }
            }
        }
        assert(all.take(done) =~= all);
        emit
    }

    /// Takes in a batch and acknowledges it: the events to emit, in order, and the
    /// acknowledgement to send after them. The agent's liveness is refreshed.
    pub fn on_batch(
        &mut self,
        store: &mut Store,
        batch_id: &[u8; 16],
        events: Vec<(Event, Option<Vec<u8>>)>,
    ) -> (out: (Vec<Event>, Message))
        requires
            old(self).wf(),
            old(store).wf(),
            events@.len() <= u32::MAX,
        ensures
            final(self).wf(),
            final(self).identity() == old(self).identity(),
            final(store).wf(),
            out.1 == (Message::BatchAck { batch_id: *batch_id, accepted: out.0@.len() as u32 }),
            exists|fates: Seq<WriteFate>, persisted: StoreView, now: u64, res: Result<(), StoreError>|
                fates.len() == events@.len() && #[trigger] batch_run(
                    BatchState {
                        seen: old(self).window(),
                        store: old(store)@,
                        emitted: Seq::empty(),
                    },
                    old(self).identity(),
                    events@,
                    fates,
                ) == Some(
                    BatchState { seen: final(self).window(), store: persisted, emitted: out.0@ },
                ) && #[trigger] touched(persisted, old(self).agent(), now, res, final(store)@),
    {
        let emit: Vec<Event> = self.ingest(store, events);
        let ghost persisted = store@;
        let now: u64 = now_ns();
        let res: Result<(), StoreError> = self.touch(store, now);
        assert(touched(persisted, old(self).agent(), now, res, store@));
        let accepted: u32 = emit.len() as u32;
        (emit, Message::BatchAck { batch_id: *batch_id, accepted })
    }
}

/// What refreshing an agent's liveness comes to. The agent's row, if it has one, was
/// last seen now, and a failure may leave it as it was; without a row nothing
/// changes. Bytes that are no row make it fail, and only they make the store
/// corrupt here.
pub open spec fn touched(
    before: StoreView,
    agent_id: Seq<char>,
    now: u64,
    res: Result<(), StoreError>,
    after: StoreView,
) -> bool {
    &&& if before.agents.contains_key(agent_id) && before.agents[agent_id] is Some {
        store::stepped(
            before,
            before.put_agent(
                agent_id,
                rows::AgentView { last_seen_ns: now, ..before.agents[agent_id].unwrap() },
            ),
            res is Ok,
            after,
        )
    } else {
        after == before
    }
    &&& match res {
        Ok(_) => !store::corrupt(before.agents, agent_id),
        Err(StoreError::Corrupt) => store::corrupt(before.agents, agent_id),
        Err(StoreError::Storage(_)) => true,
    }
}

/// Whatever a batch holds, only ingestible kinds come out of it, and only under
/// the authenticated identity.
pub proof fn law_emitted_events_are_own_and_raw(
    st: BatchState,
    agent_id: String,
    events: Seq<(Event, Option<Vec<u8>>)>,
    fates: Seq<WriteFate>,
)
    requires
        st.emitted.len() == 0,
        fates.len() == events.len(),
        batch_run(st, agent_id, events, fates) is Some,
    ensures
        forall|i: int|
            0 <= i < batch_run(st, agent_id, events, fates).unwrap().emitted.len() ==> {
                let ev = #[trigger] batch_run(st, agent_id, events, fates).unwrap().emitted[i];
                ev.agent_id == agent_id && ingestible_kinds().contains(ev.kind@)
            },
    decreases events.len(),
{
    if events.len() > 0 {
        law_emitted_events_are_own_and_raw(
            st,
            agent_id,
            events.drop_last(),
            fates.drop_last(),
        );
    }
}

/// An event whose identifier is in the window is not taken again: neither stored
/// nor emitted.
pub proof fn law_retransmission_is_dropped(
    st: BatchState,
    agent_id: String,
    ev: Event,
    payload_json: Option<Seq<u8>>,
    fate: WriteFate,
)
    requires
        dedup::with_room(st.seen).contains(dedup::number(ev.id@) as u128),
    ensures
        batch_step(st, agent_id, ev, payload_json, fate) matches Some(after) && after.store
            == st.store && after.emitted == st.emitted,
{
}

/// An event is in the audit log before it is emitted.
pub proof fn law_emitted_event_is_persisted(
    st: BatchState,
    agent_id: String,
    ev: Event,
    payload_json: Option<Seq<u8>>,
    fate: WriteFate,
)
    requires
        batch_step(st, agent_id, ev, payload_json, fate) is Some,
    ensures
        ({
            let after = batch_step(st, agent_id, ev, payload_json, fate).unwrap();
            after.emitted.len() > st.emitted.len() ==> {
                let row = store::event_row_view(Event { agent_id, ..ev }, payload_json.unwrap());
                &&& payload_json is Some
                &&& store::found(after.store.events, crate::keys::row_key(row.ts_ns, row.id), row)
            }
        }),
{
}

/// Derived kinds and the free-form kind are never taken from an agent.
pub proof fn law_findings_cannot_be_forged()
    ensures
        !ingestible_kinds().contains("score"@),
        !ingestible_kinds().contains("detection"@),
        !ingestible_kinds().contains("alert"@),
        !ingestible_kinds().contains("custom"@),
{
    reveal_strlit("score");
    reveal_strlit("detection");
    reveal_strlit("alert");
    reveal_strlit("custom");
    reveal_strlit("input.keystroke");
    reveal_strlit("command.observed");
    reveal_strlit("session.start");
    reveal_strlit("session.end");
    reveal_strlit("process.exec");
    reveal_strlit("heartbeat");
    let list = ingestible_kinds();
    assert(list[5].len() == 9);
    assert forall|i: int| 0 <= i < list.len() implies (#[trigger] list[i]).len() >= 9 by {
    }
    assert("detection"@[0] == 'd');
    assert("heartbeat"@[0] == 'h');
}

/// Of the kinds that agents push, the sink subscribes to heartbeats alone.
pub proof fn law_sink_takes_no_raw_kind_but_heartbeat(kind: Seq<char>)
    requires
        ingestible_kinds().contains(kind),
        sink::sink_kinds().contains(kind),
    ensures
        kind == "heartbeat"@,
{
    law_findings_cannot_be_forged();
    let i = choose|i: int| 0 <= i < sink::sink_kinds().len() && sink::sink_kinds()[i] == kind;
    assert(i == 3);
}

/// The connection limits.
pub proof fn law_connection_limits(active: usize, yes: bool)
    requires
        call_ensures(admits_connection, (active,), yes),
    ensures
        yes <==> active < 1024,
        FIRST_FRAME_TIMEOUT_SECS == 30,
        COMMAND_QUEUE_DEPTH == 64,
{
}

/// The six raw kinds are taken from an agent, and no other.
pub proof fn law_six_kinds_are_ingestible(kind: &str, yes: bool)
    requires
        call_ensures(is_ingestible, (kind,), yes),
    ensures
        yes <==> {
            ||| kind@ == "input.keystroke"@
            ||| kind@ == "command.observed"@
            ||| kind@ == "session.start"@
            ||| kind@ == "session.end"@
            ||| kind@ == "process.exec"@
            ||| kind@ == "heartbeat"@
        },
{
    let list = ingestible_kinds();
    assert(list[0] == "input.keystroke"@ && list[1] == "command.observed"@);
    assert(list[2] == "session.start"@ && list[3] == "session.end"@);
    assert(list[4] == "process.exec"@ && list[5] == "heartbeat"@);
}

/// A key is taken as it is if it has thirty-two bytes, and not otherwise.
pub proof fn law_key_has_thirty_two_bytes(bytes: &[u8], out: Option<[u8; 32]>)
    requires
        call_ensures(coerce_pubkey, (bytes,), out),
    ensures
        out is Some <==> bytes@.len() == 32,
        out matches Some(key) ==> key@ == bytes@,
{
}

/// An enrollment request is answered with the identifier under which the endpoint was
/// recorded as it presented itself, or with a reason and no identifier. Where it is
/// refused, nothing changed.
pub proof fn law_enroll_request_is_recorded_or_refused(
    store: &mut Store,
    first: &Message,
    now: u64,
    id: &[u8; 16],
    challenge_id: &[u8; 16],
    step: FirstStep,
)
    requires
        old(store).wf(),
        first is EnrollRequest,
        call_ensures(on_first_frame_with, (store, first, now, id, challenge_id), step),
    ensures
        *first matches Message::EnrollRequest { token, hostname, os, agent_pubkey } && (
        step matches FirstStep::Reply(
            Message::EnrollResponse { accepted, agent_id, reason },
        ) && {
            &&& accepted ==> {
                &&& reason is None
                &&& agent_id@ == ids::uuid_text(id@)
                &&& final(store)@.agents.contains_key(agent_id@)
                &&& final(store)@.agents[agent_id@] matches Some(row) && {
                    &&& row.agent_id == agent_id@
                    &&& row.hostname == hostname@
                    &&& row.os == os@
                    &&& row.pubkey == agent_pubkey@
                    &&& row.enrolled_at_ns == now
                    &&& row.last_seen_ns == now
                }
                &&& forall|k: Seq<char>|
                    k != agent_id@ ==> #[trigger] final(store)@.agents[k] == old(store)@.agents[k]
                &&& old(store)@.tokens[token@] matches Some(was) && !was.used
                &&& final(store)@.tokens[token@] matches Some(is) && is.used
                &&& agent_pubkey@.len() == 32
            }
            &&& !accepted ==> {
                &&& agent_id@.len() == 0
                &&& reason is Some
                &&& reason.unwrap()@ == "internal error"@ || final(store)@ == old(store)@
            }
            &&& agent_pubkey@.len() != 32 ==> !accepted && reason.unwrap()@
                == "agent_pubkey must be 32 bytes"@
        }),
{
    if let Message::EnrollRequest { token, hostname, os, agent_pubkey } = *first {
        if agent_pubkey@.len() == 32 {
            let res = choose|res: Result<EnrollOutcome, StoreError>|
                #[trigger] enroll::enrollment(
                    old(store)@,
                    token@,
                    hostname@,
                    os@,
                    agent_pubkey@,
                    now,
                    id@,
                    res,
                    final(store)@,
                ) && replies(step, enroll_reply(res));
            assert(replies(step, enroll_reply(res)));
        }
    }
}

/// A first frame that neither enrolls nor opens a session closes the connection; none
/// but an enrollment changes the store.
pub proof fn law_only_enrollment_changes_the_store(
    store: &mut Store,
    first: &Message,
    now: u64,
    id: &[u8; 16],
    challenge_id: &[u8; 16],
    step: FirstStep,
)
    requires
        old(store).wf(),
        !(first is EnrollRequest),
        call_ensures(on_first_frame_with, (store, first, now, id, challenge_id), step),
    ensures
        final(store)@ == old(store)@,
        !(first is ClientHello) <==> step is Close,
        step is Challenge ==> first is ClientHello,
{
}

/// What a request to open a session is refused with, if it is: another version, an agent
/// that is not enrolled, another key, or a store that could not be read.
pub proof fn law_hello_is_refused_for_a_reason(
    store: &mut Store,
    first: &Message,
    now: u64,
    id: &[u8; 16],
    challenge_id: &[u8; 16],
    step: FirstStep,
)
    requires
        old(store).wf(),
        first is ClientHello,
        call_ensures(on_first_frame_with, (store, first, now, id, challenge_id), step),
    ensures
        *first matches Message::ClientHello { proto_version, agent_id, agent_pubkey, .. } && {
            let s = old(store)@;
            &&& step is Challenge ==> proto_version == PROTO_VERSION && s.agents.contains_key(
                agent_id@,
            ) && s.agents[agent_id@].unwrap().pubkey == agent_pubkey@
            &&& !(step is Challenge) ==> (step matches FirstStep::Reply(
                Message::ServerHello { proto_version: v, accepted, reason },
            ) && {
                &&& v == PROTO_VERSION
                &&& !accepted
                &&& reason is Some
                &&& proto_version != PROTO_VERSION ==> reason.unwrap()@
                    == "unsupported proto_version "@ + text::decimal(proto_version as nat)
                &&& proto_version == PROTO_VERSION && reason.unwrap()@ != "internal error"@ ==> {
                    &&& !s.agents.contains_key(agent_id@) ==> reason.unwrap()@ == "unknown agent"@
                    &&& s.agents.contains_key(agent_id@) ==> s.agents[agent_id@].unwrap().pubkey
                        != agent_pubkey@ && reason.unwrap()@ == "pubkey mismatch"@
                }
            })
        },
{
}

/// What the answer to a request to open a session is, given what the lookup came to.
pub proof fn law_hello_answers_follow_the_lookup(
    row: AgentRow,
    error: StoreError,
    agent_id: &str,
    agent_pubkey: &[u8],
    challenge_id: &[u8; 16],
    known: FirstStep,
    unknown: FirstStep,
    failed: FirstStep,
)
    requires
        call_ensures(
            answer_hello,
            (
                Ok::<Option<AgentRow>, StoreError>(Some(row)),
                agent_id,
                agent_pubkey,
                challenge_id,
            ),
            known,
        ),
        call_ensures(
            answer_hello,
            (
                Ok::<Option<AgentRow>, StoreError>(None::<AgentRow>),
                agent_id,
                agent_pubkey,
                challenge_id,
            ),
            unknown,
        ),
        call_ensures(
            answer_hello,
            (
                Err::<Option<AgentRow>, StoreError>(error),
                agent_id,
                agent_pubkey,
                challenge_id,
            ),
            failed,
        ),
    ensures
        known is Challenge <==> agent_pubkey@ == row.pubkey@,
        !(known is Challenge) ==> (known matches FirstStep::Reply(
            Message::ServerHello { accepted, reason, .. },
        ) && !accepted && reason is Some && reason.unwrap()@ == "pubkey mismatch"@),
        unknown matches FirstStep::Reply(Message::ServerHello { accepted, reason, .. })
            && !accepted && reason is Some && reason.unwrap()@ == "unknown agent"@,
        failed matches FirstStep::Reply(Message::ServerHello { accepted, reason, .. })
            && !accepted && reason is Some && reason.unwrap()@ == "internal error"@,
{
}

/// From hello to session: a session opens for the agent that said hello exactly if the
/// answer to its challenge is a signature, by the key that agent enrolled with, over the
/// label, this server's pin, the agent, the hash of the challenge and the keying material
/// of the connection.
pub proof fn law_session_is_of_the_agent_that_signed(
    store: &mut Store,
    first: &Message,
    now: u64,
    id: &[u8; 16],
    challenge_id: &[u8; 16],
    pending: Pending,
    sent: Message,
    reply: &Message,
    pin: &[u8; PIN_LEN],
    tls_exporter: &[u8],
    step: ProofStep,
    session: &Session,
    who: &str,
)
    requires
        old(store).wf(),
        call_ensures(
            on_first_frame_with,
            (store, first, now, id, challenge_id),
            FirstStep::Challenge(pending),
        ),
        call_ensures(Pending::challenge_message, (&pending,), sent),
        call_ensures(on_challenge_reply, (pending, reply, pin, tls_exporter), step),
        step matches ProofStep::Accept(_, s) ==> *session == s,
        call_ensures(Session::agent_id, (session,), who),
    ensures
        sent matches Message::Command { id: c, command } && c@ == challenge_id@ && command
            == ServerCommand::Noop,
        *first matches Message::ClientHello { agent_id, .. } && {
            let row = old(store)@.agents[agent_id@].unwrap();
            &&& old(store)@.agents.contains_key(agent_id@)
            &&& step is Accept <==> (*reply matches Message::CommandResult { id: c, ok, detail }
                && {
                &&& c@ == challenge_id@
                &&& ok
                &&& detail is Some
                &&& ({
                    let inner = text::trimmed(detail.unwrap()@);
                    let message = utf8::encode_utf8("aegis-session-auth-v1"@) + pin@
                        + utf8::encode_utf8(agent_id@) + crypto::sha256_of(challenge_id@)
                        + tls_exporter@;
                    &&& utf8::encode_utf8(inner).len() <= 128
                    &&& encoding::unbase64(inner) matches Some(raw) && raw.len() == 64
                        && crypto::signed_by(row.pubkey, crypto::sha256_of(message), raw)
                })
            })
            &&& step is Accept ==> who@ == agent_id@
        },
        step matches ProofStep::Accept(hello, _) ==> (hello matches Message::ServerHello {
            proto_version,
            accepted,
            reason,
        } && proto_version == PROTO_VERSION && accepted && reason is None),
        step matches ProofStep::Reject(hello) ==> (hello matches Message::ServerHello {
            proto_version,
            accepted,
            reason,
        } && proto_version == PROTO_VERSION && !accepted && reason is Some && {
            let malformed = !(*reply matches Message::CommandResult { id: c, ok, detail } && c@
                == challenge_id@ && ok && detail is Some);
            &&& malformed ==> reason.unwrap()@ == "malformed challenge response"@
            &&& !malformed ==> reason.unwrap()@ == "authentication failed"@
        }),
{
}

/// A frame of an open session: a batch is taken in, a ping is answered with a pong, and
/// nothing else is answered.
pub proof fn law_frames_of_a_session(frame: &Message, route: Route)
    requires
        call_ensures(route_frame, (frame,), route),
    ensures
        route is Batch <==> frame is EventBatch,
        route is Reply <==> frame is Ping,
        route matches Route::Reply(msg) ==> msg is Pong,
{
}

/// An event that is taken in is the one that arrived, under the session's own identity;
/// one that is of a raw kind and was not seen is taken in, and one that was just seen is
/// not.
pub proof fn law_event_is_taken_in_once_under_the_session(
    session: &mut Session,
    event: Event,
    out: Option<Event>,
    before: &Session,
    who: &str,
)
    requires
        old(session).wf(),
        *before == *old(session),
        call_ensures(Session::agent_id, (before,), who),
        call_ensures(Session::take_in, (session, event), out),
    ensures
        out matches Some(taken) ==> {
            &&& taken.agent_id@ == who@
            &&& taken.id == event.id
            &&& taken.ts_ns == event.ts_ns
            &&& taken.source@ == event.source@
            &&& taken.kind@ == event.kind@
            &&& taken.payload == event.payload
            &&& taken.labels == event.labels
        },
        !ingestible_kinds().contains(event.kind@) ==> out is None,
        before.window().len() < 65_536 && before.window().contains(
            dedup::number(event.id@) as u128,
        ) ==> out is None,
        !before.window().contains(dedup::number(event.id@) as u128) && ingestible_kinds().contains(
            event.kind@,
        ) ==> out is Some,
        final(session).window().contains(dedup::number(event.id@) as u128),
        final(session).agent() == before.agent(),
{
    let n = dedup::number(event.id@) as u128;
    let after = final(session).window();
    let room = dedup::with_room(before.window());
    if !room.contains(n) {
        assert(after[after.len() - 1] == n);
    }
}

/// Whatever came of its writes, a batch emits events that arrived in it, in its order and
/// as they arrived, but under the session's identity; each is of a raw kind and in the
/// log. Nothing is lost from the log, and no finding, agent or token changes.
pub proof fn law_batch_emits_what_arrived(
    session: &mut Session,
    store: &mut Store,
    events: Vec<(Event, Option<Vec<u8>>)>,
    emit: Vec<Event>,
    before: &Session,
    who: &str,
)
    requires
        old(session).wf(),
        old(store).wf(),
        *before == *old(session),
        call_ensures(Session::agent_id, (before,), who),
        call_ensures(Session::ingest, (session, store, events), emit),
    ensures
        forall|i: int|
            0 <= i < emit@.len() ==> arrived(events@, #[trigger] emit@[i]) && emit@[i].agent_id@
                == who@ && ingestible_kinds().contains(emit@[i].kind@)
                && final(store)@.events.contains_key(
                keys::row_key(emit@[i].ts_ns, emit@[i].id@),
            ),
        forall|i: int, j: int|
            0 <= i < j < emit@.len() ==> arrived_in_order(
                events@,
                #[trigger] emit@[i],
                #[trigger] emit@[j],
            ),
        forall|k: Seq<u8>| #[trigger]
            old(store)@.events.contains_key(k) ==> final(store)@.events.contains_key(k),
        final(store)@.detections == old(store)@.detections,
        final(store)@.scores == old(store)@.scores,
        final(store)@.alerts == old(store)@.alerts,
        final(store)@.agents == old(store)@.agents,
        final(store)@.tokens == old(store)@.tokens,
        final(session).agent() == before.agent(),
{
    let init = BatchState { seen: old(session).window(), store: old(store)@, emitted: Seq::empty() };
    let fates = choose|fates: Seq<WriteFate>|
        fates.len() == events@.len() && #[trigger] batch_run(
            init,
            old(session).identity(),
            events@,
            fates,
        ) == Some(
            BatchState {
                seen: final(session).window(),
                store: final(store)@,
                emitted: emit@,
            },
        );
    lemma_batch_emits(init, old(session).identity(), events@, fates);
}

/// One event of the batch is this one, but for the agent.
pub open spec fn arrived(events: Seq<(Event, Option<Vec<u8>>)>, ev: Event) -> bool {
    exists|i: int| 0 <= i < events.len() && same_but_agent((#[trigger] events[i]).0, ev)
}

/// The second event stands in the batch after the first.
pub open spec fn arrived_in_order(
    events: Seq<(Event, Option<Vec<u8>>)>,
    first: Event,
    second: Event,
) -> bool {
    exists|i: int, j: int|
        0 <= i < j < events.len() && same_but_agent((#[trigger] events[i]).0, first)
            && same_but_agent((#[trigger] events[j]).0, second)
}

/// Two events differ in nothing but the agent they are filed under.
pub open spec fn same_but_agent(a: Event, b: Event) -> bool {
    &&& a.id == b.id
    &&& a.ts_ns == b.ts_ns
    &&& a.source@ == b.source@
    &&& a.kind@ == b.kind@
    &&& a.payload == b.payload
    &&& a.labels == b.labels
}

proof fn lemma_batch_emits(
    st: BatchState,
    agent_id: String,
    events: Seq<(Event, Option<Vec<u8>>)>,
    fates: Seq<WriteFate>,
)
    requires
        st.emitted.len() == 0,
        fates.len() == events.len(),
        batch_run(st, agent_id, events, fates) is Some,
    ensures
        ({
            let after = batch_run(st, agent_id, events, fates).unwrap();
            &&& forall|i: int|
                0 <= i < after.emitted.len() ==> arrived(events, #[trigger] after.emitted[i])
                    && after.emitted[i].agent_id == agent_id && ingestible_kinds().contains(
                    after.emitted[i].kind@,
                ) && after.store.events.contains_key(
                    keys::row_key(after.emitted[i].ts_ns, after.emitted[i].id@),
                )
            &&& forall|i: int, j: int|
                0 <= i < j < after.emitted.len() ==> arrived_in_order(
                    events,
                    #[trigger] after.emitted[i],
                    #[trigger] after.emitted[j],
                )
            &&& forall|k: Seq<u8>| #[trigger]
                st.store.events.contains_key(k) ==> after.store.events.contains_key(k)
            &&& after.store.detections == st.store.detections
            &&& after.store.scores == st.store.scores
            &&& after.store.alerts == st.store.alerts
            &&& after.store.agents == st.store.agents
            &&& after.store.tokens == st.store.tokens
        }),
    decreases events.len(),
{
    if events.len() > 0 {
        let rest = events.drop_last();
        lemma_batch_emits(st, agent_id, rest, fates.drop_last());
        let mid = batch_run(st, agent_id, rest, fates.drop_last()).unwrap();
        let after = batch_run(st, agent_id, events, fates).unwrap();
        let last = events.last().0;
        assert forall|i: int| 0 <= i < after.emitted.len() implies arrived(
            events,
            #[trigger] after.emitted[i],
        ) && after.emitted[i].agent_id == agent_id && ingestible_kinds().contains(
            after.emitted[i].kind@,
        ) && after.store.events.contains_key(
            keys::row_key(after.emitted[i].ts_ns, after.emitted[i].id@),
        ) by {
            if i < mid.emitted.len() {
                assert(after.emitted[i] == mid.emitted[i]);
                assert(arrived(rest, mid.emitted[i]));
                let p = choose|p: int|
                    0 <= p < rest.len() && same_but_agent((#[trigger] rest[p]).0, mid.emitted[i]);
                assert(events[p] == rest[p]);
            } else {
                assert(same_but_agent(events[events.len() - 1].0, after.emitted[i]));
            }
        }
        assert forall|i: int, j: int| 0 <= i < j < after.emitted.len() implies arrived_in_order(
            events,
            #[trigger] after.emitted[i],
            #[trigger] after.emitted[j],
        ) by {
            assert(after.emitted[i] == mid.emitted[i]);
            if j < mid.emitted.len() {
                assert(after.emitted[j] == mid.emitted[j]);
                assert(arrived_in_order(rest, mid.emitted[i], mid.emitted[j]));
                let (p, q) = choose|p: int, q: int|
                    0 <= p < q < rest.len() && same_but_agent(
                        (#[trigger] rest[p]).0,
                        mid.emitted[i],
                    ) && same_but_agent((#[trigger] rest[q]).0, mid.emitted[j]);
                assert(events[p] == rest[p] && events[q] == rest[q]);
            } else {
                assert(arrived(rest, mid.emitted[i]));
                let p = choose|p: int|
                    0 <= p < rest.len() && same_but_agent((#[trigger] rest[p]).0, mid.emitted[i]);
                assert(events[p] == rest[p]);
                assert(same_but_agent(events[events.len() - 1].0, after.emitted[j]));
            }
        }
    }
}

/// A batch is acknowledged under its own identifier with the number of events emitted.
pub proof fn law_ack_counts_what_was_emitted(
    session: &mut Session,
    store: &mut Store,
    batch_id: &[u8; 16],
    events: Vec<(Event, Option<Vec<u8>>)>,
    out: (Vec<Event>, Message),
)
    requires
        old(session).wf(),
        old(store).wf(),
        events@.len() <= u32::MAX,
        out.0@.len() <= u32::MAX,
        call_ensures(Session::on_batch, (session, store, batch_id, events), out),
    ensures
        out.1 matches Message::BatchAck { batch_id: id, accepted } && id@ == batch_id@ && accepted
            == out.0@.len(),
{
}

/// An event is emitted exactly if its write succeeded, and as it is.
pub proof fn law_only_stored_events_are_emitted(
    event: Event,
    error: StoreError,
    stored: Option<Event>,
    failed: Option<Event>,
)
    requires
        call_ensures(emit_if_stored, (event, Ok::<(), StoreError>(())), stored),
        call_ensures(emit_if_stored, (event, Err::<(), StoreError>(error)), failed),
    ensures
        stored == Some(event),
        failed is None,
{
}

/// A hello of the server carries its version, and what it is given.
pub proof fn law_server_hello(accepted: bool, reason: Option<String>, msg: Message)
    requires
        call_ensures(server_hello, (accepted, reason), msg),
    ensures
        msg matches Message::ServerHello { proto_version, accepted: a, reason: r } && proto_version
            == 1 && a == accepted && (r is Some <==> reason is Some) && (reason is Some
            ==> r.unwrap()@ == reason.unwrap()@),
{
}

/// An enrollment is answered with the identifier or the reason that it came to; a failed
/// store is an internal error.
pub proof fn law_enroll_responses(
    agent_id: String,
    accepted: FirstStep,
    reason: String,
    rejected: FirstStep,
    error: StoreError,
    failed: FirstStep,
)
    requires
        call_ensures(
            enroll_response,
            (Ok::<EnrollOutcome, StoreError>(EnrollOutcome::Accepted { agent_id }),),
            accepted,
        ),
        call_ensures(
            enroll_response,
            (Ok::<EnrollOutcome, StoreError>(EnrollOutcome::Rejected { reason }),),
            rejected,
        ),
        call_ensures(enroll_response, (Err::<EnrollOutcome, StoreError>(error),), failed),
    ensures
        accepted matches FirstStep::Reply(
            Message::EnrollResponse { accepted: a, agent_id: id, reason: r },
        ) && a && id@ == agent_id@ && r is None,
        rejected matches FirstStep::Reply(
            Message::EnrollResponse { accepted: a, agent_id: id, reason: r },
        ) && !a && id@.len() == 0 && r is Some && r.unwrap()@ == reason@,
        failed matches FirstStep::Reply(
            Message::EnrollResponse { accepted: a, agent_id: id, reason: r },
        ) && !a && id@.len() == 0 && r is Some && r.unwrap()@ == "internal error"@,
{
}

/// A session refreshes its own agent's time, and nothing else.
pub proof fn law_session_touches_its_own_agent(
    session: &Session,
    store: &mut Store,
    now: u64,
    who: &str,
)
    requires
        old(store).wf(),
        call_ensures(Session::agent_id, (session,), who),
        call_ensures(Session::touch, (session, store, now), Ok::<(), StoreError>(())),
    ensures
        old(store)@.agents.contains_key(who@) ==> {
            let was = old(store)@.agents[who@];
            let is = final(store)@.agents[who@];
            &&& was is Some && is is Some
            &&& is.unwrap().last_seen_ns == now
            &&& is.unwrap().agent_id == was.unwrap().agent_id
            &&& is.unwrap().hostname == was.unwrap().hostname
            &&& is.unwrap().os == was.unwrap().os
            &&& is.unwrap().pubkey == was.unwrap().pubkey
            &&& is.unwrap().enrolled_at_ns == was.unwrap().enrolled_at_ns
        },
        forall|k: Seq<char>|
            k != who@ ==> #[trigger] final(store)@.agents[k] == old(store)@.agents[k],
        final(store)@.events == old(store)@.events,
        final(store)@.detections == old(store)@.detections,
        final(store)@.scores == old(store)@.scores,
        final(store)@.alerts == old(store)@.alerts,
        final(store)@.tokens == old(store)@.tokens,
{
}

/// The first frame of a connection, at the time it comes: an accepted request to enroll
/// records the endpoint as it presented itself, and a frame that is no such request changes
/// nothing.
pub proof fn law_first_frame(store: &mut Store, first: &Message, step: FirstStep)
    requires
        old(store).wf(),
        call_ensures(on_first_frame, (store, first), step),
    ensures
        *first matches Message::EnrollRequest { token, hostname, os, agent_pubkey } ==> (
        step matches FirstStep::Reply(Message::EnrollResponse { accepted, agent_id, .. }) && (
        accepted ==> (final(store)@.agents[agent_id@] matches Some(row) && row.agent_id
            == agent_id@ && row.hostname == hostname@ && row.os == os@ && row.pubkey
            == agent_pubkey@ && row.enrolled_at_ns == row.last_seen_ns))),
        !(first is EnrollRequest) ==> final(store)@ == old(store)@,
        step is Challenge ==> (*first matches Message::ClientHello {
            proto_version,
            agent_id,
            agent_pubkey,
            ..
        } && proto_version == 1 && old(store)@.agents[agent_id@].unwrap().pubkey == agent_pubkey@),
{
    let (now, id, challenge_id) = choose|now: u64, id: Seq<u8>, challenge_id: Seq<u8>|
        ids::is_v4(id) && ids::is_v4(challenge_id) && #[trigger] first_step(
            old(store)@,
            *first,
            now,
            id,
            challenge_id,
            step,
            final(store)@,
        );
    if let Message::EnrollRequest { token, hostname, os, agent_pubkey } = *first {
        if agent_pubkey@.len() == 32 {
            let res = choose|res: Result<EnrollOutcome, StoreError>|
                #[trigger] enroll::enrollment(
                    old(store)@,
                    token@,
                    hostname@,
                    os@,
                    agent_pubkey@,
                    now,
                    id,
                    res,
                    final(store)@,
                ) && replies(step, enroll_reply(res));
            assert(replies(step, enroll_reply(res)));
        }
    }
}

} // verus!
