//! The wire protocol: messages and their framing.
//!
//! A frame is a big-endian 32-bit length followed by that many bytes. A reader
//! never asks for more than the frame still lacks, so nothing of the next frame
//! is consumed, and never buffers more than has arrived.
use crate::event::Event;
use crate::{bytes, keys};
use vstd::prelude::*;

verus! {

/// Bumped on any breaking change to [`Message`].
pub const PROTO_VERSION: u16 = 1;

/// Hard cap on a single frame to bound memory on the receive path.
pub const MAX_FRAME_BYTES: usize = 16_777_216;

/// Most bytes of a body that are asked for at once, whatever length the peer
/// announced.
pub const READ_CHUNK_BYTES: usize = 65_536;

/// Server-issued command delivered to an agent.
#[derive(Debug, Clone, PartialEq)]
pub enum ServerCommand {
    /// Ask the agent to re-evaluate detection for a subject.
    Rescore { subject: String },
    /// Push a new configuration subtree, as JSON text, to a named plugin.
    SetConfig { plugin: String, config: String },
    /// Request that the endpoint enter a heightened-monitoring posture.
    Isolate { reason: String },
    /// No-op (keepalive / capability probe).
    Noop,
}

/// A single protocol message.
#[derive(Debug, Clone)]
pub enum Message {
    /// Agent to server: open a session on an already-enrolled connection.
    ClientHello {
        proto_version: u16,
        agent_id: String,
        hostname: String,
        os: String,
        /// The agent's Ed25519 public key (32 bytes).
        agent_pubkey: Vec<u8>,
    },
    /// Server to agent: accept/reject the session.
    ServerHello { proto_version: u16, accepted: bool, reason: Option<String> },
    /// Agent to server: first-contact enrollment using a one-time token.
    EnrollRequest { token: String, hostname: String, os: String, agent_pubkey: Vec<u8> },
    /// Server to agent: enrollment result and assigned identity.
    EnrollResponse { accepted: bool, agent_id: String, reason: Option<String> },
    /// Agent to server: a batch of telemetry/derived events.
    EventBatch { batch_id: [u8; 16], events: Vec<Event> },
    /// Server to agent: acknowledge a batch.
    BatchAck { batch_id: [u8; 16], accepted: u32 },
    /// Server to agent: issue a command.
    Command { id: [u8; 16], command: ServerCommand },
    /// Agent to server: report the outcome of a command.
    CommandResult { id: [u8; 16], ok: bool, detail: Option<String> },
    /// Either direction: keepalive.
    Ping,
    Pong,
}

/// Why a frame could not be written or read.
#[derive(Debug, Clone, Copy, PartialEq, Eq, Structural)]
pub enum FrameError {
    /// A frame of this many bytes exceeds [`MAX_FRAME_BYTES`].
    TooLarge(usize),
    /// The peer closed the connection before the frame was complete.
    Closed,
}

/// A frame: the length of the body, then the body.
pub open spec fn frame(body: Seq<u8>) -> Seq<u8> {
    keys::big_endian(body.len(), 4) + body
}

/// The number that four bytes denote, high byte first.
pub open spec fn be32(h: Seq<u8>) -> nat {
    (((h[0] as nat * 256 + h[1] as nat) * 256 + h[2] as nat) * 256 + h[3] as nat) as nat
}

/// Frames a serialized message.
pub fn encode_frame(body: &[u8]) -> (res: Result<Vec<u8>, FrameError>)
    ensures
        match res {
            Ok(out) => body@.len() <= MAX_FRAME_BYTES && out@ == frame(body@),
            Err(e) => body@.len() > MAX_FRAME_BYTES && e == FrameError::TooLarge(
                body@.len() as usize,
            ),
        },
{
    let len: usize = body.len();
    if len > MAX_FRAME_BYTES {
        return Err(FrameError::TooLarge(len));
    }
    let t0: usize = len;
    let t1: usize = t0 / 256;
    let t2: usize = t1 / 256;
    let t3: usize = t2 / 256;
    let mut out: Vec<u8> = Vec::new();
    out.push((t3 % 256) as u8);
    out.push((t2 % 256) as u8);
    out.push((t1 % 256) as u8);
    out.push((t0 % 256) as u8);
    proof {
        reveal_with_fuel(keys::big_endian, 5);
        assert(out@ =~= keys::big_endian(len as nat, 4));
    }
    let ghost header = out@;
    let mut i: usize = 0;
    while i < len
        invariant
            i <= len == body@.len(),
            out@ == header + body@.take(i as int),
        decreases len - i,
    {
        out.push(body[i]);
        assert(body@.take(i + 1) =~= body@.take(i as int).push(body@[i as int]));
        assert(out@ =~= header + body@.take(i + 1));
        i = i + 1;
    }
    assert(body@.take(len as int) =~= body@);
    Ok(out)
}

/// What a reader needs next.
#[derive(Debug, Clone, Copy, PartialEq, Eq, Structural)]
pub enum ReadStep {
    /// Read at most this many bytes, at least one.
    Read(usize),
    /// The frame is complete.
    Done,
    /// The announced length exceeds [`MAX_FRAME_BYTES`].
    TooLarge(usize),
}

/// What a reader needs next, given what it has of a frame.
pub open spec fn step_of(got: Seq<u8>) -> ReadStep {
    if got.len() < 4 {
        ReadStep::Read((4 - got.len()) as usize)
    } else if be32(got) > MAX_FRAME_BYTES {
        ReadStep::TooLarge(be32(got) as usize)
    } else if got.len() - 4 < be32(got) {
        let lacking = be32(got) - (got.len() - 4);
        ReadStep::Read(
            if lacking < READ_CHUNK_BYTES {
                lacking as usize
            } else {
                READ_CHUNK_BYTES
            },
        )
    } else {
        ReadStep::Done
    }
}

/// Collects one frame as its bytes arrive.
#[derive(Debug)]
pub struct FrameReader {
    got: Vec<u8>,
}

impl View for FrameReader {
    type V = Seq<u8>;

    closed spec fn view(&self) -> Seq<u8> {
        self.got@
    }
}

impl FrameReader {
    /// A reader that has nothing yet.
    pub fn new() -> (r: FrameReader)
        ensures
            r@ == Seq::<u8>::empty(),
    {
        FrameReader { got: Vec::new() }
    }

    /// What to do next.
    pub fn next_step(&self) -> (step: ReadStep)
        ensures
            step == step_of(self@),
    {
        let have: usize = self.got.len();
        if have < 4 {
            return ReadStep::Read(4 - have);
        }
        let len: u32 = (((self.got[0] as u32) * 256 + self.got[1] as u32) * 256
            + self.got[2] as u32) * 256 + self.got[3] as u32;
        let len: usize = len as usize;
        if len > MAX_FRAME_BYTES {
            ReadStep::TooLarge(len)
        } else if have - 4 < len {
            let lacking: usize = len - (have - 4);
            ReadStep::Read(
                if lacking < READ_CHUNK_BYTES {
                    lacking
                } else {
                    READ_CHUNK_BYTES
                },
            )
        } else {
            ReadStep::Done
        }
    }

    /// Takes in what was read. Nothing at all means that the peer closed.
    pub fn feed(&mut self, chunk: &[u8]) -> (res: Result<(), FrameError>)
        ensures
            final(self)@ == old(self)@ + chunk@,
            match res {
                Ok(_) => chunk@.len() > 0,
                Err(e) => chunk@.len() == 0 && e == FrameError::Closed,
            },
    {
        let mut i: usize = 0;
        while i < chunk.len()
            invariant
                i <= chunk@.len(),
                self@ == old(self)@ + chunk@.take(i as int),
            decreases chunk@.len() - i,
        {
            self.got.push(chunk[i]);
            assert(chunk@.take(i + 1) =~= chunk@.take(i as int).push(chunk@[i as int]));
            assert(self@ =~= old(self)@ + chunk@.take(i + 1));
            i = i + 1;
        }
        assert(chunk@.take(chunk@.len() as int) =~= chunk@);
        if chunk.len() == 0 {
            Err(FrameError::Closed)
        } else {
            Ok(())
        }
    }

    /// The body of a complete frame.
    pub fn into_body(self) -> (body: Vec<u8>)
        requires
            step_of(self@) == ReadStep::Done,
        ensures
            body@ == self@.subrange(4, 4 + be32(self@) as int),
    {
        let len: u32 = (((self.got[0] as u32) * 256 + self.got[1] as u32) * 256
            + self.got[2] as u32) * 256 + self.got[3] as u32;
        let end: usize = 4 + len as usize;
        bytes::copy_of(&self.got.as_slice()[4..end])
    }
}

proof fn lemma_header(n: nat)
    requires
        n <= MAX_FRAME_BYTES,
    ensures
        keys::big_endian(n, 4).len() == 4,
        be32(keys::big_endian(n, 4)) == n,
{
    reveal_with_fuel(keys::big_endian, 5);
    let h = keys::big_endian(n, 4);
    assert(h[3] == (n % 256) as u8);
    assert(h[2] == ((n / 256) % 256) as u8);
    assert(h[1] == ((n / 256 / 256) % 256) as u8);
    assert(h[0] == ((n / 256 / 256 / 256) % 256) as u8);
}

/// A reader that is given a frame and no more is done at its last byte and not
/// before, and has the body that was framed. Until then it asks for at least one
/// byte and never for one past the frame.
pub proof fn law_frame_round_trip(body: Seq<u8>, n: int)
    requires
        body.len() <= MAX_FRAME_BYTES,
        0 <= n <= frame(body).len(),
    ensures
        n < frame(body).len() ==> (step_of(frame(body).take(n)) matches ReadStep::Read(k) && 0 < k
            <= frame(body).len() - n),
        step_of(frame(body)) == ReadStep::Done,
        frame(body).subrange(4, 4 + be32(frame(body)) as int) == body,
{
    lemma_header(body.len());
    let f = frame(body);
    let got = f.take(n);
    if n >= 4 {
        assert(got[0] == f[0] && got[1] == f[1] && got[2] == f[2] && got[3] == f[3]);
    }
    assert(be32(f) == be32(keys::big_endian(body.len(), 4)));
    assert(f.subrange(4, 4 + be32(f) as int) =~= body);
}

/// Frames do not bleed into each other: whatever follows a frame on the stream,
/// a reader that has taken a prefix of the stream and is done has exactly the
/// frame, as long as it was not done earlier.
pub proof fn law_frames_do_not_bleed(body: Seq<u8>, rest: Seq<u8>, n: int)
    requires
        body.len() <= MAX_FRAME_BYTES,
        0 <= n <= (frame(body) + rest).len(),
    ensures
        step_of((frame(body) + rest).take(n)) == ReadStep::Done <==> n >= frame(body).len(),
        n < frame(body).len() ==> (step_of((frame(body) + rest).take(n)) matches ReadStep::Read(k)
            && n + k <= frame(body).len()),
{
    lemma_header(body.len());
    let f = frame(body);
    let got = (f + rest).take(n);
    if n >= 4 {
        let h = keys::big_endian(body.len(), 4);
        assert(got[0] == h[0] && got[1] == h[1] && got[2] == h[2] && got[3] == h[3]);
    }
}

/// A frame that announces more than the cap is refused as soon as its header is
/// there, whatever follows.
pub proof fn law_oversized_frame_is_refused(got: Seq<u8>)
    requires
        got.len() >= 4,
        be32(got) > MAX_FRAME_BYTES,
    ensures
        step_of(got) == ReadStep::TooLarge(be32(got) as usize),
{
}

} // verus!
