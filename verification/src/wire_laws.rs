//! Laws of what goes over the wire and into keys: the bytes of a frame and of a key,
//! which certificate is trusted, what is signed, and what is remembered as seen.
use crate::dedup::{self, DedupWindow};
use crate::pin::{self, PinError, PinnedVerifier, PIN_LEN};
use crate::proto::{self, FrameError, FrameReader, ReadStep};
use crate::{crypto, encoding, keys, text, tls};
use vstd::prelude::*;
use vstd::utf8;

verus! {

/// The key of a row is its time, high byte first, and then its identifier.
pub proof fn law_key_bytes(ts_ns: u64, id: &[u8; 16], key: [u8; 24])
    requires
        call_ensures(keys::composite_key, (ts_ns, id), key),
    ensures
        key@.len() == 24,
        key@ == keys::row_key(ts_ns, id@),
        key@[7] == ts_ns % 256,
        key@[6] == ts_ns / 0x100 % 256,
        key@[5] == ts_ns / 0x1_0000 % 256,
        key@[4] == ts_ns / 0x100_0000 % 256,
        key@[3] == ts_ns / 0x1_0000_0000 % 256,
        key@[2] == ts_ns / 0x100_0000_0000 % 256,
        key@[1] == ts_ns / 0x1_0000_0000_0000 % 256,
        key@[0] == ts_ns / 0x100_0000_0000_0000 % 256,
        forall|i: int| 0 <= i < 16 ==> #[trigger] key@[8 + i] == id@[i],
{
    reveal_with_fuel(keys::big_endian, 9);
    let t = ts_ns as nat;
    assert(t / 256 / 256 == t / 0x1_0000);
    assert(t / 0x1_0000 / 256 == t / 0x100_0000);
    assert(t / 0x100_0000 / 256 == t / 0x1_0000_0000);
    assert(t / 0x1_0000_0000 / 256 == t / 0x100_0000_0000);
    assert(t / 0x100_0000_0000 / 256 == t / 0x1_0000_0000_0000);
    assert(t / 0x1_0000_0000_0000 / 256 == t / 0x100_0000_0000_0000);
    let head = keys::big_endian(t, 8);
    assert(head.len() == 8);
    assert forall|i: int| 0 <= i < 16 implies #[trigger] key@[8 + i] == id@[i] by {
        assert(key@[8 + i] == (head + id@)[8 + i]);
    }
}

/// A frame is the length of its body in four bytes, high byte first, and the body. A
/// body of more than sixteen mebibytes makes none.
pub proof fn law_frame_bytes(body: &[u8], res: Result<Vec<u8>, FrameError>)
    requires
        call_ensures(proto::encode_frame, (body,), res),
    ensures
        res is Ok <==> body@.len() <= 16 * 1024 * 1024,
        res matches Ok(out) ==> {
            let n = body@.len();
            &&& out@.len() == 4 + n
            &&& out@[0] == n / 0x100_0000
            &&& out@[1] == n / 0x1_0000 % 256
            &&& out@[2] == n / 0x100 % 256
            &&& out@[3] == n % 256
            &&& out@.skip(4) == body@
        },
        res matches Err(e) ==> e == FrameError::TooLarge(body@.len() as usize),
{
    if let Ok(out) = res {
        let n = body@.len();
        reveal_with_fuel(keys::big_endian, 5);
        assert(n / 256 / 256 == n / 0x1_0000);
        assert(n / 0x1_0000 / 256 == n / 0x100_0000);
        let head = keys::big_endian(n, 4);
        assert(head.len() == 4);
        assert(out@.skip(4) =~= body@);
    }
}

/// A reader first asks for the four bytes of the length, then for the body in chunks of
/// no more than 65536 bytes, and is done when it has it all; a length of more than
/// sixteen mebibytes is refused.
pub proof fn law_reader_asks_for_what_it_lacks(reader: &FrameReader, step: ReadStep)
    requires
        call_ensures(FrameReader::next_step, (reader,), step),
    ensures
        ({
            let got = reader@;
            let n = got[0] * 0x100_0000 + got[1] * 0x1_0000 + got[2] * 0x100 + got[3];
            let lacking = n - (got.len() - 4);
            &&& got.len() < 4 ==> step == ReadStep::Read((4 - got.len()) as usize)
            &&& got.len() >= 4 && n > 16 * 1024 * 1024 ==> step == ReadStep::TooLarge(n as usize)
            &&& got.len() >= 4 && n <= 16 * 1024 * 1024 ==> {
                &&& lacking <= 0 ==> step == ReadStep::Done
                &&& 0 < lacking < 65536 ==> step == ReadStep::Read(lacking as usize)
                &&& lacking >= 65536 ==> step == ReadStep::Read(65536)
            }
        }),
{
}

/// What is fed to a reader is kept, and a frame that is fed whole comes out as its body.
pub proof fn law_fed_frame_comes_out_whole(
    body: &[u8],
    frame: Vec<u8>,
    reader: &mut FrameReader,
    chunk: &[u8],
    fed: Result<(), FrameError>,
    after: FrameReader,
    step: ReadStep,
    out: Vec<u8>,
)
    requires
        call_ensures(proto::encode_frame, (body,), Ok::<Vec<u8>, FrameError>(frame)),
        call_ensures(FrameReader::new, (), *old(reader)),
        chunk@ == frame@,
        call_ensures(FrameReader::feed, (reader, chunk), fed),
        after == *final(reader),
        call_ensures(FrameReader::next_step, (&after,), step),
        call_ensures(FrameReader::into_body, (after,), out),
    ensures
        fed is Ok,
        step == ReadStep::Done,
        out@ == body@,
{
    assert(Seq::<u8>::empty() + chunk@ =~= chunk@);
    proto::law_frame_round_trip(body@, frame@.len() as int);
    assert(frame@.take(frame@.len() as int) =~= frame@);
}

/// Feeding nothing is the end of the connection, and changes nothing; feeding anything
/// appends it.
pub proof fn law_feeding_appends(
    reader: &mut FrameReader,
    chunk: &[u8],
    fed: Result<(), FrameError>,
)
    requires
        call_ensures(FrameReader::feed, (reader, chunk), fed),
    ensures
        final(reader)@ == old(reader)@ + chunk@,
        fed is Ok <==> chunk@.len() > 0,
        fed matches Err(e) ==> e == FrameError::Closed,
{
}

/// The protocol's version and limits.
pub proof fn law_protocol_constants()
    ensures
        proto::PROTO_VERSION == 1,
        proto::MAX_FRAME_BYTES == 16 * 1024 * 1024,
        PIN_LEN == 32,
{
}

/// A window of fewer than 65536 identifiers remembers all of them and the new one; a
/// full one first forgets the 16384 that came first. An identifier is fresh if what is
/// left does not have it.
pub proof fn law_window_forgets_its_oldest_quarter(
    window: &mut DedupWindow,
    id: u128,
    fresh: bool,
)
    requires
        old(window).wf(),
        call_ensures(DedupWindow::insert, (window, id), fresh),
    ensures
        old(window)@.len() < 65_536 ==> {
            &&& fresh <==> !old(window)@.contains(id)
            &&& fresh ==> final(window)@ == old(window)@.push(id)
            &&& !fresh ==> final(window)@ == old(window)@
        },
        old(window)@.len() >= 65_536 ==> {
            let kept = old(window)@.skip(16_384);
            &&& fresh <==> !kept.contains(id)
            &&& fresh ==> final(window)@ == kept.push(id)
            &&& !fresh ==> final(window)@ == kept
        },
        final(window).wf(),
{
}

/// A new window is empty, and a window says how many it remembers.
pub proof fn law_new_window_is_empty(fresh: DedupWindow, n: usize)
    requires
        call_ensures(DedupWindow::new, (), fresh),
        call_ensures(DedupWindow::len, (&fresh,), n),
    ensures
        n == 0,
        fresh.wf(),
{
}

/// Different identifiers have different numbers.
pub proof fn law_identifiers_have_their_own_numbers(
    a: &[u8; 16],
    b: &[u8; 16],
    number_a: u128,
    number_b: u128,
)
    requires
        call_ensures(dedup::id_number, (a,), number_a),
        call_ensures(dedup::id_number, (b,), number_b),
    ensures
        number_a == number_b <==> a@ == b@,
{
    if number_a == number_b {
        dedup::law_numbers_tell_ids_apart(a@, b@);
    }
}

/// A pin is read from hexadecimal text of thirty-two bytes, whitespace around it aside.
pub proof fn law_pin_is_read_from_hex(s: &str, out: Option<[u8; PIN_LEN]>)
    requires
        call_ensures(pin::parse_pin_hex, (s,), out),
    ensures
        out is Some <==> (encoding::unhex(text::trimmed(s@)) matches Some(raw) && raw.len() == 32),
        out matches Some(p) ==> encoding::unhex(text::trimmed(s@)) == Some(p@),
{
}

/// Thirty-two bytes are taken as they are; two pins are equal if all their bytes are; a
/// fingerprint is the hash of the certificate.
pub proof fn law_pins_are_hashes(
    bytes: &[u8],
    array: Option<[u8; 32]>,
    a: &[u8; PIN_LEN],
    b: &[u8; PIN_LEN],
    eq: bool,
    cert: &[u8],
    fingerprint: [u8; PIN_LEN],
)
    requires
        call_ensures(pin::array32, (bytes,), array),
        call_ensures(pin::ct_eq, (a, b), eq),
        call_ensures(pin::fingerprint, (cert,), fingerprint),
    ensures
        array is Some <==> bytes@.len() == 32,
        array matches Some(x) ==> x@ == bytes@,
        eq <==> a@ == b@,
        fingerprint@ == crypto::sha256_of(cert@),
{
}

/// A server is trusted exactly if the hash of its certificate is one of the pins.
pub proof fn law_server_is_trusted_by_its_pin(
    pins: Vec<[u8; PIN_LEN]>,
    verifier: PinnedVerifier,
    cert: &[u8],
    res: Result<(), PinError>,
)
    requires
        call_ensures(PinnedVerifier::new, (pins,), verifier),
        call_ensures(PinnedVerifier::verify_server_cert, (&verifier, cert), res),
    ensures
        res is Ok <==> exists|i: int|
            0 <= i < pins@.len() && (#[trigger] pins@[i])@ == crypto::sha256_of(cert@),
        res matches Err(e) ==> e == PinError::Mismatch,
{
    let hash = crypto::sha256_of(cert@);
    let list = pin::pin_list(pins@);
    if list.contains(hash) {
        let i = choose|i: int| 0 <= i < list.len() && list[i] == hash;
        assert(pins@[i]@ == hash);
    }
    if exists|i: int| 0 <= i < pins@.len() && (#[trigger] pins@[i])@ == hash {
        let i = choose|i: int| 0 <= i < pins@.len() && (#[trigger] pins@[i])@ == hash;
        assert(list[i] == hash);
    }
}

/// What is said of a server that is not trusted.
pub proof fn law_pin_message(error: &PinError, said: String)
    requires
        call_ensures(PinError::to_string, (error,), said),
    ensures
        said@ == "server certificate pin mismatch"@,
{
}

/// What an agent signs is the hash of the label, the pin, its identifier, the nonce and
/// the keying material, one after another.
pub proof fn law_signed_digest(
    pin: &[u8; PIN_LEN],
    agent_id: &str,
    nonce: &[u8; 32],
    tls_exporter: &[u8],
    digest: [u8; 32],
)
    requires
        call_ensures(tls::auth_challenge_digest, (pin, agent_id, nonce, tls_exporter), digest),
    ensures
        digest@ == crypto::sha256_of(
            utf8::encode_utf8("aegis-session-auth-v1"@) + pin@ + utf8::encode_utf8(agent_id@)
                + nonce@ + tls_exporter@,
        ),
{
}

} // verus!
