//! The keys of the store.
//!
//! An append-only log is keyed by time, big-endian, then by identifier, so the
//! order of its keys is the order of time. A latest-per-subject cell is keyed by
//! agent and subject.
use crate::{kv, text};
use vstd::prelude::*;

verus! {

/// The low `n` bytes of a number, high byte first.
pub open spec fn big_endian(t: nat, n: nat) -> Seq<u8>
    decreases n,
{
    if n == 0 {
        Seq::empty()
    } else {
        big_endian(t / 256, (n - 1) as nat).push((t % 256) as u8)
    }
}

/// The key of an append-only row: eight bytes of time, then the identifier.
pub open spec fn row_key(ts_ns: u64, id: Seq<u8>) -> Seq<u8> {
    big_endian(ts_ns as nat, 8) + id
}

/// Build the 24-byte composite key of an append-only row.
pub fn composite_key(ts_ns: u64, id: &[u8; 16]) -> (key: [u8; 24])
    ensures
        key@ == row_key(ts_ns, id@),
{
    let t0: u64 = ts_ns;
    let t1: u64 = t0 / 256;
    let t2: u64 = t1 / 256;
    let t3: u64 = t2 / 256;
    let t4: u64 = t3 / 256;
    let t5: u64 = t4 / 256;
    let t6: u64 = t5 / 256;
    let t7: u64 = t6 / 256;
    let key: [u8; 24] = [
        (t7 % 256) as u8,
        (t6 % 256) as u8,
        (t5 % 256) as u8,
        (t4 % 256) as u8,
        (t3 % 256) as u8,
        (t2 % 256) as u8,
        (t1 % 256) as u8,
        (t0 % 256) as u8,
        id[0],
        id[1],
        id[2],
        id[3],
        id[4],
        id[5],
        id[6],
        id[7],
        id[8],
        id[9],
        id[10],
        id[11],
        id[12],
        id[13],
        id[14],
        id[15],
    ];
    proof {
        reveal_with_fuel(big_endian, 9);
        assert(big_endian(ts_ns as nat, 8) =~= key@.take(8));
        assert(key@ =~= row_key(ts_ns, id@));
    }
    key
}

/// The key of a latest-per-subject cell: `agent:subject`.
pub open spec fn subject_cell(agent_id: Seq<char>, subject: Seq<char>) -> Seq<char> {
    agent_id + seq![':'] + subject
}

/// Build the latest-per-subject cell key `"{agent_id}:{subject}"`.
pub fn subject_key(agent_id: &str, subject: &str) -> (key: String)
    ensures
        key@ == subject_cell(agent_id@, subject@),
{
    let mut key: String = agent_id.to_owned();
    key.push(':');
    text::push_str(&mut key, subject);
    assert(key@ =~= subject_cell(agent_id@, subject@));
    key
}

/// Agents whose identifiers hold no colon, as assigned identifiers do not, never
/// share a cell: the key determines agent and subject.
pub proof fn law_subject_cells_do_not_collide(
    agent_a: Seq<char>,
    subject_a: Seq<char>,
    agent_b: Seq<char>,
    subject_b: Seq<char>,
)
    requires
        !agent_a.contains(':'),
        !agent_b.contains(':'),
        subject_cell(agent_a, subject_a) == subject_cell(agent_b, subject_b),
    ensures
        agent_a == agent_b,
        subject_a == subject_b,
{
    let key = subject_cell(agent_a, subject_a);
    let n = agent_a.len() as int;
    let m = agent_b.len() as int;
    assert(key[n] == ':');
    assert(subject_cell(agent_b, subject_b)[m] == ':');
    if n < m {
        assert(key[n] == agent_b[n]);
        assert(agent_b.contains(':'));
    } else if m < n {
        assert(key[m] == agent_a[m]);
        assert(agent_a.contains(':'));
    }
    assert(key.take(n) =~= agent_a);
    assert(key.take(n) =~= agent_b);
    assert(key.skip(n + 1) =~= subject_a);
    assert(key.skip(n + 1) =~= subject_b);
}

proof fn lemma_common_prefix(p: Seq<u8>, a: Seq<u8>, b: Seq<u8>)
    ensures
        kv::bytes_less(p + a, p + b) == kv::bytes_less(a, b),
    decreases p.len(),
{
    if p.len() == 0 {
        assert(p + a =~= a);
        assert(p + b =~= b);
    } else {
        assert((p + a).skip(1) =~= p.skip(1) + a);
        assert((p + b).skip(1) =~= p.skip(1) + b);
        lemma_common_prefix(p.skip(1), a, b);
    }
}

/// `256` to the power `n`.
pub open spec fn pow256(n: nat) -> nat
    decreases n,
{
    if n == 0 {
        1
    } else {
        256 * pow256((n - 1) as nat)
    }
}

proof fn lemma_big_endian_order(s: nat, t: nat, n: nat, a: Seq<u8>, b: Seq<u8>)
    requires
        s < t < pow256(n),
    ensures
        kv::bytes_less(big_endian(s, n) + a, big_endian(t, n) + b),
    decreases n,
{
    let m = (n - 1) as nat;
    let hs = big_endian(s / 256, m);
    let ht = big_endian(t / 256, m);
    let ls = seq![(s % 256) as u8];
    let lt = seq![(t % 256) as u8];
    assert(big_endian(s, n) + a =~= hs + (ls + a));
    assert(big_endian(t, n) + b =~= ht + (lt + b));
    if s / 256 < t / 256 {
        lemma_big_endian_order(s / 256, t / 256, m, ls + a, lt + b);
    } else {
        assert(s / 256 == t / 256);
        lemma_common_prefix(hs, ls + a, lt + b);
        assert((ls + a)[0] == (s % 256) as u8);
        assert((lt + b)[0] == (t % 256) as u8);
        assert(s % 256 < t % 256);
    }
}

proof fn lemma_pow256_8()
    ensures
        pow256(8) == 0x1_0000_0000_0000_0000,
{
    reveal_with_fuel(pow256, 9);
}

/// The order of keys is the order of time: an earlier row has the lesser key,
/// whatever the identifiers.
pub proof fn law_key_order_is_time_order(s: u64, id_s: Seq<u8>, t: u64, id_t: Seq<u8>)
    requires
        s < t,
    ensures
        kv::bytes_less(row_key(s, id_s), row_key(t, id_t)),
{
    lemma_pow256_8();
    lemma_big_endian_order(s as nat, t as nat, 8, id_s, id_t);
}

/// Rows of one time are in the order of their identifiers.
pub proof fn law_key_order_at_one_time(ts_ns: u64, a: Seq<u8>, b: Seq<u8>)
    ensures
        kv::bytes_less(row_key(ts_ns, a), row_key(ts_ns, b)) == kv::bytes_less(a, b),
{
    lemma_common_prefix(big_endian(ts_ns as nat, 8), a, b);
}

/// The least key of a time: its eight bytes, then zeros.
pub open spec fn cutoff_key(ts_ns: u64) -> Seq<u8> {
    row_key(ts_ns, Seq::new(16, |i: int| 0u8))
}

proof fn lemma_not_below_zeros(a: Seq<u8>, zeros: Seq<u8>)
    requires
        a.len() == zeros.len(),
        forall|i: int| 0 <= i < zeros.len() ==> zeros[i] == 0u8,
    ensures
        !kv::bytes_less(a, zeros),
    decreases a.len(),
{
    if a.len() > 0 && a[0] == zeros[0] {
        lemma_not_below_zeros(a.skip(1), zeros.skip(1));
    }
}

pub proof fn lemma_less_is_asymmetric(a: Seq<u8>, b: Seq<u8>)
    requires
        kv::bytes_less(a, b),
    ensures
        !kv::bytes_less(b, a),
    decreases a.len(),
{
    if a.len() > 0 && a[0] == b[0] {
        lemma_less_is_asymmetric(a.skip(1), b.skip(1));
    }
}

/// A row is below the cutoff key of a time exactly if it is older than that time.
pub proof fn law_cutoff_separates_by_age(ts_ns: u64, id: Seq<u8>, cutoff_ns: u64)
    requires
        id.len() == 16,
    ensures
        kv::bytes_less(row_key(ts_ns, id), cutoff_key(cutoff_ns)) <==> ts_ns < cutoff_ns,
{
    let zeros = Seq::new(16, |i: int| 0u8);
    if ts_ns < cutoff_ns {
        law_key_order_is_time_order(ts_ns, id, cutoff_ns, zeros);
    } else if cutoff_ns < ts_ns {
        law_key_order_is_time_order(cutoff_ns, zeros, ts_ns, id);
        lemma_less_is_asymmetric(cutoff_key(cutoff_ns), row_key(ts_ns, id));
    } else {
        lemma_common_prefix(big_endian(ts_ns as nat, 8), id, zeros);
        lemma_not_below_zeros(id, zeros);
    }
}

} // verus!
