//! Per-round digests of a draw, and the candidate index read from each.
//!
//! A round's seed is seventeen bytes: the entropy value, the round number and
//! the time of the draw. Its SHA-256 digest supplies the candidate index.
//! Whoever can predict the entropy value and the time can predict the draw.

use vstd::prelude::*;

verus! {

/// The eight bytes of `x`, least significant first.
pub open spec fn le_bytes(x: u64) -> Seq<u8> {
    seq![
        (x % 0x100) as u8,
        (x / 0x100 % 0x100) as u8,
        (x / 0x1_0000 % 0x100) as u8,
        (x / 0x100_0000 % 0x100) as u8,
        (x / 0x1_0000_0000 % 0x100) as u8,
        (x / 0x100_0000_0000 % 0x100) as u8,
        (x / 0x1_0000_0000_0000 % 0x100) as u8,
        (x / 0x100_0000_0000_0000 % 0x100) as u8,
    ]
}

/// The number whose little-endian bytes are the first eight of `bytes`.
pub open spec fn le_value(bytes: Seq<u8>) -> int {
    bytes[0] as int + bytes[1] as int * 0x100 + bytes[2] as int * 0x1_0000 + bytes[3] as int
        * 0x100_0000 + bytes[4] as int * 0x1_0000_0000 + bytes[5] as int * 0x100_0000_0000
        + bytes[6] as int * 0x1_0000_0000_0000 + bytes[7] as int * 0x100_0000_0000_0000
}

/// A signed time as the unsigned word with the same bits (two's complement).
pub open spec fn time_word(time: i64) -> u64 {
    if time >= 0 {
        time as u64
    } else {
        (time + 0x1_0000_0000_0000_0000) as u64
    }
}

/// The seed of one round: entropy, round number, time.
pub open spec fn seed_bytes(entropy: u64, round: u8, time: i64) -> Seq<u8> {
    le_bytes(entropy) + seq![round] + le_bytes(time_word(time))
}

/// The SHA-256 digest of `data`: the 32 bytes that
/// `anchor_lang::solana_program::hash::hash` returns for it.
pub uninterp spec fn sha256(data: Seq<u8>) -> Seq<u8>;

/// The digest of one round of a draw.
pub open spec fn round_digest(entropy: u64, round: u8, time: i64) -> Seq<u8> {
    sha256(seed_bytes(entropy, round, time))
}

/// The index into a pool of `pool` entries that a digest points at.
pub open spec fn candidate_of(digest: Seq<u8>, pool: usize) -> usize {
    (le_value(digest) % (pool as int)) as usize
}

/// Reading the bytes of a word back gives the word.
pub proof fn lemma_le_round_trip(x: u64)
    ensures
        le_bytes(x).len() == 8,
        le_value(le_bytes(x)) == x,
{
    let q1 = x as int / 0x100;
    let q2 = q1 / 0x100;
    let q3 = q2 / 0x100;
    let q4 = q3 / 0x100;
    let q5 = q4 / 0x100;
    let q6 = q5 / 0x100;
    let q7 = q6 / 0x100;
    assert(q2 == x as int / 0x1_0000);
    assert(q3 == x as int / 0x100_0000);
    assert(q4 == x as int / 0x1_0000_0000);
    assert(q5 == x as int / 0x100_0000_0000);
    assert(q6 == x as int / 0x1_0000_0000_0000);
    assert(q7 == x as int / 0x100_0000_0000_0000);
    assert(q7 < 0x100);
    assert(x as int == x as int % 0x100 + 0x100 * q1);
    assert(q1 == q1 % 0x100 + 0x100 * q2);
    assert(q2 == q2 % 0x100 + 0x100 * q3);
    assert(q3 == q3 % 0x100 + 0x100 * q4);
    assert(q4 == q4 % 0x100 + 0x100 * q5);
    assert(q5 == q5 % 0x100 + 0x100 * q6);
    assert(q6 == q6 % 0x100 + 0x100 * q7);
    let b = le_bytes(x);
    assert(b[0] == x as int % 0x100);
    assert(b[1] == q1 % 0x100);
    assert(b[2] == q2 % 0x100);
    assert(b[3] == q3 % 0x100);
    assert(b[4] == q4 % 0x100);
    assert(b[5] == q5 % 0x100);
    assert(b[6] == q6 % 0x100);
    assert(b[7] == q7);
}

/// Hashes `data` with `anchor_lang::solana_program::hash::hash` and hands
/// out the 32 bytes of the result. Off chain that function feeds the bytes
/// to a SHA-256 hasher and returns what it finalizes to; the contract only
/// names that digest.
#[verifier::external_body]
fn sha256_of(data: &Vec<u8>) -> (digest: [u8; 32])
    ensures
        digest@ == sha256(data@),
{
    anchor_lang::solana_program::hash::hash(data.as_slice()).to_bytes()
}

/// Appends the eight little-endian bytes of `x` to `out`.
fn push_le_bytes(out: &mut Vec<u8>, x: u64)
    ensures
        final(out)@ == old(out)@ + le_bytes(x),
{
    let mut rest: u64 = x;
    let mut i: usize = 0;
    while i < 8
        invariant
            i <= 8,
            out@.len() == old(out)@.len() + i,
            out@ == old(out)@ + le_bytes(x).take(i as int),
            i == 0 ==> rest == x,
            i == 1 ==> rest == x / 0x100,
            i == 2 ==> rest == x / 0x1_0000,
            i == 3 ==> rest == x / 0x100_0000,
            i == 4 ==> rest == x / 0x1_0000_0000,
            i == 5 ==> rest == x / 0x100_0000_0000,
            i == 6 ==> rest == x / 0x1_0000_0000_0000,
            i == 7 ==> rest == x / 0x100_0000_0000_0000,
        decreases 8 - i,
    {
        let byte: u8 = (rest % 0x100) as u8;
        out.push(byte);
        rest = rest / 0x100;
        i += 1;
    }
}

/// The unsigned word with the bits of `time`.
fn time_bits(time: i64) -> (word: u64)
    ensures
        word == time_word(time),
{
    if time >= 0 {
        time as u64
    } else {
        let below: i64 = -(time + 1);
        u64::MAX - (below as u64)
    }
}

/// Builds the seed of one round of a draw.
pub fn draw_seed(entropy: u64, round: u8, time: i64) -> (seed: Vec<u8>)
    ensures
        seed@ == seed_bytes(entropy, round, time),
        seed@.len() == 17,
{
    let mut seed: Vec<u8> = Vec::new();
    push_le_bytes(&mut seed, entropy);
    seed.push(round);
    push_le_bytes(&mut seed, time_bits(time));
    seed
}

/// The digest of one round of a draw: the SHA-256 of the round's seed.
pub fn draw_digest(entropy: u64, round: u8, time: i64) -> (digest: [u8; 32])
    ensures
        digest@ == round_digest(entropy, round, time),
{
    let seed = draw_seed(entropy, round, time);
    sha256_of(&seed)
}

/// Reads the first eight bytes of `digest` as a little-endian number and
/// reduces it modulo the size of the pool.
pub fn candidate_index(digest: &[u8; 32], pool: usize) -> (index: usize)
    requires
        pool > 0,
    ensures
        index == candidate_of(digest@, pool),
        index < pool,
{
    let mut value: u64 = 0;
    let mut i: usize = 8;
    while i > 0
        invariant
            i <= 8,
            i == 8 ==> value == 0,
            i == 7 ==> value == digest[7],
            i == 6 ==> value == digest[6] + digest[7] * 0x100,
            i == 5 ==> value == digest[5] + digest[6] * 0x100 + digest[7] * 0x1_0000,
            i == 4 ==> value == digest[4] + digest[5] * 0x100 + digest[6] * 0x1_0000 + digest[7]
                * 0x100_0000,
            i == 3 ==> value == digest[3] + digest[4] * 0x100 + digest[5] * 0x1_0000 + digest[6]
                * 0x100_0000 + digest[7] * 0x1_0000_0000,
            i == 2 ==> value == digest[2] + digest[3] * 0x100 + digest[4] * 0x1_0000 + digest[5]
                * 0x100_0000 + digest[6] * 0x1_0000_0000 + digest[7] * 0x100_0000_0000,
            i == 1 ==> value == digest[1] + digest[2] * 0x100 + digest[3] * 0x1_0000 + digest[4]
                * 0x100_0000 + digest[5] * 0x1_0000_0000 + digest[6] * 0x100_0000_0000
                + digest[7] * 0x1_0000_0000_0000,
            i == 0 ==> value == le_value(digest@),
        decreases i,
    {
        i -= 1;
        value = value * 0x100 + (digest[i] as u64);
    }
    (value % (pool as u64)) as usize
}

} // verus!
