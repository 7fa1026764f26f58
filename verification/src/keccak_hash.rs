//! Keccak hashing: the trusted Keccak-f[1600] permutation, the keccak-256
//! sponge built over it, and the `sn_keccak` variant that masks the digest
//! down to 250 bits so that it always fits a felt.

use vstd::prelude::*;
use crate::felt::{be_val, p256, prime, Felt, lemma_be_val_concat, lemma_p256_increases, lemma_be_val_bound};

verus! {

/// What the Keccak-f[1600] permutation returns on 25 lanes; a function of
/// the lanes alone.
pub uninterp spec fn keccak_f1600_of(s: Seq<u64>) -> Seq<u64>;

/// Relies on keccak::f1600: applies Keccak-f[1600] in place to 25 lanes; the
/// result depends on the lanes alone and is again 25 lanes.
#[verifier::external_body]
pub fn f1600(state: &mut Vec<u64>)
    requires
        old(state)@.len() == 25,
    ensures
        final(state)@ == keccak_f1600_of(old(state)@),
        final(state)@.len() == 25,
{
    let mut arr = [0u64; 25];
    arr.copy_from_slice(state.as_slice());
    keccak::f1600(&mut arr);
    state.clear();
    state.extend_from_slice(&arr);
}

/// A little-endian 64-bit lane read from eight bytes.
pub open spec fn le64(s: Seq<u8>) -> int {
    be_val(s.reverse())
}

/// Reads eight bytes as a little-endian 64-bit integer.
pub fn u64_from_le(bytes: &Vec<u8>, start: usize) -> (r: u64)
    requires
        start + 8 <= bytes@.len(),
    ensures
        r == le64(bytes@.subrange(start as int, start + 8)),
{
    let ghost chunk = bytes@.subrange(start as int, start + 8);
    let n = bytes.len();
    let mut acc: u64 = 0;
    let mut j: usize = 0;
    while j < 8
        invariant
            0 <= j <= 8,
            n == bytes@.len(),
            start + 8 <= bytes@.len(),
            chunk == bytes@.subrange(start as int, start + 8),
            acc == be_val(chunk.reverse().take(j as int)),
            acc < p256(j as nat),
        decreases 8 - j,
    {
        proof {
            broadcast use crate::felt::lemma_be_val_push;

            assert(chunk.reverse().take(j + 1) =~= chunk.reverse().take(j as int).push(
                chunk.reverse()[j as int],
            ));
            assert(chunk.reverse()[j as int] == chunk[7 - j]);
            assert(chunk[7 - j] == bytes@[start + 7 - j]);
            assert(p256((j + 1) as nat) == p256(j as nat) * 256);
            lemma_p256_increases((j + 1) as nat, 8);
            crate::felt::lemma_p256_64();
            assert(acc * 256 + bytes@[start + 7 - j] < p256(j as nat) * 256) by (nonlinear_arith)
                requires
                    acc < p256(j as nat),
                    bytes@[start + 7 - j] < 256,
            ;
        }
        acc = acc * 256 + (bytes[start + 7 - j] as u64);
        j = j + 1;
    }
    proof {
        assert(chunk.reverse().take(8) =~= chunk.reverse());
    }
    acc
}

/// The eight little-endian bytes of a 64-bit integer.
pub open spec fn le_bytes(x: u64) -> Seq<u8> {
    Seq::new(8, |i: int| ((x >> ((8 * i) as u64)) & 0xff) as u8)
}

/// Appends the eight little-endian bytes of a 64-bit integer.
pub fn push_u64_le(out: &mut Vec<u8>, x: u64)
    ensures
        final(out)@ == old(out)@ + le_bytes(x),
{
    out.push((x & 0xff) as u8);
    out.push(((x >> 8) & 0xff) as u8);
    out.push(((x >> 16) & 0xff) as u8);
    out.push(((x >> 24) & 0xff) as u8);
    out.push(((x >> 32) & 0xff) as u8);
    out.push(((x >> 40) & 0xff) as u8);
    out.push(((x >> 48) & 0xff) as u8);
    out.push(((x >> 56) & 0xff) as u8);
    proof {
        let x = x;
        assert(x >> 0u64 == x) by (bit_vector);
        assert(out@ =~= old(out)@ + le_bytes(x));
    }
}

/// One 136-byte block absorbed into the sponge state: the first seventeen
/// lanes are XORed with the block's little-endian lanes.
pub open spec fn xor_block(state: Seq<u64>, block: Seq<u8>) -> Seq<u64> {
    Seq::new(
        25,
        |j: int|
            if 0 <= j < 17 {
                state[j] ^ (le64(block.subrange(8 * j, 8 * j + 8)) as u64)
            } else {
                state[j]
            },
    )
}

/// The sponge state after absorbing whole 136-byte blocks.
pub open spec fn absorb_blocks(state: Seq<u64>, data: Seq<u8>) -> Seq<u64>
    decreases data.len(),
{
    if data.len() < 136 {
        state
    } else {
        absorb_blocks(keccak_f1600_of(xor_block(state, data.take(136))), data.skip(136))
    }
}

/// The multi-rate padding for rate 136: a one bit, zeros, and a final one
/// bit, filling the message up to a whole number of blocks.
pub open spec fn pad101(n: nat) -> Seq<u8> {
    let padlen = 136 - (n % 136);
    if padlen == 1 {
        seq![0x81u8]
    } else {
        seq![0x01u8] + Seq::new((padlen - 2) as nat, |i: int| 0u8) + seq![0x80u8]
    }
}

/// The 32-byte keccak-256 digest: absorb the padded message from an all-zero
/// state, then read the first four lanes little-endian.
pub open spec fn keccak256_spec(msg: Seq<u8>) -> Seq<u8> {
    let fin = absorb_blocks(Seq::new(25, |i: int| 0u64), msg + pad101(msg.len()));
    lanes_le_bytes(fin)
}

/// The first four lanes of a state, as 32 little-endian bytes.
pub open spec fn lanes_le_bytes(state: Seq<u64>) -> Seq<u8> {
    Seq::new(32, |i: int| ((state[i / 8] >> ((8 * (i % 8)) as u64)) & 0xff) as u8)
}

/// The keccak-256 digest of a byte string.
pub fn keccak256(msg: &Vec<u8>) -> (r: Vec<u8>)
    requires
        msg@.len() + 136 <= usize::MAX,
    ensures
        r@.len() == 32,
        r@ == keccak256_spec(msg@),
{
    let mut data: Vec<u8> = msg.clone();
    let padlen: usize = 136 - (data.len() % 136);
    if padlen == 1 {
        data.push(0x81);
    } else {
        data.push(0x01);
        let mut k: usize = 0;
        while k < padlen - 2
            invariant
                0 <= k <= padlen - 2,
                2 <= padlen <= 136,
                data@ == msg@ + seq![0x01u8] + Seq::new(k as nat, |i: int| 0u8),
                msg@.len() + 136 <= usize::MAX,
                padlen == 136 - (msg@.len() % 136),
            decreases padlen - 2 - k,
        {
            data.push(0x00);
            proof {
                assert(msg@ + seq![0x01u8] + Seq::new((k + 1) as nat, |i: int| 0u8) =~= (msg@
                    + seq![0x01u8] + Seq::new(k as nat, |i: int| 0u8)).push(0u8));
            }
            k = k + 1;
        }
        data.push(0x80);
    }
    proof {
        assert(data@ =~= msg@ + pad101(msg@.len()));
        assert(data@.len() % 136 == 0) by (nonlinear_arith)
            requires
                data@.len() == msg@.len() + 136 - (msg@.len() % 136),
            {
                vstd::arithmetic::div_mod::lemma_mod_self_0(136);
                vstd::arithmetic::div_mod::lemma_fundamental_div_mod(msg@.len() as int, 136);
                vstd::arithmetic::div_mod::lemma_mod_multiples_vanish(
                    msg@.len() as int / 136 + 1,
                    0,
                    136,
                );
            }
    }
    let mut state: Vec<u64> = Vec::new();
    let mut z: usize = 0;
    while z < 25
        invariant
            state@ =~= Seq::new(z as nat, |i: int| 0u64),
            z <= 25,
        decreases 25 - z,
    {
        state.push(0);
        proof {
            assert(Seq::new((z + 1) as nat, |i: int| 0u64) =~= Seq::new(z as nat, |i: int| 0u64)
                .push(0u64));
        }
        z = z + 1;
    }
    let ghost padded = data@;
    let total = data.len();
    proof {
        assert(padded.skip(0) =~= padded);
    }
    let mut off: usize = 0;
    while off < total
        invariant
            data@ == padded,
            total == padded.len(),
            padded.len() % 136 == 0,
            off <= padded.len(),
            off % 136 == 0,
            state@.len() == 25,
            absorb_blocks(state@, padded.skip(off as int)) == absorb_blocks(
                Seq::new(25, |i: int| 0u64),
                padded,
            ),
        decreases padded.len() - off,
    {
        proof {
            assert(padded.len() - off >= 136) by (nonlinear_arith)
                requires
                    padded.len() % 136 == 0,
                    off % 136 == 0,
                    off < padded.len(),
                    off <= padded.len(),
            {
                vstd::arithmetic::div_mod::lemma_mod_equivalence(
                    padded.len() as int,
                    off as int,
                    136,
                );
            }
        }
        let ghost pre_state = state@;
        let mut j: usize = 0;
        while j < 17
            invariant
                data@ == padded,
                total == padded.len(),
                off + 136 <= padded.len(),
                j <= 17,
                state@.len() == 25,
                forall|t: int|
                    0 <= t < 25 ==> state@[t] == if t < j {
                        pre_state[t] ^ (le64(padded.skip(off as int).take(136).subrange(
                            8 * t,
                            8 * t + 8,
                        )) as u64)
                    } else {
                        pre_state[t]
                    },
            decreases 17 - j,
        {
            let lane = u64_from_le(&data, off + 8 * j);
            proof {
                assert(data@.subrange(
                    (off + 8 * j) as int,
                    off + 8 * j + 8,
                ) =~= padded.skip(off as int).take(136).subrange(8 * j as int, 8 * j + 8));
            }
            let old_lane = state[j];
            state.set(j, old_lane ^ lane);
            j = j + 1;
        }
        proof {
            assert(state@ =~= xor_block(pre_state, padded.skip(off as int).take(136)));
        }
        f1600(&mut state);
        proof {
            assert(padded.skip(off as int).skip(136) =~= padded.skip(off + 136));
        }
        off = off + 136;
        proof {
            assert(off % 136 == 0) by (nonlinear_arith)
                requires
                    (off - 136) % 136 == 0,
                    off >= 136,
            {
                vstd::arithmetic::div_mod::lemma_mod_add_multiples_vanish(off - 136, 136);
            }
        }
    }
    proof {
        assert(padded.skip(padded.len() as int) =~= Seq::<u8>::empty());
    }
    let mut out: Vec<u8> = Vec::new();
    push_u64_le(&mut out, state[0]);
    push_u64_le(&mut out, state[1]);
    push_u64_le(&mut out, state[2]);
    push_u64_le(&mut out, state[3]);
    proof {
        assert(out@ =~= le_bytes(state@[0]) + le_bytes(state@[1]) + le_bytes(state@[2]) + le_bytes(
            state@[3],
        ));
        lemma_lanes_le_bytes(state@, out@);
    }
    out
}

/// 32 bytes laid out as the little-endian bytes of the first four lanes are
/// exactly `lanes_le_bytes` of the state.
proof fn lemma_lanes_le_bytes(state: Seq<u64>, out: Seq<u8>)
    requires
        state.len() == 25,
        out == le_bytes(state[0]) + le_bytes(state[1]) + le_bytes(state[2]) + le_bytes(state[3]),
    ensures
        out == lanes_le_bytes(state),
{
    assert(out.len() == 32);
    assert forall|i: int| 0 <= i < 32 implies out[i] == lanes_le_bytes(state)[i] by {
        let g = i / 8;
        let k = i % 8;
        vstd::arithmetic::div_mod::lemma_fundamental_div_mod(i, 8);
        assert(0 <= g < 4 && 0 <= k < 8 && i == 8 * g + k) by (nonlinear_arith)
            requires
                0 <= i < 32,
                g == i / 8,
                k == i % 8,
        ;
        assert(out[8 * g + k] == le_bytes(state[g])[k]);
    }
    assert(out =~= lanes_le_bytes(state));
}

/// The sn-keccak of a byte string: the keccak-256 digest read big-endian,
/// masked down to its low 250 bits.
pub open spec fn sn_keccak_spec(msg: Seq<u8>) -> int {
    be_val(keccak256_spec(msg).update(0, (keccak256_spec(msg)[0] & 0x03) as u8))
}

pub fn sn_keccak(msg: &Vec<u8>) -> (r: Felt)
    requires
        msg@.len() + 136 <= usize::MAX,
    ensures
        r@ == sn_keccak_spec(msg@),
        r.wf(),
{
    let mut digest = keccak256(msg);
    let b0 = digest[0];
    digest.set(0, b0 & 0x03);
    proof {
        assert(b0 & 0x03 < 4) by (bit_vector);
        lemma_masked_digest_below_prime(digest@);
    }
    Felt::from_bytes_be(&digest)
}

/// A 32-byte string whose first byte is below four reads as less than 2^250,
/// which lies below the prime.
proof fn lemma_masked_digest_below_prime(s: Seq<u8>)
    requires
        s.len() == 32,
        s[0] < 4,
    ensures
        be_val(s) < prime(),
{
    let head = s.take(1);
    let rest = s.skip(1);
    assert(s =~= head + rest);
    lemma_be_val_concat(head, rest);
    lemma_be_val_bound(rest);
    assert(head =~= Seq::<u8>::empty().push(s[0]));
    crate::felt::lemma_be_val_push(Seq::<u8>::empty(), s[0]);
    assert(be_val(Seq::<u8>::empty()) == 0);
    assert(be_val(head) == s[0]);
    assert(4 * p256(31) <= prime()) by {
        reveal_with_fuel(p256, 32);
    }
    assert(be_val(head) * p256(31) <= 3 * p256(31)) by (nonlinear_arith)
        requires
            0 <= be_val(head) < 4,
            p256(31) > 0,
    ;
    crate::felt::lemma_p256_pos(31);
}

} // verus!
