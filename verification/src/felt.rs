//! Field elements: non-negative integers modulo the Starknet prime.
//!
//! A felt is stored as four 64-bit limbs, most significant first.  All user
//! data crosses the VM boundary as felts, with conversions to and from
//! 32-byte big-endian strings and small native integers.

use vstd::prelude::*;

verus! {

/// The value of a byte string read as a big-endian integer.
pub open spec fn be_val(s: Seq<u8>) -> int
    decreases s.len(),
{
    if s.len() == 0 {
        0
    } else {
        be_val(s.drop_last()) * 256 + s.last()
    }
}

pub broadcast proof fn lemma_be_val_push(s: Seq<u8>, b: u8)
    ensures
        #[trigger] be_val(s.push(b)) == be_val(s) * 256 + b,
{
    assert(s.push(b).drop_last() =~= s);
}

pub proof fn lemma_be_val_nonneg(s: Seq<u8>)
    ensures
        0 <= be_val(s),
    decreases s.len(),
{
    if s.len() > 0 {
        lemma_be_val_nonneg(s.drop_last());
    }
}

/// 2^64, 2^128 and 2^192 as integers, for assembling limbs.
pub open spec fn p64() -> int {
    0x1_0000_0000_0000_0000int
}

pub open spec fn p128() -> int {
    0x1_0000_0000_0000_0000_0000_0000_0000_0000int
}

pub open spec fn p192() -> int {
    0x1_0000_0000_0000_0000_0000_0000_0000_0000_0000_0000_0000_0000int
}

/// The Starknet prime, 2^251 + 17 * 2^192 + 1.
pub open spec fn prime() -> int {
    0x0800000000000011000000000000000000000000000000000000000000000001int
}

/// A field element, as four 64-bit limbs, most significant first.
#[derive(Clone, Copy, PartialEq, Eq, Structural, Debug)]
pub struct Felt {
    pub l3: u64,
    pub l2: u64,
    pub l1: u64,
    pub l0: u64,
}

impl View for Felt {
    type V = int;

    open spec fn view(&self) -> int {
        self.l3 * p192() + self.l2 * p128() + self.l1 * p64() + self.l0
    }
}

impl Felt {
    /// A felt is well formed when its value lies below the Starknet prime.
    pub open spec fn wf(self) -> bool {
        self@ < prime()
    }

    pub open spec fn spec_zero() -> Felt {
        Felt { l3: 0, l2: 0, l1: 0, l0: 0 }
    }

    pub fn zero() -> (r: Felt)
        ensures
            r@ == 0,
            r.wf(),
    {
        Felt { l3: 0, l2: 0, l1: 0, l0: 0 }
    }

    pub fn one() -> (r: Felt)
        ensures
            r@ == 1,
            r.wf(),
    {
        Felt { l3: 0, l2: 0, l1: 0, l0: 1 }
    }

    pub fn from_u64(x: u64) -> (r: Felt)
        ensures
            r@ == x,
            r.wf(),
    {
        Felt { l3: 0, l2: 0, l1: 0, l0: x }
    }

    /// The canonical limb form of a 128-bit value.
    pub open spec fn spec_of_u128(x: u128) -> Felt {
        Felt {
            l3: 0,
            l2: 0,
            l1: (x / 0x1_0000_0000_0000_0000) as u64,
            l0: (x % 0x1_0000_0000_0000_0000) as u64,
        }
    }

    pub fn from_u128(x: u128) -> (r: Felt)
        ensures
            r@ == x,
            r.wf(),
            r == Felt::spec_of_u128(x),
    {
        let hi: u64 = (x >> 64) as u64;
        let lo: u64 = x as u64;
        proof {
            assert(hi == x as int / p64() && lo == x as int % p64()) by (bit_vector)
                requires
                    hi == (x >> 64u128) as u64 && lo == x as u64,
            ;
            vstd::arithmetic::div_mod::lemma_fundamental_div_mod(x as int, p64());
        }
        Felt { l3: 0, l2: 0, l1: hi, l0: lo }
    }

    /// The value as an unsigned 128-bit integer, when it fits.
    pub fn to_u128(&self) -> (r: Option<u128>)
        ensures
            match r {
                Some(v) => self@ == v,
                None => self@ >= p128(),
            },
    {
        if self.l3 == 0 && self.l2 == 0 {
            let r: u128 = ((self.l1 as u128) << 64) | (self.l0 as u128);
            proof {
                let l1 = self.l1;
                let l0 = self.l0;
                assert(((l1 as u128) << 64u128) | (l0 as u128) == l1 as u128 * 0x1_0000_0000_0000_0000u128 + l0 as u128)
                    by (bit_vector);
            }
            Some(r)
        } else {
            proof {
                lemma_limbs_nonneg(*self);
            }
            None
        }
    }

    /// The value as an unsigned 64-bit integer, when it fits.
    pub fn to_u64(&self) -> (r: Option<u64>)
        ensures
            match r {
                Some(v) => self@ == v,
                None => self@ >= p64(),
            },
    {
        if self.l3 == 0 && self.l2 == 0 && self.l1 == 0 {
            Some(self.l0)
        } else {
            proof {
                lemma_limbs_nonneg(*self);
            }
            None
        }
    }

    pub fn is_zero(&self) -> (r: bool)
        ensures
            r <==> self@ == 0,
    {
        proof {
            lemma_limbs_nonneg(*self);
        }
        self.l3 == 0 && self.l2 == 0 && self.l1 == 0 && self.l0 == 0
    }

    pub fn is_one(&self) -> (r: bool)
        ensures
            r <==> self@ == 1,
    {
        proof {
            lemma_limbs_nonneg(*self);
            lemma_felt_view_injective(*self, Felt { l3: 0, l2: 0, l1: 0, l0: 1 });
        }
        self.l3 == 0 && self.l2 == 0 && self.l1 == 0 && self.l0 == 1
    }

    /// Felts are equal exactly when their values are.
    pub fn eq_felt(&self, other: &Felt) -> (r: bool)
        ensures
            r <==> self@ == other@,
    {
        proof {
            lemma_felt_view_injective(*self, *other);
        }
        self.l3 == other.l3 && self.l2 == other.l2 && self.l1 == other.l1 && self.l0 == other.l0
    }
}

pub proof fn lemma_limbs_nonneg(f: Felt)
    ensures
        f@ >= f.l3 * p192(),
        f@ >= f.l2 * p128(),
        f@ >= f.l1 * p64(),
        f@ >= f.l0,
        f@ >= 0,
{
    assert(f.l3 * p192() >= 0) by (nonlinear_arith)
        requires f.l3 >= 0;
    assert(f.l2 * p128() >= 0) by (nonlinear_arith)
        requires f.l2 >= 0;
    assert(f.l1 * p64() >= 0) by (nonlinear_arith)
        requires f.l1 >= 0;
}

/// Distinct limb quadruples denote distinct values: the limb decomposition
/// of a felt's value is unique.
pub proof fn lemma_felt_view_injective(a: Felt, b: Felt)
    ensures
        (a@ == b@) <==> (a == b),
{
    if a@ == b@ {
        lemma_limb_decomposition(a);
        lemma_limb_decomposition(b);
        assert(a.l3 == b.l3 && a.l2 == b.l2 && a.l1 == b.l1 && a.l0 == b.l0);
    }
}

/// Each limb of a felt is determined by the felt's value.
pub proof fn lemma_limb_decomposition(f: Felt)
    ensures
        f.l0 == f@ % p64(),
        f.l1 == (f@ / p64()) % p64(),
        f.l2 == (f@ / p128()) % p64(),
        f.l3 == f@ / p192(),
{
    let v = f@;
    let q1 = f.l3 * p64() * p64() + f.l2 * p64() + f.l1;
    assert(v == q1 * p64() + f.l0) by (nonlinear_arith)
        requires
            v == f.l3 * p192() + f.l2 * p128() + f.l1 * p64() + f.l0,
            q1 == f.l3 * p64() * p64() + f.l2 * p64() + f.l1,
    ;
    assert(q1 >= 0) by (nonlinear_arith)
        requires q1 == f.l3 * p64() * p64() + f.l2 * p64() + f.l1, f.l3 >= 0, f.l2 >= 0, f.l1 >= 0;
    vstd::arithmetic::div_mod::lemma_fundamental_div_mod_converse(v, p64(), q1, f.l0 as int);
    let q2 = f.l3 * p64() + f.l2;
    assert(q1 == q2 * p64() + f.l1) by (nonlinear_arith)
        requires
            q1 == f.l3 * p64() * p64() + f.l2 * p64() + f.l1,
            q2 == f.l3 * p64() + f.l2,
    ;
    assert(q2 >= 0) by (nonlinear_arith)
        requires q2 == f.l3 * p64() + f.l2, f.l3 >= 0, f.l2 >= 0;
    vstd::arithmetic::div_mod::lemma_fundamental_div_mod_converse(q1, p64(), q2, f.l1 as int);
    vstd::arithmetic::div_mod::lemma_fundamental_div_mod_converse(q2, p64(), f.l3 as int, f.l2 as int);
    assert(v / p64() == q1);
    assert(q1 / p64() == q2);
    assert(v / p128() == q2) by (nonlinear_arith)
        requires
            v / p64() == q1,
            q1 / p64() == q2,
            v >= 0,
            p128() == p64() * p64(),
    {
        vstd::arithmetic::div_mod::lemma_div_denominator(v, p64(), p64());
    }
    assert(q2 / p64() == f.l3);
    assert(v / p192() == f.l3) by (nonlinear_arith)
        requires
            v / p128() == q2,
            q2 / p64() == f.l3,
            v >= 0,
            p192() == p128() * p64(),
    {
        vstd::arithmetic::div_mod::lemma_div_denominator(v, p128(), p64());
    }
}

/// A contract or account identity: a wrapper over a felt.
#[derive(Clone, Copy, PartialEq, Eq, Structural, Debug)]
pub struct ContractAddress(pub Felt);

impl View for ContractAddress {
    type V = int;

    open spec fn view(&self) -> int {
        self.0@
    }
}

impl ContractAddress {
    pub open spec fn wf(self) -> bool {
        self.0.wf()
    }

    pub fn zero() -> (r: ContractAddress)
        ensures
            r@ == 0,
            r.wf(),
    {
        ContractAddress(Felt::zero())
    }
}

/// Identifies a contract class; interconvertible with a felt.
#[derive(Clone, Copy, PartialEq, Eq, Structural, Debug)]
pub struct ClassHash(pub Felt);

impl View for ClassHash {
    type V = int;

    open spec fn view(&self) -> int {
        self.0@
    }
}

impl ClassHash {
    pub open spec fn wf(self) -> bool {
        self.0.wf()
    }
}

/// The values of a sequence of felts.
pub open spec fn felt_views(s: Seq<Felt>) -> Seq<int> {
    s.map_values(|f: Felt| f@)
}

/// Every felt of a sequence is well formed.
pub open spec fn felts_wf(s: Seq<Felt>) -> bool {
    forall|i: int| 0 <= i < s.len() ==> (#[trigger] s[i]).wf()
}

} // verus!

verus! {

/// 256 to the power `n`.
pub open spec fn p256(n: nat) -> int
    decreases n,
{
    if n == 0 {
        1
    } else {
        p256((n - 1) as nat) * 256
    }
}

pub proof fn lemma_p256_pos(n: nat)
    ensures
        p256(n) > 0,
    decreases n,
{
    if n > 0 {
        lemma_p256_pos((n - 1) as nat);
    }
}

pub proof fn lemma_p256_increases(a: nat, b: nat)
    requires
        a <= b,
    ensures
        0 < p256(a) <= p256(b),
    decreases b,
{
    lemma_p256_pos(a);
    if a < b {
        lemma_p256_increases(a, (b - 1) as nat);
        assert(p256((b - 1) as nat) <= p256((b - 1) as nat) * 256) by (nonlinear_arith)
            requires
                p256((b - 1) as nat) > 0,
        ;
    }
}

pub proof fn lemma_p256_64()
    ensures
        p256(8) == p64(),
{
    assert(p256(8) == p64()) by {
        reveal_with_fuel(p256, 9);
    }
}

/// Big-endian reading distributes over concatenation.
pub proof fn lemma_be_val_concat(a: Seq<u8>, b: Seq<u8>)
    ensures
        be_val(a + b) == be_val(a) * p256(b.len()) + be_val(b),
    decreases b.len(),
{
    if b.len() == 0 {
        assert(a + b =~= a);
    } else {
        lemma_be_val_concat(a, b.drop_last());
        assert((a + b).drop_last() =~= a + b.drop_last());
        assert((a + b).last() == b.last());
        assert(be_val(a + b) == (be_val(a) * p256((b.len() - 1) as nat) + be_val(b.drop_last()))
            * 256 + b.last());
        assert(p256(b.len()) == p256((b.len() - 1) as nat) * 256);
        assert(be_val(a) * p256((b.len() - 1) as nat) * 256 == be_val(a) * p256(b.len()))
            by (nonlinear_arith)
            requires
                p256(b.len()) == p256((b.len() - 1) as nat) * 256,
        ;
    }
}

/// A big-endian value is bounded by 256 to the number of bytes.
pub proof fn lemma_be_val_bound(s: Seq<u8>)
    ensures
        0 <= be_val(s) < p256(s.len()),
    decreases s.len(),
{
    if s.len() == 0 {
    } else {
        lemma_be_val_bound(s.drop_last());
        assert(be_val(s.drop_last()) * 256 + s.last() < p256((s.len() - 1) as nat) * 256)
            by (nonlinear_arith)
            requires
                0 <= be_val(s.drop_last()) < p256((s.len() - 1) as nat),
                s.last() < 256,
        ;
    }
}

/// The eight big-endian bytes of a 64-bit integer.
pub open spec fn be8(x: u64) -> Seq<u8> {
    Seq::new(8, |i: int| ((x >> ((56 - 8 * i) as u64)) & 0xff) as u8)
}

/// Appends the eight big-endian bytes of a 64-bit integer.
pub fn push_u64_be(out: &mut Vec<u8>, x: u64)
    ensures
        final(out)@.len() == old(out)@.len() + 8,
        be_val(final(out)@) == be_val(old(out)@) * p64() + x,
        final(out)@ == old(out)@ + be8(x),
{
    broadcast use lemma_be_val_push;

    proof {
        let x = x;
        assert(((x >> 56u64) & 0xff) * 0x100000000000000 + ((x >> 48u64) & 0xff) * 0x1000000000000
            + ((x >> 40u64) & 0xff) * 0x10000000000 + ((x >> 32u64) & 0xff) * 0x100000000 + ((x
            >> 24u64) & 0xff) * 0x1000000 + ((x >> 16u64) & 0xff) * 0x10000 + ((x >> 8u64) & 0xff)
            * 0x100 + (x & 0xff) == x) by (bit_vector);
        assert(((x >> 56u64) & 0xff) < 256 && ((x >> 48u64) & 0xff) < 256 && ((x >> 40u64) & 0xff)
            < 256 && ((x >> 32u64) & 0xff) < 256 && ((x >> 24u64) & 0xff) < 256 && ((x >> 16u64)
            & 0xff) < 256 && ((x >> 8u64) & 0xff) < 256 && (x & 0xff) < 256) by (bit_vector);
    }
    out.push(((x >> 56) & 0xff) as u8);
    out.push(((x >> 48) & 0xff) as u8);
    out.push(((x >> 40) & 0xff) as u8);
    out.push(((x >> 32) & 0xff) as u8);
    out.push(((x >> 24) & 0xff) as u8);
    out.push(((x >> 16) & 0xff) as u8);
    out.push(((x >> 8) & 0xff) as u8);
    out.push((x & 0xff) as u8);
    proof {
        let x = x;
        assert(x >> (56 - 8 * 7) as u64 == x >> 0u64 && x >> 0u64 == x) by (bit_vector);
        assert(out@ =~= old(out)@ + be8(x));
    }
}

/// Reads eight bytes as a big-endian 64-bit integer.
pub fn u64_from_be(bytes: &Vec<u8>, start: usize) -> (r: u64)
    requires
        start + 8 <= bytes@.len(),
    ensures
        r == be_val(bytes@.subrange(start as int, start + 8)),
{
    let ghost chunk = bytes@.subrange(start as int, start + 8);
    let n = bytes.len();
    let mut acc: u64 = 0;
    let mut j: usize = 0;
    while j < 8
        invariant
            0 <= j <= 8,
            n == bytes@.len(),
            start + 8 <= bytes@.len(),
            chunk == bytes@.subrange(start as int, start + 8),
            acc == be_val(chunk.take(j as int)),
            acc < p256(j as nat),
        decreases 8 - j,
    {
        proof {
            broadcast use lemma_be_val_push;

            assert(chunk.take(j + 1) =~= chunk.take(j as int).push(chunk[j as int]));
            assert(p256((j + 1) as nat) == p256(j as nat) * 256);
            lemma_p256_increases((j + 1) as nat, 8);
            lemma_p256_64();
            assert(acc * 256 + bytes@[start + j] < p256(j as nat) * 256) by (nonlinear_arith)
                requires
                    acc < p256(j as nat),
                    bytes@[start + j] < 256,
            ;
        }
        acc = acc * 256 + (bytes[start + j] as u64);
        j = j + 1;
    }
    proof {
        assert(chunk.take(8) =~= chunk);
    }
    acc
}

/// The 32-byte big-endian encoding of a felt, limb by limb.
pub open spec fn felt_be32(f: Felt) -> Seq<u8> {
    be8(f.l3) + be8(f.l2) + be8(f.l1) + be8(f.l0)
}

impl Felt {
    /// The 32-byte big-endian encoding of the value.
    pub fn to_bytes_be(&self) -> (r: Vec<u8>)
        ensures
            r@.len() == 32,
            be_val(r@) == self@,
            r@ == felt_be32(*self),
    {
        let mut out: Vec<u8> = Vec::new();
        push_u64_be(&mut out, self.l3);
        push_u64_be(&mut out, self.l2);
        push_u64_be(&mut out, self.l1);
        push_u64_be(&mut out, self.l0);
        proof {
            assert(be_val(out@) == ((self.l3 * p64() + self.l2) * p64() + self.l1) * p64()
                + self.l0);
            assert(out@ =~= felt_be32(*self));
        }
        out
    }

    /// Decodes a 32-byte big-endian string whose value lies below the prime.
    pub fn from_bytes_be(bytes: &Vec<u8>) -> (r: Felt)
        requires
            bytes@.len() == 32,
            be_val(bytes@) < prime(),
        ensures
            r@ == be_val(bytes@),
            r.wf(),
    {
        let l3 = u64_from_be(bytes, 0);
        let l2 = u64_from_be(bytes, 8);
        let l1 = u64_from_be(bytes, 16);
        let l0 = u64_from_be(bytes, 24);
        proof {
            lemma_be_val_split32(bytes@);
        }
        Felt { l3, l2, l1, l0 }
    }
}

/// A 32-byte string reads as four big-endian 64-bit limbs.
pub proof fn lemma_be_val_split32(s: Seq<u8>)
    requires
        s.len() == 32,
    ensures
        be_val(s) == be_val(s.subrange(0, 8)) * p192() + be_val(s.subrange(8, 16)) * p128()
            + be_val(s.subrange(16, 24)) * p64() + be_val(s.subrange(24, 32)),
{
    let c3 = s.subrange(0, 8);
    let c2 = s.subrange(8, 16);
    let c1 = s.subrange(16, 24);
    let c0 = s.subrange(24, 32);
    assert(s =~= c3 + c2 + c1 + c0);
    lemma_be_val_concat(c3 + c2 + c1, c0);
    lemma_be_val_concat(c3 + c2, c1);
    lemma_be_val_concat(c3, c2);
    lemma_p256_64();
    assert(be_val(s) == (((be_val(c3) * p64() + be_val(c2)) * p64()) + be_val(c1)) * p64()
        + be_val(c0));
}

} // verus!
