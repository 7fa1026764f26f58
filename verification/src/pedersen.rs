//! The Pedersen hash primitive and the hash chains built over it: the
//! deterministic contract-address derivation and the deploy-transaction hash.

use vstd::prelude::*;
use crate::felt::{be_val, prime, p64, p128, p192, Felt, ContractAddress, ClassHash, felt_views, felts_wf};

verus! {

/// What the Starkware Pedersen hash returns on two field elements; a
/// function of its arguments alone.
pub uninterp spec fn pedersen_of(x: int, y: int) -> int;

/// Relies on starknet_crypto::pedersen_hash: the Pedersen hash of two field
/// elements, again a field element; both inputs are given canonically, below
/// the prime, so no reduction happens on the way in.
#[verifier::external_body]
fn pedersen_bytes(a: &Vec<u8>, b: &Vec<u8>) -> (r: Vec<u8>)
    requires
        a@.len() == 32,
        b@.len() == 32,
        be_val(a@) < prime(),
        be_val(b@) < prime(),
    ensures
        r@.len() == 32,
        be_val(r@) == pedersen_of(be_val(a@), be_val(b@)),
        be_val(r@) < prime(),
{
    let x = starknet_crypto::Felt::from_bytes_be(a.as_slice().try_into().unwrap());
    let y = starknet_crypto::Felt::from_bytes_be(b.as_slice().try_into().unwrap());
    starknet_crypto::pedersen_hash(&x, &y).to_bytes_be().to_vec()
}

/// The Pedersen hash of two felts.
pub fn pedersen(a: &Felt, b: &Felt) -> (r: Felt)
    requires
        a.wf(),
        b.wf(),
    ensures
        r@ == pedersen_of(a@, b@),
        r.wf(),
{
    let ab = a.to_bytes_be();
    let bb = b.to_bytes_be();
    let rb = pedersen_bytes(&ab, &bb);
    Felt::from_bytes_be(&rb)
}

/// A left fold of the Pedersen hash over a sequence of values.
pub open spec fn pedersen_chain(acc: int, vals: Seq<int>) -> int
    decreases vals.len(),
{
    if vals.len() == 0 {
        acc
    } else {
        pedersen_chain(pedersen_of(acc, vals.first()), vals.drop_first())
    }
}

pub proof fn lemma_pedersen_chain_push(acc: int, vals: Seq<int>, x: int)
    ensures
        pedersen_chain(acc, vals.push(x)) == pedersen_of(pedersen_chain(acc, vals), x),
    decreases vals.len(),
{
    if vals.len() == 0 {
        assert(vals.push(x).first() == x);
        assert(vals.push(x).drop_first() =~= Seq::<int>::empty());
        assert(pedersen_chain(acc, vals) == acc);
        assert(pedersen_chain(acc, vals.push(x)) == pedersen_chain(
            pedersen_of(acc, x),
            Seq::<int>::empty(),
        ));
        assert(pedersen_chain(pedersen_of(acc, x), Seq::<int>::empty()) == pedersen_of(acc, x));
    } else {
        assert(vals.push(x).first() == vals.first());
        assert(vals.push(x).drop_first() =~= vals.drop_first().push(x));
        assert(pedersen_chain(acc, vals.push(x)) == pedersen_chain(
            pedersen_of(acc, vals.first()),
            vals.drop_first().push(x),
        ));
        lemma_pedersen_chain_push(pedersen_of(acc, vals.first()), vals.drop_first(), x);
        assert(pedersen_chain(acc, vals) == pedersen_chain(
            pedersen_of(acc, vals.first()),
            vals.drop_first(),
        ));
    }
}

/// The Starkware hash of a list of elements: fold the Pedersen hash over
/// them from zero, then hash in the length.
pub open spec fn hash_elements_spec(vals: Seq<int>) -> int {
    pedersen_of(pedersen_chain(0, vals), vals.len() as int)
}

/// Computes the Starkware hash of a list of felts.
pub fn compute_hash_on_elements(vals: &Vec<Felt>) -> (r: Felt)
    requires
        felts_wf(vals@),
        vals@.len() < p64(),
    ensures
        r@ == hash_elements_spec(felt_views(vals@)),
        r.wf(),
{
    let mut acc = Felt::zero();
    let mut i: usize = 0;
    while i < vals.len()
        invariant
            0 <= i <= vals@.len(),
            felts_wf(vals@),
            vals@.len() < p64(),
            acc.wf(),
            acc@ == pedersen_chain(0, felt_views(vals@).take(i as int)),
        decreases vals@.len() - i,
    {
        proof {
            assert(felt_views(vals@).take(i + 1) =~= felt_views(vals@).take(i as int).push(
                vals@[i as int]@,
            ));
            lemma_pedersen_chain_push(0, felt_views(vals@).take(i as int), vals@[i as int]@);
        }
        acc = pedersen(&acc, &vals[i]);
        i = i + 1;
    }
    proof {
        assert(felt_views(vals@).take(vals@.len() as int) =~= felt_views(vals@));
    }
    let len_felt = Felt::from_u64(vals.len() as u64);
    pedersen(&acc, &len_felt)
}

/// Addresses are reduced modulo 2^251 - 256.
pub open spec fn addr_bound() -> int {
    0x07ffffffffffffffffffffffffffffffffffffffffffffffffffffffffffff00int
}

/// Reduces a felt modulo the address bound.  Because the bound exceeds half
/// the prime, at most one subtraction is needed.
pub fn felt_mod_addr_bound(f: &Felt) -> (r: Felt)
    requires
        f.wf(),
    ensures
        r@ == f@ % addr_bound(),
        r.wf(),
{
    let a3: u64 = 0x07ffffffffffffff;
    let a0: u64 = 0xffffffffffffff00;
    let ge = if f.l3 > a3 {
        true
    } else if f.l3 < a3 {
        false
    } else if f.l2 < 0xffffffffffffffff {
        false
    } else if f.l1 < 0xffffffffffffffff {
        false
    } else {
        f.l0 >= a0
    };
    proof {
        lemma_addr_bound_compare(*f, ge);
    }
    if ge {
        proof {
            crate::felt::lemma_limbs_nonneg(*f);
        }
        let r = if f.l3 > a3 {
            let d3 = f.l3 - a3 - 1;
            let (s0, c0): (u64, bool) = if f.l0 <= u64::MAX - 256 {
                (f.l0 + 256, false)
            } else {
                (f.l0 - a0, true)
            };
            let (s1, c1): (u64, bool) = if !c0 {
                (f.l1, false)
            } else if f.l1 < u64::MAX {
                (f.l1 + 1, false)
            } else {
                (0, true)
            };
            let (s2, c2): (u64, bool) = if !c1 {
                (f.l2, false)
            } else if f.l2 < u64::MAX {
                (f.l2 + 1, false)
            } else {
                (0, true)
            };
            proof {
                // The prime's high limb bounds l3, so the difference's high
                // limb cannot overflow even after a carry.
                assert(f.l3 * p192() <= f@);
                assert(f.l3 <= 0x0800000000000011u64) by (nonlinear_arith)
                    requires
                        f.l3 * p192() <= f@,
                        f@ < prime(),
                ;
            }
            let r3 = if c2 {
                d3 + 1
            } else {
                d3
            };
            let r = Felt { l3: r3, l2: s2, l1: s1, l0: s0 };
            proof {
                assert(r@ == f@ - addr_bound());
            }
            r
        } else {
            Felt { l3: 0, l2: 0, l1: 0, l0: f.l0 - a0 }
        };
        proof {
            assert(r@ == f@ - addr_bound());
            assert(f@ - addr_bound() < addr_bound());
            vstd::arithmetic::div_mod::lemma_fundamental_div_mod_converse(
                f@,
                addr_bound(),
                1,
                f@ - addr_bound(),
            );
        }
        r
    } else {
        proof {
            crate::felt::lemma_limbs_nonneg(*f);
            vstd::arithmetic::div_mod::lemma_small_mod(f@ as nat, addr_bound() as nat);
        }
        *f
    }
}

/// The lexicographic limb comparison decides order against the address
/// bound.
proof fn lemma_addr_bound_compare(f: Felt, ge: bool)
    requires
        f.wf(),
        ge == (f.l3 > 0x07ffffffffffffffu64 || (f.l3 == 0x07ffffffffffffffu64 && f.l2
            == 0xffffffffffffffffu64 && f.l1 == 0xffffffffffffffffu64 && f.l0
            >= 0xffffffffffffff00u64)),
    ensures
        ge <==> f@ >= addr_bound(),
{
    let v = f@;
    assert(f.l2 * p128() <= 0xffffffffffffffffu64 * p128()) by (nonlinear_arith)
        requires
            f.l2 <= 0xffffffffffffffffu64,
    ;
    assert(f.l1 * p64() <= 0xffffffffffffffffu64 * p64()) by (nonlinear_arith)
        requires
            f.l1 <= 0xffffffffffffffffu64,
    ;
    crate::felt::lemma_limbs_nonneg(f);
    if f.l3 > 0x07ffffffffffffffu64 {
        assert(f.l3 * p192() >= 0x0800000000000000u64 * p192()) by (nonlinear_arith)
            requires
                f.l3 >= 0x0800000000000000u64,
        ;
        assert(v >= addr_bound());
    } else if f.l3 < 0x07ffffffffffffffu64 {
        assert(f.l3 * p192() <= 0x07fffffffffffffeu64 * p192()) by (nonlinear_arith)
            requires
                f.l3 <= 0x07fffffffffffffeu64,
        ;
        assert(v < addr_bound());
    } else {
        if f.l2 == 0xffffffffffffffffu64 && f.l1 == 0xffffffffffffffffu64 && f.l0
            >= 0xffffffffffffff00u64 {
            assert(v >= addr_bound());
        } else {
            if f.l2 < 0xffffffffffffffffu64 {
                assert(f.l2 * p128() <= 0xfffffffffffffffeu64 * p128()) by (nonlinear_arith)
                    requires
                        f.l2 <= 0xfffffffffffffffeu64,
                ;
                assert(v < addr_bound());
            } else if f.l1 < 0xffffffffffffffffu64 {
                assert(f.l1 * p64() <= 0xfffffffffffffffeu64 * p64()) by (nonlinear_arith)
                    requires
                        f.l1 <= 0xfffffffffffffffeu64,
                ;
                assert(v < addr_bound());
            } else {
                assert(f.l0 < 0xffffffffffffff00u64);
                assert(v < addr_bound());
            }
        }
    }
}

/// The felt of the ASCII string `STARKNET_CONTRACT_ADDRESS`, the domain
/// separator of the address derivation.
pub open spec fn contract_address_prefix() -> int {
    523065374597054866729014270389667305596563390979550329787219int
}

/// The felt of the ASCII string `deploy`, the domain separator of the
/// deploy-transaction hash.
pub open spec fn deploy_prefix() -> int {
    110386840629113int
}

/// The deterministic contract address derived from a deploy: the Starkware
/// hash of the prefix, the deployer, the salt, the class hash and the hash
/// of the constructor calldata, reduced modulo the address bound.
pub open spec fn contract_address_spec(
    salt: int,
    class_hash: int,
    calldata: Seq<int>,
    deployer: int,
) -> int {
    hash_elements_spec(
        seq![
            contract_address_prefix(),
            deployer,
            salt,
            class_hash,
            hash_elements_spec(calldata),
        ],
    ) % addr_bound()
}

/// Computes the address at which a deploy with these parameters lands.
pub fn calculate_contract_address(
    salt: &Felt,
    class_hash: &ClassHash,
    constructor_calldata: &Vec<Felt>,
    deployer_address: &ContractAddress,
) -> (r: Felt)
    requires
        salt.wf(),
        class_hash.wf(),
        felts_wf(constructor_calldata@),
        constructor_calldata@.len() < p64(),
        deployer_address.wf(),
    ensures
        r@ == contract_address_spec(
            salt@,
            class_hash@,
            felt_views(constructor_calldata@),
            deployer_address@,
        ),
        r.wf(),
{
    let calldata_hash = compute_hash_on_elements(constructor_calldata);
    let prefix = Felt { l3: 83, l2: 6071224256061330527, l1: 4850181447765541716, l0: 6863842367318086483 };
    proof {
        assert(prefix@ == contract_address_prefix());
    }
    let mut items: Vec<Felt> = Vec::new();
    items.push(prefix);
    items.push(deployer_address.0);
    items.push(*salt);
    items.push(class_hash.0);
    items.push(calldata_hash);
    proof {
        assert(felt_views(items@) =~= seq![
            contract_address_prefix(),
            deployer_address@,
            salt@,
            class_hash@,
            hash_elements_spec(felt_views(constructor_calldata@)),
        ]);
    }
    let h = compute_hash_on_elements(&items);
    felt_mod_addr_bound(&h)
}

/// The hash of a deploy transaction: the Starkware hash of the `deploy`
/// prefix, the version, the deployed address, the constructor selector, the
/// hash of the calldata, a zero fee, and the chain id.
pub open spec fn deploy_tx_hash_spec(
    version: int,
    contract_address: int,
    constructor_selector: int,
    calldata: Seq<int>,
    chain_id: int,
) -> int {
    hash_elements_spec(
        seq![
            deploy_prefix(),
            version,
            contract_address,
            constructor_selector,
            hash_elements_spec(calldata),
            0,
            chain_id,
        ],
    )
}

pub fn calculate_deploy_transaction_hash(
    version: &Felt,
    contract_address: &ContractAddress,
    constructor_selector: &Felt,
    constructor_calldata: &Vec<Felt>,
    chain_id: &Felt,
) -> (r: Felt)
    requires
        version.wf(),
        contract_address.wf(),
        constructor_selector.wf(),
        felts_wf(constructor_calldata@),
        constructor_calldata@.len() < p64(),
        chain_id.wf(),
    ensures
        r@ == deploy_tx_hash_spec(
            version@,
            contract_address@,
            constructor_selector@,
            felt_views(constructor_calldata@),
            chain_id@,
        ),
        r.wf(),
{
    let calldata_hash = compute_hash_on_elements(constructor_calldata);
    let prefix = Felt { l3: 0, l2: 0, l1: 0, l0: 110386840629113 };
    let mut items: Vec<Felt> = Vec::new();
    items.push(prefix);
    items.push(*version);
    items.push(contract_address.0);
    items.push(*constructor_selector);
    items.push(calldata_hash);
    items.push(Felt::zero());
    items.push(*chain_id);
    proof {
        assert(felt_views(items@) =~= seq![
            deploy_prefix(),
            version@,
            contract_address@,
            constructor_selector@,
            hash_elements_spec(felt_views(constructor_calldata@)),
            0int,
            chain_id@,
        ]);
    }
    compute_hash_on_elements(&items)
}

} // verus!
