use vstd::arithmetic::div_mod::{lemma_mul_mod_noop_left, lemma_mul_mod_noop_right};
use vstd::arithmetic::mul::lemma_mul_is_associative;
use vstd::prelude::*;

use crate::errors::TinTinError;

verus! {

/// An owner's pre-verified principal identifier: 32 identity bytes.
pub type OwnerId = [u8; 32];

/// A canonical record address, derived purely from an owner identity and a
/// disambiguator; no external index is needed to locate a portfolio.
pub type Address = u64;

/// FNV-1a 64-bit offset basis: the accumulator every derivation starts from.
pub const FNV_OFFSET_BASIS: u64 = 0xcbf29ce484222325;

/// FNV-1a 64-bit prime, the multiplier of each absorption step.
pub const FNV_PRIME: u64 = 0x100000001b3;

/// Multiplicative inverse of `FNV_PRIME` modulo 2^64; it exists because the
/// prime is odd, and it makes each absorption step reversible.
pub const FNV_PRIME_INVERSE: u64 = 0xce965057aff6957b;

/// Domain-separation tag absorbed before the owner bytes, so that portfolio
/// addresses cannot collide with addresses derived for another record kind.
pub const PORTFOLIO_DOMAIN_TAG: u8 = 0x50;

/// One FNV-1a step: fold a byte into the accumulator, then multiply by the
/// prime modulo 2^64.
pub open spec fn fnv_step(h: u64, b: u8) -> u64 {
    ((((h ^ (b as u64)) as int) * (FNV_PRIME as int)) % 0x10000000000000000) as u64
}

/// Absorb a byte sequence into the accumulator, first byte first.
pub open spec fn fnv_absorb(h: u64, bytes: Seq<u8>) -> u64
    decreases bytes.len(),
{
    if bytes.len() == 0 {
        h
    } else {
        fnv_step(fnv_absorb(h, bytes.drop_last()), bytes.last())
    }
}

/// The canonical address of the portfolio owned by `owner` under
/// `disambiguator`: the domain tag, the 32 owner bytes, and the
/// disambiguator absorbed in that order.
pub open spec fn spec_derive_address(owner: Seq<u8>, disambiguator: u8) -> Address {
    fnv_step(fnv_absorb(fnv_step(FNV_OFFSET_BASIS, PORTFOLIO_DOMAIN_TAG), owner), disambiguator)
}

fn fnv_step_exec(h: u64, b: u8) -> (r: u64)
    ensures
        r == fnv_step(h, b),
{
    let x: u128 = (h ^ (b as u64)) as u128;
    let p: u128 = (x * (FNV_PRIME as u128)) % 0x10000000000000000u128;
    p as u64
}

/// Derive the canonical portfolio address for `(owner, disambiguator)`.
/// Pure: the result depends on the arguments alone.
pub fn derive_address(owner: &OwnerId, disambiguator: u8) -> (addr: Address)
    ensures
        addr == spec_derive_address(owner@, disambiguator),
{
    let mut h: u64 = fnv_step_exec(FNV_OFFSET_BASIS, PORTFOLIO_DOMAIN_TAG);
    let mut i: usize = 0;
    while i < 32
        invariant
            0 <= i <= 32,
            h == fnv_absorb(fnv_step(FNV_OFFSET_BASIS, PORTFOLIO_DOMAIN_TAG), owner@.take(i as int)),
        decreases 32 - i,
    {
        proof {
            assert(owner@.take(i + 1 as int).drop_last() =~= owner@.take(i as int));
            assert(owner@.take(i + 1 as int).last() == owner@[i as int]);
        }
        h = fnv_step_exec(h, owner[i]);
        i = i + 1;
    }
    proof {
        assert(owner@.take(32) =~= owner@);
    }
    fnv_step_exec(h, disambiguator)
}

/// Compare two owner identities byte by byte.
pub fn owner_eq(a: &OwnerId, b: &OwnerId) -> (r: bool)
    ensures
        r == (a@ == b@),
{
    let mut i: usize = 0;
    while i < 32
        invariant
            i <= 32,
            forall|j: int| 0 <= j < i ==> a@[j] == b@[j],
        decreases 32 - i,
    {
        if a[i] != b[i] {
            return false;
        }
        i = i + 1;
    }
    proof {
        assert(a@ =~= b@);
    }
    true
}

/// Recompute the address for `(owner, disambiguator)` and compare it with the
/// claimed one; a mismatch is `InvalidAddress`.
pub fn validate_address(claimed_address: Address, owner: &OwnerId, disambiguator: u8) -> (r: Result<
    (),
    TinTinError,
>)
    ensures
        claimed_address == spec_derive_address(owner@, disambiguator) ==> r == Ok::<
            (),
            TinTinError,
        >(()),
        claimed_address != spec_derive_address(owner@, disambiguator) ==> r == Err::<
            (),
            TinTinError,
        >(TinTinError::InvalidAddress),
{
    let derived = derive_address(owner, disambiguator);
    if claimed_address == derived {
        Ok(())
    } else {
        Err(TinTinError::InvalidAddress)
    }
}

/// Derivation is pure: identical inputs always yield the identical address.
pub proof fn lemma_derive_address_pure(owner1: Seq<u8>, d1: u8, owner2: Seq<u8>, d2: u8)
    requires
        owner1 == owner2,
        d1 == d2,
    ensures
        spec_derive_address(owner1, d1) == spec_derive_address(owner2, d2),
{
}

/// An FNV-1a step is reversible: multiplying by the prime's inverse modulo
/// 2^64 recovers the folded accumulator.
proof fn lemma_fnv_step_reversible(a: u64)
    ensures
        ((fnv_step_product(a) % 0x10000000000000000) * (FNV_PRIME_INVERSE as int))
            % 0x10000000000000000 == a as int,
{
    let m: int = 0x10000000000000000;
    let p: int = FNV_PRIME as int;
    let inv: int = FNV_PRIME_INVERSE as int;
    assert((0x100000001b3 as int) * (0xce965057aff6957b as int) % 0x10000000000000000 == 1);
    lemma_mul_mod_noop_left((a as int) * p, inv, m);
    lemma_mul_is_associative(a as int, p, inv);
    lemma_mul_mod_noop_right(a as int, p * inv, m);
    assert(((a as int) * ((p * inv) % m)) % m == ((a as int) * 1) % m);
    assert(((a as int) * 1) % m == a as int);
}

/// The product taken inside one FNV-1a step, before reduction modulo 2^64.
spec fn fnv_step_product(a: u64) -> int {
    (a as int) * (FNV_PRIME as int)
}

/// Distinct disambiguators for the same owner yield distinct addresses: the
/// final absorption step is injective in the disambiguator byte.
pub proof fn lemma_derive_address_disambiguates(owner: Seq<u8>, d1: u8, d2: u8)
    requires
        d1 != d2,
    ensures
        spec_derive_address(owner, d1) != spec_derive_address(owner, d2),
{
    let h = fnv_absorb(fnv_step(FNV_OFFSET_BASIS, PORTFOLIO_DOMAIN_TAG), owner);
    let x1 = h ^ (d1 as u64);
    let x2 = h ^ (d2 as u64);
    let y1 = d1 as u64;
    let y2 = d2 as u64;
    assert(h ^ y1 != h ^ y2) by (bit_vector)
        requires
            y1 != y2,
            y1 < 256,
            y2 < 256,
    ;
    lemma_fnv_step_reversible(x1);
    lemma_fnv_step_reversible(x2);
}

} // verus!
