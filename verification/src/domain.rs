//! The evaluation domain of a constraint system: its padded size and the
//! generator of the subgroup of that order.

use crate::error::CodegenError;
use crate::field::{words_value, Field, FieldElement};
use bellman_ce::pairing::bn256::Fr;
use bellman_ce::pairing::ff::PrimeField;
use bellman_ce::plonk::domains::Domain;
use vstd::arithmetic::power::pow;
use vstd::arithmetic::power2::pow2;
use vstd::prelude::*;

verus! {

/// The largest domain there is: two to the power 28. The multiplicative
/// group of the scalar field has no subgroup whose order is a higher power of
/// two.
pub const MAX_DOMAIN_SIZE: usize = 0x1000_0000;

/// Whether `p` is a power of two.
pub open spec fn is_power_of_two(p: nat) -> bool
    decreases p,
{
    p == 1 || (p > 1 && p % 2 == 0 && is_power_of_two(p / 2))
}

/// The least power of two that is not below `n`.
pub open spec fn next_power_of_two(n: nat) -> nat
    decreases n,
{
    if n <= 1 {
        1
    } else {
        2 * next_power_of_two((n + 1) / 2)
    }
}

/// A power of two that is not below `n`, while its half is, is the least
/// such power.
pub proof fn lemma_next_power_of_two_unique(n: nat, p: nat)
    requires
        is_power_of_two(p),
        n <= p,
        p == 1 || p / 2 < n,
    ensures
        p == next_power_of_two(n),
    decreases n,
{
    if n > 1 {
        let half = p / 2;
        if half > 1 {
            assert(is_power_of_two(half));
            assert(half % 2 == 0);
        }
        lemma_next_power_of_two_unique((n + 1) / 2, half);
    }
}

/// `next_power_of_two(n)` is a power of two, is not below `n`, and no power
/// of two from `n` on is smaller.
pub proof fn lemma_next_power_of_two(n: nat)
    ensures
        is_power_of_two(next_power_of_two(n)),
        n <= next_power_of_two(n),
        n >= 1 ==> next_power_of_two(n) < 2 * n,
        forall|q: nat| is_power_of_two(q) && n <= q ==> next_power_of_two(n) <= q,
    decreases n,
{
    if n > 1 {
        let m = (n + 1) / 2;
        lemma_next_power_of_two(m);
        assert(is_power_of_two(2 * next_power_of_two(m))) by {
            assert((2 * next_power_of_two(m)) / 2 == next_power_of_two(m));
        }
        assert forall|q: nat| is_power_of_two(q) && n <= q implies next_power_of_two(n) <= q by {
            assert(is_power_of_two(q / 2));
            assert(m <= q / 2);
        }
    } else {
        assert forall|q: nat| is_power_of_two(q) && n <= q implies next_power_of_two(n) <= q by {
            assert(q >= 1);
        }
    }
}

/// Whether `w` is an element of the scalar field that generates the
/// subgroup of order `size` of its multiplicative group, for `size` a power
/// of two: `w` to the power `size` is one and, where `size` is above one,
/// `w` to the power of half of `size` is minus one, so that no smaller power
/// of two brings `w` to one.
pub open spec fn generates(w: nat, size: nat) -> bool {
    let r = Field::Scalar.modulus() as int;
    &&& w < r
    &&& pow(w as int, size) % r == 1
    &&& size > 1 ==> pow(w as int, size / 2) % r == r - 1
}

/// Minus one to an odd power is minus one.
proof fn lemma_minus_one_odd(k: nat)
    requires
        k % 2 == 1,
    ensures
        pow(-1, k) == -1,
{
    let half = ((k - 1) / 2) as nat;
    vstd::arithmetic::power::lemma_pow_multiplies(-1, 2, half);
    vstd::arithmetic::power::lemma_square_is_pow2(-1);
    vstd::arithmetic::power::lemma1_pow(half);
    vstd::arithmetic::power::lemma_pow_adds(-1, 1, (k - 1) as nat);
    vstd::arithmetic::power::lemma_pow1(-1);
    assert(2 * half == k - 1);
    assert(1 + (k - 1) as nat == k);
}

/// Where `a` to the power of half of `size` is minus one in the scalar
/// field, for `size` a power of two, no power of `a` below `size` is one.
proof fn lemma_order(a: int, size: nat, k: nat)
    requires
        is_power_of_two(size),
        size > 1,
        pow(a, size / 2) % (Field::Scalar.modulus() as int) == Field::Scalar.modulus() - 1,
        0 < k < size,
    ensures
        pow(a, k) % (Field::Scalar.modulus() as int) != 1,
    decreases size,
{
    let r = Field::Scalar.modulus() as int;
    let h = size / 2;
    if k % 2 == 1 {
        if pow(a, k) % r == 1 {
            vstd::arithmetic::power::lemma_pow_multiplies(a, k, h);
            vstd::arithmetic::power::lemma_pow_multiplies(a, h, k);
            assert(k * h == h * k) by (nonlinear_arith);
            vstd::arithmetic::power::lemma_pow_mod_noop(pow(a, k), h, r);
            vstd::arithmetic::power::lemma1_pow(h);
            vstd::arithmetic::power::lemma_pow_mod_noop(pow(a, h), k, r);
            vstd::arithmetic::power::lemma_pow_mod_noop(-1, k, r);
            lemma_minus_one_odd(k);
            assert((-1int) % r == r - 1);
            assert(pow(a, (k * h) as nat) % r == 1);
            assert(pow(a, (h * k) as nat) % r == r - 1);
            assert(false);
        }
    } else {
        let j = k / 2;
        let square = pow(a, 2);
        assert(is_power_of_two(h) && h > 1);
        vstd::arithmetic::power::lemma_pow_multiplies(a, 2, h / 2);
        vstd::arithmetic::power::lemma_pow_multiplies(a, 2, j);
        assert(2 * (h / 2) == h);
        assert(2 * j == k);
        lemma_order(square, h, j);
    }
}

/// A generator of a domain has the domain's size for its order: that power
/// of it is one, and no smaller power is.
pub proof fn lemma_generator_order(w: nat, size: nat, k: nat)
    requires
        generates(w, size),
        is_power_of_two(size),
        0 < k < size,
    ensures
        pow(w as int, size) % (Field::Scalar.modulus() as int) == 1,
        pow(w as int, k) % (Field::Scalar.modulus() as int) != 1,
{
    lemma_order(w as int, size, k);
}

/// The library's account of a failed search for a domain. Its contents are
/// not looked into here.
#[verifier::external_type_specification]
#[verifier::external_body]
pub struct ExSynthesisError(bellman_ce::SynthesisError);

/// The generator of the domain of `size` elements, for `size` a power of
/// two up to the largest domain: seven, which generates the multiplicative
/// group of the scalar field, to the power of the group's order divided by
/// `size`.
pub open spec fn subgroup_generator(size: nat) -> nat {
    let r = Field::Scalar.modulus() as int;
    (pow(7, ((r - 1) / (size as int)) as nat) % r) as nat
}

/// Calls `Domain::<Fr>::new_for_size` of bellman and hands back the plain
/// words of the generator it found, as `into_repr` gives them. The call is
/// taken to fail exactly for a size above two to the power 28, the only
/// failure in its source. Otherwise it rounds the size up to a power of two
/// and squares the field's root of unity, which is seven to the power of
/// the odd part of the group's order, until seven to the power of the
/// group's order divided by the rounded size is left. Two more things are
/// taken from the field library: the plain words are reduced, so they denote
/// a number below the modulus; and, seven generating the whole group, what
/// is left generates the subgroup of the rounded size. Sizes above two to
/// the power 63 are left out: the call's own rounding to a power of two
/// overflows on them.
#[verifier::external_body]
fn generator_for_size(size: u64) -> (res: Result<[u64; 4], bellman_ce::SynthesisError>)
    requires
        size <= 0x8000_0000_0000_0000,
    ensures
        res is Ok <==> size <= MAX_DOMAIN_SIZE,
        res matches Ok(words) ==> words_value(words@) == subgroup_generator(
            next_power_of_two(size as nat),
        ),
        res matches Ok(words) ==> generates(
            words_value(words@),
            next_power_of_two(size as nat),
        ),
{
    let domain = Domain::<Fr>::new_for_size(size)?;
    Ok(domain.generator.into_repr().0)
}

/// An evaluation domain: a power of two and the generator of the subgroup of
/// that order in the scalar field.
#[derive(Clone, Copy, Debug)]
pub struct EvaluationDomain {
    pub size: usize,
    pub generator: FieldElement,
}

/// What an evaluation domain is: its size and its generator as numbers.
pub struct DomainModel {
    pub size: nat,
    pub generator: nat,
}

impl View for EvaluationDomain {
    type V = DomainModel;

    open spec fn view(&self) -> DomainModel {
        DomainModel { size: self.size as nat, generator: self.generator@ }
    }
}

/// The least power of two that is not below `n`, where a `usize` can hold
/// it.
pub fn padded_size(n: usize) -> (p: usize)
    requires
        next_power_of_two(n as nat) <= usize::MAX,
    ensures
        p == next_power_of_two(n as nat),
{
    let mut p: usize = 1;
    while p < n
        invariant
            1 <= p,
            is_power_of_two(p as nat),
            p == 1 || p / 2 < n,
            next_power_of_two(n as nat) <= usize::MAX,
        decreases 2 * n - p,
    {
        proof {
            lemma_next_power_of_two(n as nat);
            lemma_power_of_two_doubles(p as nat, next_power_of_two(n as nat));
            assert(is_power_of_two(2 * p as nat)) by {
                assert((2 * p) / 2 == p);
            }
        }
        p = 2 * p;
    }
    proof {
        lemma_next_power_of_two_unique(n as nat, p as nat);
    }
    p
}

/// Two to the power `k` is a power of two.
proof fn lemma_power_of_two_is_pow2(k: nat)
    ensures
        is_power_of_two(pow2(k)),
    decreases k,
{
    vstd::arithmetic::power2::lemma2_to64();
    if k > 0 {
        vstd::arithmetic::power2::lemma_pow2_unfold(k);
        lemma_power_of_two_is_pow2((k - 1) as nat);
        assert(pow2(k) / 2 == pow2((k - 1) as nat));
    }
}

/// Between a power of two and its double lies no other power of two.
proof fn lemma_power_of_two_doubles(p: nat, q: nat)
    requires
        is_power_of_two(p),
        is_power_of_two(q),
        p < q,
    ensures
        2 * p <= q,
    decreases q,
{
    if p > 1 {
        lemma_power_of_two_doubles(p / 2, q / 2);
    }
}

/// The evaluation domain for a constraint system of `n` gates: `n` rounded up
/// to a power of two, and the generator of the subgroup of that order. There
/// is none where the rounded size is above two to the power 28.
pub fn domain_generator(n: usize) -> (res: Result<EvaluationDomain, CodegenError>)
    ensures
        match res {
            Ok(domain) => {
                &&& next_power_of_two(n as nat) <= MAX_DOMAIN_SIZE
                &&& domain.size == next_power_of_two(n as nat)
                &&& domain@.generator == subgroup_generator(domain@.size)
                &&& generates(domain@.generator, domain@.size)
            },
            Err(e) => next_power_of_two(n as nat) > MAX_DOMAIN_SIZE && e
                == CodegenError::DomainTooLarge,
        },
{
    proof {
        lemma_next_power_of_two(n as nat);
    }
    if n > MAX_DOMAIN_SIZE {
        return Err(CodegenError::DomainTooLarge);
    }
    proof {
        vstd::arithmetic::power2::lemma2_to64();
        lemma_power_of_two_is_pow2(28);
        assert(next_power_of_two(n as nat) <= MAX_DOMAIN_SIZE);
    }
    let size = padded_size(n);
    proof {
        lemma_next_power_of_two_unique(size as nat, size as nat);
    }
    match generator_for_size(size as u64) {
        Ok(words) => Ok(EvaluationDomain { size, generator: FieldElement { words } }),
        Err(_) => Err(CodegenError::DomainTooLarge),
    }
}

} // verus!
