//! Fixed-width arithmetic that wraps on overflow instead of trapping.
use vstd::prelude::*;
use vstd::arithmetic::div_mod::lemma_mul_mod_noop_left;

verus! {

/// Number of distinct values of a 32-bit integer.
pub open spec fn modulus_32() -> int {
    0x1_0000_0000
}

/// Number of distinct values of a 64-bit integer.
pub open spec fn modulus_64() -> int {
    0x1_0000_0000_0000_0000
}

/// The 32-bit two's-complement value that `x` wraps to: the one in
/// `i32::MIN..=i32::MAX` congruent to `x` modulo 2^32.
pub open spec fn wrap_i32(x: int) -> int {
    let m = x % modulus_32();
    if m > i32::MAX as int {
        m - modulus_32()
    } else {
        m
    }
}

/// n! over the naturals, with 0! = 1! = 1.
pub open spec fn fact(n: nat) -> nat
    decreases n,
{
    if n <= 1 {
        1
    } else {
        n * fact((n - 1) as nat)
    }
}

/// Sum of `a` and `b`, wrapping around on overflow.
pub fn add(a: i32, b: i32) -> (r: i32)
    ensures
        r as int == wrap_i32(a + b),
{
    a.wrapping_add(b)
}

/// Product of `a` and `b`, wrapping around on overflow.
pub fn multiply(a: i32, b: i32) -> (r: i32)
    ensures
        r as int == wrap_i32(a * b),
{
    a.wrapping_mul(b)
}

/// n! computed in a 64-bit accumulator; for n above 20 the result has
/// wrapped, that is it is n! modulo 2^64.
pub fn factorial(n: u32) -> (r: u64)
    ensures
        r as int == fact(n as nat) as int % modulus_64(),
{
    let mut acc: u64 = 1;
    let mut i: u64 = 2;
    while i <= n as u64
        invariant
            2 <= i,
            i <= n as u64 + 1 || i == 2,
            acc as int == fact((i - 1) as nat) as int % modulus_64(),
        decreases n as u64 + 1 - i,
    {
        proof {
            lemma_mul_mod_noop_left(fact((i - 1) as nat) as int, i as int, modulus_64());
            assert(fact(i as nat) == i * fact((i - 1) as nat));
            assert(i * fact((i - 1) as nat) == fact((i - 1) as nat) * i) by (nonlinear_arith);
        }
        acc = acc.wrapping_mul(i);
        i = i + 1;
    }
    proof {
        if i == 2 {
            assert(fact(1) == 1);
            assert(fact(n as nat) == 1);
        }
    }
    acc
}

/// Addition commutes, overflow included.
pub proof fn lemma_add_commutative(a: i32, b: i32)
    ensures
        wrap_i32(a + b) == wrap_i32(b + a),
{
}

/// Anything multiplied by zero is zero.
pub proof fn lemma_multiply_by_zero(a: i32)
    ensures
        wrap_i32(a * 0) == 0,
{
    assert(a * 0 == 0);
}

/// The arithmetic operations are functions of their arguments alone: equal
/// arguments give equal results, whenever and however often they are called.
pub proof fn lemma_arithmetic_is_pure(a1: i32, b1: i32, a2: i32, b2: i32, n1: u32, n2: u32)
    requires
        a1 == a2,
        b1 == b2,
        n1 == n2,
    ensures
        wrap_i32(a1 + b1) == wrap_i32(a2 + b2),
        wrap_i32(a1 * b1) == wrap_i32(a2 * b2),
        fact(n1 as nat) as int % modulus_64() == fact(n2 as nat) as int % modulus_64(),
{
}

} // verus!
