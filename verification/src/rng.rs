//! The state of the default jitter source: a `xorshift64` generator seeded
//! from the clock. Its draws become numbers in `[0, 1)` through the top 53
//! bits of the state.

use vstd::prelude::*;

verus! {

/// The seed used when the clock cannot be read.
pub const FALLBACK_SEED: u64 = 0x9E37_79B9_7F4A_7C15;

/// The starting state: the clock reading in nanoseconds (else the fallback
/// seed) with its lowest bit set, so it is never zero.
pub open spec fn seed_of(nanos: Option<u64>) -> u64 {
    match nanos {
        Some(n) => n | 1,
        None => FALLBACK_SEED | 1,
    }
}

/// The starting state of the generator.
pub fn seed(nanos: Option<u64>) -> (r: u64)
    ensures
        r == seed_of(nanos),
        r != 0,
{
    let s: u64 = match nanos {
        Some(n) => n,
        None => FALLBACK_SEED,
    };
    let r: u64 = s | 1;
    assert(r != 0) by (bit_vector)
        requires
            r == s | 1,
    ;
    r
}

/// One `xorshift64` step (shifts 13, 7, 17).
pub open spec fn xorshift64(x: u64) -> u64 {
    let a: u64 = x ^ (x << 13u64);
    let b: u64 = a ^ (a >> 7u64);
    b ^ (b << 17u64)
}

/// Advance the generator.
pub fn next_state(x: u64) -> (r: u64)
    ensures
        r == xorshift64(x),
{
    let mut s: u64 = x;
    s = s ^ (s << 13u64);
    s = s ^ (s >> 7u64);
    s = s ^ (s << 17u64);
    s
}

/// The draw a state gives, as the numerator over `2^53` of a number in
/// `[0, 1)`: the top 53 bits of the state.
pub fn draw_numerator(x: u64) -> (r: u64)
    ensures
        r == x >> 11u64,
        r < 0x20_0000_0000_0000,
{
    let r: u64 = x >> 11u64;
    assert(r < 0x20_0000_0000_0000) by (bit_vector)
        requires
            r == x >> 11u64,
    ;
    r
}

/// A non-zero state never steps to zero, so a seeded generator never gets
/// stuck at zero.
pub proof fn xorshift_never_reaches_zero(x: u64)
    requires
        x != 0,
    ensures
        xorshift64(x) != 0,
{
    let a: u64 = x ^ (x << 13u64);
    let b: u64 = a ^ (a >> 7u64);
    assert(x != 0 ==> a != 0) by (bit_vector)
        requires
            a == x ^ (x << 13u64),
    ;
    assert(a != 0 ==> b != 0) by (bit_vector)
        requires
            b == a ^ (a >> 7u64),
    ;
    assert(b != 0 ==> b ^ (b << 17u64) != 0) by (bit_vector);
}

} // verus!
