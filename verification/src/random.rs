use vstd::prelude::*;

verus! {

/// One step of the 13/7/17 xorshift chain on a 64-bit state.
pub open spec fn xorshift_step(x: u64) -> u64 {
    let a = x ^ (x << 13u64);
    let b = a ^ (a >> 7u64);
    b ^ (b << 17u64)
}

/// Advance a 64-bit xorshift state and return the new value.
pub fn next_random(value: &mut u64) -> (r: u64)
    ensures
        *final(value) == xorshift_step(*old(value)),
        r == xorshift_step(*old(value)),
{
    let mut x = *value;
    x ^= x << 13;
    x ^= x >> 7;
    x ^= x << 17;
    *value = x;
    x
}

/// Advance a 64-bit xorshift state and return the low bit of the new value.
pub fn next_random_bool(value: &mut u64) -> (r: bool)
    ensures
        *final(value) == xorshift_step(*old(value)),
        r == (xorshift_step(*old(value)) & 1 == 1),
{
    next_random(value) & 1 == 1
}

} // verus!
