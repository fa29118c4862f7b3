use vstd::prelude::*;

verus! {

/// Number of set bits in a byte.
pub open spec fn popcount(b: u8) -> nat
    decreases b,
{
    if b == 0 {
        0
    } else {
        (b % 2) as nat + popcount(b / 2)
    }
}

/// A byte has odd parity when it holds an odd number of set bits.
pub open spec fn odd_parity(b: u8) -> bool {
    popcount(b) % 2 == 1
}

/// Returns `true` if `data` has odd parity (an odd number of set bits).
pub fn verify_parity(data: u8) -> (r: bool)
    ensures
        r == odd_parity(data),
{
    let mut rest: u8 = data;
    let mut odd: bool = false;
    while rest != 0
        invariant
            odd_parity(data) == (odd != (popcount(rest) % 2 == 1)),
        decreases rest,
    {
        if rest % 2 == 1 {
            odd = !odd;
        }
        rest = rest / 2;
    }
    odd
}

} // verus!
