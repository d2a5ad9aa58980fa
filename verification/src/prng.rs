//! A small shift-register generator for reproducible noise.

use vstd::prelude::*;

verus! {

/// A 64-bit xorshift generator.
#[derive(Clone, Copy, Debug, PartialEq, Eq, Structural)]
pub struct SimpleRng {
    pub state: u64,
}

/// One step of the shift register: left by 13, right by 7, left by 17.
pub open spec fn xorshift(x: u64) -> u64 {
    let a = x ^ (x << 13u64);
    let b = a ^ (a >> 7u64);
    b ^ (b << 17u64)
}

impl SimpleRng {
    /// A state that the generator can be in.
    pub open spec fn wf(self) -> bool {
        self.state != 0
    }

    /// A generator that starts from `seed`; seed zero, which the register cannot
    /// leave, stands for 42.
    pub fn new(seed: u64) -> (result: SimpleRng)
        ensures
            result.wf(),
            result.state == if seed == 0 {
                42
            } else {
                seed
            },
    {
        let state: u64 = if seed == 0 {
            42
        } else {
            seed
        };
        SimpleRng { state }
    }

    /// The next word.
    pub fn next_u64(&mut self) -> (result: u64)
        ensures
            result == xorshift(old(self).state),
            final(self).state == result,
            old(self).wf() ==> final(self).wf(),
    {
        let mut x: u64 = self.state;
        x = x ^ (x << 13u64);
        x = x ^ (x >> 7u64);
        x = x ^ (x << 17u64);
        proof {
            if old(self).state != 0 {
                xorshift_keeps_nonzero(old(self).state);
            }
        }
        self.state = x;
        x
    }
}

/// The register never falls into the all-zero state.
pub proof fn xorshift_keeps_nonzero(x: u64)
    requires
        x != 0,
    ensures
        xorshift(x) != 0,
{
    let a = x ^ (x << 13u64);
    let b = a ^ (a >> 7u64);
    assert(a != 0) by (bit_vector)
        requires
            x != 0,
            a == x ^ (x << 13u64),
    ;
    assert(b != 0) by (bit_vector)
        requires
            a != 0,
            b == a ^ (a >> 7u64),
    ;
    assert(b ^ (b << 17u64) != 0) by (bit_vector)
        requires
            b != 0,
    ;
}

/// Different states step to different states.
pub proof fn xorshift_is_injective(x: u64, y: u64)
    requires
        xorshift(x) == xorshift(y),
    ensures
        x == y,
{
    let a = x ^ (x << 13u64);
    let b = a ^ (a >> 7u64);
    let c = y ^ (y << 13u64);
    let d = c ^ (c >> 7u64);
    assert(b == d) by (bit_vector)
        requires
            b ^ (b << 17u64) == d ^ (d << 17u64),
    ;
    assert(a == c) by (bit_vector)
        requires
            a ^ (a >> 7u64) == c ^ (c >> 7u64),
    ;
    assert(x == y) by (bit_vector)
        requires
            x ^ (x << 13u64) == y ^ (y << 13u64),
    ;
}

} // verus!
