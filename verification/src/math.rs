//! Combinational arithmetic: half and full adders built from gates, and a
//! ripple-carry adder that chains full adders bit by bit, wrapping modulo
//! `2^width` with the final carry discarded.

use vstd::arithmetic::div_mod::{lemma_add_mod_noop, lemma_fundamental_div_mod_converse};
use vstd::arithmetic::power2::{lemma_pow2_pos, lemma_pow2_unfold, pow2};
use vstd::prelude::*;

use crate::bus::{
    bits_from_u64, bits_of, bus_val, lemma_bus_val_bound, lemma_bus_val_of_bits,
    lemma_bus_val_push, u64_from_bits,
};
use crate::gate::{and2, or2, xor2};

verus! {

/// Performs a half add. Returns the sum and carry bits.
pub fn half_add(a: bool, b: bool) -> (r: (bool, bool))
    ensures
        r.0 == (a != b),
        r.1 == (a && b),
{
    (xor2(a, b), and2(a, b))
}

/// Performs a full add. Returns the sum and carry bits; together they carry
/// the exact count of asserted inputs: `sum + 2 * carry == a + b + cin`.
pub fn full_add(a: bool, b: bool, cin: bool) -> (r: (bool, bool))
    ensures
        r.0 == ((a != b) != cin),
        r.1 == ((a && b) || ((a != b) && cin)),
{
    let axb = xor2(a, b);
    let sum = xor2(axb, cin);
    let carry = or2(and2(axb, cin), and2(a, b));
    (sum, carry)
}

/// A ripple-carry adder over `width`-bit words: `width` chained full adders,
/// the carry-out of each feeding the carry-in of the next.
pub struct RippleCarryAdder {
    pub width: usize,
}

impl RippleCarryAdder {
    /// Creates an adder over `width`-bit words.
    pub fn new(width: usize) -> (r: Self)
        requires
            width <= 64,
        ensures
            r.width == width,
    {
        RippleCarryAdder { width }
    }

    /// Adds the low `width` bits of the operands; the result wraps modulo
    /// `2^width` and the final carry is discarded.
    pub fn add(&self, a: u64, b: u64) -> (r: u64)
        requires
            self.width <= 64,
        ensures
            r as int == (a + b) % pow2(self.width as nat) as int,
    {
        let w = self.width;
        let abits = bits_from_u64(a, w);
        let bbits = bits_from_u64(b, w);
        let mut sum: Vec<bool> = Vec::new();
        let mut carry: bool = false;
        assert(sum@ =~= abits@.take(0));
        assert(abits@.take(0) =~= bbits@.take(0));
        for i in 0..w
            invariant
                w <= 64,
                abits@ == bits_of(a as int, w as nat),
                bbits@ == bits_of(b as int, w as nat),
                sum@.len() == i,
                bus_val(sum@) + (if carry {
                    pow2(i as nat)
                } else {
                    0nat
                }) == bus_val(abits@.take(i as int)) + bus_val(bbits@.take(i as int)),
        {
            let (s, c) = full_add(abits[i], bbits[i], carry);
            proof {
                lemma_bus_val_push(sum@, s);
                lemma_bus_val_push(abits@.take(i as int), abits@[i as int]);
                lemma_bus_val_push(bbits@.take(i as int), bbits@[i as int]);
                assert(abits@.take(i + 1) =~= abits@.take(i as int).push(abits@[i as int]));
                assert(bbits@.take(i + 1) =~= bbits@.take(i as int).push(bbits@[i as int]));
                lemma_pow2_unfold((i + 1) as nat);
            }
            sum.push(s);
            carry = c;
        }
        proof {
            assert(abits@.take(w as int) =~= abits@);
            assert(bbits@.take(w as int) =~= bbits@);
            lemma_bus_val_of_bits(a as int, w as nat);
            lemma_bus_val_of_bits(b as int, w as nat);
        }
        let r = u64_from_bits(sum.as_slice());
        proof {
            let p = pow2(w as nat) as int;
            lemma_pow2_pos(w as nat);
            lemma_bus_val_bound(sum@);
            let q: int = if carry {
                1
            } else {
                0
            };
            lemma_fundamental_div_mod_converse(
                a as int % p + b as int % p,
                p,
                q,
                bus_val(sum@) as int,
            );
            lemma_add_mod_noop(a as int, b as int, p);
        }
        r
    }
}

} // verus!
