//! Multiplexer trees: a `2^k`-to-1 multiplexer picks one of `2^k` input
//! bits by a `k`-bit little-endian select word. The narrow muxes are
//! sum-of-products gate networks; the wide ones are built recursively, the
//! top select bit choosing between two half-width muxes.

use vstd::arithmetic::power2::{lemma2_to64, pow2};
use vstd::prelude::*;
use vstd::slice::slice_subrange;

use crate::bus::{bus_val, lemma_bus_val_bound};
use crate::gate::{and, and2, not, or, or2};

verus! {

/// The select value of a two-bit select word, written out.
pub proof fn lemma_bus_val2(s: Seq<bool>)
    requires
        s.len() == 2,
    ensures
        bus_val(s) == (if s[0] {
            1nat
        } else {
            0nat
        }) + (if s[1] {
            2nat
        } else {
            0nat
        }),
{
    lemma2_to64();
    let t = s.drop_last();
    assert(bus_val(t) == bus_val(t.drop_last()) + if t.last() {
        pow2(0)
    } else {
        0nat
    });
    assert(bus_val(t.drop_last()) == 0);
}

/// The select value of a three-bit select word, written out.
pub proof fn lemma_bus_val3(s: Seq<bool>)
    requires
        s.len() == 3,
    ensures
        bus_val(s) == (if s[0] {
            1nat
        } else {
            0nat
        }) + (if s[1] {
            2nat
        } else {
            0nat
        }) + (if s[2] {
            4nat
        } else {
            0nat
        }),
{
    lemma2_to64();
    lemma_bus_val2(s.drop_last());
    assert(bus_val(s) == bus_val(s.drop_last()) + if s.last() {
        pow2(2)
    } else {
        0nat
    });
}

/// A three-input `and`.
fn and3(a: bool, b: bool, c: bool) -> (r: bool)
    ensures
        r == (a && b && c),
{
    and2(and2(a, b), c)
}

/// A four-input `and`.
fn and4(a: bool, b: bool, c: bool, d: bool) -> (r: bool)
    ensures
        r == (a && b && c && d),
{
    and2(and2(a, b), and2(c, d))
}

/// Returns the input bit selected by `select`.
pub fn mux2(select: bool, input: &[bool]) -> (r: bool)
    requires
        input@.len() == 2,
    ensures
        r == if select {
            input@[1]
        } else {
            input@[0]
        },
{
    or2(and2(not(select), input[0]), and2(select, input[1]))
}

/// Returns the input bit addressed by the two-bit little-endian select word.
pub fn mux4(select: &[bool], input: &[bool]) -> (r: bool)
    requires
        select@.len() == 2,
        input@.len() == 4,
    ensures
        r == input@[bus_val(select@) as int],
{
    let mut terms: Vec<bool> = Vec::new();
    terms.push(and3(input[0], not(select[0]), not(select[1])));
    terms.push(and3(input[1], select[0], not(select[1])));
    terms.push(and3(input[2], not(select[0]), select[1]));
    terms.push(and3(input[3], select[0], select[1]));
    let r = or(terms.as_slice());
    proof {
        lemma_bus_val2(select@);
        let v = bus_val(select@) as int;
        assert(terms@.len() == 4);
        assert(forall|j: int|
            0 <= j < 4 ==> terms@[j] == (input@[j] && v == j)) by {
            assert(terms@[0] == (input@[0] && !select@[0] && !select@[1]));
            assert(terms@[1] == (input@[1] && select@[0] && !select@[1]));
            assert(terms@[2] == (input@[2] && !select@[0] && select@[1]));
            assert(terms@[3] == (input@[3] && select@[0] && select@[1]));
        }
        if input@[v] {
            assert(terms@[v]);
        }
    }
    r
}

/// Returns the input bit addressed by the three-bit little-endian select word.
pub fn mux8(select: &[bool], input: &[bool]) -> (r: bool)
    requires
        select@.len() == 3,
        input@.len() == 8,
    ensures
        r == input@[bus_val(select@) as int],
{
    let mut terms: Vec<bool> = Vec::new();
    terms.push(and4(input[0], not(select[0]), not(select[1]), not(select[2])));
    terms.push(and4(input[1], select[0], not(select[1]), not(select[2])));
    terms.push(and4(input[2], not(select[0]), select[1], not(select[2])));
    terms.push(and4(input[3], select[0], select[1], not(select[2])));
    terms.push(and4(input[4], not(select[0]), not(select[1]), select[2]));
    terms.push(and4(input[5], select[0], not(select[1]), select[2]));
    terms.push(and4(input[6], not(select[0]), select[1], select[2]));
    terms.push(and4(input[7], select[0], select[1], select[2]));
    let r = or(terms.as_slice());
    proof {
        lemma_bus_val3(select@);
        let v = bus_val(select@) as int;
        assert(terms@.len() == 8);
        assert(forall|j: int|
            0 <= j < 8 ==> terms@[j] == (input@[j] && v == j)) by {
            assert(terms@[0] == (input@[0] && !select@[0] && !select@[1] && !select@[2]));
            assert(terms@[1] == (input@[1] && select@[0] && !select@[1] && !select@[2]));
            assert(terms@[2] == (input@[2] && !select@[0] && select@[1] && !select@[2]));
            assert(terms@[3] == (input@[3] && select@[0] && select@[1] && !select@[2]));
            assert(terms@[4] == (input@[4] && !select@[0] && !select@[1] && select@[2]));
            assert(terms@[5] == (input@[5] && select@[0] && !select@[1] && select@[2]));
            assert(terms@[6] == (input@[6] && !select@[0] && select@[1] && select@[2]));
            assert(terms@[7] == (input@[7] && select@[0] && select@[1] && select@[2]));
        }
        if input@[v] {
            assert(terms@[v]);
        }
    }
    r
}

/// Returns the input bit addressed by the four-bit little-endian select
/// word: a 2-to-1 mux choosing between two 8-wide muxes, each fed half the
/// inputs and the low three select bits.
pub fn mux16(select: &[bool], input: &[bool]) -> (r: bool)
    requires
        select@.len() == 4,
        input@.len() == 16,
    ensures
        r == input@[bus_val(select@) as int],
{
    let sel_low = slice_subrange(select, 0, 3);
    let lo = mux8(sel_low, slice_subrange(input, 0, 8));
    let hi = mux8(sel_low, slice_subrange(input, 8, 16));
    let mut pair: Vec<bool> = Vec::new();
    pair.push(lo);
    pair.push(hi);
    assert(pair@[0] == lo && pair@[1] == hi);
    let r = mux2(select[3], pair.as_slice());
    proof {
        lemma2_to64();
        assert(select@.subrange(0, 3) =~= select@.drop_last());
        let low = bus_val(select@.drop_last());
        lemma_bus_val_bound(select@.drop_last());
        assert(bus_val(select@) == low + if select@[3] {
            pow2(3)
        } else {
            0nat
        });
    }
    r
}

/// Returns the input bit addressed by the five-bit little-endian select
/// word: a 2-to-1 mux choosing between two 16-wide muxes.
pub fn mux32(select: &[bool], input: &[bool]) -> (r: bool)
    requires
        select@.len() == 5,
        input@.len() == 32,
    ensures
        r == input@[bus_val(select@) as int],
{
    let sel_low = slice_subrange(select, 0, 4);
    let lo = mux16(sel_low, slice_subrange(input, 0, 16));
    let hi = mux16(sel_low, slice_subrange(input, 16, 32));
    let mut pair: Vec<bool> = Vec::new();
    pair.push(lo);
    pair.push(hi);
    assert(pair@[0] == lo && pair@[1] == hi);
    let r = mux2(select[4], pair.as_slice());
    proof {
        lemma2_to64();
        assert(select@.subrange(0, 4) =~= select@.drop_last());
        let low = bus_val(select@.drop_last());
        lemma_bus_val_bound(select@.drop_last());
        assert(bus_val(select@) == low + if select@[4] {
            pow2(4)
        } else {
            0nat
        });
    }
    r
}

} // verus!
