//! Boolean gate evaluators: `nand` is the one base gate, and every other
//! gate is a small `nand` network.

use vstd::prelude::*;

verus! {

/// Holds when every signal in the sequence is high.
pub open spec fn all_true(s: Seq<bool>) -> bool {
    forall|i: int| 0 <= i < s.len() ==> s[i]
}

/// Holds when every signal in the sequence is low.
pub open spec fn all_false(s: Seq<bool>) -> bool {
    forall|i: int| 0 <= i < s.len() ==> !s[i]
}

/// The primitive gate: low exactly when every input is high.
///
/// Fewer than two inputs is a usage error, ruled out by contract.
pub fn nand(inputs: &[bool]) -> (r: bool)
    requires
        inputs@.len() >= 2,
    ensures
        r == !all_true(inputs@),
{
    let mut i: usize = 0;
    while i < inputs.len()
        invariant
            i <= inputs@.len(),
            forall|j: int| 0 <= j < i ==> inputs@[j],
        decreases inputs@.len() - i,
    {
        if !inputs[i] {
            return true;
        }
        i += 1;
    }
    false
}

/// Inversion: a `nand` with its single input duplicated onto both pins.
pub fn not(input: bool) -> (r: bool)
    ensures
        r == !input,
{
    let mut pair: Vec<bool> = Vec::new();
    pair.push(input);
    pair.push(input);
    assert(pair@[0] == input && pair@[1] == input);
    nand(pair.as_slice())
}

/// High exactly when every input is high.
pub fn and(inputs: &[bool]) -> (r: bool)
    requires
        inputs@.len() >= 2,
    ensures
        r == all_true(inputs@),
{
    not(nand(inputs))
}

/// High exactly when at least one input is high.
pub fn or(inputs: &[bool]) -> (r: bool)
    requires
        inputs@.len() >= 2,
    ensures
        r == !all_false(inputs@),
{
    let mut inverted: Vec<bool> = Vec::new();
    let mut i: usize = 0;
    while i < inputs.len()
        invariant
            i <= inputs@.len(),
            inverted@.len() == i,
            forall|j: int| 0 <= j < i ==> inverted@[j] == !inputs@[j],
        decreases inputs@.len() - i,
    {
        inverted.push(not(inputs[i]));
        i += 1;
    }
    nand(inverted.as_slice())
}

/// High exactly when every input is low.
pub fn nor(inputs: &[bool]) -> (r: bool)
    requires
        inputs@.len() >= 2,
    ensures
        r == all_false(inputs@),
{
    not(or(inputs))
}

/// High exactly when the inputs all agree: all high or all low.
pub fn xnor(inputs: &[bool]) -> (r: bool)
    requires
        inputs@.len() >= 2,
    ensures
        r == (all_true(inputs@) || all_false(inputs@)),
{
    let mut inverted: Vec<bool> = Vec::new();
    let mut i: usize = 0;
    while i < inputs.len()
        invariant
            i <= inputs@.len(),
            inverted@.len() == i,
            forall|j: int| 0 <= j < i ==> inverted@[j] == !inputs@[j],
        decreases inputs@.len() - i,
    {
        inverted.push(not(inputs[i]));
        i += 1;
    }
    assert(all_true(inverted@) == all_false(inputs@));
    let mut outer: Vec<bool> = Vec::new();
    outer.push(nand(inverted.as_slice()));
    outer.push(nand(inputs));
    assert(outer@[0] == !all_false(inputs@) && outer@[1] == !all_true(inputs@));
    nand(outer.as_slice())
}

/// High exactly when the inputs disagree: neither all high nor all low.
pub fn xor(inputs: &[bool]) -> (r: bool)
    requires
        inputs@.len() >= 2,
    ensures
        r == !(all_true(inputs@) || all_false(inputs@)),
{
    not(xnor(inputs))
}

/// A two-input `nand`: the single-gate evaluation step latches settle by.
pub(crate) fn nand2(a: bool, b: bool) -> (r: bool)
    ensures
        r == !(a && b),
{
    let mut pins: Vec<bool> = Vec::new();
    pins.push(a);
    pins.push(b);
    assert(pins@[0] == a && pins@[1] == b);
    nand(pins.as_slice())
}

/// A two-input `and`.
pub(crate) fn and2(a: bool, b: bool) -> (r: bool)
    ensures
        r == (a && b),
{
    let mut pins: Vec<bool> = Vec::new();
    pins.push(a);
    pins.push(b);
    assert(pins@[0] == a && pins@[1] == b);
    and(pins.as_slice())
}

/// A two-input `or`.
pub(crate) fn or2(a: bool, b: bool) -> (r: bool)
    ensures
        r == (a || b),
{
    let mut pins: Vec<bool> = Vec::new();
    pins.push(a);
    pins.push(b);
    assert(pins@[0] == a && pins@[1] == b);
    or(pins.as_slice())
}

/// A two-input `xor`.
pub(crate) fn xor2(a: bool, b: bool) -> (r: bool)
    ensures
        r == (a != b),
{
    let mut pins: Vec<bool> = Vec::new();
    pins.push(a);
    pins.push(b);
    assert(pins@[0] == a && pins@[1] == b);
    xor(pins.as_slice())
}

} // verus!
