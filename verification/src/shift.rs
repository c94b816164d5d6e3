//! The 8-bit barrel shifter and rotator: for each output bit an 8-to-1 mux
//! selects among the eight possible taps of the input word, addressed by a
//! three-bit shift amount. Logical shifts leave the wrap-around taps out of
//! the candidate set, so vacated positions fill with zeroes; rotates wire
//! the full wrap-around tap set. Left and right variants differ only in the
//! direction the taps run.

use vstd::arithmetic::power2::{lemma2_to64, pow2};
use vstd::prelude::*;

use crate::bus::{bus_val, lemma_bus_val_bound};
use crate::mux::mux8;

verus! {

/// Shifts the word left by the three-bit shift amount; vacated
/// low positions are filled with `false`.
pub fn logical_shift_left_8(shift: &[bool], value: &[bool]) -> (r: Vec<bool>)
    requires
        shift@.len() == 3,
        value@.len() == 8,
    ensures
        r@.len() == 8,
        forall|i: int|
            0 <= i < 8 ==> r@[i] == if bus_val(shift@) <= i {
                value@[i - bus_val(shift@)]
            } else {
                false
            },
{
    proof {
        lemma_bus_val_bound(shift@);
        lemma2_to64();
    }
    let mut out: Vec<bool> = Vec::new();
    for i in 0..8usize
        invariant
            shift@.len() == 3,
            value@.len() == 8,
            bus_val(shift@) < 8,
            out@.len() == i,
            forall|k: int|
                0 <= k < i ==> out@[k] == if bus_val(shift@) <= k {
                    value@[k - bus_val(shift@)]
                } else {
                    false
                },
    {
        let mut taps: Vec<bool> = Vec::new();
        for j in 0..8usize
            invariant
                value@.len() == 8,
                i < 8,
                taps@.len() == j,
                forall|t: int|
                    0 <= t < j ==> taps@[t] == if t <= i {
                        value@[i - t]
                    } else {
                        false
                    },
        {
            if j <= i {
                taps.push(value[i - j]);
            } else {
                taps.push(false);
            }
        }
        out.push(mux8(shift, taps.as_slice()));
    }
    out
}

/// Shifts the word right by the three-bit shift amount; vacated
/// high positions are filled with `false`.
pub fn logical_shift_right_8(shift: &[bool], value: &[bool]) -> (r: Vec<bool>)
    requires
        shift@.len() == 3,
        value@.len() == 8,
    ensures
        r@.len() == 8,
        forall|i: int|
            0 <= i < 8 ==> r@[i] == if i + bus_val(shift@) < 8 {
                value@[i + bus_val(shift@)]
            } else {
                false
            },
{
    proof {
        lemma_bus_val_bound(shift@);
        lemma2_to64();
    }
    let mut out: Vec<bool> = Vec::new();
    for i in 0..8usize
        invariant
            shift@.len() == 3,
            value@.len() == 8,
            bus_val(shift@) < 8,
            out@.len() == i,
            forall|k: int|
                0 <= k < i ==> out@[k] == if k + bus_val(shift@) < 8 {
                    value@[k + bus_val(shift@)]
                } else {
                    false
                },
    {
        let mut taps: Vec<bool> = Vec::new();
        for j in 0..8usize
            invariant
                value@.len() == 8,
                i < 8,
                taps@.len() == j,
                forall|t: int|
                    0 <= t < j ==> taps@[t] == if i + t < 8 {
                        value@[i + t]
                    } else {
                        false
                    },
        {
            if i + j < 8 {
                taps.push(value[i + j]);
            } else {
                taps.push(false);
            }
        }
        out.push(mux8(shift, taps.as_slice()));
    }
    out
}

/// Rotates the word left by the three-bit shift amount; bits shifted off
/// the top re-enter at the bottom.
pub fn rotate_left_8(shift: &[bool], value: &[bool]) -> (r: Vec<bool>)
    requires
        shift@.len() == 3,
        value@.len() == 8,
    ensures
        r@.len() == 8,
        forall|i: int| 0 <= i < 8 ==> r@[i] == value@[(i + 8 - bus_val(shift@)) % 8],
{
    proof {
        lemma_bus_val_bound(shift@);
        lemma2_to64();
    }
    let mut out: Vec<bool> = Vec::new();
    for i in 0..8usize
        invariant
            shift@.len() == 3,
            value@.len() == 8,
            bus_val(shift@) < 8,
            out@.len() == i,
            forall|k: int| 0 <= k < i ==> out@[k] == value@[(k + 8 - bus_val(shift@)) % 8],
    {
        let mut taps: Vec<bool> = Vec::new();
        for j in 0..8usize
            invariant
                value@.len() == 8,
                i < 8,
                taps@.len() == j,
                forall|t: int| 0 <= t < j ==> taps@[t] == value@[(i + 8 - t) % 8],
        {
            taps.push(value[(i + 8 - j) % 8]);
        }
        out.push(mux8(shift, taps.as_slice()));
    }
    out
}

/// Rotates the word right by the three-bit shift amount; bits shifted off
/// the bottom re-enter at the top.
pub fn rotate_right_8(shift: &[bool], value: &[bool]) -> (r: Vec<bool>)
    requires
        shift@.len() == 3,
        value@.len() == 8,
    ensures
        r@.len() == 8,
        forall|i: int| 0 <= i < 8 ==> r@[i] == value@[(i + bus_val(shift@)) % 8],
{
    proof {
        lemma_bus_val_bound(shift@);
        lemma2_to64();
    }
    let mut out: Vec<bool> = Vec::new();
    for i in 0..8usize
        invariant
            shift@.len() == 3,
            value@.len() == 8,
            bus_val(shift@) < 8,
            out@.len() == i,
            forall|k: int| 0 <= k < i ==> out@[k] == value@[(k + bus_val(shift@)) % 8],
    {
        let mut taps: Vec<bool> = Vec::new();
        for j in 0..8usize
            invariant
                value@.len() == 8,
                i < 8,
                taps@.len() == j,
                forall|t: int| 0 <= t < j ==> taps@[t] == value@[(i + t) % 8],
        {
            taps.push(value[(i + j) % 8]);
        }
        out.push(mux8(shift, taps.as_slice()));
    }
    out
}

} // verus!
