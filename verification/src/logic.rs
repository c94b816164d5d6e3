//! Bitwise word operations: a two-input gate applied lane by lane across
//! two words of equal width.

use vstd::prelude::*;

use crate::gate::{and2, or2, xor2};

verus! {

/// Performs an XOR operation on two equally wide words, lane by lane.
pub fn xor_n(a: &[bool], b: &[bool]) -> (r: Vec<bool>)
    requires
        a@.len() == b@.len(),
    ensures
        r@.len() == a@.len(),
        forall|i: int| 0 <= i < r@.len() ==> r@[i] == (a@[i] != b@[i]),
{
    let mut result: Vec<bool> = Vec::new();
    let mut i: usize = 0;
    while i < a.len()
        invariant
            i <= a@.len(),
            a@.len() == b@.len(),
            result@.len() == i,
            forall|j: int| 0 <= j < i ==> result@[j] == (a@[j] != b@[j]),
        decreases a@.len() - i,
    {
        result.push(xor2(a[i], b[i]));
        i += 1;
    }
    result
}

/// Performs an OR operation on two equally wide words, lane by lane.
pub fn or_n(a: &[bool], b: &[bool]) -> (r: Vec<bool>)
    requires
        a@.len() == b@.len(),
    ensures
        r@.len() == a@.len(),
        forall|i: int| 0 <= i < r@.len() ==> r@[i] == (a@[i] || b@[i]),
{
    let mut result: Vec<bool> = Vec::new();
    let mut i: usize = 0;
    while i < a.len()
        invariant
            i <= a@.len(),
            a@.len() == b@.len(),
            result@.len() == i,
            forall|j: int| 0 <= j < i ==> result@[j] == (a@[j] || b@[j]),
        decreases a@.len() - i,
    {
        result.push(or2(a[i], b[i]));
        i += 1;
    }
    result
}

/// Performs an AND operation on two equally wide words, lane by lane.
pub fn and_n(a: &[bool], b: &[bool]) -> (r: Vec<bool>)
    requires
        a@.len() == b@.len(),
    ensures
        r@.len() == a@.len(),
        forall|i: int| 0 <= i < r@.len() ==> r@[i] == (a@[i] && b@[i]),
{
    let mut result: Vec<bool> = Vec::new();
    let mut i: usize = 0;
    while i < a.len()
        invariant
            i <= a@.len(),
            a@.len() == b@.len(),
            result@.len() == i,
            forall|j: int| 0 <= j < i ==> result@[j] == (a@[j] && b@[j]),
        decreases a@.len() - i,
    {
        result.push(and2(a[i], b[i]));
        i += 1;
    }
    result
}

} // verus!
