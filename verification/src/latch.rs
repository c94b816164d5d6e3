//! The latch layer: level-sensitive bistable elements built from gates.
//!
//! A latch stores one bit in a complementary output pair `(q, qn)`. The pair
//! is genuinely cyclic — each output is a gate fed by the other — so a state
//! transition is simulated as two sequential single-gate evaluations, updating
//! the output driven by the asserted input first. Each polarity has one input
//! combination with no defined stable output (the restricted combination);
//! it is ruled out by contract rather than given a fabricated result.

use vstd::prelude::*;

use crate::gate::{and2, nand2, not};

verus! {

/// Active-low SR latch. Asserting an input means driving it low:
/// `s = 0, r = 1` sets, `s = 1, r = 0` resets, `s = 1, r = 1` holds,
/// and `s = 0, r = 0` is the restricted combination.
#[derive(Clone, Copy, Debug)]
pub struct SRLatchActiveLow {
    pub q: bool,
    pub qn: bool,
}

impl SRLatchActiveLow {
    /// The complementary-pair invariant; it holds from construction on,
    /// outside of the restricted combination.
    pub open spec fn wf(self) -> bool {
        self.qn == !self.q
    }

    /// Creates a new latch in the reset state.
    pub fn new() -> (r: Self)
        ensures
            !r.q,
            r.qn,
    {
        SRLatchActiveLow { q: false, qn: true }
    }

    /// Drives the set and reset inputs and lets the feedback pair settle.
    ///
    /// The output driven by the asserted (low) input is evaluated first,
    /// then the other output is evaluated from the first one's new value;
    /// evaluating in the other order, or both from stale values, would
    /// disagree with the truth table on the transition edge.
    pub fn set(&mut self, s: bool, r: bool)
        requires
            s || r,
        ensures
            !s ==> final(self).q && !final(self).qn,
            s && !r ==> !final(self).q && final(self).qn,
            s && r ==> *final(self) == *old(self),
    {
        if !s {
            self.q = nand2(s, self.qn);
            self.qn = nand2(self.q, r);
        } else if !r {
            self.qn = nand2(self.q, r);
            self.q = nand2(s, self.qn);
        }
    }

    /// Forces the reset state directly, without gate evaluation.
    pub fn clear(&mut self)
        ensures
            !final(self).q,
            final(self).qn,
    {
        self.q = false;
        self.qn = true;
    }

    /// The stored bit.
    pub fn q(&self) -> (r: bool)
        ensures
            r == self.q,
    {
        self.q
    }

    /// The complement output.
    pub fn qn(&self) -> (r: bool)
        ensures
            r == self.qn,
    {
        self.qn
    }
}

/// Active-high SR latch: the active-low latch with both inputs inverted.
/// `s = 1, r = 0` sets, `s = 0, r = 1` resets, `s = 0, r = 0` holds,
/// and `s = 1, r = 1` is the restricted combination.
#[derive(Clone, Copy, Debug)]
pub struct SRLatchActiveHigh {
    pub sr_latch_active_low: SRLatchActiveLow,
}

impl SRLatchActiveHigh {
    /// Creates a new latch in the reset state.
    pub fn new() -> (r: Self)
        ensures
            !r.q_spec(),
            r.qn_spec(),
    {
        SRLatchActiveHigh { sr_latch_active_low: SRLatchActiveLow::new() }
    }

    /// The stored bit, as seen in contracts.
    pub open spec fn q_spec(self) -> bool {
        self.sr_latch_active_low.q
    }

    /// The complement output, as seen in contracts.
    pub open spec fn qn_spec(self) -> bool {
        self.sr_latch_active_low.qn
    }

    /// Drives the set and reset inputs.
    pub fn set(&mut self, s: bool, r: bool)
        requires
            !(s && r),
        ensures
            s ==> final(self).q_spec() && !final(self).qn_spec(),
            !s && r ==> !final(self).q_spec() && final(self).qn_spec(),
            !s && !r ==> *final(self) == *old(self),
    {
        self.sr_latch_active_low.set(not(s), not(r))
    }

    /// Forces the reset state directly, without gate evaluation.
    pub fn clear(&mut self)
        ensures
            !final(self).q_spec(),
            final(self).qn_spec(),
    {
        self.sr_latch_active_low.clear();
    }

    /// The stored bit.
    pub fn q(&self) -> (r: bool)
        ensures
            r == self.q_spec(),
    {
        self.sr_latch_active_low.q()
    }

    /// The complement output.
    pub fn qn(&self) -> (r: bool)
        ensures
            r == self.qn_spec(),
    {
        self.sr_latch_active_low.qn()
    }
}

/// Gated active-high SR latch: behaves as a plain SR latch while `enable`
/// is high and holds its state while `enable` is low.
#[derive(Clone, Copy)]
pub struct GatedSRLatch {
    pub sr_latch: SRLatchActiveHigh,
}

impl GatedSRLatch {
    /// Creates a new gated SR latch in the reset state.
    pub fn new() -> (r: Self)
        ensures
            !r.q_spec(),
            r.qn_spec(),
    {
        GatedSRLatch { sr_latch: SRLatchActiveHigh::new() }
    }

    /// The stored bit, as seen in contracts.
    pub open spec fn q_spec(self) -> bool {
        self.sr_latch.q_spec()
    }

    /// The complement output, as seen in contracts.
    pub open spec fn qn_spec(self) -> bool {
        self.sr_latch.qn_spec()
    }

    /// Drives the set, enable and reset inputs. The set and reset inputs
    /// are gated through `and` with `enable` before reaching the inner latch.
    pub fn set(&mut self, s: bool, e: bool, r: bool)
        requires
            !(s && e && r),
        ensures
            e && s ==> final(self).q_spec() && !final(self).qn_spec(),
            e && !s && r ==> !final(self).q_spec() && final(self).qn_spec(),
            !e || (!s && !r) ==> *final(self) == *old(self),
    {
        self.sr_latch.set(and2(s, e), and2(r, e))
    }

    /// Forces the reset state directly, without gate evaluation.
    pub fn clear(&mut self)
        ensures
            !final(self).q_spec(),
            final(self).qn_spec(),
    {
        self.sr_latch.clear();
    }

    /// The stored bit.
    pub fn q(&self) -> (r: bool)
        ensures
            r == self.q_spec(),
    {
        self.sr_latch.q()
    }

    /// The complement output.
    pub fn qn(&self) -> (r: bool)
        ensures
            r == self.qn_spec(),
    {
        self.sr_latch.qn()
    }
}

/// Active-high D latch: while `enable` is high the stored bit tracks `data`;
/// while `enable` is low it holds. Deriving `set = data AND enable` and
/// `reset = NOT data AND enable` makes the inner latch's restricted
/// combination unreachable, so `set` is total.
#[derive(Clone, Copy, Debug)]
pub struct DLatch {
    pub sr_latch: SRLatchActiveHigh,
}

impl DLatch {
    /// Creates a new D latch in the reset state.
    pub fn new() -> (r: Self)
        ensures
            !r.q_spec(),
            r.qn_spec(),
    {
        DLatch { sr_latch: SRLatchActiveHigh::new() }
    }

    /// The stored bit, as seen in contracts.
    pub open spec fn q_spec(self) -> bool {
        self.sr_latch.q_spec()
    }

    /// The complement output, as seen in contracts.
    pub open spec fn qn_spec(self) -> bool {
        self.sr_latch.qn_spec()
    }

    /// Drives the enable and data inputs.
    pub fn set(&mut self, e: bool, d: bool)
        ensures
            e ==> final(self).q_spec() == d && final(self).qn_spec() == !d,
            !e ==> *final(self) == *old(self),
    {
        self.sr_latch.set(and2(d, e), and2(not(d), e));
    }

    /// Forces the reset state directly, without gate evaluation.
    pub fn clear(&mut self)
        ensures
            !final(self).q_spec(),
            final(self).qn_spec(),
    {
        self.sr_latch.clear();
    }

    /// The stored bit.
    pub fn q(&self) -> (r: bool)
        ensures
            r == self.q_spec(),
    {
        self.sr_latch.q()
    }

    /// The complement output.
    pub fn qn(&self) -> (r: bool)
        ensures
            r == self.qn_spec(),
    {
        self.sr_latch.qn()
    }
}

/// The canonical D-latch state holding `q`: the complementary pair `(q, !q)`.
pub open spec fn dlatch_state(q: bool) -> DLatch {
    DLatch {
        sr_latch: SRLatchActiveHigh {
            sr_latch_active_low: SRLatchActiveLow { q: q, qn: !q },
        },
    }
}

/// The canonical SR-latch (active-high) state holding `q`: the
/// complementary pair `(q, !q)`.
pub open spec fn srlatch_state(q: bool) -> SRLatchActiveHigh {
    SRLatchActiveHigh { sr_latch_active_low: SRLatchActiveLow { q: q, qn: !q } }
}

} // verus!
