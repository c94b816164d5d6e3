//! The flip-flop layer: edge-triggered bistable elements, each built as a
//! master/slave pair of level-sensitive latches.
//!
//! The master latch is transparent while the clock is low and the slave
//! while the clock is high, so the stored output changes only at the rising
//! clock edge and repeated updates with an unchanged clock are idempotent.

use vstd::prelude::*;

use crate::gate::{and2, not};
use crate::latch::{DLatch, SRLatchActiveHigh};

verus! {

/// Edge-triggered D flip-flop: `master` is a D latch enabled by the inverted
/// clock, `slave` a D latch enabled by the clock and fed from the master, so
/// the slave captures `data` exactly at the rising clock edge.
#[derive(Clone, Copy)]
pub struct DFlipflop {
    pub master: DLatch,
    pub slave: DLatch,
}

impl DFlipflop {
    /// The complementary-pair invariant of both inner latches. It holds from
    /// construction on and is preserved by every update.
    pub open spec fn wf(self) -> bool {
        &&& self.master.qn_spec() == !self.master.q_spec()
        &&& self.slave.qn_spec() == !self.slave.q_spec()
    }

    /// The stored bit, as seen in contracts.
    pub open spec fn q_spec(self) -> bool {
        self.slave.q_spec()
    }

    /// The complement output, as seen in contracts.
    pub open spec fn qn_spec(self) -> bool {
        self.slave.qn_spec()
    }

    /// Creates a new D flip-flop in the reset state.
    pub fn new() -> (r: Self)
        ensures
            r.wf(),
            !r.q_spec(),
            !r.master.q_spec(),
    {
        DFlipflop { master: DLatch::new(), slave: DLatch::new() }
    }

    /// Updates the flip-flop with new inputs: while the clock is low the
    /// master tracks `d`; while it is high the slave captures the master.
    pub fn update(&mut self, clk: bool, d: bool)
        requires
            old(self).wf(),
        ensures
            final(self).wf(),
            clk ==> final(self).master == old(self).master && final(self).q_spec() == old(self).master.q_spec(),
            !clk ==> final(self).master.q_spec() == d && final(self).slave == old(self).slave,
            *final(self) == dff_step(*old(self), clk, d),
    {
        let nclk = not(clk);
        self.master.set(nclk, d);
        let m = self.master.q();
        self.slave.set(clk, m);
    }

    /// The stored bit.
    pub fn q(&self) -> (r: bool)
        ensures
            r == self.q_spec(),
    {
        self.slave.q()
    }

    /// The complement output.
    pub fn qn(&self) -> (r: bool)
        ensures
            r == self.slave.qn_spec(),
    {
        self.slave.qn()
    }

    /// Forces both latches back to the reset state.
    pub fn clear(&mut self)
        ensures
            final(self).wf(),
            !final(self).q_spec(),
            !final(self).master.q_spec(),
    {
        self.master.clear();
        self.slave.clear();
    }
}

/// Edge-triggered SR flip-flop: set and reset are gated into the master
/// while the clock is low, and the master's outputs are clock-gated into
/// the slave, so the stored bit changes only at the rising clock edge.
#[derive(Clone, Copy)]
pub struct SRFlipflop {
    pub master: SRLatchActiveHigh,
    pub slave: SRLatchActiveHigh,
}

impl SRFlipflop {
    /// The complementary-pair invariant of both inner latches.
    pub open spec fn wf(self) -> bool {
        &&& self.master.qn_spec() == !self.master.q_spec()
        &&& self.slave.qn_spec() == !self.slave.q_spec()
    }

    /// The stored bit, as seen in contracts.
    pub open spec fn q_spec(self) -> bool {
        self.slave.q_spec()
    }

    /// Creates a new SR flip-flop in the reset state.
    pub fn new() -> (r: Self)
        ensures
            r.wf(),
            !r.q_spec(),
            !r.master.q_spec(),
    {
        SRFlipflop { master: SRLatchActiveHigh::new(), slave: SRLatchActiveHigh::new() }
    }

    /// Updates the flip-flop with new inputs: while the clock is low the
    /// master follows set/reset; while it is high the slave captures the
    /// master. Asserting both set and reset with the clock low would reach
    /// the latch's restricted combination and is ruled out by contract.
    pub fn update(&mut self, clk: bool, s: bool, r: bool)
        requires
            old(self).wf(),
            !(s && r && !clk),
        ensures
            final(self).wf(),
            clk ==> final(self).master == old(self).master && final(self).q_spec() == old(self).master.q_spec(),
            !clk && s ==> final(self).master.q_spec() && final(self).slave == old(self).slave,
            !clk && !s && r ==> !final(self).master.q_spec() && final(self).slave == old(self).slave,
            !clk && !s && !r ==> *final(self) == *old(self),
            *final(self) == srff_step(*old(self), clk, s, r),
    {
        let nclk = not(clk);
        self.master.set(and2(s, nclk), and2(r, nclk));
        let mq = self.master.q();
        let mqn = self.master.qn();
        self.slave.set(and2(mq, clk), and2(mqn, clk));
    }

    /// The stored bit.
    pub fn q(&self) -> (r: bool)
        ensures
            r == self.q_spec(),
    {
        self.slave.q()
    }

    /// The complement output.
    pub fn qn(&self) -> (r: bool)
        ensures
            r == self.slave.qn_spec(),
    {
        self.slave.qn()
    }
}

/// Edge-triggered JK flip-flop: an SR flip-flop whose set input is derived
/// as `j AND qn` and whose reset input as `k AND q`. The set input can only
/// assert while the flip-flop is reset and the reset input only while it is
/// set, so the SR restricted combination is unreachable and `j = k = 1`
/// toggles the stored bit on each rising clock edge.
#[derive(Clone, Copy)]
pub struct JKFlipflop {
    pub sr_flipflop: SRFlipflop,
}

impl JKFlipflop {
    /// The complementary-pair invariant of the inner flip-flop.
    pub open spec fn wf(self) -> bool {
        self.sr_flipflop.wf()
    }

    /// The stored bit, as seen in contracts.
    pub open spec fn q_spec(self) -> bool {
        self.sr_flipflop.q_spec()
    }

    /// Creates a new JK flip-flop in the reset state.
    pub fn new() -> (r: Self)
        ensures
            r.wf(),
            !r.q_spec(),
            !r.sr_flipflop.master.q_spec(),
    {
        JKFlipflop { sr_flipflop: SRFlipflop::new() }
    }

    /// Updates the flip-flop with new inputs. With the clock low, `j` stages
    /// a set while the stored bit is low and `k` stages a reset while it is
    /// high; the staged bit reaches the output at the next rising edge.
    pub fn update(&mut self, clk: bool, j: bool, k: bool)
        requires
            old(self).wf(),
        ensures
            final(self).wf(),
            clk ==> final(self).sr_flipflop.master == old(self).sr_flipflop.master && final(self).q_spec() == old(self).sr_flipflop.master.q_spec(),
            !clk ==> final(self).sr_flipflop.slave == old(self).sr_flipflop.slave,
            !clk && j && !old(self).q_spec() ==> final(self).sr_flipflop.master.q_spec(),
            !clk && k && old(self).q_spec() ==> !final(self).sr_flipflop.master.q_spec(),
            !clk && !(j && !old(self).q_spec()) && !(k && old(self).q_spec()) ==> *final(self)
                == *old(self),
            *final(self) == jkff_step(*old(self), clk, j, k),
    {
        let q = self.sr_flipflop.q();
        let qn = self.sr_flipflop.qn();
        let s = and2(j, qn);
        let r = and2(k, q);
        self.sr_flipflop.update(clk, s, r);
    }

    /// The stored bit.
    pub fn q(&self) -> (r: bool)
        ensures
            r == self.q_spec(),
    {
        self.sr_flipflop.q()
    }

    /// The complement output.
    pub fn qn(&self) -> (r: bool)
        ensures
            r == self.sr_flipflop.slave.qn_spec(),
    {
        self.sr_flipflop.qn()
    }
}

/// The canonical D-flip-flop state with master bit `m` and slave bit `s`,
/// each latch holding its complementary pair.
pub open spec fn dff_state(m: bool, s: bool) -> DFlipflop {
    DFlipflop { master: crate::latch::dlatch_state(m), slave: crate::latch::dlatch_state(s) }
}

/// The D flip-flop's transition on one update with clock `clk` and data
/// `d`, for a well-formed state: while the clock is high the slave copies
/// the master; while it is low the master stages `d`.
pub open spec fn dff_step(ff: DFlipflop, clk: bool, d: bool) -> DFlipflop {
    if clk {
        dff_state(ff.master.q_spec(), ff.master.q_spec())
    } else {
        dff_state(d, ff.slave.q_spec())
    }
}

/// The SR flip-flop's transition on one update, for a well-formed state:
/// while the clock is high the slave copies the master; while it is low the
/// master follows set and reset.
pub open spec fn srff_step(ff: SRFlipflop, clk: bool, s: bool, r: bool) -> SRFlipflop {
    if clk {
        srff_state(ff.master.q_spec(), ff.master.q_spec())
    } else if s {
        srff_state(true, ff.slave.q_spec())
    } else if r {
        srff_state(false, ff.slave.q_spec())
    } else {
        srff_state(ff.master.q_spec(), ff.slave.q_spec())
    }
}

/// The JK flip-flop's transition on one update: the SR transition with
/// `set = j AND qn` and `reset = k AND q`.
pub open spec fn jkff_step(ff: JKFlipflop, clk: bool, j: bool, k: bool) -> JKFlipflop {
    JKFlipflop {
        sr_flipflop: srff_step(
            ff.sr_flipflop,
            clk,
            j && !ff.q_spec(),
            k && ff.q_spec(),
        ),
    }
}

/// The canonical SR-flip-flop state with master bit `m` and slave bit `s`.
pub open spec fn srff_state(m: bool, s: bool) -> SRFlipflop {
    SRFlipflop {
        master: crate::latch::srlatch_state(m),
        slave: crate::latch::srlatch_state(s),
    }
}

/// Updating a D flip-flop twice with unchanged inputs changes nothing after
/// the first update: the clock edge, not the clock level, drives the state.
pub proof fn lemma_dff_update_idempotent(ff: DFlipflop, clk: bool, d: bool)
    ensures
        dff_step(dff_step(ff, clk, d), clk, d) == dff_step(ff, clk, d),
{
}

/// Updating an SR flip-flop twice with unchanged inputs changes nothing
/// after the first update.
pub proof fn lemma_srff_update_idempotent(ff: SRFlipflop, clk: bool, s: bool, r: bool)
    ensures
        srff_step(srff_step(ff, clk, s, r), clk, s, r) == srff_step(ff, clk, s, r),
{
}

/// Updating a JK flip-flop twice with unchanged inputs changes nothing
/// after the first update, including with `j = k = 1`: a toggle takes a
/// fresh rising edge.
pub proof fn lemma_jkff_update_idempotent(ff: JKFlipflop, clk: bool, j: bool, k: bool)
    ensures
        jkff_step(jkff_step(ff, clk, j, k), clk, j, k) == jkff_step(ff, clk, j, k),
{
}

} // verus!
