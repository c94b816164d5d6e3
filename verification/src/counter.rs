//! The ripple counter: an asynchronous chain of D flip-flops. The external
//! clock drives the least-significant flip-flop; every later flip-flop is
//! clocked by the inverted output of its predecessor, and each one feeds its
//! own inverted output back as data, so it toggles on every rising edge of
//! its own clock. The stored bits, least-significant first, read as an
//! unsigned value that wraps modulo `2^N`.

use vstd::arithmetic::div_mod::{lemma_add_mod_noop, lemma_mod_multiples_vanish, lemma_small_mod};
use vstd::arithmetic::power2::{
    lemma2_to64, lemma_pow2_pos, lemma_pow2_strictly_increases, lemma_pow2_unfold, pow2,
};
use vstd::bits::{lemma_u64_pow2_no_overflow, lemma_u64_shl_is_mul};
use vstd::prelude::*;

use crate::bus::{bus_val, lemma_bus_val_bound, lemma_bus_val_push};
use crate::flipflop::{dff_state, dff_step, DFlipflop};

verus! {

/// One flip-flop of the chain stepped once under its toggle wiring: its
/// own complement output is its data input.
pub open spec fn dff_toggle_step(ff: DFlipflop, clk: bool) -> DFlipflop {
    dff_step(ff, clk, ff.slave.qn_spec())
}

/// The whole chain stepped once: the external clock reaches the first
/// flip-flop, and each later one is clocked by its predecessor's freshly
/// updated complement output.
pub open spec fn ripple_step(ffs: Seq<DFlipflop>, clk: bool) -> Seq<DFlipflop>
    decreases ffs.len(),
{
    if ffs.len() == 0 {
        Seq::empty()
    } else {
        let h = dff_toggle_step(ffs[0], clk);
        seq![h] + ripple_step(ffs.drop_first(), h.slave.qn_spec())
    }
}

/// Stepping the chain preserves its length.
pub proof fn lemma_ripple_step_len(ffs: Seq<DFlipflop>, clk: bool)
    ensures
        ripple_step(ffs, clk).len() == ffs.len(),
    decreases ffs.len(),
{
    if ffs.len() > 0 {
        let h = dff_toggle_step(ffs[0], clk);
        lemma_ripple_step_len(ffs.drop_first(), h.slave.qn_spec());
    }
}

/// Each flip-flop of the stepped chain is its old self stepped once, clocked
/// by the external clock at position zero and by the predecessor's new
/// complement output everywhere else.
pub proof fn lemma_ripple_step_chain(ffs: Seq<DFlipflop>, clk: bool, i: int)
    requires
        0 <= i < ffs.len(),
    ensures
        ripple_step(ffs, clk).len() == ffs.len(),
        ripple_step(ffs, clk)[i] == dff_toggle_step(
            ffs[i],
            if i == 0 {
                clk
            } else {
                ripple_step(ffs, clk)[i - 1].slave.qn_spec()
            },
        ),
    decreases i,
{
    lemma_ripple_step_len(ffs, clk);
    let h = dff_toggle_step(ffs[0], clk);
    let rest = ripple_step(ffs.drop_first(), h.slave.qn_spec());
    lemma_ripple_step_len(ffs.drop_first(), h.slave.qn_spec());
    assert(ripple_step(ffs, clk) == seq![h] + rest);
    if i > 0 {
        lemma_ripple_step_chain(ffs.drop_first(), h.slave.qn_spec(), i - 1);
        assert((seq![h] + rest)[i] == rest[i - 1]);
        assert(ffs.drop_first()[i - 1] == ffs[i]);
        if i == 1 {
            assert((seq![h] + rest)[0] == h);
        } else {
            assert((seq![h] + rest)[i - 1] == rest[i - 2]);
            assert(ffs.drop_first()[i - 2] == ffs[i - 1]);
        }
    }
}

/// The stored bits of a chain, least-significant first.
pub open spec fn qbits(ffs: Seq<DFlipflop>) -> Seq<bool> {
    ffs.map_values(|ff: DFlipflop| ff.q_spec())
}

/// The clock level seen by stage `k` of the chain while the external clock
/// sits at `clk0`: the first stage sees the external clock, every later one
/// the complement output of its predecessor.
pub open spec fn stage_clk(q: Seq<bool>, clk0: bool, k: int) -> bool {
    if k == 0 {
        clk0
    } else {
        !q[k - 1]
    }
}

/// Stage `k` is in phase with the clock level it sees: its master holds the
/// stored bit where its clock is high (the slave just copied it) and the
/// staged toggle value where its clock is low.
pub open spec fn aligned_at(ffs: Seq<DFlipflop>, clk0: bool, k: int) -> bool {
    ffs[k] == dff_state(
        if stage_clk(qbits(ffs), clk0, k) {
            ffs[k].q_spec()
        } else {
            !ffs[k].q_spec()
        },
        ffs[k].q_spec(),
    )
}

/// Every stage of the chain is in phase with the clock level it sees.
pub open spec fn aligned(ffs: Seq<DFlipflop>, clk0: bool) -> bool {
    forall|k: int| 0 <= k < ffs.len() ==> #[trigger] aligned_at(ffs, clk0, k)
}

/// The resting state of the counter between clock pulses: the chain is in
/// phase with a low external clock. Construction, clearing, and every full
/// pulse leave the counter settled.
pub open spec fn settled(ffs: Seq<DFlipflop>) -> bool {
    aligned(ffs, false)
}

/// A settled chain is well formed, so it accepts updates.
pub proof fn lemma_settled_wf(ffs: Seq<DFlipflop>)
    requires
        settled(ffs),
    ensures
        forall|k: int| 0 <= k < ffs.len() ==> ffs[k].wf(),
{
    assert forall|k: int| 0 <= k < ffs.len() implies ffs[k].wf() by {
        assert(aligned_at(ffs, false, k));
    }
}

/// The carry into bit `k` when a bit string is incremented: high exactly
/// when every lower bit is high.
pub open spec fn inc_carry(q: Seq<bool>, k: int) -> bool
    decreases k,
{
    if k <= 0 {
        true
    } else {
        inc_carry(q, k - 1) && q[k - 1]
    }
}

/// The bit string incremented by one, modulo `2^len`: each bit flips
/// exactly where the carry reaches it.
pub open spec fn inc_bits(q: Seq<bool>) -> Seq<bool> {
    Seq::new(q.len(), |k: int| q[k] != inc_carry(q, k))
}

/// The carry reaches bit `k` exactly when the low `k` bits hold the largest
/// `k`-bit value.
proof fn lemma_inc_carry_is_all_ones(q: Seq<bool>, k: int)
    requires
        0 <= k <= q.len(),
    ensures
        inc_carry(q, k) == (bus_val(q.take(k)) == pow2(k as nat) - 1),
    decreases k,
{
    lemma_pow2_pos(k as nat);
    if k == 0 {
        lemma2_to64();
        assert(q.take(0) =~= Seq::<bool>::empty());
    } else {
        lemma_inc_carry_is_all_ones(q, k - 1);
        assert(q.take(k) =~= q.take(k - 1).push(q[k - 1]));
        lemma_bus_val_push(q.take(k - 1), q[k - 1]);
        lemma_bus_val_bound(q.take(k - 1));
        lemma_pow2_unfold(k as nat);
    }
}

/// Dropping the top bit commutes with the carry chain.
proof fn lemma_inc_carry_prefix(q: Seq<bool>, k: int)
    requires
        0 <= k < q.len(),
    ensures
        inc_carry(q.drop_last(), k) == inc_carry(q, k),
    decreases k,
{
    if k > 0 {
        lemma_inc_carry_prefix(q, k - 1);
    }
}

/// Incrementing the bits increments the value, modulo `2^len`.
pub proof fn lemma_inc_bits_value(q: Seq<bool>)
    ensures
        bus_val(inc_bits(q)) as int == ((bus_val(q) + 1) as int) % (pow2(q.len()) as int),
    decreases q.len(),
{
    let n = q.len();
    lemma_pow2_pos(n);
    if n == 0 {
        assert(inc_bits(q) =~= Seq::<bool>::empty());
        lemma2_to64();
        assert((1int) % 1 == 0) by {
            lemma_mod_multiples_vanish(1, 0, 1);
        }
    } else {
        let m = (n - 1) as nat;
        let t = q.drop_last();
        let b = q.last();
        lemma_pow2_pos(m);
        lemma_pow2_unfold(n);
        lemma_inc_bits_value(t);
        lemma_bus_val_bound(t);
        assert forall|k: int| 0 <= k < m implies inc_bits(q)[k] == inc_bits(t)[k] by {
            lemma_inc_carry_prefix(q, k);
        }
        assert(inc_bits(q).drop_last() =~= inc_bits(t));
        assert(inc_bits(q).last() == (b != inc_carry(q, n - 1)));
        lemma_inc_carry_is_all_ones(q, n - 1);
        assert(q.take(n - 1) =~= t);
        let c = inc_carry(q, n - 1);
        assert(bus_val(q) == bus_val(t) + if b {
            pow2(m)
        } else {
            0nat
        });
        assert(bus_val(inc_bits(q)) == bus_val(inc_bits(t)) + if (b != c) {
            pow2(m)
        } else {
            0nat
        });
        if c {
            assert(bus_val(t) == pow2(m) - 1);
            assert((pow2(m) as int) % pow2(m) as int == 0) by {
                lemma_mod_multiples_vanish(1, 0, pow2(m) as int);
            }
            assert(bus_val(inc_bits(t)) == 0);
            if b {
                assert(bus_val(q) + 1 == pow2(n));
                assert((pow2(n) as int) % pow2(n) as int == 0) by {
                    lemma_mod_multiples_vanish(1, 0, pow2(n) as int);
                }
                assert(bus_val(inc_bits(q)) == 0);
            } else {
                lemma_pow2_strictly_increases(m, n);
                lemma_small_mod(pow2(m), pow2(n));
                assert(bus_val(inc_bits(q)) == pow2(m));
            }
        } else {
            assert(bus_val(t) + 1 < pow2(m));
            lemma_small_mod((bus_val(t) + 1) as nat, pow2(m));
            assert(bus_val(inc_bits(t)) == bus_val(t) + 1);
            lemma_small_mod((bus_val(q) + 1) as nat, pow2(n));
        }
    }
}

/// The rising edge, stage by stage: from a settled chain, driving the clock
/// high leaves every stage in phase with a high external clock and flips the
/// stored bits exactly as an increment does.
proof fn lemma_rising_at(s: Seq<DFlipflop>, k: int)
    requires
        settled(s),
        0 <= k < s.len(),
    ensures
        ripple_step(s, true).len() == s.len(),
        ripple_step(s, true)[k] == dff_state(
            if stage_clk(inc_bits(qbits(s)), true, k) {
                inc_bits(qbits(s))[k]
            } else {
                !inc_bits(qbits(s))[k]
            },
            inc_bits(qbits(s))[k],
        ),
    decreases k,
{
    let q = qbits(s);
    let inc = inc_bits(q);
    lemma_ripple_step_chain(s, true, k);
    assert(aligned_at(s, false, k));
    assert(q[k] == s[k].q_spec());
    if k == 0 {
        assert(inc_carry(q, 0));
    } else {
        lemma_rising_at(s, k - 1);
        assert(q[k - 1] == s[k - 1].q_spec());
        assert(inc_carry(q, k) == (inc_carry(q, k - 1) && q[k - 1]));
        assert(inc[k - 1] == (q[k - 1] != inc_carry(q, k - 1)));
        assert(inc[k] == (q[k] != inc_carry(q, k)));
    }
}

/// The falling edge, stage by stage: from a chain in phase with a high
/// clock, lowering the clock keeps every stored bit and leaves the chain
/// settled.
proof fn lemma_falling_at(t: Seq<DFlipflop>, k: int)
    requires
        aligned(t, true),
        0 <= k < t.len(),
    ensures
        ripple_step(t, false).len() == t.len(),
        ripple_step(t, false)[k] == dff_state(
            if stage_clk(qbits(t), false, k) {
                qbits(t)[k]
            } else {
                !qbits(t)[k]
            },
            qbits(t)[k],
        ),
    decreases k,
{
    let q = qbits(t);
    lemma_ripple_step_chain(t, false, k);
    assert(aligned_at(t, true, k));
    assert(q[k] == t[k].q_spec());
    if k > 0 {
        lemma_falling_at(t, k - 1);
        assert(q[k - 1] == t[k - 1].q_spec());
    }
}

/// One full clock pulse — raise, then lower — increments a settled chain by
/// exactly one, modulo `2^N`, and leaves it settled again. Together with the
/// contract of [`RippleCounter::update`], this pins the counting behaviour
/// of the counter over any number of pulses.
pub proof fn lemma_pulse_pair_increments(s: Seq<DFlipflop>)
    requires
        s.len() >= 1,
        settled(s),
    ensures
        settled(ripple_step(ripple_step(s, true), false)),
        qbits(ripple_step(ripple_step(s, true), false)) == inc_bits(qbits(s)),
        bus_val(qbits(ripple_step(ripple_step(s, true), false))) as int == ((bus_val(qbits(s))
            + 1) as int) % (pow2(s.len()) as int),
{
    let q = qbits(s);
    let inc = inc_bits(q);
    let t = ripple_step(s, true);
    let u = ripple_step(t, false);
    let n = s.len() as int;
    lemma_ripple_step_len(s, true);
    lemma_ripple_step_len(t, false);
    assert forall|k: int| 0 <= k < n implies t[k] == dff_state(
        if stage_clk(inc, true, k) {
            inc[k]
        } else {
            !inc[k]
        },
        inc[k],
    ) by {
        lemma_rising_at(s, k);
    }
    assert(qbits(t) =~= inc);
    assert forall|k: int| 0 <= k < n implies #[trigger] aligned_at(t, true, k) by {
        assert(t[k].q_spec() == inc[k]);
    }
    assert forall|k: int| 0 <= k < n implies u[k] == dff_state(
        if stage_clk(qbits(t), false, k) {
            qbits(t)[k]
        } else {
            !qbits(t)[k]
        },
        qbits(t)[k],
    ) by {
        lemma_falling_at(t, k);
    }
    assert(qbits(u) =~= qbits(t));
    assert forall|k: int| 0 <= k < n implies #[trigger] aligned_at(u, false, k) by {
        assert(u[k].q_spec() == qbits(t)[k]);
        assert(qbits(u)[k] == qbits(t)[k]);
        if k > 0 {
            assert(qbits(u)[k - 1] == qbits(t)[k - 1]);
        }
    }
    lemma_inc_bits_value(q);
}

/// A freshly built or cleared counter is settled and holds zero: clearing
/// the flip-flops puts the chain in phase with a high clock, and the one
/// low-clock settling update brings it to the resting state.
pub proof fn lemma_reset_settled(n: nat)
    requires
        n >= 1,
    ensures
        settled(ripple_step(Seq::new(n, |k: int| dff_state(false, false)), false)),
        bus_val(qbits(ripple_step(Seq::new(n, |k: int| dff_state(false, false)), false))) == 0,
{
    let base = Seq::new(n, |k: int| dff_state(false, false));
    let r = ripple_step(base, false);
    lemma_ripple_step_len(base, false);
    assert forall|k: int| 0 <= k < n implies #[trigger] aligned_at(base, true, k) by {
        assert(base[k] == dff_state(false, false));
        assert(qbits(base)[k] == false);
        if k > 0 {
            assert(qbits(base)[k - 1] == false);
        }
    }
    assert forall|k: int| 0 <= k < n implies r[k] == dff_state(
        if stage_clk(qbits(base), false, k) {
            qbits(base)[k]
        } else {
            !qbits(base)[k]
        },
        qbits(base)[k],
    ) by {
        lemma_falling_at(base, k);
    }
    assert forall|k: int| 0 <= k < n implies #[trigger] aligned_at(r, false, k) by {
        assert(r[k].q_spec() == qbits(base)[k]);
        assert(qbits(r)[k] == qbits(base)[k]);
        if k > 0 {
            assert(qbits(r)[k - 1] == qbits(base)[k - 1]);
        }
    }
    lemma_all_low_reads_zero(qbits(r));
    assert forall|k: int| 0 <= k < n implies !qbits(r)[k] by {
        assert(qbits(r)[k] == qbits(base)[k]);
    }
}

/// An all-low bit string reads as zero.
pub proof fn lemma_all_low_reads_zero(q: Seq<bool>)
    requires
        forall|k: int| 0 <= k < q.len() ==> !q[k],
    ensures
        bus_val(q) == 0,
    decreases q.len(),
{
    if q.len() > 0 {
        lemma_all_low_reads_zero(q.drop_last());
    }
}

/// The chain after `n` full clock pulses, each a raise followed by a lower.
pub open spec fn pulse_pairs(ffs: Seq<DFlipflop>, n: nat) -> Seq<DFlipflop>
    decreases n,
{
    if n == 0 {
        ffs
    } else {
        ripple_step(ripple_step(pulse_pairs(ffs, (n - 1) as nat), true), false)
    }
}

/// Counting: `n` full clock pulses add `n` to a settled chain, modulo
/// `2^N`, and leave it settled.
pub proof fn lemma_pulse_pairs_count(s: Seq<DFlipflop>, n: nat)
    requires
        s.len() >= 1,
        settled(s),
    ensures
        pulse_pairs(s, n).len() == s.len(),
        settled(pulse_pairs(s, n)),
        bus_val(qbits(pulse_pairs(s, n))) as int == ((bus_val(qbits(s)) + n) as int) % (pow2(
            s.len(),
        ) as int),
    decreases n,
{
    let p = pow2(s.len()) as int;
    lemma_pow2_pos(s.len());
    if n == 0 {
        lemma_bus_val_bound(qbits(s));
        assert(qbits(s).len() == s.len());
        lemma_small_mod(bus_val(qbits(s)), pow2(s.len()));
    } else {
        let before = pulse_pairs(s, (n - 1) as nat);
        lemma_pulse_pairs_count(s, (n - 1) as nat);
        lemma_pulse_pair_increments(before);
        lemma_ripple_step_len(before, true);
        lemma_ripple_step_len(ripple_step(before, true), false);
        // (v + (n - 1)) % p + 1, reduced again modulo p, is (v + n) % p
        let v = bus_val(qbits(s)) as int;
        lemma_add_mod_noop(v + (n - 1), 1, p);
        assert((1int) % p == 1) by {
            lemma_pow2_strictly_increases(0, s.len());
            lemma2_to64();
            lemma_small_mod(1nat, pow2(s.len()));
        }
        assert(((v + (n - 1)) % p + (1int) % p) % p == (v + (n - 1) + 1) % p);
        assert(bus_val(qbits(pulse_pairs(s, n))) as int == ((v + (n - 1)) % p + 1) % p);
    }
}

/// An asynchronous ripple counter over a chain of D flip-flops.
pub struct RippleCounter {
    pub flipflops: Vec<DFlipflop>,
}

impl RippleCounter {
    /// Every flip-flop of the chain holds complementary output pairs.
    pub open spec fn wf(self) -> bool {
        forall|k: int| 0 <= k < self.flipflops@.len() ==> self.flipflops@[k].wf()
    }

    /// The counted value: the stored bits read as an unsigned number,
    /// least-significant bit in the first flip-flop.
    pub open spec fn value_spec(self) -> nat {
        bus_val(qbits(self.flipflops@))
    }

    /// Creates a counter of `width` flip-flops, all cleared, and settles the
    /// chain with one low-clock update so that a later rising edge does not
    /// race data against clock.
    pub fn new(width: usize) -> (r: Self)
        requires
            width >= 1,
        ensures
            r.wf(),
            r.flipflops@.len() == width,
            r.flipflops@ == ripple_step(
                Seq::new(width as nat, |k: int| dff_state(false, false)),
                false,
            ),
    {
        let mut ffs: Vec<DFlipflop> = Vec::new();
        let mut i: usize = 0;
        while i < width
            invariant
                i <= width,
                ffs@.len() == i,
                forall|k: int| 0 <= k < i ==> ffs@[k] == dff_state(false, false),
            decreases width - i,
        {
            let ff = DFlipflop::new();
            assert(ff == dff_state(false, false));
            ffs.push(ff);
            i += 1;
        }
        assert(ffs@ =~= Seq::new(width as nat, |k: int| dff_state(false, false)));
        let mut counter = RippleCounter { flipflops: ffs };
        counter.init();
        proof {
            lemma_ripple_step_len(Seq::new(width as nat, |k: int| dff_state(false, false)), false);
        }
        counter
    }

    /// Propagates one simulated clock level through the chain.
    pub fn update(&mut self, clk: bool)
        requires
            old(self).wf(),
            old(self).flipflops@.len() >= 1,
        ensures
            final(self).wf(),
            final(self).flipflops@ == ripple_step(old(self).flipflops@, clk),
    {
        let ghost orig = self.flipflops@;
        let ghost full = ripple_step(orig, clk);
        proof {
            lemma_ripple_step_chain(orig, clk, 0);
        }
        // Feed the clock signal into the least-significant flip-flop.
        let d0 = self.flipflops[0].qn();
        let mut ff0 = self.flipflops[0];
        ff0.update(clk, d0);
        self.flipflops[0] = ff0;
        assert(self.flipflops@[0] == full[0]);
        // Chain the inverted output through the adjacent flip-flops.
        let n = self.flipflops.len();
        let mut i: usize = 1;
        while i < n
            invariant
                1 <= i <= n,
                n == orig.len(),
                self.flipflops@.len() == n,
                full == ripple_step(orig, clk),
                full.len() == n,
                forall|k: int| 0 <= k < n ==> orig[k].wf(),
                forall|k: int| 0 <= k < i ==> self.flipflops@[k] == full[k],
                forall|k: int| i <= k < n ==> self.flipflops@[k] == orig[k],
            decreases n - i,
        {
            proof {
                lemma_ripple_step_chain(orig, clk, i as int);
            }
            let c = self.flipflops[i - 1].qn();
            let d = self.flipflops[i].qn();
            let mut ff = self.flipflops[i];
            ff.update(c, d);
            self.flipflops[i] = ff;
            assert(self.flipflops@[i as int] == full[i as int]);
            i += 1;
        }
        proof {
            assert(self.flipflops@ =~= full);
            assert forall|k: int| 0 <= k < n implies self.flipflops@[k].wf() by {
                lemma_ripple_step_chain(orig, clk, k);
            }
        }
    }

    /// Clears every flip-flop and re-settles the chain with one low-clock
    /// update, re-establishing the initial low-clock state.
    pub fn clear(&mut self)
        requires
            old(self).flipflops@.len() >= 1,
        ensures
            final(self).wf(),
            final(self).flipflops@.len() == old(self).flipflops@.len(),
            final(self).flipflops@ == ripple_step(
                Seq::new(old(self).flipflops@.len(), |k: int| dff_state(false, false)),
                false,
            ),
    {
        let n = self.flipflops.len();
        let mut i: usize = 0;
        while i < n
            invariant
                i <= n,
                self.flipflops@.len() == n,
                forall|k: int| 0 <= k < i ==> self.flipflops@[k] == dff_state(false, false),
            decreases n - i,
        {
            let mut ff = self.flipflops[i];
            ff.clear();
            self.flipflops[i] = ff;
            assert(self.flipflops@[i as int] == dff_state(false, false));
            i += 1;
        }
        assert(self.flipflops@ =~= Seq::new(n as nat, |k: int| dff_state(false, false)));
        self.init();
        proof {
            lemma_ripple_step_len(Seq::new(n as nat, |k: int| dff_state(false, false)), false);
        }
    }

    /// Settles the chain after construction or clearing: one update with the
    /// clock held low.
    fn init(&mut self)
        requires
            old(self).wf(),
            old(self).flipflops@.len() >= 1,
        ensures
            final(self).wf(),
            final(self).flipflops@ == ripple_step(old(self).flipflops@, false),
    {
        self.update(false);
    }

    /// Reads the stored bits as an unsigned value.
    pub fn value(&self) -> (r: u64)
        requires
            self.flipflops@.len() <= 64,
        ensures
            r as nat == self.value_spec(),
    {
        let ghost qs = qbits(self.flipflops@);
        let mut val: u64 = 0;
        assert(qs.take(0) =~= Seq::<bool>::empty());
        for i in 0..self.flipflops.len()
            invariant
                self.flipflops@.len() <= 64,
                qs == qbits(self.flipflops@),
                qs.len() == self.flipflops@.len(),
                val as nat == bus_val(qs.take(i as int)),
        {
            proof {
                lemma_bus_val_bound(qs.take(i as int));
                lemma_u64_pow2_no_overflow(i as nat);
                lemma_u64_shl_is_mul(1, i as u64);
                lemma_pow2_unfold((i + 1) as nat);
                if i + 1 < 64 {
                    lemma_pow2_strictly_increases((i + 1) as nat, 64);
                }
                lemma2_to64();
                lemma_bus_val_push(qs.take(i as int), qs[i as int]);
                assert(qs.take(i + 1) =~= qs.take(i as int).push(qs[i as int]));
            }
            if self.flipflops[i].q() {
                val = val + (1u64 << (i as u64));
            }
        }
        proof {
            assert(qs.take(qs.len() as int) =~= qs);
        }
        val
    }
}

} // verus!
