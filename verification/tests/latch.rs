use gatesim::latch::{DLatch, GatedSRLatch, SRLatchActiveHigh, SRLatchActiveLow};

#[test]
fn test_sr_latch_active_high() {
    for (q_init, s, r, q_expected) in [
        // Hold state
        (false, false, false, false),
        (true, false, false, true),
        // Reset
        (false, false, true, false),
        (true, false, true, false),
        // Set
        (false, true, false, true),
        (true, true, false, true),
    ] {
        let mut latch = SRLatchActiveHigh {
            sr_latch_active_low: SRLatchActiveLow {
                q: q_init,
                qn: !q_init,
            },
        };

        latch.set(s, r);

        assert_eq!(
            latch.q(),
            q_expected,
            "failed for inputs: {:?}",
            (q_init, s, r)
        )
    }
}

#[test]
fn test_sr_latch_active_low() {
    for (q_init, s, r, q_expected) in [
        // Hold state
        (false, true, true, false),
        (true, true, true, true),
        // Reset
        (false, true, false, false),
        (true, true, false, false),
        // Set
        (false, false, true, true),
        (true, false, true, true),
    ] {
        let mut latch = SRLatchActiveLow {
            q: q_init,
            qn: !q_init,
        };

        latch.set(s, r);

        assert_eq!(
            latch.q(),
            q_expected,
            "failed for inputs: {:?}",
            (q_init, s, r)
        );

        assert_eq!(
            latch.qn(),
            !q_expected,
            "failed for inputs: {:?}",
            (q_init, s, r)
        )
    }
}

#[test]
fn test_gated_sr_latch() {
    for (q_init, s, e, r, q_expected) in [
        // Hold state (enabled)
        (false, false, true, false, false),
        (true, false, true, false, true),
        // Reset (enabled)
        (false, false, true, true, false),
        (true, false, true, true, false),
        // Set (enabled)
        (false, true, true, false, true),
        (true, true, true, false, true),
        // Hold state (disabled)
        (false, false, false, false, false),
        (true, false, false, false, true),
        // Reset (disabled)
        (false, false, false, true, false),
        (true, false, false, true, true),
        // Set (disabled)
        (false, true, false, false, false),
        (true, true, false, false, true),
    ] {
        let mut latch = GatedSRLatch {
            sr_latch: SRLatchActiveHigh {
                sr_latch_active_low: SRLatchActiveLow {
                    q: q_init,
                    qn: !q_init,
                },
            },
        };

        latch.set(s, e, r);

        assert_eq!(
            latch.q(),
            q_expected,
            "failed for inputs: {:?}",
            (q_init, s, r)
        )
    }
}

#[test]
fn test_d_latch() {
    for (q_init, e, d, q_expected) in [
        // Hold state
        (false, false, false, false),
        (true, false, false, true),
        (false, false, true, false),
        (true, false, true, true),
        // Reset
        (false, true, false, false),
        (true, true, false, false),
        // Set
        (false, true, true, true),
        (true, true, true, true),
    ] {
        let mut latch = DLatch {
            sr_latch: SRLatchActiveHigh {
                sr_latch_active_low: SRLatchActiveLow {
                    q: q_init,
                    qn: !q_init,
                },
            },
        };

        latch.set(e, d);

        assert_eq!(
            latch.q(),
            q_expected,
            "failed for inputs: {:?}",
            (q_init, e, d)
        );

        assert_eq!(
            latch.qn(),
            !q_expected,
            "failed for inputs: {:?}",
            (q_init, e, d)
        )
    }
}

#[test]
fn test_sr_latch_hold_preserves_set() {
    // Set, then hold: the stored bit survives the hold input.
    let mut latch = SRLatchActiveHigh::new();
    latch.set(true, false);
    assert!(latch.q());
    latch.set(false, false);
    assert!(latch.q());
    assert!(!latch.qn());
}

#[test]
fn test_latch_clear() {
    let mut latch = SRLatchActiveHigh::new();
    latch.set(true, false);
    assert!(latch.q());
    latch.clear();
    assert!(!latch.q());
    assert!(latch.qn());

    let mut dlatch = DLatch::new();
    dlatch.set(true, true);
    assert!(dlatch.q());
    dlatch.clear();
    assert!(!dlatch.q());
    assert!(dlatch.qn());

    let mut gated = GatedSRLatch::new();
    gated.set(true, true, false);
    assert!(gated.q());
    gated.clear();
    assert!(!gated.q());
    assert!(gated.qn());
}
