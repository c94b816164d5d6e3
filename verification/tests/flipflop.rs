use gatesim::flipflop::{DFlipflop, JKFlipflop, SRFlipflop};

#[test]
fn test_d_flipflop() {
    let mut flipflop = DFlipflop::new();

    // Start with Q low
    let mut expect_q = false;
    assert_eq!(flipflop.q(), expect_q);

    // Send clock rising edge and D low
    let mut clk = true;
    let mut d = false;
    flipflop.update(clk, d);
    assert_eq!(flipflop.q(), expect_q);

    // Keep the clock high and set D high
    d = true;
    flipflop.update(clk, d);
    assert_eq!(flipflop.q(), expect_q);

    // Send clock falling edge and keep D high
    clk = false;
    flipflop.update(clk, d);
    assert_eq!(flipflop.q(), expect_q);

    // Send clock rising edge and keep D high
    clk = true;
    flipflop.update(clk, d);
    expect_q = true;
    assert_eq!(flipflop.q(), expect_q);

    // Send clock falling edge and D low
    clk = false;
    d = false;
    flipflop.update(clk, d);
    assert_eq!(flipflop.q(), expect_q);

    // Send clock rising edge
    clk = true;
    expect_q = false;
    flipflop.update(clk, d);
    assert_eq!(flipflop.q(), expect_q);
}

#[test]
fn test_sr_flipflop() {
    let mut flipflop = SRFlipflop::new();

    // Start with Q low
    let mut expect_q = false;
    assert_eq!(flipflop.q(), expect_q);

    let mut clk = true;
    let mut s = false;
    let mut r = false;

    // Send clock rising edge with S and R low
    flipflop.update(clk, s, r);
    assert_eq!(flipflop.q(), expect_q);

    // Send clock falling edge with S and R low
    clk = false;
    flipflop.update(clk, s, r);
    assert_eq!(flipflop.q(), expect_q);

    // Set S high but don't toggle clock
    s = true;
    flipflop.update(clk, s, r);
    assert_eq!(flipflop.q(), expect_q);

    // Send clock rising edge with S high
    clk = true;
    expect_q = true;
    flipflop.update(clk, s, r);
    assert_eq!(flipflop.q(), expect_q);

    // Send clock falling edge
    clk = false;
    flipflop.update(clk, s, r);
    assert_eq!(flipflop.q(), expect_q);

    // Set R high but don't toggle clock
    r = true;
    s = false;
    flipflop.update(clk, s, r);
    assert_eq!(flipflop.q(), expect_q);

    // Send clock rising edge with R high
    clk = true;
    expect_q = false;
    flipflop.update(clk, s, r);
    assert_eq!(flipflop.q(), expect_q);
}

#[test]
fn test_jk_flipflop() {
    let mut flipflop = JKFlipflop::new();

    // Start with Q low
    let mut expect_q = false;
    assert_eq!(flipflop.q(), expect_q);

    let mut clk = true;
    let mut j = false;
    let mut k = false;

    // Send clock rising edge with J and K low
    flipflop.update(clk, j, k);
    assert_eq!(flipflop.q(), expect_q);

    // Send clock falling edge with J and K low
    clk = false;
    flipflop.update(clk, j, k);
    assert_eq!(flipflop.q(), expect_q);

    // Set J high but don't toggle clock
    j = true;
    flipflop.update(clk, j, k);
    assert_eq!(flipflop.q(), expect_q);

    // Send clock rising edge with J high
    clk = true;
    expect_q = true;
    flipflop.update(clk, j, k);
    assert_eq!(flipflop.q(), expect_q);

    // Send clock falling edge
    clk = false;
    flipflop.update(clk, j, k);
    assert_eq!(flipflop.q(), expect_q);

    // Set K high but don't toggle clock
    k = true;
    j = false;
    flipflop.update(clk, j, k);
    assert_eq!(flipflop.q(), expect_q);

    // Send clock rising edge with K high
    clk = true;
    expect_q = false;
    flipflop.update(clk, j, k);
    assert_eq!(flipflop.q(), expect_q);

    // Send clock falling edge with J and K high
    clk = false;
    j = true;
    k = true;
    flipflop.update(clk, j, k);
    assert_eq!(flipflop.q(), expect_q);

    // Send clock rising edge with J and K high
    clk = true;
    expect_q = true;
    flipflop.update(clk, j, k);
    assert_eq!(flipflop.q(), expect_q);
}

#[test]
fn test_d_flipflop_update_idempotent() {
    // Repeated updates with an unchanged clock cause no extra transitions.
    let mut flipflop = DFlipflop::new();
    flipflop.update(false, true);
    flipflop.update(true, true);
    assert!(flipflop.q());
    flipflop.update(true, false);
    flipflop.update(true, false);
    assert!(flipflop.q());
    flipflop.update(false, false);
    flipflop.update(false, false);
    assert!(flipflop.q());
    flipflop.update(true, false);
    assert!(!flipflop.q());
}

#[test]
fn test_jk_flipflop_toggles() {
    // With J and K held high the output toggles once per full clock pulse.
    let mut flipflop = JKFlipflop::new();
    let mut expected = false;
    for _ in 0..5 {
        flipflop.update(false, true, true);
        flipflop.update(true, true, true);
        expected = !expected;
        assert_eq!(flipflop.q(), expected);
        assert_eq!(flipflop.qn(), !expected);
    }
}
