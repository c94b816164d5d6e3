use gatesim::bus::u8_to_bus;
use gatesim::shift::{logical_shift_left_8, logical_shift_right_8, rotate_left_8, rotate_right_8};

#[test]
fn test_logical_shift_left_8() {
    for (shift, value, expected) in [
        (
            [false, false, false],
            u8_to_bus(0b0000_0000),
            u8_to_bus(0b0000_0000),
        ),
        (
            [true, false, false],
            u8_to_bus(0b0000_0100),
            u8_to_bus(0b0000_1000),
        ),
        (
            [false, true, false],
            u8_to_bus(0b0100_0000),
            u8_to_bus(0b0000_0000),
        ),
        ([false, false, true], u8_to_bus(1), u8_to_bus(16)),
    ] {
        assert_eq!(
            logical_shift_left_8(&shift, &value),
            expected,
            "failed for inputs: {:?}",
            (shift, value),
        )
    }
}

#[test]
fn test_logical_shift_right_8() {
    for (shift, value, expected) in [
        (
            [false, false, false],
            u8_to_bus(0b0000_0000),
            u8_to_bus(0b0000_0000),
        ),
        (
            [true, false, false],
            u8_to_bus(0b0000_0100),
            u8_to_bus(0b0000_0010),
        ),
        (
            [false, true, false],
            u8_to_bus(0b0000_0010),
            u8_to_bus(0b0000_0000),
        ),
        ([false, false, true], u8_to_bus(16), u8_to_bus(1)),
    ] {
        assert_eq!(
            logical_shift_right_8(&shift, &value),
            expected,
            "failed for inputs: {:?}",
            (shift, value),
        )
    }
}

#[test]
fn test_rotate_left_8() {
    for (shift, value, expected) in [
        (
            [false, false, false],
            u8_to_bus(0b0000_0000),
            u8_to_bus(0b0000_0000),
        ),
        (
            [true, false, false],
            u8_to_bus(0b0000_0100),
            u8_to_bus(0b0000_1000),
        ),
        (
            [false, true, false],
            u8_to_bus(0b0100_0000),
            u8_to_bus(0b0000_0001),
        ),
    ] {
        assert_eq!(
            rotate_left_8(&shift, &value),
            expected,
            "failed for inputs: {:?}",
            (shift, value),
        )
    }
}

#[test]
fn test_rotate_right_8() {
    for (shift, value, expected) in [
        (
            [false, false, false],
            u8_to_bus(0b0000_0000),
            u8_to_bus(0b0000_0000),
        ),
        (
            [true, false, false],
            u8_to_bus(0b0000_0100),
            u8_to_bus(0b0000_0010),
        ),
        (
            [false, true, false],
            u8_to_bus(0b0000_0010),
            u8_to_bus(0b1000_0000),
        ),
    ] {
        assert_eq!(
            rotate_right_8(&shift, &value),
            expected,
            "failed for inputs: {:?}",
            (shift, value),
        )
    }
}

#[test]
fn test_shift_and_rotate_by_one() {
    let by_one = [true, false, false];
    assert_eq!(
        logical_shift_left_8(&by_one, &u8_to_bus(0b0000_0001)),
        u8_to_bus(0b0000_0010)
    );
    assert_eq!(
        rotate_left_8(&by_one, &u8_to_bus(0b1000_0000)),
        u8_to_bus(0b0000_0001)
    );
}

#[test]
fn test_shift_zero_is_identity() {
    let zero = [false, false, false];
    for v in [0b0000_0000u8, 0b0000_0001, 0b1000_0001, 0b0101_0101, 0b1111_1111] {
        assert_eq!(logical_shift_left_8(&zero, &u8_to_bus(v)), u8_to_bus(v));
        assert_eq!(logical_shift_right_8(&zero, &u8_to_bus(v)), u8_to_bus(v));
        assert_eq!(rotate_left_8(&zero, &u8_to_bus(v)), u8_to_bus(v));
        assert_eq!(rotate_right_8(&zero, &u8_to_bus(v)), u8_to_bus(v));
    }
}

#[test]
fn test_shift_out_discards_and_rotate_wraps() {
    let by_seven = [true, true, true];
    assert_eq!(
        logical_shift_left_8(&by_seven, &u8_to_bus(0b0000_0010)),
        u8_to_bus(0b0000_0000)
    );
    assert_eq!(
        rotate_left_8(&by_seven, &u8_to_bus(0b0000_0010)),
        u8_to_bus(0b0000_0001)
    );
    assert_eq!(
        logical_shift_right_8(&by_seven, &u8_to_bus(0b0100_0000)),
        u8_to_bus(0b0000_0000)
    );
    assert_eq!(
        rotate_right_8(&by_seven, &u8_to_bus(0b0100_0000)),
        u8_to_bus(0b1000_0000)
    );
}
