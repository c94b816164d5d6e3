use gatesim::bus::{u16_to_bus, u32_to_bus, u8_to_bus};
use gatesim::mux::{mux16, mux2, mux32, mux4, mux8};

#[test]
fn test_mux2() {
    for (select, input, expect) in [
        (false, [false, true], false),
        (false, [true, false], true),
        (true, [false, false], false),
        (true, [false, true], true),
    ] {
        assert_eq!(
            mux2(select, &input),
            expect,
            "failed for inputs: {:?}",
            (select, input)
        )
    }
}

#[test]
fn test_mux4() {
    for (select, input, expect) in [
        ([false, false], [true, false, false, false], true),
        ([true, false], [false, true, false, false], true),
        ([false, true], [true, true, false, true], false),
        ([true, true], [false, false, false, true], true),
    ] {
        assert_eq!(
            mux4(&select, &input),
            expect,
            "failed for inputs: {:?}",
            (select, input)
        )
    }
}

#[test]
fn test_mux8() {
    for (select, input, expect) in [
        ([false, false, false], u8_to_bus(0b0000_0000), false),
        ([true, false, false], u8_to_bus(0b0000_0010), true),
        ([false, true, false], u8_to_bus(0b0000_0100), true),
        ([false, true, false], u8_to_bus(0b0000_1000), false),
    ] {
        assert_eq!(
            mux8(&select, &input),
            expect,
            "failed for inputs: {:?}",
            (select, input)
        )
    }
}

#[test]
fn test_mux16() {
    for (select, input, expect) in [
        (
            [false, false, false, false],
            u16_to_bus(0b0000_0000_0000_0000),
            false,
        ),
        (
            [true, false, false, false],
            u16_to_bus(0b0000_0000_0000_0010),
            true,
        ),
        (
            [false, true, false, false],
            u16_to_bus(0b0000_0000_0000_0100),
            true,
        ),
        (
            [false, true, false, false],
            u16_to_bus(0b0000_0000_0000_1000),
            false,
        ),
        (
            [false, false, false, true],
            u16_to_bus(0b0000_0001_0000_0000),
            true,
        ),
        (
            [true, true, true, true],
            u16_to_bus(0b1000_0000_0000_0010),
            true,
        ),
        (
            [true, true, true, true],
            u16_to_bus(0b0000_0000_0000_0000),
            false,
        ),
    ] {
        assert_eq!(
            mux16(&select, &input),
            expect,
            "failed for inputs: {:?}",
            (select, input)
        )
    }
}

#[test]
fn test_mux32() {
    for (select, input, expect) in [
        (
            [false, false, false, false, false],
            u32_to_bus(0b0000_0000_0000_0000_0000_0000_0000_0000),
            false,
        ),
        (
            [true, false, false, false, false],
            u32_to_bus(0b0000_0000_0000_0000_0000_0000_0000_0010),
            true,
        ),
        (
            [false, false, false, true, false],
            u32_to_bus(0b0000_0000_0000_0000_0000_0001_0000_0000),
            true,
        ),
        (
            [false, false, false, true, true],
            u32_to_bus(0b0000_0001_0000_0000_0000_0000_0000_0000),
            true,
        ),
        (
            [true, true, true, true, true],
            u32_to_bus(0b0111_1111_1111_1111_1111_1111_1111_1111),
            false,
        ),
    ] {
        assert_eq!(
            mux32(&select, &input),
            expect,
            "failed for inputs: {:?}",
            (select, input)
        )
    }
}

#[test]
fn test_mux8_select_two_all_patterns() {
    // With the select word fixed at two, the mux returns input bit 2 for
    // every possible input pattern.
    let select = [false, true, false];
    for v in 0u16..256 {
        let input = u8_to_bus(v as u8);
        let expect = (v >> 2) & 1 == 1;
        assert_eq!(
            mux8(&select, &input),
            expect,
            "failed for inputs: {:?}",
            (select, v)
        );
    }
}
