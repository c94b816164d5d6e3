use gatesim::gate::{and, nand, nor, not, or, xnor, xor};

#[test]
fn test_nand() {
    for (inputs, expected) in [
        (&[false][..], true),
        (&[true][..], false),
        (&[false, false][..], true),
        (&[false, true][..], true),
        (&[true, true][..], false),
        (&[true, false, false][..], true),
        (&[true, true, true][..], false),
    ] {
        assert_eq!(nand(inputs), expected, "failed for inputs: {:?}", inputs)
    }
}

#[test]
fn test_and() {
    for (inputs, expected) in [
        (&[false, false][..], false),
        (&[false, true][..], false),
        (&[true, true][..], true),
        (&[true, false, false][..], false),
        (&[true, true, true][..], true),
    ] {
        assert_eq!(and(inputs), expected, "failed for inputs: {:?}", inputs)
    }
}

#[test]
fn test_not() {
    for (input, expected) in [(true, false), (false, true)] {
        assert_eq!(not(input), expected, "failed for input: {:?}", input)
    }
}

#[test]
fn test_or() {
    for (inputs, expected) in [
        (&[false, false], false),
        (&[false, true], true),
        (&[true, true], true),
    ] {
        assert_eq!(or(inputs), expected, "failed for inputs: {:?}", inputs)
    }

    for (inputs, expected) in [(&[true, false, false], true), (&[true, true, true], true)] {
        assert_eq!(or(inputs), expected, "failed for inputs: {:?}", inputs)
    }
}

#[test]
fn test_nor() {
    for (inputs, expected) in [
        (&[false, false], true),
        (&[false, true], false),
        (&[true, true], false),
    ] {
        assert_eq!(nor(inputs), expected, "failed for inputs: {:?}", inputs)
    }

    for (inputs, expected) in [(&[true, false, false], false), (&[true, true, true], false)] {
        assert_eq!(nor(inputs), expected, "failed for inputs: {:?}", inputs)
    }
}

#[test]
fn test_xor() {
    for (inputs, expected) in [
        (&[false, true], true),
        (&[true, true], false),
        (&[false, false], false),
    ] {
        assert_eq!(xor(inputs), expected, "failed for inputs: {:?}", inputs)
    }

    for (inputs, expected) in [(&[true, false, false], true), (&[true, true, true], false)] {
        assert_eq!(xor(inputs), expected, "failed for inputs: {:?}", inputs)
    }
}

#[test]
fn test_xnor() {
    for (inputs, expected) in [
        (&[false, false], true),
        (&[false, true], false),
        (&[true, true], true),
    ] {
        assert_eq!(xnor(inputs), expected, "failed for inputs: {:?}", inputs)
    }

    for (inputs, expected) in [(&[true, false, false], false), (&[true, true, true], true)] {
        assert_eq!(xnor(inputs), expected, "failed for inputs: {:?}", inputs)
    }
}

#[test]
fn test_pair_truth_tables() {
    // Every two-input gate against its full truth table.
    for (a, b, c_and, c_or, c_xor, c_nand, c_nor, c_xnor) in [
        (false, false, false, false, false, true, true, true),
        (false, true, false, true, true, true, false, false),
        (true, false, false, true, true, true, false, false),
        (true, true, true, true, false, false, false, true),
    ] {
        let pair = [a, b];
        assert_eq!(and(&pair), c_and, "failed for inputs: {:?}", pair);
        assert_eq!(or(&pair), c_or, "failed for inputs: {:?}", pair);
        assert_eq!(xor(&pair), c_xor, "failed for inputs: {:?}", pair);
        assert_eq!(nand(&pair), c_nand, "failed for inputs: {:?}", pair);
        assert_eq!(nor(&pair), c_nor, "failed for inputs: {:?}", pair);
        assert_eq!(xnor(&pair), c_xnor, "failed for inputs: {:?}", pair);
    }
}
