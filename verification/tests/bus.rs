use gatesim::bus::{fits_in_bits, fits_in_type, u8_to_bus, Bus};

#[test]
fn test_fits() {
    assert!(fits_in_bits(1u8, 8));
    assert!(!fits_in_bits(1u32, 31));
    assert!(!fits_in_bits(-1i64, 60));
}

#[test]
fn test_try_from_u32() {
    let bus = Bus::from_u32(0, 32);
    assert!(bus.is_ok());

    let bus = Bus::from_u32(255, 6);
    assert!(bus.is_err());
}

#[test]
fn test_try_from_bus() {
    // Bus into number
    let bus = Bus { bits: vec![true; 32] };
    let val: Result<u32, _> = bus.to_u32();
    assert!(val.is_ok());
    assert_eq!(val.unwrap(), u32::MAX);

    // Bus too large for number type
    let bus = Bus { bits: vec![true; 16] };
    let val = bus.to_u8();
    assert!(val.is_err());

    // Bus from number
    let bus = Bus::from_u8(101u8, 8).unwrap();
    let val = bus.to_u8();
    assert!(val.is_ok());

    // Check value
    let val: u32 = bus.to_u32().unwrap();
    assert_eq!(val, 101);
}

#[test]
fn test_fits_in_type_boundaries() {
    assert!(fits_in_type(8, 0u8));
    assert!(!fits_in_type(9, 0u8));
    assert!(fits_in_type(0, 0u8));
    assert!(fits_in_type(32, 0i32));
    assert!(!fits_in_type(64, 0u32));
}

#[test]
fn test_unsigned_round_trip_u8() {
    for v in 0u8..=255 {
        let bus = Bus::from_u8(v, 8).unwrap();
        assert_eq!(bus.to_u8().unwrap(), v, "failed for value: {:?}", v);
        assert_eq!(bus.to_u16().unwrap(), v as u16, "failed for value: {:?}", v);
    }
}

#[test]
fn test_unsigned_round_trip_wide() {
    for (v, width) in [(0u32, 1), (1, 1), (5, 3), (1000, 10), (u32::MAX, 32), (7, 40)] {
        let bus = Bus::from_u32(v, width).unwrap();
        assert_eq!(bus.width(), width);
        if width <= 32 {
            assert_eq!(bus.to_u32().unwrap(), v, "failed for value: {:?}", (v, width));
        }
    }
}

#[test]
fn test_unsigned_width_errors() {
    assert!(Bus::from_u8(16, 4).is_err());
    assert!(Bus::from_u8(15, 4).is_ok());
    assert!(Bus::from_u16(256, 8).is_err());
    assert!(Bus::from_u32(1, 0).is_err());
    assert!(Bus::from_u32(0, 0).is_ok());
}

#[test]
fn test_signed_round_trip_i8() {
    let mut v: i8 = -128;
    loop {
        let bus = Bus::from_i8(v, 8).unwrap();
        assert_eq!(bus.to_i8().unwrap(), v, "failed for value: {:?}", v);
        assert_eq!(bus.to_i32().unwrap(), v as i32, "failed for value: {:?}", v);
        if v == 127 {
            break;
        }
        v += 1;
    }
}

#[test]
fn test_signed_narrow_and_wide() {
    // -1 is all ones at any width and reads back as -1.
    let bus = Bus::from_i8(-1, 4).unwrap();
    assert_eq!(bus.bits, vec![true, true, true, true]);
    assert_eq!(bus.to_i8().unwrap(), -1);

    // Sign extension past the source type's width.
    let bus = Bus::from_i16(-2, 20).unwrap();
    assert_eq!(bus.to_i32().unwrap(), -2);

    // A positive value needs room for the sign bit.
    assert!(Bus::from_i8(8, 4).is_err());
    assert!(Bus::from_i8(7, 4).is_ok());
    assert!(Bus::from_i8(-8, 4).is_ok());
    assert!(Bus::from_i8(-9, 4).is_err());
}

#[test]
fn test_signed_type_width_errors() {
    let bus = Bus::from_i32(-3, 9).unwrap();
    assert!(bus.to_i8().is_err());
    assert_eq!(bus.to_i16().unwrap(), -3);
}

#[test]
fn test_u8_to_bus_bits() {
    let bits = u8_to_bus(0b0000_0101);
    assert_eq!(
        bits,
        vec![true, false, true, false, false, false, false, false]
    );
}
