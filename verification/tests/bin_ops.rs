use gameboy::bin_utils::BinUtils;
use gameboy::registers::FRegister;

#[test]
fn get_u8s_from_u16() {
    let result: (u8, u8) = BinUtils::u8s_from_u16(0xADEF);

    assert_eq!(result.0, 0xAD);
    assert_eq!(result.1, 0xEF);
}

#[test]
fn get_u16_from_u8s() {
    let result: u16 = BinUtils::u16_from_u8s(0xAD, 0xEF);

    assert_eq!(result, 0xADEF);
}

#[test]
fn word_byte_round_trip_exhaustive_bytes() {
    let mut high: u16 = 0;
    while high < 256 {
        let v = BinUtils::u16_from_u8s(high as u8, 0x5A);
        let back = BinUtils::u8s_from_u16(v);
        assert_eq!(back.0, high as u8);
        assert_eq!(back.1, 0x5A);
        high += 1;
    }
}

#[test]
fn flags_pack_unpack_round_trip() {
    let f = FRegister { zero: true, substract: false, half_carry: true, carry: false };
    assert_eq!(f.to_u8(), 0xA0);
    let g = FRegister::from_u8(f.to_u8());
    assert_eq!(g, f);

    let h = FRegister::from_u8(0xB0);
    assert!(h.zero);
    assert!(!h.substract);
    assert!(h.half_carry);
    assert!(h.carry);
    assert_eq!(h.to_u8(), 0xB0);
}

#[test]
fn flags_low_nibble_reads_zero() {
    // Only the top nibble survives a pack/unpack cycle.
    let f = FRegister::from_u8(0xBF);
    assert_eq!(f.to_u8(), 0xB0);
    let g = FRegister::from_u8(0x0F);
    assert_eq!(g.to_u8(), 0x00);
}
