use cc1101::convert::{from_chanbw, from_deviation, from_drate, from_frequency, to_frequency};
use cc1101::FXOSC;

// f_dev = f_osc / 2^17 * (8 + DEVIATION_M) * 2^DEVIATION_E
fn calc_rev_dev(dev_m: u8, dev_e: u8) -> u64 {
    (((FXOSC as f32 / (2u64.pow(17) as f32)) as f32)
        * (8f32 + dev_m as f32)
        * (2u64.pow(dev_e as u32) as f32)) as u64
}

#[test]
fn test_frequency() {
    assert_eq!(from_frequency(433_000_000), (0x62, 0xA7, 0x10));
    assert_eq!(from_frequency(868_000_000), (0x76, 0x62, 0x21));
    assert_eq!(from_frequency(902_000_000), (0x3B, 0xB1, 0x22));
    assert_eq!(from_frequency(918_000_000), (0xC4, 0x4E, 0x23));

    // Decoding does not give the frequencies back exactly.
    assert_eq!(to_frequency((0x62, 0xA7, 0x10)), 433_000_213);
    assert_eq!(to_frequency((0x76, 0x62, 0x21)), 868_000_335);
    assert_eq!(to_frequency((0x3B, 0xB1, 0x22)), 902_000_366);
    assert_eq!(to_frequency((0xC4, 0x4E, 0x23)), 918_000_030);
}

#[test]
fn test_frequency_stability() {
    let freq = [
        433_000_000,
        868_000_000,
        902_000_000,
        918_000_000,
        433_000_021,
        111_111_111,
        500_500_500,
    ];
    for freq in freq.iter() {
        let stable_tuple = from_frequency(*freq);
        assert_eq!(stable_tuple, from_frequency(to_frequency(stable_tuple)));
    }
}

#[test]
fn test_deviation() {
    for e in 0..7 {
        for m in 1..7 {
            assert_eq!(from_deviation(calc_rev_dev(m, e)), (m, e));
        }
    }
}

#[test]
fn test_drate() {
    assert_eq!((117, 5), from_drate(1156));
    assert_eq!((117, 7), from_drate(4624));
    assert_eq!((117, 10), from_drate(36994));
    assert_eq!((34, 12), from_drate(115051));
    assert_eq!((59, 14), from_drate(499877));
    assert_eq!((59, 13), from_drate(249938));
    assert_eq!((248, 11), from_drate(99975));
    assert_eq!((131, 11), from_drate(76766));
    assert_eq!((131, 10), from_drate(38383));
    assert_eq!((147, 8), from_drate(9992));
    assert_eq!((131, 7), from_drate(4797));
    assert_eq!((131, 6), from_drate(2398));
    assert_eq!((131, 5), from_drate(1199));
}

#[test]
fn test_chanbw() {
    assert_eq!(from_chanbw(812500), (0b00, 0b00));
    assert_eq!(from_chanbw(650000), (0b01, 0b00));
    assert_eq!(from_chanbw(541666), (0b10, 0b00));
    assert_eq!(from_chanbw(464285), (0b11, 0b00));
    assert_eq!(from_chanbw(406250), (0b00, 0b01));
    assert_eq!(from_chanbw(325000), (0b01, 0b01));
    assert_eq!(from_chanbw(270833), (0b10, 0b01));
    assert_eq!(from_chanbw(232142), (0b11, 0b01));
    assert_eq!(from_chanbw(203125), (0b00, 0b10));
    assert_eq!(from_chanbw(162000), (0b01, 0b10));
    assert_eq!(from_chanbw(135416), (0b10, 0b10));
    assert_eq!(from_chanbw(116071), (0b11, 0b10));
    assert_eq!(from_chanbw(101562), (0b00, 0b11));
    assert_eq!(from_chanbw(81250), (0b01, 0b11));
    assert_eq!(from_chanbw(67708), (0b10, 0b11));
    assert_eq!(from_chanbw(58035), (0b11, 0b11));
}

#[test]
fn frequency_zero_and_decoding_of_zero() {
    assert_eq!(from_frequency(0), (0, 0, 0));
    assert_eq!(to_frequency((0, 0, 0)), 396);
}

#[test]
fn frequency_round_trip_largest_decodable_low_byte() {
    let t = (0xFE, 0x01, 0x10);
    assert_eq!(to_frequency(t), 416_202_728);
    assert_eq!(from_frequency(to_frequency(t)), t);
}

#[test]
fn deviation_exact_values() {
    assert_eq!(from_deviation(47607), (7, 4));
    assert_eq!(from_deviation(1587), (1, 0));
}

#[test]
fn drate_mantissa_wraps_into_exponent() {
    assert_eq!(from_drate(99), (0, 2));
    assert_eq!(from_drate(50), (3, 1));
}

#[test]
fn chanbw_smallest_exponent_field_masked() {
    assert_eq!(from_chanbw(20000), (1, 1));
    assert_eq!(from_chanbw(1), (2, 3));
}
