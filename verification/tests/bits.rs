use datafusion::bitmap::{count_nulls, get_bit, pack_bits};
use datafusion::scalar::{i32_from_pattern, i32_to_pattern, i64_from_pattern, i64_to_pattern};

#[test]
fn packing_bits_round_trips_through_get_bit() {
    let bits = vec![true, false, true, true, false, false, true, false, true, true];
    let packed = pack_bits(&bits);
    assert_eq!(packed.len(), 2);
    assert_eq!(packed[0], 0b0100_1101);
    assert_eq!(packed[1], 0b0000_0011);
    for (i, b) in bits.iter().enumerate() {
        assert_eq!(get_bit(&packed, i), *b);
    }
}

#[test]
fn packing_no_bits_yields_no_bytes() {
    let packed = pack_bits(&vec![]);
    assert!(packed.is_empty());
}

#[test]
fn count_nulls_counts_the_clear_bits() {
    let bytes = vec![0b1011u8];
    assert_eq!(count_nulls(&bytes, 4), 1);
    assert_eq!(count_nulls(&bytes, 8), 5);
    assert_eq!(count_nulls(&bytes, 0), 0);
}

#[test]
fn signed_patterns_round_trip() {
    for v in [0i32, 1, -1, 42, i32::MIN, i32::MAX] {
        assert_eq!(i32_from_pattern(i32_to_pattern(v)), v);
        assert_eq!(i32_to_pattern(v), v as u32);
    }
    for v in [0i64, 1, -1, 42, i64::MIN, i64::MAX] {
        assert_eq!(i64_from_pattern(i64_to_pattern(v)), v);
        assert_eq!(i64_to_pattern(v), v as u64);
    }
}
