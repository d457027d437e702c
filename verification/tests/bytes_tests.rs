use gwyneth_revm::bytes::{read_20, read_32, read_be, read_rest};
use gwyneth_revm::primitives::{I256, U256};

#[test]
fn read_be_reads_big_endian_numbers() {
    let s = [0x00, 0x01, 0x02, 0x03, 0x04, 0x05, 0x06, 0x07, 0x08, 0x09];
    assert_eq!(read_be(&s, 0, 2), 0x0001);
    assert_eq!(read_be(&s, 2, 8), 0x0203_0405_0607_0809);
    assert_eq!(read_be(&s, 5, 0), 0);
}

#[test]
fn read_fixed_and_rest() {
    let s: Vec<u8> = (0u8..60).collect();
    let a = read_20(&s, 3);
    assert_eq!(a[0], 3);
    assert_eq!(a[19], 22);
    let b = read_32(&s, 28);
    assert_eq!(b[0], 28);
    assert_eq!(b[31], 59);
    assert_eq!(read_rest(&s, 57), vec![57, 58, 59]);
    assert!(read_rest(&s, 60).is_empty());
}

#[test]
fn signed_words_reinterpret_bits() {
    let minus_one = I256::from_limbs_of(U256::max_value());
    assert_eq!(minus_one.bits, U256::max_value());
    assert_eq!(I256::zero().bits, U256::zero());
}
