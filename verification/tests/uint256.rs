use limit_order_bot::encoder::widen;
use limit_order_bot::env::Timestamp;
use limit_order_bot::uint256::Uint256;

#[test]
fn zero_is_all_zero_bytes() {
    assert_eq!(Uint256::zero().to_be_bytes(), [0u8; 32]);
    assert_eq!(Uint256::zero(), Uint256::from_u32(0));
}

#[test]
fn widening_keeps_the_value_big_endian() {
    let mut expected = [0u8; 32];
    expected[28] = 0x12;
    expected[29] = 0x34;
    expected[30] = 0x56;
    expected[31] = 0x78;
    assert_eq!(Uint256::from_u32(0x1234_5678).to_be_bytes(), expected);
    let mut top = [0u8; 32];
    top[28] = 0xff;
    top[29] = 0xff;
    top[30] = 0xff;
    top[31] = 0xff;
    assert_eq!(Uint256::from_u32(u32::MAX).to_be_bytes(), top);
    let mut one = [0u8; 32];
    one[31] = 1;
    assert_eq!(Uint256::from_u32(1).to_be_bytes(), one);
}

#[test]
fn bytes_round_trip() {
    let mut bytes = [0u8; 32];
    for i in 0..32 {
        bytes[i] = (i as u8) * 3 + 1;
    }
    assert_eq!(Uint256::from_be_bytes(bytes).to_be_bytes(), bytes);
}

#[test]
fn widen_keeps_order() {
    assert_eq!(
        widen(&vec![3, 1, 2]),
        vec![Uint256::from_u32(3), Uint256::from_u32(1), Uint256::from_u32(2)]
    );
    assert!(widen(&vec![]).is_empty());
}

#[test]
fn plus_seconds_adds_nanoseconds() {
    let t = Timestamp::from_nanos(1_571_797_419_879_305_533);
    assert_eq!(t.plus_seconds(100).nanos, 1_571_797_519_879_305_533);
    assert_eq!(t.plus_seconds(0), t);
    assert_eq!(Timestamp::from_nanos(7).plus_seconds(1).nanos, 1_000_000_007);
}
