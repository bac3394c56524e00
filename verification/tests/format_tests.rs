use syftbox_crypto_protocol::format::{decimal, hex16};

#[test]
fn decimal_renders_like_display() {
    for n in [0u128, 7, 10, 99, 100, 1234567890, u64::MAX as u128, u128::MAX] {
        assert_eq!(decimal(n), n.to_string());
    }
}

#[test]
fn hex16_pads_to_sixteen_digits() {
    for n in [0u64, 1, 15, 16, 255, 0xdead_beef, u64::MAX] {
        assert_eq!(hex16(n), format!("{n:016x}"));
    }
    assert_eq!(hex16(10), "000000000000000a");
}
