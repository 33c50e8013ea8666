use web3_toys::codec::{format_balance, Wei};

fn text(raw: u64, decimals: u32) -> String {
    format_balance(&Wei::from_u64(raw), decimals)
}

/// Reads decimal text back as an integer scaled by `10^decimals`.
fn scaled(t: &str, decimals: u32) -> u128 {
    let (whole, fraction) = match t.find('.') {
        Some(p) => (&t[..p], &t[p + 1..]),
        None => (t, ""),
    };
    let mut digits = String::from(whole);
    digits.push_str(fraction);
    for _ in fraction.len()..decimals as usize {
        digits.push('0');
    }
    digits.parse::<u128>().unwrap()
}

#[test]
fn zero_is_plain_zero() {
    assert_eq!(text(0, 18), "0");
}

#[test]
fn one_wei_keeps_all_fraction_digits() {
    assert_eq!(text(1, 18), "0.000000000000000001");
}

#[test]
fn trailing_zeros_are_trimmed() {
    assert_eq!(text(1500000000000000000, 18), "1.5");
}

#[test]
fn whole_amount_has_no_point() {
    assert_eq!(text(2000000000000000000, 18), "2");
    assert_eq!(text(100, 2), "1");
}

#[test]
fn small_decimals() {
    assert_eq!(text(12345, 2), "123.45");
    assert_eq!(text(12340, 2), "123.4");
    assert_eq!(text(5, 0), "5");
    assert_eq!(text(0, 0), "0");
    assert_eq!(text(7, 3), "0.007");
}

#[test]
fn largest_amount() {
    let max = Wei::from_limbs([u64::MAX; 4]);
    assert_eq!(
        format_balance(&max, 18),
        "115792089237316195423570985008687907853269984665640564039457.584007913129639935"
    );
    assert_eq!(
        format_balance(&max, 0),
        "115792089237316195423570985008687907853269984665640564039457584007913129639935"
    );
}

#[test]
fn upper_limbs_count() {
    // 2^64 wei
    let w = Wei::from_limbs([0, 1, 0, 0]);
    assert_eq!(format_balance(&w, 18), "18.446744073709551616");
}

#[test]
fn more_decimals_than_digits() {
    assert_eq!(text(42, 80).len(), 82);
    assert!(text(42, 80).starts_with("0.000"));
    assert!(text(42, 80).ends_with("42"));
}

#[test]
fn text_reads_back_to_the_amount() {
    for &(raw, d) in &[
        (0u64, 18u32),
        (1, 18),
        (1500000000000000000, 18),
        (123456789, 4),
        (100, 2),
        (u64::MAX, 18),
        (u64::MAX, 0),
        (10, 1),
    ] {
        assert_eq!(scaled(&text(raw, d), d), raw as u128, "raw {} decimals {}", raw, d);
    }
}
