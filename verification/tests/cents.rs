use rusty_llm::cents::cents;

fn check(dollars: f64) {
    assert_eq!(
        cents(dollars.to_bits()),
        (dollars * 100.0).round() as u64,
        "{dollars:?}"
    );
}

#[test]
fn cents_of_amounts() {
    for tenths in 0..200000u32 {
        check(f64::from(tenths) / 1000.0);
        check(f64::from(tenths) / 100.0);
    }
    assert_eq!(cents(0.04f64.to_bits()), 4);
    assert_eq!(cents(0.125f64.to_bits()), 13);
    assert_eq!(cents(0.115f64.to_bits()), 12);
}

#[test]
fn cents_of_extremes() {
    for dollars in [
        0.0,
        -0.0,
        f64::MIN_POSITIVE,
        f64::from_bits(1),
        f64::MAX,
        f64::MIN,
        f64::INFINITY,
        f64::NEG_INFINITY,
        f64::NAN,
        f64::EPSILON,
        184467440737095500.0,
        184467440737095520.0,
        184467440737095550.0,
        -0.004,
        -1.0,
    ] {
        check(dollars);
    }
}

#[test]
fn cents_of_arbitrary_bits() {
    let mut bits: u64 = 0x9e37_79b9_7f4a_7c15;
    for _ in 0..400000 {
        bits ^= bits << 13;
        bits ^= bits >> 7;
        bits ^= bits << 17;
        check(f64::from_bits(bits));
        // An exponent near the range in which cents are counted.
        let exponent = 1023 - 20 + bits % 90;
        check(f64::from_bits((bits & 0x800f_ffff_ffff_ffff) | (exponent << 52)));
    }
}
