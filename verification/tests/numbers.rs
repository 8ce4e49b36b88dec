use std::fmt::Debug;
use zjson::number::ParsedNumber;

fn check_integer<T>(n: T)
where
    T: ToString + Debug + Copy,
    for<'a> ParsedNumber<'a>: PartialEq<T>,
{
    let ns = n.to_string();

    let parsed = ParsedNumber::new(&ns);
    assert_eq!(parsed, n);
}

fn check_f32(n: f32) {
    let ns = n.to_string();

    let parsed = ParsedNumber::new(&ns);
    assert_eq!(parsed.as_str().parse::<f32>().expect("failed to parse a number as an f32"), n);
}

fn check_f64(n: f64) {
    let ns = n.to_string();

    let parsed = ParsedNumber::new(&ns);
    assert_eq!(parsed.as_str().parse::<f64>().expect("failed to parse a number as an f64"), n);
}

#[test]
fn partial_eq_impl_zero() {
    check_integer(0_u8);
    check_integer(0_u16);
    check_integer(0_u32);
    check_integer(0_u64);
    check_integer(0_u128);

    check_integer(0_i8);
    check_integer(0_i16);
    check_integer(0_i32);
    check_integer(0_i64);
    check_integer(0_i128);

    check_f32(0_f32);
    check_f64(0_f64);
}

#[test]
fn partial_eq_impl_positive() {
    check_integer(53_u8);
    check_integer(53_u16);
    check_integer(53_u32);
    check_integer(53_u64);
    check_integer(53_u128);

    check_integer(53_i8);
    check_integer(53_i16);
    check_integer(53_i32);
    check_integer(53_i64);
    check_integer(53_i128);

    check_f32(53_f32);
    check_f64(53_f64);
}

#[test]
fn partial_eq_impl_negative() {
    check_integer(-53_i8);
    check_integer(-53_i16);
    check_integer(-53_i32);
    check_integer(-53_i64);
    check_integer(-53_i128);

    check_f32(-53_f32);
    check_f64(-53_f64);
}

#[test]
fn partial_eq_impl_decimal() {
    check_f32(53.19_f32);
    check_f64(53.19_f64);

    check_f32(-53.19_f32);
    check_f64(-53.19_f64);
}

#[test]
fn partial_eq_impl_exponent() {
    check_f32(53.19e5_f32);
    check_f64(53.19e5_f64);

    check_f32(-53.19e5_f32);
    check_f64(-53.19e5_f64);

    check_f32(53.19e-5_f32);
    check_f64(53.19e-5_f64);

    check_f32(-53.19e-5_f32);
    check_f64(-53.19e-5_f64);
}
