//! Numbers, colours and text.

use vellum_app::item::Color;
use vellum_app::scalar::{Scalar, INFINITE, LINE_HEIGHT, ONE, QUARTER, SIGN, ZERO};
use vellum_app::text::{
    decimal_of, ends_with, first_chars, padded_of, past, past_last, starts_with, trim, until,
};

fn scalar(value: f64) -> Scalar {
    Scalar { bits: value.to_bits() }
}

const VALUES: [f64; 13] = [
    f64::NEG_INFINITY,
    -2.5,
    -1.0,
    -f64::MIN_POSITIVE,
    -0.0,
    0.0,
    5e-324,
    0.25,
    1.0,
    1.4,
    1e300,
    f64::INFINITY,
    f64::NAN,
];

#[test]
fn scalars_compare_as_the_numbers_they_carry() {
    for a in VALUES {
        for b in VALUES {
            assert_eq!(scalar(a).lt(scalar(b)), a < b, "{a} < {b}");
            assert_eq!(scalar(a).equals(scalar(b)), a == b, "{a} == {b}");
            let least = f64::from_bits(scalar(a).min(scalar(b)).bits);
            let most = f64::from_bits(scalar(a).max(scalar(b)).bits);
            if a.is_nan() && b.is_nan() {
                assert!(least.is_nan() && most.is_nan());
            } else {
                assert!(least == a.min(b) && most == a.max(b), "{a}, {b}");
            }
        }
        assert_eq!(scalar(a).is_nan(), a.is_nan());
        assert_eq!(scalar(a).is_finite(), a.is_finite());
    }
}

#[test]
fn clamping_keeps_a_value_in_its_range() {
    let clamp = |value: f64| f64::from_bits(scalar(value).clamp(scalar(0.0), scalar(1.0)).bits);
    assert_eq!(clamp(-3.0), 0.0);
    assert_eq!(clamp(0.5), 0.5);
    assert_eq!(clamp(7.0), 1.0);
    assert!(clamp(f64::NAN).is_nan());
}

#[test]
fn the_named_scalars_are_what_they_say() {
    assert_eq!(f64::from_bits(ZERO), 0.0);
    assert_eq!(f64::from_bits(ONE), 1.0);
    assert_eq!(f64::from_bits(QUARTER), 0.25);
    assert_eq!(f64::from_bits(LINE_HEIGHT), 1.36);
    assert_eq!(f64::from_bits(INFINITE), f64::INFINITY);
    assert_eq!(SIGN, (-0.0_f64).to_bits());
}

#[test]
fn a_packed_color_unpacks_to_itself() {
    let color = Color { r: 0xE5, g: 0xEA, b: 0xED, a: 0x80 };
    assert_eq!(color.to_packed(), 0xE5EA_ED80);
    assert_eq!(Color::from_packed(0xE5EA_ED80), Some(color));
    assert_eq!(Color::from_packed(-1), None);
    assert_eq!(Color::from_packed(0x1_0000_0000), None);
    assert_eq!(Color::rgb(1, 2, 3).a, 255);
}

#[test]
fn text_is_cut_where_it_says() {
    assert_eq!(trim(" \u{a0}a b\u{3000}\n"), "a b");
    assert_eq!(trim(" \t"), "");
    assert_eq!(until("a=b=c", '='), "a");
    assert_eq!(until("abc", '='), "abc");
    assert_eq!(past("a=b=c", '=').as_deref(), Some("b=c"));
    assert_eq!(past("abc", '='), None);
    assert_eq!(past_last("a/b/c", '/'), "c");
    assert_eq!(first_chars("één", 2), "éé");
    assert!(starts_with("https://x", "https://") && !starts_with("http", "https"));
    assert!(ends_with("a.vellum", ".vellum") && !ends_with("m", ".vellum"));
}

#[test]
fn numbers_are_written_in_decimal() {
    assert_eq!(decimal_of(0), "0");
    assert_eq!(decimal_of(u64::MAX), "18446744073709551615");
    assert_eq!(padded_of(7, 4), "0007");
    assert_eq!(padded_of(12345, 4), "12345");
}
