use transcription_albert::Seconds;

fn seconds(value: f64) -> Seconds {
    Seconds::from_bits(value.to_bits())
}

fn samples() -> Vec<f64> {
    vec![
        0.0,
        -0.0,
        1.0,
        -1.0,
        0.5,
        2.0,
        5.0,
        6.0,
        1e-300,
        -1e-300,
        f64::MIN_POSITIVE,
        f64::from_bits(1),
        -f64::from_bits(1),
        f64::MAX,
        f64::MIN,
        f64::INFINITY,
        f64::NEG_INFINITY,
        f64::NAN,
        -f64::NAN,
        f64::from_bits(0x7ff0_0000_0000_0001),
        f64::from_bits(0xffff_ffff_ffff_ffff),
        3599.99,
        3600.0,
    ]
}

#[test]
fn le_agrees_with_the_numbers() {
    for a in samples() {
        for b in samples() {
            assert_eq!(seconds(a).le(seconds(b)), a <= b, "{:?} <= {:?}", a, b);
        }
    }
}

#[test]
fn le_holds_between_the_two_zeros() {
    assert!(seconds(0.0).le(seconds(-0.0)));
    assert!(seconds(-0.0).le(seconds(0.0)));
}

#[test]
fn le_is_false_where_one_side_is_no_number() {
    assert!(!seconds(f64::NAN).le(seconds(f64::NAN)));
    assert!(!seconds(f64::NAN).le(seconds(1.0)));
    assert!(!seconds(1.0).le(seconds(f64::NAN)));
}

#[test]
fn le_orders_by_value() {
    assert!(seconds(1.0).le(seconds(5.0)));
    assert!(!seconds(5.0).le(seconds(1.0)));
    assert!(seconds(-5.0).le(seconds(-1.0)));
    assert!(!seconds(-1.0).le(seconds(-5.0)));
    assert!(seconds(-1.0).le(seconds(1.0)));
    assert!(!seconds(1.0).le(seconds(-1.0)));
    assert!(seconds(2.5).le(seconds(2.5)));
}

#[test]
fn zero_is_the_number_zero() {
    assert_eq!(Seconds::zero().bits, 0.0f64.to_bits());
    assert_eq!(f64::from_bits(Seconds::zero().bits), 0.0);
}

#[test]
fn from_bits_keeps_the_bits() {
    assert_eq!(Seconds::from_bits(0x4014_0000_0000_0000).bits, 5.0f64.to_bits());
    assert_eq!(seconds(-2.75).bits, (-2.75f64).to_bits());
}
