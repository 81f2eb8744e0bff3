use bbb::numeral::{number, FloatLit, Numeral};

#[test]
fn single_digit_int() {
    assert_eq!(number("1").unwrap().0, Numeral::Int(1));
}

#[test]
fn multi_digit_int() {
    assert_eq!(number("100").unwrap().0, Numeral::Int(100));
}

#[test]
fn negative_int() {
    assert_eq!(number("-100").unwrap().0, Numeral::Int(-100));
}

#[test]
fn leading_float() {
    assert_eq!(
        number("1.0").unwrap().0,
        Numeral::Float(FloatLit { neg: false, whole: 1 })
    );
}

#[test]
fn leading_zero_float() {
    assert_eq!(
        number("0.1").unwrap().0,
        Numeral::Float(FloatLit { neg: false, whole: 0 })
    );
}

#[test]
fn negative_float() {
    assert_eq!(
        number("-1.0001").unwrap().0,
        Numeral::Float(FloatLit { neg: true, whole: 1 })
    );
}
