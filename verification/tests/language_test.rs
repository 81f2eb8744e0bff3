use bbb::eval::{eval, EvalError};
use bbb::expr::Expr;
use bbb::numeral::Numeral;
use bbb::parser::parse;
use bbb::signal::ExprSignal;

#[test]
fn literal_is_time_independent() {
    let tree = parse("12345").unwrap();
    for t in [0u32, 1, 7, 44100, u32::MAX] {
        assert_eq!(eval(t, &tree), Ok(12345));
    }
}

#[test]
fn time_evaluates_to_time() {
    let tree = parse("t").unwrap();
    assert_eq!(eval(0, &tree), Ok(0));
    assert_eq!(eval(5, &tree), Ok(5));
    assert_eq!(eval(2147483647, &tree), Ok(2147483647));
    // beyond the domain's boundary the counter wraps into the sign
    assert_eq!(eval(2147483648, &tree), Ok(i32::MIN));
    assert_eq!(eval(u32::MAX, &tree), Ok(-1));
}

#[test]
fn multiplicative_binds_tighter_than_additive() {
    let tree = parse("1 + 2 * 3").unwrap();
    assert_eq!(eval(0, &tree), Ok(7));
    assert_eq!(eval(99, &tree), Ok(7));
}

#[test]
fn and_binds_tighter_than_or() {
    let tree = parse("1 | 2 & 3").unwrap();
    assert_eq!(eval(0, &tree), Ok(3));
}

#[test]
fn division_by_zero_yields_silence() {
    let tree = parse("t / 0").unwrap();
    assert_eq!(eval(3, &tree), Err(EvalError::DivisionByZero));
    let mut signal = ExprSignal::from(tree);
    for _ in 0..5 {
        assert_eq!(signal.advance(), 0);
    }
    // the generator stays usable: the counter kept moving
    assert_eq!(signal.time, 5);
}

#[test]
fn minus_disambiguation_trees_differ() {
    let negated = parse("-(1)").unwrap();
    let literal = parse("-1").unwrap();
    assert_ne!(negated, literal);
    assert!(matches!(negated, Expr::UnExpr(_, _)));
    assert!(matches!(literal, Expr::Num(Numeral::Int(-1))));
    assert_eq!(eval(0, &negated), Ok(-1));
    assert_eq!(eval(0, &literal), Ok(-1));
}

#[test]
fn parsing_and_evaluation_are_deterministic() {
    let text = "(t*9 & t>>4 | t*5 & t>>7 | t*3 & t/1024) - 1";
    let first = parse(text).unwrap();
    let second = parse(text).unwrap();
    assert_eq!(first, second);
    for t in 0..64u32 {
        assert_eq!(eval(t, &first), eval(t, &second));
        assert_eq!(eval(t, &first), eval(t, &first));
    }
}

#[test]
fn generator_matches_direct_evaluation() {
    let text = "(t*9 & t>>4 | t*5 & t>>7 | t*3 & t/1024) - 1";
    let tree = parse(text).unwrap();
    let mut signal = ExprSignal::from(parse(text).unwrap());
    for t in 0..2000u32 {
        let direct = eval(t, &tree).unwrap();
        // the same formula written out directly in the integer domain
        let ti = t as i32;
        let reference = ((ti.wrapping_mul(9) & (ti >> 4))
            | (ti.wrapping_mul(5) & (ti >> 7))
            | (ti.wrapping_mul(3) & (ti / 1024)))
            .wrapping_sub(1);
        assert_eq!(direct, reference);
        assert_eq!(signal.advance(), direct);
    }
    assert_eq!(signal.time, 2000);
}

#[test]
fn generator_time_starts_at_zero_and_wraps() {
    let mut signal = ExprSignal::from(parse("t").unwrap());
    assert_eq!(signal.time, 0);
    assert_eq!(signal.advance(), 0);
    assert_eq!(signal.advance(), 1);
    assert_eq!(signal.time, 2);
    signal.time = u32::MAX;
    assert_eq!(signal.advance(), -1);
    assert_eq!(signal.time, 0);
}

#[test]
fn narrow_output_domains_truncate() {
    let mut signal = ExprSignal::from(parse("300").unwrap());
    assert_eq!(signal.advance_i8(), 44);
    assert_eq!(signal.advance_i16(), 300);
    let mut wide = ExprSignal::from(parse("70000").unwrap());
    assert_eq!(wide.advance_i16(), 4464);
}

#[test]
fn arithmetic_wraps_instead_of_failing() {
    assert_eq!(eval(0, &parse("2147483647 + 1").unwrap()), Ok(i32::MIN));
    assert_eq!(eval(0, &parse("-2147483648 - 1").unwrap()), Ok(i32::MAX));
    assert_eq!(eval(0, &parse("65536 * 65536").unwrap()), Ok(0));
    assert_eq!(eval(0, &parse("-2147483648 / -1").unwrap()), Ok(i32::MIN));
    assert_eq!(eval(0, &parse("-(2147483647)").unwrap()), Ok(-2147483647));
    assert_eq!(eval(0, &parse("7 / -2").unwrap()), Ok(-3));
    assert_eq!(eval(0, &parse("-7 / 2").unwrap()), Ok(-3));
}

#[test]
fn shift_amounts_wrap_at_the_width() {
    assert_eq!(eval(0, &parse("1 << 33").unwrap()), Ok(2));
    assert_eq!(eval(0, &parse("1 << -1").unwrap()), Ok(i32::MIN));
    assert_eq!(eval(0, &parse("-8 >> 1").unwrap()), Ok(-4));
    assert_eq!(eval(0, &parse("256 >> 40").unwrap()), Ok(1));
}

#[test]
fn unary_operators() {
    assert_eq!(eval(0, &parse("!0").unwrap()), Ok(-1));
    assert_eq!(eval(0, &parse("~5").unwrap()), Ok(-6));
    assert_eq!(eval(5, &parse("-t").unwrap()), Ok(-5));
    assert_eq!(eval(0, &parse("-T").unwrap()), Ok(0));
}

#[test]
fn malformed_texts_are_rejected() {
    assert!(parse("").is_err());
    assert!(parse("1 +").is_err());
    assert!(parse("(1").is_err());
    assert!(parse("1)").is_err());
    assert!(parse("1 2").is_err());
    assert!(parse(">> 3").is_err());
    assert!(parse("- 1").is_err());
    assert!(parse("x").is_err());
    assert!(parse("1 > 2").is_err());
    assert!(parse("t t").is_err());
    assert!(parse("1.5.5").is_err());
}

#[test]
fn literals_at_the_domain_edge() {
    assert_eq!(eval(0, &parse("2147483647").unwrap()), Ok(2147483647));
    assert_eq!(eval(0, &parse("-2147483648").unwrap()), Ok(i32::MIN));
    assert!(parse("2147483648").is_err());
    assert!(parse("-2147483649").is_err());
}

#[test]
fn pointed_literals_truncate_toward_zero() {
    assert_eq!(eval(0, &parse("10.9").unwrap()), Ok(10));
    assert_eq!(eval(0, &parse("-10.9").unwrap()), Ok(-10));
    assert_eq!(eval(0, &parse("-0.9").unwrap()), Ok(0));
    assert_eq!(eval(0, &parse("1.").unwrap()), Ok(1));
}

#[test]
fn numeral_conversion() {
    assert_eq!(Numeral::from(10), Numeral::Int(10));
    assert_eq!(Numeral::from(-3), Numeral::Int(-3));
}

#[test]
fn subtraction_chains_to_the_right() {
    // right-recursive chaining: 5 - (2 - 1), not (5 - 2) - 1
    assert_eq!(eval(0, &parse("5 - 2 - 1").unwrap()), Ok(4));
    // and likewise for division: 8 / (4 / 2)
    assert_eq!(eval(0, &parse("8 / 4 / 2").unwrap()), Ok(4));
}
