use bbb::expr::Expr::{BinExpr, Num, Time, UnExpr};
use bbb::numeral::Numeral::Int;
use bbb::ops::{BinOp, BinOp1, BinOp2, BitAnd, BitOr, BitShift, BitXOr};
use bbb::ops::UnOp::{BitNot, BoolNot, Neg};
use bbb::parser::parse;

#[test]
fn number_parse_test() {
    assert_eq!(parse("1"), Ok(Num(Int(1))));

    assert_eq!(parse("-1"), Ok(Num(Int(-1))));

    assert_eq!(parse(" -10 "), Ok(Num(Int(-10))));

    assert_eq!(parse("(-10)"), Ok(Num(Int(-10))));
}

#[test]
fn time_parse_test() {
    assert_eq!(parse("t"), Ok(Time));

    assert_eq!(parse(" t "), Ok(Time));

    assert_eq!(parse("(t)"), Ok(Time));
}

#[test]
fn unary_parse_test() {
    assert_eq!(parse("-(10)"), Ok(UnExpr(Neg, Box::new(Num(Int(10))))));

    assert_eq!(parse("~10"), Ok(UnExpr(BitNot, Box::new(Num(Int(10))))));

    assert_eq!(parse("!10"), Ok(UnExpr(BoolNot, Box::new(Num(Int(10))))));
}

#[test]
fn simple_binary_parse_test() {
    assert_eq!(
        parse("1 + 1"),
        Ok(BinExpr(
            Box::new(Num(Int(1))),
            BinOp::Two(BinOp2::Add),
            Box::new(Num(Int(1)))
        ))
    );

    assert_eq!(
        parse("1 * 1"),
        Ok(BinExpr(
            Box::new(Num(Int(1))),
            BinOp::One(BinOp1::Mul),
            Box::new(Num(Int(1)))
        ))
    );

    assert_eq!(
        parse("1 >> 1"),
        Ok(BinExpr(
            Box::new(Num(Int(1))),
            BinOp::Three(BitShift::Right),
            Box::new(Num(Int(1)))
        ))
    );

    assert_eq!(
        parse("1 & 1"),
        Ok(BinExpr(
            Box::new(Num(Int(1))),
            BinOp::Four(BitAnd),
            Box::new(Num(Int(1)))
        ))
    );

    assert_eq!(
        parse("1 ^ 1"),
        Ok(BinExpr(
            Box::new(Num(Int(1))),
            BinOp::Five(BitXOr),
            Box::new(Num(Int(1)))
        ))
    );

    assert_eq!(
        parse("1 | 1"),
        Ok(BinExpr(
            Box::new(Num(Int(1))),
            BinOp::Six(BitOr),
            Box::new(Num(Int(1)))
        ))
    );
}
