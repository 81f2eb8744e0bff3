use bbb::expr::Expr::{BinExpr, Num, Time, UnExpr};
use bbb::numeral::{FloatLit, Numeral::Float, Numeral::Int};
use bbb::ops::{BinOp, BinOp1, BinOp2, UnOp};
use bbb::parser::parse;

#[test]
fn time_expr() {
    assert_eq!(parse("t"), Ok(Time));
    assert_eq!(parse(" t"), Ok(Time));
    assert_eq!(parse("t "), Ok(Time));

    assert_eq!(parse("T"), Ok(Time));
    assert_eq!(parse(" T"), Ok(Time));
    assert_eq!(parse("T "), Ok(Time));
}

#[test]
fn number_expr() {
    assert_eq!(parse("10"), Ok(Num(Int(10))));

    assert_eq!(
        parse("10.1"),
        Ok(Num(Float(FloatLit { neg: false, whole: 10 })))
    );

    assert_eq!(parse("-10"), Ok(Num(Int(-10))));

    assert_eq!(
        parse("-10.1"),
        Ok(Num(Float(FloatLit { neg: true, whole: 10 })))
    );

    assert_eq!(
        parse("0.1"),
        Ok(Num(Float(FloatLit { neg: false, whole: 0 })))
    );

    assert_eq!(
        parse("-0.1"),
        Ok(Num(Float(FloatLit { neg: true, whole: 0 })))
    );
}

#[test]
fn binop_expr() {
    assert_eq!(
        parse("1 + -1"),
        Ok(BinExpr(
            Box::new(Num(Int(1))),
            BinOp::Two(BinOp2::Add),
            Box::new(Num(Int(-1)))
        ))
    );

    assert_eq!(
        parse("(1 + 1)"),
        Ok(BinExpr(
            Box::new(Num(Int(1))),
            BinOp::Two(BinOp2::Add),
            Box::new(Num(Int(1)))
        ))
    );

    assert_eq!(
        parse("(t) + -10"),
        Ok(BinExpr(
            Box::new(Time),
            BinOp::Two(BinOp2::Add),
            Box::new(Num(Int(-10)))
        ))
    );
}

#[test]
fn unop_expr() {
    assert_eq!(
        parse("~10"),
        Ok(UnExpr(UnOp::BitNot, Box::new(Num(Int(10)))))
    );

    assert_eq!(
        parse("-(10 * t)"),
        Ok(UnExpr(
            UnOp::Neg,
            Box::new(BinExpr(
                Box::new(Num(Int(10))),
                BinOp::One(BinOp1::Mul),
                Box::new(Time)
            ))
        ))
    );
}

#[test]
fn expr_precedence() {
    // multiplicative binds tighter than additive, so the product hangs
    // under the sum
    assert_eq!(
        parse("1 + -2 * 3"),
        Ok(BinExpr(
            Box::new(Num(Int(1))),
            BinOp::Two(BinOp2::Add),
            Box::new(BinExpr(
                Box::new(Num(Int(-2))),
                BinOp::One(BinOp1::Mul),
                Box::new(Num(Int(3)))
            ))
        ))
    );
}
