use bbb::ops::{unop, UnOp};

#[test]
fn unary_parse() {
    assert_eq!(unop("-("), Some((UnOp::Neg, 1)));

    // a bare minus opens a numeric literal, never a unary operator
    assert_eq!(unop("-"), None);

    assert_eq!(unop("~"), Some((UnOp::BitNot, 1)));

    assert_eq!(unop("!"), Some((UnOp::BoolNot, 1)));
}
