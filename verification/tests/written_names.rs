//! Operators, literals, names and types as they are written.

use pijama_codegen::{BinOp, Binding, Literal, Local, Primitive, Ty, UnOp};

#[test]
fn binary_operators_as_written() {
    let table = [
        (BinOp::Add, "+"),
        (BinOp::Sub, "-"),
        (BinOp::Mul, "*"),
        (BinOp::Div, "/"),
        (BinOp::Rem, "%"),
        (BinOp::And, "&&"),
        (BinOp::Or, "||"),
        (BinOp::BitAnd, "&"),
        (BinOp::BitOr, "|"),
        (BinOp::BitXor, "^"),
        (BinOp::Shr, ">>"),
        (BinOp::Shl, "<<"),
        (BinOp::Eq, "=="),
        (BinOp::Neq, "!="),
        (BinOp::Lt, "<"),
        (BinOp::Gt, ">"),
        (BinOp::Lte, "<="),
        (BinOp::Gte, ">="),
    ];
    for (op, text) in table {
        assert_eq!(op.to_string(), text);
    }
}

#[test]
fn unary_operators_as_written() {
    assert_eq!(UnOp::Not.to_string(), "!");
    assert_eq!(UnOp::Neg.to_string(), "-");
}

#[test]
fn primitives_as_written() {
    assert_eq!(Primitive::Print.to_string(), "print");
}

#[test]
fn literals_as_written() {
    assert_eq!(Literal::Bool(true).to_string(), "true");
    assert_eq!(Literal::Bool(false).to_string(), "false");
    assert_eq!(Literal::Unit.to_string(), "unit");
    assert_eq!(Literal::Number(0).to_string(), "0");
    assert_eq!(Literal::Number(14142).to_string(), "14142");
    assert_eq!(Literal::Number(-1).to_string(), "-1");
    assert_eq!(Literal::Number(i64::MIN).to_string(), "-9223372036854775808");
    assert_eq!(Literal::Number(i64::MAX).to_string(), "9223372036854775807");
}

#[test]
fn literals_from_values() {
    assert_eq!(Literal::from(7), Literal::Number(7));
    assert_eq!(Literal::from(-7), Literal::Number(-7));
    assert_eq!(Literal::from(true), Literal::Bool(true));
    assert_eq!(Literal::from(false), Literal::Bool(false));
}

#[test]
fn names_as_written() {
    assert_eq!(Local::Name("foo_bar").to_string(), "foo_bar");
    assert_eq!(Local::Name("").to_string(), "");
    assert_eq!(Local::Wildcard.to_string(), "_");
    assert_eq!(Local::Temp(0).to_string(), "#0");
    assert_eq!(Local::Temp(42).to_string(), "#42");
    assert_eq!(Local::Temp(usize::MAX).to_string(), format!("#{}", usize::MAX));
}

#[test]
fn only_given_names_are_equal() {
    assert!(Local::Name("x") == Local::Name("x"));
    assert!(Local::Name("x") != Local::Name("y"));
    assert!(Local::Name("x") != Local::Name("xx"));
    assert!(Local::Wildcard != Local::Wildcard);
    assert!(Local::Temp(1) != Local::Temp(1));
    assert!(Local::Temp(1) != Local::Temp(2));
    assert!(Local::Name("_") != Local::Wildcard);
    assert!(Local::Wildcard != Local::Name("_"));
    assert!(Local::Temp(1) != Local::Name("#1"));
}

#[test]
fn types_as_written() {
    assert_eq!(Ty::Bool.to_string(), "Bool");
    assert_eq!(Ty::Int.to_string(), "Int");
    assert_eq!(Ty::Unit.to_string(), "Unit");
    assert_eq!(Ty::Var(12).to_string(), "?12");
    let arrow = |from: Ty, to: Ty| Ty::Arrow(Box::new(from), Box::new(to));
    assert_eq!(arrow(Ty::Int, Ty::Bool).to_string(), "Int -> Bool");
    assert_eq!(arrow(Ty::Int, arrow(Ty::Bool, Ty::Unit)).to_string(), "Int -> Bool -> Unit");
    assert_eq!(arrow(arrow(Ty::Int, Ty::Bool), Ty::Unit).to_string(), "(Int -> Bool) -> Unit");
    assert_eq!(
        arrow(arrow(arrow(Ty::Int, Ty::Int), Ty::Bool), arrow(Ty::Unit, Ty::Unit)).to_string(),
        "((Int -> Int) -> Bool) -> Unit -> Unit"
    );
}

#[test]
fn bindings_hold_a_name_and_a_type() {
    let binding = Binding { name: Local::Name("x"), ty: Ty::Int };
    assert_eq!(binding.name.to_string(), "x");
    assert_eq!(binding.ty, Ty::Int);
    assert_eq!(binding.clone(), binding);
    let nameless = Binding { name: Local::Wildcard, ty: Ty::Int };
    assert!(nameless.clone() != nameless);
}
