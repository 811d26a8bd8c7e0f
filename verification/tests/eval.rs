use hidl::ast::{Expr, FlagField, Op};
use hidl::eval::{apply_op, eval, EvalError};

fn num(n: u64) -> Expr {
    Expr::Num(n)
}

fn bin(n: u64) -> Expr {
    Expr::BNum(n)
}

fn name(n: &str) -> Expr {
    Expr::Ident(n.to_owned())
}

fn op(l: Expr, o: Op, r: Expr) -> Expr {
    Expr::BinOp(Box::new(l), o, Box::new(r))
}

fn flag(n: &str, expr: Expr) -> FlagField {
    FlagField { name: n.to_owned(), expr, value: None }
}

#[test]
fn numbers_and_or() {
    let fs = vec![
        flag("A", num(1)),
        flag("B", num(2)),
        flag("C", op(name("A"), Op::BOr, name("B"))),
    ];
    assert_eq!(eval(&fs[0], &fs), Ok(1));
    assert_eq!(eval(&fs[1], &fs), Ok(2));
    assert_eq!(eval(&fs[2], &fs), Ok(3));
}

#[test]
fn binary_number_and_shift_right() {
    let fs = vec![flag("A", bin(0b100)), flag("B", op(name("A"), Op::RShift, num(2)))];
    assert_eq!(eval(&fs[1], &fs), Ok(1));
}

#[test]
fn bit_clear() {
    let fs = vec![
        flag("A", bin(0b1111)),
        flag("B", bin(0b0011)),
        flag("C", op(name("A"), Op::BClear, name("B"))),
    ];
    assert_eq!(eval(&fs[2], &fs), Ok(0b1100));
}

#[test]
fn a_cycle_is_recursive() {
    let fs = vec![flag("A", name("B")), flag("B", name("A"))];
    assert_eq!(eval(&fs[0], &fs), Err(EvalError::Recursive("A".to_owned())));
    assert_eq!(eval(&fs[1], &fs), Err(EvalError::Recursive("B".to_owned())));
}

#[test]
fn a_field_that_names_itself_is_recursive() {
    let fs = vec![flag("A", op(num(1), Op::BOr, name("A")))];
    assert_eq!(eval(&fs[0], &fs), Err(EvalError::Recursive("A".to_owned())));
}

#[test]
fn an_unknown_name_is_not_found() {
    let fs = vec![flag("A", name("Missing"))];
    assert_eq!(eval(&fs[0], &fs), Err(EvalError::NotFound("Missing".to_owned())));
}

#[test]
fn a_field_reached_twice_is_recursive() {
    let fs = vec![
        flag("A", num(1)),
        flag("C", op(name("A"), Op::BOr, name("A"))),
        flag("L", op(name("A"), Op::BOr, num(2))),
        flag("R", op(name("A"), Op::BOr, num(4))),
        flag("D", op(name("L"), Op::BOr, name("R"))),
    ];
    assert_eq!(eval(&fs[1], &fs), Err(EvalError::Recursive("A".to_owned())));
    assert_eq!(eval(&fs[4], &fs), Err(EvalError::Recursive("A".to_owned())));
    assert_eq!(eval(&fs[2], &fs), Ok(3));
    assert_eq!(eval(&fs[3], &fs), Ok(5));
}

#[test]
fn the_left_operand_fails_first() {
    let fs = vec![flag("A", op(name("X"), Op::BOr, name("Y")))];
    assert_eq!(eval(&fs[0], &fs), Err(EvalError::NotFound("X".to_owned())));
    let fs = vec![flag("A", op(num(1), Op::BOr, name("Y")))];
    assert_eq!(eval(&fs[0], &fs), Err(EvalError::NotFound("Y".to_owned())));
}

#[test]
fn a_name_stands_for_the_first_field_of_that_name() {
    let fs = vec![flag("A", num(1)), flag("A", num(2)), flag("B", name("A"))];
    assert_eq!(eval(&fs[2], &fs), Ok(1));
}

#[test]
fn the_order_of_the_fields_does_not_count() {
    let fs = vec![
        flag("C", op(name("A"), Op::BXor, name("B"))),
        flag("B", num(6)),
        flag("A", num(3)),
    ];
    assert_eq!(eval(&fs[0], &fs), Ok(5));
}

#[test]
fn nothing_is_kept_between_two_calls() {
    let fs = vec![
        flag("E", num(8)),
        flag("A", op(name("E"), Op::BOr, num(1))),
        flag("B", op(name("E"), Op::BOr, num(2))),
    ];
    assert_eq!(eval(&fs[1], &fs), Ok(9));
    assert_eq!(eval(&fs[2], &fs), Ok(10));
    assert_eq!(eval(&fs[1], &fs), Ok(9));
}

#[test]
fn a_value_given_before_is_not_read() {
    let mut a = flag("A", num(1));
    a.value = Some(77);
    let fs = vec![a, flag("B", name("A"))];
    assert_eq!(eval(&fs[1], &fs), Ok(1));
}

#[test]
fn operators() {
    assert_eq!(apply_op(Op::LShift, 1, 4), 16);
    assert_eq!(apply_op(Op::LShift, 3, 63), 1 << 63);
    assert_eq!(apply_op(Op::RShift, 0b100, 2), 1);
    assert_eq!(apply_op(Op::BAnd, 0b1100, 0b1010), 0b1000);
    assert_eq!(apply_op(Op::BOr, 0b1100, 0b1010), 0b1110);
    assert_eq!(apply_op(Op::BXor, 0b1100, 0b1010), 0b0110);
    assert_eq!(apply_op(Op::BClear, 0b1111, 0b0011), 0b1100);
    assert_eq!(apply_op(Op::BClear, u64::MAX, 0), u64::MAX);
}

#[test]
fn a_shift_by_64_or_more_leaves_nothing() {
    assert_eq!(apply_op(Op::LShift, u64::MAX, 64), 0);
    assert_eq!(apply_op(Op::RShift, u64::MAX, 64), 0);
    assert_eq!(apply_op(Op::LShift, 1, u64::MAX), 0);
    assert_eq!(apply_op(Op::RShift, u64::MAX, 1000), 0);
    assert_eq!(apply_op(Op::LShift, 1, 63), 1 << 63);
    assert_eq!(apply_op(Op::RShift, u64::MAX, 63), 1);
}

#[test]
fn errors_in_words() {
    assert_eq!(
        EvalError::NotFound("Missing".to_owned()).to_string(),
        "No definition found for Missing"
    );
    assert_eq!(EvalError::Recursive("A".to_owned()).to_string(), "Recursive definition for A");
}
