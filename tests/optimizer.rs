use dgen::dgen_ast::{Expr, Stmt};
use dgen::generic::Operator;
use dgen::optimizer::optimize;
use dgen::parser::parse;

fn num(x: f64) -> Expr {
    Expr::Number(x.to_bits())
}

fn folded(src: &str) -> Expr {
    let parsed = parse(src.to_string()).unwrap();
    match optimize(parsed) {
        Stmt::Program(mut v) => match v.remove(0) {
            Stmt::Expr(e) => e,
            other => panic!("not an expression statement: {:?}", other),
        },
        other => panic!("not a program: {:?}", other),
    }
}

fn check(src: &str, expected: Expr) {
    assert_eq!(folded(src), expected, "Failed optimization: {:?}", src);
}

#[test]
fn test_optimizer_addition() {
    check("2 + 3;", num(5.0));
}

#[test]
fn test_optimizer_subtraction() {
    check("5 - 3;", num(2.0));
}

#[test]
fn test_optimizer_multiplication() {
    check("4 * 2;", num(8.0));
}

#[test]
fn test_optimizer_division() {
    check("10 / 2;", num(5.0));
    check("10 / 0;", num(f64::INFINITY));
}

#[test]
fn test_optimizer_negation() {
    check("-5;", num(-5.0));
    check("!!true;", Expr::Bool(true));
    check("!!false;", Expr::Bool(false));
}

#[test]
fn test_optimizer_string_concatenation() {
    check("\"Hello\" + \"World\";", Expr::String("HelloWorld".to_string()));
}

#[test]
fn test_optimizer_complex_expression() {
    check("((2 + 3) * 4 - 5) / 3;", num(5.0));
    check("3 + 2 * (1 + 4) / 5 - 6;", num(-1.0));
    check("-(2 + 3 * 4);", num(-14.0));
}

#[test]
fn test_optimizer_nested_logical_expression() {
    check("((true && false) || !false);", Expr::Bool(true));
    check("(true || false) && (false || true);", Expr::Bool(true));
}

// A string and a number are not folded together: the operation stays in the
// tree with both operands folded.
#[test]
fn test_optimizer_mixed_string_and_number_addition() {
    check(
        "\"Number: \" + 5;",
        Expr::BinaryOp(
            Operator::Add,
            Box::new(Expr::String("Number: ".to_string())),
            Box::new(num(5.0)),
        ),
    );
}

#[test]
fn test_optimizer_boolean_multiplication() {
    check("true && false;", Expr::Bool(false));
    check("true && true;", Expr::Bool(true));
}

#[test]
fn test_optimizer_boolean_negation_and_comparison() {
    check("!(3 > 2);", Expr::Bool(false));
}

#[test]
fn test_optimizer_multiple_operations() {
    check("((3 + 2) * 2 >= 10) || (false && true);", Expr::Bool(true));
}

#[test]
fn optimizer_test_optimizer_addition() {
    check("2 + 3;", num(5.0));
}

#[test]
fn optimizer_test_optimizer_subtraction() {
    check("5 - 3;", num(2.0));
}

#[test]
fn optimizer_test_optimizer_multiplication() {
    check("4 * 2;", num(8.0));
}

#[test]
fn optimizer_test_optimizer_division() {
    check("10 / 2;", num(5.0));
    check("10 / 0;", num(f64::INFINITY));
}

#[test]
fn optimizer_test_optimizer_negation() {
    check("-5;", num(-5.0));
}

#[test]
fn optimizer_test_optimizer_string_concatenation() {
    check("\"Hello\" + \"World\";", Expr::String("HelloWorld".to_string()));
}

#[test]
fn optimizer_test_optimizer_complex_expression() {
    check("((2 + 3) * 4 - 5) / 3;", num(5.0));
}

#[test]
fn optimizer_test_optimizer_nested_logical_expression() {
    check("((true && false) || !false);", Expr::Bool(true));
}

#[test]
fn remainder_and_fraction_fold() {
    check("7 % 3;", num(1.0));
    check("7.5 % 2;", num(1.5));
    check("0.1 + 0.2;", num(0.1 + 0.2));
    check("1 / 3;", num(1.0 / 3.0));
}

#[test]
fn zero_over_zero_folds_to_nan() {
    match folded("0 / 0;") {
        Expr::Number(b) => assert!(f64::from_bits(b).is_nan()),
        other => panic!("not a number: {:?}", other),
    }
}

#[test]
fn comparisons_fold_to_booleans() {
    check("1 == 1;", Expr::Bool(true));
    check("1 != 1;", Expr::Bool(false));
    check("1 < 2;", Expr::Bool(true));
    check("2 <= 2;", Expr::Bool(true));
    check("3 > 4;", Expr::Bool(false));
    check("-1 >= 0;", Expr::Bool(false));
    check("0 / 0 == 0 / 0;", Expr::Bool(false));
    check("0 / 0 != 0 / 0;", Expr::Bool(true));
    check("-0 == 0;", Expr::Bool(true));
    check("\"a\" == \"a\";", Expr::Bool(true));
    check("\"a\" != \"a\";", Expr::Bool(false));
    check("true == false;", Expr::Bool(false));
    check("true != false;", Expr::Bool(true));
}

#[test]
fn unfoldable_operations_stay() {
    check(
        "true + 1;",
        Expr::BinaryOp(Operator::Add, Box::new(Expr::Bool(true)), Box::new(num(1.0))),
    );
    check(
        "x + (1 + 2);",
        Expr::BinaryOp(
            Operator::Add,
            Box::new(Expr::Identifier("x".to_string())),
            Box::new(num(3.0)),
        ),
    );
    check(
        "-true;",
        Expr::UnaryOp(Operator::Neg, Box::new(Expr::Bool(true)), false),
    );
    check(
        "f(1 + 1, [2 * 2]);",
        Expr::FuncCall(
            "f".to_string(),
            vec![num(2.0), Expr::Array(vec![num(4.0)])],
        ),
    );
    check(
        "a[1 + 1];",
        Expr::ArrayAccess("a".to_string(), Box::new(num(2.0))),
    );
}

#[test]
fn folding_twice_changes_nothing() {
    let src = "num x = 1 + 2; x = x * (3 - 1); if (x > 2 + 2) { f(\"a\" + \"b\", !true); }";
    let once = optimize(parse(src.to_string()).unwrap());
    let twice = optimize(optimize(parse(src.to_string()).unwrap()));
    assert_eq!(once, twice);
}
