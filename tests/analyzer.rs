use dgen::optimizer::optimize;
use dgen::parser::parse;
use dgen::dgen_ast::Type;
use dgen::semantic_analyzer::{Scope, SemanticAnalyzer, Symbol};

fn errors_of(src: &str) -> Vec<String> {
    let tree = optimize(parse(src.to_string()).unwrap());
    let mut analyzer = SemanticAnalyzer::new();
    let back = analyzer.analyze(tree);
    assert_eq!(back, optimize(parse(src.to_string()).unwrap()));
    analyzer.errors().to_vec()
}

#[test]
fn correct_program_has_no_errors() {
    assert!(errors_of("num x = 5; x = x + 1;").is_empty());
    assert!(errors_of("str s = \"a\"; bool b = !true; s = \"b\";").is_empty());
    assert!(errors_of(
        "num f(num a) { num b = a; return b; } num y = f(2); while (y < 3) { y = y + 1; }"
    )
    .is_empty());
}

#[test]
fn redeclaration_in_nested_block() {
    assert_eq!(errors_of("num x = 1; { num x = 2; }"), vec!["Redeclaration of 'x'"]);
    assert_eq!(
        errors_of("num x = 1; if (true) { { str x; } }"),
        vec!["Redeclaration of 'x'"]
    );
}

#[test]
fn redeclaration_of_function() {
    assert_eq!(
        errors_of("num f(num); num f(num a) { return a; }"),
        vec!["Redeclaration of 'f'"]
    );
}

#[test]
fn block_names_leave_with_the_block() {
    assert!(errors_of("{ num x = 1; } num x = 2;").is_empty());
}

#[test]
fn binary_mismatch_does_not_stop_analysis() {
    assert_eq!(
        errors_of("num a = 1; bool b = true; a + b; num c = d;"),
        vec![
            "Binary expression type mismatch: Number != Boolean",
            "Variable 'd' does not exist",
            "Type mismatch in declaration of 'c'",
        ]
    );
}

#[test]
fn literal_index_out_of_bounds() {
    assert_eq!(
        errors_of("num[] a = [1, 2, 3]; a[3]; a[2]; num i = 7; a[i];"),
        vec!["Array index out of bounds: 3 >= 3"]
    );
}

#[test]
fn array_access_errors() {
    assert_eq!(
        errors_of("num[] a = [1]; a[true];"),
        vec!["Array index must be a number."]
    );
    assert_eq!(errors_of("num x = 1; x[0];"), vec!["'x' is not an array"]);
    assert_eq!(
        errors_of("num a = [1]; a[0];"),
        vec!["Type mismatch in declaration of 'a'", "Array type is not an array."]
    );
}

#[test]
fn inconsistent_array_literal() {
    assert_eq!(
        errors_of("[1, true];"),
        vec!["Array elements have inconsistent types."]
    );
    assert!(errors_of("num[][] m = [[1], [2, 3]];").is_empty());
}

#[test]
fn call_errors() {
    assert_eq!(
        errors_of("num f(num a, str b) { return a; } f(1); f(1, 2); g();"),
        vec![
            "Function 'f' expects 2 arguments, got 1",
            "Argument type mismatch in 'f': expected String, got Number",
            "Function 'g' is not defined",
        ]
    );
}

#[test]
fn assignment_errors() {
    assert_eq!(
        errors_of("num x = 1; x = true; y = 1;"),
        vec!["Type mismatch in assignment to 'x'", "Variable 'y' does not exist"]
    );
}

#[test]
fn array_type_in_message() {
    assert_eq!(
        errors_of("num[] a = [1]; a + 1;"),
        vec!["Binary expression type mismatch: Array(Number) != Number"]
    );
}

#[test]
fn fresh_analyzer_has_no_errors() {
    let analyzer = SemanticAnalyzer::new();
    assert!(analyzer.errors().is_empty());
}

#[test]
fn scope_lookup_walks_outward() {
    let mut outer = Scope::new(None);
    outer.define(Symbol::Array { typename: Type::Array(Box::new(Type::Number)), name: "a".to_string(), size: 3 });
    outer.define(Symbol::Var { typename: Type::String, name: "s".to_string() });
    let mut inner = Scope::new(Some(Box::new(outer)));
    inner.define(Symbol::Var { typename: Type::Boolean, name: "s".to_string() });
    inner.define(Symbol::Func { return_type: Type::Void, name: "f".to_string(), params: vec![Type::Number] });

    let s = inner.find_symbol("s").unwrap();
    assert_eq!(s.name(), "s");
    assert_eq!(*s.typename(), Type::Boolean);
    assert_eq!(s.size(), None);

    let a = inner.find_symbol("a").unwrap();
    assert_eq!(*a.typename(), Type::Array(Box::new(Type::Number)));
    assert_eq!(a.size(), Some(3));

    let f = inner.find_symbol("f").unwrap();
    assert_eq!(*f.typename(), Type::Void);
    assert!(inner.find_symbol("missing").is_none());
}

#[test]
fn array_literal_elements_are_each_checked_once() {
    assert_eq!(
        errors_of("[x, 1];"),
        vec!["Variable 'x' does not exist", "Array elements have inconsistent types."]
    );
    assert_eq!(
        errors_of("[1, true, y];"),
        vec!["Variable 'y' does not exist", "Array elements have inconsistent types."]
    );
    assert_eq!(errors_of("[z];"), vec!["Variable 'z' does not exist"]);
}
