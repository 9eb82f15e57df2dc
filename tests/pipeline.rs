use dgen::dgen_ast::{Expr, Stmt, Type};
use dgen::generic::Operator;
use dgen::optimizer::optimize;
use dgen::parser::{parse, CLikeParser, ParserError, Token};
use dgen::semantic_analyzer::SemanticAnalyzer;
use dgen::sqf_ast;

fn num(x: f64) -> Expr {
    Expr::Number(x.to_bits())
}

fn texts(tree: &sqf_ast::Stmt) -> Vec<(u64, String)> {
    tree.number_literals()
        .into_iter()
        .map(|b| (b, f64::from_bits(b).to_string()))
        .collect()
}

fn compile(src: &str, minify: bool) -> String {
    let tree = optimize(parse(src.to_string()).unwrap());
    let mut analyzer = SemanticAnalyzer::new();
    let tree = analyzer.analyze(tree);
    assert!(analyzer.errors().is_empty(), "{:?}", analyzer.errors());
    let target = tree.transform();
    let numbers = texts(&target);
    target.generate_sqf(0, minify, &numbers)
}

#[test]
fn declaration_and_assignment_end_to_end() {
    assert_eq!(compile("num x = 5; x = x + 1;", false), "private _x = 5;\n_x = (_x + 1);");
}

#[test]
fn nested_blocks_are_indented() {
    assert_eq!(
        compile("num x = 1; if (x > 1) { x = 2; } else { while (true) { x = 3; } }", false),
        "private _x = 1;\nif ((_x > 1)) then {\n  _x = 2;\n} else {\n  while {true} do {\n    _x = 3;\n  };\n};"
    );
}

#[test]
fn function_definition_renders_params_and_exit() {
    assert_eq!(
        compile("num f(num a, str b) { return a; } f(2, \"s\");", false),
        "_f = {\n  params [\"_a\", \"_b\"];\n  scopeName \"__func__\";\n  _a breakOut \"__func__\";\n};\n([2, \"s\"] call _f);"
    );
    assert_eq!(
        compile("num f(num a) { return a; }", true),
        "_f = {params [\"_a\"];scopeName \"__func__\";_a breakOut \"__func__\";};"
    );
}

#[test]
fn for_loop_renders_its_clauses() {
    assert_eq!(
        compile("for (num i = 0; i < 3; i = i + 1) { break; }", false),
        "for [{private _i = 0}, {(_i < 3)}, {_i = (_i + 1)}] do {\n  break;\n};"
    );
}

#[test]
fn arrays_and_unary_operators_render() {
    assert_eq!(
        compile("num[] a = [1, 2.5]; a[0]; bool b = !true; -a[1];", false),
        "private _a = [1, 2.5];\n(_a select 0);\nprivate _b = false;\n-(_a select 1);"
    );
}

#[test]
fn lowering_marks_names_and_drops_declarations() {
    let tree = parse("num f(num); num x = 1; x++; --x; f(x);".to_string()).unwrap();
    let target = tree.transform();
    assert_eq!(
        target,
        sqf_ast::Stmt::Program(vec![
            sqf_ast::Stmt::Dummy,
            sqf_ast::Stmt::VarDecl("_x".to_string(), Some(sqf_ast::Expr::Number(1.0f64.to_bits()))),
            sqf_ast::Stmt::Expr(sqf_ast::Expr::BinaryOp(
                Operator::Add,
                Box::new(sqf_ast::Expr::Identifier("_x".to_string())),
                Box::new(sqf_ast::Expr::Number(1.0f64.to_bits())),
            )),
            sqf_ast::Stmt::Expr(sqf_ast::Expr::BinaryOp(
                Operator::Sub,
                Box::new(sqf_ast::Expr::Identifier("_x".to_string())),
                Box::new(sqf_ast::Expr::Number(1.0f64.to_bits())),
            )),
            sqf_ast::Stmt::Expr(sqf_ast::Expr::FuncCall(
                "_f".to_string(),
                vec![sqf_ast::Expr::Identifier("_x".to_string())],
            )),
        ])
    );
    assert_eq!(Type::Array(Box::new(Type::Number)).transform(), sqf_ast::Type::Array(Box::new(sqf_ast::Type::Number)));
}

#[test]
fn minified_output_has_no_line_breaks() {
    assert_eq!(
        compile("num x = 1; if (x == 1) { x = 2; }", true),
        "private _x = 1;if ((_x == 1)) then {_x = 2;};"
    );
}

#[test]
fn missing_number_text_renders_empty() {
    let target = parse("1;".to_string()).unwrap().transform();
    assert_eq!(target.generate_sqf(0, false, &Vec::new()), ";");
}

#[test]
fn operators_render_their_text() {
    assert_eq!(Operator::Add.to_string(), "+");
    assert_eq!(Operator::Inc.to_string(), "++");
    assert_eq!(Operator::Neq.to_string(), "!=");
    assert_eq!(Operator::Gte.to_string(), ">=");
    assert_eq!(Operator::Or.to_string(), "||");
}

#[test]
fn precedence_and_associativity() {
    let id = |s: &str| Box::new(Expr::Identifier(s.to_string()));
    let tree = parse("a + b * c - d; a || b && c == d;".to_string()).unwrap();
    assert_eq!(
        tree,
        Stmt::Program(vec![
            Stmt::Expr(Expr::BinaryOp(
                Operator::Sub,
                Box::new(Expr::BinaryOp(
                    Operator::Add,
                    id("a"),
                    Box::new(Expr::BinaryOp(Operator::Mul, id("b"), id("c"))),
                )),
                id("d"),
            )),
            Stmt::Expr(Expr::BinaryOp(
                Operator::Or,
                id("a"),
                Box::new(Expr::BinaryOp(
                    Operator::And,
                    id("b"),
                    Box::new(Expr::BinaryOp(Operator::Eq, id("c"), id("d"))),
                )),
            )),
        ])
    );
}

#[test]
fn prefix_and_postfix_operators() {
    let a = Box::new(Expr::Identifier("a".to_string()));
    let tree = parse("-a++;".to_string()).unwrap();
    assert_eq!(
        tree,
        Stmt::Program(vec![Stmt::Expr(Expr::UnaryOp(
            Operator::Neg,
            Box::new(Expr::UnaryOp(Operator::Inc, a, true)),
            false,
        ))])
    );
}

#[test]
fn declarations_parse() {
    let tree = parse(
        "num[] a; str f(num, bool); void g() { } // comment\nobj o = \"x\";".to_string(),
    )
    .unwrap();
    assert_eq!(
        tree,
        Stmt::Program(vec![
            Stmt::VarDecl(Type::Array(Box::new(Type::Number)), "a".to_string(), None),
            Stmt::FuncDecl(Type::String, "f".to_string(), vec![Type::Number, Type::Boolean]),
            Stmt::FuncDef(Type::Void, "g".to_string(), vec![], Box::new(Stmt::Block(vec![]))),
            Stmt::VarDecl(Type::Object, "o".to_string(), Some(Expr::String("x".to_string()))),
        ])
    );
}

#[test]
fn control_flow_parses() {
    let tree = parse("for (num i = 0; i < 2; i = i + 1) { continue; } return 1;".to_string()).unwrap();
    match tree {
        Stmt::Program(v) => {
            assert_eq!(v.len(), 2);
            assert!(matches!(v[0], Stmt::For(..)));
            assert_eq!(v[1], Stmt::Return(num(1.0)));
        }
        other => panic!("not a program: {:?}", other),
    }
}

#[test]
fn malformed_input_fails() {
    assert!(matches!(parse("num x = ;".to_string()), Err(ParserError::ParseFailure)));
    assert!(matches!(parse("\"open".to_string()), Err(ParserError::ParseFailure)));
    assert!(matches!(parse("x = 1".to_string()), Err(ParserError::ParseFailure)));
    assert!(matches!(parse("a # b;".to_string()), Err(ParserError::ParseFailure)));
    assert!(matches!(parse("if (true) x = 1;".to_string()), Err(ParserError::ParseFailure)));
}

#[test]
fn empty_source_is_an_empty_program() {
    assert_eq!(parse("  // nothing\n".to_string()).unwrap(), Stmt::Program(vec![]));
}

#[test]
fn tokens_of_a_line() {
    let ts = CLikeParser::tokenize("x1 <= 2.50;").unwrap();
    assert_eq!(ts.len(), 4);
    assert!(matches!(&ts[0], Token::Ident(n) if n == "x1"));
    assert!(matches!(ts[1], Token::Op(Operator::Lte)));
    assert!(matches!(ts[2], Token::Number(b) if b == 2.5f64.to_bits()));
    assert!(matches!(ts[3], Token::Semicolon));
}

#[test]
fn grammar_texts_parse() {
    assert_eq!(
        parse("1 + 2 * 3;".to_string()).unwrap(),
        Stmt::Program(vec![Stmt::Expr(Expr::BinaryOp(
            Operator::Add,
            Box::new(num(1.0)),
            Box::new(Expr::BinaryOp(Operator::Mul, Box::new(num(2.0)), Box::new(num(3.0)))),
        ))])
    );
    assert_eq!(
        parse("8 - 4 - 2;".to_string()).unwrap(),
        Stmt::Program(vec![Stmt::Expr(Expr::BinaryOp(
            Operator::Sub,
            Box::new(Expr::BinaryOp(Operator::Sub, Box::new(num(8.0)), Box::new(num(4.0)))),
            Box::new(num(2.0)),
        ))])
    );
    assert_eq!(
        parse("\"Hello\";".to_string()).unwrap(),
        Stmt::Program(vec![Stmt::Expr(Expr::String("Hello".to_string()))])
    );
}

#[test]
fn minified_output_drops_every_line_break() {
    let tree = sqf_ast::Stmt::Program(vec![
        sqf_ast::Stmt::Expr(sqf_ast::Expr::Identifier("a\nb".to_string())),
        sqf_ast::Stmt::Expr(sqf_ast::Expr::Number(1.0f64.to_bits())),
    ]);
    let numbers = vec![(1.0f64.to_bits(), "1\n".to_string())];
    assert_eq!(tree.generate_sqf(0, true, &numbers), "ab;1;");
    assert_eq!(tree.generate_sqf(0, false, &numbers), "a\nb;\n1\n;");
    assert_eq!(compile("\"x\ny\";", true), "\"xy\";");
    assert_eq!(
        sqf_ast::Expr::Identifier("p\nq".to_string()).generate_sqf(0, true, &Vec::new()),
        "pq"
    );
}
