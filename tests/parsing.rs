use atc::parser::expression_parser::parse_expression;
use atc::parser::math::{MathValue, OperationType};
use atc::{ErrorKind, NodeStatements, Parser, Token, Tokeniser};

fn lex(src: &str) -> Vec<Token> {
    let mut t = Tokeniser::new(src.to_string(), false);
    t.tokenise().expect("source should lex")
}

fn eval(e: &MathValue) -> i64 {
    match e {
        MathValue::Integer(t) => t.info.parse().unwrap(),
        MathValue::Identifier(_) => panic!("no variables here"),
        MathValue::Operation(op) => match &**op {
            OperationType::Add(n) => eval(&n.value_1) + eval(&n.value_2),
            OperationType::Sub(n) => eval(&n.value_1) - eval(&n.value_2),
            OperationType::Mult(n) => eval(&n.value_1) * eval(&n.value_2),
            OperationType::Div(n) => eval(&n.value_1) / eval(&n.value_2),
        },
    }
}

fn expr(src: &str) -> MathValue {
    parse_expression(&lex(src)).expect("expression should parse")
}

#[test]
fn product_binds_tighter_than_sum() {
    assert_eq!(eval(&expr("2 + 3 * 4")), 14);
}

#[test]
fn parentheses_group_first() {
    assert_eq!(eval(&expr("(2 + 3) * 4")), 20);
}

#[test]
fn subtraction_is_left_associative() {
    let e = expr("10 - 2 - 3");
    assert_eq!(eval(&e), 5);
    // (10 - 2) - 3: the left operand is itself a subtraction
    match e {
        MathValue::Operation(op) => match *op {
            OperationType::Sub(n) => {
                assert!(matches!(n.value_2, MathValue::Integer(ref t) if t.info == "3"));
                assert!(matches!(n.value_1, MathValue::Operation(_)));
            },
            _ => panic!("expected a subtraction"),
        },
        _ => panic!("expected an operation"),
    }
}

#[test]
fn division_is_left_associative() {
    assert_eq!(eval(&expr("20 / 4 / 5")), 1);
}

#[test]
fn single_factor() {
    assert!(matches!(expr("x"), MathValue::Identifier(ref t) if t.info == "x"));
    assert!(matches!(expr("( (7) )"), MathValue::Integer(ref t) if t.info == "7"));
}

#[test]
fn missing_closing_paren() {
    let e = parse_expression(&lex("(1 + 2")).unwrap_err();
    assert_eq!(e.kind, ErrorKind::Parse);
    assert_eq!(e.msg, "Expected a closing paren");
}

#[test]
fn missing_factor() {
    let e = parse_expression(&lex("1 +")).unwrap_err();
    assert_eq!(e.kind, ErrorKind::Parse);
    assert_eq!(e.msg, "Expected a factor");
    let e = parse_expression(&lex("* 2")).unwrap_err();
    assert_eq!(e.msg, "Expected a factor, found: *");
}

#[test]
fn leftover_tokens_are_an_internal_error() {
    let e = parse_expression(&lex("1 2")).unwrap_err();
    assert_eq!(e.kind, ErrorKind::Internal);
    assert_eq!(e.line, 1);
}

fn parse(src: &str) -> Result<atc::NodeProgram, atc::Error> {
    let mut p = Parser { tokens: lex(src), index: 0 };
    p.parse()
}

#[test]
fn parses_each_statement_form() {
    let prog = parse("int x = 5; int y; y = x * 2; putchar(65); fn f(int a) { exit(1); } f(); exit(x);")
        .unwrap();
    let s = &prog.statements;
    assert_eq!(s.len(), 7);
    assert!(matches!(&s[0], NodeStatements::Declare(d) if d.identifier.info == "x" && d.expression.is_some()));
    assert!(matches!(&s[1], NodeStatements::Declare(d) if d.identifier.info == "y" && d.expression.is_none()));
    assert!(matches!(&s[2], NodeStatements::SetVar(d) if d.identifier.info == "y"));
    assert!(matches!(&s[3], NodeStatements::PutChar(_)));
    match &s[4] {
        NodeStatements::Function(f) => {
            assert_eq!(f.identifier.info, "f");
            assert_eq!(f.args.len(), 1);
            assert_eq!(f.args[0].identifier.info, "a");
            assert_eq!(f.scope.statements.len(), 1);
        },
        _ => panic!("expected a function"),
    }
    assert!(matches!(&s[5], NodeStatements::FunctionCall(c) if c.identifier.info == "f" && c.args.is_empty()));
    assert!(matches!(&s[6], NodeStatements::Exit(_)));
}

#[test]
fn nested_functions_parse() {
    let prog = parse("fn outer() { fn inner() { putchar(66); } inner(); }").unwrap();
    match &prog.statements[0] {
        NodeStatements::Function(f) => {
            assert_eq!(f.scope.statements.len(), 2);
            assert!(matches!(&f.scope.statements[0], NodeStatements::Function(_)));
        },
        _ => panic!("expected a function"),
    }
}

#[test]
fn missing_semicolon_names_kinds() {
    let e = parse("exit(1)\nint x;").unwrap_err();
    assert_eq!(e.kind, ErrorKind::Parse);
    assert_eq!(e.msg, "Expected Semicolon, found IntType");
    assert_eq!(e.line, 2);
}

#[test]
fn running_out_of_tokens() {
    let e = parse("int\nx").unwrap_err();
    assert_eq!(e.msg, "Expected another token");
    assert_eq!(e.line, 2);
}

#[test]
fn empty_expression() {
    let e = parse("exit();").unwrap_err();
    assert_eq!(e.msg, "Expression is empty");
    let e = parse("exit(").unwrap_err();
    assert_eq!(e.msg, "Expression is empty");
    assert_eq!(e.line, 1);
}

#[test]
fn unclosed_function_body_cites_last_line() {
    let e = parse("fn f() {\n  putchar(65);\n  exit(0);\n").unwrap_err();
    assert_eq!(e.kind, ErrorKind::Parse);
    assert_eq!(e.msg, "Expected closing brace `}`, the issue may potentially be earlier");
    assert_eq!(e.line, 3);
}

#[test]
fn invalid_statement_start() {
    let e = parse("5;").unwrap_err();
    assert_eq!(e.msg, "Expected a valid statement, found 5");
}

#[test]
fn empty_program() {
    assert!(parse("").unwrap().statements.is_empty());
}

#[test]
fn parse_leaves_cursor_at_end() {
    let mut p = Parser { tokens: lex("int x = 5; exit(x + 1);"), index: 0 };
    let prog = p.parse().unwrap();
    assert_eq!(p.index, 12);
    assert_eq!(prog.statements.len(), 2);
    match &prog.statements[1] {
        NodeStatements::Exit(x) => assert!(matches!(x.expression, MathValue::Operation(_))),
        _ => panic!("expected exit"),
    }
}
