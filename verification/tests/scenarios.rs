use pumpkin_core::ast::{
    ArrayLiteral, BinaryExpr, Block, CallExpr, Expression, FuncDecl, Identifier, IfStmt,
    IndexExpr, LetStmt, Literal, LiteralValue, Program, ReturnStmt, ShowStmt, Statement,
};
use pumpkin_core::errors::PumpkinError;
use pumpkin_core::host::Host;
use pumpkin_core::value::PumpkinValue;
use pumpkin_core::{execute, ExecutionResult};

struct Doubles;

impl Host for Doubles {
    fn show(&self, _msg: &str) {}

    fn add(&self, a: u64, b: u64) -> u64 {
        (f64::from_bits(a) + f64::from_bits(b)).to_bits()
    }

    fn subtract(&self, a: u64, b: u64) -> u64 {
        (f64::from_bits(a) - f64::from_bits(b)).to_bits()
    }

    fn multiply(&self, a: u64, b: u64) -> u64 {
        (f64::from_bits(a) * f64::from_bits(b)).to_bits()
    }

    fn divide(&self, a: u64, b: u64) -> u64 {
        (f64::from_bits(a) / f64::from_bits(b)).to_bits()
    }

    fn format_number(&self, bits: u64) -> String {
        format!("{}", f64::from_bits(bits))
    }
}

fn program(body: Vec<Statement>) -> Program {
    Program { kind: "Program".to_string(), body, loc: None }
}

fn num(n: f64) -> Expression {
    Expression::Literal(Literal {
        value: LiteralValue::Number(n.to_bits()),
        raw: n.to_string(),
        loc: None,
    })
}

fn text(s: &str) -> Expression {
    Expression::Literal(Literal {
        value: LiteralValue::String(s.to_string()),
        raw: format!("\"{}\"", s),
        loc: None,
    })
}

fn boolean(b: bool) -> Expression {
    Expression::Literal(Literal { value: LiteralValue::Boolean(b), raw: b.to_string(), loc: None })
}

fn name(n: &str) -> Identifier {
    Identifier { name: n.to_string(), loc: None }
}

fn ident(n: &str) -> Expression {
    Expression::Identifier(name(n))
}

fn binary(op: &str, left: Expression, right: Expression) -> Expression {
    Expression::BinaryExpr(BinaryExpr {
        operator: op.to_string(),
        left: Box::new(left),
        right: Box::new(right),
        loc: None,
    })
}

fn show(e: Expression) -> Statement {
    Statement::ShowStmt(ShowStmt { expression: e, loc: None })
}

fn let_(n: &str, e: Expression) -> Statement {
    Statement::LetStmt(LetStmt { name: name(n), value: e, loc: None })
}

fn call(callee: &str, arguments: Vec<Expression>) -> Expression {
    Expression::CallExpr(CallExpr { callee: Box::new(ident(callee)), arguments, loc: None })
}

fn run(body: Vec<Statement>) -> ExecutionResult {
    execute(&program(body), &Doubles)
}

#[test]
fn let_then_show_sum() {
    let result = run(vec![let_("x", num(10.0)), show(binary("+", ident("x"), num(5.0)))]);
    assert!(result.success);
    assert_eq!(result.output, vec!["15".to_string()]);
    assert_eq!(result.error, None);
}

#[test]
fn show_division_by_zero_fails() {
    let result = run(vec![show(binary("/", num(10.0), num(0.0)))]);
    assert!(!result.success);
    assert!(matches!(result.error, Some(PumpkinError::DivisionByZeroError { .. })));
    assert!(result.output.is_empty());
    assert_eq!(result.return_value, None);
}

#[test]
fn function_of_two_parameters_adds_them() {
    let f = Statement::FuncDecl(FuncDecl {
        name: name("f"),
        params: vec![name("a"), name("b")],
        body: Block {
            body: vec![Statement::ReturnStmt(ReturnStmt {
                argument: Some(binary("+", ident("a"), ident("b"))),
                loc: None,
            })],
            loc: None,
        },
        loc: None,
    });
    let result = run(vec![f, show(call("f", vec![num(2.0), num(3.0)]))]);
    assert!(result.success, "{:?}", result.error);
    assert_eq!(result.output, vec!["5".to_string()]);
}

#[test]
fn show_unknown_name_fails() {
    let result = run(vec![show(ident("unknown_name"))]);
    assert!(!result.success);
    match result.error {
        Some(PumpkinError::UndefinedVariableError { name, .. }) => {
            assert_eq!(name, "unknown_name");
        }
        other => panic!("expected an undefined variable, got {:?}", other),
    }
}

#[test]
fn index_beyond_array_fails() {
    let array = Expression::ArrayLiteral(ArrayLiteral {
        elements: vec![num(1.0), num(2.0), num(3.0)],
        loc: None,
    });
    let index = Expression::IndexExpr(IndexExpr {
        object: Box::new(array),
        index: Box::new(num(5.0)),
        loc: None,
    });
    let result = run(vec![show(index)]);
    assert!(!result.success);
    match result.error {
        Some(PumpkinError::RuntimeError { message, .. }) => {
            assert_eq!(message, "Index out of bounds");
        }
        other => panic!("expected a runtime error, got {:?}", other),
    }
}

#[test]
fn call_with_wrong_argument_count_fails() {
    let f = Statement::FuncDecl(FuncDecl {
        name: name("f"),
        params: vec![name("a"), name("b")],
        body: Block { body: vec![], loc: None },
        loc: None,
    });
    let result = run(vec![f, show(call("f", vec![num(1.0)]))]);
    assert!(!result.success);
    match result.error {
        Some(PumpkinError::RuntimeError { message, .. }) => {
            assert_eq!(message, "Expected 2 args, got 1");
        }
        other => panic!("expected a runtime error, got {:?}", other),
    }
}

#[test]
fn conditional_shows_then_branch() {
    let stmt = Statement::IfStmt(IfStmt {
        condition: boolean(true),
        then_block: Block { body: vec![show(text("Yes"))], loc: None },
        else_block: Some(Block { body: vec![show(text("No"))], loc: None }),
        loc: None,
    });
    let result = run(vec![stmt, show(num(1.0))]);
    assert!(result.success, "{:?}", result.error);
    assert_eq!(result.output, vec!["\"Yes\"".to_string(), "1".to_string()]);
    assert_eq!(result.return_value, Some(PumpkinValue::Null));
}
