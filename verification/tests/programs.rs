use pumpkin_core::ast::{
    ArrayLiteral, AssignStmt, BinaryExpr, Block, CallExpr, ExportStmt, ExprStmt, Expression,
    FuncDecl, Identifier, IfStmt, ImportStmt, IndexExpr, LetStmt, Literal, LiteralValue, Program,
    RepeatStmt, ReturnStmt, ShowStmt, SourceLocation, Statement, UnaryExpr, WhileStmt,
};
use pumpkin_core::errors::PumpkinError;
use pumpkin_core::host::{Host, InterpreterConfig};
use pumpkin_core::value::PumpkinValue;
use pumpkin_core::{evaluate, execute, execute_in_env, Environment, ExecutionResult, Heap};
use std::cell::RefCell;

struct Recorder {
    shown: RefCell<Vec<String>>,
}

impl Recorder {
    fn new() -> Self {
        Recorder { shown: RefCell::new(Vec::new()) }
    }
}

impl Host for Recorder {
    fn show(&self, msg: &str) {
        self.shown.borrow_mut().push(msg.to_string());
    }

    fn add(&self, a: u64, b: u64) -> u64 {
        (f64::from_bits(a) + f64::from_bits(b)).to_bits()
    }

    fn subtract(&self, a: u64, b: u64) -> u64 {
        (f64::from_bits(a) - f64::from_bits(b)).to_bits()
    }

    fn multiply(&self, a: u64, b: u64) -> u64 {
        (f64::from_bits(a) * f64::from_bits(b)).to_bits()
    }

    fn divide(&self, a: u64, b: u64) -> u64 {
        (f64::from_bits(a) / f64::from_bits(b)).to_bits()
    }

    fn format_number(&self, bits: u64) -> String {
        format!("{}", f64::from_bits(bits))
    }
}

fn prog(body: Vec<Statement>) -> Program {
    Program { kind: "Program".to_string(), body, loc: None }
}

fn val_num(n: f64) -> Expression {
    Expression::Literal(Literal {
        value: LiteralValue::Number(n.to_bits()),
        raw: n.to_string(),
        loc: None,
    })
}

fn val_str(s: &str) -> Expression {
    Expression::Literal(Literal {
        value: LiteralValue::String(s.to_string()),
        raw: format!("\"{}\"", s),
        loc: None,
    })
}

fn val_bool(b: bool) -> Expression {
    Expression::Literal(Literal { value: LiteralValue::Boolean(b), raw: b.to_string(), loc: None })
}

fn val_null() -> Expression {
    Expression::Literal(Literal { value: LiteralValue::Null, raw: "null".to_string(), loc: None })
}

fn id(n: &str) -> Identifier {
    Identifier { name: n.to_string(), loc: None }
}

fn var(n: &str) -> Expression {
    Expression::Identifier(id(n))
}

fn bin(op: &str, left: Expression, right: Expression) -> Expression {
    Expression::BinaryExpr(BinaryExpr {
        operator: op.to_string(),
        left: Box::new(left),
        right: Box::new(right),
        loc: None,
    })
}

fn list(elements: Vec<Expression>) -> Expression {
    Expression::ArrayLiteral(ArrayLiteral { elements, loc: None })
}

fn at(object: Expression, index: Expression) -> Expression {
    Expression::IndexExpr(IndexExpr { object: Box::new(object), index: Box::new(index), loc: None })
}

fn call_fn(callee: &str, arguments: Vec<Expression>) -> Expression {
    Expression::CallExpr(CallExpr { callee: Box::new(var(callee)), arguments, loc: None })
}

fn show_stmt(e: Expression) -> Statement {
    Statement::ShowStmt(ShowStmt { expression: e, loc: None })
}

fn let_stmt(n: &str, e: Expression) -> Statement {
    Statement::LetStmt(LetStmt { name: id(n), value: e, loc: None })
}

fn assign(target: Expression, value: Expression) -> Statement {
    Statement::AssignStmt(AssignStmt { target, value, loc: None })
}

fn block(body: Vec<Statement>) -> Block {
    Block { body, loc: None }
}

fn func(n: &str, params: Vec<&str>, body: Vec<Statement>) -> Statement {
    Statement::FuncDecl(FuncDecl {
        name: id(n),
        params: params.into_iter().map(id).collect(),
        body: block(body),
        loc: None,
    })
}

fn ret(e: Option<Expression>) -> Statement {
    Statement::ReturnStmt(ReturnStmt { argument: e, loc: None })
}

fn run_program(body: Vec<Statement>) -> ExecutionResult {
    execute(&prog(body), &Recorder::new())
}

fn outputs(body: Vec<Statement>) -> Vec<String> {
    let result = run_program(body);
    assert!(result.success, "{:?}", result.error);
    result.output
}

fn runtime_message(result: ExecutionResult) -> String {
    match result.error {
        Some(PumpkinError::RuntimeError { message, .. }) => message,
        other => panic!("expected a runtime error, got {:?}", other),
    }
}

#[test]
fn variable_declaration_succeeds() {
    let result = run_program(vec![let_stmt("x", val_num(42.0))]);
    assert!(result.success);
    assert_eq!(result.return_value, Some(PumpkinValue::Null));
}

#[test]
fn sum_of_two_literals_is_shown() {
    let result = run_program(vec![show_stmt(bin("+", val_num(5.0), val_num(5.0)))]);
    assert!(result.success);
    assert_eq!(result.output[0], "10");
}

#[test]
fn quotient_of_two_literals_is_shown() {
    let result = run_program(vec![show_stmt(bin("/", val_num(10.0), val_num(2.0)))]);
    assert!(result.success);
    assert_eq!(result.output[0], "5");
}

#[test]
fn conditional_without_else_runs_its_branch() {
    let result = run_program(vec![Statement::IfStmt(IfStmt {
        condition: val_bool(true),
        then_block: block(vec![show_stmt(val_str("Yes"))]),
        else_block: None,
        loc: None,
    })]);
    assert!(result.success);
    assert_eq!(result.output[0], "\"Yes\"");
}

#[test]
fn nested_block_declares_globals() {
    let result = run_program(vec![
        let_stmt("x", val_num(10.0)),
        Statement::Block(block(vec![let_stmt("x", val_num(20.0)), show_stmt(var("x"))])),
        show_stmt(var("x")),
    ]);
    assert!(result.success);
    assert_eq!(result.output, vec!["20".to_string(), "20".to_string()]);
}

#[test]
fn undefined_variable_is_named() {
    let result = run_program(vec![show_stmt(var("unknown"))]);
    assert!(!result.success);
    match result.error {
        Some(PumpkinError::UndefinedVariableError { name, hint, .. }) => {
            assert_eq!(name, "unknown");
            assert_eq!(hint, None);
        }
        _ => panic!("Expected UndefinedVariableError"),
    }
}

#[test]
fn division_by_zero_is_an_error() {
    let result = run_program(vec![show_stmt(bin("/", val_num(10.0), val_num(0.0)))]);
    assert!(!result.success);
    match result.error {
        Some(PumpkinError::DivisionByZeroError { .. }) => {}
        _ => panic!("Expected DivisionByZeroError"),
    }
}

#[test]
fn division_by_negative_zero_fails_too() {
    let result = run_program(vec![show_stmt(bin("/", val_num(1.0), val_num(-0.0)))]);
    assert!(matches!(result.error, Some(PumpkinError::DivisionByZeroError { .. })));
}

#[test]
fn subtracting_from_a_string_is_a_type_error() {
    let result = run_program(vec![show_stmt(bin("-", val_str("hello"), val_num(5.0)))]);
    assert!(!result.success);
    match result.error {
        Some(PumpkinError::TypeError { expected, actual, .. }) => {
            assert_eq!(expected, "number");
            assert_eq!(actual, "string");
        }
        _ => panic!("Expected TypeError"),
    }
}

#[test]
fn type_error_names_the_operand_that_is_no_number() {
    let result = run_program(vec![show_stmt(bin("*", val_num(5.0), val_bool(true)))]);
    match result.error {
        Some(PumpkinError::TypeError { expected, actual, .. }) => {
            assert_eq!(expected, "number");
            assert_eq!(actual, "boolean");
        }
        other => panic!("expected a type error, got {:?}", other),
    }
}

#[test]
fn adding_values_that_are_neither_numbers_nor_strings_fails() {
    let result = run_program(vec![show_stmt(bin("+", val_bool(true), val_null()))]);
    match result.error {
        Some(PumpkinError::TypeError { expected, actual, .. }) => {
            assert_eq!(expected, "number or string");
            assert_eq!(actual, "boolean + null");
        }
        other => panic!("expected a type error, got {:?}", other),
    }
}

#[test]
fn plus_joins_strings_with_display_forms() {
    let out = outputs(vec![
        show_stmt(bin("+", val_str("a"), val_str("b"))),
        show_stmt(bin("+", val_str("n="), val_num(1.5))),
        show_stmt(bin("+", val_num(2.0), val_str("!"))),
        show_stmt(bin("+", val_str("l="), list(vec![val_num(1.0), val_str("x"), val_bool(false)]))),
        show_stmt(bin("+", val_str("v="), val_null())),
    ]);
    assert_eq!(
        out,
        vec!["\"ab\"", "\"n=1.5\"", "\"2!\"", "\"l=[1, \"x\", false]\"", "\"v=null\""]
    );
}

#[test]
fn arithmetic_follows_the_host() {
    let out = outputs(vec![
        show_stmt(bin("-", val_num(10.0), val_num(2.5))),
        show_stmt(bin("*", val_num(4.0), val_num(0.5))),
        show_stmt(bin("/", val_num(1.0), val_num(4.0))),
    ]);
    assert_eq!(out, vec!["7.5", "2", "0.25"]);
}

#[test]
fn comparisons_and_equality() {
    let out = outputs(vec![
        show_stmt(bin("<", val_num(1.0), val_num(2.0))),
        show_stmt(bin(">", val_num(1.0), val_num(2.0))),
        show_stmt(bin("<", val_num(-1.0), val_num(0.0))),
        show_stmt(bin(">", val_num(-1.0), val_num(-2.0))),
        show_stmt(bin("==", val_num(0.0), val_num(-0.0))),
        show_stmt(bin("==", val_num(f64::NAN), val_num(f64::NAN))),
        show_stmt(bin("<", val_num(f64::NAN), val_num(1.0))),
        show_stmt(bin("==", val_str("a"), val_str("a"))),
        show_stmt(bin("==", val_str("a"), val_num(1.0))),
        show_stmt(bin("==", val_null(), val_null())),
        show_stmt(bin("==", val_bool(true), val_bool(false))),
    ]);
    assert_eq!(
        out,
        vec![
            "true", "false", "true", "true", "true", "false", "false", "true", "false", "true",
            "false"
        ]
    );
}

#[test]
fn comparing_a_string_fails_with_a_type_error() {
    let result = run_program(vec![show_stmt(bin("<", val_str("a"), val_num(1.0)))]);
    match result.error {
        Some(PumpkinError::TypeError { expected, actual, .. }) => {
            assert_eq!(expected, "number");
            assert_eq!(actual, "string");
        }
        other => panic!("expected a type error, got {:?}", other),
    }
}

#[test]
fn two_lists_are_equal_only_as_the_same_list() {
    let out = outputs(vec![
        let_stmt("a", list(vec![val_num(1.0)])),
        let_stmt("b", var("a")),
        show_stmt(bin("==", var("a"), var("b"))),
        show_stmt(bin("==", var("a"), list(vec![val_num(1.0)]))),
    ]);
    assert_eq!(out, vec!["true", "false"]);
}

#[test]
fn a_store_through_one_holder_is_seen_by_the_other() {
    let out = outputs(vec![
        let_stmt("a", list(vec![val_num(1.0), val_num(2.0)])),
        let_stmt("b", var("a")),
        assign(at(var("b"), val_num(0.0)), val_num(9.0)),
        show_stmt(var("a")),
        show_stmt(at(var("a"), val_num(1.9))),
    ]);
    assert_eq!(out, vec!["[9, 2]", "2"]);
}

#[test]
fn negative_index_is_out_of_bounds() {
    let result = run_program(vec![show_stmt(at(list(vec![val_num(1.0)]), val_num(-1.0)))]);
    assert_eq!(runtime_message(result), "Index out of bounds");
}

#[test]
fn store_beyond_the_list_is_out_of_bounds() {
    let result = run_program(vec![
        let_stmt("a", list(vec![val_num(1.0)])),
        assign(at(var("a"), val_num(1.0)), val_num(2.0)),
    ]);
    assert_eq!(runtime_message(result), "Index out of bounds");
}

#[test]
fn indexing_a_number_fails_with_a_type_error() {
    let result = run_program(vec![show_stmt(at(val_num(1.0), val_num(0.0)))]);
    match result.error {
        Some(PumpkinError::TypeError { expected, actual, .. }) => {
            assert_eq!(expected, "list");
            assert_eq!(actual, "number");
        }
        other => panic!("expected a type error, got {:?}", other),
    }
}

#[test]
fn index_must_be_a_number() {
    let result = run_program(vec![show_stmt(at(list(vec![val_num(1.0)]), val_str("0")))]);
    match result.error {
        Some(PumpkinError::TypeError { expected, actual, .. }) => {
            assert_eq!(expected, "number");
            assert_eq!(actual, "string");
        }
        other => panic!("expected a type error, got {:?}", other),
    }
}

#[test]
fn while_runs_until_the_condition_is_falsey() {
    let out = outputs(vec![
        let_stmt("i", val_num(0.0)),
        Statement::WhileStmt(WhileStmt {
            condition: bin("<", var("i"), val_num(3.0)),
            body: block(vec![
                show_stmt(var("i")),
                assign(var("i"), bin("+", var("i"), val_num(1.0))),
            ]),
            loc: None,
        }),
        show_stmt(val_str("done")),
    ]);
    assert_eq!(out, vec!["0", "1", "2", "\"done\""]);
}

#[test]
fn zero_is_truthy_and_null_is_falsey() {
    let branch = |condition: Expression| {
        Statement::IfStmt(IfStmt {
            condition,
            then_block: block(vec![show_stmt(val_str("then"))]),
            else_block: Some(block(vec![show_stmt(val_str("else"))])),
            loc: None,
        })
    };
    let out = outputs(vec![
        branch(val_num(0.0)),
        branch(val_null()),
        branch(val_bool(false)),
        branch(val_str("")),
    ]);
    assert_eq!(out, vec!["\"then\"", "\"else\"", "\"else\"", "\"then\""]);
}

#[test]
fn repeat_runs_its_body_count_times() {
    let repeat = |count: f64| {
        Statement::RepeatStmt(RepeatStmt {
            count: val_num(count),
            body: block(vec![show_stmt(val_str("x"))]),
            loc: None,
        })
    };
    assert_eq!(outputs(vec![repeat(3.0)]).len(), 3);
    assert_eq!(outputs(vec![repeat(2.9)]).len(), 2);
    assert_eq!(outputs(vec![repeat(0.0)]).len(), 0);
    assert_eq!(outputs(vec![repeat(-4.0)]).len(), 0);
    assert_eq!(outputs(vec![repeat(1.0), repeat(2.0)]).len(), 3);
}

#[test]
fn nested_repeats_count_separately() {
    let inner = Statement::RepeatStmt(RepeatStmt {
        count: val_num(2.0),
        body: block(vec![show_stmt(val_str("i"))]),
        loc: None,
    });
    let outer = Statement::RepeatStmt(RepeatStmt {
        count: val_num(3.0),
        body: block(vec![inner, show_stmt(val_str("o"))]),
        loc: None,
    });
    let out = outputs(vec![outer]);
    assert_eq!(out.len(), 9);
    assert_eq!(out[2], "\"o\"");
}

#[test]
fn repeat_count_must_be_a_number() {
    let result = run_program(vec![Statement::RepeatStmt(RepeatStmt {
        count: val_str("3"),
        body: block(vec![]),
        loc: None,
    })]);
    assert!(matches!(result.error, Some(PumpkinError::TypeError { .. })));
}

#[test]
fn function_without_return_gives_null() {
    let out = outputs(vec![
        func("f", vec![], vec![show_stmt(val_str("in"))]),
        show_stmt(call_fn("f", vec![])),
    ]);
    assert_eq!(out, vec!["\"in\"", "null"]);
}

#[test]
fn functions_call_functions() {
    let out = outputs(vec![
        func("double", vec!["n"], vec![ret(Some(bin("*", var("n"), val_num(2.0))))]),
        func(
            "quadruple",
            vec!["n"],
            vec![ret(Some(call_fn("double", vec![call_fn("double", vec![var("n")])])))],
        ),
        show_stmt(call_fn("quadruple", vec![val_num(3.0)])),
    ]);
    assert_eq!(out, vec!["12"]);
}

#[test]
fn recursion_computes_factorial() {
    let body = vec![
        Statement::IfStmt(IfStmt {
            condition: bin("<", var("n"), val_num(2.0)),
            then_block: block(vec![ret(Some(val_num(1.0)))]),
            else_block: None,
            loc: None,
        }),
        ret(Some(bin(
            "*",
            call_fn("fact", vec![bin("-", var("n"), val_num(1.0))]),
            var("n"),
        ))),
    ];
    let out = outputs(vec![
        func("fact", vec!["n"], body),
        show_stmt(call_fn("fact", vec![val_num(5.0)])),
    ]);
    assert_eq!(out, vec!["120"]);
}

#[test]
fn an_operator_finds_the_callee_below_the_result_of_a_call() {
    let result = run_program(vec![
        func("one", vec![], vec![ret(Some(val_num(1.0)))]),
        show_stmt(bin("+", val_num(1.0), call_fn("one", vec![]))),
    ]);
    match result.error {
        Some(PumpkinError::TypeError { expected, actual, .. }) => {
            assert_eq!(expected, "number or string");
            assert_eq!(actual, "function + number");
        }
        other => panic!("expected a type error, got {:?}", other),
    }
}

#[test]
fn a_later_parameter_of_the_same_name_wins() {
    let out = outputs(vec![
        func("f", vec!["a", "a"], vec![ret(Some(var("a")))]),
        show_stmt(call_fn("f", vec![val_num(1.0), val_num(2.0)])),
    ]);
    assert_eq!(out, vec!["2"]);
}

#[test]
fn unbounded_recursion_overflows_the_frames() {
    let result = run_program(vec![
        func("f", vec![], vec![ret(Some(call_fn("f", vec![])))]),
        show_stmt(call_fn("f", vec![])),
    ]);
    assert_eq!(runtime_message(result), "Stack overflow");
}

#[test]
fn call_depth_is_configurable() {
    let program = prog(vec![
        func("g", vec![], vec![ret(Some(val_num(1.0)))]),
        func("f", vec![], vec![ret(Some(call_fn("g", vec![])))]),
        show_stmt(call_fn("f", vec![])),
    ]);
    let mut env = Environment::new();
    let mut heap = Heap::new();
    let tight = InterpreterConfig { max_instructions: 1000, max_call_depth: 2 };
    let result = execute_in_env(&program, &mut env, &mut heap, tight, &Recorder::new());
    assert_eq!(runtime_message(result), "Stack overflow");
    let wide = InterpreterConfig { max_instructions: 1000, max_call_depth: 3 };
    let result = execute_in_env(&program, &mut env, &mut heap, wide, &Recorder::new());
    assert!(result.success);
    assert_eq!(result.output, vec!["1"]);
}

#[test]
fn calling_a_number_fails_with_a_type_error() {
    let result = run_program(vec![let_stmt("f", val_num(1.0)), show_stmt(call_fn("f", vec![]))]);
    match result.error {
        Some(PumpkinError::TypeError { expected, actual, .. }) => {
            assert_eq!(expected, "function");
            assert_eq!(actual, "number");
        }
        other => panic!("expected a type error, got {:?}", other),
    }
}

#[test]
fn endless_loop_exhausts_the_budget() {
    let program = prog(vec![
        show_stmt(val_str("before")),
        Statement::WhileStmt(WhileStmt {
            condition: val_bool(true),
            body: block(vec![]),
            loc: Some(SourceLocation { start: 0, end: 0, line: 7, col: 1 }),
        }),
    ]);
    let mut env = Environment::new();
    let mut heap = Heap::new();
    let config = InterpreterConfig { max_instructions: 500, max_call_depth: 64 };
    let result = execute_in_env(&program, &mut env, &mut heap, config, &Recorder::new());
    assert!(!result.success);
    assert_eq!(result.output, vec!["\"before\""]);
    match result.error {
        Some(PumpkinError::ResourceExhausted { message, location }) => {
            assert_eq!(message, "Execution exceeded instruction limit (Infinite Loop?)");
            assert_eq!(location.map(|l| l.line), Some(7));
        }
        other => panic!("expected exhaustion, got {:?}", other),
    }
}

#[test]
fn output_before_a_failure_is_kept() {
    let result = run_program(vec![
        show_stmt(val_num(1.0)),
        show_stmt(val_num(2.0)),
        show_stmt(var("missing")),
        show_stmt(val_num(3.0)),
    ]);
    assert!(!result.success);
    assert_eq!(result.output, vec!["1", "2"]);
    assert_eq!(result.return_value, None);
}

#[test]
fn runtime_error_carries_the_line_of_the_instruction() {
    let loc = Some(SourceLocation { start: 3, end: 9, line: 12, col: 4 });
    let result = run_program(vec![Statement::ShowStmt(ShowStmt {
        expression: Expression::Identifier(Identifier { name: "nope".to_string(), loc }),
        loc,
    })]);
    match result.error {
        Some(PumpkinError::UndefinedVariableError { location, .. }) => {
            assert_eq!(location, Some(SourceLocation { start: 0, end: 0, line: 12, col: 0 }));
        }
        other => panic!("expected an undefined variable, got {:?}", other),
    }
}

#[test]
fn globals_persist_between_executions() {
    let mut env = Environment::new();
    let mut heap = Heap::new();
    let host = Recorder::new();
    let config = InterpreterConfig::standard();
    let first = prog(vec![
        let_stmt("x", val_num(41.0)),
        let_stmt("l", list(vec![val_num(1.0)])),
    ]);
    assert!(execute_in_env(&first, &mut env, &mut heap, config, &host).success);
    let second = prog(vec![
        show_stmt(bin("+", var("x"), val_num(1.0))),
        show_stmt(var("l")),
    ]);
    let result = execute_in_env(&second, &mut env, &mut heap, config, &host);
    assert_eq!(result.output, vec!["42", "[1]"]);
    let fresh = execute(&second, &host);
    assert!(matches!(fresh.error, Some(PumpkinError::UndefinedVariableError { .. })));
}

#[test]
fn evaluate_shows_each_line_to_the_host() {
    let host = Recorder::new();
    let mut env = Environment::new();
    let mut heap = Heap::new();
    let program = prog(vec![show_stmt(val_num(1.0)), show_stmt(val_str("two")), ret(Some(val_num(3.0)))]);
    let value = evaluate(&program, &mut env, &mut heap, &host, InterpreterConfig::standard());
    assert_eq!(value, Ok(PumpkinValue::Number(3.0f64.to_bits())));
    assert_eq!(*host.shown.borrow(), vec!["1".to_string(), "\"two\"".to_string()]);
}

#[test]
fn evaluate_returns_the_error() {
    let host = Recorder::new();
    let mut env = Environment::new();
    let mut heap = Heap::new();
    let program = prog(vec![show_stmt(bin("/", val_num(1.0), val_num(0.0)))]);
    let value = evaluate(&program, &mut env, &mut heap, &host, InterpreterConfig::standard());
    assert!(matches!(value, Err(PumpkinError::DivisionByZeroError { .. })));
}

#[test]
fn return_at_top_level_gives_the_result() {
    let result = run_program(vec![
        ret(Some(bin("+", val_num(1.0), val_num(2.0)))),
        show_stmt(val_str("never")),
    ]);
    assert!(result.success);
    assert!(result.output.is_empty());
    assert_eq!(result.return_value, Some(PumpkinValue::Number(3.0f64.to_bits())));
}

#[test]
fn rejected_input_is_a_runtime_error_record() {
    let result = ExecutionResult::rejected("JSON Parse Error: expected value");
    assert!(!result.success);
    assert!(result.output.is_empty());
    assert_eq!(result.return_value, None);
    assert_eq!(
        result.error,
        Some(PumpkinError::RuntimeError {
            message: "JSON Parse Error: expected value".to_string(),
            location: None,
            hint: None,
        })
    );
}

#[test]
fn unsupported_forms_do_not_compile() {
    let unary = Expression::UnaryExpr(UnaryExpr {
        operator: "-".to_string(),
        argument: Box::new(val_num(1.0)),
        loc: None,
    });
    assert_eq!(
        runtime_message(run_program(vec![show_stmt(unary)])),
        "Expr not supported in compiler yet"
    );
    assert_eq!(
        runtime_message(run_program(vec![show_stmt(bin("and", val_bool(true), val_bool(false)))])),
        "Operator compiler not impl"
    );
    let bad_literal = Expression::Literal(Literal {
        value: LiteralValue::Unsupported,
        raw: "[]".to_string(),
        loc: None,
    });
    assert_eq!(runtime_message(run_program(vec![show_stmt(bad_literal)])), "Unsupported literal type");
    assert_eq!(
        runtime_message(run_program(vec![assign(val_num(1.0), val_num(2.0))])),
        "Complex assignment (only var/index) supported"
    );
    let export = Statement::ExportStmt(ExportStmt {
        declaration: Box::new(show_stmt(val_num(1.0))),
        loc: None,
    });
    assert_eq!(runtime_message(run_program(vec![export])), "Only Let and Func can be exported");
}

#[test]
fn compile_error_prints_nothing_and_carries_its_location() {
    let loc = Some(SourceLocation { start: 1, end: 2, line: 3, col: 4 });
    let bad = Expression::BinaryExpr(BinaryExpr {
        operator: "%".to_string(),
        left: Box::new(val_num(1.0)),
        right: Box::new(val_num(2.0)),
        loc,
    });
    let result = run_program(vec![show_stmt(val_num(1.0)), show_stmt(bad)]);
    assert!(!result.success);
    assert!(result.output.is_empty());
    assert_eq!(
        result.error,
        Some(PumpkinError::RuntimeError {
            message: "Operator compiler not impl".to_string(),
            location: loc,
            hint: None,
        })
    );
}

#[test]
fn more_than_256_constants_do_not_compile() {
    let literals = |count: usize| {
        let mut body = Vec::new();
        for i in 0..count {
            body.push(Statement::ExprStmt(ExprStmt { expression: val_num(i as f64), loc: None }));
        }
        body
    };
    assert!(run_program(literals(256)).success);
    assert_eq!(runtime_message(run_program(literals(257))), "Too many constants in one chunk");
}

#[test]
fn import_of_an_unknown_module_fails() {
    let result = run_program(vec![Statement::ImportStmt(ImportStmt {
        module: "lib/math".to_string(),
        loc: None,
    })]);
    assert_eq!(runtime_message(result), "Module 'lib/math' not found");
}

#[test]
fn export_of_a_declaration_compiles_and_runs() {
    let result = run_program(vec![
        Statement::ExportStmt(ExportStmt {
            declaration: Box::new(let_stmt("answer", val_num(42.0))),
            loc: None,
        }),
        show_stmt(var("answer")),
    ]);
    assert!(result.success, "{:?}", result.error);
    assert_eq!(result.output, vec!["42"]);
}

#[test]
fn function_value_shows_its_name() {
    let out = outputs(vec![func("greet", vec![], vec![]), show_stmt(var("greet"))]);
    assert_eq!(out, vec!["<function greet>"]);
}

#[test]
fn nested_lists_show_their_items() {
    let out = outputs(vec![show_stmt(list(vec![
        list(vec![val_num(1.0), val_num(2.0)]),
        list(vec![]),
        val_str("s"),
    ]))]);
    assert_eq!(out, vec!["[[1, 2], [], \"s\"]"]);
}

#[test]
fn a_list_that_holds_itself_is_shown_to_a_bounded_depth() {
    let result = run_program(vec![
        let_stmt("a", list(vec![val_num(1.0)])),
        assign(at(var("a"), val_num(0.0)), var("a")),
        show_stmt(var("a")),
    ]);
    assert!(result.success);
    let text = &result.output[0];
    assert!(text.starts_with("[[[["));
    assert!(text.contains("[...]"));
    assert_eq!(text.matches('[').count(), 33);
}
