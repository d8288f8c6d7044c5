use pumpkin_core::ast::{
    BinaryExpr, Block, CallExpr, ExprStmt, Expression, FuncDecl, Identifier, IfStmt, LetStmt,
    Literal, LiteralValue, Program, ReturnStmt, ShowStmt, Statement, WhileStmt,
};
use pumpkin_core::chunk::{Chunk, OpCode};
use pumpkin_core::compiler::Compiler;
use pumpkin_core::debugger::{DebugSession, StopReason};
use pumpkin_core::env::Environment;
use pumpkin_core::errors::PumpkinError;
use pumpkin_core::heap::{Heap, ObjectField};
use pumpkin_core::host::{Arithmetic, Host, InterpreterConfig, NumberAnswers, NumberRequest};
use pumpkin_core::value::{PumpkinFunction, PumpkinValue};
use pumpkin_core::vm::{StepResult, VM};
use std::rc::Rc;

struct Floats;

impl Host for Floats {
    fn show(&self, _msg: &str) {}

    fn add(&self, a: u64, b: u64) -> u64 {
        (f64::from_bits(a) + f64::from_bits(b)).to_bits()
    }

    fn subtract(&self, a: u64, b: u64) -> u64 {
        (f64::from_bits(a) - f64::from_bits(b)).to_bits()
    }

    fn multiply(&self, a: u64, b: u64) -> u64 {
        (f64::from_bits(a) * f64::from_bits(b)).to_bits()
    }

    fn divide(&self, a: u64, b: u64) -> u64 {
        (f64::from_bits(a) / f64::from_bits(b)).to_bits()
    }

    fn format_number(&self, bits: u64) -> String {
        format!("{}", f64::from_bits(bits))
    }
}

fn number(n: f64) -> PumpkinValue {
    PumpkinValue::Number(n.to_bits())
}

fn string(s: &str) -> PumpkinValue {
    PumpkinValue::String(s.to_string())
}

fn chunk_of(code: Vec<u8>, constants: Vec<PumpkinValue>) -> Chunk {
    let lines = code.iter().enumerate().map(|(i, _)| i + 1).collect();
    Chunk { code, constants, lines }
}

fn machine(code: Vec<u8>, constants: Vec<PumpkinValue>) -> VM {
    VM::new(chunk_of(code, constants), Environment::new())
}

fn message_of(r: Result<PumpkinValue, PumpkinError>) -> String {
    match r {
        Err(PumpkinError::RuntimeError { message, .. }) => message,
        other => panic!("expected a runtime error, got {:?}", other),
    }
}

fn lit(n: f64) -> Expression {
    Expression::Literal(Literal {
        value: LiteralValue::Number(n.to_bits()),
        raw: n.to_string(),
        loc: None,
    })
}

fn truth(b: bool) -> Expression {
    Expression::Literal(Literal { value: LiteralValue::Boolean(b), raw: b.to_string(), loc: None })
}

fn named(n: &str) -> Identifier {
    Identifier { name: n.to_string(), loc: None }
}

fn script(body: Vec<Statement>) -> Program {
    Program { kind: "Program".to_string(), body, loc: None }
}

fn compiled(body: Vec<Statement>) -> Chunk {
    Compiler::new().compile(&script(body)).expect("the program compiles")
}

const RETURN: u8 = 0x00;
const CONSTANT: u8 = 0x01;
const POP: u8 = 0x02;
const NIL: u8 = 0x03;
const TRUE: u8 = 0x04;
const FALSE: u8 = 0x05;
const PRINT: u8 = 0x06;
const GET_LOCAL: u8 = 0x10;
const SET_LOCAL: u8 = 0x11;
const GET_GLOBAL: u8 = 0x12;
const SET_GLOBAL: u8 = 0x13;
const ADD: u8 = 0x30;
const NOT: u8 = 0x37;
const JUMP: u8 = 0x50;
const JUMP_IF_FALSE: u8 = 0x51;
const LOOP: u8 = 0x52;
const CALL: u8 = 0x53;
const ARRAY_LIT: u8 = 0x70;
const INDEX_GET: u8 = 0x71;
const GET_PROP: u8 = 0x73;
const IMPORT: u8 = 0x74;
const EXPORT: u8 = 0x75;

#[test]
fn opcode_bytes_are_fixed() {
    let table = [
        (OpCode::Return, 0x00u8),
        (OpCode::Constant, 0x01),
        (OpCode::Pop, 0x02),
        (OpCode::Nil, 0x03),
        (OpCode::True, 0x04),
        (OpCode::False, 0x05),
        (OpCode::Print, 0x06),
        (OpCode::GetLocal, 0x10),
        (OpCode::SetLocal, 0x11),
        (OpCode::GetGlobal, 0x12),
        (OpCode::SetGlobal, 0x13),
        (OpCode::Add, 0x30),
        (OpCode::Sub, 0x31),
        (OpCode::Mul, 0x32),
        (OpCode::Div, 0x33),
        (OpCode::Equal, 0x34),
        (OpCode::Greater, 0x35),
        (OpCode::Less, 0x36),
        (OpCode::Not, 0x37),
        (OpCode::Jump, 0x50),
        (OpCode::JumpIfFalse, 0x51),
        (OpCode::Loop, 0x52),
        (OpCode::Call, 0x53),
        (OpCode::RepeatStart, 0x54),
        (OpCode::RepeatEnd, 0x55),
        (OpCode::ArrayLit, 0x70),
        (OpCode::IndexGet, 0x71),
        (OpCode::IndexSet, 0x72),
        (OpCode::GetProp, 0x73),
        (OpCode::Import, 0x74),
        (OpCode::Export, 0x75),
    ];
    for (op, byte) in table {
        assert_eq!(op.to_byte(), byte);
        assert_eq!(OpCode::from_byte(byte), Some(op));
    }
    let known: Vec<u8> = table.iter().map(|(_, b)| *b).collect();
    for byte in 0..=255u8 {
        if !known.contains(&byte) {
            assert_eq!(OpCode::from_byte(byte), None);
        }
    }
}

#[test]
fn operand_widths_are_fixed() {
    assert_eq!(OpCode::Add.operand_bytes(), 0);
    assert_eq!(OpCode::Return.operand_bytes(), 0);
    assert_eq!(OpCode::Constant.operand_bytes(), 1);
    assert_eq!(OpCode::GetLocal.operand_bytes(), 1);
    assert_eq!(OpCode::Call.operand_bytes(), 1);
    assert_eq!(OpCode::Jump.operand_bytes(), 2);
    assert_eq!(OpCode::Loop.operand_bytes(), 2);
    assert_eq!(OpCode::ArrayLit.operand_bytes(), 2);
    assert_eq!(OpCode::RepeatStart.operand_bytes(), 2);
}

#[test]
fn chunk_keeps_a_line_for_every_byte() {
    let mut chunk = Chunk::new();
    chunk.write_op(OpCode::Constant, 3);
    chunk.write(0, 3);
    chunk.write_op(OpCode::Return, 4);
    assert_eq!(chunk.add_constant(number(1.0)), 0);
    assert_eq!(chunk.add_constant(number(1.0)), 1);
    assert_eq!(chunk.code, vec![0x01, 0x00, 0x00]);
    assert_eq!(chunk.lines, vec![3, 3, 4]);
    assert_eq!(chunk.constants.len(), 2);
}

#[test]
fn disassembly_lists_one_instruction_per_line() {
    let chunk = chunk_of(
        vec![CONSTANT, 7, JUMP_IF_FALSE, 0x01, 0x02, ADD, 0xee, CALL],
        vec![],
    );
    assert_eq!(
        chunk.disassemble(),
        "== Chunk ==\n0000 Constant 7\n0002 JumpIfFalse 258\n0005 Add\n0006 Unknown 238\n0007 Call 0\n"
    );
    assert_eq!(Chunk::new().disassemble(), "== Chunk ==\n");
}

#[test]
fn unknown_byte_is_a_decode_failure() {
    let mut vm = machine(vec![0xee], vec![]);
    match vm.run(&Floats) {
        Err(PumpkinError::RuntimeError { message, location, .. }) => {
            assert_eq!(message, "Unknown opcode 238");
            assert_eq!(location.map(|l| l.line), Some(1));
        }
        other => panic!("expected a runtime error, got {:?}", other),
    }
}

#[test]
fn end_of_code_returns_the_top_of_the_stack() {
    let mut vm = machine(vec![TRUE], vec![]);
    assert_eq!(vm.run(&Floats), Ok(PumpkinValue::Boolean(true)));
    let mut empty = machine(vec![], vec![]);
    assert_eq!(empty.run(&Floats), Ok(PumpkinValue::Null));
    assert_eq!(empty.step(&Floats), Ok(StepResult::Done));
    assert_eq!(empty.run(&Floats), Ok(PumpkinValue::Null));
}

#[test]
fn popping_an_empty_stack_is_an_error() {
    assert_eq!(message_of(machine(vec![POP], vec![]).run(&Floats)), "Stack underflow");
    assert_eq!(message_of(machine(vec![PRINT], vec![]).run(&Floats)), "Stack underflow");
    assert_eq!(message_of(machine(vec![NIL, ADD], vec![]).run(&Floats)), "Stack underflow");
    assert_eq!(message_of(machine(vec![NOT], vec![]).run(&Floats)), "Stack underflow");
    assert_eq!(
        message_of(machine(vec![JUMP_IF_FALSE, 0, 0], vec![]).run(&Floats)),
        "Stack underflow JumpIfFalse"
    );
    assert_eq!(
        message_of(machine(vec![ARRAY_LIT, 0, 1], vec![]).run(&Floats)),
        "Stack underflow ArrayLit"
    );
    assert_eq!(
        message_of(machine(vec![CALL, 0], vec![]).run(&Floats)),
        "Stack underflow calling function"
    );
    assert_eq!(
        message_of(machine(vec![SET_GLOBAL, 0], vec![string("x")]).run(&Floats)),
        "Stack underflow on SetGlobal"
    );
}

#[test]
fn constant_index_is_checked() {
    assert_eq!(
        message_of(machine(vec![CONSTANT, 0], vec![]).run(&Floats)),
        "Constant index out of bounds"
    );
    assert_eq!(
        message_of(machine(vec![GET_GLOBAL, 3], vec![string("x")]).run(&Floats)),
        "Constant index out of bounds"
    );
    assert_eq!(
        message_of(machine(vec![GET_GLOBAL, 0], vec![number(1.0)]).run(&Floats)),
        "Corrupt bytecode: Global name not string"
    );
}

#[test]
fn local_slots_are_checked() {
    assert_eq!(
        message_of(machine(vec![GET_LOCAL, 0], vec![]).run(&Floats)),
        "Local variable slot OOB"
    );
    assert_eq!(
        message_of(machine(vec![TRUE, SET_LOCAL, 1], vec![]).run(&Floats)),
        "Local variable slot OOB (Set)"
    );
    assert_eq!(
        message_of(machine(vec![SET_LOCAL, 0], vec![]).run(&Floats)),
        "Stack underflow SetLocal"
    );
    let mut vm = machine(vec![FALSE, TRUE, SET_LOCAL, 0, POP, GET_LOCAL, 0], vec![]);
    assert_eq!(vm.run(&Floats), Ok(PumpkinValue::Boolean(true)));
}

#[test]
fn not_negates_truthiness() {
    assert_eq!(machine(vec![NIL, NOT], vec![]).run(&Floats), Ok(PumpkinValue::Boolean(true)));
    assert_eq!(
        machine(vec![CONSTANT, 0, NOT], vec![number(0.0)]).run(&Floats),
        Ok(PumpkinValue::Boolean(false))
    );
}

#[test]
fn jumps_move_the_pointer_by_their_operand() {
    let mut vm = machine(vec![JUMP, 0, 2, NIL, NIL, TRUE], vec![]);
    assert_eq!(vm.step(&Floats), Ok(StepResult::Continue));
    assert_eq!(vm.ip(), 5);
    assert_eq!(vm.stack_depth(), 0);
    let mut taken = machine(vec![FALSE, JUMP_IF_FALSE, 0, 1, NIL, TRUE], vec![]);
    taken.step(&Floats).unwrap();
    taken.step(&Floats).unwrap();
    assert_eq!(taken.ip(), 5);
    assert_eq!(taken.stack_depth(), 1);
    let mut skipped = machine(vec![TRUE, JUMP_IF_FALSE, 0, 1, NIL, TRUE], vec![]);
    skipped.step(&Floats).unwrap();
    skipped.step(&Floats).unwrap();
    assert_eq!(skipped.ip(), 4);
    let mut back = machine(vec![NIL, POP, LOOP, 0, 5], vec![]);
    back.step(&Floats).unwrap();
    back.step(&Floats).unwrap();
    back.step(&Floats).unwrap();
    assert_eq!(back.ip(), 0);
    assert_eq!(message_of(machine(vec![LOOP, 0, 4], vec![]).run(&Floats)), "Jump out of range");
}

#[test]
fn patched_forward_jumps_land_on_their_targets() {
    let chunk = compiled(vec![Statement::IfStmt(IfStmt {
        condition: truth(false),
        then_block: Block {
            body: vec![Statement::ShowStmt(ShowStmt { expression: lit(1.0), loc: None })],
            loc: None,
        },
        else_block: Some(Block {
            body: vec![Statement::ShowStmt(ShowStmt { expression: lit(2.0), loc: None })],
            loc: None,
        }),
        loc: None,
    })]);
    assert_eq!(
        chunk.code,
        vec![
            FALSE, JUMP_IF_FALSE, 0, 7, POP, CONSTANT, 0, PRINT, JUMP, 0, 4, POP, CONSTANT, 1,
            PRINT, RETURN
        ]
    );
    let test = 1;
    let skip = 8;
    let after_test = test + 3 + ((chunk.code[test + 1] as usize) << 8 | chunk.code[test + 2] as usize);
    assert_eq!(after_test, 11);
    assert_eq!(chunk.code[after_test], POP);
    let after_skip = skip + 3 + ((chunk.code[skip + 1] as usize) << 8 | chunk.code[skip + 2] as usize);
    assert_eq!(after_skip, 15);
    let mut vm = VM::new(chunk, Environment::new());
    vm.step(&Floats).unwrap();
    vm.step(&Floats).unwrap();
    assert_eq!(vm.ip(), 11);
    assert_eq!(vm.run(&Floats), Ok(PumpkinValue::Null));
    assert_eq!(vm.get_output(), vec!["2"]);
}

#[test]
fn loop_jumps_back_to_the_start_of_the_condition() {
    let chunk = compiled(vec![
        Statement::LetStmt(LetStmt { name: named("go"), value: truth(true), loc: None }),
        Statement::WhileStmt(WhileStmt {
            condition: Expression::Identifier(named("go")),
            body: Block {
                body: vec![Statement::LetStmt(LetStmt {
                    name: named("go"),
                    value: truth(false),
                    loc: None,
                })],
                loc: None,
            },
            loc: None,
        }),
    ]);
    assert_eq!(
        chunk.code,
        vec![
            TRUE, SET_GLOBAL, 0, POP, GET_GLOBAL, 1, JUMP_IF_FALSE, 0, 8, POP, FALSE, SET_GLOBAL,
            2, POP, LOOP, 0, 13, POP, RETURN
        ]
    );
    let start = 4;
    let back = 14;
    let distance = (chunk.code[back + 1] as usize) << 8 | chunk.code[back + 2] as usize;
    assert_eq!(back + 3 - distance, start);
    let mut vm = VM::new(chunk, Environment::new());
    let mut seen_start_again = false;
    let mut depth_at_start = None;
    loop {
        if vm.ip() == start {
            match depth_at_start {
                None => depth_at_start = Some(vm.stack_depth()),
                Some(depth) => {
                    seen_start_again = true;
                    assert_eq!(vm.stack_depth(), depth);
                }
            }
        }
        if vm.ip() == 18 {
            assert_eq!(Some(vm.stack_depth()), depth_at_start);
        }
        match vm.step(&Floats).unwrap() {
            StepResult::Continue => {}
            _ => break,
        }
    }
    assert!(seen_start_again);
}

#[test]
fn conditional_leaves_the_stack_as_deep_as_before() {
    for condition in [true, false] {
        let chunk = compiled(vec![
            Statement::ExprStmt(ExprStmt { expression: lit(0.0), loc: None }),
            Statement::IfStmt(IfStmt {
                condition: truth(condition),
                then_block: Block {
                    body: vec![Statement::ShowStmt(ShowStmt { expression: lit(1.0), loc: None })],
                    loc: None,
                },
                else_block: None,
                loc: None,
            }),
        ]);
        let end = chunk.code.len() - 1;
        let mut vm = VM::new(chunk, Environment::new());
        vm.step(&Floats).unwrap();
        vm.step(&Floats).unwrap();
        let before = vm.stack_depth();
        assert_eq!(vm.ip(), 3);
        while vm.ip() != end {
            assert_eq!(vm.step(&Floats), Ok(StepResult::Continue));
        }
        assert_eq!(vm.stack_depth(), before);
    }
}

#[test]
fn call_statement_leaves_the_callee_on_the_stack() {
    let f = Statement::FuncDecl(FuncDecl {
        name: named("f"),
        params: vec![named("a")],
        body: Block { body: vec![], loc: None },
        loc: None,
    });
    let call = Statement::ExprStmt(ExprStmt {
        expression: Expression::CallExpr(CallExpr {
            callee: Box::new(Expression::Identifier(named("f"))),
            arguments: vec![lit(1.0)],
            loc: None,
        }),
        loc: None,
    });
    let chunk = compiled(vec![f, call]);
    let end = chunk.code.len() - 1;
    let mut vm = VM::new(chunk, Environment::new());
    while !(vm.ip() == end && vm.depth() == 1) {
        assert_eq!(vm.step(&Floats), Ok(StepResult::Continue));
    }
    assert_eq!(vm.stack_depth(), 1);
    assert!(matches!(vm.run(&Floats), Ok(PumpkinValue::Function(_))));
}

#[test]
fn calling_gives_what_the_body_gives() {
    let declare = Statement::FuncDecl(FuncDecl {
        name: named("f"),
        params: vec![named("a"), named("b")],
        body: Block {
            body: vec![Statement::ReturnStmt(ReturnStmt {
                argument: Some(Expression::BinaryExpr(BinaryExpr {
                    operator: "+".to_string(),
                    left: Box::new(Expression::Identifier(named("a"))),
                    right: Box::new(Expression::Identifier(named("b"))),
                    loc: None,
                })),
                loc: None,
            })],
            loc: None,
        },
        loc: None,
    });
    let call = Statement::ReturnStmt(ReturnStmt {
        argument: Some(Expression::CallExpr(CallExpr {
            callee: Box::new(Expression::Identifier(named("f"))),
            arguments: vec![lit(2.0), lit(3.0)],
            loc: None,
        })),
        loc: None,
    });
    let chunk = compiled(vec![declare, call]);
    let function = match &chunk.constants[0] {
        PumpkinValue::Function(f) => f.clone(),
        other => panic!("expected the function, got {:?}", other),
    };
    assert_eq!(function.arity, 2);
    assert_eq!(function.name, "f");
    assert_eq!(
        function.chunk.code,
        vec![GET_LOCAL, 0, GET_LOCAL, 1, ADD, RETURN, NIL, RETURN]
    );
    let called = VM::new(chunk, Environment::new()).run(&Floats);
    let mut body = vec![CONSTANT, 0, CONSTANT, 1];
    body.extend(function.chunk.code.iter());
    let direct = machine(body, vec![number(2.0), number(3.0)]).run(&Floats);
    assert_eq!(called, Ok(number(5.0)));
    assert_eq!(called, direct);
}

#[test]
fn wrong_arity_names_both_counts() {
    let function = PumpkinValue::Function(Rc::new(PumpkinFunction {
        arity: 3,
        chunk: Chunk::new(),
        name: "f".to_string(),
    }));
    let mut vm = machine(vec![CONSTANT, 0, NIL, CALL, 1], vec![function]);
    assert_eq!(message_of(vm.run(&Floats)), "Expected 3 args, got 1");
}

#[test]
fn a_shared_function_is_the_same_function() {
    let function = PumpkinValue::Function(Rc::new(PumpkinFunction {
        arity: 1,
        chunk: chunk_of(vec![NIL, RETURN], vec![string("k")]),
        name: "f".to_string(),
    }));
    let copy = function.clone();
    assert_eq!(copy, function);
    match (&function, &copy) {
        (PumpkinValue::Function(a), PumpkinValue::Function(b)) => assert!(Rc::ptr_eq(a, b)),
        _ => panic!("expected functions"),
    }
    assert!(function.equals(&copy));
    assert!(function.identical(&copy));
    let other = PumpkinValue::Function(Rc::new(PumpkinFunction {
        arity: 1,
        chunk: chunk_of(vec![NIL, RETURN], vec![string("j")]),
        name: "f".to_string(),
    }));
    assert!(!function.equals(&other));
}

#[test]
fn array_literal_keeps_the_order_of_its_items() {
    let mut vm = machine(
        vec![CONSTANT, 0, CONSTANT, 1, TRUE, ARRAY_LIT, 0, 3, PRINT],
        vec![number(1.0), string("b")],
    );
    vm.run(&Floats).unwrap();
    assert_eq!(vm.get_output(), vec!["[1, \"b\", true]"]);
}

#[test]
fn index_get_truncates_the_index() {
    let mut vm = machine(
        vec![CONSTANT, 0, CONSTANT, 1, ARRAY_LIT, 0, 2, CONSTANT, 2, INDEX_GET],
        vec![number(10.0), number(20.0), number(1.99)],
    );
    assert_eq!(vm.run(&Floats), Ok(number(20.0)));
}

#[test]
fn modules_and_exports() {
    let mut heap = Heap::new();
    let module = heap.alloc_object(vec![
        ObjectField { name: "pi".to_string(), value: number(3.5) },
        ObjectField { name: "name".to_string(), value: string("math") },
    ]);
    let code = vec![IMPORT, 0, GET_PROP, 1, EXPORT, 2];
    let constants = vec![string("math"), string("pi"), string("half_seven")];
    let mut vm = VM::new(chunk_of(code, constants), Environment::new()).with_heap(heap);
    vm.register_module("math", module);
    assert_eq!(vm.run(&Floats), Ok(PumpkinValue::Null));
    assert_eq!(vm.export("half_seven"), Some(number(3.5)));
    assert_eq!(vm.export("other"), None);
}

#[test]
fn missing_property_is_an_error() {
    let mut heap = Heap::new();
    let object = heap.alloc_object(vec![ObjectField { name: "a".to_string(), value: number(1.0) }]);
    let mut vm = VM::new(
        chunk_of(vec![IMPORT, 0, GET_PROP, 1], vec![string("m"), string("b")]),
        Environment::new(),
    )
    .with_heap(heap);
    vm.register_module("m", object);
    assert_eq!(message_of(vm.run(&Floats)), "Property 'b' not found");
    let mut on_number = machine(vec![CONSTANT, 0, GET_PROP, 1], vec![number(1.0), string("b")]);
    assert!(matches!(on_number.run(&Floats), Err(PumpkinError::TypeError { .. })));
}

#[test]
fn objects_show_their_fields_in_order() {
    let mut heap = Heap::new();
    let object = heap.alloc_object(vec![
        ObjectField { name: "b".to_string(), value: number(2.0) },
        ObjectField { name: "a".to_string(), value: string("x") },
    ]);
    assert_eq!(object.display(&heap, &Floats), "{b: 2, a: \"x\"}");
    assert_eq!(PumpkinValue::Object(9).display(&heap, &Floats), "{...}");
    assert_eq!(PumpkinValue::List(9).display(&heap, &Floats), "[...]");
}

#[test]
fn requests_name_what_the_host_must_compute() {
    let add = machine(vec![CONSTANT, 0, CONSTANT, 1, ADD], vec![number(1.0), number(2.0)]);
    assert_eq!(add.request(), NumberRequest::Nothing);
    let mut add = add;
    add.step(&Floats).unwrap();
    add.step(&Floats).unwrap();
    assert_eq!(
        add.request(),
        NumberRequest::Arithmetic {
            op: Arithmetic::Add,
            left: 1.0f64.to_bits(),
            right: 2.0f64.to_bits()
        }
    );
    let answers = NumberAnswers { number: 42.0f64.to_bits(), texts: vec![] };
    assert_eq!(add.step_with(&answers), Ok(StepResult::Continue));
    assert_eq!(add.run(&Floats), Ok(number(42.0)));
    let mut print = machine(
        vec![CONSTANT, 0, CONSTANT, 1, ARRAY_LIT, 0, 2, PRINT],
        vec![number(1.0), number(2.0)],
    );
    for _ in 0..3 {
        print.step(&Floats).unwrap();
    }
    assert_eq!(
        print.request(),
        NumberRequest::Format { numbers: vec![1.0f64.to_bits(), 2.0f64.to_bits()] }
    );
    let texts = NumberAnswers { number: 0, texts: vec!["one".to_string()] };
    print.step_with(&texts).unwrap();
    assert_eq!(print.get_output(), vec!["[one, ]"]);
}

#[test]
fn budget_counts_instructions() {
    let config = InterpreterConfig { max_instructions: 3, max_call_depth: 64 };
    let mut vm = machine(vec![NIL, POP, NIL, POP], vec![]).with_config(config);
    assert_eq!(vm.step(&Floats), Ok(StepResult::Continue));
    assert_eq!(vm.step(&Floats), Ok(StepResult::Continue));
    assert_eq!(vm.step(&Floats), Ok(StepResult::Continue));
    assert!(matches!(vm.step(&Floats), Err(PumpkinError::ResourceExhausted { .. })));
    assert_eq!(vm.ip(), 3);
}

#[test]
fn tracing_is_a_flag_for_the_embedder() {
    let vm = machine(vec![NIL], vec![]);
    assert!(!vm.is_tracing());
    let mut traced = vm.with_tracing(true);
    assert!(traced.is_tracing());
    assert_eq!(traced.run(&Floats), Ok(PumpkinValue::Null));
}

#[test]
fn stack_names_show_every_value() {
    let mut vm = machine(vec![CONSTANT, 0, CONSTANT, 1, NIL], vec![number(1.5), string("s")]);
    for _ in 0..3 {
        vm.step(&Floats).unwrap();
    }
    assert_eq!(vm.get_stack_names(&Floats), vec!["1.5", "\"s\"", "null"]);
    assert_eq!(vm.chunk().code.len(), 5);
    assert_eq!(vm.current_line(), None);
    let (globals, heap) = vm.into_parts();
    assert_eq!(globals, Environment::new());
    assert_eq!(heap, Heap::new());
}

#[test]
fn debugger_stops_before_a_line_with_a_breakpoint() {
    let chunk = Chunk {
        code: vec![NIL, POP, TRUE, PRINT, FALSE, PRINT],
        constants: vec![],
        lines: vec![1, 1, 2, 2, 3, 3],
    };
    let mut session = DebugSession::new(VM::new(chunk, Environment::new()));
    assert!(session.paused);
    session.set_breakpoint(3);
    session.set_breakpoint(9);
    session.remove_breakpoint(9);
    assert_eq!(session.resume(&Floats), Ok(StopReason::Breakpoint(3)));
    assert!(session.paused);
    let state = session.get_state(&Floats);
    assert_eq!(state.ip, 4);
    assert_eq!(state.line, 3);
    assert!(state.stack.is_empty());
    assert!(!state.is_running);
    assert_eq!(session.vm.get_output(), vec!["true"]);
    assert_eq!(session.resume(&Floats), Ok(StopReason::Breakpoint(3)));
    assert_eq!(session.step(&Floats), Ok(StopReason::Step));
    let state = session.get_state(&Floats);
    assert_eq!(state.ip, 5);
    assert_eq!(state.stack, vec!["false"]);
    session.remove_breakpoint(3);
    assert_eq!(session.resume(&Floats), Ok(StopReason::Halted));
    assert_eq!(session.vm.get_output(), vec!["true", "false"]);
    assert_eq!(session.step(&Floats), Ok(StopReason::Halted));
    assert_eq!(session.get_state(&Floats).line, 0);
}

#[test]
fn debugger_reports_errors_as_text() {
    let mut session = DebugSession::new(machine(vec![NIL, CONSTANT, 0, ADD], vec![number(1.0)]));
    assert_eq!(
        session.resume(&Floats),
        Ok(StopReason::Error("Expected number or string, but got null + number".to_string()))
    );
    let mut session = DebugSession::new(machine(vec![GET_GLOBAL, 0], vec![string("x")]));
    assert_eq!(
        session.step(&Floats),
        Ok(StopReason::Error("Undefined variable 'x'".to_string()))
    );
}
