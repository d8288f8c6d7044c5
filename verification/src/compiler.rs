//! The compiler: lowers a syntax tree to one chunk per function.
//!
//! [`lower_program`] and the functions below it say, as mathematics, which
//! chunk a tree lowers to. [`Compiler::compile`] is proved to build exactly
//! that chunk, or to fail with exactly that error.

use vstd::prelude::*;
use std::rc::Rc;
use crate::ast::{
    AssignStmt, Block, ExportStmt, ExprStmt, Expression, FuncDecl, Identifier, IfStmt, ImportStmt,
    LetStmt, LiteralValue, Program, RepeatStmt, ReturnStmt, ShowStmt, SourceLocation, Statement,
    WhileStmt, line_of, line_or_zero,
};
use crate::chunk::{Chunk, OpCode, high_byte, low_byte};
use crate::errors::{ErrorModel, PumpkinError};
use crate::text::{last_segment, last_segment_text, reads_as};
use crate::value::{
    ChunkModel, FunctionModel, PumpkinFunction, PumpkinValue, ValueModel, chunk_model_constants,
};

verus! {

/// The chunk that lowering arrives at, or the error that ends it.
pub type Lowered = Result<ChunkModel, ErrorModel>;

/// The largest operand that one byte holds.
pub const MAX_BYTE_OPERAND: usize = 255;

/// The largest operand that two bytes hold.
pub const MAX_WIDE_OPERAND: usize = 0xffff;

/// The slots of the parameters: parameter `i` has slot `i`, and of two
/// parameters with one name the later one is meant.
pub open spec fn parameter_slots(params: Seq<Identifier>) -> Map<Seq<char>, usize>
    decreases params.len(),
{
    if params.len() == 0 {
        Map::empty()
    } else {
        parameter_slots(params.drop_last()).insert(
            params.last().name@,
            (params.len() - 1) as usize,
        )
    }
}

/// The chunk with `v` as a new constant and the instruction `op` that refers
/// to it. A chunk holds at most 256 constants: the index is one byte.
pub open spec fn emit_with_constant(
    c: ChunkModel,
    op: OpCode,
    v: ValueModel,
    line: usize,
    loc: Option<SourceLocation>,
) -> Lowered {
    if c.constants.len() > MAX_BYTE_OPERAND {
        Err(ErrorModel::runtime("Too many constants in one chunk"@, loc))
    } else {
        Ok(c.add_constant(v).write_op(op, line).write(c.constants.len() as u8, line))
    }
}

/// The chunk with an instruction that takes a two-byte operand.
pub open spec fn emit_wide(c: ChunkModel, op: OpCode, operand: nat, line: usize) -> ChunkModel {
    c.write_op(op, line).write(high_byte(operand), line).write(low_byte(operand), line)
}

/// The chunk with a forward jump whose distance is not known yet: both
/// operand bytes are 0xff. The operand starts at `c.code.len() + 1`.
pub open spec fn emit_jump(c: ChunkModel, op: OpCode, line: usize) -> ChunkModel {
    c.write_op(op, line).write(0xff, line).write(0xff, line)
}

/// The chunk with the operand at `at` set to the distance from behind the
/// operand to the end of the code.
pub open spec fn patch_jump(c: ChunkModel, at: int) -> Lowered {
    let distance = c.code.len() - at - 2;
    if distance > MAX_WIDE_OPERAND {
        Err(ErrorModel::runtime("Too much code to jump over"@, None))
    } else {
        Ok(
            ChunkModel {
                code: c.code.update(at, high_byte(distance as nat)).update(
                    at + 1,
                    low_byte(distance as nat),
                ),
                ..c
            },
        )
    }
}

/// The chunk with a backward jump to `start`: its operand is the distance
/// from behind the operand back to `start`.
pub open spec fn emit_loop(c: ChunkModel, op: OpCode, start: int, line: usize) -> Lowered {
    let distance = c.code.len() + 3 - start;
    if distance > MAX_WIDE_OPERAND {
        Err(ErrorModel::runtime("Loop body too large"@, None))
    } else {
        Ok(emit_wide(c, op, distance as nat, line))
    }
}

/// The instruction of a binary operator.
pub open spec fn binary_opcode(operator: Seq<char>) -> Option<OpCode> {
    if operator == "+"@ {
        Some(OpCode::Add)
    } else if operator == "-"@ {
        Some(OpCode::Sub)
    } else if operator == "*"@ {
        Some(OpCode::Mul)
    } else if operator == "/"@ {
        Some(OpCode::Div)
    } else if operator == "=="@ {
        Some(OpCode::Equal)
    } else if operator == ">"@ {
        Some(OpCode::Greater)
    } else if operator == "<"@ {
        Some(OpCode::Less)
    } else {
        None
    }
}

/// The code that leaves the value of `e` on the stack.
///
/// A name is a local where it is a parameter of the function being
/// compiled, and a global else. Operands are lowered left to right, then
/// the instruction that consumes them.
pub open spec fn lower_expr(e: Expression, locals: Map<Seq<char>, usize>, c: ChunkModel) -> Lowered
    decreases e,
{
    match e {
        Expression::ArrayLiteral(a) => {
            let line = line_or_zero(a.loc) as usize;
            match lower_exprs(a.elements@, locals, c) {
                Ok(c1) => if a.elements@.len() > MAX_WIDE_OPERAND {
                    Err(ErrorModel::runtime("Array literal too large"@, a.loc))
                } else {
                    Ok(emit_wide(c1, OpCode::ArrayLit, a.elements@.len(), line))
                },
                Err(err) => Err(err),
            }
        },
        Expression::IndexExpr(i) => {
            let line = line_or_zero(i.loc) as usize;
            match lower_expr(*i.object, locals, c) {
                Ok(c1) => match lower_expr(*i.index, locals, c1) {
                    Ok(c2) => Ok(c2.write_op(OpCode::IndexGet, line)),
                    Err(err) => Err(err),
                },
                Err(err) => Err(err),
            }
        },
        Expression::CallExpr(call) => {
            let line = line_or_zero(call.loc) as usize;
            match lower_expr(*call.callee, locals, c) {
                Ok(c1) => match lower_exprs(call.arguments@, locals, c1) {
                    Ok(c2) => if call.arguments@.len() > MAX_BYTE_OPERAND {
                        Err(ErrorModel::runtime("Too many arguments in a call"@, call.loc))
                    } else {
                        Ok(
                            c2.write_op(OpCode::Call, line).write(
                                call.arguments@.len() as u8,
                                line,
                            ),
                        )
                    },
                    Err(err) => Err(err),
                },
                Err(err) => Err(err),
            }
        },
        Expression::Identifier(id) => {
            let line = line_or_zero(id.loc) as usize;
            if locals.contains_key(id.name@) {
                if locals[id.name@] > MAX_BYTE_OPERAND {
                    Err(ErrorModel::runtime("Too many parameters"@, id.loc))
                } else {
                    Ok(c.write_op(OpCode::GetLocal, line).write(locals[id.name@] as u8, line))
                }
            } else {
                emit_with_constant(c, OpCode::GetGlobal, ValueModel::Str(id.name@), line, id.loc)
            }
        },
        Expression::Literal(l) => {
            let line = line_or_zero(l.loc) as usize;
            match l.value {
                LiteralValue::Number(bits) => emit_with_constant(
                    c,
                    OpCode::Constant,
                    ValueModel::Number(bits),
                    line,
                    l.loc,
                ),
                LiteralValue::Boolean(b) => Ok(
                    c.write_op(
                        if b {
                            OpCode::True
                        } else {
                            OpCode::False
                        },
                        line,
                    ),
                ),
                LiteralValue::String(s) => emit_with_constant(
                    c,
                    OpCode::Constant,
                    ValueModel::Str(s@),
                    line,
                    l.loc,
                ),
                LiteralValue::Null => Ok(c.write_op(OpCode::Nil, line)),
                LiteralValue::Unsupported => Err(
                    ErrorModel::runtime("Unsupported literal type"@, l.loc),
                ),
            }
        },
        Expression::BinaryExpr(b) => {
            let line = line_or_zero(b.loc) as usize;
            match lower_expr(*b.left, locals, c) {
                Ok(c1) => match lower_expr(*b.right, locals, c1) {
                    Ok(c2) => match binary_opcode(b.operator@) {
                        Some(op) => Ok(c2.write_op(op, line)),
                        None => Err(ErrorModel::runtime("Operator compiler not impl"@, b.loc)),
                    },
                    Err(err) => Err(err),
                },
                Err(err) => Err(err),
            }
        },
        _ => Err(ErrorModel::runtime("Expr not supported in compiler yet"@, e.location())),
    }
}

/// The code of several expressions, one after the other.
pub open spec fn lower_exprs(
    es: Seq<Expression>,
    locals: Map<Seq<char>, usize>,
    c: ChunkModel,
) -> Lowered
    decreases es,
{
    if es.len() == 0 {
        Ok(c)
    } else {
        match lower_exprs(es.drop_last(), locals, c) {
            Ok(c1) => lower_expr(es.last(), locals, c1),
            Err(err) => Err(err),
        }
    }
}

/// The code that stores the top of the stack in the global `name` and
/// discards it.
pub open spec fn store_global(
    c: ChunkModel,
    name: Seq<char>,
    line: usize,
    loc: Option<SourceLocation>,
) -> Lowered {
    match emit_with_constant(c, OpCode::SetGlobal, ValueModel::Str(name), line, loc) {
        Ok(c1) => Ok(c1.write_op(OpCode::Pop, line)),
        Err(err) => Err(err),
    }
}

/// The name that a declaration binds, if it is one that can be exported.
pub open spec fn exported_name(s: Statement) -> Option<Seq<char>> {
    match s {
        Statement::LetStmt(l) => Some(l.name.name@),
        Statement::FuncDecl(f) => Some(f.name.name@),
        _ => None,
    }
}

/// The code of a statement. Every way through it leaves the stack as deep
/// as it found it, counting a call as giving one value for the callee and
/// its arguments.
pub open spec fn lower_stmt(s: Statement, locals: Map<Seq<char>, usize>, c: ChunkModel) -> Lowered
    decreases s,
{
    match s {
        Statement::LetStmt(l) => {
            let line = line_or_zero(l.loc) as usize;
            match lower_expr(l.value, locals, c) {
                Ok(c1) => store_global(c1, l.name.name@, line, l.loc),
                Err(err) => Err(err),
            }
        },
        Statement::AssignStmt(a) => {
            let line = line_or_zero(a.loc) as usize;
            match a.target {
                Expression::Identifier(id) => match lower_expr(a.value, locals, c) {
                    Ok(c1) => store_global(c1, id.name@, line, a.loc),
                    Err(err) => Err(err),
                },
                Expression::IndexExpr(ix) => match lower_expr(*ix.object, locals, c) {
                    Ok(c1) => match lower_expr(*ix.index, locals, c1) {
                        Ok(c2) => match lower_expr(a.value, locals, c2) {
                            Ok(c3) => Ok(
                                c3.write_op(OpCode::IndexSet, line).write_op(OpCode::Pop, line),
                            ),
                            Err(err) => Err(err),
                        },
                        Err(err) => Err(err),
                    },
                    Err(err) => Err(err),
                },
                _ => Err(
                    ErrorModel::runtime("Complex assignment (only var/index) supported"@, a.loc),
                ),
            }
        },
        Statement::ExprStmt(x) => match lower_expr(x.expression, locals, c) {
            Ok(c1) => Ok(
                c1.write_op(OpCode::Pop, line_or_zero(x.expression.location()) as usize),
            ),
            Err(err) => Err(err),
        },
        Statement::ShowStmt(x) => match lower_expr(x.expression, locals, c) {
            Ok(c1) => Ok(c1.write_op(OpCode::Print, line_or_zero(x.loc) as usize)),
            Err(err) => Err(err),
        },
        Statement::IfStmt(i) => {
            let line = line_or_zero(i.loc) as usize;
            match lower_expr(i.condition, locals, c) {
                Ok(c1) => {
                    let skip_then = c1.code.len() as int + 1;
                    let c2 = emit_jump(c1, OpCode::JumpIfFalse, line).write_op(OpCode::Pop, line);
                    match lower_block(i.then_block.body@, locals, c2) {
                        Ok(c3) => {
                            let skip_else = c3.code.len() as int + 1;
                            match patch_jump(emit_jump(c3, OpCode::Jump, line), skip_then) {
                                Ok(c4) => {
                                    let c5 = c4.write_op(OpCode::Pop, line);
                                    let after_else = match i.else_block {
                                        Some(b) => lower_block(b.body@, locals, c5),
                                        None => Ok(c5),
                                    };
                                    match after_else {
                                        Ok(c6) => patch_jump(c6, skip_else),
                                        Err(err) => Err(err),
                                    }
                                },
                                Err(err) => Err(err),
                            }
                        },
                        Err(err) => Err(err),
                    }
                },
                Err(err) => Err(err),
            }
        },
        Statement::WhileStmt(w) => {
            let line = line_or_zero(w.loc) as usize;
            let start = c.code.len() as int;
            match lower_expr(w.condition, locals, c) {
                Ok(c1) => {
                    let exit = c1.code.len() as int + 1;
                    let c2 = emit_jump(c1, OpCode::JumpIfFalse, line).write_op(OpCode::Pop, line);
                    match lower_block(w.body.body@, locals, c2) {
                        Ok(c3) => match emit_loop(c3, OpCode::Loop, start, line) {
                            Ok(c4) => match patch_jump(c4, exit) {
                                Ok(c5) => Ok(c5.write_op(OpCode::Pop, line)),
                                Err(err) => Err(err),
                            },
                            Err(err) => Err(err),
                        },
                        Err(err) => Err(err),
                    }
                },
                Err(err) => Err(err),
            }
        },
        Statement::RepeatStmt(r) => {
            let line = line_or_zero(r.loc) as usize;
            match lower_expr(r.count, locals, c) {
                Ok(c1) => {
                    let exit = c1.code.len() as int + 1;
                    let c2 = emit_jump(c1, OpCode::RepeatStart, line);
                    let start = c2.code.len() as int;
                    match lower_block(r.body.body@, locals, c2) {
                        Ok(c3) => match emit_loop(c3, OpCode::RepeatEnd, start, line) {
                            Ok(c4) => patch_jump(c4, exit),
                            Err(err) => Err(err),
                        },
                        Err(err) => Err(err),
                    }
                },
                Err(err) => Err(err),
            }
        },
        Statement::ReturnStmt(r) => {
            let line = line_or_zero(r.loc) as usize;
            let with_value = match r.argument {
                Some(e) => lower_expr(e, locals, c),
                None => Ok(c.write_op(OpCode::Nil, line)),
            };
            match with_value {
                Ok(c1) => Ok(c1.write_op(OpCode::Return, line)),
                Err(err) => Err(err),
            }
        },
        Statement::ImportStmt(i) => {
            let line = line_or_zero(i.loc) as usize;
            match emit_with_constant(c, OpCode::Import, ValueModel::Str(i.module@), line, i.loc) {
                Ok(c1) => store_global(c1, last_segment_text(i.module@), line, i.loc),
                Err(err) => Err(err),
            }
        },
        Statement::ExportStmt(x) => {
            let line = line_or_zero(x.loc) as usize;
            match lower_stmt(*x.declaration, locals, c) {
                Ok(c1) => match exported_name(*x.declaration) {
                    Some(name) => match emit_with_constant(
                        c1,
                        OpCode::GetGlobal,
                        ValueModel::Str(name),
                        line,
                        x.loc,
                    ) {
                        Ok(c2) => Ok(
                            c2.write_op(OpCode::Export, line).write(
                                c1.constants.len() as u8,
                                line,
                            ),
                        ),
                        Err(err) => Err(err),
                    },
                    None => Err(ErrorModel::runtime("Only Let and Func can be exported"@, x.loc)),
                },
                Err(err) => Err(err),
            }
        },
        Statement::FuncDecl(f) => {
            let line = line_or_zero(f.loc) as usize;
            match lower_function(f) {
                Ok(function) => match emit_with_constant(
                    c,
                    OpCode::Constant,
                    ValueModel::Function(function),
                    line,
                    f.loc,
                ) {
                    Ok(c1) => store_global(c1, f.name.name@, line, f.loc),
                    Err(err) => Err(err),
                },
                Err(err) => Err(err),
            }
        },
        Statement::Block(b) => lower_block(b.body@, locals, c),
    }
}

/// The code of several statements, one after the other.
pub open spec fn lower_block(
    stmts: Seq<Statement>,
    locals: Map<Seq<char>, usize>,
    c: ChunkModel,
) -> Lowered
    decreases stmts,
{
    if stmts.len() == 0 {
        Ok(c)
    } else {
        match lower_block(stmts.drop_last(), locals, c) {
            Ok(c1) => lower_stmt(stmts.last(), locals, c1),
            Err(err) => Err(err),
        }
    }
}

/// The function that a declaration compiles to: its body in a chunk of its
/// own, with the parameters as locals 0, 1, ..., and a closing `return null`
/// for a body that falls through.
pub open spec fn lower_function(f: FuncDecl) -> Result<FunctionModel, ErrorModel>
    decreases f,
{
    match lower_block(f.body.body@, parameter_slots(f.params@), ChunkModel::empty()) {
        Ok(c) => Ok(
            FunctionModel {
                arity: f.params@.len(),
                chunk: c.write_op(OpCode::Nil, 0).write_op(OpCode::Return, 0),
                name: f.name.name@,
            },
        ),
        Err(err) => Err(err),
    }
}

/// The chunk `c` with the code of a program behind what it holds: the
/// program's statements, then a closing `Return`.
pub open spec fn lower_program_into(
    p: Program,
    locals: Map<Seq<char>, usize>,
    c: ChunkModel,
) -> Lowered {
    match lower_block(p.body@, locals, c) {
        Ok(done) => Ok(done.write_op(OpCode::Return, 0)),
        Err(err) => Err(err),
    }
}

/// The chunk of a program: its statements, then a closing `Return`.
pub open spec fn lower_program(p: Program) -> Lowered {
    lower_program_into(p, Map::empty(), ChunkModel::empty())
}

/// A parameter and its slot.
pub struct LocalSlot {
    pub name: String,
    pub slot: usize,
}

/// The map that a list of declarations stands for: a later declaration of a
/// name replaces an earlier one.
pub open spec fn slots_map(s: Seq<LocalSlot>) -> Map<Seq<char>, usize>
    decreases s.len(),
{
    if s.len() == 0 {
        Map::empty()
    } else {
        slots_map(s.drop_last()).insert(s.last().name@, s.last().slot)
    }
}

/// Compiles one function, or the script: it builds one chunk.
pub struct Compiler {
    chunk: Chunk,
    locals: Vec<LocalSlot>,
}

/// Whether a compilation step that ended in `r` arrived at what `expected`
/// says: the chunk on success, the error on failure. The locals stay.
pub open spec fn arrived(
    before: Compiler,
    after: Compiler,
    expected: Lowered,
    r: Result<(), PumpkinError>,
) -> bool {
    match expected {
        Ok(c) => r is Ok && after.chunk_model() == c && after.locals_model()
            == before.locals_model(),
        Err(e) => r matches Err(x) && x@ == e,
    }
}

impl Compiler {
    /// The chunk built so far.
    pub closed spec fn chunk_model(&self) -> ChunkModel {
        self.chunk@
    }

    /// The locals: name to slot.
    pub closed spec fn locals_model(&self) -> Map<Seq<char>, usize> {
        slots_map(self.locals@)
    }

    pub fn new() -> (r: Self)
        ensures
            r.chunk_model() == ChunkModel::empty(),
            r.locals_model() == Map::<Seq<char>, usize>::empty(),
    {
        Compiler { chunk: Chunk::new(), locals: Vec::new() }
    }

    /// Compiles a program to the chunk of its script. From a new compiler
    /// this is the chunk of [`lower_program`].
    pub fn compile(self, program: &Program) -> (r: Result<Chunk, PumpkinError>)
        ensures
            match lower_program_into(*program, self.locals_model(), self.chunk_model()) {
                Ok(c) => r matches Ok(chunk) && chunk@ == c,
                Err(e) => r matches Err(x) && x@ == e,
            },
    {
        let mut this = self;
        match this.compile_statements(&program.body) {
            Ok(()) => {},
            Err(e) => {
                return Err(e);
            },
        }
        this.emit_op(OpCode::Return, 0);
        Ok(this.chunk)
    }

    fn compile_statements(&mut self, stmts: &Vec<Statement>) -> (r: Result<(), PumpkinError>)
        ensures
            arrived(
                *old(self),
                *final(self),
                lower_block(stmts@, old(self).locals_model(), old(self).chunk_model()),
                r,
            ),
        decreases stmts,
    {
        let ghost locals = self.locals_model();
        let ghost start = self.chunk_model();
        let mut i: usize = 0;
        while i < stmts.len()
            invariant
                i <= stmts.len(),
                locals == old(self).locals_model(),
                start == old(self).chunk_model(),
                self.locals_model() == locals,
                lower_block(stmts@.take(i as int), locals, start) == Ok::<
                    ChunkModel,
                    ErrorModel,
                >(self.chunk_model()),
            decreases stmts.len() - i,
        {
            proof {
                assert(stmts@.take(i + 1).drop_last() =~= stmts@.take(i as int));
            }
            match self.compile_stmt(&stmts[i]) {
                Ok(()) => {},
                Err(e) => {
                    proof {
                        lower_block_fails(stmts@, (i + 1) as int, locals, start);
                    }
                    return Err(e);
                },
            }
            i = i + 1;
        }
        assert(stmts@.take(i as int) =~= stmts@);
        Ok(())
    }

    fn compile_block(&mut self, block: &Block) -> (r: Result<(), PumpkinError>)
        ensures
            arrived(
                *old(self),
                *final(self),
                lower_block(block.body@, old(self).locals_model(), old(self).chunk_model()),
                r,
            ),
        decreases block,
    {
        self.compile_statements(&block.body)
    }

    fn compile_expressions(&mut self, es: &Vec<Expression>) -> (r: Result<(), PumpkinError>)
        ensures
            arrived(
                *old(self),
                *final(self),
                lower_exprs(es@, old(self).locals_model(), old(self).chunk_model()),
                r,
            ),
        decreases es,
    {
        let ghost locals = self.locals_model();
        let ghost start = self.chunk_model();
        let mut i: usize = 0;
        while i < es.len()
            invariant
                i <= es.len(),
                locals == old(self).locals_model(),
                start == old(self).chunk_model(),
                self.locals_model() == locals,
                lower_exprs(es@.take(i as int), locals, start) == Ok::<ChunkModel, ErrorModel>(
                    self.chunk_model(),
                ),
            decreases es.len() - i,
        {
            proof {
                assert(es@.take(i + 1).drop_last() =~= es@.take(i as int));
            }
            match self.compile_expr(&es[i]) {
                Ok(()) => {},
                Err(e) => {
                    proof {
                        lower_exprs_fails(es@, (i + 1) as int, locals, start);
                    }
                    return Err(e);
                },
            }
            i = i + 1;
        }
        assert(es@.take(i as int) =~= es@);
        Ok(())
    }

    fn store_global(&mut self, name: &String, line: usize, loc: Option<SourceLocation>) -> (r:
        Result<(), PumpkinError>)
        ensures
            arrived(
                *old(self),
                *final(self),
                store_global(old(self).chunk_model(), name@, line, loc),
                r,
            ),
    {
        match self.emit_with_constant(OpCode::SetGlobal, PumpkinValue::String(name.clone()), line, loc) {
            Ok(()) => {},
            Err(e) => {
                return Err(e);
            },
        }
        self.emit_op(OpCode::Pop, line);
        Ok(())
    }

    fn compile_function(f: &FuncDecl) -> (r: Result<PumpkinFunction, PumpkinError>)
        ensures
            match lower_function(*f) {
                Ok(function) => r matches Ok(x) && x@ == function,
                Err(e) => r matches Err(x) && x@ == e,
            },
        decreases f, 0nat,
    {
        let mut inner = Compiler::new();
        let mut i: usize = 0;
        while i < f.params.len()
            invariant
                i <= f.params.len(),
                inner.chunk_model() == ChunkModel::empty(),
                inner.locals_model() == parameter_slots(f.params@.take(i as int)),
            decreases f.params.len() - i,
        {
            proof {
                assert(f.params@.take(i + 1).drop_last() =~= f.params@.take(i as int));
            }
            inner.declare_local(f.params[i].name.clone(), i);
            i = i + 1;
        }
        assert(f.params@.take(i as int) =~= f.params@);
        match inner.compile_block(&f.body) {
            Ok(()) => {},
            Err(e) => {
                return Err(e);
            },
        }
        inner.emit_op(OpCode::Nil, 0);
        inner.emit_op(OpCode::Return, 0);
        Ok(inner.finish_function(f.name.name.clone(), f.params.len()))
    }

    fn compile_stmt(&mut self, stmt: &Statement) -> (r: Result<(), PumpkinError>)
        ensures
            arrived(
                *old(self),
                *final(self),
                lower_stmt(*stmt, old(self).locals_model(), old(self).chunk_model()),
                r,
            ),
        decreases stmt, 1nat,
    {
        match stmt {
            Statement::LetStmt(s) => self.compile_let(s),
            Statement::AssignStmt(s) => self.compile_assign(s),
            Statement::ExprStmt(s) => self.compile_expr_stmt(s),
            Statement::ShowStmt(s) => self.compile_show(s),
            Statement::IfStmt(s) => self.compile_if(s),
            Statement::WhileStmt(s) => self.compile_while(s),
            Statement::RepeatStmt(s) => self.compile_repeat(s),
            Statement::ReturnStmt(s) => self.compile_return(s),
            Statement::ImportStmt(s) => self.compile_import(s),
            Statement::ExportStmt(s) => self.compile_export(s),
            Statement::FuncDecl(s) => self.compile_func_decl(s),
            Statement::Block(b) => self.compile_block(b),
        }
    }

    fn compile_let(&mut self, s: &LetStmt) -> (r: Result<(), PumpkinError>)
        ensures
            arrived(
                *old(self),
                *final(self),
                lower_stmt(
                    Statement::LetStmt(*s),
                    old(self).locals_model(),
                    old(self).chunk_model(),
                ),
                r,
            ),
    {
        match self.compile_expr(&s.value) {
            Ok(()) => {},
            Err(e) => {
                return Err(e);
            },
        }
        self.store_global(&s.name.name, line_of(&s.loc), s.loc)
    }

    fn compile_assign(&mut self, s: &AssignStmt) -> (r: Result<(), PumpkinError>)
        ensures
            arrived(
                *old(self),
                *final(self),
                lower_stmt(
                    Statement::AssignStmt(*s),
                    old(self).locals_model(),
                    old(self).chunk_model(),
                ),
                r,
            ),
    {
        let line = line_of(&s.loc);
        match &s.target {
            Expression::Identifier(id) => {
                match self.compile_expr(&s.value) {
                    Ok(()) => {},
                    Err(e) => {
                        return Err(e);
                    },
                }
                self.store_global(&id.name, line, s.loc)
            },
            Expression::IndexExpr(ix) => {
                match self.compile_expr(&ix.object) {
                    Ok(()) => {},
                    Err(e) => {
                        return Err(e);
                    },
                }
                match self.compile_expr(&ix.index) {
                    Ok(()) => {},
                    Err(e) => {
                        return Err(e);
                    },
                }
                match self.compile_expr(&s.value) {
                    Ok(()) => {},
                    Err(e) => {
                        return Err(e);
                    },
                }
                self.emit_op(OpCode::IndexSet, line);
                self.emit_op(OpCode::Pop, line);
                Ok(())
            },
            _ => Err(
                PumpkinError::runtime("Complex assignment (only var/index) supported", s.loc),
            ),
        }
    }

    fn compile_expr_stmt(&mut self, s: &ExprStmt) -> (r: Result<(), PumpkinError>)
        ensures
            arrived(
                *old(self),
                *final(self),
                lower_stmt(
                    Statement::ExprStmt(*s),
                    old(self).locals_model(),
                    old(self).chunk_model(),
                ),
                r,
            ),
    {
        match self.compile_expr(&s.expression) {
            Ok(()) => {},
            Err(e) => {
                return Err(e);
            },
        }
        let loc = s.expression.loc();
        self.emit_op(OpCode::Pop, line_of(&loc));
        Ok(())
    }

    fn compile_show(&mut self, s: &ShowStmt) -> (r: Result<(), PumpkinError>)
        ensures
            arrived(
                *old(self),
                *final(self),
                lower_stmt(
                    Statement::ShowStmt(*s),
                    old(self).locals_model(),
                    old(self).chunk_model(),
                ),
                r,
            ),
    {
        match self.compile_expr(&s.expression) {
            Ok(()) => {},
            Err(e) => {
                return Err(e);
            },
        }
        self.emit_op(OpCode::Print, line_of(&s.loc));
        Ok(())
    }

    fn compile_if(&mut self, s: &IfStmt) -> (r: Result<(), PumpkinError>)
        ensures
            arrived(
                *old(self),
                *final(self),
                lower_stmt(
                    Statement::IfStmt(*s),
                    old(self).locals_model(),
                    old(self).chunk_model(),
                ),
                r,
            ),
        decreases s,
    {
        let line = line_of(&s.loc);
        match self.compile_expr(&s.condition) {
            Ok(()) => {},
            Err(e) => {
                return Err(e);
            },
        }
        let then_jump = self.emit_jump(OpCode::JumpIfFalse, line);
        self.emit_op(OpCode::Pop, line);
        match self.compile_block(&s.then_block) {
            Ok(()) => {},
            Err(e) => {
                return Err(e);
            },
        }
        let else_jump = self.emit_jump(OpCode::Jump, line);
        proof {
            lowering_extends_block(
                s.then_block.body@,
                old(self).locals_model(),
                emit_jump(
                    lower_expr(s.condition, old(self).locals_model(), old(self).chunk_model())->Ok_0,
                    OpCode::JumpIfFalse,
                    line,
                ).write_op(OpCode::Pop, line),
            );
        }
        match self.patch_jump(then_jump) {
            Ok(()) => {},
            Err(e) => {
                return Err(e);
            },
        }
        self.emit_op(OpCode::Pop, line);
        let ghost before_else = self.chunk_model();
        match &s.else_block {
            Some(b) => {
                match self.compile_block(b) {
                    Ok(()) => {},
                    Err(e) => {
                        return Err(e);
                    },
                }
                proof {
                    lowering_extends_block(b.body@, old(self).locals_model(), before_else);
                }
            },
            None => {},
        }
        self.patch_jump(else_jump)
    }

    fn compile_while(&mut self, s: &WhileStmt) -> (r: Result<(), PumpkinError>)
        ensures
            arrived(
                *old(self),
                *final(self),
                lower_stmt(
                    Statement::WhileStmt(*s),
                    old(self).locals_model(),
                    old(self).chunk_model(),
                ),
                r,
            ),
        decreases s,
    {
        let line = line_of(&s.loc);
        proof {
            chunk_model_constants(&self.chunk);
        }
        let loop_start = self.chunk.code.len();
        match self.compile_expr(&s.condition) {
            Ok(()) => {},
            Err(e) => {
                return Err(e);
            },
        }
        let exit_jump = self.emit_jump(OpCode::JumpIfFalse, line);
        self.emit_op(OpCode::Pop, line);
        let ghost entered = self.chunk_model();
        match self.compile_block(&s.body) {
            Ok(()) => {},
            Err(e) => {
                return Err(e);
            },
        }
        proof {
            lowering_extends_expr(s.condition, old(self).locals_model(), old(self).chunk_model());
            lowering_extends_block(s.body.body@, old(self).locals_model(), entered);
        }
        match self.emit_loop(loop_start, line) {
            Ok(()) => {},
            Err(e) => {
                return Err(e);
            },
        }
        match self.patch_jump(exit_jump) {
            Ok(()) => {},
            Err(e) => {
                return Err(e);
            },
        }
        self.emit_op(OpCode::Pop, line);
        Ok(())
    }

    fn compile_repeat(&mut self, s: &RepeatStmt) -> (r: Result<(), PumpkinError>)
        ensures
            arrived(
                *old(self),
                *final(self),
                lower_stmt(
                    Statement::RepeatStmt(*s),
                    old(self).locals_model(),
                    old(self).chunk_model(),
                ),
                r,
            ),
        decreases s,
    {
        let line = line_of(&s.loc);
        match self.compile_expr(&s.count) {
            Ok(()) => {},
            Err(e) => {
                return Err(e);
            },
        }
        let jump_to_end = self.emit_jump(OpCode::RepeatStart, line);
        proof {
            chunk_model_constants(&self.chunk);
        }
        let loop_start = self.chunk.code.len();
        let ghost entered = self.chunk_model();
        match self.compile_block(&s.body) {
            Ok(()) => {},
            Err(e) => {
                return Err(e);
            },
        }
        proof {
            lowering_extends_block(s.body.body@, old(self).locals_model(), entered);
        }
        match self.emit_loop_with_op(OpCode::RepeatEnd, loop_start, line) {
            Ok(()) => {},
            Err(e) => {
                return Err(e);
            },
        }
        self.patch_jump(jump_to_end)
    }

    fn compile_return(&mut self, s: &ReturnStmt) -> (r: Result<(), PumpkinError>)
        ensures
            arrived(
                *old(self),
                *final(self),
                lower_stmt(
                    Statement::ReturnStmt(*s),
                    old(self).locals_model(),
                    old(self).chunk_model(),
                ),
                r,
            ),
    {
        let line = line_of(&s.loc);
        match &s.argument {
            Some(e) => {
                match self.compile_expr(e) {
                    Ok(()) => {},
                    Err(e) => {
                        return Err(e);
                    },
                }
            },
            None => {
                self.emit_op(OpCode::Nil, line);
            },
        }
        self.emit_op(OpCode::Return, line);
        Ok(())
    }

    fn compile_import(&mut self, s: &ImportStmt) -> (r: Result<(), PumpkinError>)
        ensures
            arrived(
                *old(self),
                *final(self),
                lower_stmt(
                    Statement::ImportStmt(*s),
                    old(self).locals_model(),
                    old(self).chunk_model(),
                ),
                r,
            ),
    {
        let line = line_of(&s.loc);
        match self.emit_with_constant(
            OpCode::Import,
            PumpkinValue::String(s.module.clone()),
            line,
            s.loc,
        ) {
            Ok(()) => {},
            Err(e) => {
                return Err(e);
            },
        }
        let var_name = last_segment(s.module.as_str());
        self.store_global(&var_name, line, s.loc)
    }

    fn compile_export(&mut self, s: &ExportStmt) -> (r: Result<(), PumpkinError>)
        ensures
            arrived(
                *old(self),
                *final(self),
                lower_stmt(
                    Statement::ExportStmt(*s),
                    old(self).locals_model(),
                    old(self).chunk_model(),
                ),
                r,
            ),
        decreases s,
    {
        let line = line_of(&s.loc);
        match self.compile_stmt(&s.declaration) {
            Ok(()) => {},
            Err(e) => {
                return Err(e);
            },
        }
        let name = match &*s.declaration {
            Statement::LetStmt(l) => l.name.name.clone(),
            Statement::FuncDecl(f) => f.name.name.clone(),
            _ => {
                return Err(PumpkinError::runtime("Only Let and Func can be exported", s.loc));
            },
        };
        proof {
            chunk_model_constants(&self.chunk);
        }
        let index = self.chunk.constants.len();
        match self.emit_with_constant(OpCode::GetGlobal, PumpkinValue::String(name), line, s.loc) {
            Ok(()) => {},
            Err(e) => {
                return Err(e);
            },
        }
        self.emit_op(OpCode::Export, line);
        self.emit_byte(index as u8, line);
        Ok(())
    }

    fn compile_func_decl(&mut self, s: &FuncDecl) -> (r: Result<(), PumpkinError>)
        ensures
            arrived(
                *old(self),
                *final(self),
                lower_stmt(
                    Statement::FuncDecl(*s),
                    old(self).locals_model(),
                    old(self).chunk_model(),
                ),
                r,
            ),
        decreases s, 1nat,
    {
        let line = line_of(&s.loc);
        let compiled = match Compiler::compile_function(s) {
            Ok(f) => f,
            Err(e) => {
                return Err(e);
            },
        };
        let value = PumpkinValue::Function(Rc::new(compiled));
        match self.emit_with_constant(OpCode::Constant, value, line, s.loc) {
            Ok(()) => {},
            Err(e) => {
                return Err(e);
            },
        }
        self.store_global(&s.name.name, line, s.loc)
    }

    fn compile_expr(&mut self, expr: &Expression) -> (r: Result<(), PumpkinError>)
        ensures
            arrived(
                *old(self),
                *final(self),
                lower_expr(*expr, old(self).locals_model(), old(self).chunk_model()),
                r,
            ),
        decreases expr,
    {
        match expr {
            Expression::ArrayLiteral(a) => {
                match self.compile_expressions(&a.elements) {
                    Ok(()) => {},
                    Err(e) => {
                        return Err(e);
                    },
                }
                let count = a.elements.len();
                if count > MAX_WIDE_OPERAND {
                    return Err(PumpkinError::runtime("Array literal too large", a.loc));
                }
                self.emit_wide(OpCode::ArrayLit, count, line_of(&a.loc));
                Ok(())
            },
            Expression::IndexExpr(i) => {
                match self.compile_expr(&i.object) {
                    Ok(()) => {},
                    Err(e) => {
                        return Err(e);
                    },
                }
                match self.compile_expr(&i.index) {
                    Ok(()) => {},
                    Err(e) => {
                        return Err(e);
                    },
                }
                self.emit_op(OpCode::IndexGet, line_of(&i.loc));
                Ok(())
            },
            Expression::CallExpr(c) => {
                match self.compile_expr(&c.callee) {
                    Ok(()) => {},
                    Err(e) => {
                        return Err(e);
                    },
                }
                match self.compile_expressions(&c.arguments) {
                    Ok(()) => {},
                    Err(e) => {
                        return Err(e);
                    },
                }
                let count = c.arguments.len();
                if count > MAX_BYTE_OPERAND {
                    return Err(PumpkinError::runtime("Too many arguments in a call", c.loc));
                }
                let line = line_of(&c.loc);
                self.emit_op(OpCode::Call, line);
                self.emit_byte(count as u8, line);
                Ok(())
            },
            Expression::Identifier(id) => {
                let line = line_of(&id.loc);
                match self.resolve_local(id.name.as_str()) {
                    Some(slot) => {
                        if slot > MAX_BYTE_OPERAND {
                            return Err(PumpkinError::runtime("Too many parameters", id.loc));
                        }
                        self.emit_op(OpCode::GetLocal, line);
                        self.emit_byte(slot as u8, line);
                        Ok(())
                    },
                    None => self.emit_with_constant(
                        OpCode::GetGlobal,
                        PumpkinValue::String(id.name.clone()),
                        line,
                        id.loc,
                    ),
                }
            },
            Expression::Literal(l) => {
                let line = line_of(&l.loc);
                match &l.value {
                    LiteralValue::Number(bits) => self.emit_with_constant(
                        OpCode::Constant,
                        PumpkinValue::Number(*bits),
                        line,
                        l.loc,
                    ),
                    LiteralValue::Boolean(b) => {
                        if *b {
                            self.emit_op(OpCode::True, line);
                        } else {
                            self.emit_op(OpCode::False, line);
                        }
                        Ok(())
                    },
                    LiteralValue::String(s) => self.emit_with_constant(
                        OpCode::Constant,
                        PumpkinValue::String(s.clone()),
                        line,
                        l.loc,
                    ),
                    LiteralValue::Null => {
                        self.emit_op(OpCode::Nil, line);
                        Ok(())
                    },
                    LiteralValue::Unsupported => Err(
                        PumpkinError::runtime("Unsupported literal type", l.loc),
                    ),
                }
            },
            Expression::BinaryExpr(b) => {
                match self.compile_expr(&b.left) {
                    Ok(()) => {},
                    Err(e) => {
                        return Err(e);
                    },
                }
                match self.compile_expr(&b.right) {
                    Ok(()) => {},
                    Err(e) => {
                        return Err(e);
                    },
                }
                match binary_opcode_of(&b.operator) {
                    Some(op) => {
                        self.emit_op(op, line_of(&b.loc));
                        Ok(())
                    },
                    None => Err(PumpkinError::runtime("Operator compiler not impl", b.loc)),
                }
            },
            _ => Err(PumpkinError::runtime("Expr not supported in compiler yet", expr.loc())),
        }
    }

    fn emit_op(&mut self, op: OpCode, line: usize)
        ensures
            final(self).chunk_model() == old(self).chunk_model().write_op(op, line),
            final(self).locals_model() == old(self).locals_model(),
    {
        self.chunk.write_op(op, line);
    }

    fn emit_byte(&mut self, byte: u8, line: usize)
        ensures
            final(self).chunk_model() == old(self).chunk_model().write(byte, line),
            final(self).locals_model() == old(self).locals_model(),
    {
        self.chunk.write(byte, line);
    }

    fn emit_wide(&mut self, op: OpCode, operand: usize, line: usize)
        requires
            operand <= MAX_WIDE_OPERAND,
        ensures
            final(self).chunk_model() == emit_wide(
                old(self).chunk_model(),
                op,
                operand as nat,
                line,
            ),
            final(self).locals_model() == old(self).locals_model(),
    {
        self.emit_op(op, line);
        self.emit_byte((operand / 256) as u8, line);
        self.emit_byte((operand % 256) as u8, line);
    }

    /// Adds `value` to the constants and emits `op` with its index.
    fn emit_with_constant(
        &mut self,
        op: OpCode,
        value: PumpkinValue,
        line: usize,
        loc: Option<SourceLocation>,
    ) -> (r: Result<(), PumpkinError>)
        ensures
            arrived(
                *old(self),
                *final(self),
                emit_with_constant(old(self).chunk_model(), op, value@, line, loc),
                r,
            ),
    {
        proof {
            chunk_model_constants(&self.chunk);
        }
        if self.chunk.constants.len() > MAX_BYTE_OPERAND {
            return Err(PumpkinError::runtime("Too many constants in one chunk", loc));
        }
        let index = self.chunk.add_constant(value);
        self.emit_op(op, line);
        self.emit_byte(index as u8, line);
        Ok(())
    }

    /// Emits a forward jump with a placeholder for its distance, and returns
    /// where the placeholder stands.
    fn emit_jump(&mut self, instruction: OpCode, line: usize) -> (at: usize)
        ensures
            final(self).chunk_model() == emit_jump(old(self).chunk_model(), instruction, line),
            final(self).locals_model() == old(self).locals_model(),
            at == old(self).chunk_model().code.len() + 1,
    {
        self.emit_op(instruction, line);
        self.emit_byte(0xff, line);
        self.emit_byte(0xff, line);
        proof {
            chunk_model_constants(&self.chunk);
        }
        self.chunk.code.len() - 2
    }

    /// Sets the placeholder at `offset` to the distance from behind it to
    /// the end of the code.
    fn patch_jump(&mut self, offset: usize) -> (r: Result<(), PumpkinError>)
        requires
            offset + 2 <= old(self).chunk_model().code.len(),
        ensures
            arrived(
                *old(self),
                *final(self),
                patch_jump(old(self).chunk_model(), offset as int),
                r,
            ),
    {
        proof {
            chunk_model_constants(&self.chunk);
        }
        let jump = self.chunk.code.len() - offset - 2;
        if jump > MAX_WIDE_OPERAND {
            return Err(PumpkinError::runtime("Too much code to jump over", None));
        }
        self.chunk.code.set(offset, (jump / 256) as u8);
        self.chunk.code.set(offset + 1, (jump % 256) as u8);
        proof {
            chunk_model_constants(&self.chunk);
        }
        Ok(())
    }

    /// Emits the backward jump `op` to `loop_start`.
    fn emit_loop_with_op(&mut self, op: OpCode, loop_start: usize, line: usize) -> (r: Result<
        (),
        PumpkinError,
    >)
        requires
            loop_start <= old(self).chunk_model().code.len(),
        ensures
            arrived(
                *old(self),
                *final(self),
                emit_loop(old(self).chunk_model(), op, loop_start as int, line),
                r,
            ),
    {
        proof {
            chunk_model_constants(&self.chunk);
        }
        let body = self.chunk.code.len() - loop_start;
        if body > MAX_WIDE_OPERAND - 3 {
            return Err(PumpkinError::runtime("Loop body too large", None));
        }
        self.emit_wide(op, body + 3, line);
        Ok(())
    }

    /// Emits a `Loop` back to `loop_start`.
    fn emit_loop(&mut self, loop_start: usize, line: usize) -> (r: Result<(), PumpkinError>)
        requires
            loop_start <= old(self).chunk_model().code.len(),
        ensures
            arrived(
                *old(self),
                *final(self),
                emit_loop(old(self).chunk_model(), OpCode::Loop, loop_start as int, line),
                r,
            ),
    {
        self.emit_loop_with_op(OpCode::Loop, loop_start, line)
    }

    /// Declares `name` as the local in `slot`.
    fn declare_local(&mut self, name: String, slot: usize)
        ensures
            final(self).locals_model() == old(self).locals_model().insert(name@, slot),
            final(self).chunk_model() == old(self).chunk_model(),
    {
        self.locals.push(LocalSlot { name, slot });
        assert(self.locals@.drop_last() =~= old(self).locals@);
    }

    /// The slot of the local `name`, if it is one.
    fn resolve_local(&self, name: &str) -> (r: Option<usize>)
        ensures
            r == if self.locals_model().contains_key(name@) {
                Some(self.locals_model()[name@])
            } else {
                None
            },
    {
        let wanted = String::from_str(name);
        let mut i: usize = self.locals.len();
        assert(self.locals@.take(i as int) =~= self.locals@);
        while i > 0
            invariant
                i <= self.locals.len(),
                wanted@ == name@,
                slots_map(self.locals@.take(i as int)).contains_key(name@)
                    == self.locals_model().contains_key(name@),
                self.locals_model().contains_key(name@) ==> slots_map(
                    self.locals@.take(i as int),
                )[name@] == self.locals_model()[name@],
            decreases i,
        {
            let ghost prefix = self.locals@.take(i as int);
            assert(prefix.drop_last() =~= self.locals@.take(i - 1));
            if self.locals[i - 1].name == wanted {
                return Some(self.locals[i - 1].slot);
            }
            i = i - 1;
        }
        None
    }

    /// Ends the compilation of a function and hands out what was built.
    pub fn finish_function(self, name: String, arity: usize) -> (r: PumpkinFunction)
        ensures
            r@ == (FunctionModel { arity: arity as nat, chunk: self.chunk_model(), name: name@ }),
    {
        PumpkinFunction { arity, chunk: self.chunk, name }
    }
}

/// The instruction of a binary operator.
pub fn binary_opcode_of(operator: &String) -> (r: Option<OpCode>)
    ensures
        r == binary_opcode(operator@),
{
    if reads_as(operator, "+") {
        Some(OpCode::Add)
    } else if reads_as(operator, "-") {
        Some(OpCode::Sub)
    } else if reads_as(operator, "*") {
        Some(OpCode::Mul)
    } else if reads_as(operator, "/") {
        Some(OpCode::Div)
    } else if reads_as(operator, "==") {
        Some(OpCode::Equal)
    } else if reads_as(operator, ">") {
        Some(OpCode::Greater)
    } else if reads_as(operator, "<") {
        Some(OpCode::Less)
    } else {
        None
    }
}

/// Whether `after` is `before` with more code and more constants behind
/// what `before` holds.
pub open spec fn extends(before: ChunkModel, after: ChunkModel) -> bool {
    &&& before.code.len() <= after.code.len()
    &&& forall|i: int| 0 <= i < before.code.len() ==> after.code[i] == before.code[i]
    &&& before.constants.len() <= after.constants.len()
    &&& forall|i: int|
        0 <= i < before.constants.len() ==> after.constants[i] == before.constants[i]
    &&& before.well_formed() ==> after.well_formed()
    &&& before.constants.len() <= MAX_BYTE_OPERAND + 1 ==> after.constants.len()
        <= MAX_BYTE_OPERAND + 1
}

/// Whether every byte of the chunk's code has its line and every constant
/// has an index of one byte.
pub open spec fn compact(c: ChunkModel) -> bool {
    c.well_formed() && c.constants.len() <= MAX_BYTE_OPERAND + 1
}

/// The chunk of a program is compact.
pub proof fn program_chunk_is_compact(p: Program)
    requires
        lower_program(p) is Ok,
    ensures
        compact(lower_program(p)->Ok_0),
{
    lowering_extends_block(p.body@, Map::empty(), ChunkModel::empty());
}

/// The chunk of a declared function is compact.
pub proof fn function_chunk_is_compact(f: FuncDecl)
    requires
        lower_function(f) is Ok,
    ensures
        compact(lower_function(f)->Ok_0.chunk),
{
    lowering_extends_block(f.body.body@, parameter_slots(f.params@), ChunkModel::empty());
}

/// Lowering an expression leaves what the chunk held and adds to it.
pub proof fn lowering_extends_expr(e: Expression, locals: Map<Seq<char>, usize>, c: ChunkModel)
    ensures
        lower_expr(e, locals, c) matches Ok(after) ==> extends(c, after),
    decreases e,
{
    match e {
        Expression::ArrayLiteral(a) => {
            lowering_extends_exprs(a.elements@, locals, c);
        },
        Expression::IndexExpr(i) => {
            lowering_extends_expr(*i.object, locals, c);
            if let Ok(c1) = lower_expr(*i.object, locals, c) {
                lowering_extends_expr(*i.index, locals, c1);
            }
        },
        Expression::CallExpr(call) => {
            lowering_extends_expr(*call.callee, locals, c);
            if let Ok(c1) = lower_expr(*call.callee, locals, c) {
                lowering_extends_exprs(call.arguments@, locals, c1);
            }
        },
        Expression::BinaryExpr(b) => {
            lowering_extends_expr(*b.left, locals, c);
            if let Ok(c1) = lower_expr(*b.left, locals, c) {
                lowering_extends_expr(*b.right, locals, c1);
            }
        },
        _ => {},
    }
}

/// Lowering expressions leaves what the chunk held and adds to it.
pub proof fn lowering_extends_exprs(
    es: Seq<Expression>,
    locals: Map<Seq<char>, usize>,
    c: ChunkModel,
)
    ensures
        lower_exprs(es, locals, c) matches Ok(after) ==> extends(c, after),
    decreases es,
{
    if es.len() > 0 {
        lowering_extends_exprs(es.drop_last(), locals, c);
        if let Ok(c1) = lower_exprs(es.drop_last(), locals, c) {
            lowering_extends_expr(es.last(), locals, c1);
        }
    }
}

/// Lowering a statement leaves what the chunk held and adds to it: a jump
/// is only ever patched inside the code of the statement that emitted it.
pub proof fn lowering_extends_stmt(s: Statement, locals: Map<Seq<char>, usize>, c: ChunkModel)
    ensures
        lower_stmt(s, locals, c) matches Ok(after) ==> extends(c, after),
    decreases s,
{
    match s {
        Statement::LetStmt(l) => {
            lowering_extends_expr(l.value, locals, c);
        },
        Statement::AssignStmt(a) => {
            match a.target {
                Expression::Identifier(id) => {
                    lowering_extends_expr(a.value, locals, c);
                },
                Expression::IndexExpr(ix) => {
                    lowering_extends_expr(*ix.object, locals, c);
                    if let Ok(c1) = lower_expr(*ix.object, locals, c) {
                        lowering_extends_expr(*ix.index, locals, c1);
                        if let Ok(c2) = lower_expr(*ix.index, locals, c1) {
                            lowering_extends_expr(a.value, locals, c2);
                        }
                    }
                },
                _ => {},
            }
        },
        Statement::ExprStmt(x) => {
            lowering_extends_expr(x.expression, locals, c);
        },
        Statement::ShowStmt(x) => {
            lowering_extends_expr(x.expression, locals, c);
        },
        Statement::IfStmt(i) => {
            let line = line_or_zero(i.loc) as usize;
            lowering_extends_expr(i.condition, locals, c);
            if let Ok(c1) = lower_expr(i.condition, locals, c) {
                let c2 = emit_jump(c1, OpCode::JumpIfFalse, line).write_op(OpCode::Pop, line);
                lowering_extends_block(i.then_block.body@, locals, c2);
                if let Ok(c3) = lower_block(i.then_block.body@, locals, c2) {
                    if let Ok(c4) = patch_jump(
                        emit_jump(c3, OpCode::Jump, line),
                        c1.code.len() as int + 1,
                    ) {
                        let c5 = c4.write_op(OpCode::Pop, line);
                        if let Some(b) = i.else_block {
                            lowering_extends_block(b.body@, locals, c5);
                        }
                    }
                }
            }
        },
        Statement::WhileStmt(w) => {
            let line = line_or_zero(w.loc) as usize;
            lowering_extends_expr(w.condition, locals, c);
            if let Ok(c1) = lower_expr(w.condition, locals, c) {
                let c2 = emit_jump(c1, OpCode::JumpIfFalse, line).write_op(OpCode::Pop, line);
                lowering_extends_block(w.body.body@, locals, c2);
            }
        },
        Statement::RepeatStmt(r) => {
            let line = line_or_zero(r.loc) as usize;
            lowering_extends_expr(r.count, locals, c);
            if let Ok(c1) = lower_expr(r.count, locals, c) {
                let c2 = emit_jump(c1, OpCode::RepeatStart, line);
                lowering_extends_block(r.body.body@, locals, c2);
            }
        },
        Statement::ReturnStmt(r) => {
            if let Some(e) = r.argument {
                lowering_extends_expr(e, locals, c);
            }
        },
        Statement::ImportStmt(i) => {},
        Statement::ExportStmt(x) => {
            lowering_extends_stmt(*x.declaration, locals, c);
        },
        Statement::FuncDecl(f) => {},
        Statement::Block(b) => {
            lowering_extends_block(b.body@, locals, c);
        },
    }
}

/// Lowering statements leaves what the chunk held and adds to it.
pub proof fn lowering_extends_block(
    stmts: Seq<Statement>,
    locals: Map<Seq<char>, usize>,
    c: ChunkModel,
)
    ensures
        lower_block(stmts, locals, c) matches Ok(after) ==> extends(c, after),
    decreases stmts,
{
    if stmts.len() > 0 {
        lowering_extends_block(stmts.drop_last(), locals, c);
        if let Ok(c1) = lower_block(stmts.drop_last(), locals, c) {
            lowering_extends_stmt(stmts.last(), locals, c1);
        }
    }
}

/// Statements that fail to lower make every longer list of statements fail
/// with the same error.
proof fn lower_block_fails(
    stmts: Seq<Statement>,
    n: int,
    locals: Map<Seq<char>, usize>,
    c: ChunkModel,
)
    requires
        0 <= n <= stmts.len(),
        lower_block(stmts.take(n), locals, c) is Err,
    ensures
        lower_block(stmts, locals, c) == lower_block(stmts.take(n), locals, c),
    decreases stmts.len() - n,
{
    if n < stmts.len() {
        assert(stmts.take(n + 1).drop_last() =~= stmts.take(n));
        lower_block_fails(stmts, n + 1, locals, c);
    } else {
        assert(stmts.take(n) =~= stmts);
    }
}

/// Expressions that fail to lower make every longer list of expressions
/// fail with the same error.
proof fn lower_exprs_fails(
    es: Seq<Expression>,
    n: int,
    locals: Map<Seq<char>, usize>,
    c: ChunkModel,
)
    requires
        0 <= n <= es.len(),
        lower_exprs(es.take(n), locals, c) is Err,
    ensures
        lower_exprs(es, locals, c) == lower_exprs(es.take(n), locals, c),
    decreases es.len() - n,
{
    if n < es.len() {
        assert(es.take(n + 1).drop_last() =~= es.take(n));
        lower_exprs_fails(es, n + 1, locals, c);
    } else {
        assert(es.take(n) =~= es);
    }
}

} // verus!
