//! What holds of the compiler and the machine together: where the code of a
//! statement stands in a compiled chunk, where the jumps that the compiler
//! emits land when the machine executes them, and that calling a function
//! gives what running its body gives.

use vstd::prelude::*;
use crate::ast::{FuncDecl, IfStmt, Program, RepeatStmt, Statement, WhileStmt, line_or_zero};
use crate::chunk::{OpCode, operand_u16};
use crate::compiler::{
    emit_jump, emit_loop, extends, lower_block, lower_expr, lower_function, lower_program,
    lower_stmt, lowering_extends_block, lowering_extends_expr, lowering_extends_stmt,
    parameter_slots, patch_jump,
};
use crate::env::chain_store;
use crate::errors::ErrorModel;
use crate::host::AnswersModel;
use crate::value::{ChunkModel, ValueModel};
use crate::vm::{
    FrameModel, StepModel, VmModel, instruction_spec, jump_if_false_spec, jump_spec,
    loop_spec, proceed, request_spec, state_after, step_spec,
};

verus! {

/// The two-byte operand that `code` holds at `at`.
pub open spec fn operand_at(code: Seq<u8>, at: int) -> nat {
    operand_u16(code[at], code[at + 1])
}

/// Whether `running` holds the code of `piece` from offset `from` to the
/// end of `piece`, and the constants of `piece`.
pub open spec fn holds_code(running: ChunkModel, piece: ChunkModel, from: int) -> bool {
    &&& piece.code.len() <= running.code.len()
    &&& forall|i: int| from <= i < piece.code.len() ==> running.code[i] == piece.code[i]
    &&& piece.constants.len() <= running.constants.len()
    &&& forall|i: int|
        0 <= i < piece.constants.len() ==> running.constants[i] == piece.constants[i]
}

/// A patched jump spans the code from behind its operand to the end of the
/// code as it stood when the jump was patched. Nothing but the operand
/// changes.
pub proof fn patched_jump_spans_to_end(c: ChunkModel, at: int)
    requires
        0 <= at,
        at + 2 <= c.code.len(),
        patch_jump(c, at) is Ok,
    ensures
        ({
            let patched = patch_jump(c, at)->Ok_0;
            &&& patched.code.len() == c.code.len()
            &&& at + 2 + operand_at(patched.code, at) == c.code.len()
            &&& forall|i: int|
                0 <= i < c.code.len() && i != at && i != at + 1 ==> patched.code[i] == c.code[i]
            &&& patched.constants == c.constants
            &&& patched.lines == c.lines
        }),
{
    let distance = (c.code.len() - at - 2) as nat;
    crate::chunk::operand_bytes_encode(distance);
}

/// A backward jump spans the code from behind its operand back to the
/// start that was recorded for it.
pub proof fn loop_spans_to_start(c: ChunkModel, op: OpCode, start: int, line: usize)
    requires
        0 <= start <= c.code.len(),
        emit_loop(c, op, start, line) is Ok,
    ensures
        ({
            let looped = emit_loop(c, op, start, line)->Ok_0;
            let at = c.code.len() as int;
            &&& looped.code.len() == at + 3
            &&& looped.code[at] == op.byte()
            &&& at + 3 - operand_at(looped.code, at + 1) == start
            &&& extends(c, looped)
        }),
{
    let distance = (c.code.len() + 3 - start) as nat;
    crate::chunk::operand_bytes_encode(distance);
}

/// A machine that executes a forward jump whose operand spans to `target`
/// continues at `target`: the operand, added to the pointer behind it, is
/// the target. `Jump` always goes there, `JumpIfFalse` where the top of the
/// stack is falsey.
pub proof fn forward_jump_lands(s: VmModel, target: int)
    requires
        s.frames.len() > 0,
        s.ip() + 3 <= s.chunk().code.len() <= usize::MAX,
        s.ip() + 3 + operand_at(s.chunk().code, s.ip() + 1) == target,
        target <= usize::MAX,
    ensures
        jump_spec(s) == proceed(s.with_ip(target as usize)),
        s.stack.len() > 0 && !s.peek(0).is_truthy() ==> jump_if_false_spec(s) == proceed(
            s.with_ip(target as usize),
        ),
        s.stack.len() > 0 && s.peek(0).is_truthy() ==> jump_if_false_spec(s) == proceed(
            s.with_ip((s.ip() + 3) as usize),
        ),
{
    let next = s.past(2);
    assert(next.with_ip(target as usize) == s.with_ip(target as usize)) by {
        assert(next.frames.update(
            next.frames.len() - 1,
            crate::vm::FrameModel { ip: target as usize, ..next.frame() },
        ) =~= s.frames.update(
            s.frames.len() - 1,
            crate::vm::FrameModel { ip: target as usize, ..s.frame() },
        ));
    }
}

/// A machine that executes a `Loop` whose operand spans back to `start`
/// continues at `start`.
pub proof fn backward_jump_lands(s: VmModel, start: int)
    requires
        s.frames.len() > 0,
        s.ip() + 3 <= s.chunk().code.len() <= usize::MAX,
        s.ip() + 3 - operand_at(s.chunk().code, s.ip() + 1) == start,
        0 <= start,
    ensures
        loop_spec(s) == proceed(s.with_ip(start as usize)),
{
    let next = s.past(2);
    assert(next.with_ip(start as usize) == s.with_ip(start as usize)) by {
        assert(next.frames.update(
            next.frames.len() - 1,
            crate::vm::FrameModel { ip: start as usize, ..next.frame() },
        ) =~= s.frames.update(
            s.frames.len() - 1,
            crate::vm::FrameModel { ip: start as usize, ..s.frame() },
        ));
    }
}

/// Where the parts of a lowered `while` stand in the code.
pub struct LoopLayout {
    /// The first byte of the condition: where the loop starts over.
    pub start: int,
    /// The `JumpIfFalse` that tests the condition.
    pub test: int,
    /// The first byte of the body.
    pub body: int,
    /// The `Loop` that jumps back.
    pub back: int,
    /// The `Pop` that discards the condition when the loop is left.
    pub exit: int,
    /// The first byte behind the statement.
    pub end: int,
}

/// The chunk after the condition of a `while` is lowered.
pub open spec fn while_condition(
    w: WhileStmt,
    locals: Map<Seq<char>, usize>,
    c: ChunkModel,
) -> ChunkModel {
    lower_expr(w.condition, locals, c)->Ok_0
}

/// The chunk after the body of a `while` is lowered.
pub open spec fn while_body(w: WhileStmt, locals: Map<Seq<char>, usize>, c: ChunkModel) -> ChunkModel {
    let line = line_or_zero(w.loc) as usize;
    lower_block(
        w.body.body@,
        locals,
        emit_jump(while_condition(w, locals, c), OpCode::JumpIfFalse, line).write_op(
            OpCode::Pop,
            line,
        ),
    )->Ok_0
}

pub open spec fn while_layout(w: WhileStmt, locals: Map<Seq<char>, usize>, c: ChunkModel) -> LoopLayout {
    let test = while_condition(w, locals, c).code.len() as int;
    let back = while_body(w, locals, c).code.len() as int;
    LoopLayout { start: c.code.len() as int, test, body: test + 4, back, exit: back + 3, end: back + 4 }
}

/// The code of a `while`: the condition, a `JumpIfFalse` to the exit, a
/// `Pop`, the body, a `Loop` back to the condition, and at the exit a `Pop`.
/// The forward jump lands on the exit `Pop`, the backward jump on the first
/// byte of the condition.
pub proof fn while_is_laid_out(w: WhileStmt, locals: Map<Seq<char>, usize>, c: ChunkModel)
    requires
        lower_stmt(Statement::WhileStmt(w), locals, c) is Ok,
    ensures
        ({
            let done = lower_stmt(Statement::WhileStmt(w), locals, c)->Ok_0;
            let l = while_layout(w, locals, c);
            &&& lower_expr(w.condition, locals, c) == Ok::<ChunkModel, ErrorModel>(
                while_condition(w, locals, c),
            )
            &&& l.start <= l.test
            &&& l.body <= l.back
            &&& l.end == done.code.len()
            &&& holds_code(done, while_condition(w, locals, c), 0)
            &&& holds_code(done, while_body(w, locals, c), l.body)
            &&& extends(c, done)
            &&& done.code[l.test] == OpCode::JumpIfFalse.byte()
            &&& l.test + 3 + operand_at(done.code, l.test + 1) == l.exit
            &&& done.code[l.test + 3] == OpCode::Pop.byte()
            &&& done.code[l.back] == OpCode::Loop.byte()
            &&& l.back + 3 - operand_at(done.code, l.back + 1) == l.start
            &&& done.code[l.exit] == OpCode::Pop.byte()
        }),
{
    let line = line_or_zero(w.loc) as usize;
    let c1 = while_condition(w, locals, c);
    lowering_extends_expr(w.condition, locals, c);
    let c2 = emit_jump(c1, OpCode::JumpIfFalse, line).write_op(OpCode::Pop, line);
    let c3 = while_body(w, locals, c);
    lowering_extends_block(w.body.body@, locals, c2);
    let c4 = emit_loop(c3, OpCode::Loop, c.code.len() as int, line)->Ok_0;
    loop_spans_to_start(c3, OpCode::Loop, c.code.len() as int, line);
    patched_jump_spans_to_end(c4, c1.code.len() as int + 1);
}

/// Where the parts of a lowered conditional stand in the code.
pub struct ConditionalLayout {
    /// The `JumpIfFalse` that tests the condition.
    pub test: int,
    /// The first byte of the then-branch.
    pub then_branch: int,
    /// The `Jump` over the else-branch.
    pub skip: int,
    /// The `Pop` that discards the condition where it was falsey; the
    /// else-branch follows it.
    pub otherwise: int,
    /// The first byte behind the statement.
    pub end: int,
}

/// The chunk after the condition of a conditional is lowered.
pub open spec fn if_condition(i: IfStmt, locals: Map<Seq<char>, usize>, c: ChunkModel) -> ChunkModel {
    lower_expr(i.condition, locals, c)->Ok_0
}

/// The chunk after the then-branch of a conditional is lowered.
pub open spec fn if_then(i: IfStmt, locals: Map<Seq<char>, usize>, c: ChunkModel) -> ChunkModel {
    let line = line_or_zero(i.loc) as usize;
    lower_block(
        i.then_block.body@,
        locals,
        emit_jump(if_condition(i, locals, c), OpCode::JumpIfFalse, line).write_op(
            OpCode::Pop,
            line,
        ),
    )->Ok_0
}

/// The chunk in which the else-branch of a conditional is lowered.
pub open spec fn if_before_else(i: IfStmt, locals: Map<Seq<char>, usize>, c: ChunkModel) -> ChunkModel {
    let line = line_or_zero(i.loc) as usize;
    patch_jump(
        emit_jump(if_then(i, locals, c), OpCode::Jump, line),
        if_condition(i, locals, c).code.len() as int + 1,
    )->Ok_0.write_op(OpCode::Pop, line)
}

/// The chunk after the else-branch of a conditional is lowered.
pub open spec fn if_else(i: IfStmt, locals: Map<Seq<char>, usize>, c: ChunkModel) -> ChunkModel {
    match i.else_block {
        Some(b) => lower_block(b.body@, locals, if_before_else(i, locals, c))->Ok_0,
        None => if_before_else(i, locals, c),
    }
}

pub open spec fn if_layout(i: IfStmt, locals: Map<Seq<char>, usize>, c: ChunkModel) -> ConditionalLayout {
    let test = if_condition(i, locals, c).code.len() as int;
    let skip = if_then(i, locals, c).code.len() as int;
    ConditionalLayout {
        test,
        then_branch: test + 4,
        skip,
        otherwise: skip + 3,
        end: if_else(i, locals, c).code.len() as int,
    }
}

/// The code of a conditional: the condition, a `JumpIfFalse`, a `Pop`, the
/// then-branch, a `Jump` to the end, a `Pop`, the else-branch. The
/// conditional jump lands on the second `Pop`, the unconditional one on the
/// first byte behind the statement.
pub proof fn if_is_laid_out(i: IfStmt, locals: Map<Seq<char>, usize>, c: ChunkModel)
    requires
        lower_stmt(Statement::IfStmt(i), locals, c) is Ok,
    ensures
        ({
            let done = lower_stmt(Statement::IfStmt(i), locals, c)->Ok_0;
            let l = if_layout(i, locals, c);
            &&& lower_expr(i.condition, locals, c) == Ok::<ChunkModel, ErrorModel>(
                if_condition(i, locals, c),
            )
            &&& c.code.len() <= l.test
            &&& l.then_branch <= l.skip
            &&& l.otherwise + 1 <= l.end
            &&& l.end == done.code.len()
            &&& holds_code(done, if_condition(i, locals, c), 0)
            &&& holds_code(done, if_then(i, locals, c), l.then_branch)
            &&& holds_code(done, if_else(i, locals, c), l.otherwise + 1)
            &&& extends(c, done)
            &&& done.code[l.test] == OpCode::JumpIfFalse.byte()
            &&& l.test + 3 + operand_at(done.code, l.test + 1) == l.otherwise
            &&& done.code[l.test + 3] == OpCode::Pop.byte()
            &&& done.code[l.skip] == OpCode::Jump.byte()
            &&& l.skip + 3 + operand_at(done.code, l.skip + 1) == l.end
            &&& done.code[l.otherwise] == OpCode::Pop.byte()
        }),
{
    let line = line_or_zero(i.loc) as usize;
    let c1 = if_condition(i, locals, c);
    lowering_extends_expr(i.condition, locals, c);
    let c2 = emit_jump(c1, OpCode::JumpIfFalse, line).write_op(OpCode::Pop, line);
    let c3 = if_then(i, locals, c);
    lowering_extends_block(i.then_block.body@, locals, c2);
    let jumped = emit_jump(c3, OpCode::Jump, line);
    patched_jump_spans_to_end(jumped, c1.code.len() as int + 1);
    let c5 = if_before_else(i, locals, c);
    if let Some(b) = i.else_block {
        lowering_extends_block(b.body@, locals, c5);
    }
    patched_jump_spans_to_end(if_else(i, locals, c), c3.code.len() as int + 1);
}

/// Where the parts of a lowered `repeat` stand in the code.
pub struct RepeatLayout {
    /// The `RepeatStart` that takes the count.
    pub enter: int,
    /// The first byte of the body.
    pub body: int,
    /// The `RepeatEnd` that counts down.
    pub back: int,
    /// The first byte behind the statement.
    pub end: int,
}

/// The chunk after the count of a `repeat` is lowered.
pub open spec fn repeat_count_code(
    r: RepeatStmt,
    locals: Map<Seq<char>, usize>,
    c: ChunkModel,
) -> ChunkModel {
    lower_expr(r.count, locals, c)->Ok_0
}

/// The chunk after the body of a `repeat` is lowered.
pub open spec fn repeat_body(r: RepeatStmt, locals: Map<Seq<char>, usize>, c: ChunkModel) -> ChunkModel {
    let line = line_or_zero(r.loc) as usize;
    lower_block(
        r.body.body@,
        locals,
        emit_jump(repeat_count_code(r, locals, c), OpCode::RepeatStart, line),
    )->Ok_0
}

pub open spec fn repeat_layout(r: RepeatStmt, locals: Map<Seq<char>, usize>, c: ChunkModel) -> RepeatLayout {
    let enter = repeat_count_code(r, locals, c).code.len() as int;
    let back = repeat_body(r, locals, c).code.len() as int;
    RepeatLayout { enter, body: enter + 3, back, end: back + 3 }
}

/// The code of a `repeat`: the count, a `RepeatStart` that jumps behind the
/// statement, the body, a `RepeatEnd` that jumps back to the first byte of
/// the body.
pub proof fn repeat_is_laid_out(r: RepeatStmt, locals: Map<Seq<char>, usize>, c: ChunkModel)
    requires
        lower_stmt(Statement::RepeatStmt(r), locals, c) is Ok,
    ensures
        ({
            let done = lower_stmt(Statement::RepeatStmt(r), locals, c)->Ok_0;
            let l = repeat_layout(r, locals, c);
            &&& lower_expr(r.count, locals, c) == Ok::<ChunkModel, ErrorModel>(
                repeat_count_code(r, locals, c),
            )
            &&& c.code.len() <= l.enter
            &&& l.body <= l.back
            &&& l.end == done.code.len()
            &&& holds_code(done, repeat_count_code(r, locals, c), 0)
            &&& holds_code(done, repeat_body(r, locals, c), l.body)
            &&& extends(c, done)
            &&& done.code[l.enter] == OpCode::RepeatStart.byte()
            &&& l.enter + 3 + operand_at(done.code, l.enter + 1) == l.end
            &&& done.code[l.back] == OpCode::RepeatEnd.byte()
            &&& l.back + 3 - operand_at(done.code, l.back + 1) == l.body
        }),
{
    let line = line_or_zero(r.loc) as usize;
    let c1 = repeat_count_code(r, locals, c);
    lowering_extends_expr(r.count, locals, c);
    let c2 = emit_jump(c1, OpCode::RepeatStart, line);
    let c3 = repeat_body(r, locals, c);
    lowering_extends_block(r.body.body@, locals, c2);
    let c4 = emit_loop(c3, OpCode::RepeatEnd, c2.code.len() as int, line)->Ok_0;
    loop_spans_to_start(c3, OpCode::RepeatEnd, c2.code.len() as int, line);
    patched_jump_spans_to_end(c4, c1.code.len() as int + 1);
}

/// A machine that stands on the test of a `while` with a falsey condition
/// on its stack leaves the loop: two steps later the condition is discarded
/// and the pointer stands behind the statement, whatever the host answers.
pub proof fn while_exits_on_falsey_condition(
    w: WhileStmt,
    locals: Map<Seq<char>, usize>,
    c: ChunkModel,
    s: VmModel,
    first: AnswersModel,
    second: AnswersModel,
)
    requires
        lower_stmt(Statement::WhileStmt(w), locals, c) is Ok,
        s.frames.len() > 0,
        holds_code(s.chunk(), lower_stmt(Statement::WhileStmt(w), locals, c)->Ok_0, c.code.len() as int),
        s.chunk().code.len() <= usize::MAX,
        s.ip() == while_layout(w, locals, c).test,
        s.stack.len() > 0,
        !s.peek(0).is_truthy(),
        s.executed + 2 <= s.config.max_instructions,
    ensures
        ({
            let l = while_layout(w, locals, c);
            &&& step_spec(s, first) matches Ok((mid, StepModel::Continue))
            &&& step_spec(mid, second) matches Ok((end, StepModel::Continue))
            &&& end.ip() == l.end
            &&& end.stack == s.stack.drop_last()
            &&& end.frames.len() == s.frames.len()
        }),
{
    reveal(step_spec);
    while_is_laid_out(w, locals, c);
    let l = while_layout(w, locals, c);
    forward_jump_lands(s.counted(), l.exit);
}

/// A machine that stands on the `Loop` of a `while` continues at the first
/// byte of the condition: the pointer after the jump is the start that was
/// recorded for the loop.
pub proof fn while_loops_back_to_start(
    w: WhileStmt,
    locals: Map<Seq<char>, usize>,
    c: ChunkModel,
    s: VmModel,
    answers: AnswersModel,
)
    requires
        lower_stmt(Statement::WhileStmt(w), locals, c) is Ok,
        s.frames.len() > 0,
        holds_code(s.chunk(), lower_stmt(Statement::WhileStmt(w), locals, c)->Ok_0, c.code.len() as int),
        s.chunk().code.len() <= usize::MAX,
        s.ip() == while_layout(w, locals, c).back,
        s.executed < s.config.max_instructions,
    ensures
        step_spec(s, answers) == Ok::<(VmModel, StepModel), ErrorModel>(
            (s.counted().with_ip(c.code.len() as usize), StepModel::Continue),
        ),
{
    reveal(step_spec);
    while_is_laid_out(w, locals, c);
    backward_jump_lands(s.counted(), c.code.len() as int);
}

/// Whether machine `outer` runs what machine `inner` runs, on top of
/// `below` frames of its callers.
///
/// Above those frames `outer` has the frames of `inner`. The stack, the
/// counters, the globals, the heap, the output, the modules and the exports
/// are the same. Both have the same room left: as many further frames and as
/// many further instructions.
pub open spec fn runs_on_top(outer: VmModel, inner: VmModel, below: nat) -> bool {
    &&& outer.frames.len() == inner.frames.len() + below
    &&& inner.frames == outer.frames.skip(below as int)
    &&& outer.stack == inner.stack
    &&& outer.counters == inner.counters
    &&& outer.globals == inner.globals
    &&& outer.heap == inner.heap
    &&& outer.output == inner.output
    &&& outer.modules == inner.modules
    &&& outer.exports == inner.exports
    &&& outer.config.max_call_depth == inner.config.max_call_depth + below
    &&& outer.config.max_instructions - outer.executed == inner.config.max_instructions
        - inner.executed
}

/// Whether `after` is what `outer` becomes by the step that took `inner` to
/// `inner_after` and ended in `how`. While the inner run continues, the
/// outer machine goes on running it. When the inner run returns its result,
/// the outer machine is back in its callers: their frames are left, the
/// stack is cut back to the base of the frame that returned, and the result
/// is pushed.
pub open spec fn follows(
    after: VmModel,
    outer: VmModel,
    inner: VmModel,
    inner_after: VmModel,
    how: StepModel,
    below: nat,
) -> bool {
    match how {
        StepModel::Continue => runs_on_top(after, inner_after, below),
        StepModel::Return(v) => {
            &&& after.frames == outer.frames.take(below as int)
            &&& after.stack == crate::vm::stack_below(inner_after.stack, inner.frames[0].bp).push(v)
            &&& after.counters == inner_after.counters
            &&& after.globals == inner_after.globals
            &&& after.heap == inner_after.heap
            &&& after.output == inner_after.output
            &&& after.modules == inner_after.modules
            &&& after.exports == inner_after.exports
            &&& after.config == outer.config
        },
        StepModel::Done => false,
    }
}

/// How a step of the outer machine ends that ends as `how` in the inner
/// one: the return of the inner run is no return of the program.
pub open spec fn seen_from_outside(how: StepModel) -> StepModel {
    match how {
        StepModel::Return(_) => StepModel::Continue,
        other => other,
    }
}

/// The top frame of the outer machine is the top frame of the inner one.
proof fn same_top_frame(outer: VmModel, inner: VmModel, below: nat)
    requires
        inner.frames.len() > 0,
        runs_on_top(outer, inner, below),
    ensures
        outer.frame() == inner.frame(),
        outer.chunk() == inner.chunk(),
        outer.ip() == inner.ip(),
        outer.location() == inner.location(),
        forall|ip: usize| #[trigger]
            runs_on_top(
                outer.with_ip(ip),
                inner.with_ip(ip),
                below,
            ),
        forall|n: nat| #[trigger] runs_on_top(outer.past(n), inner.past(n), below),
{
    assert forall|ip: usize| #[trigger]
        runs_on_top(outer.with_ip(ip), inner.with_ip(ip), below) by {
        assert(inner.with_ip(ip).frames =~= outer.with_ip(ip).frames.skip(below as int));
    }
    assert forall|n: nat| #[trigger] runs_on_top(outer.past(n), inner.past(n), below) by {}
}

/// `Return` in the inner machine is `Return` in the outer one.
proof fn return_simulates(outer: VmModel, inner: VmModel, below: nat)
    requires
        below > 0,
        inner.frames.len() > 0,
        runs_on_top(outer, inner, below),
    ensures
        crate::vm::return_spec(outer) matches Ok((after, how)) && how == seen_from_outside(
            crate::vm::return_spec(inner)->Ok_0.1,
        ) && follows(
            after,
            outer,
            inner,
            crate::vm::return_spec(inner)->Ok_0.0,
            crate::vm::return_spec(inner)->Ok_0.1,
            below,
        ),
{
    same_top_frame(outer, inner, below);
    let after = crate::vm::return_spec(outer)->Ok_0.0;
    let inner_after = crate::vm::return_spec(inner)->Ok_0.0;
    if inner.frames.len() > 1 {
        assert(inner_after.frames =~= after.frames.skip(below as int));
    }
}

/// `Call` in the inner machine is `Call` in the outer one.
proof fn call_simulates(outer: VmModel, inner: VmModel, below: nat)
    requires
        inner.frames.len() > 0,
        runs_on_top(outer, inner, below),
    ensures
        match crate::vm::call_spec(inner) {
            Ok((inner_after, how)) => crate::vm::call_spec(outer) matches Ok((after, same))
                && same == how && runs_on_top(after, inner_after, below),
            Err(e) => crate::vm::call_spec(outer) == Err::<(VmModel, StepModel), ErrorModel>(e),
        },
{
    same_top_frame(outer, inner, below);
    if let Ok((inner_after, how)) = crate::vm::call_spec(inner) {
        let after = crate::vm::call_spec(outer)->Ok_0.0;
        assert(inner_after.frames =~= after.frames.skip(below as int));
    }
}

/// One instruction of the inner machine is one instruction of the outer
/// machine: the outer one succeeds where the inner one does, and then
/// follows it; it fails where the inner one fails, with the same error.
proof fn instruction_simulates(
    outer: VmModel,
    inner: VmModel,
    below: nat,
    op: OpCode,
    answers: AnswersModel,
)
    requires
        below > 0,
        inner.frames.len() > 0,
        runs_on_top(outer, inner, below),
    ensures
        match instruction_spec(inner, op, answers) {
            Ok((inner_after, how)) => instruction_spec(outer, op, answers) matches Ok(
                (after, seen),
            ) && seen == seen_from_outside(how) && follows(
                after,
                outer,
                inner,
                inner_after,
                how,
                below,
            ),
            Err(e) => instruction_spec(outer, op, answers) == Err::<
                (VmModel, StepModel),
                ErrorModel,
            >(e),
        },
{
    same_top_frame(outer, inner, below);
    assert(runs_on_top(outer.past(0), inner.past(0), below));
    assert(runs_on_top(outer.past(1), inner.past(1), below));
    assert(runs_on_top(outer.past(2), inner.past(2), below));
    match op {
        OpCode::Return => {
            return_simulates(outer, inner, below);
        },
        OpCode::Call => {
            call_simulates(outer, inner, below);
        },
        OpCode::Jump | OpCode::JumpIfFalse | OpCode::RepeatStart => {
            same_top_frame(outer.past(2), inner.past(2), below);
            same_top_frame(outer.past(2).popped(1), inner.past(2).popped(1), below);
        },
        OpCode::Loop => {
            same_top_frame(outer.past(2), inner.past(2), below);
        },
        OpCode::RepeatEnd => {
            if inner.counters.len() > 0 {
                let left = inner.counters.last();
                let counted_out = VmModel {
                    counters: outer.counters.update(outer.counters.len() - 1, (left - 1) as usize),
                    ..outer.past(2)
                };
                let counted_in = VmModel {
                    counters: inner.counters.update(inner.counters.len() - 1, (left - 1) as usize),
                    ..inner.past(2)
                };
                same_top_frame(counted_out, counted_in, below);
            }
        },
        _ => {},
    }
}

/// One step of the inner machine is one step of the outer machine, for the
/// same request to the host and the same answers.
pub proof fn step_simulates(outer: VmModel, inner: VmModel, below: nat, answers: AnswersModel)
    requires
        below > 0,
        inner.frames.len() > 0,
        runs_on_top(outer, inner, below),
    ensures
        request_spec(outer) == request_spec(inner),
        match step_spec(inner, answers) {
            Ok((inner_after, how)) => step_spec(outer, answers) matches Ok((after, seen)) && seen
                == seen_from_outside(how) && follows(after, outer, inner, inner_after, how, below),
            Err(e) => step_spec(outer, answers) == Err::<(VmModel, StepModel), ErrorModel>(e),
        },
{
    reveal(step_spec);
    same_top_frame(outer, inner, below);
    if inner.executed < inner.config.max_instructions {
        if let Some(op) = OpCode::decode(inner.byte_ahead(0)) {
            assert(runs_on_top(outer.counted(), inner.counted(), below)) by {
            }
            instruction_simulates(outer.counted(), inner.counted(), below, op, answers);
        }
    }
}

/// A machine that can continue has a frame, before the step and after it.
pub proof fn continuing_keeps_a_frame(s: VmModel, answers: AnswersModel)
    requires
        step_spec(s, answers) matches Ok((_, StepModel::Continue)),
    ensures
        s.frames.len() > 0,
        step_spec(s, answers)->Ok_0.0.frames.len() > 0,
{
    reveal(step_spec);
    if s.frames.len() > 0 && s.executed < s.config.max_instructions {
        if let Some(op) = OpCode::decode(s.byte_ahead(0)) {
            instruction_keeps_a_frame(s.counted(), op, answers);
        }
    }
}

/// An instruction that lets the machine continue leaves it a frame.
proof fn instruction_keeps_a_frame(s: VmModel, op: OpCode, answers: AnswersModel)
    requires
        s.frames.len() > 0,
        instruction_spec(s, op, answers) matches Ok((_, StepModel::Continue)),
    ensures
        instruction_spec(s, op, answers)->Ok_0.0.frames.len() > 0,
{
}

/// The steps of the inner machine are steps of the outer machine: as long
/// as the inner run continues, the outer machine runs it on top of its
/// callers' frames.
pub proof fn run_simulates(outer: VmModel, inner: VmModel, below: nat, answers: Seq<AnswersModel>)
    requires
        below > 0,
        inner.frames.len() > 0,
        runs_on_top(outer, inner, below),
        state_after(inner, answers) is Some,
    ensures
        state_after(outer, answers) matches Some(after) && runs_on_top(
            after,
            state_after(inner, answers)->Some_0,
            below,
        ),
        state_after(inner, answers)->Some_0.frames.len() > 0,
    decreases answers.len(),
{
    if answers.len() > 0 {
        run_simulates(outer, inner, below, answers.drop_last());
        let inner_mid = state_after(inner, answers.drop_last())->Some_0;
        let outer_mid = state_after(outer, answers.drop_last())->Some_0;
        step_simulates(outer_mid, inner_mid, below, answers.last());
        continuing_keeps_a_frame(inner_mid, answers.last());
    }
}

/// The machine that runs the function of the topmost frame of `s` by
/// itself: its only frame is that frame, the stack is the same (so that the
/// frame's window holds the arguments), and it has as much room for frames
/// and instructions as `s` has left.
pub open spec fn body_alone(s: VmModel) -> VmModel {
    VmModel {
        frames: seq![s.frame()],
        config: crate::host::InterpreterConfig {
            max_call_depth: (s.config.max_call_depth - (s.frames.len() - 1)) as usize,
            ..s.config
        },
        ..s
    }
}

/// Calling a function gives what running its body gives.
///
/// Let a machine execute a `Call` that succeeds, and let the callee's body,
/// run by itself on the same stack (its parameters bound to the arguments:
/// local `i` is argument `i`), return `v` after some steps. Then the calling
/// machine, given the same answers by the host, takes the same steps and is
/// back in the caller: the frames are the caller's, with the pointer behind
/// the `Call`; the stack is cut back to the callee's window and holds `v` on
/// top; and the globals, the heap, the output and the exports are those that
/// the body left.
pub proof fn call_gives_what_the_body_gives(
    caller: VmModel,
    first: AnswersModel,
    answers: Seq<AnswersModel>,
)
    requires
        caller.frames.len() > 0,
        caller.frames.len() < caller.config.max_call_depth,
        OpCode::decode(caller.byte_ahead(0)) == Some(OpCode::Call),
        step_spec(caller, first) matches Ok((entered, StepModel::Continue)),
        answers.len() > 0,
        state_after(body_alone(step_spec(caller, first)->Ok_0.0), answers.drop_last()) is Some,
        step_spec(
            state_after(
                body_alone(step_spec(caller, first)->Ok_0.0),
                answers.drop_last(),
            )->Some_0,
            answers.last(),
        ) matches Ok((_, StepModel::Return(_))),
    ensures
        ({
            let entered = step_spec(caller, first)->Ok_0.0;
            let last = state_after(body_alone(entered), answers.drop_last())->Some_0;
            let end = step_spec(last, answers.last())->Ok_0.0;
            let v = step_spec(last, answers.last())->Ok_0.1->Return_0;
            let back = state_after(caller, seq![first] + answers)->Some_0;
            &&& state_after(caller, seq![first] + answers) is Some
            &&& entered.frames.len() == caller.frames.len() + 1
            &&& entered.frame().ip == 0
            &&& entered.stack == caller.stack
            &&& back.frames == entered.frames.drop_last()
            &&& back.stack == crate::vm::stack_below(end.stack, entered.frame().bp).push(v)
            &&& back.globals == end.globals
            &&& back.heap == end.heap
            &&& back.output == end.output
            &&& back.exports == end.exports
        }),
{
    let entered = step_spec(caller, first)->Ok_0.0;
    assert(entered.frames.len() == caller.frames.len() + 1 && entered.frame().ip == 0
        && entered.stack == caller.stack && entered.config == caller.config) by {
        reveal(step_spec);
    }
    let alone = body_alone(entered);
    let below = caller.frames.len();
    assert(runs_on_top(entered, alone, below)) by {
        assert(alone.frames =~= entered.frames.skip(below as int));
    }
    run_simulates(entered, alone, below, answers.drop_last());
    let last = state_after(alone, answers.drop_last())->Some_0;
    let outer_last = state_after(entered, answers.drop_last())->Some_0;
    step_simulates(outer_last, last, below, answers.last());
    assert(state_after(caller, seq![first]) == Some(entered)) by {
        reveal_with_fuel(state_after, 2);
    }
    steps_join(caller, seq![first], answers.drop_last());
    assert(seq![first] + answers.drop_last() =~= (seq![first] + answers).drop_last());
    frames_below_stay(entered, alone, below, answers.drop_last());
    assert(last.frames[0].bp == entered.frame().bp) by {
        bottom_frame_keeps_base(alone, answers.drop_last());
    }
}

/// Steps taken one after the other are the steps of the joined answers.
pub proof fn steps_join(s: VmModel, first: Seq<AnswersModel>, then: Seq<AnswersModel>)
    requires
        state_after(s, first) is Some,
    ensures
        state_after(s, first + then) == state_after(state_after(s, first)->Some_0, then),
    decreases then.len(),
{
    if then.len() > 0 {
        steps_join(s, first, then.drop_last());
        assert((first + then).drop_last() =~= first + then.drop_last());
    }
}

/// While the inner run continues, the callers' frames below it stay as
/// they are.
proof fn frames_below_stay(outer: VmModel, inner: VmModel, below: nat, answers: Seq<AnswersModel>)
    requires
        below > 0,
        inner.frames.len() > 0,
        runs_on_top(outer, inner, below),
        state_after(inner, answers) is Some,
    ensures
        state_after(outer, answers) matches Some(after) && after.frames.take(below as int)
            == outer.frames.take(below as int),
    decreases answers.len(),
{
    if answers.len() > 0 {
        frames_below_stay(outer, inner, below, answers.drop_last());
        run_simulates(outer, inner, below, answers.drop_last());
        let inner_mid = state_after(inner, answers.drop_last())->Some_0;
        let outer_mid = state_after(outer, answers.drop_last())->Some_0;
        step_simulates(outer_mid, inner_mid, below, answers.last());
        run_simulates(outer, inner, below, answers);
        let after = state_after(outer, answers)->Some_0;
        assert forall|j: int| 0 <= j < below implies after.frames[j] == outer_mid.frames[j] by {
            step_keeps_lower_frames(outer_mid, answers.last(), j);
        }
    }
}

/// A step changes no frame but the topmost: a frame that is there before
/// and after the step keeps its base, and below the topmost frame it keeps
/// everything.
pub proof fn step_keeps_lower_frames(s: VmModel, answers: AnswersModel, j: int)
    requires
        0 <= j < s.frames.len(),
        step_spec(s, answers) matches Ok((next, _)) && j < next.frames.len(),
    ensures
        step_spec(s, answers)->Ok_0.0.frames[j].bp == s.frames[j].bp,
        step_spec(s, answers)->Ok_0.0.frames[j].function == s.frames[j].function,
        j < s.frames.len() - 1 ==> step_spec(s, answers)->Ok_0.0.frames[j] == s.frames[j],
{
    reveal(step_spec);
    if s.executed < s.config.max_instructions {
        if let Some(op) = OpCode::decode(s.byte_ahead(0)) {
            instruction_keeps_lower_frames(s.counted(), op, answers, j);
        }
    }
}

/// An instruction changes no frame but the topmost.
proof fn instruction_keeps_lower_frames(s: VmModel, op: OpCode, answers: AnswersModel, j: int)
    requires
        0 <= j < s.frames.len(),
        instruction_spec(s, op, answers) matches Ok((next, _)) && j < next.frames.len(),
    ensures
        instruction_spec(s, op, answers)->Ok_0.0.frames[j].bp == s.frames[j].bp,
        instruction_spec(s, op, answers)->Ok_0.0.frames[j].function == s.frames[j].function,
        j < s.frames.len() - 1 ==> instruction_spec(s, op, answers)->Ok_0.0.frames[j]
            == s.frames[j],
{
}

/// While a machine continues without leaving its lowest frame, that frame
/// keeps its base.
proof fn bottom_frame_keeps_base(s: VmModel, answers: Seq<AnswersModel>)
    requires
        s.frames.len() > 0,
        state_after(s, answers) is Some,
    ensures
        state_after(s, answers)->Some_0.frames.len() > 0,
        state_after(s, answers)->Some_0.frames[0].bp == s.frames[0].bp,
    decreases answers.len(),
{
    if answers.len() > 0 {
        bottom_frame_keeps_base(s, answers.drop_last());
        let mid = state_after(s, answers.drop_last())->Some_0;
        continuing_keeps_a_frame(mid, answers.last());
        step_keeps_lower_frames(mid, answers.last(), 0);
    }
}

/// A declared function takes as many arguments as the declaration has
/// parameters, and a parameter's name stands for the slot of the last
/// parameter of that name: argument `i` is what parameter `i` names.
pub proof fn declared_function_binds_parameters(f: FuncDecl, i: int)
    requires
        lower_function(f) is Ok,
        0 <= i < f.params@.len(),
        forall|j: int| i < j < f.params@.len() ==> f.params@[j].name@ != f.params@[i].name@,
    ensures
        lower_function(f)->Ok_0.arity == f.params@.len(),
        lower_function(f)->Ok_0.name == f.name.name@,
        parameter_slots(f.params@).contains_key(f.params@[i].name@),
        parameter_slots(f.params@)[f.params@[i].name@] == i,
{
    assert(f.params@.len() == f.params.len());
    slot_of_last_parameter(f.params@, i);
}

/// The slot of a name is the index of the last parameter of that name.
proof fn slot_of_last_parameter(params: Seq<crate::ast::Identifier>, i: int)
    requires
        0 <= i < params.len() <= usize::MAX,
        forall|j: int| i < j < params.len() ==> params[j].name@ != params[i].name@,
    ensures
        parameter_slots(params).contains_key(params[i].name@),
        parameter_slots(params)[params[i].name@] == i,
    decreases params.len(),
{
    if i < params.len() - 1 {
        assert forall|j: int| i < j < params.drop_last().len() implies params.drop_last()[j].name@
            != params.drop_last()[i].name@ by {
        }
        slot_of_last_parameter(params.drop_last(), i);
    }
}

/// A machine that executes the code of a function declaration binds the
/// compiled function to the declared name as a global and leaves the stack
/// as it found it: three steps later the pointer stands behind the
/// statement, whatever the host answers.
pub proof fn declaration_binds_the_function(
    f: FuncDecl,
    locals: Map<Seq<char>, usize>,
    c: ChunkModel,
    s: VmModel,
    first: AnswersModel,
    second: AnswersModel,
    third: AnswersModel,
)
    requires
        lower_stmt(Statement::FuncDecl(f), locals, c) is Ok,
        s.frames.len() > 0,
        holds_code(s.chunk(), lower_stmt(Statement::FuncDecl(f), locals, c)->Ok_0, c.code.len() as int),
        s.chunk().code.len() <= usize::MAX,
        s.ip() == c.code.len(),
        s.executed + 3 <= s.config.max_instructions,
    ensures
        ({
            let done = lower_stmt(Statement::FuncDecl(f), locals, c)->Ok_0;
            &&& lower_function(f) is Ok
            &&& step_spec(s, first) matches Ok((loaded, StepModel::Continue))
            &&& step_spec(loaded, second) matches Ok((stored, StepModel::Continue))
            &&& step_spec(stored, third) matches Ok((end, StepModel::Continue))
            &&& end.ip() == done.code.len()
            &&& end.stack == s.stack
            &&& end.frames.len() == s.frames.len()
            &&& end.globals == chain_store(
                s.globals,
                f.name.name@,
                ValueModel::Function(lower_function(f)->Ok_0),
            )
        }),
{
    reveal(step_spec);
}

/// The first `k` statements of a list that lowers lower too, and the
/// chunk of the whole list extends theirs.
proof fn block_prefix_lowers(
    stmts: Seq<Statement>,
    locals: Map<Seq<char>, usize>,
    c: ChunkModel,
    k: int,
)
    requires
        lower_block(stmts, locals, c) is Ok,
        0 <= k <= stmts.len(),
    ensures
        lower_block(stmts.take(k), locals, c) is Ok,
        extends(lower_block(stmts.take(k), locals, c)->Ok_0, lower_block(stmts, locals, c)->Ok_0),
    decreases stmts.len() - k,
{
    if k == stmts.len() {
        assert(stmts.take(k) =~= stmts);
    } else {
        block_prefix_lowers(stmts, locals, c, k + 1);
        assert(stmts.take(k + 1).drop_last() =~= stmts.take(k));
        let before = lower_block(stmts.take(k), locals, c)->Ok_0;
        lowering_extends_stmt(stmts.take(k + 1).last(), locals, before);
    }
}

/// In the chunk of a list of statements, the code of each statement stands
/// where it was emitted: behind the code of the statements before it.
pub proof fn statement_is_in_place(
    stmts: Seq<Statement>,
    locals: Map<Seq<char>, usize>,
    c: ChunkModel,
    k: int,
)
    requires
        lower_block(stmts, locals, c) is Ok,
        0 <= k < stmts.len(),
    ensures
        ({
            let before = lower_block(stmts.take(k), locals, c)->Ok_0;
            &&& lower_block(stmts.take(k), locals, c) is Ok
            &&& lower_stmt(stmts[k], locals, before) is Ok
            &&& holds_code(
                lower_block(stmts, locals, c)->Ok_0,
                lower_stmt(stmts[k], locals, before)->Ok_0,
                before.code.len() as int,
            )
        }),
{
    block_prefix_lowers(stmts, locals, c, k);
    block_prefix_lowers(stmts, locals, c, k + 1);
    assert(stmts.take(k + 1).drop_last() =~= stmts.take(k));
}

/// In the chunk of a program, the code of each of its statements stands
/// behind the code of the statements before it.
pub proof fn program_statement_is_in_place(p: Program, k: int)
    requires
        lower_program(p) is Ok,
        0 <= k < p.body@.len(),
    ensures
        ({
            let before = lower_block(
                p.body@.take(k),
                Map::empty(),
                ChunkModel::empty(),
            )->Ok_0;
            &&& lower_stmt(p.body@[k], Map::empty(), before) is Ok
            &&& holds_code(
                lower_program(p)->Ok_0,
                lower_stmt(p.body@[k], Map::empty(), before)->Ok_0,
                before.code.len() as int,
            )
        }),
{
    statement_is_in_place(p.body@, Map::empty(), ChunkModel::empty(), k);
}

/// A step takes nothing back of what the program has printed: it adds at
/// most one line.
pub proof fn step_keeps_output(s: VmModel, answers: AnswersModel)
    ensures
        step_spec(s, answers) matches Ok((next, _)) ==> s.output.is_prefix_of(next.output)
            && next.output.len() <= s.output.len() + 1,
{
    reveal(step_spec);
    if s.frames.len() > 0 && s.executed < s.config.max_instructions {
        if let Some(op) = OpCode::decode(s.byte_ahead(0)) {
            instruction_keeps_output(s.counted(), op, answers);
        }
    }
}

/// An instruction takes nothing back of what the program has printed.
proof fn instruction_keeps_output(s: VmModel, op: OpCode, answers: AnswersModel)
    ensures
        instruction_spec(s, op, answers) matches Ok((next, _)) ==> s.output.is_prefix_of(
            next.output,
        ) && next.output.len() <= s.output.len() + 1,
{
}

/// A run takes nothing back of what the program has printed.
pub proof fn run_keeps_output(s: VmModel, answers: Seq<AnswersModel>)
    requires
        state_after(s, answers) is Some,
    ensures
        s.output.is_prefix_of(state_after(s, answers)->Some_0.output),
    decreases answers.len(),
{
    if answers.len() > 0 {
        run_keeps_output(s, answers.drop_last());
        let mid = state_after(s, answers.drop_last())->Some_0;
        step_keeps_output(mid, answers.last());
    }
}

} // verus!
