//! The discard balance of compiled code: every statement leaves the operand
//! stack as deep as it found it, but for the calls that it makes.
//!
//! The balance is shown in two halves. Statically, the code of a statement
//! can be labelled with a depth at every instruction so that each
//! instruction leads from its label to the labels of its successors
//! ([`statement_is_balanced`]). Dynamically, a machine that runs labelled
//! code keeps its stack as deep as the labels say, and one value deeper for
//! every call that returned: the machine leaves the callee's slot below the
//! result ([`statement_leaves_stack_as_deep`],
//! [`statement_leaves_one_value_per_call`]).

use vstd::prelude::*;
use crate::ast::{Expression, IfStmt, LiteralValue, RepeatStmt, Statement, WhileStmt, line_or_zero};
use crate::chunk::{OpCode, operand_bytes_encode};
use crate::compiler::{
    binary_opcode, emit_with_constant, extends, lower_block, lower_expr, lower_exprs,
    lower_stmt, lowering_extends_expr, lowering_extends_exprs, emit_jump, exported_name,
    lower_function, lowering_extends_stmt, store_global,
};

use crate::host::AnswersModel;
use crate::laws::{
    ConditionalLayout, LoopLayout, RepeatLayout, holds_code, step_keeps_lower_frames, if_before_else, if_condition, if_else,
    if_is_laid_out, if_layout, if_then, operand_at, repeat_body, repeat_count_code,
    repeat_is_laid_out, repeat_layout, while_body, while_condition, while_is_laid_out,
    while_layout,
};
use crate::value::{ChunkModel, ValueModel};
use crate::vm::{StepModel, VmModel, instruction_spec, state_after, step_spec};

verus! {

/// By how much an instruction that succeeds changes the depth of the
/// stack. For `Call` this is what the lowering counts on: the result in
/// place of the callee and its arguments.
pub open spec fn depth_effect(op: OpCode, operand: nat) -> int {
    match op {
        OpCode::Constant
        | OpCode::Nil
        | OpCode::True
        | OpCode::False
        | OpCode::GetLocal
        | OpCode::GetGlobal
        | OpCode::Import => 1,
        OpCode::Pop
        | OpCode::Print
        | OpCode::Add
        | OpCode::Sub
        | OpCode::Mul
        | OpCode::Div
        | OpCode::Equal
        | OpCode::Greater
        | OpCode::Less
        | OpCode::IndexGet
        | OpCode::RepeatStart
        | OpCode::Export => -1,
        OpCode::IndexSet => -2,
        OpCode::ArrayLit => 1 - operand,
        OpCode::Call => -operand,
        OpCode::SetLocal
        | OpCode::SetGlobal
        | OpCode::Not
        | OpCode::Jump
        | OpCode::JumpIfFalse
        | OpCode::Loop
        | OpCode::RepeatEnd
        | OpCode::GetProp
        | OpCode::Return => 0,
    }
}

/// Whether the machine can go on with the instruction behind this one.
pub open spec fn falls_through(op: OpCode) -> bool {
    op != OpCode::Return && op != OpCode::Jump && op != OpCode::Loop
}

/// Where a jump at `at` with operand `operand` can take the machine.
pub open spec fn jump_target(op: OpCode, at: int, operand: nat) -> Option<int> {
    match op {
        OpCode::Jump | OpCode::JumpIfFalse | OpCode::RepeatStart => Some(at + 3 + operand),
        OpCode::Loop | OpCode::RepeatEnd => Some(at + 3 - operand),
        _ => None,
    }
}

/// The operand of the instruction `op` at `at`.
pub open spec fn operand_of(code: Seq<u8>, at: int, op: OpCode) -> nat {
    if op.operand_width() == 1 {
        code[at + 1] as nat
    } else if op.operand_width() == 2 {
        operand_at(code, at + 1)
    } else {
        0
    }
}

/// Whether what the instruction does to the stack depends on its constant
/// being a string.
pub open spec fn names_constant(op: OpCode) -> bool {
    op == OpCode::Import || op == OpCode::Export
}

/// Whether `at` lies in the region and is labelled with `depth`.
pub open spec fn labelled(labels: Map<int, int>, at: int, lo: int, hi: int, depth: int) -> bool {
    lo <= at <= hi && labels.contains_key(at) && labels[at] == depth
}

/// Whether the instruction at `at` is whole, lies in the region, and leads
/// from its label to the labels of all its successors.
pub open spec fn instruction_typed(
    chunk: ChunkModel,
    labels: Map<int, int>,
    lo: int,
    hi: int,
    at: int,
) -> bool {
    match OpCode::decode(chunk.code[at]) {
        None => false,
        Some(op) => {
            let operand = operand_of(chunk.code, at, op);
            let after = labels[at] + depth_effect(op, operand);
            &&& at + 1 + op.operand_width() <= hi
            &&& names_constant(op) ==> operand < chunk.constants.len()
                && chunk.constants[operand as int] is Str
            &&& falls_through(op) ==> labelled(
                labels,
                at + 1 + op.operand_width(),
                lo,
                hi,
                after,
            )
            &&& jump_target(op, at, operand) matches Some(target) ==> labelled(
                labels,
                target,
                lo,
                hi,
                after,
            )
        },
    }
}

/// Whether `labels` gives the code from `lo` to `hi` depths that every
/// labelled instruction respects. Only offsets of the region are labelled.
pub open spec fn region_typed(chunk: ChunkModel, labels: Map<int, int>, lo: int, hi: int) -> bool {
    &&& 0 <= lo <= hi <= chunk.code.len()
    &&& forall|at: int|
        lo <= at < hi && labels.contains_key(at) ==> #[trigger] instruction_typed(
            chunk,
            labels,
            lo,
            hi,
            at,
        )
    &&& forall|at: int| #[trigger] labels.contains_key(at) ==> lo <= at <= hi
}

/// Whether `labels` types the region, entering it at depth 0 and leaving
/// it at depth `delta`.
pub open spec fn typed(chunk: ChunkModel, labels: Map<int, int>, lo: int, hi: int, delta: int) -> bool {
    &&& region_typed(chunk, labels, lo, hi)
    &&& labelled(labels, lo, lo, hi, 0)
    &&& labelled(labels, hi, lo, hi, delta)
}

/// Whether the code from `lo` to `hi` changes the depth of the stack by
/// `delta` on every way through it.
pub open spec fn balanced(chunk: ChunkModel, lo: int, hi: int, delta: int) -> bool {
    exists|labels: Map<int, int>| #[trigger] typed(chunk, labels, lo, hi, delta)
}

/// An instruction of typed code that lets the machine continue in the same
/// frame takes it to a labelled successor, and changes the depth of the
/// stack by the difference of the labels.
proof fn typed_instruction_moves_depth(
    s: VmModel,
    labels: Map<int, int>,
    lo: int,
    hi: int,
    op: OpCode,
    answers: AnswersModel,
)
    requires
        s.frames.len() > 0,
        s.chunk().code.len() <= usize::MAX,
        region_typed(s.chunk(), labels, lo, hi),
        lo <= s.ip() < hi,
        labels.contains_key(s.ip() as int),
        OpCode::decode(s.byte_ahead(0)) == Some(op),
        instruction_spec(s, op, answers) matches Ok((next, StepModel::Continue)) && next.frames.len()
            == s.frames.len(),
    ensures
        ({
            let next = instruction_spec(s, op, answers)->Ok_0.0;
            &&& next.chunk() == s.chunk()
            &&& labelled(
                labels,
                next.ip() as int,
                lo,
                hi,
                labels[s.ip() as int] + next.stack.len() - s.stack.len(),
            )
        }),
{
    assert(instruction_typed(s.chunk(), labels, lo, hi, s.ip() as int));
}

/// A step of typed code that lets the machine continue in the same frame
/// takes it to a labelled successor, and changes the depth of the stack by
/// the difference of the labels.
pub proof fn typed_step_moves_depth(
    s: VmModel,
    labels: Map<int, int>,
    lo: int,
    hi: int,
    answers: AnswersModel,
)
    requires
        s.frames.len() > 0,
        s.chunk().code.len() <= usize::MAX,
        region_typed(s.chunk(), labels, lo, hi),
        lo <= s.ip() < hi,
        labels.contains_key(s.ip() as int),
        step_spec(s, answers) matches Ok((next, StepModel::Continue)) && next.frames.len()
            == s.frames.len(),
    ensures
        ({
            let next = step_spec(s, answers)->Ok_0.0;
            &&& next.chunk() == s.chunk()
            &&& labelled(
                labels,
                next.ip() as int,
                lo,
                hi,
                labels[s.ip() as int] + next.stack.len() - s.stack.len(),
            )
        }),
{
    reveal(step_spec);
    let op = OpCode::decode(s.byte_ahead(0))->Some_0;
    typed_instruction_moves_depth(s.counted(), labels, lo, hi, op, answers);
}

/// Whether the machine, before each of the first `n` steps that `answers`
/// give from `s`, stood in the frame in which it started and had not yet
/// reached `hi`.
pub open spec fn stays_inside(s: VmModel, answers: Seq<AnswersModel>, hi: int, n: int) -> bool {
    forall|k: int|
        0 <= k < n ==> (#[trigger] state_after(s, answers.take(k)) matches Some(m)
            && m.frames.len() == s.frames.len() && m.ip() != hi)
}

/// A run through typed code that stays in its frame changes the depth of
/// the stack by the difference of the labels where it starts and ends, and
/// does not leave the region.
pub proof fn typed_run_moves_depth(
    s: VmModel,
    labels: Map<int, int>,
    lo: int,
    hi: int,
    answers: Seq<AnswersModel>,
)
    requires
        s.frames.len() > 0,
        s.chunk().code.len() <= usize::MAX,
        region_typed(s.chunk(), labels, lo, hi),
        labels.contains_key(s.ip() as int),
        state_after(s, answers) matches Some(end) && end.frames.len() == s.frames.len(),
        stays_inside(s, answers, hi, answers.len() as int),
    ensures
        ({
            let end = state_after(s, answers)->Some_0;
            &&& end.chunk() == s.chunk()
            &&& lo <= end.ip() <= hi
            &&& labels.contains_key(end.ip() as int)
            &&& labels[end.ip() as int] - labels[s.ip() as int] == end.stack.len() - s.stack.len()
        }),
    decreases answers.len(),
{
    if answers.len() > 0 {
        let before = answers.drop_last();
        let mid = state_after(s, before)->Some_0;
        assert forall|k: int| 0 <= k < before.len() implies (#[trigger] state_after(
            s,
            before.take(k),
        ) matches Some(m) && m.frames.len() == s.frames.len() && m.ip() != hi) by {
            assert(before.take(k) =~= answers.take(k));
        }
        typed_run_moves_depth(s, labels, lo, hi, before);
        typed_step_moves_depth(mid, labels, lo, hi, answers.last());
    }
}

/// Typed code stays typed in every chunk that holds it.
pub proof fn typed_code_stays_typed(
    piece: ChunkModel,
    running: ChunkModel,
    labels: Map<int, int>,
    lo: int,
    delta: int,
)
    requires
        typed(piece, labels, lo, piece.code.len() as int, delta),
        holds_code(running, piece, lo),
    ensures
        typed(running, labels, lo, piece.code.len() as int, delta),
{
    let hi = piece.code.len() as int;
    assert forall|at: int| lo <= at < hi && labels.contains_key(at) implies #[trigger]
        instruction_typed(running, labels, lo, hi, at) by {
        assert(instruction_typed(piece, labels, lo, hi, at));
    }
}

/// The labels of one instruction at `at` that is followed by `next`.
pub open spec fn single_labels(at: int, next: int, delta: int) -> Map<int, int> {
    Map::new(
        |k: int| k == at || k == next,
        |k: int|
            if k == at {
                0
            } else {
                delta
            },
    )
}

/// One instruction that does not jump is typed by its effect.
proof fn single_is_typed(chunk: ChunkModel, at: int, op: OpCode)
    requires
        0 <= at,
        at + 1 + op.operand_width() <= chunk.code.len(),
        chunk.code[at] == op.byte(),
        jump_target(op, at, operand_of(chunk.code, at, op)) is None,
        names_constant(op) ==> operand_of(chunk.code, at, op) < chunk.constants.len()
            && chunk.constants[operand_of(chunk.code, at, op) as int] is Str,
    ensures
        typed(
            chunk,
            single_labels(
                at,
                at + 1 + op.operand_width(),
                depth_effect(op, operand_of(chunk.code, at, op)),
            ),
            at,
            at + 1 + op.operand_width(),
            depth_effect(op, operand_of(chunk.code, at, op)),
        ),
{
    crate::chunk::decode_inverts_byte(op, op.byte());
}

/// The labels of two regions, one behind the other: those of the second
/// count from where the first leaves off.
pub open spec fn joined(
    first: Map<int, int>,
    second: Map<int, int>,
    mid: int,
    shift: int,
) -> Map<int, int> {
    Map::new(
        |k: int| (k <= mid && first.contains_key(k)) || (k >= mid && second.contains_key(k)),
        |k: int|
            if k <= mid && first.contains_key(k) {
                first[k]
            } else {
                second[k] + shift
            },
    )
}

/// A labelling that agrees with the labelling of a part, up to a shift,
/// types the instructions of the part.
proof fn embedded_is_typed(
    chunk: ChunkModel,
    part: Map<int, int>,
    whole: Map<int, int>,
    part_lo: int,
    part_hi: int,
    lo: int,
    hi: int,
    shift: int,
    at: int,
)
    requires
        region_typed(chunk, part, part_lo, part_hi),
        lo <= part_lo,
        part_hi <= hi,
        part_lo <= at < part_hi,
        part.contains_key(at),
        forall|q: int| #[trigger]
            part.contains_key(q) ==> whole.contains_key(q) && whole[q] == part[q] + shift,
    ensures
        instruction_typed(chunk, whole, lo, hi, at),
{
    assert(instruction_typed(chunk, part, part_lo, part_hi, at));
}

/// Two typed regions, one behind the other, are one typed region.
proof fn sequence_is_typed(
    chunk: ChunkModel,
    first: Map<int, int>,
    second: Map<int, int>,
    lo: int,
    mid: int,
    hi: int,
    d1: int,
    d2: int,
)
    requires
        typed(chunk, first, lo, mid, d1),
        typed(chunk, second, mid, hi, d2),
    ensures
        typed(chunk, joined(first, second, mid, d1), lo, hi, d1 + d2),
{
    let whole = joined(first, second, mid, d1);
    assert forall|at: int| lo <= at < hi && whole.contains_key(at) implies #[trigger]
        instruction_typed(chunk, whole, lo, hi, at) by {
        if at < mid {
            embedded_is_typed(chunk, first, whole, lo, mid, lo, hi, 0, at);
        } else {
            embedded_is_typed(chunk, second, whole, mid, hi, lo, hi, d1, at);
        }
    }
}

/// A chunk that extends another holds its code and its constants.
proof fn extension_holds_code(before: ChunkModel, after: ChunkModel, from: int)
    requires
        extends(before, after),
        0 <= from,
    ensures
        holds_code(after, before, from),
{
}

/// An instruction that refers to a new constant is typed by its effect.
proof fn constant_instruction_is_typed(
    c: ChunkModel,
    op: OpCode,
    v: ValueModel,
    line: usize,
    loc: Option<crate::ast::SourceLocation>,
)
    requires
        emit_with_constant(c, op, v, line, loc) is Ok,
        op.operand_width() == 1,
        jump_target(op, 0, 0) is None,
        names_constant(op) ==> v is Str,
    ensures
        ({
            let done = emit_with_constant(c, op, v, line, loc)->Ok_0;
            &&& done.code.len() == c.code.len() + 2
            &&& extends(c, done)
            &&& done.constants == c.constants.push(v)
            &&& typed(
                done,
                single_labels(
                    c.code.len() as int,
                    c.code.len() as int + 2,
                    depth_effect(op, c.constants.len()),
                ),
                c.code.len() as int,
                c.code.len() as int + 2,
                depth_effect(op, c.constants.len()),
            )
        }),
{
    let done = emit_with_constant(c, op, v, line, loc)->Ok_0;
    let at = c.code.len() as int;
    single_is_typed(done, at, op);
}

/// The labels of the code of an expression.
proof fn expr_labels(e: Expression, locals: Map<Seq<char>, usize>, c: ChunkModel) -> (labels:
    Map<int, int>)
    requires
        lower_expr(e, locals, c) is Ok,
    ensures
        typed(
            lower_expr(e, locals, c)->Ok_0,
            labels,
            c.code.len() as int,
            lower_expr(e, locals, c)->Ok_0.code.len() as int,
            1,
        ),
    decreases e,
{
    let done = lower_expr(e, locals, c)->Ok_0;
    let lo = c.code.len() as int;
    lowering_extends_expr(e, locals, c);
    match e {
        Expression::ArrayLiteral(a) => {
            let line = line_or_zero(a.loc) as usize;
            let c1 = lower_exprs(a.elements@, locals, c)->Ok_0;
            let count = a.elements@.len();
            let items = exprs_labels(a.elements@, locals, c);
            let mid = c1.code.len() as int;
            extension_holds_code(c1, done, lo);
            typed_code_stays_typed(c1, done, items, lo, count as int);
            operand_bytes_encode(count);
            single_is_typed(done, mid, OpCode::ArrayLit);
            let last = single_labels(mid, mid + 3, 1 - count);
            sequence_is_typed(done, items, last, lo, mid, mid + 3, count as int, 1 - count);
            joined(items, last, mid, count as int)
        },
        Expression::IndexExpr(i) => {
            let line = line_or_zero(i.loc) as usize;
            let c1 = lower_expr(*i.object, locals, c)->Ok_0;
            let c2 = lower_expr(*i.index, locals, c1)->Ok_0;
            let first = expr_labels(*i.object, locals, c);
            let second = expr_labels(*i.index, locals, c1);
            lowering_extends_expr(*i.object, locals, c);
            lowering_extends_expr(*i.index, locals, c1);
            two_operands_typed(c, c1, c2, done, first, second, OpCode::IndexGet);
            two_operands_labels(c1, c2, first, second)
        },
        Expression::CallExpr(call) => {
            let line = line_or_zero(call.loc) as usize;
            let c1 = lower_expr(*call.callee, locals, c)->Ok_0;
            let c2 = lower_exprs(call.arguments@, locals, c1)->Ok_0;
            let count = call.arguments@.len();
            let first = expr_labels(*call.callee, locals, c);
            let second = exprs_labels(call.arguments@, locals, c1);
            lowering_extends_expr(*call.callee, locals, c);
            lowering_extends_exprs(call.arguments@, locals, c1);
            let m1 = c1.code.len() as int;
            let m2 = c2.code.len() as int;
            extension_holds_code(c1, done, lo);
            extension_holds_code(c2, done, m1);
            typed_code_stays_typed(c1, done, first, lo, 1);
            typed_code_stays_typed(c2, done, second, m1, count as int);
            single_is_typed(done, m2, OpCode::Call);
            let last = single_labels(m2, m2 + 2, -(count as int));
            sequence_is_typed(done, first, second, lo, m1, m2, 1, count as int);
            let both = joined(first, second, m1, 1);
            sequence_is_typed(done, both, last, lo, m2, m2 + 2, 1 + count as int, -(count as int));
            joined(both, last, m2, 1 + count as int)
        },
        Expression::Identifier(id) => {
            let line = line_or_zero(id.loc) as usize;
            if locals.contains_key(id.name@) {
                single_is_typed(done, lo, OpCode::GetLocal);
                single_labels(lo, lo + 2, 1)
            } else {
                constant_instruction_is_typed(
                    c,
                    OpCode::GetGlobal,
                    ValueModel::Str(id.name@),
                    line,
                    id.loc,
                );
                single_labels(lo, lo + 2, 1)
            }
        },
        Expression::Literal(l) => {
            let line = line_or_zero(l.loc) as usize;
            match l.value {
                LiteralValue::Number(bits) => {
                    constant_instruction_is_typed(
                        c,
                        OpCode::Constant,
                        ValueModel::Number(bits),
                        line,
                        l.loc,
                    );
                    single_labels(lo, lo + 2, 1)
                },
                LiteralValue::String(text) => {
                    constant_instruction_is_typed(
                        c,
                        OpCode::Constant,
                        ValueModel::Str(text@),
                        line,
                        l.loc,
                    );
                    single_labels(lo, lo + 2, 1)
                },
                LiteralValue::Boolean(b) => {
                    let op = if b {
                        OpCode::True
                    } else {
                        OpCode::False
                    };
                    single_is_typed(done, lo, op);
                    single_labels(lo, lo + 1, 1)
                },
                LiteralValue::Null => {
                    single_is_typed(done, lo, OpCode::Nil);
                    single_labels(lo, lo + 1, 1)
                },
                LiteralValue::Unsupported => Map::empty(),
            }
        },
        Expression::BinaryExpr(b) => {
            let c1 = lower_expr(*b.left, locals, c)->Ok_0;
            let c2 = lower_expr(*b.right, locals, c1)->Ok_0;
            let first = expr_labels(*b.left, locals, c);
            let second = expr_labels(*b.right, locals, c1);
            let op = binary_opcode(b.operator@)->Some_0;
            lowering_extends_expr(*b.left, locals, c);
            lowering_extends_expr(*b.right, locals, c1);
            two_operands_typed(c, c1, c2, done, first, second, op);
            two_operands_labels(c1, c2, first, second)
        },
        _ => Map::empty(),
    }
}

/// The labels of two operands and the instruction that takes both and
/// gives one value.
pub open spec fn two_operands_labels(
    c1: ChunkModel,
    c2: ChunkModel,
    first: Map<int, int>,
    second: Map<int, int>,
) -> Map<int, int> {
    joined(
        joined(first, second, c1.code.len() as int, 1),
        single_labels(c2.code.len() as int, c2.code.len() as int + 1, -1),
        c2.code.len() as int,
        2,
    )
}

/// Two operands and an instruction that takes both and gives one value are
/// typed as giving one value.
proof fn two_operands_typed(
    c: ChunkModel,
    c1: ChunkModel,
    c2: ChunkModel,
    done: ChunkModel,
    first: Map<int, int>,
    second: Map<int, int>,
    op: OpCode,
)
    requires
        typed(c1, first, c.code.len() as int, c1.code.len() as int, 1),
        typed(c2, second, c1.code.len() as int, c2.code.len() as int, 1),
        extends(c1, c2),
        extends(c2, done),
        done.code.len() == c2.code.len() + 1,
        done.code[c2.code.len() as int] == op.byte(),
        op.operand_width() == 0,
        depth_effect(op, 0) == -1,
        jump_target(op, 0, 0) is None,
        !names_constant(op),
    ensures
        typed(
            done,
            two_operands_labels(c1, c2, first, second),
            c.code.len() as int,
            done.code.len() as int,
            1,
        ),
{
    let lo = c.code.len() as int;
    let m1 = c1.code.len() as int;
    let m2 = c2.code.len() as int;
    extension_holds_code(c1, c2, lo);
    extension_holds_code(c2, done, lo);
    typed_code_stays_typed(c1, c2, first, lo, 1);
    sequence_is_typed(c2, first, second, lo, m1, m2, 1, 1);
    let both = joined(first, second, m1, 1);
    typed_code_stays_typed(c2, done, both, lo, 2);
    single_is_typed(done, m2, op);
    sequence_is_typed(done, both, single_labels(m2, m2 + 1, -1), lo, m2, m2 + 1, 2, -1);
}

/// The labels of the code of several expressions: each gives one value.
proof fn exprs_labels(es: Seq<Expression>, locals: Map<Seq<char>, usize>, c: ChunkModel) -> (labels:
    Map<int, int>)
    requires
        lower_exprs(es, locals, c) is Ok,
    ensures
        typed(
            lower_exprs(es, locals, c)->Ok_0,
            labels,
            c.code.len() as int,
            lower_exprs(es, locals, c)->Ok_0.code.len() as int,
            es.len() as int,
        ),
    decreases es,
{
    let lo = c.code.len() as int;
    if es.len() == 0 {
        let labels = Map::new(|k: int| k == lo, |k: int| 0int);
        labels
    } else {
        let c1 = lower_exprs(es.drop_last(), locals, c)->Ok_0;
        let done = lower_expr(es.last(), locals, c1)->Ok_0;
        let front = exprs_labels(es.drop_last(), locals, c);
        let back = expr_labels(es.last(), locals, c1);
        lowering_extends_expr(es.last(), locals, c1);
        extension_holds_code(c1, done, lo);
        typed_code_stays_typed(c1, done, front, lo, es.len() - 1);
        sequence_is_typed(
            done,
            front,
            back,
            lo,
            c1.code.len() as int,
            done.code.len() as int,
            es.len() - 1,
            1,
        );
        joined(front, back, c1.code.len() as int, es.len() - 1)
    }
}

/// The labels of the code that stores the top of the stack in a global and
/// discards it.
pub open spec fn store_labels(lo: int) -> Map<int, int> {
    joined(single_labels(lo, lo + 2, 0), single_labels(lo + 2, lo + 3, -1), lo + 2, 0)
}

/// Storing a global and discarding the value takes one value.
proof fn store_is_typed(
    c: ChunkModel,
    name: Seq<char>,
    line: usize,
    loc: Option<crate::ast::SourceLocation>,
)
    requires
        store_global(c, name, line, loc) is Ok,
    ensures
        ({
            let done = store_global(c, name, line, loc)->Ok_0;
            &&& done.code.len() == c.code.len() + 3
            &&& extends(c, done)
            &&& typed(
                done,
                store_labels(c.code.len() as int),
                c.code.len() as int,
                c.code.len() as int + 3,
                -1,
            )
        }),
{
    let lo = c.code.len() as int;
    let c1 = emit_with_constant(c, OpCode::SetGlobal, ValueModel::Str(name), line, loc)->Ok_0;
    let done = store_global(c, name, line, loc)->Ok_0;
    constant_instruction_is_typed(c, OpCode::SetGlobal, ValueModel::Str(name), line, loc);
    extension_holds_code(c1, done, lo);
    typed_code_stays_typed(c1, done, single_labels(lo, lo + 2, 0), lo, 0);
    single_is_typed(done, lo + 2, OpCode::Pop);
    sequence_is_typed(
        done,
        single_labels(lo, lo + 2, 0),
        single_labels(lo + 2, lo + 3, -1),
        lo,
        lo + 2,
        lo + 3,
        0,
        -1,
    );
}

/// A value and the one instruction that takes it are typed as balanced.
proof fn value_then_taken(
    c: ChunkModel,
    c1: ChunkModel,
    done: ChunkModel,
    value: Map<int, int>,
    op: OpCode,
)
    requires
        typed(c1, value, c.code.len() as int, c1.code.len() as int, 1),
        extends(c1, done),
        done.code.len() == c1.code.len() + 1,
        done.code[c1.code.len() as int] == op.byte(),
        op == OpCode::Pop || op == OpCode::Print || op == OpCode::Return,
    ensures
        typed(
            done,
            joined(
                value,
                single_labels(c1.code.len() as int, c1.code.len() as int + 1, -1),
                c1.code.len() as int,
                1,
            ),
            c.code.len() as int,
            done.code.len() as int,
            0,
        ),
{
    let lo = c.code.len() as int;
    let mid = c1.code.len() as int;
    extension_holds_code(c1, done, lo);
    typed_code_stays_typed(c1, done, value, lo, 1);
    let last = single_labels(mid, mid + 1, -1);
    crate::chunk::decode_inverts_byte(op, op.byte());
    sequence_is_typed(done, value, last, lo, mid, mid + 1, 1, -1);
}

/// The labels of a conditional, from those of its condition and branches.
pub open spec fn if_labels(
    condition: Map<int, int>,
    then_branch: Map<int, int>,
    else_branch: Map<int, int>,
    l: ConditionalLayout,
) -> Map<int, int> {
    Map::new(
        |k: int|
            (k <= l.test && condition.contains_key(k)) || k == l.test + 3 || (l.then_branch <= k
                <= l.skip && then_branch.contains_key(k)) || k == l.otherwise || (l.otherwise
                < k && else_branch.contains_key(k)),
        |k: int|
            if k <= l.test {
                condition[k]
            } else if k == l.test + 3 {
                1
            } else if k <= l.skip {
                then_branch[k]
            } else if k == l.otherwise {
                1
            } else {
                else_branch[k]
            },
    )
}

/// The labels of a `while`, from those of its condition and body.
pub open spec fn while_labels(
    condition: Map<int, int>,
    body: Map<int, int>,
    l: LoopLayout,
) -> Map<int, int> {
    Map::new(
        |k: int|
            (k <= l.test && condition.contains_key(k)) || k == l.test + 3 || (l.body <= k
                <= l.back && body.contains_key(k)) || k == l.exit || k == l.end,
        |k: int|
            if k <= l.test {
                condition[k]
            } else if k == l.test + 3 {
                1
            } else if k <= l.back {
                body[k]
            } else if k == l.exit {
                1
            } else {
                0
            },
    )
}

/// The labels of a `repeat`, from those of its count and body.
pub open spec fn repeat_labels(count: Map<int, int>, body: Map<int, int>, l: RepeatLayout) -> Map<
    int,
    int,
> {
    Map::new(
        |k: int|
            (k <= l.enter && count.contains_key(k)) || (l.body <= k <= l.back
                && body.contains_key(k)) || k == l.end,
        |k: int|
            if k <= l.enter {
                count[k]
            } else if k <= l.back {
                body[k]
            } else {
                0
            },
    )
}

/// A conditional is balanced: on both ways through it the condition is
/// discarded once.
proof fn if_labels_typed(i: IfStmt, locals: Map<Seq<char>, usize>, c: ChunkModel) -> (labels:
    Map<int, int>)
    requires
        lower_stmt(Statement::IfStmt(i), locals, c) is Ok,
    ensures
        typed(
            lower_stmt(Statement::IfStmt(i), locals, c)->Ok_0,
            labels,
            c.code.len() as int,
            lower_stmt(Statement::IfStmt(i), locals, c)->Ok_0.code.len() as int,
            0,
        ),
    decreases i,
{
    let line = line_or_zero(i.loc) as usize;
    let done = lower_stmt(Statement::IfStmt(i), locals, c)->Ok_0;
    let l = if_layout(i, locals, c);
    let lo = c.code.len() as int;
    if_is_laid_out(i, locals, c);
    let c1 = if_condition(i, locals, c);
    let c2 = emit_jump(c1, OpCode::JumpIfFalse, line).write_op(OpCode::Pop, line);
    let c3 = if_then(i, locals, c);
    let c5 = if_before_else(i, locals, c);
    let c6 = if_else(i, locals, c);
    let condition = expr_labels(i.condition, locals, c);
    typed_code_stays_typed(c1, done, condition, lo, 1);
    let then_branch = block_labels(i.then_block.body@, locals, c2);
    typed_code_stays_typed(c3, done, then_branch, l.then_branch, 0);
    let else_branch = match i.else_block {
        Some(b) => block_labels(b.body@, locals, c5),
        None => Map::new(|k: int| k == l.otherwise + 1, |k: int| 0int),
    };
    typed_code_stays_typed(c6, done, else_branch, l.otherwise + 1, 0);
    let whole = if_labels(condition, then_branch, else_branch, l);
    assert forall|at: int| lo <= at < l.end && whole.contains_key(at) implies #[trigger]
        instruction_typed(done, whole, lo, l.end, at) by {
        if at < l.test {
            embedded_is_typed(done, condition, whole, lo, l.test, lo, l.end, 0, at);
        }
        if l.then_branch <= at < l.skip {
            embedded_is_typed(done, then_branch, whole, l.then_branch, l.skip, lo, l.end, 0, at);
        }
        if l.otherwise < at {
            embedded_is_typed(done, else_branch, whole, l.otherwise + 1, l.end, lo, l.end, 0, at);
        }
    }
    whole
}

/// A `while` is balanced: the condition is discarded once in every round
/// and once when the loop is left.
proof fn while_labels_typed(w: WhileStmt, locals: Map<Seq<char>, usize>, c: ChunkModel) -> (labels:
    Map<int, int>)
    requires
        lower_stmt(Statement::WhileStmt(w), locals, c) is Ok,
    ensures
        typed(
            lower_stmt(Statement::WhileStmt(w), locals, c)->Ok_0,
            labels,
            c.code.len() as int,
            lower_stmt(Statement::WhileStmt(w), locals, c)->Ok_0.code.len() as int,
            0,
        ),
    decreases w,
{
    let line = line_or_zero(w.loc) as usize;
    let done = lower_stmt(Statement::WhileStmt(w), locals, c)->Ok_0;
    let l = while_layout(w, locals, c);
    let lo = c.code.len() as int;
    while_is_laid_out(w, locals, c);
    let c1 = while_condition(w, locals, c);
    let c2 = emit_jump(c1, OpCode::JumpIfFalse, line).write_op(OpCode::Pop, line);
    let c3 = while_body(w, locals, c);
    let condition = expr_labels(w.condition, locals, c);
    typed_code_stays_typed(c1, done, condition, lo, 1);
    let body = block_labels(w.body.body@, locals, c2);
    typed_code_stays_typed(c3, done, body, l.body, 0);
    let whole = while_labels(condition, body, l);
    assert forall|at: int| lo <= at < l.end && whole.contains_key(at) implies #[trigger]
        instruction_typed(done, whole, lo, l.end, at) by {
        if at < l.test {
            embedded_is_typed(done, condition, whole, lo, l.test, lo, l.end, 0, at);
        }
        if l.body <= at < l.back {
            embedded_is_typed(done, body, whole, l.body, l.back, lo, l.end, 0, at);
        }
    }
    whole
}

/// A `repeat` is balanced: the count is taken off the stack when the loop
/// is entered.
proof fn repeat_labels_typed(r: RepeatStmt, locals: Map<Seq<char>, usize>, c: ChunkModel) -> (labels:
    Map<int, int>)
    requires
        lower_stmt(Statement::RepeatStmt(r), locals, c) is Ok,
    ensures
        typed(
            lower_stmt(Statement::RepeatStmt(r), locals, c)->Ok_0,
            labels,
            c.code.len() as int,
            lower_stmt(Statement::RepeatStmt(r), locals, c)->Ok_0.code.len() as int,
            0,
        ),
    decreases r,
{
    let line = line_or_zero(r.loc) as usize;
    let done = lower_stmt(Statement::RepeatStmt(r), locals, c)->Ok_0;
    let l = repeat_layout(r, locals, c);
    let lo = c.code.len() as int;
    repeat_is_laid_out(r, locals, c);
    let c1 = repeat_count_code(r, locals, c);
    let c2 = emit_jump(c1, OpCode::RepeatStart, line);
    let c3 = repeat_body(r, locals, c);
    let count = expr_labels(r.count, locals, c);
    typed_code_stays_typed(c1, done, count, lo, 1);
    let body = block_labels(r.body.body@, locals, c2);
    typed_code_stays_typed(c3, done, body, l.body, 0);
    let whole = repeat_labels(count, body, l);
    assert forall|at: int| lo <= at < l.end && whole.contains_key(at) implies #[trigger]
        instruction_typed(done, whole, lo, l.end, at) by {
        if at < l.enter {
            embedded_is_typed(done, count, whole, lo, l.enter, lo, l.end, 0, at);
        }
        if l.body <= at < l.back {
            embedded_is_typed(done, body, whole, l.body, l.back, lo, l.end, 0, at);
        }
    }
    whole
}

/// The labels of the code of a statement.
proof fn stmt_labels(s: Statement, locals: Map<Seq<char>, usize>, c: ChunkModel) -> (labels:
    Map<int, int>)
    requires
        lower_stmt(s, locals, c) is Ok,
    ensures
        typed(
            lower_stmt(s, locals, c)->Ok_0,
            labels,
            c.code.len() as int,
            lower_stmt(s, locals, c)->Ok_0.code.len() as int,
            0,
        ),
    decreases s,
{
    let done = lower_stmt(s, locals, c)->Ok_0;
    let lo = c.code.len() as int;
    match s {
        Statement::LetStmt(l) => {
            let line = line_or_zero(l.loc) as usize;
            let c1 = lower_expr(l.value, locals, c)->Ok_0;
            let value = expr_labels(l.value, locals, c);
            value_then_stored(c, c1, l.name.name@, line, l.loc, value)
        },
        Statement::AssignStmt(a) => {
            let line = line_or_zero(a.loc) as usize;
            match a.target {
                Expression::Identifier(id) => {
                    let c1 = lower_expr(a.value, locals, c)->Ok_0;
                    let value = expr_labels(a.value, locals, c);
                    value_then_stored(c, c1, id.name@, line, a.loc, value)
                },
                Expression::IndexExpr(ix) => index_store_labels(a, locals, c),
                _ => Map::empty(),
            }
        },
        Statement::ExprStmt(x) => {
            let c1 = lower_expr(x.expression, locals, c)->Ok_0;
            let value = expr_labels(x.expression, locals, c);
            value_then_taken(c, c1, done, value, OpCode::Pop);
            joined(
                value,
                single_labels(c1.code.len() as int, c1.code.len() as int + 1, -1),
                c1.code.len() as int,
                1,
            )
        },
        Statement::ShowStmt(x) => {
            let c1 = lower_expr(x.expression, locals, c)->Ok_0;
            let value = expr_labels(x.expression, locals, c);
            value_then_taken(c, c1, done, value, OpCode::Print);
            joined(
                value,
                single_labels(c1.code.len() as int, c1.code.len() as int + 1, -1),
                c1.code.len() as int,
                1,
            )
        },
        Statement::IfStmt(i) => if_labels_typed(i, locals, c),
        Statement::WhileStmt(w) => while_labels_typed(w, locals, c),
        Statement::RepeatStmt(r) => repeat_labels_typed(r, locals, c),
        Statement::ReturnStmt(r) => {
            let line = line_or_zero(r.loc) as usize;
            match r.argument {
                Some(e) => {
                    let c1 = lower_expr(e, locals, c)->Ok_0;
                    let value = expr_labels(e, locals, c);
                    value_then_taken(c, c1, done, value, OpCode::Return);
                    joined(
                        value,
                        single_labels(c1.code.len() as int, c1.code.len() as int + 1, -1),
                        c1.code.len() as int,
                        1,
                    )
                },
                None => {
                    let c1 = c.write_op(OpCode::Nil, line);
                    single_is_typed(c1, lo, OpCode::Nil);
                    let value = single_labels(lo, lo + 1, 1);
                    value_then_taken(c, c1, done, value, OpCode::Return);
                    joined(value, single_labels(lo + 1, lo + 2, -1), lo + 1, 1)
                },
            }
        },
        Statement::ImportStmt(i) => {
            let line = line_or_zero(i.loc) as usize;
            let c1 = emit_with_constant(
                c,
                OpCode::Import,
                ValueModel::Str(i.module@),
                line,
                i.loc,
            )->Ok_0;
            constant_instruction_is_typed(
                c,
                OpCode::Import,
                ValueModel::Str(i.module@),
                line,
                i.loc,
            );
            value_then_stored(
                c,
                c1,
                crate::text::last_segment_text(i.module@),
                line,
                i.loc,
                single_labels(lo, lo + 2, 1),
            )
        },
        Statement::ExportStmt(x) => {
            let declared = stmt_labels(*x.declaration, locals, c);
            export_labels(x, locals, c, declared)
        },
        Statement::FuncDecl(f) => {
            let line = line_or_zero(f.loc) as usize;
            let function = ValueModel::Function(lower_function(f)->Ok_0);
            let c1 = emit_with_constant(c, OpCode::Constant, function, line, f.loc)->Ok_0;
            constant_instruction_is_typed(c, OpCode::Constant, function, line, f.loc);
            value_then_stored(c, c1, f.name.name@, line, f.loc, single_labels(lo, lo + 2, 1))
        },
        Statement::Block(b) => block_labels(b.body@, locals, c),
    }
}

/// A value and the code that stores it in a global are typed as balanced.
proof fn value_then_stored(
    c: ChunkModel,
    c1: ChunkModel,
    name: Seq<char>,
    line: usize,
    loc: Option<crate::ast::SourceLocation>,
    value: Map<int, int>,
) -> (labels: Map<int, int>)
    requires
        typed(c1, value, c.code.len() as int, c1.code.len() as int, 1),
        store_global(c1, name, line, loc) is Ok,
    ensures
        typed(
            store_global(c1, name, line, loc)->Ok_0,
            labels,
            c.code.len() as int,
            store_global(c1, name, line, loc)->Ok_0.code.len() as int,
            0,
        ),
{
    let lo = c.code.len() as int;
    let mid = c1.code.len() as int;
    let done = store_global(c1, name, line, loc)->Ok_0;
    store_is_typed(c1, name, line, loc);
    extension_holds_code(c1, done, lo);
    typed_code_stays_typed(c1, done, value, lo, 1);
    sequence_is_typed(done, value, store_labels(mid), lo, mid, mid + 3, 1, -1);
    joined(value, store_labels(mid), mid, 1)
}

/// The labels of the code of several statements.
proof fn block_labels(stmts: Seq<Statement>, locals: Map<Seq<char>, usize>, c: ChunkModel) -> (labels:
    Map<int, int>)
    requires
        lower_block(stmts, locals, c) is Ok,
    ensures
        typed(
            lower_block(stmts, locals, c)->Ok_0,
            labels,
            c.code.len() as int,
            lower_block(stmts, locals, c)->Ok_0.code.len() as int,
            0,
        ),
    decreases stmts,
{
    let lo = c.code.len() as int;
    if stmts.len() == 0 {
        let labels = Map::new(|k: int| k == lo, |k: int| 0int);
        labels
    } else {
        let c1 = lower_block(stmts.drop_last(), locals, c)->Ok_0;
        let done = lower_stmt(stmts.last(), locals, c1)->Ok_0;
        let front = block_labels(stmts.drop_last(), locals, c);
        let back = stmt_labels(stmts.last(), locals, c1);
        lowering_extends_stmt(stmts.last(), locals, c1);
        extension_holds_code(c1, done, lo);
        typed_code_stays_typed(c1, done, front, lo, 0);
        sequence_is_typed(
            done,
            front,
            back,
            lo,
            c1.code.len() as int,
            done.code.len() as int,
            0,
            0,
        );
        joined(front, back, c1.code.len() as int, 0)
    }
}

/// An export is balanced: the declaration, then the global read back and
/// taken by `Export`.
proof fn export_labels(
    x: crate::ast::ExportStmt,
    locals: Map<Seq<char>, usize>,
    c: ChunkModel,
    declared: Map<int, int>,
) -> (labels: Map<int, int>)
    requires
        lower_stmt(Statement::ExportStmt(x), locals, c) is Ok,
        typed(
            lower_stmt(*x.declaration, locals, c)->Ok_0,
            declared,
            c.code.len() as int,
            lower_stmt(*x.declaration, locals, c)->Ok_0.code.len() as int,
            0,
        ),
    ensures
        typed(
            lower_stmt(Statement::ExportStmt(x), locals, c)->Ok_0,
            labels,
            c.code.len() as int,
            lower_stmt(Statement::ExportStmt(x), locals, c)->Ok_0.code.len() as int,
            0,
        ),
{
    let done = lower_stmt(Statement::ExportStmt(x), locals, c)->Ok_0;
    let lo = c.code.len() as int;
    let line = line_or_zero(x.loc) as usize;
    let c1 = lower_stmt(*x.declaration, locals, c)->Ok_0;
    let name = exported_name(*x.declaration)->Some_0;
    let c2 = emit_with_constant(c1, OpCode::GetGlobal, ValueModel::Str(name), line, x.loc)->Ok_0;
    let m1 = c1.code.len() as int;
    constant_instruction_is_typed(c1, OpCode::GetGlobal, ValueModel::Str(name), line, x.loc);
    extension_holds_code(c1, c2, lo);
    typed_code_stays_typed(c1, c2, declared, lo, 0);
    let get = single_labels(m1, m1 + 2, 1);
    sequence_is_typed(c2, declared, get, lo, m1, m1 + 2, 0, 1);
    let two = joined(declared, get, m1, 0);
    extension_holds_code(c2, done, lo);
    typed_code_stays_typed(c2, done, two, lo, 1);
    single_is_typed(done, m1 + 2, OpCode::Export);
    let export = single_labels(m1 + 2, m1 + 4, -1);
    sequence_is_typed(done, two, export, lo, m1 + 2, m1 + 4, 1, -1);
    joined(two, export, m1 + 2, 1)
}

/// A store into a list is balanced: three values, of which `IndexSet`
/// leaves one and `Pop` takes that.
proof fn index_store_labels(
    a: crate::ast::AssignStmt,
    locals: Map<Seq<char>, usize>,
    c: ChunkModel,
) -> (labels: Map<int, int>)
    requires
        lower_stmt(Statement::AssignStmt(a), locals, c) is Ok,
        a.target is IndexExpr,
    ensures
        typed(
            lower_stmt(Statement::AssignStmt(a), locals, c)->Ok_0,
            labels,
            c.code.len() as int,
            lower_stmt(Statement::AssignStmt(a), locals, c)->Ok_0.code.len() as int,
            0,
        ),
{
    let done = lower_stmt(Statement::AssignStmt(a), locals, c)->Ok_0;
    let lo = c.code.len() as int;
    let ix = a.target->IndexExpr_0;
    let c1 = lower_expr(*ix.object, locals, c)->Ok_0;
    let c2 = lower_expr(*ix.index, locals, c1)->Ok_0;
    let c3 = lower_expr(a.value, locals, c2)->Ok_0;
    let first = expr_labels(*ix.object, locals, c);
    let second = expr_labels(*ix.index, locals, c1);
    let third = expr_labels(a.value, locals, c2);
    lowering_extends_expr(*ix.index, locals, c1);
    lowering_extends_expr(a.value, locals, c2);
    let m1 = c1.code.len() as int;
    let m2 = c2.code.len() as int;
    let m3 = c3.code.len() as int;
    extension_holds_code(c1, c2, lo);
    typed_code_stays_typed(c1, c2, first, lo, 1);
    sequence_is_typed(c2, first, second, lo, m1, m2, 1, 1);
    let two = joined(first, second, m1, 1);
    extension_holds_code(c2, c3, lo);
    typed_code_stays_typed(c2, c3, two, lo, 2);
    sequence_is_typed(c3, two, third, lo, m2, m3, 2, 1);
    let three = joined(two, third, m2, 2);
    extension_holds_code(c3, done, lo);
    typed_code_stays_typed(c3, done, three, lo, 3);
    single_is_typed(done, m3, OpCode::IndexSet);
    single_is_typed(done, m3 + 1, OpCode::Pop);
    let set = single_labels(m3, m3 + 1, -2);
    let pop = single_labels(m3 + 1, m3 + 2, -1);
    sequence_is_typed(done, three, set, lo, m3, m3 + 1, 3, -2);
    let four = joined(three, set, m3, 3);
    sequence_is_typed(done, four, pop, lo, m3 + 1, m3 + 2, 1, -1);
    joined(four, pop, m3 + 1, 1)
}

/// The code of every statement is balanced: it can be labelled with depths
/// that every instruction respects, the same depth before and behind it. A
/// call counts as giving one value for the callee and its arguments.
pub proof fn statement_is_balanced(s: Statement, locals: Map<Seq<char>, usize>, c: ChunkModel)
    requires
        lower_stmt(s, locals, c) is Ok,
    ensures
        balanced(
            lower_stmt(s, locals, c)->Ok_0,
            c.code.len() as int,
            lower_stmt(s, locals, c)->Ok_0.code.len() as int,
            0,
        ),
{
    let _ = stmt_labels(s, locals, c);
}

/// The code of every expression gives one value: it can be labelled with
/// depths that every instruction respects, one deeper behind it than before
/// it. A call counts as giving one value for the callee and its arguments.
pub proof fn expression_gives_one_value(e: Expression, locals: Map<Seq<char>, usize>, c: ChunkModel)
    requires
        lower_expr(e, locals, c) is Ok,
    ensures
        balanced(
            lower_expr(e, locals, c)->Ok_0,
            c.code.len() as int,
            lower_expr(e, locals, c)->Ok_0.code.len() as int,
            1,
        ),
{
    let _ = expr_labels(e, locals, c);
}

/// The discard balance: a machine that executes the code of a statement,
/// from its first byte until the pointer first stands behind it, has its
/// stack as deep as before, whatever the host answers.
///
/// The run is one that stays in the frame in which it started: it executes
/// no call and no return. A call leaves the stack one value deeper than the
/// statement found it (see [`call_leaves_the_callee`]), and a return leaves
/// the statement's frame for good.
pub proof fn statement_leaves_stack_as_deep(
    stmt: Statement,
    locals: Map<Seq<char>, usize>,
    c: ChunkModel,
    s: VmModel,
    answers: Seq<AnswersModel>,
)
    requires
        lower_stmt(stmt, locals, c) is Ok,
        s.frames.len() > 0,
        s.chunk().code.len() <= usize::MAX,
        holds_code(s.chunk(), lower_stmt(stmt, locals, c)->Ok_0, c.code.len() as int),
        s.ip() == c.code.len(),
        state_after(s, answers) matches Some(end) && end.frames.len() == s.frames.len() && end.ip()
            == lower_stmt(stmt, locals, c)->Ok_0.code.len(),
        stays_inside(
            s,
            answers,
            lower_stmt(stmt, locals, c)->Ok_0.code.len() as int,
            answers.len() as int,
        ),
    ensures
        state_after(s, answers)->Some_0.stack.len() == s.stack.len(),
{
    let done = lower_stmt(stmt, locals, c)->Ok_0;
    let lo = c.code.len() as int;
    let labels = stmt_labels(stmt, locals, c);
    typed_code_stays_typed(done, s.chunk(), labels, lo, 0);
    typed_run_moves_depth(s, labels, lo, done.code.len() as int, answers);
}

/// A run through the code of an expression that stays in its frame leaves
/// the stack one value deeper.
pub proof fn expression_leaves_one_value(
    e: Expression,
    locals: Map<Seq<char>, usize>,
    c: ChunkModel,
    s: VmModel,
    answers: Seq<AnswersModel>,
)
    requires
        lower_expr(e, locals, c) is Ok,
        s.frames.len() > 0,
        s.chunk().code.len() <= usize::MAX,
        holds_code(s.chunk(), lower_expr(e, locals, c)->Ok_0, c.code.len() as int),
        s.ip() == c.code.len(),
        state_after(s, answers) matches Some(end) && end.frames.len() == s.frames.len() && end.ip()
            == lower_expr(e, locals, c)->Ok_0.code.len(),
        stays_inside(
            s,
            answers,
            lower_expr(e, locals, c)->Ok_0.code.len() as int,
            answers.len() as int,
        ),
    ensures
        state_after(s, answers)->Some_0.stack.len() == s.stack.len() + 1,
{
    let done = lower_expr(e, locals, c)->Ok_0;
    let lo = c.code.len() as int;
    let labels = expr_labels(e, locals, c);
    typed_code_stays_typed(done, s.chunk(), labels, lo, 1);
    typed_run_moves_depth(s, labels, lo, done.code.len() as int, answers);
}

/// A call that returns leaves the callee's slot on the stack, below the
/// result: of the callee and its `n` arguments, `n - 1` values are gone,
/// not `n`. So a statement that calls a function leaves the stack one
/// value deeper for every call.
pub proof fn call_leaves_the_callee(
    caller: VmModel,
    first: AnswersModel,
    answers: Seq<AnswersModel>,
)
    requires
        caller.frames.len() > 0,
        caller.frames.len() < caller.config.max_call_depth,
        caller.stack.len() <= usize::MAX,
        OpCode::decode(caller.byte_ahead(0)) == Some(OpCode::Call),
        step_spec(caller, first) matches Ok((entered, StepModel::Continue)),
        answers.len() > 0,
        state_after(
            crate::laws::body_alone(step_spec(caller, first)->Ok_0.0),
            answers.drop_last(),
        ) is Some,
        step_spec(
            state_after(
                crate::laws::body_alone(step_spec(caller, first)->Ok_0.0),
                answers.drop_last(),
            )->Some_0,
            answers.last(),
        ) matches Ok((end, StepModel::Return(_))) && end.stack.len() + caller.operand()
            >= caller.stack.len(),
    ensures
        state_after(caller, seq![first] + answers) matches Some(back) && back.stack.len()
            == caller.stack.len() - caller.operand() + 1,
{
    crate::laws::call_gives_what_the_body_gives(caller, first, answers);
    reveal(step_spec);
}

/// Every beginning of a run that continues is a run that continues.
pub proof fn run_prefix_continues(s: VmModel, answers: Seq<AnswersModel>, k: int)
    requires
        state_after(s, answers) is Some,
        0 <= k <= answers.len(),
    ensures
        state_after(s, answers.take(k)) is Some,
    decreases answers.len() - k,
{
    if k == answers.len() {
        assert(answers.take(k) =~= answers);
    } else {
        run_prefix_continues(s, answers, k + 1);
        assert(answers.take(k + 1).drop_last() =~= answers.take(k));
    }
}

/// How many calls made from the frame at depth `depth` returned to it
/// during the steps that `answers` give from `s`.
pub open spec fn calls_returned(s: VmModel, answers: Seq<AnswersModel>, depth: nat) -> nat
    decreases answers.len(),
{
    if answers.len() == 0 {
        0
    } else {
        calls_returned(s, answers.drop_last(), depth) + if returned_to(
            state_after(s, answers.drop_last()),
            state_after(s, answers),
            depth,
        ) {
            1nat
        } else {
            0nat
        }
    }
}

/// Whether the step from `before` to `after` is the return of a call to the
/// frame at depth `depth`.
pub open spec fn returned_to(before: Option<VmModel>, after: Option<VmModel>, depth: nat) -> bool {
    before matches Some(b) && after matches Some(a) && b.frames.len() == depth + 1
        && a.frames.len() == depth
}

/// Whether the run that `answers` give from `s` is a run of the frame in
/// which `s` stands, up to its first arrival at `hi`: the frame is never
/// left, it does not stand at `hi` before the end of the run, and every call
/// that it makes and that returns finds the stack cut back to the base of
/// the callee's frame, the result on top.
pub open spec fn runs_in_frame(s: VmModel, answers: Seq<AnswersModel>, hi: int) -> bool {
    &&& state_after(s, answers) is Some
    &&& forall|k: int|
        0 <= k <= answers.len() ==> (#[trigger] state_after(s, answers.take(k)))->Some_0.frames.len()
            >= s.frames.len()
    &&& forall|k: int|
        0 <= k < answers.len() && (#[trigger] state_after(
            s,
            answers.take(k),
        ))->Some_0.frames.len() == s.frames.len() ==> state_after(s, answers.take(k))->Some_0.ip()
            != hi
    &&& forall|k: int|
        0 <= k < answers.len() && returned_to(
            #[trigger] state_after(s, answers.take(k)),
            state_after(s, answers.take(k + 1)),
            s.frames.len(),
        ) ==> state_after(s, answers.take(k + 1))->Some_0.stack.len() == state_after(
            s,
            answers.take(k),
        )->Some_0.frames[s.frames.len() as int].bp + 1
}

/// What holds of a machine `m` on its way through typed code that `s`
/// entered, after `returned` calls have returned.
///
/// In the frame of `s`, the machine stands at a label and its stack is as
/// much deeper than that of `s` as the labels say, and one value more for
/// every call that returned. Inside a call, the frame of `s` waits at a
/// label, and the same will hold once the call has returned.
pub open spec fn on_the_way(
    s: VmModel,
    m: VmModel,
    labels: Map<int, int>,
    lo: int,
    hi: int,
    returned: nat,
) -> bool {
    let depth = s.frames.len() as int;
    if m.frames.len() == depth {
        &&& m.chunk() == s.chunk()
        &&& lo <= m.ip() <= hi
        &&& labels.contains_key(m.ip() as int)
        &&& m.stack.len() - s.stack.len() == labels[m.ip() as int] - labels[s.ip() as int]
            + returned
    } else {
        let waiting = m.frames[depth - 1];
        &&& m.frames.len() > depth
        &&& waiting.function.chunk == s.chunk()
        &&& lo <= waiting.ip <= hi
        &&& labels.contains_key(waiting.ip as int)
        &&& m.frames[depth].bp + 1 - s.stack.len() == labels[waiting.ip as int] - labels[s.ip() as int]
            + returned + 1
    }
}

/// A step of typed code in the frame of `s` keeps the machine on its way:
/// an instruction moves it to a labelled successor, a call makes the frame
/// wait behind the call.
proof fn typed_step_stays_on_the_way(
    s: VmModel,
    m: VmModel,
    labels: Map<int, int>,
    lo: int,
    hi: int,
    returned: nat,
    answers: AnswersModel,
)
    requires
        s.frames.len() > 0,
        s.chunk().code.len() <= usize::MAX,
        m.stack.len() <= usize::MAX,
        region_typed(s.chunk(), labels, lo, hi),
        m.frames.len() == s.frames.len(),
        on_the_way(s, m, labels, lo, hi, returned),
        m.ip() != hi,
        step_spec(m, answers) matches Ok((next, StepModel::Continue)) && next.frames.len()
            >= s.frames.len(),
    ensures
        on_the_way(s, step_spec(m, answers)->Ok_0.0, labels, lo, hi, returned),
        step_spec(m, answers)->Ok_0.0.frames.len() <= s.frames.len() + 1,
{
    let next = step_spec(m, answers)->Ok_0.0;
    if next.frames.len() == m.frames.len() {
        typed_step_moves_depth(m, labels, lo, hi, answers);
    } else {
        reveal(step_spec);
        let at = m.ip() as int;
        assert(instruction_typed(m.chunk(), labels, lo, hi, at));
        let op = OpCode::decode(m.byte_ahead(0))->Some_0;
        let counted = m.counted();
        frame_count_changes_by_call(counted, op, answers);
    }
}

/// Of the instructions that let the machine continue, only `Call` adds a
/// frame and only `Return` takes one away.
proof fn frame_count_changes_by_call(s: VmModel, op: OpCode, answers: AnswersModel)
    requires
        s.frames.len() > 0,
        instruction_spec(s, op, answers) matches Ok((_, StepModel::Continue)),
    ensures
        ({
            let next = instruction_spec(s, op, answers)->Ok_0.0;
            &&& op == OpCode::Call ==> next.frames.len() == s.frames.len() + 1
            &&& op == OpCode::Return ==> next.frames.len() + 1 == s.frames.len()
            &&& op != OpCode::Call && op != OpCode::Return ==> next.frames.len()
                == s.frames.len()
        }),
{
}

/// A step of a run of a frame through typed code keeps the machine on its
/// way, and counts one more call returned where it is the return of a call
/// that the frame made.
proof fn step_stays_on_the_way(
    s: VmModel,
    m: VmModel,
    labels: Map<int, int>,
    lo: int,
    hi: int,
    returned: nat,
    answers: AnswersModel,
)
    requires
        s.frames.len() > 0,
        s.chunk().code.len() <= usize::MAX,
        m.stack.len() <= usize::MAX,
        region_typed(s.chunk(), labels, lo, hi),
        on_the_way(s, m, labels, lo, hi, returned),
        m.frames.len() == s.frames.len() ==> m.ip() != hi,
        step_spec(m, answers) matches Ok((next, StepModel::Continue)) && next.frames.len()
            >= s.frames.len(),
        returned_to(Some(m), Some(step_spec(m, answers)->Ok_0.0), s.frames.len())
            ==> step_spec(m, answers)->Ok_0.0.stack.len() == m.frames[s.frames.len() as int].bp
            + 1,
    ensures
        on_the_way(
            s,
            step_spec(m, answers)->Ok_0.0,
            labels,
            lo,
            hi,
            if returned_to(Some(m), Some(step_spec(m, answers)->Ok_0.0), s.frames.len()) {
                returned + 1
            } else {
                returned
            },
        ),
{
    let depth = s.frames.len();
    let next = step_spec(m, answers)->Ok_0.0;
    if m.frames.len() == depth {
        typed_step_stays_on_the_way(s, m, labels, lo, hi, returned, answers);
    } else {
        step_changes_frames_by_one(m, answers);
        step_keeps_lower_frames(m, answers, depth - 1);
        if next.frames.len() > depth {
            step_keeps_lower_frames(m, answers, depth as int);
        }
    }
}

/// A run of a frame through typed code keeps the machine on its way.
proof fn typed_run_stays_on_the_way(
    s: VmModel,
    labels: Map<int, int>,
    lo: int,
    hi: int,
    answers: Seq<AnswersModel>,
    k: int,
)
    requires
        s.frames.len() > 0,
        s.chunk().code.len() <= usize::MAX,
        region_typed(s.chunk(), labels, lo, hi),
        labels.contains_key(s.ip() as int),
        runs_in_frame(s, answers, hi),
        within_memory(s, answers),
        0 <= k <= answers.len(),
    ensures
        state_after(s, answers.take(k)) is Some,
        on_the_way(
            s,
            state_after(s, answers.take(k))->Some_0,
            labels,
            lo,
            hi,
            calls_returned(s, answers.take(k), s.frames.len()),
        ),
    decreases k,
{
    run_prefix_continues(s, answers, k);
    if k > 0 {
        typed_run_stays_on_the_way(s, labels, lo, hi, answers, k - 1);
        run_prefix_continues(s, answers, k - 1);
        let depth = s.frames.len();
        let before = answers.take(k - 1);
        let now = answers.take(k);
        assert(now.drop_last() =~= before);
        let m = state_after(s, before)->Some_0;
        step_stays_on_the_way(
            s,
            m,
            labels,
            lo,
            hi,
            calls_returned(s, before, depth),
            answers[k - 1],
        );
    }
}

/// A step adds or takes away at most one frame.
pub proof fn step_changes_frames_by_one(s: VmModel, answers: AnswersModel)
    requires
        step_spec(s, answers) matches Ok((_, StepModel::Continue)),
    ensures
        s.frames.len() > 0,
        step_spec(s, answers)->Ok_0.0.frames.len() + 1 >= s.frames.len(),
        step_spec(s, answers)->Ok_0.0.frames.len() <= s.frames.len() + 1,
{
    reveal(step_spec);
    if s.frames.len() > 0 && s.executed < s.config.max_instructions {
        if let Some(op) = OpCode::decode(s.byte_ahead(0)) {
            frame_count_changes_by_call(s.counted(), op, answers);
        }
    }
}

/// Whether the stack of the machine is of a size that memory can hold
/// before every step that `answers` give from `s`.
pub open spec fn within_memory(s: VmModel, answers: Seq<AnswersModel>) -> bool {
    forall|k: int|
        0 <= k < answers.len() ==> (#[trigger] state_after(s, answers.take(k)))->Some_0.stack.len()
            <= usize::MAX
}

/// The discard balance with calls: a machine that executes the code of a
/// statement, from its first byte until the pointer first stands behind it
/// in the same frame, has its stack deeper than before by one value for
/// every call that the statement made and that returned.
///
/// So a statement that makes no call leaves the stack as deep as it found
/// it, and one that makes calls does not.
pub proof fn statement_leaves_one_value_per_call(
    stmt: Statement,
    locals: Map<Seq<char>, usize>,
    c: ChunkModel,
    s: VmModel,
    answers: Seq<AnswersModel>,
)
    requires
        lower_stmt(stmt, locals, c) is Ok,
        s.frames.len() > 0,
        s.chunk().code.len() <= usize::MAX,
        holds_code(s.chunk(), lower_stmt(stmt, locals, c)->Ok_0, c.code.len() as int),
        s.ip() == c.code.len(),
        runs_in_frame(s, answers, lower_stmt(stmt, locals, c)->Ok_0.code.len() as int),
        within_memory(s, answers),
        state_after(s, answers)->Some_0.frames.len() == s.frames.len(),
        state_after(s, answers)->Some_0.ip() == lower_stmt(stmt, locals, c)->Ok_0.code.len(),
    ensures
        state_after(s, answers)->Some_0.stack.len() == s.stack.len() + calls_returned(
            s,
            answers,
            s.frames.len(),
        ),
{
    let done = lower_stmt(stmt, locals, c)->Ok_0;
    let lo = c.code.len() as int;
    let labels = stmt_labels(stmt, locals, c);
    typed_code_stays_typed(done, s.chunk(), labels, lo, 0);
    typed_run_stays_on_the_way(
        s,
        labels,
        lo,
        done.code.len() as int,
        answers,
        answers.len() as int,
    );
    assert(answers.take(answers.len() as int) =~= answers);
}

} // verus!
