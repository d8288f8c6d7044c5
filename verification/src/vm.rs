//! The virtual machine: one operand stack shared by a stack of call frames.
//!
//! [`step_spec`] says what one instruction does to a machine, as a function
//! of the machine and of what the host answered. [`VM::step_with`] is proved
//! to do exactly that; [`VM::step`] and [`VM::run`] put the requests to a
//! [`Host`] and go by its answers, whatever they are.

use vstd::prelude::*;
use std::rc::Rc;
use crate::ast::SourceLocation;
use crate::chunk::{Chunk, OpCode, operand_u16};
use crate::env::{
    BindingModel, Bindings, Environment, chain_lookup, chain_store, table_lookup, table_set,
};
use crate::errors::{ErrorModel, PumpkinError};
use crate::heap::{
    Heap, HeapModel, MAX_RENDER_DEPTH, is_display_of, lookup_field, number_leaves, render,
    texts_model,
};
use crate::host::{
    AnswersModel, Arithmetic, Host, InterpreterConfig, NumberAnswers, NumberRequest, RequestModel,
    ask,
};
use crate::number::{integer_part, is_negative, number_lt};
use crate::text::{decimal, decimal_text};
use crate::value::{
    ChunkModel, FunctionModel, PumpkinFunction, PumpkinValue, ValueModel, arithmetic_request,
    arithmetic_result, offending_operand, values_equal, values_model,
};

verus! {

/// How one step ended.
#[derive(Debug, PartialEq)]
pub enum StepResult {
    /// The machine can take another step.
    Continue,
    /// The outermost frame returned: the program's result.
    Return(PumpkinValue),
    /// There was no frame left to run.
    Done,
}

/// How one step ended, as mathematics.
pub enum StepModel {
    Continue,
    Return(ValueModel),
    Done,
}

impl View for StepResult {
    type V = StepModel;

    open spec fn view(&self) -> StepModel {
        match *self {
            StepResult::Continue => StepModel::Continue,
            StepResult::Return(v) => StepModel::Return(v@),
            StepResult::Done => StepModel::Done,
        }
    }
}

/// One active call: the function, where it stands in its code, where its
/// window of the stack begins, and how many repeat counters were running when
/// it was entered.
pub struct CallFrame {
    pub function: Rc<PumpkinFunction>,
    pub ip: usize,
    pub bp: usize,
    pub counters: usize,
}

/// A call frame as mathematics.
pub struct FrameModel {
    pub function: FunctionModel,
    pub ip: usize,
    pub bp: usize,
    pub counters: usize,
}

impl View for CallFrame {
    type V = FrameModel;

    open spec fn view(&self) -> FrameModel {
        FrameModel {
            function: (*self.function)@,
            ip: self.ip,
            bp: self.bp,
            counters: self.counters,
        }
    }
}

/// The models of a sequence of frames, one for one.
pub open spec fn frames_model(s: Seq<CallFrame>) -> Seq<FrameModel> {
    Seq::new(s.len(), |i: int| s[i]@)
}

/// The machine as mathematics.
pub struct VmModel {
    /// The active calls, the running one last.
    pub frames: Seq<FrameModel>,
    /// The operand stack, its top last.
    pub stack: Seq<ValueModel>,
    /// The scopes of the globals, innermost first.
    pub globals: Seq<Seq<BindingModel>>,
    pub heap: HeapModel,
    /// What the program has printed, in order.
    pub output: Seq<Seq<char>>,
    /// The countdowns of the running `repeat` loops, the innermost last.
    pub counters: Seq<usize>,
    pub config: InterpreterConfig,
    /// How many instructions have run.
    pub executed: usize,
    pub modules: Seq<BindingModel>,
    pub exports: Seq<BindingModel>,
}

/// The message of the error that ends a run out of its instruction budget.
pub open spec fn exhausted_message() -> Seq<char> {
    "Execution exceeded instruction limit (Infinite Loop?)"@
}

/// Where the instruction pointer stands after `n` more bytes were read.
/// Reading stops at the end of the code: a byte read there is 0 and the
/// pointer stays.
pub open spec fn after_reading(ip: usize, len: nat, n: nat) -> usize {
    if ip >= len {
        ip
    } else if ip + n <= len {
        (ip + n) as usize
    } else {
        len as usize
    }
}

/// The first `n` values of a stack, all of it where it has fewer.
pub open spec fn stack_below(stack: Seq<ValueModel>, n: usize) -> Seq<ValueModel> {
    if n <= stack.len() {
        stack.take(n as int)
    } else {
        stack
    }
}

/// The first `n` counters, all of them where there are fewer.
pub open spec fn counters_below(counters: Seq<usize>, n: usize) -> Seq<usize> {
    if n <= counters.len() {
        counters.take(n as int)
    } else {
        counters
    }
}

/// How often a `repeat` runs its body for a count: not at all for a negative
/// count or NaN, else the integer part of the count, capped at `usize::MAX`.
pub open spec fn repeat_count(bits: u64) -> usize {
    if is_negative(bits) {
        0
    } else if integer_part(bits) <= usize::MAX {
        integer_part(bits) as usize
    } else {
        usize::MAX
    }
}

/// Whether a number is an index into a sequence of `len` items: it is not
/// negative and its integer part is below `len`. NaN counts as 0.
pub open spec fn index_in_bounds(bits: u64, len: nat) -> bool {
    !is_negative(bits) && integer_part(bits) < len
}

impl VmModel {
    /// The running frame.
    pub open spec fn frame(self) -> FrameModel {
        self.frames.last()
    }

    /// The chunk of the running frame.
    pub open spec fn chunk(self) -> ChunkModel {
        self.frame().function.chunk
    }

    /// The instruction pointer of the running frame.
    pub open spec fn ip(self) -> usize {
        self.frame().ip
    }

    /// The byte `ahead` bytes behind the instruction pointer, 0 beyond the code.
    pub open spec fn byte_ahead(self, ahead: nat) -> u8 {
        self.chunk().byte_at(self.ip() + ahead)
    }

    /// The one-byte operand of the instruction at the pointer.
    pub open spec fn operand(self) -> nat {
        self.byte_ahead(1) as nat
    }

    /// The two-byte operand of the instruction at the pointer.
    pub open spec fn wide_operand(self) -> nat {
        operand_u16(self.byte_ahead(1), self.byte_ahead(2))
    }

    /// The line of the instruction at the pointer, if the line table has it.
    pub open spec fn location(self) -> Option<SourceLocation> {
        if self.frames.len() > 0 && self.ip() < self.chunk().lines.len() {
            Some(
                SourceLocation { start: 0, end: 0, line: self.chunk().lines[self.ip() as int], col: 0 },
            )
        } else {
            None
        }
    }

    /// The machine with the running frame's pointer at `ip`.
    pub open spec fn with_ip(self, ip: usize) -> VmModel {
        VmModel {
            frames: self.frames.update(
                self.frames.len() - 1,
                FrameModel { ip, ..self.frame() },
            ),
            ..self
        }
    }

    /// The machine with another operand stack.
    pub open spec fn with_stack(self, stack: Seq<ValueModel>) -> VmModel {
        VmModel { stack, ..self }
    }

    /// The machine with the pointer behind an instruction of `width` operand
    /// bytes.
    pub open spec fn past(self, width: nat) -> VmModel {
        self.with_ip(after_reading(self.ip(), self.chunk().code.len(), 1 + width))
    }

    /// The machine with `v` pushed.
    pub open spec fn pushed(self, v: ValueModel) -> VmModel {
        self.with_stack(self.stack.push(v))
    }

    /// The machine without the top `n` values.
    pub open spec fn popped(self, n: nat) -> VmModel {
        self.with_stack(self.stack.take(self.stack.len() - n))
    }

    /// The value `distance` below the top.
    pub open spec fn peek(self, distance: nat) -> ValueModel {
        self.stack[self.stack.len() - 1 - distance]
    }

    /// The machine with one more instruction counted.
    pub open spec fn counted(self) -> VmModel {
        VmModel { executed: (self.executed + 1) as usize, ..self }
    }

    /// Whether the stack, the counters and the code of every frame are of
    /// sizes that a machine's memory can hold.
    pub open spec fn fits_memory(self) -> bool {
        &&& self.stack.len() <= usize::MAX
        &&& self.counters.len() <= usize::MAX
        &&& forall|i: int|
            0 <= i < self.frames.len() ==> (#[trigger] self.frames[i]).function.chunk.code.len()
                <= usize::MAX
    }
}

/// The outcome of an instruction: the machine after it and how the step
/// ended, or the error.
pub type Outcome = Result<(VmModel, StepModel), ErrorModel>;

/// The machine goes on as `s`.
pub open spec fn proceed(s: VmModel) -> Outcome {
    Ok((s, StepModel::Continue))
}

/// The step fails with a runtime error.
pub open spec fn fail(message: Seq<char>) -> Outcome {
    Err(ErrorModel::runtime(message, None))
}

/// The step fails with a type error: `expected` was wanted, `found` was there.
pub open spec fn wrong_kind(expected: Seq<char>, found: ValueModel) -> Outcome {
    Err(ErrorModel::type_mismatch(expected, found.kind_name(), None))
}

/// A jump forward from `s`'s pointer by `distance`.
pub open spec fn jump_forward(s: VmModel, distance: nat) -> Outcome {
    if s.ip() + distance <= usize::MAX {
        proceed(s.with_ip((s.ip() + distance) as usize))
    } else {
        fail("Jump out of range"@)
    }
}

/// A jump back from `s`'s pointer by `distance`.
pub open spec fn jump_back(s: VmModel, distance: nat) -> Outcome {
    if distance <= s.ip() {
        proceed(s.with_ip((s.ip() - distance) as usize))
    } else {
        fail("Jump out of range"@)
    }
}

/// `Return`: the top of the stack (null on an empty stack) is the result.
/// The running frame ends and its repeat counters with it. From the outermost
/// frame the result is the program's. Else the stack is cut back to the
/// frame's base and the result pushed for the caller. The base lies just
/// above the callee's slot, so the caller finds the callee below the result.
pub open spec fn return_spec(s: VmModel) -> Outcome {
    let result = if s.stack.len() > 0 {
        s.stack.last()
    } else {
        ValueModel::Null
    };
    let rest = if s.stack.len() > 0 {
        s.stack.drop_last()
    } else {
        s.stack
    };
    let frame = s.frame();
    let counters = counters_below(s.counters, frame.counters);
    if s.frames.len() == 1 {
        Ok(
            (
                VmModel { frames: s.frames.drop_last(), stack: rest, counters, ..s },
                StepModel::Return(result),
            ),
        )
    } else {
        proceed(
            VmModel {
                frames: s.frames.drop_last(),
                stack: stack_below(rest, frame.bp).push(result),
                counters,
                ..s
            },
        )
    }
}

/// `Constant i`: pushes constant `i` of the running chunk.
pub open spec fn constant_spec(s: VmModel) -> Outcome {
    let index = s.operand();
    if index >= s.chunk().constants.len() {
        fail("Constant index out of bounds"@)
    } else {
        proceed(s.past(1).pushed(s.chunk().constants[index as int]))
    }
}

/// `Pop`: discards the top of the stack.
pub open spec fn pop_spec(s: VmModel) -> Outcome {
    if s.stack.len() == 0 {
        fail("Stack underflow"@)
    } else {
        proceed(s.past(0).popped(1))
    }
}

/// `Print`: takes the top of the stack and appends its display form to the
/// output.
pub open spec fn print_spec(s: VmModel, answers: AnswersModel) -> Outcome {
    if s.stack.len() == 0 {
        fail("Stack underflow"@)
    } else {
        let text = render(s.peek(0), s.heap, MAX_RENDER_DEPTH as nat, answers.texts);
        proceed(VmModel { output: s.output.push(text), ..s.past(0).popped(1) })
    }
}

/// `Add`, `Sub`, `Mul`, `Div`: replaces the two top values by the outcome of
/// the operation on them, the lower one being the left operand.
pub open spec fn arithmetic_spec(s: VmModel, op: Arithmetic, answers: AnswersModel) -> Outcome {
    if s.stack.len() < 2 {
        fail("Stack underflow"@)
    } else {
        match arithmetic_result(op, s.peek(1), s.peek(0), s.heap, answers) {
            Ok(v) => proceed(s.past(0).popped(2).pushed(v)),
            Err(e) => Err(e),
        }
    }
}

/// `Equal`: replaces the two top values by whether they are equal.
pub open spec fn equal_spec(s: VmModel) -> Outcome {
    if s.stack.len() < 2 {
        fail("Stack underflow"@)
    } else {
        proceed(
            s.past(0).popped(2).pushed(ValueModel::Boolean(values_equal(s.peek(1), s.peek(0)))),
        )
    }
}

/// `Greater` and `Less`: replaces two numbers by how they compare. Any
/// other operand is a type error.
pub open spec fn compare_spec(s: VmModel, greater: bool) -> Outcome {
    if s.stack.len() < 2 {
        fail("Stack underflow"@)
    } else {
        match (s.peek(1), s.peek(0)) {
            (ValueModel::Number(a), ValueModel::Number(b)) => proceed(
                s.past(0).popped(2).pushed(
                    ValueModel::Boolean(
                        if greater {
                            number_lt(b, a)
                        } else {
                            number_lt(a, b)
                        },
                    ),
                ),
            ),
            _ => wrong_kind("number"@, offending_operand(s.peek(1), s.peek(0))),
        }
    }
}

/// `Not`: replaces the top value by whether it is falsey.
pub open spec fn not_spec(s: VmModel) -> Outcome {
    if s.stack.len() == 0 {
        fail("Stack underflow"@)
    } else {
        proceed(s.past(0).popped(1).pushed(ValueModel::Boolean(!s.peek(0).is_truthy())))
    }
}

/// `GetLocal n`: pushes the value in slot `n` of the running frame's window.
/// A slot beyond the stack is an error.
pub open spec fn get_local_spec(s: VmModel) -> Outcome {
    let slot = s.frame().bp + s.operand();
    if slot >= s.stack.len() {
        fail("Local variable slot OOB"@)
    } else {
        proceed(s.past(1).pushed(s.stack[slot]))
    }
}

/// `SetLocal n`: copies the top of the stack into slot `n` and leaves it on
/// the stack. A slot beyond the stack is an error: the stack never grows
/// this way.
pub open spec fn set_local_spec(s: VmModel) -> Outcome {
    let slot = s.frame().bp + s.operand();
    if s.stack.len() == 0 {
        fail("Stack underflow SetLocal"@)
    } else if slot >= s.stack.len() {
        fail("Local variable slot OOB (Set)"@)
    } else {
        proceed(s.past(1).with_stack(s.stack.update(slot, s.peek(0))))
    }
}

/// `GetGlobal i`: pushes the global whose name is constant `i`.
pub open spec fn get_global_spec(s: VmModel) -> Outcome {
    let index = s.operand();
    if index >= s.chunk().constants.len() {
        fail("Constant index out of bounds"@)
    } else {
        match s.chunk().constants[index as int] {
            ValueModel::Str(name) => match chain_lookup(s.globals, name) {
                Some(v) => proceed(s.past(1).pushed(v)),
                None => Err(
                    ErrorModel::UndefinedVariableError { name, location: None, hint: None },
                ),
            },
            _ => fail("Corrupt bytecode: Global name not string"@),
        }
    }
}

/// `SetGlobal i`: stores the top of the stack under the name that is
/// constant `i`, declaring the name if it is new, and leaves the value on the
/// stack. It does nothing where the constant is no string.
pub open spec fn set_global_spec(s: VmModel) -> Outcome {
    let index = s.operand();
    if index >= s.chunk().constants.len() {
        fail("Constant index out of bounds"@)
    } else {
        match s.chunk().constants[index as int] {
            ValueModel::Str(name) => if s.stack.len() == 0 {
                fail("Stack underflow on SetGlobal"@)
            } else {
                proceed(VmModel { globals: chain_store(s.globals, name, s.peek(0)), ..s.past(1) })
            },
            _ => proceed(s.past(1)),
        }
    }
}

/// `Jump d`: moves the pointer `d` bytes on from behind the operand.
pub open spec fn jump_spec(s: VmModel) -> Outcome {
    jump_forward(s.past(2), s.wide_operand())
}

/// `JumpIfFalse d`: jumps like `Jump` where the top of the stack is falsey.
/// The value stays on the stack either way.
pub open spec fn jump_if_false_spec(s: VmModel) -> Outcome {
    if s.stack.len() == 0 {
        fail("Stack underflow JumpIfFalse"@)
    } else if !s.peek(0).is_truthy() {
        jump_forward(s.past(2), s.wide_operand())
    } else {
        proceed(s.past(2))
    }
}

/// `Loop d`: moves the pointer `d` bytes back from behind the operand.
pub open spec fn loop_spec(s: VmModel) -> Outcome {
    jump_back(s.past(2), s.wide_operand())
}

/// The message of a call with the wrong number of arguments.
pub open spec fn arity_message(expected: nat, got: nat) -> Seq<char> {
    "Expected "@ + decimal_text(expected) + " args, got "@ + decimal_text(got)
}

/// `Call n`: the callee lies below its `n` arguments. A new frame starts at
/// the callee's first instruction, its window beginning just above the
/// callee, so that argument `i` is local `i`.
pub open spec fn call_spec(s: VmModel) -> Outcome {
    let count = s.operand();
    if s.stack.len() < 1 + count {
        fail("Stack underflow calling function"@)
    } else {
        let at = s.stack.len() - 1 - count;
        match s.stack[at] {
            ValueModel::Function(f) => if count != f.arity {
                fail(arity_message(f.arity, count))
            } else if s.frames.len() >= s.config.max_call_depth {
                fail("Stack overflow"@)
            } else {
                let caller = s.past(1);
                proceed(
                    VmModel {
                        frames: caller.frames.push(
                            FrameModel {
                                function: f,
                                ip: 0,
                                bp: (at + 1) as usize,
                                counters: s.counters.len() as usize,
                            },
                        ),
                        ..caller
                    },
                )
            },
            other => wrong_kind("function"@, other),
        }
    }
}

/// `RepeatStart d`: takes the count off the stack. For a count of zero the
/// body is skipped: the pointer moves `d` bytes on. Else a countdown starts.
pub open spec fn repeat_start_spec(s: VmModel) -> Outcome {
    if s.stack.len() == 0 {
        fail("Stack underflow"@)
    } else {
        match s.peek(0) {
            ValueModel::Number(bits) => {
                let next = s.past(2).popped(1);
                if repeat_count(bits) == 0 {
                    jump_forward(next, s.wide_operand())
                } else {
                    proceed(VmModel { counters: s.counters.push(repeat_count(bits)), ..next })
                }
            },
            other => wrong_kind("number"@, other),
        }
    }
}

/// `RepeatEnd d`: counts the innermost countdown of the running frame down.
/// While rounds are left the pointer moves `d` bytes back, to the start of
/// the body. After the last round the countdown ends.
pub open spec fn repeat_end_spec(s: VmModel) -> Outcome {
    if s.counters.len() == 0 || s.counters.len() <= s.frame().counters {
        fail("Repeat counter underflow"@)
    } else {
        let left = s.counters.last();
        if left > 1 {
            jump_back(
                VmModel {
                    counters: s.counters.update(s.counters.len() - 1, (left - 1) as usize),
                    ..s.past(2)
                },
                s.wide_operand(),
            )
        } else {
            proceed(VmModel { counters: s.counters.drop_last(), ..s.past(2) })
        }
    }
}

/// `ArrayLit n`: replaces the top `n` values by a new list of them, in the
/// order in which they were pushed.
pub open spec fn array_spec(s: VmModel) -> Outcome {
    let count = s.wide_operand();
    if s.stack.len() < count {
        fail("Stack underflow ArrayLit"@)
    } else {
        let items = s.stack.skip(s.stack.len() - count);
        let next = s.past(2).popped(count);
        proceed(
            VmModel { heap: s.heap.with_list(items), ..next }.pushed(
                ValueModel::List(s.heap.lists.len() as usize),
            ),
        )
    }
}

/// `IndexGet`: replaces a list and a number by the item of the list at the
/// integer part of the number.
pub open spec fn index_get_spec(s: VmModel) -> Outcome {
    if s.stack.len() < 2 {
        fail("Stack underflow"@)
    } else {
        match s.peek(1) {
            ValueModel::List(h) => match s.peek(0) {
                ValueModel::Number(bits) => if !s.heap.has_list(h) {
                    fail("Unknown list"@)
                } else if !index_in_bounds(bits, s.heap.lists[h as int].len()) {
                    fail("Index out of bounds"@)
                } else {
                    proceed(
                        s.past(0).popped(2).pushed(
                            s.heap.lists[h as int][integer_part(bits) as int],
                        ),
                    )
                },
                other => wrong_kind("number"@, other),
            },
            other => wrong_kind("list"@, other),
        }
    }
}

/// `IndexSet`: stores the top value into a list at an index, and leaves the
/// value in place of the three.
pub open spec fn index_set_spec(s: VmModel) -> Outcome {
    if s.stack.len() < 3 {
        fail("Stack underflow"@)
    } else {
        match s.peek(2) {
            ValueModel::List(h) => match s.peek(1) {
                ValueModel::Number(bits) => if !s.heap.has_list(h) {
                    fail("Unknown list"@)
                } else if !index_in_bounds(bits, s.heap.lists[h as int].len()) {
                    fail("Index out of bounds"@)
                } else {
                    proceed(
                        VmModel {
                            heap: s.heap.store(h as int, integer_part(bits) as int, s.peek(0)),
                            ..s.past(0).popped(3)
                        }.pushed(s.peek(0)),
                    )
                },
                other => wrong_kind("number"@, other),
            },
            other => wrong_kind("list"@, other),
        }
    }
}

/// `GetProp i`: replaces an object by its field whose name is constant `i`.
/// A missing field is an error.
pub open spec fn get_prop_spec(s: VmModel) -> Outcome {
    let index = s.operand();
    if index >= s.chunk().constants.len() {
        fail("Constant index out of bounds"@)
    } else {
        match s.chunk().constants[index as int] {
            ValueModel::Str(name) => if s.stack.len() == 0 {
                fail("Stack underflow"@)
            } else {
                match s.peek(0) {
                    ValueModel::Object(h) => if !s.heap.has_object(h) {
                        fail("Unknown object"@)
                    } else {
                        match lookup_field(s.heap.objects[h as int], name) {
                            Some(v) => proceed(s.past(1).popped(1).pushed(v)),
                            None => fail("Property '"@ + name + "' not found"@),
                        }
                    },
                    other => wrong_kind("object"@, other),
                }
            },
            _ => fail("Property name must be string"@),
        }
    }
}

/// `Import i`: pushes the module registered under the name that is constant
/// `i`. It does nothing where the constant is no string.
pub open spec fn import_spec(s: VmModel) -> Outcome {
    let index = s.operand();
    if index >= s.chunk().constants.len() {
        fail("Constant index out of bounds"@)
    } else {
        match s.chunk().constants[index as int] {
            ValueModel::Str(name) => match table_lookup(s.modules, name) {
                Some(v) => proceed(s.past(1).pushed(v)),
                None => fail("Module '"@ + name + "' not found"@),
            },
            _ => proceed(s.past(1)),
        }
    }
}

/// `Export i`: takes the top of the stack and records it as an export under
/// the name that is constant `i`. It does nothing where the constant is no
/// string.
pub open spec fn export_spec(s: VmModel) -> Outcome {
    let index = s.operand();
    if index >= s.chunk().constants.len() {
        fail("Constant index out of bounds"@)
    } else {
        match s.chunk().constants[index as int] {
            ValueModel::Str(name) => if s.stack.len() == 0 {
                fail("Stack underflow"@)
            } else {
                proceed(
                    VmModel {
                        exports: table_set(s.exports, name, s.peek(0)),
                        ..s.past(1).popped(1)
                    },
                )
            },
            _ => proceed(s.past(1)),
        }
    }
}

/// What instruction `op`, at the pointer of the running frame, does to `s`.
pub open spec fn instruction_spec(s: VmModel, op: OpCode, answers: AnswersModel) -> Outcome {
    match op {
        OpCode::Return => return_spec(s),
        OpCode::Constant => constant_spec(s),
        OpCode::Pop => pop_spec(s),
        OpCode::Nil => proceed(s.past(0).pushed(ValueModel::Null)),
        OpCode::True => proceed(s.past(0).pushed(ValueModel::Boolean(true))),
        OpCode::False => proceed(s.past(0).pushed(ValueModel::Boolean(false))),
        OpCode::Print => print_spec(s, answers),
        OpCode::GetLocal => get_local_spec(s),
        OpCode::SetLocal => set_local_spec(s),
        OpCode::GetGlobal => get_global_spec(s),
        OpCode::SetGlobal => set_global_spec(s),
        OpCode::Add => arithmetic_spec(s, Arithmetic::Add, answers),
        OpCode::Sub => arithmetic_spec(s, Arithmetic::Sub, answers),
        OpCode::Mul => arithmetic_spec(s, Arithmetic::Mul, answers),
        OpCode::Div => arithmetic_spec(s, Arithmetic::Div, answers),
        OpCode::Equal => equal_spec(s),
        OpCode::Greater => compare_spec(s, true),
        OpCode::Less => compare_spec(s, false),
        OpCode::Not => not_spec(s),
        OpCode::Jump => jump_spec(s),
        OpCode::JumpIfFalse => jump_if_false_spec(s),
        OpCode::Loop => loop_spec(s),
        OpCode::Call => call_spec(s),
        OpCode::RepeatStart => repeat_start_spec(s),
        OpCode::RepeatEnd => repeat_end_spec(s),
        OpCode::ArrayLit => array_spec(s),
        OpCode::IndexGet => index_get_spec(s),
        OpCode::IndexSet => index_set_spec(s),
        OpCode::GetProp => get_prop_spec(s),
        OpCode::Import => import_spec(s),
        OpCode::Export => export_spec(s),
    }
}

/// One step of the machine.
///
/// Without a frame the machine is done. With its instruction budget used up
/// it fails as exhausted. Else it counts the instruction, decodes the byte at
/// the pointer (a byte that is no instruction is an error) and does what the
/// instruction says. An error carries the line of the instruction.
#[verifier::opaque]
pub open spec fn step_spec(s: VmModel, answers: AnswersModel) -> Outcome {
    if s.frames.len() == 0 {
        Ok((s, StepModel::Done))
    } else if s.executed >= s.config.max_instructions {
        Err(ErrorModel::ResourceExhausted { message: exhausted_message(), location: s.location() })
    } else {
        match OpCode::decode(s.byte_ahead(0)) {
            Some(op) => match instruction_spec(s.counted(), op, answers) {
                Ok(next) => Ok(next),
                Err(e) => Err(e.at(s.location())),
            },
            None => Err(
                ErrorModel::runtime(
                    "Unknown opcode "@ + decimal_text(s.byte_ahead(0) as nat),
                    s.location(),
                ),
            ),
        }
    }
}

/// What the next step needs from the host: the arithmetic of `Add`, `Sub`,
/// `Mul` and `Div`, and the texts of the numbers that `Print` or a `+` with a
/// string shows.
pub open spec fn request_spec(s: VmModel) -> RequestModel {
    if s.frames.len() == 0 || s.executed >= s.config.max_instructions {
        RequestModel::Nothing
    } else {
        match OpCode::decode(s.byte_ahead(0)) {
            Some(OpCode::Print) => if s.stack.len() >= 1 {
                RequestModel::Format {
                    numbers: number_leaves(s.peek(0), s.heap, MAX_RENDER_DEPTH as nat),
                }
            } else {
                RequestModel::Nothing
            },
            Some(OpCode::Add) => operands_request(s, Arithmetic::Add),
            Some(OpCode::Sub) => operands_request(s, Arithmetic::Sub),
            Some(OpCode::Mul) => operands_request(s, Arithmetic::Mul),
            Some(OpCode::Div) => operands_request(s, Arithmetic::Div),
            _ => RequestModel::Nothing,
        }
    }
}

/// What an arithmetic instruction needs from the host for the two values on
/// top of the stack.
pub open spec fn operands_request(s: VmModel, op: Arithmetic) -> RequestModel {
    if s.stack.len() >= 2 {
        arithmetic_request(op, s.peek(1), s.peek(0), s.heap)
    } else {
        RequestModel::Nothing
    }
}

/// Whether a step that ended in `r` and left the machine as `after` did what
/// `expected` says. After an error the output, the globals, the heap, the
/// modules and the exports are as they were before the step.
pub open spec fn agrees(
    before: VmModel,
    after: VmModel,
    expected: Outcome,
    r: Result<StepResult, PumpkinError>,
) -> bool {
    match expected {
        Ok((state, how)) => r matches Ok(x) && x@ == how && after == state,
        Err(e) => r matches Err(x) && x@ == e && after.output == before.output && after.globals
            == before.globals && after.heap == before.heap && after.exports == before.exports
            && after.modules == before.modules && after.config == before.config,
    }
}

/// Whether a step from `before` that ended in `r` and left the machine as
/// `after` is the step of [`step_spec`] for some answers of the host, one
/// text for each number that the step's request names.
pub open spec fn step_taken(
    before: VmModel,
    after: VmModel,
    r: Result<StepResult, PumpkinError>,
) -> bool {
    exists|answers: AnswersModel|
        answers.texts.len() == request_spec(before).text_count() && #[trigger] agrees(
            before,
            after,
            step_spec(before, answers),
            r,
        )
}

/// The machine that is about to run `chunk` as the script.
pub open spec fn initial_model(chunk: ChunkModel, globals: Seq<Seq<BindingModel>>) -> VmModel {
    VmModel {
        frames: seq![
            FrameModel {
                function: FunctionModel { arity: 0, chunk, name: "<script>"@ },
                ip: 0,
                bp: 0,
                counters: 0,
            },
        ],
        stack: Seq::empty(),
        globals,
        heap: HeapModel::empty(),
        output: Seq::empty(),
        counters: Seq::empty(),
        config: crate::host::standard_limits(),
        executed: 0,
        modules: Seq::empty(),
        exports: Seq::empty(),
    }
}

/// The virtual machine.
pub struct VM {
    frames: Vec<CallFrame>,
    stack: Vec<PumpkinValue>,
    globals: Environment,
    heap: Heap,
    trace: bool,
    output_buffer: Vec<String>,
    counters: Vec<usize>,
    config: InterpreterConfig,
    executed: usize,
    pub module_registry: Bindings,
    pub current_exports: Bindings,
}

impl View for VM {
    type V = VmModel;

    closed spec fn view(&self) -> VmModel {
        VmModel {
            frames: frames_model(self.frames@),
            stack: values_model(self.stack@),
            globals: self.globals@,
            heap: self.heap@,
            output: texts_model(self.output_buffer@),
            counters: self.counters@,
            config: self.config,
            executed: self.executed,
            modules: self.module_registry@,
            exports: self.current_exports@,
        }
    }
}

/// `Rc::new` on a function.
fn new_function(f: PumpkinFunction) -> (r: Rc<PumpkinFunction>)
    ensures
        *r == f,
{
    Rc::new(f)
}

impl VM {
    /// A machine about to run `script_chunk` as the script, with the standard
    /// limits and an empty heap.
    pub fn new(script_chunk: Chunk, globals: Environment) -> (r: Self)
        ensures
            r@ == initial_model(script_chunk@, globals@),
    {
        let main_func = new_function(
            PumpkinFunction { arity: 0, chunk: script_chunk, name: String::from_str("<script>") },
        );
        let main_frame = CallFrame { function: main_func, ip: 0, bp: 0, counters: 0 };
        let mut frames: Vec<CallFrame> = Vec::new();
        frames.push(main_frame);
        let r = VM {
            frames,
            stack: Vec::new(),
            globals,
            heap: Heap::new(),
            trace: false,
            output_buffer: Vec::new(),
            counters: Vec::new(),
            config: InterpreterConfig::standard(),
            executed: 0,
            module_registry: Bindings::new(),
            current_exports: Bindings::new(),
        };
        proof {
            let m = initial_model(script_chunk@, globals@);
            assert(r@.frames =~= m.frames);
            assert(r@.stack =~= m.stack);
            assert(r@.output =~= m.output);
        }
        r
    }

    /// The model of a machine is of sizes that memory can hold.
    pub proof fn view_fits_memory(&self)
        ensures
            self@.fits_memory(),
            self@.frames.len() > 0 ==> self@.chunk().code.len() <= usize::MAX,
    {
        assert(self.stack@.len() == self.stack.len());
        assert(self.counters@.len() == self.counters.len());
        assert forall|i: int| 0 <= i < self@.frames.len() implies (#[trigger] self@.frames[
            i
        ]).function.chunk.code.len() <= usize::MAX by {
            let chunk = &self.frames@[i].function.chunk;
            crate::value::chunk_model_constants(chunk);
            assert(chunk.code@.len() == chunk.code.len());
        }
    }

    /// Sets whether the embedder wants the machine traced. The machine itself
    /// prints nothing: see [`Self::tracing`].
    pub fn with_tracing(self, trace: bool) -> (r: Self)
        ensures
            r@ == self@,
            r.tracing() == trace,
    {
        let mut vm = self;
        vm.trace = trace;
        vm
    }

    /// Whether tracing was asked for.
    pub closed spec fn tracing(&self) -> bool {
        self.trace
    }

    /// Whether tracing was asked for.
    pub fn is_tracing(&self) -> (r: bool)
        ensures
            r == self.tracing(),
    {
        self.trace
    }

    /// The machine with other limits.
    pub fn with_config(self, config: InterpreterConfig) -> (r: Self)
        ensures
            r@ == (VmModel { config, ..self@ }),
    {
        let mut vm = self;
        vm.config = config;
        vm
    }

    /// The machine with another heap: the one that the values of its globals
    /// point into.
    pub fn with_heap(self, heap: Heap) -> (r: Self)
        ensures
            r@ == (VmModel { heap: heap@, ..self@ }),
    {
        let mut vm = self;
        vm.heap = heap;
        vm
    }

    /// Registers a module for `import`.
    pub fn register_module(&mut self, name: &str, module: PumpkinValue)
        ensures
            final(self)@ == (VmModel {
                modules: table_set(old(self)@.modules, name@, module@),
                ..old(self)@
            }),
    {
        self.module_registry.set(name, module);
    }

    /// The value exported under `name`.
    pub fn export(&self, name: &str) -> (r: Option<PumpkinValue>)
        ensures
            r is Some == table_lookup(self@.exports, name@) is Some,
            r matches Some(v) ==> table_lookup(self@.exports, name@) == Some(v@),
    {
        self.current_exports.get(name)
    }

    /// Ends the machine and hands back the globals and the heap.
    pub fn into_parts(self) -> (r: (Environment, Heap))
        ensures
            r.0@ == self@.globals,
            r.1@ == self@.heap,
    {
        (self.globals, self.heap)
    }

    /// What the program has printed so far.
    pub fn get_output(&self) -> (r: Vec<String>)
        ensures
            texts_model(r@) == self@.output,
    {
        let mut out: Vec<String> = Vec::new();
        let mut i: usize = 0;
        while i < self.output_buffer.len()
            invariant
                i <= self.output_buffer.len(),
                out@.len() == i,
                forall|k: int| 0 <= k < i ==> out@[k]@ == self.output_buffer@[k]@,
            decreases self.output_buffer.len() - i,
        {
            out.push(self.output_buffer[i].clone());
            i = i + 1;
        }
        out
    }

    /// The instruction pointer of the running frame, 0 without a frame.
    pub fn ip(&self) -> (r: usize)
        ensures
            r == if self@.frames.len() > 0 {
                self@.ip()
            } else {
                0
            },
    {
        if self.frames.len() > 0 {
            self.frames[self.frames.len() - 1].ip
        } else {
            0
        }
    }

    /// How many frames are active.
    pub fn depth(&self) -> (r: usize)
        ensures
            r == self@.frames.len(),
    {
        self.frames.len()
    }

    /// The chunk of the running frame.
    pub fn chunk(&self) -> (r: &Chunk)
        requires
            self@.frames.len() > 0,
        ensures
            r@ == self@.chunk(),
    {
        &self.frames[self.frames.len() - 1].function.chunk
    }

    /// The line of the instruction at the pointer, if the line table has it.
    pub fn current_line(&self) -> (r: Option<usize>)
        ensures
            r == match self@.location() {
                Some(l) => Some(l.line),
                None => None,
            },
    {
        if self.frames.len() == 0 {
            return None;
        }
        let frame = &self.frames[self.frames.len() - 1];
        proof {
            crate::value::chunk_model_constants(&frame.function.chunk);
        }
        if frame.ip < frame.function.chunk.lines.len() {
            Some(frame.function.chunk.lines[frame.ip])
        } else {
            None
        }
    }

    /// The location of the instruction at the pointer.
    pub fn location(&self) -> (r: Option<SourceLocation>)
        ensures
            r == self@.location(),
    {
        match self.current_line() {
            Some(line) => Some(SourceLocation { start: 0, end: 0, line, col: 0 }),
            None => None,
        }
    }

    /// How many values the operand stack holds.
    pub fn stack_depth(&self) -> (r: usize)
        ensures
            r == self@.stack.len(),
    {
        self.stack.len()
    }

    /// The display form of each value on the operand stack, the host
    /// formatting the numbers.
    pub fn get_stack_names<H: Host>(&self, host: &H) -> (r: Vec<String>)
        ensures
            r@.len() == self@.stack.len(),
            forall|i: int|
                0 <= i < r@.len() ==> is_display_of(#[trigger] r@[i]@, self@.stack[i], self@.heap),
    {
        let mut out: Vec<String> = Vec::new();
        let mut i: usize = 0;
        while i < self.stack.len()
            invariant
                i <= self.stack.len(),
                out@.len() == i,
                forall|k: int|
                    0 <= k < i ==> is_display_of(#[trigger] out@[k]@, self@.stack[k], self@.heap),
            decreases self.stack.len() - i,
        {
            let text = self.stack[i].display(&self.heap, host);
            out.push(text);
            i = i + 1;
        }
        out
    }

    fn byte_ahead(&self, ahead: usize) -> (r: u8)
        requires
            self@.frames.len() > 0,
        ensures
            r == self@.byte_ahead(ahead as nat),
    {
        let frame = &self.frames[self.frames.len() - 1];
        proof {
            crate::value::chunk_model_constants(&frame.function.chunk);
        }
        let code = &frame.function.chunk.code;
        if frame.ip < code.len() && ahead < code.len() - frame.ip {
            code[frame.ip + ahead]
        } else {
            0
        }
    }

    fn wide_operand(&self) -> (r: usize)
        requires
            self@.frames.len() > 0,
        ensures
            r == self@.wide_operand(),
    {
        let high = self.byte_ahead(1);
        let low = self.byte_ahead(2);
        (high as usize) * 256 + (low as usize)
    }

    fn set_ip(&mut self, ip: usize)
        requires
            old(self)@.frames.len() > 0,
        ensures
            final(self)@ == old(self)@.with_ip(ip),
    {
        let mut frame = self.frames.pop().unwrap();
        frame.ip = ip;
        self.frames.push(frame);
        assert(self@.frames =~= old(self)@.with_ip(ip).frames);
    }

    fn advance(&mut self, width: usize)
        requires
            old(self)@.frames.len() > 0,
            width <= 2,
        ensures
            final(self)@ == old(self)@.past(width as nat),
    {
        let frame = &self.frames[self.frames.len() - 1];
        proof {
            crate::value::chunk_model_constants(&frame.function.chunk);
        }
        let len = frame.function.chunk.code.len();
        let ip = frame.ip;
        let next = if ip >= len {
            ip
        } else if 1 + width <= len - ip {
            ip + 1 + width
        } else {
            len
        };
        self.set_ip(next);
    }

    fn push_value(&mut self, v: PumpkinValue)
        ensures
            final(self)@ == old(self)@.pushed(v@),
    {
        proof {
            crate::value::values_model_push(self.stack@, v);
        }
        self.stack.push(v);
    }

    fn pop_value(&mut self) -> (r: PumpkinValue)
        requires
            old(self)@.stack.len() > 0,
        ensures
            r@ == old(self)@.peek(0),
            final(self)@ == old(self)@.popped(1),
    {
        let v = self.stack.pop().unwrap();
        assert(self@.stack =~= old(self)@.stack.take(old(self)@.stack.len() - 1));
        v
    }

    fn cut_stack(&mut self, len: usize)
        requires
            len <= old(self)@.stack.len(),
        ensures
            final(self)@ == old(self)@.with_stack(old(self)@.stack.take(len as int)),
    {
        self.stack.truncate(len);
        assert(self@.stack =~= old(self)@.stack.take(len as int));
    }

    fn peek_value(&self, distance: usize) -> (r: &PumpkinValue)
        requires
            distance < self@.stack.len(),
        ensures
            r@ == self@.peek(distance as nat),
    {
        &self.stack[self.stack.len() - 1 - distance]
    }

    fn constant_at(&self, index: usize) -> (r: Option<PumpkinValue>)
        requires
            self@.frames.len() > 0,
        ensures
            index < self@.chunk().constants.len() ==> (r matches Some(v) && v@
                == self@.chunk().constants[index as int]),
            index >= self@.chunk().constants.len() ==> r is None,
    {
        let frame = &self.frames[self.frames.len() - 1];
        proof {
            crate::value::chunk_model_constants(&frame.function.chunk);
        }
        if index < frame.function.chunk.constants.len() {
            Some(frame.function.chunk.constants[index].clone())
        } else {
            None
        }
    }
}

/// A runtime error without a location.
fn failure(message: &str) -> (r: Result<StepResult, PumpkinError>)
    ensures
        r matches Err(e) && e@ == ErrorModel::runtime(message@, None),
{
    Err(PumpkinError::runtime(message, None))
}

/// A type error without a location.
fn mismatch(expected: &str, found: &PumpkinValue) -> (r: Result<StepResult, PumpkinError>)
    ensures
        r matches Err(e) && e@ == ErrorModel::type_mismatch(expected@, found@.kind_name(), None),
{
    Err(PumpkinError::type_mismatch(expected, found.kind_name(), None))
}

/// How often a `repeat` runs its body for a count.
pub fn repeat_count_of(bits: u64) -> (r: usize)
    ensures
        r == repeat_count(bits),
{
    if crate::number::negative(bits) {
        0
    } else {
        crate::number::truncate_to_index(bits)
    }
}

/// The index that a number stands for in a sequence of `len` items, if any.
pub fn index_for(bits: u64, len: usize) -> (r: Option<usize>)
    ensures
        r is Some == index_in_bounds(bits, len as nat),
        r matches Some(i) ==> i == integer_part(bits) && i < len,
{
    if crate::number::negative(bits) {
        return None;
    }
    let index = crate::number::truncate_to_index(bits);
    if index < len {
        Some(index)
    } else {
        None
    }
}

impl VM {
    fn store_value(&mut self, slot: usize, v: PumpkinValue)
        requires
            slot < old(self)@.stack.len(),
        ensures
            final(self)@ == old(self)@.with_stack(old(self)@.stack.update(slot as int, v@)),
    {
        proof {
            crate::value::values_model_update(self.stack@, slot as int, v);
        }
        self.stack.set(slot, v);
    }

    fn move_forward(&mut self, distance: usize) -> (r: Result<StepResult, PumpkinError>)
        requires
            old(self)@.frames.len() > 0,
        ensures
            agrees(old(self)@, final(self)@, jump_forward(old(self)@, distance as nat), r),
    {
        let ip = self.ip();
        if distance <= usize::MAX - ip {
            self.set_ip(ip + distance);
            Ok(StepResult::Continue)
        } else {
            failure("Jump out of range")
        }
    }

    fn move_back(&mut self, distance: usize) -> (r: Result<StepResult, PumpkinError>)
        requires
            old(self)@.frames.len() > 0,
        ensures
            agrees(old(self)@, final(self)@, jump_back(old(self)@, distance as nat), r),
    {
        let ip = self.ip();
        if distance <= ip {
            self.set_ip(ip - distance);
            Ok(StepResult::Continue)
        } else {
            failure("Jump out of range")
        }
    }

    fn op_return(&mut self) -> (r: Result<StepResult, PumpkinError>)
        requires
            old(self)@.frames.len() > 0,
        ensures
            agrees(old(self)@, final(self)@, return_spec(old(self)@), r),
    {
        let result = if self.stack.len() > 0 {
            self.pop_value()
        } else {
            PumpkinValue::Null
        };
        let frame = self.frames.pop().unwrap();
        if frame.counters <= self.counters.len() {
            self.counters.truncate(frame.counters);
        }
        assert(self@.frames =~= old(self)@.frames.drop_last());
        if self.frames.len() == 0 {
            return Ok(StepResult::Return(result));
        }
        if frame.bp <= self.stack.len() {
            self.cut_stack(frame.bp);
        }
        self.push_value(result);
        Ok(StepResult::Continue)
    }

    fn op_constant(&mut self) -> (r: Result<StepResult, PumpkinError>)
        requires
            old(self)@.frames.len() > 0,
        ensures
            agrees(old(self)@, final(self)@, constant_spec(old(self)@), r),
    {
        let index = self.byte_ahead(1) as usize;
        match self.constant_at(index) {
            None => failure("Constant index out of bounds"),
            Some(v) => {
                self.advance(1);
                self.push_value(v);
                Ok(StepResult::Continue)
            },
        }
    }

    fn op_push(&mut self, v: PumpkinValue) -> (r: Result<StepResult, PumpkinError>)
        requires
            old(self)@.frames.len() > 0,
        ensures
            agrees(old(self)@, final(self)@, proceed(old(self)@.past(0).pushed(v@)), r),
    {
        self.advance(0);
        self.push_value(v);
        Ok(StepResult::Continue)
    }

    fn op_pop(&mut self) -> (r: Result<StepResult, PumpkinError>)
        requires
            old(self)@.frames.len() > 0,
        ensures
            agrees(old(self)@, final(self)@, pop_spec(old(self)@), r),
    {
        if self.stack.len() == 0 {
            return failure("Stack underflow");
        }
        self.advance(0);
        let _ = self.pop_value();
        Ok(StepResult::Continue)
    }

    fn op_print(&mut self, answers: &NumberAnswers) -> (r: Result<StepResult, PumpkinError>)
        requires
            old(self)@.frames.len() > 0,
        ensures
            agrees(old(self)@, final(self)@, print_spec(old(self)@, answers@), r),
    {
        if self.stack.len() == 0 {
            return failure("Stack underflow");
        }
        let text = self.heap.display_with(self.peek_value(0), &answers.texts);
        self.advance(0);
        let _ = self.pop_value();
        self.output_buffer.push(text);
        assert(self@.output =~= old(self)@.output.push(text@));
        Ok(StepResult::Continue)
    }

    fn op_arithmetic(&mut self, op: Arithmetic, answers: &NumberAnswers) -> (r: Result<
        StepResult,
        PumpkinError,
    >)
        requires
            old(self)@.frames.len() > 0,
        ensures
            agrees(old(self)@, final(self)@, arithmetic_spec(old(self)@, op, answers@), r),
    {
        let len = self.stack.len();
        if len < 2 {
            return failure("Stack underflow");
        }
        let outcome = PumpkinValue::arithmetic_with(
            op,
            self.peek_value(1),
            self.peek_value(0),
            &self.heap,
            answers,
        );
        match outcome {
            Ok(v) => {
                self.advance(0);
                self.cut_stack(len - 2);
                self.push_value(v);
                Ok(StepResult::Continue)
            },
            Err(e) => Err(e),
        }
    }

    fn op_equal(&mut self) -> (r: Result<StepResult, PumpkinError>)
        requires
            old(self)@.frames.len() > 0,
        ensures
            agrees(old(self)@, final(self)@, equal_spec(old(self)@), r),
    {
        let len = self.stack.len();
        if len < 2 {
            return failure("Stack underflow");
        }
        let same = self.peek_value(1).equals(self.peek_value(0));
        self.advance(0);
        self.cut_stack(len - 2);
        self.push_value(PumpkinValue::Boolean(same));
        Ok(StepResult::Continue)
    }

    fn op_compare(&mut self, greater: bool) -> (r: Result<StepResult, PumpkinError>)
        requires
            old(self)@.frames.len() > 0,
        ensures
            agrees(old(self)@, final(self)@, compare_spec(old(self)@, greater), r),
    {
        let len = self.stack.len();
        if len < 2 {
            return failure("Stack underflow");
        }
        let left = self.peek_value(1);
        let right = self.peek_value(0);
        match (left, right) {
            (PumpkinValue::Number(a), PumpkinValue::Number(b)) => {
                let answer = if greater {
                    crate::number::less(*b, *a)
                } else {
                    crate::number::less(*a, *b)
                };
                self.advance(0);
                self.cut_stack(len - 2);
                self.push_value(PumpkinValue::Boolean(answer));
                Ok(StepResult::Continue)
            },
            (PumpkinValue::Number(_), other) => mismatch("number", other),
            (other, _) => mismatch("number", other),
        }
    }

    fn op_not(&mut self) -> (r: Result<StepResult, PumpkinError>)
        requires
            old(self)@.frames.len() > 0,
        ensures
            agrees(old(self)@, final(self)@, not_spec(old(self)@), r),
    {
        if self.stack.len() == 0 {
            return failure("Stack underflow");
        }
        let truthy = self.peek_value(0).is_truthy();
        self.advance(0);
        let _ = self.pop_value();
        self.push_value(PumpkinValue::Boolean(!truthy));
        Ok(StepResult::Continue)
    }

    /// The stack index of the local that the operand names, if the stack has it.
    fn local_slot(&self) -> (r: Option<usize>)
        requires
            self@.frames.len() > 0,
        ensures
            match r {
                Some(slot) => slot == self@.frame().bp + self@.operand() && slot
                    < self@.stack.len(),
                None => self@.frame().bp + self@.operand() >= self@.stack.len(),
            },
    {
        let operand = self.byte_ahead(1) as usize;
        let bp = self.frames[self.frames.len() - 1].bp;
        let len = self.stack.len();
        if operand < len && bp < len - operand {
            Some(bp + operand)
        } else {
            None
        }
    }

    fn op_get_local(&mut self) -> (r: Result<StepResult, PumpkinError>)
        requires
            old(self)@.frames.len() > 0,
        ensures
            agrees(old(self)@, final(self)@, get_local_spec(old(self)@), r),
    {
        match self.local_slot() {
            None => failure("Local variable slot OOB"),
            Some(slot) => {
                let v = self.stack[slot].clone();
                self.advance(1);
                self.push_value(v);
                Ok(StepResult::Continue)
            },
        }
    }

    fn op_set_local(&mut self) -> (r: Result<StepResult, PumpkinError>)
        requires
            old(self)@.frames.len() > 0,
        ensures
            agrees(old(self)@, final(self)@, set_local_spec(old(self)@), r),
    {
        if self.stack.len() == 0 {
            return failure("Stack underflow SetLocal");
        }
        match self.local_slot() {
            None => failure("Local variable slot OOB (Set)"),
            Some(slot) => {
                let v = self.peek_value(0).clone();
                self.advance(1);
                self.store_value(slot, v);
                Ok(StepResult::Continue)
            },
        }
    }

    fn op_get_global(&mut self) -> (r: Result<StepResult, PumpkinError>)
        requires
            old(self)@.frames.len() > 0,
        ensures
            agrees(old(self)@, final(self)@, get_global_spec(old(self)@), r),
    {
        let index = self.byte_ahead(1) as usize;
        match self.constant_at(index) {
            None => failure("Constant index out of bounds"),
            Some(PumpkinValue::String(name)) => {
                match self.globals.get(name.as_str()) {
                    Some(v) => {
                        self.advance(1);
                        self.push_value(v);
                        Ok(StepResult::Continue)
                    },
                    None => Err(
                        PumpkinError::UndefinedVariableError { name, location: None, hint: None },
                    ),
                }
            },
            Some(_) => failure("Corrupt bytecode: Global name not string"),
        }
    }

    fn op_set_global(&mut self) -> (r: Result<StepResult, PumpkinError>)
        requires
            old(self)@.frames.len() > 0,
        ensures
            agrees(old(self)@, final(self)@, set_global_spec(old(self)@), r),
    {
        let index = self.byte_ahead(1) as usize;
        match self.constant_at(index) {
            None => failure("Constant index out of bounds"),
            Some(PumpkinValue::String(name)) => {
                if self.stack.len() == 0 {
                    return failure("Stack underflow on SetGlobal");
                }
                let v = self.peek_value(0).clone();
                self.advance(1);
                self.globals.store(name.as_str(), v);
                Ok(StepResult::Continue)
            },
            Some(_) => {
                self.advance(1);
                Ok(StepResult::Continue)
            },
        }
    }

    fn op_jump(&mut self) -> (r: Result<StepResult, PumpkinError>)
        requires
            old(self)@.frames.len() > 0,
        ensures
            agrees(old(self)@, final(self)@, jump_spec(old(self)@), r),
    {
        let distance = self.wide_operand();
        self.advance(2);
        self.move_forward(distance)
    }

    fn op_jump_if_false(&mut self) -> (r: Result<StepResult, PumpkinError>)
        requires
            old(self)@.frames.len() > 0,
        ensures
            agrees(old(self)@, final(self)@, jump_if_false_spec(old(self)@), r),
    {
        if self.stack.len() == 0 {
            return failure("Stack underflow JumpIfFalse");
        }
        let distance = self.wide_operand();
        let truthy = self.peek_value(0).is_truthy();
        self.advance(2);
        if !truthy {
            self.move_forward(distance)
        } else {
            Ok(StepResult::Continue)
        }
    }

    fn op_loop(&mut self) -> (r: Result<StepResult, PumpkinError>)
        requires
            old(self)@.frames.len() > 0,
        ensures
            agrees(old(self)@, final(self)@, loop_spec(old(self)@), r),
    {
        let distance = self.wide_operand();
        self.advance(2);
        self.move_back(distance)
    }

    fn op_call(&mut self) -> (r: Result<StepResult, PumpkinError>)
        requires
            old(self)@.frames.len() > 0,
        ensures
            agrees(old(self)@, final(self)@, call_spec(old(self)@), r),
    {
        let count = self.byte_ahead(1) as usize;
        let len = self.stack.len();
        if len <= count {
            return failure("Stack underflow calling function");
        }
        let at = len - 1 - count;
        match &self.stack[at] {
            PumpkinValue::Function(f) => {
                if count != f.arity {
                    let mut message = String::from_str("Expected ");
                    message.append(decimal(f.arity).as_str());
                    message.append(" args, got ");
                    message.append(decimal(count).as_str());
                    return failure(message.as_str());
                }
                if self.frames.len() >= self.config.max_call_depth {
                    return failure("Stack overflow");
                }
                let function = crate::value::share_function(f);
                let counters = self.counters.len();
                self.advance(1);
                self.frames.push(CallFrame { function, ip: 0, bp: at + 1, counters });
                assert(self@.frames =~= old(self)@.past(1).frames.push(
                    FrameModel {
                        function: (*function)@,
                        ip: 0,
                        bp: (at + 1) as usize,
                        counters,
                    },
                ));
                Ok(StepResult::Continue)
            },
            other => mismatch("function", other),
        }
    }

    fn op_repeat_start(&mut self) -> (r: Result<StepResult, PumpkinError>)
        requires
            old(self)@.frames.len() > 0,
        ensures
            agrees(old(self)@, final(self)@, repeat_start_spec(old(self)@), r),
    {
        if self.stack.len() == 0 {
            return failure("Stack underflow");
        }
        match self.peek_value(0) {
            PumpkinValue::Number(bits) => {
                let count = repeat_count_of(*bits);
                let distance = self.wide_operand();
                self.advance(2);
                let _ = self.pop_value();
                if count == 0 {
                    self.move_forward(distance)
                } else {
                    self.counters.push(count);
                    Ok(StepResult::Continue)
                }
            },
            other => mismatch("number", other),
        }
    }

    fn op_repeat_end(&mut self) -> (r: Result<StepResult, PumpkinError>)
        requires
            old(self)@.frames.len() > 0,
        ensures
            agrees(old(self)@, final(self)@, repeat_end_spec(old(self)@), r),
    {
        let running = self.counters.len();
        if running == 0 || running <= self.frames[self.frames.len() - 1].counters {
            return failure("Repeat counter underflow");
        }
        let left = self.counters[running - 1];
        let distance = self.wide_operand();
        self.advance(2);
        if left > 1 {
            self.counters.set(running - 1, left - 1);
            self.move_back(distance)
        } else {
            let _ = self.counters.pop();
            Ok(StepResult::Continue)
        }
    }

    fn op_array(&mut self) -> (r: Result<StepResult, PumpkinError>)
        requires
            old(self)@.frames.len() > 0,
        ensures
            agrees(old(self)@, final(self)@, array_spec(old(self)@), r),
    {
        let count = self.wide_operand();
        let len = self.stack.len();
        if len < count {
            return failure("Stack underflow ArrayLit");
        }
        self.advance(2);
        let items = self.stack.split_off(len - count);
        proof {
            crate::value::values_model_subrange(old(self).stack@, len - count, len as int);
            crate::value::values_model_subrange(old(self).stack@, 0, len - count);
            assert(values_model(items@) =~= old(self)@.stack.skip(len - count));
            assert(self@.stack =~= old(self)@.stack.take(len - count));
        }
        let list = self.heap.alloc_list(items);
        self.push_value(list);
        Ok(StepResult::Continue)
    }

    fn op_index_get(&mut self) -> (r: Result<StepResult, PumpkinError>)
        requires
            old(self)@.frames.len() > 0,
        ensures
            agrees(old(self)@, final(self)@, index_get_spec(old(self)@), r),
    {
        let len = self.stack.len();
        if len < 2 {
            return failure("Stack underflow");
        }
        match self.peek_value(1) {
            PumpkinValue::List(h) => match self.peek_value(0) {
                PumpkinValue::Number(bits) => {
                    let handle = *h;
                    match self.heap.list_len(handle) {
                        None => failure("Unknown list"),
                        Some(count) => match index_for(*bits, count) {
                            None => failure("Index out of bounds"),
                            Some(index) => match self.heap.list_item(handle, index) {
                                Some(item) => {
                                    self.advance(0);
                                    self.cut_stack(len - 2);
                                    self.push_value(item);
                                    Ok(StepResult::Continue)
                                },
                                None => failure("Index out of bounds"),
                            },
                        },
                    }
                },
                other => mismatch("number", other),
            },
            other => mismatch("list", other),
        }
    }

    fn op_index_set(&mut self) -> (r: Result<StepResult, PumpkinError>)
        requires
            old(self)@.frames.len() > 0,
        ensures
            agrees(old(self)@, final(self)@, index_set_spec(old(self)@), r),
    {
        let len = self.stack.len();
        if len < 3 {
            return failure("Stack underflow");
        }
        match self.peek_value(2) {
            PumpkinValue::List(h) => match self.peek_value(1) {
                PumpkinValue::Number(bits) => {
                    let handle = *h;
                    match self.heap.list_len(handle) {
                        None => failure("Unknown list"),
                        Some(count) => match index_for(*bits, count) {
                            None => failure("Index out of bounds"),
                            Some(index) => {
                                let v = self.peek_value(0).clone();
                                let stored = v.clone();
                                self.advance(0);
                                self.cut_stack(len - 3);
                                let _ = self.heap.list_store(handle, index, stored);
                                self.push_value(v);
                                Ok(StepResult::Continue)
                            },
                        },
                    }
                },
                other => mismatch("number", other),
            },
            other => mismatch("list", other),
        }
    }

    fn op_get_prop(&mut self) -> (r: Result<StepResult, PumpkinError>)
        requires
            old(self)@.frames.len() > 0,
        ensures
            agrees(old(self)@, final(self)@, get_prop_spec(old(self)@), r),
    {
        let index = self.byte_ahead(1) as usize;
        match self.constant_at(index) {
            None => failure("Constant index out of bounds"),
            Some(PumpkinValue::String(name)) => {
                if self.stack.len() == 0 {
                    return failure("Stack underflow");
                }
                match self.peek_value(0) {
                    PumpkinValue::Object(h) => {
                        let handle = *h;
                        if !self.heap.holds_object(handle) {
                            return failure("Unknown object");
                        }
                        match self.heap.field(handle, name.as_str()) {
                            Some(v) => {
                                self.advance(1);
                                let _ = self.pop_value();
                                self.push_value(v);
                                Ok(StepResult::Continue)
                            },
                            None => {
                                let mut message = String::from_str("Property '");
                                message.append(name.as_str());
                                message.append("' not found");
                                failure(message.as_str())
                            },
                        }
                    },
                    other => mismatch("object", other),
                }
            },
            Some(_) => failure("Property name must be string"),
        }
    }

    fn op_import(&mut self) -> (r: Result<StepResult, PumpkinError>)
        requires
            old(self)@.frames.len() > 0,
        ensures
            agrees(old(self)@, final(self)@, import_spec(old(self)@), r),
    {
        let index = self.byte_ahead(1) as usize;
        match self.constant_at(index) {
            None => failure("Constant index out of bounds"),
            Some(PumpkinValue::String(name)) => {
                match self.module_registry.get(name.as_str()) {
                    Some(v) => {
                        self.advance(1);
                        self.push_value(v);
                        Ok(StepResult::Continue)
                    },
                    None => {
                        let mut message = String::from_str("Module '");
                        message.append(name.as_str());
                        message.append("' not found");
                        failure(message.as_str())
                    },
                }
            },
            Some(_) => {
                self.advance(1);
                Ok(StepResult::Continue)
            },
        }
    }

    fn op_export(&mut self) -> (r: Result<StepResult, PumpkinError>)
        requires
            old(self)@.frames.len() > 0,
        ensures
            agrees(old(self)@, final(self)@, export_spec(old(self)@), r),
    {
        let index = self.byte_ahead(1) as usize;
        match self.constant_at(index) {
            None => failure("Constant index out of bounds"),
            Some(PumpkinValue::String(name)) => {
                if self.stack.len() == 0 {
                    return failure("Stack underflow");
                }
                self.advance(1);
                let v = self.pop_value();
                self.current_exports.set(name.as_str(), v);
                Ok(StepResult::Continue)
            },
            Some(_) => {
                self.advance(1);
                Ok(StepResult::Continue)
            },
        }
    }

    /// Does what instruction `op` says, the pointer standing on it.
    fn execute(&mut self, op: OpCode, answers: &NumberAnswers) -> (r: Result<
        StepResult,
        PumpkinError,
    >)
        requires
            old(self)@.frames.len() > 0,
        ensures
            agrees(old(self)@, final(self)@, instruction_spec(old(self)@, op, answers@), r),
    {
        match op {
            OpCode::Return => self.op_return(),
            OpCode::Constant => self.op_constant(),
            OpCode::Pop => self.op_pop(),
            OpCode::Nil => self.op_push(PumpkinValue::Null),
            OpCode::True => self.op_push(PumpkinValue::Boolean(true)),
            OpCode::False => self.op_push(PumpkinValue::Boolean(false)),
            OpCode::Print => self.op_print(answers),
            OpCode::GetLocal => self.op_get_local(),
            OpCode::SetLocal => self.op_set_local(),
            OpCode::GetGlobal => self.op_get_global(),
            OpCode::SetGlobal => self.op_set_global(),
            OpCode::Add => self.op_arithmetic(Arithmetic::Add, answers),
            OpCode::Sub => self.op_arithmetic(Arithmetic::Sub, answers),
            OpCode::Mul => self.op_arithmetic(Arithmetic::Mul, answers),
            OpCode::Div => self.op_arithmetic(Arithmetic::Div, answers),
            OpCode::Equal => self.op_equal(),
            OpCode::Greater => self.op_compare(true),
            OpCode::Less => self.op_compare(false),
            OpCode::Not => self.op_not(),
            OpCode::Jump => self.op_jump(),
            OpCode::JumpIfFalse => self.op_jump_if_false(),
            OpCode::Loop => self.op_loop(),
            OpCode::Call => self.op_call(),
            OpCode::RepeatStart => self.op_repeat_start(),
            OpCode::RepeatEnd => self.op_repeat_end(),
            OpCode::ArrayLit => self.op_array(),
            OpCode::IndexGet => self.op_index_get(),
            OpCode::IndexSet => self.op_index_set(),
            OpCode::GetProp => self.op_get_prop(),
            OpCode::Import => self.op_import(),
            OpCode::Export => self.op_export(),
        }
    }

    /// What the next step needs from the host.
    pub fn request(&self) -> (r: NumberRequest)
        ensures
            r@ == request_spec(self@),
    {
        if self.frames.len() == 0 || self.executed >= self.config.max_instructions {
            return NumberRequest::Nothing;
        }
        let len = self.stack.len();
        match OpCode::from_byte(self.byte_ahead(0)) {
            Some(OpCode::Print) => {
                if len >= 1 {
                    NumberRequest::Format {
                        numbers: self.heap.numbers_to_format(self.peek_value(0)),
                    }
                } else {
                    NumberRequest::Nothing
                }
            },
            Some(OpCode::Add) => self.operands_request(Arithmetic::Add),
            Some(OpCode::Sub) => self.operands_request(Arithmetic::Sub),
            Some(OpCode::Mul) => self.operands_request(Arithmetic::Mul),
            Some(OpCode::Div) => self.operands_request(Arithmetic::Div),
            _ => NumberRequest::Nothing,
        }
    }

    fn operands_request(&self, op: Arithmetic) -> (r: NumberRequest)
        ensures
            r@ == operands_request(self@, op),
    {
        if self.stack.len() >= 2 {
            PumpkinValue::arithmetic_request(
                op,
                self.peek_value(1),
                self.peek_value(0),
                &self.heap,
            )
        } else {
            NumberRequest::Nothing
        }
    }

    /// One step, with what the host answered to [`Self::request`].
    pub fn step_with(&mut self, answers: &NumberAnswers) -> (r: Result<StepResult, PumpkinError>)
        ensures
            agrees(old(self)@, final(self)@, step_spec(old(self)@, answers@), r),
    {
        reveal(step_spec);
        if self.frames.len() == 0 {
            return Ok(StepResult::Done);
        }
        let location = self.location();
        if self.executed >= self.config.max_instructions {
            return Err(
                PumpkinError::ResourceExhausted {
                    message: String::from_str(
                        "Execution exceeded instruction limit (Infinite Loop?)",
                    ),
                    location,
                },
            );
        }
        let byte = self.byte_ahead(0);
        match OpCode::from_byte(byte) {
            Some(op) => {
                self.executed = self.executed + 1;
                match self.execute(op, answers) {
                    Ok(how) => Ok(how),
                    Err(e) => Err(e.at(location)),
                }
            },
            None => {
                let mut message = String::from_str("Unknown opcode ");
                message.append(decimal(byte as usize).as_str());
                Err(PumpkinError::runtime(message.as_str(), location))
            },
        }
    }

    /// One step: puts the step's request to the host and goes by its answers.
    /// A line that the step printed is shown to the host.
    pub fn step<H: Host>(&mut self, host: &H) -> (r: Result<StepResult, PumpkinError>)
        ensures
            step_taken(old(self)@, final(self)@, r),
    {
        let request = self.request();
        let answers = ask(host, &request);
        let printed = self.output_buffer.len();
        let r = self.step_with(&answers);
        if self.output_buffer.len() > printed {
            host.show(self.output_buffer[self.output_buffer.len() - 1].as_str());
        }
        r
    }
}

/// An instruction changes neither the count of instructions nor the limits.
proof fn instruction_keeps_count(s: VmModel, op: OpCode, answers: AnswersModel)
    requires
        s.frames.len() > 0,
    ensures
        instruction_spec(s, op, answers) matches Ok((next, _)) ==> next.executed == s.executed
            && next.config == s.config,
{
}

/// A step on a machine without a frame changes nothing and says that the
/// machine is done. Any other step that does not fail counts one instruction
/// against the budget and leaves the limits as they were.
pub proof fn step_counts(s: VmModel, answers: AnswersModel)
    ensures
        s.frames.len() == 0 ==> step_spec(s, answers) == Ok::<(VmModel, StepModel), ErrorModel>(
            (s, StepModel::Done),
        ),
        s.frames.len() > 0 ==> (step_spec(s, answers) matches Ok((next, _)) ==> s.executed
            < s.config.max_instructions && next.executed == s.executed + 1 && next.config
            == s.config),
{
    reveal(step_spec);
    if s.frames.len() > 0 && s.executed < s.config.max_instructions {
        match OpCode::decode(s.byte_ahead(0)) {
            Some(op) => {
                instruction_keeps_count(s.counted(), op, answers);
            },
            None => {},
        }
    }
}

/// The machine after one step for each of `answers`, where every one of
/// these steps continues.
pub open spec fn state_after(s: VmModel, answers: Seq<AnswersModel>) -> Option<VmModel>
    decreases answers.len(),
{
    if answers.len() == 0 {
        Some(s)
    } else {
        match state_after(s, answers.drop_last()) {
            Some(mid) => match step_spec(mid, answers.last()) {
                Ok((next, StepModel::Continue)) => Some(next),
                _ => None,
            },
            None => None,
        }
    }
}

/// Whether a run from `start` that ended in `r`, leaving the machine as
/// `end`, is the run that the host's `answers` give, one per step: every step
/// but the last continues, and the last returns the program's result, finds
/// no frame (the result is null), or fails with the run's error. After an
/// error the output and the globals are what they were before the failing
/// step.
pub open spec fn run_agrees(
    start: VmModel,
    answers: Seq<AnswersModel>,
    end: VmModel,
    r: Result<PumpkinValue, PumpkinError>,
) -> bool {
    answers.len() > 0 && match state_after(start, answers.drop_last()) {
        Some(mid) => match step_spec(mid, answers.last()) {
            Ok((state, StepModel::Return(v))) => r matches Ok(x) && x@ == v && end == state,
            Ok((state, StepModel::Done)) => r matches Ok(x) && x@ == ValueModel::Null && end
                == state,
            Ok((_, StepModel::Continue)) => false,
            Err(e) => r matches Err(x) && x@ == e && end.output == mid.output && end.globals
                == mid.globals && end.heap == mid.heap && end.exports == mid.exports,
        },
        None => false,
    }
}

/// Whether a run from `start` that ended in `r` and left the machine as
/// `end` is the run of [`run_agrees`] for some answers of the host.
pub open spec fn run_taken(
    start: VmModel,
    end: VmModel,
    r: Result<PumpkinValue, PumpkinError>,
) -> bool {
    exists|answers: Seq<AnswersModel>| #[trigger] run_agrees(start, answers, end, r)
}

impl VM {
    /// Steps until the program returns, no frame is left, or a step fails.
    /// The instruction budget bounds the number of steps.
    pub fn run<H: Host>(&mut self, host: &H) -> (r: Result<PumpkinValue, PumpkinError>)
        ensures
            run_taken(old(self)@, final(self)@, r),
    {
        let ghost mut answers: Seq<AnswersModel> = Seq::empty();
        loop
            invariant
                state_after(old(self)@, answers) == Some(self@),
            decreases
                    if self@.frames.len() > 0 {
                        1 + self@.config.max_instructions - self@.executed
                    } else {
                        0
                    },
        {
            let ghost before = self@;
            let ghost so_far = answers;
            let outcome = self.step(host);
            let ghost answer = choose|a: AnswersModel|
                a.texts.len() == request_spec(before).text_count() && #[trigger] agrees(
                    before,
                    self@,
                    step_spec(before, a),
                    outcome,
                );
            proof {
                answers = so_far.push(answer);
                assert(answers.drop_last() =~= so_far);
                step_counts(before, answer);
            }
            match outcome {
                Ok(StepResult::Continue) => {},
                Ok(StepResult::Return(v)) => {
                    assert(run_agrees(
                        old(self)@,
                        answers,
                        self@,
                        Ok::<PumpkinValue, PumpkinError>(v),
                    ));
                    return Ok(v);
                },
                Ok(StepResult::Done) => {
                    assert(run_agrees(
                        old(self)@,
                        answers,
                        self@,
                        Ok::<PumpkinValue, PumpkinError>(PumpkinValue::Null),
                    ));
                    return Ok(PumpkinValue::Null);
                },
                Err(e) => {
                    assert(run_agrees(
                        old(self)@,
                        answers,
                        self@,
                        Err::<PumpkinValue, PumpkinError>(e),
                    ));
                    return Err(e);
                },
            }
        }
    }
}

} // verus!
