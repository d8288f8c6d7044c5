//! The execution core of a small scripting language: a compiler from syntax
//! trees to bytecode, a virtual machine that runs the bytecode under resource
//! limits, and a debugger on the machine's single step.
//!
//! Every function of the core is verified against a mathematical model of
//! what it computes. Numbers are IEEE-754 doubles, carried as bit patterns:
//! the core compares them and reads their integer parts, and leaves
//! arithmetic and formatting to the embedder's [`Host`]. Lists and objects
//! live in a [`Heap`] and are shared through handles.

pub mod ast;
pub mod balance;
pub mod chunk;
pub mod compiler;
pub mod debugger;
pub mod env;
pub mod errors;
pub mod heap;
pub mod host;
pub mod interpreter;
pub mod laws;
pub mod number;
pub mod text;
pub mod value;
pub mod vm;

use vstd::prelude::*;

pub use crate::ast::Program;
pub use crate::env::Environment;
pub use crate::errors::PumpkinError;
pub use crate::heap::Heap;
pub use crate::host::{Host, InterpreterConfig};
pub use crate::interpreter::evaluate;
pub use crate::value::PumpkinValue;

use crate::env::BindingModel;
use crate::errors::ErrorModel;
use crate::heap::{HeapModel, texts_model};
use crate::interpreter::{evaluated, run_program};

verus! {

/// What an execution hands back to the host.
#[derive(Debug, PartialEq)]
pub struct ExecutionResult {
    /// Whether the program ran to its end.
    pub success: bool,
    /// Everything the program printed, in order, also when it failed.
    pub output: Vec<String>,
    /// The program's result, after a success. A list or an object in it is a
    /// handle into the heap of the execution.
    pub return_value: Option<PumpkinValue>,
    /// What went wrong, after a failure.
    pub error: Option<PumpkinError>,
}

/// The outcome of a run as the result record shows it.
pub open spec fn run_result(result: ExecutionResult) -> Result<PumpkinValue, PumpkinError> {
    match (result.return_value, result.error) {
        (Some(v), _) => Ok(v),
        (None, Some(e)) => Err(e),
        (None, None) => Ok(PumpkinValue::Null),
    }
}

/// Whether `result` and the store that an execution left are those of
/// compiling `program` and running it from the store `globals`, `heap`: see
/// [`evaluated`]. The record says that the execution succeeded exactly
/// when it holds a result and no error, and its output is everything that
/// the run printed.
pub open spec fn executed(
    program: Program,
    config: InterpreterConfig,
    globals: Seq<Seq<BindingModel>>,
    heap: HeapModel,
    globals_after: Seq<Seq<BindingModel>>,
    heap_after: HeapModel,
    result: ExecutionResult,
) -> bool {
    &&& result.success == result.error is None
    &&& result.success == result.return_value is Some
    &&& evaluated(
        program,
        config,
        globals,
        heap,
        globals_after,
        heap_after,
        run_result(result),
        texts_model(result.output@),
    )
}

impl ExecutionResult {
    /// The record of an input that was rejected before it was compiled.
    pub fn rejected(message: &str) -> (r: Self)
        ensures
            !r.success,
            r.output@.len() == 0,
            r.return_value is None,
            r.error matches Some(e) && e@ == ErrorModel::runtime(message@, None),
    {
        ExecutionResult {
            success: false,
            output: Vec::new(),
            return_value: None,
            error: Some(PumpkinError::runtime(message, None)),
        }
    }
}

/// Whether `result` is that of compiling `program` and running it on a
/// fresh store with the standard limits, whatever store the run left.
pub open spec fn executed_afresh(program: Program, result: ExecutionResult) -> bool {
    exists|globals: Seq<Seq<BindingModel>>, heap: HeapModel| #[trigger]
        executed(
            program,
            crate::host::standard_limits(),
            seq![Seq::<BindingModel>::empty()],
            HeapModel::empty(),
            globals,
            heap,
            result,
        )
}

/// Compiles `program` and runs it on a fresh store, with the standard limits.
pub fn execute<H: Host>(program: &Program, host: &H) -> (r: ExecutionResult)
    ensures
        executed_afresh(*program, r),
{
    let mut env = Environment::new();
    let mut heap = Heap::new();
    let r = execute_in_env(program, &mut env, &mut heap, InterpreterConfig::standard(), host);
    assert(executed(
        *program,
        crate::host::standard_limits(),
        seq![Seq::<BindingModel>::empty()],
        HeapModel::empty(),
        env@,
        heap@,
        r,
    ));
    r
}

/// Compiles `program` and runs it on the store `env`, `heap`, which keeps
/// what the program leaves in it: the next execution sees the globals of
/// this one.
pub fn execute_in_env<H: Host>(
    program: &Program,
    env: &mut Environment,
    heap: &mut Heap,
    config: InterpreterConfig,
    host: &H,
) -> (r: ExecutionResult)
    ensures
        executed(*program, config, old(env)@, old(heap)@, final(env)@, final(heap)@, r),
{
    let (outcome, output) = run_program(program, env, heap, config, host);
    match outcome {
        Ok(v) => ExecutionResult { success: true, output, return_value: Some(v), error: None },
        Err(e) => ExecutionResult { success: false, output, return_value: None, error: Some(e) },
    }
}

} // verus!
