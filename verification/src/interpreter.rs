//! Evaluating a program: compiling it and running it on the machine.

use vstd::prelude::*;
use crate::ast::Program;
use crate::compiler::{Compiler, lower_program};
use crate::env::{BindingModel, Environment};
use crate::errors::PumpkinError;
use crate::heap::{Heap, HeapModel, texts_model};
use crate::host::{Host, InterpreterConfig};
use crate::value::{ChunkModel, PumpkinValue};
use crate::vm::{VM, VmModel, initial_model, run_taken};

verus! {

/// The machine that is about to run `chunk` on a store that earlier
/// executions left.
pub open spec fn start_model(
    chunk: ChunkModel,
    globals: Seq<Seq<BindingModel>>,
    heap: HeapModel,
    config: InterpreterConfig,
) -> VmModel {
    VmModel { heap, config, ..initial_model(chunk, globals) }
}

/// Whether `outcome`, `output` and the store that an evaluation left are
/// those of compiling `program` and running it from the store `globals`,
/// `heap`, for some answers of the host.
///
/// A program that does not compile fails with the compiler's error, prints
/// nothing and leaves the store as it was. Else the outcome is that of the
/// run, the output is what the run printed (also when it failed), and the
/// store is the machine's at the end of the run.
pub open spec fn evaluated(
    program: Program,
    config: InterpreterConfig,
    globals: Seq<Seq<BindingModel>>,
    heap: HeapModel,
    globals_after: Seq<Seq<BindingModel>>,
    heap_after: HeapModel,
    outcome: Result<PumpkinValue, PumpkinError>,
    output: Seq<Seq<char>>,
) -> bool {
    match lower_program(program) {
        Err(e) => {
            &&& outcome matches Err(x)
            &&& x@ == e
            &&& output.len() == 0
            &&& globals_after == globals
            &&& heap_after == heap
        },
        Ok(chunk) => exists|end: VmModel|
            {
                &&& #[trigger] run_taken(start_model(chunk, globals, heap, config), end, outcome)
                &&& output == end.output
                &&& globals_after == end.globals
                &&& heap_after == end.heap
            },
    }
}

/// Whether `outcome` and the store that an evaluation left are those of
/// [`evaluated`] for some output.
pub open spec fn evaluated_to(
    program: Program,
    config: InterpreterConfig,
    globals: Seq<Seq<BindingModel>>,
    heap: HeapModel,
    globals_after: Seq<Seq<BindingModel>>,
    heap_after: HeapModel,
    outcome: Result<PumpkinValue, PumpkinError>,
) -> bool {
    exists|output: Seq<Seq<char>>| #[trigger]
        evaluated(program, config, globals, heap, globals_after, heap_after, outcome, output)
}

/// Compiles `program` and runs it on the store `env`, `heap`. Returns the
/// outcome of the run and everything that it printed.
pub fn run_program<H: Host>(
    program: &Program,
    env: &mut Environment,
    heap: &mut Heap,
    config: InterpreterConfig,
    host: &H,
) -> (r: (Result<PumpkinValue, PumpkinError>, Vec<String>))
    ensures
        evaluated(
            *program,
            config,
            old(env)@,
            old(heap)@,
            final(env)@,
            final(heap)@,
            r.0,
            texts_model(r.1@),
        ),
{
    let chunk = match Compiler::new().compile(program) {
        Ok(chunk) => chunk,
        Err(e) => {
            return (Err(e), Vec::new());
        },
    };
    let mut globals = Environment::new();
    std::mem::swap(&mut globals, env);
    let mut store = Heap::new();
    std::mem::swap(&mut store, heap);
    let mut vm = VM::new(chunk, globals).with_heap(store).with_config(config);
    let ghost start = vm@;
    let outcome = vm.run(host);
    let output = vm.get_output();
    let (globals, store) = vm.into_parts();
    *env = globals;
    *heap = store;
    assert(start == start_model(chunk@, old(env)@, old(heap)@, config));
    (outcome, output)
}

/// Evaluates `program` on the store `env`, `heap`: compiles it, runs it
/// within the limits of `config`, and returns the program's result or the
/// error that ended it. Every line that the program prints is shown to the
/// host as it is printed.
pub fn evaluate<H: Host>(
    program: &Program,
    env: &mut Environment,
    heap: &mut Heap,
    host: &H,
    config: InterpreterConfig,
) -> (r: Result<PumpkinValue, PumpkinError>)
    ensures
        evaluated_to(*program, config, old(env)@, old(heap)@, final(env)@, final(heap)@, r),
{
    let (outcome, output) = run_program(program, env, heap, config, host);
    outcome
}

} // verus!
