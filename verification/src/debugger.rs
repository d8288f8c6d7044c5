//! A debugger on top of the machine's single step: breakpoints on source
//! lines, resuming and stepping. It changes the machine only by stepping it.

use vstd::prelude::*;
use std::collections::HashSet;
use crate::errors::{ErrorModel, PumpkinError};
use crate::heap::is_display_of;
use crate::host::{AnswersModel, Host};

use crate::vm::{
    StepModel, StepResult, VM, VmModel, agrees, request_spec, state_after, step_counts, step_spec,
};

verus! {

broadcast use vstd::std_specs::hash::group_hash_axioms;

/// Why the debugger stopped.
#[derive(Debug, Clone, PartialEq)]
pub enum StopReason {
    /// One instruction was executed and the program can go on.
    Step,
    /// The next instruction belongs to a line with a breakpoint.
    Breakpoint(usize),
    /// The program returned, or there was nothing left to run.
    Halted,
    /// An instruction failed; the text says how.
    Error(String),
}

/// What the debugger shows of the machine.
#[derive(Debug)]
pub struct DebugState {
    pub ip: usize,
    pub line: usize,
    pub stack: Vec<String>,
    pub is_running: bool,
}

pub struct DebugSession {
    pub vm: VM,
    pub breakpoints: HashSet<usize>,
    pub paused: bool,
}

/// Whether the next instruction of `s` belongs to a line in `lines`.
pub open spec fn at_breakpoint(s: VmModel, lines: Set<usize>) -> bool {
    s.location() matches Some(l) && lines.contains(l.line)
}

/// Whether the machine stood on no breakpoint before any of the first `n`
/// steps that `answers` give from `start`.
pub open spec fn clear_before(
    start: VmModel,
    answers: Seq<AnswersModel>,
    lines: Set<usize>,
    n: int,
) -> bool {
    forall|k: int|
        0 <= k < n ==> (#[trigger] state_after(start, answers.take(k)) matches Some(s)
            && !at_breakpoint(s, lines))
}

/// Whether a step that ended in `r` is the end of the program or the error
/// that `outcome` says, leaving the machine as `end`.
pub open spec fn stop_agrees(
    outcome: Result<(VmModel, StepModel), ErrorModel>,
    end: VmModel,
    r: StopReason,
) -> bool {
    match outcome {
        Ok((state, StepModel::Continue)) => r is Step && end == state,
        Ok((state, _)) => r is Halted && end == state,
        Err(e) => r matches StopReason::Error(text) && text@ == e.message_text(),
    }
}

/// Whether resuming from `start` with breakpoints on `lines` stops as `r`
/// says, for the answers that the host gave, one per step taken.
///
/// The machine stood on no breakpoint before any step that was taken. It
/// stopped on a breakpoint before executing anything of that line, or with
/// the step that ended the program, or with the step that failed.
pub open spec fn resume_agrees(
    start: VmModel,
    lines: Set<usize>,
    answers: Seq<AnswersModel>,
    end: VmModel,
    r: StopReason,
) -> bool {
    &&& clear_before(start, answers, lines, answers.len() as int)
    &&& match r {
        StopReason::Breakpoint(line) => {
            &&& state_after(start, answers) == Some(end)
            &&& end.location() matches Some(l)
            &&& l.line == line
            &&& lines.contains(line)
        },
        StopReason::Step => false,
        _ => {
            &&& answers.len() > 0
            &&& state_after(start, answers.drop_last()) matches Some(mid)
            &&& stop_agrees(step_spec(mid, answers.last()), end, r)
        },
    }
}

/// Whether one step from `start` stops as `r` says, for some answers of the
/// host.
pub open spec fn stepped(start: VmModel, end: VmModel, r: StopReason) -> bool {
    exists|answers: AnswersModel| #[trigger] stop_agrees(step_spec(start, answers), end, r)
}

/// Whether resuming from `start` stops as `r` says, for some answers of the
/// host.
pub open spec fn resumed(start: VmModel, lines: Set<usize>, end: VmModel, r: StopReason) -> bool {
    exists|answers: Seq<AnswersModel>| #[trigger] resume_agrees(start, lines, answers, end, r)
}

impl DebugSession {
    /// A paused session on `vm`, without breakpoints.
    pub fn new(vm: VM) -> (r: Self)
        ensures
            r.vm@ == vm@,
            r.breakpoints@ == Set::<usize>::empty(),
            r.paused,
    {
        Self { vm, breakpoints: HashSet::new(), paused: true }
    }

    /// Sets a breakpoint on a source line.
    pub fn set_breakpoint(&mut self, line: usize)
        ensures
            final(self).breakpoints@ == old(self).breakpoints@.insert(line),
            final(self).vm@ == old(self).vm@,
            final(self).paused == old(self).paused,
    {
        self.breakpoints.insert(line);
    }

    /// Removes the breakpoint on a source line, if there is one.
    pub fn remove_breakpoint(&mut self, line: usize)
        ensures
            final(self).breakpoints@ == old(self).breakpoints@.remove(line),
            final(self).vm@ == old(self).vm@,
            final(self).paused == old(self).paused,
    {
        self.breakpoints.remove(&line);
    }

    /// Runs until the next instruction belongs to a line with a breakpoint,
    /// the program ends, or an instruction fails. The session is paused
    /// again when this returns.
    pub fn resume<H: Host>(&mut self, host: &H) -> (r: Result<StopReason, PumpkinError>)
        ensures
            final(self).paused,
            final(self).breakpoints@ == old(self).breakpoints@,
            r matches Ok(stop) && resumed(
                old(self).vm@,
                old(self).breakpoints@,
                final(self).vm@,
                stop,
            ),
    {
        self.paused = false;
        let ghost start = self.vm@;
        let ghost lines = self.breakpoints@;
        let ghost mut answers: Seq<AnswersModel> = Seq::empty();
        loop
            invariant
                start == old(self).vm@,
                lines == old(self).breakpoints@,
                self.breakpoints@ == lines,
                state_after(start, answers) == Some(self.vm@),
                clear_before(start, answers, lines, answers.len() as int),
            decreases
                    if self.vm@.frames.len() > 0 {
                        1 + self.vm@.config.max_instructions - self.vm@.executed
                    } else {
                        0
                    },
        {
            if let Some(line) = self.vm.current_line() {
                if self.breakpoints.contains(&line) {
                    self.paused = true;
                    assert(resume_agrees(
                        start,
                        lines,
                        answers,
                        self.vm@,
                        StopReason::Breakpoint(line),
                    ));
                    return Ok(StopReason::Breakpoint(line));
                }
            }
            let ghost before = self.vm@;
            let ghost so_far = answers;
            let outcome = self.vm.step(host);
            let ghost answer = choose|a: AnswersModel|
                a.texts.len() == request_spec(before).text_count() && #[trigger] agrees(
                    before,
                    self.vm@,
                    step_spec(before, a),
                    outcome,
                );
            proof {
                answers = so_far.push(answer);
                assert(answers.take(so_far.len() as int) =~= so_far);
                assert forall|k: int| 0 <= k < answers.len() implies (#[trigger] state_after(
                    start,
                    answers.take(k),
                ) matches Some(s) && !at_breakpoint(s, lines)) by {
                    if k < so_far.len() {
                        assert(answers.take(k) =~= so_far.take(k));
                    }
                }
                step_counts(before, answer);
            }
            match outcome {
                Ok(StepResult::Continue) => {},
                Ok(_) => {
                    self.paused = true;
                    assert(resume_agrees(start, lines, answers, self.vm@, StopReason::Halted));
                    return Ok(StopReason::Halted);
                },
                Err(e) => {
                    self.paused = true;
                    let stop = StopReason::Error(e.message());
                    assert(resume_agrees(start, lines, answers, self.vm@, stop));
                    return Ok(stop);
                },
            }
        }
    }

    /// Executes exactly one instruction.
    pub fn step<H: Host>(&mut self, host: &H) -> (r: Result<StopReason, PumpkinError>)
        ensures
            final(self).paused == old(self).paused,
            final(self).breakpoints@ == old(self).breakpoints@,
            r matches Ok(stop) && stepped(old(self).vm@, final(self).vm@, stop),
    {
        let ghost before = self.vm@;
        let outcome = self.vm.step(host);
        let ghost answer = choose|a: AnswersModel|
            a.texts.len() == request_spec(before).text_count() && #[trigger] agrees(
                before,
                self.vm@,
                step_spec(before, a),
                outcome,
            );
        match outcome {
            Ok(StepResult::Continue) => {
                assert(stop_agrees(step_spec(before, answer), self.vm@, StopReason::Step));
                Ok(StopReason::Step)
            },
            Ok(_) => {
                assert(stop_agrees(step_spec(before, answer), self.vm@, StopReason::Halted));
                Ok(StopReason::Halted)
            },
            Err(e) => {
                let stop = StopReason::Error(e.message());
                assert(stop_agrees(step_spec(before, answer), self.vm@, stop));
                Ok(stop)
            },
        }
    }

    /// What the debugger shows of the machine: the pointer and the line of
    /// the next instruction (0 where the line table has none), the display
    /// form of each value on the stack, and whether the session is running.
    pub fn get_state<H: Host>(&self, host: &H) -> (r: DebugState)
        ensures
            r.ip == if self.vm@.frames.len() > 0 {
                self.vm@.ip()
            } else {
                0
            },
            r.line == match self.vm@.location() {
                Some(l) => l.line,
                None => 0,
            },
            r.stack@.len() == self.vm@.stack.len(),
            forall|i: int|
                0 <= i < r.stack@.len() ==> is_display_of(
                    #[trigger] r.stack@[i]@,
                    self.vm@.stack[i],
                    self.vm@.heap,
                ),
            r.is_running == !self.paused,
    {
        DebugState {
            ip: self.vm.ip(),
            line: match self.current_line() {
                Some(line) => line,
                None => 0,
            },
            stack: self.vm.get_stack_names(host),
            is_running: !self.paused,
        }
    }

    /// The line of the next instruction.
    fn current_line(&self) -> (r: Option<usize>)
        ensures
            r == match self.vm@.location() {
                Some(l) => Some(l.line),
                None => None,
            },
    {
        self.vm.current_line()
    }
}

} // verus!
