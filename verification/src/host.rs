//! What the embedding application supplies to the core: the output channel,
//! and arithmetic and formatting of doubles, which the verified core does not
//! compute. A number crosses this boundary as its 64-bit pattern.
//!
//! Nothing is assumed of an implementation. The core asks with a
//! [`NumberRequest`], takes whatever [`NumberAnswers`] come back, and every
//! contract that depends on them holds for all answers.

use vstd::prelude::*;
use crate::heap::texts_model;

verus! {

/// The embedder's side of an execution.
pub trait Host {
    /// Receives one line of program output.
    fn show(&self, msg: &str);

    /// The sum of two doubles.
    fn add(&self, a: u64, b: u64) -> u64;

    /// The difference of two doubles.
    fn subtract(&self, a: u64, b: u64) -> u64;

    /// The product of two doubles.
    fn multiply(&self, a: u64, b: u64) -> u64;

    /// The quotient of two doubles.
    fn divide(&self, a: u64, b: u64) -> u64;

    /// The display form of a double.
    fn format_number(&self, bits: u64) -> String;
}

/// The limits of one execution.
#[derive(Debug, Clone, Copy, PartialEq, Eq, Structural)]
pub struct InterpreterConfig {
    /// How many instructions may run before execution fails as exhausted.
    pub max_instructions: usize,
    /// How many call frames may be active at once.
    pub max_call_depth: usize,
}

/// The limits used where the caller names none.
pub const DEFAULT_MAX_INSTRUCTIONS: usize = 1_000_000;

pub const DEFAULT_MAX_CALL_DEPTH: usize = 64;

/// The limits used where the caller names none.
pub open spec fn standard_limits() -> InterpreterConfig {
    InterpreterConfig {
        max_instructions: DEFAULT_MAX_INSTRUCTIONS,
        max_call_depth: DEFAULT_MAX_CALL_DEPTH,
    }
}

impl InterpreterConfig {
    pub fn standard() -> (r: Self)
        ensures
            r == standard_limits(),
    {
        InterpreterConfig {
            max_instructions: DEFAULT_MAX_INSTRUCTIONS,
            max_call_depth: DEFAULT_MAX_CALL_DEPTH,
        }
    }
}

/// The four operations on two numbers.
#[derive(Debug, Clone, Copy, PartialEq, Eq, Structural)]
pub enum Arithmetic {
    Add,
    Sub,
    Mul,
    Div,
}

/// What the core needs from the host before it can go on.
#[derive(Debug, PartialEq)]
pub enum NumberRequest {
    Nothing,
    /// The result of `left op right`.
    Arithmetic { op: Arithmetic, left: u64, right: u64 },
    /// The display form of each number, in this order.
    Format { numbers: Vec<u64> },
}

pub enum RequestModel {
    Nothing,
    Arithmetic { op: Arithmetic, left: u64, right: u64 },
    Format { numbers: Seq<u64> },
}

impl View for NumberRequest {
    type V = RequestModel;

    open spec fn view(&self) -> RequestModel {
        match *self {
            NumberRequest::Nothing => RequestModel::Nothing,
            NumberRequest::Arithmetic { op, left, right } => RequestModel::Arithmetic {
                op,
                left,
                right,
            },
            NumberRequest::Format { numbers } => RequestModel::Format { numbers: numbers@ },
        }
    }
}

impl RequestModel {
    /// How many texts answer the request.
    pub open spec fn text_count(self) -> nat {
        match self {
            RequestModel::Format { numbers } => numbers.len(),
            _ => 0,
        }
    }
}

/// What the host answered: the result of the arithmetic that was asked for,
/// and the texts of the numbers that were to be formatted.
#[derive(Debug, PartialEq)]
pub struct NumberAnswers {
    pub number: u64,
    pub texts: Vec<String>,
}

pub struct AnswersModel {
    pub number: u64,
    pub texts: Seq<Seq<char>>,
}

impl View for NumberAnswers {
    type V = AnswersModel;

    open spec fn view(&self) -> AnswersModel {
        AnswersModel { number: self.number, texts: texts_model(self.texts@) }
    }
}

impl NumberAnswers {
    /// The answer to a request for nothing.
    pub fn none() -> (r: Self)
        ensures
            r@.texts.len() == 0,
    {
        NumberAnswers { number: 0, texts: Vec::new() }
    }
}

/// Puts `request` to the host. Whatever the host computes, one text comes
/// back for each number that was to be formatted.
pub fn ask<H: Host>(host: &H, request: &NumberRequest) -> (r: NumberAnswers)
    ensures
        r@.texts.len() == request@.text_count(),
{
    match request {
        NumberRequest::Nothing => NumberAnswers::none(),
        NumberRequest::Arithmetic { op, left, right } => {
            let number: u64 = match op {
                Arithmetic::Add => host.add(*left, *right),
                Arithmetic::Sub => host.subtract(*left, *right),
                Arithmetic::Mul => host.multiply(*left, *right),
                Arithmetic::Div => host.divide(*left, *right),
            };
            NumberAnswers { number, texts: Vec::new() }
        },
        NumberRequest::Format { numbers } => {
            let mut texts: Vec<String> = Vec::new();
            let mut i: usize = 0;
            while i < numbers.len()
                invariant
                    i <= numbers.len(),
                    texts@.len() == i,
                decreases numbers.len() - i,
            {
                texts.push(host.format_number(numbers[i]));
                i = i + 1;
            }
            NumberAnswers { number: 0, texts }
        },
    }
}

} // verus!
