//! Values of the language, their mathematical models, and the heap that
//! holds the containers they share.
//!
//! A list or an object is a handle into the [`Heap`]: every holder of the
//! handle sees a store through any other. A function is shared by reference
//! and never changes once built.

use vstd::prelude::*;
use std::rc::Rc;
use crate::chunk::Chunk;
use crate::errors::{ErrorModel, PumpkinError};
use crate::heap::{Heap, HeapModel, MAX_RENDER_DEPTH, is_display_of, number_leaves, render};
use crate::host::{AnswersModel, Arithmetic, Host, NumberAnswers, NumberRequest, RequestModel, ask};
use crate::number::{is_zero, number_eq};

verus! {

#[derive(Debug, PartialEq)]
pub enum PumpkinValue {
    /// The bit pattern of an IEEE-754 double.
    Number(u64),
    String(String),
    Boolean(bool),
    Null,
    Function(Rc<PumpkinFunction>),
    /// A handle of a list in the heap.
    List(usize),
    /// A handle of an object in the heap.
    Object(usize),
}

/// A compiled function: how many parameters it takes, its code, its name.
#[derive(Debug, PartialEq)]
pub struct PumpkinFunction {
    pub arity: usize,
    pub chunk: Chunk,
    pub name: String,
}

/// A value as mathematics: strings are character sequences, a function is
/// the model of its chunk.
pub enum ValueModel {
    Number(u64),
    Str(Seq<char>),
    Boolean(bool),
    Null,
    Function(FunctionModel),
    List(usize),
    Object(usize),
}

/// A function as mathematics.
pub struct FunctionModel {
    pub arity: nat,
    pub chunk: ChunkModel,
    pub name: Seq<char>,
}

/// A chunk as mathematics: code bytes, constant pool, line of each byte.
pub struct ChunkModel {
    pub code: Seq<u8>,
    pub constants: Seq<ValueModel>,
    pub lines: Seq<usize>,
}

pub open spec fn value_model(v: PumpkinValue) -> ValueModel
    decreases v,
{
    match v {
        PumpkinValue::Number(n) => ValueModel::Number(n),
        PumpkinValue::String(s) => ValueModel::Str(s@),
        PumpkinValue::Boolean(b) => ValueModel::Boolean(b),
        PumpkinValue::Null => ValueModel::Null,
        PumpkinValue::Function(f) => ValueModel::Function(function_model(*f)),
        PumpkinValue::List(h) => ValueModel::List(h),
        PumpkinValue::Object(h) => ValueModel::Object(h),
    }
}

pub open spec fn function_model(f: PumpkinFunction) -> FunctionModel
    decreases f,
{
    FunctionModel { arity: f.arity as nat, chunk: chunk_model(f.chunk), name: f.name@ }
}

pub open spec fn chunk_model(c: Chunk) -> ChunkModel
    decreases c,
{
    ChunkModel {
        code: c.code@,
        constants: Seq::new(
            c.constants@.len(),
            |i: int|
                if 0 <= i < c.constants@.len() {
                    value_model(c.constants@[i])
                } else {
                    ValueModel::Null
                },
        ),
        lines: c.lines@,
    }
}

/// The models of a sequence of values, one for one.
pub open spec fn values_model(s: Seq<PumpkinValue>) -> Seq<ValueModel> {
    Seq::new(s.len(), |i: int| value_model(s[i]))
}

impl View for PumpkinValue {
    type V = ValueModel;

    open spec fn view(&self) -> ValueModel {
        value_model(*self)
    }
}

impl View for PumpkinFunction {
    type V = FunctionModel;

    open spec fn view(&self) -> FunctionModel {
        function_model(*self)
    }
}

/// The models of a sequence with one more value.
pub proof fn values_model_push(s: Seq<PumpkinValue>, v: PumpkinValue)
    ensures
        values_model(s.push(v)) == values_model(s).push(v@),
{
}

/// The models of a sequence with one value replaced.
pub proof fn values_model_update(s: Seq<PumpkinValue>, i: int, v: PumpkinValue)
    requires
        0 <= i < s.len(),
    ensures
        values_model(s.update(i, v)) == values_model(s).update(i, v@),
{
}

/// The models of a part of a sequence.
pub proof fn values_model_subrange(s: Seq<PumpkinValue>, from: int, to: int)
    requires
        0 <= from <= to <= s.len(),
    ensures
        values_model(s.subrange(from, to)) == values_model(s).subrange(from, to),
{
}

/// The model of a chunk holds its code, its lines and the models of its
/// constants.
pub proof fn chunk_model_constants(c: &Chunk)
    ensures
        c@.constants == values_model(c.constants@),
        c@.code == c.code@,
        c@.lines == c.lines@,
{
}

/// `Rc::clone`: another pointer to the same function.
#[verifier::external_body]
pub(crate) fn share_function(f: &Rc<PumpkinFunction>) -> (r: Rc<PumpkinFunction>)
    ensures
        r == *f,
{
    Rc::clone(f)
}

impl Clone for PumpkinValue {
    /// A copy of a scalar, or another holder of the same function, list or object.
    fn clone(&self) -> (r: Self)
        ensures
            r == *self,
    {
        match self {
            PumpkinValue::Number(n) => PumpkinValue::Number(*n),
            PumpkinValue::String(s) => PumpkinValue::String(s.clone()),
            PumpkinValue::Boolean(b) => PumpkinValue::Boolean(*b),
            PumpkinValue::Null => PumpkinValue::Null,
            PumpkinValue::Function(f) => PumpkinValue::Function(share_function(f)),
            PumpkinValue::List(h) => PumpkinValue::List(*h),
            PumpkinValue::Object(h) => PumpkinValue::Object(*h),
        }
    }
}

impl ValueModel {
    /// The name of the value's kind.
    pub open spec fn kind_name(self) -> Seq<char> {
        match self {
            ValueModel::Number(_) => "number"@,
            ValueModel::Str(_) => "string"@,
            ValueModel::Boolean(_) => "boolean"@,
            ValueModel::Null => "null"@,
            ValueModel::Function(_) => "function"@,
            ValueModel::List(_) => "list"@,
            ValueModel::Object(_) => "object"@,
        }
    }

    /// Only `false` and `null` are falsey; the number zero is truthy.
    pub open spec fn is_truthy(self) -> bool {
        match self {
            ValueModel::Boolean(b) => b,
            ValueModel::Null => false,
            _ => true,
        }
    }
}

impl PumpkinValue {
    /// The name of the value's kind.
    pub fn kind_name(&self) -> (r: &'static str)
        ensures
            r@ == self@.kind_name(),
    {
        match self {
            PumpkinValue::Number(_) => "number",
            PumpkinValue::String(_) => "string",
            PumpkinValue::Boolean(_) => "boolean",
            PumpkinValue::Null => "null",
            PumpkinValue::Function(_) => "function",
            PumpkinValue::List(_) => "list",
            PumpkinValue::Object(_) => "object",
        }
    }

    /// Whether a conditional jump treats the value as true.
    pub fn is_truthy(&self) -> (r: bool)
        ensures
            r == self@.is_truthy(),
    {
        match self {
            PumpkinValue::Boolean(b) => *b,
            PumpkinValue::Null => false,
            _ => true,
        }
    }
}

/// The outcome of an operation, as models.
pub open spec fn result_model(r: Result<PumpkinValue, PumpkinError>) -> Result<
    ValueModel,
    ErrorModel,
> {
    match r {
        Ok(v) => Ok(v@),
        Err(e) => Err(e@),
    }
}

/// What the `==` of the language says of two values. Numbers compare as
/// doubles do, strings by their text, functions by their whole contents.
/// Two lists, or two objects, are equal when they are the same container.
/// Values of different kinds are never equal.
pub open spec fn values_equal(a: ValueModel, b: ValueModel) -> bool {
    match (a, b) {
        (ValueModel::Number(x), ValueModel::Number(y)) => number_eq(x, y),
        (ValueModel::Str(x), ValueModel::Str(y)) => x == y,
        (ValueModel::Boolean(x), ValueModel::Boolean(y)) => x == y,
        (ValueModel::Null, ValueModel::Null) => true,
        (ValueModel::Function(f), ValueModel::Function(g)) => f == g,
        (ValueModel::List(x), ValueModel::List(y)) => x == y,
        (ValueModel::Object(x), ValueModel::Object(y)) => x == y,
        _ => false,
    }
}

/// The operand of an arithmetic operation that is no number: the left one
/// where it is none, else the right one.
pub open spec fn offending_operand(a: ValueModel, b: ValueModel) -> ValueModel {
    if a is Number {
        b
    } else {
        a
    }
}

/// What `a op b` needs from the host: the result where both are numbers
/// (none for a division by zero, which fails), the texts of the numbers in
/// the operand that `+` joins to a string, and else nothing.
pub open spec fn arithmetic_request(
    op: Arithmetic,
    a: ValueModel,
    b: ValueModel,
    heap: HeapModel,
) -> RequestModel {
    match (a, b) {
        (ValueModel::Number(x), ValueModel::Number(y)) => if op == Arithmetic::Div && is_zero(y) {
            RequestModel::Nothing
        } else {
            RequestModel::Arithmetic { op, left: x, right: y }
        },
        (ValueModel::Str(_), ValueModel::Str(_)) => RequestModel::Nothing,
        (ValueModel::Str(_), other) => if op == Arithmetic::Add {
            RequestModel::Format { numbers: number_leaves(other, heap, MAX_RENDER_DEPTH as nat) }
        } else {
            RequestModel::Nothing
        },
        (other, ValueModel::Str(_)) => if op == Arithmetic::Add {
            RequestModel::Format { numbers: number_leaves(other, heap, MAX_RENDER_DEPTH as nat) }
        } else {
            RequestModel::Nothing
        },
        _ => RequestModel::Nothing,
    }
}

/// The outcome of `a op b`, given the host's answers.
///
/// On two numbers it is the number that the host computed, but for a zero
/// divisor, which is an error. `+` joins two strings, and joins a string
/// with the display form of any other value. Everything else is a type error
/// that names the kind expected and the kind found.
pub open spec fn arithmetic_result(
    op: Arithmetic,
    a: ValueModel,
    b: ValueModel,
    heap: HeapModel,
    answers: AnswersModel,
) -> Result<ValueModel, ErrorModel> {
    match (a, b) {
        (ValueModel::Number(x), ValueModel::Number(y)) => if op == Arithmetic::Div && is_zero(y) {
            Err(ErrorModel::DivisionByZeroError { location: None })
        } else {
            Ok(ValueModel::Number(answers.number))
        },
        _ => if op == Arithmetic::Add {
            match (a, b) {
                (ValueModel::Str(x), ValueModel::Str(y)) => Ok(ValueModel::Str(x + y)),
                (ValueModel::Str(x), other) => Ok(
                    ValueModel::Str(
                        x + render(other, heap, MAX_RENDER_DEPTH as nat, answers.texts),
                    ),
                ),
                (other, ValueModel::Str(y)) => Ok(
                    ValueModel::Str(
                        render(other, heap, MAX_RENDER_DEPTH as nat, answers.texts) + y,
                    ),
                ),
                _ => Err(
                    ErrorModel::type_mismatch(
                        "number or string"@,
                        a.kind_name() + " + "@ + b.kind_name(),
                        None,
                    ),
                ),
            }
        } else {
            Err(ErrorModel::type_mismatch("number"@, offending_operand(a, b).kind_name(), None))
        },
    }
}

impl PumpkinValue {
    /// What `a op b` needs from the host.
    pub fn arithmetic_request(op: Arithmetic, a: &Self, b: &Self, heap: &Heap) -> (r: NumberRequest)
        ensures
            r@ == arithmetic_request(op, a@, b@, heap@),
    {
        match (a, b) {
            (PumpkinValue::Number(x), PumpkinValue::Number(y)) => {
                if op == Arithmetic::Div && crate::number::zero(*y) {
                    NumberRequest::Nothing
                } else {
                    NumberRequest::Arithmetic { op, left: *x, right: *y }
                }
            },
            (PumpkinValue::String(_), PumpkinValue::String(_)) => NumberRequest::Nothing,
            (PumpkinValue::String(_), other) => {
                if op == Arithmetic::Add {
                    NumberRequest::Format { numbers: heap.numbers_to_format(other) }
                } else {
                    NumberRequest::Nothing
                }
            },
            (other, PumpkinValue::String(_)) => {
                if op == Arithmetic::Add {
                    NumberRequest::Format { numbers: heap.numbers_to_format(other) }
                } else {
                    NumberRequest::Nothing
                }
            },
            _ => NumberRequest::Nothing,
        }
    }

    /// `a op b`, with what the host answered to [`Self::arithmetic_request`].
    pub fn arithmetic_with(
        op: Arithmetic,
        a: &Self,
        b: &Self,
        heap: &Heap,
        answers: &NumberAnswers,
    ) -> (r: Result<PumpkinValue, PumpkinError>)
        ensures
            result_model(r) == arithmetic_result(op, a@, b@, heap@, answers@),
    {
        match (a, b) {
            (PumpkinValue::Number(_), PumpkinValue::Number(y)) => {
                if op == Arithmetic::Div && crate::number::zero(*y) {
                    Err(PumpkinError::DivisionByZeroError { location: None })
                } else {
                    Ok(PumpkinValue::Number(answers.number))
                }
            },
            _ => {
                if op == Arithmetic::Add {
                    match (a, b) {
                        (PumpkinValue::String(x), PumpkinValue::String(y)) => {
                            let mut s = x.clone();
                            s.append(y.as_str());
                            Ok(PumpkinValue::String(s))
                        },
                        (PumpkinValue::String(x), other) => {
                            let mut s = x.clone();
                            s.append(heap.display_with(other, &answers.texts).as_str());
                            Ok(PumpkinValue::String(s))
                        },
                        (other, PumpkinValue::String(y)) => {
                            let mut s = heap.display_with(other, &answers.texts);
                            s.append(y.as_str());
                            Ok(PumpkinValue::String(s))
                        },
                        _ => {
                            let mut actual = String::from_str(a.kind_name());
                            actual.append(" + ");
                            actual.append(b.kind_name());
                            Err(
                                PumpkinError::type_mismatch(
                                    "number or string",
                                    actual.as_str(),
                                    None,
                                ),
                            )
                        },
                    }
                } else {
                    let found = match a {
                        PumpkinValue::Number(_) => b.kind_name(),
                        _ => a.kind_name(),
                    };
                    Err(PumpkinError::type_mismatch("number", found, None))
                }
            },
        }
    }

    /// `a op b`, the host doing the arithmetic and the formatting. Whatever
    /// the host answers, the outcome is that of [`arithmetic_result`] on its
    /// answers.
    pub fn arithmetic<H: Host>(op: Arithmetic, a: &Self, b: &Self, heap: &Heap, host: &H) -> (r:
        Result<PumpkinValue, PumpkinError>)
        ensures
            exists|answers: AnswersModel|
                answers.texts.len() == arithmetic_request(op, a@, b@, heap@).text_count()
                    && result_model(r) == #[trigger] arithmetic_result(
                    op,
                    a@,
                    b@,
                    heap@,
                    answers,
                ),
    {
        let request = PumpkinValue::arithmetic_request(op, a, b, heap);
        let answers = ask(host, &request);
        let r = PumpkinValue::arithmetic_with(op, a, b, heap, &answers);
        r
    }

    /// `self + other`: see [`Self::arithmetic`].
    pub fn add<H: Host>(&self, other: &Self, heap: &Heap, host: &H) -> (r: Result<
        PumpkinValue,
        PumpkinError,
    >)
        ensures
            exists|answers: AnswersModel|
                result_model(r) == #[trigger] arithmetic_result(
                    Arithmetic::Add,
                    self@,
                    other@,
                    heap@,
                    answers,
                ),
    {
        PumpkinValue::arithmetic(Arithmetic::Add, self, other, heap, host)
    }

    /// `self - other`: see [`Self::arithmetic`].
    pub fn sub<H: Host>(&self, other: &Self, heap: &Heap, host: &H) -> (r: Result<
        PumpkinValue,
        PumpkinError,
    >)
        ensures
            exists|answers: AnswersModel|
                result_model(r) == #[trigger] arithmetic_result(
                    Arithmetic::Sub,
                    self@,
                    other@,
                    heap@,
                    answers,
                ),
    {
        PumpkinValue::arithmetic(Arithmetic::Sub, self, other, heap, host)
    }

    /// `self * other`: see [`Self::arithmetic`].
    pub fn mul<H: Host>(&self, other: &Self, heap: &Heap, host: &H) -> (r: Result<
        PumpkinValue,
        PumpkinError,
    >)
        ensures
            exists|answers: AnswersModel|
                result_model(r) == #[trigger] arithmetic_result(
                    Arithmetic::Mul,
                    self@,
                    other@,
                    heap@,
                    answers,
                ),
    {
        PumpkinValue::arithmetic(Arithmetic::Mul, self, other, heap, host)
    }

    /// `self / other`: see [`Self::arithmetic`]. A zero divisor is an error,
    /// whatever the host would answer.
    pub fn div<H: Host>(&self, other: &Self, heap: &Heap, host: &H) -> (r: Result<
        PumpkinValue,
        PumpkinError,
    >)
        ensures
            exists|answers: AnswersModel|
                result_model(r) == #[trigger] arithmetic_result(
                    Arithmetic::Div,
                    self@,
                    other@,
                    heap@,
                    answers,
                ),
    {
        PumpkinValue::arithmetic(Arithmetic::Div, self, other, heap, host)
    }

    /// The display form of the value, the host formatting its numbers.
    pub fn display<H: Host>(&self, heap: &Heap, host: &H) -> (r: String)
        ensures
            is_display_of(r@, self@, heap@),
    {
        let request = NumberRequest::Format { numbers: heap.numbers_to_format(self) };
        let answers = ask(host, &request);
        let r = heap.display_with(self, &answers.texts);
        r
    }
}

/// Whether two byte vectors hold the same bytes.
fn same_bytes(a: &Vec<u8>, b: &Vec<u8>) -> (r: bool)
    ensures
        r == (a@ == b@),
{
    if a.len() != b.len() {
        return false;
    }
    let mut i: usize = 0;
    while i < a.len()
        invariant
            i <= a.len(),
            a.len() == b.len(),
            forall|k: int| 0 <= k < i ==> a@[k] == b@[k],
        decreases a.len() - i,
    {
        if a[i] != b[i] {
            return false;
        }
        i = i + 1;
    }
    assert(a@ =~= b@);
    true
}

/// Whether two vectors of line numbers hold the same lines.
fn same_lines(a: &Vec<usize>, b: &Vec<usize>) -> (r: bool)
    ensures
        r == (a@ == b@),
{
    if a.len() != b.len() {
        return false;
    }
    let mut i: usize = 0;
    while i < a.len()
        invariant
            i <= a.len(),
            a.len() == b.len(),
            forall|k: int| 0 <= k < i ==> a@[k] == b@[k],
        decreases a.len() - i,
    {
        if a[i] != b[i] {
            return false;
        }
        i = i + 1;
    }
    assert(a@ =~= b@);
    true
}

impl PumpkinFunction {
    /// Whether two functions have the same model: the same arity, name, code,
    /// lines and constants.
    pub fn same_as(&self, other: &PumpkinFunction) -> (r: bool)
        ensures
            r == (self@ == other@),
        decreases self,
    {
        if self.arity != other.arity || !(self.name == other.name) {
            return false;
        }
        proof {
            chunk_model_constants(&self.chunk);
            chunk_model_constants(&other.chunk);
        }
        if !same_bytes(&self.chunk.code, &other.chunk.code) || !same_lines(
            &self.chunk.lines,
            &other.chunk.lines,
        ) {
            return false;
        }
        let mine = &self.chunk.constants;
        let theirs = &other.chunk.constants;
        if mine.len() != theirs.len() {
            assert(values_model(mine@).len() != values_model(theirs@).len());
            return false;
        }
        let mut i: usize = 0;
        while i < mine.len()
            invariant
                i <= mine.len(),
                mine.len() == theirs.len(),
                *mine == self.chunk.constants,
                *theirs == other.chunk.constants,
                self@.chunk.constants == values_model(mine@),
                other@.chunk.constants == values_model(theirs@),
                forall|k: int| 0 <= k < i ==> mine@[k]@ == theirs@[k]@,
            decreases mine.len() - i,
        {
            if !mine[i].identical(&theirs[i]) {
                assert(values_model(mine@)[i as int] != values_model(theirs@)[i as int]);
                return false;
            }
            i = i + 1;
        }
        assert(values_model(mine@) =~= values_model(theirs@));
        true
    }
}

impl PumpkinValue {
    /// Whether two values have the same model. Unlike [`Self::equals`] this
    /// compares numbers bit by bit.
    pub fn identical(&self, other: &PumpkinValue) -> (r: bool)
        ensures
            r == (self@ == other@),
        decreases self,
    {
        match (self, other) {
            (PumpkinValue::Number(x), PumpkinValue::Number(y)) => *x == *y,
            (PumpkinValue::String(x), PumpkinValue::String(y)) => *x == *y,
            (PumpkinValue::Boolean(x), PumpkinValue::Boolean(y)) => *x == *y,
            (PumpkinValue::Null, PumpkinValue::Null) => true,
            (PumpkinValue::Function(f), PumpkinValue::Function(g)) => f.same_as(g),
            (PumpkinValue::List(x), PumpkinValue::List(y)) => *x == *y,
            (PumpkinValue::Object(x), PumpkinValue::Object(y)) => *x == *y,
            _ => false,
        }
    }

    /// The `==` of the language.
    pub fn equals(&self, other: &PumpkinValue) -> (r: bool)
        ensures
            r == values_equal(self@, other@),
    {
        match (self, other) {
            (PumpkinValue::Number(x), PumpkinValue::Number(y)) => crate::number::equal(*x, *y),
            _ => self.identical(other),
        }
    }
}

} // verus!
