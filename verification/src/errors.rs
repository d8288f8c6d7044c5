//! The error vocabulary shared by the compiler and the virtual machine.

use vstd::prelude::*;
use crate::ast::SourceLocation;
use crate::text::{decimal, decimal_text};

verus! {

#[derive(Debug, Clone, PartialEq)]
pub enum PumpkinError {
    RuntimeError { message: String, location: Option<SourceLocation>, hint: Option<String> },
    TypeError { expected: String, actual: String, location: Option<SourceLocation> },
    UndefinedVariableError { name: String, location: Option<SourceLocation>, hint: Option<String> },
    DivisionByZeroError { location: Option<SourceLocation> },
    ResourceExhausted { message: String, location: Option<SourceLocation> },
}

/// An error with its strings as character sequences.
pub enum ErrorModel {
    RuntimeError { message: Seq<char>, location: Option<SourceLocation>, hint: Option<Seq<char>> },
    TypeError { expected: Seq<char>, actual: Seq<char>, location: Option<SourceLocation> },
    UndefinedVariableError {
        name: Seq<char>,
        location: Option<SourceLocation>,
        hint: Option<Seq<char>>,
    },
    DivisionByZeroError { location: Option<SourceLocation> },
    ResourceExhausted { message: Seq<char>, location: Option<SourceLocation> },
}

pub open spec fn text_option(s: Option<String>) -> Option<Seq<char>> {
    match s {
        Some(t) => Some(t@),
        None => None,
    }
}

impl View for PumpkinError {
    type V = ErrorModel;

    open spec fn view(&self) -> ErrorModel {
        match *self {
            PumpkinError::RuntimeError { message, location, hint } => ErrorModel::RuntimeError {
                message: message@,
                location,
                hint: text_option(hint),
            },
            PumpkinError::TypeError { expected, actual, location } => ErrorModel::TypeError {
                expected: expected@,
                actual: actual@,
                location,
            },
            PumpkinError::UndefinedVariableError {
                name,
                location,
                hint,
            } => ErrorModel::UndefinedVariableError {
                name: name@,
                location,
                hint: text_option(hint),
            },
            PumpkinError::DivisionByZeroError { location } => ErrorModel::DivisionByZeroError {
                location,
            },
            PumpkinError::ResourceExhausted { message, location } => ErrorModel::ResourceExhausted {
                message: message@,
                location,
            },
        }
    }
}

impl ErrorModel {
    /// The location carried by the error.
    pub open spec fn location(self) -> Option<SourceLocation> {
        match self {
            ErrorModel::RuntimeError { location, .. } => location,
            ErrorModel::TypeError { location, .. } => location,
            ErrorModel::UndefinedVariableError { location, .. } => location,
            ErrorModel::DivisionByZeroError { location } => location,
            ErrorModel::ResourceExhausted { location, .. } => location,
        }
    }

    /// The same error at another location.
    pub open spec fn at(self, loc: Option<SourceLocation>) -> ErrorModel {
        match self {
            ErrorModel::RuntimeError { message, location, hint } => ErrorModel::RuntimeError {
                message,
                location: loc,
                hint,
            },
            ErrorModel::TypeError { expected, actual, location } => ErrorModel::TypeError {
                expected,
                actual,
                location: loc,
            },
            ErrorModel::UndefinedVariableError {
                name,
                location,
                hint,
            } => ErrorModel::UndefinedVariableError { name, location: loc, hint },
            ErrorModel::DivisionByZeroError { location } => ErrorModel::DivisionByZeroError {
                location: loc,
            },
            ErrorModel::ResourceExhausted { message, location } => ErrorModel::ResourceExhausted {
                message,
                location: loc,
            },
        }
    }

    /// What went wrong, in one line and without the place.
    pub open spec fn message_text(self) -> Seq<char> {
        match self {
            ErrorModel::RuntimeError { message, .. } => message,
            ErrorModel::TypeError { expected, actual, .. } => "Expected "@ + expected
                + ", but got "@ + actual,
            ErrorModel::UndefinedVariableError { name, .. } => "Undefined variable '"@ + name
                + "'"@,
            ErrorModel::DivisionByZeroError { .. } => "Division by zero"@,
            ErrorModel::ResourceExhausted { message, .. } => message,
        }
    }

    pub open spec fn runtime(message: Seq<char>, location: Option<SourceLocation>) -> ErrorModel {
        ErrorModel::RuntimeError { message, location, hint: None }
    }

    pub open spec fn type_mismatch(
        expected: Seq<char>,
        actual: Seq<char>,
        location: Option<SourceLocation>,
    ) -> ErrorModel {
        ErrorModel::TypeError { expected, actual, location }
    }
}

/// The line that says where an error arose, and the hint below it.
pub open spec fn location_text(loc: Option<SourceLocation>, hint: Option<Seq<char>>) -> Seq<char> {
    let place = match loc {
        Some(l) => "   at line "@ + decimal_text(l.line as nat) + ", column "@ + decimal_text(
            l.col as nat,
        ),
        None => "   (Unknown location)"@,
    };
    match hint {
        Some(h) => place + "\n   💡 Hint: "@ + h,
        None => place,
    }
}

/// The report of an error: a headline, then the place and the hint.
pub open spec fn report_text(e: ErrorModel) -> Seq<char> {
    match e {
        ErrorModel::RuntimeError { message, location, hint } => "🚨 Runtime Error: "@ + message
            + "\n"@ + location_text(location, hint),
        ErrorModel::TypeError { expected, actual, location } => "🚨 Type Error: Expected "@
            + expected + ", but got "@ + actual + ".\n"@ + location_text(location, None),
        ErrorModel::UndefinedVariableError { name, location, hint } => "🚨 Undefined Variable: '"@
            + name + "'.\n"@ + location_text(location, hint),
        ErrorModel::DivisionByZeroError {
            location,
        } => "🚨 Math Error: Division by zero is not allowed.\n"@ + location_text(location, None),
        ErrorModel::ResourceExhausted { message, location } => "🛑 Resource Limits: "@ + message
            + "\n"@ + location_text(location, None),
    }
}

impl PumpkinError {
    /// A runtime error without a hint.
    pub fn runtime(msg: &str, loc: Option<SourceLocation>) -> (r: Self)
        ensures
            r@ == ErrorModel::runtime(msg@, loc),
    {
        PumpkinError::RuntimeError { message: String::from_str(msg), location: loc, hint: None }
    }

    /// A type error naming the kind that was expected and the kind that was found.
    pub fn type_mismatch(expected: &str, actual: &str, loc: Option<SourceLocation>) -> (r: Self)
        ensures
            r@ == ErrorModel::type_mismatch(expected@, actual@, loc),
    {
        PumpkinError::TypeError {
            expected: String::from_str(expected),
            actual: String::from_str(actual),
            location: loc,
        }
    }

    /// What went wrong, in one line and without the place.
    pub fn message(&self) -> (r: String)
        ensures
            r@ == self@.message_text(),
    {
        match self {
            PumpkinError::RuntimeError { message, .. } => message.clone(),
            PumpkinError::TypeError { expected, actual, .. } => {
                let mut s = String::from_str("Expected ");
                s.append(expected.as_str());
                s.append(", but got ");
                s.append(actual.as_str());
                s
            },
            PumpkinError::UndefinedVariableError { name, .. } => {
                let mut s = String::from_str("Undefined variable '");
                s.append(name.as_str());
                s.append("'");
                s
            },
            PumpkinError::DivisionByZeroError { .. } => String::from_str("Division by zero"),
            PumpkinError::ResourceExhausted { message, .. } => message.clone(),
        }
    }

    /// The error at `loc`, whatever location it carried.
    pub fn at(self, loc: Option<SourceLocation>) -> (r: Self)
        ensures
            r@ == self@.at(loc),
    {
        match self {
            PumpkinError::RuntimeError { message, location: _, hint } => PumpkinError::RuntimeError {
                message,
                location: loc,
                hint,
            },
            PumpkinError::TypeError { expected, actual, location: _ } => PumpkinError::TypeError {
                expected,
                actual,
                location: loc,
            },
            PumpkinError::UndefinedVariableError {
                name,
                location: _,
                hint,
            } => PumpkinError::UndefinedVariableError { name, location: loc, hint },
            PumpkinError::DivisionByZeroError { location: _ } => PumpkinError::DivisionByZeroError {
                location: loc,
            },
            PumpkinError::ResourceExhausted {
                message,
                location: _,
            } => PumpkinError::ResourceExhausted { message, location: loc },
        }
    }

    /// The report of the error for a reader. The source text is not consulted.
    pub fn pretty_print(&self, _source_code: &str) -> (r: String)
        ensures
            r@ == report_text(self@),
    {
        match self {
            PumpkinError::RuntimeError { message, location, hint } => {
                let mut s = String::from_str("🚨 Runtime Error: ");
                s.append(message.as_str());
                s.append("\n");
                s.append(self.format_loc(location, hint).as_str());
                s
            },
            PumpkinError::TypeError { expected, actual, location } => {
                let mut s = String::from_str("🚨 Type Error: Expected ");
                s.append(expected.as_str());
                s.append(", but got ");
                s.append(actual.as_str());
                s.append(".\n");
                s.append(self.format_loc(location, &None).as_str());
                s
            },
            PumpkinError::UndefinedVariableError { name, location, hint } => {
                let mut s = String::from_str("🚨 Undefined Variable: '");
                s.append(name.as_str());
                s.append("'.\n");
                s.append(self.format_loc(location, hint).as_str());
                s
            },
            PumpkinError::DivisionByZeroError { location } => {
                let mut s = String::from_str("🚨 Math Error: Division by zero is not allowed.\n");
                s.append(self.format_loc(location, &None).as_str());
                s
            },
            PumpkinError::ResourceExhausted { message, location } => {
                let mut s = String::from_str("🛑 Resource Limits: ");
                s.append(message.as_str());
                s.append("\n");
                s.append(self.format_loc(location, &None).as_str());
                s
            },
        }
    }

    /// The line that says where the error arose, and the hint below it.
    pub fn format_loc(&self, loc: &Option<SourceLocation>, hint: &Option<String>) -> (r: String)
        ensures
            r@ == location_text(*loc, text_option(*hint)),
    {
        let mut s = match loc {
            Some(l) => {
                let mut t = String::from_str("   at line ");
                t.append(decimal(l.line).as_str());
                t.append(", column ");
                t.append(decimal(l.col).as_str());
                t
            },
            None => String::from_str("   (Unknown location)"),
        };
        match hint {
            Some(h) => {
                s.append("\n   💡 Hint: ");
                s.append(h.as_str());
                s
            },
            None => s,
        }
    }
}

} // verus!
