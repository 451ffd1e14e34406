//! Error types for the evaluator.

use vstd::prelude::*;
use vstd::string::*;

verus! {

#[derive(Debug, PartialEq)]
pub enum ExecutionErrorKind {
    /// The right operand of a division compared equal to zero.
    DivisionByZero,
    /// A variable was read or incremented while it had no usable binding.
    VariableNotFound { var: String },
    /// Something other than what the evaluator was waiting for turned up.
    TypeError { expected: String },
    /// A pen colour outside 0..=15 was asked for.
    ColorIndexOutOfRange,
    /// A turn would take the heading out of the 32-bit range.
    HeadingOutOfRange,
}

#[derive(Debug, PartialEq)]
pub struct ExecutionError {
    pub kind: ExecutionErrorKind,
}

pub enum ExecutionErrorView {
    DivisionByZero,
    VariableNotFound(Seq<char>),
    TypeError(Seq<char>),
    ColorIndexOutOfRange,
    HeadingOutOfRange,
}

impl View for ExecutionErrorKind {
    type V = ExecutionErrorView;

    open spec fn view(&self) -> ExecutionErrorView {
        match self {
            ExecutionErrorKind::DivisionByZero => ExecutionErrorView::DivisionByZero,
            ExecutionErrorKind::VariableNotFound { var } => ExecutionErrorView::VariableNotFound(
                var@,
            ),
            ExecutionErrorKind::TypeError { expected } => ExecutionErrorView::TypeError(expected@),
            ExecutionErrorKind::ColorIndexOutOfRange => ExecutionErrorView::ColorIndexOutOfRange,
            ExecutionErrorKind::HeadingOutOfRange => ExecutionErrorView::HeadingOutOfRange,
        }
    }
}

impl View for ExecutionError {
    type V = ExecutionErrorView;

    open spec fn view(&self) -> ExecutionErrorView {
        self.kind@
    }
}

impl ExecutionErrorView {
    /// The message shown for the error.
    pub open spec fn message(self) -> Seq<char> {
        match self {
            ExecutionErrorView::DivisionByZero => "Division by zero"@,
            ExecutionErrorView::VariableNotFound(var) => "Variable not found: '"@ + var + "'"@,
            ExecutionErrorView::TypeError(expected) => "Type error: expected '"@ + expected + "'"@,
            ExecutionErrorView::ColorIndexOutOfRange =>
                "Colour index must be between 0 and 15 inclusive."@,
            ExecutionErrorView::HeadingOutOfRange => "Heading out of range"@,
        }
    }
}

impl ExecutionError {
    pub fn division_by_zero() -> (r: ExecutionError)
        ensures
            r@ == ExecutionErrorView::DivisionByZero,
    {
        ExecutionError { kind: ExecutionErrorKind::DivisionByZero }
    }

    pub fn variable_not_found(var: &str) -> (r: ExecutionError)
        ensures
            r@ == ExecutionErrorView::VariableNotFound(var@),
    {
        ExecutionError { kind: ExecutionErrorKind::VariableNotFound { var: String::from_str(var) } }
    }

    pub fn type_error(expected: &str) -> (r: ExecutionError)
        ensures
            r@ == ExecutionErrorView::TypeError(expected@),
    {
        ExecutionError { kind: ExecutionErrorKind::TypeError { expected: String::from_str(expected) } }
    }

    pub fn color_index_out_of_range() -> (r: ExecutionError)
        ensures
            r@ == ExecutionErrorView::ColorIndexOutOfRange,
    {
        ExecutionError { kind: ExecutionErrorKind::ColorIndexOutOfRange }
    }

    pub fn heading_out_of_range() -> (r: ExecutionError)
        ensures
            r@ == ExecutionErrorView::HeadingOutOfRange,
    {
        ExecutionError { kind: ExecutionErrorKind::HeadingOutOfRange }
    }

    /// The message shown for the error.
    pub fn to_string(&self) -> (r: String)
        ensures
            r@ == self@.message(),
    {
        match &self.kind {
            ExecutionErrorKind::DivisionByZero => String::from_str("Division by zero"),
            ExecutionErrorKind::VariableNotFound { var } => {
                let mut out = String::from_str("Variable not found: '");
                out.append(var.as_str());
                out.append("'");
                out
            },
            ExecutionErrorKind::TypeError { expected } => {
                let mut out = String::from_str("Type error: expected '");
                out.append(expected.as_str());
                out.append("'");
                out
            },
            ExecutionErrorKind::ColorIndexOutOfRange => String::from_str(
                "Colour index must be between 0 and 15 inclusive.",
            ),
            ExecutionErrorKind::HeadingOutOfRange => String::from_str("Heading out of range"),
        }
    }
}

} // verus!
