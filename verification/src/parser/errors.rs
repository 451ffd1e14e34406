//! Error types for the parser.

use vstd::prelude::*;
use vstd::string::*;

verus! {

#[derive(Debug, PartialEq)]
pub enum ParseErrorKind {
    /// A token that starts no statement.
    UnexpectedToken { token: String },
    /// Malformed input: a bad literal, operator or block delimiter.
    InvalidSyntax { msg: String },
    /// A variable read or incremented before any `MAKE` declared it.
    VariableNotFound { var: String },
}

#[derive(Debug, PartialEq)]
pub struct ParseError {
    pub kind: ParseErrorKind,
}

pub enum ParseErrorView {
    UnexpectedToken(Seq<char>),
    InvalidSyntax(Seq<char>),
    VariableNotFound(Seq<char>),
}

impl View for ParseErrorKind {
    type V = ParseErrorView;

    open spec fn view(&self) -> ParseErrorView {
        match self {
            ParseErrorKind::UnexpectedToken { token } => ParseErrorView::UnexpectedToken(token@),
            ParseErrorKind::InvalidSyntax { msg } => ParseErrorView::InvalidSyntax(msg@),
            ParseErrorKind::VariableNotFound { var } => ParseErrorView::VariableNotFound(var@),
        }
    }
}

impl View for ParseError {
    type V = ParseErrorView;

    open spec fn view(&self) -> ParseErrorView {
        self.kind@
    }
}

impl ParseErrorView {
    /// The message shown for the error.
    pub open spec fn message(self) -> Seq<char> {
        match self {
            ParseErrorView::UnexpectedToken(token) => "Unexpected token: '"@ + token + "'"@,
            ParseErrorView::InvalidSyntax(msg) => "Invalid syntax: '"@ + msg + "'."@,
            ParseErrorView::VariableNotFound(var) => "Variable not found: '"@ + var + "'."@,
        }
    }
}

impl ParseError {
    pub fn unexpected_token(token: &str) -> (r: ParseError)
        ensures
            r@ == ParseErrorView::UnexpectedToken(token@),
    {
        ParseError { kind: ParseErrorKind::UnexpectedToken { token: String::from_str(token) } }
    }

    pub fn invalid_syntax(msg: String) -> (r: ParseError)
        ensures
            r@ == ParseErrorView::InvalidSyntax(msg@),
    {
        ParseError { kind: ParseErrorKind::InvalidSyntax { msg } }
    }

    pub fn variable_not_found(var: &str) -> (r: ParseError)
        ensures
            r@ == ParseErrorView::VariableNotFound(var@),
    {
        ParseError { kind: ParseErrorKind::VariableNotFound { var: String::from_str(var) } }
    }

    /// The message shown for the error.
    pub fn to_string(&self) -> (r: String)
        ensures
            r@ == self@.message(),
    {
        match &self.kind {
            ParseErrorKind::UnexpectedToken { token } => {
                let mut out = String::from_str("Unexpected token: '");
                out.append(token.as_str());
                out.append("'");
                out
            },
            ParseErrorKind::InvalidSyntax { msg } => {
                let mut out = String::from_str("Invalid syntax: '");
                out.append(msg.as_str());
                out.append("'.");
                out
            },
            ParseErrorKind::VariableNotFound { var } => {
                let mut out = String::from_str("Variable not found: '");
                out.append(var.as_str());
                out.append("'.");
                out
            },
        }
    }
}

} // verus!
