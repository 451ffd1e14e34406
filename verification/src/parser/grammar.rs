//! The grammar of the language, as functions from a token sequence and a
//! cursor to what the parser yields there.
//!
//! A token that starts with `"` is a literal. Whether its text is a numeral
//! is decided here; the number that a numeral denotes comes with the
//! tokens, in a table with one entry per token, because finding the nearest
//! single-precision value to a decimal numeral is the embedding program's
//! work.

use vstd::prelude::*;
use crate::number::Number;
use crate::parser::ast::{
    Action,
    CommandView,
    ConditionView,
    ExpressionView,
    NodeView,
    Operator,
    Query,
    math,
};
use crate::parser::errors::ParseErrorView;
use crate::parser::numeral::is_numeral;
use crate::text::{starts_with, strip};

verus! {

/// `text` as the standard debug formatting of a string slice prints it:
/// between double quotes, with the characters that need it escaped.
pub uninterp spec fn quoted(text: Seq<char>) -> Seq<char>;

/// What parsing at a cursor yields: the parsed value or the error, where the
/// cursor stands afterwards, and the declared variables.
pub struct Parsed<T> {
    pub result: Result<T, ParseErrorView>,
    pub pos: int,
    pub vars: Map<Seq<char>, ExpressionView>,
}

pub type Variables = Map<Seq<char>, ExpressionView>;

pub open spec fn accept<T>(value: T, pos: int, vars: Variables) -> Parsed<T> {
    Parsed { result: Ok(value), pos, vars }
}

pub open spec fn reject<T>(error: ParseErrorView, pos: int, vars: Variables) -> Parsed<T> {
    Parsed { result: Err(error), pos, vars }
}

pub open spec fn syntax<T>(msg: Seq<char>, pos: int, vars: Variables) -> Parsed<T> {
    reject(ParseErrorView::InvalidSyntax(msg), pos, vars)
}

pub open spec fn operator_of(text: Seq<char>) -> Option<Operator> {
    if text == "+"@ {
        Some(Operator::Add)
    } else if text == "-"@ {
        Some(Operator::Sub)
    } else if text == "*"@ {
        Some(Operator::Mul)
    } else if text == "/"@ {
        Some(Operator::Div)
    } else if text == "EQ"@ {
        Some(Operator::Eq)
    } else if text == "LT"@ {
        Some(Operator::Lt)
    } else if text == "GT"@ {
        Some(Operator::Gt)
    } else if text == "NE"@ {
        Some(Operator::Ne)
    } else if text == "AND"@ {
        Some(Operator::And)
    } else if text == "OR"@ {
        Some(Operator::Or)
    } else {
        None
    }
}

/// The operators that may head a condition: every one but `+ - * /` and `NE`.
pub open spec fn connective_of(text: Seq<char>) -> Option<Operator> {
    match operator_of(text) {
        Some(Operator::Eq) => Some(Operator::Eq),
        Some(Operator::Lt) => Some(Operator::Lt),
        Some(Operator::Gt) => Some(Operator::Gt),
        Some(Operator::And) => Some(Operator::And),
        Some(Operator::Or) => Some(Operator::Or),
        _ => None,
    }
}

pub open spec fn query_of(text: Seq<char>) -> Option<Query> {
    if text == "XCOR"@ {
        Some(Query::XCor)
    } else if text == "YCOR"@ {
        Some(Query::YCor)
    } else if text == "HEADING"@ {
        Some(Query::Heading)
    } else if text == "COLOR"@ {
        Some(Query::Color)
    } else {
        None
    }
}

pub open spec fn action_of(text: Seq<char>) -> Option<Action> {
    if text == "FORWARD"@ {
        Some(Action::Forward)
    } else if text == "BACK"@ {
        Some(Action::Back)
    } else if text == "LEFT"@ {
        Some(Action::Left)
    } else if text == "RIGHT"@ {
        Some(Action::Right)
    } else if text == "SETHEADING"@ {
        Some(Action::SetHeading)
    } else if text == "SETX"@ {
        Some(Action::SetX)
    } else if text == "SETY"@ {
        Some(Action::SetY)
    } else if text == "SETPENCOLOR"@ {
        Some(Action::SetPenColor)
    } else if text == "TURN"@ {
        Some(Action::Turn)
    } else {
        None
    }
}

pub open spec fn in_range<A>(s: Seq<A>, pos: int) -> bool {
    0 <= pos < s.len()
}

/// The table's entry for the token at `pos`; none where the table is short.
pub open spec fn numeral_at(numerals: Seq<Option<Number>>, pos: int) -> Option<Number> {
    if 0 <= pos < numerals.len() {
        numerals[pos]
    } else {
        None
    }
}

pub open spec fn one() -> Number {
    Number { bits: 0x3f80_0000 }
}

pub open spec fn no_number(text: Seq<char>) -> Seq<char> {
    "Cannot parse this expression as a float: "@ + quoted(text)
}

pub open spec fn no_query(text: Seq<char>) -> Seq<char> {
    "Could not parse this token as a query: "@ + quoted(text)
}

pub open spec fn no_operator(text: Seq<char>) -> Seq<char> {
    "Invalid operator provided: "@ + quoted(text)
}

pub open spec fn no_block_start(text: Seq<char>) -> Seq<char> {
    "Expected the start of a conditiona block: '[', found: "@ + quoted(text)
}

pub open spec fn no_block_end() -> Seq<char> {
    "Expected the end of a conditional block: ']'"@
}

pub open spec fn no_colour() -> Seq<char> {
    "Colour index must be between 0 and 15 inclusive."@
}

pub open spec fn no_target() -> Seq<char> {
    "ADDASSIGN can only work on vars"@
}

pub open spec fn no_token() -> Seq<char> {
    "Unexpected end of input"@
}

/// The number that the literal token at `pos` denotes: 1 for `TRUE`, 0 for
/// `FALSE`, and for a numeral the table's entry; a syntax error where the
/// token starts with no `"`, where what follows the `"` is no numeral, and
/// where the table holds no number for it.
pub open spec fn literal(tokens: Seq<Seq<char>>, numerals: Seq<Option<Number>>, pos: int) -> Result<
    Number,
    ParseErrorView,
> {
    if !in_range(tokens, pos) {
        Err(ParseErrorView::InvalidSyntax(no_token()))
    } else if !starts_with(tokens[pos], '"') {
        Err(ParseErrorView::InvalidSyntax(no_number(tokens[pos])))
    } else {
        let body = strip(tokens[pos], '"');
        if body == "TRUE"@ {
            Ok(one())
        } else if body == "FALSE"@ {
            Ok(Number { bits: 0 })
        } else if is_numeral(body) {
            match numeral_at(numerals, pos) {
                Some(v) => Ok(v),
                None => Err(ParseErrorView::InvalidSyntax(no_number(body))),
            }
        } else {
            Err(ParseErrorView::InvalidSyntax(no_number(body)))
        }
    }
}

/// The query that the token at `pos` names.
pub open spec fn query(tokens: Seq<Seq<char>>, pos: int) -> Result<Query, ParseErrorView> {
    if !in_range(tokens, pos) {
        Err(ParseErrorView::InvalidSyntax(no_token()))
    } else {
        match query_of(tokens[pos]) {
            Some(q) => Ok(q),
            None => Err(ParseErrorView::InvalidSyntax(no_query(tokens[pos]))),
        }
    }
}

/// The expression that starts at `pos`. On success the cursor stands on
/// the expression's last token.
pub open spec fn expression(
    tokens: Seq<Seq<char>>,
    numerals: Seq<Option<Number>>,
    pos: int,
    vars: Variables,
) -> Parsed<ExpressionView>
    decreases tokens.len() - pos, 1int,
{
    if !in_range(tokens, pos) {
        syntax(no_token(), pos, vars)
    } else if starts_with(tokens[pos], '"') {
        match literal(tokens, numerals, pos) {
            Ok(v) => accept(ExpressionView::Float(v), pos, vars),
            Err(e) => reject(e, pos, vars),
        }
    } else if starts_with(tokens[pos], ':') {
        let name = strip(tokens[pos], ':');
        if vars.dom().contains(name) {
            accept(ExpressionView::Variable(name), pos, vars)
        } else {
            reject(ParseErrorView::VariableNotFound(name), pos, vars)
        }
    } else if operator_of(tokens[pos]) is Some {
        operation(tokens, numerals, pos, vars)
    } else {
        match query(tokens, pos) {
            Ok(q) => accept(ExpressionView::Query(q), pos, vars),
            Err(e) => reject(e, pos, vars),
        }
    }
}

/// The operation that starts at `pos`: an operator and its two operands,
/// each an expression. On success the cursor stands on the last token of
/// the second operand.
pub open spec fn operation(
    tokens: Seq<Seq<char>>,
    numerals: Seq<Option<Number>>,
    pos: int,
    vars: Variables,
) -> Parsed<ExpressionView>
    decreases tokens.len() - pos, 0int,
{
    if !in_range(tokens, pos) {
        syntax(no_token(), pos, vars)
    } else {
        match operator_of(tokens[pos]) {
            None => syntax(no_operator(tokens[pos]), pos, vars),
            Some(op) => {
                let lhs = expression(tokens, numerals, pos + 1, vars);
                match lhs.result {
                    Err(e) => lhs,
                    Ok(l) => if pos <= lhs.pos < tokens.len() {
                        let rhs = expression(tokens, numerals, lhs.pos + 1, vars);
                        match rhs.result {
                            Err(e) => rhs,
                            Ok(r) => accept(math(op, l, r), rhs.pos, vars),
                        }
                    } else {
                        syntax(no_token(), lhs.pos, vars)
                    },
                }
            },
        }
    }
}

/// The condition that starts at `pos`. A comparison or connective takes two
/// expressions; anything else is one expression, held equal to 1. The
/// cursor ends just past the condition.
pub open spec fn condition(
    tokens: Seq<Seq<char>>,
    numerals: Seq<Option<Number>>,
    pos: int,
    vars: Variables,
) -> Parsed<ConditionView> {
    if !in_range(tokens, pos) {
        syntax(no_token(), pos, vars)
    } else {
        match connective_of(tokens[pos]) {
            None => {
                let e = expression(tokens, numerals, pos, vars);
                match e.result {
                    Err(error) => reject(error, e.pos, vars),
                    Ok(x) => accept(
                        ConditionView {
                            operator: Operator::Eq,
                            lhs: x,
                            rhs: ExpressionView::Float(one()),
                        },
                        e.pos + 1,
                        vars,
                    ),
                }
            },
            Some(op) => {
                let lhs = expression(tokens, numerals, pos + 1, vars);
                match lhs.result {
                    Err(e) => reject(e, lhs.pos, vars),
                    Ok(l) => {
                        let rhs = expression(tokens, numerals, lhs.pos + 1, vars);
                        match rhs.result {
                            Err(e) => reject(e, rhs.pos, vars),
                            Ok(r) => accept(
                                ConditionView { operator: op, lhs: l, rhs: r },
                                rhs.pos + 1,
                                vars,
                            ),
                        }
                    },
                }
            },
        }
    }
}

/// Whether a pen colour given as a literal is outside 0..=15.
pub open spec fn bad_colour(action: Action, operand: ExpressionView) -> bool {
    action == Action::SetPenColor && match operand {
        ExpressionView::Float(c) => c.as_usize() > 15,
        _ => false,
    }
}

/// The statement that starts at `pos`. On success the cursor ends just past
/// the statement, and a `MAKE` has declared its variable.
#[verifier::opaque]
pub open spec fn statement(
    tokens: Seq<Seq<char>>,
    numerals: Seq<Option<Number>>,
    pos: int,
    vars: Variables,
) -> Parsed<NodeView>
    decreases tokens.len() - pos, 1int,
{
    if !in_range(tokens, pos) {
        syntax(no_token(), pos, vars)
    } else if tokens[pos] == "PENUP"@ {
        accept(NodeView::Command(CommandView::PenUp), pos + 1, vars)
    } else if tokens[pos] == "PENDOWN"@ {
        accept(NodeView::Command(CommandView::PenDown), pos + 1, vars)
    } else if action_of(tokens[pos]) is Some {
        let action = action_of(tokens[pos])->0;
        let e = expression(tokens, numerals, pos + 1, vars);
        match e.result {
            Err(error) => reject(error, e.pos, vars),
            Ok(x) => if bad_colour(action, x) {
                syntax(no_colour(), e.pos, vars)
            } else {
                accept(NodeView::Command(CommandView::Act(action, x)), e.pos + 1, vars)
            },
        }
    } else if tokens[pos] == "MAKE"@ {
        if !in_range(tokens, pos + 1) {
            syntax(no_token(), pos + 1, vars)
        } else {
            let name = strip(tokens[pos + 1], '"');
            let e = expression(tokens, numerals, pos + 2, vars);
            match e.result {
                Err(error) => reject(error, e.pos, vars),
                Ok(x) => accept(
                    NodeView::Command(CommandView::Make(name, x)),
                    e.pos + 1,
                    vars.insert(name, x),
                ),
            }
        }
    } else if tokens[pos] == "ADDASSIGN"@ {
        if !in_range(tokens, pos + 1) {
            syntax(no_token(), pos + 1, vars)
        } else if !starts_with(tokens[pos + 1], '"') {
            syntax(no_target(), pos + 1, vars)
        } else {
            let name = strip(tokens[pos + 1], '"');
            if !vars.dom().contains(name) {
                reject(ParseErrorView::VariableNotFound(name), pos + 1, vars)
            } else {
                let e = expression(tokens, numerals, pos + 2, vars);
                match e.result {
                    Err(error) => reject(error, e.pos, vars),
                    Ok(x) => accept(
                        NodeView::Command(CommandView::AddAssign(name, x)),
                        e.pos + 1,
                        vars,
                    ),
                }
            }
        }
    } else if tokens[pos] == "IF"@ || tokens[pos] == "WHILE"@ {
        let c = condition(tokens, numerals, pos + 1, vars);
        match c.result {
            Err(error) => reject(error, c.pos, vars),
            Ok(cond) => if pos < c.pos <= tokens.len() {
                let b = block(tokens, numerals, c.pos, vars);
                match b.result {
                    Err(error) => reject(error, b.pos, b.vars),
                    Ok(body) => accept(
                        if tokens[pos] == "IF"@ {
                            NodeView::If(cond, body)
                        } else {
                            NodeView::While(cond, body)
                        },
                        b.pos + 1,
                        b.vars,
                    ),
                }
            } else {
                syntax(no_token(), c.pos, vars)
            },
        }
    } else {
        reject(ParseErrorView::UnexpectedToken(tokens[pos]), pos, vars)
    }
}

/// The block that starts at `pos`: a `[`, statements, and a `]`, on which
/// the cursor stands on success.
pub open spec fn block(
    tokens: Seq<Seq<char>>,
    numerals: Seq<Option<Number>>,
    pos: int,
    vars: Variables,
) -> Parsed<Seq<NodeView>>
    decreases tokens.len() - pos, 0int,
{
    if !in_range(tokens, pos) {
        syntax(no_token(), pos, vars)
    } else if tokens[pos] != "["@ {
        syntax(no_block_start(tokens[pos]), pos, vars)
    } else {
        let body = sequence(tokens, numerals, pos + 1, vars);
        match body.result {
            Err(e) => body,
            Ok(nodes) => if body.pos >= tokens.len() {
                syntax(no_block_end(), body.pos, body.vars)
            } else {
                body
            },
        }
    }
}

pub open spec fn prepend(node: NodeView, rest: Parsed<Seq<NodeView>>) -> Parsed<Seq<NodeView>> {
    match rest.result {
        Ok(nodes) => accept(seq![node] + nodes, rest.pos, rest.vars),
        Err(e) => rest,
    }
}

/// The statements from `pos` up to the next `]` that closes no block of
/// theirs, or to the end of the tokens. The cursor stops there; a `]` is
/// not consumed.
pub open spec fn sequence(
    tokens: Seq<Seq<char>>,
    numerals: Seq<Option<Number>>,
    pos: int,
    vars: Variables,
) -> Parsed<Seq<NodeView>>
    decreases tokens.len() - pos, 2int,
{
    if !in_range(tokens, pos) || tokens[pos] == "]"@ {
        accept(Seq::empty(), pos, vars)
    } else {
        let first = statement(tokens, numerals, pos, vars);
        match first.result {
            Err(e) => reject(e, first.pos, first.vars),
            Ok(node) => if pos < first.pos <= tokens.len() {
                prepend(node, sequence(tokens, numerals, first.pos, first.vars))
            } else {
                syntax(no_token(), first.pos, first.vars)
            },
        }
    }
}

/// `rest` with `done` put before what it parsed.
pub open spec fn extend(done: Seq<NodeView>, rest: Parsed<Seq<NodeView>>) -> Parsed<Seq<NodeView>> {
    match rest.result {
        Ok(nodes) => accept(done + nodes, rest.pos, rest.vars),
        Err(e) => rest,
    }
}

/// Where a statement starts, a sequence is that statement and the sequence
/// after it.
pub proof fn lemma_sequence_step(
    tokens: Seq<Seq<char>>,
    numerals: Seq<Option<Number>>,
    pos: int,
    vars: Variables,
)
    requires
        in_range(tokens, pos),
        tokens[pos] != "]"@,
    ensures
        ({
            let first = statement(tokens, numerals, pos, vars);
            sequence(tokens, numerals, pos, vars) == match first.result {
                Err(e) => reject(e, first.pos, first.vars),
                Ok(node) => if pos < first.pos <= tokens.len() {
                    prepend(node, sequence(tokens, numerals, first.pos, first.vars))
                } else {
                    syntax(no_token(), first.pos, first.vars)
                },
            }
        }),
{
    reveal(statement);
    let first = statement(tokens, numerals, pos, vars);
    let whole = sequence(tokens, numerals, pos, vars);
    match first.result {
        Err(e) => {
            assert(whole == reject::<Seq<NodeView>>(e, first.pos, first.vars));
        },
        Ok(node) => {
            if pos < first.pos <= tokens.len() {
                assert(whole == prepend(
                    node,
                    sequence(tokens, numerals, first.pos, first.vars),
                ));
            } else {
                assert(whole == syntax::<Seq<NodeView>>(no_token(), first.pos, first.vars));
            }
        },
    }
}

/// At the end of the tokens and at a `]` a sequence is empty.
pub proof fn lemma_sequence_end(
    tokens: Seq<Seq<char>>,
    numerals: Seq<Option<Number>>,
    pos: int,
    vars: Variables,
)
    requires
        !in_range(tokens, pos) || tokens[pos] == "]"@,
    ensures
        sequence(tokens, numerals, pos, vars) == accept(Seq::<NodeView>::empty(), pos, vars),
{
}

pub proof fn lemma_extend_prepend(done: Seq<NodeView>, node: NodeView, rest: Parsed<Seq<NodeView>>)
    ensures
        extend(done, prepend(node, rest)) == extend(done.push(node), rest),
{
    match rest.result {
        Ok(nodes) => {
            assert(done + (seq![node] + nodes) =~= done.push(node) + nodes);
        },
        Err(e) => {},
    }
}

pub proof fn lemma_extend_empty(done: Seq<NodeView>, pos: int, vars: Variables)
    ensures
        extend(done, accept(Seq::<NodeView>::empty(), pos, vars)) == accept(done, pos, vars),
{
    assert(done + Seq::<NodeView>::empty() =~= done);
}

/// A sequence stops at the end of the tokens or on a `]`, and never before
/// where it started.
pub proof fn lemma_sequence_stops(
    tokens: Seq<Seq<char>>,
    numerals: Seq<Option<Number>>,
    pos: int,
    vars: Variables,
)
    requires
        sequence(tokens, numerals, pos, vars).result is Ok,
    ensures
        ({
            let end = sequence(tokens, numerals, pos, vars).pos;
            &&& pos <= end
            &&& !in_range(tokens, end) || tokens[end] == "]"@
        }),
    decreases tokens.len() - pos,
{
    if in_range(tokens, pos) && tokens[pos] != "]"@ {
        lemma_sequence_step(tokens, numerals, pos, vars);
        let first = statement(tokens, numerals, pos, vars);
        lemma_sequence_stops(tokens, numerals, first.pos, first.vars);
    }
}

/// A block that parses ends on its closing `]`: the cursor stands on a `]`
/// after the block's `[`, and the statements between the two are what the
/// block holds.
pub proof fn lemma_block_closes(
    tokens: Seq<Seq<char>>,
    numerals: Seq<Option<Number>>,
    pos: int,
    vars: Variables,
)
    requires
        block(tokens, numerals, pos, vars).result is Ok,
    ensures
        ({
            let b = block(tokens, numerals, pos, vars);
            &&& in_range(tokens, pos)
            &&& tokens[pos] == "["@
            &&& pos < b.pos < tokens.len()
            &&& tokens[b.pos] == "]"@
            &&& b == sequence(tokens, numerals, pos + 1, vars)
        }),
{
    if in_range(tokens, pos) && tokens[pos] == "["@ {
        lemma_sequence_stops(tokens, numerals, pos + 1, vars);
    }
}

/// The words that start a statement differ from one another.
proof fn lemma_control_words(word: Seq<char>)
    requires
        word == "IF"@ || word == "WHILE"@ || word == "ADDASSIGN"@,
    ensures
        word != "PENUP"@,
        word != "PENDOWN"@,
        word != "MAKE"@,
        action_of(word) is None,
        word == "ADDASSIGN"@ ==> word != "IF"@ && word != "WHILE"@,
        word != "]"@,
{
    reveal_strlit("IF");
    reveal_strlit("WHILE");
    reveal_strlit("ADDASSIGN");
    reveal_strlit("PENUP");
    reveal_strlit("PENDOWN");
    reveal_strlit("MAKE");
    reveal_strlit("FORWARD");
    reveal_strlit("BACK");
    reveal_strlit("LEFT");
    reveal_strlit("RIGHT");
    reveal_strlit("SETHEADING");
    reveal_strlit("SETX");
    reveal_strlit("SETY");
    reveal_strlit("SETPENCOLOR");
    reveal_strlit("TURN");
    reveal_strlit("]");
    assert("IF"@.len() == 2);
    assert("WHILE"@.len() == 5 && "WHILE"@[0] == 'W');
    assert("ADDASSIGN"@.len() == 9);
    assert("PENUP"@.len() == 5 && "PENUP"@[0] == 'P');
    assert("PENDOWN"@.len() == 7);
    assert("MAKE"@.len() == 4);
    assert("FORWARD"@.len() == 7);
    assert("BACK"@.len() == 4);
    assert("LEFT"@.len() == 4);
    assert("RIGHT"@.len() == 5 && "RIGHT"@[0] == 'R');
    assert("SETHEADING"@.len() == 10);
    assert("SETX"@.len() == 4);
    assert("SETY"@.len() == 4);
    assert("SETPENCOLOR"@.len() == 11);
    assert("TURN"@.len() == 4);
    assert("]"@.len() == 1);
}

/// An `IF` or a `WHILE` that parses leaves the cursor just past its own
/// closing `]`, however deep the blocks inside it nest; what follows is
/// parsed from there, with the variables that the block declared.
pub proof fn lemma_cursor_after_block(
    tokens: Seq<Seq<char>>,
    numerals: Seq<Option<Number>>,
    pos: int,
    vars: Variables,
)
    requires
        in_range(tokens, pos),
        tokens[pos] == "IF"@ || tokens[pos] == "WHILE"@,
        statement(tokens, numerals, pos, vars).result is Ok,
    ensures
        ({
            let parsed = statement(tokens, numerals, pos, vars);
            let c = condition(tokens, numerals, pos + 1, vars);
            let b = block(tokens, numerals, c.pos, vars);
            &&& c.result is Ok
            &&& b.result is Ok
            &&& parsed.pos == b.pos + 1
            &&& pos < b.pos < tokens.len()
            &&& tokens[parsed.pos - 1] == "]"@
            &&& parsed.vars == b.vars
            &&& sequence(tokens, numerals, pos, vars) == prepend(
                parsed.result->Ok_0,
                sequence(tokens, numerals, parsed.pos, parsed.vars),
            )
        }),
{
    reveal(statement);
    lemma_control_words(tokens[pos]);
    let c = condition(tokens, numerals, pos + 1, vars);
    lemma_block_closes(tokens, numerals, c.pos, vars);
    lemma_sequence_step(tokens, numerals, pos, vars);
}

/// `ADDASSIGN` to a name that no `MAKE` has declared is refused with
/// `VariableNotFound` before its operand is looked at.
pub proof fn lemma_add_assign_undeclared(
    tokens: Seq<Seq<char>>,
    numerals: Seq<Option<Number>>,
    pos: int,
    vars: Variables,
)
    requires
        in_range(tokens, pos),
        in_range(tokens, pos + 1),
        tokens[pos] == "ADDASSIGN"@,
        starts_with(tokens[pos + 1], '"'),
        !vars.dom().contains(strip(tokens[pos + 1], '"')),
    ensures
        statement(tokens, numerals, pos, vars) == reject::<NodeView>(
            ParseErrorView::VariableNotFound(strip(tokens[pos + 1], '"')),
            pos + 1,
            vars,
        ),
{
    reveal(statement);
    lemma_control_words(tokens[pos]);
}

/// A `MAKE` declares its variable: after it the name is bound to the
/// expression that was parsed, and an `ADDASSIGN` to it is no longer
/// refused for the name.
pub proof fn lemma_make_declares(
    tokens: Seq<Seq<char>>,
    numerals: Seq<Option<Number>>,
    pos: int,
    vars: Variables,
)
    requires
        in_range(tokens, pos),
        tokens[pos] == "MAKE"@,
        statement(tokens, numerals, pos, vars).result is Ok,
    ensures
        ({
            let parsed = statement(tokens, numerals, pos, vars);
            let name = strip(tokens[pos + 1], '"');
            let value = expression(tokens, numerals, pos + 2, vars);
            &&& value.result is Ok
            &&& parsed.result->Ok_0 == NodeView::Command(CommandView::Make(name, value.result->Ok_0))
            &&& parsed.vars == vars.insert(name, value.result->Ok_0)
            &&& parsed.vars.dom().contains(name)
        }),
{
    reveal(statement);
    reveal_strlit("MAKE");
    reveal_strlit("PENUP");
    reveal_strlit("PENDOWN");
    reveal_strlit("FORWARD");
    reveal_strlit("BACK");
    reveal_strlit("LEFT");
    reveal_strlit("RIGHT");
    reveal_strlit("SETHEADING");
    reveal_strlit("SETX");
    reveal_strlit("SETY");
    reveal_strlit("SETPENCOLOR");
    reveal_strlit("TURN");
    assert("MAKE"@.len() == 4 && "MAKE"@[0] == 'M');
    assert("PENUP"@.len() == 5);
    assert("PENDOWN"@.len() == 7);
    assert("FORWARD"@.len() == 7);
    assert("BACK"@.len() == 4 && "BACK"@[0] == 'B');
    assert("LEFT"@.len() == 4 && "LEFT"@[0] == 'L');
    assert("RIGHT"@.len() == 5);
    assert("SETHEADING"@.len() == 10);
    assert("SETX"@.len() == 4 && "SETX"@[0] == 'S');
    assert("SETY"@.len() == 4 && "SETY"@[0] == 'S');
    assert("SETPENCOLOR"@.len() == 11);
    assert("TURN"@.len() == 4 && "TURN"@[0] == 'T');
}

/// Whether every variable that `e` reads is among `names`.
pub open spec fn reads_only(e: ExpressionView, names: Set<Seq<char>>) -> bool
    decreases e,
{
    match e {
        ExpressionView::Variable(name) => names.contains(name),
        ExpressionView::Math(op, lhs, rhs) => reads_only(*lhs, names) && reads_only(*rhs, names),
        _ => true,
    }
}

/// Variables are checked where they are read: an expression that parses
/// reads only variables that have been declared.
pub proof fn lemma_parsed_reads_declared(
    tokens: Seq<Seq<char>>,
    numerals: Seq<Option<Number>>,
    pos: int,
    vars: Variables,
)
    requires
        expression(tokens, numerals, pos, vars).result is Ok,
    ensures
        reads_only(expression(tokens, numerals, pos, vars).result->Ok_0, vars.dom()),
    decreases tokens.len() - pos,
{
    if in_range(tokens, pos) && !starts_with(tokens[pos], '"') && !starts_with(tokens[pos], ':')
        && operator_of(tokens[pos]) is Some {
        let lhs = expression(tokens, numerals, pos + 1, vars);
        lemma_parsed_reads_declared(tokens, numerals, pos + 1, vars);
        lemma_expression_advances(tokens, numerals, pos + 1, vars);
        lemma_parsed_reads_declared(tokens, numerals, lhs.pos + 1, vars);
    }
}

/// An expression that parses ends on one of its own tokens: the cursor
/// stands at or after the start, and inside the tokens.
pub proof fn lemma_expression_advances(
    tokens: Seq<Seq<char>>,
    numerals: Seq<Option<Number>>,
    pos: int,
    vars: Variables,
)
    requires
        expression(tokens, numerals, pos, vars).result is Ok,
    ensures
        pos <= expression(tokens, numerals, pos, vars).pos < tokens.len(),
    decreases tokens.len() - pos,
{
    if in_range(tokens, pos) && !starts_with(tokens[pos], '"') && !starts_with(tokens[pos], ':')
        && operator_of(tokens[pos]) is Some {
        let lhs = expression(tokens, numerals, pos + 1, vars);
        lemma_expression_advances(tokens, numerals, pos + 1, vars);
        lemma_expression_advances(tokens, numerals, lhs.pos + 1, vars);
    }
}

} // verus!
