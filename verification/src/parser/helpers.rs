//! Parsing expressions, conditions and blocks.

use vstd::prelude::*;
use vstd::string::*;
use crate::environment::Environment;
use crate::number::Number;
use crate::parser::ast::{
    ASTNode,
    Condition,
    ConditionView,
    Expression,
    ExpressionView,
    Math,
    NodeView,
    Operator,
    Query,
    block_view,
    math,
};
use crate::parser::errors::{ParseError, ParseErrorView};
use crate::parser::grammar::{
    block,
    condition,
    expression,
    literal,
    operation,
    operator_of,
    query,
    quoted,
};
use crate::parser::numeral::denotes_number;
use crate::parser::parser::parse_sequence;
use crate::parser::tokenise::texts;
use crate::text::{characters, first_is, same_text, spells, trim_start};

verus! {

/// `<str as core::fmt::Debug>::fmt`, reached through `{:?}`: the text
/// between double quotes, with escapes where the standard library puts
/// them. The result depends on the text alone; the contract gives it a name
/// and says nothing of what it holds.
#[verifier::external_body]
fn quote(text: &str) -> (r: String)
    ensures
        r@ == quoted(text@),
{
    format!("{:?}", text)
}

/// A syntax error whose message is `lead` and then `text` in quotes.
fn syntax_error_about(lead: &str, text: &str) -> (r: ParseError)
    ensures
        r@ == ParseErrorView::InvalidSyntax(lead@ + quoted(text@)),
{
    let mut msg = String::from_str(lead);
    let shown = quote(text);
    msg.append(shown.as_str());
    ParseError::invalid_syntax(msg)
}

/// A syntax error with the message `msg`.
pub(crate) fn syntax_error(msg: &str) -> (r: ParseError)
    ensures
        r@ == ParseErrorView::InvalidSyntax(msg@),
{
    ParseError::invalid_syntax(String::from_str(msg))
}

/// The operator that `word` spells, if any.
fn operator_for(word: &Vec<char>) -> (r: Option<Operator>)
    ensures
        r == operator_of(word@),
{
    if spells(word, "+") {
        Some(Operator::Add)
    } else if spells(word, "-") {
        Some(Operator::Sub)
    } else if spells(word, "*") {
        Some(Operator::Mul)
    } else if spells(word, "/") {
        Some(Operator::Div)
    } else if spells(word, "EQ") {
        Some(Operator::Eq)
    } else if spells(word, "LT") {
        Some(Operator::Lt)
    } else if spells(word, "GT") {
        Some(Operator::Gt)
    } else if spells(word, "NE") {
        Some(Operator::Ne)
    } else if spells(word, "AND") {
        Some(Operator::And)
    } else if spells(word, "OR") {
        Some(Operator::Or)
    } else {
        None
    }
}

/// The operation with the given operator and operands.
fn make_math(op: Operator, lhs: Expression, rhs: Expression) -> (r: Expression)
    ensures
        r@ == math(op, lhs@, rhs@),
{
    let m = match op {
        Operator::Add => Math::Add(lhs, rhs),
        Operator::Sub => Math::Sub(lhs, rhs),
        Operator::Mul => Math::Mul(lhs, rhs),
        Operator::Div => Math::Div(lhs, rhs),
        Operator::Eq => Math::Eq(lhs, rhs),
        Operator::Lt => Math::Lt(lhs, rhs),
        Operator::Gt => Math::Gt(lhs, rhs),
        Operator::Ne => Math::Ne(lhs, rhs),
        Operator::And => Math::And(lhs, rhs),
        Operator::Or => Math::Or(lhs, rhs),
    };
    Expression::Math(Box::new(m))
}

/// Parses the token at the cursor, and what follows it where it is an
/// operator, into an expression. On success the cursor stands on the
/// expression's last token.
pub fn match_parse(
    tokens: &[&str],
    numerals: &[Option<Number>],
    pos: &mut usize,
    vars: &mut Environment,
) -> (r: Result<Expression, ParseError>)
    ensures
        ({
            let p = expression(texts(tokens@), numerals@, *old(pos) as int, old(vars)@);
            &&& *final(pos) == p.pos
            &&& final(vars)@ == old(vars)@
            &&& match r {
                Ok(e) => p.result == Ok::<_, ParseErrorView>(e@) && *old(pos) <= *final(pos)
                    < tokens.len(),
                Err(e) => p.result == Err::<ExpressionView, _>(e@),
            }
        }),
    decreases tokens.len() - *old(pos), 1int,
{
    if *pos >= tokens.len() {
        return Err(syntax_error("Unexpected end of input"));
    }
    let token: &str = tokens[*pos];
    if first_is(token, '"') {
        match parse_expression(tokens, numerals, *pos) {
            Ok(v) => Ok(Expression::Float(v)),
            Err(e) => Err(e),
        }
    } else if first_is(token, ':') {
        let name = trim_start(token, ':');
        if vars.contains_key(name) {
            Ok(Expression::Variable(String::from_str(name)))
        } else {
            Err(ParseError::variable_not_found(name))
        }
    } else {
        let word = characters(token);
        if operator_for(&word).is_some() {
            parse_maths(tokens, numerals, pos, vars)
        } else {
            match parse_query(tokens, *pos) {
                Ok(q) => Ok(Expression::Query(q)),
                Err(e) => Err(e),
            }
        }
    }
}

/// The number that the literal token at `pos` denotes: `"TRUE` is 1,
/// `"FALSE` is 0, and a numeral is what `numerals` holds for it.
pub fn parse_expression(tokens: &[&str], numerals: &[Option<Number>], pos: usize) -> (r: Result<
    Number,
    ParseError,
>)
    ensures
        match r {
            Ok(v) => literal(texts(tokens@), numerals@, pos as int) == Ok::<_, ParseErrorView>(v),
            Err(e) => literal(texts(tokens@), numerals@, pos as int) == Err::<Number, _>(e@),
        },
{
    if pos >= tokens.len() {
        return Err(syntax_error("Unexpected end of input"));
    }
    let token: &str = tokens[pos];
    if first_is(token, '"') {
        let body = trim_start(token, '"');
        if same_text(body, "TRUE") {
            Ok(Number::from_bits(0x3f80_0000))
        } else if same_text(body, "FALSE") {
            Ok(Number::from_bits(0))
        } else {
            let known: Option<Number> = if denotes_number(body) && pos < numerals.len() {
                numerals[pos]
            } else {
                None
            };
            match known {
                Some(v) => Ok(v),
                None => Err(
                    syntax_error_about("Cannot parse this expression as a float: ", body),
                ),
            }
        }
    } else {
        Err(syntax_error_about("Cannot parse this expression as a float: ", token))
    }
}

/// The query that the token at `pos` names: one of `XCOR`, `YCOR`,
/// `HEADING` and `COLOR`.
pub fn parse_query(tokens: &[&str], pos: usize) -> (r: Result<Query, ParseError>)
    ensures
        match r {
            Ok(q) => query(texts(tokens@), pos as int) == Ok::<_, ParseErrorView>(q),
            Err(e) => query(texts(tokens@), pos as int) == Err::<Query, _>(e@),
        },
{
    if pos >= tokens.len() {
        return Err(syntax_error("Unexpected end of input"));
    }
    let token: &str = tokens[pos];
    let word = characters(token);
    if spells(&word, "XCOR") {
        Ok(Query::XCor)
    } else if spells(&word, "YCOR") {
        Ok(Query::YCor)
    } else if spells(&word, "HEADING") {
        Ok(Query::Heading)
    } else if spells(&word, "COLOR") {
        Ok(Query::Color)
    } else {
        Err(syntax_error_about("Could not parse this token as a query: ", token))
    }
}

/// Parses the condition of an `IF` or a `WHILE`. The cursor ends just past
/// the condition.
pub fn parse_conditions(
    tokens: &[&str],
    numerals: &[Option<Number>],
    curr_pos: &mut usize,
    vars: &mut Environment,
) -> (r: Result<Condition, ParseError>)
    ensures
        ({
            let p = condition(texts(tokens@), numerals@, *old(curr_pos) as int, old(vars)@);
            &&& *final(curr_pos) == p.pos
            &&& final(vars)@ == old(vars)@
            &&& match r {
                Ok(c) => p.result == Ok::<_, ParseErrorView>(c@) && *old(curr_pos) < *final(curr_pos) <= tokens.len(),
                Err(e) => p.result == Err::<ConditionView, _>(e@),
            }
        }),
{
    if *curr_pos >= tokens.len() {
        return Err(syntax_error("Unexpected end of input"));
    }
    let word = characters(tokens[*curr_pos]);
    let connective: Option<Operator> = match operator_for(&word) {
        Some(Operator::Eq) => Some(Operator::Eq),
        Some(Operator::Lt) => Some(Operator::Lt),
        Some(Operator::Gt) => Some(Operator::Gt),
        Some(Operator::And) => Some(Operator::And),
        Some(Operator::Or) => Some(Operator::Or),
        _ => None,
    };
    match connective {
        None => {
            match match_parse(tokens, numerals, curr_pos, vars) {
                Ok(e) => {
                    *curr_pos = *curr_pos + 1;
                    Ok(Condition::Equals(e, Expression::Float(Number::from_bits(0x3f80_0000))))
                },
                Err(e) => Err(e),
            }
        },
        Some(op) => {
            *curr_pos = *curr_pos + 1;
            let lhs = match match_parse(tokens, numerals, curr_pos, vars) {
                Ok(e) => e,
                Err(e) => {
                    return Err(e);
                },
            };
            *curr_pos = *curr_pos + 1;
            let rhs = match match_parse(tokens, numerals, curr_pos, vars) {
                Ok(e) => e,
                Err(e) => {
                    return Err(e);
                },
            };
            *curr_pos = *curr_pos + 1;
            Ok(
                match op {
                    Operator::Lt => Condition::LessThan(lhs, rhs),
                    Operator::Gt => Condition::GreaterThan(lhs, rhs),
                    Operator::And => Condition::And(lhs, rhs),
                    Operator::Or => Condition::Or(lhs, rhs),
                    _ => Condition::Equals(lhs, rhs),
                },
            )
        },
    }
}

/// Parses the block of an `IF` or a `WHILE`: a `[`, statements, a `]`. On
/// success the cursor stands on the closing `]`.
pub fn parse_conditional_blocks(
    tokens: &[&str],
    numerals: &[Option<Number>],
    curr_pos: &mut usize,
    vars: &mut Environment,
) -> (r: Result<Vec<ASTNode>, ParseError>)
    ensures
        ({
            let p = block(texts(tokens@), numerals@, *old(curr_pos) as int, old(vars)@);
            &&& *final(curr_pos) == p.pos
            &&& final(vars)@ == p.vars
            &&& match r {
                Ok(b) => p.result == Ok::<_, ParseErrorView>(block_view(b@)) && *old(curr_pos)
                    < *final(curr_pos) < tokens.len(),
                Err(e) => p.result == Err::<Seq<NodeView>, _>(e@),
            }
        }),
    decreases tokens.len() - *old(curr_pos), 0int,
{
    if *curr_pos >= tokens.len() {
        return Err(syntax_error("Unexpected end of input"));
    }
    let token: &str = tokens[*curr_pos];
    if !same_text(token, "[") {
        return Err(
            syntax_error_about("Expected the start of a conditiona block: '[', found: ", token),
        );
    }
    *curr_pos = *curr_pos + 1;
    let body = match parse_sequence(tokens, numerals, curr_pos, vars) {
        Ok(b) => b,
        Err(e) => {
            return Err(e);
        },
    };
    if *curr_pos >= tokens.len() {
        return Err(syntax_error("Expected the end of a conditional block: ']'"));
    }
    Ok(body)
}

/// Parses an operator and its two operands into an expression. On success
/// the cursor stands on the last token of the second operand.
pub fn parse_maths(
    tokens: &[&str],
    numerals: &[Option<Number>],
    curr_pos: &mut usize,
    vars: &mut Environment,
) -> (r: Result<Expression, ParseError>)
    ensures
        ({
            let p = operation(texts(tokens@), numerals@, *old(curr_pos) as int, old(vars)@);
            &&& *final(curr_pos) == p.pos
            &&& final(vars)@ == old(vars)@
            &&& match r {
                Ok(e) => p.result == Ok::<_, ParseErrorView>(e@) && *old(curr_pos) <= *final(curr_pos) < tokens.len(),
                Err(e) => p.result == Err::<ExpressionView, _>(e@),
            }
        }),
    decreases tokens.len() - *old(curr_pos), 0int,
{
    if *curr_pos >= tokens.len() {
        return Err(syntax_error("Unexpected end of input"));
    }
    let token: &str = tokens[*curr_pos];
    let word = characters(token);
    let op = match operator_for(&word) {
        Some(op) => op,
        None => {
            return Err(syntax_error_about("Invalid operator provided: ", token));
        },
    };
    *curr_pos = *curr_pos + 1;
    let lhs = match match_parse(tokens, numerals, curr_pos, vars) {
        Ok(e) => e,
        Err(e) => {
            return Err(e);
        },
    };
    *curr_pos = *curr_pos + 1;
    let rhs = match match_parse(tokens, numerals, curr_pos, vars) {
        Ok(e) => e,
        Err(e) => {
            return Err(e);
        },
    };
    Ok(make_math(op, lhs, rhs))
}

} // verus!
