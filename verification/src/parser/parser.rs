//! Parsing statements.

use vstd::prelude::*;
use vstd::string::*;
use crate::environment::Environment;
use crate::number::Number;
use crate::parser::ast::{
    ASTNode,
    Action,
    Command,
    CommandView,
    ControlFlow,
    Expression,
    NodeView,
    block_view,
    copy_expression,
};
use crate::parser::errors::{ParseError, ParseErrorView};
use crate::parser::grammar::{
    action_of,
    extend,
    lemma_extend_empty,
    lemma_extend_prepend,
    lemma_sequence_end,
    lemma_sequence_step,
    sequence,
    statement,
};
use crate::parser::helpers::{
    match_parse,
    parse_conditional_blocks,
    parse_conditions,
    syntax_error,
};
use crate::parser::tokenise::texts;
use crate::text::{characters, first_is, same_text, spells, trim_start};

verus! {

/// The one-operand command that `word` names, if any.
fn action_for(word: &Vec<char>) -> (r: Option<Action>)
    ensures
        r == action_of(word@),
{
    if spells(word, "FORWARD") {
        Some(Action::Forward)
    } else if spells(word, "BACK") {
        Some(Action::Back)
    } else if spells(word, "LEFT") {
        Some(Action::Left)
    } else if spells(word, "RIGHT") {
        Some(Action::Right)
    } else if spells(word, "SETHEADING") {
        Some(Action::SetHeading)
    } else if spells(word, "SETX") {
        Some(Action::SetX)
    } else if spells(word, "SETY") {
        Some(Action::SetY)
    } else if spells(word, "SETPENCOLOR") {
        Some(Action::SetPenColor)
    } else if spells(word, "TURN") {
        Some(Action::Turn)
    } else {
        None
    }
}

/// The command that applies `action` to `operand`.
fn make_command(action: Action, operand: Expression) -> (r: Command)
    ensures
        r@ == CommandView::Act(action, operand@),
{
    match action {
        Action::Forward => Command::Forward(operand),
        Action::Back => Command::Back(operand),
        Action::Left => Command::Left(operand),
        Action::Right => Command::Right(operand),
        Action::SetPenColor => Command::SetPenColor(operand),
        Action::Turn => Command::Turn(operand),
        Action::SetHeading => Command::SetHeading(operand),
        Action::SetX => Command::SetX(operand),
        Action::SetY => Command::SetY(operand),
    }
}

/// Parses the statement at the cursor. On success the cursor ends just past
/// it.
pub fn parse_statement(
    tokens: &[&str],
    numerals: &[Option<Number>],
    curr_pos: &mut usize,
    vars: &mut Environment,
) -> (r: Result<ASTNode, ParseError>)
    ensures
        ({
            let p = statement(texts(tokens@), numerals@, *old(curr_pos) as int, old(vars)@);
            &&& *final(curr_pos) == p.pos
            &&& final(vars)@ == p.vars
            &&& match r {
                Ok(node) => p.result == Ok::<_, ParseErrorView>(node@) && *old(curr_pos) < *final(curr_pos) <= tokens.len(),
                Err(e) => p.result == Err::<NodeView, _>(e@),
            }
        }),
    decreases tokens.len() - *old(curr_pos), 1int,
{
    reveal(statement);
    if *curr_pos >= tokens.len() {
        return Err(syntax_error("Unexpected end of input"));
    }
    let token: &str = tokens[*curr_pos];
    let word = characters(token);
    if spells(&word, "PENUP") {
        *curr_pos = *curr_pos + 1;
        return Ok(ASTNode::Command(Command::PenUp));
    }
    if spells(&word, "PENDOWN") {
        *curr_pos = *curr_pos + 1;
        return Ok(ASTNode::Command(Command::PenDown));
    }
    if let Some(action) = action_for(&word) {
        *curr_pos = *curr_pos + 1;
        let operand = match match_parse(tokens, numerals, curr_pos, vars) {
            Ok(e) => e,
            Err(e) => {
                return Err(e);
            },
        };
        if let Action::SetPenColor = action {
            if let Expression::Float(colour) = &operand {
                if colour.to_usize() > 15 {
                    return Err(syntax_error("Colour index must be between 0 and 15 inclusive."));
                }
            }
        }
        *curr_pos = *curr_pos + 1;
        return Ok(ASTNode::Command(make_command(action, operand)));
    }
    if spells(&word, "MAKE") {
        *curr_pos = *curr_pos + 1;
        if *curr_pos >= tokens.len() {
            return Err(syntax_error("Unexpected end of input"));
        }
        let name = trim_start(tokens[*curr_pos], '"');
        *curr_pos = *curr_pos + 1;
        let value = match match_parse(tokens, numerals, curr_pos, vars) {
            Ok(e) => e,
            Err(e) => {
                return Err(e);
            },
        };
        vars.insert(String::from_str(name), copy_expression(&value));
        *curr_pos = *curr_pos + 1;
        return Ok(ASTNode::Command(Command::Make(String::from_str(name), value)));
    }
    if spells(&word, "ADDASSIGN") {
        *curr_pos = *curr_pos + 1;
        if *curr_pos >= tokens.len() {
            return Err(syntax_error("Unexpected end of input"));
        }
        if !first_is(tokens[*curr_pos], '"') {
            return Err(syntax_error("ADDASSIGN can only work on vars"));
        }
        let name = trim_start(tokens[*curr_pos], '"');
        if !vars.contains_key(name) {
            return Err(ParseError::variable_not_found(name));
        }
        *curr_pos = *curr_pos + 1;
        let value = match match_parse(tokens, numerals, curr_pos, vars) {
            Ok(e) => e,
            Err(e) => {
                return Err(e);
            },
        };
        *curr_pos = *curr_pos + 1;
        return Ok(ASTNode::Command(Command::AddAssign(String::from_str(name), value)));
    }
    let is_if: bool = spells(&word, "IF");
    if is_if || spells(&word, "WHILE") {
        *curr_pos = *curr_pos + 1;
        let condition = match parse_conditions(tokens, numerals, curr_pos, vars) {
            Ok(c) => c,
            Err(e) => {
                return Err(e);
            },
        };
        let block = match parse_conditional_blocks(tokens, numerals, curr_pos, vars) {
            Ok(b) => b,
            Err(e) => {
                return Err(e);
            },
        };
        *curr_pos = *curr_pos + 1;
        return Ok(
            ASTNode::ControlFlow(
                if is_if {
                    ControlFlow::If { condition, block }
                } else {
                    ControlFlow::While { condition, block }
                },
            ),
        );
    }
    Err(ParseError::unexpected_token(token))
}

/// Parses statements from the cursor up to the end of the tokens or to a
/// `]` that closes none of their blocks, where the cursor stops.
pub fn parse_sequence(
    tokens: &[&str],
    numerals: &[Option<Number>],
    curr_pos: &mut usize,
    vars: &mut Environment,
) -> (r: Result<Vec<ASTNode>, ParseError>)
    ensures
        ({
            let p = sequence(texts(tokens@), numerals@, *old(curr_pos) as int, old(vars)@);
            &&& *final(curr_pos) == p.pos
            &&& final(vars)@ == p.vars
            &&& match r {
                Ok(ast) => p.result == Ok::<_, ParseErrorView>(block_view(ast@)) && *old(curr_pos)
                    <= *final(curr_pos),
                Err(e) => p.result == Err::<Seq<NodeView>, _>(e@),
            }
        }),
    decreases tokens.len() - *old(curr_pos), 2int,
{
    let mut ast: Vec<ASTNode> = Vec::new();
    let ghost start = *curr_pos as int;
    let ghost vars0 = vars@;
    let ghost words = texts(tokens@);
    proof {
        let rest = sequence(words, numerals@, start, vars0);
        assert(block_view(ast@) =~= Seq::<NodeView>::empty());
        match rest.result {
            Ok(nodes) => {
                assert(Seq::<NodeView>::empty() + nodes =~= nodes);
            },
            Err(e) => {},
        }
    }
    while *curr_pos < tokens.len() && !same_text(tokens[*curr_pos], "]")
        invariant
            words == texts(tokens@),
            start == *old(curr_pos),
            vars0 == old(vars)@,
            start <= *curr_pos,
            sequence(words, numerals@, start, vars0) == extend(
                block_view(ast@),
                sequence(words, numerals@, *curr_pos as int, vars@),
            ),
        decreases tokens.len() - *curr_pos,
    {
        let ghost here = *curr_pos as int;
        let ghost vars1 = vars@;
        let ghost before = block_view(ast@);
        proof {
            assert(words[here] == tokens[here]@);
            lemma_sequence_step(words, numerals@, here, vars1);
        }
        match parse_statement(tokens, numerals, curr_pos, vars) {
            Ok(node) => {
                ast.push(node);
                proof {
                    assert(block_view(ast@) =~= before.push(node@));
                    lemma_extend_prepend(
                        before,
                        node@,
                        sequence(words, numerals@, *curr_pos as int, vars@),
                    );
                }
            },
            Err(e) => {
                return Err(e);
            },
        }
    }
    proof {
        if *curr_pos < tokens.len() {
            assert(words[*curr_pos as int] == tokens[*curr_pos as int]@);
        }
        lemma_sequence_end(words, numerals@, *curr_pos as int, vars@);
        lemma_extend_empty(block_view(ast@), *curr_pos as int, vars@);
    }
    Ok(ast)
}

/// Parses tokens into statements, from the cursor up to the end of the
/// tokens or to a `]` that closes none of their blocks, where the cursor
/// stops. `numerals` holds, for each token, the number that its text after
/// the leading `"` denotes, if it denotes one.
pub fn parse_tokens(
    tokens: Vec<&str>,
    numerals: &[Option<Number>],
    curr_pos: &mut usize,
    vars: &mut Environment,
) -> (r: Result<Vec<ASTNode>, ParseError>)
    ensures
        ({
            let p = sequence(texts(tokens@), numerals@, *old(curr_pos) as int, old(vars)@);
            &&& *final(curr_pos) == p.pos
            &&& final(vars)@ == p.vars
            &&& match r {
                Ok(ast) => p.result == Ok::<_, ParseErrorView>(block_view(ast@)),
                Err(e) => p.result == Err::<Seq<NodeView>, _>(e@),
            }
        }),
{
    parse_sequence(tokens.as_slice(), numerals, curr_pos, vars)
}

} // verus!
