use rslogo::environment::Environment;
use rslogo::number::Number;
use rslogo::parser::ast::{ASTNode, Command, Condition, ControlFlow, Expression};
use rslogo::parser::errors::{ParseError, ParseErrorKind};
use rslogo::parser::parser::parse_tokens;
use rslogo::text::trim_start;

fn num(v: f32) -> Number {
    Number::from_bits(v.to_bits())
}

/// For each token, the number that its text after the leading quote marks
/// denotes, if it denotes one.
fn numerals(tokens: &[&str]) -> Vec<Option<Number>> {
    tokens
        .iter()
        .map(|t| trim_start(t, '"').parse::<f32>().ok().map(num))
        .collect()
}

#[test]
fn test_parse_basic_tokens() {
    let mut vars: Environment = Environment::new();
    let mut curr_pos = 0;

    let tokens = vec![
        "PENUP",
        "PENDOWN",
        "FORWARD",
        "\"100",
        "BACK",
        "\"100",
        "LEFT",
        "\"100",
        "RIGHT",
        "\"100",
        "SETHEADING",
        "\"100",
        "SETX",
        "\"100",
        "SETY",
        "\"100",
        "SETPENCOLOR",
        "\"1",
        "TURN",
        "\"100",
    ];
    let table = numerals(&tokens);
    let ast = parse_tokens(tokens, &table, &mut curr_pos, &mut vars).unwrap();

    assert_eq!(
        ast,
        vec![
            ASTNode::Command(Command::PenUp),
            ASTNode::Command(Command::PenDown),
            ASTNode::Command(Command::Forward(Expression::Float(num(100.0)))),
            ASTNode::Command(Command::Back(Expression::Float(num(100.0)))),
            ASTNode::Command(Command::Left(Expression::Float(num(100.0)))),
            ASTNode::Command(Command::Right(Expression::Float(num(100.0)))),
            ASTNode::Command(Command::SetHeading(Expression::Float(num(100.0)))),
            ASTNode::Command(Command::SetX(Expression::Float(num(100.0)))),
            ASTNode::Command(Command::SetY(Expression::Float(num(100.0)))),
            ASTNode::Command(Command::SetPenColor(Expression::Float(num(1.0)))),
            ASTNode::Command(Command::Turn(Expression::Float(num(100.0)))),
        ]
    );
}

#[test]
fn test_parse_pen_color_err() {
    let mut vars: Environment = Environment::new();
    let mut curr_pos = 0;

    let tokens = vec!["SETPENCOLOR", "\"16"];
    let table = numerals(&tokens);
    let ast = parse_tokens(tokens, &table, &mut curr_pos, &mut vars);

    assert_eq!(
        ast,
        Err(ParseError {
            kind: ParseErrorKind::InvalidSyntax {
                msg: "Colour index must be between 0 and 15 inclusive.".to_string()
            }
        })
    );
}

#[test]
fn test_parse_make() {
    let mut vars: Environment = Environment::new();
    let mut curr_pos = 0;

    let tokens = vec!["MAKE", "\"x", "\"100"];
    let table = numerals(&tokens);
    let ast = parse_tokens(tokens, &table, &mut curr_pos, &mut vars).unwrap();

    assert_eq!(
        ast,
        vec![ASTNode::Command(Command::Make(
            "x".to_string(),
            Expression::Float(num(100.0))
        ),)]
    );
}

#[test]
fn test_parse_add_assign() {
    let mut vars: Environment = Environment::new();
    vars.insert("x".to_string(), Expression::Float(num(100.0)));
    let mut curr_pos = 0;

    let tokens = vec!["ADDASSIGN", "\"x", "\"100"];
    let table = numerals(&tokens);
    let ast = parse_tokens(tokens, &table, &mut curr_pos, &mut vars).unwrap();

    assert_eq!(
        ast,
        vec![ASTNode::Command(Command::AddAssign(
            "x".to_string(),
            Expression::Float(num(100.0))
        ),)]
    );
}

#[test]
fn test_parse_add_assign_not_var() {
    let mut vars: Environment = Environment::new();
    let mut curr_pos = 0;

    let tokens = vec!["ADDASSIGN", "x", "\"100"];
    let table = numerals(&tokens);
    let ast = parse_tokens(tokens, &table, &mut curr_pos, &mut vars);

    assert_eq!(
        ast,
        Err(ParseError {
            kind: ParseErrorKind::InvalidSyntax {
                msg: "ADDASSIGN can only work on vars".to_string()
            }
        })
    );
}

#[test]
fn test_parse_add_assign_no_var() {
    let mut vars: Environment = Environment::new();
    let mut curr_pos = 0;

    let tokens = vec!["ADDASSIGN", "\"x", "\"100"];
    let table = numerals(&tokens);
    let ast = parse_tokens(tokens, &table, &mut curr_pos, &mut vars);

    assert_eq!(
        ast,
        Err(ParseError {
            kind: ParseErrorKind::VariableNotFound {
                var: "x".to_string()
            }
        })
    );
}

#[test]
fn test_parse_if() {
    let mut vars: Environment = Environment::new();
    let mut curr_pos = 0;

    let tokens = vec!["IF", "EQ", "\"100", "\"100", "[", "FORWARD", "\"100", "]"];
    let table = numerals(&tokens);
    let ast = parse_tokens(tokens, &table, &mut curr_pos, &mut vars).unwrap();

    assert_eq!(
        ast,
        vec![ASTNode::ControlFlow(ControlFlow::If {
            condition: Condition::Equals(Expression::Float(num(100.0)), Expression::Float(num(100.0))),
            block: vec![ASTNode::Command(Command::Forward(Expression::Float(num(100.0))))]
        })]
    );
}

#[test]
fn test_parse_while() {
    let mut vars: Environment = Environment::new();
    let mut curr_pos = 0;

    let tokens = vec![
        "WHILE", "EQ", "\"100", "\"100", "[", "FORWARD", "\"100", "]",
    ];
    let table = numerals(&tokens);
    let ast = parse_tokens(tokens, &table, &mut curr_pos, &mut vars).unwrap();

    assert_eq!(
        ast,
        vec![ASTNode::ControlFlow(ControlFlow::While {
            condition: Condition::Equals(Expression::Float(num(100.0)), Expression::Float(num(100.0))),
            block: vec![ASTNode::Command(Command::Forward(Expression::Float(num(100.0))))]
        })]
    );
}

#[test]
fn test_parse_unexpected_token() {
    let mut vars: Environment = Environment::new();
    let mut curr_pos = 0;

    let tokens = vec!["INVALID"];
    let table = numerals(&tokens);
    let ast = parse_tokens(tokens, &table, &mut curr_pos, &mut vars);

    assert_eq!(
        ast,
        Err(ParseError {
            kind: ParseErrorKind::UnexpectedToken {
                token: "INVALID".to_string()
            }
        })
    );
}
