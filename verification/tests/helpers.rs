use rslogo::environment::Environment;
use rslogo::number::Number;
use rslogo::parser::ast::{ASTNode, Command, Condition, Expression, Math, Query};
use rslogo::parser::errors::{ParseError, ParseErrorKind};
use rslogo::parser::helpers::{
    match_parse, parse_conditional_blocks, parse_conditions, parse_expression, parse_maths,
    parse_query,
};
use rslogo::text::trim_start;

fn num(v: f32) -> Number {
    Number::from_bits(v.to_bits())
}

fn val(n: Number) -> f32 {
    f32::from_bits(n.to_bits())
}

/// For each token, the number that its text after the leading quote marks
/// denotes, if it denotes one.
fn numerals(tokens: &[&str]) -> Vec<Option<Number>> {
    tokens
        .iter()
        .map(|t| trim_start(t, '"').parse::<f32>().ok().map(num))
        .collect()
}

#[test]
fn test_parse_float_expr() {
    let tokens = vec!["\"100"];
    let expr = parse_expression(&tokens, &numerals(&tokens), 0).unwrap();

    assert_eq!(val(expr), 100.0);
}

#[test]
fn test_parse_true_expr() {
    let tokens = vec!["\"TRUE"];
    let expr = parse_expression(&tokens, &numerals(&tokens), 0).unwrap();

    assert_eq!(val(expr), 1.0);
}

#[test]
fn test_parse_false_expr() {
    let tokens = vec!["\"FALSE"];
    let expr = parse_expression(&tokens, &numerals(&tokens), 0).unwrap();

    assert_eq!(val(expr), 0.0);
}

#[test]
fn test_invalid_parse_expr() {
    let tokens = vec!["TOKEN"];
    let expr = parse_expression(&tokens, &numerals(&tokens), 0);

    assert!(expr.is_err());
}

#[test]
fn test_invalid_parse_expr_2() {
    let tokens = vec!["\"TOKEN"];
    let expr = parse_expression(&tokens, &numerals(&tokens), 0);

    assert!(expr.is_err());
}

#[test]
fn test_parse_query() {
    let tokens = vec!["XCOR"];
    let query = parse_query(&tokens, 0).unwrap();

    assert_eq!(query, Query::XCor);
}

#[test]
fn test_parse_conditions() {
    let mut vars: Environment = Environment::new();
    let tokens = vec!["EQ", "\"100", "\"100"];

    let condition = parse_conditions(&tokens, &numerals(&tokens), &mut 0, &mut vars).unwrap();

    assert_eq!(
        condition,
        Condition::Equals(Expression::Float(num(100.0)), Expression::Float(num(100.0)))
    );
}

#[test]
fn test_parse_condition_bool() {
    let mut vars: Environment = Environment::new();
    vars.insert("x".to_string(), Expression::Float(num(1.0)));

    let tokens = vec![":x"];
    let condition = parse_conditions(&tokens, &numerals(&tokens), &mut 0, &mut vars).unwrap();

    assert_eq!(
        condition,
        Condition::Equals(
            Expression::Variable("x".to_string()),
            Expression::Float(num(1.0))
        )
    );
}

#[test]
fn test_parse_conditions_lt() {
    let mut vars: Environment = Environment::new();
    let tokens = vec!["LT", "\"80", "\"100"];

    let condition = parse_conditions(&tokens, &numerals(&tokens), &mut 0, &mut vars).unwrap();

    assert_eq!(
        condition,
        Condition::LessThan(Expression::Float(num(80.0)), Expression::Float(num(100.0)))
    );
}

#[test]
fn test_parse_conditions_gt() {
    let mut vars: Environment = Environment::new();
    let tokens = vec!["GT", "\"100", "\"80"];

    let condition = parse_conditions(&tokens, &numerals(&tokens), &mut 0, &mut vars).unwrap();

    assert_eq!(
        condition,
        Condition::GreaterThan(Expression::Float(num(100.0)), Expression::Float(num(80.0)))
    );
}

#[test]
fn test_parse_conditions_and() {
    let mut vars: Environment = Environment::new();
    let tokens = vec!["AND", "\"100", "\"100"];

    let condition = parse_conditions(&tokens, &numerals(&tokens), &mut 0, &mut vars).unwrap();

    assert_eq!(
        condition,
        Condition::And(Expression::Float(num(100.0)), Expression::Float(num(100.0)))
    );
}

#[test]
fn test_parse_conditions_or() {
    let mut vars: Environment = Environment::new();
    let tokens = vec!["OR", "\"100", "\"100"];

    let condition = parse_conditions(&tokens, &numerals(&tokens), &mut 0, &mut vars).unwrap();

    assert_eq!(
        condition,
        Condition::Or(Expression::Float(num(100.0)), Expression::Float(num(100.0)))
    );
}

#[test]
fn test_parse_invalid_cond() {
    let mut vars: Environment = Environment::new();
    let tokens = vec!["INVALID", "\"100", "\"100"];

    let condition = parse_conditions(&tokens, &numerals(&tokens), &mut 0, &mut vars);

    assert!(condition.is_err());
}

#[test]
fn test_parse_conditional_blocks() {
    let mut vars: Environment = Environment::new();

    let tokens = vec!["[", "PENDOWN", "FORWARD", "\"100", "]"];
    let mut curr_pos = 0;

    let block = parse_conditional_blocks(&tokens, &numerals(&tokens), &mut curr_pos, &mut vars).unwrap();
    assert_eq!(
        block,
        vec![
            ASTNode::Command(Command::PenDown),
            ASTNode::Command(Command::Forward(Expression::Float(num(100.0))))
        ]
    );
}

#[test]
fn test_parse_cond_block_inval_start() {
    let mut vars: Environment = Environment::new();

    let tokens = vec!["PENDOWN", "FORWARD", "\"100", "]"];
    let mut curr_pos = 0;

    let block = parse_conditional_blocks(&tokens, &numerals(&tokens), &mut curr_pos, &mut vars);

    assert!(block.is_err());
}

#[test]
fn test_parse_cond_block_inval_end() {
    let mut vars: Environment = Environment::new();

    let tokens = vec!["[", "PENDOWN", "FORWARD", "\"100"];
    let mut curr_pos = 0;

    let block = parse_conditional_blocks(&tokens, &numerals(&tokens), &mut curr_pos, &mut vars);

    assert!(block.is_err());
}

#[test]
fn test_parse_maths_add() {
    let mut vars: Environment = Environment::new();
    let tokens = vec!["+", "\"100", "\"100"];
    let mut curr_pos = 0;
    let expr = parse_maths(&tokens, &numerals(&tokens), &mut curr_pos, &mut vars).unwrap();
    assert_eq!(
        expr,
        Expression::Math(Box::new(Math::Add(
            Expression::Float(num(100.0)),
            Expression::Float(num(100.0))
        )))
    );
}

#[test]
fn test_parse_maths_sub() {
    let mut vars: Environment = Environment::new();
    let tokens = vec!["-", "\"100", "\"100"];
    let mut curr_pos = 0;
    let expr = parse_maths(&tokens, &numerals(&tokens), &mut curr_pos, &mut vars).unwrap();
    assert_eq!(
        expr,
        Expression::Math(Box::new(Math::Sub(
            Expression::Float(num(100.0)),
            Expression::Float(num(100.0))
        )))
    );
}

#[test]
fn test_parse_maths_mul() {
    let mut vars: Environment = Environment::new();
    let tokens = vec!["*", "\"100", "\"100"];
    let mut curr_pos = 0;
    let expr = parse_maths(&tokens, &numerals(&tokens), &mut curr_pos, &mut vars).unwrap();
    assert_eq!(
        expr,
        Expression::Math(Box::new(Math::Mul(
            Expression::Float(num(100.0)),
            Expression::Float(num(100.0))
        )))
    );
}

#[test]
fn test_parse_maths_div() {
    let mut vars: Environment = Environment::new();
    let tokens = vec!["/", "\"100", "\"100"];
    let mut curr_pos = 0;
    let expr = parse_maths(&tokens, &numerals(&tokens), &mut curr_pos, &mut vars).unwrap();
    assert_eq!(
        expr,
        Expression::Math(Box::new(Math::Div(
            Expression::Float(num(100.0)),
            Expression::Float(num(100.0))
        )))
    );
}

#[test]
fn test_parse_maths_eq() {
    let mut vars: Environment = Environment::new();
    let tokens = vec!["EQ", "\"100", "\"100"];
    let mut curr_pos = 0;
    let expr = parse_maths(&tokens, &numerals(&tokens), &mut curr_pos, &mut vars).unwrap();
    assert_eq!(
        expr,
        Expression::Math(Box::new(Math::Eq(
            Expression::Float(num(100.0)),
            Expression::Float(num(100.0))
        )))
    );
}

#[test]
fn test_parse_maths_lt() {
    let mut vars: Environment = Environment::new();
    let tokens = vec!["LT", "\"100", "\"100"];
    let mut curr_pos = 0;
    let expr = parse_maths(&tokens, &numerals(&tokens), &mut curr_pos, &mut vars).unwrap();
    assert_eq!(
        expr,
        Expression::Math(Box::new(Math::Lt(
            Expression::Float(num(100.0)),
            Expression::Float(num(100.0))
        )))
    );
}

#[test]
fn test_parse_maths_gt() {
    let mut vars: Environment = Environment::new();
    let tokens = vec!["GT", "\"100", "\"100"];
    let mut curr_pos = 0;
    let expr = parse_maths(&tokens, &numerals(&tokens), &mut curr_pos, &mut vars).unwrap();
    assert_eq!(
        expr,
        Expression::Math(Box::new(Math::Gt(
            Expression::Float(num(100.0)),
            Expression::Float(num(100.0))
        )))
    );
}

#[test]
fn test_parse_maths_ne() {
    let mut vars: Environment = Environment::new();
    let tokens = vec!["NE", "\"100", "\"100"];
    let mut curr_pos = 0;
    let expr = parse_maths(&tokens, &numerals(&tokens), &mut curr_pos, &mut vars).unwrap();
    assert_eq!(
        expr,
        Expression::Math(Box::new(Math::Ne(
            Expression::Float(num(100.0)),
            Expression::Float(num(100.0))
        )))
    );
}

#[test]
fn test_parse_maths_and() {
    let mut vars: Environment = Environment::new();
    let tokens = vec!["AND", "\"100", "\"100"];
    let mut curr_pos = 0;
    let expr = parse_maths(&tokens, &numerals(&tokens), &mut curr_pos, &mut vars).unwrap();
    assert_eq!(
        expr,
        Expression::Math(Box::new(Math::And(
            Expression::Float(num(100.0)),
            Expression::Float(num(100.0))
        )))
    );
}

#[test]
fn test_parse_maths_or() {
    let mut vars: Environment = Environment::new();
    let tokens = vec!["OR", "\"100", "\"100"];
    let mut curr_pos = 0;
    let expr = parse_maths(&tokens, &numerals(&tokens), &mut curr_pos, &mut vars).unwrap();
    assert_eq!(
        expr,
        Expression::Math(Box::new(Math::Or(
            Expression::Float(num(100.0)),
            Expression::Float(num(100.0))
        )))
    );
}

#[test]
fn test_parse_maths_invalid_operator() {
    let mut vars: Environment = Environment::new();
    let tokens = vec!["INVALID", "\"100", "\"100"];
    let mut curr_pos = 0;
    let expr = parse_maths(&tokens, &numerals(&tokens), &mut curr_pos, &mut vars);

    assert!(expr.is_err());
}

#[test]
fn test_match_parse() {
    let mut vars: Environment = Environment::new();
    let tokens = vec!["\"100"];
    let expr = match_parse(&tokens, &numerals(&tokens), &mut 0, &mut vars).unwrap();

    assert_eq!(expr, Expression::Float(num(100.0)));
}

#[test]
fn test_match_parse_variable() {
    let mut vars: Environment = Environment::new();
    vars.insert("x".to_string(), Expression::Float(num(100.0)));
    let tokens = vec![":x"];
    let expr = match_parse(&tokens, &numerals(&tokens), &mut 0, &mut vars).unwrap();

    assert_eq!(expr, Expression::Variable("x".to_string()));
}

#[test]
fn test_match_parse_invalid_var() {
    let mut vars: Environment = Environment::new();
    let tokens = vec![":x"];
    let expr = match_parse(&tokens, &numerals(&tokens), &mut 0, &mut vars);

    assert!(expr.is_err());
}

#[test]
fn test_match_parse_maths() {
    let mut vars: Environment = Environment::new();
    let tokens = vec!["+", "\"100", "\"100"];
    let mut curr_pos = 0;
    let expr = match_parse(&tokens, &numerals(&tokens), &mut curr_pos, &mut vars).unwrap();
    assert_eq!(
        expr,
        Expression::Math(Box::new(Math::Add(
            Expression::Float(num(100.0)),
            Expression::Float(num(100.0))
        )))
    );
}

#[test]
fn test_match_parse_query() {
    let mut vars: Environment = Environment::new();
    let tokens = vec!["XCOR"];
    let query = match_parse(&tokens, &numerals(&tokens), &mut 0, &mut vars).unwrap();

    assert_eq!(query, Expression::Query(Query::XCor));
}
