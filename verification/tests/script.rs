use rslogo::environment::Environment;
use rslogo::interpreter::errors::{ExecutionError, ExecutionErrorKind};
use rslogo::interpreter::execute::execute;
use rslogo::interpreter::machine::{Interpreter, Reply, Request};
use rslogo::interpreter::turtle::{Movement, Turtle};
use rslogo::number::Number;
use rslogo::parser::ast::{ASTNode, Command, ControlFlow, Expression, Operator};
use rslogo::parser::errors::{ParseError, ParseErrorKind};
use rslogo::parser::parser::parse_tokens;
use rslogo::parser::tokenise::tokenize_script;
use rslogo::text::trim_start;
use unsvg::{Color, Image};

fn num(v: f32) -> Number {
    Number::from_bits(v.to_bits())
}

fn val(n: Number) -> f32 {
    f32::from_bits(n.to_bits())
}

/// The embedding program's arithmetic.
fn compute(operator: Operator, lhs: Number, rhs: Number) -> Number {
    let (a, b) = (val(lhs), val(rhs));
    num(match operator {
        Operator::Add => a + b,
        Operator::Sub => a - b,
        Operator::Mul => a * b,
        Operator::Div => a / b,
        _ => unreachable!(),
    })
}

/// The embedding program's drawing surface.
fn travel(image: &mut Image, m: Movement) -> (Number, Number) {
    let (x, y) = (val(m.x), val(m.y));
    if m.draw {
        let colour = Color {
            red: m.colour.0,
            green: m.colour.1,
            blue: m.colour.2,
        };
        match image.draw_simple_line(x, y, m.direction, val(m.distance), colour) {
            Ok((x, y)) => (num(x), num(y)),
            Err(e) => panic!("Error drawing line: {:?}", e),
        }
    } else {
        let (x, y) = unsvg::get_end_coordinates(x, y, m.direction, val(m.distance));
        (num(x), num(y))
    }
}

/// Steps the machine to its end, answering what it asks for.
fn drive(machine: &mut Interpreter, image: &mut Image) -> Result<(), ExecutionError> {
    let mut reply = Reply::Nothing;
    loop {
        match machine.step(reply) {
            Request::Continue => reply = Reply::Nothing,
            Request::Finished => return Ok(()),
            Request::Failed(e) => return Err(e),
            Request::Compute { operator, lhs, rhs } => {
                reply = Reply::Number(compute(operator, lhs, rhs))
            }
            Request::Travel(m) => {
                let (x, y) = travel(image, m);
                reply = Reply::Position(x, y)
            }
        }
    }
}

fn machine_for(image: &Image) -> Interpreter {
    let (width, height) = image.get_dimensions();
    Interpreter::new(Turtle::new(width, height), Environment::new())
}

/// For each token, the number that its text after the leading quote marks
/// denotes, if it denotes one.
fn numerals(tokens: &[&str]) -> Vec<Option<Number>> {
    tokens
        .iter()
        .map(|t| trim_start(t, '"').parse::<f32>().ok().map(num))
        .collect()
}

/// What a run of a script left behind.
struct Run {
    machine: Interpreter,
    strokes: Vec<Movement>,
    moves: usize,
    result: Result<(), ExecutionError>,
}

/// Parses a script and runs it on a canvas of 100 by 100.
fn run_script(script: &str) -> Result<Run, ParseError> {
    let mut image = Image::new(100, 100);
    let mut vars = Environment::new();
    let tokens = tokenize_script(script);
    let table = numerals(&tokens);
    let mut pos = 0;
    let ast = parse_tokens(tokens, &table, &mut pos, &mut vars)?;
    let mut machine = machine_for(&image);
    machine.vars = vars;
    execute(&ast, &mut machine);
    let mut strokes = Vec::new();
    let mut moves = 0;
    let mut reply = Reply::Nothing;
    let result = loop {
        match machine.step(reply) {
            Request::Continue => reply = Reply::Nothing,
            Request::Finished => break Ok(()),
            Request::Failed(e) => break Err(e),
            Request::Compute { operator, lhs, rhs } => {
                reply = Reply::Number(compute(operator, lhs, rhs))
            }
            Request::Travel(m) => {
                moves += 1;
                if m.draw {
                    strokes.push(m);
                }
                let (x, y) = travel(&mut image, m);
                reply = Reply::Position(x, y)
            }
        }
    };
    Ok(Run {
        machine,
        strokes,
        moves,
        result,
    })
}

fn bound(run: &Run, name: &str) -> f32 {
    match run.machine.vars.get(name) {
        Some(Expression::Float(v)) => val(*v),
        other => panic!("{} is bound to {:?}", name, other),
    }
}

#[test]
fn a_literal_evaluates_to_the_number_it_denotes() {
    for text in ["100", "0.5", "-3.25", "1e3", "0", "16777217", ".5", "+7", "1e-40", "3.4e38"] {
        let script = format!("MAKE \"v + \"{} \"0", text);
        let run = run_script(&script).unwrap();
        run.result.as_ref().unwrap();
        let expected: f32 = text.parse().unwrap();
        assert_eq!(bound(&run, "v"), expected + 0.0, "{}", text);

        let script = format!("SETX \"{}", text);
        let run = run_script(&script).unwrap();
        assert_eq!(val(run.machine.turtle.x).to_bits(), expected.to_bits());
    }
    let run = run_script("SETX \"100").unwrap();
    assert_eq!(val(run.machine.turtle.x), 100.0);
}

#[test]
fn true_and_false_are_one_and_zero() {
    let run = run_script("SETX \"TRUE SETY \"FALSE").unwrap();
    assert_eq!(val(run.machine.turtle.x), 1.0);
    assert_eq!(val(run.machine.turtle.y), 0.0);
}

#[test]
fn make_five_then_add_five_is_ten() {
    let run = run_script("MAKE \"x \"5\nADDASSIGN \"x \"5").unwrap();
    run.result.as_ref().unwrap();
    assert_eq!(bound(&run, "x"), 10.0);
}

#[test]
fn add_assign_before_make_does_not_parse() {
    let error = run_script("ADDASSIGN \"x \"5").err().unwrap();
    assert_eq!(
        error.kind,
        ParseErrorKind::VariableNotFound {
            var: "x".to_string()
        }
    );
}

#[test]
fn pen_up_moves_without_a_stroke() {
    let run = run_script("FORWARD \"10").unwrap();
    run.result.as_ref().unwrap();
    assert_eq!(run.moves, 1);
    assert_eq!(run.strokes.len(), 0);
    assert_eq!(val(run.machine.turtle.x), 50.0);
    assert_eq!(val(run.machine.turtle.y), 40.0);
}

#[test]
fn pen_down_moves_with_exactly_one_stroke() {
    let run = run_script("PENDOWN\nFORWARD \"10").unwrap();
    run.result.as_ref().unwrap();
    assert_eq!(run.moves, 1);
    assert_eq!(run.strokes.len(), 1);
    assert_eq!(val(run.machine.turtle.x), 50.0);
    assert_eq!(val(run.machine.turtle.y), 40.0);
    assert_eq!(val(run.strokes[0].x), 50.0);
    assert_eq!(val(run.strokes[0].y), 50.0);
    assert_eq!(run.strokes[0].direction, 0);
    assert_eq!(val(run.strokes[0].distance), 10.0);
    assert_eq!(run.strokes[0].colour, (255, 255, 255));
}

#[test]
fn colour_sixteen_is_refused_where_it_is_read() {
    let error = run_script("SETPENCOLOR \"16").err().unwrap();
    assert_eq!(
        error,
        ParseError {
            kind: ParseErrorKind::InvalidSyntax {
                msg: "Colour index must be between 0 and 15 inclusive.".to_string()
            }
        }
    );
}

#[test]
fn colour_sixteen_is_refused_where_it_is_worked_out() {
    let run = run_script("SETPENCOLOR + \"15 \"1").unwrap();
    assert_eq!(
        run.result.unwrap_err().kind,
        ExecutionErrorKind::ColorIndexOutOfRange
    );
    assert_eq!(run.machine.turtle.pen_color, 7);
}

#[test]
fn colour_fifteen_colours_the_strokes_after_it() {
    let run = run_script("SETPENCOLOR \"15 PENDOWN FORWARD \"5 SETPENCOLOR \"4 BACK \"5").unwrap();
    run.result.as_ref().unwrap();
    assert_eq!(run.strokes.len(), 2);
    assert_eq!(run.strokes[0].colour, (128, 128, 128));
    assert_eq!(run.strokes[1].colour, (255, 0, 0));
    assert_eq!(run.machine.turtle.pen_color, 4);
}

#[test]
fn division_by_a_zero_literal_fails() {
    let run = run_script("FORWARD / \"10 \"0").unwrap();
    assert_eq!(
        run.result.unwrap_err().kind,
        ExecutionErrorKind::DivisionByZero
    );
    assert_eq!(run.moves, 0);
}

#[test]
fn a_script_divides_ten_by_two() {
    let run = run_script("MAKE \"q / \"10 \"2").unwrap();
    run.result.as_ref().unwrap();
    assert_eq!(bound(&run, "q"), 5.0);
}

#[test]
fn a_while_counts_to_three() {
    let script = "MAKE \"counter \"0\nWHILE LT :counter \"3 [ FORWARD \"10 ADDASSIGN \"counter \"1 ]";
    let run = run_script(script).unwrap();
    run.result.as_ref().unwrap();
    assert_eq!(run.moves, 3);
    assert_eq!(bound(&run, "counter"), 3.0);
    assert_eq!(val(run.machine.turtle.y), 20.0);
}

#[test]
fn a_while_that_starts_false_does_nothing() {
    let script = "MAKE \"counter \"3\nWHILE LT :counter \"3 [ FORWARD \"10 ADDASSIGN \"counter \"1 ]";
    let run = run_script(script).unwrap();
    run.result.as_ref().unwrap();
    assert_eq!(run.moves, 0);
    assert_eq!(bound(&run, "counter"), 3.0);
    assert_eq!(val(run.machine.turtle.y), 50.0);
}

#[test]
fn a_turn_by_370_leaves_the_heading_at_370() {
    let run = run_script("TURN \"370\nMAKE \"h HEADING\nMAKE \"f + HEADING \"0").unwrap();
    run.result.as_ref().unwrap();
    assert_eq!(run.machine.turtle.heading, 370);
    assert_eq!(run.machine.vars.get("h").unwrap(), &Expression::Number(370));
    assert_eq!(bound(&run, "f"), 370.0);
}

#[test]
fn an_if_inside_a_while_gives_the_cursor_back() {
    let script = "MAKE \"i \"0
WHILE LT :i \"2 [
    IF EQ :i \"1 [ PENDOWN ]
    ADDASSIGN \"i \"1
]
FORWARD \"10
PENUP";
    let mut vars = Environment::new();
    let tokens = tokenize_script(script);
    let count = tokens.len();
    let table = numerals(&tokens);
    let mut pos = 0;
    let ast = parse_tokens(tokens, &table, &mut pos, &mut vars).unwrap();
    assert_eq!(pos, count);
    assert_eq!(ast.len(), 4);
    match &ast[1] {
        ASTNode::ControlFlow(ControlFlow::While { block, .. }) => {
            assert_eq!(block.len(), 2);
            assert!(matches!(
                &block[0],
                ASTNode::ControlFlow(ControlFlow::If { block, .. }) if block.len() == 1
            ));
            assert!(matches!(
                &block[1],
                ASTNode::Command(Command::AddAssign(_, _))
            ));
        }
        other => panic!("{:?}", other),
    }
    assert_eq!(
        ast[2],
        ASTNode::Command(Command::Forward(Expression::Float(num(10.0))))
    );
    assert_eq!(ast[3], ASTNode::Command(Command::PenUp));

    let run = run_script(script).unwrap();
    run.result.as_ref().unwrap();
    assert_eq!(run.moves, 1);
    assert_eq!(run.strokes.len(), 1);
    assert!(!run.machine.turtle.pen_down);
    assert_eq!(bound(&run, "i"), 2.0);
}

#[test]
fn a_square_comes_back_to_its_start() {
    let script = "PENDOWN
MAKE \"side \"20
MAKE \"n \"0
WHILE LT :n \"4 [
    FORWARD :side
    TURN \"90
    ADDASSIGN \"n \"1
]";
    let run = run_script(script).unwrap();
    run.result.as_ref().unwrap();
    assert_eq!(run.strokes.len(), 4);
    assert_eq!(run.machine.turtle.heading, 360);
    assert_eq!(val(run.machine.turtle.x), 50.0);
    assert_eq!(val(run.machine.turtle.y), 50.0);
    let directions: Vec<i32> = run.strokes.iter().map(|m| m.direction).collect();
    assert_eq!(directions, vec![0, 90, 180, 270]);
}

#[test]
fn queries_read_the_turtle_as_it_is() {
    let script = "SETX \"12.5 SETY \"7 TURN \"45 SETPENCOLOR \"3
MAKE \"sum + XCOR + YCOR + HEADING COLOR";
    let run = run_script(script).unwrap();
    run.result.as_ref().unwrap();
    assert_eq!(bound(&run, "sum"), 12.5 + 7.0 + 45.0 + 3.0);
}

#[test]
fn a_bare_condition_is_held_against_one() {
    let script = "MAKE \"go \"TRUE IF :go [ PENDOWN ] IF \"2 [ PENUP ] IF \"FALSE [ SETX \"0 ]";
    let run = run_script(script).unwrap();
    run.result.as_ref().unwrap();
    assert!(run.machine.turtle.pen_down);
    assert_eq!(val(run.machine.turtle.x), 50.0);
}

#[test]
fn a_variable_declared_in_a_skipped_block_reads_as_it_was_parsed() {
    let script = "IF \"FALSE [ MAKE \"x + \"2 \"3 ] SETX :x";
    let run = run_script(script).unwrap();
    run.result.as_ref().unwrap();
    assert_eq!(val(run.machine.turtle.x), 5.0);
}

#[test]
fn an_empty_script_finishes_at_once() {
    let run = run_script("// nothing to do\n\n").unwrap();
    run.result.as_ref().unwrap();
    assert_eq!(run.moves, 0);
    assert!(run.machine.is_finished());
}
