use rslogo::environment::Environment;
use rslogo::interpreter::errors::{ExecutionError, ExecutionErrorKind};
use rslogo::interpreter::execute::execute;
use rslogo::interpreter::machine::{Interpreter, Reply, Request};
use rslogo::interpreter::turtle::{Movement, Turtle};
use rslogo::number::Number;
use rslogo::parser::ast::{
    ASTNode, Command, Condition, ControlFlow, Expression, Math, Operator, Query,
};
use unsvg::{Color, Image};

fn num(v: f32) -> Number {
    Number::from_bits(v.to_bits())
}

fn val(n: Number) -> f32 {
    f32::from_bits(n.to_bits())
}

/// The embedding program's arithmetic.
fn compute(operator: Operator, lhs: Number, rhs: Number) -> Number {
    let (a, b) = (val(lhs), val(rhs));
    num(match operator {
        Operator::Add => a + b,
        Operator::Sub => a - b,
        Operator::Mul => a * b,
        Operator::Div => a / b,
        _ => unreachable!(),
    })
}

/// The embedding program's drawing surface.
fn travel(image: &mut Image, m: Movement) -> (Number, Number) {
    let (x, y) = (val(m.x), val(m.y));
    if m.draw {
        let colour = Color {
            red: m.colour.0,
            green: m.colour.1,
            blue: m.colour.2,
        };
        match image.draw_simple_line(x, y, m.direction, val(m.distance), colour) {
            Ok((x, y)) => (num(x), num(y)),
            Err(e) => panic!("Error drawing line: {:?}", e),
        }
    } else {
        let (x, y) = unsvg::get_end_coordinates(x, y, m.direction, val(m.distance));
        (num(x), num(y))
    }
}

/// Steps the machine to its end, answering what it asks for.
fn drive(machine: &mut Interpreter, image: &mut Image) -> Result<(), ExecutionError> {
    let mut reply = Reply::Nothing;
    loop {
        match machine.step(reply) {
            Request::Continue => reply = Reply::Nothing,
            Request::Finished => return Ok(()),
            Request::Failed(e) => return Err(e),
            Request::Compute { operator, lhs, rhs } => {
                reply = Reply::Number(compute(operator, lhs, rhs))
            }
            Request::Travel(m) => {
                let (x, y) = travel(image, m);
                reply = Reply::Position(x, y)
            }
        }
    }
}

fn machine_for(image: &Image) -> Interpreter {
    let (width, height) = image.get_dimensions();
    Interpreter::new(Turtle::new(width, height), Environment::new())
}

/// Runs a script to its end.
fn run(
    ast: &Vec<ASTNode>,
    machine: &mut Interpreter,
    image: &mut Image,
) -> Result<(), ExecutionError> {
    execute(ast, machine);
    drive(machine, image)
}

#[test]
fn test_execute_pen_down() {
    let mut image = Image::new(100, 100);
    let mut machine = machine_for(&image);

    let ast = vec![ASTNode::Command(Command::PenDown)];

    run(&ast, &mut machine, &mut image).unwrap();

    assert!(machine.turtle.pen_down);
}

#[test]
fn test_execute_pen_up() {
    let mut image = Image::new(100, 100);
    let mut machine = machine_for(&image);

    let ast = vec![
        ASTNode::Command(Command::PenDown),
        ASTNode::Command(Command::PenUp),
    ];

    run(&ast, &mut machine, &mut image).unwrap();

    assert!(!machine.turtle.pen_down);
}

#[test]
fn test_execute_forward() {
    let mut image = Image::new(100, 100);
    let mut machine = machine_for(&image);

    let ast = vec![ASTNode::Command(Command::Forward(Expression::Float(num(
        30.0,
    ))))];

    run(&ast, &mut machine, &mut image).unwrap();

    assert_eq!(val(machine.turtle.y), 20.0);
}

#[test]
fn test_execute_back() {
    let mut image = Image::new(100, 100);
    let mut machine = machine_for(&image);

    let ast = vec![ASTNode::Command(Command::Back(Expression::Float(num(30.0))))];

    run(&ast, &mut machine, &mut image).unwrap();

    assert_eq!(val(machine.turtle.y), 80.0);
}

#[test]
fn test_execute_left() {
    let mut image = Image::new(100, 100);
    let mut machine = machine_for(&image);

    let ast = vec![ASTNode::Command(Command::Left(Expression::Float(num(30.0))))];

    run(&ast, &mut machine, &mut image).unwrap();

    assert_eq!(val(machine.turtle.x), 20.0);
}

#[test]
fn test_execute_right() {
    let mut image = Image::new(100, 100);
    let mut machine = machine_for(&image);

    let ast = vec![ASTNode::Command(Command::Right(Expression::Float(num(
        30.0,
    ))))];

    run(&ast, &mut machine, &mut image).unwrap();

    assert_eq!(val(machine.turtle.x), 80.0);
}

#[test]
fn test_execute_set_pen_color() {
    let mut image = Image::new(100, 100);
    let mut machine = machine_for(&image);

    let ast = vec![ASTNode::Command(Command::SetPenColor(Expression::Usize(1)))];

    run(&ast, &mut machine, &mut image).unwrap();

    assert_eq!(machine.turtle.pen_color, 1);
}

#[test]
fn test_execute_turn() {
    let mut image = Image::new(100, 100);
    let mut machine = machine_for(&image);

    let ast = vec![ASTNode::Command(Command::Turn(Expression::Number(30)))];

    run(&ast, &mut machine, &mut image).unwrap();

    assert_eq!(machine.turtle.heading, 30);
}

#[test]
fn test_execute_set_heading() {
    let mut image = Image::new(100, 100);
    let mut machine = machine_for(&image);

    let ast = vec![ASTNode::Command(Command::SetHeading(Expression::Number(
        30,
    )))];

    run(&ast, &mut machine, &mut image).unwrap();

    assert_eq!(machine.turtle.heading, 30);
}

#[test]
fn test_execute_set_x() {
    let mut image = Image::new(100, 100);
    let mut machine = machine_for(&image);

    machine.turtle.set_y(num(50.0));

    let ast = vec![ASTNode::Command(Command::SetX(Expression::Float(num(30.0))))];

    run(&ast, &mut machine, &mut image).unwrap();

    assert_eq!(val(machine.turtle.x), 30.0);
}

#[test]
fn test_execute_set_y() {
    let mut image = Image::new(100, 100);
    let mut machine = machine_for(&image);

    machine.turtle.set_x(num(50.0));

    let ast = vec![ASTNode::Command(Command::SetY(Expression::Float(num(30.0))))];

    run(&ast, &mut machine, &mut image).unwrap();

    assert_eq!(val(machine.turtle.y), 30.0);
}

#[test]
fn test_execute_make_queries() {
    let mut image = Image::new(100, 100);
    let mut machine = machine_for(&image);

    let ast = vec![
        ASTNode::Command(Command::Make(
            "x".to_string(),
            Expression::Query(Query::XCor),
        )),
        ASTNode::Command(Command::Make(
            "y".to_string(),
            Expression::Query(Query::YCor),
        )),
        ASTNode::Command(Command::Make(
            "heading".to_string(),
            Expression::Query(Query::Heading),
        )),
        ASTNode::Command(Command::Make(
            "color".to_string(),
            Expression::Query(Query::Color),
        )),
    ];

    run(&ast, &mut machine, &mut image).unwrap();

    let vars = &machine.vars;
    assert_eq!(vars.get("x").unwrap(), &Expression::Float(num(50.0)));
    assert_eq!(vars.get("y").unwrap(), &Expression::Float(num(50.0)));
    assert_eq!(vars.get("heading").unwrap(), &Expression::Number(0));
    assert_eq!(vars.get("color").unwrap(), &Expression::Usize(7));
}

#[test]
fn test_execute_make_other() {
    let mut image = Image::new(100, 100);
    let mut machine = machine_for(&image);

    let ast = vec![
        ASTNode::Command(Command::Make(
            "float".to_string(),
            Expression::Float(num(30.0)),
        )),
        ASTNode::Command(Command::Make("number".to_string(), Expression::Number(30))),
        ASTNode::Command(Command::Make("usize".to_string(), Expression::Usize(1))),
        ASTNode::Command(Command::Make(
            "math".to_string(),
            Expression::Math(Box::new(Math::Add(
                Expression::Float(num(10.0)),
                Expression::Float(num(10.0)),
            ))),
        )),
    ];

    run(&ast, &mut machine, &mut image).unwrap();

    let vars = &machine.vars;
    assert_eq!(vars.get("float").unwrap(), &Expression::Float(num(30.0)));
    assert_eq!(vars.get("number").unwrap(), &Expression::Number(30));
    assert_eq!(vars.get("usize").unwrap(), &Expression::Usize(1));
    assert_eq!(vars.get("math").unwrap(), &Expression::Float(num(20.0)));
}

#[test]
fn test_execute_make_err() {
    // The one case with an error is a variable that nothing has bound.
    let mut image = Image::new(100, 100);
    let mut machine = machine_for(&image);

    let ast = vec![ASTNode::Command(Command::Make(
        "x".to_string(),
        Expression::Variable("y".to_string()),
    ))];

    let result = run(&ast, &mut machine, &mut image);

    assert!(result.is_err());
}

#[test]
fn test_execute_add_assign() {
    let mut image = Image::new(100, 100);
    let mut machine = machine_for(&image);
    machine
        .vars
        .insert("x".to_string(), Expression::Float(num(10.0)));

    let ast = vec![ASTNode::Command(Command::AddAssign(
        "x".to_string(),
        Expression::Float(num(10.0)),
    ))];

    run(&ast, &mut machine, &mut image).unwrap();

    assert_eq!(
        machine.vars.get("x").unwrap(),
        &Expression::Float(num(20.0))
    );
}

#[test]
fn test_execute_add_assign_err() {
    let mut image = Image::new(100, 100);
    let mut machine = machine_for(&image);

    let ast = vec![ASTNode::Command(Command::AddAssign(
        "x".to_string(),
        Expression::Float(num(10.0)),
    ))];

    let result = run(&ast, &mut machine, &mut image);

    assert!(result.is_err());
}

#[test]
fn test_execute_if() {
    let mut image = Image::new(100, 100);
    let mut machine = machine_for(&image);
    machine
        .vars
        .insert("x".to_string(), Expression::Float(num(10.0)));

    let ast = vec![ASTNode::ControlFlow(ControlFlow::If {
        condition: Condition::Equals(
            Expression::Float(num(10.0)),
            Expression::Math(Box::new(Math::Add(
                Expression::Float(num(5.0)),
                Expression::Float(num(5.0)),
            ))),
        ),
        block: vec![ASTNode::Command(Command::AddAssign(
            "x".to_string(),
            Expression::Float(num(10.0)),
        ))],
    })];

    run(&ast, &mut machine, &mut image).unwrap();

    assert_eq!(
        machine.vars.get("x").unwrap(),
        &Expression::Float(num(20.0))
    );
}

#[test]
fn test_execute_while() {
    let mut image = Image::new(100, 100);
    let mut machine = machine_for(&image);
    machine
        .vars
        .insert("x".to_string(), Expression::Float(num(10.0)));

    let ast = vec![ASTNode::ControlFlow(ControlFlow::While {
        condition: Condition::LessThan(
            Expression::Variable("x".to_string()),
            Expression::Float(num(20.0)),
        ),
        block: vec![ASTNode::Command(Command::AddAssign(
            "x".to_string(),
            Expression::Float(num(1.0)),
        ))],
    })];

    run(&ast, &mut machine, &mut image).unwrap();

    assert_eq!(
        machine.vars.get("x").unwrap(),
        &Expression::Float(num(20.0))
    );
}

#[test]
fn make_of_a_bound_variable_binds_its_value() {
    let mut image = Image::new(100, 100);
    let mut machine = machine_for(&image);
    machine
        .vars
        .insert("y".to_string(), Expression::Number(4));

    let ast = vec![ASTNode::Command(Command::Make(
        "x".to_string(),
        Expression::Variable("y".to_string()),
    ))];

    run(&ast, &mut machine, &mut image).unwrap();

    assert_eq!(machine.vars.get("x").unwrap(), &Expression::Float(num(4.0)));
}

#[test]
fn add_assign_on_an_unbound_name_is_variable_not_found() {
    let mut image = Image::new(100, 100);
    let mut machine = machine_for(&image);

    let ast = vec![ASTNode::Command(Command::AddAssign(
        "x".to_string(),
        Expression::Float(num(10.0)),
    ))];

    let error = run(&ast, &mut machine, &mut image).unwrap_err();
    assert_eq!(
        error.kind,
        ExecutionErrorKind::VariableNotFound {
            var: "x".to_string()
        }
    );
}

#[test]
fn add_assign_takes_an_integer_binding_as_a_number() {
    let mut image = Image::new(100, 100);
    let mut machine = machine_for(&image);
    machine.vars.insert("h".to_string(), Expression::Number(90));

    let ast = vec![ASTNode::Command(Command::AddAssign(
        "h".to_string(),
        Expression::Float(num(0.5)),
    ))];

    run(&ast, &mut machine, &mut image).unwrap();

    assert_eq!(machine.vars.get("h").unwrap(), &Expression::Float(num(90.5)));
}

#[test]
fn a_colour_outside_the_palette_fails() {
    for bad in [16.0f32, 100.0, f32::INFINITY] {
        let mut image = Image::new(100, 100);
        let mut machine = machine_for(&image);
        let ast = vec![ASTNode::Command(Command::SetPenColor(Expression::Float(
            num(bad),
        )))];
        let error = run(&ast, &mut machine, &mut image).unwrap_err();
        assert_eq!(error.kind, ExecutionErrorKind::ColorIndexOutOfRange);
        assert_eq!(machine.turtle.pen_color, 7);
    }
}

#[test]
fn a_colour_from_a_variable_is_checked_too() {
    let mut image = Image::new(100, 100);
    let mut machine = machine_for(&image);
    machine
        .vars
        .insert("c".to_string(), Expression::Float(num(16.0)));
    let ast = vec![ASTNode::Command(Command::SetPenColor(
        Expression::Variable("c".to_string()),
    ))];
    let error = run(&ast, &mut machine, &mut image).unwrap_err();
    assert_eq!(error.kind, ExecutionErrorKind::ColorIndexOutOfRange);
}

#[test]
fn colour_fifteen_is_used_by_the_next_stroke() {
    let mut image = Image::new(100, 100);
    let mut machine = machine_for(&image);
    let ast = vec![
        ASTNode::Command(Command::SetPenColor(Expression::Float(num(15.0)))),
        ASTNode::Command(Command::PenDown),
        ASTNode::Command(Command::Forward(Expression::Float(num(10.0)))),
    ];
    execute(&ast, &mut machine);
    let mut reply = Reply::Nothing;
    let mut strokes = Vec::new();
    loop {
        match machine.step(reply) {
            Request::Continue => reply = Reply::Nothing,
            Request::Finished => break,
            Request::Travel(m) => {
                strokes.push(m);
                let (x, y) = travel(&mut image, m);
                reply = Reply::Position(x, y);
            }
            other => panic!("unexpected request {:?}", other),
        }
    }
    assert_eq!(machine.turtle.pen_color, 15);
    assert_eq!(strokes.len(), 1);
    assert!(strokes[0].draw);
    assert_eq!(strokes[0].colour, (128, 128, 128));
    let grey = unsvg::COLORS[15];
    assert_eq!((grey.red, grey.green, grey.blue), strokes[0].colour);
}

#[test]
fn the_heading_is_never_normalised() {
    let mut image = Image::new(100, 100);
    let mut machine = machine_for(&image);
    let ast = vec![
        ASTNode::Command(Command::Turn(Expression::Float(num(370.0)))),
        ASTNode::Command(Command::Make(
            "h".to_string(),
            Expression::Math(Box::new(Math::Add(
                Expression::Query(Query::Heading),
                Expression::Float(num(0.0)),
            ))),
        )),
    ];
    run(&ast, &mut machine, &mut image).unwrap();
    assert_eq!(machine.turtle.heading, 370);
    assert_eq!(machine.vars.get("h").unwrap(), &Expression::Float(num(370.0)));
}

#[test]
fn a_turn_rounds_toward_zero() {
    let mut image = Image::new(100, 100);
    let mut machine = machine_for(&image);
    let ast = vec![
        ASTNode::Command(Command::Turn(Expression::Float(num(89.9)))),
        ASTNode::Command(Command::Turn(Expression::Float(num(-0.9)))),
        ASTNode::Command(Command::Turn(Expression::Float(num(-10.5)))),
    ];
    run(&ast, &mut machine, &mut image).unwrap();
    assert_eq!(machine.turtle.heading, 79);
}

#[test]
fn a_turn_past_the_range_fails() {
    let mut image = Image::new(100, 100);
    let mut machine = machine_for(&image);
    let ast = vec![
        ASTNode::Command(Command::Turn(Expression::Float(num(3.0e9)))),
        ASTNode::Command(Command::Turn(Expression::Float(num(1.0)))),
    ];
    let error = run(&ast, &mut machine, &mut image).unwrap_err();
    assert_eq!(error.kind, ExecutionErrorKind::HeadingOutOfRange);
    assert_eq!(machine.turtle.heading, i32::MAX);
}

#[test]
fn setting_a_coordinate_draws_nothing() {
    let mut image = Image::new(100, 100);
    let mut machine = machine_for(&image);
    let ast = vec![
        ASTNode::Command(Command::PenDown),
        ASTNode::Command(Command::SetX(Expression::Float(num(3.0)))),
        ASTNode::Command(Command::SetY(Expression::Float(num(4.0)))),
    ];
    execute(&ast, &mut machine);
    loop {
        match machine.step(Reply::Nothing) {
            Request::Continue => {}
            Request::Finished => break,
            other => panic!("unexpected request {:?}", other),
        }
    }
    assert_eq!(val(machine.turtle.x), 3.0);
    assert_eq!(val(machine.turtle.y), 4.0);
}

#[test]
fn a_failure_stops_the_script() {
    let mut image = Image::new(100, 100);
    let mut machine = machine_for(&image);
    let ast = vec![
        ASTNode::Command(Command::PenDown),
        ASTNode::Command(Command::Forward(Expression::Variable("nope".to_string()))),
        ASTNode::Command(Command::PenUp),
    ];
    let error = run(&ast, &mut machine, &mut image).unwrap_err();
    assert_eq!(
        error.kind,
        ExecutionErrorKind::VariableNotFound {
            var: "nope".to_string()
        }
    );
    assert!(machine.turtle.pen_down);
}

#[test]
fn a_wrong_reply_is_a_type_error() {
    let image = Image::new(100, 100);
    let mut machine = machine_for(&image);
    let ast = vec![ASTNode::Command(Command::Forward(Expression::Float(num(
        1.0,
    ))))];
    execute(&ast, &mut machine);
    assert_eq!(machine.step(Reply::Nothing), Request::Continue);
    assert_eq!(machine.step(Reply::Nothing), Request::Continue);
    assert!(matches!(machine.step(Reply::Nothing), Request::Travel(_)));
    assert_eq!(
        machine.step(Reply::Number(num(1.0))),
        Request::Failed(ExecutionError::type_error("position"))
    );
}

#[test]
fn run_stops_at_the_budget_and_at_a_request() {
    let image = Image::new(100, 100);
    let mut machine = machine_for(&image);
    let ast = vec![
        ASTNode::Command(Command::PenDown),
        ASTNode::Command(Command::PenUp),
        ASTNode::Command(Command::Forward(Expression::Float(num(1.0)))),
    ];
    execute(&ast, &mut machine);
    assert_eq!(machine.run(Reply::Nothing, 1), Request::Continue);
    assert!(machine.turtle.pen_down);
    assert!(matches!(
        machine.run(Reply::Nothing, 1000),
        Request::Travel(_)
    ));
    assert!(!machine.turtle.pen_down);
    assert_eq!(
        machine.run(Reply::Position(num(1.0), num(2.0)), 1000),
        Request::Finished
    );
    assert_eq!(val(machine.turtle.x), 1.0);
    assert_eq!(val(machine.turtle.y), 2.0);
    assert!(machine.is_finished());
}

#[test]
fn an_endless_loop_keeps_asking_for_steps() {
    let image = Image::new(100, 100);
    let mut machine = machine_for(&image);
    let ast = vec![ASTNode::ControlFlow(ControlFlow::While {
        condition: Condition::Equals(Expression::Float(num(1.0)), Expression::Float(num(1.0))),
        block: vec![ASTNode::Command(Command::PenDown)],
    })];
    execute(&ast, &mut machine);
    assert_eq!(machine.run(Reply::Nothing, 10_000), Request::Continue);
    assert!(!machine.is_finished());
    assert!(machine.tasks.len() < 10);
}
