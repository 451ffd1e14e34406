//! The steps that run statements, and the step of the machine as a whole.

use vstd::prelude::*;
use vstd::string::*;
use crate::interpreter::control_flows::{
    branch,
    branched,
    conditional,
    eval_exec_if,
    eval_exec_while,
    looping,
    repeat,
    repeated,
};
use crate::interpreter::errors::{ExecutionError, ExecutionErrorView};
use crate::interpreter::machine::{
    Interpreter,
    Reply,
    Request,
    RequestView,
    State,
    Task,
    TaskView,
    Transition,
    schedule,
    wanted_number,
    wanted_position,
};
use crate::interpreter::matches::{
    application,
    apply,
    evaluation,
    guard,
    guarded,
    match_expressions,
    number_taken,
    take_number,
};
use crate::interpreter::turtle::{Movement, Turtle, outcome};
use crate::number::Number;
use crate::parser::ast::{
    ASTNode,
    Action,
    Command,
    CommandView,
    ControlFlow,
    Expression,
    ExpressionView,
    NodeView,
    Operator,
    Query,
    block_view,
    copy_block,
};

verus! {

/// What a `MAKE` binds for a query: the turtle's coordinate as a number,
/// its heading as an integer, its colour as an index.
pub open spec fn snapshot(turtle: Turtle, query: Query) -> ExpressionView {
    match query {
        Query::XCor => ExpressionView::Float(turtle.x),
        Query::YCor => ExpressionView::Float(turtle.y),
        Query::Heading => ExpressionView::Number(turtle.heading),
        Query::Color => ExpressionView::Usize(turtle.pen_color),
    }
}

/// The step for a `MAKE`: a query binds the turtle's value as it is now, a
/// literal binds itself, and anything else is worked out first and bound
/// as a number.
pub open spec fn made(s: State, name: Seq<char>, e: ExpressionView) -> Transition {
    match e {
        ExpressionView::Query(q) => s.bind(name, snapshot(s.turtle, q)).proceed(),
        ExpressionView::Float(v) => s.bind(name, e).proceed(),
        ExpressionView::Number(n) => s.bind(name, e).proceed(),
        ExpressionView::Usize(n) => s.bind(name, e).proceed(),
        _ => s.push_task(TaskView::Store(name)).push_task(TaskView::Evaluate(e)).proceed(),
    }
}

/// The step for a command.
pub open spec fn commanded(s: State, c: CommandView) -> Transition {
    match c {
        CommandView::PenUp => s.with_turtle(Turtle { pen_down: false, ..s.turtle }).proceed(),
        CommandView::PenDown => s.with_turtle(Turtle { pen_down: true, ..s.turtle }).proceed(),
        CommandView::Act(action, e) => s.push_task(TaskView::Perform(action)).push_task(
            TaskView::Evaluate(e),
        ).proceed(),
        CommandView::Make(name, e) => made(s, name, e),
        CommandView::AddAssign(name, e) => s.push_task(TaskView::Increase(name)).push_task(
            TaskView::Evaluate(e),
        ).proceed(),
    }
}

/// The step for a statement.
pub open spec fn stated(s: State, node: NodeView) -> Transition {
    match node {
        NodeView::Command(c) => commanded(s, c),
        NodeView::If(c, block) => conditional(s, c, block),
        NodeView::While(c, block) => looping(s, c, block),
    }
}

pub open spec fn is_movement(action: Action) -> bool {
    action == Action::Forward || action == Action::Back || action == Action::Left || action
        == Action::Right
}

/// The step that gives a command its operand, the value on top. A
/// movement asks the drawing surface where it ends; a turn adds to the
/// heading and a heading replaces it, both rounded toward zero and neither
/// normalised; a coordinate is set without drawing; a colour outside
/// 0..=15 fails.
pub open spec fn performed(s: State, action: Action) -> Transition {
    if s.values.len() < 1 {
        s.fail(wanted_number())
    } else {
        let v = s.values.last();
        let p = s.pop_value();
        match action {
            Action::Turn => {
                let sum = p.turtle.heading + v.as_i32();
                if i32::MIN <= sum <= i32::MAX {
                    p.with_turtle(Turtle { heading: sum as i32, ..p.turtle }).proceed()
                } else {
                    p.fail(ExecutionErrorView::HeadingOutOfRange)
                }
            },
            Action::SetHeading => p.with_turtle(
                Turtle { heading: v.as_i32() as i32, ..p.turtle },
            ).proceed(),
            Action::SetX => p.with_turtle(Turtle { x: v, ..p.turtle }).proceed(),
            Action::SetY => p.with_turtle(Turtle { y: v, ..p.turtle }).proceed(),
            Action::SetPenColor => if v.as_usize() <= 15 {
                p.with_turtle(Turtle { pen_color: v.as_usize() as usize, ..p.turtle }).proceed()
            } else {
                p.fail(ExecutionErrorView::ColorIndexOutOfRange)
            },
            _ => match p.turtle.plan(action, v) {
                Ok(m) => p.ask(RequestView::Travel(m), TaskView::AwaitPosition),
                Err(e) => p.fail(e),
            },
        }
    }
}

/// The step that takes the end point of a movement: the turtle is there.
pub open spec fn position_taken(s: State, reply: Reply) -> Transition {
    match reply {
        Reply::Position(x, y) => s.with_turtle(Turtle { x, y, ..s.turtle }).proceed(),
        _ => s.fail(wanted_position()),
    }
}

/// The step that binds the value on top to a name.
pub open spec fn stored(s: State, name: Seq<char>) -> Transition {
    if s.values.len() < 1 {
        s.fail(wanted_number())
    } else {
        s.pop_value().bind(name, ExpressionView::Float(s.values.last())).proceed()
    }
}

/// The number that a name is bound to, where it is bound to a literal.
pub open spec fn current(vars: Map<Seq<char>, ExpressionView>, name: Seq<char>) -> Option<Number> {
    if !vars.dom().contains(name) {
        None
    } else {
        match vars[name] {
            ExpressionView::Float(v) => Some(v),
            ExpressionView::Number(n) => Some(Number::of_int(n as int)),
            ExpressionView::Usize(n) => Some(Number::of_int(n as int)),
            _ => None,
        }
    }
}

/// The step that adds the value on top to a variable: it asks for the sum
/// of the variable's number and the value, to be bound to the name. A name
/// bound to no number is not found.
pub open spec fn increased(s: State, name: Seq<char>) -> Transition {
    if s.values.len() < 1 {
        s.fail(wanted_number())
    } else {
        let p = s.pop_value();
        match current(p.vars, name) {
            Some(c) => p.push_task(TaskView::Store(name)).ask(
                RequestView::Compute { operator: Operator::Add, lhs: c, rhs: s.values.last() },
                TaskView::AwaitNumber,
            ),
            None => p.fail(ExecutionErrorView::VariableNotFound(name)),
        }
    }
}

/// One step of the machine: with no task left the script has finished;
/// else the top task is taken off and carried out.
pub open spec fn step_of(s: State, reply: Reply) -> Transition {
    if s.tasks.len() == 0 {
        Transition { next: s, request: RequestView::Finished }
    } else {
        let rest = s.pop_task();
        match s.tasks.last() {
            TaskView::Run(node) => stated(rest, node),
            TaskView::Evaluate(e) => evaluation(rest, e),
            TaskView::Apply(op) => application(rest, op),
            TaskView::Guard => guarded(rest),
            TaskView::Perform(action) => performed(rest, action),
            TaskView::Store(name) => stored(rest, name),
            TaskView::Increase(name) => increased(rest, name),
            TaskView::Branch(block) => branched(rest, block),
            TaskView::Repeat(c, block) => repeated(rest, c, block),
            TaskView::AwaitNumber => number_taken(rest, reply),
            TaskView::AwaitPosition => position_taken(rest, reply),
        }
    }
}

/// Up to `budget` steps: the first takes `reply`, and the steps go on while
/// they ask for nothing.
pub open spec fn run_of(s: State, reply: Reply, budget: nat) -> Transition
    decreases budget,
{
    if budget == 0 {
        s.proceed()
    } else {
        let t = step_of(s, reply);
        if t.request == RequestView::Continue {
            run_of(t.next, Reply::Nothing, (budget - 1) as nat)
        } else {
            t
        }
    }
}

/// Puts the statements of a script on the tasks, the first on top.
pub fn execute(ast: &Vec<ASTNode>, machine: &mut Interpreter)
    ensures
        final(machine)@ == old(machine)@.push_tasks(schedule(block_view(ast@))),
{
    machine.push_block(copy_block(ast));
}

/// Takes one step on a `MAKE`.
fn make(name: String, value: Expression, machine: &mut Interpreter) -> (r: Request)
    ensures
        (Transition { next: final(machine)@, request: r@ }) == made(
            old(machine)@,
            name@,
            value@,
        ),
{
    match value {
        Expression::Query(q) => {
            let bound = match q {
                Query::XCor => Expression::Float(machine.turtle.x),
                Query::YCor => Expression::Float(machine.turtle.y),
                Query::Heading => Expression::Number(machine.turtle.heading),
                Query::Color => Expression::Usize(machine.turtle.pen_color),
            };
            machine.vars.insert(name, bound);
        },
        Expression::Float(v) => {
            machine.vars.insert(name, Expression::Float(v));
        },
        Expression::Number(n) => {
            machine.vars.insert(name, Expression::Number(n));
        },
        Expression::Usize(n) => {
            machine.vars.insert(name, Expression::Usize(n));
        },
        other => {
            machine.push_task(Task::Store(name));
            machine.push_task(Task::Evaluate(other));
        },
    }
    Request::Continue
}

/// Takes one step on a command.
fn command(c: Command, machine: &mut Interpreter) -> (r: Request)
    ensures
        (Transition { next: final(machine)@, request: r@ }) == commanded(old(machine)@, c@),
{
    match c {
        Command::PenUp => {
            machine.turtle.pen_up();
            Request::Continue
        },
        Command::PenDown => {
            machine.turtle.pen_down();
            Request::Continue
        },
        Command::Make(name, e) => make(name, e, machine),
        Command::AddAssign(name, e) => {
            machine.push_task(Task::Increase(name));
            machine.push_task(Task::Evaluate(e));
            Request::Continue
        },
        Command::Forward(e) => act(Action::Forward, e, machine),
        Command::Back(e) => act(Action::Back, e, machine),
        Command::Left(e) => act(Action::Left, e, machine),
        Command::Right(e) => act(Action::Right, e, machine),
        Command::SetPenColor(e) => act(Action::SetPenColor, e, machine),
        Command::Turn(e) => act(Action::Turn, e, machine),
        Command::SetHeading(e) => act(Action::SetHeading, e, machine),
        Command::SetX(e) => act(Action::SetX, e, machine),
        Command::SetY(e) => act(Action::SetY, e, machine),
    }
}

/// Puts a one-operand command on the tasks, behind its operand.
fn act(action: Action, operand: Expression, machine: &mut Interpreter) -> (r: Request)
    ensures
        (Transition { next: final(machine)@, request: r@ }) == old(machine)@.push_task(
            TaskView::Perform(action),
        ).push_task(TaskView::Evaluate(operand@)).proceed(),
{
    machine.push_task(Task::Perform(action));
    machine.push_task(Task::Evaluate(operand));
    Request::Continue
}

/// Takes one step on a statement.
fn statement(node: ASTNode, machine: &mut Interpreter) -> (r: Request)
    ensures
        (Transition { next: final(machine)@, request: r@ }) == stated(old(machine)@, node@),
{
    match node {
        ASTNode::Command(c) => command(c, machine),
        ASTNode::ControlFlow(ControlFlow::If { condition, block }) => eval_exec_if(
            condition,
            block,
            machine,
        ),
        ASTNode::ControlFlow(ControlFlow::While { condition, block }) => eval_exec_while(
            condition,
            block,
            machine,
        ),
    }
}

/// Gives a command its operand, the value on top.
fn perform(action: Action, machine: &mut Interpreter) -> (r: Request)
    ensures
        (Transition { next: final(machine)@, request: r@ }) == performed(old(machine)@, action),
{
    let v = match machine.pop_value() {
        Some(v) => v,
        None => {
            return Request::Failed(ExecutionError::type_error("number"));
        },
    };
    match action {
        Action::Turn => match machine.turtle.turn(v.to_i32()) {
            Ok(_) => Request::Continue,
            Err(e) => Request::Failed(e),
        },
        Action::SetHeading => {
            machine.turtle.set_heading(v.to_i32());
            Request::Continue
        },
        Action::SetX => {
            machine.turtle.set_x(v);
            Request::Continue
        },
        Action::SetY => {
            machine.turtle.set_y(v);
            Request::Continue
        },
        Action::SetPenColor => match machine.turtle.set_pen_color(v.to_usize()) {
            Ok(_) => Request::Continue,
            Err(e) => Request::Failed(e),
        },
        Action::Forward => travel(machine.turtle.forward(v), machine),
        Action::Back => travel(machine.turtle.back(v), machine),
        Action::Left => travel(machine.turtle.left(v), machine),
        Action::Right => travel(machine.turtle.right(v), machine),
    }
}

/// Asks for a planned movement, or fails with the plan's error.
fn travel(
    plan: Result<Movement, ExecutionError>,
    machine: &mut Interpreter,
) -> (r: Request)
    ensures
        (Transition { next: final(machine)@, request: r@ }) == match outcome(
            plan,
        ) {
            Ok(m) => old(machine)@.ask(RequestView::Travel(m), TaskView::AwaitPosition),
            Err(e) => old(machine)@.fail(e),
        },
{
    match plan {
        Ok(m) => {
            machine.push_task(Task::AwaitPosition);
            Request::Travel(m)
        },
        Err(e) => Request::Failed(e),
    }
}

/// Takes the end point that the last request asked for.
fn take_position(reply: Reply, machine: &mut Interpreter) -> (r: Request)
    ensures
        (Transition { next: final(machine)@, request: r@ }) == position_taken(
            old(machine)@,
            reply,
        ),
{
    match reply {
        Reply::Position(x, y) => {
            machine.turtle.arrive(x, y);
            Request::Continue
        },
        _ => Request::Failed(ExecutionError::type_error("position")),
    }
}

/// Binds the value on top to `name`.
fn store(name: String, machine: &mut Interpreter) -> (r: Request)
    ensures
        (Transition { next: final(machine)@, request: r@ }) == stored(old(machine)@, name@),
{
    match machine.pop_value() {
        None => Request::Failed(ExecutionError::type_error("number")),
        Some(v) => {
            machine.vars.insert(name, Expression::Float(v));
            Request::Continue
        },
    }
}

/// Asks for the sum of what `name` is bound to and the value on top.
fn increase(name: String, machine: &mut Interpreter) -> (r: Request)
    ensures
        (Transition { next: final(machine)@, request: r@ }) == increased(old(machine)@, name@),
{
    let v = match machine.pop_value() {
        Some(v) => v,
        None => {
            return Request::Failed(ExecutionError::type_error("number"));
        },
    };
    let bound: Option<Number> = match machine.vars.get(name.as_str()) {
        Some(Expression::Float(c)) => Some(*c),
        Some(Expression::Number(n)) => Some(Number::from_i32(*n)),
        Some(Expression::Usize(n)) => Some(Number::from_usize(*n)),
        _ => None,
    };
    match bound {
        Some(c) => {
            machine.push_task(Task::Store(name));
            machine.push_task(Task::AwaitNumber);
            Request::Compute { operator: Operator::Add, lhs: c, rhs: v }
        },
        None => Request::Failed(ExecutionError::variable_not_found(name.as_str())),
    }
}

impl Interpreter {
    /// Takes one step: carries out the top task, with `reply` where the
    /// task is to take one, and says what it asks for.
    pub fn step(&mut self, reply: Reply) -> (r: Request)
        ensures
            (Transition { next: final(self)@, request: r@ }) == step_of(old(self)@, reply),
    {
        match self.pop_task() {
            None => Request::Finished,
            Some(Task::Run(node)) => statement(node, self),
            Some(Task::Evaluate(e)) => match_expressions(e, self),
            Some(Task::Apply(op)) => apply(op, self),
            Some(Task::Guard) => guard(self),
            Some(Task::Perform(action)) => perform(action, self),
            Some(Task::Store(name)) => store(name, self),
            Some(Task::Increase(name)) => increase(name, self),
            Some(Task::Branch(block)) => branch(block, self),
            Some(Task::Repeat(condition, block)) => repeat(condition, block, self),
            Some(Task::AwaitNumber) => take_number(reply, self),
            Some(Task::AwaitPosition) => take_position(reply, self),
        }
    }

    /// Takes up to `budget` steps: the first with `reply`, and on while the
    /// steps ask for nothing. The result is `Continue` only where the
    /// budget ran out.
    pub fn run(&mut self, reply: Reply, budget: usize) -> (r: Request)
        ensures
            (Transition { next: final(self)@, request: r@ }) == run_of(
                old(self)@,
                reply,
                budget as nat,
            ),
    {
        let mut left: usize = budget;
        let mut next: Reply = reply;
        while left > 0
            invariant
                run_of(self@, next, left as nat) == run_of(old(self)@, reply, budget as nat),
            decreases left,
        {
            let request = self.step(next);
            match request {
                Request::Continue => {
                    next = Reply::Nothing;
                    left = left - 1;
                },
                other => {
                    return other;
                },
            }
        }
        Request::Continue
    }
}

} // verus!
