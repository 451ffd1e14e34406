//! The steps that work out expressions.

use vstd::prelude::*;
use vstd::string::*;
use crate::interpreter::errors::{ExecutionError, ExecutionErrorView};
use crate::interpreter::machine::{
    Interpreter,
    Reply,
    Request,
    RequestView,
    State,
    Task,
    TaskView,
    Transition,
    wanted_number,
};
use crate::interpreter::turtle::Turtle;
use crate::number::Number;
use crate::parser::ast::{
    Expression,
    ExpressionView,
    Math,
    Operator,
    Query,
    copy_expression,
    math,
};

verus! {

/// The value of a query: the turtle's coordinate as it is, its heading and
/// its colour as the nearest numbers.
pub open spec fn query_value(turtle: Turtle, query: Query) -> Number {
    match query {
        Query::XCor => turtle.x,
        Query::YCor => turtle.y,
        Query::Heading => Number::of_int(turtle.heading as int),
        Query::Color => Number::of_int(turtle.pen_color as int),
    }
}

/// The tasks that work out an operation. A division takes its divisor
/// first and checks it before the dividend is looked at; every other
/// operator takes its left operand first.
pub open spec fn operation_tasks(op: Operator, lhs: ExpressionView, rhs: ExpressionView) -> Seq<
    TaskView,
> {
    if op == Operator::Div {
        seq![
            TaskView::Apply(op),
            TaskView::Evaluate(lhs),
            TaskView::Guard,
            TaskView::Evaluate(rhs),
        ]
    } else {
        seq![TaskView::Apply(op), TaskView::Evaluate(rhs), TaskView::Evaluate(lhs)]
    }
}

/// The step for an expression that is no variable: a literal or a query
/// puts its value on the values, an operation puts its tasks on the tasks.
pub open spec fn direct(s: State, e: ExpressionView) -> Transition {
    match e {
        ExpressionView::Float(v) => s.push_value(v).proceed(),
        ExpressionView::Number(n) => s.push_value(Number::of_int(n as int)).proceed(),
        ExpressionView::Usize(n) => s.push_value(Number::of_int(n as int)).proceed(),
        ExpressionView::Query(q) => s.push_value(query_value(s.turtle, q)).proceed(),
        ExpressionView::Math(op, lhs, rhs) => s.push_tasks(operation_tasks(op, *lhs, *rhs)).proceed(),
        ExpressionView::Variable(name) => s.fail(ExecutionErrorView::VariableNotFound(name)),
    }
}

/// The step for a variable: that of the expression bound to it. A name
/// that is unbound, or bound to another variable, is not found.
pub open spec fn lookup(s: State, name: Seq<char>) -> Transition {
    if !s.vars.dom().contains(name) {
        s.fail(ExecutionErrorView::VariableNotFound(name))
    } else {
        match s.vars[name] {
            ExpressionView::Variable(other) => s.fail(ExecutionErrorView::VariableNotFound(name)),
            bound => direct(s, bound),
        }
    }
}

/// The step for an expression.
pub open spec fn evaluation(s: State, e: ExpressionView) -> Transition {
    match e {
        ExpressionView::Variable(name) => lookup(s, name),
        other => direct(s, other),
    }
}

/// What a comparison or connective holds of two numbers. A connective takes
/// a number for true unless it equals zero.
pub open spec fn truth(op: Operator, lhs: Number, rhs: Number) -> bool {
    match op {
        Operator::Eq => lhs.same(rhs),
        Operator::Ne => !lhs.same(rhs),
        Operator::Lt => lhs.below(rhs),
        Operator::Gt => rhs.below(lhs),
        Operator::And => lhs.truthy() && rhs.truthy(),
        Operator::Or => lhs.truthy() || rhs.truthy(),
        _ => false,
    }
}

pub open spec fn is_arithmetic(op: Operator) -> bool {
    op == Operator::Add || op == Operator::Sub || op == Operator::Mul || op == Operator::Div
}

/// The operand that stands on top of the values: the dividend for a
/// division, the right operand for every other operator.
pub open spec fn left_operand(op: Operator, values: Seq<Number>) -> Number {
    if op == Operator::Div {
        values[values.len() - 1]
    } else {
        values[values.len() - 2]
    }
}

pub open spec fn right_operand(op: Operator, values: Seq<Number>) -> Number {
    if op == Operator::Div {
        values[values.len() - 2]
    } else {
        values[values.len() - 1]
    }
}

/// The step that applies an operator to the two values on top. An
/// arithmetic operator asks for the result; a comparison or connective
/// puts 1 or 0 on the values.
pub open spec fn application(s: State, op: Operator) -> Transition {
    if s.values.len() < 2 {
        s.fail(wanted_number())
    } else {
        let lhs = left_operand(op, s.values);
        let rhs = right_operand(op, s.values);
        let popped = s.pop_value().pop_value();
        if is_arithmetic(op) {
            popped.ask(RequestView::Compute { operator: op, lhs, rhs }, TaskView::AwaitNumber)
        } else {
            popped.push_value(Number::of_bool(truth(op, lhs, rhs))).proceed()
        }
    }
}

/// The step that checks a divisor: division by a number equal to zero
/// fails.
pub open spec fn guarded(s: State) -> Transition {
    if s.values.len() < 1 {
        s.fail(wanted_number())
    } else if s.values.last().zero() {
        s.fail(ExecutionErrorView::DivisionByZero)
    } else {
        s.proceed()
    }
}

/// The step that takes the number a request asked for.
pub open spec fn number_taken(s: State, reply: Reply) -> Transition {
    match reply {
        Reply::Number(v) => s.push_value(v).proceed(),
        _ => s.fail(wanted_number()),
    }
}

/// The value of a query on the turtle's state.
pub fn match_queries(query: &Query, turtle: &Turtle) -> (r: Number)
    ensures
        r == query_value(*turtle, *query),
{
    match query {
        Query::XCor => turtle.x,
        Query::YCor => turtle.y,
        Query::Heading => Number::from_i32(turtle.heading),
        Query::Color => Number::from_usize(turtle.pen_color),
    }
}

/// The operator and the operands of an operation.
fn operands(m: Math) -> (r: (Operator, Expression, Expression))
    ensures
        m@ == math(r.0, r.1@, r.2@),
{
    match m {
        Math::Add(l, r) => (Operator::Add, l, r),
        Math::Sub(l, r) => (Operator::Sub, l, r),
        Math::Mul(l, r) => (Operator::Mul, l, r),
        Math::Div(l, r) => (Operator::Div, l, r),
        Math::Eq(l, r) => (Operator::Eq, l, r),
        Math::Lt(l, r) => (Operator::Lt, l, r),
        Math::Gt(l, r) => (Operator::Gt, l, r),
        Math::Ne(l, r) => (Operator::Ne, l, r),
        Math::And(l, r) => (Operator::And, l, r),
        Math::Or(l, r) => (Operator::Or, l, r),
    }
}

/// Takes one step on an expression: a literal or a query puts its value on
/// the values, a variable does what the expression bound to it does, and
/// an operation puts its tasks on the tasks.
pub fn match_expressions(expr: Expression, machine: &mut Interpreter) -> (r: Request)
    ensures
        (Transition { next: final(machine)@, request: r@ }) == evaluation(old(machine)@, expr@),
{
    match expr {
        Expression::Variable(name) => get_var_val(name.as_str(), machine),
        other => settle(other, machine),
    }
}

/// Takes one step on an expression that is no variable.
fn settle(expr: Expression, machine: &mut Interpreter) -> (r: Request)
    ensures
        (Transition { next: final(machine)@, request: r@ }) == direct(old(machine)@, expr@),
{
    match expr {
        Expression::Float(v) => {
            machine.push_value(v);
            Request::Continue
        },
        Expression::Number(n) => {
            machine.push_value(Number::from_i32(n));
            Request::Continue
        },
        Expression::Usize(n) => {
            machine.push_value(Number::from_usize(n));
            Request::Continue
        },
        Expression::Query(q) => {
            let v = match_queries(&q, &machine.turtle);
            machine.push_value(v);
            Request::Continue
        },
        Expression::Math(m) => {
            let m: Math = *m;
            eval_math(m, machine)
        },
        Expression::Variable(name) => Request::Failed(
            ExecutionError::variable_not_found(name.as_str()),
        ),
    }
}

/// Takes one step on a variable: the step of the expression bound to it,
/// or the failure where the name is unbound or bound to another variable.
pub fn get_var_val(var: &str, machine: &mut Interpreter) -> (r: Request)
    ensures
        (Transition { next: final(machine)@, request: r@ }) == lookup(old(machine)@, var@),
{
    let bound: Option<Expression> = match machine.vars.get(var) {
        Some(e) => Some(copy_expression(e)),
        None => None,
    };
    match bound {
        None => Request::Failed(ExecutionError::variable_not_found(var)),
        Some(Expression::Variable(other)) => Request::Failed(
            ExecutionError::variable_not_found(var),
        ),
        Some(e) => settle(e, machine),
    }
}

/// Puts the tasks of an operation on the tasks: both operands, then the
/// operator; for a division the divisor first, with its check.
pub fn eval_math(expr: Math, machine: &mut Interpreter) -> (r: Request)
    ensures
        (Transition { next: final(machine)@, request: r@ }) == direct(old(machine)@, expr@),
{
    let (op, lhs, rhs) = operands(expr);
    let ghost tasks = operation_tasks(op, lhs@, rhs@);
    let ghost before = machine@;
    machine.push_task(Task::Apply(op));
    match op {
        Operator::Div => {
            machine.push_task(Task::Evaluate(lhs));
            machine.push_task(Task::Guard);
            machine.push_task(Task::Evaluate(rhs));
        },
        _ => {
            machine.push_task(Task::Evaluate(rhs));
            machine.push_task(Task::Evaluate(lhs));
        },
    }
    assert(machine@.tasks =~= before.tasks + tasks);
    Request::Continue
}

/// Takes the two values on top as the operands of an arithmetic operator
/// and asks for the result.
pub fn eval_binary_op(op: Operator, machine: &mut Interpreter) -> (r: Request)
    requires
        is_arithmetic(op),
    ensures
        (Transition { next: final(machine)@, request: r@ }) == application(old(machine)@, op),
{
    if machine.values.len() < 2 {
        return Request::Failed(ExecutionError::type_error("number"));
    }
    let top = machine.pop_value().unwrap();
    let under = machine.pop_value().unwrap();
    machine.push_task(Task::AwaitNumber);
    match op {
        Operator::Div => Request::Compute { operator: op, lhs: top, rhs: under },
        _ => Request::Compute { operator: op, lhs: under, rhs: top },
    }
}

/// Takes the two values on top as the operands of a comparison or a
/// connective and puts 1 on the values where it holds, 0 where it does not.
pub fn eval_logical_op(op: Operator, machine: &mut Interpreter) -> (r: Request)
    requires
        !is_arithmetic(op),
    ensures
        (Transition { next: final(machine)@, request: r@ }) == application(old(machine)@, op),
{
    if machine.values.len() < 2 {
        return Request::Failed(ExecutionError::type_error("number"));
    }
    let rhs = machine.pop_value().unwrap();
    let lhs = machine.pop_value().unwrap();
    let holds: bool = match op {
        Operator::Eq => lhs.equals(rhs),
        Operator::Ne => !lhs.equals(rhs),
        Operator::Lt => lhs.less_than(rhs),
        Operator::Gt => lhs.greater_than(rhs),
        Operator::And => lhs.is_truthy() && rhs.is_truthy(),
        Operator::Or => lhs.is_truthy() || rhs.is_truthy(),
        _ => false,
    };
    machine.push_value(Number::from_bool(holds));
    Request::Continue
}

/// Applies an operator to the two values on top.
pub(crate) fn apply(op: Operator, machine: &mut Interpreter) -> (r: Request)
    ensures
        (Transition { next: final(machine)@, request: r@ }) == application(old(machine)@, op),
{
    match op {
        Operator::Add | Operator::Sub | Operator::Mul | Operator::Div => eval_binary_op(
            op,
            machine,
        ),
        _ => eval_logical_op(op, machine),
    }
}

/// Checks the divisor on top of the values.
pub(crate) fn guard(machine: &mut Interpreter) -> (r: Request)
    ensures
        (Transition { next: final(machine)@, request: r@ }) == guarded(old(machine)@),
{
    let n: usize = machine.values.len();
    if n < 1 {
        return Request::Failed(ExecutionError::type_error("number"));
    }
    if machine.values[n - 1].is_zero() {
        Request::Failed(ExecutionError::division_by_zero())
    } else {
        Request::Continue
    }
}

/// Takes the number that the last request asked for.
pub(crate) fn take_number(reply: Reply, machine: &mut Interpreter) -> (r:
    Request)
    ensures
        (Transition { next: final(machine)@, request: r@ }) == number_taken(old(machine)@, reply),
{
    match reply {
        Reply::Number(v) => {
            machine.push_value(v);
            Request::Continue
        },
        _ => Request::Failed(ExecutionError::type_error("number")),
    }
}

} // verus!
