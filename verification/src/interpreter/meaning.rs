//! What a script means, and the proof that the machine computes it.
//!
//! The meaning is given in one piece: the value of an expression from the
//! values of its operands, the effect of a statement from the effects of
//! the statements in it. It depends on two functions that stand for the
//! embedding program: how it rounds the four arithmetic operations, and
//! where it says a movement ends.
//!
//! A script may run for ever, so the meaning is taken up to a depth: the
//! number of rounds a loop may make, and of operations bound to variables
//! that may be unfolded inside one another. Within the depth the meaning is
//! a result or an error; beyond it nothing is said.

use vstd::prelude::*;
use crate::interpreter::control_flows::{branched, repeated, test_of};
use crate::interpreter::errors::ExecutionErrorView;
use crate::interpreter::execute::{
    commanded,
    current,
    increased,
    is_movement,
    performed,
    snapshot,
    stated,
    step_of,
    stored,
};
use crate::interpreter::machine::{
    Reply,
    RequestView,
    State,
    TaskView,
    lemma_top_task,
    lemma_top_value,
    schedule,
};
use crate::interpreter::matches::{
    application,
    evaluation,
    guarded,
    is_arithmetic,
    operation_tasks,
    query_value,
    truth,
};
use crate::interpreter::turtle::{Movement, Turtle};
use crate::number::Number;
use crate::parser::ast::{
    Action,
    CommandView,
    ExpressionView,
    NodeView,
    Operator,
};

verus! {

/// The embedding program, as far as a run depends on it.
pub struct Host {
    /// The sum, difference, product or quotient of two numbers, rounded.
    pub compute: spec_fn(Operator, Number, Number) -> Number,
    /// The point where a movement ends.
    pub travel: spec_fn(Movement) -> (Number, Number),
}

/// A meaning within a depth.
pub enum Meaning<T> {
    Done(T),
    Failed(ExecutionErrorView),
    /// The depth was not enough to tell.
    Unknown,
}

/// The turtle and the variables.
pub struct World {
    pub turtle: Turtle,
    pub vars: Map<Seq<char>, ExpressionView>,
}

/// The value of a literal or a query.
pub open spec fn plain(e: ExpressionView, turtle: Turtle) -> Option<Number> {
    match e {
        ExpressionView::Float(v) => Some(v),
        ExpressionView::Number(n) => Some(Number::of_int(n as int)),
        ExpressionView::Usize(n) => Some(Number::of_int(n as int)),
        ExpressionView::Query(q) => Some(query_value(turtle, q)),
        _ => None,
    }
}

/// What an operator makes of two numbers: an arithmetic operator what the
/// host computes, a comparison or connective 1 or 0.
pub open spec fn result(op: Operator, lhs: Number, rhs: Number, host: Host) -> Number {
    if is_arithmetic(op) {
        (host.compute)(op, lhs, rhs)
    } else {
        Number::of_bool(truth(op, lhs, rhs))
    }
}

/// The value of an operation from the values of its operands. A division
/// looks at its divisor first and fails where it is zero; every other
/// operator looks at its left operand first.
pub open spec fn combined(
    op: Operator,
    lhs: Meaning<Number>,
    rhs: Meaning<Number>,
    host: Host,
) -> Meaning<Number> {
    if op == Operator::Div {
        match rhs {
            Meaning::Done(d) => if d.zero() {
                Meaning::Failed(ExecutionErrorView::DivisionByZero)
            } else {
                match lhs {
                    Meaning::Done(n) => Meaning::Done(result(op, n, d, host)),
                    Meaning::Failed(e) => Meaning::Failed(e),
                    Meaning::Unknown => Meaning::Unknown,
                }
            },
            Meaning::Failed(e) => Meaning::Failed(e),
            Meaning::Unknown => Meaning::Unknown,
        }
    } else {
        match lhs {
            Meaning::Done(a) => match rhs {
                Meaning::Done(b) => Meaning::Done(result(op, a, b, host)),
                Meaning::Failed(e) => Meaning::Failed(e),
                Meaning::Unknown => Meaning::Unknown,
            },
            Meaning::Failed(e) => Meaning::Failed(e),
            Meaning::Unknown => Meaning::Unknown,
        }
    }
}

/// The value of an expression. A variable has the value of the expression
/// bound to it; a name that is unbound, or bound to another variable, is
/// not found.
pub open spec fn value(
    e: ExpressionView,
    turtle: Turtle,
    vars: Map<Seq<char>, ExpressionView>,
    host: Host,
    depth: nat,
) -> Meaning<Number>
    decreases depth, e,
{
    match e {
        ExpressionView::Variable(name) => if !vars.dom().contains(name) {
            Meaning::Failed(ExecutionErrorView::VariableNotFound(name))
        } else {
            match vars[name] {
                ExpressionView::Variable(other) => Meaning::Failed(
                    ExecutionErrorView::VariableNotFound(name),
                ),
                ExpressionView::Math(op, l, r) => if depth == 0 {
                    Meaning::Unknown
                } else {
                    value(vars[name], turtle, vars, host, (depth - 1) as nat)
                },
                bound => match plain(bound, turtle) {
                    Some(v) => Meaning::Done(v),
                    None => Meaning::Unknown,
                },
            }
        },
        ExpressionView::Math(op, l, r) => combined(
            op,
            value(*l, turtle, vars, host, depth),
            value(*r, turtle, vars, host, depth),
            host,
        ),
        other => match plain(other, turtle) {
            Some(v) => Meaning::Done(v),
            None => Meaning::Unknown,
        },
    }
}

/// What a one-operand command makes of the turtle. A movement ends where
/// the host says; a turn adds to the heading and a heading replaces it,
/// rounded toward zero; a colour outside 0..=15 fails.
pub open spec fn acted(action: Action, v: Number, turtle: Turtle, host: Host) -> Result<
    Turtle,
    ExecutionErrorView,
> {
    match action {
        Action::Turn => {
            let sum = turtle.heading + v.as_i32();
            if i32::MIN <= sum <= i32::MAX {
                Ok(Turtle { heading: sum as i32, ..turtle })
            } else {
                Err(ExecutionErrorView::HeadingOutOfRange)
            }
        },
        Action::SetHeading => Ok(Turtle { heading: v.as_i32() as i32, ..turtle }),
        Action::SetX => Ok(Turtle { x: v, ..turtle }),
        Action::SetY => Ok(Turtle { y: v, ..turtle }),
        Action::SetPenColor => if v.as_usize() <= 15 {
            Ok(Turtle { pen_color: v.as_usize() as usize, ..turtle })
        } else {
            Err(ExecutionErrorView::ColorIndexOutOfRange)
        },
        _ => match turtle.plan(action, v) {
            Ok(m) => Ok(Turtle { x: (host.travel)(m).0, y: (host.travel)(m).1, ..turtle }),
            Err(e) => Err(e),
        },
    }
}

/// The effect of a command on the turtle and the variables.
pub open spec fn command_effect(
    c: CommandView,
    turtle: Turtle,
    vars: Map<Seq<char>, ExpressionView>,
    host: Host,
    depth: nat,
) -> Meaning<World> {
    match c {
        CommandView::PenUp => Meaning::Done(World { turtle: Turtle { pen_down: false, ..turtle }, vars }),
        CommandView::PenDown => Meaning::Done(
            World { turtle: Turtle { pen_down: true, ..turtle }, vars },
        ),
        CommandView::Act(action, e) => match value(e, turtle, vars, host, depth) {
            Meaning::Done(v) => match acted(action, v, turtle, host) {
                Ok(t) => Meaning::Done(World { turtle: t, vars }),
                Err(error) => Meaning::Failed(error),
            },
            Meaning::Failed(error) => Meaning::Failed(error),
            Meaning::Unknown => Meaning::Unknown,
        },
        CommandView::Make(name, e) => match e {
            ExpressionView::Query(q) => Meaning::Done(
                World { turtle, vars: vars.insert(name, snapshot(turtle, q)) },
            ),
            ExpressionView::Float(v) => Meaning::Done(World { turtle, vars: vars.insert(name, e) }),
            ExpressionView::Number(n) => Meaning::Done(World { turtle, vars: vars.insert(name, e) }),
            ExpressionView::Usize(n) => Meaning::Done(World { turtle, vars: vars.insert(name, e) }),
            _ => match value(e, turtle, vars, host, depth) {
                Meaning::Done(v) => Meaning::Done(
                    World { turtle, vars: vars.insert(name, ExpressionView::Float(v)) },
                ),
                Meaning::Failed(error) => Meaning::Failed(error),
                Meaning::Unknown => Meaning::Unknown,
            },
        },
        CommandView::AddAssign(name, e) => match value(e, turtle, vars, host, depth) {
            Meaning::Done(v) => match current(vars, name) {
                Some(c) => Meaning::Done(
                    World {
                        turtle,
                        vars: vars.insert(
                            name,
                            ExpressionView::Float((host.compute)(Operator::Add, c, v)),
                        ),
                    },
                ),
                None => Meaning::Failed(ExecutionErrorView::VariableNotFound(name)),
            },
            Meaning::Failed(error) => Meaning::Failed(error),
            Meaning::Unknown => Meaning::Unknown,
        },
    }
}

/// The effect of a statement. An `IF` runs its block once where its
/// condition is true; a `WHILE` runs its block, and itself again after it,
/// as long as its condition is true.
pub open spec fn effect(
    node: NodeView,
    turtle: Turtle,
    vars: Map<Seq<char>, ExpressionView>,
    host: Host,
    depth: nat,
) -> Meaning<World>
    decreases depth, node,
{
    match node {
        NodeView::Command(c) => command_effect(c, turtle, vars, host, depth),
        NodeView::If(c, block) => match value(test_of(c), turtle, vars, host, depth) {
            Meaning::Done(v) => if v.truthy() {
                effects(block, turtle, vars, host, depth)
            } else {
                Meaning::Done(World { turtle, vars })
            },
            Meaning::Failed(error) => Meaning::Failed(error),
            Meaning::Unknown => Meaning::Unknown,
        },
        NodeView::While(c, block) => match value(test_of(c), turtle, vars, host, depth) {
            Meaning::Done(v) => if v.truthy() {
                match effects(block, turtle, vars, host, depth) {
                    Meaning::Done(w) => if depth == 0 {
                        Meaning::Unknown
                    } else {
                        effect(node, w.turtle, w.vars, host, (depth - 1) as nat)
                    },
                    Meaning::Failed(error) => Meaning::Failed(error),
                    Meaning::Unknown => Meaning::Unknown,
                }
            } else {
                Meaning::Done(World { turtle, vars })
            },
            Meaning::Failed(error) => Meaning::Failed(error),
            Meaning::Unknown => Meaning::Unknown,
        },
    }
}

/// The effect of a block: the effects of its statements, one after the
/// other, up to the first that fails.
pub open spec fn effects(
    block: Seq<NodeView>,
    turtle: Turtle,
    vars: Map<Seq<char>, ExpressionView>,
    host: Host,
    depth: nat,
) -> Meaning<World>
    decreases depth, block,
{
    if block.len() == 0 {
        Meaning::Done(World { turtle, vars })
    } else {
        match effect(block[0], turtle, vars, host, depth) {
            Meaning::Done(w) => effects(block.subrange(1, block.len() as int), w.turtle, w.vars, host, depth),
            Meaning::Failed(error) => Meaning::Failed(error),
            Meaning::Unknown => Meaning::Unknown,
        }
    }
}

/// How a run stands.
pub enum Status {
    Running,
    Finished,
    Failed(ExecutionErrorView),
}

/// A machine between two steps of a run with a host: its state, the reply
/// that the next step will get, and how the run stands.
pub struct Config {
    pub state: State,
    pub reply: Reply,
    pub status: Status,
}

/// A run that goes on from `state` with no reply pending.
pub open spec fn running(state: State) -> Config {
    Config { state, reply: Reply::Nothing, status: Status::Running }
}

/// One step of a run with a host: the machine takes a step with the pending
/// reply, and the host answers what the step asks for. A run that has
/// finished or failed stays as it is.
pub open spec fn hop(c: Config, host: Host) -> Config {
    if c.status is Running {
        let t = step_of(c.state, c.reply);
        match t.request {
            RequestView::Continue => running(t.next),
            RequestView::Finished => Config {
                state: t.next,
                reply: Reply::Nothing,
                status: Status::Finished,
            },
            RequestView::Failed(error) => Config {
                state: t.next,
                reply: Reply::Nothing,
                status: Status::Failed(error),
            },
            RequestView::Compute { operator, lhs, rhs } => Config {
                state: t.next,
                reply: Reply::Number((host.compute)(operator, lhs, rhs)),
                status: Status::Running,
            },
            RequestView::Travel(m) => Config {
                state: t.next,
                reply: Reply::Position((host.travel)(m).0, (host.travel)(m).1),
                status: Status::Running,
            },
        }
    } else {
        c
    }
}

/// `n` steps of a run with a host.
pub open spec fn hops(c: Config, host: Host, n: nat) -> Config
    decreases n,
{
    if n == 0 {
        c
    } else {
        hops(hop(c, host), host, (n - 1) as nat)
    }
}

/// Steps add up.
pub proof fn lemma_hops_add(c: Config, host: Host, a: nat, b: nat)
    ensures
        hops(c, host, a + b) == hops(hops(c, host, a), host, b),
    decreases a,
{
    if a > 0 {
        lemma_hops_add(hop(c, host), host, (a - 1) as nat, b);
    }
}

/// A run that has failed stays failed.
pub proof fn lemma_hops_failed(c: Config, host: Host, n: nat)
    requires
        !(c.status is Running),
    ensures
        hops(c, host, n) == c,
    decreases n,
{
    if n > 0 {
        lemma_hops_failed(c, host, (n - 1) as nat);
    }
}

/// The first of several steps.
pub proof fn lemma_hops_first(c: Config, host: Host, n: nat)
    requires
        n >= 1,
    ensures
        hops(c, host, n) == hops(hop(c, host), host, (n - 1) as nat),
{
}

/// One step is one step.
pub proof fn lemma_hops_one(c: Config, host: Host)
    ensures
        hops(c, host, 1) == hop(c, host),
{
    assert(hops(hop(c, host), host, 0) == hop(c, host));
}

/// Two values put on the values stand there in that order.
pub proof fn lemma_two_values(s: State, a: Number, b: Number)
    ensures
        s.push_value(a).push_value(b).values.len() >= 2,
        s.push_value(a).push_value(b).values[s.push_value(a).push_value(b).values.len() - 2] == a,
        s.push_value(a).push_value(b).values.last() == b,
        s.push_value(a).push_value(b).pop_value().pop_value() == s,
{
    lemma_top_value(s.push_value(a), b);
    lemma_top_value(s, a);
}

/// The tasks of an operation, one by one.
pub proof fn lemma_operation_tasks(s: State, op: Operator, l: ExpressionView, r: ExpressionView)
    ensures
        s.push_tasks(operation_tasks(op, l, r)) == if op == Operator::Div {
            s.push_task(TaskView::Apply(op)).push_task(TaskView::Evaluate(l)).push_task(
                TaskView::Guard,
            ).push_task(TaskView::Evaluate(r))
        } else {
            s.push_task(TaskView::Apply(op)).push_task(TaskView::Evaluate(r)).push_task(
                TaskView::Evaluate(l),
            )
        },
{
    if op == Operator::Div {
        assert(s.tasks + operation_tasks(op, l, r) =~= s.tasks.push(TaskView::Apply(op)).push(
            TaskView::Evaluate(l),
        ).push(TaskView::Guard).push(TaskView::Evaluate(r)));
    } else {
        assert(s.tasks + operation_tasks(op, l, r) =~= s.tasks.push(TaskView::Apply(op)).push(
            TaskView::Evaluate(r),
        ).push(TaskView::Evaluate(l)));
    }
}

/// Applying an operator to two values takes one step for a comparison or
/// connective and two for an arithmetic operator, whose result the host
/// computes.
pub proof fn lemma_apply_reached(s: State, op: Operator, lhs: Number, rhs: Number, host: Host) -> (n:
    nat)
    ensures
        n >= 1,
        ({
            let below = if op == Operator::Div {
                s.push_value(rhs).push_value(lhs)
            } else {
                s.push_value(lhs).push_value(rhs)
            };
            hops(running(below.push_task(TaskView::Apply(op))), host, n) == running(
                s.push_value(result(op, lhs, rhs, host)),
            )
        }),
{
    let below = if op == Operator::Div {
        s.push_value(rhs).push_value(lhs)
    } else {
        s.push_value(lhs).push_value(rhs)
    };
    let start = running(below.push_task(TaskView::Apply(op)));
    lemma_top_task(below, TaskView::Apply(op));
    if op == Operator::Div {
        lemma_two_values(s, rhs, lhs);
    } else {
        lemma_two_values(s, lhs, rhs);
    }
    assert(step_of(start.state, start.reply) == application(below, op));
    if is_arithmetic(op) {
        let x = (host.compute)(op, lhs, rhs);
        let asked = Config {
            state: s.push_task(TaskView::AwaitNumber),
            reply: Reply::Number(x),
            status: Status::Running,
        };
        assert(hop(start, host) == asked);
        lemma_top_task(s, TaskView::AwaitNumber);
        assert(hop(asked, host) == running(s.push_value(x)));
        lemma_hops_first(start, host, 2);
        lemma_hops_one(asked, host);
        2
    } else {
        assert(hop(start, host) == running(s.push_value(result(op, lhs, rhs, host))));
        lemma_hops_one(start, host);
        1
    }
}

/// The machine works out the value of an expression: where the value is a
/// number, a run from the task to evaluate the expression comes to the
/// same state with that number on top of the values; where it is an error,
/// the run fails with that error.
pub proof fn lemma_value_reached(e: ExpressionView, s: State, host: Host, depth: nat) -> (n: nat)
    requires
        !(value(e, s.turtle, s.vars, host, depth) is Unknown),
    ensures
        n >= 1,
        match value(e, s.turtle, s.vars, host, depth) {
            Meaning::Done(v) => hops(running(s.push_task(TaskView::Evaluate(e))), host, n)
                == running(s.push_value(v)),
            Meaning::Failed(error) => hops(
                running(s.push_task(TaskView::Evaluate(e))),
                host,
                n,
            ).status == Status::Failed(error),
            Meaning::Unknown => true,
        },
    decreases depth, e, 1int,
{
    let start = running(s.push_task(TaskView::Evaluate(e)));
    lemma_top_task(s, TaskView::Evaluate(e));
    assert(step_of(start.state, start.reply) == evaluation(s, e));
    match e {
        ExpressionView::Variable(name) => {
            if s.vars.dom().contains(name) {
                let bound = s.vars[name];
                match bound {
                    ExpressionView::Math(op, l, r) => {
                        let other = running(s.push_task(TaskView::Evaluate(bound)));
                        lemma_top_task(s, TaskView::Evaluate(bound));
                        assert(hop(other, host) == hop(start, host));
                        let m = lemma_value_reached(bound, s, host, (depth - 1) as nat);
                        lemma_hops_first(other, host, m);
                        lemma_hops_first(start, host, m);
                        m
                    },
                    _ => {
                        lemma_hops_one(start, host);
                        1
                    },
                }
            } else {
                lemma_hops_one(start, host);
                1
            }
        },
        ExpressionView::Math(op, l, r) => {
            lemma_operation_tasks(s, op, *l, *r);
            let after = running(s.push_tasks(operation_tasks(op, *l, *r)));
            assert(hop(start, host) == after);
            let m = lemma_operation_reached(e, s, host, depth);
            lemma_hops_first(start, host, m + 1);
            m + 1
        },
        _ => {
            lemma_hops_one(start, host);
            1
        },
    }
}

/// The machine works out an operation from its tasks: both operands, then
/// the operator; for a division the divisor first, with its check.
pub proof fn lemma_operation_reached(e: ExpressionView, s: State, host: Host, depth: nat) -> (n:
    nat)
    requires
        e is Math,
        !(value(e, s.turtle, s.vars, host, depth) is Unknown),
    ensures
        match value(e, s.turtle, s.vars, host, depth) {
            Meaning::Done(v) => hops(
                running(s.push_tasks(operation_tasks(e->Math_0, *e->Math_1, *e->Math_2))),
                host,
                n,
            ) == running(s.push_value(v)),
            Meaning::Failed(error) => hops(
                running(s.push_tasks(operation_tasks(e->Math_0, *e->Math_1, *e->Math_2))),
                host,
                n,
            ).status == Status::Failed(error),
            Meaning::Unknown => true,
        },
    decreases depth, e, 0int,
{
    let (op, l, r) = match e {
        ExpressionView::Math(op, l, r) => (op, *l, *r),
        _ => (Operator::Add, e, e),
    };
    lemma_operation_tasks(s, op, l, r);
    let start = running(s.push_tasks(operation_tasks(op, l, r)));
    let apply = s.push_task(TaskView::Apply(op));
    let lv = value(l, s.turtle, s.vars, host, depth);
    let rv = value(r, s.turtle, s.vars, host, depth);
    if op == Operator::Div {
        let under = apply.push_task(TaskView::Evaluate(l)).push_task(TaskView::Guard);
        let a = lemma_value_reached(r, under, host, depth);
        match rv {
            Meaning::Done(d) => {
                let checking = running(under.push_value(d));
                let below = apply.push_task(TaskView::Evaluate(l)).push_value(d);
                assert(under.push_value(d) == below.push_task(TaskView::Guard));
                lemma_top_task(below, TaskView::Guard);
                lemma_top_value(apply.push_task(TaskView::Evaluate(l)), d);
                assert(step_of(checking.state, checking.reply) == guarded(below));
                lemma_hops_add(start, host, a, 1);
                lemma_hops_one(checking, host);
                if d.zero() {
                    a + 1
                } else {
                    assert(hop(checking, host) == running(below));
                    let base = apply.push_value(d);
                    assert(below == base.push_task(TaskView::Evaluate(l)));
                    let b = lemma_value_reached(l, base, host, depth);
                    lemma_hops_add(start, host, a + 1, b);
                    match lv {
                        Meaning::Done(x) => {
                            assert(base.push_value(x) == s.push_value(d).push_value(x).push_task(
                                TaskView::Apply(op),
                            ));
                            let c = lemma_apply_reached(s, op, x, d, host);
                            lemma_hops_add(start, host, a + 1 + b, c);
                            a + 1 + b + c
                        },
                        _ => a + 1 + b,
                    }
                }
            },
            _ => a,
        }
    } else {
        let under = apply.push_task(TaskView::Evaluate(r));
        let a = lemma_value_reached(l, under, host, depth);
        match lv {
            Meaning::Done(x) => {
                let base = apply.push_value(x);
                assert(under.push_value(x) == base.push_task(TaskView::Evaluate(r)));
                let b = lemma_value_reached(r, base, host, depth);
                lemma_hops_add(start, host, a, b);
                match rv {
                    Meaning::Done(y) => {
                        assert(base.push_value(y) == s.push_value(x).push_value(y).push_task(
                            TaskView::Apply(op),
                        ));
                        let c = lemma_apply_reached(s, op, x, y, host);
                        lemma_hops_add(start, host, a + b, c);
                        a + b + c
                    },
                    _ => a + b,
                }
            },
            _ => a,
        }
    }
}

/// The state with the turtle and the variables of a world, and the stacks
/// as they are.
pub open spec fn settled(s: State, w: World) -> State {
    State { turtle: w.turtle, vars: w.vars, ..s }
}

/// The tasks of a block: those of its later statements, and the first
/// statement's task on top.
pub proof fn lemma_schedule_first(s: State, block: Seq<NodeView>)
    requires
        block.len() > 0,
    ensures
        s.push_tasks(schedule(block)) == s.push_tasks(
            schedule(block.subrange(1, block.len() as int)),
        ).push_task(TaskView::Run(block[0])),
{
    let rest = block.subrange(1, block.len() as int);
    assert(schedule(block) =~= schedule(rest).push(TaskView::Run(block[0])));
    assert(s.tasks + schedule(block) =~= (s.tasks + schedule(rest)).push(TaskView::Run(block[0])));
}

/// The tasks of an empty block are none.
pub proof fn lemma_schedule_none(s: State, block: Seq<NodeView>)
    requires
        block.len() == 0,
    ensures
        s.push_tasks(schedule(block)) == s,
{
    assert(s.tasks + schedule(block) =~= s.tasks);
}

/// The machine gives a command its operand: in one step, or in two for a
/// movement, whose end the host says.
pub proof fn lemma_perform_reached(s: State, action: Action, v: Number, host: Host) -> (n: nat)
    ensures
        n >= 1,
        match acted(action, v, s.turtle, host) {
            Ok(t) => hops(
                running(s.push_value(v).push_task(TaskView::Perform(action))),
                host,
                n,
            ) == running(s.with_turtle(t)),
            Err(error) => hops(
                running(s.push_value(v).push_task(TaskView::Perform(action))),
                host,
                n,
            ).status == Status::Failed(error),
        },
{
    let start = running(s.push_value(v).push_task(TaskView::Perform(action)));
    lemma_top_task(s.push_value(v), TaskView::Perform(action));
    lemma_top_value(s, v);
    assert(step_of(start.state, start.reply) == performed(s.push_value(v), action));
    if is_movement(action) {
        match s.turtle.plan(action, v) {
            Ok(m) => {
                let asked = Config {
                    state: s.push_task(TaskView::AwaitPosition),
                    reply: Reply::Position((host.travel)(m).0, (host.travel)(m).1),
                    status: Status::Running,
                };
                assert(hop(start, host) == asked);
                lemma_top_task(s, TaskView::AwaitPosition);
                lemma_hops_first(start, host, 2);
                lemma_hops_one(asked, host);
                2
            },
            Err(error) => {
                lemma_hops_one(start, host);
                1
            },
        }
    } else {
        lemma_hops_one(start, host);
        1
    }
}

/// The machine runs a statement: where the statement's effect is a world,
/// a run from the task to run it comes to that world with the stacks as
/// they were; where it is an error, the run fails with that error.
pub proof fn lemma_effect_reached(node: NodeView, s: State, host: Host, depth: nat) -> (n: nat)
    requires
        !(effect(node, s.turtle, s.vars, host, depth) is Unknown),
    ensures
        n >= 1,
        match effect(node, s.turtle, s.vars, host, depth) {
            Meaning::Done(w) => hops(running(s.push_task(TaskView::Run(node))), host, n)
                == running(settled(s, w)),
            Meaning::Failed(error) => hops(
                running(s.push_task(TaskView::Run(node))),
                host,
                n,
            ).status == Status::Failed(error),
            Meaning::Unknown => true,
        },
    decreases depth, node, 1int,
{
    let start = running(s.push_task(TaskView::Run(node)));
    lemma_top_task(s, TaskView::Run(node));
    assert(step_of(start.state, start.reply) == stated(s, node));
    match node {
        NodeView::Command(c) => {
            let m = lemma_command_reached(c, s, host, depth);
            m
        },
        NodeView::If(c, block) => {
            let test = test_of(c);
            let under = s.push_task(TaskView::Branch(block));
            assert(hop(start, host) == running(under.push_task(TaskView::Evaluate(test))));
            let a = lemma_value_reached(test, under, host, depth);
            lemma_hops_first(start, host, a + 1);
            match value(test, s.turtle, s.vars, host, depth) {
                Meaning::Done(v) => {
                    let deciding = running(s.push_value(v).push_task(TaskView::Branch(block)));
                    assert(under.push_value(v) == deciding.state);
                    lemma_top_task(s.push_value(v), TaskView::Branch(block));
                    lemma_top_value(s, v);
                    assert(step_of(deciding.state, deciding.reply) == branched(
                        s.push_value(v),
                        block,
                    ));
                    lemma_hops_add(start, host, a + 1, 1);
                    lemma_hops_one(deciding, host);
                    if v.truthy() {
                        assert(hop(deciding, host) == running(s.push_tasks(schedule(block))));
                        let b = lemma_effects_reached(block, s, host, depth);
                        lemma_hops_add(start, host, a + 2, b);
                        a + 2 + b
                    } else {
                        assert(settled(s, World { turtle: s.turtle, vars: s.vars }) == s);
                        a + 2
                    }
                },
                _ => a + 1,
            }
        },
        NodeView::While(c, block) => {
            let test = test_of(c);
            let under = s.push_task(TaskView::Repeat(c, block));
            assert(hop(start, host) == running(under.push_task(TaskView::Evaluate(test))));
            let a = lemma_value_reached(test, under, host, depth);
            lemma_hops_first(start, host, a + 1);
            match value(test, s.turtle, s.vars, host, depth) {
                Meaning::Done(v) => {
                    let deciding = running(s.push_value(v).push_task(TaskView::Repeat(c, block)));
                    assert(under.push_value(v) == deciding.state);
                    lemma_top_task(s.push_value(v), TaskView::Repeat(c, block));
                    lemma_top_value(s, v);
                    assert(step_of(deciding.state, deciding.reply) == repeated(
                        s.push_value(v),
                        c,
                        block,
                    ));
                    lemma_hops_add(start, host, a + 1, 1);
                    lemma_hops_one(deciding, host);
                    if v.truthy() {
                        let again = s.push_task(TaskView::Run(node));
                        assert(hop(deciding, host) == running(again.push_tasks(schedule(block))));
                        let b = lemma_effects_reached(block, again, host, depth);
                        lemma_hops_add(start, host, a + 2, b);
                        match effects(block, s.turtle, s.vars, host, depth) {
                            Meaning::Done(w) => {
                                assert(settled(again, w) == settled(s, w).push_task(
                                    TaskView::Run(node),
                                ));
                                let d = lemma_effect_reached(
                                    node,
                                    settled(s, w),
                                    host,
                                    (depth - 1) as nat,
                                );
                                lemma_hops_add(start, host, a + 2 + b, d);
                                match effect(node, w.turtle, w.vars, host, (depth - 1) as nat) {
                                    Meaning::Done(w2) => {
                                        assert(settled(settled(s, w), w2) == settled(s, w2));
                                    },
                                    _ => {},
                                }
                                a + 2 + b + d
                            },
                            _ => a + 2 + b,
                        }
                    } else {
                        assert(settled(s, World { turtle: s.turtle, vars: s.vars }) == s);
                        a + 2
                    }
                },
                _ => a + 1,
            }
        },
    }
}

/// The machine runs a command.
pub proof fn lemma_command_reached(c: CommandView, s: State, host: Host, depth: nat) -> (n: nat)
    requires
        !(command_effect(c, s.turtle, s.vars, host, depth) is Unknown),
    ensures
        n >= 1,
        match command_effect(c, s.turtle, s.vars, host, depth) {
            Meaning::Done(w) => hops(
                running(s.push_task(TaskView::Run(NodeView::Command(c)))),
                host,
                n,
            ) == running(settled(s, w)),
            Meaning::Failed(error) => hops(
                running(s.push_task(TaskView::Run(NodeView::Command(c)))),
                host,
                n,
            ).status == Status::Failed(error),
            Meaning::Unknown => true,
        },
{
    let node = NodeView::Command(c);
    let start = running(s.push_task(TaskView::Run(node)));
    lemma_top_task(s, TaskView::Run(node));
    assert(step_of(start.state, start.reply) == commanded(s, c));
    match c {
        CommandView::Act(action, e) => {
            let under = s.push_task(TaskView::Perform(action));
            assert(hop(start, host) == running(under.push_task(TaskView::Evaluate(e))));
            let a = lemma_value_reached(e, under, host, depth);
            lemma_hops_first(start, host, a + 1);
            match value(e, s.turtle, s.vars, host, depth) {
                Meaning::Done(v) => {
                    assert(under.push_value(v) == s.push_value(v).push_task(
                        TaskView::Perform(action),
                    ));
                    let b = lemma_perform_reached(s, action, v, host);
                    lemma_hops_add(start, host, a + 1, b);
                    a + 1 + b
                },
                _ => a + 1,
            }
        },
        CommandView::Make(name, e) => {
            match e {
                ExpressionView::Variable(_) | ExpressionView::Math(_, _, _) => {
                    let under = s.push_task(TaskView::Store(name));
                    assert(hop(start, host) == running(under.push_task(TaskView::Evaluate(e))));
                    let a = lemma_value_reached(e, under, host, depth);
                    lemma_hops_first(start, host, a + 1);
                    match value(e, s.turtle, s.vars, host, depth) {
                        Meaning::Done(v) => {
                            let storing = running(s.push_value(v).push_task(TaskView::Store(name)));
                            assert(under.push_value(v) == storing.state);
                            lemma_top_task(s.push_value(v), TaskView::Store(name));
                            lemma_top_value(s, v);
                            assert(step_of(storing.state, storing.reply) == stored(
                                s.push_value(v),
                                name,
                            ));
                            lemma_hops_add(start, host, a + 1, 1);
                            lemma_hops_one(storing, host);
                            a + 2
                        },
                        _ => a + 1,
                    }
                },
                _ => {
                    lemma_hops_one(start, host);
                    1
                },
            }
        },
        CommandView::AddAssign(name, e) => {
            let under = s.push_task(TaskView::Increase(name));
            assert(hop(start, host) == running(under.push_task(TaskView::Evaluate(e))));
            let a = lemma_value_reached(e, under, host, depth);
            lemma_hops_first(start, host, a + 1);
            match value(e, s.turtle, s.vars, host, depth) {
                Meaning::Done(v) => {
                    let adding = running(s.push_value(v).push_task(TaskView::Increase(name)));
                    assert(under.push_value(v) == adding.state);
                    lemma_top_task(s.push_value(v), TaskView::Increase(name));
                    lemma_top_value(s, v);
                    assert(step_of(adding.state, adding.reply) == increased(s.push_value(v), name));
                    lemma_hops_add(start, host, a + 1, 1);
                    lemma_hops_one(adding, host);
                    match current(s.vars, name) {
                        Some(old) => {
                            let x = (host.compute)(Operator::Add, old, v);
                            let waiting = s.push_task(TaskView::Store(name));
                            let asked = Config {
                                state: waiting.push_task(TaskView::AwaitNumber),
                                reply: Reply::Number(x),
                                status: Status::Running,
                            };
                            assert(hop(adding, host) == asked);
                            lemma_top_task(waiting, TaskView::AwaitNumber);
                            let storing = running(s.push_value(x).push_task(TaskView::Store(name)));
                            assert(hop(asked, host) == storing);
                            lemma_top_task(s.push_value(x), TaskView::Store(name));
                            lemma_top_value(s, x);
                            assert(step_of(storing.state, storing.reply) == stored(
                                s.push_value(x),
                                name,
                            ));
                            lemma_hops_add(start, host, a + 2, 1);
                            lemma_hops_one(asked, host);
                            lemma_hops_add(start, host, a + 3, 1);
                            lemma_hops_one(storing, host);
                            a + 4
                        },
                        None => a + 2,
                    }
                },
                _ => a + 1,
            }
        },
        _ => {
            lemma_hops_one(start, host);
            1
        },
    }
}

/// The machine runs a block: where the block's effect is a world, a run
/// from the block's tasks comes to that world with the stacks as they
/// were; where it is an error, the run fails with that error.
pub proof fn lemma_effects_reached(block: Seq<NodeView>, s: State, host: Host, depth: nat) -> (n:
    nat)
    requires
        !(effects(block, s.turtle, s.vars, host, depth) is Unknown),
    ensures
        match effects(block, s.turtle, s.vars, host, depth) {
            Meaning::Done(w) => hops(running(s.push_tasks(schedule(block))), host, n) == running(
                settled(s, w),
            ),
            Meaning::Failed(error) => hops(
                running(s.push_tasks(schedule(block))),
                host,
                n,
            ).status == Status::Failed(error),
            Meaning::Unknown => true,
        },
    decreases depth, block, 0int,
{
    if block.len() == 0 {
        lemma_schedule_none(s, block);
        assert(settled(s, World { turtle: s.turtle, vars: s.vars }) == s);
        0
    } else {
        let rest = block.subrange(1, block.len() as int);
        lemma_schedule_first(s, block);
        let under = s.push_tasks(schedule(rest));
        let a = lemma_effect_reached(block[0], under, host, depth);
        match effect(block[0], s.turtle, s.vars, host, depth) {
            Meaning::Done(w) => {
                assert(settled(under, w) == settled(s, w).push_tasks(schedule(rest)));
                let b = lemma_effects_reached(rest, settled(s, w), host, depth);
                lemma_hops_add(running(s.push_tasks(schedule(block))), host, a, b);
                match effects(rest, w.turtle, w.vars, host, depth) {
                    Meaning::Done(w2) => {
                        assert(settled(settled(s, w), w2) == settled(s, w2));
                    },
                    _ => {},
                }
                a + b
            },
            _ => a,
        }
    }
}

/// The machine computes the meaning of a script. Take a machine that holds
/// nothing but the script's tasks, and a host that answers every request by
/// its two functions. Where the script's effect on the turtle and the
/// variables is a world, the run finishes, with that turtle and those
/// variables and with both stacks empty; where it is an error, the run
/// fails with that error.
pub proof fn theorem_machine_computes_meaning(
    script: Seq<NodeView>,
    turtle: Turtle,
    vars: Map<Seq<char>, ExpressionView>,
    host: Host,
    depth: nat,
) -> (n: nat)
    requires
        !(effects(script, turtle, vars, host, depth) is Unknown),
    ensures
        ({
            let start = running(
                State {
                    turtle,
                    vars,
                    tasks: schedule(script),
                    values: Seq::<Number>::empty(),
                },
            );
            match effects(script, turtle, vars, host, depth) {
                Meaning::Done(w) => hops(start, host, n) == (Config {
                    state: State {
                        turtle: w.turtle,
                        vars: w.vars,
                        tasks: Seq::<TaskView>::empty(),
                        values: Seq::<Number>::empty(),
                    },
                    reply: Reply::Nothing,
                    status: Status::Finished,
                }),
                Meaning::Failed(error) => hops(start, host, n).status == Status::Failed(error),
                Meaning::Unknown => true,
            }
        }),
{
    let idle = State {
        turtle,
        vars,
        tasks: Seq::<TaskView>::empty(),
        values: Seq::<Number>::empty(),
    };
    assert(idle.push_tasks(schedule(script)).tasks =~= schedule(script));
    let start = running(idle.push_tasks(schedule(script)));
    let a = lemma_effects_reached(script, idle, host, depth);
    match effects(script, turtle, vars, host, depth) {
        Meaning::Done(w) => {
            let last = running(settled(idle, w));
            lemma_hops_add(start, host, a, 1);
            lemma_hops_one(last, host);
            a + 1
        },
        _ => a,
    }
}

} // verus!
