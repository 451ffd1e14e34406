//! What holds of every run: statements about the steps of the machine,
//! proved from their definitions.

use vstd::prelude::*;
use crate::interpreter::control_flows::test_of;
use crate::interpreter::errors::ExecutionErrorView;
use crate::interpreter::execute::{current, is_movement, run_of, step_of};
use crate::interpreter::machine::{
    Reply,
    RequestView,
    State,
    TaskView,
    Transition,
    lemma_top_task,
    lemma_top_value,
};
use crate::interpreter::matches::{operation_tasks, query_value};
use crate::interpreter::meaning::{Host, Meaning, World, acted, effect, effects, value};
use crate::interpreter::turtle::{Movement, Turtle, direction_of, palette};
use crate::number::{Number, lemma_small_integer_is_exact};
use crate::parser::ast::{
    Action,
    CommandView,
    ConditionView,
    ExpressionView,
    NodeView,
    Operator,
    Query,
    math,
};
use crate::parser::errors::ParseErrorView;
use crate::parser::grammar::{Variables, expression, literal};

verus! {

/// A literal parses to the number it denotes and evaluates to that same
/// number: where the token at the cursor is a literal for `v`, the parser
/// yields the expression `Float(v)`; the value of that expression is `v`,
/// whatever the turtle, the variables and the host; and one step on it puts
/// `v` on the values and asks for nothing.
pub proof fn lemma_literal_round_trip(
    tokens: Seq<Seq<char>>,
    numerals: Seq<Option<Number>>,
    pos: int,
    vars: Variables,
    v: Number,
    s: State,
    reply: Reply,
)
    requires
        literal(tokens, numerals, pos) == Ok::<Number, ParseErrorView>(v),
    ensures
        expression(tokens, numerals, pos, vars).result == Ok::<
            ExpressionView,
            ParseErrorView,
        >(ExpressionView::Float(v)),
        expression(tokens, numerals, pos, vars).pos == pos,
        step_of(s.push_task(TaskView::Evaluate(ExpressionView::Float(v))), reply) == s.push_value(
            v,
        ).proceed(),
        forall|host: Host, depth: nat|
            value(ExpressionView::Float(v), s.turtle, s.vars, host, depth) == Meaning::Done(v),
{
    lemma_top_task(s, TaskView::Evaluate(ExpressionView::Float(v)));
}

/// Adding to a name that is bound to no number fails with
/// `VariableNotFound`, whatever was to be added.
pub proof fn lemma_add_assign_unbound(s: State, name: Seq<char>, v: Number, reply: Reply)
    requires
        current(s.vars, name) is None,
    ensures
        step_of(s.push_value(v).push_task(TaskView::Increase(name)), reply) == s.fail(
            ExecutionErrorView::VariableNotFound(name),
        ),
{
    lemma_top_task(s.push_value(v), TaskView::Increase(name));
    lemma_top_value(s, v);
}

/// `ADDASSIGN` of a literal to an unbound name fails within three steps,
/// and none of them asks for anything.
pub proof fn lemma_add_assign_literal_unbound(s: State, name: Seq<char>, v: Number)
    requires
        !s.vars.dom().contains(name),
    ensures
        run_of(
            s.push_task(
                TaskView::Run(
                    NodeView::Command(CommandView::AddAssign(name, ExpressionView::Float(v))),
                ),
            ),
            Reply::Nothing,
            3,
        ).request == RequestView::Failed(ExecutionErrorView::VariableNotFound(name)),
{
    let e = ExpressionView::Float(v);
    let node = NodeView::Command(CommandView::AddAssign(name, e));
    let s0 = s.push_task(TaskView::Run(node));
    lemma_top_task(s, TaskView::Run(node));
    let s1 = s.push_task(TaskView::Increase(name)).push_task(TaskView::Evaluate(e));
    assert(step_of(s0, Reply::Nothing) == s1.proceed());
    lemma_top_task(s.push_task(TaskView::Increase(name)), TaskView::Evaluate(e));
    let s2 = s.push_task(TaskView::Increase(name)).push_value(v);
    assert(step_of(s1, Reply::Nothing) == s2.proceed());
    assert(s2 == s.push_value(v).push_task(TaskView::Increase(name)));
    lemma_add_assign_unbound(s, name, v, Reply::Nothing);
    reveal_with_fuel(run_of, 4);
}

/// `MAKE` of a literal and then `ADDASSIGN` of a literal to the same name:
/// the first four steps end by asking for the sum of the two numbers, and
/// the two steps that take the sum leave the name bound to it.
pub proof fn lemma_make_then_add_assign(
    s: State,
    name: Seq<char>,
    a: Number,
    b: Number,
    sum: Number,
)
    ensures
        ({
            let make = NodeView::Command(CommandView::Make(name, ExpressionView::Float(a)));
            let add = NodeView::Command(CommandView::AddAssign(name, ExpressionView::Float(b)));
            let start = s.push_task(TaskView::Run(add)).push_task(TaskView::Run(make));
            let asked = run_of(start, Reply::Nothing, 4);
            let done = run_of(asked.next, Reply::Number(sum), 2);
            &&& asked.request == RequestView::Compute { operator: Operator::Add, lhs: a, rhs: b }
            &&& done == s.bind(name, ExpressionView::Float(sum)).proceed()
        }),
{
    let ea = ExpressionView::Float(a);
    let eb = ExpressionView::Float(b);
    let make = NodeView::Command(CommandView::Make(name, ea));
    let add = NodeView::Command(CommandView::AddAssign(name, eb));
    let base = s.push_task(TaskView::Run(add));
    let start = base.push_task(TaskView::Run(make));
    lemma_top_task(base, TaskView::Run(make));
    let s1 = base.bind(name, ea);
    assert(step_of(start, Reply::Nothing) == s1.proceed());
    let bound = s.bind(name, ea);
    assert(s1 == bound.push_task(TaskView::Run(add)));
    lemma_top_task(bound, TaskView::Run(add));
    let s2 = bound.push_task(TaskView::Increase(name)).push_task(TaskView::Evaluate(eb));
    assert(step_of(s1, Reply::Nothing) == s2.proceed());
    lemma_top_task(bound.push_task(TaskView::Increase(name)), TaskView::Evaluate(eb));
    let s3 = bound.push_value(b).push_task(TaskView::Increase(name));
    assert(step_of(s2, Reply::Nothing) == s3.proceed());
    lemma_top_task(bound.push_value(b), TaskView::Increase(name));
    lemma_top_value(bound, b);
    assert(current(bound.vars, name) == Some(a));
    let s4 = bound.push_task(TaskView::Store(name)).push_task(TaskView::AwaitNumber);
    let ask = RequestView::Compute { operator: Operator::Add, lhs: a, rhs: b };
    assert(step_of(s3, Reply::Nothing) == (Transition { next: s4, request: ask }));
    reveal_with_fuel(run_of, 5);
    assert(run_of(start, Reply::Nothing, 4) == (Transition { next: s4, request: ask }));
    lemma_top_task(bound.push_task(TaskView::Store(name)), TaskView::AwaitNumber);
    let s5 = bound.push_value(sum).push_task(TaskView::Store(name));
    assert(step_of(s4, Reply::Number(sum)) == s5.proceed());
    lemma_top_task(bound.push_value(sum), TaskView::Store(name));
    lemma_top_value(bound, sum);
    let s6 = bound.bind(name, ExpressionView::Float(sum));
    assert(step_of(s5, Reply::Nothing) == s6.proceed());
    assert(s6.vars =~= s.vars.insert(name, ExpressionView::Float(sum)));
    assert(s6 == s.bind(name, ExpressionView::Float(sum)));
}

/// The pen decides whether a movement draws and nothing else: with the pen
/// up the movement leaves no trace, with the pen down it is a stroke, and
/// both start at the same point, go the same way and the same distance.
pub proof fn lemma_pen_decides_only_drawing(turtle: Turtle, action: Action, distance: Number)
    requires
        turtle.pen_color < 16,
    ensures
        ({
            let up = (Turtle { pen_down: false, ..turtle }).plan(action, distance);
            let down = (Turtle { pen_down: true, ..turtle }).plan(action, distance);
            &&& up is Ok
            &&& down is Ok
            &&& !up->Ok_0.draw
            &&& down->Ok_0.draw
            &&& down->Ok_0 == (Movement { draw: true, ..up->Ok_0 })
        }),
{
}

/// A movement command asks the drawing surface exactly once, and the turtle
/// goes where the answer says: the step that takes the distance asks for
/// the planned movement, and the next step, given an end point, puts the
/// turtle there and asks for nothing.
pub proof fn lemma_movement_asks_once(
    s: State,
    action: Action,
    distance: Number,
    x: Number,
    y: Number,
)
    requires
        is_movement(action),
        s.turtle.pen_color < 16,
    ensures
        ({
            let start = s.push_value(distance).push_task(TaskView::Perform(action));
            let asked = step_of(start, Reply::Nothing);
            let arrived = step_of(asked.next, Reply::Position(x, y));
            &&& asked.request == RequestView::Travel(
                s.turtle.movement(direction_of(action, s.turtle.heading as int), distance),
            )
            &&& arrived == s.with_turtle(Turtle { x, y, ..s.turtle }).proceed()
        }),
{
    lemma_top_task(s.push_value(distance), TaskView::Perform(action));
    lemma_top_value(s, distance);
    lemma_top_task(s, TaskView::AwaitPosition);
}

/// A pen colour is an index from 0 to 15. A number that truncates to such
/// an index becomes the colour, and the movements planned after it carry
/// that colour of the palette; any other number fails with
/// `ColorIndexOutOfRange` and leaves the turtle as it was.
pub proof fn lemma_colour_range(s: State, v: Number, reply: Reply, action: Action, distance: Number)
    ensures
        ({
            let t = step_of(s.push_value(v).push_task(TaskView::Perform(Action::SetPenColor)), reply);
            if 0 <= v.as_usize() <= 15 {
                &&& t == s.with_turtle(
                    Turtle { pen_color: v.as_usize() as usize, ..s.turtle },
                ).proceed()
                &&& t.next.turtle.plan(action, distance) is Ok
                &&& t.next.turtle.plan(action, distance)->Ok_0.colour == palette(v.as_usize())
            } else {
                t == s.fail(ExecutionErrorView::ColorIndexOutOfRange)
            }
        }),
{
    lemma_top_task(s.push_value(v), TaskView::Perform(Action::SetPenColor));
    lemma_top_value(s, v);
}

/// A division by a literal equal to zero fails with `DivisionByZero` after
/// three steps, before the dividend is looked at and without any
/// arithmetic asked for.
pub proof fn lemma_division_by_zero(s: State, dividend: ExpressionView, zero: Number)
    requires
        zero.zero(),
    ensures
        ({
            let e = math(Operator::Div, dividend, ExpressionView::Float(zero));
            let start = s.push_task(TaskView::Evaluate(e));
            let first = step_of(start, Reply::Nothing);
            let second = step_of(first.next, Reply::Nothing);
            let third = step_of(second.next, Reply::Nothing);
            &&& first.request == RequestView::Continue
            &&& second.request == RequestView::Continue
            &&& third.request == RequestView::Failed(ExecutionErrorView::DivisionByZero)
            &&& third.next.turtle == s.turtle
            &&& third.next.vars == s.vars
        }),
{
    let divisor = ExpressionView::Float(zero);
    let e = math(Operator::Div, dividend, divisor);
    lemma_top_task(s, TaskView::Evaluate(e));
    let tasks = operation_tasks(Operator::Div, dividend, divisor);
    let s1 = s.push_tasks(tasks);
    assert(step_of(s.push_task(TaskView::Evaluate(e)), Reply::Nothing) == s1.proceed());
    let under = s.push_task(TaskView::Apply(Operator::Div)).push_task(
        TaskView::Evaluate(dividend),
    ).push_task(TaskView::Guard);
    assert(s1.tasks =~= under.push_task(TaskView::Evaluate(divisor)).tasks);
    assert(s1 == under.push_task(TaskView::Evaluate(divisor)));
    lemma_top_task(under, TaskView::Evaluate(divisor));
    let s2 = under.push_value(zero);
    assert(step_of(s1, Reply::Nothing) == s2.proceed());
    let below = s.push_task(TaskView::Apply(Operator::Div)).push_task(
        TaskView::Evaluate(dividend),
    ).push_value(zero);
    assert(s2 == below.push_task(TaskView::Guard));
    lemma_top_task(below, TaskView::Guard);
}

/// The heading is never normalised: a turn by `v` from the heading `h`
/// leaves the heading at `h` plus `v` rounded toward zero, and the heading
/// query then gives the nearest number to that very sum. The turn fails
/// only where the sum is outside the 32-bit range.
pub proof fn lemma_turn_adds(s: State, v: Number, reply: Reply)
    ensures
        ({
            let t = step_of(s.push_value(v).push_task(TaskView::Perform(Action::Turn)), reply);
            let sum = s.turtle.heading + v.as_i32();
            if i32::MIN <= sum <= i32::MAX {
                &&& t.request == RequestView::Continue
                &&& t.next.turtle.heading == sum
                &&& query_value(t.next.turtle, Query::Heading) == Number::of_int(sum)
            } else {
                t == s.fail(ExecutionErrorView::HeadingOutOfRange)
            }
        }),
{
    lemma_top_task(s.push_value(v), TaskView::Perform(Action::Turn));
    lemma_top_value(s, v);
}

/// A division by a number equal to zero means `DivisionByZero`, whatever
/// the dividend is: it may itself fail, or never come to a value.
pub proof fn lemma_division_by_zero_value(
    dividend: ExpressionView,
    divisor: ExpressionView,
    turtle: Turtle,
    vars: Map<Seq<char>, ExpressionView>,
    host: Host,
    depth: nat,
)
    requires
        value(divisor, turtle, vars, host, depth) is Done,
        value(divisor, turtle, vars, host, depth)->Done_0.zero(),
    ensures
        value(math(Operator::Div, dividend, divisor), turtle, vars, host, depth) == Meaning::<
            Number,
        >::Failed(ExecutionErrorView::DivisionByZero),
{
}

/// A division by a number other than zero is the quotient that the host
/// computes of the two values.
pub proof fn lemma_division_value(
    dividend: ExpressionView,
    divisor: ExpressionView,
    turtle: Turtle,
    vars: Map<Seq<char>, ExpressionView>,
    host: Host,
    depth: nat,
)
    requires
        value(dividend, turtle, vars, host, depth) is Done,
        value(divisor, turtle, vars, host, depth) is Done,
        !value(divisor, turtle, vars, host, depth)->Done_0.zero(),
    ensures
        value(math(Operator::Div, dividend, divisor), turtle, vars, host, depth) == Meaning::Done(
            (host.compute)(
                Operator::Div,
                value(dividend, turtle, vars, host, depth)->Done_0,
                value(divisor, turtle, vars, host, depth)->Done_0,
            ),
        ),
{
}

/// `MAKE` of a literal `a` and then `ADDASSIGN` of a literal `b` to the
/// same name leave the name bound to the host's sum of `a` and `b`, and
/// nothing else changed.
pub proof fn lemma_make_then_add_assign_effect(
    name: Seq<char>,
    a: Number,
    b: Number,
    turtle: Turtle,
    vars: Map<Seq<char>, ExpressionView>,
    host: Host,
    depth: nat,
)
    ensures
        effects(
            seq![
                NodeView::Command(CommandView::Make(name, ExpressionView::Float(a))),
                NodeView::Command(CommandView::AddAssign(name, ExpressionView::Float(b))),
            ],
            turtle,
            vars,
            host,
            depth,
        ) == Meaning::Done(
            World {
                turtle,
                vars: vars.insert(
                    name,
                    ExpressionView::Float((host.compute)(Operator::Add, a, b)),
                ),
            },
        ),
{
    let make = NodeView::Command(CommandView::Make(name, ExpressionView::Float(a)));
    let add = NodeView::Command(CommandView::AddAssign(name, ExpressionView::Float(b)));
    let both = seq![make, add];
    let rest = both.subrange(1, 2);
    let bound = vars.insert(name, ExpressionView::Float(a));
    let sum = ExpressionView::Float((host.compute)(Operator::Add, a, b));
    assert(effect(make, turtle, vars, host, depth) == Meaning::Done(World { turtle, vars: bound }));
    assert(rest[0] == add);
    assert(rest.subrange(1, 1).len() == 0);
    assert(current(bound, name) == Some(a));
    assert(effect(add, turtle, bound, host, depth) == Meaning::Done(
        World { turtle, vars: bound.insert(name, sum) },
    ));
    assert(bound.insert(name, sum) =~= vars.insert(name, sum));
    reveal_with_fuel(effects, 3);
}

/// `ADDASSIGN` to a name bound to no number means `VariableNotFound`,
/// whatever number was to be added.
pub proof fn lemma_add_assign_unbound_effect(
    name: Seq<char>,
    e: ExpressionView,
    turtle: Turtle,
    vars: Map<Seq<char>, ExpressionView>,
    host: Host,
    depth: nat,
)
    requires
        current(vars, name) is None,
        value(e, turtle, vars, host, depth) is Done,
    ensures
        effect(NodeView::Command(CommandView::AddAssign(name, e)), turtle, vars, host, depth)
            == Meaning::<World>::Failed(ExecutionErrorView::VariableNotFound(name)),
{
}

/// `SETPENCOLOR` of a value that truncates to 0..=15 sets the colour to
/// that index and changes nothing else; of any other value it means
/// `ColorIndexOutOfRange`.
pub proof fn lemma_colour_effect(
    e: ExpressionView,
    turtle: Turtle,
    vars: Map<Seq<char>, ExpressionView>,
    host: Host,
    depth: nat,
)
    requires
        value(e, turtle, vars, host, depth) is Done,
    ensures
        ({
            let index = value(e, turtle, vars, host, depth)->Done_0.as_usize();
            let meaning = effect(
                NodeView::Command(CommandView::Act(Action::SetPenColor, e)),
                turtle,
                vars,
                host,
                depth,
            );
            if 0 <= index <= 15 {
                meaning == Meaning::Done(
                    World { turtle: Turtle { pen_color: index as usize, ..turtle }, vars },
                )
            } else {
                meaning == Meaning::<World>::Failed(ExecutionErrorView::ColorIndexOutOfRange)
            }
        }),
{
}

/// A movement ends where the host says, with the pen up as with the pen
/// down, and changes nothing but the position.
pub proof fn lemma_movement_effect(action: Action, v: Number, turtle: Turtle, host: Host)
    requires
        is_movement(action),
        turtle.pen_color < 16,
    ensures
        ({
            let m = turtle.movement(direction_of(action, turtle.heading as int), v);
            &&& m.draw == turtle.pen_down
            &&& acted(action, v, turtle, host) == Ok::<Turtle, ExecutionErrorView>(
                Turtle { x: (host.travel)(m).0, y: (host.travel)(m).1, ..turtle },
            )
        }),
{
}

/// A `WHILE` whose condition is false at the start runs its block not
/// once: it changes nothing.
pub proof fn lemma_while_false(
    c: ConditionView,
    block: Seq<NodeView>,
    turtle: Turtle,
    vars: Map<Seq<char>, ExpressionView>,
    host: Host,
    depth: nat,
)
    requires
        value(test_of(c), turtle, vars, host, depth) is Done,
        !value(test_of(c), turtle, vars, host, depth)->Done_0.truthy(),
    ensures
        effect(NodeView::While(c, block), turtle, vars, host, depth) == Meaning::Done(
            World { turtle, vars },
        ),
{
}

/// A `WHILE` whose condition is true runs its block once and is then the
/// same `WHILE` again, in the world that the block has left.
pub proof fn lemma_while_true(
    c: ConditionView,
    block: Seq<NodeView>,
    turtle: Turtle,
    vars: Map<Seq<char>, ExpressionView>,
    host: Host,
    depth: nat,
)
    requires
        depth > 0,
        value(test_of(c), turtle, vars, host, depth) is Done,
        value(test_of(c), turtle, vars, host, depth)->Done_0.truthy(),
        effects(block, turtle, vars, host, depth) is Done,
    ensures
        ({
            let w = effects(block, turtle, vars, host, depth)->Done_0;
            effect(NodeView::While(c, block), turtle, vars, host, depth) == effect(
                NodeView::While(c, block),
                w.turtle,
                w.vars,
                host,
                (depth - 1) as nat,
            )
        }),
{
}

/// The heading is not normalised, and the heading query gives it back: a
/// turn by `v` from the heading `h` leaves the heading at `h` plus `v`
/// rounded toward zero, and where that sum has fewer than 25 bits the value
/// of `HEADING` is a number that rounds toward zero to the sum itself.
pub proof fn lemma_heading_is_kept(
    v: Number,
    turtle: Turtle,
    vars: Map<Seq<char>, ExpressionView>,
    host: Host,
    depth: nat,
)
    requires
        -0x100_0000 < turtle.heading + v.as_i32() < 0x100_0000,
    ensures
        ({
            let turned = acted(Action::Turn, v, turtle, host);
            &&& turned is Ok
            &&& turned->Ok_0.heading == turtle.heading + v.as_i32()
            &&& value(
                ExpressionView::Query(Query::Heading),
                turned->Ok_0,
                vars,
                host,
                depth,
            ) is Done
            &&& value(
                ExpressionView::Query(Query::Heading),
                turned->Ok_0,
                vars,
                host,
                depth,
            )->Done_0.truncation() == turtle.heading + v.as_i32()
        }),
{
    lemma_small_integer_is_exact(turtle.heading + v.as_i32());
}

/// Whether every variable that `e` reads is bound to a literal or a query.
pub open spec fn reads_numbers(e: ExpressionView, vars: Map<Seq<char>, ExpressionView>) -> bool
    decreases e,
{
    match e {
        ExpressionView::Variable(name) => vars.dom().contains(name) && match vars[name] {
            ExpressionView::Variable(other) => false,
            ExpressionView::Math(op, lhs, rhs) => false,
            _ => true,
        },
        ExpressionView::Math(op, lhs, rhs) => reads_numbers(*lhs, vars) && reads_numbers(
            *rhs,
            vars,
        ),
        _ => true,
    }
}

/// Where every variable that an expression reads is bound to a number, the
/// expression has a value at every depth, and the only error it can come to
/// is a division by zero: no variable is missing when it is read.
pub proof fn lemma_bound_variables_are_found(
    e: ExpressionView,
    turtle: Turtle,
    vars: Map<Seq<char>, ExpressionView>,
    host: Host,
    depth: nat,
)
    requires
        reads_numbers(e, vars),
    ensures
        !(value(e, turtle, vars, host, depth) is Unknown),
        value(e, turtle, vars, host, depth) is Failed ==> value(e, turtle, vars, host, depth)
            == Meaning::<Number>::Failed(ExecutionErrorView::DivisionByZero),
    decreases e,
{
    match e {
        ExpressionView::Math(op, lhs, rhs) => {
            lemma_bound_variables_are_found(*lhs, turtle, vars, host, depth);
            lemma_bound_variables_are_found(*rhs, turtle, vars, host, depth);
        },
        _ => {},
    }
}

} // verus!
