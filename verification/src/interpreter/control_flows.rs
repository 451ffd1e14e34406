//! The steps of `IF` and `WHILE`.

use vstd::prelude::*;
use crate::interpreter::errors::ExecutionError;
use crate::interpreter::machine::{
    Interpreter,
    Request,
    State,
    Task,
    TaskView,
    Transition,
    schedule,
    wanted_number,
};
use crate::parser::ast::{
    ASTNode,
    Condition,
    ConditionView,
    ControlFlow,
    Expression,
    ExpressionView,
    Math,
    NodeView,
    block_view,
    copy_block,
    copy_condition,
    math,
};

verus! {

/// The expression that is true where the condition holds.
pub open spec fn test_of(c: ConditionView) -> ExpressionView {
    math(c.operator, c.lhs, c.rhs)
}

/// The step for an `IF`: work out the condition, then decide on the block.
pub open spec fn conditional(s: State, c: ConditionView, block: Seq<NodeView>) -> Transition {
    s.push_task(TaskView::Branch(block)).push_task(TaskView::Evaluate(test_of(c))).proceed()
}

/// The step for a `WHILE`: work out the condition, then decide on the
/// block and on another round.
pub open spec fn looping(s: State, c: ConditionView, block: Seq<NodeView>) -> Transition {
    s.push_task(TaskView::Repeat(c, block)).push_task(TaskView::Evaluate(test_of(c))).proceed()
}

/// The step that decides on the block of an `IF`: it runs once where the
/// value on top is true, and not at all where it is not.
pub open spec fn branched(s: State, block: Seq<NodeView>) -> Transition {
    if s.values.len() < 1 {
        s.fail(wanted_number())
    } else if s.values.last().truthy() {
        s.pop_value().push_tasks(schedule(block)).proceed()
    } else {
        s.pop_value().proceed()
    }
}

/// The step that decides on the block of a `WHILE`: where the value on top
/// is true the block runs and the loop comes up again after it; where it is
/// not, the loop is over.
pub open spec fn repeated(s: State, c: ConditionView, block: Seq<NodeView>) -> Transition {
    if s.values.len() < 1 {
        s.fail(wanted_number())
    } else if s.values.last().truthy() {
        s.pop_value().push_task(TaskView::Run(NodeView::While(c, block))).push_tasks(
            schedule(block),
        ).proceed()
    } else {
        s.pop_value().proceed()
    }
}

/// The expression that is true where the condition holds.
pub fn comparator(condition: Condition) -> (r: Expression)
    ensures
        r@ == test_of(condition@),
{
    let m = match condition {
        Condition::Equals(l, r) => Math::Eq(l, r),
        Condition::LessThan(l, r) => Math::Lt(l, r),
        Condition::GreaterThan(l, r) => Math::Gt(l, r),
        Condition::And(l, r) => Math::And(l, r),
        Condition::Or(l, r) => Math::Or(l, r),
    };
    Expression::Math(Box::new(m))
}

/// Puts the working out of a condition on the tasks. Its value, 1 or 0,
/// will stand on top of the values.
pub fn should_execute(condition: Condition, machine: &mut Interpreter)
    ensures
        final(machine)@ == old(machine)@.push_task(TaskView::Evaluate(test_of(condition@))),
{
    machine.push_task(Task::Evaluate(comparator(condition)));
}

/// Takes one step on an `IF`: puts the decision on its block, and before
/// it the working out of its condition, on the tasks.
pub fn eval_exec_if(condition: Condition, block: Vec<ASTNode>, machine: &mut Interpreter) -> (r:
    Request)
    ensures
        (Transition { next: final(machine)@, request: r@ }) == conditional(
            old(machine)@,
            condition@,
            block_view(block@),
        ),
{
    machine.push_task(Task::Branch(block));
    should_execute(condition, machine);
    Request::Continue
}

/// Takes one step on a `WHILE`: puts the decision on its block, and before
/// it the working out of its condition, on the tasks.
pub fn eval_exec_while(condition: Condition, block: Vec<ASTNode>, machine: &mut Interpreter) -> (r:
    Request)
    ensures
        (Transition { next: final(machine)@, request: r@ }) == looping(
            old(machine)@,
            condition@,
            block_view(block@),
        ),
{
    let test = copy_condition(&condition);
    machine.push_task(Task::Repeat(condition, block));
    should_execute(test, machine);
    Request::Continue
}

/// Decides on the block of an `IF` by the value on top.
pub(crate) fn branch(block: Vec<ASTNode>, machine: &mut Interpreter) -> (r: Request)
    ensures
        (Transition { next: final(machine)@, request: r@ }) == branched(
            old(machine)@,
            block_view(block@),
        ),
{
    match machine.pop_value() {
        None => Request::Failed(ExecutionError::type_error("number")),
        Some(v) => {
            if v.is_truthy() {
                machine.push_block(block);
            }
            Request::Continue
        },
    }
}

/// Decides on the block of a `WHILE`, and on another round, by the value
/// on top.
pub(crate) fn repeat(condition: Condition, block: Vec<ASTNode>, machine: &mut Interpreter) -> (r: Request)
    ensures
        (Transition { next: final(machine)@, request: r@ }) == repeated(
            old(machine)@,
            condition@,
            block_view(block@),
        ),
{
    match machine.pop_value() {
        None => Request::Failed(ExecutionError::type_error("number")),
        Some(v) => {
            if v.is_truthy() {
                let body = copy_block(&block);
                machine.push_task(
                    Task::Run(ASTNode::ControlFlow(ControlFlow::While { condition, block })),
                );
                machine.push_block(body);
            }
            Request::Continue
        },
    }
}

} // verus!
