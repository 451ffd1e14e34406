//! The state of a running script.
//!
//! The evaluator works in small steps. What is still to do stands on a stack
//! of tasks, and the numbers already worked out stand on a stack of values.
//! A step takes the top task and carries it out; where the task needs a sum
//! rounded or a line drawn, the step ends with a request to the embedding
//! program, and the next step takes the reply.

use vstd::prelude::*;
use crate::environment::Environment;
use crate::interpreter::errors::{ExecutionError, ExecutionErrorView};
use crate::interpreter::turtle::{Movement, Turtle};
use crate::number::Number;
use crate::parser::ast::{
    ASTNode,
    Action,
    Condition,
    ConditionView,
    Expression,
    ExpressionView,
    NodeView,
    Operator,
    block_view,
};

verus! {

/// Something still to do.
#[derive(Debug, PartialEq)]
pub enum Task {
    /// Run a statement.
    Run(ASTNode),
    /// Work out an expression and put its value on the values.
    Evaluate(Expression),
    /// Apply an operator to the two values on top.
    Apply(Operator),
    /// Fail if the value on top, a divisor, is zero.
    Guard,
    /// Take the value on top as the operand of a command.
    Perform(Action),
    /// Bind the value on top to a name.
    Store(String),
    /// Add the value on top to what a name is bound to.
    Increase(String),
    /// Run a block if the value on top is true.
    Branch(Vec<ASTNode>),
    /// Run a block, and then the loop again, if the value on top is true.
    Repeat(Condition, Vec<ASTNode>),
    /// Take the number that the last request asked for.
    AwaitNumber,
    /// Take the position that the last request asked for.
    AwaitPosition,
}

pub enum TaskView {
    Run(NodeView),
    Evaluate(ExpressionView),
    Apply(Operator),
    Guard,
    Perform(Action),
    Store(Seq<char>),
    Increase(Seq<char>),
    Branch(Seq<NodeView>),
    Repeat(ConditionView, Seq<NodeView>),
    AwaitNumber,
    AwaitPosition,
}

impl View for Task {
    type V = TaskView;

    open spec fn view(&self) -> TaskView {
        match self {
            Task::Run(node) => TaskView::Run(node@),
            Task::Evaluate(e) => TaskView::Evaluate(e@),
            Task::Apply(op) => TaskView::Apply(*op),
            Task::Guard => TaskView::Guard,
            Task::Perform(action) => TaskView::Perform(*action),
            Task::Store(name) => TaskView::Store(name@),
            Task::Increase(name) => TaskView::Increase(name@),
            Task::Branch(block) => TaskView::Branch(block_view(block@)),
            Task::Repeat(condition, block) => TaskView::Repeat(condition@, block_view(block@)),
            Task::AwaitNumber => TaskView::AwaitNumber,
            Task::AwaitPosition => TaskView::AwaitPosition,
        }
    }
}

/// What a step asks of the embedding program.
#[derive(Debug, PartialEq)]
pub enum Request {
    /// Nothing: take the next step.
    Continue,
    /// Nothing: the script has run to its end.
    Finished,
    /// Nothing: the script has failed.
    Failed(ExecutionError),
    /// The sum, difference, product or quotient of two numbers, rounded to
    /// single precision.
    Compute { operator: Operator, lhs: Number, rhs: Number },
    /// The end point of a movement, drawn where it says so.
    Travel(Movement),
}

pub enum RequestView {
    Continue,
    Finished,
    Failed(ExecutionErrorView),
    Compute { operator: Operator, lhs: Number, rhs: Number },
    Travel(Movement),
}

impl View for Request {
    type V = RequestView;

    open spec fn view(&self) -> RequestView {
        match self {
            Request::Continue => RequestView::Continue,
            Request::Finished => RequestView::Finished,
            Request::Failed(e) => RequestView::Failed(e@),
            Request::Compute { operator, lhs, rhs } => RequestView::Compute {
                operator: *operator,
                lhs: *lhs,
                rhs: *rhs,
            },
            Request::Travel(m) => RequestView::Travel(*m),
        }
    }
}

/// What the embedding program hands to a step.
#[derive(Debug, Clone, Copy, PartialEq, Eq)]
pub enum Reply {
    /// Nothing was asked for.
    Nothing,
    /// The number that a `Compute` asked for.
    Number(Number),
    /// The end point that a `Travel` asked for.
    Position(Number, Number),
}

/// The turtle, the variables, and the two stacks. The top of a stack is its
/// last element.
pub struct Interpreter {
    pub turtle: Turtle,
    pub vars: Environment,
    pub tasks: Vec<Task>,
    pub values: Vec<Number>,
}

pub struct State {
    pub turtle: Turtle,
    pub vars: Map<Seq<char>, ExpressionView>,
    pub tasks: Seq<TaskView>,
    pub values: Seq<Number>,
}

/// The state after a step, and what the step asks for.
pub struct Transition {
    pub next: State,
    pub request: RequestView,
}

pub open spec fn task_views(tasks: Seq<Task>) -> Seq<TaskView> {
    Seq::new(tasks.len(), |i: int| tasks[i]@)
}

impl View for Interpreter {
    type V = State;

    open spec fn view(&self) -> State {
        State {
            turtle: self.turtle,
            vars: self.vars@,
            tasks: task_views(self.tasks@),
            values: self.values@,
        }
    }
}

/// The tasks that run the statements of `block` in order: the first
/// statement's task on top.
pub open spec fn schedule(block: Seq<NodeView>) -> Seq<TaskView> {
    Seq::new(block.len(), |i: int| TaskView::Run(block[block.len() - 1 - i]))
}

impl State {
    pub open spec fn push_task(self, task: TaskView) -> State {
        State { tasks: self.tasks.push(task), ..self }
    }

    pub open spec fn push_tasks(self, tasks: Seq<TaskView>) -> State {
        State { tasks: self.tasks + tasks, ..self }
    }

    pub open spec fn pop_task(self) -> State {
        State { tasks: self.tasks.drop_last(), ..self }
    }

    pub open spec fn push_value(self, value: Number) -> State {
        State { values: self.values.push(value), ..self }
    }

    pub open spec fn pop_value(self) -> State {
        State { values: self.values.drop_last(), ..self }
    }

    pub open spec fn with_turtle(self, turtle: Turtle) -> State {
        State { turtle, ..self }
    }

    pub open spec fn bind(self, name: Seq<char>, value: ExpressionView) -> State {
        State { vars: self.vars.insert(name, value), ..self }
    }

    /// The step is done and asks for nothing.
    pub open spec fn proceed(self) -> Transition {
        Transition { next: self, request: RequestView::Continue }
    }

    /// The script fails.
    pub open spec fn fail(self, error: ExecutionErrorView) -> Transition {
        Transition { next: self, request: RequestView::Failed(error) }
    }

    /// The step ends with a request, and `task` waits for the reply.
    pub open spec fn ask(self, request: RequestView, task: TaskView) -> Transition {
        Transition { next: self.push_task(task), request }
    }
}

/// What a step finds missing when the values run out or the reply is none.
pub open spec fn wanted_number() -> ExecutionErrorView {
    ExecutionErrorView::TypeError("number"@)
}

/// What a step finds missing when the reply is no position.
pub open spec fn wanted_position() -> ExecutionErrorView {
    ExecutionErrorView::TypeError("position"@)
}

impl Interpreter {
    /// A machine with nothing to do.
    pub fn new(turtle: Turtle, vars: Environment) -> (r: Interpreter)
        ensures
            r@ == (State {
                turtle,
                vars: vars@,
                tasks: Seq::<TaskView>::empty(),
                values: Seq::<Number>::empty(),
            }),
    {
        let r = Interpreter { turtle, vars, tasks: Vec::new(), values: Vec::new() };
        assert(task_views(r.tasks@) =~= Seq::<TaskView>::empty());
        r
    }

    /// Whether nothing is left to do.
    pub fn is_finished(&self) -> (r: bool)
        ensures
            r == (self@.tasks.len() == 0),
    {
        self.tasks.len() == 0
    }

    pub fn push_task(&mut self, task: Task)
        ensures
            final(self)@ == old(self)@.push_task(task@),
    {
        self.tasks.push(task);
        assert(task_views(self.tasks@) =~= task_views(old(self).tasks@).push(task@));
    }

    pub fn pop_task(&mut self) -> (r: Option<Task>)
        ensures
            match r {
                Some(task) => old(self)@.tasks.len() > 0 && task@ == old(self)@.tasks.last()
                    && final(self)@ == old(self)@.pop_task(),
                None => old(self)@.tasks.len() == 0 && final(self)@ == old(self)@,
            },
    {
        let r = self.tasks.pop();
        assert(r is Some ==> task_views(self.tasks@) =~= task_views(old(self).tasks@).drop_last());
        r
    }

    pub fn push_value(&mut self, value: Number)
        ensures
            final(self)@ == old(self)@.push_value(value),
    {
        self.values.push(value);
    }

    pub fn pop_value(&mut self) -> (r: Option<Number>)
        ensures
            match r {
                Some(value) => old(self)@.values.len() > 0 && value == old(self)@.values.last()
                    && final(self)@ == old(self)@.pop_value(),
                None => old(self)@.values.len() == 0 && final(self)@ == old(self)@,
            },
    {
        self.values.pop()
    }

    /// Puts the statements of `block` on the tasks, the first on top.
    pub fn push_block(&mut self, block: Vec<ASTNode>)
        ensures
            final(self)@ == old(self)@.push_tasks(schedule(block_view(block@))),
    {
        let mut block = block;
        let ghost all = block_view(block@);
        let ghost before = self@;
        assert(before.tasks + schedule(all).take(0) =~= before.tasks);
        while block.len() > 0
            invariant
                block_view(block@) == all.take(block.len() as int),
                block.len() <= all.len(),
                self@ == before.push_tasks(schedule(all).take(all.len() - block.len())),
            decreases block.len(),
        {
            let ghost n = block.len() as int;
            let ghost done = all.len() - n;
            let ghost prev = block@;
            let node = block.pop().unwrap();
            proof {
                assert(node@ == all[n - 1]) by {
                    assert(block_view(prev)[n - 1] == node@);
                    assert(all.take(n)[n - 1] == all[n - 1]);
                }
                assert(block_view(block@) =~= all.take(n - 1)) by {
                    assert forall|i: int| 0 <= i < n - 1 implies block_view(block@)[i] == all[i] by {
                        assert(block_view(prev)[i] == all.take(n)[i]);
                    }
                }
                assert(schedule(all).take(done + 1) =~= schedule(all).take(done).push(
                    TaskView::Run(node@),
                ));
                assert(before.tasks + schedule(all).take(done + 1) =~= (before.tasks + schedule(
                    all,
                ).take(done)).push(TaskView::Run(node@)));
            }
            self.push_task(Task::Run(node));
        }
        assert(schedule(all).take(all.len() as int) =~= schedule(all));
    }
}

/// A task put on the tasks is the next to be carried out, on the state as
/// it was before.
pub proof fn lemma_top_task(s: State, task: TaskView)
    ensures
        s.push_task(task).tasks.len() > 0,
        s.push_task(task).tasks.last() == task,
        s.push_task(task).pop_task() == s,
{
    assert(s.tasks.push(task).drop_last() =~= s.tasks);
}

/// A value put on the values is on top, above the values as they were.
pub proof fn lemma_top_value(s: State, value: Number)
    ensures
        s.push_value(value).values.len() > 0,
        s.push_value(value).values.last() == value,
        s.push_value(value).pop_value() == s,
{
    assert(s.values.push(value).drop_last() =~= s.values);
}

} // verus!
