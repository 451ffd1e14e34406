//! The abstract syntax tree of a script, and the mathematical value
//! (the view) of each of its node types.

use vstd::prelude::*;
use crate::number::Number;

verus! {

/// A statement: either a command or a control-flow construct.
#[derive(Debug, PartialEq)]
pub enum ASTNode {
    Command(Command),
    ControlFlow(ControlFlow),
}

/// An expression that evaluates to a number.
#[derive(Debug, PartialEq)]
pub enum Expression {
    Float(Number),
    Number(i32),
    Usize(usize),
    Query(Query),
    Variable(String),
    Math(Box<Math>),
}

#[derive(Debug, PartialEq)]
pub enum Command {
    Forward(Expression),
    Back(Expression),
    Left(Expression),
    Right(Expression),
    PenUp,
    PenDown,
    SetPenColor(Expression),
    Turn(Expression),
    SetHeading(Expression),
    SetX(Expression),
    SetY(Expression),
    Make(String, Expression),
    AddAssign(String, Expression),
}

/// A read of the turtle's live state.
#[derive(Debug, Clone, Copy, PartialEq, Eq)]
pub enum Query {
    XCor,
    YCor,
    Heading,
    Color,
}

/// A binary operation in prefix notation.
#[derive(Debug, PartialEq)]
pub enum Math {
    Add(Expression, Expression),
    Sub(Expression, Expression),
    Mul(Expression, Expression),
    Div(Expression, Expression),
    Eq(Expression, Expression),
    Lt(Expression, Expression),
    Gt(Expression, Expression),
    Ne(Expression, Expression),
    And(Expression, Expression),
    Or(Expression, Expression),
}

#[derive(Debug, PartialEq)]
pub enum ControlFlow {
    If { condition: Condition, block: Vec<ASTNode> },
    While { condition: Condition, block: Vec<ASTNode> },
}

#[derive(Debug, PartialEq)]
pub enum Condition {
    Equals(Expression, Expression),
    LessThan(Expression, Expression),
    GreaterThan(Expression, Expression),
    And(Expression, Expression),
    Or(Expression, Expression),
}

/// The ten binary operators.
#[derive(Debug, Clone, Copy, PartialEq, Eq)]
pub enum Operator {
    Add,
    Sub,
    Mul,
    Div,
    Eq,
    Lt,
    Gt,
    Ne,
    And,
    Or,
}

/// The one-operand commands.
#[derive(Debug, Clone, Copy, PartialEq, Eq)]
pub enum Action {
    Forward,
    Back,
    Left,
    Right,
    SetPenColor,
    Turn,
    SetHeading,
    SetX,
    SetY,
}

pub enum ExpressionView {
    Float(Number),
    Number(i32),
    Usize(usize),
    Query(Query),
    Variable(Seq<char>),
    Math(Operator, Box<ExpressionView>, Box<ExpressionView>),
}

pub enum CommandView {
    Act(Action, ExpressionView),
    PenUp,
    PenDown,
    Make(Seq<char>, ExpressionView),
    AddAssign(Seq<char>, ExpressionView),
}

/// A condition is a comparison or a connective: one of `Eq`, `Lt`, `Gt`,
/// `And`, `Or` over two expressions.
pub struct ConditionView {
    pub operator: Operator,
    pub lhs: ExpressionView,
    pub rhs: ExpressionView,
}

pub enum NodeView {
    Command(CommandView),
    If(ConditionView, Seq<NodeView>),
    While(ConditionView, Seq<NodeView>),
}

pub open spec fn math(op: Operator, lhs: ExpressionView, rhs: ExpressionView) -> ExpressionView {
    ExpressionView::Math(op, Box::new(lhs), Box::new(rhs))
}

/// The view of an expression, by recursion over its structure.
pub open spec fn expression_view(e: Expression) -> ExpressionView
    decreases e,
{
    match e {
        Expression::Float(n) => ExpressionView::Float(n),
        Expression::Number(n) => ExpressionView::Number(n),
        Expression::Usize(n) => ExpressionView::Usize(n),
        Expression::Query(q) => ExpressionView::Query(q),
        Expression::Variable(name) => ExpressionView::Variable(name@),
        Expression::Math(m) => math_view(*m),
    }
}

/// The view of an operation: its operator over the views of its operands.
pub open spec fn math_view(m: Math) -> ExpressionView
    decreases m,
{
    match m {
        Math::Add(l, r) => math(Operator::Add, expression_view(l), expression_view(r)),
        Math::Sub(l, r) => math(Operator::Sub, expression_view(l), expression_view(r)),
        Math::Mul(l, r) => math(Operator::Mul, expression_view(l), expression_view(r)),
        Math::Div(l, r) => math(Operator::Div, expression_view(l), expression_view(r)),
        Math::Eq(l, r) => math(Operator::Eq, expression_view(l), expression_view(r)),
        Math::Lt(l, r) => math(Operator::Lt, expression_view(l), expression_view(r)),
        Math::Gt(l, r) => math(Operator::Gt, expression_view(l), expression_view(r)),
        Math::Ne(l, r) => math(Operator::Ne, expression_view(l), expression_view(r)),
        Math::And(l, r) => math(Operator::And, expression_view(l), expression_view(r)),
        Math::Or(l, r) => math(Operator::Or, expression_view(l), expression_view(r)),
    }
}

impl View for Expression {
    type V = ExpressionView;

    open spec fn view(&self) -> ExpressionView {
        expression_view(*self)
    }
}

impl View for Math {
    type V = ExpressionView;

    open spec fn view(&self) -> ExpressionView {
        math_view(*self)
    }
}

impl View for Command {
    type V = CommandView;

    open spec fn view(&self) -> CommandView {
        match self {
            Command::Forward(e) => CommandView::Act(Action::Forward, e@),
            Command::Back(e) => CommandView::Act(Action::Back, e@),
            Command::Left(e) => CommandView::Act(Action::Left, e@),
            Command::Right(e) => CommandView::Act(Action::Right, e@),
            Command::PenUp => CommandView::PenUp,
            Command::PenDown => CommandView::PenDown,
            Command::SetPenColor(e) => CommandView::Act(Action::SetPenColor, e@),
            Command::Turn(e) => CommandView::Act(Action::Turn, e@),
            Command::SetHeading(e) => CommandView::Act(Action::SetHeading, e@),
            Command::SetX(e) => CommandView::Act(Action::SetX, e@),
            Command::SetY(e) => CommandView::Act(Action::SetY, e@),
            Command::Make(name, e) => CommandView::Make(name@, e@),
            Command::AddAssign(name, e) => CommandView::AddAssign(name@, e@),
        }
    }
}

impl View for Condition {
    type V = ConditionView;

    open spec fn view(&self) -> ConditionView {
        match self {
            Condition::Equals(l, r) => ConditionView { operator: Operator::Eq, lhs: l@, rhs: r@ },
            Condition::LessThan(l, r) => ConditionView { operator: Operator::Lt, lhs: l@, rhs: r@ },
            Condition::GreaterThan(l, r) => ConditionView {
                operator: Operator::Gt,
                lhs: l@,
                rhs: r@,
            },
            Condition::And(l, r) => ConditionView { operator: Operator::And, lhs: l@, rhs: r@ },
            Condition::Or(l, r) => ConditionView { operator: Operator::Or, lhs: l@, rhs: r@ },
        }
    }
}

/// The views of the statements of a block, in order.
pub open spec fn block_view(block: Seq<ASTNode>) -> Seq<NodeView>
    decreases block,
{
    Seq::new(
        block.len(),
        |i: int|
            if 0 <= i < block.len() {
                node_view(block[i])
            } else {
                NodeView::Command(CommandView::PenUp)
            },
    )
}

/// The view of a statement, by recursion over its structure.
pub open spec fn node_view(node: ASTNode) -> NodeView
    decreases node,
{
    match node {
        ASTNode::Command(c) => NodeView::Command(c@),
        ASTNode::ControlFlow(ControlFlow::If { condition, block }) => NodeView::If(
            condition@,
            block_view(block@),
        ),
        ASTNode::ControlFlow(ControlFlow::While { condition, block }) => NodeView::While(
            condition@,
            block_view(block@),
        ),
    }
}

impl View for ASTNode {
    type V = NodeView;

    open spec fn view(&self) -> NodeView {
        node_view(*self)
    }
}

/// An equal copy of an expression.
pub fn copy_expression(e: &Expression) -> (r: Expression)
    ensures
        r@ == e@,
    decreases e,
{
    match e {
        Expression::Float(n) => Expression::Float(*n),
        Expression::Number(n) => Expression::Number(*n),
        Expression::Usize(n) => Expression::Usize(*n),
        Expression::Query(q) => Expression::Query(*q),
        Expression::Variable(name) => Expression::Variable(name.clone()),
        Expression::Math(m) => Expression::Math(Box::new(copy_math(&**m))),
    }
}

/// An equal copy of an operation.
pub fn copy_math(m: &Math) -> (r: Math)
    ensures
        r@ == m@,
    decreases m,
{
    match m {
        Math::Add(l, r) => Math::Add(copy_expression(l), copy_expression(r)),
        Math::Sub(l, r) => Math::Sub(copy_expression(l), copy_expression(r)),
        Math::Mul(l, r) => Math::Mul(copy_expression(l), copy_expression(r)),
        Math::Div(l, r) => Math::Div(copy_expression(l), copy_expression(r)),
        Math::Eq(l, r) => Math::Eq(copy_expression(l), copy_expression(r)),
        Math::Lt(l, r) => Math::Lt(copy_expression(l), copy_expression(r)),
        Math::Gt(l, r) => Math::Gt(copy_expression(l), copy_expression(r)),
        Math::Ne(l, r) => Math::Ne(copy_expression(l), copy_expression(r)),
        Math::And(l, r) => Math::And(copy_expression(l), copy_expression(r)),
        Math::Or(l, r) => Math::Or(copy_expression(l), copy_expression(r)),
    }
}

/// An equal copy of a command.
pub fn copy_command(c: &Command) -> (r: Command)
    ensures
        r@ == c@,
{
    match c {
        Command::Forward(e) => Command::Forward(copy_expression(e)),
        Command::Back(e) => Command::Back(copy_expression(e)),
        Command::Left(e) => Command::Left(copy_expression(e)),
        Command::Right(e) => Command::Right(copy_expression(e)),
        Command::PenUp => Command::PenUp,
        Command::PenDown => Command::PenDown,
        Command::SetPenColor(e) => Command::SetPenColor(copy_expression(e)),
        Command::Turn(e) => Command::Turn(copy_expression(e)),
        Command::SetHeading(e) => Command::SetHeading(copy_expression(e)),
        Command::SetX(e) => Command::SetX(copy_expression(e)),
        Command::SetY(e) => Command::SetY(copy_expression(e)),
        Command::Make(name, e) => Command::Make(name.clone(), copy_expression(e)),
        Command::AddAssign(name, e) => Command::AddAssign(name.clone(), copy_expression(e)),
    }
}

/// An equal copy of a condition.
pub fn copy_condition(c: &Condition) -> (r: Condition)
    ensures
        r@ == c@,
{
    match c {
        Condition::Equals(l, r) => Condition::Equals(copy_expression(l), copy_expression(r)),
        Condition::LessThan(l, r) => Condition::LessThan(copy_expression(l), copy_expression(r)),
        Condition::GreaterThan(l, r) => Condition::GreaterThan(
            copy_expression(l),
            copy_expression(r),
        ),
        Condition::And(l, r) => Condition::And(copy_expression(l), copy_expression(r)),
        Condition::Or(l, r) => Condition::Or(copy_expression(l), copy_expression(r)),
    }
}

/// An equal copy of a block, statement by statement.
pub fn copy_block(block: &Vec<ASTNode>) -> (r: Vec<ASTNode>)
    ensures
        block_view(r@) == block_view(block@),
    decreases block,
{
    let mut out: Vec<ASTNode> = Vec::new();
    let mut i: usize = 0;
    while i < block.len()
        invariant
            i <= block.len(),
            out.len() == i,
            forall|j: int| 0 <= j < i ==> out[j]@ == block[j]@,
        decreases block.len() - i,
    {
        let node = copy_node(&block[i]);
        out.push(node);
        i = i + 1;
    }
    assert(block_view(out@) =~= block_view(block@));
    out
}

/// An equal copy of a statement.
pub fn copy_node(node: &ASTNode) -> (r: ASTNode)
    ensures
        r@ == node@,
    decreases node,
{
    match node {
        ASTNode::Command(c) => ASTNode::Command(copy_command(c)),
        ASTNode::ControlFlow(ControlFlow::If { condition, block }) => ASTNode::ControlFlow(
            ControlFlow::If { condition: copy_condition(condition), block: copy_block(block) },
        ),
        ASTNode::ControlFlow(ControlFlow::While { condition, block }) => ASTNode::ControlFlow(
            ControlFlow::While { condition: copy_condition(condition), block: copy_block(block) },
        ),
    }
}

impl Clone for Expression {
    fn clone(&self) -> (r: Self)
        ensures
            r@ == self@,
    {
        copy_expression(self)
    }
}

impl Clone for Math {
    fn clone(&self) -> (r: Self)
        ensures
            r@ == self@,
    {
        copy_math(self)
    }
}

impl Clone for Command {
    fn clone(&self) -> (r: Self)
        ensures
            r@ == self@,
    {
        copy_command(self)
    }
}

impl Clone for Condition {
    fn clone(&self) -> (r: Self)
        ensures
            r@ == self@,
    {
        copy_condition(self)
    }
}

impl Clone for ASTNode {
    fn clone(&self) -> (r: Self)
        ensures
            r@ == self@,
    {
        copy_node(self)
    }
}

impl Clone for ControlFlow {
    fn clone(&self) -> (r: Self)
        ensures
            ASTNode::ControlFlow(r)@ == ASTNode::ControlFlow(*self)@,
    {
        match self {
            ControlFlow::If { condition, block } => ControlFlow::If {
                condition: copy_condition(condition),
                block: copy_block(block),
            },
            ControlFlow::While { condition, block } => ControlFlow::While {
                condition: copy_condition(condition),
                block: copy_block(block),
            },
        }
    }
}

} // verus!
