//! The syntax tree: definitions, blocks, statements and expressions.

use vstd::prelude::*;
use vstd::string::*;
use crate::definition::{ArgDefinition, ArgDefinitionView};
use crate::types::{
    DefinitionKind, LiteralValue, LiteralView, Position, PositionView, Signature, SignatureView,
};
use crate::views::views;

verus! {

/// Binary operators.
#[derive(Debug, Clone, Copy, PartialEq, Eq, Structural)]
pub enum BinaryOperator {
    Add,
    Subtract,
    Multiply,
    Divide,
    Modulo,
    Equal,
    NotEqual,
    Less,
    LessEqual,
    Greater,
    GreaterEqual,
    And,
    Or,
    Contains,
    StartsWith,
    EndsWith,
    Is,
    IsNot,
}

impl BinaryOperator {
    /// The name of the operator, as messages give it.
    pub open spec fn label(self) -> Seq<char> {
        match self {
            BinaryOperator::Add => "Add"@,
            BinaryOperator::Subtract => "Subtract"@,
            BinaryOperator::Multiply => "Multiply"@,
            BinaryOperator::Divide => "Divide"@,
            BinaryOperator::Modulo => "Modulo"@,
            BinaryOperator::Equal => "Equal"@,
            BinaryOperator::NotEqual => "NotEqual"@,
            BinaryOperator::Less => "Less"@,
            BinaryOperator::LessEqual => "LessEqual"@,
            BinaryOperator::Greater => "Greater"@,
            BinaryOperator::GreaterEqual => "GreaterEqual"@,
            BinaryOperator::And => "And"@,
            BinaryOperator::Or => "Or"@,
            BinaryOperator::Contains => "Contains"@,
            BinaryOperator::StartsWith => "StartsWith"@,
            BinaryOperator::EndsWith => "EndsWith"@,
            BinaryOperator::Is => "Is"@,
            BinaryOperator::IsNot => "IsNot"@,
        }
    }

    pub fn to_text(&self) -> (r: String)
        ensures
            r@ == self.label(),
    {
        match self {
            BinaryOperator::Add => String::from_str("Add"),
            BinaryOperator::Subtract => String::from_str("Subtract"),
            BinaryOperator::Multiply => String::from_str("Multiply"),
            BinaryOperator::Divide => String::from_str("Divide"),
            BinaryOperator::Modulo => String::from_str("Modulo"),
            BinaryOperator::Equal => String::from_str("Equal"),
            BinaryOperator::NotEqual => String::from_str("NotEqual"),
            BinaryOperator::Less => String::from_str("Less"),
            BinaryOperator::LessEqual => String::from_str("LessEqual"),
            BinaryOperator::Greater => String::from_str("Greater"),
            BinaryOperator::GreaterEqual => String::from_str("GreaterEqual"),
            BinaryOperator::And => String::from_str("And"),
            BinaryOperator::Or => String::from_str("Or"),
            BinaryOperator::Contains => String::from_str("Contains"),
            BinaryOperator::StartsWith => String::from_str("StartsWith"),
            BinaryOperator::EndsWith => String::from_str("EndsWith"),
            BinaryOperator::Is => String::from_str("Is"),
            BinaryOperator::IsNot => String::from_str("IsNot"),
        }
    }
}

/// Unary operators.
#[derive(Debug, Clone, Copy, PartialEq, Eq, Structural)]
pub enum UnaryOperator {
    Not,
    Minus,
}

impl UnaryOperator {
    /// The name of the operator, as messages give it.
    pub open spec fn label(self) -> Seq<char> {
        match self {
            UnaryOperator::Not => "Not"@,
            UnaryOperator::Minus => "Minus"@,
        }
    }

    pub fn to_text(&self) -> (r: String)
        ensures
            r@ == self.label(),
    {
        match self {
            UnaryOperator::Not => String::from_str("Not"),
            UnaryOperator::Minus => String::from_str("Minus"),
        }
    }
}

/// An expression.
#[allow(inconsistent_fields)]
#[derive(Debug, PartialEq)]
pub enum Expression {
    /// A value written out.
    Literal(LiteralValue),
    /// The value of a variable.
    Variable(String),
    /// A call of a built-in function.
    FunctionCall { name: String, args: Vec<Expression> },
    /// One item of an array.
    IndexAccess { object: Box<Expression>, index: Box<Expression> },
    BinaryOp { left: Box<Expression>, operator: BinaryOperator, right: Box<Expression> },
    UnaryOp { operator: UnaryOperator, operand: Box<Expression> },
    /// Text with expressions embedded in it.
    Interpolation { parts: Vec<InterpolationPart> },
    /// One variant of an enum, such as `Environment["production"]`.
    EnumAccess { enum_name: String, variant: String },
}

/// A piece of an interpolated string.
#[derive(Debug, PartialEq)]
pub enum InterpolationPart {
    Text(String),
    Expression(Expression),
}

/// An expression as the contracts see it.
#[allow(inconsistent_fields)]
pub enum ExprView {
    Literal(LiteralView),
    Variable(Seq<char>),
    FunctionCall { name: Seq<char>, args: Seq<ExprView> },
    IndexAccess { object: Box<ExprView>, index: Box<ExprView> },
    BinaryOp { left: Box<ExprView>, operator: BinaryOperator, right: Box<ExprView> },
    UnaryOp { operator: UnaryOperator, operand: Box<ExprView> },
    Interpolation { parts: Seq<PartView> },
    EnumAccess { enum_name: Seq<char>, variant: Seq<char> },
}

/// A piece of an interpolated string as the contracts see it.
pub enum PartView {
    Text(Seq<char>),
    Expression(ExprView),
}

/// The views of a list of expressions.
pub open spec fn expr_views(v: Seq<Expression>) -> Seq<ExprView>
    decreases v,
{
    Seq::new(
        v.len(),
        |i: int|
            if 0 <= i < v.len() {
                expr_view(v[i])
            } else {
                ExprView::Variable(Seq::empty())
            },
    )
}

/// The views of the pieces of an interpolated string.
pub open spec fn part_views(v: Seq<InterpolationPart>) -> Seq<PartView>
    decreases v,
{
    Seq::new(
        v.len(),
        |i: int|
            if 0 <= i < v.len() {
                part_view(v[i])
            } else {
                PartView::Text(Seq::empty())
            },
    )
}

/// The view of an expression.
pub open spec fn expr_view(e: Expression) -> ExprView
    decreases e,
{
    match e {
        Expression::Literal(l) => ExprView::Literal(l@),
        Expression::Variable(name) => ExprView::Variable(name@),
        Expression::FunctionCall { name, args } => ExprView::FunctionCall {
            name: name@,
            args: expr_views(args@),
        },
        Expression::IndexAccess { object, index } => ExprView::IndexAccess {
            object: Box::new(expr_view(*object)),
            index: Box::new(expr_view(*index)),
        },
        Expression::BinaryOp { left, operator, right } => ExprView::BinaryOp {
            left: Box::new(expr_view(*left)),
            operator,
            right: Box::new(expr_view(*right)),
        },
        Expression::UnaryOp { operator, operand } => ExprView::UnaryOp {
            operator,
            operand: Box::new(expr_view(*operand)),
        },
        Expression::Interpolation { parts } => ExprView::Interpolation { parts: part_views(parts@) },
        Expression::EnumAccess { enum_name, variant } => ExprView::EnumAccess {
            enum_name: enum_name@,
            variant: variant@,
        },
    }
}

/// The view of a piece of an interpolated string.
pub open spec fn part_view(p: InterpolationPart) -> PartView
    decreases p,
{
    match p {
        InterpolationPart::Text(t) => PartView::Text(t@),
        InterpolationPart::Expression(e) => PartView::Expression(expr_view(e)),
    }
}

impl View for Expression {
    type V = ExprView;

    open spec fn view(&self) -> ExprView {
        expr_view(*self)
    }
}

impl View for InterpolationPart {
    type V = PartView;

    open spec fn view(&self) -> PartView {
        part_view(*self)
    }
}

/// A copy of a list of expressions.
pub fn clone_expressions(v: &Vec<Expression>) -> (r: Vec<Expression>)
    ensures
        expr_views(r@) == expr_views(v@),
        views(r@) == views(v@),
    decreases v,
{
    let mut out: Vec<Expression> = Vec::new();
    let mut i: usize = 0;
    while i < v.len()
        invariant
            i <= v.len(),
            out.len() == i,
            forall|j: int| 0 <= j < i ==> out@[j]@ == v@[j]@,
        decreases v.len() - i,
    {
        out.push(v[i].clone());
        i += 1;
    }
    assert(expr_views(out@) =~= expr_views(v@));
    assert(views(out@) =~= views(v@));
    out
}

/// A copy of the pieces of an interpolated string.
pub fn clone_parts(v: &Vec<InterpolationPart>) -> (r: Vec<InterpolationPart>)
    ensures
        part_views(r@) == part_views(v@),
    decreases v,
{
    let mut out: Vec<InterpolationPart> = Vec::new();
    let mut i: usize = 0;
    while i < v.len()
        invariant
            i <= v.len(),
            out.len() == i,
            forall|j: int| 0 <= j < i ==> out@[j]@ == v@[j]@,
        decreases v.len() - i,
    {
        out.push(v[i].clone());
        i += 1;
    }
    assert(part_views(out@) =~= part_views(v@));
    out
}

impl Clone for Expression {
    fn clone(&self) -> (r: Self)
        ensures
            r@ == self@,
        decreases self,
    {
        match self {
            Expression::Literal(l) => Expression::Literal(l.clone()),
            Expression::Variable(name) => Expression::Variable(name.clone()),
            Expression::FunctionCall { name, args } => Expression::FunctionCall {
                name: name.clone(),
                args: clone_expressions(args),
            },
            Expression::IndexAccess { object, index } => Expression::IndexAccess {
                object: Box::new((**object).clone()),
                index: Box::new((**index).clone()),
            },
            Expression::BinaryOp { left, operator, right } => Expression::BinaryOp {
                left: Box::new((**left).clone()),
                operator: *operator,
                right: Box::new((**right).clone()),
            },
            Expression::UnaryOp { operator, operand } => Expression::UnaryOp {
                operator: *operator,
                operand: Box::new((**operand).clone()),
            },
            Expression::Interpolation { parts } => Expression::Interpolation {
                parts: clone_parts(parts),
            },
            Expression::EnumAccess { enum_name, variant } => Expression::EnumAccess {
                enum_name: enum_name.clone(),
                variant: variant.clone(),
            },
        }
    }
}

impl Clone for InterpolationPart {
    fn clone(&self) -> (r: Self)
        ensures
            r@ == self@,
        decreases self,
    {
        match self {
            InterpolationPart::Text(t) => InterpolationPart::Text(t.clone()),
            InterpolationPart::Expression(e) => InterpolationPart::Expression(e.clone()),
        }
    }
}

/// A directive attached to a definition, a block or a statement, such as
/// `@parallel` or `@timeout(30)`.
#[derive(Debug, PartialEq)]
pub struct DirectiveCall {
    pub name: String,
    pub args: Vec<ArgDefinition>,
    pub position: Position,
}

/// A directive call as the contracts see it.
pub struct DirectiveCallView {
    pub name: Seq<char>,
    pub args: Seq<ArgDefinitionView>,
    pub position: PositionView,
}

impl View for DirectiveCall {
    type V = DirectiveCallView;

    open spec fn view(&self) -> DirectiveCallView {
        DirectiveCallView { name: self.name@, args: views(self.args@), position: self.position@ }
    }
}

/// A copy of a list of arguments.
pub fn clone_arguments(v: &Vec<ArgDefinition>) -> (r: Vec<ArgDefinition>)
    ensures
        views(r@) == views(v@),
{
    let mut out: Vec<ArgDefinition> = Vec::new();
    let mut i: usize = 0;
    while i < v.len()
        invariant
            i <= v.len(),
            out.len() == i,
            forall|j: int| 0 <= j < i ==> out@[j]@ == v@[j]@,
        decreases v.len() - i,
    {
        out.push(v[i].clone());
        i += 1;
    }
    assert(views(out@) =~= views(v@));
    out
}

impl Clone for DirectiveCall {
    fn clone(&self) -> (r: Self)
        ensures
            r@ == self@,
    {
        DirectiveCall {
            name: self.name.clone(),
            args: clone_arguments(&self.args),
            position: self.position.clone(),
        }
    }
}

/// A copy of a list of directive calls.
pub fn clone_directives(v: &Vec<DirectiveCall>) -> (r: Vec<DirectiveCall>)
    ensures
        views(r@) == views(v@),
{
    let mut out: Vec<DirectiveCall> = Vec::new();
    let mut i: usize = 0;
    while i < v.len()
        invariant
            i <= v.len(),
            out.len() == i,
            forall|j: int| 0 <= j < i ==> out@[j]@ == v@[j]@,
        decreases v.len() - i,
    {
        out.push(v[i].clone());
        i += 1;
    }
    assert(views(out@) =~= views(v@));
    out
}

/// An argument of a directive, as the parser hands it over.
#[derive(Debug, PartialEq)]
pub enum DirectiveArg {
    Positional(Expression),
    Named { name: String, value: Expression },
}

/// What an assignment writes to.
#[derive(Debug, PartialEq)]
pub enum AssignmentTarget {
    Variable(String),
    IndexAccess { object: String, index: Expression },
}

/// One statement of a block.
#[derive(Debug, PartialEq)]
pub enum Statement {
    /// A shell command; its text is the parts one after another.
    Command { parts: Vec<Expression>, directives: Vec<DirectiveCall> },
    /// A call of another definition.
    Call { name: String, args: Vec<Expression>, directives: Vec<DirectiveCall> },
}

/// A statement as the contracts see it.
pub enum StatementView {
    Command { parts: Seq<ExprView>, directives: Seq<DirectiveCallView> },
    Call { name: Seq<char>, args: Seq<ExprView>, directives: Seq<DirectiveCallView> },
}

impl View for Statement {
    type V = StatementView;

    open spec fn view(&self) -> StatementView {
        match self {
            Statement::Command { parts, directives } => StatementView::Command {
                parts: views(parts@),
                directives: views(directives@),
            },
            Statement::Call { name, args, directives } => StatementView::Call {
                name: name@,
                args: views(args@),
                directives: views(directives@),
            },
        }
    }
}

impl Clone for Statement {
    fn clone(&self) -> (r: Self)
        ensures
            r@ == self@,
    {
        match self {
            Statement::Command { parts, directives } => Statement::Command {
                parts: clone_expressions(parts),
                directives: clone_directives(directives),
            },
            Statement::Call { name, args, directives } => Statement::Call {
                name: name.clone(),
                args: clone_expressions(args),
                directives: clone_directives(directives),
            },
        }
    }
}

/// A copy of a list of statements.
pub fn clone_statements(v: &Vec<Statement>) -> (r: Vec<Statement>)
    ensures
        views(r@) == views(v@),
{
    let mut out: Vec<Statement> = Vec::new();
    let mut i: usize = 0;
    while i < v.len()
        invariant
            i <= v.len(),
            out.len() == i,
            forall|j: int| 0 <= j < i ==> out@[j]@ == v@[j]@,
        decreases v.len() - i,
    {
        out.push(v[i].clone());
        i += 1;
    }
    assert(views(out@) =~= views(v@));
    out
}

/// A block of statements.
#[derive(Debug, PartialEq)]
pub struct Block {
    pub statements: Vec<Statement>,
    pub directives: Vec<DirectiveCall>,
    /// The label of the block; empty where it has none.
    pub label: Vec<Expression>,
}

/// A block as the contracts see it.
pub struct BlockView {
    pub statements: Seq<StatementView>,
    pub directives: Seq<DirectiveCallView>,
    pub label: Seq<ExprView>,
}

impl View for Block {
    type V = BlockView;

    open spec fn view(&self) -> BlockView {
        BlockView {
            statements: views(self.statements@),
            directives: views(self.directives@),
            label: views(self.label@),
        }
    }
}

impl Clone for Block {
    fn clone(&self) -> (r: Self)
        ensures
            r@ == self@,
    {
        Block {
            statements: clone_statements(&self.statements),
            directives: clone_directives(&self.directives),
            label: clone_expressions(&self.label),
        }
    }
}

impl Block {
    pub fn new(statements: Vec<Statement>, directives: Vec<DirectiveCall>, label: Vec<Expression>) -> (r:
        Self)
        ensures
            r.statements == statements,
            r.directives == directives,
            r.label == label,
    {
        Block { statements, directives, label }
    }

    /// Whether the block holds no statement.
    pub fn is_empty(&self) -> (r: bool)
        ensures
            r == (self@.statements.len() == 0),
    {
        self.statements.len() == 0
    }
}

/// A copy of a list of blocks.
pub fn clone_blocks(v: &Vec<Block>) -> (r: Vec<Block>)
    ensures
        views(r@) == views(v@),
{
    let mut out: Vec<Block> = Vec::new();
    let mut i: usize = 0;
    while i < v.len()
        invariant
            i <= v.len(),
            out.len() == i,
            forall|j: int| 0 <= j < i ==> out@[j]@ == v@[j]@,
        decreases v.len() - i,
    {
        out.push(v[i].clone());
        i += 1;
    }
    assert(views(out@) =~= views(v@));
    out
}

/// A named recipe, job, pipeline or schedule.
#[derive(Debug, PartialEq)]
pub struct Definition {
    pub kind: DefinitionKind,
    pub signature: Signature,
    pub body: Vec<Block>,
    pub directives: Vec<DirectiveCall>,
    pub position: Position,
    pub module_index: usize,
}

/// A definition as the contracts see it.
pub struct DefinitionView {
    pub kind: DefinitionKind,
    pub signature: SignatureView,
    pub body: Seq<BlockView>,
    pub directives: Seq<DirectiveCallView>,
    pub position: PositionView,
    pub module_index: nat,
}

impl View for Definition {
    type V = DefinitionView;

    open spec fn view(&self) -> DefinitionView {
        DefinitionView {
            kind: self.kind,
            signature: self.signature@,
            body: views(self.body@),
            directives: views(self.directives@),
            position: self.position@,
            module_index: self.module_index as nat,
        }
    }
}

impl Clone for Definition {
    fn clone(&self) -> (r: Self)
        ensures
            r@ == self@,
    {
        Definition {
            kind: self.kind,
            signature: self.signature.clone(),
            body: clone_blocks(&self.body),
            directives: clone_directives(&self.directives),
            position: self.position.clone(),
            module_index: self.module_index,
        }
    }
}

} // verus!
