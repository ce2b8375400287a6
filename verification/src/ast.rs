//! The syntax tree that the compiler takes.

use vstd::prelude::*;

verus! {

/// A parsed source file: its statements in order.
#[derive(Debug)]
pub struct Module {
    pub name: String,
    pub body: Vec<Statement>,
}

/// What an assignment writes to.
#[derive(Debug)]
pub enum AssignmentTarget {
    Identifier(String),
    Property(Expression, String),
    Subscript(Expression, Expression),
}

#[derive(Debug)]
pub enum Statement {
    Expression(Expression),
    Return(Expression),
    Assignment { target: AssignmentTarget, source: Expression },
    Declaration { ident: String, assign: Option<Expression> },
    If { cond: Expression, body: Vec<Statement>, else_body: Vec<Statement> },
}

#[derive(Debug, Clone, Copy, PartialEq, Eq, Structural)]
pub enum Operator {
    Add,
    Subtract,
    Multiply,
    Divide,
    Equals,
    NotEquals,
    LessThan,
    GreaterThan,
    LessThanOrEqual,
    GreaterThanOrEqual,
}

#[derive(Debug)]
pub enum Expression {
    Identifier(String),
    Integer(i64),
    /// A binary64 literal, held as its IEEE-754 bit pattern.
    Float(u64),
    String(String),
    List(Vec<Expression>),
    Object(Vec<(String, Expression)>),
    Property(Box<Expression>, String),
    Subscript(Box<Expression>, Box<Expression>),
    Function { params: Vec<String>, body: Vec<Statement> },
    FunctionCall { target: Box<Expression>, args: Vec<Expression> },
    Operation { lhs: Box<Expression>, op: Operator, rhs: Box<Expression> },
}

impl Expression {
    /// No object literal occurs anywhere in the expression.
    pub open spec fn supported(self) -> bool
        decreases self,
    {
        match self {
            Expression::Identifier(_) => true,
            Expression::Integer(_) => true,
            Expression::Float(_) => true,
            Expression::String(_) => true,
            Expression::List(items) => expressions_supported(items@),
            Expression::Object(_) => false,
            Expression::Property(target, _) => target.supported(),
            Expression::Subscript(target, subscript) => target.supported() && subscript.supported(),
            Expression::Function { params, body } => statements_supported(body@),
            Expression::FunctionCall { target, args } => target.supported()
                && expressions_supported(args@),
            Expression::Operation { lhs, op, rhs } => lhs.supported() && rhs.supported(),
        }
    }

    /// Decides whether the expression is free of object literals.
    pub fn is_supported(&self) -> (supported: bool)
        ensures
            supported == self.supported(),
        decreases self,
    {
        match self {
            Expression::Identifier(_) => true,
            Expression::Integer(_) => true,
            Expression::Float(_) => true,
            Expression::String(_) => true,
            Expression::List(items) => all_expressions_supported(items),
            Expression::Object(_) => false,
            Expression::Property(target, _) => target.is_supported(),
            Expression::Subscript(target, subscript) => target.is_supported()
                && subscript.is_supported(),
            Expression::Function { params, body } => all_statements_supported(body),
            Expression::FunctionCall { target, args } => target.is_supported()
                && all_expressions_supported(args),
            Expression::Operation { lhs, op, rhs } => lhs.is_supported() && rhs.is_supported(),
        }
    }
}

/// Every expression of the sequence is free of object literals.
pub open spec fn expressions_supported(items: Seq<Expression>) -> bool
    decreases items,
{
    forall|i: int| 0 <= i < items.len() ==> (#[trigger] items[i]).supported()
}

/// Every statement of the sequence is free of object literals.
pub open spec fn statements_supported(body: Seq<Statement>) -> bool
    decreases body,
{
    forall|i: int| 0 <= i < body.len() ==> (#[trigger] body[i]).supported()
}

impl AssignmentTarget {
    /// No object literal occurs anywhere in the target.
    pub open spec fn supported(self) -> bool
        decreases self,
    {
        match self {
            AssignmentTarget::Identifier(_) => true,
            AssignmentTarget::Property(target, _) => target.supported(),
            AssignmentTarget::Subscript(target, subscript) => target.supported()
                && subscript.supported(),
        }
    }
}

impl Statement {
    /// No object literal occurs anywhere in the statement.
    pub open spec fn supported(self) -> bool
        decreases self,
    {
        match self {
            Statement::Expression(expr) => expr.supported(),
            Statement::Return(expr) => expr.supported(),
            Statement::Assignment { target, source } => target.supported() && source.supported(),
            Statement::Declaration { ident, assign } => match assign {
                Some(expr) => expr.supported(),
                None => true,
            },
            Statement::If { cond, body, else_body } => cond.supported() && statements_supported(
                body@,
            ) && statements_supported(else_body@),
        }
    }

    /// Decides whether the statement is free of object literals.
    pub fn is_supported(&self) -> (supported: bool)
        ensures
            supported == self.supported(),
        decreases self,
    {
        match self {
            Statement::Expression(expr) => expr.is_supported(),
            Statement::Return(expr) => expr.is_supported(),
            Statement::Assignment { target, source } => {
                let target_ok = match target {
                    AssignmentTarget::Identifier(_) => true,
                    AssignmentTarget::Property(object, _) => object.is_supported(),
                    AssignmentTarget::Subscript(object, subscript) => object.is_supported()
                        && subscript.is_supported(),
                };
                target_ok && source.is_supported()
            },
            Statement::Declaration { ident, assign } => match assign {
                Some(expr) => expr.is_supported(),
                None => true,
            },
            Statement::If { cond, body, else_body } => cond.is_supported()
                && all_statements_supported(body) && all_statements_supported(else_body),
        }
    }
}

/// Decides whether every expression of `items` is free of object literals.
pub fn all_expressions_supported(items: &Vec<Expression>) -> (supported: bool)
    ensures
        supported == expressions_supported(items@),
    decreases items,
{
    let mut i: usize = 0;
    while i < items.len()
        invariant
            i <= items.len(),
            forall|j: int| 0 <= j < i ==> (#[trigger] items@[j]).supported(),
        decreases items.len() - i,
    {
        if !items[i].is_supported() {
            return false;
        }
        i += 1;
    }
    true
}

/// Decides whether every statement of `body` is free of object literals.
pub fn all_statements_supported(body: &Vec<Statement>) -> (supported: bool)
    ensures
        supported == statements_supported(body@),
    decreases body,
{
    let mut i: usize = 0;
    while i < body.len()
        invariant
            i <= body.len(),
            forall|j: int| 0 <= j < i ==> (#[trigger] body@[j]).supported(),
        decreases body.len() - i,
    {
        if !body[i].is_supported() {
            return false;
        }
        i += 1;
    }
    true
}

impl Module {
    /// No object literal occurs anywhere in the module.
    pub open spec fn supported(self) -> bool {
        statements_supported(self.body@)
    }

    /// Decides whether the module is free of object literals.
    pub fn is_supported(&self) -> (supported: bool)
        ensures
            supported == self.supported(),
    {
        all_statements_supported(&self.body)
    }
}

} // verus!
