//! The syntax tree: expressions and statements, pure data.

use vstd::prelude::*;
use crate::token::{Object, ObjectView, Token, TokenView};

verus! {

/// Two operands joined by an infix operator.
#[derive(Debug)]
pub struct Binary {
    pub left: Box<Expr>,
    pub operator: Token,
    pub right: Box<Expr>,
}

/// An expression in parentheses.
#[derive(Debug)]
pub struct Grouping {
    pub expression: Box<Expr>,
}

/// A value fixed when the expression was parsed.
#[derive(Debug)]
pub struct Literal {
    pub value: Object,
}

/// A prefix operator and its operand.
#[derive(Debug)]
pub struct Unary {
    pub operator: Token,
    pub right: Box<Expr>,
}

/// An expression. Each node owns its children.
#[derive(Debug)]
pub enum Expr {
    Binary(Binary),
    Grouping(Grouping),
    Literal(Literal),
    Unary(Unary),
}

/// The mathematical value of an [`Expr`].
pub enum ExprView {
    Binary { left: Box<ExprView>, operator: TokenView, right: Box<ExprView> },
    Grouping { expression: Box<ExprView> },
    Literal { value: ObjectView },
    Unary { operator: TokenView, right: Box<ExprView> },
}

impl Expr {
    /// The value of the tree, node by node.
    pub open spec fn model(self) -> ExprView
        decreases self,
    {
        match self {
            Expr::Binary(b) => ExprView::Binary {
                left: Box::new((*b.left).model()),
                operator: b.operator@,
                right: Box::new((*b.right).model()),
            },
            Expr::Grouping(g) => ExprView::Grouping {
                expression: Box::new((*g.expression).model()),
            },
            Expr::Literal(l) => ExprView::Literal { value: l.value@ },
            Expr::Unary(u) => ExprView::Unary {
                operator: u.operator@,
                right: Box::new((*u.right).model()),
            },
        }
    }
}

impl View for Expr {
    type V = ExprView;

    open spec fn view(&self) -> ExprView {
        self.model()
    }
}

/// A statement that evaluates an expression and drops the value.
#[derive(Debug)]
pub struct Expression {
    pub expression: Expr,
}

/// A statement that evaluates an expression and prints the value.
#[derive(Debug)]
pub struct Print {
    pub expression: Expr,
}

/// A statement.
#[derive(Debug)]
pub enum Stmt {
    Expression(Expression),
    Print(Print),
}

/// The mathematical value of a [`Stmt`].
pub enum StmtView {
    Expression { expression: ExprView },
    Print { expression: ExprView },
}

impl View for Stmt {
    type V = StmtView;

    open spec fn view(&self) -> StmtView {
        match self {
            Stmt::Expression(s) => StmtView::Expression { expression: s.expression@ },
            Stmt::Print(s) => StmtView::Print { expression: s.expression@ },
        }
    }
}

/// The views of a sequence of statements, one for one.
pub open spec fn stmts_view(stmts: Seq<Stmt>) -> Seq<StmtView> {
    stmts.map_values(|s: Stmt| s@)
}

} // verus!
