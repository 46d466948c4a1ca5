use vstd::prelude::*;

use crate::error::LoxError;
use crate::object::opt_obj_view;
use crate::object::Object;
use crate::object::SpecObject;
use crate::tokens::SpecToken;
use crate::tokens::Token;

verus! {

/// The mathematical model of an expression tree: the same four node kinds,
/// with tokens and literals replaced by their own models.
pub enum SpecExpr {
    Binary { left: Box<SpecExpr>, op: SpecToken, right: Box<SpecExpr> },
    Grouping { inner: Box<SpecExpr> },
    Literal { value: Option<SpecObject> },
    Unary { op: SpecToken, right: Box<SpecExpr> },
}

/// An expression tree node: the closed variant over the four node kinds.
///
/// Every composite node exclusively owns its children; nodes are immutable
/// once constructed.
#[derive(Debug)]
pub enum Expr {
    Binary(BinaryExpr),
    Grouping(GroupingExpr),
    Literal(LiteralExpr),
    Unary(UnaryExpr),
}

/// A binary operation: left operand, operator token, right operand.
#[derive(Debug)]
pub struct BinaryExpr {
    pub left: Box<Expr>,
    pub operator: Token,
    pub right: Box<Expr>,
}

/// A parenthesized subexpression.
#[derive(Debug)]
pub struct GroupingExpr {
    pub expression: Box<Expr>,
}

/// A literal; an absent value denotes nil.
#[derive(Debug)]
pub struct LiteralExpr {
    pub value: Option<Object>,
}

/// A prefix operation: operator token and operand.
#[derive(Debug)]
pub struct UnaryExpr {
    pub operator: Token,
    pub right: Box<Expr>,
}

/// The model of an expression tree.
pub open spec fn expr_model(e: Expr) -> SpecExpr
    decreases e,
{
    match e {
        Expr::Binary(b) => SpecExpr::Binary {
            left: Box::new(expr_model(*b.left)),
            op: b.operator@,
            right: Box::new(expr_model(*b.right)),
        },
        Expr::Grouping(g) => SpecExpr::Grouping { inner: Box::new(expr_model(*g.expression)) },
        Expr::Literal(l) => SpecExpr::Literal { value: opt_obj_view(l.value) },
        Expr::Unary(u) => SpecExpr::Unary {
            op: u.operator@,
            right: Box::new(expr_model(*u.right)),
        },
    }
}

impl View for Expr {
    type V = SpecExpr;

    open spec fn view(&self) -> SpecExpr {
        expr_model(*self)
    }
}

impl View for BinaryExpr {
    type V = SpecExpr;

    open spec fn view(&self) -> SpecExpr {
        expr_model(Expr::Binary(*self))
    }
}

impl View for GroupingExpr {
    type V = SpecExpr;

    open spec fn view(&self) -> SpecExpr {
        expr_model(Expr::Grouping(*self))
    }
}

impl View for LiteralExpr {
    type V = SpecExpr;

    open spec fn view(&self) -> SpecExpr {
        expr_model(Expr::Literal(*self))
    }
}

impl View for UnaryExpr {
    type V = SpecExpr;

    open spec fn view(&self) -> SpecExpr {
        expr_model(Expr::Unary(*self))
    }
}

/// A tree operation over expressions: one handler per node kind.
///
/// Each implementation chooses a relation `visits` between a visited node
/// and the handler's outcome, and every handler is bound to establish that
/// relation.  The dispatch methods (`eccept`) then guarantee it for any
/// node, which is all a caller of a visitor needs.
pub trait ExprVisitor<T> {
    /// The relation this visitor establishes between a visited node and the
    /// outcome of visiting it.
    spec fn visits(&self, e: SpecExpr, r: Result<T, LoxError>) -> bool;

    fn visitor_binary_expr(&self, expr: &BinaryExpr) -> (r: Result<T, LoxError>)
        ensures
            self.visits(expr@, r),
    ;

    fn visitor_grouping_expr(&self, expr: &GroupingExpr) -> (r: Result<T, LoxError>)
        ensures
            self.visits(expr@, r),
    ;

    fn visitor_literal_expr(&self, expr: &LiteralExpr) -> (r: Result<T, LoxError>)
        ensures
            self.visits(expr@, r),
    ;

    fn visitor_unary_expr(&self, expr: &UnaryExpr) -> (r: Result<T, LoxError>)
        ensures
            self.visits(expr@, r),
    ;
}

impl Expr {
    /// Double dispatch: hands this node to the matching handler of the
    /// visitor.
    pub fn eccept<T, V: ExprVisitor<T>>(&self, visitor: &V) -> (r: Result<T, LoxError>)
        ensures
            visitor.visits(self@, r),
    {
        match self {
            Expr::Binary(be) => be.eccept(visitor),
            Expr::Grouping(g) => g.eccept(visitor),
            Expr::Unary(un) => un.eccept(visitor),
            Expr::Literal(le) => le.eccept(visitor),
        }
    }
}

impl BinaryExpr {
    /// Hands this node to the visitor's binary handler.
    pub fn eccept<T, V: ExprVisitor<T>>(&self, visitor: &V) -> (r: Result<T, LoxError>)
        ensures
            visitor.visits(self@, r),
    {
        visitor.visitor_binary_expr(self)
    }
}

impl GroupingExpr {
    /// Hands this node to the visitor's grouping handler.
    pub fn eccept<T, V: ExprVisitor<T>>(&self, visitor: &V) -> (r: Result<T, LoxError>)
        ensures
            visitor.visits(self@, r),
    {
        visitor.visitor_grouping_expr(self)
    }
}

impl LiteralExpr {
    /// Hands this node to the visitor's literal handler.
    pub fn eccept<T, V: ExprVisitor<T>>(&self, visitor: &V) -> (r: Result<T, LoxError>)
        ensures
            visitor.visits(self@, r),
    {
        visitor.visitor_literal_expr(self)
    }
}

impl UnaryExpr {
    /// Hands this node to the visitor's unary handler.
    pub fn eccept<T, V: ExprVisitor<T>>(&self, visitor: &V) -> (r: Result<T, LoxError>)
        ensures
            visitor.visits(self@, r),
    {
        visitor.visitor_unary_expr(self)
    }
}

} // verus!
