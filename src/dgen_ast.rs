use vstd::prelude::*;

use crate::generic::{ExprView, Operator};

verus! {

/// A type of the source language.
#[derive(Debug, PartialEq)]
pub enum Type {
    Any,
    Number,
    String,
    Boolean,
    Void,
    Object,
    Array(Box<Type>),
}

/// An expression of the source language; a number literal holds the bit
/// pattern of an IEEE-754 double.
#[derive(Debug, PartialEq)]
pub enum Expr {
    Number(u64),
    Bool(bool),
    String(String),
    Array(Vec<Expr>),
    ArrayAccess(String, Box<Expr>),
    Identifier(String),
    UnaryOp(Operator, Box<Expr>, bool),
    BinaryOp(Operator, Box<Expr>, Box<Expr>),
    FuncCall(String, Vec<Expr>),
}

/// A statement of the source language.
#[derive(Debug, PartialEq)]
pub enum Stmt {
    Expr(Expr),
    VarDecl(Type, String, Option<Expr>),
    FuncDecl(Type, String, Vec<Type>),
    FuncDef(Type, String, Vec<(Type, String)>, Box<Stmt>),
    Assign(String, Expr),
    Block(Vec<Stmt>),
    Program(Vec<Stmt>),
    Return(Expr),
    Break,
    Continue,
    If(Expr, Box<Stmt>, Option<Box<Stmt>>),
    For(Box<Stmt>, Expr, Box<Stmt>, Box<Stmt>),
    While(Expr, Box<Stmt>),
}

/// The model of a source statement.
pub enum StmtView {
    Expr(ExprView),
    VarDecl(Type, Seq<char>, Option<ExprView>),
    FuncDecl(Type, Seq<char>, Seq<Type>),
    FuncDef(Type, Seq<char>, Seq<(Type, Seq<char>)>, Box<StmtView>),
    Assign(Seq<char>, ExprView),
    Block(Seq<StmtView>),
    Program(Seq<StmtView>),
    Return(ExprView),
    Break,
    Continue,
    If(ExprView, Box<StmtView>, Option<Box<StmtView>>),
    For(Box<StmtView>, ExprView, Box<StmtView>, Box<StmtView>),
    While(ExprView, Box<StmtView>),
}

impl Expr {
    pub open spec fn view(&self) -> ExprView
        decreases self,
    {
        match self {
            Expr::Number(n) => ExprView::Number(*n),
            Expr::Bool(b) => ExprView::Bool(*b),
            Expr::String(s) => ExprView::Str(s@),
            Expr::Array(v) => ExprView::Array(
                Seq::new(v.len() as nat, |i: int| if 0 <= i < v.len() { v[i].view() } else { ExprView::Bool(false) }),
            ),
            Expr::ArrayAccess(a, i) => ExprView::ArrayAccess(a@, Box::new(i.view())),
            Expr::Identifier(s) => ExprView::Identifier(s@),
            Expr::UnaryOp(op, e, post) => ExprView::UnaryOp(*op, Box::new(e.view()), *post),
            Expr::BinaryOp(op, l, r) => ExprView::BinaryOp(*op, Box::new(l.view()), Box::new(r.view())),
            Expr::FuncCall(f, v) => ExprView::FuncCall(
                f@,
                Seq::new(v.len() as nat, |i: int| if 0 <= i < v.len() { v[i].view() } else { ExprView::Bool(false) }),
            ),
        }
    }
}

impl Type {
    /// A copy of this type.
    pub fn copied(&self) -> (r: Type)
        ensures
            r == *self,
        decreases self,
    {
        match self {
            Type::Any => Type::Any,
            Type::Number => Type::Number,
            Type::String => Type::String,
            Type::Boolean => Type::Boolean,
            Type::Void => Type::Void,
            Type::Object => Type::Object,
            Type::Array(e) => Type::Array(Box::new(e.copied())),
        }
    }

    /// Whether two types are structurally equal.
    pub fn equals(&self, other: &Type) -> (r: bool)
        ensures
            r == (*self == *other),
        decreases self,
    {
        match (self, other) {
            (Type::Any, Type::Any) => true,
            (Type::Number, Type::Number) => true,
            (Type::String, Type::String) => true,
            (Type::Boolean, Type::Boolean) => true,
            (Type::Void, Type::Void) => true,
            (Type::Object, Type::Object) => true,
            (Type::Array(a), Type::Array(b)) => a.equals(b),
            _ => false,
        }
    }
}

/// The models of a vector of expressions.
pub open spec fn expr_views(v: Seq<Expr>) -> Seq<ExprView> {
    v.map_values(|e: Expr| e@)
}

/// The models of a vector of statements.
pub open spec fn stmt_views(v: Seq<Stmt>) -> Seq<StmtView> {
    v.map_values(|s: Stmt| s@)
}

/// The models of the parameters of a function.
pub open spec fn param_views(ps: Seq<(Type, String)>) -> Seq<(Type, Seq<char>)> {
    ps.map_values(|p: (Type, String)| (p.0, p.1@))
}

impl Stmt {
    pub open spec fn view(&self) -> StmtView
        decreases self,
    {
        match self {
            Stmt::Expr(e) => StmtView::Expr(e@),
            Stmt::VarDecl(t, n, v) => StmtView::VarDecl(
                *t,
                n@,
                match v {
                    Some(e) => Some(e@),
                    None => None,
                },
            ),
            Stmt::FuncDecl(t, n, ps) => StmtView::FuncDecl(*t, n@, ps@),
            Stmt::FuncDef(t, n, ps, b) => StmtView::FuncDef(
                *t,
                n@,
                param_views(ps@),
                Box::new(b.view()),
            ),
            Stmt::Assign(n, e) => StmtView::Assign(n@, e@),
            Stmt::Block(v) => StmtView::Block(
                Seq::new(v.len() as nat, |i: int| if 0 <= i < v.len() { v[i].view() } else { StmtView::Break }),
            ),
            Stmt::Program(v) => StmtView::Program(
                Seq::new(v.len() as nat, |i: int| if 0 <= i < v.len() { v[i].view() } else { StmtView::Break }),
            ),
            Stmt::Return(e) => StmtView::Return(e@),
            Stmt::Break => StmtView::Break,
            Stmt::Continue => StmtView::Continue,
            Stmt::If(c, t, e) => StmtView::If(
                c@,
                Box::new(t.view()),
                match e {
                    Some(b) => Some(Box::new(b.view())),
                    None => None,
                },
            ),
            Stmt::For(i, c, s, b) => StmtView::For(
                Box::new(i.view()),
                c@,
                Box::new(s.view()),
                Box::new(b.view()),
            ),
            Stmt::While(c, b) => StmtView::While(c@, Box::new(b.view())),
        }
    }
}

} // verus!
