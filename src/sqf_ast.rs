use vstd::prelude::*;

use crate::generic::{ExprView, Operator};

verus! {

/// A type of the target dialect.
#[derive(Debug, PartialEq)]
pub enum Type {
    Any,
    Array(Box<Type>),
    Boolean,
    Color,
    Code,
    Config,
    Control,
    DiaryRecord,
    Display,
    Date,
    EditorObject,
    Group,
    HashMap,
    HashMapKey,
    Location,
    Namespace,
    NaN,
    Number,
    Nothing,
    Object,
    ScriptHandle,
    Side,
    String,
    StructuredText,
    Task,
    Team,
    TeamMember,
    Void,
}

/// An expression of the target dialect; a number literal holds the bit
/// pattern of an IEEE-754 double.
#[derive(Debug, PartialEq)]
pub enum Expr {
    Number(u64),
    Bool(bool),
    String(String),
    Array(Vec<Expr>),
    ArrayAccess(String, Box<Expr>),
    Identifier(String),
    UnaryOp(Operator, Box<Expr>, bool),
    BinaryOp(Operator, Box<Expr>, Box<Expr>),
    FuncCall(String, Vec<Expr>),
}

/// A statement of the target dialect; `Dummy` does nothing.
#[derive(Debug, PartialEq)]
pub enum Stmt {
    Dummy,
    Expr(Expr),
    VarDecl(String, Option<Expr>),
    FuncDef(String, Vec<(Type, String)>, Box<Stmt>),
    Assign(String, Expr),
    Block(Vec<Stmt>),
    Program(Vec<Stmt>),
    Return(Expr),
    Break,
    Continue,
    If(Expr, Box<Stmt>, Option<Box<Stmt>>),
    For(Box<Stmt>, Expr, Box<Stmt>, Box<Stmt>),
    While(Expr, Box<Stmt>),
}

/// The model of a target statement.
pub enum StmtView {
    Dummy,
    Expr(ExprView),
    VarDecl(Seq<char>, Option<ExprView>),
    FuncDef(Seq<char>, Seq<(Type, Seq<char>)>, Box<StmtView>),
    Assign(Seq<char>, ExprView),
    Block(Seq<StmtView>),
    Program(Seq<StmtView>),
    Return(ExprView),
    Break,
    Continue,
    If(ExprView, Box<StmtView>, Option<Box<StmtView>>),
    For(Box<StmtView>, ExprView, Box<StmtView>, Box<StmtView>),
    While(ExprView, Box<StmtView>),
}

impl Expr {
    pub open spec fn view(&self) -> ExprView
        decreases self,
    {
        match self {
            Expr::Number(n) => ExprView::Number(*n),
            Expr::Bool(b) => ExprView::Bool(*b),
            Expr::String(s) => ExprView::Str(s@),
            Expr::Array(v) => ExprView::Array(
                Seq::new(v.len() as nat, |i: int| if 0 <= i < v.len() { v[i].view() } else { ExprView::Bool(false) }),
            ),
            Expr::ArrayAccess(a, i) => ExprView::ArrayAccess(a@, Box::new(i.view())),
            Expr::Identifier(s) => ExprView::Identifier(s@),
            Expr::UnaryOp(op, e, post) => ExprView::UnaryOp(*op, Box::new(e.view()), *post),
            Expr::BinaryOp(op, l, r) => ExprView::BinaryOp(*op, Box::new(l.view()), Box::new(r.view())),
            Expr::FuncCall(f, v) => ExprView::FuncCall(
                f@,
                Seq::new(v.len() as nat, |i: int| if 0 <= i < v.len() { v[i].view() } else { ExprView::Bool(false) }),
            ),
        }
    }
}

impl Stmt {
    pub open spec fn view(&self) -> StmtView
        decreases self,
    {
        match self {
            Stmt::Dummy => StmtView::Dummy,
            Stmt::Expr(e) => StmtView::Expr(e@),
            Stmt::VarDecl(n, v) => StmtView::VarDecl(
                n@,
                match v {
                    Some(e) => Some(e@),
                    None => None,
                },
            ),
            Stmt::FuncDef(n, ps, b) => StmtView::FuncDef(
                n@,
                ps@.map_values(|p: (Type, String)| (p.0, p.1@)),
                Box::new(b.view()),
            ),
            Stmt::Assign(n, e) => StmtView::Assign(n@, e@),
            Stmt::Block(v) => StmtView::Block(
                Seq::new(v.len() as nat, |i: int| if 0 <= i < v.len() { v[i].view() } else { StmtView::Dummy }),
            ),
            Stmt::Program(v) => StmtView::Program(
                Seq::new(v.len() as nat, |i: int| if 0 <= i < v.len() { v[i].view() } else { StmtView::Dummy }),
            ),
            Stmt::Return(e) => StmtView::Return(e@),
            Stmt::Break => StmtView::Break,
            Stmt::Continue => StmtView::Continue,
            Stmt::If(c, t, e) => StmtView::If(
                c@,
                Box::new(t.view()),
                match e {
                    Some(b) => Some(Box::new(b.view())),
                    None => None,
                },
            ),
            Stmt::For(i, c, s, b) => StmtView::For(
                Box::new(i.view()),
                c@,
                Box::new(s.view()),
                Box::new(b.view()),
            ),
            Stmt::While(c, b) => StmtView::While(c@, Box::new(b.view())),
        }
    }
}

} // verus!
