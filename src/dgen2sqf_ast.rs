use vstd::prelude::*;

use crate::boxable::Boxable;
use crate::dgen_ast;
use crate::dgen_ast::param_views;
use crate::generic::{ExprView, Operator};
use crate::sqf_ast;

verus! {

/// The bit pattern of the double 1.0.
pub const ONE: u64 = 0x3ff0_0000_0000_0000;

/// A user name under the target's local-name convention: the marker `_` before it.
pub open spec fn local(name: Seq<char>) -> Seq<char> {
    seq!['_'] + name
}

/// The target type that corresponds to a source type.
pub open spec fn lower_type(t: dgen_ast::Type) -> sqf_ast::Type
    decreases t,
{
    match t {
        dgen_ast::Type::Any => sqf_ast::Type::Any,
        dgen_ast::Type::Number => sqf_ast::Type::Number,
        dgen_ast::Type::String => sqf_ast::Type::String,
        dgen_ast::Type::Boolean => sqf_ast::Type::Boolean,
        dgen_ast::Type::Void => sqf_ast::Type::Void,
        dgen_ast::Type::Object => sqf_ast::Type::Object,
        dgen_ast::Type::Array(e) => sqf_ast::Type::Array(Box::new(lower_type(*e))),
    }
}

/// The target expression of a source expression: names are made local, and
/// increment and decrement become an addition or a subtraction of 1.
pub open spec fn lower_expr(e: ExprView) -> ExprView
    decreases e,
{
    match e {
        ExprView::Identifier(n) => ExprView::Identifier(local(n)),
        ExprView::UnaryOp(op, x, p) => match op {
            Operator::Inc => ExprView::BinaryOp(
                Operator::Add,
                Box::new(lower_expr(*x)),
                Box::new(ExprView::Number(ONE)),
            ),
            Operator::Dec => ExprView::BinaryOp(
                Operator::Sub,
                Box::new(lower_expr(*x)),
                Box::new(ExprView::Number(ONE)),
            ),
            _ => ExprView::UnaryOp(op, Box::new(lower_expr(*x)), p),
        },
        ExprView::BinaryOp(op, l, r) => ExprView::BinaryOp(
            op,
            Box::new(lower_expr(*l)),
            Box::new(lower_expr(*r)),
        ),
        ExprView::FuncCall(f, v) => ExprView::FuncCall(
            local(f),
            Seq::new(v.len(), |i: int| if 0 <= i < v.len() { lower_expr(v[i]) } else { ExprView::Bool(false) }),
        ),
        ExprView::Array(v) => ExprView::Array(
            Seq::new(v.len(), |i: int| if 0 <= i < v.len() { lower_expr(v[i]) } else { ExprView::Bool(false) }),
        ),
        ExprView::ArrayAccess(a, i) => ExprView::ArrayAccess(local(a), Box::new(lower_expr(*i))),
        _ => e,
    }
}

/// The target parameter of a source parameter.
pub open spec fn lower_param(p: (dgen_ast::Type, Seq<char>)) -> (sqf_ast::Type, Seq<char>) {
    (lower_type(p.0), local(p.1))
}

/// The target statement of a source statement; a forward declaration becomes `Dummy`.
pub open spec fn lower_stmt(s: dgen_ast::StmtView) -> sqf_ast::StmtView
    decreases s,
{
    match s {
        dgen_ast::StmtView::Expr(e) => sqf_ast::StmtView::Expr(lower_expr(e)),
        dgen_ast::StmtView::VarDecl(_, n, v) => sqf_ast::StmtView::VarDecl(
            local(n),
            match v {
                Some(e) => Some(lower_expr(e)),
                None => None,
            },
        ),
        dgen_ast::StmtView::FuncDecl(..) => sqf_ast::StmtView::Dummy,
        dgen_ast::StmtView::FuncDef(_, n, ps, b) => sqf_ast::StmtView::FuncDef(
            local(n),
            ps.map_values(|p: (dgen_ast::Type, Seq<char>)| lower_param(p)),
            Box::new(lower_stmt(*b)),
        ),
        dgen_ast::StmtView::Assign(n, e) => sqf_ast::StmtView::Assign(local(n), lower_expr(e)),
        dgen_ast::StmtView::Block(v) => sqf_ast::StmtView::Block(
            Seq::new(v.len(), |i: int| if 0 <= i < v.len() { lower_stmt(v[i]) } else { sqf_ast::StmtView::Dummy }),
        ),
        dgen_ast::StmtView::Program(v) => sqf_ast::StmtView::Program(
            Seq::new(v.len(), |i: int| if 0 <= i < v.len() { lower_stmt(v[i]) } else { sqf_ast::StmtView::Dummy }),
        ),
        dgen_ast::StmtView::Return(e) => sqf_ast::StmtView::Return(lower_expr(e)),
        dgen_ast::StmtView::Break => sqf_ast::StmtView::Break,
        dgen_ast::StmtView::Continue => sqf_ast::StmtView::Continue,
        dgen_ast::StmtView::If(c, t, e) => sqf_ast::StmtView::If(
            lower_expr(c),
            Box::new(lower_stmt(*t)),
            match e {
                Some(b) => Some(Box::new(lower_stmt(*b))),
                None => None,
            },
        ),
        dgen_ast::StmtView::For(i, c, st, b) => sqf_ast::StmtView::For(
            Box::new(lower_stmt(*i)),
            lower_expr(c),
            Box::new(lower_stmt(*st)),
            Box::new(lower_stmt(*b)),
        ),
        dgen_ast::StmtView::While(c, b) => sqf_ast::StmtView::While(
            lower_expr(c),
            Box::new(lower_stmt(*b)),
        ),
    }
}

fn local_name(n: &String) -> (r: String)
    ensures
        r@ == local(n@),
{
    let mut r = String::from_str("_");
    proof {
        reveal_strlit("_");
    }
    r.append(n.as_str());
    r
}

impl dgen_ast::Type {
    /// The corresponding target type.
    pub fn transform(&self) -> (r: sqf_ast::Type)
        ensures
            r == lower_type(*self),
        decreases self,
    {
        match self {
            dgen_ast::Type::Any => sqf_ast::Type::Any,
            dgen_ast::Type::Number => sqf_ast::Type::Number,
            dgen_ast::Type::String => sqf_ast::Type::String,
            dgen_ast::Type::Boolean => sqf_ast::Type::Boolean,
            dgen_ast::Type::Void => sqf_ast::Type::Void,
            dgen_ast::Type::Object => sqf_ast::Type::Object,
            dgen_ast::Type::Array(e) => sqf_ast::Type::Array(e.transform().wrap()),
        }
    }
}

fn lower_exprs(v: &Vec<dgen_ast::Expr>) -> (r: Vec<sqf_ast::Expr>)
    ensures
        r.len() == v.len(),
        forall|i: int| 0 <= i < v.len() ==> (#[trigger] r[i])@ == lower_expr(v[i]@),
    decreases v,
{
    let mut out: Vec<sqf_ast::Expr> = Vec::new();
    let mut i: usize = 0;
    while i < v.len()
        invariant
            i <= v.len(),
            out.len() == i,
            forall|j: int| 0 <= j < i ==> (#[trigger] out[j])@ == lower_expr(v[j]@),
        decreases v.len() - i,
    {
        assert(decreases_to!(v => v[i as int]));
        out.push(v[i].transform());
        i = i + 1;
    }
    out
}

impl dgen_ast::Expr {
    /// The target expression of this expression.
    pub fn transform(&self) -> (r: sqf_ast::Expr)
        ensures
            r@ == lower_expr(self@),
        decreases self,
    {
        match self {
            dgen_ast::Expr::Number(n) => sqf_ast::Expr::Number(*n),
            dgen_ast::Expr::Bool(b) => sqf_ast::Expr::Bool(*b),
            dgen_ast::Expr::String(s) => sqf_ast::Expr::String(s.clone()),
            dgen_ast::Expr::Identifier(n) => sqf_ast::Expr::Identifier(local_name(n)),
            dgen_ast::Expr::UnaryOp(op, x, p) => {
                let inner = x.transform();
                let one = sqf_ast::Expr::Number(ONE);
                assert(one@ == ExprView::Number(ONE));
                match *op {
                    Operator::Inc => sqf_ast::Expr::BinaryOp(
                        Operator::Add,
                        Box::new(inner),
                        Box::new(one),
                    ),
                    Operator::Dec => sqf_ast::Expr::BinaryOp(
                        Operator::Sub,
                        Box::new(inner),
                        Box::new(one),
                    ),
                    _ => sqf_ast::Expr::UnaryOp(*op, Box::new(inner), *p),
                }
            },
            dgen_ast::Expr::BinaryOp(op, l, r) => sqf_ast::Expr::BinaryOp(
                *op,
                l.transform().wrap(),
                r.transform().wrap(),
            ),
            dgen_ast::Expr::FuncCall(f, v) => {
                let r = sqf_ast::Expr::FuncCall(local_name(f), lower_exprs(v));
                assert(r@->FuncCall_1 =~= lower_expr(self@)->FuncCall_1);
                r
            },
            dgen_ast::Expr::Array(v) => {
                let r = sqf_ast::Expr::Array(lower_exprs(v));
                assert(r@->Array_0 =~= lower_expr(self@)->Array_0);
                r
            },
            dgen_ast::Expr::ArrayAccess(a, i) => sqf_ast::Expr::ArrayAccess(
                local_name(a),
                i.transform().wrap(),
            ),
        }
    }
}

fn lower_params(ps: &Vec<(dgen_ast::Type, String)>) -> (r: Vec<(sqf_ast::Type, String)>)
    ensures
        r@.map_values(|p: (sqf_ast::Type, String)| (p.0, p.1@)) == param_views(ps@).map_values(|p: (dgen_ast::Type, Seq<char>)| lower_param(p)),
{
    let mut out: Vec<(sqf_ast::Type, String)> = Vec::new();
    let mut i: usize = 0;
    while i < ps.len()
        invariant
            i <= ps.len(),
            out.len() == i,
            forall|j: int|
                0 <= j < i ==> (#[trigger] out[j]).0 == lower_type(ps[j].0) && out[j].1@ == local(
                    ps[j].1@,
                ),
        decreases ps.len() - i,
    {
        let p = &ps[i];
        out.push((p.0.transform(), local_name(&p.1)));
        i = i + 1;
    }
    assert(out@.map_values(|p: (sqf_ast::Type, String)| (p.0, p.1@)) =~= param_views(ps@).map_values(
        |p: (dgen_ast::Type, Seq<char>)| lower_param(p),
    ));
    out
}

fn lower_stmts(v: &Vec<dgen_ast::Stmt>) -> (r: Vec<sqf_ast::Stmt>)
    ensures
        r.len() == v.len(),
        forall|i: int| 0 <= i < v.len() ==> (#[trigger] r[i])@ == lower_stmt(v[i]@),
    decreases v,
{
    let mut out: Vec<sqf_ast::Stmt> = Vec::new();
    let mut i: usize = 0;
    while i < v.len()
        invariant
            i <= v.len(),
            out.len() == i,
            forall|j: int| 0 <= j < i ==> (#[trigger] out[j])@ == lower_stmt(v[j]@),
        decreases v.len() - i,
    {
        assert(decreases_to!(v => v[i as int]));
        out.push(v[i].transform());
        i = i + 1;
    }
    out
}

impl dgen_ast::Stmt {
    /// The target statement of this statement.
    pub fn transform(&self) -> (r: sqf_ast::Stmt)
        ensures
            r@ == lower_stmt(self@),
        decreases self,
    {
        match self {
            dgen_ast::Stmt::Expr(e) => sqf_ast::Stmt::Expr(e.transform()),
            dgen_ast::Stmt::VarDecl(_, n, v) => {
                let value = match v {
                    Some(e) => Some(e.transform()),
                    None => None,
                };
                sqf_ast::Stmt::VarDecl(local_name(n), value)
            },
            dgen_ast::Stmt::FuncDecl(..) => sqf_ast::Stmt::Dummy,
            dgen_ast::Stmt::FuncDef(_, n, ps, b) => {
                let params = lower_params(ps);
                let r = sqf_ast::Stmt::FuncDef(local_name(n), params, b.transform().wrap());
                assert(r@->FuncDef_1 =~= lower_stmt(self@)->FuncDef_1);
                r
            },
            dgen_ast::Stmt::Assign(n, e) => sqf_ast::Stmt::Assign(local_name(n), e.transform()),
            dgen_ast::Stmt::Block(v) => {
                let r = sqf_ast::Stmt::Block(lower_stmts(v));
                assert(r@->Block_0 =~= lower_stmt(self@)->Block_0);
                r
            },
            dgen_ast::Stmt::Program(v) => {
                let r = sqf_ast::Stmt::Program(lower_stmts(v));
                assert(r@->Program_0 =~= lower_stmt(self@)->Program_0);
                r
            },
            dgen_ast::Stmt::Return(e) => sqf_ast::Stmt::Return(e.transform()),
            dgen_ast::Stmt::Break => sqf_ast::Stmt::Break,
            dgen_ast::Stmt::Continue => sqf_ast::Stmt::Continue,
            dgen_ast::Stmt::If(c, t, e) => {
                let other = match e {
                    Some(b) => Some(b.transform().wrap()),
                    None => None,
                };
                sqf_ast::Stmt::If(c.transform(), t.transform().wrap(), other)
            },
            dgen_ast::Stmt::For(i, c, st, b) => sqf_ast::Stmt::For(
                i.transform().wrap(),
                c.transform(),
                st.transform().wrap(),
                b.transform().wrap(),
            ),
            dgen_ast::Stmt::While(c, b) => sqf_ast::Stmt::While(c.transform(), b.transform().wrap()),
        }
    }
}

/// Whether a name carries the local-name marker.
pub open spec fn is_local(n: Seq<char>) -> bool {
    n.len() > 0 && n[0] == '_'
}

/// Whether every name in a target expression carries the local-name marker.
pub open spec fn expr_names_local(e: ExprView) -> bool
    decreases e,
{
    match e {
        ExprView::Identifier(n) => is_local(n),
        ExprView::ArrayAccess(a, i) => is_local(a) && expr_names_local(*i),
        ExprView::UnaryOp(_, x, _) => expr_names_local(*x),
        ExprView::BinaryOp(_, l, r) => expr_names_local(*l) && expr_names_local(*r),
        ExprView::FuncCall(f, v) => is_local(f) && forall|i: int|
            0 <= i < v.len() ==> #[trigger] expr_names_local(v[i]),
        ExprView::Array(v) => forall|i: int| 0 <= i < v.len() ==> #[trigger] expr_names_local(v[i]),
        _ => true,
    }
}

/// Whether every name in a target statement carries the local-name marker.
pub open spec fn stmt_names_local(s: sqf_ast::StmtView) -> bool
    decreases s,
{
    match s {
        sqf_ast::StmtView::Expr(e) => expr_names_local(e),
        sqf_ast::StmtView::VarDecl(n, v) => is_local(n) && match v {
            Some(e) => expr_names_local(e),
            None => true,
        },
        sqf_ast::StmtView::FuncDef(n, ps, b) => is_local(n) && (forall|i: int|
            0 <= i < ps.len() ==> is_local(#[trigger] ps[i].1)) && stmt_names_local(*b),
        sqf_ast::StmtView::Assign(n, e) => is_local(n) && expr_names_local(e),
        sqf_ast::StmtView::Block(v) => forall|i: int|
            0 <= i < v.len() ==> #[trigger] stmt_names_local(v[i]),
        sqf_ast::StmtView::Program(v) => forall|i: int|
            0 <= i < v.len() ==> #[trigger] stmt_names_local(v[i]),
        sqf_ast::StmtView::Return(e) => expr_names_local(e),
        sqf_ast::StmtView::If(c, t, e) => expr_names_local(c) && stmt_names_local(*t) && match e {
            Some(b) => stmt_names_local(*b),
            None => true,
        },
        sqf_ast::StmtView::For(i, c, st, b) => stmt_names_local(*i) && expr_names_local(c)
            && stmt_names_local(*st) && stmt_names_local(*b),
        sqf_ast::StmtView::While(c, b) => expr_names_local(c) && stmt_names_local(*b),
        _ => true,
    }
}

/// Every name in a lowered expression carries the local-name marker.
pub proof fn lemma_lower_expr_names_local(e: ExprView)
    ensures
        expr_names_local(lower_expr(e)),
    decreases e,
{
    match e {
        ExprView::ArrayAccess(a, i) => lemma_lower_expr_names_local(*i),
        ExprView::UnaryOp(_, x, _) => {
            lemma_lower_expr_names_local(*x);
            reveal_with_fuel(expr_names_local, 2);
        },
        ExprView::BinaryOp(_, l, r) => {
            lemma_lower_expr_names_local(*l);
            lemma_lower_expr_names_local(*r);
        },
        ExprView::FuncCall(f, v) => {
            assert forall|i: int| 0 <= i < v.len() implies expr_names_local(lower_expr(v[i])) by {
                lemma_lower_expr_names_local(v[i]);
            }
            assert(forall|i: int| 0 <= i < v.len() ==> lower_expr(e)->FuncCall_1[i] == lower_expr(v[i]));
        },
        ExprView::Array(v) => {
            assert forall|i: int| 0 <= i < v.len() implies expr_names_local(lower_expr(v[i])) by {
                lemma_lower_expr_names_local(v[i]);
            }
            assert(forall|i: int| 0 <= i < v.len() ==> lower_expr(e)->Array_0[i] == lower_expr(v[i]));
        },
        _ => {},
    }
}

/// Lowering puts the local-name marker on every name of the tree, and turns
/// every forward declaration into a no-op.
pub proof fn lemma_lowering_marks_names(s: dgen_ast::StmtView)
    ensures
        stmt_names_local(lower_stmt(s)),
        s is FuncDecl ==> lower_stmt(s) == sqf_ast::StmtView::Dummy,
    decreases s,
{
    match s {
        dgen_ast::StmtView::Expr(e) => lemma_lower_expr_names_local(e),
        dgen_ast::StmtView::VarDecl(_, n, v) => {
            if let Some(e) = v {
                lemma_lower_expr_names_local(e);
            }
        },
        dgen_ast::StmtView::FuncDef(_, n, ps, b) => lemma_lowering_marks_names(*b),
        dgen_ast::StmtView::Assign(n, e) => lemma_lower_expr_names_local(e),
        dgen_ast::StmtView::Block(v) => {
            assert forall|i: int| 0 <= i < v.len() implies stmt_names_local(lower_stmt(v[i])) by {
                lemma_lowering_marks_names(v[i]);
            }
            assert(forall|i: int| 0 <= i < v.len() ==> lower_stmt(s)->Block_0[i] == lower_stmt(v[i]));
        },
        dgen_ast::StmtView::Program(v) => {
            assert forall|i: int| 0 <= i < v.len() implies stmt_names_local(lower_stmt(v[i])) by {
                lemma_lowering_marks_names(v[i]);
            }
            assert(forall|i: int| 0 <= i < v.len() ==> lower_stmt(s)->Program_0[i] == lower_stmt(v[i]));
        },
        dgen_ast::StmtView::Return(e) => lemma_lower_expr_names_local(e),
        dgen_ast::StmtView::If(c, t, e) => {
            lemma_lower_expr_names_local(c);
            lemma_lowering_marks_names(*t);
            if let Some(b) = e {
                lemma_lowering_marks_names(*b);
            }
        },
        dgen_ast::StmtView::For(i, c, st, b) => {
            lemma_lowering_marks_names(*i);
            lemma_lower_expr_names_local(c);
            lemma_lowering_marks_names(*st);
            lemma_lowering_marks_names(*b);
        },
        dgen_ast::StmtView::While(c, b) => {
            lemma_lower_expr_names_local(c);
            lemma_lowering_marks_names(*b);
        },
        _ => {},
    }
}

} // verus!
