use vstd::prelude::*;

use crate::boxable::Boxable;
use crate::dgen_ast::{Expr, Stmt, StmtView};
use crate::generic::{ExprView, Operator};
use crate::number::{
    add_doubles, compare, compare_doubles, div_doubles, double_difference, double_product,
    double_quotient, double_remainder, double_sum, is_comparison, mul_doubles, negate_double,
    negated, rem_doubles, sub_doubles,
};

verus! {

/// The value of a binary operator on two operands that are already folded.
pub open spec fn fold_binary(op: Operator, l: ExprView, r: ExprView) -> ExprView {
    let kept = ExprView::BinaryOp(op, Box::new(l), Box::new(r));
    match (l, r) {
        (ExprView::Number(a), ExprView::Number(b)) => match op {
            Operator::Add => ExprView::Number(double_sum(a, b)),
            Operator::Sub => ExprView::Number(double_difference(a, b)),
            Operator::Mul => ExprView::Number(double_product(a, b)),
            Operator::Div => ExprView::Number(double_quotient(a, b)),
            Operator::Mod => ExprView::Number(double_remainder(a, b)),
            _ => if is_comparison(op) {
                ExprView::Bool(compare_doubles(op, a, b))
            } else {
                kept
            },
        },
        (ExprView::Bool(a), ExprView::Bool(b)) => match op {
            Operator::And => ExprView::Bool(a && b),
            Operator::Or => ExprView::Bool(a || b),
            Operator::Eq => ExprView::Bool(a == b),
            Operator::Neq => ExprView::Bool(a != b),
            _ => kept,
        },
        (ExprView::Str(a), ExprView::Str(b)) => match op {
            Operator::Add => ExprView::Str(a + b),
            Operator::Eq => ExprView::Bool(a == b),
            Operator::Neq => ExprView::Bool(a != b),
            _ => kept,
        },
        _ => kept,
    }
}

/// The value of a unary operator on an operand that is already folded.
pub open spec fn fold_unary(op: Operator, e: ExprView, postfix: bool) -> ExprView {
    match (op, e) {
        (Operator::Neg, ExprView::Number(n)) => ExprView::Number(negated(n)),
        (Operator::Not, ExprView::Bool(b)) => ExprView::Bool(!b),
        _ => ExprView::UnaryOp(op, Box::new(e), postfix),
    }
}

/// An expression with every statically known subexpression replaced by its
/// value, children first.
pub open spec fn fold(e: ExprView) -> ExprView
    decreases e,
{
    match e {
        ExprView::Array(v) => ExprView::Array(
            Seq::new(v.len(), |i: int| if 0 <= i < v.len() { fold(v[i]) } else { ExprView::Bool(false) }),
        ),
        ExprView::ArrayAccess(a, i) => ExprView::ArrayAccess(a, Box::new(fold(*i))),
        ExprView::UnaryOp(op, x, p) => fold_unary(op, fold(*x), p),
        ExprView::BinaryOp(op, l, r) => fold_binary(op, fold(*l), fold(*r)),
        ExprView::FuncCall(f, v) => ExprView::FuncCall(
            f,
            Seq::new(v.len(), |i: int| if 0 <= i < v.len() { fold(v[i]) } else { ExprView::Bool(false) }),
        ),
        _ => e,
    }
}

fn eval_binary(op: Operator, l: Expr, r: Expr) -> (res: Expr)
    ensures
        res@ == fold_binary(op, l@, r@),
{
    match (l, r) {
        (Expr::Number(a), Expr::Number(b)) => {
            match op {
                Operator::Add => Expr::Number(add_doubles(a, b)),
                Operator::Sub => Expr::Number(sub_doubles(a, b)),
                Operator::Mul => Expr::Number(mul_doubles(a, b)),
                Operator::Div => Expr::Number(div_doubles(a, b)),
                Operator::Mod => Expr::Number(rem_doubles(a, b)),
                Operator::Eq | Operator::Neq | Operator::Lt | Operator::Gt | Operator::Lte
                | Operator::Gte => Expr::Bool(compare(op, a, b)),
                _ => Expr::BinaryOp(op, Expr::Number(a).wrap(), Expr::Number(b).wrap()),
            }
        },
        (Expr::Bool(a), Expr::Bool(b)) => {
            match op {
                Operator::And => Expr::Bool(a && b),
                Operator::Or => Expr::Bool(a || b),
                Operator::Eq => Expr::Bool(a == b),
                Operator::Neq => Expr::Bool(a != b),
                _ => Expr::BinaryOp(op, Expr::Bool(a).wrap(), Expr::Bool(b).wrap()),
            }
        },
        (Expr::String(a), Expr::String(b)) => {
            match op {
                Operator::Add => Expr::String(a.concat(b.as_str())),
                Operator::Eq => Expr::Bool(a == b),
                Operator::Neq => Expr::Bool(a != b),
                _ => Expr::BinaryOp(op, Expr::String(a).wrap(), Expr::String(b).wrap()),
            }
        },
        (l, r) => Expr::BinaryOp(op, l.wrap(), r.wrap()),
    }
}

fn eval_unary(op: Operator, e: Expr, postfix: bool) -> (res: Expr)
    ensures
        res@ == fold_unary(op, e@, postfix),
{
    match (op, e) {
        (Operator::Neg, Expr::Number(n)) => Expr::Number(negate_double(n)),
        (Operator::Not, Expr::Bool(b)) => Expr::Bool(!b),
        (op, e) => Expr::UnaryOp(op, e.wrap(), postfix),
    }
}

fn eval_all(v: Vec<Expr>) -> (r: Vec<Expr>)
    ensures
        r.len() == v.len(),
        forall|i: int| 0 <= i < v.len() ==> (#[trigger] r[i])@ == fold(v[i]@),
    decreases v,
{
    let ghost orig = v;
    let mut rest = v;
    let mut out: Vec<Expr> = Vec::new();
    let n = rest.len();
    while rest.len() > 0
        invariant
            n == orig.len(),
            orig == v,
            out.len() + rest.len() == n,
            rest@ == orig@.subrange(out.len() as int, n as int),
            forall|i: int| 0 <= i < out.len() ==> (#[trigger] out[i])@ == fold(orig[i]@),
        decreases rest.len(),
    {
        let ghost k = out.len() as int;
        let e = rest.remove(0);
        assert(e == orig[k]);
        assert(decreases_to!(orig => e));
        out.push(e.eval());
    }
    out
}

impl Expr {
    /// Folds this expression.
    pub fn eval(self) -> (r: Expr)
        ensures
            r@ == fold(self@),
        decreases self,
    {
        match self {
            Expr::Array(v) => {
                let w = eval_all(v);
                assert(Expr::Array(w)@ == fold(Expr::Array(v)@)) by {
                    assert(Expr::Array(w)@->Array_0 =~= fold(Expr::Array(v)@)->Array_0);
                }
                Expr::Array(w)
            },
            Expr::ArrayAccess(a, i) => Expr::ArrayAccess(a, (*i).eval().wrap()),
            Expr::UnaryOp(op, e, p) => eval_unary(op, (*e).eval(), p),
            Expr::BinaryOp(op, l, r) => {
                let el = (*l).eval();
                let er = (*r).eval();
                eval_binary(op, el, er)
            },
            Expr::FuncCall(f, v) => {
                let w = eval_all(v);
                assert(Expr::FuncCall(f, w)@ == fold(Expr::FuncCall(f, v)@)) by {
                    assert(Expr::FuncCall(f, w)@->FuncCall_1 =~= fold(Expr::FuncCall(f, v)@)->FuncCall_1);
                }
                Expr::FuncCall(f, w)
            },
            e => e,
        }
    }
}

/// A statement with every expression in it folded.
pub open spec fn optimized(s: StmtView) -> StmtView
    decreases s,
{
    match s {
        StmtView::Expr(e) => StmtView::Expr(fold(e)),
        StmtView::VarDecl(t, n, v) => StmtView::VarDecl(
            t,
            n,
            match v {
                Some(e) => Some(fold(e)),
                None => None,
            },
        ),
        StmtView::FuncDef(t, n, ps, b) => StmtView::FuncDef(t, n, ps, Box::new(optimized(*b))),
        StmtView::Assign(n, e) => StmtView::Assign(n, fold(e)),
        StmtView::Block(v) => StmtView::Block(
            Seq::new(v.len(), |i: int| if 0 <= i < v.len() { optimized(v[i]) } else { StmtView::Break }),
        ),
        StmtView::Program(v) => StmtView::Program(
            Seq::new(v.len(), |i: int| if 0 <= i < v.len() { optimized(v[i]) } else { StmtView::Break }),
        ),
        StmtView::Return(e) => StmtView::Return(fold(e)),
        StmtView::If(c, t, e) => StmtView::If(
            fold(c),
            Box::new(optimized(*t)),
            match e {
                Some(b) => Some(Box::new(optimized(*b))),
                None => None,
            },
        ),
        StmtView::For(i, c, st, b) => StmtView::For(
            Box::new(optimized(*i)),
            fold(c),
            Box::new(optimized(*st)),
            Box::new(optimized(*b)),
        ),
        StmtView::While(c, b) => StmtView::While(fold(c), Box::new(optimized(*b))),
        _ => s,
    }
}

fn optimize_all(v: Vec<Stmt>) -> (r: Vec<Stmt>)
    ensures
        r.len() == v.len(),
        forall|i: int| 0 <= i < v.len() ==> (#[trigger] r[i])@ == optimized(v[i]@),
    decreases v,
{
    let ghost orig = v;
    let mut rest = v;
    let mut out: Vec<Stmt> = Vec::new();
    let n = rest.len();
    while rest.len() > 0
        invariant
            n == orig.len(),
            orig == v,
            out.len() + rest.len() == n,
            rest@ == orig@.subrange(out.len() as int, n as int),
            forall|i: int| 0 <= i < out.len() ==> (#[trigger] out[i])@ == optimized(orig[i]@),
        decreases rest.len(),
    {
        let ghost k = out.len() as int;
        let s = rest.remove(0);
        assert(s == orig[k]);
        assert(decreases_to!(orig => s));
        out.push(optimize(s));
    }
    out
}

/// Folds every expression of a statement tree.
pub fn optimize(root: Stmt) -> (r: Stmt)
    ensures
        r@ == optimized(root@),
    decreases root,
{
    match root {
        Stmt::Block(v) => {
            let w = optimize_all(v);
            assert(Stmt::Block(w)@ == optimized(Stmt::Block(v)@)) by {
                assert(Stmt::Block(w)@->Block_0 =~= optimized(Stmt::Block(v)@)->Block_0);
            }
            Stmt::Block(w)
        },
        Stmt::Program(v) => {
            let w = optimize_all(v);
            assert(Stmt::Program(w)@ == optimized(Stmt::Program(v)@)) by {
                assert(Stmt::Program(w)@->Program_0 =~= optimized(Stmt::Program(v)@)->Program_0);
            }
            Stmt::Program(w)
        },
        Stmt::Expr(e) => Stmt::Expr(e.eval()),
        Stmt::Assign(n, e) => Stmt::Assign(n, e.eval()),
        Stmt::VarDecl(t, n, v) => {
            let folded = match v {
                Some(e) => Some(e.eval()),
                None => None,
            };
            Stmt::VarDecl(t, n, folded)
        },
        Stmt::FuncDef(t, n, ps, b) => Stmt::FuncDef(t, n, ps, optimize(*b).wrap()),
        Stmt::Return(e) => Stmt::Return(e.eval()),
        Stmt::If(c, t, e) => {
            let fc = c.eval();
            let ft = optimize(*t).wrap();
            let fe = match e {
                Some(b) => Some(optimize(*b).wrap()),
                None => None,
            };
            Stmt::If(fc, ft, fe)
        },
        Stmt::For(i, c, st, b) => {
            let fi = optimize(*i).wrap();
            let fc = c.eval();
            let fs = optimize(*st).wrap();
            let fb = optimize(*b).wrap();
            Stmt::For(fi, fc, fs, fb)
        },
        Stmt::While(c, b) => {
            let fc = c.eval();
            Stmt::While(fc, optimize(*b).wrap())
        },
        s => s,
    }
}

/// Whether an operator is one of the five arithmetic operators.
pub open spec fn is_arithmetic(op: Operator) -> bool {
    op == Operator::Add || op == Operator::Sub || op == Operator::Mul || op == Operator::Div
        || op == Operator::Mod
}

/// The IEEE-754 result of an arithmetic operator on two doubles.
pub open spec fn arithmetic_result(op: Operator, a: u64, b: u64) -> u64 {
    match op {
        Operator::Add => double_sum(a, b),
        Operator::Sub => double_difference(a, b),
        Operator::Mul => double_product(a, b),
        Operator::Div => double_quotient(a, b),
        _ => double_remainder(a, b),
    }
}

/// An arithmetic operator on two number literals folds to the literal that
/// holds the IEEE-754 result.
pub proof fn lemma_fold_arithmetic(op: Operator, a: u64, b: u64)
    requires
        is_arithmetic(op),
    ensures
        fold(
            ExprView::BinaryOp(op, Box::new(ExprView::Number(a)), Box::new(ExprView::Number(b))),
        ) == ExprView::Number(arithmetic_result(op, a, b)),
{
    reveal_with_fuel(fold, 2);
}

/// Folding an expression that is already folded leaves it as it is.
pub proof fn lemma_fold_idempotent(e: ExprView)
    ensures
        fold(fold(e)) == fold(e),
    decreases e,
{
    match e {
        ExprView::Array(v) => {
            assert forall|i: int| 0 <= i < v.len() implies fold(fold(v[i])) == fold(v[i]) by {
                lemma_fold_idempotent(v[i]);
            }
            assert(fold(fold(e))->Array_0 =~= fold(e)->Array_0);
        },
        ExprView::ArrayAccess(a, i) => {
            lemma_fold_idempotent(*i);
        },
        ExprView::UnaryOp(op, x, p) => {
            lemma_fold_idempotent(*x);
        },
        ExprView::BinaryOp(op, l, r) => {
            lemma_fold_idempotent(*l);
            lemma_fold_idempotent(*r);
        },
        ExprView::FuncCall(f, v) => {
            assert forall|i: int| 0 <= i < v.len() implies fold(fold(v[i])) == fold(v[i]) by {
                lemma_fold_idempotent(v[i]);
            }
            assert(fold(fold(e))->FuncCall_1 =~= fold(e)->FuncCall_1);
        },
        _ => {},
    }
}

/// Optimizing a statement tree that is already optimized leaves it as it is.
pub proof fn lemma_optimize_idempotent(s: StmtView)
    ensures
        optimized(optimized(s)) == optimized(s),
    decreases s,
{
    match s {
        StmtView::Expr(e) => lemma_fold_idempotent(e),
        StmtView::VarDecl(t, n, v) => {
            if let Some(e) = v {
                lemma_fold_idempotent(e);
            }
        },
        StmtView::FuncDef(t, n, ps, b) => lemma_optimize_idempotent(*b),
        StmtView::Assign(n, e) => lemma_fold_idempotent(e),
        StmtView::Block(v) => {
            assert forall|i: int| 0 <= i < v.len() implies optimized(optimized(v[i])) == optimized(
                v[i],
            ) by {
                lemma_optimize_idempotent(v[i]);
            }
            assert(optimized(optimized(s))->Block_0 =~= optimized(s)->Block_0);
        },
        StmtView::Program(v) => {
            assert forall|i: int| 0 <= i < v.len() implies optimized(optimized(v[i])) == optimized(
                v[i],
            ) by {
                lemma_optimize_idempotent(v[i]);
            }
            assert(optimized(optimized(s))->Program_0 =~= optimized(s)->Program_0);
        },
        StmtView::Return(e) => lemma_fold_idempotent(e),
        StmtView::If(c, t, e) => {
            lemma_fold_idempotent(c);
            lemma_optimize_idempotent(*t);
            if let Some(b) = e {
                lemma_optimize_idempotent(*b);
            }
        },
        StmtView::For(i, c, st, b) => {
            lemma_optimize_idempotent(*i);
            lemma_fold_idempotent(c);
            lemma_optimize_idempotent(*st);
            lemma_optimize_idempotent(*b);
        },
        StmtView::While(c, b) => {
            lemma_fold_idempotent(c);
            lemma_optimize_idempotent(*b);
        },
        _ => {},
    }
}

/// A double logical negation of a boolean literal folds to that literal.
pub proof fn lemma_double_not(b: bool)
    ensures
        fold(
            ExprView::UnaryOp(
                Operator::Not,
                Box::new(ExprView::UnaryOp(Operator::Not, Box::new(ExprView::Bool(b)), false)),
                false,
            ),
        ) == ExprView::Bool(b),
{
    reveal_with_fuel(fold, 3);
}

/// `+` folds to a string exactly when both operands fold to string literals,
/// and then to their concatenation.
pub proof fn lemma_concat_folds_only_strings(l: ExprView, r: ExprView)
    ensures
        fold(ExprView::BinaryOp(Operator::Add, Box::new(l), Box::new(r))) is Str <==> (
        fold(l) is Str && fold(r) is Str),
        fold(l) is Str && fold(r) is Str ==> fold(
            ExprView::BinaryOp(Operator::Add, Box::new(l), Box::new(r)),
        ) == ExprView::Str(fold(l)->Str_0 + fold(r)->Str_0),
{
}

/// Whether an expression is built from number literals by arithmetic
/// operators and negation alone.
pub open spec fn is_number_constant(e: ExprView) -> bool
    decreases e,
{
    match e {
        ExprView::Number(_) => true,
        ExprView::UnaryOp(Operator::Neg, x, _) => is_number_constant(*x),
        ExprView::BinaryOp(op, l, r) => is_arithmetic(op) && is_number_constant(*l)
            && is_number_constant(*r),
        _ => false,
    }
}

/// Whether an expression is built from boolean literals and comparisons of
/// number constants by logical operators alone.
pub open spec fn is_bool_constant(e: ExprView) -> bool
    decreases e,
{
    match e {
        ExprView::Bool(_) => true,
        ExprView::UnaryOp(Operator::Not, x, _) => is_bool_constant(*x),
        ExprView::BinaryOp(op, l, r) => if is_comparison(op) && is_number_constant(*l)
            && is_number_constant(*r) {
            true
        } else {
            (op == Operator::And || op == Operator::Or || op == Operator::Eq || op == Operator::Neq)
                && is_bool_constant(*l) && is_bool_constant(*r)
        },
        _ => false,
    }
}

/// A nested arithmetic expression over number literals folds to a single
/// number literal.
pub proof fn lemma_number_constant_folds(e: ExprView)
    requires
        is_number_constant(e),
    ensures
        fold(e) is Number,
    decreases e,
{
    match e {
        ExprView::UnaryOp(_, x, _) => lemma_number_constant_folds(*x),
        ExprView::BinaryOp(_, l, r) => {
            lemma_number_constant_folds(*l);
            lemma_number_constant_folds(*r);
        },
        _ => {},
    }
}

/// A nested logical expression over boolean literals and comparisons of
/// number constants folds to a single boolean literal.
pub proof fn lemma_bool_constant_folds(e: ExprView)
    requires
        is_bool_constant(e),
    ensures
        fold(e) is Bool,
    decreases e,
{
    match e {
        ExprView::UnaryOp(_, x, _) => lemma_bool_constant_folds(*x),
        ExprView::BinaryOp(op, l, r) => {
            if is_comparison(op) && is_number_constant(*l) && is_number_constant(*r) {
                lemma_number_constant_folds(*l);
                lemma_number_constant_folds(*r);
            } else {
                lemma_bool_constant_folds(*l);
                lemma_bool_constant_folds(*r);
            }
        },
        _ => {},
    }
}

} // verus!
