use vstd::prelude::*;

use crate::generic::{operator_text, ExprView};
use crate::parser::{chars_of, push_char};
use crate::sqf_ast::{Expr, Stmt, StmtView, Type};

verus! {

/// The text given for a number by a table of (bit pattern, text) entries:
/// that of the first entry from position `i` on whose bit pattern matches,
/// empty where none does.
pub open spec fn number_text_from(t: Seq<(u64, String)>, b: u64, i: int) -> Seq<char>
    decreases t.len() - i,
{
    if i < 0 || i >= t.len() {
        seq![]
    } else if t[i].0 == b {
        t[i].1@
    } else {
        number_text_from(t, b, i + 1)
    }
}

/// The text given for a number by a table of (bit pattern, text) entries.
pub open spec fn number_text(t: Seq<(u64, String)>, b: u64) -> Seq<char> {
    number_text_from(t, b, 0)
}

/// The parts joined, with a separator between each two.
pub open spec fn join(parts: Seq<Seq<char>>, sep: Seq<char>) -> Seq<char>
    decreases parts.len(),
{
    if parts.len() == 0 {
        seq![]
    } else if parts.len() == 1 {
        parts[0]
    } else {
        join(parts.drop_last(), sep) + sep + parts.last()
    }
}

pub open spec fn quoted(s: Seq<char>) -> Seq<char> {
    seq!['"'] + s + seq!['"']
}

pub open spec fn bool_text(b: bool) -> Seq<char> {
    if b {
        seq!['t', 'r', 'u', 'e']
    } else {
        seq!['f', 'a', 'l', 's', 'e']
    }
}

/// The laid-out target text of an expression; numbers take their text from
/// the table.
pub open spec fn expr_text(e: ExprView, t: Seq<(u64, String)>) -> Seq<char>
    decreases e,
{
    match e {
        ExprView::Number(b) => number_text(t, b),
        ExprView::Bool(b) => bool_text(b),
        ExprView::Str(s) => quoted(s),
        ExprView::Identifier(n) => n,
        ExprView::Array(v) => seq!['['] + join(exprs_text(v, t), seq![',', ' ']) + seq![']'],
        ExprView::ArrayAccess(a, i) => seq!['('] + a + " select "@ + expr_text(*i, t) + seq![')'],
        ExprView::FuncCall(f, v) => seq!['(', '['] + join(exprs_text(v, t), seq![',', ' '])
            + "] call "@ + f + seq![')'],
        ExprView::UnaryOp(op, x, postfix) => if postfix {
            expr_text(*x, t) + operator_text(op)
        } else {
            operator_text(op) + expr_text(*x, t)
        },
        ExprView::BinaryOp(op, l, r) => seq!['('] + expr_text(*l, t) + seq![' '] + operator_text(op)
            + seq![' '] + expr_text(*r, t) + seq![')'],
    }
}

/// The target texts of a sequence of expressions.
pub open spec fn exprs_text(v: Seq<ExprView>, t: Seq<(u64, String)>) -> Seq<Seq<char>>
    decreases v,
{
    Seq::new(v.len(), |i: int| if 0 <= i < v.len() { expr_text(v[i], t) } else { seq![] })
}

fn push_str(out: &mut String, s: &str)
    ensures
        final(out)@ == old(out)@ + s@,
{
    out.append(s);
}

fn join_texts(parts: &Vec<String>, sep: &str) -> (r: String)
    ensures
        r@ == join(parts@.map_values(|s: String| s@), sep@),
{
    let ghost views = parts@.map_values(|s: String| s@);
    let mut out = String::new();
    let mut i: usize = 0;
    while i < parts.len()
        invariant
            i <= parts.len(),
            views == parts@.map_values(|s: String| s@),
            out@ == join(views.subrange(0, i as int), sep@),
        decreases parts.len() - i,
    {
        assert(views.subrange(0, i + 1).drop_last() =~= views.subrange(0, i as int));
        if i > 0 {
            out.append(sep);
        }
        out.append(parts[i].as_str());
        i = i + 1;
    }
    assert(views.subrange(0, parts.len() as int) =~= views);
    out
}

fn number_lookup(numbers: &Vec<(u64, String)>, b: u64) -> (r: String)
    ensures
        r@ == number_text(numbers@, b),
{
    let mut i: usize = 0;
    while i < numbers.len()
        invariant
            i <= numbers.len(),
            number_text_from(numbers@, b, i as int) == number_text(numbers@, b),
        decreases numbers.len() - i,
    {
        if numbers[i].0 == b {
            return numbers[i].1.clone();
        }
        i = i + 1;
    }
    String::new()
}

fn exprs_texts(v: &Vec<Expr>, indent: usize, minify: bool, numbers: &Vec<(u64, String)>) -> (r: Vec<String>)
    ensures
        r.len() == v.len(),
        forall|i: int| 0 <= i < v.len() ==> (#[trigger] r[i])@ == expr_text(v[i]@, numbers@),
    decreases v,
{
    let mut out: Vec<String> = Vec::new();
    let mut i: usize = 0;
    while i < v.len()
        invariant
            i <= v.len(),
            out.len() == i,
            forall|j: int| 0 <= j < i ==> (#[trigger] out[j])@ == expr_text(v[j]@, numbers@),
        decreases v.len() - i,
    {
        assert(decreases_to!(v => v[i as int]));
        out.push(v[i].layout(indent, minify, numbers));
        i = i + 1;
    }
    out
}

impl Expr {
    /// The laid-out text of this expression, before minifying.
    fn layout(&self, indent: usize, minify: bool, numbers: &Vec<(u64, String)>) -> (r: String)
        ensures
            r@ == expr_text(self@, numbers@),
        decreases self,
    {
        proof {
            reveal_strlit("true");
            reveal_strlit("false");
            reveal_strlit("\"");
            reveal_strlit("[");
            reveal_strlit("]");
            reveal_strlit("(");
            reveal_strlit("([");
            reveal_strlit(")");
            reveal_strlit(" ");
            reveal_strlit(", ");
            reveal_strlit(" select ");
            reveal_strlit("] call ");
            assert(", "@ =~= seq![',', ' ']);
        }
        match self {
            Expr::Number(b) => number_lookup(numbers, *b),
            Expr::Bool(b) => if *b {
                String::from_str("true")
            } else {
                String::from_str("false")
            },
            Expr::String(s) => {
                let mut out = String::from_str("\"");
                push_str(&mut out, s.as_str());
                push_str(&mut out, "\"");
                assert(out@ =~= expr_text(self@, numbers@));
                out
            },
            Expr::Identifier(n) => n.clone(),
            Expr::Array(v) => {
                let parts = exprs_texts(v, indent, minify, numbers);
                let mut out = String::from_str("[");
                let inner = join_texts(&parts, ", ");
                push_str(&mut out, inner.as_str());
                push_str(&mut out, "]");
                assert(parts@.map_values(|s: String| s@) =~= exprs_text(self@->Array_0, numbers@));
                assert(out@ =~= expr_text(self@, numbers@));
                out
            },
            Expr::ArrayAccess(a, i) => {
                let mut out = String::from_str("(");
                push_str(&mut out, a.as_str());
                push_str(&mut out, " select ");
                let index = i.layout(indent, minify, numbers);
                push_str(&mut out, index.as_str());
                push_str(&mut out, ")");
                assert(out@ =~= expr_text(self@, numbers@));
                out
            },
            Expr::FuncCall(f, v) => {
                let parts = exprs_texts(v, indent, minify, numbers);
                let mut out = String::from_str("([");
                let inner = join_texts(&parts, ", ");
                push_str(&mut out, inner.as_str());
                push_str(&mut out, "] call ");
                push_str(&mut out, f.as_str());
                push_str(&mut out, ")");
                assert(parts@.map_values(|s: String| s@) =~= exprs_text(self@->FuncCall_1, numbers@));
                assert(out@ =~= expr_text(self@, numbers@));
                out
            },
            Expr::UnaryOp(op, x, postfix) => {
                let operand = x.layout(indent, minify, numbers);
                let op_text = op.to_string();
                if *postfix {
                    operand.concat(op_text.as_str())
                } else {
                    op_text.concat(operand.as_str())
                }
            },
            Expr::BinaryOp(op, l, r) => {
                let left = l.layout(indent, minify, numbers);
                let right = r.layout(indent, minify, numbers);
                let mut out = String::from_str("(");
                push_str(&mut out, left.as_str());
                push_str(&mut out, " ");
                let op_text = op.to_string();
                push_str(&mut out, op_text.as_str());
                push_str(&mut out, " ");
                push_str(&mut out, right.as_str());
                push_str(&mut out, ")");
                assert(out@ =~= expr_text(self@, numbers@));
                out
            },
        }
    }
}

/// Two spaces for each level of indentation.
pub open spec fn spaces(n: nat) -> Seq<char>
    decreases n,
{
    if n == 0 {
        seq![]
    } else {
        spaces((n - 1) as nat) + seq![' ', ' ']
    }
}

/// The indentation of a line at a depth; none when minified.
pub open spec fn indent_text(k: usize, minify: bool) -> Seq<char> {
    if minify {
        seq![]
    } else {
        spaces(k as nat)
    }
}

/// The line break; none when minified.
pub open spec fn newline(minify: bool) -> Seq<char> {
    if minify {
        seq![]
    } else {
        seq!['\n']
    }
}

/// The next depth of indentation, which stops growing at the largest `usize`.
pub open spec fn deeper(k: usize) -> usize {
    if k < usize::MAX {
        (k + 1) as usize
    } else {
        k
    }
}

/// The quoted parameter names of a function.
pub open spec fn param_names(ps: Seq<(Type, Seq<char>)>) -> Seq<Seq<char>> {
    ps.map_values(|p: (Type, Seq<char>)| quoted(p.1))
}

/// The laid-out target text of a statement at depth `k`; minified output
/// then has its line breaks removed.
pub open spec fn stmt_text(s: StmtView, k: usize, m: bool, t: Seq<(u64, String)>) -> Seq<char>
    decreases s,
{
    let ind = indent_text(k, m);
    let nl = newline(m);
    match s {
        StmtView::Dummy => seq![],
        StmtView::Expr(e) => ind + expr_text(e, t),
        StmtView::VarDecl(n, v) => match v {
            Some(e) => ind + "private "@ + n + " = "@ + expr_text(e, t),
            None => ind + "private "@ + n,
        },
        StmtView::Assign(n, e) => ind + n + " = "@ + expr_text(e, t),
        StmtView::FuncDef(n, ps, b) => ind + n + " = {"@ + nl + indent_text(deeper(k), m)
            + "params ["@ + join(param_names(ps), ", "@) + "];"@ + nl + indent_text(deeper(k), m)
            + "scopeName \"__func__\";"@ + nl + stmt_text(*b, k, m, t) + nl + ind + "}"@,
        StmtView::Block(v) => join(stmts_text(v, deeper(k), m, t), nl),
        StmtView::Program(v) => join(stmts_text(v, k, m, t), nl),
        StmtView::Return(e) => ind + expr_text(e, t) + " breakOut \"__func__\""@,
        StmtView::Break => ind + "break"@,
        StmtView::Continue => ind + "continue"@,
        StmtView::If(c, a, b) => match b {
            Some(b) => ind + "if ("@ + expr_text(c, t) + ") then {"@ + nl + stmt_text(*a, k, m, t)
                + nl + ind + "} else {"@ + nl + stmt_text(*b, k, m, t) + nl + ind + "}"@,
            None => ind + "if ("@ + expr_text(c, t) + ") then {"@ + nl + stmt_text(*a, k, m, t) + nl
                + ind + "}"@,
        },
        StmtView::For(i, c, st, b) => ind + "for [{"@ + stmt_text(*i, 0, m, t) + "}, {"@ + expr_text(
            c,
            t,
        ) + "}, {"@ + stmt_text(*st, 0, m, t) + "}] do {"@ + nl + stmt_text(*b, k, m, t) + nl + ind
            + "}"@,
        StmtView::While(c, b) => ind + "while {"@ + expr_text(c, t) + "} do {"@ + nl + stmt_text(
            *b,
            k,
            m,
            t,
        ) + nl + ind + "}"@,
    }
}

/// The texts of the statements of a block, each ended by `;`.
pub open spec fn stmts_text(v: Seq<StmtView>, k: usize, m: bool, t: Seq<(u64, String)>) -> Seq<
    Seq<char>,
>
    decreases v,
{
    Seq::new(
        v.len(),
        |i: int| if 0 <= i < v.len() { stmt_text(v[i], k, m, t) + seq![';'] } else { seq![] },
    )
}

fn indent_string(k: usize, minify: bool) -> (r: String)
    ensures
        r@ == indent_text(k, minify),
{
    let mut out = String::new();
    if minify {
        return out;
    }
    let mut i: usize = 0;
    while i < k
        invariant
            i <= k,
            out@ == spaces(i as nat),
        decreases k - i,
    {
        proof {
            reveal_strlit("  ");
            assert("  "@ =~= seq![' ', ' ']);
        }
        out.append("  ");
        i = i + 1;
    }
    out
}

fn newline_string(minify: bool) -> (r: String)
    ensures
        r@ == newline(minify),
{
    proof {
        reveal_strlit("\n");
    }
    if minify {
        String::new()
    } else {
        String::from_str("\n")
    }
}

fn deeper_exec(k: usize) -> (r: usize)
    ensures
        r == deeper(k),
{
    if k < usize::MAX {
        k + 1
    } else {
        k
    }
}

fn stmts_texts(v: &Vec<Stmt>, k: usize, minify: bool, numbers: &Vec<(u64, String)>) -> (r: Vec<
    String,
>)
    ensures
        r@.map_values(|s: String| s@) == stmts_text(v@.map_values(|s: Stmt| s@), k, minify, numbers@),
    decreases v,
{
    let mut out: Vec<String> = Vec::new();
    let mut i: usize = 0;
    while i < v.len()
        invariant
            i <= v.len(),
            out.len() == i,
            forall|j: int|
                0 <= j < i ==> (#[trigger] out[j])@ == stmt_text(v[j]@, k, minify, numbers@) + seq![';'],
        decreases v.len() - i,
    {
        assert(decreases_to!(v => v[i as int]));
        let mut text = v[i].layout(k, minify, numbers);
        proof {
            reveal_strlit(";");
            assert(";"@ =~= seq![';']);
        }
        text.append(";");
        out.push(text);
        i = i + 1;
    }
    assert(out@.map_values(|s: String| s@) =~= stmts_text(v@.map_values(|s: Stmt| s@), k, minify, numbers@));
    out
}

fn param_strings(ps: &Vec<(Type, String)>) -> (r: Vec<String>)
    ensures
        r@.map_values(|s: String| s@) == param_names(ps@.map_values(|p: (Type, String)| (p.0, p.1@))),
{
    let mut out: Vec<String> = Vec::new();
    let mut i: usize = 0;
    while i < ps.len()
        invariant
            i <= ps.len(),
            out.len() == i,
            forall|j: int| 0 <= j < i ==> (#[trigger] out[j])@ == quoted(ps[j].1@),
        decreases ps.len() - i,
    {
        proof {
            reveal_strlit("\"");
            assert("\""@ =~= seq!['"']);
        }
        let mut q = String::from_str("\"");
        q.append(ps[i].1.as_str());
        q.append("\"");
        out.push(q);
        i = i + 1;
    }
    assert(out@.map_values(|s: String| s@) =~= param_names(ps@.map_values(|p: (Type, String)| (p.0, p.1@))));
    out
}

impl Stmt {
    /// The laid-out text of this statement at depth `indent`, before its
    /// line breaks are removed for minified output.
    fn layout(&self, indent: usize, minify: bool, numbers: &Vec<(u64, String)>) -> (r: String)
        ensures
            r@ == stmt_text(self@, indent, minify, numbers@),
        decreases self,
    {
        proof {
            reveal_strlit("private ");
            reveal_strlit(" = ");
            reveal_strlit(" = {");
            reveal_strlit("params [");
            reveal_strlit(", ");
            reveal_strlit("];");
            reveal_strlit("scopeName \"__func__\";");
            reveal_strlit("}");
            reveal_strlit(" breakOut \"__func__\"");
            reveal_strlit("break");
            reveal_strlit("continue");
            reveal_strlit("if (");
            reveal_strlit(") then {");
            reveal_strlit("} else {");
            reveal_strlit("for [{");
            reveal_strlit("}, {");
            reveal_strlit("}] do {");
            reveal_strlit("while {");
            reveal_strlit("} do {");
        }
        let ind = indent_string(indent, minify);
        let nl = newline_string(minify);
        let mut out = String::new();
        match self {
            Stmt::Dummy => {},
            Stmt::Expr(e) => {
                push_str(&mut out, ind.as_str());
                let x = e.layout(indent, minify, numbers);
                push_str(&mut out, x.as_str());
            },
            Stmt::VarDecl(n, v) => {
                push_str(&mut out, ind.as_str());
                push_str(&mut out, "private ");
                push_str(&mut out, n.as_str());
                match v {
                    Some(e) => {
                        push_str(&mut out, " = ");
                        let x = e.layout(indent, minify, numbers);
                        push_str(&mut out, x.as_str());
                    },
                    None => {},
                }
            },
            Stmt::Assign(n, e) => {
                push_str(&mut out, ind.as_str());
                push_str(&mut out, n.as_str());
                push_str(&mut out, " = ");
                let x = e.layout(indent, minify, numbers);
                push_str(&mut out, x.as_str());
            },
            Stmt::FuncDef(n, ps, b) => {
                let inner = indent_string(deeper_exec(indent), minify);
                let names = param_strings(ps);
                let list = join_texts(&names, ", ");
                let body = b.layout(indent, minify, numbers);
                push_str(&mut out, ind.as_str());
                push_str(&mut out, n.as_str());
                push_str(&mut out, " = {");
                push_str(&mut out, nl.as_str());
                push_str(&mut out, inner.as_str());
                push_str(&mut out, "params [");
                push_str(&mut out, list.as_str());
                push_str(&mut out, "];");
                push_str(&mut out, nl.as_str());
                push_str(&mut out, inner.as_str());
                push_str(&mut out, "scopeName \"__func__\";");
                push_str(&mut out, nl.as_str());
                push_str(&mut out, body.as_str());
                push_str(&mut out, nl.as_str());
                push_str(&mut out, ind.as_str());
                push_str(&mut out, "}");
            },
            Stmt::Block(v) => {
                let parts = stmts_texts(v, deeper_exec(indent), minify, numbers);
                out = join_texts(&parts, nl.as_str());
                assert(v@.map_values(|s: Stmt| s@) =~= self@->Block_0);
            },
            Stmt::Program(v) => {
                let parts = stmts_texts(v, indent, minify, numbers);
                out = join_texts(&parts, nl.as_str());
                assert(v@.map_values(|s: Stmt| s@) =~= self@->Program_0);
            },
            Stmt::Return(e) => {
                push_str(&mut out, ind.as_str());
                let x = e.layout(indent, minify, numbers);
                push_str(&mut out, x.as_str());
                push_str(&mut out, " breakOut \"__func__\"");
            },
            Stmt::Break => {
                push_str(&mut out, ind.as_str());
                push_str(&mut out, "break");
            },
            Stmt::Continue => {
                push_str(&mut out, ind.as_str());
                push_str(&mut out, "continue");
            },
            Stmt::If(c, a, b) => {
                let cond = c.layout(indent, minify, numbers);
                let then_text = a.layout(indent, minify, numbers);
                push_str(&mut out, ind.as_str());
                push_str(&mut out, "if (");
                push_str(&mut out, cond.as_str());
                push_str(&mut out, ") then {");
                push_str(&mut out, nl.as_str());
                push_str(&mut out, then_text.as_str());
                push_str(&mut out, nl.as_str());
                push_str(&mut out, ind.as_str());
                match b {
                    Some(b) => {
                        let else_text = b.layout(indent, minify, numbers);
                        push_str(&mut out, "} else {");
                        push_str(&mut out, nl.as_str());
                        push_str(&mut out, else_text.as_str());
                        push_str(&mut out, nl.as_str());
                        push_str(&mut out, ind.as_str());
                    },
                    None => {},
                }
                push_str(&mut out, "}");
            },
            Stmt::For(i, c, st, b) => {
                let init = i.layout(0, minify, numbers);
                let cond = c.layout(indent, minify, numbers);
                let step = st.layout(0, minify, numbers);
                let body = b.layout(indent, minify, numbers);
                push_str(&mut out, ind.as_str());
                push_str(&mut out, "for [{");
                push_str(&mut out, init.as_str());
                push_str(&mut out, "}, {");
                push_str(&mut out, cond.as_str());
                push_str(&mut out, "}, {");
                push_str(&mut out, step.as_str());
                push_str(&mut out, "}] do {");
                push_str(&mut out, nl.as_str());
                push_str(&mut out, body.as_str());
                push_str(&mut out, nl.as_str());
                push_str(&mut out, ind.as_str());
                push_str(&mut out, "}");
            },
            Stmt::While(c, b) => {
                let cond = c.layout(indent, minify, numbers);
                let body = b.layout(indent, minify, numbers);
                push_str(&mut out, ind.as_str());
                push_str(&mut out, "while {");
                push_str(&mut out, cond.as_str());
                push_str(&mut out, "} do {");
                push_str(&mut out, nl.as_str());
                push_str(&mut out, body.as_str());
                push_str(&mut out, nl.as_str());
                push_str(&mut out, ind.as_str());
                push_str(&mut out, "}");
            },
        }
        assert(out@ =~= stmt_text(self@, indent, minify, numbers@));
        out
    }
}

/// A text with its line breaks removed.
pub open spec fn strip_newlines(t: Seq<char>) -> Seq<char>
    decreases t.len(),
{
    if t.len() == 0 {
        seq![]
    } else if t.last() == '\n' {
        strip_newlines(t.drop_last())
    } else {
        strip_newlines(t.drop_last()).push(t.last())
    }
}

/// The output form of a laid-out text: minified output holds no line break.
pub open spec fn rendered(text: Seq<char>, minify: bool) -> Seq<char> {
    if minify {
        strip_newlines(text)
    } else {
        text
    }
}

/// A text with its line breaks removed holds none.
pub proof fn lemma_strip_newlines(t: Seq<char>)
    ensures
        !strip_newlines(t).contains('\n'),
    decreases t.len(),
{
    if t.len() > 0 {
        lemma_strip_newlines(t.drop_last());
        let r = strip_newlines(t.drop_last());
        if t.last() != '\n' {
            assert forall|i: int| 0 <= i < r.push(t.last()).len() implies r.push(t.last())[i]
                != '\n' by {
                if i < r.len() {
                    assert(!r.contains('\n'));
                    assert(r[i] != '\n');
                }
            }
        }
    }
}

fn strip_newlines_of(text: &String) -> (r: String)
    ensures
        r@ == strip_newlines(text@),
{
    let cs = chars_of(text.as_str());
    let mut out = String::new();
    let mut i: usize = 0;
    while i < cs.len()
        invariant
            i <= cs.len(),
            cs@ == text@,
            out@ == strip_newlines(cs@.subrange(0, i as int)),
        decreases cs.len() - i,
    {
        assert(cs@.subrange(0, i + 1).drop_last() =~= cs@.subrange(0, i as int));
        if cs[i] != '\n' {
            push_char(&mut out, cs[i]);
        }
        i = i + 1;
    }
    assert(cs@.subrange(0, cs.len() as int) =~= cs@);
    out
}

impl Expr {
    /// The target text of this expression; `numbers` gives the text of each
    /// number literal by its bit pattern. An expression lays out the same at
    /// every depth; minified, its line breaks are removed.
    pub fn generate_sqf(&self, indent: usize, minify: bool, numbers: &Vec<(u64, String)>) -> (r:
        String)
        ensures
            r@ == rendered(expr_text(self@, numbers@), minify),
            minify ==> !r@.contains('\n'),
    {
        let text = self.layout(indent, minify, numbers);
        if minify {
            proof {
                lemma_strip_newlines(text@);
            }
            strip_newlines_of(&text)
        } else {
            text
        }
    }
}

impl Stmt {
    /// The target text of this statement at depth `indent`, pretty or
    /// minified; `numbers` gives the text of each number literal by its bit
    /// pattern. Minified output holds no line break.
    pub fn generate_sqf(&self, indent: usize, minify: bool, numbers: &Vec<(u64, String)>) -> (r:
        String)
        ensures
            r@ == rendered(stmt_text(self@, indent, minify, numbers@), minify),
            minify ==> !r@.contains('\n'),
    {
        let text = self.layout(indent, minify, numbers);
        if minify {
            proof {
                lemma_strip_newlines(text@);
            }
            strip_newlines_of(&text)
        } else {
            text
        }
    }
}

/// The number literals of an expression, in the order they are rendered.
pub open spec fn expr_numbers(e: ExprView) -> Seq<u64>
    decreases e,
{
    match e {
        ExprView::Number(b) => seq![b],
        ExprView::Array(v) => exprs_numbers(v).flatten_alt(),
        ExprView::FuncCall(_, v) => exprs_numbers(v).flatten_alt(),
        ExprView::ArrayAccess(_, i) => expr_numbers(*i),
        ExprView::UnaryOp(_, x, _) => expr_numbers(*x),
        ExprView::BinaryOp(_, l, r) => expr_numbers(*l) + expr_numbers(*r),
        _ => seq![],
    }
}

/// The number literals of each expression of a sequence.
pub open spec fn exprs_numbers(v: Seq<ExprView>) -> Seq<Seq<u64>>
    decreases v,
{
    Seq::new(v.len(), |i: int| if 0 <= i < v.len() { expr_numbers(v[i]) } else { seq![] })
}

/// The number literals of a statement, in the order they are rendered.
pub open spec fn stmt_numbers(s: StmtView) -> Seq<u64>
    decreases s,
{
    match s {
        StmtView::Expr(e) => expr_numbers(e),
        StmtView::VarDecl(_, v) => match v {
            Some(e) => expr_numbers(e),
            None => seq![],
        },
        StmtView::FuncDef(_, _, b) => stmt_numbers(*b),
        StmtView::Assign(_, e) => expr_numbers(e),
        StmtView::Block(v) => stmts_numbers(v).flatten_alt(),
        StmtView::Program(v) => stmts_numbers(v).flatten_alt(),
        StmtView::Return(e) => expr_numbers(e),
        StmtView::If(c, a, b) => expr_numbers(c) + stmt_numbers(*a) + match b {
            Some(b) => stmt_numbers(*b),
            None => seq![],
        },
        StmtView::For(i, c, st, b) => stmt_numbers(*i) + expr_numbers(c) + stmt_numbers(*st)
            + stmt_numbers(*b),
        StmtView::While(c, b) => expr_numbers(c) + stmt_numbers(*b),
        _ => seq![],
    }
}

/// The number literals of each statement of a sequence.
pub open spec fn stmts_numbers(v: Seq<StmtView>) -> Seq<Seq<u64>>
    decreases v,
{
    Seq::new(v.len(), |i: int| if 0 <= i < v.len() { stmt_numbers(v[i]) } else { seq![] })
}

fn collect_exprs(v: &Vec<Expr>, out: &mut Vec<u64>)
    ensures
        final(out)@ == old(out)@ + exprs_numbers(
            v@.map_values(|e: Expr| e@),
        ).flatten_alt(),
    decreases v,
{
    let ghost per = exprs_numbers(v@.map_values(|e: Expr| e@));
    let ghost start = out@;
    assert(per.subrange(0, 0).flatten_alt() =~= seq![]);
    let mut i: usize = 0;
    while i < v.len()
        invariant
            i <= v.len(),
            per == exprs_numbers(v@.map_values(|e: Expr| e@)),
            start == old(out)@,
            out@ == start + per.subrange(0, i as int).flatten_alt(),
        decreases v.len() - i,
    {
        assert(decreases_to!(v => v[i as int]));
        let ghost before = out@;
        v[i].collect_numbers(out);
        assert(per.subrange(0, i + 1).drop_last() =~= per.subrange(0, i as int));
        assert(out@ =~= start + per.subrange(0, i + 1).flatten_alt());
        i = i + 1;
    }
    assert(per.subrange(0, v.len() as int) =~= per);
}

impl Expr {
    /// Appends the number literals of this expression, in rendering order.
    pub fn collect_numbers(&self, out: &mut Vec<u64>)
        ensures
            final(out)@ == old(out)@ + expr_numbers(self@),
        decreases self,
    {
        match self {
            Expr::Number(b) => {
                out.push(*b);
            },
            Expr::Array(v) => {
                collect_exprs(v, out);
                assert(self@->Array_0 =~= v@.map_values(|e: Expr| e@));
            },
            Expr::FuncCall(_, v) => {
                collect_exprs(v, out);
                assert(self@->FuncCall_1 =~= v@.map_values(|e: Expr| e@));
            },
            Expr::ArrayAccess(_, i) => i.collect_numbers(out),
            Expr::UnaryOp(_, x, _) => x.collect_numbers(out),
            Expr::BinaryOp(_, l, r) => {
                l.collect_numbers(out);
                r.collect_numbers(out);
                assert(out@ =~= old(out)@ + expr_numbers(self@));
            },
            _ => {
                assert(out@ =~= old(out)@ + expr_numbers(self@));
            },
        }
    }
}

fn collect_stmts(v: &Vec<Stmt>, out: &mut Vec<u64>)
    ensures
        final(out)@ == old(out)@ + stmts_numbers(
            v@.map_values(|s: Stmt| s@),
        ).flatten_alt(),
    decreases v,
{
    let ghost per = stmts_numbers(v@.map_values(|s: Stmt| s@));
    let ghost start = out@;
    assert(per.subrange(0, 0).flatten_alt() =~= seq![]);
    let mut i: usize = 0;
    while i < v.len()
        invariant
            i <= v.len(),
            per == stmts_numbers(v@.map_values(|s: Stmt| s@)),
            start == old(out)@,
            out@ == start + per.subrange(0, i as int).flatten_alt(),
        decreases v.len() - i,
    {
        assert(decreases_to!(v => v[i as int]));
        v[i].collect_numbers(out);
        assert(per.subrange(0, i + 1).drop_last() =~= per.subrange(0, i as int));
        assert(out@ =~= start + per.subrange(0, i + 1).flatten_alt());
        i = i + 1;
    }
    assert(per.subrange(0, v.len() as int) =~= per);
}

impl Stmt {
    /// Appends the number literals of this statement, in rendering order.
    pub fn collect_numbers(&self, out: &mut Vec<u64>)
        ensures
            final(out)@ == old(out)@ + stmt_numbers(self@),
        decreases self,
    {
        match self {
            Stmt::Expr(e) => e.collect_numbers(out),
            Stmt::VarDecl(_, v) => match v {
                Some(e) => e.collect_numbers(out),
                None => {
                    assert(out@ =~= old(out)@ + stmt_numbers(self@));
                },
            },
            Stmt::FuncDef(_, _, b) => b.collect_numbers(out),
            Stmt::Assign(_, e) => e.collect_numbers(out),
            Stmt::Block(v) => {
                collect_stmts(v, out);
                assert(self@->Block_0 =~= v@.map_values(|s: Stmt| s@));
            },
            Stmt::Program(v) => {
                collect_stmts(v, out);
                assert(self@->Program_0 =~= v@.map_values(|s: Stmt| s@));
            },
            Stmt::Return(e) => e.collect_numbers(out),
            Stmt::If(c, a, b) => {
                c.collect_numbers(out);
                a.collect_numbers(out);
                match b {
                    Some(b) => b.collect_numbers(out),
                    None => {},
                }
                assert(out@ =~= old(out)@ + stmt_numbers(self@));
            },
            Stmt::For(i, c, st, b) => {
                i.collect_numbers(out);
                c.collect_numbers(out);
                st.collect_numbers(out);
                b.collect_numbers(out);
                assert(out@ =~= old(out)@ + stmt_numbers(self@));
            },
            Stmt::While(c, b) => {
                c.collect_numbers(out);
                b.collect_numbers(out);
                assert(out@ =~= old(out)@ + stmt_numbers(self@));
            },
            _ => {
                assert(out@ =~= old(out)@ + stmt_numbers(self@));
            },
        }
    }

    /// The number literals of this statement, in rendering order.
    pub fn number_literals(&self) -> (r: Vec<u64>)
        ensures
            r@ == stmt_numbers(self@),
    {
        let mut out: Vec<u64> = Vec::new();
        self.collect_numbers(&mut out);
        assert(out@ =~= stmt_numbers(self@));
        out
    }
}

} // verus!
