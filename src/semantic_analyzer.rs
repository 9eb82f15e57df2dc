use vstd::prelude::*;

use crate::dgen_ast::{expr_views, param_views, stmt_views, Expr, Stmt, StmtView, Type};
use crate::generic::{str_equal, ExprView};
use crate::number::{to_index, truncated_index};

verus! {

/// A named entity registered in a scope.
#[derive(Debug)]
pub enum Symbol {
    Var { typename: Type, name: String },
    Array { typename: Type, name: String, size: usize },
    Func { return_type: Type, name: String, params: Vec<Type> },
}

/// The model of a symbol.
pub enum SymbolView {
    Var(Type, Seq<char>),
    Array(Type, Seq<char>, nat),
    Func(Type, Seq<char>, Seq<Type>),
}

impl SymbolView {
    pub open spec fn name(self) -> Seq<char> {
        match self {
            SymbolView::Var(_, n) => n,
            SymbolView::Array(_, n, _) => n,
            SymbolView::Func(_, n, _) => n,
        }
    }

    /// The type of a symbol; the return type for a function.
    pub open spec fn typename(self) -> Type {
        match self {
            SymbolView::Var(t, _) => t,
            SymbolView::Array(t, _, _) => t,
            SymbolView::Func(t, _, _) => t,
        }
    }
}

impl Symbol {
    pub open spec fn view(&self) -> SymbolView {
        match self {
            Symbol::Var { typename, name } => SymbolView::Var(*typename, name@),
            Symbol::Array { typename, name, size } => SymbolView::Array(*typename, name@, *size as nat),
            Symbol::Func { return_type, name, params } => SymbolView::Func(*return_type, name@, params@),
        }
    }
}

/// The models of the symbols of a frame.
pub open spec fn frame_view(symbols: Seq<Symbol>) -> Seq<SymbolView> {
    symbols.map_values(|s: Symbol| s@)
}

/// The first symbol of a frame with the given name, searching from position `i`.
pub open spec fn find_in_frame(frame: Seq<SymbolView>, name: Seq<char>, i: int) -> Option<SymbolView>
    decreases frame.len() - i,
{
    if i < 0 || i >= frame.len() {
        None
    } else if frame[i].name() == name {
        Some(frame[i])
    } else {
        find_in_frame(frame, name, i + 1)
    }
}

/// The symbol that a name resolves to through a chain of frames, the innermost
/// (last) frame first.
pub open spec fn lookup(frames: Seq<Seq<SymbolView>>, name: Seq<char>) -> Option<SymbolView>
    decreases frames.len(),
{
    if frames.len() == 0 {
        None
    } else {
        match find_in_frame(frames.last(), name, 0) {
            Some(s) => Some(s),
            None => lookup(frames.drop_last(), name),
        }
    }
}

/// The frames with a symbol added to the innermost one.
pub open spec fn define(frames: Seq<Seq<SymbolView>>, s: SymbolView) -> Seq<Seq<SymbolView>> {
    if frames.len() == 0 {
        frames
    } else {
        frames.update(frames.len() - 1, frames.last().push(s))
    }
}

/// The decimal digits of a natural number.
pub open spec fn decimal(n: nat) -> Seq<char>
    decreases n,
{
    if n < 10 {
        seq![digit(n)]
    } else {
        decimal(n / 10) + seq![digit(n % 10)]
    }
}

pub open spec fn digit(n: nat) -> char {
    if n == 0 { '0' } else if n == 1 { '1' } else if n == 2 { '2' } else if n == 3 { '3' }
    else if n == 4 { '4' } else if n == 5 { '5' } else if n == 6 { '6' } else if n == 7 { '7' }
    else if n == 8 { '8' } else { '9' }
}

/// The debugging text of a type.
pub open spec fn type_text(t: Type) -> Seq<char>
    decreases t,
{
    match t {
        Type::Any => "Any"@,
        Type::Number => "Number"@,
        Type::String => "String"@,
        Type::Boolean => "Boolean"@,
        Type::Void => "Void"@,
        Type::Object => "Object"@,
        Type::Array(e) => "Array("@ + type_text(*e) + ")"@,
    }
}

pub open spec fn undefined_message(n: Seq<char>) -> Seq<char> {
    "Variable '"@ + n + "' does not exist"@
}

pub open spec fn binary_mismatch_message(l: Type, r: Type) -> Seq<char> {
    "Binary expression type mismatch: "@ + type_text(l) + " != "@ + type_text(r)
}

pub open spec fn inconsistent_message() -> Seq<char> {
    "Array elements have inconsistent types."@
}

pub open spec fn index_not_number_message() -> Seq<char> {
    "Array index must be a number."@
}

pub open spec fn out_of_bounds_message(i: nat, size: nat) -> Seq<char> {
    "Array index out of bounds: "@ + decimal(i) + " >= "@ + decimal(size)
}

pub open spec fn not_array_type_message() -> Seq<char> {
    "Array type is not an array."@
}

pub open spec fn not_an_array_message(n: Seq<char>) -> Seq<char> {
    "'"@ + n + "' is not an array"@
}

pub open spec fn argument_count_message(f: Seq<char>, expected: nat, got: nat) -> Seq<char> {
    "Function '"@ + f + "' expects "@ + decimal(expected) + " arguments, got "@ + decimal(got)
}

pub open spec fn argument_mismatch_message(f: Seq<char>, expected: Type, got: Type) -> Seq<char> {
    "Argument type mismatch in '"@ + f + "': expected "@ + type_text(expected) + ", got "@
        + type_text(got)
}

pub open spec fn undefined_function_message(f: Seq<char>) -> Seq<char> {
    "Function '"@ + f + "' is not defined"@
}

pub open spec fn assignment_mismatch_message(n: Seq<char>) -> Seq<char> {
    "Type mismatch in assignment to '"@ + n + "'"@
}

pub open spec fn redeclaration_message(n: Seq<char>) -> Seq<char> {
    "Redeclaration of '"@ + n + "'"@
}

pub open spec fn declaration_mismatch_message(n: Seq<char>) -> Seq<char> {
    "Type mismatch in declaration of '"@ + n + "'"@
}

/// The type of an expression under a chain of frames, with the errors that
/// checking it records, in order.
pub open spec fn check_expr(frames: Seq<Seq<SymbolView>>, e: ExprView) -> (Type, Seq<Seq<char>>)
    decreases e,
{
    match e {
        ExprView::Number(_) => (Type::Number, seq![]),
        ExprView::Bool(_) => (Type::Boolean, seq![]),
        ExprView::Str(_) => (Type::String, seq![]),
        ExprView::Identifier(n) => match lookup(frames, n) {
            Some(s) => (s.typename(), seq![]),
            None => (Type::Any, seq![undefined_message(n)]),
        },
        ExprView::UnaryOp(_, x, _) => check_expr(frames, *x),
        ExprView::BinaryOp(_, l, r) => {
            let (lt, le) = check_expr(frames, *l);
            let (rt, re) = check_expr(frames, *r);
            if lt == rt {
                (lt, le + re)
            } else {
                (Type::Any, le + re + seq![binary_mismatch_message(lt, rt)])
            }
        },
        ExprView::FuncCall(f, args) => match lookup(frames, f) {
            Some(SymbolView::Func(rt, _, ps)) => if ps.len() != args.len() {
                (rt, seq![argument_count_message(f, ps.len(), args.len())])
            } else {
                (rt, arg_errors(frames, f, ps, args).flatten_alt())
            },
            _ => (Type::Any, seq![undefined_function_message(f)]),
        },
        ExprView::Array(v) => if v.len() == 0 {
            (Type::Array(Box::new(Type::Any)), seq![])
        } else {
            let types = elem_types(frames, v);
            let errs = elem_errors(frames, v).flatten_alt();
            if forall|k: int| 0 <= k < types.len() ==> #[trigger] types[k] == types[0] {
                (Type::Array(Box::new(types[0])), errs)
            } else {
                (Type::Any, errs + seq![inconsistent_message()])
            }
        },
        ExprView::ArrayAccess(a, i) => match lookup(frames, a) {
            Some(SymbolView::Array(t, _, size)) => {
                let (it, ie) = check_expr(frames, *i);
                let index_errors = if it != Type::Number {
                    seq![index_not_number_message()]
                } else {
                    match *i {
                        ExprView::Number(b) => if truncated_index(b) >= size {
                            seq![out_of_bounds_message(truncated_index(b) as nat, size)]
                        } else {
                            seq![]
                        },
                        _ => seq![],
                    }
                };
                match t {
                    Type::Array(et) => (*et, ie + index_errors),
                    _ => (Type::Any, ie + index_errors + seq![not_array_type_message()]),
                }
            },
            _ => (Type::Any, seq![not_an_array_message(a)]),
        },
    }
}

/// The errors that checking each argument of a call records, a type
/// mismatch against its parameter included.
pub open spec fn arg_errors(
    frames: Seq<Seq<SymbolView>>,
    f: Seq<char>,
    ps: Seq<Type>,
    args: Seq<ExprView>,
) -> Seq<Seq<Seq<char>>>
    decreases args,
{
    Seq::new(
        args.len(),
        |i: int|
            if 0 <= i < args.len() {
                let (at, ae) = check_expr(frames, args[i]);
                if at == ps[i] {
                    ae
                } else {
                    ae + seq![argument_mismatch_message(f, ps[i], at)]
                }
            } else {
                seq![]
            },
    )
}

/// The type of each element of an array literal.
pub open spec fn elem_types(frames: Seq<Seq<SymbolView>>, v: Seq<ExprView>) -> Seq<Type>
    decreases v,
{
    Seq::new(v.len(), |i: int| if 0 <= i < v.len() { check_expr(frames, v[i]).0 } else { Type::Any })
}

/// The errors that checking each element of an array literal records.
pub open spec fn elem_errors(frames: Seq<Seq<SymbolView>>, v: Seq<ExprView>) -> Seq<Seq<Seq<char>>>
    decreases v,
{
    Seq::new(v.len(), |i: int| if 0 <= i < v.len() { check_expr(frames, v[i]).1 } else { seq![] })
}

/// The state of an analysis: the chain of frames and the errors so far.
pub struct AnalysisState {
    pub frames: Seq<Seq<SymbolView>>,
    pub errors: Seq<Seq<char>>,
}

/// The state after checking an expression: its errors are appended.
pub open spec fn after_expr(st: AnalysisState, e: ExprView) -> AnalysisState {
    AnalysisState { frames: st.frames, errors: st.errors + check_expr(st.frames, e).1 }
}

/// The state after analyzing the first `n` statements of `v` in turn.
pub open spec fn analyze_seq(st: AnalysisState, v: Seq<StmtView>, n: int) -> AnalysisState
    decreases v, n,
{
    if n <= 0 || n > v.len() {
        st
    } else {
        analyze_stmt(analyze_seq(st, v, n - 1), v[n - 1])
    }
}

/// The state with a new innermost frame.
pub open spec fn entered(st: AnalysisState) -> AnalysisState {
    AnalysisState { frames: st.frames.push(seq![]), errors: st.errors }
}

/// The state with its innermost frame removed.
pub open spec fn exited(st: AnalysisState) -> AnalysisState {
    AnalysisState { frames: st.frames.drop_last(), errors: st.errors }
}

pub open spec fn with_error(st: AnalysisState, m: Seq<char>) -> AnalysisState {
    AnalysisState { frames: st.frames, errors: st.errors.push(m) }
}

pub open spec fn with_symbol(st: AnalysisState, s: SymbolView) -> AnalysisState {
    AnalysisState { frames: define(st.frames, s), errors: st.errors }
}

/// The parameters of a function as symbols.
pub open spec fn param_symbols(ps: Seq<(Type, Seq<char>)>) -> Seq<SymbolView> {
    ps.map_values(|p: (Type, Seq<char>)| SymbolView::Var(p.0, p.1))
}

/// The state after analyzing a statement.
pub open spec fn analyze_stmt(st: AnalysisState, s: StmtView) -> AnalysisState
    decreases s, 0int,
{
    match s {
        StmtView::Block(v) => exited(analyze_seq(entered(st), v, v.len() as int)),
        StmtView::Program(v) => analyze_seq(st, v, v.len() as int),
        StmtView::Expr(e) => after_expr(st, e),
        StmtView::Return(e) => after_expr(st, e),
        StmtView::Assign(n, e) => match lookup(st.frames, n) {
            Some(sym) => {
                let (t, errs) = check_expr(st.frames, e);
                let st1 = AnalysisState { frames: st.frames, errors: st.errors + errs };
                if sym.typename() != t {
                    with_error(st1, assignment_mismatch_message(n))
                } else {
                    st1
                }
            },
            None => with_error(st, undefined_message(n)),
        },
        StmtView::VarDecl(t, n, v) => if lookup(st.frames, n) is Some {
            with_error(st, redeclaration_message(n))
        } else {
            match v {
                Some(e) => {
                    let (et, errs) = check_expr(st.frames, e);
                    let st1 = AnalysisState { frames: st.frames, errors: st.errors + errs };
                    let st2 = if et != t {
                        with_error(st1, declaration_mismatch_message(n))
                    } else {
                        st1
                    };
                    match e {
                        ExprView::Array(elems) => with_symbol(st2, SymbolView::Array(t, n, elems.len())),
                        _ => with_symbol(st2, SymbolView::Var(t, n)),
                    }
                },
                None => with_symbol(st, SymbolView::Var(t, n)),
            }
        },
        StmtView::FuncDecl(rt, n, ps) => if lookup(st.frames, n) is Some {
            with_error(st, redeclaration_message(n))
        } else {
            with_symbol(st, SymbolView::Func(rt, n, ps))
        },
        StmtView::FuncDef(rt, n, ps, body) => if lookup(st.frames, n) is Some {
            with_error(st, redeclaration_message(n))
        } else {
            let st1 = with_symbol(st, SymbolView::Func(rt, n, ps.map_values(|p: (Type, Seq<char>)| p.0)));
            let st2 = AnalysisState {
                frames: st1.frames.push(param_symbols(ps)),
                errors: st1.errors,
            };
            exited(analyze_stmt(st2, *body))
        },
        StmtView::If(c, a, b) => {
            let st1 = analyze_stmt(after_expr(st, c), *a);
            match b {
                Some(b) => analyze_stmt(st1, *b),
                None => st1,
            }
        },
        StmtView::For(i, c, step, body) => analyze_stmt(
            analyze_stmt(after_expr(analyze_stmt(st, *i), c), *step),
            *body,
        ),
        StmtView::While(c, body) => analyze_stmt(after_expr(st, c), *body),
        _ => st,
    }
}

fn literal(s: &str) -> (r: String)
    ensures
        r@ == s@,
{
    String::from_str(s)
}

fn decimal_string(n: u64) -> (r: String)
    ensures
        r@ == decimal(n as nat),
    decreases n,
{
    proof {
        reveal_strlit("0");
        reveal_strlit("1");
        reveal_strlit("2");
        reveal_strlit("3");
        reveal_strlit("4");
        reveal_strlit("5");
        reveal_strlit("6");
        reveal_strlit("7");
        reveal_strlit("8");
        reveal_strlit("9");
    }
    let d = n % 10;
    let last = if d == 0 {
        literal("0")
    } else if d == 1 {
        literal("1")
    } else if d == 2 {
        literal("2")
    } else if d == 3 {
        literal("3")
    } else if d == 4 {
        literal("4")
    } else if d == 5 {
        literal("5")
    } else if d == 6 {
        literal("6")
    } else if d == 7 {
        literal("7")
    } else if d == 8 {
        literal("8")
    } else {
        literal("9")
    };
    assert(last@ =~= seq![digit(d as nat)]);
    if n < 10 {
        last
    } else {
        let mut out = decimal_string(n / 10);
        out.append(last.as_str());
        out
    }
}

fn type_string(t: &Type) -> (r: String)
    ensures
        r@ == type_text(*t),
    decreases t,
{
    proof {
        reveal_strlit("Any");
        reveal_strlit("Number");
        reveal_strlit("String");
        reveal_strlit("Boolean");
        reveal_strlit("Void");
        reveal_strlit("Object");
        reveal_strlit("Array(");
        reveal_strlit(")");
    }
    match t {
        Type::Any => literal("Any"),
        Type::Number => literal("Number"),
        Type::String => literal("String"),
        Type::Boolean => literal("Boolean"),
        Type::Void => literal("Void"),
        Type::Object => literal("Object"),
        Type::Array(e) => {
            let mut out = literal("Array(");
            let inner = type_string(e);
            out.append(inner.as_str());
            out.append(")");
            out
        },
    }
}

/// A message made of a prefix, a text and a suffix.
fn framed(prefix: &str, text: &str, suffix: &str) -> (r: String)
    ensures
        r@ == prefix@ + text@ + suffix@,
{
    let mut out = literal(prefix);
    out.append(text);
    out.append(suffix);
    out
}

fn binary_mismatch_string(l: &Type, r: &Type) -> (m: String)
    ensures
        m@ == binary_mismatch_message(*l, *r),
{
    let lt = type_string(l);
    let rt = type_string(r);
    let m = framed("Binary expression type mismatch: ", lt.as_str(), " != ");
    m.concat(rt.as_str())
}

fn out_of_bounds_string(i: u64, size: u64) -> (m: String)
    ensures
        m@ == out_of_bounds_message(i as nat, size as nat),
{
    let a = decimal_string(i);
    let b = decimal_string(size);
    let m = framed("Array index out of bounds: ", a.as_str(), " >= ");
    m.concat(b.as_str())
}

fn argument_count_string(f: &str, expected: u64, got: u64) -> (m: String)
    ensures
        m@ == argument_count_message(f@, expected as nat, got as nat),
{
    let a = decimal_string(expected);
    let b = decimal_string(got);
    let m = framed("Function '", f, "' expects ");
    let m = framed(m.as_str(), a.as_str(), " arguments, got ");
    m.concat(b.as_str())
}

fn argument_mismatch_string(f: &str, expected: &Type, got: &Type) -> (m: String)
    ensures
        m@ == argument_mismatch_message(f@, *expected, *got),
{
    let a = type_string(expected);
    let b = type_string(got);
    let m = framed("Argument type mismatch in '", f, "': expected ");
    let m = framed(m.as_str(), a.as_str(), ", got ");
    m.concat(b.as_str())
}

impl Symbol {
    /// The type of this symbol; the return type for a function.
    pub fn typename(&self) -> (r: &Type)
        ensures
            *r == self@.typename(),
    {
        match self {
            Symbol::Var { typename, .. } => typename,
            Symbol::Array { typename, .. } => typename,
            Symbol::Func { return_type, .. } => return_type,
        }
    }

    pub fn name(&self) -> (r: &str)
        ensures
            r@ == self@.name(),
    {
        match self {
            Symbol::Var { name, .. } => name.as_str(),
            Symbol::Array { name, .. } => name.as_str(),
            Symbol::Func { name, .. } => name.as_str(),
        }
    }

    /// The number of elements of an array symbol.
    pub fn size(&self) -> (r: Option<usize>)
        ensures
            r == (match self@ {
                SymbolView::Array(_, _, n) => Some(n as usize),
                _ => None,
            }),
    {
        match self {
            Symbol::Array { size, .. } => Some(*size),
            _ => None,
        }
    }

    /// A copy of this symbol.
    pub fn copied(&self) -> (r: Symbol)
        ensures
            r@ == self@,
    {
        match self {
            Symbol::Var { typename, name } => Symbol::Var { typename: typename.copied(), name: name.clone() },
            Symbol::Array { typename, name, size } => Symbol::Array {
                typename: typename.copied(),
                name: name.clone(),
                size: *size,
            },
            Symbol::Func { return_type, name, params } => Symbol::Func {
                return_type: return_type.copied(),
                name: name.clone(),
                params: copy_types(params),
            },
        }
    }
}

fn copy_types(params: &Vec<Type>) -> (r: Vec<Type>)
    ensures
        r@ == params@,
{
    let mut ps: Vec<Type> = Vec::new();
    let mut i: usize = 0;
    while i < params.len()
        invariant
            i <= params.len(),
            ps@ == params@.subrange(0, i as int),
        decreases params.len() - i,
    {
        ps.push(params[i].copied());
        i = i + 1;
        assert(ps@ =~= params@.subrange(0, i as int));
    }
    assert(ps@ =~= params@);
    ps
}

/// One frame of symbols, linked to the frame that encloses it.
#[derive(Debug)]
pub struct Scope {
    symbols: Vec<Symbol>,
    parent: Option<Box<Scope>>,
}

impl Scope {
    /// The chain of frames, outermost first.
    pub closed spec fn frames(&self) -> Seq<Seq<SymbolView>>
        decreases self,
    {
        match &self.parent {
            Some(p) => p.frames().push(frame_view(self.symbols@)),
            None => seq![frame_view(self.symbols@)],
        }
    }

    proof fn lemma_frames_nonempty(&self)
        ensures
            self.frames().len() >= 1,
            self.frames().len() >= 2 <==> self.parent is Some,
        decreases self,
    {
        if let Some(p) = &self.parent {
            p.lemma_frames_nonempty();
        }
    }

    /// An empty frame inside `parent`, or an outermost one.
    pub fn new(parent: Option<Box<Scope>>) -> (r: Self)
        ensures
            r.frames() == (match parent {
                Some(p) => p.frames().push(seq![]),
                None => seq![seq![]],
            }),
    {
        let r = Self { symbols: Vec::new(), parent };
        assert(frame_view(r.symbols@) =~= seq![]);
        r
    }

    /// Adds a symbol to this frame.
    pub fn define(&mut self, symbol: Symbol)
        ensures
            final(self).frames() == define(old(self).frames(), symbol@),
    {
        proof {
            old(self).lemma_frames_nonempty();
        }
        let ghost s = symbol@;
        self.symbols.push(symbol);
        assert(frame_view(self.symbols@) =~= frame_view(old(self).symbols@).push(s));
        assert(self.frames() =~= define(old(self).frames(), s));
    }

    /// The symbol that a name resolves to, searching this frame and then the
    /// enclosing ones.
    pub fn find_symbol(&self, name: &str) -> (r: Option<Symbol>)
        ensures
            (match r {
                Some(s) => Some(s@),
                None => None,
            }) == lookup(self.frames(), name@),
        decreases self,
    {
        let ghost frame = frame_view(self.symbols@);
        proof {
            self.lemma_frames_nonempty();
            assert(self.frames().last() == frame);
        }
        let mut i: usize = 0;
        while i < self.symbols.len()
            invariant
                i <= self.symbols.len(),
                frame == frame_view(self.symbols@),
                find_in_frame(frame, name@, i as int) == find_in_frame(frame, name@, 0),
            decreases self.symbols.len() - i,
        {
            if str_equal(self.symbols[i].name(), name) {
                assert(frame[i as int] == self.symbols@[i as int]@);
                assert(find_in_frame(frame, name@, i as int) == Some(frame[i as int]));
                assert(lookup(self.frames(), name@) == Some(frame[i as int]));
                return Some(self.symbols[i].copied());
            }
            assert(frame[i as int] == self.symbols@[i as int]@);
            i = i + 1;
        }
        proof {
            self.lemma_frames_nonempty();
            assert(self.frames().drop_last() =~= match &self.parent {
                Some(p) => p.frames(),
                None => seq![],
            });
            assert(find_in_frame(frame, name@, 0) is None);
            assert(lookup(self.frames(), name@) == lookup(self.frames().drop_last(), name@));
        }
        match &self.parent {
            Some(p) => p.find_symbol(name),
            None => None,
        }
    }
}


/// Type-checks a source tree with a chain of scopes and collects the errors.
#[derive(Debug)]
pub struct SemanticAnalyzer {
    scope: Box<Scope>,
    errors: Vec<String>,
}

/// Analyzing a statement keeps the number of frames.
pub proof fn lemma_analyze_keeps_depth(st: AnalysisState, s: StmtView)
    requires
        st.frames.len() >= 1,
    ensures
        analyze_stmt(st, s).frames.len() == st.frames.len(),
    decreases s, 0int,
{
    match s {
        StmtView::Block(v) => lemma_analyze_seq_keeps_depth(entered(st), v, v.len() as int),
        StmtView::Program(v) => lemma_analyze_seq_keeps_depth(st, v, v.len() as int),
        StmtView::FuncDef(rt, n, ps, body) => {
            if lookup(st.frames, n) is None {
                let st1 = with_symbol(st, SymbolView::Func(rt, n, ps.map_values(|p: (Type, Seq<char>)| p.0)));
                let st2 = AnalysisState {
                    frames: st1.frames.push(param_symbols(ps)),
                    errors: st1.errors,
                };
                lemma_analyze_keeps_depth(st2, *body);
            }
        },
        StmtView::If(c, a, b) => {
            lemma_analyze_keeps_depth(after_expr(st, c), *a);
            if let Some(b) = b {
                lemma_analyze_keeps_depth(analyze_stmt(after_expr(st, c), *a), *b);
            }
        },
        StmtView::For(i, c, step, body) => {
            lemma_analyze_keeps_depth(st, *i);
            let st1 = after_expr(analyze_stmt(st, *i), c);
            lemma_analyze_keeps_depth(st1, *step);
            lemma_analyze_keeps_depth(analyze_stmt(st1, *step), *body);
        },
        StmtView::While(c, body) => lemma_analyze_keeps_depth(after_expr(st, c), *body),
        _ => {},
    }
}

/// Analyzing statements in turn keeps the number of frames.
pub proof fn lemma_analyze_seq_keeps_depth(st: AnalysisState, v: Seq<StmtView>, n: int)
    requires
        st.frames.len() >= 1,
    ensures
        analyze_seq(st, v, n).frames.len() == st.frames.len(),
    decreases v, n,
{
    if 0 < n <= v.len() {
        lemma_analyze_seq_keeps_depth(st, v, n - 1);
        lemma_analyze_keeps_depth(analyze_seq(st, v, n - 1), v[n - 1]);
    }
}

impl SemanticAnalyzer {
    /// The state of the analysis: the chain of frames and the errors so far.
    pub closed spec fn state(&self) -> AnalysisState {
        AnalysisState {
            frames: self.scope.frames(),
            errors: self.errors@.map_values(|s: String| s@),
        }
    }

    pub proof fn lemma_has_frame(&self)
        ensures
            self.state().frames.len() >= 1,
    {
        self.scope.lemma_frames_nonempty();
    }

    /// An analyzer with one empty outermost frame and no errors.
    pub fn new() -> (r: Self)
        ensures
            r.state() == (AnalysisState { frames: seq![seq![]], errors: seq![] }),
    {
        let r = Self { scope: Box::new(Scope::new(None)), errors: Vec::new() };
        assert(r.state().errors =~= seq![]);
        r
    }

    fn enter_scope(&mut self)
        ensures
            final(self).state() == entered(old(self).state()),
    {
        let mut outer = Box::new(Scope::new(None));
        core::mem::swap(&mut self.scope, &mut outer);
        self.scope = Box::new(Scope::new(Some(outer)));
    }

    fn exit_scope(&mut self)
        requires
            old(self).state().frames.len() >= 2,
        ensures
            final(self).state() == exited(old(self).state()),
    {
        proof {
            old(self).scope.lemma_frames_nonempty();
        }
        let parent = self.scope.parent.take();
        match parent {
            Some(p) => {
                self.scope = p;
            },
            None => {},
        }
        assert(self.state().frames =~= exited(old(self).state()).frames);
    }

    fn add_error(&mut self, message: &str)
        ensures
            final(self).state() == with_error(old(self).state(), message@),
    {
        self.errors.push(String::from_str(message));
        assert(self.state().errors =~= old(self).state().errors.push(message@));
    }

    /// The errors recorded so far, in order.
    pub fn errors(&self) -> (r: &[String])
        ensures
            r@.map_values(|s: String| s@) == self.state().errors,
    {
        self.errors.as_slice()
    }

    fn lookup_type(&mut self, expr: &Expr) -> (t: Type)
        requires
            expr is Identifier,
        ensures
            final(self).state() == after_expr(old(self).state(), expr@),
            t == check_expr(old(self).state().frames, expr@).0,
    {
        if let Expr::Identifier(name) = expr {
            match self.scope.find_symbol(name.as_str()) {
                Some(symbol) => {
                    assert(self.state().errors =~= self.state().errors + seq![]);
                    symbol.typename().copied()
                },
                None => {
                    let m = framed("Variable '", name.as_str(), "' does not exist");
                    self.add_error(m.as_str());
                    assert(self.state().errors =~= old(self).state().errors + seq![m@]);
                    Type::Any
                },
            }
        } else {
            Type::Any
        }
    }

    fn analyze_expr(&mut self, expr: &Expr) -> (t: Type)
        ensures
            final(self).state() == after_expr(old(self).state(), expr@),
            t == check_expr(old(self).state().frames, expr@).0,
        decreases expr, 1int,
    {
        match expr {
            Expr::Identifier(_) => self.lookup_type(expr),
            Expr::BinaryOp(..) => self.check_binary_expr(expr),
            Expr::UnaryOp(_, x, _) => self.analyze_expr(x),
            Expr::FuncCall(..) => self.check_func_call(expr),
            Expr::Array(v) => {
                let t = self.check_array_init(v);
                assert(expr@ == ExprView::Array(expr_views(v@))) by {
                    assert(expr@->Array_0 =~= expr_views(v@));
                }
                t
            },
            Expr::ArrayAccess(..) => self.check_array_access(expr),
            _ => {
                assert(self.state().errors =~= self.state().errors + seq![]);
                match expr {
                    Expr::Number(_) => Type::Number,
                    Expr::Bool(_) => Type::Boolean,
                    _ => Type::String,
                }
            },
        }
    }

    fn check_binary_expr(&mut self, expr: &Expr) -> (t: Type)
        requires
            expr is BinaryOp,
        ensures
            final(self).state() == after_expr(old(self).state(), expr@),
            t == check_expr(old(self).state().frames, expr@).0,
        decreases expr, 0int,
    {
        if let Expr::BinaryOp(_, left, right) = expr {
            let left_type = self.analyze_expr(left);
            let right_type = self.analyze_expr(right);
            if !left_type.equals(&right_type) {
                let m = binary_mismatch_string(&left_type, &right_type);
                self.add_error(m.as_str());
                assert(self.state().errors =~= old(self).state().errors + check_expr(
                    old(self).state().frames,
                    expr@,
                ).1);
                Type::Any
            } else {
                assert(self.state().errors =~= old(self).state().errors + check_expr(
                    old(self).state().frames,
                    expr@,
                ).1);
                left_type
            }
        } else {
            Type::Any
        }
    }

    fn check_array_init(&mut self, elements: &Vec<Expr>) -> (t: Type)
        ensures
            final(self).state() == after_expr(old(self).state(), ExprView::Array(expr_views(elements@))),
            t == check_expr(old(self).state().frames, ExprView::Array(expr_views(elements@))).0,
        decreases elements, 0int,
    {
        let ghost frames = old(self).state().frames;
        let ghost views = expr_views(elements@);
        let ghost types = elem_types(frames, views);
        let ghost errs = elem_errors(frames, views);
        if elements.len() == 0 {
            assert(self.state().errors =~= self.state().errors + seq![]);
            return Type::Array(Box::new(Type::Any));
        }
        assert(decreases_to!(elements => elements[0]));
        let first = self.analyze_expr(&elements[0]);
        assert(types[0] == first && errs[0] == check_expr(frames, views[0]).1);
        assert(errs.subrange(0, 1).drop_last() =~= errs.subrange(0, 0));
        assert(errs.subrange(0, 0).flatten_alt() =~= seq![]);
        assert(self.state().errors =~= old(self).state().errors + errs.subrange(0, 1).flatten_alt());
        let mut same = true;
        let ghost mut bad: int = 0;
        let mut i: usize = 1;
        while i < elements.len()
            invariant
                1 <= i <= elements.len(),
                views == expr_views(elements@),
                frames == old(self).state().frames,
                types == elem_types(frames, views),
                errs == elem_errors(frames, views),
                types[0] == first,
                self.state().frames == frames,
                self.state().errors == old(self).state().errors + errs.subrange(0, i as int).flatten_alt(),
                same ==> forall|k: int| 0 <= k < i ==> #[trigger] types[k] == first,
                !same ==> 0 <= bad < i && types[bad] != first,
            decreases elements.len() - i,
        {
            assert(decreases_to!(elements => elements[i as int]));
            let t = self.analyze_expr(&elements[i]);
            assert(types[i as int] == t && errs[i as int] == check_expr(frames, views[i as int]).1);
            assert(errs.subrange(0, i + 1).drop_last() =~= errs.subrange(0, i as int));
            assert(self.state().errors =~= old(self).state().errors + errs.subrange(0, i + 1).flatten_alt());
            if !t.equals(&first) {
                same = false;
                proof {
                    bad = i as int;
                }
            }
            i = i + 1;
        }
        assert(errs.subrange(0, elements.len() as int) =~= errs);
        if !same {
            self.add_error("Array elements have inconsistent types.");
            assert(self.state().errors =~= old(self).state().errors + check_expr(
                frames,
                ExprView::Array(views),
            ).1);
            Type::Any
        } else {
            Type::Array(Box::new(first))
        }
    }

    fn check_array_access(&mut self, expr: &Expr) -> (t: Type)
        requires
            expr is ArrayAccess,
        ensures
            final(self).state() == after_expr(old(self).state(), expr@),
            t == check_expr(old(self).state().frames, expr@).0,
        decreases expr, 0int,
    {
        if let Expr::ArrayAccess(array_name, index) = expr {
            match self.scope.find_symbol(array_name.as_str()) {
                Some(Symbol::Array { typename, size, .. }) => {
                    let index_type = self.analyze_expr(index);
                    if !index_type.equals(&Type::Number) {
                        self.add_error("Array index must be a number.");
                    } else {
                        match &**index {
                            Expr::Number(b) => {
                                let k = to_index(*b);
                                if k >= size as u64 {
                                    let m = out_of_bounds_string(k, size as u64);
                                    self.add_error(m.as_str());
                                }
                            },
                            _ => {},
                        }
                    }
                    let r = match typename {
                        Type::Array(t) => *t,
                        _ => {
                            self.add_error("Array type is not an array.");
                            Type::Any
                        },
                    };
                    assert(self.state().errors =~= old(self).state().errors + check_expr(
                        old(self).state().frames,
                        expr@,
                    ).1);
                    r
                },
                _ => {
                    let m = framed("'", array_name.as_str(), "' is not an array");
                    self.add_error(m.as_str());
                    assert(self.state().errors =~= old(self).state().errors + check_expr(
                        old(self).state().frames,
                        expr@,
                    ).1);
                    Type::Any
                },
            }
        } else {
            Type::Any
        }
    }

    fn check_args(&mut self, func_name: &String, params: &Vec<Type>, args: &Vec<Expr>)
        requires
            params.len() == args.len(),
        ensures
            final(self).state() == (AnalysisState {
                frames: old(self).state().frames,
                errors: old(self).state().errors + arg_errors(
                    old(self).state().frames,
                    func_name@,
                    params@,
                    expr_views(args@),
                ).flatten_alt(),
            }),
        decreases args, 0int,
    {
        let ghost frames = old(self).state().frames;
        let ghost per = arg_errors(frames, func_name@, params@, expr_views(args@));
        assert(per.subrange(0, 0).flatten_alt() =~= seq![]);
        let mut i: usize = 0;
        while i < args.len()
            invariant
                i <= args.len(),
                params.len() == args.len(),
                frames == old(self).state().frames,
                per == arg_errors(frames, func_name@, params@, expr_views(args@)),
                self.state().frames == frames,
                self.state().errors == old(self).state().errors + per.subrange(0, i as int).flatten_alt(),
            decreases args.len() - i,
        {
            assert(decreases_to!(args => args[i as int]));
            let ghost before = self.state().errors;
            let arg_type = self.analyze_expr(&args[i]);
            if !arg_type.equals(&params[i]) {
                let m = argument_mismatch_string(func_name.as_str(), &params[i], &arg_type);
                self.add_error(m.as_str());
            }
            assert(per.subrange(0, i + 1).drop_last() =~= per.subrange(0, i as int));
            assert(self.state().errors =~= before + per[i as int]);
            i = i + 1;
        }
        assert(per.subrange(0, args.len() as int) =~= per);
    }

    fn check_func_call(&mut self, expr: &Expr) -> (t: Type)
        requires
            expr is FuncCall,
        ensures
            final(self).state() == after_expr(old(self).state(), expr@),
            t == check_expr(old(self).state().frames, expr@).0,
        decreases expr, 0int,
    {
        if let Expr::FuncCall(func_name, args) = expr {
            assert(expr@->FuncCall_1 =~= expr_views(args@));
            match self.scope.find_symbol(func_name.as_str()) {
                Some(Symbol::Func { return_type, params, .. }) => {
                    if params.len() != args.len() {
                        let m = argument_count_string(
                            func_name.as_str(),
                            params.len() as u64,
                            args.len() as u64,
                        );
                        self.add_error(m.as_str());
                        assert(self.state().errors =~= old(self).state().errors + check_expr(
                            old(self).state().frames,
                            expr@,
                        ).1);
                    } else {
                        self.check_args(func_name, &params, args);
                    }
                    return_type
                },
                _ => {
                    let m = framed("Function '", func_name.as_str(), "' is not defined");
                    self.add_error(m.as_str());
                    assert(self.state().errors =~= old(self).state().errors + check_expr(
                        old(self).state().frames,
                        expr@,
                    ).1);
                    Type::Any
                },
            }
        } else {
            Type::Any
        }
    }

    fn define_symbol(&mut self, symbol: Symbol)
        ensures
            final(self).state() == with_symbol(old(self).state(), symbol@),
    {
        self.scope.define(symbol);
    }

    fn check_assignment(&mut self, stmt: &Stmt)
        requires
            stmt is Assign,
        ensures
            final(self).state() == analyze_stmt(old(self).state(), stmt@),
    {
        if let Stmt::Assign(name, value) = stmt {
            match self.scope.find_symbol(name.as_str()) {
                Some(symbol) => {
                    let t = self.analyze_expr(value);
                    if !symbol.typename().equals(&t) {
                        let m = framed("Type mismatch in assignment to '", name.as_str(), "'");
                        self.add_error(m.as_str());
                    }
                },
                None => {
                    let m = framed("Variable '", name.as_str(), "' does not exist");
                    self.add_error(m.as_str());
                },
            }
        }
    }

    fn check_var_decl(&mut self, stmt: &Stmt)
        requires
            stmt is VarDecl,
        ensures
            final(self).state() == analyze_stmt(old(self).state(), stmt@),
    {
        if let Stmt::VarDecl(typename, name, value) = stmt {
            if self.scope.find_symbol(name.as_str()).is_some() {
                let m = framed("Redeclaration of '", name.as_str(), "'");
                self.add_error(m.as_str());
            } else {
                match value {
                    Some(expr) => {
                        let value_type = self.analyze_expr(expr);
                        if !value_type.equals(typename) {
                            let m = framed("Type mismatch in declaration of '", name.as_str(), "'");
                            self.add_error(m.as_str());
                        }
                        match expr {
                            Expr::Array(v) => {
                                self.define_symbol(
                                    Symbol::Array {
                                        typename: typename.copied(),
                                        name: name.clone(),
                                        size: v.len(),
                                    },
                                );
                            },
                            _ => {
                                self.define_symbol(
                                    Symbol::Var { typename: typename.copied(), name: name.clone() },
                                );
                            },
                        }
                    },
                    None => {
                        self.define_symbol(
                            Symbol::Var { typename: typename.copied(), name: name.clone() },
                        );
                    },
                }
            }
        }
    }

    fn check_func_decl(&mut self, stmt: &Stmt)
        requires
            stmt is FuncDecl,
        ensures
            final(self).state() == analyze_stmt(old(self).state(), stmt@),
    {
        if let Stmt::FuncDecl(return_type, name, params) = stmt {
            if self.scope.find_symbol(name.as_str()).is_some() {
                let m = framed("Redeclaration of '", name.as_str(), "'");
                self.add_error(m.as_str());
            } else {
                self.define_symbol(
                    Symbol::Func {
                        return_type: return_type.copied(),
                        name: name.clone(),
                        params: copy_types(params),
                    },
                );
            }
        }
    }

    fn check_func_def(&mut self, stmt: &Stmt)
        requires
            stmt is FuncDef,
        ensures
            final(self).state() == analyze_stmt(old(self).state(), stmt@),
        decreases stmt, 0int,
    {
        if let Stmt::FuncDef(return_type, name, params, body) = stmt {
            if self.scope.find_symbol(name.as_str()).is_some() {
                let m = framed("Redeclaration of '", name.as_str(), "'");
                self.add_error(m.as_str());
            } else {
                let ghost ps = stmt@->FuncDef_2;
                let mut param_types: Vec<Type> = Vec::new();
                let mut i: usize = 0;
                while i < params.len()
                    invariant
                        i <= params.len(),
                        ps == param_views(params@),
                        param_types@ == ps.map_values(|p: (Type, Seq<char>)| p.0).subrange(0, i as int),
                    decreases params.len() - i,
                {
                    param_types.push(params[i].0.copied());
                    i = i + 1;
                    assert(param_types@ =~= ps.map_values(|p: (Type, Seq<char>)| p.0).subrange(0, i as int));
                }
                assert(param_types@ =~= ps.map_values(|p: (Type, Seq<char>)| p.0));
                self.define_symbol(
                    Symbol::Func { return_type: return_type.copied(), name: name.clone(), params: param_types },
                );
                let ghost st1 = self.state();
                proof {
                    self.lemma_has_frame();
                }
                self.enter_scope();
                assert(param_symbols(ps).subrange(0, 0) =~= seq![]);
                let mut j: usize = 0;
                while j < params.len()
                    invariant
                        j <= params.len(),
                        ps == param_views(params@),
                        st1.frames.len() >= 1,
                        self.state() == (AnalysisState {
                            frames: st1.frames.push(param_symbols(ps).subrange(0, j as int)),
                            errors: st1.errors,
                        }),
                    decreases params.len() - j,
                {
                    self.define_symbol(
                        Symbol::Var { typename: params[j].0.copied(), name: params[j].1.clone() },
                    );
                    assert(param_symbols(ps)[j as int] == SymbolView::Var(params@[j as int].0, params@[j as int].1@));
                    assert(param_symbols(ps).subrange(0, j + 1) =~= param_symbols(ps).subrange(0, j as int).push(
                        SymbolView::Var(params@[j as int].0, params@[j as int].1@),
                    ));
                    j = j + 1;
                    assert(self.state().frames =~= st1.frames.push(param_symbols(ps).subrange(0, j as int)));
                }
                assert(param_symbols(ps).subrange(0, params.len() as int) =~= param_symbols(ps));
                let ghost st2 = self.state();
                self.analyze_ref(body);
                proof {
                    lemma_analyze_keeps_depth(st2, body@);
                }
                self.exit_scope();
            }
        }
    }

    fn analyze_all(&mut self, v: &Vec<Stmt>)
        ensures
            final(self).state() == analyze_seq(old(self).state(), stmt_views(v@), v.len() as int),
        decreases v, 0int,
    {
        let ghost views = stmt_views(v@);
        let mut i: usize = 0;
        while i < v.len()
            invariant
                i <= v.len(),
                views == stmt_views(v@),
                self.state() == analyze_seq(old(self).state(), views, i as int),
            decreases v.len() - i,
        {
            assert(decreases_to!(v => v[i as int]));
            self.analyze_ref(&v[i]);
            i = i + 1;
        }
    }

    fn analyze_ref(&mut self, stmt: &Stmt)
        ensures
            final(self).state() == analyze_stmt(old(self).state(), stmt@),
        decreases stmt, 1int,
    {
        match stmt {
            Stmt::Block(v) => {
                assert(stmt@->Block_0 =~= stmt_views(v@));
                self.enter_scope();
                proof {
                    old(self).lemma_has_frame();
                    lemma_analyze_seq_keeps_depth(self.state(), stmt_views(v@), v.len() as int);
                }
                self.analyze_all(v);
                self.exit_scope();
            },
            Stmt::Program(v) => {
                assert(stmt@->Program_0 =~= stmt_views(v@));
                self.analyze_all(v);
            },
            Stmt::Expr(e) => {
                self.analyze_expr(e);
            },
            Stmt::Return(e) => {
                self.analyze_expr(e);
            },
            Stmt::Assign(..) => self.check_assignment(stmt),
            Stmt::VarDecl(..) => self.check_var_decl(stmt),
            Stmt::FuncDecl(..) => self.check_func_decl(stmt),
            Stmt::FuncDef(..) => self.check_func_def(stmt),
            Stmt::If(c, a, b) => {
                self.analyze_expr(c);
                self.analyze_ref(a);
                match b {
                    Some(b) => self.analyze_ref(b),
                    None => {},
                }
            },
            Stmt::For(i, c, step, body) => {
                self.analyze_ref(i);
                self.analyze_expr(c);
                self.analyze_ref(step);
                self.analyze_ref(body);
            },
            Stmt::While(c, body) => {
                self.analyze_expr(c);
                self.analyze_ref(body);
            },
            Stmt::Break | Stmt::Continue => {},
        }
    }

    /// Checks a statement tree, recording every error found, and hands the
    /// tree back unchanged.
    pub fn analyze(&mut self, stmt: Stmt) -> (r: Stmt)
        ensures
            r == stmt,
            final(self).state() == analyze_stmt(old(self).state(), stmt@),
    {
        self.analyze_ref(&stmt);
        stmt
    }
}

/// A name visible from the current frame stays visible inside a new frame.
pub proof fn lemma_visible_in_nested_frame(st: AnalysisState, n: Seq<char>)
    ensures
        lookup(entered(st).frames, n) == lookup(st.frames, n),
{
    assert(find_in_frame(Seq::<SymbolView>::empty(), n, 0) is None);
    assert(entered(st).frames.drop_last() =~= st.frames);
}

/// A declaration or definition of a name that is already visible, in this
/// frame or an enclosing one, records a redeclaration error and changes nothing else.
pub proof fn lemma_redeclaration_reported(st: AnalysisState, s: StmtView, n: Seq<char>)
    requires
        lookup(st.frames, n) is Some,
        match s {
            StmtView::VarDecl(_, m, _) => m == n,
            StmtView::FuncDecl(_, m, _) => m == n,
            StmtView::FuncDef(_, m, _, _) => m == n,
            _ => false,
        },
    ensures
        analyze_stmt(st, s) == with_error(st, redeclaration_message(n)),
{
}

/// Declaring, inside a nested block, a name of an enclosing scope records a
/// redeclaration error.
pub proof fn lemma_redeclaration_in_nested_block(
    st: AnalysisState,
    t: Type,
    n: Seq<char>,
    init: Option<ExprView>,
)
    requires
        lookup(st.frames, n) is Some,
    ensures
        analyze_stmt(st, StmtView::Block(seq![StmtView::VarDecl(t, n, init)])) == with_error(
            st,
            redeclaration_message(n),
        ),
{
    let v = seq![StmtView::VarDecl(t, n, init)];
    lemma_visible_in_nested_frame(st, n);
    assert(analyze_seq(entered(st), v, 0) == entered(st));
    lemma_redeclaration_reported(entered(st), v[0], n);
    assert(analyze_seq(entered(st), v, 1) == with_error(entered(st), redeclaration_message(n)));
    assert(exited(with_error(entered(st), redeclaration_message(n))).frames =~= st.frames);
}

/// A binary expression whose operands have different types records a type
/// mismatch after the operands' own errors, and the statement that follows
/// is analyzed from the state so reached.
pub proof fn lemma_binary_mismatch_reported(
    st: AnalysisState,
    op: crate::generic::Operator,
    l: ExprView,
    r: ExprView,
    next: StmtView,
)
    requires
        check_expr(st.frames, l).0 != check_expr(st.frames, r).0,
    ensures
        check_expr(st.frames, ExprView::BinaryOp(op, Box::new(l), Box::new(r))) == (
        Type::Any,
        check_expr(st.frames, l).1 + check_expr(st.frames, r).1 + seq![
            binary_mismatch_message(check_expr(st.frames, l).0, check_expr(st.frames, r).0),
        ]),
        analyze_stmt(
            st,
            StmtView::Program(
                seq![StmtView::Expr(ExprView::BinaryOp(op, Box::new(l), Box::new(r))), next],
            ),
        ) == analyze_stmt(
            after_expr(st, ExprView::BinaryOp(op, Box::new(l), Box::new(r))),
            next,
        ),
{
    let e = ExprView::BinaryOp(op, Box::new(l), Box::new(r));
    let v = seq![StmtView::Expr(e), next];
    assert(v[0] == StmtView::Expr(e));
    assert(v[1] == next);
    assert(analyze_seq(st, v, 0) == st);
    assert(analyze_stmt(st, v[0]) == after_expr(st, e));
    assert(analyze_seq(st, v, 1) == after_expr(st, e));
    assert(v.len() == 2);
    assert(analyze_seq(st, v, 2) == analyze_stmt(after_expr(st, e), next));
    assert(analyze_stmt(st, StmtView::Program(v)) == analyze_seq(st, v, 2));
}

/// A literal index at or past the recorded size of an array symbol is
/// reported as out of bounds, and one below it is not; an index that is not
/// a literal but types as `Number` gets no bounds check.
pub proof fn lemma_array_bounds(
    frames: Seq<Seq<SymbolView>>,
    a: Seq<char>,
    et: Type,
    size: nat,
    index: ExprView,
)
    requires
        lookup(frames, a) == Some(SymbolView::Array(Type::Array(Box::new(et)), a, size)),
    ensures
        (match index {
            ExprView::Number(b) => check_expr(frames, ExprView::ArrayAccess(a, Box::new(index))) == (
            et,
            if truncated_index(b) >= size {
                seq![out_of_bounds_message(truncated_index(b) as nat, size)]
            } else {
                seq![]
            }),
            _ => true,
        }),
        !(index is Number) && check_expr(frames, index).0 == Type::Number ==> check_expr(
            frames,
            ExprView::ArrayAccess(a, Box::new(index)),
        ) == (et, check_expr(frames, index).1),
{
    if let ExprView::Number(b) = index {
        assert(check_expr(frames, index).1 =~= seq![]);
        assert(seq![] + seq![out_of_bounds_message(truncated_index(b) as nat, size)] =~= seq![
            out_of_bounds_message(truncated_index(b) as nat, size),
        ]);
    } else {
        assert(check_expr(frames, index).1 + seq![] =~= check_expr(frames, index).1);
    }
}

} // verus!
