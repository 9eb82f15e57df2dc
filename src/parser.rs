use vstd::prelude::*;

use crate::dgen_ast::{expr_views, param_views, stmt_views, Expr, Stmt, StmtView, Type};
use crate::generic::{str_equal, ExprView, Operator};
use crate::number::{double_from_decimal, double_of_decimal, is_decimal_literal, is_digit};

verus! {

/// The error of a failed parse.
#[derive(Debug)]
pub enum ParserError {
    ParseFailure,
    FileOpenErr(String),
    Unknown,
}

/// A token of the source language.
#[derive(Debug)]
pub enum Token {
    Number(u64),
    Str(String),
    Ident(String),
    True,
    False,
    If,
    Else,
    For,
    While,
    Return,
    Break,
    Continue,
    TypeNum,
    TypeStr,
    TypeBool,
    TypeVoid,
    TypeObj,
    LParen,
    RParen,
    LBrace,
    RBrace,
    LBracket,
    RBracket,
    Semicolon,
    Comma,
    Assign,
    Op(Operator),
}

/// The model of a token.
pub enum TokenView {
    Number(u64),
    Str(Seq<char>),
    Ident(Seq<char>),
    True,
    False,
    If,
    Else,
    For,
    While,
    Return,
    Break,
    Continue,
    TypeNum,
    TypeStr,
    TypeBool,
    TypeVoid,
    TypeObj,
    LParen,
    RParen,
    LBrace,
    RBrace,
    LBracket,
    RBracket,
    Semicolon,
    Comma,
    Assign,
    Op(Operator),
}

impl Token {
    pub open spec fn view(&self) -> TokenView {
        match self {
            Token::Number(b) => TokenView::Number(*b),
            Token::Str(s) => TokenView::Str(s@),
            Token::Ident(s) => TokenView::Ident(s@),
            Token::True => TokenView::True,
            Token::False => TokenView::False,
            Token::If => TokenView::If,
            Token::Else => TokenView::Else,
            Token::For => TokenView::For,
            Token::While => TokenView::While,
            Token::Return => TokenView::Return,
            Token::Break => TokenView::Break,
            Token::Continue => TokenView::Continue,
            Token::TypeNum => TokenView::TypeNum,
            Token::TypeStr => TokenView::TypeStr,
            Token::TypeBool => TokenView::TypeBool,
            Token::TypeVoid => TokenView::TypeVoid,
            Token::TypeObj => TokenView::TypeObj,
            Token::LParen => TokenView::LParen,
            Token::RParen => TokenView::RParen,
            Token::LBrace => TokenView::LBrace,
            Token::RBrace => TokenView::RBrace,
            Token::LBracket => TokenView::LBracket,
            Token::RBracket => TokenView::RBracket,
            Token::Semicolon => TokenView::Semicolon,
            Token::Comma => TokenView::Comma,
            Token::Assign => TokenView::Assign,
            Token::Op(op) => TokenView::Op(*op),
        }
    }
}

/// The models of a sequence of tokens.
pub open spec fn token_views(ts: Seq<Token>) -> Seq<TokenView> {
    ts.map_values(|t: Token| t@)
}

pub open spec fn is_ident_start(c: char) -> bool {
    ('a' <= c && c <= 'z') || ('A' <= c && c <= 'Z') || c == '_'
}

pub open spec fn is_ident_char(c: char) -> bool {
    is_ident_start(c) || is_digit(c)
}

pub open spec fn is_space(c: char) -> bool {
    c == ' ' || c == '\t' || c == '\n' || c == '\r'
}

/// The end of the run of digits that starts at `i`.
pub open spec fn digits_end(s: Seq<char>, i: int) -> int
    decreases s.len() - i,
{
    if 0 <= i < s.len() && is_digit(s[i]) {
        digits_end(s, i + 1)
    } else {
        i
    }
}

/// The end of the run of identifier characters that starts at `i`.
pub open spec fn ident_end(s: Seq<char>, i: int) -> int
    decreases s.len() - i,
{
    if 0 <= i < s.len() && is_ident_char(s[i]) {
        ident_end(s, i + 1)
    } else {
        i
    }
}

/// The position of the first line break from `i` on, or the length.
pub open spec fn line_end(s: Seq<char>, i: int) -> int
    decreases s.len() - i,
{
    if 0 <= i < s.len() && s[i] != '\n' {
        line_end(s, i + 1)
    } else {
        i
    }
}

/// The position of the first double quote from `i` on, or the length.
pub open spec fn quote_end(s: Seq<char>, i: int) -> int
    decreases s.len() - i,
{
    if 0 <= i < s.len() && s[i] != '"' {
        quote_end(s, i + 1)
    } else {
        i
    }
}

/// The token of a word: a keyword, or else an identifier.
pub open spec fn word_token(w: Seq<char>) -> TokenView {
    if w == "true"@ {
        TokenView::True
    } else if w == "false"@ {
        TokenView::False
    } else if w == "if"@ {
        TokenView::If
    } else if w == "else"@ {
        TokenView::Else
    } else if w == "for"@ {
        TokenView::For
    } else if w == "while"@ {
        TokenView::While
    } else if w == "return"@ {
        TokenView::Return
    } else if w == "break"@ {
        TokenView::Break
    } else if w == "continue"@ {
        TokenView::Continue
    } else if w == "num"@ {
        TokenView::TypeNum
    } else if w == "str"@ {
        TokenView::TypeStr
    } else if w == "bool"@ {
        TokenView::TypeBool
    } else if w == "void"@ {
        TokenView::TypeVoid
    } else if w == "obj"@ {
        TokenView::TypeObj
    } else {
        TokenView::Ident(w)
    }
}

/// The operator spelled by two characters, if any.
pub open spec fn two_char_op(a: char, b: char) -> Option<Operator> {
    if a == '+' && b == '+' {
        Some(Operator::Inc)
    } else if a == '-' && b == '-' {
        Some(Operator::Dec)
    } else if a == '&' && b == '&' {
        Some(Operator::And)
    } else if a == '|' && b == '|' {
        Some(Operator::Or)
    } else if a == '=' && b == '=' {
        Some(Operator::Eq)
    } else if a == '!' && b == '=' {
        Some(Operator::Neq)
    } else if a == '<' && b == '=' {
        Some(Operator::Lte)
    } else if a == '>' && b == '=' {
        Some(Operator::Gte)
    } else {
        None
    }
}

/// The token spelled by one character, if any.
pub open spec fn one_char_token(c: char) -> Option<TokenView> {
    if c == '(' {
        Some(TokenView::LParen)
    } else if c == ')' {
        Some(TokenView::RParen)
    } else if c == '{' {
        Some(TokenView::LBrace)
    } else if c == '}' {
        Some(TokenView::RBrace)
    } else if c == '[' {
        Some(TokenView::LBracket)
    } else if c == ']' {
        Some(TokenView::RBracket)
    } else if c == ';' {
        Some(TokenView::Semicolon)
    } else if c == ',' {
        Some(TokenView::Comma)
    } else if c == '=' {
        Some(TokenView::Assign)
    } else if c == '+' {
        Some(TokenView::Op(Operator::Add))
    } else if c == '-' {
        Some(TokenView::Op(Operator::Sub))
    } else if c == '*' {
        Some(TokenView::Op(Operator::Mul))
    } else if c == '/' {
        Some(TokenView::Op(Operator::Div))
    } else if c == '%' {
        Some(TokenView::Op(Operator::Mod))
    } else if c == '!' {
        Some(TokenView::Op(Operator::Not))
    } else if c == '<' {
        Some(TokenView::Op(Operator::Lt))
    } else if c == '>' {
        Some(TokenView::Op(Operator::Gt))
    } else {
        None
    }
}

pub open spec fn prepend(t: TokenView, rest: Option<Seq<TokenView>>) -> Option<Seq<TokenView>> {
    match rest {
        Some(r) => Some(seq![t] + r),
        None => None,
    }
}

/// The end of a number literal that starts at `i`: digits, then optionally a
/// dot and more digits.
pub open spec fn number_end(s: Seq<char>, i: int) -> int {
    let j = digits_end(s, i);
    if j + 1 < s.len() && s[j] == '.' && is_digit(s[j + 1]) {
        digits_end(s, j + 1)
    } else {
        j
    }
}

proof fn lemma_digits_end(s: Seq<char>, i: int)
    requires
        0 <= i <= s.len(),
    ensures
        i <= digits_end(s, i) <= s.len(),
        forall|k: int| i <= k < digits_end(s, i) ==> is_digit(#[trigger] s[k]),
        i < s.len() && is_digit(s[i]) ==> digits_end(s, i) > i,
    decreases s.len() - i,
{
    if i < s.len() && is_digit(s[i]) {
        lemma_digits_end(s, i + 1);
    }
}

/// The text of a number token is a decimal literal.
proof fn lemma_number_text(s: Seq<char>, i: int)
    requires
        0 <= i < s.len(),
        is_digit(s[i]),
    ensures
        i < number_end(s, i) <= s.len(),
        is_decimal_literal(s.subrange(i, number_end(s, i))),
{
    lemma_digits_end(s, i);
    let j = digits_end(s, i);
    assert(j > i);
    if j + 1 < s.len() && s[j] == '.' && is_digit(s[j + 1]) {
        lemma_digits_end(s, j + 1);
        let k = digits_end(s, j + 1);
        let t = s.subrange(i, k);
        assert(k > j + 1);
        assert forall|a: int| 0 <= a < t.len() implies is_digit(#[trigger] t[a]) || (t[a] == '.'
            && forall|m: int| 0 <= m < t.len() && m != a ==> t[m] != '.') by {
            if i + a != j {
                assert(is_digit(s[i + a]));
            } else {
                assert forall|m: int| 0 <= m < t.len() && m != a implies t[m] != '.' by {
                    assert(is_digit(s[i + m]));
                }
            }
        }
        assert(is_digit(t[t.len() - 1])) by {
            assert(is_digit(s[k - 1]));
        }
    } else {
        let t = s.subrange(i, j);
        assert forall|a: int| 0 <= a < t.len() implies is_digit(#[trigger] t[a]) by {
            assert(is_digit(s[i + a]));
        }
        assert(is_digit(t[t.len() - 1]));
    }
}

/// The tokens of `s` from position `i` on, or `None` where a character
/// starts no token or a string literal is not closed. Blanks and `//`
/// comments separate tokens.
pub open spec fn lex_from(s: Seq<char>, i: int) -> Option<Seq<TokenView>>
    decreases s.len() - i,
{
    if i < 0 || i >= s.len() {
        Some(seq![])
    } else {
        let c = s[i];
        if is_space(c) {
            lex_from(s, i + 1)
        } else if c == '/' && i + 1 < s.len() && s[i + 1] == '/' {
            let j = line_end(s, i);
            if i < j <= s.len() {
                lex_from(s, j)
            } else {
                None
            }
        } else if is_digit(c) {
            let k = number_end(s, i);
            if i < k <= s.len() {
                prepend(TokenView::Number(double_of_decimal(s.subrange(i, k))), lex_from(s, k))
            } else {
                None
            }
        } else if c == '"' {
            let j = quote_end(s, i + 1);
            if i < j < s.len() {
                prepend(TokenView::Str(s.subrange(i + 1, j)), lex_from(s, j + 1))
            } else {
                None
            }
        } else if is_ident_start(c) {
            let j = ident_end(s, i);
            if i < j <= s.len() {
                prepend(word_token(s.subrange(i, j)), lex_from(s, j))
            } else {
                None
            }
        } else if i + 1 < s.len() && two_char_op(c, s[i + 1]) is Some {
            prepend(TokenView::Op(two_char_op(c, s[i + 1])->0), lex_from(s, i + 2))
        } else {
            match one_char_token(c) {
                Some(t) => prepend(t, lex_from(s, i + 1)),
                None => None,
            }
        }
    }
}

/// The tokens of a source text.
pub open spec fn lex(s: Seq<char>) -> Option<Seq<TokenView>> {
    lex_from(s, 0)
}

/// Relies on `String::push`, which appends one character to the string.
#[verifier::external_body]
pub(crate) fn push_char(s: &mut String, c: char)
    ensures
        final(s)@ == old(s)@.push(c),
{
    s.push(c);
}

pub(crate) fn chars_of(s: &str) -> (r: Vec<char>)
    ensures
        r@ == s@,
{
    let mut v: Vec<char> = Vec::new();
    for c in it: s.chars()
        invariant
            v@ == it.seq().subrange(0, it.index() as int),
    {
        v.push(c);
    }
    v
}

fn text_of(cs: &Vec<char>, from: usize, to: usize) -> (r: String)
    requires
        from <= to <= cs.len(),
    ensures
        r@ == cs@.subrange(from as int, to as int),
{
    let mut out = String::new();
    let mut i = from;
    while i < to
        invariant
            from <= i <= to,
            to <= cs.len(),
            out@ == cs@.subrange(from as int, i as int),
        decreases to - i,
    {
        push_char(&mut out, cs[i]);
        i = i + 1;
        assert(out@ =~= cs@.subrange(from as int, i as int));
    }
    out
}

fn digit_char(c: char) -> (r: bool)
    ensures
        r == is_digit(c),
{
    '0' <= c && c <= '9'
}

fn ident_start_char(c: char) -> (r: bool)
    ensures
        r == is_ident_start(c),
{
    ('a' <= c && c <= 'z') || ('A' <= c && c <= 'Z') || c == '_'
}

fn ident_char(c: char) -> (r: bool)
    ensures
        r == is_ident_char(c),
{
    ident_start_char(c) || digit_char(c)
}

fn scan_digits(cs: &Vec<char>, i: usize) -> (j: usize)
    requires
        i <= cs.len(),
    ensures
        j == digits_end(cs@, i as int),
        i <= j <= cs.len(),
{
    let mut j = i;
    while j < cs.len() && digit_char(cs[j])
        invariant
            i <= j <= cs.len(),
            digits_end(cs@, i as int) == digits_end(cs@, j as int),
        decreases cs.len() - j,
    {
        j = j + 1;
    }
    j
}

fn scan_ident(cs: &Vec<char>, i: usize) -> (j: usize)
    requires
        i <= cs.len(),
    ensures
        j == ident_end(cs@, i as int),
        i <= j <= cs.len(),
{
    let mut j = i;
    while j < cs.len() && ident_char(cs[j])
        invariant
            i <= j <= cs.len(),
            ident_end(cs@, i as int) == ident_end(cs@, j as int),
        decreases cs.len() - j,
    {
        j = j + 1;
    }
    j
}

fn scan_line(cs: &Vec<char>, i: usize) -> (j: usize)
    requires
        i <= cs.len(),
    ensures
        j == line_end(cs@, i as int),
        i <= j <= cs.len(),
{
    let mut j = i;
    while j < cs.len() && cs[j] != '\n'
        invariant
            i <= j <= cs.len(),
            line_end(cs@, i as int) == line_end(cs@, j as int),
        decreases cs.len() - j,
    {
        j = j + 1;
    }
    j
}

fn scan_quote(cs: &Vec<char>, i: usize) -> (j: usize)
    requires
        i <= cs.len(),
    ensures
        j == quote_end(cs@, i as int),
        i <= j <= cs.len(),
{
    let mut j = i;
    while j < cs.len() && cs[j] != '"'
        invariant
            i <= j <= cs.len(),
            quote_end(cs@, i as int) == quote_end(cs@, j as int),
        decreases cs.len() - j,
    {
        j = j + 1;
    }
    j
}

fn word(w: String) -> (r: Token)
    ensures
        r@ == word_token(w@),
{
    let s = w.as_str();
    if str_equal(s, "true") {
        Token::True
    } else if str_equal(s, "false") {
        Token::False
    } else if str_equal(s, "if") {
        Token::If
    } else if str_equal(s, "else") {
        Token::Else
    } else if str_equal(s, "for") {
        Token::For
    } else if str_equal(s, "while") {
        Token::While
    } else if str_equal(s, "return") {
        Token::Return
    } else if str_equal(s, "break") {
        Token::Break
    } else if str_equal(s, "continue") {
        Token::Continue
    } else if str_equal(s, "num") {
        Token::TypeNum
    } else if str_equal(s, "str") {
        Token::TypeStr
    } else if str_equal(s, "bool") {
        Token::TypeBool
    } else if str_equal(s, "void") {
        Token::TypeVoid
    } else if str_equal(s, "obj") {
        Token::TypeObj
    } else {
        Token::Ident(w)
    }
}

fn two_char(a: char, b: char) -> (r: Option<Operator>)
    ensures
        r == two_char_op(a, b),
{
    if a == '+' && b == '+' {
        Some(Operator::Inc)
    } else if a == '-' && b == '-' {
        Some(Operator::Dec)
    } else if a == '&' && b == '&' {
        Some(Operator::And)
    } else if a == '|' && b == '|' {
        Some(Operator::Or)
    } else if a == '=' && b == '=' {
        Some(Operator::Eq)
    } else if a == '!' && b == '=' {
        Some(Operator::Neq)
    } else if a == '<' && b == '=' {
        Some(Operator::Lte)
    } else if a == '>' && b == '=' {
        Some(Operator::Gte)
    } else {
        None
    }
}

fn one_char(c: char) -> (r: Option<Token>)
    ensures
        (match r {
            Some(t) => Some(t@),
            None => None,
        }) == one_char_token(c),
{
    if c == '(' {
        Some(Token::LParen)
    } else if c == ')' {
        Some(Token::RParen)
    } else if c == '{' {
        Some(Token::LBrace)
    } else if c == '}' {
        Some(Token::RBrace)
    } else if c == '[' {
        Some(Token::LBracket)
    } else if c == ']' {
        Some(Token::RBracket)
    } else if c == ';' {
        Some(Token::Semicolon)
    } else if c == ',' {
        Some(Token::Comma)
    } else if c == '=' {
        Some(Token::Assign)
    } else if c == '+' {
        Some(Token::Op(Operator::Add))
    } else if c == '-' {
        Some(Token::Op(Operator::Sub))
    } else if c == '*' {
        Some(Token::Op(Operator::Mul))
    } else if c == '/' {
        Some(Token::Op(Operator::Div))
    } else if c == '%' {
        Some(Token::Op(Operator::Mod))
    } else if c == '!' {
        Some(Token::Op(Operator::Not))
    } else if c == '<' {
        Some(Token::Op(Operator::Lt))
    } else if c == '>' {
        Some(Token::Op(Operator::Gt))
    } else {
        None
    }
}

/// The tokens before, then those of a result.
pub open spec fn after(prefix: Seq<TokenView>, rest: Option<Seq<TokenView>>) -> Option<Seq<TokenView>> {
    match rest {
        Some(r) => Some(prefix + r),
        None => None,
    }
}


/// Whether position `i` holds token `t`.
pub open spec fn at(ts: Seq<TokenView>, i: int, t: TokenView) -> bool {
    0 <= i < ts.len() && ts[i] == t
}

/// The binary operator of a token and its precedence tier, lowest 1: `||`,
/// `&&`, equality, ordering, additive, multiplicative.
pub open spec fn infix(t: TokenView) -> Option<(Operator, nat)> {
    match t {
        TokenView::Op(op) => match op {
            Operator::Or => Some((op, 1nat)),
            Operator::And => Some((op, 2nat)),
            Operator::Eq | Operator::Neq => Some((op, 3nat)),
            Operator::Lt | Operator::Lte | Operator::Gt | Operator::Gte => Some((op, 4nat)),
            Operator::Add | Operator::Sub => Some((op, 5nat)),
            Operator::Mul | Operator::Div | Operator::Mod => Some((op, 6nat)),
            _ => None,
        },
        _ => None,
    }
}

/// The prefix operator of a token.
pub open spec fn prefix(t: TokenView) -> Option<Operator> {
    match t {
        TokenView::Op(Operator::Sub) => Some(Operator::Neg),
        TokenView::Op(Operator::Not) => Some(Operator::Not),
        TokenView::Op(Operator::Inc) => Some(Operator::Inc),
        TokenView::Op(Operator::Dec) => Some(Operator::Dec),
        _ => None,
    }
}

/// The postfix operator of a token.
pub open spec fn postfix(t: TokenView) -> Option<Operator> {
    match t {
        TokenView::Op(Operator::Inc) => Some(Operator::Inc),
        TokenView::Op(Operator::Dec) => Some(Operator::Dec),
        _ => None,
    }
}

/// Whether a parse that started at `i` ended at `j`, past `i` and within the tokens.
pub open spec fn advanced(ts: Seq<TokenView>, i: int, j: int) -> bool {
    i < j <= ts.len()
}

/// An expression at `i` whose binary operators are all of tier `min` or
/// above, and the position after it; binary operators associate to the left.
pub open spec fn parse_expr(ts: Seq<TokenView>, i: int, min: nat) -> Option<(ExprView, int)>
    decreases ts.len() - i, 2int,
{
    match parse_unary(ts, i) {
        Some((lhs, j)) => if advanced(ts, i, j) {
            parse_infix(ts, j, lhs, min)
        } else {
            None
        },
        None => None,
    }
}

/// Binary operators of tier `min` or above at `i`, applied to `lhs`.
pub open spec fn parse_infix(ts: Seq<TokenView>, i: int, lhs: ExprView, min: nat) -> Option<
    (ExprView, int),
>
    decreases ts.len() - i, 2int,
{
    if 0 <= i < ts.len() && infix(ts[i]) is Some && (infix(ts[i])->0).1 >= min {
        let (op, p) = infix(ts[i])->0;
        match parse_expr(ts, i + 1, p + 1) {
            Some((rhs, j)) => if advanced(ts, i, j) {
                parse_infix(ts, j, ExprView::BinaryOp(op, Box::new(lhs), Box::new(rhs)), min)
            } else {
                None
            },
            None => None,
        }
    } else {
        Some((lhs, i))
    }
}

/// A primary expression at `i` with its prefix and postfix operators;
/// postfix operators bind tighter than prefix ones.
pub open spec fn parse_unary(ts: Seq<TokenView>, i: int) -> Option<(ExprView, int)>
    decreases ts.len() - i, 1int,
{
    if 0 <= i < ts.len() && prefix(ts[i]) is Some {
        match parse_unary(ts, i + 1) {
            Some((e, j)) => if advanced(ts, i, j) {
                Some((ExprView::UnaryOp(prefix(ts[i])->0, Box::new(e), false), j))
            } else {
                None
            },
            None => None,
        }
    } else {
        match parse_primary(ts, i) {
            Some((e, j)) => if advanced(ts, i, j) {
                Some(parse_postfix(ts, j, e))
            } else {
                None
            },
            None => None,
        }
    }
}

/// The postfix operators at `i` applied to `e`.
pub open spec fn parse_postfix(ts: Seq<TokenView>, i: int, e: ExprView) -> (ExprView, int)
    decreases ts.len() - i,
{
    if 0 <= i < ts.len() && postfix(ts[i]) is Some {
        parse_postfix(ts, i + 1, ExprView::UnaryOp(postfix(ts[i])->0, Box::new(e), true))
    } else {
        (e, i)
    }
}

/// A literal, a name, a call, an element access, an array literal or a
/// parenthesized expression at `i`.
pub open spec fn parse_primary(ts: Seq<TokenView>, i: int) -> Option<(ExprView, int)>
    decreases ts.len() - i, 0int,
{
    if i < 0 || i >= ts.len() {
        None
    } else {
        match ts[i] {
            TokenView::Number(b) => Some((ExprView::Number(b), i + 1)),
            TokenView::Str(s) => Some((ExprView::Str(s), i + 1)),
            TokenView::True => Some((ExprView::Bool(true), i + 1)),
            TokenView::False => Some((ExprView::Bool(false), i + 1)),
            TokenView::Ident(n) => if at(ts, i + 1, TokenView::LParen) {
                match parse_list(ts, i + 2, seq![], TokenView::RParen) {
                    Some((args, j)) => Some((ExprView::FuncCall(n, args), j)),
                    None => None,
                }
            } else if at(ts, i + 1, TokenView::LBracket) {
                match parse_expr(ts, i + 2, 0) {
                    Some((index, j)) => if at(ts, j, TokenView::RBracket) {
                        Some((ExprView::ArrayAccess(n, Box::new(index)), j + 1))
                    } else {
                        None
                    },
                    None => None,
                }
            } else {
                Some((ExprView::Identifier(n), i + 1))
            },
            TokenView::LParen => match parse_expr(ts, i + 1, 0) {
                Some((e, j)) => if at(ts, j, TokenView::RParen) {
                    Some((e, j + 1))
                } else {
                    None
                },
                None => None,
            },
            TokenView::LBracket => match parse_list(ts, i + 1, seq![], TokenView::RBracket) {
                Some((elems, j)) => Some((ExprView::Array(elems), j)),
                None => None,
            },
            _ => None,
        }
    }
}

/// Expressions separated by commas and closed by `close`, after those in
/// `acc`; an empty list only where `acc` is empty.
pub open spec fn parse_list(ts: Seq<TokenView>, i: int, acc: Seq<ExprView>, close: TokenView) -> Option<
    (Seq<ExprView>, int),
>
    decreases ts.len() - i, 3int,
{
    if acc.len() == 0 && at(ts, i, close) {
        Some((acc, i + 1))
    } else {
        match parse_expr(ts, i, 0) {
            Some((e, j)) => if advanced(ts, i, j) {
                if at(ts, j, TokenView::Comma) {
                    parse_list(ts, j + 1, acc.push(e), close)
                } else if at(ts, j, close) {
                    Some((acc.push(e), j + 1))
                } else {
                    None
                }
            } else {
                None
            },
            None => None,
        }
    }
}

/// The array suffixes `[]` at `i` applied to `t`.
pub open spec fn array_suffix(ts: Seq<TokenView>, i: int, t: Type) -> (Type, int)
    decreases ts.len() - i,
{
    if at(ts, i, TokenView::LBracket) && at(ts, i + 1, TokenView::RBracket) {
        array_suffix(ts, i + 2, Type::Array(Box::new(t)))
    } else {
        (t, i)
    }
}

/// A type at `i`: a base type name, then any number of `[]`.
pub open spec fn parse_type(ts: Seq<TokenView>, i: int) -> Option<(Type, int)> {
    if i < 0 || i >= ts.len() {
        None
    } else {
        let base = match ts[i] {
            TokenView::TypeNum => Some(Type::Number),
            TokenView::TypeStr => Some(Type::String),
            TokenView::TypeBool => Some(Type::Boolean),
            TokenView::TypeVoid => Some(Type::Void),
            TokenView::TypeObj => Some(Type::Object),
            _ => None,
        };
        match base {
            Some(t) => Some(array_suffix(ts, i + 1, t)),
            None => None,
        }
    }
}

/// Typed parameters separated by commas and closed by `)`, after those in `acc`.
pub open spec fn parse_params(ts: Seq<TokenView>, i: int, acc: Seq<(Type, Seq<char>)>) -> Option<
    (Seq<(Type, Seq<char>)>, int),
>
    decreases ts.len() - i,
{
    if acc.len() == 0 && at(ts, i, TokenView::RParen) {
        Some((acc, i + 1))
    } else {
        match parse_type(ts, i) {
            Some((t, j)) => if advanced(ts, i, j) && j < ts.len() && ts[j] is Ident {
                let acc2 = acc.push((t, ts[j]->Ident_0));
                if at(ts, j + 1, TokenView::Comma) {
                    parse_params(ts, j + 2, acc2)
                } else if at(ts, j + 1, TokenView::RParen) {
                    Some((acc2, j + 2))
                } else {
                    None
                }
            } else {
                None
            },
            None => None,
        }
    }
}

/// Types separated by commas and closed by `)`, after those in `acc`.
pub open spec fn parse_types(ts: Seq<TokenView>, i: int, acc: Seq<Type>) -> Option<(Seq<Type>, int)>
    decreases ts.len() - i,
{
    if acc.len() == 0 && at(ts, i, TokenView::RParen) {
        Some((acc, i + 1))
    } else {
        match parse_type(ts, i) {
            Some((t, j)) => if advanced(ts, i, j) {
                if at(ts, j, TokenView::Comma) {
                    parse_types(ts, j + 1, acc.push(t))
                } else if at(ts, j, TokenView::RParen) {
                    Some((acc.push(t), j + 1))
                } else {
                    None
                }
            } else {
                None
            },
            None => None,
        }
    }
}

/// A variable declaration at `i`, without its `;`: a type, a name and
/// optionally `=` and an initializer.
pub open spec fn parse_var_decl(ts: Seq<TokenView>, i: int) -> Option<(StmtView, int)> {
    match parse_type(ts, i) {
        Some((t, j)) => if 0 <= j < ts.len() && ts[j] is Ident {
            let n = ts[j]->Ident_0;
            if at(ts, j + 1, TokenView::Assign) {
                match parse_expr(ts, j + 2, 0) {
                    Some((e, k)) => Some((StmtView::VarDecl(t, n, Some(e)), k)),
                    None => None,
                }
            } else {
                Some((StmtView::VarDecl(t, n, None), j + 1))
            }
        } else {
            None
        },
        None => None,
    }
}

/// An assignment at `i`, without its `;`.
pub open spec fn parse_assignment(ts: Seq<TokenView>, i: int) -> Option<(StmtView, int)> {
    if 0 <= i < ts.len() && ts[i] is Ident && at(ts, i + 1, TokenView::Assign) {
        match parse_expr(ts, i + 2, 0) {
            Some((e, j)) => Some((StmtView::Assign(ts[i]->Ident_0, e), j)),
            None => None,
        }
    } else {
        None
    }
}

/// What follows `;` at `i`, given the statement before it.
pub open spec fn then_semicolon(ts: Seq<TokenView>, r: Option<(StmtView, int)>) -> Option<(StmtView, int)> {
    match r {
        Some((s, j)) => if at(ts, j, TokenView::Semicolon) {
            Some((s, j + 1))
        } else {
            None
        },
        None => None,
    }
}

/// A declaration at `i` that starts with a type: a function definition,
/// else a function declaration, else a variable declaration with its `;`.
pub open spec fn parse_declaration(ts: Seq<TokenView>, i: int) -> Option<(StmtView, int)>
    decreases ts.len() - i, 1int,
{
    match parse_type(ts, i) {
        Some((t, j)) => if advanced(ts, i, j) && j < ts.len() && ts[j] is Ident {
            let n = ts[j]->Ident_0;
            if at(ts, j + 1, TokenView::LParen) {
                match parse_params(ts, j + 2, seq![]) {
                    Some((ps, k)) if at(ts, k, TokenView::LBrace) && advanced(ts, i, k) => match parse_block(ts, k) {
                        Some((body, m)) => Some((StmtView::FuncDef(t, n, ps, Box::new(body)), m)),
                        None => None,
                    },
                    _ => match parse_types(ts, j + 2, seq![]) {
                        Some((tys, k)) => if at(ts, k, TokenView::Semicolon) {
                            Some((StmtView::FuncDecl(t, n, tys), k + 1))
                        } else {
                            None
                        },
                        None => None,
                    },
                }
            } else {
                then_semicolon(ts, parse_var_decl(ts, i))
            }
        } else {
            None
        },
        None => None,
    }
}

/// A block at `i`: `{`, statements, `}`.
pub open spec fn parse_block(ts: Seq<TokenView>, i: int) -> Option<(StmtView, int)>
    decreases ts.len() - i, 0int,
{
    if at(ts, i, TokenView::LBrace) {
        parse_stmts(ts, i + 1, seq![])
    } else {
        None
    }
}

/// Statements at `i` up to a closing `}`, after those in `acc`.
pub open spec fn parse_stmts(ts: Seq<TokenView>, i: int, acc: Seq<StmtView>) -> Option<(StmtView, int)>
    decreases ts.len() - i, 3int,
{
    if at(ts, i, TokenView::RBrace) {
        Some((StmtView::Block(acc), i + 1))
    } else if i < 0 || i >= ts.len() {
        None
    } else {
        match parse_stmt(ts, i) {
            Some((s, j)) => if advanced(ts, i, j) {
                parse_stmts(ts, j, acc.push(s))
            } else {
                None
            },
            None => None,
        }
    }
}

/// An `if` statement at `i`: a condition in parentheses, a block, and optionally `else` and a block.
pub open spec fn parse_if(ts: Seq<TokenView>, i: int) -> Option<(StmtView, int)>
    decreases ts.len() - i, 1int,
{
    if at(ts, i + 1, TokenView::LParen) {
        match parse_expr(ts, i + 2, 0) {
            Some((c, j)) => if at(ts, j, TokenView::RParen) && advanced(ts, i, j) {
                match parse_block(ts, j + 1) {
                    Some((a, k)) => if at(ts, k, TokenView::Else) && advanced(ts, i, k) {
                        match parse_block(ts, k + 1) {
                            Some((b, m)) => Some(
                                (StmtView::If(c, Box::new(a), Some(Box::new(b))), m),
                            ),
                            None => None,
                        }
                    } else {
                        Some((StmtView::If(c, Box::new(a), None), k))
                    },
                    None => None,
                }
            } else {
                None
            },
            None => None,
        }
    } else {
        None
    }
}

/// A `for` statement at `i`: a declaration, a condition and an assignment in parentheses, then a block.
pub open spec fn parse_for(ts: Seq<TokenView>, i: int) -> Option<(StmtView, int)>
    decreases ts.len() - i, 1int,
{
    if at(ts, i + 1, TokenView::LParen) {
        match parse_var_decl(ts, i + 2) {
            Some((init, j)) => if at(ts, j, TokenView::Semicolon) {
                match parse_expr(ts, j + 1, 0) {
                    Some((c, k)) => if at(ts, k, TokenView::Semicolon) {
                        match parse_assignment(ts, k + 1) {
                            Some((step, m)) => if at(ts, m, TokenView::RParen) && advanced(
                                ts,
                                i,
                                m,
                            ) {
                                match parse_block(ts, m + 1) {
                                    Some((b, n)) => Some(
                                        (
                                            StmtView::For(
                                                Box::new(init),
                                                c,
                                                Box::new(step),
                                                Box::new(b),
                                            ),
                                            n,
                                        ),
                                    ),
                                    None => None,
                                }
                            } else {
                                None
                            },
                            None => None,
                        }
                    } else {
                        None
                    },
                    None => None,
                }
            } else {
                None
            },
            None => None,
        }
    } else {
        None
    }
}

/// A `while` statement at `i`: a condition in parentheses, then a block.
pub open spec fn parse_while(ts: Seq<TokenView>, i: int) -> Option<(StmtView, int)>
    decreases ts.len() - i, 1int,
{
    if at(ts, i + 1, TokenView::LParen) {
        match parse_expr(ts, i + 2, 0) {
            Some((c, j)) => if at(ts, j, TokenView::RParen) && advanced(ts, i, j) {
                match parse_block(ts, j + 1) {
                    Some((b, k)) => Some((StmtView::While(c, Box::new(b)), k)),
                    None => None,
                }
            } else {
                None
            },
            None => None,
        }
    } else {
        None
    }
}

/// A statement at `i`.
pub open spec fn parse_stmt(ts: Seq<TokenView>, i: int) -> Option<(StmtView, int)>
    decreases ts.len() - i, 2int,
{
    if i < 0 || i >= ts.len() {
        None
    } else {
        match ts[i] {
            TokenView::TypeNum | TokenView::TypeStr | TokenView::TypeBool | TokenView::TypeVoid
            | TokenView::TypeObj => parse_declaration(ts, i),
            TokenView::LBrace => parse_block(ts, i),
            TokenView::Return => match parse_expr(ts, i + 1, 0) {
                Some((e, j)) => then_semicolon(ts, Some((StmtView::Return(e), j))),
                None => None,
            },
            TokenView::Break => then_semicolon(ts, Some((StmtView::Break, i + 1))),
            TokenView::Continue => then_semicolon(ts, Some((StmtView::Continue, i + 1))),
            TokenView::If => parse_if(ts, i),
            TokenView::For => parse_for(ts, i),
            TokenView::While => parse_while(ts, i),
            TokenView::Ident(_) => if at(ts, i + 1, TokenView::Assign) {
                then_semicolon(ts, parse_assignment(ts, i))
            } else {
                match parse_expr(ts, i, 0) {
                    Some((e, j)) => then_semicolon(ts, Some((StmtView::Expr(e), j))),
                    None => None,
                }
            },
            _ => match parse_expr(ts, i, 0) {
                Some((e, j)) => then_semicolon(ts, Some((StmtView::Expr(e), j))),
                None => None,
            },
        }
    }
}

/// The statements of a program from `i` to the end, after those in `acc`.
pub open spec fn parse_top(ts: Seq<TokenView>, i: int, acc: Seq<StmtView>) -> Option<StmtView>
    decreases ts.len() - i,
{
    if i < 0 || i >= ts.len() {
        Some(StmtView::Program(acc))
    } else {
        match parse_stmt(ts, i) {
            Some((s, j)) => if advanced(ts, i, j) {
                parse_top(ts, j, acc.push(s))
            } else {
                None
            },
            None => None,
        }
    }
}

/// The program of a token sequence.
pub open spec fn parse_program(ts: Seq<TokenView>) -> Option<StmtView> {
    parse_top(ts, 0, seq![])
}

/// The program of a source text.
pub open spec fn parse_text(s: Seq<char>) -> Option<StmtView> {
    match lex(s) {
        Some(ts) => parse_program(ts),
        None => None,
    }
}

/// The model of an expression parse.
pub open spec fn expr_result(r: Option<(Expr, usize)>) -> Option<(ExprView, int)> {
    match r {
        Some((e, j)) => Some((e@, j as int)),
        None => None,
    }
}

/// The closing token of a list: `)` or `]`.
pub open spec fn closer(paren: bool) -> TokenView {
    if paren {
        TokenView::RParen
    } else {
        TokenView::RBracket
    }
}

fn infix_of(ts: &Vec<Token>, i: usize) -> (r: Option<(Operator, u64)>)
    requires
        i < ts.len(),
    ensures
        (match r {
            Some((op, p)) => Some((op, p as nat)),
            None => None,
        }) == infix(ts@[i as int]@),
        r matches Some((_, p)) ==> 1 <= p <= 6,
{
    match &ts[i] {
        Token::Op(op) => match op {
            Operator::Or => Some((*op, 1)),
            Operator::And => Some((*op, 2)),
            Operator::Eq | Operator::Neq => Some((*op, 3)),
            Operator::Lt | Operator::Lte | Operator::Gt | Operator::Gte => Some((*op, 4)),
            Operator::Add | Operator::Sub => Some((*op, 5)),
            Operator::Mul | Operator::Div | Operator::Mod => Some((*op, 6)),
            _ => None,
        },
        _ => None,
    }
}

fn prefix_of(ts: &Vec<Token>, i: usize) -> (r: Option<Operator>)
    requires
        i < ts.len(),
    ensures
        r == prefix(ts@[i as int]@),
{
    match &ts[i] {
        Token::Op(Operator::Sub) => Some(Operator::Neg),
        Token::Op(Operator::Not) => Some(Operator::Not),
        Token::Op(Operator::Inc) => Some(Operator::Inc),
        Token::Op(Operator::Dec) => Some(Operator::Dec),
        _ => None,
    }
}

fn postfix_of(ts: &Vec<Token>, i: usize) -> (r: Option<Operator>)
    requires
        i < ts.len(),
    ensures
        r == postfix(ts@[i as int]@),
{
    match &ts[i] {
        Token::Op(Operator::Inc) => Some(Operator::Inc),
        Token::Op(Operator::Dec) => Some(Operator::Dec),
        _ => None,
    }
}

fn at_close(ts: &Vec<Token>, i: usize, paren: bool) -> (r: bool)
    ensures
        r == at(token_views(ts@), i as int, closer(paren)),
{
    if i >= ts.len() {
        false
    } else if paren {
        matches!(ts[i], Token::RParen)
    } else {
        matches!(ts[i], Token::RBracket)
    }
}

fn at_comma(ts: &Vec<Token>, i: usize) -> (r: bool)
    ensures
        r == at(token_views(ts@), i as int, TokenView::Comma),
{
    i < ts.len() && matches!(ts[i], Token::Comma)
}

fn at_lparen(ts: &Vec<Token>, i: usize) -> (r: bool)
    ensures
        r == at(token_views(ts@), i as int, TokenView::LParen),
{
    i < ts.len() && matches!(ts[i], Token::LParen)
}

fn at_lbracket(ts: &Vec<Token>, i: usize) -> (r: bool)
    ensures
        r == at(token_views(ts@), i as int, TokenView::LBracket),
{
    i < ts.len() && matches!(ts[i], Token::LBracket)
}

fn parse_expr_at(ts: &Vec<Token>, i: usize, min: u64) -> (r: Option<(Expr, usize)>)
    requires
        i <= ts.len(),
        min <= 7,
    ensures
        expr_result(r) == parse_expr(token_views(ts@), i as int, min as nat),
        r matches Some((_, j)) ==> j <= ts.len(),
    decreases ts.len() - i, 2int,
{
    match parse_unary_at(ts, i) {
        Some((lhs, j)) => if i < j && j <= ts.len() {
            parse_infix_at(ts, j, lhs, min)
        } else {
            None
        },
        None => None,
    }
}

fn parse_infix_at(ts: &Vec<Token>, i: usize, lhs: Expr, min: u64) -> (r: Option<(Expr, usize)>)
    requires
        i <= ts.len(),
        min <= 7,
    ensures
        expr_result(r) == parse_infix(token_views(ts@), i as int, lhs@, min as nat),
        r matches Some((_, j)) ==> j <= ts.len(),
    decreases ts.len() - i, 2int,
{
    if i < ts.len() {
        match infix_of(ts, i) {
            Some((op, p)) => if p >= min {
                match parse_expr_at(ts, i + 1, p + 1) {
                    Some((rhs, j)) => if i < j && j <= ts.len() {
                        return parse_infix_at(
                            ts,
                            j,
                            Expr::BinaryOp(op, Box::new(lhs), Box::new(rhs)),
                            min,
                        );
                    } else {
                        return None;
                    },
                    None => {
                        return None;
                    },
                }
            },
            None => {},
        }
    }
    Some((lhs, i))
}

fn parse_unary_at(ts: &Vec<Token>, i: usize) -> (r: Option<(Expr, usize)>)
    requires
        i <= ts.len(),
    ensures
        expr_result(r) == parse_unary(token_views(ts@), i as int),
        r matches Some((_, j)) ==> j <= ts.len(),
    decreases ts.len() - i, 1int,
{
    if i < ts.len() {
        match prefix_of(ts, i) {
            Some(op) => {
                return match parse_unary_at(ts, i + 1) {
                    Some((e, j)) => if i < j && j <= ts.len() {
                        Some((Expr::UnaryOp(op, Box::new(e), false), j))
                    } else {
                        None
                    },
                    None => None,
                };
            },
            None => {},
        }
    }
    match parse_primary_at(ts, i) {
        Some((e, j)) => if i < j && j <= ts.len() {
            Some(parse_postfix_at(ts, j, e))
        } else {
            None
        },
        None => None,
    }
}

fn parse_postfix_at(ts: &Vec<Token>, i: usize, e: Expr) -> (r: (Expr, usize))
    requires
        i <= ts.len(),
    ensures
        (r.0@, r.1 as int) == parse_postfix(token_views(ts@), i as int, e@),
        r.1 <= ts.len(),
    decreases ts.len() - i,
{
    if i < ts.len() {
        match postfix_of(ts, i) {
            Some(op) => {
                return parse_postfix_at(ts, i + 1, Expr::UnaryOp(op, Box::new(e), true));
            },
            None => {},
        }
    }
    (e, i)
}

fn parse_list_at(ts: &Vec<Token>, i: usize, acc: Vec<Expr>, paren: bool) -> (r: Option<
    (Vec<Expr>, usize),
>)
    requires
        i <= ts.len(),
    ensures
        (match r {
            Some((v, j)) => Some((expr_views(v@), j as int)),
            None => None,
        }) == parse_list(token_views(ts@), i as int, expr_views(acc@), closer(paren)),
        r matches Some((_, j)) ==> j <= ts.len(),
    decreases ts.len() - i, 3int,
{
    if acc.len() == 0 && at_close(ts, i, paren) {
        return Some((acc, i + 1));
    }
    match parse_expr_at(ts, i, 0) {
        Some((e, j)) => if i < j && j <= ts.len() {
            let ghost old_views = expr_views(acc@);
            let mut acc = acc;
            acc.push(e);
            assert(expr_views(acc@) =~= old_views.push(e@));
            if at_comma(ts, j) {
                parse_list_at(ts, j + 1, acc, paren)
            } else if at_close(ts, j, paren) {
                Some((acc, j + 1))
            } else {
                None
            }
        } else {
            None
        },
        None => None,
    }
}

fn parse_primary_at(ts: &Vec<Token>, i: usize) -> (r: Option<(Expr, usize)>)
    requires
        i <= ts.len(),
    ensures
        expr_result(r) == parse_primary(token_views(ts@), i as int),
        r matches Some((_, j)) ==> j <= ts.len(),
    decreases ts.len() - i, 0int,
{
    if i >= ts.len() {
        return None;
    }
    assert(token_views(ts@)[i as int] == ts@[i as int]@);
    match &ts[i] {
        Token::Number(b) => Some((Expr::Number(*b), i + 1)),
        Token::Str(s) => Some((Expr::String(s.clone()), i + 1)),
        Token::True => Some((Expr::Bool(true), i + 1)),
        Token::False => Some((Expr::Bool(false), i + 1)),
        Token::Ident(n) => if at_lparen(ts, i + 1) {
            let empty: Vec<Expr> = Vec::new();
            assert(expr_views(empty@) =~= seq![]);
            match parse_list_at(ts, i + 2, empty, true) {
                Some((args, j)) => {
                    let r = Expr::FuncCall(n.clone(), args);
                    assert(r@->FuncCall_1 =~= expr_views(args@));
                    Some((r, j))
                },
                None => None,
            }
        } else if at_lbracket(ts, i + 1) {
            match parse_expr_at(ts, i + 2, 0) {
                Some((index, j)) => if at_close(ts, j, false) {
                    Some((Expr::ArrayAccess(n.clone(), Box::new(index)), j + 1))
                } else {
                    None
                },
                None => None,
            }
        } else {
            Some((Expr::Identifier(n.clone()), i + 1))
        },
        Token::LParen => match parse_expr_at(ts, i + 1, 0) {
            Some((e, j)) => if at_close(ts, j, true) {
                Some((e, j + 1))
            } else {
                None
            },
            None => None,
        },
        Token::LBracket => {
            let empty: Vec<Expr> = Vec::new();
            assert(expr_views(empty@) =~= seq![]);
            match parse_list_at(ts, i + 1, empty, false) {
                Some((elems, j)) => {
                    let r = Expr::Array(elems);
                    assert(r@->Array_0 =~= expr_views(elems@));
                    Some((r, j))
                },
                None => None,
            }
        },
        _ => None,
    }
}

/// The model of a statement parse.
pub open spec fn stmt_result(r: Option<(Stmt, usize)>) -> Option<(StmtView, int)> {
    match r {
        Some((s, j)) => Some((s@, j as int)),
        None => None,
    }
}

fn at_token_kind(ts: &Vec<Token>, i: usize, kind: &Token) -> (r: bool)
    ensures
        r == (0 <= i < ts.len() && (match (ts@[i as int], *kind) {
            (Token::LBrace, Token::LBrace) => true,
            (Token::RBrace, Token::RBrace) => true,
            (Token::RParen, Token::RParen) => true,
            (Token::Semicolon, Token::Semicolon) => true,
            (Token::Assign, Token::Assign) => true,
            (Token::Else, Token::Else) => true,
            _ => false,
        })),
{
    if i >= ts.len() {
        return false;
    }
    match (&ts[i], kind) {
        (Token::LBrace, Token::LBrace) => true,
        (Token::RBrace, Token::RBrace) => true,
        (Token::RParen, Token::RParen) => true,
        (Token::Semicolon, Token::Semicolon) => true,
        (Token::Assign, Token::Assign) => true,
        (Token::Else, Token::Else) => true,
        _ => false,
    }
}

fn array_suffix_at(ts: &Vec<Token>, i: usize, t: Type) -> (r: (Type, usize))
    requires
        i <= ts.len(),
    ensures
        (r.0, r.1 as int) == array_suffix(token_views(ts@), i as int, t),
        i <= r.1 <= ts.len(),
    decreases ts.len() - i,
{
    if at_lbracket(ts, i) && at_close(ts, i + 1, false) {
        array_suffix_at(ts, i + 2, Type::Array(Box::new(t)))
    } else {
        (t, i)
    }
}

fn parse_type_at(ts: &Vec<Token>, i: usize) -> (r: Option<(Type, usize)>)
    requires
        i <= ts.len(),
    ensures
        (match r {
            Some((t, j)) => Some((t, j as int)),
            None => None,
        }) == parse_type(token_views(ts@), i as int),
        r matches Some((_, j)) ==> i < j <= ts.len(),
{
    if i >= ts.len() {
        return None;
    }
    assert(token_views(ts@)[i as int] == ts@[i as int]@);
    let base = match &ts[i] {
        Token::TypeNum => Type::Number,
        Token::TypeStr => Type::String,
        Token::TypeBool => Type::Boolean,
        Token::TypeVoid => Type::Void,
        Token::TypeObj => Type::Object,
        _ => {
            return None;
        },
    };
    Some(array_suffix_at(ts, i + 1, base))
}

fn ident_at(ts: &Vec<Token>, i: usize) -> (r: Option<String>)
    ensures
        (match r {
            Some(n) => 0 <= i < ts.len() && token_views(ts@)[i as int] == TokenView::Ident(n@),
            None => !(0 <= i < ts.len() && token_views(ts@)[i as int] is Ident),
        }),
{
    if i >= ts.len() {
        return None;
    }
    match &ts[i] {
        Token::Ident(n) => Some(n.clone()),
        _ => None,
    }
}

fn parse_params_at(ts: &Vec<Token>, i: usize, acc: Vec<(Type, String)>) -> (r: Option<
    (Vec<(Type, String)>, usize),
>)
    requires
        i <= ts.len(),
    ensures
        (match r {
            Some((v, j)) => Some((param_views(v@), j as int)),
            None => None,
        }) == parse_params(token_views(ts@), i as int, param_views(acc@)),
        r matches Some((_, j)) ==> i < j <= ts.len(),
    decreases ts.len() - i,
{
    let rp = Token::RParen;
    if acc.len() == 0 && at_token_kind(ts, i, &rp) {
        return Some((acc, i + 1));
    }
    match parse_type_at(ts, i) {
        Some((t, j)) => match ident_at(ts, j) {
            Some(n) => {
                let ghost old_views = param_views(acc@);
                let ghost nv = n@;
                let mut acc = acc;
                acc.push((t, n));
                assert(param_views(acc@) =~= old_views.push((t, nv)));
                if at_comma(ts, j + 1) {
                    parse_params_at(ts, j + 2, acc)
                } else if at_token_kind(ts, j + 1, &rp) {
                    Some((acc, j + 2))
                } else {
                    None
                }
            },
            None => None,
        },
        None => None,
    }
}

fn parse_types_at(ts: &Vec<Token>, i: usize, acc: Vec<Type>) -> (r: Option<(Vec<Type>, usize)>)
    requires
        i <= ts.len(),
    ensures
        (match r {
            Some((v, j)) => Some((v@, j as int)),
            None => None,
        }) == parse_types(token_views(ts@), i as int, acc@),
        r matches Some((_, j)) ==> i < j <= ts.len(),
    decreases ts.len() - i,
{
    let rp = Token::RParen;
    if acc.len() == 0 && at_token_kind(ts, i, &rp) {
        return Some((acc, i + 1));
    }
    match parse_type_at(ts, i) {
        Some((t, j)) => {
            let mut acc = acc;
            acc.push(t);
            if at_comma(ts, j) {
                parse_types_at(ts, j + 1, acc)
            } else if at_token_kind(ts, j, &rp) {
                Some((acc, j + 1))
            } else {
                None
            }
        },
        None => None,
    }
}

fn parse_var_decl_at(ts: &Vec<Token>, i: usize) -> (r: Option<(Stmt, usize)>)
    requires
        i <= ts.len(),
    ensures
        stmt_result(r) == parse_var_decl(token_views(ts@), i as int),
        r matches Some((_, j)) ==> j <= ts.len(),
{
    let assign = Token::Assign;
    match parse_type_at(ts, i) {
        Some((t, j)) => match ident_at(ts, j) {
            Some(n) => if at_token_kind(ts, j + 1, &assign) {
                match parse_expr_at(ts, j + 2, 0) {
                    Some((e, k)) => Some((Stmt::VarDecl(t, n, Some(e)), k)),
                    None => None,
                }
            } else {
                Some((Stmt::VarDecl(t, n, None), j + 1))
            },
            None => None,
        },
        None => None,
    }
}

fn parse_assignment_at(ts: &Vec<Token>, i: usize) -> (r: Option<(Stmt, usize)>)
    requires
        i <= ts.len(),
    ensures
        stmt_result(r) == parse_assignment(token_views(ts@), i as int),
        r matches Some((_, j)) ==> j <= ts.len(),
{
    let assign = Token::Assign;
    match ident_at(ts, i) {
        Some(n) => if at_token_kind(ts, i + 1, &assign) {
            match parse_expr_at(ts, i + 2, 0) {
                Some((e, j)) => Some((Stmt::Assign(n, e), j)),
                None => None,
            }
        } else {
            None
        },
        None => None,
    }
}

fn then_semi(ts: &Vec<Token>, r: Option<(Stmt, usize)>) -> (o: Option<(Stmt, usize)>)
    requires
        r matches Some((_, j)) ==> j <= ts.len(),
    ensures
        stmt_result(o) == then_semicolon(token_views(ts@), stmt_result(r)),
        o matches Some((_, j)) ==> j <= ts.len(),
        r matches Some((_, j)) ==> (o matches Some((_, k)) ==> k == j + 1),
{
    let semi = Token::Semicolon;
    match r {
        Some((s, j)) => if at_token_kind(ts, j, &semi) {
            Some((s, j + 1))
        } else {
            None
        },
        None => None,
    }
}

fn parse_declaration_at(ts: &Vec<Token>, i: usize) -> (r: Option<(Stmt, usize)>)
    requires
        i <= ts.len(),
    ensures
        stmt_result(r) == parse_declaration(token_views(ts@), i as int),
        r matches Some((_, j)) ==> j <= ts.len(),
    decreases ts.len() - i, 1int,
{
    let lb = Token::LBrace;
    let semi = Token::Semicolon;
    match parse_type_at(ts, i) {
        Some((t, j)) => match ident_at(ts, j) {
            Some(n) => if at_lparen(ts, j + 1) {
                let empty: Vec<(Type, String)> = Vec::new();
                assert(param_views(empty@) =~= seq![]);
                match parse_params_at(ts, j + 2, empty) {
                    Some((ps, k)) if at_token_kind(ts, k, &lb) && i < k => {
                        match parse_block_at(ts, k) {
                            Some((body, m)) => {
                                let r = Stmt::FuncDef(t, n, ps, Box::new(body));
                                Some((r, m))
                            },
                            None => None,
                        }
                    },
                    _ => {
                        let no_types: Vec<Type> = Vec::new();
                        assert(no_types@ =~= seq![]);
                        match parse_types_at(ts, j + 2, no_types) {
                            Some((tys, k)) => if at_token_kind(ts, k, &semi) {
                                Some((Stmt::FuncDecl(t, n, tys), k + 1))
                            } else {
                                None
                            },
                            None => None,
                        }
                    },
                }
            } else {
                then_semi(ts, parse_var_decl_at(ts, i))
            },
            None => None,
        },
        None => None,
    }
}

fn parse_block_at(ts: &Vec<Token>, i: usize) -> (r: Option<(Stmt, usize)>)
    requires
        i <= ts.len(),
    ensures
        stmt_result(r) == parse_block(token_views(ts@), i as int),
        r matches Some((_, j)) ==> j <= ts.len(),
    decreases ts.len() - i, 0int,
{
    let lb = Token::LBrace;
    if at_token_kind(ts, i, &lb) {
        let empty: Vec<Stmt> = Vec::new();
        assert(stmt_views(empty@) =~= seq![]);
        parse_stmts_at(ts, i + 1, empty)
    } else {
        None
    }
}

fn parse_stmts_at(ts: &Vec<Token>, i: usize, acc: Vec<Stmt>) -> (r: Option<(Stmt, usize)>)
    requires
        i <= ts.len(),
    ensures
        stmt_result(r) == parse_stmts(token_views(ts@), i as int, stmt_views(acc@)),
        r matches Some((_, j)) ==> j <= ts.len(),
    decreases ts.len() - i, 3int,
{
    let rb = Token::RBrace;
    if at_token_kind(ts, i, &rb) {
        let r = Stmt::Block(acc);
        assert(r@->Block_0 =~= stmt_views(acc@));
        return Some((r, i + 1));
    }
    if i >= ts.len() {
        return None;
    }
    match parse_stmt_at(ts, i) {
        Some((st, j)) => if i < j && j <= ts.len() {
            let ghost old_views = stmt_views(acc@);
            let mut acc = acc;
            acc.push(st);
            assert(stmt_views(acc@) =~= old_views.push(st@));
            parse_stmts_at(ts, j, acc)
        } else {
            None
        },
        None => None,
    }
}

fn parse_if_at(ts: &Vec<Token>, i: usize) -> (r: Option<(Stmt, usize)>)
    requires
        i < ts.len(),
    ensures
        stmt_result(r) == parse_if(token_views(ts@), i as int),
        r matches Some((_, j)) ==> j <= ts.len(),
    decreases ts.len() - i, 1int,
{
    let rp = Token::RParen;
    let else_kw = Token::Else;
    if at_lparen(ts, i + 1) {
        match parse_expr_at(ts, i + 2, 0) {
            Some((c, j)) => if at_token_kind(ts, j, &rp) && i < j {
                match parse_block_at(ts, j + 1) {
                    Some((a, k)) => if at_token_kind(ts, k, &else_kw) && i < k {
                        match parse_block_at(ts, k + 1) {
                            Some((b, m)) => Some(
                                (Stmt::If(c, Box::new(a), Some(Box::new(b))), m),
                            ),
                            None => None,
                        }
                    } else {
                        Some((Stmt::If(c, Box::new(a), None), k))
                    },
                    None => None,
                }
            } else {
                None
            },
            None => None,
        }
    } else {
        None
    }
}

fn parse_for_at(ts: &Vec<Token>, i: usize) -> (r: Option<(Stmt, usize)>)
    requires
        i < ts.len(),
    ensures
        stmt_result(r) == parse_for(token_views(ts@), i as int),
        r matches Some((_, j)) ==> j <= ts.len(),
    decreases ts.len() - i, 1int,
{
    let rp = Token::RParen;
    let semi = Token::Semicolon;
    if at_lparen(ts, i + 1) {
        match parse_var_decl_at(ts, i + 2) {
            Some((init, j)) => if at_token_kind(ts, j, &semi) {
                match parse_expr_at(ts, j + 1, 0) {
                    Some((c, k)) => if at_token_kind(ts, k, &semi) {
                        match parse_assignment_at(ts, k + 1) {
                            Some((step, m)) => if at_token_kind(ts, m, &rp) && i < m {
                                match parse_block_at(ts, m + 1) {
                                    Some((b, n)) => Some(
                                        (
                                            Stmt::For(
                                                Box::new(init),
                                                c,
                                                Box::new(step),
                                                Box::new(b),
                                            ),
                                            n,
                                        ),
                                    ),
                                    None => None,
                                }
                            } else {
                                None
                            },
                            None => None,
                        }
                    } else {
                        None
                    },
                    None => None,
                }
            } else {
                None
            },
            None => None,
        }
    } else {
        None
    }
}

fn parse_while_at(ts: &Vec<Token>, i: usize) -> (r: Option<(Stmt, usize)>)
    requires
        i < ts.len(),
    ensures
        stmt_result(r) == parse_while(token_views(ts@), i as int),
        r matches Some((_, j)) ==> j <= ts.len(),
    decreases ts.len() - i, 1int,
{
    let rp = Token::RParen;
    if at_lparen(ts, i + 1) {
        match parse_expr_at(ts, i + 2, 0) {
            Some((c, j)) => if at_token_kind(ts, j, &rp) && i < j {
                match parse_block_at(ts, j + 1) {
                    Some((b, k)) => Some((Stmt::While(c, Box::new(b)), k)),
                    None => None,
                }
            } else {
                None
            },
            None => None,
        }
    } else {
        None
    }
}

fn parse_stmt_at(ts: &Vec<Token>, i: usize) -> (r: Option<(Stmt, usize)>)
    requires
        i <= ts.len(),
    ensures
        stmt_result(r) == parse_stmt(token_views(ts@), i as int),
        r matches Some((_, j)) ==> j <= ts.len(),
    decreases ts.len() - i, 2int,
{
    if i >= ts.len() {
        return None;
    }
    assert(token_views(ts@)[i as int] == ts@[i as int]@);
    let assign = Token::Assign;
    match &ts[i] {
        Token::TypeNum | Token::TypeStr | Token::TypeBool | Token::TypeVoid | Token::TypeObj => {
            parse_declaration_at(ts, i)
        },
        Token::LBrace => parse_block_at(ts, i),
        Token::Return => match parse_expr_at(ts, i + 1, 0) {
            Some((e, j)) => then_semi(ts, Some((Stmt::Return(e), j))),
            None => None,
        },
        Token::Break => then_semi(ts, Some((Stmt::Break, i + 1))),
        Token::Continue => then_semi(ts, Some((Stmt::Continue, i + 1))),
        Token::If => parse_if_at(ts, i),
        Token::For => parse_for_at(ts, i),
        Token::While => parse_while_at(ts, i),
        Token::Ident(_) => if at_token_kind(ts, i + 1, &assign) {
            then_semi(ts, parse_assignment_at(ts, i))
        } else {
            match parse_expr_at(ts, i, 0) {
                Some((e, j)) => then_semi(ts, Some((Stmt::Expr(e), j))),
                None => None,
            }
        },
        _ => match parse_expr_at(ts, i, 0) {
            Some((e, j)) => then_semi(ts, Some((Stmt::Expr(e), j))),
            None => None,
        },
    }
}


/// The recognizer of the source grammar: text to tokens, tokens to a tree.
pub struct CLikeParser;

impl CLikeParser {
    /// Splits a source text into tokens; fails exactly where the text has no
    /// tokenization.
    pub fn tokenize(src: &str) -> (r: Result<Vec<Token>, ParserError>)
        ensures
            r matches Ok(ts) ==> lex(src@) == Some(token_views(ts@)),
            lex(src@) is None <==> r is Err,
    {
        let cs = chars_of(src);
        let ghost s = cs@;
        let mut out: Vec<Token> = Vec::new();
        let mut i: usize = 0;
        assert(token_views(out@) =~= seq![]);
        assert(after(seq![], lex_from(s, 0)) == lex_from(s, 0));
        while i < cs.len()
            invariant
                i <= cs.len(),
                s == cs@,
                s == src@,
                lex(s) == after(token_views(out@), lex_from(s, i as int)),
            decreases cs.len() - i,
        {
            let ghost before = token_views(out@);
            let c = cs[i];
            let mut emitted: Option<Token> = None;
            let next: usize;
            if c == ' ' || c == '\t' || c == '\n' || c == '\r' {
                next = i + 1;
            } else if c == '/' && i + 1 < cs.len() && cs[i + 1] == '/' {
                let j = scan_line(&cs, i);
                if j <= i {
                    assert(lex_from(s, i as int) is None);
                    return Err(ParserError::ParseFailure);
                }
                next = j;
            } else if digit_char(c) {
                let j = scan_digits(&cs, i);
                let k = if j < cs.len() - 1 && cs[j] == '.' && digit_char(cs[j + 1]) {
                    scan_digits(&cs, j + 1)
                } else {
                    j
                };
                if k <= i {
                    assert(lex_from(s, i as int) is None);
                    return Err(ParserError::ParseFailure);
                }
                let text = text_of(&cs, i, k);
                proof {
                    lemma_number_text(s, i as int);
                }
                assert(k == number_end(s, i as int));
                match double_from_decimal(text.as_str()) {
                    Some(b) => {
                        emitted = Some(Token::Number(b));
                    },
                    None => {
                        return Err(ParserError::ParseFailure);
                    },
                }
                next = k;
            } else if c == '"' {
                let j = scan_quote(&cs, i + 1);
                if j >= cs.len() {
                    assert(lex_from(s, i as int) is None);
                    return Err(ParserError::ParseFailure);
                }
                emitted = Some(Token::Str(text_of(&cs, i + 1, j)));
                next = j + 1;
            } else if ident_start_char(c) {
                let j = scan_ident(&cs, i);
                if j <= i {
                    assert(lex_from(s, i as int) is None);
                    return Err(ParserError::ParseFailure);
                }
                emitted = Some(word(text_of(&cs, i, j)));
                next = j;
            } else {
                let two = if i + 1 < cs.len() {
                    two_char(c, cs[i + 1])
                } else {
                    None
                };
                match two {
                    Some(op) => {
                        emitted = Some(Token::Op(op));
                        next = i + 2;
                    },
                    None => {
                        match one_char(c) {
                            Some(t) => {
                                emitted = Some(t);
                                next = i + 1;
                            },
                            None => {
                                assert(lex_from(s, i as int) is None);
                                return Err(ParserError::ParseFailure);
                            },
                        }
                    },
                }
            }
            match emitted {
                Some(t) => {
                    assert(lex_from(s, i as int) == prepend(t@, lex_from(s, next as int)));
                    out.push(t);
                    assert(token_views(out@) =~= before.push(t@));
                    assert(after(before, prepend(t@, lex_from(s, next as int))) == after(
                        token_views(out@),
                        lex_from(s, next as int),
                    )) by {
                        if let Some(rest) = lex_from(s, next as int) {
                            assert(before + (seq![t@] + rest) =~= before.push(t@) + rest);
                        }
                    }
                },
                None => {
                    assert(lex_from(s, i as int) == lex_from(s, next as int));
                },
            }
            i = next;
        }
        assert(token_views(out@) + seq![] =~= token_views(out@));
        Ok(out)
    }

    /// Parses a token sequence into a program, or fails with `ParseFailure`
    /// where the tokens are not a program.
    pub fn parse_tokens(ts: &Vec<Token>) -> (r: Result<Stmt, ParserError>)
        ensures
            match r {
                Ok(p) => parse_program(token_views(ts@)) == Some(p@),
                Err(e) => parse_program(token_views(ts@)) is None && e is ParseFailure,
            },
    {
        let ghost tv = token_views(ts@);
        let mut acc: Vec<Stmt> = Vec::new();
        let mut i: usize = 0;
        assert(stmt_views(acc@) =~= seq![]);
        while i < ts.len()
            invariant
                i <= ts.len(),
                tv == token_views(ts@),
                parse_program(tv) == parse_top(tv, i as int, stmt_views(acc@)),
            decreases ts.len() - i,
        {
            match parse_stmt_at(ts, i) {
                Some((st, j)) => if i < j && j <= ts.len() {
                    let ghost old_views = stmt_views(acc@);
                    acc.push(st);
                    assert(stmt_views(acc@) =~= old_views.push(st@));
                    i = j;
                } else {
                    return Err(ParserError::ParseFailure);
                },
                None => {
                    return Err(ParserError::ParseFailure);
                },
            }
        }
        let r = Stmt::Program(acc);
        assert(r@->Program_0 =~= stmt_views(acc@));
        Ok(r)
    }
}

/// Parses a source text into a program; `ParseFailure` exactly where the
/// text is no program of the grammar.
pub fn parse(src: String) -> (r: Result<Stmt, ParserError>)
    ensures
        match r {
            Ok(p) => parse_text(src@) == Some(p@),
            Err(e) => parse_text(src@) is None && e is ParseFailure,
        },
{
    let text = src.as_str();
    assert(text@ == src@);
    match CLikeParser::tokenize(text) {
        Ok(ts) => {
            assert(parse_text(src@) == parse_program(token_views(ts@)));
            CLikeParser::parse_tokens(&ts)
        },
        Err(_) => Err(ParserError::ParseFailure),
    }
}

} // verus!
