use vstd::prelude::*;

verus! {

/// The operators shared by the source and the target language.
#[derive(Debug, Clone, Copy, PartialEq, Eq, Structural)]
pub enum Operator {
    Add,
    Sub,
    Mul,
    Div,
    Mod,
    Inc,
    Dec,
    Neg,
    Not,
    And,
    Or,
    Eq,
    Neq,
    Lt,
    Gt,
    Lte,
    Gte,
}

/// The fixed textual rendering of an operator.
pub open spec fn operator_text(op: Operator) -> Seq<char> {
    match op {
        Operator::Add => seq!['+'],
        Operator::Sub => seq!['-'],
        Operator::Mul => seq!['*'],
        Operator::Div => seq!['/'],
        Operator::Mod => seq!['%'],
        Operator::Inc => seq!['+', '+'],
        Operator::Dec => seq!['-', '-'],
        Operator::Neg => seq!['-'],
        Operator::Not => seq!['!'],
        Operator::And => seq!['&', '&'],
        Operator::Or => seq!['|', '|'],
        Operator::Eq => seq!['=', '='],
        Operator::Neq => seq!['!', '='],
        Operator::Lt => seq!['<'],
        Operator::Gt => seq!['>'],
        Operator::Lte => seq!['<', '='],
        Operator::Gte => seq!['>', '='],
    }
}

impl Operator {
    pub fn to_string(&self) -> (r: String)
        ensures
            r@ == operator_text(*self),
    {
        let s = match self {
            Operator::Add => "+",
            Operator::Sub => "-",
            Operator::Mul => "*",
            Operator::Div => "/",
            Operator::Mod => "%",
            Operator::Inc => "++",
            Operator::Dec => "--",
            Operator::Neg => "-",
            Operator::Not => "!",
            Operator::And => "&&",
            Operator::Or => "||",
            Operator::Eq => "==",
            Operator::Neq => "!=",
            Operator::Lt => "<",
            Operator::Gt => ">",
            Operator::Lte => "<=",
            Operator::Gte => ">=",
        };
        proof {
            reveal_strlit("+");
            reveal_strlit("-");
            reveal_strlit("*");
            reveal_strlit("/");
            reveal_strlit("%");
            reveal_strlit("++");
            reveal_strlit("--");
            reveal_strlit("!");
            reveal_strlit("&&");
            reveal_strlit("||");
            reveal_strlit("==");
            reveal_strlit("!=");
            reveal_strlit("<");
            reveal_strlit(">");
            reveal_strlit("<=");
            reveal_strlit(">=");
        }
        String::from_str(s)
    }
}

/// Whether two strings hold the same characters.
pub fn str_equal(a: &str, b: &str) -> (r: bool)
    ensures
        r == (a@ == b@),
{
    let n = a.unicode_len();
    if n != b.unicode_len() {
        return false;
    }
    let mut i: usize = 0;
    while i < n
        invariant
            i <= n,
            n == a@.len(),
            n == b@.len(),
            a@.subrange(0, i as int) == b@.subrange(0, i as int),
        decreases n - i,
    {
        if a.get_char(i) != b.get_char(i) {
            assert(a@[i as int] != b@[i as int]);
            return false;
        }
        assert(a@.subrange(0, i + 1) =~= a@.subrange(0, i as int).push(a@[i as int]));
        assert(b@.subrange(0, i + 1) =~= b@.subrange(0, i as int).push(b@[i as int]));
        i = i + 1;
    }
    assert(a@ =~= a@.subrange(0, n as int));
    assert(b@ =~= b@.subrange(0, n as int));
    true
}

/// The model of an expression tree, shared by the source and the target language.
/// A number is held as the bit pattern of an IEEE-754 double.
pub enum ExprView {
    Number(u64),
    Bool(bool),
    Str(Seq<char>),
    Array(Seq<ExprView>),
    ArrayAccess(Seq<char>, Box<ExprView>),
    Identifier(Seq<char>),
    UnaryOp(Operator, Box<ExprView>, bool),
    BinaryOp(Operator, Box<ExprView>, Box<ExprView>),
    FuncCall(Seq<char>, Seq<ExprView>),
}

} // verus!
