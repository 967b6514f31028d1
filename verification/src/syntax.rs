//! Operators and literals shared by every stage of the language.

use vstd::prelude::*;

use crate::text;

verus! {

/// The binary operators of the language.
#[derive(Debug, Clone, Copy, PartialEq, Eq, Structural)]
pub enum BinOp {
    /// Addition operator.
    Add,
    /// Subtraction operator.
    Sub,
    /// Multiplication operator.
    Mul,
    /// Division operator.
    Div,
    /// Remainder operator.
    Rem,
    /// Logical conjunction, evaluated left to right and only as far as needed.
    And,
    /// Logical disjunction, evaluated left to right and only as far as needed.
    Or,
    /// Bitwise conjunction.
    BitAnd,
    /// Bitwise disjunction.
    BitOr,
    /// Bitwise exclusive disjunction.
    BitXor,
    /// Right-shift operator.
    Shr,
    /// Left-shift operator.
    Shl,
    /// Equality operator.
    Eq,
    /// Inequality operator.
    Neq,
    /// Less-than operator.
    Lt,
    /// Greater-than operator.
    Gt,
    /// Less-than-or-equal operator.
    Lte,
    /// Greater-than-or-equal operator.
    Gte,
}

/// The unary operators of the language.
#[derive(Debug, Clone, Copy, PartialEq, Eq, Structural)]
pub enum UnOp {
    /// Arithmetic negation.
    Neg,
    /// Logical negation.
    Not,
}

/// The literal values of the language.
#[derive(Debug, Clone, Copy, PartialEq, Eq, Structural)]
pub enum Literal {
    /// Boolean literal.
    Bool(bool),
    /// Unit literal.
    Unit,
    /// Numeric literal.
    Number(i64),
}

impl Literal {
    /// The integer that stands for this literal on the operand stack: the
    /// number itself, `1` and `0` for `true` and `false`, `0` for unit.
    pub open spec fn encoding(self) -> i64 {
        match self {
            Literal::Bool(true) => 1,
            Literal::Bool(false) => 0,
            Literal::Number(n) => n,
            Literal::Unit => 0,
        }
    }

    /// Computes [`Literal::encoding`].
    pub fn encode(&self) -> (n: i64)
        ensures
            n == self.encoding(),
    {
        match self {
            Literal::Bool(true) => 1,
            Literal::Bool(false) => 0,
            Literal::Number(n) => *n,
            Literal::Unit => 0,
        }
    }
}

impl BinOp {
    /// The operator as it is written.
    pub open spec fn text(self) -> Seq<char> {
        match self {
            BinOp::Add => "+"@,
            BinOp::Sub => "-"@,
            BinOp::Mul => "*"@,
            BinOp::Div => "/"@,
            BinOp::Rem => "%"@,
            BinOp::And => "&&"@,
            BinOp::Or => "||"@,
            BinOp::BitAnd => "&"@,
            BinOp::BitOr => "|"@,
            BinOp::BitXor => "^"@,
            BinOp::Shr => ">>"@,
            BinOp::Shl => "<<"@,
            BinOp::Eq => "=="@,
            BinOp::Neq => "!="@,
            BinOp::Lt => "<"@,
            BinOp::Gt => ">"@,
            BinOp::Lte => "<="@,
            BinOp::Gte => ">="@,
        }
    }

    /// The operator as it is written.
    pub fn to_string(&self) -> (s: String)
        ensures
            s@ == self.text(),
    {
        match self {
            BinOp::Add => "+".to_owned(),
            BinOp::Sub => "-".to_owned(),
            BinOp::Mul => "*".to_owned(),
            BinOp::Div => "/".to_owned(),
            BinOp::Rem => "%".to_owned(),
            BinOp::And => "&&".to_owned(),
            BinOp::Or => "||".to_owned(),
            BinOp::BitAnd => "&".to_owned(),
            BinOp::BitOr => "|".to_owned(),
            BinOp::BitXor => "^".to_owned(),
            BinOp::Shr => ">>".to_owned(),
            BinOp::Shl => "<<".to_owned(),
            BinOp::Eq => "==".to_owned(),
            BinOp::Neq => "!=".to_owned(),
            BinOp::Lt => "<".to_owned(),
            BinOp::Gt => ">".to_owned(),
            BinOp::Lte => "<=".to_owned(),
            BinOp::Gte => ">=".to_owned(),
        }
    }
}

impl UnOp {
    /// The operator as it is written.
    pub open spec fn text(self) -> Seq<char> {
        match self {
            UnOp::Not => "!"@,
            UnOp::Neg => "-"@,
        }
    }

    /// The operator as it is written.
    pub fn to_string(&self) -> (s: String)
        ensures
            s@ == self.text(),
    {
        match self {
            UnOp::Not => "!".to_owned(),
            UnOp::Neg => "-".to_owned(),
        }
    }
}

impl Literal {
    /// The literal as it is written: `true` or `false`, `unit`, or the
    /// number in decimal.
    pub open spec fn text(self) -> Seq<char> {
        match self {
            Literal::Bool(true) => "true"@,
            Literal::Bool(false) => "false"@,
            Literal::Unit => "unit"@,
            Literal::Number(n) => text::letters(text::decimal(n as int)),
        }
    }

    /// The literal as it is written.
    pub fn to_string(&self) -> (s: String)
        ensures
            s@ == self.text(),
    {
        match self {
            Literal::Bool(true) => "true".to_owned(),
            Literal::Bool(false) => "false".to_owned(),
            Literal::Unit => "unit".to_owned(),
            Literal::Number(n) => {
                let mut s = String::new();
                text::append_decimal(&mut s, *n);
                assert(s@ =~= self.text());
                s
            },
        }
    }
}

impl From<i64> for Literal {
    fn from(n: i64) -> (literal: Self) {
        Literal::Number(n)
    }
}

impl vstd::std_specs::convert::FromSpecImpl<i64> for Literal {
    open spec fn obeys_from_spec() -> bool {
        true
    }

    open spec fn from_spec(n: i64) -> Self {
        Literal::Number(n)
    }
}

impl From<bool> for Literal {
    fn from(b: bool) -> (literal: Self) {
        Literal::Bool(b)
    }
}

impl vstd::std_specs::convert::FromSpecImpl<bool> for Literal {
    open spec fn obeys_from_spec() -> bool {
        true
    }

    open spec fn from_spec(b: bool) -> Self {
        Literal::Bool(b)
    }
}

/// The primitives of the language that are no operators.
#[derive(Debug, Clone, Copy, PartialEq, Eq, Structural)]
pub enum Primitive {
    /// The built-in `print`.
    Print,
}

impl Primitive {
    /// The primitive as it is written.
    pub open spec fn text(self) -> Seq<char> {
        match self {
            Primitive::Print => "print"@,
        }
    }

    /// The primitive as it is written.
    pub fn to_string(&self) -> (s: String)
        ensures
            s@ == self.text(),
    {
        match self {
            Primitive::Print => "print".to_owned(),
        }
    }
}

} // verus!
