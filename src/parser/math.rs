use vstd::prelude::*;

use crate::tokenise::{Token, TokenType};

verus! {

/// An arithmetic expression: a literal, a variable, or an operation on two
/// sub-expressions.
#[derive(Debug)]
pub enum MathValue {
    Integer(Token),
    Identifier(Token),
    Operation(Box<OperationType>),
}

/// A binary operation.
#[derive(Debug)]
pub enum OperationType {
    Add(NodeMathAdd),
    Sub(NodeMathSub),
    Mult(NodeMathMult),
    Div(NodeMathDiv),
}

#[derive(Debug)]
pub struct NodeMathAdd {
    pub value_1: MathValue,
    pub value_2: MathValue,
}

#[derive(Debug)]
pub struct NodeMathSub {
    pub value_1: MathValue,
    pub value_2: MathValue,
}

#[derive(Debug)]
pub struct NodeMathMult {
    pub value_1: MathValue,
    pub value_2: MathValue,
}

#[derive(Debug)]
pub struct NodeMathDiv {
    pub value_1: MathValue,
    pub value_2: MathValue,
}

/// A negation; the grammar has no form that produces it yet.
#[derive(Debug)]
pub struct NodeMathNegate {
    pub value: MathValue,
}

/// Whether a token may stand in an arithmetic expression.
pub open spec fn is_math_kind(k: TokenType) -> bool {
    k == TokenType::ParenOpen || k == TokenType::ParenClose || k == TokenType::Plus || k
        == TokenType::Minus || k == TokenType::Star || k == TokenType::ForwardsSlash || k
        == TokenType::IntegerLit || k == TokenType::Identifier
}

/// Whether a token may stand in an arithmetic expression.
pub fn is_math_token(k: TokenType) -> (r: bool)
    ensures
        r == is_math_kind(k),
{
    match k {
        TokenType::ParenOpen | TokenType::ParenClose | TokenType::Plus | TokenType::Minus
        | TokenType::Star | TokenType::ForwardsSlash | TokenType::IntegerLit
        | TokenType::Identifier => true,
        _ => false,
    }
}

/// The value of a decimal literal.
pub open spec fn literal_value(s: Seq<char>) -> int
    decreases s.len(),
{
    if s.len() == 0 {
        0
    } else {
        literal_value(s.drop_last()) * 10 + (s.last() as int - '0' as int)
    }
}

/// Integer division that rounds toward zero, and gives zero for a zero divisor.
pub open spec fn quotient(a: int, b: int) -> int {
    let q = (if a >= 0 { a } else { -a }) / (if b >= 0 { b } else { -b });
    if b == 0 {
        0
    } else if (a >= 0) == (b > 0) {
        q
    } else {
        -q
    }
}

/// The operation with the given operator token applied to two values.
pub open spec fn apply(op: TokenType, a: int, b: int) -> int {
    if op == TokenType::Plus {
        a + b
    } else if op == TokenType::Minus {
        a - b
    } else if op == TokenType::Star {
        a * b
    } else {
        quotient(a, b)
    }
}

/// The value of an expression, with `env` giving each variable's value.
pub open spec fn eval(e: MathValue, env: spec_fn(Seq<char>) -> int) -> int
    decreases e,
{
    match e {
        MathValue::Integer(t) => literal_value(t.info@),
        MathValue::Identifier(t) => env(t.info@),
        MathValue::Operation(op) => match *op {
            OperationType::Add(n) => eval(n.value_1, env) + eval(n.value_2, env),
            OperationType::Sub(n) => eval(n.value_1, env) - eval(n.value_2, env),
            OperationType::Mult(n) => eval(n.value_1, env) * eval(n.value_2, env),
            OperationType::Div(n) => quotient(eval(n.value_1, env), eval(n.value_2, env)),
        },
    }
}

/// The operation node that an operator token builds over two operands.
pub open spec fn combine(op: TokenType, a: MathValue, b: MathValue) -> MathValue {
    MathValue::Operation(
        Box::new(
            if op == TokenType::Plus {
                OperationType::Add(NodeMathAdd { value_1: a, value_2: b })
            } else if op == TokenType::Minus {
                OperationType::Sub(NodeMathSub { value_1: a, value_2: b })
            } else if op == TokenType::Star {
                OperationType::Mult(NodeMathMult { value_1: a, value_2: b })
            } else {
                OperationType::Div(NodeMathDiv { value_1: a, value_2: b })
            },
        ),
    )
}

} // verus!
