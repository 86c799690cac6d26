use vstd::prelude::*;

use crate::errors::{Error, ErrorKind, Failure};
use crate::tokenise::{Token, TokenType};

use super::math::{
    apply, combine, eval, literal_value, MathValue, NodeMathAdd, NodeMathDiv, NodeMathMult, NodeMathSub, OperationType,
};

verus! {

/// `+` or `-`.
pub open spec fn is_sum_op(k: TokenType) -> bool {
    k == TokenType::Plus || k == TokenType::Minus
}

/// `*` or `/`.
pub open spec fn is_product_op(k: TokenType) -> bool {
    k == TokenType::Star || k == TokenType::ForwardsSlash
}

/// The line of the token at `k`, or of the last token where `k` is past the end.
pub open spec fn line_at(ts: Seq<Token>, k: int) -> int {
    if 0 <= k < ts.len() {
        ts[k].line as int
    } else {
        ts.last().line as int
    }
}

/// A parse error on a line.
pub open spec fn parse_failure(line: int, msg: Seq<char>) -> Failure {
    Failure { line, msg, kind: ErrorKind::Parse }
}

/// `sum := product (('+'|'-') product)*` from index `i`: the tree and the
/// index after it.
pub open spec fn sum_from(ts: Seq<Token>, i: int) -> Result<(MathValue, int), Failure>
    decreases ts.len() - i, 3int,
{
    match product_from(ts, i) {
        Ok((e, j)) => if i < j <= ts.len() {
            sum_tail(ts, j, e)
        } else {
            Ok((e, j))
        },
        Err(f) => Err(f),
    }
}

/// The repetitions of a sum after `acc`, each one the right operand of a
/// new node whose left operand is the tree so far.
pub open spec fn sum_tail(ts: Seq<Token>, j: int, acc: MathValue) -> Result<
    (MathValue, int),
    Failure,
>
    decreases ts.len() - j, 2int,
{
    if 0 <= j < ts.len() && is_sum_op(ts[j].token) {
        match product_from(ts, j + 1) {
            Ok((e, k)) => if j + 1 < k <= ts.len() {
                sum_tail(ts, k, combine(ts[j].token, acc, e))
            } else {
                Ok((acc, j))
            },
            Err(f) => Err(f),
        }
    } else {
        Ok((acc, j))
    }
}

/// `product := factor (('*'|'/') factor)*` from index `i`.
pub open spec fn product_from(ts: Seq<Token>, i: int) -> Result<(MathValue, int), Failure>
    decreases ts.len() - i, 2int,
{
    match factor_from(ts, i) {
        Ok((e, j)) => if i < j <= ts.len() {
            product_tail(ts, j, e)
        } else {
            Ok((e, j))
        },
        Err(f) => Err(f),
    }
}

/// The repetitions of a product after `acc`, each one the right operand
/// of a new node whose left operand is the tree so far.
pub open spec fn product_tail(ts: Seq<Token>, j: int, acc: MathValue) -> Result<
    (MathValue, int),
    Failure,
>
    decreases ts.len() - j, 1int,
{
    if 0 <= j < ts.len() && is_product_op(ts[j].token) {
        match factor_from(ts, j + 1) {
            Ok((e, k)) => if j + 1 < k <= ts.len() {
                product_tail(ts, k, combine(ts[j].token, acc, e))
            } else {
                Ok((acc, j))
            },
            Err(f) => Err(f),
        }
    } else {
        Ok((acc, j))
    }
}

/// `factor := IntLiteral | Identifier | '(' sum ')'` at index `i`.
pub open spec fn factor_from(ts: Seq<Token>, i: int) -> Result<(MathValue, int), Failure>
    decreases ts.len() - i, 0int,
{
    if !(0 <= i < ts.len()) {
        Err(parse_failure(ts.last().line as int, "Expected a factor"@))
    } else if ts[i].token == TokenType::IntegerLit {
        Ok((MathValue::Integer(ts[i]), i + 1))
    } else if ts[i].token == TokenType::Identifier {
        Ok((MathValue::Identifier(ts[i]), i + 1))
    } else if ts[i].token == TokenType::ParenOpen {
        match sum_from(ts, i + 1) {
            Ok((e, k)) => if 0 <= k < ts.len() && ts[k].token == TokenType::ParenClose {
                Ok((e, k + 1))
            } else {
                Err(parse_failure(line_at(ts, k), "Expected a closing paren"@))
            },
            Err(f) => Err(f),
        }
    } else {
        Err(parse_failure(ts[i].line as int, "Expected a factor, found: "@ + ts[i].info@))
    }
}

/// The expression that a whole slice of tokens forms; an internal error
/// where a well-formed sum leaves tokens over.
pub open spec fn expression_of(ts: Seq<Token>) -> Result<MathValue, Failure> {
    match sum_from(ts, 0) {
        Ok((e, j)) => if j == ts.len() {
            Ok(e)
        } else {
            Err(
                Failure {
                    line: line_at(ts, j),
                    msg: "Internal error, not all of the tokens for the expression were used!"@,
                    kind: ErrorKind::Internal,
                },
            )
        },
        Err(f) => Err(f),
    }
}

/// An exec result agrees with a spec result, the cursor standing at the
/// spec's end index on success.
pub open spec fn agrees(r: Result<MathValue, Error>, idx: usize, s: Result<(MathValue, int), Failure>) -> bool {
    match (r, s) {
        (Ok(e), Ok((se, j))) => e == se && idx == j,
        (Err(e), Err(f)) => e@ == f,
        _ => false,
    }
}

/// The value of `sum` read straight off the tokens, operator by operator,
/// without building a tree: the value and the index after it.
pub open spec fn sum_value(ts: Seq<Token>, i: int, env: spec_fn(Seq<char>) -> int) -> Option<
    (int, int),
>
    decreases ts.len() - i, 3int,
{
    match product_value(ts, i, env) {
        Some((v, j)) => if i < j <= ts.len() {
            sum_value_tail(ts, j, v, env)
        } else {
            Some((v, j))
        },
        None => None,
    }
}

/// The repetitions of a sum after the value `acc`, each applied to the
/// value so far.
pub open spec fn sum_value_tail(
    ts: Seq<Token>,
    j: int,
    acc: int,
    env: spec_fn(Seq<char>) -> int,
) -> Option<(int, int)>
    decreases ts.len() - j, 2int,
{
    if 0 <= j < ts.len() && is_sum_op(ts[j].token) {
        match product_value(ts, j + 1, env) {
            Some((v, k)) => if j + 1 < k <= ts.len() {
                sum_value_tail(ts, k, apply(ts[j].token, acc, v), env)
            } else {
                Some((acc, j))
            },
            None => None,
        }
    } else {
        Some((acc, j))
    }
}

/// The value of `product` read straight off the tokens.
pub open spec fn product_value(ts: Seq<Token>, i: int, env: spec_fn(Seq<char>) -> int) -> Option<
    (int, int),
>
    decreases ts.len() - i, 2int,
{
    match factor_value(ts, i, env) {
        Some((v, j)) => if i < j <= ts.len() {
            product_value_tail(ts, j, v, env)
        } else {
            Some((v, j))
        },
        None => None,
    }
}

/// The repetitions of a product after the value `acc`.
pub open spec fn product_value_tail(
    ts: Seq<Token>,
    j: int,
    acc: int,
    env: spec_fn(Seq<char>) -> int,
) -> Option<(int, int)>
    decreases ts.len() - j, 1int,
{
    if 0 <= j < ts.len() && is_product_op(ts[j].token) {
        match factor_value(ts, j + 1, env) {
            Some((v, k)) => if j + 1 < k <= ts.len() {
                product_value_tail(ts, k, apply(ts[j].token, acc, v), env)
            } else {
                Some((acc, j))
            },
            None => None,
        }
    } else {
        Some((acc, j))
    }
}

/// The value of `factor` read straight off the tokens.
pub open spec fn factor_value(ts: Seq<Token>, i: int, env: spec_fn(Seq<char>) -> int) -> Option<
    (int, int),
>
    decreases ts.len() - i, 0int,
{
    if !(0 <= i < ts.len()) {
        None
    } else if ts[i].token == TokenType::IntegerLit {
        Some((literal_value(ts[i].info@), i + 1))
    } else if ts[i].token == TokenType::Identifier {
        Some((env(ts[i].info@), i + 1))
    } else if ts[i].token == TokenType::ParenOpen {
        match sum_value(ts, i + 1, env) {
            Some((v, k)) => if 0 <= k < ts.len() && ts[k].token == TokenType::ParenClose {
                Some((v, k + 1))
            } else {
                None
            },
            None => None,
        }
    } else {
        None
    }
}

/// A parse result and a direct reading agree: both fail, or both succeed
/// at the same index with the tree's value equal to the value read.
pub open spec fn value_agrees(
    r: Result<(MathValue, int), Failure>,
    v: Option<(int, int)>,
    env: spec_fn(Seq<char>) -> int,
) -> bool {
    match (r, v) {
        (Ok((e, j)), Some((x, k))) => x == eval(e, env) && k == j,
        (Err(_), None) => true,
        _ => false,
    }
}

proof fn lemma_eval_combine(op: TokenType, a: MathValue, b: MathValue, env: spec_fn(Seq<char>) -> int)
    ensures
        eval(combine(op, a, b), env) == apply(op, eval(a, env), eval(b, env)),
{
}

proof fn lemma_sum_value(ts: Seq<Token>, i: int, env: spec_fn(Seq<char>) -> int)
    ensures
        value_agrees(sum_from(ts, i), sum_value(ts, i, env), env),
    decreases ts.len() - i, 3int,
{
    lemma_product_value(ts, i, env);
    if let Ok((e, j)) = product_from(ts, i) {
        if i < j <= ts.len() {
            lemma_sum_value_tail(ts, j, e, env);
        }
    }
}

proof fn lemma_sum_value_tail(ts: Seq<Token>, j: int, acc: MathValue, env: spec_fn(Seq<char>) -> int)
    ensures
        value_agrees(sum_tail(ts, j, acc), sum_value_tail(ts, j, eval(acc, env), env), env),
    decreases ts.len() - j, 2int,
{
    if 0 <= j < ts.len() && is_sum_op(ts[j].token) {
        lemma_product_value(ts, j + 1, env);
        if let Ok((e, k)) = product_from(ts, j + 1) {
            if j + 1 < k <= ts.len() {
                lemma_eval_combine(ts[j].token, acc, e, env);
                lemma_sum_value_tail(ts, k, combine(ts[j].token, acc, e), env);
            }
        }
    }
}

proof fn lemma_product_value(ts: Seq<Token>, i: int, env: spec_fn(Seq<char>) -> int)
    ensures
        value_agrees(product_from(ts, i), product_value(ts, i, env), env),
    decreases ts.len() - i, 2int,
{
    lemma_factor_value(ts, i, env);
    if let Ok((e, j)) = factor_from(ts, i) {
        if i < j <= ts.len() {
            lemma_product_value_tail(ts, j, e, env);
        }
    }
}

proof fn lemma_product_value_tail(
    ts: Seq<Token>,
    j: int,
    acc: MathValue,
    env: spec_fn(Seq<char>) -> int,
)
    ensures
        value_agrees(product_tail(ts, j, acc), product_value_tail(ts, j, eval(acc, env), env), env),
    decreases ts.len() - j, 1int,
{
    if 0 <= j < ts.len() && is_product_op(ts[j].token) {
        lemma_factor_value(ts, j + 1, env);
        if let Ok((e, k)) = factor_from(ts, j + 1) {
            if j + 1 < k <= ts.len() {
                lemma_eval_combine(ts[j].token, acc, e, env);
                lemma_product_value_tail(ts, k, combine(ts[j].token, acc, e), env);
            }
        }
    }
}

proof fn lemma_factor_value(ts: Seq<Token>, i: int, env: spec_fn(Seq<char>) -> int)
    ensures
        value_agrees(factor_from(ts, i), factor_value(ts, i, env), env),
    decreases ts.len() - i, 0int,
{
    if 0 <= i < ts.len() && ts[i].token == TokenType::ParenOpen {
        lemma_sum_value(ts, i + 1, env);
    }
}

/// Parsing a slice of arithmetic tokens succeeds exactly when the slice
/// reads directly, all of it, as one expression of the grammar (with the
/// usual precedence and left-to-right grouping); and then the tree's value
/// is the value so read.
pub proof fn law_parse_then_eval(ts: Seq<Token>, env: spec_fn(Seq<char>) -> int)
    ensures
        expression_of(ts) is Ok <==> match sum_value(ts, 0, env) {
            Some((_, k)) => k == ts.len(),
            None => false,
        },
        expression_of(ts) is Ok ==> sum_value(ts, 0, env) == Some(
            (eval(expression_of(ts)->Ok_0, env), ts.len() as int),
        ),
{
    lemma_sum_value(ts, 0, env);
}

struct ExpressionParser {
    index: usize,
}

impl ExpressionParser {
    fn parse_sum(&mut self, tokens: &[Token]) -> (r: Result<MathValue, Error>)
        requires
            old(self).index <= tokens@.len(),
            tokens@.len() > 0,
        ensures
            agrees(r, final(self).index, sum_from(tokens@, old(self).index as int)),
            r is Ok ==> old(self).index < final(self).index <= tokens@.len(),
        decreases tokens@.len() - old(self).index, 3int,
    {
        let ghost i0 = self.index as int;
        let mut value_1 = match self.parse_product(tokens) {
            Ok(v) => v,
            Err(e) => return Err(e),
        };
        while self.index < tokens.len() && (tokens[self.index].token == TokenType::Plus
            || tokens[self.index].token == TokenType::Minus)
            invariant
                tokens@.len() > 0,
                i0 < self.index <= tokens@.len(),
                i0 == old(self).index,
                sum_from(tokens@, i0) == sum_tail(tokens@, self.index as int, value_1),
            decreases tokens@.len() - self.index,
        {
            let op = tokens[self.index].token;
            self.index += 1;
            let value_2 = match self.parse_product(tokens) {
                Ok(v) => v,
                Err(e) => return Err(e),
            };
            value_1 = match op {
                TokenType::Plus => MathValue::Operation(
                    Box::new(OperationType::Add(NodeMathAdd { value_1, value_2 })),
                ),
                _ => MathValue::Operation(
                    Box::new(OperationType::Sub(NodeMathSub { value_1, value_2 })),
                ),
            };
        }
        Ok(value_1)
    }

    fn parse_product(&mut self, tokens: &[Token]) -> (r: Result<MathValue, Error>)
        requires
            old(self).index <= tokens@.len(),
            tokens@.len() > 0,
        ensures
            agrees(r, final(self).index, product_from(tokens@, old(self).index as int)),
            r is Ok ==> old(self).index < final(self).index <= tokens@.len(),
        decreases tokens@.len() - old(self).index, 2int,
    {
        let ghost i0 = self.index as int;
        let mut value_1 = match self.parse_factor(tokens) {
            Ok(v) => v,
            Err(e) => return Err(e),
        };
        while self.index < tokens.len() && (tokens[self.index].token == TokenType::Star
            || tokens[self.index].token == TokenType::ForwardsSlash)
            invariant
                tokens@.len() > 0,
                i0 < self.index <= tokens@.len(),
                i0 == old(self).index,
                product_from(tokens@, i0) == product_tail(tokens@, self.index as int, value_1),
            decreases tokens@.len() - self.index,
        {
            let op = tokens[self.index].token;
            self.index += 1;
            let value_2 = match self.parse_factor(tokens) {
                Ok(v) => v,
                Err(e) => return Err(e),
            };
            value_1 = match op {
                TokenType::Star => MathValue::Operation(
                    Box::new(OperationType::Mult(NodeMathMult { value_1, value_2 })),
                ),
                _ => MathValue::Operation(
                    Box::new(OperationType::Div(NodeMathDiv { value_1, value_2 })),
                ),
            };
        }
        Ok(value_1)
    }

    /// Parses a factor of an operation
    fn parse_factor(&mut self, tokens: &[Token]) -> (r: Result<MathValue, Error>)
        requires
            old(self).index <= tokens@.len(),
            tokens@.len() > 0,
        ensures
            agrees(r, final(self).index, factor_from(tokens@, old(self).index as int)),
            r is Ok ==> old(self).index < final(self).index <= tokens@.len(),
        decreases tokens@.len() - old(self).index, 1int,
    {
        if self.index >= tokens.len() {
            return Err(
                Error {
                    line: tokens[tokens.len() - 1].line,
                    msg: String::from_str("Expected a factor"),
                    kind: ErrorKind::Parse,
                },
            );
        }
        let token = &tokens[self.index];
        self.index += 1;
        if token.token == TokenType::IntegerLit {
            Ok(MathValue::Integer(token.cloned()))
        } else if token.token == TokenType::Identifier {
            Ok(MathValue::Identifier(token.cloned()))
        } else if token.token == TokenType::ParenOpen {
            let math_value = match self.parse_sum(tokens) {
                Ok(v) => v,
                Err(e) => return Err(e),
            };
            if self.index < tokens.len() && tokens[self.index].token == TokenType::ParenClose {
                self.index += 1;
                Ok(math_value)
            } else {
                let line = if self.index < tokens.len() {
                    tokens[self.index].line
                } else {
                    tokens[tokens.len() - 1].line
                };
                Err(
                    Error {
                        line,
                        msg: String::from_str("Expected a closing paren"),
                        kind: ErrorKind::Parse,
                    },
                )
            }
        } else {
            let mut msg = String::from_str("Expected a factor, found: ");
            msg.append(token.info.as_str());
            Err(Error { line: token.line, msg, kind: ErrorKind::Parse })
        }
    }
}

/// Parses a whole slice of arithmetic tokens into one expression.
pub fn parse_expression(tokens: &[Token]) -> (r: Result<MathValue, Error>)
    requires
        tokens@.len() > 0,
    ensures
        match (r, expression_of(tokens@)) {
            (Ok(e), Ok(se)) => e == se,
            (Err(e), Err(f)) => e@ == f,
            _ => false,
        },
{
    let mut expr_parser = ExpressionParser { index: 0 };
    let math_value = expr_parser.parse_sum(tokens);
    match math_value {
        Ok(v) => {
            if expr_parser.index != tokens.len() {
                Err(
                    Error {
                        line: tokens[expr_parser.index].line,
                        msg: String::from_str(
                            "Internal error, not all of the tokens for the expression were used!",
                        ),
                        kind: ErrorKind::Internal,
                    },
                )
            } else {
                Ok(v)
            }
        },
        Err(e) => Err(e),
    }
}

} // verus!
