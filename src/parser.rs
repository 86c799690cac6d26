use vstd::prelude::*;

use crate::errors::{Error, ErrorKind, Failure};
use crate::tokenise::{Token, TokenType};

pub mod expression_parser;
pub mod math;

pub use math::MathValue;

use vstd::slice::slice_subrange;

use expression_parser::{expression_of, line_at, parse_expression, parse_failure};
use math::{is_math_kind, is_math_token};

verus! {

/// A statement of a program.
#[derive(Debug)]
pub enum NodeStatements {
    Exit(NodeStmtExit),
    PutChar(NodeStmtPutChar),
    Declare(NodeStmtDeclare),
    SetVar(NodeStmtSet),
    Function(NodeStmtFunction),
    FunctionCall(NodeStmtFunctionCall),
}

/// A program: its statements in order.
#[derive(Debug)]
pub struct NodeProgram {
    pub statements: Vec<NodeStatements>,
}

/// `exit(EXPR);`
#[derive(Debug)]
pub struct NodeStmtExit {
    pub expression: MathValue,
}

/// `putchar(EXPR);`
#[derive(Debug)]
pub struct NodeStmtPutChar {
    pub expression: MathValue,
}

/// `int NAME;` or `int NAME = EXPR;`
#[derive(Debug)]
pub struct NodeStmtDeclare {
    pub identifier: Token,
    pub expression: Option<MathValue>,
}

/// `NAME = EXPR;`
#[derive(Debug)]
pub struct NodeStmtSet {
    pub identifier: Token,
    pub expression: MathValue,
}

/// `fn NAME(PARAMS) { STATEMENTS }`
#[derive(Debug)]
pub struct NodeStmtFunction {
    pub identifier: Token,
    pub args: Vec<NodeStmtDeclare>,
    pub scope: NodeProgram,
}

/// `NAME();` (arguments are not passed)
#[derive(Debug)]
pub struct NodeStmtFunctionCall {
    pub identifier: Token,
    pub args: Vec<NodeStmtDeclare>,
}

/// The mathematical value of a statement: a function's body is the sequence
/// of its statements' values.
pub enum Stmt {
    Exit(NodeStmtExit),
    PutChar(NodeStmtPutChar),
    Declare(NodeStmtDeclare),
    SetVar(NodeStmtSet),
    Function(Token, Seq<NodeStmtDeclare>, Seq<Stmt>),
    FunctionCall(Token, Seq<NodeStmtDeclare>),
}

/// The mathematical value of a statement node.
pub open spec fn stmt_view(s: NodeStatements) -> Stmt
    decreases s,
{
    match s {
        NodeStatements::Exit(x) => Stmt::Exit(x),
        NodeStatements::PutChar(x) => Stmt::PutChar(x),
        NodeStatements::Declare(x) => Stmt::Declare(x),
        NodeStatements::SetVar(x) => Stmt::SetVar(x),
        NodeStatements::Function(f) => {
            proof {
                broadcast use vstd::std_specs::vec::axiom_vec_decreases_to_view;

                assert(decreases_to!(f.scope.statements => f.scope.statements@));
            }
            Stmt::Function(f.identifier, f.args@, stmts_view(f.scope.statements@))
        },
        NodeStatements::FunctionCall(c) => Stmt::FunctionCall(c.identifier, c.args@),
    }
}

/// The values of statement nodes, in order.
pub open spec fn stmts_view(ss: Seq<NodeStatements>) -> Seq<Stmt>
    decreases ss,
{
    if ss.len() == 0 {
        Seq::empty()
    } else {
        proof {
            assert(decreases_to!(ss => ss[ss.len() - 1]));
            assert(decreases_to!(ss => ss.subrange(0, ss.len() - 1)));
        }
        stmts_view(ss.subrange(0, ss.len() - 1)).push(stmt_view(ss[ss.len() - 1]))
    }
}

/// The name of a token category, as error messages print it.
pub open spec fn kind_name(k: TokenType) -> Seq<char> {
    match k {
        TokenType::Exit => "Exit"@,
        TokenType::PutChar => "PutChar"@,
        TokenType::AssignEq => "AssignEq"@,
        TokenType::Plus => "Plus"@,
        TokenType::Minus => "Minus"@,
        TokenType::Star => "Star"@,
        TokenType::ForwardsSlash => "ForwardsSlash"@,
        TokenType::ParenOpen => "ParenOpen"@,
        TokenType::ParenClose => "ParenClose"@,
        TokenType::BraceOpen => "BraceOpen"@,
        TokenType::BraceClose => "BraceClose"@,
        TokenType::IntType => "IntType"@,
        TokenType::IntegerLit => "IntegerLit"@,
        TokenType::Function => "Function"@,
        TokenType::Identifier => "Identifier"@,
        TokenType::Semicolon => "Semicolon"@,
        TokenType::NoToken => "NoToken"@,
    }
}

/// The name of a token category, as error messages print it.
pub fn token_type_name(k: TokenType) -> (r: &'static str)
    ensures
        r@ == kind_name(k),
{
    match k {
        TokenType::Exit => "Exit",
        TokenType::PutChar => "PutChar",
        TokenType::AssignEq => "AssignEq",
        TokenType::Plus => "Plus",
        TokenType::Minus => "Minus",
        TokenType::Star => "Star",
        TokenType::ForwardsSlash => "ForwardsSlash",
        TokenType::ParenOpen => "ParenOpen",
        TokenType::ParenClose => "ParenClose",
        TokenType::BraceOpen => "BraceOpen",
        TokenType::BraceClose => "BraceClose",
        TokenType::IntType => "IntType",
        TokenType::IntegerLit => "IntegerLit",
        TokenType::Function => "Function",
        TokenType::Identifier => "Identifier",
        TokenType::Semicolon => "Semicolon",
        TokenType::NoToken => "NoToken",
    }
}

/// The token at `i + offset`, which must be of category `kind` (any
/// category where `kind` is `NoToken`).
pub open spec fn require(ts: Seq<Token>, i: int, offset: int, kind: TokenType) -> Result<
    Token,
    Failure,
> {
    let k = i + offset;
    if 0 <= k < ts.len() {
        if kind == TokenType::NoToken || ts[k].token == kind {
            Ok(ts[k])
        } else {
            Err(
                parse_failure(
                    ts[k].line as int,
                    "Expected "@ + kind_name(kind) + ", found "@ + kind_name(ts[k].token),
                ),
            )
        }
    } else {
        Err(parse_failure(ts.last().line as int, "Expected another token"@))
    }
}

/// The end of the expression that starts at `k` with `parens` parentheses
/// open: the first token that cannot stand in an expression, or a `)` that
/// closes more than was opened.
pub open spec fn expr_end(ts: Seq<Token>, k: int, parens: int) -> int
    decreases ts.len() - k,
{
    if 0 <= k < ts.len() && is_math_kind(ts[k].token) {
        if ts[k].token == TokenType::ParenClose && parens == 0 {
            k
        } else {
            expr_end(
                ts,
                k + 1,
                if ts[k].token == TokenType::ParenOpen {
                    parens + 1
                } else if ts[k].token == TokenType::ParenClose {
                    parens - 1
                } else {
                    parens
                },
            )
        }
    } else {
        k
    }
}

/// The expression at `i` and the index after it.
pub open spec fn expr_at(ts: Seq<Token>, i: int) -> Result<(MathValue, int), Failure> {
    let e = expr_end(ts, i, 0);
    if e <= i {
        Err(parse_failure(line_at(ts, i), "Expression is empty"@))
    } else {
        match expression_of(ts.subrange(i, e)) {
            Ok(x) => Ok((x, e)),
            Err(f) => Err(f),
        }
    }
}

/// `exit ( EXPR ) ;` at `i`.
pub open spec fn exit_at(ts: Seq<Token>, i: int) -> Result<(NodeStmtExit, int), Failure> {
    match require(ts, i, 1, TokenType::ParenOpen) {
        Err(f) => Err(f),
        Ok(_) => match expr_at(ts, i + 2) {
            Err(f) => Err(f),
            Ok((e, j)) => match require(ts, j, 0, TokenType::ParenClose) {
                Err(f) => Err(f),
                Ok(_) => match require(ts, j, 1, TokenType::Semicolon) {
                    Err(f) => Err(f),
                    Ok(_) => Ok((NodeStmtExit { expression: e }, j + 2)),
                },
            },
        },
    }
}

/// `putchar ( EXPR ) ;` at `i`.
pub open spec fn putchar_at(ts: Seq<Token>, i: int) -> Result<(NodeStmtPutChar, int), Failure> {
    match require(ts, i, 1, TokenType::ParenOpen) {
        Err(f) => Err(f),
        Ok(_) => match expr_at(ts, i + 2) {
            Err(f) => Err(f),
            Ok((e, j)) => match require(ts, j, 0, TokenType::ParenClose) {
                Err(f) => Err(f),
                Ok(_) => match require(ts, j, 1, TokenType::Semicolon) {
                    Err(f) => Err(f),
                    Ok(_) => Ok((NodeStmtPutChar { expression: e }, j + 2)),
                },
            },
        },
    }
}

/// `int NAME ;` or `int NAME = EXPR ;` at `i` (the first token is not looked at).
pub open spec fn declare_at(ts: Seq<Token>, i: int) -> Result<(NodeStmtDeclare, int), Failure> {
    match require(ts, i, 1, TokenType::Identifier) {
        Err(f) => Err(f),
        Ok(name) => if require(ts, i, 2, TokenType::AssignEq) is Err {
            match require(ts, i + 2, 0, TokenType::Semicolon) {
                Err(f) => Err(f),
                Ok(_) => Ok((NodeStmtDeclare { identifier: name, expression: None }, i + 3)),
            }
        } else {
            match expr_at(ts, i + 3) {
                Err(f) => Err(f),
                Ok((e, j)) => match require(ts, j, 0, TokenType::Semicolon) {
                    Err(f) => Err(f),
                    Ok(_) => Ok((NodeStmtDeclare { identifier: name, expression: Some(e) }, j + 1)),
                },
            }
        },
    }
}

/// A parameter `int NAME` at `k`.
pub open spec fn param_at(ts: Seq<Token>, k: int) -> Result<(NodeStmtDeclare, int), Failure> {
    match require(ts, k, 0, TokenType::IntType) {
        Err(f) => Err(f),
        Ok(_) => match require(ts, k, 1, TokenType::Identifier) {
            Err(f) => Err(f),
            Ok(name) => Ok((NodeStmtDeclare { identifier: name, expression: None }, k + 2)),
        },
    }
}

/// `NAME = EXPR ;` at `i`.
pub open spec fn set_at(ts: Seq<Token>, i: int) -> Result<(NodeStmtSet, int), Failure> {
    match require(ts, i, 1, TokenType::AssignEq) {
        Err(f) => Err(f),
        Ok(_) => match require(ts, i, 0, TokenType::NoToken) {
            Err(f) => Err(f),
            Ok(name) => match expr_at(ts, i + 2) {
                Err(f) => Err(f),
                Ok((e, j)) => match require(ts, j, 0, TokenType::Semicolon) {
                    Err(f) => Err(f),
                    Ok(_) => Ok((NodeStmtSet { identifier: name, expression: e }, j + 1)),
                },
            },
        },
    }
}

/// `NAME ( ) ;` at `i`: the name.
pub open spec fn call_at(ts: Seq<Token>, i: int) -> Result<(Token, int), Failure> {
    match require(ts, i, 1, TokenType::ParenOpen) {
        Err(f) => Err(f),
        Ok(_) => match require(ts, i, 2, TokenType::ParenClose) {
            Err(f) => Err(f),
            Ok(_) => match require(ts, i, 3, TokenType::Semicolon) {
                Err(f) => Err(f),
                Ok(_) => Ok((ts[i], i + 4)),
            },
        },
    }
}

/// The index of the `}` that closes a scope, scanning from `k` with `count`
/// braces open.
pub open spec fn brace_close(ts: Seq<Token>, k: int, count: int) -> Option<int>
    decreases ts.len() - k,
{
    if 0 <= k < ts.len() {
        let c = if ts[k].token == TokenType::BraceOpen {
            count + 1
        } else if ts[k].token == TokenType::BraceClose {
            count - 1
        } else {
            count
        };
        if c == 0 {
            Some(k)
        } else {
            brace_close(ts, k + 1, c)
        }
    } else {
        None
    }
}

/// The statements from index `i` to the end.
pub open spec fn statements_from(ts: Seq<Token>, i: int) -> Result<Seq<Stmt>, Failure>
    decreases ts.len(), ts.len() - i, 4int,
{
    if 0 <= i < ts.len() {
        match statement_at(ts, i) {
            Err(f) => Err(f),
            Ok((s, j)) => if i < j <= ts.len() {
                match statements_from(ts, j) {
                    Err(f) => Err(f),
                    Ok(rest) => Ok(seq![s] + rest),
                }
            } else {
                Ok(seq![s])
            },
        }
    } else {
        Ok(Seq::empty())
    }
}

/// The statements of a whole token sequence.
pub open spec fn program_of(ts: Seq<Token>) -> Result<Seq<Stmt>, Failure> {
    statements_from(ts, 0)
}

/// The statement at `i`, chosen by its first token; a name followed by `(`
/// is a call, any other name an assignment.
pub open spec fn statement_at(ts: Seq<Token>, i: int) -> Result<(Stmt, int), Failure>
    decreases ts.len(), ts.len() - i, 3int,
{
    if !(0 <= i < ts.len()) {
        Err(parse_failure(line_at(ts, i), "Expected another token"@))
    } else {
        let t = ts[i];
        if t.token == TokenType::Exit {
            match exit_at(ts, i) {
                Err(f) => Err(f),
                Ok((x, j)) => Ok((Stmt::Exit(x), j)),
            }
        } else if t.token == TokenType::PutChar {
            match putchar_at(ts, i) {
                Err(f) => Err(f),
                Ok((x, j)) => Ok((Stmt::PutChar(x), j)),
            }
        } else if t.token == TokenType::IntType {
            match declare_at(ts, i) {
                Err(f) => Err(f),
                Ok((x, j)) => Ok((Stmt::Declare(x), j)),
            }
        } else if t.token == TokenType::Identifier {
            if require(ts, i, 1, TokenType::ParenOpen) is Ok {
                match call_at(ts, i) {
                    Err(f) => Err(f),
                    Ok((x, j)) => Ok((Stmt::FunctionCall(x, Seq::empty()), j)),
                }
            } else {
                match set_at(ts, i) {
                    Err(f) => Err(f),
                    Ok((x, j)) => Ok((Stmt::SetVar(x), j)),
                }
            }
        } else if t.token == TokenType::Function {
            function_at(ts, i)
        } else {
            Err(parse_failure(t.line as int, "Expected a valid statement, found "@ + t.info@))
        }
    }
}

/// `fn NAME ( PARAMS ) { STATEMENTS }` at `i`.
pub open spec fn function_at(ts: Seq<Token>, i: int) -> Result<(Stmt, int), Failure>
    decreases ts.len(), ts.len() - i, 2int,
{
    match require(ts, i, 1, TokenType::NoToken) {
        Err(f) => Err(f),
        Ok(name) => match require(ts, i, 2, TokenType::ParenOpen) {
            Err(f) => Err(f),
            Ok(_) => match params_from(ts, i + 3) {
                Err(f) => Err(f),
                Ok((ps, k)) => if i < k < ts.len() {
                    match scope_at(ts, k + 1) {
                        Err(f) => Err(f),
                        Ok((body, m)) => Ok((Stmt::Function(name, ps, body), m)),
                    }
                } else {
                    Err(parse_failure(line_at(ts, k), "Expected another token"@))
                },
            },
        },
    }
}

/// The parameters `int NAME`, one after another, from `k` up to the
/// closing `)`, and the index of that `)`.
pub open spec fn params_from(ts: Seq<Token>, k: int) -> Result<(Seq<NodeStmtDeclare>, int), Failure>
    decreases ts.len(), ts.len() - k, 1int,
{
    if require(ts, k, 0, TokenType::ParenClose) is Ok {
        Ok((Seq::empty(), k))
    } else {
        match param_at(ts, k) {
            Err(f) => Err(f),
            Ok((d, k2)) => if 0 <= k < k2 <= ts.len() {
                match params_from(ts, k2) {
                    Err(f) => Err(f),
                    Ok((ds, k3)) => Ok((seq![d] + ds, k3)),
                }
            } else {
                Ok((seq![d], k2))
            },
        }
    }
}

/// `{ STATEMENTS }` at `i`: the statements between the braces, parsed on
/// their own, and the index after the closing brace.
pub open spec fn scope_at(ts: Seq<Token>, i: int) -> Result<(Seq<Stmt>, int), Failure>
    decreases ts.len(), ts.len() - i, 0int,
{
    match require(ts, i, 0, TokenType::BraceOpen) {
        Err(f) => Err(f),
        Ok(_) => match brace_close(ts, i + 1, 1) {
            None => Err(
                parse_failure(
                    ts.last().line as int,
                    "Expected closing brace `}`, the issue may potentially be earlier"@,
                ),
            ),
            Some(c) => if 0 <= i < c < ts.len() {
                match statements_from(ts.subrange(i + 1, c), 0) {
                    Err(f) => Err(f),
                    Ok(body) => Ok((body, c + 1)),
                }
            } else {
                Ok((Seq::empty(), c + 1))
            },
        },
    }
}

/// An exec result agrees with a spec result, the cursor standing at the
/// spec's end index on success.
pub open spec fn agrees_at<T>(r: Result<T, Error>, idx: usize, s: Result<(T, int), Failure>) -> bool {
    match (r, s) {
        (Ok(v), Ok((sv, j))) => v == sv && idx == j,
        (Err(e), Err(f)) => e@ == f,
        _ => false,
    }
}

/// Puts `pre` before the statements of a successful result.
pub open spec fn prepend_stmts(pre: Seq<Stmt>, r: Result<Seq<Stmt>, Failure>) -> Result<
    Seq<Stmt>,
    Failure,
> {
    match r {
        Ok(rest) => Ok(pre + rest),
        Err(f) => Err(f),
    }
}

/// Puts `pre` before the parameters of a successful result.
pub open spec fn prepend_params(
    pre: Seq<NodeStmtDeclare>,
    r: Result<(Seq<NodeStmtDeclare>, int), Failure>,
) -> Result<(Seq<NodeStmtDeclare>, int), Failure> {
    match r {
        Ok((ds, k)) => Ok((pre + ds, k)),
        Err(f) => Err(f),
    }
}

proof fn lemma_stmts_view_push(ss: Seq<NodeStatements>, s: NodeStatements)
    ensures
        stmts_view(ss.push(s)) == stmts_view(ss).push(stmt_view(s)),
{
    assert(ss.push(s).subrange(0, ss.len() as int) =~= ss);
}

proof fn lemma_params_end(ts: Seq<Token>, k: int)
    requires
        0 <= k,
    ensures
        params_from(ts, k) is Ok ==> k <= params_from(ts, k)->Ok_0.1 < ts.len() && ts[params_from(
            ts,
            k,
        )->Ok_0.1].token == TokenType::ParenClose,
    decreases ts.len() - k,
{
    if require(ts, k, 0, TokenType::ParenClose) is Err {
        if let Ok((d, k2)) = param_at(ts, k) {
            lemma_params_end(ts, k2);
        }
    }
}

/// A function whose body is never closed (its opening brace has no
/// matching closing brace before the tokens end) fails with the
/// unterminated-scope error, which cites the last line of the tokens.
pub proof fn law_unclosed_body(ts: Seq<Token>, i: int)
    requires
        0 <= i < ts.len(),
        ts[i].token == TokenType::Function,
        require(ts, i, 1, TokenType::NoToken) is Ok,
        require(ts, i, 2, TokenType::ParenOpen) is Ok,
        params_from(ts, i + 3) is Ok,
        require(ts, params_from(ts, i + 3)->Ok_0.1 + 1, 0, TokenType::BraceOpen) is Ok,
        brace_close(ts, params_from(ts, i + 3)->Ok_0.1 + 2, 1) is None,
    ensures
        statements_from(ts, i) == Err::<Seq<Stmt>, Failure>(
            parse_failure(
                ts.last().line as int,
                "Expected closing brace `}`, the issue may potentially be earlier"@,
            ),
        ),
{
    lemma_params_end(ts, i + 3);
    let k = params_from(ts, i + 3)->Ok_0.1;
    let f = parse_failure(
        ts.last().line as int,
        "Expected closing brace `}`, the issue may potentially be earlier"@,
    );
    assert(scope_at(ts, k + 1) == Err::<(Seq<Stmt>, int), Failure>(f));
    assert(function_at(ts, i) == Err::<(Stmt, int), Failure>(f));
    assert(statement_at(ts, i) == Err::<(Stmt, int), Failure>(f));
}

/// Parses a token sequence into a program, with a cursor into it.
pub struct Parser {
    pub tokens: Vec<Token>,
    pub index: usize,
}

impl Parser {
    /// Parses the statements from the cursor to the end.
    pub fn parse(&mut self) -> (r: Result<NodeProgram, Error>)
        ensures
            final(self).tokens@ == old(self).tokens@,
            match (r, statements_from(old(self).tokens@, old(self).index as int)) {
                (Ok(p), Ok(s)) => p@ == s,
                (Err(e), Err(f)) => e@ == f,
                _ => false,
            },
            r is Ok ==> final(self).index == (if old(self).index <= old(self).tokens@.len() {
                old(self).tokens@.len() as int
            } else {
                old(self).index as int
            }),
        decreases old(self).tokens@.len(), old(self).tokens@.len() - old(self).index, 4int,
    {
        let mut statements: Vec<NodeStatements> = Vec::new();
        let ghost ts = self.tokens@;
        let ghost i0 = self.index as int;
        proof {
            assert(stmts_view(statements@) =~= Seq::<Stmt>::empty());
            if let Ok(rest) = statements_from(ts, i0) {
                assert(Seq::<Stmt>::empty() + rest =~= rest);
            }
        }
        while self.index < self.tokens.len()
            invariant
                self.tokens@ == ts,
                ts == old(self).tokens@,
                i0 == old(self).index,
                i0 < ts.len() ==> i0 <= self.index,
                i0 >= ts.len() ==> self.index == i0,
                i0 <= ts.len() ==> self.index <= ts.len(),
                statements_from(ts, i0) == prepend_stmts(
                    stmts_view(statements@),
                    statements_from(ts, self.index as int),
                ),
            decreases ts.len() - self.index,
        {
            let ghost before = self.index as int;
            let ghost pre = stmts_view(statements@);
            let statement = match self.parse_statement() {
                Ok(x) => x,
                Err(e) => return Err(e),
            };
            proof {
                lemma_stmts_view_push(statements@, statement);
            }
            statements.push(statement);
            proof {
                let one = seq![stmt_view(statement)];
                assert(stmts_view(statements@) == pre + one);
                assert(statement_at(ts, before) == Ok::<(Stmt, int), Failure>((stmt_view(statement), self.index as int)));
                match statements_from(ts, self.index as int) {
                    Ok(rest) => assert(pre + (one + rest) =~= (pre + one) + rest),
                    Err(_) => {},
                }
            }
        }
        proof {
            assert(stmts_view(statements@) + Seq::<Stmt>::empty() =~= stmts_view(statements@));
        }
        Ok(NodeProgram { statements })
    }

    /// The statement at the cursor, chosen by its first token.
    fn parse_statement(&mut self) -> (r: Result<NodeStatements, Error>)
        requires
            old(self).index < old(self).tokens@.len(),
        ensures
            final(self).tokens@ == old(self).tokens@,
            match (r, statement_at(old(self).tokens@, old(self).index as int)) {
                (Ok(x), Ok((s, j))) => stmt_view(x) == s && final(self).index == j,
                (Err(e), Err(f)) => e@ == f,
                _ => false,
            },
            r is Ok ==> old(self).index < final(self).index <= old(self).tokens@.len(),
        decreases old(self).tokens@.len(), old(self).tokens@.len() - old(self).index, 3int,
    {
        match self.tokens[self.index].token {
            TokenType::Exit => match self.parse_exit() {
                Ok(x) => Ok(NodeStatements::Exit(x)),
                Err(e) => Err(e),
            },
            TokenType::PutChar => match self.parse_putchar() {
                Ok(x) => Ok(NodeStatements::PutChar(x)),
                Err(e) => Err(e),
            },
            TokenType::IntType => match self.parse_int_assign() {
                Ok(x) => Ok(NodeStatements::Declare(x)),
                Err(e) => Err(e),
            },
            TokenType::Identifier => {
                if self.require_token(1, TokenType::ParenOpen).is_ok() {
                    match self.parse_func_call() {
                        Ok(x) => Ok(NodeStatements::FunctionCall(x)),
                        Err(e) => Err(e),
                    }
                } else {
                    match self.parse_set_var() {
                        Ok(x) => Ok(NodeStatements::SetVar(x)),
                        Err(e) => Err(e),
                    }
                }
            },
            TokenType::Function => match self.parse_function() {
                Ok(x) => Ok(NodeStatements::Function(x)),
                Err(e) => Err(e),
            },
            _ => {
                let token = &self.tokens[self.index];
                let mut msg = String::from_str("Expected a valid statement, found ");
                msg.append(token.info.as_str());
                Err(Error { line: token.line, msg, kind: ErrorKind::Parse })
            },
        }
    }

    /// Parses `{ STATEMENTS }`: finds the matching closing brace, then parses
    /// the tokens in between on their own.
    fn parse_scope(&mut self) -> (r: Result<NodeProgram, Error>)
        requires
            old(self).index <= old(self).tokens@.len(),
            old(self).tokens@.len() > 0,
        ensures
            final(self).tokens@ == old(self).tokens@,
            match (r, scope_at(old(self).tokens@, old(self).index as int)) {
                (Ok(p), Ok((body, j))) => p@ == body && final(self).index == j,
                (Err(e), Err(f)) => e@ == f,
                _ => false,
            },
            r is Ok ==> old(self).index < final(self).index <= old(self).tokens@.len(),
        decreases old(self).tokens@.len(), old(self).tokens@.len() - old(self).index, 0int,
    {
        let ghost ts = self.tokens@;
        match self.require_token(0, TokenType::BraceOpen) {
            Ok(_) => {},
            Err(e) => return Err(e),
        }
        self.index += 1;
        let start_index = self.index;
        let mut end_index = start_index;
        let mut brace_count: usize = 1;
        while end_index < self.tokens.len() && brace_count > 0
            invariant
                self.tokens@ == ts,
                1 <= start_index <= end_index <= ts.len(),
                brace_count <= end_index - start_index + 1,
                brace_count > 0 ==> brace_close(ts, end_index as int, brace_count as int)
                    == brace_close(ts, start_index as int, 1),
                brace_count == 0 ==> end_index > start_index && brace_close(ts, start_index as int, 1)
                    == Some(end_index - 1),
            decreases ts.len() - end_index,
        {
            let token = self.tokens[end_index].token;
            end_index += 1;
            if token == TokenType::BraceOpen {
                brace_count += 1;
            } else if token == TokenType::BraceClose {
                brace_count -= 1;
            }
        }
        if brace_count != 0 {
            return Err(
                Error {
                    line: self.tokens[self.tokens.len() - 1].line,
                    msg: String::from_str(
                        "Expected closing brace `}`, the issue may potentially be earlier",
                    ),
                    kind: ErrorKind::Parse,
                },
            );
        }
        let close = end_index - 1;
        let mut new_tokens: Vec<Token> = Vec::new();
        let mut k = start_index;
        while k < close
            invariant
                self.tokens@ == ts,
                start_index <= k <= close < ts.len(),
                new_tokens@ == ts.subrange(start_index as int, k as int),
            decreases close - k,
        {
            new_tokens.push(self.tokens[k].cloned());
            k += 1;
            proof {
                assert(new_tokens@ =~= ts.subrange(start_index as int, k as int));
            }
        }
        let mut new_parser = Parser { tokens: new_tokens, index: 0 };
        let program = new_parser.parse();
        self.index = end_index;
        program
    }

    fn parse_function(&mut self) -> (r: Result<NodeStmtFunction, Error>)
        requires
            old(self).index < old(self).tokens@.len(),
        ensures
            final(self).tokens@ == old(self).tokens@,
            match (r, function_at(old(self).tokens@, old(self).index as int)) {
                (Ok(f), Ok((s, j))) => stmt_view(NodeStatements::Function(f)) == s && final(self).index == j,
                (Err(e), Err(fl)) => e@ == fl,
                _ => false,
            },
            r is Ok ==> old(self).index < final(self).index <= old(self).tokens@.len(),
        decreases old(self).tokens@.len(), old(self).tokens@.len() - old(self).index, 2int,
    {
        let ghost ts = self.tokens@;
        let ghost i0 = self.index as int;
        let identifier = match self.require_token(1, TokenType::NoToken) {
            Ok(t) => t,
            Err(e) => return Err(e),
        };
        match self.require_token(2, TokenType::ParenOpen) {
            Ok(_) => {},
            Err(e) => return Err(e),
        }
        // account for: fn name(
        self.index += 3;
        let mut args: Vec<NodeStmtDeclare> = Vec::new();
        proof {
            if let Ok((ds, k)) = params_from(ts, i0 + 3) {
                assert(Seq::<NodeStmtDeclare>::empty() + ds =~= ds);
            }
        }
        while self.require_token(0, TokenType::ParenClose).is_err()
            invariant
                self.tokens@ == ts,
                ts == old(self).tokens@,
                i0 == old(self).index,
                ts.len() > 0,
                i0 + 3 <= self.index <= ts.len(),
                require(ts, i0, 1, TokenType::NoToken) == Ok::<Token, Failure>(identifier),
                require(ts, i0, 2, TokenType::ParenOpen) is Ok,
                params_from(ts, i0 + 3) == prepend_params(args@, params_from(ts, self.index as int)),
            decreases ts.len() - self.index,
        {
            let ghost pre = args@;
            let ghost before = self.index as int;
            let d = match self.parse_param() {
                Ok(d) => d,
                Err(e) => return Err(e),
            };
            args.push(d);
            proof {
                let one = seq![d];
                assert(args@ =~= pre + one);
                match params_from(ts, self.index as int) {
                    Ok((ds, k3)) => assert(pre + (one + ds) =~= (pre + one) + ds),
                    Err(_) => {},
                }
            }
        }
        proof {
            assert(args@ + Seq::<NodeStmtDeclare>::empty() =~= args@);
        }
        // the closing paren of the parameters
        self.index += 1;
        let scope = match self.parse_scope() {
            Ok(p) => p,
            Err(e) => return Err(e),
        };
        Ok(NodeStmtFunction { identifier, args, scope })
    }

    /// A parameter: `int NAME`.
    fn parse_param(&mut self) -> (r: Result<NodeStmtDeclare, Error>)
        requires
            old(self).index <= old(self).tokens@.len(),
            old(self).tokens@.len() > 0,
        ensures
            final(self).tokens@ == old(self).tokens@,
            agrees_at(r, final(self).index, param_at(old(self).tokens@, old(self).index as int)),
            r is Ok ==> old(self).index < final(self).index <= old(self).tokens@.len(),
    {
        match self.require_token(0, TokenType::IntType) {
            Ok(_) => {},
            Err(e) => return Err(e),
        }
        let identifier = match self.require_token(1, TokenType::Identifier) {
            Ok(t) => t,
            Err(e) => return Err(e),
        };
        self.index += 2;
        Ok(NodeStmtDeclare { identifier, expression: None })
    }

    fn parse_func_call(&mut self) -> (r: Result<NodeStmtFunctionCall, Error>)
        requires
            old(self).index < old(self).tokens@.len(),
        ensures
            final(self).tokens@ == old(self).tokens@,
            match (r, call_at(old(self).tokens@, old(self).index as int)) {
                (Ok(c), Ok((t, j))) => c.identifier == t && c.args@ == Seq::<NodeStmtDeclare>::empty()
                    && final(self).index == j,
                (Err(e), Err(f)) => e@ == f,
                _ => false,
            },
            r is Err ==> final(self).index == old(self).index,
            r is Ok ==> old(self).index < final(self).index <= old(self).tokens@.len(),
    {
        match self.require_token(1, TokenType::ParenOpen) {
            Ok(_) => {},
            Err(e) => return Err(e),
        }
        match self.require_token(2, TokenType::ParenClose) {
            Ok(_) => {},
            Err(e) => return Err(e),
        }
        match self.require_token(3, TokenType::Semicolon) {
            Ok(_) => {},
            Err(e) => return Err(e),
        }
        let identifier = self.tokens[self.index].cloned();
        let args = Vec::new();
        // account for: name();
        self.index += 4;
        Ok(NodeStmtFunctionCall { identifier, args })
    }

    fn parse_exit(&mut self) -> (r: Result<NodeStmtExit, Error>)
        requires
            old(self).index < old(self).tokens@.len(),
        ensures
            final(self).tokens@ == old(self).tokens@,
            agrees_at(r, final(self).index, exit_at(old(self).tokens@, old(self).index as int)),
            r is Ok ==> old(self).index < final(self).index <= old(self).tokens@.len(),
    {
        match self.require_token(1, TokenType::ParenOpen) {
            Ok(_) => {},
            Err(e) => return Err(e),
        }
        // account for exit(
        self.index += 2;
        let expr = match self.parse_expr() {
            Ok(x) => x,
            Err(e) => return Err(e),
        };
        match self.require_token(0, TokenType::ParenClose) {
            Ok(_) => {},
            Err(e) => return Err(e),
        }
        match self.require_token(1, TokenType::Semicolon) {
            Ok(_) => {},
            Err(e) => return Err(e),
        }
        // account for );
        self.index += 2;
        Ok(NodeStmtExit { expression: expr })
    }

    fn parse_putchar(&mut self) -> (r: Result<NodeStmtPutChar, Error>)
        requires
            old(self).index < old(self).tokens@.len(),
        ensures
            final(self).tokens@ == old(self).tokens@,
            agrees_at(r, final(self).index, putchar_at(old(self).tokens@, old(self).index as int)),
            r is Ok ==> old(self).index < final(self).index <= old(self).tokens@.len(),
    {
        match self.require_token(1, TokenType::ParenOpen) {
            Ok(_) => {},
            Err(e) => return Err(e),
        }
        // account for putchar(
        self.index += 2;
        let expr = match self.parse_expr() {
            Ok(x) => x,
            Err(e) => return Err(e),
        };
        match self.require_token(0, TokenType::ParenClose) {
            Ok(_) => {},
            Err(e) => return Err(e),
        }
        match self.require_token(1, TokenType::Semicolon) {
            Ok(_) => {},
            Err(e) => return Err(e),
        }
        // account for );
        self.index += 2;
        Ok(NodeStmtPutChar { expression: expr })
    }

    fn parse_int_assign(&mut self) -> (r: Result<NodeStmtDeclare, Error>)
        requires
            old(self).index <= old(self).tokens@.len(),
            old(self).tokens@.len() > 0,
        ensures
            final(self).tokens@ == old(self).tokens@,
            agrees_at(r, final(self).index, declare_at(old(self).tokens@, old(self).index as int)),
            r is Ok ==> old(self).index < final(self).index <= old(self).tokens@.len(),
    {
        let identifier = match self.require_token(1, TokenType::Identifier) {
            Ok(t) => t,
            Err(e) => return Err(e),
        };
        // the initial value is optional
        if self.require_token(2, TokenType::AssignEq).is_err() {
            // account for int name
            self.index += 2;
            match self.require_token(0, TokenType::Semicolon) {
                Ok(_) => {},
                Err(e) => return Err(e),
            }
            self.index += 1;
            return Ok(NodeStmtDeclare { identifier, expression: None });
        }
        // account for int name =
        self.index += 3;
        let expr = match self.parse_expr() {
            Ok(x) => x,
            Err(e) => return Err(e),
        };
        match self.require_token(0, TokenType::Semicolon) {
            Ok(_) => {},
            Err(e) => return Err(e),
        }
        // account for ;
        self.index += 1;
        Ok(NodeStmtDeclare { identifier, expression: Some(expr) })
    }

    fn parse_set_var(&mut self) -> (r: Result<NodeStmtSet, Error>)
        requires
            old(self).index < old(self).tokens@.len(),
        ensures
            final(self).tokens@ == old(self).tokens@,
            agrees_at(r, final(self).index, set_at(old(self).tokens@, old(self).index as int)),
            r is Ok ==> old(self).index < final(self).index <= old(self).tokens@.len(),
    {
        match self.require_token(1, TokenType::AssignEq) {
            Ok(_) => {},
            Err(e) => return Err(e),
        }
        let identifier = match self.require_token(0, TokenType::NoToken) {
            Ok(t) => t,
            Err(e) => return Err(e),
        };
        // account for name =
        self.index += 2;
        let expr = match self.parse_expr() {
            Ok(x) => x,
            Err(e) => return Err(e),
        };
        match self.require_token(0, TokenType::Semicolon) {
            Ok(_) => {},
            Err(e) => return Err(e),
        }
        // account for ;
        self.index += 1;
        Ok(NodeStmtSet { identifier, expression: expr })
    }

    /// Whether the token at the cursor continues an expression with `parens`
    /// parentheses open.
    fn continues_expr(&self, parens: usize) -> (r: bool)
        requires
            self.index < self.tokens@.len(),
        ensures
            r == (is_math_kind(self.tokens@[self.index as int].token) && !(
            self.tokens@[self.index as int].token == TokenType::ParenClose && parens == 0)),
    {
        let k = self.tokens[self.index].token;
        is_math_token(k) && !(k == TokenType::ParenClose && parens == 0)
    }

    /// Takes the longest run of expression tokens whose parentheses never
    /// close more than they open, and parses it as one expression.
    fn parse_expr(&mut self) -> (r: Result<MathValue, Error>)
        requires
            old(self).index <= old(self).tokens@.len(),
            old(self).tokens@.len() > 0,
        ensures
            final(self).tokens@ == old(self).tokens@,
            agrees_at(r, final(self).index, expr_at(old(self).tokens@, old(self).index as int)),
            final(self).index == expr_end(old(self).tokens@, old(self).index as int, 0),
            r is Ok ==> old(self).index < final(self).index <= old(self).tokens@.len(),
    {
        let ghost ts = self.tokens@;
        let min_index = self.index;
        let mut parens: usize = 0;
        while self.index < self.tokens.len() && self.continues_expr(parens)
            invariant
                self.tokens@ == ts,
                min_index <= self.index <= ts.len(),
                parens <= self.index - min_index,
                expr_end(ts, self.index as int, parens as int) == expr_end(ts, min_index as int, 0),
            decreases ts.len() - self.index,
        {
            let k = self.tokens[self.index].token;
            if k == TokenType::ParenOpen {
                parens += 1;
            } else if k == TokenType::ParenClose {
                parens -= 1;
            }
            self.index += 1;
        }
        let max_index = self.index;
        proof {
            assert(expr_end(ts, max_index as int, parens as int) == max_index);
        }
        if max_index == min_index {
            let line = if min_index < self.tokens.len() {
                self.tokens[min_index].line
            } else {
                self.tokens[self.tokens.len() - 1].line
            };
            return Err(
                Error { line, msg: String::from_str("Expression is empty"), kind: ErrorKind::Parse },
            );
        }
        let expression_slice = slice_subrange(self.tokens.as_slice(), min_index, max_index);
        parse_expression(expression_slice)
    }

    /// The token at an offset from the cursor, which must be of the given
    /// category; `TokenType::NoToken` admits any.
    fn require_token(&self, offset: usize, token_type: TokenType) -> (r: Result<Token, Error>)
        requires
            self.tokens@.len() > 0,
        ensures
            match (r, require(self.tokens@, self.index as int, offset as int, token_type)) {
                (Ok(t), Ok(st)) => t == st,
                (Err(e), Err(f)) => e@ == f,
                _ => false,
            },
            r is Ok ==> self.index + offset < self.tokens@.len() <= usize::MAX,
    {
        let len = self.tokens.len();
        if self.index < len && offset < len - self.index {
            let token = &self.tokens[self.index + offset];
            if token_type == TokenType::NoToken {
                return Ok(token.cloned());
            }
            if token.token != token_type {
                let mut msg = String::from_str("Expected ");
                msg.append(token_type_name(token_type));
                msg.append(", found ");
                msg.append(token_type_name(token.token));
                return Err(Error { line: token.line, msg, kind: ErrorKind::Parse });
            }
            Ok(token.cloned())
        } else {
            Err(
                Error {
                    line: self.tokens[len - 1].line,
                    msg: String::from_str("Expected another token"),
                    kind: ErrorKind::Parse,
                },
            )
        }
    }
}

impl View for NodeProgram {
    type V = Seq<Stmt>;

    open spec fn view(&self) -> Seq<Stmt> {
        stmts_view(self.statements@)
    }
}

} // verus!
