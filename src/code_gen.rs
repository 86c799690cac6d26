use vstd::prelude::*;

use crate::errors::{Error, ErrorKind, Failure};
use crate::parser::math::{
    MathValue, NodeMathAdd, NodeMathDiv, NodeMathMult, NodeMathSub, OperationType,
};
use crate::parser::{
    stmt_view, stmts_view, NodeProgram, NodeStatements, NodeStmtDeclare, NodeStmtExit,
    NodeStmtFunction, NodeStmtFunctionCall, NodeStmtPutChar, NodeStmtSet, Stmt,
};
use crate::tokenise::{push_char, Token};

verus! {

/// The deepest the virtual stack may grow, in words.
pub const MAX_DEPTH: i64 = 1099511627776;

/// The mathematical state of a code generator: the virtual stack depth, the
/// declared variables with the depth of their slots (in order of
/// declaration), the functions seen, the main text and the text that
/// follows it.
pub struct GenState {
    pub depth: int,
    pub vars: Seq<(Seq<char>, int)>,
    pub functions: Seq<Seq<char>>,
    pub text: Seq<char>,
    pub post: Seq<char>,
}

/// The depths stay where offsets in bytes fit a machine word.
pub open spec fn gen_wf(s: GenState) -> bool {
    &&& -1 <= s.depth <= MAX_DEPTH
    &&& forall|k: int| 0 <= k < s.vars.len() ==> 0 <= #[trigger] s.vars[k].1 <= MAX_DEPTH + 1
}

/// The slot depth of the variable `name`, if it is declared.
pub open spec fn slot_of(vars: Seq<(Seq<char>, int)>, name: Seq<char>) -> Option<int>
    decreases vars.len(),
{
    if vars.len() == 0 {
        None
    } else if vars.last().0 == name {
        Some(vars.last().1)
    } else {
        slot_of(vars.drop_last(), name)
    }
}

/// The decimal digit character for `d` in `0..10`.
pub open spec fn digit_char(d: int) -> char {
    if d == 0 {
        '0'
    } else if d == 1 {
        '1'
    } else if d == 2 {
        '2'
    } else if d == 3 {
        '3'
    } else if d == 4 {
        '4'
    } else if d == 5 {
        '5'
    } else if d == 6 {
        '6'
    } else if d == 7 {
        '7'
    } else if d == 8 {
        '8'
    } else {
        '9'
    }
}

/// The decimal digits of a natural number.
pub open spec fn nat_text(n: nat) -> Seq<char>
    decreases n,
{
    if n < 10 {
        seq![digit_char(n as int)]
    } else {
        nat_text(n / 10) + seq![digit_char((n % 10) as int)]
    }
}

/// The decimal text of an integer.
pub open spec fn int_text(n: int) -> Seq<char> {
    if n < 0 {
        "-"@ + nat_text((-n) as nat)
    } else {
        nat_text(n as nat)
    }
}

/// Appends a piece of text to the main text.
pub open spec fn emit(s: GenState, t: Seq<char>) -> GenState {
    GenState { text: s.text + t, ..s }
}

/// The error for a stack that would outgrow `MAX_DEPTH`; it concerns no
/// source line, so its line is 0.
pub open spec fn stack_failure() -> Failure {
    Failure { line: 0, msg: "Stack depth limit exceeded"@, kind: ErrorKind::StackLimit }
}

/// The error for reading a name that was never declared.
pub open spec fn unknown_failure(t: Token) -> Failure {
    Failure { line: t.line as int, msg: "Unknown identifier "@ + t.info@, kind: ErrorKind::Undeclared }
}

/// The error for assigning to a name that was never declared.
pub open spec fn unassigned_failure(t: Token) -> Failure {
    Failure {
        line: t.line as int,
        msg: "Variable referenced before assignment "@ + t.info@,
        kind: ErrorKind::Undeclared,
    }
}

/// The error for declaring a name a second time.
pub open spec fn redeclared_failure(t: Token) -> Failure {
    Failure {
        line: t.line as int,
        msg: "Variable "@ + t.info@ + " has already been declared!"@,
        kind: ErrorKind::Redeclared,
    }
}

/// `push v`: one word more on the stack.
pub open spec fn push_st(s: GenState, v: Seq<char>) -> Result<GenState, Failure> {
    if s.depth >= MAX_DEPTH {
        Err(stack_failure())
    } else {
        Ok(GenState { depth: s.depth + 1, ..emit(s, "    push "@ + v + "\n"@) })
    }
}

/// `pop r`: one word less on the stack.
pub open spec fn pop_st(s: GenState, r: Seq<char>) -> GenState {
    GenState { depth: s.depth - 1, ..emit(s, "    pop "@ + r + "\n"@) }
}

/// Moves the stack pointer down by `amount` words.
pub open spec fn sub_sp(s: GenState, amount: int) -> Result<GenState, Failure> {
    if s.depth + amount > MAX_DEPTH {
        Err(stack_failure())
    } else {
        Ok(
            GenState {
                depth: s.depth + amount,
                ..emit(s, "    sub rsp, "@ + int_text(amount * 8) + "\n"@)
            },
        )
    }
}

/// Moves the stack pointer up by `amount` words.
pub open spec fn add_sp(s: GenState, amount: int) -> GenState {
    GenState { depth: s.depth - amount, ..emit(s, "    add rsp, "@ + int_text(amount * 8) + "\n"@) }
}

/// The load of a variable that lies `offset` bytes above the stack pointer.
pub open spec fn read_text(offset: int) -> Seq<char> {
    "    mov rax, QWORD [rsp + "@ + int_text(offset) + "]\n"@
}

/// `a + b` with both operands on the stack: the sum replaces them.
pub open spec fn add_tail(s: GenState) -> Result<GenState, Failure> {
    push_st(emit(pop_st(pop_st(s, "rax"@), "rdi"@), "    add rax, rdi\n"@), "rax"@)
}

/// `a - b` with both operands on the stack (`b` on top): the first minus
/// the second replaces them.
pub open spec fn sub_tail(s: GenState) -> Result<GenState, Failure> {
    push_st(emit(pop_st(pop_st(s, "rax"@), "rdi"@), "    sub rdi, rax\n"@), "rdi"@)
}

/// `a * b` with both operands on the stack: the product replaces them.
pub open spec fn mul_tail(s: GenState) -> Result<GenState, Failure> {
    push_st(emit(pop_st(pop_st(s, "rax"@), "rdi"@), "    mul rdi\n"@), "rax"@)
}

/// `a / b` with both operands on the stack (`b` on top): the high half of
/// the dividend is cleared, and the first divided by the second replaces
/// them.
pub open spec fn div_tail(s: GenState) -> Result<GenState, Failure> {
    push_st(
        emit(pop_st(pop_st(emit(s, "    xor rdx, rdx\n"@), "rbx"@), "rax"@), "    idiv rbx\n"@),
        "rax"@,
    )
}

/// The code of an expression: it leaves the expression's value on top of
/// the stack.
pub open spec fn expr_gen(s: GenState, e: MathValue) -> Result<GenState, Failure>
    decreases e,
{
    match e {
        MathValue::Integer(t) => push_st(s, t.info@),
        MathValue::Identifier(t) => match slot_of(s.vars, t.info@) {
            None => Err(unknown_failure(t)),
            Some(p) => push_st(emit(s, read_text((s.depth - p) * 8)), "rax"@),
        },
        MathValue::Operation(op) => match *op {
            OperationType::Add(n) => match expr_gen(s, n.value_1) {
                Err(f) => Err(f),
                Ok(s1) => match expr_gen(s1, n.value_2) {
                    Err(f) => Err(f),
                    Ok(s2) => add_tail(s2),
                },
            },
            OperationType::Sub(n) => match expr_gen(s, n.value_1) {
                Err(f) => Err(f),
                Ok(s1) => match expr_gen(s1, n.value_2) {
                    Err(f) => Err(f),
                    Ok(s2) => sub_tail(s2),
                },
            },
            OperationType::Mult(n) => match expr_gen(s, n.value_1) {
                Err(f) => Err(f),
                Ok(s1) => match expr_gen(s1, n.value_2) {
                    Err(f) => Err(f),
                    Ok(s2) => mul_tail(s2),
                },
            },
            OperationType::Div(n) => match expr_gen(s, n.value_1) {
                Err(f) => Err(f),
                Ok(s1) => match expr_gen(s1, n.value_2) {
                    Err(f) => Err(f),
                    Ok(s2) => div_tail(s2),
                },
            },
        },
    }
}

/// Writes the byte at the stack pointer to standard output.
pub open spec fn putchar_text() -> Seq<char> {
    "    mov rax, 1\n    mov edi, 1\n    mov rsi, rsp\n    mov rdx, 1\n    syscall\n"@
}

/// `exit(e);`: the value of `e` becomes the exit status.
pub open spec fn exit_gen(s: GenState, x: NodeStmtExit) -> Result<GenState, Failure> {
    match expr_gen(s, x.expression) {
        Err(f) => Err(f),
        Ok(s1) => Ok(emit(pop_st(emit(s1, "    mov rax, 60\n"@), "rdi"@), "    syscall\n"@)),
    }
}

/// `putchar(e);`: writes the low byte of the value of `e`, then frees its slot.
pub open spec fn putchar_gen(s: GenState, x: NodeStmtPutChar) -> Result<GenState, Failure> {
    match expr_gen(emit(s, "    ; put char\n"@), x.expression) {
        Err(f) => Err(f),
        Ok(s1) => Ok(add_sp(emit(s1, putchar_text()), 1)),
    }
}

/// `int name [= e];`: the variable's slot is the next word of the stack.
pub open spec fn declare_gen(s: GenState, d: NodeStmtDeclare) -> Result<GenState, Failure> {
    let name = d.identifier.info@;
    if slot_of(s.vars, name) is Some {
        Err(redeclared_failure(d.identifier))
    } else {
        let s1 = emit(
            GenState { vars: s.vars.push((name, s.depth + 1)), ..s },
            "    ; declare variable "@ + name + "\n"@,
        );
        match d.expression {
            Some(e) => expr_gen(emit(s1, "    ; initial value for variable\n"@), e),
            None => sub_sp(emit(s1, "    ; allocate space for variable\n"@), 1),
        }
    }
}

/// `name = e;`: the value of `e` is stored in the variable's slot.
pub open spec fn set_gen(s: GenState, x: NodeStmtSet) -> Result<GenState, Failure> {
    match slot_of(s.vars, x.identifier.info@) {
        None => Err(unassigned_failure(x.identifier)),
        Some(p) => match expr_gen(emit(s, "    ; setting a variable\n"@), x.expression) {
            Err(f) => Err(f),
            Ok(s1) => {
                let s2 = pop_st(emit(s1, "    ; value is at the top of the stack\n"@), "rax"@);
                Ok(emit(s2, "    mov [rsp + "@ + int_text((s2.depth - p) * 8) + "], rax\n"@))
            },
        },
    }
}

/// `name();`: a call of the function's label; no arguments are passed.
pub open spec fn call_gen(s: GenState, t: Token) -> GenState {
    emit(s, "    call fn_"@ + t.info@ + "\n"@)
}

/// The generator for a function body: the enclosing declarations and
/// functions are known, but its stack starts afresh.
pub open spec fn nested_start(s: GenState) -> GenState {
    GenState {
        depth: -1,
        vars: s.vars,
        functions: s.functions,
        text: Seq::empty(),
        post: Seq::empty(),
    }
}

/// A body's code: its statements, then the release of every word the body
/// left on the stack, then the functions it defined.
pub open spec fn scope_text(n: GenState) -> Seq<char> {
    let n2 = add_sp(emit(n, "    ; fix stack pointer\n"@), n.depth + 1);
    n2.text + n2.post
}

/// A function's label, its body, and its return.
pub open spec fn function_text(name: Seq<char>, n: GenState) -> Seq<char> {
    "fn_"@ + name + ":\n"@ + scope_text(n) + "    ret\n"@
}

/// The code of one statement.
pub open spec fn stmt_gen(s: GenState, st: Stmt) -> Result<GenState, Failure>
    decreases st,
{
    match st {
        Stmt::Exit(x) => exit_gen(s, x),
        Stmt::PutChar(x) => putchar_gen(s, x),
        Stmt::Declare(d) => declare_gen(s, d),
        Stmt::SetVar(x) => set_gen(s, x),
        Stmt::FunctionCall(t, _) => Ok(call_gen(s, t)),
        Stmt::Function(name, _, body) => {
            let s1 = GenState { functions: s.functions.push(name.info@), ..s };
            match stmts_gen(nested_start(s1), body) {
                Err(f) => Err(f),
                Ok(n) => Ok(GenState { post: s1.post + function_text(name.info@, n), ..s1 }),
            }
        },
    }
}

/// The code of statements in order; the first error stops it.
pub open spec fn stmts_gen(s: GenState, ss: Seq<Stmt>) -> Result<GenState, Failure>
    decreases ss,
{
    if ss.len() == 0 {
        Ok(s)
    } else {
        proof {
            assert(decreases_to!(ss => ss[ss.len() - 1]));
            assert(decreases_to!(ss => ss.subrange(0, ss.len() - 1)));
        }
        match stmts_gen(s, ss.subrange(0, ss.len() - 1)) {
            Err(f) => Err(f),
            Ok(s1) => stmt_gen(s1, ss[ss.len() - 1]),
        }
    }
}

/// A fresh generator: the entry point pushes the initial stack pointer, and
/// the text that follows the program exits with status 0.
pub open spec fn initial_state() -> GenState {
    GenState {
        depth: -1,
        vars: Seq::empty(),
        functions: Seq::empty(),
        text: "global _start\n_start:\n    push rsp\n"@,
        post: "    mov rax, 60\n    mov rdi, 0\n    syscall\n"@,
    }
}

/// The assembly text of a whole program.
pub open spec fn program_text(p: Seq<Stmt>) -> Result<Seq<char>, Failure> {
    match stmts_gen(initial_state(), p) {
        Ok(s) => Ok(s.text + s.post),
        Err(f) => Err(f),
    }
}

/// An exec result agrees with a spec result, the generator standing in the
/// spec's state on success.
pub open spec fn gen_agrees(r: Result<(), Error>, after: GenState, s: Result<GenState, Failure>) -> bool {
    match (r, s) {
        (Ok(_), Ok(x)) => after == x,
        (Err(e), Err(f)) => e@ == f,
        _ => false,
    }
}

/// The value of statement nodes holds the value of each, index by index.
pub proof fn lemma_stmts_view(ss: Seq<NodeStatements>)
    ensures
        stmts_view(ss).len() == ss.len(),
        forall|i: int| 0 <= i < ss.len() ==> #[trigger] stmts_view(ss)[i] == stmt_view(ss[i]),
    decreases ss.len(),
{
    if ss.len() > 0 {
        lemma_stmts_view(ss.subrange(0, ss.len() - 1));
    }
}

/// Once a prefix of the statements fails, the whole fails with the same
/// error.
pub proof fn lemma_stmts_gen_err(s: GenState, ss: Seq<Stmt>, k: int)
    requires
        0 <= k <= ss.len(),
        stmts_gen(s, ss.subrange(0, k)) is Err,
    ensures
        stmts_gen(s, ss) == stmts_gen(s, ss.subrange(0, k)),
    decreases ss.len() - k,
{
    if k < ss.len() {
        assert(ss.subrange(0, k + 1).subrange(0, k) =~= ss.subrange(0, k));
        lemma_stmts_gen_err(s, ss, k + 1);
    } else {
        assert(ss.subrange(0, k) =~= ss);
    }
}

proof fn lemma_expr_gen_frame(s: GenState, e: MathValue)
    ensures
        expr_gen(s, e) is Ok ==> expr_gen(s, e)->Ok_0.depth == s.depth + 1 && expr_gen(
            s,
            e,
        )->Ok_0.vars == s.vars,
    decreases e,
{
    match e {
        MathValue::Operation(op) => match *op {
            OperationType::Add(n) => {
                lemma_expr_gen_frame(s, n.value_1);
                if let Ok(s1) = expr_gen(s, n.value_1) {
                    lemma_expr_gen_frame(s1, n.value_2);
                }
            },
            OperationType::Sub(n) => {
                lemma_expr_gen_frame(s, n.value_1);
                if let Ok(s1) = expr_gen(s, n.value_1) {
                    lemma_expr_gen_frame(s1, n.value_2);
                }
            },
            OperationType::Mult(n) => {
                lemma_expr_gen_frame(s, n.value_1);
                if let Ok(s1) = expr_gen(s, n.value_1) {
                    lemma_expr_gen_frame(s1, n.value_2);
                }
            },
            OperationType::Div(n) => {
                lemma_expr_gen_frame(s, n.value_1);
                if let Ok(s1) = expr_gen(s, n.value_1) {
                    lemma_expr_gen_frame(s1, n.value_2);
                }
            },
        },
        _ => {},
    }
}

proof fn lemma_declare_frame(s: GenState, d: NodeStmtDeclare)
    ensures
        declare_gen(s, d) is Ok ==> declare_gen(s, d)->Ok_0.depth == s.depth + 1 && declare_gen(
            s,
            d,
        )->Ok_0.vars == s.vars.push((d.identifier.info@, s.depth + 1)),
{
    let name = d.identifier.info@;
    if slot_of(s.vars, name) is None {
        let s1 = emit(
            GenState { vars: s.vars.push((name, s.depth + 1)), ..s },
            "    ; declare variable "@ + name + "\n"@,
        );
        if let Some(e) = d.expression {
            lemma_expr_gen_frame(emit(s1, "    ; initial value for variable\n"@), e);
        }
    }
}

/// Every statement leaves the stack as deep as it found it, but a
/// declaration, which adds its variable's slot; and a function body releases
/// every word it left on the stack, so that it returns with the stack as it
/// was entered.
pub proof fn law_statement_depth(s: GenState, st: Stmt)
    requires
        stmt_gen(s, st) is Ok,
    ensures
        stmt_gen(s, st)->Ok_0.depth == s.depth + (if st is Declare {
            1int
        } else {
            0int
        }),
        st is Function ==> ({
            let s1 = GenState { functions: s.functions.push(st->Function_0.info@), ..s };
            let n = stmts_gen(nested_start(s1), st->Function_2)->Ok_0;
            add_sp(emit(n, "    ; fix stack pointer\n"@), n.depth + 1).depth == -1
        }),
{
    match st {
        Stmt::Exit(x) => lemma_expr_gen_frame(s, x.expression),
        Stmt::PutChar(x) => lemma_expr_gen_frame(emit(s, "    ; put char\n"@), x.expression),
        Stmt::Declare(d) => lemma_declare_frame(s, d),
        Stmt::SetVar(x) => lemma_expr_gen_frame(emit(s, "    ; setting a variable\n"@), x.expression),
        _ => {},
    }
}

/// Pushes words one after another.
pub open spec fn push_all(s: GenState, vs: Seq<Seq<char>>) -> Result<GenState, Failure>
    decreases vs.len(),
{
    if vs.len() == 0 {
        Ok(s)
    } else {
        match push_all(s, vs.drop_last()) {
            Err(f) => Err(f),
            Ok(s1) => push_st(s1, vs.last()),
        }
    }
}

proof fn lemma_push_all_frame(s: GenState, vs: Seq<Seq<char>>)
    ensures
        push_all(s, vs) is Ok ==> push_all(s, vs)->Ok_0.depth == s.depth + vs.len()
            && push_all(s, vs)->Ok_0.vars == s.vars,
    decreases vs.len(),
{
    if vs.len() > 0 {
        lemma_push_all_frame(s, vs.drop_last());
    }
}

/// A variable declared at depth D and read after N more words were pushed
/// is loaded from ((D + N) - D) words, N words, above the stack pointer,
/// whatever those words were.
pub proof fn law_read_offset_after_pushes(s: GenState, d: NodeStmtDeclare, vs: Seq<Seq<char>>)
    requires
        declare_gen(s, d) is Ok,
        push_all(declare_gen(s, d)->Ok_0, vs) is Ok,
    ensures
        ({
            let after = push_all(declare_gen(s, d)->Ok_0, vs)->Ok_0;
            expr_gen(after, MathValue::Identifier(d.identifier)) == push_st(
                emit(after, read_text((vs.len() * 8) as int)),
                "rax"@,
            )
        }),
{
    lemma_declare_frame(s, d);
    lemma_push_all_frame(declare_gen(s, d)->Ok_0, vs);
    let after = push_all(declare_gen(s, d)->Ok_0, vs)->Ok_0;
    assert(slot_of(after.vars, d.identifier.info@) == Some(s.depth + 1));
    assert((after.depth - (s.depth + 1)) * 8 == vs.len() * 8);
}

/// A variable declared at depth D and assigned after N more words were
/// pushed is stored ((D + N) - D) words, N words, above the stack pointer
/// once the new value has been popped, whatever those words were; and the
/// assignment leaves the stack as deep as it found it.
pub proof fn law_store_offset_after_pushes(
    s: GenState,
    d: NodeStmtDeclare,
    vs: Seq<Seq<char>>,
    x: NodeStmtSet,
)
    requires
        declare_gen(s, d) is Ok,
        push_all(declare_gen(s, d)->Ok_0, vs) is Ok,
        x.identifier.info@ == d.identifier.info@,
        set_gen(push_all(declare_gen(s, d)->Ok_0, vs)->Ok_0, x) is Ok,
    ensures
        ({
            let after = push_all(declare_gen(s, d)->Ok_0, vs)->Ok_0;
            let s1 = expr_gen(emit(after, "    ; setting a variable\n"@), x.expression)->Ok_0;
            &&& set_gen(after, x) == Ok::<GenState, Failure>(
                emit(
                    pop_st(emit(s1, "    ; value is at the top of the stack\n"@), "rax"@),
                    "    mov [rsp + "@ + int_text((vs.len() * 8) as int) + "], rax\n"@,
                ),
            )
            &&& set_gen(after, x)->Ok_0.depth == after.depth
        }),
{
    lemma_declare_frame(s, d);
    lemma_push_all_frame(declare_gen(s, d)->Ok_0, vs);
    let after = push_all(declare_gen(s, d)->Ok_0, vs)->Ok_0;
    lemma_expr_gen_frame(emit(after, "    ; setting a variable\n"@), x.expression);
    assert(slot_of(after.vars, x.identifier.info@) == Some(s.depth + 1));
}

/// Declaring a name a second time in the same scope fails with a
/// redeclaration error that names it.
pub proof fn law_redeclaration_fails(s: GenState, d1: NodeStmtDeclare, d2: NodeStmtDeclare)
    requires
        declare_gen(s, d1) is Ok,
        d2.identifier.info@ == d1.identifier.info@,
    ensures
        declare_gen(declare_gen(s, d1)->Ok_0, d2) == Err::<GenState, Failure>(
            redeclared_failure(d2.identifier),
        ),
{
    lemma_declare_frame(s, d1);
}

/// Reading a name that no declaration has made fails with an
/// undeclared-identifier error that names it; so does a program whose first
/// statement reads it.
pub proof fn law_read_before_declaration(s: GenState, t: Token)
    requires
        slot_of(s.vars, t.info@) is None,
    ensures
        expr_gen(s, MathValue::Identifier(t)) == Err::<GenState, Failure>(unknown_failure(t)),
        program_text(seq![Stmt::Exit(NodeStmtExit { expression: MathValue::Identifier(t) })])
            == Err::<Seq<char>, Failure>(unknown_failure(t)),
{
    let p = seq![Stmt::Exit(NodeStmtExit { expression: MathValue::Identifier(t) })];
    assert(p.subrange(0, 0) =~= Seq::<Stmt>::empty());
    assert(stmts_gen(initial_state(), p.subrange(0, 0)) == Ok::<GenState, Failure>(initial_state()));
    assert(slot_of(initial_state().vars, t.info@) is None);
    assert(stmt_gen(initial_state(), p[0]) == Err::<GenState, Failure>(unknown_failure(t)));
    assert(stmts_gen(initial_state(), p) == Err::<GenState, Failure>(unknown_failure(t)));
}

fn digit(d: u64) -> (c: char)
    requires
        d < 10,
    ensures
        c == digit_char(d as int),
{
    match d {
        0 => '0',
        1 => '1',
        2 => '2',
        3 => '3',
        4 => '4',
        5 => '5',
        6 => '6',
        7 => '7',
        8 => '8',
        _ => '9',
    }
}

fn push_nat(s: &mut String, n: u64)
    ensures
        final(s)@ == old(s)@ + nat_text(n as nat),
    decreases n,
{
    if n >= 10 {
        push_nat(s, n / 10);
    }
    push_char(s, digit(n % 10));
    proof {
        if n >= 10 {
            assert(final(s)@ =~= old(s)@ + nat_text(n as nat));
        }
    }
}

/// Appends the decimal text of `n`.
pub fn push_int(s: &mut String, n: i64)
    requires
        n > i64::MIN,
    ensures
        final(s)@ == old(s)@ + int_text(n as int),
{
    if n < 0 {
        s.append("-");
        push_nat(s, (-n) as u64);
        proof {
            assert(final(s)@ =~= old(s)@ + int_text(n as int));
        }
    } else {
        push_nat(s, n as u64);
    }
}

/// A declared variable and the depth of its slot.
struct Variable {
    name: String,
    slot: i64,
}

/// Generates assembly for a program, tracking the depth of the stack and
/// where each variable lies on it.
pub struct CodeGen {
    stack_ptr: i64,
    pub main_asm: String,
    pub post_asm: String,
    variables: Vec<Variable>,
    functions: Vec<String>,
}

spec fn vars_view(vs: Seq<Variable>) -> Seq<(Seq<char>, int)> {
    vs.map_values(|v: Variable| (v.name@, v.slot as int))
}

spec fn names_view(fs: Seq<String>) -> Seq<Seq<char>> {
    fs.map_values(|f: String| f@)
}

impl View for CodeGen {
    type V = GenState;

    closed spec fn view(&self) -> GenState {
        GenState {
            depth: self.stack_ptr as int,
            vars: vars_view(self.variables@),
            functions: names_view(self.functions@),
            text: self.main_asm@,
            post: self.post_asm@,
        }
    }
}

impl CodeGen {
    /// The main text generated so far (the field `main_asm`).
    pub fn main_text(&self) -> (r: &String)
        ensures
            r@ == self@.text,
    {
        &self.main_asm
    }

    /// The text that follows the main text (the field `post_asm`).
    pub fn post_text(&self) -> (r: &String)
        ensures
            r@ == self@.post,
    {
        &self.post_asm
    }
}

fn copy_variables(vs: &Vec<Variable>) -> (r: Vec<Variable>)
    ensures
        vars_view(r@) == vars_view(vs@),
{
    let mut r: Vec<Variable> = Vec::new();
    let mut k: usize = 0;
    while k < vs.len()
        invariant
            k <= vs@.len(),
            r@.len() == k,
            forall|j: int| 0 <= j < k ==> #[trigger] r@[j].name@ == vs@[j].name@ && r@[j].slot == vs@[j].slot,
        decreases vs@.len() - k,
    {
        r.push(Variable { name: vs[k].name.clone(), slot: vs[k].slot });
        k += 1;
    }
    proof {
        assert(vars_view(r@) =~= vars_view(vs@));
    }
    r
}

fn copy_names(fs: &Vec<String>) -> (r: Vec<String>)
    ensures
        names_view(r@) == names_view(fs@),
{
    let mut r: Vec<String> = Vec::new();
    let mut k: usize = 0;
    while k < fs.len()
        invariant
            k <= fs@.len(),
            r@.len() == k,
            forall|j: int| 0 <= j < k ==> #[trigger] r@[j]@ == fs@[j]@,
        decreases fs@.len() - k,
    {
        r.push(fs[k].clone());
        k += 1;
    }
    proof {
        assert(names_view(r@) =~= names_view(fs@));
    }
    r
}

impl CodeGen {
    /// A generator for a whole program, with its entry and exit sequences.
    pub fn new() -> (r: CodeGen)
        ensures
            r@ == initial_state(),
            gen_wf(r@),
    {
        let r = CodeGen {
            stack_ptr: -1,
            main_asm: String::from_str("global _start\n_start:\n    push rsp\n"),
            post_asm: String::from_str("    mov rax, 60\n    mov rdi, 0\n    syscall\n"),
            variables: Vec::new(),
            functions: Vec::new(),
        };
        proof {
            assert(vars_view(r.variables@) =~= Seq::<(Seq<char>, int)>::empty());
            assert(names_view(r.functions@) =~= Seq::<Seq<char>>::empty());
        }
        r
    }

    /// Generates the program and returns the whole text: the main part, its
    /// exit sequence, then the functions.
    pub fn gen_output(&mut self, ast: &NodeProgram) -> (r: Result<String, Error>)
        requires
            gen_wf(old(self)@),
        ensures
            match (r, stmts_gen(old(self)@, ast@)) {
                (Ok(out), Ok(s)) => out@ == s.text + s.post && final(self)@ == s,
                (Err(e), Err(f)) => e@ == f,
                _ => false,
            },
            r is Ok ==> gen_wf(final(self)@),
    {
        match self.generate(ast) {
            Ok(_) => {},
            Err(e) => return Err(e),
        }
        let mut output = String::new();
        output.append(self.main_asm.as_str());
        output.append(self.post_asm.as_str());
        Ok(output)
    }

    /// Generates the statements of a program in order.
    pub fn generate(&mut self, ast: &NodeProgram) -> (r: Result<(), Error>)
        requires
            gen_wf(old(self)@),
        ensures
            gen_agrees(r, final(self)@, stmts_gen(old(self)@, ast@)),
            r is Ok ==> gen_wf(final(self)@),
        decreases ast, 0int,
    {
        let ghost v = ast@;
        proof {
            lemma_stmts_view(ast.statements@);
            assert(v.subrange(0, 0) =~= Seq::<Stmt>::empty());
        }
        let mut i: usize = 0;
        while i < ast.statements.len()
            invariant
                v == ast@,
                v.len() == ast.statements@.len(),
                forall|k: int| 0 <= k < v.len() ==> #[trigger] v[k] == stmt_view(ast.statements@[k]),
                i <= v.len(),
                gen_wf(self@),
                stmts_gen(old(self)@, v.subrange(0, i as int)) == Ok::<GenState, Failure>(self@),
            decreases v.len() - i,
        {
            proof {
                assert(v.subrange(0, i + 1).subrange(0, i as int) =~= v.subrange(0, i as int));
            }
            let r = self.gen_statement(&ast.statements[i]);
            match r {
                Ok(_) => {},
                Err(e) => {
                    proof {
                        lemma_stmts_gen_err(old(self)@, v, i + 1);
                    }
                    return Err(e);
                },
            }
            i += 1;
        }
        proof {
            assert(v.subrange(0, i as int) =~= v);
        }
        Ok(())
    }

    fn gen_statement(&mut self, stmt: &NodeStatements) -> (r: Result<(), Error>)
        requires
            gen_wf(old(self)@),
        ensures
            gen_agrees(r, final(self)@, stmt_gen(old(self)@, stmt_view(*stmt))),
            r is Ok ==> gen_wf(final(self)@),
        decreases stmt, 0int,
    {
        match stmt {
            NodeStatements::Declare(declare_stmt) => self.gen_declare(declare_stmt),
            NodeStatements::Exit(exit_stmt) => self.gen_exit(exit_stmt),
            NodeStatements::PutChar(putchar_stmt) => self.gen_putchar(putchar_stmt),
            NodeStatements::SetVar(set_stmt) => self.gen_set(set_stmt),
            NodeStatements::Function(func_stmt) => self.gen_function(func_stmt),
            NodeStatements::FunctionCall(func_call_stmt) => {
                self.gen_func_call(func_call_stmt);
                Ok(())
            },
        }
    }

    fn gen_func_call(&mut self, func_call_stmt: &NodeStmtFunctionCall)
        ensures
            final(self)@ == call_gen(old(self)@, func_call_stmt.identifier),
    {
        let mut line = String::from_str("    call fn_");
        line.append(func_call_stmt.identifier.info.as_str());
        line.append("\n");
        self.main_asm.append(line.as_str());
    }

    fn gen_function(&mut self, func_stmt: &NodeStmtFunction) -> (r: Result<(), Error>)
        requires
            gen_wf(old(self)@),
        ensures
            gen_agrees(
                r,
                final(self)@,
                stmt_gen(old(self)@, stmt_view(NodeStatements::Function(*func_stmt))),
            ),
            r is Ok ==> gen_wf(final(self)@),
        decreases func_stmt, 0int,
    {
        let ghost name = func_stmt.identifier.info@;
        self.functions.push(func_stmt.identifier.info.clone());
        proof {
            assert(names_view(self.functions@) =~= names_view(old(self).functions@).push(name));
        }
        let mut assembly = String::from_str("fn_");
        assembly.append(func_stmt.identifier.info.as_str());
        assembly.append(":\n");
        let scope_asm = match self.gen_scope(&func_stmt.scope) {
            Ok(t) => t,
            Err(e) => return Err(e),
        };
        assembly.append(scope_asm.as_str());
        assembly.append("    ret\n");
        self.post_asm.append(assembly.as_str());
        Ok(())
    }

    /// Generates a function body with a generator of its own, which knows
    /// the declarations made so far but starts its stack afresh.
    fn gen_scope(&self, program: &NodeProgram) -> (r: Result<String, Error>)
        requires
            gen_wf(self@),
        ensures
            match (r, stmts_gen(nested_start(self@), program@)) {
                (Ok(t), Ok(n)) => t@ == scope_text(n),
                (Err(e), Err(f)) => e@ == f,
                _ => false,
            },
        decreases program, 1int,
    {
        let mut new_generator = CodeGen {
            stack_ptr: -1,
            main_asm: String::new(),
            post_asm: String::new(),
            variables: copy_variables(&self.variables),
            functions: copy_names(&self.functions),
        };
        proof {
            assert(new_generator@ == nested_start(self@));
        }
        match new_generator.generate(program) {
            Ok(_) => {},
            Err(e) => return Err(e),
        }
        new_generator.main_asm.append("    ; fix stack pointer\n");
        let amount = new_generator.stack_ptr + 1;
        new_generator.add_stack_pointer(amount);
        let mut out = String::new();
        out.append(new_generator.main_asm.as_str());
        out.append(new_generator.post_asm.as_str());
        Ok(out)
    }

    fn gen_declare(&mut self, declare_stmt: &NodeStmtDeclare) -> (r: Result<(), Error>)
        requires
            gen_wf(old(self)@),
        ensures
            gen_agrees(r, final(self)@, declare_gen(old(self)@, *declare_stmt)),
            r is Ok ==> gen_wf(final(self)@),
    {
        let name = &declare_stmt.identifier;
        if self.var_declared(name) {
            let mut msg = String::from_str("Variable ");
            msg.append(name.info.as_str());
            msg.append(" has already been declared!");
            return Err(Error { line: name.line, msg, kind: ErrorKind::Redeclared });
        }
        let slot = self.stack_ptr + 1;
        self.variables.push(Variable { name: name.info.clone(), slot });
        proof {
            assert(vars_view(self.variables@) =~= vars_view(old(self).variables@).push(
                (name.info@, slot as int),
            ));
        }
        let mut line = String::from_str("    ; declare variable ");
        line.append(name.info.as_str());
        line.append("\n");
        self.main_asm.append(line.as_str());
        match &declare_stmt.expression {
            Some(expression) => {
                self.main_asm.append("    ; initial value for variable\n");
                self.gen_expression(expression)
            },
            None => {
                // moving the stack pointer allocates the slot
                self.main_asm.append("    ; allocate space for variable\n");
                self.sub_stack_pointer(1)
            },
        }
    }

    fn gen_set(&mut self, set_stmt: &NodeStmtSet) -> (r: Result<(), Error>)
        requires
            gen_wf(old(self)@),
        ensures
            gen_agrees(r, final(self)@, set_gen(old(self)@, *set_stmt)),
            r is Ok ==> gen_wf(final(self)@),
    {
        let var_ptr = match self.get_var_ptr(&set_stmt.identifier) {
            Some(p) => p,
            None => {
                let mut msg = String::from_str("Variable referenced before assignment ");
                msg.append(set_stmt.identifier.info.as_str());
                return Err(Error { line: set_stmt.identifier.line, msg, kind: ErrorKind::Undeclared });
            },
        };
        self.main_asm.append("    ; setting a variable\n");
        match self.gen_expression(&set_stmt.expression) {
            Ok(_) => {},
            Err(e) => return Err(e),
        }
        self.main_asm.append("    ; value is at the top of the stack\n");
        self.pop("rax");
        let mut line = String::from_str("    mov [rsp + ");
        push_int(&mut line, (self.stack_ptr - var_ptr) * 8);
        line.append("], rax\n");
        self.main_asm.append(line.as_str());
        Ok(())
    }

    fn gen_exit(&mut self, exit_stmt: &NodeStmtExit) -> (r: Result<(), Error>)
        requires
            gen_wf(old(self)@),
        ensures
            gen_agrees(r, final(self)@, exit_gen(old(self)@, *exit_stmt)),
            r is Ok ==> gen_wf(final(self)@),
    {
        match self.gen_expression(&exit_stmt.expression) {
            Ok(_) => {},
            Err(e) => return Err(e),
        }
        self.main_asm.append("    mov rax, 60\n");
        self.pop("rdi");
        self.main_asm.append("    syscall\n");
        Ok(())
    }

    fn gen_putchar(&mut self, putchar_stmt: &NodeStmtPutChar) -> (r: Result<(), Error>)
        requires
            gen_wf(old(self)@),
        ensures
            gen_agrees(r, final(self)@, putchar_gen(old(self)@, *putchar_stmt)),
            r is Ok ==> gen_wf(final(self)@),
    {
        self.main_asm.append("    ; put char\n");
        match self.gen_expression(&putchar_stmt.expression) {
            Ok(_) => {},
            Err(e) => return Err(e),
        }
        self.main_asm.append(
            "    mov rax, 1\n    mov edi, 1\n    mov rsi, rsp\n    mov rdx, 1\n    syscall\n",
        );
        self.add_stack_pointer(1);
        Ok(())
    }

    /// Generates an expression, leaving its value on top of the stack.
    fn gen_expression(&mut self, expr: &MathValue) -> (r: Result<(), Error>)
        requires
            gen_wf(old(self)@),
        ensures
            gen_agrees(r, final(self)@, expr_gen(old(self)@, *expr)),
            r is Ok ==> gen_wf(final(self)@) && final(self)@.depth == old(self)@.depth + 1
                && final(self)@.vars == old(self)@.vars,
        decreases expr,
    {
        match expr {
            MathValue::Integer(integer) => self.push(integer.info.as_str()),
            MathValue::Identifier(ident) => self.push_var_value(ident),
            MathValue::Operation(oper) => {
                match &**oper {
                    OperationType::Add(add) => {
                        match self.gen_expression(&add.value_1) {
                            Ok(_) => {},
                            Err(e) => return Err(e),
                        }
                        match self.gen_expression(&add.value_2) {
                            Ok(_) => {},
                            Err(e) => return Err(e),
                        }
                        self.pop("rax");
                        self.pop("rdi");
                        self.main_asm.append("    add rax, rdi\n");
                        self.push("rax")
                    },
                    OperationType::Sub(sub) => {
                        match self.gen_expression(&sub.value_1) {
                            Ok(_) => {},
                            Err(e) => return Err(e),
                        }
                        match self.gen_expression(&sub.value_2) {
                            Ok(_) => {},
                            Err(e) => return Err(e),
                        }
                        self.pop("rax");
                        self.pop("rdi");
                        self.main_asm.append("    sub rdi, rax\n");
                        self.push("rdi")
                    },
                    OperationType::Mult(mult) => {
                        match self.gen_expression(&mult.value_1) {
                            Ok(_) => {},
                            Err(e) => return Err(e),
                        }
                        match self.gen_expression(&mult.value_2) {
                            Ok(_) => {},
                            Err(e) => return Err(e),
                        }
                        self.pop("rax");
                        self.pop("rdi");
                        self.main_asm.append("    mul rdi\n");
                        self.push("rax")
                    },
                    OperationType::Div(div) => {
                        match self.gen_expression(&div.value_1) {
                            Ok(_) => {},
                            Err(e) => return Err(e),
                        }
                        match self.gen_expression(&div.value_2) {
                            Ok(_) => {},
                            Err(e) => return Err(e),
                        }
                        // the dividend's high half must be clear
                        self.main_asm.append("    xor rdx, rdx\n");
                        // the divisor was pushed last
                        self.pop("rbx");
                        self.pop("rax");
                        self.main_asm.append("    idiv rbx\n");
                        self.push("rax")
                    },
                }
            },
        }
    }

    fn push(&mut self, reg_or_lit: &str) -> (r: Result<(), Error>)
        requires
            -1 <= old(self)@.depth <= MAX_DEPTH,
        ensures
            gen_agrees(r, final(self)@, push_st(old(self)@, reg_or_lit@)),
    {
        if self.stack_ptr >= MAX_DEPTH {
            return Err(
                Error {
                    line: 0,
                    msg: String::from_str("Stack depth limit exceeded"),
                    kind: ErrorKind::StackLimit,
                },
            );
        }
        self.stack_ptr += 1;
        let mut line = String::from_str("    push ");
        line.append(reg_or_lit);
        line.append("\n");
        self.main_asm.append(line.as_str());
        Ok(())
    }

    fn pop(&mut self, reg: &str)
        requires
            0 <= old(self)@.depth,
        ensures
            final(self)@ == pop_st(old(self)@, reg@),
    {
        self.stack_ptr -= 1;
        let mut line = String::from_str("    pop ");
        line.append(reg);
        line.append("\n");
        self.main_asm.append(line.as_str());
    }

    /// Allocates more space
    fn sub_stack_pointer(&mut self, amount: i64) -> (r: Result<(), Error>)
        requires
            -1 <= old(self)@.depth <= MAX_DEPTH,
            0 <= amount <= MAX_DEPTH,
        ensures
            gen_agrees(r, final(self)@, sub_sp(old(self)@, amount as int)),
    {
        if self.stack_ptr > MAX_DEPTH - amount {
            return Err(
                Error {
                    line: 0,
                    msg: String::from_str("Stack depth limit exceeded"),
                    kind: ErrorKind::StackLimit,
                },
            );
        }
        self.stack_ptr += amount;
        let mut line = String::from_str("    sub rsp, ");
        push_int(&mut line, amount * 8);
        line.append("\n");
        self.main_asm.append(line.as_str());
        Ok(())
    }

    /// Un-allocates space
    fn add_stack_pointer(&mut self, amount: i64)
        requires
            -1 <= old(self)@.depth <= MAX_DEPTH,
            0 <= amount <= MAX_DEPTH + 1,
        ensures
            final(self)@ == add_sp(old(self)@, amount as int),
    {
        self.stack_ptr -= amount;
        let mut line = String::from_str("    add rsp, ");
        push_int(&mut line, amount * 8);
        line.append("\n");
        self.main_asm.append(line.as_str());
    }

    fn var_declared(&self, identifier: &Token) -> (r: bool)
        ensures
            r == (slot_of(self@.vars, identifier.info@) is Some),
    {
        self.get_var_ptr(identifier).is_some()
    }

    /// The slot depth of a declared variable.
    fn get_var_ptr(&self, identifier: &Token) -> (r: Option<i64>)
        ensures
            match r {
                Some(p) => slot_of(self@.vars, identifier.info@) == Some(p as int),
                None => slot_of(self@.vars, identifier.info@) is None,
            },
            r is Some && gen_wf(self@) ==> 0 <= r->0 <= MAX_DEPTH + 1,
    {
        let ghost vs = self@.vars;
        let mut k = self.variables.len();
        proof {
            assert(vs.subrange(0, k as int) =~= vs);
        }
        while k > 0
            invariant
                k <= vs.len(),
                vs == vars_view(self.variables@),
                slot_of(vs, identifier.info@) == slot_of(vs.subrange(0, k as int), identifier.info@),
            decreases k,
        {
            proof {
                assert(vs.subrange(0, k as int).drop_last() =~= vs.subrange(0, k - 1));
            }
            k -= 1;
            if self.variables[k].name == identifier.info {
                proof {
                    assert(vs[k as int].1 == self.variables@[k as int].slot);
                }
                return Some(self.variables[k].slot);
            }
        }
        None
    }

    /// Loads a variable's value and pushes it.
    fn push_var_value(&mut self, identifier: &Token) -> (r: Result<(), Error>)
        requires
            gen_wf(old(self)@),
        ensures
            gen_agrees(r, final(self)@, expr_gen(old(self)@, MathValue::Identifier(*identifier))),
    {
        let var_ptr = match self.get_var_ptr(identifier) {
            Some(p) => p,
            None => {
                let mut msg = String::from_str("Unknown identifier ");
                msg.append(identifier.info.as_str());
                return Err(Error { line: identifier.line, msg, kind: ErrorKind::Undeclared });
            },
        };
        let mut line = String::from_str("    mov rax, QWORD [rsp + ");
        push_int(&mut line, (self.stack_ptr - var_ptr) * 8);
        line.append("]\n");
        self.main_asm.append(line.as_str());
        self.push("rax")
    }
}

} // verus!
