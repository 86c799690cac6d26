use vstd::prelude::*;

verus! {

/// What went wrong, by stage: the lexer, the parser, a defect of the
/// expression slicer, or one of the code generator's semantic checks.
#[derive(Debug, Clone, Copy, PartialEq, Eq, Structural)]
pub enum ErrorKind {
    Lex,
    Parse,
    Internal,
    Redeclared,
    Undeclared,
    StackLimit,
}

/// A compilation error: the source line it concerns and a message.
#[derive(Debug)]
pub struct Error {
    pub line: usize,
    pub msg: String,
    pub kind: ErrorKind,
}

/// The mathematical value of an `Error`.
pub struct Failure {
    pub line: int,
    pub msg: Seq<char>,
    pub kind: ErrorKind,
}

impl View for Error {
    type V = Failure;

    open spec fn view(&self) -> Failure {
        Failure { line: self.line as int, msg: self.msg@, kind: self.kind }
    }
}

} // verus!
