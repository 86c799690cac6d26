//! A small ahead-of-time compiler from a minimal imperative language to
//! x86-64 assembly text: a lexer, a recursive-descent parser and a
//! stack-discipline code generator, each proved against a specification.
pub mod code_gen;
pub mod errors;
pub mod parser;
pub mod tokenise;

pub use code_gen::CodeGen;
pub use errors::{Error, ErrorKind, Failure};
pub use parser::{
    NodeProgram, NodeStatements, NodeStmtDeclare, NodeStmtExit, NodeStmtFunction,
    NodeStmtFunctionCall, NodeStmtPutChar, NodeStmtSet, Parser,
};
pub use tokenise::{Token, TokenType, Tokeniser};
