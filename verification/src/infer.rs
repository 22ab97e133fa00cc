//! The entry point of the compiler pipeline: from source text to a parsed program.

use vstd::prelude::*;
use vstd::string::StringExecFns;
use crate::ast::node_ids::{distinct, issued_between, lemma_issued_distinct, stmts_ids};
use crate::ast::program::Program;
use crate::ast::statement::SpecStatement;
use crate::lexer::keywords::Keywords;
use crate::lexer::scan::scan_all;
use crate::lexer::Lexer;
use crate::parser::error::{parse_error_message, ParseError};
use crate::parser::grammar::{program, Parsed};
use crate::parser::stream::ParserStream;
use crate::parser::Parser;
use crate::text::str_eq;

verus! {

broadcast use vstd::string::group_string_axioms;

/// Represents errors encountered during the type inference or parsing phases.
#[derive(Debug, PartialEq)]
pub enum InferenceError {
    /// A syntax or grammatical error occurred during the lexical analysis or parsing phase.
    ParseError(String),
    /// An error occurred during file I/O or file validation (e.g. invalid extension, missing file).
    FileError(String),
}

/// The mathematical value of an [`InferenceError`]: its message.
pub enum SpecInferenceError {
    ParseError(Seq<char>),
    FileError(Seq<char>),
}

impl View for InferenceError {
    type V = SpecInferenceError;

    open spec fn view(&self) -> SpecInferenceError {
        match self {
            InferenceError::ParseError(m) => SpecInferenceError::ParseError(m@),
            InferenceError::FileError(m) => SpecInferenceError::FileError(m@),
        }
    }
}

impl InferenceError {
    /// The inference error that reports a parse error by its message.
    pub fn from_parse_error(error: ParseError) -> (r: Self)
        ensures
            r@ == SpecInferenceError::ParseError(parse_error_message(error@)),
    {
        InferenceError::ParseError(error.to_string())
    }

    /// The human readable message of this error.
    pub fn to_string(&self) -> (r: String)
        ensures
            r@ == match self@ {
                SpecInferenceError::ParseError(m) => m,
                SpecInferenceError::FileError(m) => m,
            },
    {
        match self {
            InferenceError::ParseError(m) => m.clone(),
            InferenceError::FileError(m) => m.clone(),
        }
    }
}

/// The message of a file that is not a source file of the language.
pub open spec fn invalid_extension_message(path: Seq<char>) -> Seq<char> {
    "invalid file extension, expected '.toy' for file: "@ + path
}

/// The message of a file that could not be read, for the reason given.
pub open spec fn read_failure_message(reason: Seq<char>) -> Seq<char> {
    "failed to read file: "@ + reason
}

/// Whether a file extension marks a source file of the language (`.toy`).
pub fn is_source_extension(extension: Option<&str>) -> (r: bool)
    ensures
        r == (extension is Some && extension->0@ == "toy"@),
{
    match extension {
        Some(extension) => str_eq(extension, "toy"),
        None => false,
    }
}

/// The error for a file, shown as `path`, whose extension is not `.toy`.
pub fn invalid_extension_error(path: &str) -> (r: InferenceError)
    ensures
        r@ == SpecInferenceError::FileError(invalid_extension_message(path@)),
{
    let mut message = String::from_str("invalid file extension, expected '.toy' for file: ");
    message.append(path);
    InferenceError::FileError(message)
}

/// The error for a file that could not be read, for the reason given.
pub fn read_error(reason: &str) -> (r: InferenceError)
    ensures
        r@ == SpecInferenceError::FileError(read_failure_message(reason@)),
{
    let mut message = String::from_str("failed to read file: ");
    message.append(reason);
    InferenceError::FileError(message)
}

/// What the parser makes of a whole source text: the top-level statements of the
/// tokens the lexer reads from it, up to its end or its first lexical error.
pub open spec fn source_program(source: Seq<char>) -> Parsed<Seq<SpecStatement>> {
    program(scan_all(source, 0).0, scan_all(source, 0).1, 0, Seq::empty())
}

/// What compiling `source` gives: the program the parser makes of it, or the
/// message of its first lexical or syntax error.
pub open spec fn compiled(source: Seq<char>, r: Result<Program, InferenceError>) -> bool {
    match source_program(source) {
        Parsed::Done(statements, _) => r matches Ok(p) && p@ == statements,
        Parsed::Failed(e) => r matches Err(x) && x@ == SpecInferenceError::ParseError(
            parse_error_message(e),
        ),
        Parsed::Halted => false,
    }
}

/// A compilation result as a value: the program's statements or the error.
pub open spec fn compiled_view(r: Result<Program, InferenceError>) -> Result<
    Seq<SpecStatement>,
    SpecInferenceError,
> {
    match r {
        Ok(p) => Ok(p@),
        Err(e) => Err(e@),
    }
}

/// Compiling is a function of the source text alone: any two results that `infer`
/// may give for the same source, from any `Infer` and on any call, are the same
/// program (node identifiers aside) or the same error.
pub proof fn lemma_compiling_is_deterministic(
    source: Seq<char>,
    first: Result<Program, InferenceError>,
    second: Result<Program, InferenceError>,
)
    requires
        compiled(source, first),
        compiled(source, second),
    ensures
        compiled_view(first) == compiled_view(second),
{
}

/// The main entry point to the type inference compiler pipeline.
///
/// `Infer` turns raw source code into a parsed syntax tree, ready for type inference.
pub struct Infer;

impl Default for Infer {
    /// Creates a default instance of the type inference orchestrator.
    fn default() -> (r: Self)
        ensures
            r == Infer,
    {
        Self::new()
    }
}

impl Infer {
    /// Creates a new instance of the `Infer` orchestrator.
    pub fn new() -> (r: Self)
        ensures
            r == Infer,
    {
        Infer
    }

    /// Whether `infer` can compile `source`: whether the parser reaches an answer,
    /// a program or an error, without meeting a statement form it does not implement.
    pub fn supports(&self, source: &str) -> (r: bool)
        requires
            source@.len() < usize::MAX,
        ensures
            r == !(source_program(source@) is Halted),
    {
        let lexer = Lexer::new(source, Keywords::new());
        let mut stream = ParserStream::new(lexer);
        match Parser::parse(&mut stream) {
            Err(ParseError::UnimplementedStatement(_, _)) => false,
            _ => true,
        }
    }

    /// Compiles the raw source code into an untyped syntax tree (`Program`). Every node
    /// of the tree that carries an identifier has one of its own: the nodes, listed
    /// children first in source order, are numbered 1, 2, 3, ... in that order, the
    /// order in which the parser made them.
    ///
    /// Returns `InferenceError::ParseError` with the message of the first lexical or
    /// syntax error. Statement forms the parser does not implement inside blocks are
    /// left out by `requires`; `supports` tells them apart.
    pub fn infer(&self, source: &str) -> (r: Result<Program, InferenceError>)
        requires
            source@.len() < usize::MAX,
            !(source_program(source@) is Halted),
        ensures
            compiled(source@, r),
            r is Ok ==> distinct(stmts_ids(r->Ok_0.statements@)),
            r is Ok ==> issued_between(
                stmts_ids(r->Ok_0.statements@),
                0,
                stmts_ids(r->Ok_0.statements@).len() as int,
            ),
    {
        let lexer = Lexer::new(source, Keywords::new());
        let mut stream = ParserStream::new(lexer);
        match Parser::parse(&mut stream) {
            Ok(program) => {
                proof {
                    lemma_issued_distinct(stmts_ids(program.statements@), 0, stream.last_id());
                }
                Ok(program)
            },
            Err(e) => Err(InferenceError::from_parse_error(e)),
        }
    }
}

} // verus!
