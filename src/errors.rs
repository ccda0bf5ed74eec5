//! Diagnostics and the error type of an interaction.
use vstd::prelude::*;

verus! {

/// A source range, in lines and character columns, both counted from one.
#[derive(Clone, Copy, Debug, PartialEq, Eq, Structural)]
pub struct Span {
    pub start_line: usize,
    pub start_column: usize,
    pub end_line: usize,
    pub end_column: usize,
}

/// One diagnostic: message, span, the machine-readable payload it came with,
/// and a longer explanation where one exists.
#[derive(Clone, Debug)]
pub struct CompilationError {
    pub message: String,
    pub span: Span,
    pub json: String,
    pub explanation: Option<String>,
}

/// Why an interaction did not produce outputs.
#[derive(Clone, Debug)]
pub enum Error {
    /// Diagnostics, from the engine or from a directive.
    CompilationErrors(Vec<CompilationError>),
    /// Any other failure, with its message.
    Message(String),
    /// A `:quit` directive asked to end the process.
    Quit,
}

impl CompilationError {
    /// A diagnostic raised by this layer, with no payload or explanation.
    pub fn new(message: String, span: Span) -> (r: CompilationError)
        ensures
            r.message == message,
            r.span == span,
            r.json@ == Seq::<char>::empty(),
            r.explanation is None,
    {
        CompilationError { message, span, json: String::new(), explanation: None }
    }
}

} // verus!
