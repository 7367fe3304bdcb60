//! The errors that running a script can end in.

use crate::bytecode::chunk::{covering_span, Chunk};
use crate::core_lib::help::{line, line_ranges, ranges, split_lines};
use crate::error::Span;
use crate::text::{decimal, push_decimal, string_chars};
use crate::value::Value;
use vstd::prelude::*;
use vstd::string::*;

verus! {

/// A script could not be loaded.
#[derive(Debug)]
pub struct LoaderError {
    pub message: String,
    pub span: Option<Span>,
}

/// An error that running a script ended in.
#[derive(Debug)]
pub enum Error {
    /// An instruction failed: which one, and in which chunk.
    VmError { message: String, chunk: Chunk, instruction: usize },
    LoaderError(LoaderError),
    /// A function of the host failed, which knows of no instruction.
    ErrorWithoutLocation { message: String },
}

/// What a function of the runtime gives: a value, or an error.
pub type RuntimeResult = Result<Value, Error>;

impl Error {
    /// The message of the error.
    pub open spec fn message(self) -> Seq<char> {
        match self {
            Error::VmError { message, .. } => message@,
            Error::LoaderError(error) => error.message@,
            Error::ErrorWithoutLocation { message } => message@,
        }
    }

    pub fn to_string(&self) -> (text: String)
        ensures
            text@ == self.message(),
    {
        match self {
            Error::VmError { message, .. } => message.clone(),
            Error::LoaderError(error) => error.message.clone(),
            Error::ErrorWithoutLocation { message } => message.clone(),
        }
    }

    /// The stretch of source text that the error came from: for a failing
    /// instruction, the span of the chunk's table that covers it.
    pub open spec fn span_spec(self) -> Option<Span> {
        match self {
            Error::VmError { chunk, instruction, .. } => covering_span(
                chunk.spans@,
                instruction as int,
            ),
            Error::LoaderError(error) => error.span,
            Error::ErrorWithoutLocation { .. } => None,
        }
    }

    /// The stretch of source text that the error came from, if it is known.
    pub fn span(&self) -> (span: Option<Span>)
        requires
            self is VmError ==> self->chunk.well_formed(),
        ensures
            span == self.span_spec(),
    {
        match self {
            Error::VmError { chunk, instruction, .. } => chunk.span_at(*instruction),
            Error::LoaderError(error) => error.span,
            Error::ErrorWithoutLocation { .. } => None,
        }
    }

    /// The same error, with `prefix`, a colon and a space before its message.
    pub fn with_prefix(self, prefix: &str) -> (error: Error)
        ensures
            error.message() == prefix@ + ": "@ + self.message(),
            self is VmError ==> error is VmError && error->chunk == self->chunk
                && error->instruction == self->instruction,
            self is LoaderError ==> error is LoaderError && error->LoaderError_0.span
                == self->LoaderError_0.span,
            self is ErrorWithoutLocation ==> error is ErrorWithoutLocation,
    {
        match self {
            Error::VmError { message, chunk, instruction } => Error::VmError {
                message: prefixed(prefix, &message),
                chunk,
                instruction,
            },
            Error::LoaderError(error) => Error::LoaderError(
                LoaderError { message: prefixed(prefix, &error.message), span: error.span },
            ),
            Error::ErrorWithoutLocation { message } => Error::ErrorWithoutLocation {
                message: prefixed(prefix, &message),
            },
        }
    }
}

fn prefixed(prefix: &str, message: &String) -> (text: String)
    ensures
        text@ == prefix@ + ": "@ + message@,
{
    let mut text = String::from_str(prefix);
    text.append(": ");
    text.append(message.as_str());
    text
}

/// Whether `result` is the failure of a function of the host with the message `text`.
pub open spec fn fails_with(result: RuntimeResult, text: Seq<char>) -> bool {
    result is Err && result->Err_0 is ErrorWithoutLocation && result->Err_0.message() == text
}

/// The failure of a function of the host, with its message.
pub fn external_error(message: String) -> (result: RuntimeResult)
    ensures
        fails_with(result, message@),
{
    Err(Error::ErrorWithoutLocation { message })
}

/// The failure of a function of the host, with its message.
pub fn external_error_text(message: &str) -> (result: RuntimeResult)
    ensures
        fails_with(result, message@),
{
    Err(Error::ErrorWithoutLocation { message: String::from_str(message) })
}

/// So many spaces.
pub open spec fn spaces(n: nat) -> Seq<char> {
    Seq::new(n, |i: int| ' ')
}

/// The line of `source` with the number `number`, counted from 1; nothing
/// where the source has no such line.
pub open spec fn source_line(source: Seq<char>, number: nat) -> Seq<char> {
    let lines = line_ranges(source, 0);
    if 1 <= number <= lines.len() {
        line(source, lines, number - 1)
    } else {
        seq![]
    }
}

/// What a user is shown of an error in a script: the message, the path of
/// the script with the line and the column at which the failing stretch
/// starts, that line, and a caret under the column.
pub open spec fn error_report(
    message: Seq<char>,
    path: Seq<char>,
    source: Seq<char>,
    span: Span,
) -> Seq<char> {
    message + "\n --> "@ + path + " - "@ + decimal(span.start.line as nat) + ":"@ + decimal(
        span.start.column as nat,
    ) + "\n"@ + source_line(source, span.start.line as nat) + "\n"@ + spaces(
        if span.start.column > 0 {
            (span.start.column - 1) as nat
        } else {
            0
        },
    ) + "^"@
}

/// What a user is shown of an error in the script `source`, which was read from `path`.
pub fn format_error(message: &str, path: &str, source: &str, span: Span) -> (report: String)
    ensures
        report@ == error_report(message@, path@, source@, span),
{
    let mut report = String::from_str(message);
    report.append("\n --> ");
    report.append(path);
    report.append(" - ");
    push_decimal(&mut report, span.start.line as u64);
    report.append(":");
    push_decimal(&mut report, span.start.column as u64);
    report.append("\n");
    let text = string_chars(source);
    let lines = split_lines(&text);
    if 1 <= span.start.line && span.start.line <= lines.len() {
        let (start, end) = lines[span.start.line - 1];
        assert(ranges(lines@)[span.start.line - 1] == (start as int, end as int));
        report.append(source.substring_char(start, end));
    }
    report.append("\n");
    let ghost before = report@;
    let indent = if span.start.column > 0 {
        span.start.column - 1
    } else {
        0
    };
    let mut i: usize = 0;
    assert(before + spaces(0) =~= before);
    while i < indent
        invariant
            i <= indent,
            report@ == before + spaces(i as nat),
        decreases indent - i,
    {
        proof {
            reveal_strlit(" ");
        }
        report.append(" ");
        assert(report@ =~= before + spaces((i + 1) as nat));
        i += 1;
    }
    report.append("^");
    assert(report@ =~= error_report(message@, path@, source@, span));
    report
}

} // verus!
