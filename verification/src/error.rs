//! The errors that parsing a script can end in, and their messages.

use vstd::prelude::*;
use vstd::std_specs::convert::FromSpecImpl;
use vstd::string::*;

verus! {

/// An inconsistency inside the parser itself.
#[derive(Clone, Copy, Debug, PartialEq, Eq, Structural)]
pub enum InternalError {
    ArgumentsParseFailure,
    AstCapacityOverflow,
    ExpectedIdInImportItem,
    ForParseFailure,
    FunctionParseFailure,
    IdParseFailure,
    LookupParseFailure,
    MissingAssignmentTarget,
    MissingContinuedExpressionLhs,
    MissingScope,
    NumberParseFailure,
    RangeParseFailure,
    UnexpectedIdInExpression,
    UnexpectedToken,
}

impl InternalError {
    /// The message that a user is shown.
    pub open spec fn message(self) -> Seq<char> {
        match self {
            InternalError::ArgumentsParseFailure => "Failed to parse arguments"@,
            InternalError::AstCapacityOverflow => "There are more nodes in the program than the AST can support"@,
            InternalError::ExpectedIdInImportItem => "Expected ID in import item"@,
            InternalError::ForParseFailure => "Failed to parse for loop"@,
            InternalError::FunctionParseFailure => "Failed to parse function"@,
            InternalError::IdParseFailure => "Failed to parse ID"@,
            InternalError::LookupParseFailure => "Failed to parse lookup"@,
            InternalError::MissingAssignmentTarget => "Missing assignment target"@,
            InternalError::MissingContinuedExpressionLhs => "Missing LHS for continued expression"@,
            InternalError::MissingScope => "Scope unavailable during parsing"@,
            InternalError::NumberParseFailure => "Failed to parse number"@,
            InternalError::RangeParseFailure => "Failed to parse range"@,
            InternalError::UnexpectedIdInExpression => "Unexpected ID encountered while parsing expression"@,
            InternalError::UnexpectedToken => "Unexpected token"@,
        }
    }

    pub fn to_string(&self) -> (text: String)
        ensures
            text@ == self.message(),
    {
        match self {
            InternalError::ArgumentsParseFailure => String::from_str("Failed to parse arguments"),
            InternalError::AstCapacityOverflow => String::from_str("There are more nodes in the program than the AST can support"),
            InternalError::ExpectedIdInImportItem => String::from_str("Expected ID in import item"),
            InternalError::ForParseFailure => String::from_str("Failed to parse for loop"),
            InternalError::FunctionParseFailure => String::from_str("Failed to parse function"),
            InternalError::IdParseFailure => String::from_str("Failed to parse ID"),
            InternalError::LookupParseFailure => String::from_str("Failed to parse lookup"),
            InternalError::MissingAssignmentTarget => String::from_str("Missing assignment target"),
            InternalError::MissingContinuedExpressionLhs => String::from_str("Missing LHS for continued expression"),
            InternalError::MissingScope => String::from_str("Scope unavailable during parsing"),
            InternalError::NumberParseFailure => String::from_str("Failed to parse number"),
            InternalError::RangeParseFailure => String::from_str("Failed to parse range"),
            InternalError::UnexpectedIdInExpression => String::from_str("Unexpected ID encountered while parsing expression"),
            InternalError::UnexpectedToken => String::from_str("Unexpected token"),
        }
    }
}

/// Errors that arise from expecting an indented block.
///
/// Having these errors separated out is useful for interactive input,
/// where an indented continuation can be started in response to an indentation error.
#[derive(Clone, Copy, Debug, PartialEq, Eq, Structural)]
pub enum ExpectedIndentation {
    ExpectedCatchBody,
    ExpectedElseBlock,
    ExpectedElseIfBlock,
    ExpectedFinallyBody,
    ExpectedForBody,
    ExpectedFunctionBody,
    ExpectedLoopBody,
    ExpectedMatchArm,
    ExpectedRhsExpression,
    ExpectedThenKeywordOrBlock,
    ExpectedTryBody,
    ExpectedUntilBody,
    ExpectedWhileBody,
}

impl ExpectedIndentation {
    /// The message that a user is shown.
    pub open spec fn message(self) -> Seq<char> {
        match self {
            ExpectedIndentation::ExpectedCatchBody => "Expected indented block for catch expression"@,
            ExpectedIndentation::ExpectedElseBlock => "Expected indented block for 'else'."@,
            ExpectedIndentation::ExpectedElseIfBlock => "Expected indented block for 'else if'."@,
            ExpectedIndentation::ExpectedFinallyBody => "Expected indented block for finally expression"@,
            ExpectedIndentation::ExpectedForBody => "Expected indented block in for loop"@,
            ExpectedIndentation::ExpectedFunctionBody => "Expected function body"@,
            ExpectedIndentation::ExpectedLoopBody => "Expected indented block in loop"@,
            ExpectedIndentation::ExpectedMatchArm => "Expected indented arm for match expression"@,
            ExpectedIndentation::ExpectedRhsExpression => "Expected expression"@,
            ExpectedIndentation::ExpectedThenKeywordOrBlock => "Error parsing if expression, expected 'then' keyword or indented block."@,
            ExpectedIndentation::ExpectedTryBody => "Expected indented block for try expression"@,
            ExpectedIndentation::ExpectedUntilBody => "Expected indented block in until loop"@,
            ExpectedIndentation::ExpectedWhileBody => "Expected indented block in while loop"@,
        }
    }

    pub fn to_string(&self) -> (text: String)
        ensures
            text@ == self.message(),
    {
        match self {
            ExpectedIndentation::ExpectedCatchBody => String::from_str("Expected indented block for catch expression"),
            ExpectedIndentation::ExpectedElseBlock => String::from_str("Expected indented block for 'else'."),
            ExpectedIndentation::ExpectedElseIfBlock => String::from_str("Expected indented block for 'else if'."),
            ExpectedIndentation::ExpectedFinallyBody => String::from_str("Expected indented block for finally expression"),
            ExpectedIndentation::ExpectedForBody => String::from_str("Expected indented block in for loop"),
            ExpectedIndentation::ExpectedFunctionBody => String::from_str("Expected function body"),
            ExpectedIndentation::ExpectedLoopBody => String::from_str("Expected indented block in loop"),
            ExpectedIndentation::ExpectedMatchArm => String::from_str("Expected indented arm for match expression"),
            ExpectedIndentation::ExpectedRhsExpression => String::from_str("Expected expression"),
            ExpectedIndentation::ExpectedThenKeywordOrBlock => String::from_str("Error parsing if expression, expected 'then' keyword or indented block."),
            ExpectedIndentation::ExpectedTryBody => String::from_str("Expected indented block for try expression"),
            ExpectedIndentation::ExpectedUntilBody => String::from_str("Expected indented block in until loop"),
            ExpectedIndentation::ExpectedWhileBody => String::from_str("Expected indented block in while loop"),
        }
    }
}

/// A mistake in the source text.
#[derive(Clone, Copy, Debug, PartialEq, Eq, Structural)]
pub enum SyntaxError {
    ExpectedArgsEnd,
    ExpectedAssignmentTarget,
    ExpectedCatchArgument,
    ExpectedCatch,
    ExpectedCloseParen,
    ExpectedElseExpression,
    ExpectedElseIfCondition,
    ExpectedEndOfLine,
    ExpectedExportExpression,
    ExpectedExpression,
    ExpectedExpressionInMainBlock,
    ExpectedForArgs,
    ExpectedForCondition,
    ExpectedForInKeyword,
    ExpectedForRanges,
    ExpectedFunctionArgsEnd,
    ExpectedIdInImportExpression,
    ExpectedIfCondition,
    ExpectedImportKeywordAfterFrom,
    ExpectedImportModuleId,
    ExpectedIndentedLookupContinuation,
    ExpectedIndexEnd,
    ExpectedIndexExpression,
    ExpectedListEnd,
    ExpectedMapEnd,
    ExpectedMapKey,
    ExpectedMapValue,
    ExpectedMatchArmExpression,
    ExpectedMatchArmExpressionAfterThen,
    ExpectedMatchCondition,
    ExpectedMatchExpression,
    ExpectedMatchPattern,
    ExpectedNegatableExpression,
    ExpectedThenExpression,
    ExpectedUntilCondition,
    ExpectedWhileCondition,
    ImportFromExpressionHasTooManyItems,
    LexerError,
    MatchEllipsisOutsideOfNestedPatterns,
    SelfArgNotInFirstPosition,
    TooManyNum2Terms,
    TooManyNum4Terms,
    UnexpectedEscapeInString,
    UnexpectedToken,
    UnexpectedTokenAfterExportId,
    UnexpectedTokenInImportExpression,
}

impl SyntaxError {
    /// The message that a user is shown.
    pub open spec fn message(self) -> Seq<char> {
        match self {
            SyntaxError::ExpectedArgsEnd => "Expected end of arguments ')'"@,
            SyntaxError::ExpectedAssignmentTarget => "Expected target for assignment"@,
            SyntaxError::ExpectedCatchArgument => "Expected argument for catch expression"@,
            SyntaxError::ExpectedCatch => "Expected catch expression after try"@,
            SyntaxError::ExpectedCloseParen => "Expected closing parenthesis"@,
            SyntaxError::ExpectedElseExpression => "Expected 'else' expression."@,
            SyntaxError::ExpectedElseIfCondition => "Expected condition for 'else if'."@,
            SyntaxError::ExpectedEndOfLine => "Expected end of line"@,
            SyntaxError::ExpectedExportExpression => "Expected ID to export"@,
            SyntaxError::ExpectedExpression => "Expected expression"@,
            SyntaxError::ExpectedExpressionInMainBlock => "Expected expression"@,
            SyntaxError::ExpectedForArgs => "Expected arguments in for loop"@,
            SyntaxError::ExpectedForCondition => "Expected condition after 'if' in for loop"@,
            SyntaxError::ExpectedForInKeyword => "Expected in keyword in for loop"@,
            SyntaxError::ExpectedForRanges => "Expected ranges in for loop"@,
            SyntaxError::ExpectedFunctionArgsEnd => "Expected end of function arguments '|'"@,
            SyntaxError::ExpectedIdInImportExpression => "Expected ID in import expression"@,
            SyntaxError::ExpectedIfCondition => "Expected condition in if expression"@,
            SyntaxError::ExpectedImportKeywordAfterFrom => "Expected 'import' after 'from' ID"@,
            SyntaxError::ExpectedImportModuleId => "Expected module ID in import expression"@,
            SyntaxError::ExpectedIndentedLookupContinuation => "Expected indented lookup continuation"@,
            SyntaxError::ExpectedIndexEnd => "Unexpected token while indexing a List, expected ']'"@,
            SyntaxError::ExpectedIndexExpression => "Expected index expression"@,
            SyntaxError::ExpectedListEnd => "Unexpected token while in List, expected ']'"@,
            SyntaxError::ExpectedMapEnd => "Unexpected token in Map, expected '}'"@,
            SyntaxError::ExpectedMapKey => "Expected key after '.' in Map access"@,
            SyntaxError::ExpectedMapValue => "Expected value after ':' in Map"@,
            SyntaxError::ExpectedMatchArmExpression => "Expected expression in match arm"@,
            SyntaxError::ExpectedMatchArmExpressionAfterThen => "Expected expression after then in match arm"@,
            SyntaxError::ExpectedMatchCondition => "Expected condition after if in match arm"@,
            SyntaxError::ExpectedMatchExpression => "Expected expression after match"@,
            SyntaxError::ExpectedMatchPattern => "Expected pattern for match arm"@,
            SyntaxError::ExpectedNegatableExpression => "Expected negatable expression"@,
            SyntaxError::ExpectedThenExpression => "Expected 'then' expression."@,
            SyntaxError::ExpectedUntilCondition => "Expected condition in until loop"@,
            SyntaxError::ExpectedWhileCondition => "Expected condition in while loop"@,
            SyntaxError::ImportFromExpressionHasTooManyItems => "Too many items listed after 'from' in import expression"@,
            SyntaxError::LexerError => "Found an unexpected token while lexing input"@,
            SyntaxError::MatchEllipsisOutsideOfNestedPatterns => "Ellipsis found outside of nested match patterns"@,
            SyntaxError::SelfArgNotInFirstPosition => "self is only allowed as the first argument"@,
            SyntaxError::TooManyNum2Terms => "num2 only supports up to 2 terms"@,
            SyntaxError::TooManyNum4Terms => "num4 only supports up to 4 terms"@,
            SyntaxError::UnexpectedEscapeInString => "Unexpected escape pattern in string"@,
            SyntaxError::UnexpectedToken => "Unexpected token"@,
            SyntaxError::UnexpectedTokenAfterExportId => "Unexpected token after export ID"@,
            SyntaxError::UnexpectedTokenInImportExpression => "Unexpected token in import expression"@,
        }
    }

    pub fn to_string(&self) -> (text: String)
        ensures
            text@ == self.message(),
    {
        match self {
            SyntaxError::ExpectedArgsEnd => String::from_str("Expected end of arguments ')'"),
            SyntaxError::ExpectedAssignmentTarget => String::from_str("Expected target for assignment"),
            SyntaxError::ExpectedCatchArgument => String::from_str("Expected argument for catch expression"),
            SyntaxError::ExpectedCatch => String::from_str("Expected catch expression after try"),
            SyntaxError::ExpectedCloseParen => String::from_str("Expected closing parenthesis"),
            SyntaxError::ExpectedElseExpression => String::from_str("Expected 'else' expression."),
            SyntaxError::ExpectedElseIfCondition => String::from_str("Expected condition for 'else if'."),
            SyntaxError::ExpectedEndOfLine => String::from_str("Expected end of line"),
            SyntaxError::ExpectedExportExpression => String::from_str("Expected ID to export"),
            SyntaxError::ExpectedExpression => String::from_str("Expected expression"),
            SyntaxError::ExpectedExpressionInMainBlock => String::from_str("Expected expression"),
            SyntaxError::ExpectedForArgs => String::from_str("Expected arguments in for loop"),
            SyntaxError::ExpectedForCondition => String::from_str("Expected condition after 'if' in for loop"),
            SyntaxError::ExpectedForInKeyword => String::from_str("Expected in keyword in for loop"),
            SyntaxError::ExpectedForRanges => String::from_str("Expected ranges in for loop"),
            SyntaxError::ExpectedFunctionArgsEnd => String::from_str("Expected end of function arguments '|'"),
            SyntaxError::ExpectedIdInImportExpression => String::from_str("Expected ID in import expression"),
            SyntaxError::ExpectedIfCondition => String::from_str("Expected condition in if expression"),
            SyntaxError::ExpectedImportKeywordAfterFrom => String::from_str("Expected 'import' after 'from' ID"),
            SyntaxError::ExpectedImportModuleId => String::from_str("Expected module ID in import expression"),
            SyntaxError::ExpectedIndentedLookupContinuation => String::from_str("Expected indented lookup continuation"),
            SyntaxError::ExpectedIndexEnd => String::from_str("Unexpected token while indexing a List, expected ']'"),
            SyntaxError::ExpectedIndexExpression => String::from_str("Expected index expression"),
            SyntaxError::ExpectedListEnd => String::from_str("Unexpected token while in List, expected ']'"),
            SyntaxError::ExpectedMapEnd => String::from_str("Unexpected token in Map, expected '}'"),
            SyntaxError::ExpectedMapKey => String::from_str("Expected key after '.' in Map access"),
            SyntaxError::ExpectedMapValue => String::from_str("Expected value after ':' in Map"),
            SyntaxError::ExpectedMatchArmExpression => String::from_str("Expected expression in match arm"),
            SyntaxError::ExpectedMatchArmExpressionAfterThen => String::from_str("Expected expression after then in match arm"),
            SyntaxError::ExpectedMatchCondition => String::from_str("Expected condition after if in match arm"),
            SyntaxError::ExpectedMatchExpression => String::from_str("Expected expression after match"),
            SyntaxError::ExpectedMatchPattern => String::from_str("Expected pattern for match arm"),
            SyntaxError::ExpectedNegatableExpression => String::from_str("Expected negatable expression"),
            SyntaxError::ExpectedThenExpression => String::from_str("Expected 'then' expression."),
            SyntaxError::ExpectedUntilCondition => String::from_str("Expected condition in until loop"),
            SyntaxError::ExpectedWhileCondition => String::from_str("Expected condition in while loop"),
            SyntaxError::ImportFromExpressionHasTooManyItems => String::from_str("Too many items listed after 'from' in import expression"),
            SyntaxError::LexerError => String::from_str("Found an unexpected token while lexing input"),
            SyntaxError::MatchEllipsisOutsideOfNestedPatterns => String::from_str("Ellipsis found outside of nested match patterns"),
            SyntaxError::SelfArgNotInFirstPosition => String::from_str("self is only allowed as the first argument"),
            SyntaxError::TooManyNum2Terms => String::from_str("num2 only supports up to 2 terms"),
            SyntaxError::TooManyNum4Terms => String::from_str("num4 only supports up to 4 terms"),
            SyntaxError::UnexpectedEscapeInString => String::from_str("Unexpected escape pattern in string"),
            SyntaxError::UnexpectedToken => String::from_str("Unexpected token"),
            SyntaxError::UnexpectedTokenAfterExportId => String::from_str("Unexpected token after export ID"),
            SyntaxError::UnexpectedTokenInImportExpression => String::from_str("Unexpected token in import expression"),
        }
    }
}

/// What went wrong while parsing.
#[derive(Clone, Copy, Debug, PartialEq, Eq, Structural)]
pub enum ErrorType {
    InternalError(InternalError),
    ExpectedIndentation(ExpectedIndentation),
    SyntaxError(SyntaxError),
}

impl ErrorType {
    /// The message that a user is shown: that of the error inside, which for an
    /// internal error follows the words `Internal error: `.
    pub open spec fn message(self) -> Seq<char> {
        match self {
            ErrorType::InternalError(error) => "Internal error: "@ + error.message(),
            ErrorType::ExpectedIndentation(error) => error.message(),
            ErrorType::SyntaxError(error) => error.message(),
        }
    }

    pub fn to_string(&self) -> (text: String)
        ensures
            text@ == self.message(),
    {
        match self {
            ErrorType::InternalError(error) => {
                let detail = error.to_string();
                String::from_str("Internal error: ").concat(detail.as_str())
            },
            ErrorType::ExpectedIndentation(error) => error.to_string(),
            ErrorType::SyntaxError(error) => error.to_string(),
        }
    }
}

impl From<InternalError> for ErrorType {
    fn from(e: InternalError) -> (error: ErrorType) {
        ErrorType::InternalError(e)
    }
}

impl FromSpecImpl<InternalError> for ErrorType {
    open spec fn obeys_from_spec() -> bool {
        true
    }

    open spec fn from_spec(e: InternalError) -> ErrorType {
        ErrorType::InternalError(e)
    }
}

impl From<ExpectedIndentation> for ErrorType {
    fn from(e: ExpectedIndentation) -> (error: ErrorType) {
        ErrorType::ExpectedIndentation(e)
    }
}

impl FromSpecImpl<ExpectedIndentation> for ErrorType {
    open spec fn obeys_from_spec() -> bool {
        true
    }

    open spec fn from_spec(e: ExpectedIndentation) -> ErrorType {
        ErrorType::ExpectedIndentation(e)
    }
}

impl From<SyntaxError> for ErrorType {
    fn from(e: SyntaxError) -> (error: ErrorType) {
        ErrorType::SyntaxError(e)
    }
}

impl FromSpecImpl<SyntaxError> for ErrorType {
    open spec fn obeys_from_spec() -> bool {
        true
    }

    open spec fn from_spec(e: SyntaxError) -> ErrorType {
        ErrorType::SyntaxError(e)
    }
}

/// A place in a source text, counted in lines and columns.
#[derive(Clone, Copy, Debug, PartialEq, Eq, Structural)]
pub struct Position {
    pub line: usize,
    pub column: usize,
}

/// The stretch of source text that an item was read from.
#[derive(Clone, Copy, Debug, PartialEq, Eq, Structural)]
pub struct Span {
    pub start: Position,
    pub end: Position,
}

/// A parsing error, with the place in the source that it was found at.
#[derive(Clone, Copy, Debug, PartialEq, Eq, Structural)]
pub struct ParserError {
    pub error: ErrorType,
    pub span: Span,
}

impl ParserError {
    pub fn new(error: ErrorType, span: Span) -> (result: Self)
        ensures
            result.error == error,
            result.span == span,
    {
        Self { error, span }
    }

    /// The message of the error; the span is no part of it.
    pub fn to_string(&self) -> (text: String)
        ensures
            text@ == self.error.message(),
    {
        self.error.to_string()
    }
}

/// Whether the parser missed an indented block, which interactive input can
/// answer by reading on.
pub fn is_indentation_error(error: &ParserError) -> (result: bool)
    ensures
        result == (error.error is ExpectedIndentation),
{
    matches!(error.error, ErrorType::ExpectedIndentation(_))
}

} // verus!
