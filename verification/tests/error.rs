use koto_core::error::{
    is_indentation_error, ErrorType, ExpectedIndentation, InternalError, ParserError, Position,
    Span, SyntaxError,
};

fn span() -> Span {
    Span { start: Position { line: 1, column: 2 }, end: Position { line: 1, column: 5 } }
}

#[test]
fn messages_of_each_kind() {
    assert_eq!(
        InternalError::AstCapacityOverflow.to_string(),
        "There are more nodes in the program than the AST can support"
    );
    assert_eq!(
        ExpectedIndentation::ExpectedThenKeywordOrBlock.to_string(),
        "Error parsing if expression, expected 'then' keyword or indented block."
    );
    assert_eq!(SyntaxError::ExpectedMapEnd.to_string(), "Unexpected token in Map, expected '}'");
    assert_eq!(SyntaxError::TooManyNum4Terms.to_string(), "num4 only supports up to 4 terms");
}

#[test]
fn internal_errors_are_marked() {
    let error = ErrorType::from(InternalError::MissingScope);
    assert_eq!(error.to_string(), "Internal error: Scope unavailable during parsing");
    let error = ErrorType::from(SyntaxError::UnexpectedToken);
    assert_eq!(error.to_string(), "Unexpected token");
    let error = ErrorType::from(ExpectedIndentation::ExpectedLoopBody);
    assert_eq!(error.to_string(), "Expected indented block in loop");
}

#[test]
fn indentation_errors_are_told_apart() {
    let indentation =
        ParserError::new(ExpectedIndentation::ExpectedForBody.into(), span());
    assert!(is_indentation_error(&indentation));
    assert_eq!(indentation.to_string(), "Expected indented block in for loop");
    assert_eq!(indentation.span, span());
    let syntax = ParserError::new(SyntaxError::ExpectedExpression.into(), span());
    assert!(!is_indentation_error(&syntax));
    let internal = ParserError::new(InternalError::UnexpectedToken.into(), span());
    assert!(!is_indentation_error(&internal));
    assert_eq!(internal.to_string(), "Internal error: Unexpected token");
}
