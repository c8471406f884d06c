use tags_lsp::error::QueryError;
use tags_lsp::LspErrorCode;

#[test]
fn protocol_error_codes() {
    assert_eq!(LspErrorCode::ServerNotInitialized.code(), -32002);
    assert_eq!(LspErrorCode::RequestFailed.code(), -32803);
}

#[test]
fn workspace_misses_are_invalid_params() {
    assert_eq!(QueryError::NoOwningWorkspace.code(), -32602);
}

#[test]
fn every_other_failure_is_a_failed_request() {
    let errs = [
        QueryError::NoSymbolAtPosition,
        QueryError::ToolSpawnFailed,
        QueryError::ToolExecutionFailed,
        QueryError::InvalidToolOutput,
        QueryError::MalformedIndexRecord,
        QueryError::InvalidLineNumber,
        QueryError::LineIndexOutOfRange,
        QueryError::SymbolNotFoundInLine,
        QueryError::PathNotAbsolute,
    ];
    for e in errs {
        assert_eq!(e.code(), -32803);
    }
}

#[test]
fn messages_name_the_failure() {
    assert_eq!(
        QueryError::NoOwningWorkspace.message(),
        "cannot find matching workspace folder"
    );
    assert_eq!(QueryError::MalformedIndexRecord.message(), "malformed index record");
    assert_eq!(QueryError::SymbolNotFoundInLine.message(), "symbol not found in line");
}
