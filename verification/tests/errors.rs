use trsync::error::append_decimal;
use trsync::error::ClientError;
use trsync::error::Error;
use trsync::error::Severity;

fn decimal(i: i32) -> String {
    let mut out = String::from(">");
    append_decimal(&mut out, i);
    out
}

#[test]
fn append_decimal_writes_decimal_notation() {
    assert_eq!(decimal(0), ">0");
    assert_eq!(decimal(7), ">7");
    assert_eq!(decimal(10), ">10");
    assert_eq!(decimal(42), ">42");
    assert_eq!(decimal(1005), ">1005");
    assert_eq!(decimal(-1), ">-1");
    assert_eq!(decimal(-120), ">-120");
    assert_eq!(decimal(i32::MAX), ">2147483647");
    assert_eq!(decimal(i32::MIN), ">-2147483648");
}

#[test]
fn client_error_message_of_every_kind() {
    assert_eq!(
        ClientError::InputFileError("/ws/a.txt".to_string()).message(),
        "Error when reading input file '/ws/a.txt'"
    );
    assert_eq!(
        ClientError::RequestError("timeout".to_string()).message(),
        "Error when making request : timeout"
    );
    assert_eq!(
        ClientError::UnexpectedResponse("500".to_string()).message(),
        "UnExpected response : 500"
    );
    assert_eq!(
        ClientError::AlreadyExistResponse(42, 3).message(),
        "Content already exist : 42(3)"
    );
    assert_eq!(
        ClientError::AlreadyExistResponse(-5, 0).message(),
        "Content already exist : -5(0)"
    );
    assert_eq!(
        ClientError::AlreadyExistResponseAndFailToFoundIt("notes.txt".to_string()).message(),
        "Already exist but fail to found remote content : notes.txt"
    );
    assert_eq!(
        ClientError::NotFoundResponse("content 9".to_string()).message(),
        "Not found : content 9"
    );
    assert_eq!(
        ClientError::DecodingResponseError("missing field".to_string()).message(),
        "Decoding error : missing field"
    );
}

#[test]
fn error_message_of_every_kind() {
    assert_eq!(
        Error::FailToCreateContentOnRemote("x".to_string()).message(),
        "Fail to create content on remote : x"
    );
    assert_eq!(
        Error::FailToCreateContentOnLocal("x".to_string()).message(),
        "Fail to create content on local : x"
    );
    assert_eq!(
        Error::UnIndexedRelativePath("a/b".to_string()).message(),
        "Relative path is not indexed : a/b"
    );
    assert_eq!(Error::UnexpectedError("x".to_string()).message(), "Unexpected error : x");
    assert_eq!(Error::PathCastingError("x".to_string()).message(), "Path casting error : x");
    assert_eq!(
        Error::PathManipulationError("x".to_string()).message(),
        "Path manipulation error : x"
    );
    assert_eq!(Error::NotFound("x".to_string()).message(), "Not found : x");
}

#[test]
fn missing_content_keeps_its_kind() {
    let failure = Error::from_client_error(&ClientError::NotFoundResponse("content 9".to_string()));
    match &failure {
        Error::NotFound(text) => assert_eq!(text, "Not found : content 9"),
        other => panic!("unexpected {:?}", other),
    }
    assert_eq!(failure.level(), Severity::Info);
}

#[test]
fn other_client_failures_are_unexpected() {
    let causes = vec![
        ClientError::InputFileError("p".to_string()),
        ClientError::RequestError("m".to_string()),
        ClientError::UnexpectedResponse("m".to_string()),
        ClientError::AlreadyExistResponse(1, 2),
        ClientError::AlreadyExistResponseAndFailToFoundIt("m".to_string()),
        ClientError::DecodingResponseError("m".to_string()),
    ];
    for cause in causes {
        let failure = Error::from_client_error(&cause);
        match &failure {
            Error::UnexpectedError(text) => assert_eq!(*text, cause.message()),
            other => panic!("unexpected {:?}", other),
        }
        assert_eq!(failure.level(), Severity::Error);
    }
}

#[test]
fn only_missing_content_is_reported_as_info() {
    assert_eq!(Error::NotFound("x".to_string()).level(), Severity::Info);
    assert_eq!(Error::FailToCreateContentOnRemote("x".to_string()).level(), Severity::Error);
    assert_eq!(Error::FailToCreateContentOnLocal("x".to_string()).level(), Severity::Error);
    assert_eq!(Error::UnIndexedRelativePath("x".to_string()).level(), Severity::Error);
    assert_eq!(Error::UnexpectedError("x".to_string()).level(), Severity::Error);
    assert_eq!(Error::PathCastingError("x".to_string()).level(), Severity::Error);
    assert_eq!(Error::PathManipulationError("x".to_string()).level(), Severity::Error);
}

#[test]
fn engine_failure_becomes_request_error() {
    let failure = ClientError::from_error(&Error::PathCastingError("bad".to_string()));
    match failure {
        ClientError::RequestError(text) => {
            assert_eq!(text, "Error happen when make request : Path casting error : bad")
        }
        other => panic!("unexpected {:?}", other),
    }
}

#[test]
fn is_not_found_only_for_missing_content() {
    assert!(ClientError::NotFoundResponse("x".to_string()).is_not_found());
    assert!(!ClientError::RequestError("x".to_string()).is_not_found());
    assert!(!ClientError::AlreadyExistResponse(1, 1).is_not_found());
}
