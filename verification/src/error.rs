//! The failures of the hub client and of the engine, their texts and the
//! severity at which the consumer reports them.

use vstd::prelude::*;
use vstd::string::*;
use crate::types::ContentId;
use crate::types::RevisionId;

verus! {

/// What the hub client can report.
#[derive(Debug)]
pub enum ClientError {
    /// The file to upload, by its absolute path, could not be read.
    InputFileError(String),
    RequestError(String),
    UnexpectedResponse(String),
    /// The content is on the hub already, under these identifiers.
    AlreadyExistResponse(ContentId, RevisionId),
    AlreadyExistResponseAndFailToFoundIt(String),
    NotFoundResponse(String),
    DecodingResponseError(String),
}

/// What handling one message can end in.
#[derive(Debug)]
pub enum Error {
    FailToCreateContentOnRemote(String),
    FailToCreateContentOnLocal(String),
    /// The path is not in the index; it is carried so that the caller can
    /// index it first.
    UnIndexedRelativePath(String),
    UnexpectedError(String),
    PathCastingError(String),
    PathManipulationError(String),
    /// The hub does not have the content that was asked for.
    NotFound(String),
}

/// How loudly a failure is reported.
#[derive(Clone, Copy, Debug, PartialEq, Eq, Structural)]
pub enum Severity {
    Info,
    Error,
}

/// The character of a decimal digit.
pub open spec fn digit_char(d: int) -> char {
    if d == 0 {
        '0'
    } else if d == 1 {
        '1'
    } else if d == 2 {
        '2'
    } else if d == 3 {
        '3'
    } else if d == 4 {
        '4'
    } else if d == 5 {
        '5'
    } else if d == 6 {
        '6'
    } else if d == 7 {
        '7'
    } else if d == 8 {
        '8'
    } else {
        '9'
    }
}

/// The decimal digits of a natural number, without leading zeros.
pub open spec fn decimal_digits(n: nat) -> Seq<char>
    decreases n,
{
    if n < 10 {
        seq![digit_char(n as int)]
    } else {
        decimal_digits(n / 10).push(digit_char((n % 10) as int))
    }
}

/// The decimal notation of an integer, with `-` before a negative one.
pub open spec fn decimal_of(i: int) -> Seq<char> {
    if i < 0 {
        seq!['-'] + decimal_digits((-i) as nat)
    } else {
        decimal_digits(i as nat)
    }
}

/// The text of a hub client failure.
pub open spec fn client_error_text(error: ClientError) -> Seq<char> {
    match error {
        ClientError::InputFileError(path) => "Error when reading input file '"@ + path@ + "'"@,
        ClientError::RequestError(message) => "Error when making request : "@ + message@,
        ClientError::UnexpectedResponse(message) => "UnExpected response : "@ + message@,
        ClientError::AlreadyExistResponse(content_id, revision_id) => "Content already exist : "@
            + decimal_of(content_id as int) + "("@ + decimal_of(revision_id as int) + ")"@,
        ClientError::AlreadyExistResponseAndFailToFoundIt(message) =>
            "Already exist but fail to found remote content : "@ + message@,
        ClientError::NotFoundResponse(message) => "Not found : "@ + message@,
        ClientError::DecodingResponseError(message) => "Decoding error : "@ + message@,
    }
}

/// The text of an engine failure.
pub open spec fn error_text(error: Error) -> Seq<char> {
    match error {
        Error::FailToCreateContentOnRemote(message) => "Fail to create content on remote : "@
            + message@,
        Error::FailToCreateContentOnLocal(message) => "Fail to create content on local : "@
            + message@,
        Error::UnIndexedRelativePath(path) => "Relative path is not indexed : "@ + path@,
        Error::UnexpectedError(message) => "Unexpected error : "@ + message@,
        Error::PathCastingError(message) => "Path casting error : "@ + message@,
        Error::PathManipulationError(message) => "Path manipulation error : "@ + message@,
        Error::NotFound(message) => "Not found : "@ + message@,
    }
}

/// Whether `failure` is what the client failure `cause` becomes in the
/// engine: a missing content keeps its kind, every other failure is
/// unexpected; the text is that of the cause.
pub open spec fn is_client_failure(failure: Error, cause: ClientError) -> bool {
    match failure {
        Error::NotFound(message) => cause is NotFoundResponse && message@ == client_error_text(
            cause,
        ),
        Error::UnexpectedError(message) => !(cause is NotFoundResponse) && message@
            == client_error_text(cause),
        _ => false,
    }
}

fn digit_text(d: u64) -> (text: &'static str)
    requires
        d < 10,
    ensures
        text@ == seq![digit_char(d as int)],
{
    proof {
        reveal_strlit("0");
        reveal_strlit("1");
        reveal_strlit("2");
        reveal_strlit("3");
        reveal_strlit("4");
        reveal_strlit("5");
        reveal_strlit("6");
        reveal_strlit("7");
        reveal_strlit("8");
        reveal_strlit("9");
    }
    let text = if d == 0 {
        "0"
    } else if d == 1 {
        "1"
    } else if d == 2 {
        "2"
    } else if d == 3 {
        "3"
    } else if d == 4 {
        "4"
    } else if d == 5 {
        "5"
    } else if d == 6 {
        "6"
    } else if d == 7 {
        "7"
    } else if d == 8 {
        "8"
    } else {
        "9"
    };
    assert(text@ =~= seq![digit_char(d as int)]);
    text
}

fn append_digits(out: &mut String, n: u64)
    ensures
        final(out)@ == old(out)@ + decimal_digits(n as nat),
    decreases n,
{
    if n >= 10 {
        append_digits(out, n / 10);
    }
    out.append(digit_text(n % 10));
    assert(out@ =~= old(out)@ + decimal_digits(n as nat));
}

/// Appends the decimal notation of `i` to `out`.
pub fn append_decimal(out: &mut String, i: i32)
    ensures
        final(out)@ == old(out)@ + decimal_of(i as int),
{
    let wide: i64 = i as i64;
    if wide < 0 {
        out.append("-");
        proof {
            reveal_strlit("-");
        }
        append_digits(out, (-wide) as u64);
        assert(out@ =~= old(out)@ + decimal_of(i as int));
    } else {
        append_digits(out, wide as u64);
    }
}

fn prefixed(prefix: &str, rest: &str) -> (text: String)
    ensures
        text@ == prefix@ + rest@,
{
    let mut text: String = prefix.to_owned();
    text.append(rest);
    text
}

impl ClientError {
    /// The text of this failure.
    pub fn message(&self) -> (text: String)
        ensures
            text@ == client_error_text(*self),
    {
        match self {
            ClientError::InputFileError(path) => {
                let mut text: String = prefixed("Error when reading input file '", path.as_str());
                text.append("'");
                text
            },
            ClientError::RequestError(message) => prefixed(
                "Error when making request : ",
                message.as_str(),
            ),
            ClientError::UnexpectedResponse(message) => prefixed(
                "UnExpected response : ",
                message.as_str(),
            ),
            ClientError::AlreadyExistResponse(content_id, revision_id) => {
                let mut text: String = "Content already exist : ".to_owned();
                append_decimal(&mut text, *content_id);
                text.append("(");
                append_decimal(&mut text, *revision_id);
                text.append(")");
                text
            },
            ClientError::AlreadyExistResponseAndFailToFoundIt(message) => prefixed(
                "Already exist but fail to found remote content : ",
                message.as_str(),
            ),
            ClientError::NotFoundResponse(message) => prefixed("Not found : ", message.as_str()),
            ClientError::DecodingResponseError(message) => prefixed(
                "Decoding error : ",
                message.as_str(),
            ),
        }
    }

    /// A client failure that stands for an engine failure met while a
    /// request was made.
    pub fn from_error(error: &Error) -> (failure: ClientError)
        ensures
            match failure {
                ClientError::RequestError(message) => message@
                    == "Error happen when make request : "@ + error_text(*error),
                _ => false,
            },
    {
        let text: String = error.message();
        ClientError::RequestError(prefixed("Error happen when make request : ", text.as_str()))
    }

    /// Whether the hub said that it does not have the content.
    pub fn is_not_found(&self) -> (b: bool)
        ensures
            b == (*self is NotFoundResponse),
    {
        match self {
            ClientError::NotFoundResponse(_) => true,
            _ => false,
        }
    }
}

impl Error {
    /// The text of this failure.
    pub fn message(&self) -> (text: String)
        ensures
            text@ == error_text(*self),
    {
        match self {
            Error::FailToCreateContentOnRemote(message) => prefixed(
                "Fail to create content on remote : ",
                message.as_str(),
            ),
            Error::FailToCreateContentOnLocal(message) => prefixed(
                "Fail to create content on local : ",
                message.as_str(),
            ),
            Error::UnIndexedRelativePath(path) => prefixed(
                "Relative path is not indexed : ",
                path.as_str(),
            ),
            Error::UnexpectedError(message) => prefixed("Unexpected error : ", message.as_str()),
            Error::PathCastingError(message) => prefixed("Path casting error : ", message.as_str()),
            Error::PathManipulationError(message) => prefixed(
                "Path manipulation error : ",
                message.as_str(),
            ),
            Error::NotFound(message) => prefixed("Not found : ", message.as_str()),
        }
    }

    /// The engine failure that a client failure becomes: a missing content
    /// keeps its kind, every other failure is unexpected; the text is kept.
    pub fn from_client_error(error: &ClientError) -> (failure: Error)
        ensures
            is_client_failure(failure, *error),
    {
        let text: String = error.message();
        if error.is_not_found() {
            Error::NotFound(text)
        } else {
            Error::UnexpectedError(text)
        }
    }

    /// The severity at which the consumer reports this failure: a content
    /// that the hub does not have is expected to be followed by its
    /// deletion, and is only noted.
    pub fn level(&self) -> (severity: Severity)
        ensures
            severity == (if *self is NotFound {
                Severity::Info
            } else {
                Severity::Error
            }),
    {
        match self {
            Error::NotFound(_) => Severity::Info,
            _ => Severity::Error,
        }
    }
}

} // verus!
