//! Error types of the site build and of the worker multiplexer.

use vstd::prelude::*;
use vstd::std_specs::convert::FromSpecImpl;
use vstd::string::StringExecFns;

verus! {

/// `std::io::Error`, carried through as an opaque value.
#[verifier::external_type_specification]
#[verifier::external_body]
pub struct ExIoError(std::io::Error);

/// Failures of the worker multiplexer.
#[derive(Clone, Copy, Debug, PartialEq, Eq, Structural)]
pub enum WorkerError {
    /// The worker process could not be spawned.
    WorkerStartupFailed,
    /// A line of the worker's output could not be decoded.
    MalformedFrame,
    /// A delivery slot already exists for the sequence number.
    DuplicateSequence,
    /// The delivery slot was closed before a response arrived.
    WorkerChannelClosed,
    /// No response arrived within the configured duration.
    WorkerTimeout,
}

/// Failures of a site build.
#[derive(Debug)]
pub enum SiteGenerationError {
    IOError(std::io::Error),
    LanguageError { language: String, error_message: String, cause: Option<String> },
}

impl From<std::io::Error> for SiteGenerationError {
    fn from(error: std::io::Error) -> (r: Self) {
        SiteGenerationError::IOError(error)
    }
}

impl FromSpecImpl<std::io::Error> for SiteGenerationError {
    open spec fn obeys_from_spec() -> bool {
        true
    }

    open spec fn from_spec(error: std::io::Error) -> Self {
        SiteGenerationError::IOError(error)
    }
}

/// Text of an I/O failure whose own description is `detail`.
pub open spec fn io_issue_text(detail: Seq<char>) -> Seq<char> {
    "There was an issue regarding I/O: "@ + detail
}

/// Text of a failure in processing `language`.
pub open spec fn language_issue_text(
    language: Seq<char>,
    error_message: Seq<char>,
    cause: Option<Seq<char>>,
) -> Seq<char> {
    let head = "There was a "@ + language + " processing issue: "@ + error_message + "."@;
    match cause {
        Some(c) => head + "\nCause: "@ + c + "."@,
        None => head,
    }
}

/// The view of an optional string.
pub open spec fn option_view(s: Option<String>) -> Option<Seq<char>> {
    match s {
        Some(t) => Some(t@),
        None => None,
    }
}

/// `std::io::Error`'s `Display` text, through `ToString::to_string`. Nothing
/// is claimed of the text.
#[verifier::external_body]
fn io_error_text(error: &std::io::Error) -> (r: String) {
    error.to_string()
}

/// The message for an I/O failure described by `detail`.
pub fn describe_io_issue(detail: &str) -> (r: String)
    ensures
        r@ == io_issue_text(detail@),
{
    let mut out = String::from_str("There was an issue regarding I/O: ");
    out.append(detail);
    out
}

/// The message for a failure in processing `language`.
pub fn describe_language_issue(language: &str, error_message: &str, cause: Option<&str>) -> (r:
    String)
    ensures
        r@ == language_issue_text(
            language@,
            error_message@,
            match cause {
                Some(c) => Some(c@),
                None => None,
            },
        ),
{
    let mut out = String::from_str("There was a ");
    out.append(language);
    out.append(" processing issue: ");
    out.append(error_message);
    out.append(".");
    match cause {
        Some(c) => {
            out.append("\nCause: ");
            out.append(c);
            out.append(".");
        },
        None => {},
    }
    out
}

impl SiteGenerationError {
    /// The human-readable message of this error.
    pub fn message(&self) -> (r: String)
        ensures
            match *self {
                SiteGenerationError::IOError(_) => exists|detail: Seq<char>|
                    r@ == io_issue_text(detail),
                SiteGenerationError::LanguageError { language, error_message, cause } => r@
                    == language_issue_text(language@, error_message@, option_view(cause)),
            },
    {
        match self {
            SiteGenerationError::IOError(error) => {
                let detail = io_error_text(error);
                describe_io_issue(detail.as_str())
            },
            SiteGenerationError::LanguageError { language, error_message, cause } => {
                match cause {
                    Some(c) => describe_language_issue(
                        language.as_str(),
                        error_message.as_str(),
                        Some(c.as_str()),
                    ),
                    None => describe_language_issue(
                        language.as_str(),
                        error_message.as_str(),
                        None,
                    ),
                }
            },
        }
    }
}

} // verus!
