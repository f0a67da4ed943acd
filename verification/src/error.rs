//! The failures that a forge operation reports.

use vstd::prelude::*;
use crate::text::{join2, join4};

verus! {

/// A failed operation, with the text that explains it.
#[derive(Clone, Debug)]
pub enum ForgeError {
    /// A configuration rule is broken.
    Validation(String),
    /// The configuration lacks something that was asked for.
    Config(String),
    /// The persisted state cannot be read, written or trusted.
    State(String),
    /// The container runtime or a service in it failed.
    Runtime(String),
    /// An external command failed.
    Command {
        /// The command that failed.
        program: String,
        /// What it reported.
        message: String,
    },
}

/// A failed operation as contracts speak of it.
pub enum ErrorView {
    /// A configuration rule is broken.
    Validation(Seq<char>),
    /// The configuration lacks something that was asked for.
    Config(Seq<char>),
    /// The persisted state cannot be read, written or trusted.
    State(Seq<char>),
    /// The container runtime or a service in it failed.
    Runtime(Seq<char>),
    /// An external command failed.
    Command {
        /// The command that failed.
        program: Seq<char>,
        /// What it reported.
        message: Seq<char>,
    },
}

/// The text of an error as a user sees it.
pub open spec fn error_text(error: ErrorView) -> Seq<char> {
    match error {
        ErrorView::Validation(m) => "validation error: "@ + m,
        ErrorView::Config(m) => "config error: "@ + m,
        ErrorView::State(m) => "state error: "@ + m,
        ErrorView::Runtime(m) => "runtime error: "@ + m,
        ErrorView::Command { program, message } => "command failed: "@ + program + ": "@ + message,
    }
}

impl ForgeError {
    /// The kind of the error and its texts.
    pub open spec fn view(&self) -> ErrorView {
        match self {
            ForgeError::Validation(m) => ErrorView::Validation(m@),
            ForgeError::Config(m) => ErrorView::Config(m@),
            ForgeError::State(m) => ErrorView::State(m@),
            ForgeError::Runtime(m) => ErrorView::Runtime(m@),
            ForgeError::Command { program, message } => ErrorView::Command {
                program: program@,
                message: message@,
            },
        }
    }

    /// Renders the error for a user.
    pub fn to_string(&self) -> (r: String)
        ensures
            r@ == error_text(self@),
    {
        match self {
            ForgeError::Validation(m) => join2("validation error: ", m),
            ForgeError::Config(m) => join2("config error: ", m),
            ForgeError::State(m) => join2("state error: ", m),
            ForgeError::Runtime(m) => join2("runtime error: ", m),
            ForgeError::Command { program, message } => join4(
                "command failed: ",
                program,
                ": ",
                message,
            ),
        }
    }
}

/// What a rule says of its input: nothing, or the text of its complaint.
pub type Complaint = Option<Seq<char>>;

/// True when a check accepted its input exactly where the rule has no
/// complaint, and otherwise failed with the rule's complaint.
pub open spec fn verdict(r: Result<(), ForgeError>, expected: Complaint) -> bool {
    match expected {
        None => r is Ok,
        Some(text) => r matches Err(ForgeError::Validation(m)) && m@ == text,
    }
}

/// The first of two complaints.
pub open spec fn first_complaint(a: Complaint, b: Complaint) -> Complaint {
    if a is Some {
        a
    } else {
        b
    }
}

/// A validation failure with the given text.
pub fn invalid(message: String) -> (r: Result<(), ForgeError>)
    ensures
        verdict(r, Some(message@)),
{
    Err(ForgeError::Validation(message))
}

/// The text of an error says of what kind it is, and then what went wrong.
pub proof fn law_errors_say_their_kind(message: Seq<char>, program: Seq<char>)
    ensures
        error_text(ErrorView::Validation(message)) == "validation error: "@ + message,
        error_text(ErrorView::Config(message)) == "config error: "@ + message,
        error_text(ErrorView::State(message)) == "state error: "@ + message,
        error_text(ErrorView::Runtime(message)) == "runtime error: "@ + message,
        error_text(ErrorView::Command { program, message }) == "command failed: "@ + program + (
        ": "@ + message),
{
    assert("command failed: "@ + program + ": "@ + message =~= "command failed: "@ + program + (
    ": "@ + message));
}

/// A check that has nothing to complain about succeeds, and one that has fails with
/// a validation error that holds the complaint.
pub proof fn law_complaints_are_validation_errors(
    r: Result<(), ForgeError>,
    expected: Complaint,
)
    requires
        verdict(r, expected),
    ensures
        r is Ok <==> expected is None,
        expected matches Some(text) ==> r matches Err(e) && e@ == ErrorView::Validation(text),
{
}

} // verus!
