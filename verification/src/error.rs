//! What can go wrong, and how it is told.

use vstd::prelude::*;
use vstd::string::*;

verus! {

/// A failure, with the message that goes with it.
#[derive(Clone, Debug, PartialEq, Eq)]
pub enum AppError {
    ConfigLoad(String),
    PodmanInfo(String),
    Runtime(String),
    UnsupportedInput(String),
    Io(String),
    Yaml(String),
    UserLookup(String),
}

/// An [`AppError`] with its message as a sequence of characters.
pub enum ErrorView {
    ConfigLoad(Seq<char>),
    PodmanInfo(Seq<char>),
    Runtime(Seq<char>),
    UnsupportedInput(Seq<char>),
    Io(Seq<char>),
    Yaml(Seq<char>),
    UserLookup(Seq<char>),
}

impl View for AppError {
    type V = ErrorView;

    open spec fn view(&self) -> ErrorView {
        match self {
            AppError::ConfigLoad(msg) => ErrorView::ConfigLoad(msg@),
            AppError::PodmanInfo(msg) => ErrorView::PodmanInfo(msg@),
            AppError::Runtime(msg) => ErrorView::Runtime(msg@),
            AppError::UnsupportedInput(msg) => ErrorView::UnsupportedInput(msg@),
            AppError::Io(msg) => ErrorView::Io(msg@),
            AppError::Yaml(msg) => ErrorView::Yaml(msg@),
            AppError::UserLookup(msg) => ErrorView::UserLookup(msg@),
        }
    }
}

impl ErrorView {
    /// The text that a user sees.
    pub open spec fn message(self) -> Seq<char> {
        match self {
            ErrorView::ConfigLoad(msg) => "Failed to load configuration: "@ + msg,
            ErrorView::PodmanInfo(msg) => "Failed to query Podman info: "@ + msg,
            ErrorView::Runtime(msg) => msg,
            ErrorView::UnsupportedInput(msg) => msg,
            ErrorView::Io(msg) => msg,
            ErrorView::Yaml(msg) => msg,
            ErrorView::UserLookup(msg) => msg,
        }
    }
}

impl AppError {
    /// The text that a user sees.
    pub fn message(&self) -> (text: String)
        ensures
            text@ == self@.message(),
    {
        match self {
            AppError::ConfigLoad(msg) => "Failed to load configuration: ".to_string().concat(
                msg.as_str(),
            ),
            AppError::PodmanInfo(msg) => "Failed to query Podman info: ".to_string().concat(
                msg.as_str(),
            ),
            AppError::Runtime(msg) => msg.clone(),
            AppError::UnsupportedInput(msg) => msg.clone(),
            AppError::Io(msg) => msg.clone(),
            AppError::Yaml(msg) => msg.clone(),
            AppError::UserLookup(msg) => msg.clone(),
        }
    }
}

/// An error followed, on a line of its own, by a warning.
pub open spec fn warned_error(err: ErrorView, warning: Seq<char>) -> ErrorView {
    ErrorView::Runtime(err.message() + "\n"@ + warning)
}

/// Adds a warning to an error; the result is a runtime error, whatever the first one was.
pub fn combine_error_with_warning(err: AppError, warning: String) -> (combined: AppError)
    ensures
        combined@ == warned_error(err@, warning@),
{
    AppError::Runtime(err.message().concat("\n").concat(warning.as_str()))
}

/// A result with its error taken as a view.
pub open spec fn plain_result<T>(result: Result<T, AppError>) -> Result<T, ErrorView> {
    match result {
        Ok(value) => Ok(value),
        Err(err) => Err(err@),
    }
}

/// A result with both its value and its error taken as views.
pub open spec fn viewed_result<T: View>(result: Result<T, AppError>) -> Result<T::V, ErrorView> {
    match result {
        Ok(value) => Ok(value@),
        Err(err) => Err(err@),
    }
}

/// A result whose error is a message, with the message taken as a view.
pub open spec fn plain_reply<T>(result: Result<T, String>) -> Result<T, Seq<char>> {
    match result {
        Ok(value) => Ok(value),
        Err(message) => Err(message@),
    }
}

/// A result whose error is a message, with both sides taken as views.
pub open spec fn viewed_reply<T: View>(result: Result<T, String>) -> Result<T::V, Seq<char>> {
    match result {
        Ok(value) => Ok(value@),
        Err(message) => Err(message@),
    }
}

} // verus!
