//! The errors of the panel.

use vstd::prelude::*;
use vstd::string::*;

verus! {

/// What went wrong, with a message for the reader.
#[derive(Clone, Debug, PartialEq, Eq)]
pub enum Error {
    /// A failure outside the panel's own rules, described in words.
    Msg(String),
    /// A command could not be run.
    CommandError(String),
    /// The configuration, or a token read from it or from the control
    /// channel, is not acceptable.
    ConfigError(String),
}

/// An error as its kind and the characters of its message.
pub ghost enum ErrorView {
    Msg(Seq<char>),
    CommandError(Seq<char>),
    ConfigError(Seq<char>),
}

impl ErrorView {
    /// The text shown for the error: a prefix that names the kind, then the
    /// message.
    pub open spec fn display(self) -> Seq<char> {
        match self {
            ErrorView::Msg(m) => m,
            ErrorView::CommandError(m) => "Error executing command: "@ + m,
            ErrorView::ConfigError(m) => "Error with configuration: "@ + m,
        }
    }
}

impl View for Error {
    type V = ErrorView;

    open spec fn view(&self) -> ErrorView {
        match self {
            Error::Msg(m) => ErrorView::Msg(m@),
            Error::CommandError(m) => ErrorView::CommandError(m@),
            Error::ConfigError(m) => ErrorView::ConfigError(m@),
        }
    }
}

impl Error {
    /// A failure described in words.
    pub fn msg(message: &str) -> (e: Error)
        ensures
            e@ == ErrorView::Msg(message@),
    {
        Error::Msg(String::from_str(message))
    }

    /// A command that could not be run.
    pub fn command(message: &str) -> (e: Error)
        ensures
            e@ == ErrorView::CommandError(message@),
    {
        Error::CommandError(String::from_str(message))
    }

    /// An unacceptable configuration.
    pub fn config(message: &str) -> (e: Error)
        ensures
            e@ == ErrorView::ConfigError(message@),
    {
        Error::ConfigError(String::from_str(message))
    }

    /// The text shown for the error.
    pub fn to_string(&self) -> (text: String)
        ensures
            text@ == self@.display(),
    {
        match self {
            Error::Msg(m) => m.clone(),
            Error::CommandError(m) => String::from_str("Error executing command: ").concat(
                m.as_str(),
            ),
            Error::ConfigError(m) => String::from_str("Error with configuration: ").concat(
                m.as_str(),
            ),
        }
    }
}

} // verus!
