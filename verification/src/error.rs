//! What can go wrong, as a value.

use vstd::prelude::*;
use vstd::string::*;

verus! {

/// Why a request was not answered.
#[derive(Debug, PartialEq, Eq)]
pub enum Error {
    /// A required argument was absent.
    MissingArgument(String),
    /// An argument was present but unusable.
    InvalidArgument {
        /// The argument's name.
        name: String,
        /// What was wrong with it.
        detail: String,
    },
    /// The endpoint failed while producing its representation.
    Endpoint(String),
}

/// [`Error`] over sequences of characters.
#[verifier::ext_equal]
pub enum ErrorView {
    MissingArgument(Seq<char>),
    InvalidArgument { name: Seq<char>, detail: Seq<char> },
    Endpoint(Seq<char>),
}

impl View for Error {
    type V = ErrorView;

    open spec fn view(&self) -> ErrorView {
        match self {
            Error::MissingArgument(name) => ErrorView::MissingArgument(name@),
            Error::InvalidArgument { name, detail } => ErrorView::InvalidArgument {
                name: name@,
                detail: detail@,
            },
            Error::Endpoint(message) => ErrorView::Endpoint(message@),
        }
    }
}

impl Clone for Error {
    fn clone(&self) -> (copy: Error)
        ensures
            copy@ == self@,
    {
        match self {
            Error::MissingArgument(name) => Error::MissingArgument(name.clone()),
            Error::InvalidArgument { name, detail } => Error::InvalidArgument {
                name: name.clone(),
                detail: detail.clone(),
            },
            Error::Endpoint(message) => Error::Endpoint(message.clone()),
        }
    }
}

impl ErrorView {
    /// The error in words.
    pub open spec fn message(self) -> Seq<char> {
        match self {
            ErrorView::MissingArgument(name) => "missing required argument `"@ + name + "`"@,
            ErrorView::InvalidArgument { name, detail } => "invalid argument `"@ + name + "`: "@
                + detail,
            ErrorView::Endpoint(message) => "endpoint error: "@ + message,
        }
    }
}

impl Error {
    /// The error in words.
    pub fn message(&self) -> (text: String)
        ensures
            text@ == self@.message(),
    {
        match self {
            Error::MissingArgument(name) => {
                let mut text = "missing required argument `".to_owned();
                text.append(name.as_str());
                text.append("`");
                text
            },
            Error::InvalidArgument { name, detail } => {
                let mut text = "invalid argument `".to_owned();
                text.append(name.as_str());
                text.append("`: ");
                text.append(detail.as_str());
                text
            },
            Error::Endpoint(message) => {
                let mut text = "endpoint error: ".to_owned();
                text.append(message.as_str());
                text
            },
        }
    }
}

/// An error says which argument is missing or unusable and why, or what the endpoint says.
pub proof fn an_error_says_what_went_wrong(error: &Error, text: String)
    requires
        call_ensures(Error::message, (error,), text),
    ensures
        match error@ {
            ErrorView::MissingArgument(name) => exists|before: Seq<char>, after: Seq<char>|
                text@ == #[trigger] (before + name + after) && before
                    == "missing required argument `"@,
            ErrorView::InvalidArgument { name, detail } => exists|before: Seq<char>|
                text@ == #[trigger] (before + detail) && before == "invalid argument `"@ + name
                    + "`: "@,
            ErrorView::Endpoint(message) => exists|before: Seq<char>|
                text@ == #[trigger] (before + message) && before == "endpoint error: "@,
        },
{
    match error@ {
        ErrorView::MissingArgument(name) => {
            assert(text@ == "missing required argument `"@ + name + "`"@);
        },
        ErrorView::InvalidArgument { name, detail } => {
            assert(text@ == ("invalid argument `"@ + name + "`: "@) + detail);
        },
        ErrorView::Endpoint(message) => {
            assert(text@ == "endpoint error: "@ + message);
        },
    }
}

} // verus!
