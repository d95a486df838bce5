//! What can go wrong while a script is compiled.

use vstd::prelude::*;
use vstd::string::StringExecFns;

verus! {

pub type Result<T> = std::result::Result<T, Error>;

/// Why compiling a script failed.
#[derive(Debug)]
pub enum Error {
    /// The file at this path could not be loaded.
    Import(String),
    /// Nothing was loaded under this name.
    LoadValue(String),
}

/// What an [`Error`] stands for.
pub enum ErrorView {
    Import(Seq<char>),
    LoadValue(Seq<char>),
}

impl View for Error {
    type V = ErrorView;

    open spec fn view(&self) -> ErrorView {
        match *self {
            Error::Import(path) => ErrorView::Import(path@),
            Error::LoadValue(key) => ErrorView::LoadValue(key@),
        }
    }
}

impl ErrorView {
    /// The message of the error.
    pub open spec fn text(self) -> Seq<char> {
        match self {
            ErrorView::Import(path) => "failed to load \""@ + path + "\""@,
            ErrorView::LoadValue(key) => "\""@ + key + "\" does not exist"@,
        }
    }
}

impl Error {
    /// The message of the error.
    pub fn to_string(&self) -> (out: String)
        ensures
            out@ == self@.text(),
    {
        match self {
            Error::Import(path) => {
                let mut out = String::from_str("failed to load \"");
                out.append(path.as_str());
                out.append("\"");
                out
            },
            Error::LoadValue(key) => {
                let mut out = String::from_str("\"");
                out.append(key.as_str());
                out.append("\" does not exist");
                out
            },
        }
    }
}

} // verus!
