//! What can go wrong.

use vstd::prelude::*;

use crate::path::{path_text, FilePath};
use crate::text::push_text;

verus! {

/// A request that could not be served, or a library that could not be read.
#[derive(Debug)]
pub enum Error {
    /// The music directory is no directory.
    InvalidMusicDir(FilePath),
    /// Nothing of this kind has this id.
    NotFound(&'static str, String),
    /// The request makes no sense.
    InvalidRequest(String),
}

/// The mathematical value of an [`Error`].
pub enum ErrorModel {
    InvalidMusicDir(Seq<Seq<u8>>),
    NotFound(Seq<char>, Seq<char>),
    InvalidRequest(Seq<char>),
}

impl DeepView for Error {
    type V = ErrorModel;

    open spec fn deep_view(&self) -> ErrorModel {
        match self {
            Error::InvalidMusicDir(path) => ErrorModel::InvalidMusicDir(path.deep_view()),
            Error::NotFound(kind, id) => ErrorModel::NotFound((*kind)@, id@),
            Error::InvalidRequest(reason) => ErrorModel::InvalidRequest(reason@),
        }
    }
}

/// An error as it is shown.
pub open spec fn error_text(error: ErrorModel) -> Seq<char> {
    match error {
        ErrorModel::InvalidMusicDir(path) => "invalid music dir: "@ + path_text(path),
        ErrorModel::NotFound(kind, id) => kind + " not found: "@ + id,
        ErrorModel::InvalidRequest(reason) => "invalid request: "@ + reason,
    }
}

/// The mathematical value of an outcome.
pub open spec fn outcome<T: DeepView>(r: Result<T, Error>) -> Result<T::V, ErrorModel> {
    match r {
        Ok(value) => Ok(value.deep_view()),
        Err(error) => Err(error.deep_view()),
    }
}

impl Error {
    /// The error as it is shown.
    pub fn message(&self) -> (r: String)
        ensures
            r@ == error_text(self.deep_view()),
    {
        match self {
            Error::InvalidMusicDir(path) => {
                let mut s = "invalid music dir: ".to_owned();
                push_text(&mut s, &path.text());
                s
            },
            Error::NotFound(kind, id) => {
                let mut s = (*kind).to_owned();
                push_text(&mut s, " not found: ");
                push_text(&mut s, id);
                s
            },
            Error::InvalidRequest(reason) => {
                let mut s = "invalid request: ".to_owned();
                push_text(&mut s, reason);
                s
            },
        }
    }
}

/// An error for a request that makes no sense.
pub fn invalid_request(reason: &str) -> (r: Error)
    ensures
        r.deep_view() == ErrorModel::InvalidRequest(reason@),
{
    Error::InvalidRequest(reason.to_owned())
}

/// An error says in words what was asked for and what is wrong with it.
pub proof fn law_errors_say_what_is_wrong(
    kind: Seq<char>,
    id: Seq<char>,
    reason: Seq<char>,
    path: Seq<Seq<u8>>,
)
    ensures
        error_text(ErrorModel::NotFound(kind, id)) == kind + " not found: "@ + id,
        error_text(ErrorModel::InvalidRequest(reason)) == "invalid request: "@ + reason,
        error_text(ErrorModel::InvalidMusicDir(path)) == "invalid music dir: "@ + path_text(path),
{
}

} // verus!
