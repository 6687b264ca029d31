//! What can go wrong.

use vstd::prelude::*;

verus! {

/// An error with the text that the user sees.
#[derive(Debug, PartialEq)]
pub enum AppError {
    Message(String),
    Database(String),
    Config(String),
    /// A file that could not be read or written.
    Io { path: String, cause: String },
    /// A file that holds no JSON document.
    Json { path: String, cause: String },
    /// A text in two languages, under a key for the user interface.
    Localized { key: String, zh: String, en: String },
}

/// The mathematical content of an `AppError`.
pub enum ErrorView {
    Message(Seq<char>),
    Database(Seq<char>),
    Config(Seq<char>),
    Io { path: Seq<char>, cause: Seq<char> },
    Json { path: Seq<char>, cause: Seq<char> },
    Localized { key: Seq<char>, zh: Seq<char>, en: Seq<char> },
}

impl View for AppError {
    type V = ErrorView;

    open spec fn view(&self) -> ErrorView {
        match *self {
            AppError::Message(m) => ErrorView::Message(m@),
            AppError::Database(m) => ErrorView::Database(m@),
            AppError::Config(m) => ErrorView::Config(m@),
            AppError::Io { path, cause } => ErrorView::Io { path: path@, cause: cause@ },
            AppError::Json { path, cause } => ErrorView::Json { path: path@, cause: cause@ },
            AppError::Localized { key, zh, en } => ErrorView::Localized {
                key: key@,
                zh: zh@,
                en: en@,
            },
        }
    }
}

impl AppError {
    /// A message made of a heading and the cause.
    pub fn caused(heading: &str, cause: &str) -> (r: AppError)
        ensures
            r@ == ErrorView::Message(heading@ + cause@),
    {
        AppError::Message(heading.to_string().concat(cause))
    }

    /// A text in two languages.
    pub fn localized(key: &str, zh: &str, en: &str) -> (r: AppError)
        ensures
            r@ == (ErrorView::Localized { key: key@, zh: zh@, en: en@ }),
    {
        AppError::Localized { key: key.to_string(), zh: zh.to_string(), en: en.to_string() }
    }
}

} // verus!
