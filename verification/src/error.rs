//! The library's error type.

use vstd::prelude::*;
use vstd::string::*;

verus! {

/// What can go wrong. Each variant carries the text that describes the failure.
#[derive(Debug)]
pub enum AppError {
    /// The screen, the overlay, the settings or a hotkey.
    Capture(String),
    /// The image library.
    Image(String),
    /// The language model or the connection to it.
    Ai(String),
    /// The desktop shell.
    Tauri(String),
}

pub type AppResult<T> = Result<T, AppError>;

/// An error by its texts.
pub enum ErrorView {
    Capture(Seq<char>),
    Image(Seq<char>),
    Ai(Seq<char>),
    Tauri(Seq<char>),
}

impl View for AppError {
    type V = ErrorView;

    open spec fn view(&self) -> ErrorView {
        match *self {
            AppError::Capture(m) => ErrorView::Capture(m@),
            AppError::Image(m) => ErrorView::Image(m@),
            AppError::Ai(m) => ErrorView::Ai(m@),
            AppError::Tauri(m) => ErrorView::Tauri(m@),
        }
    }
}

impl ErrorView {
    /// The text that is shown for the error.
    pub open spec fn message(self) -> Seq<char> {
        match self {
            ErrorView::Capture(m) => "capture error: "@ + m,
            ErrorView::Image(m) => "image error: "@ + m,
            ErrorView::Ai(m) => "AI error: "@ + m,
            ErrorView::Tauri(m) => "Tauri error: "@ + m,
        }
    }
}

impl AppError {
    /// The text that is shown for the error.
    pub fn message(&self) -> (r: String)
        ensures
            r@ == self@.message(),
    {
        match self {
            AppError::Capture(m) => "capture error: ".to_owned().concat(m.as_str()),
            AppError::Image(m) => "image error: ".to_owned().concat(m.as_str()),
            AppError::Ai(m) => "AI error: ".to_owned().concat(m.as_str()),
            AppError::Tauri(m) => "Tauri error: ".to_owned().concat(m.as_str()),
        }
    }

    /// A capture error with a fixed text.
    pub fn capture(message: &str) -> (r: AppError)
        ensures
            r@ == ErrorView::Capture(message@),
    {
        AppError::Capture(message.to_owned())
    }

    /// A model error with a fixed text.
    pub fn ai(message: &str) -> (r: AppError)
        ensures
            r@ == ErrorView::Ai(message@),
    {
        AppError::Ai(message.to_owned())
    }
}

/// A result by the views of its error, the value kept as it is.
pub open spec fn outcome<T>(r: AppResult<T>) -> Result<T, ErrorView> {
    match r {
        Ok(t) => Ok(t),
        Err(e) => Err(e@),
    }
}

/// The text shown for an error names the part of the program that it comes from and then says,
/// word for word, what went wrong.
pub proof fn law_messages_name_their_source(m: Seq<char>)
    ensures
        ErrorView::Capture(m).message() == "capture error: "@ + m,
        ErrorView::Image(m).message() == "image error: "@ + m,
        ErrorView::Ai(m).message() == "AI error: "@ + m,
        ErrorView::Tauri(m).message() == "Tauri error: "@ + m,
{
}

/// An error's view is of the same kind and has the same text, and a result keeps its value.
pub proof fn law_errors_are_seen_as_they_are<T>(m: String, value: T, e: AppError)
    ensures
        AppError::Capture(m)@ == ErrorView::Capture(m@),
        AppError::Image(m)@ == ErrorView::Image(m@),
        AppError::Ai(m)@ == ErrorView::Ai(m@),
        AppError::Tauri(m)@ == ErrorView::Tauri(m@),
        outcome(Ok::<T, AppError>(value)) == Ok::<T, ErrorView>(value),
        outcome(Err::<T, AppError>(e)) == Err::<T, ErrorView>(e@),
{
}

} // verus!
