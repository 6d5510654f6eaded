//! The Python exceptions that the bindings raise.

use vstd::prelude::*;

verus! {

/// A Python exception: its class and its message.
#[derive(Debug, PartialEq, Eq)]
pub enum Exception {
    /// `RuntimeError`
    Runtime(String),
    /// `ValueError`
    Value(String),
    /// `StopAsyncIteration`
    StopAsyncIteration(String),
}

/// The class and the message of an exception.
pub enum ExceptionView {
    /// `RuntimeError`
    Runtime(Seq<char>),
    /// `ValueError`
    Value(Seq<char>),
    /// `StopAsyncIteration`
    StopAsyncIteration(Seq<char>),
}

impl View for Exception {
    type V = ExceptionView;

    open spec fn view(&self) -> ExceptionView {
        match self {
            Exception::Runtime(message) => ExceptionView::Runtime(message@),
            Exception::Value(message) => ExceptionView::Value(message@),
            Exception::StopAsyncIteration(message) => ExceptionView::StopAsyncIteration(message@),
        }
    }
}

/// An exception shows its class and its whole message.
pub proof fn law_exception_shows_class_and_message(message: String)
    ensures
        Exception::Runtime(message)@ == ExceptionView::Runtime(message@),
        Exception::Value(message)@ == ExceptionView::Value(message@),
        Exception::StopAsyncIteration(message)@ == ExceptionView::StopAsyncIteration(message@),
{
}

} // verus!
