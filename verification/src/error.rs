//! The error type shared by every decoder.

use vstd::prelude::*;

verus! {

/// Why a codec call failed.
#[derive(Debug, PartialEq, Eq)]
pub enum ErrorCondition {
    /// Reserved for encoders; every encoder here is total, so none returns it.
    SerializationErr(String),
    /// The input is too short, or holds a code that no variant stands for.
    DeserializationErr(String),
    /// The bytes of a label are not valid UTF-8.
    InvalidLabel,
}

/// An [`ErrorCondition`] with its message as a sequence of characters.
pub enum ErrorView {
    SerializationErr(Seq<char>),
    DeserializationErr(Seq<char>),
    InvalidLabel,
}

impl View for ErrorCondition {
    type V = ErrorView;

    open spec fn view(&self) -> ErrorView {
        match self {
            ErrorCondition::SerializationErr(m) => ErrorView::SerializationErr(m@),
            ErrorCondition::DeserializationErr(m) => ErrorView::DeserializationErr(m@),
            ErrorCondition::InvalidLabel => ErrorView::InvalidLabel,
        }
    }
}

/// A decoder's result `r` is exactly what the model `m` prescribes: the value
/// with the prescribed view on success, the prescribed error otherwise.
pub open spec fn agrees<T: View>(r: Result<T, ErrorCondition>, m: Result<T::V, ErrorView>) -> bool {
    match m {
        Ok(v) => r matches Ok(t) && t@ == v,
        Err(e) => r matches Err(f) && f@ == e,
    }
}

} // verus!
