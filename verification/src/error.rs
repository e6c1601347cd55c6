//! Error values of the library and the text they are shown with.
use crate::text::{dec, dec_usize};
use vstd::prelude::*;
use vstd::string::*;

verus! {

/// What an error says, as a mathematical value.
pub ghost enum ErrorView {
    Message(Seq<char>),
    Http(Seq<char>),
    Io(Seq<char>),
    Json(Seq<char>),
    NativeNotLinked,
}

/// Errors of the model, configuration and file layer.
#[derive(Debug)]
pub enum CoreError {
    Message(String),
    Http(String),
    Io(String),
    Json(String),
}

/// Errors of the inference layer.
#[derive(Debug)]
pub enum InferError {
    Message(String),
    Io(String),
    Json(String),
    NativeNotLinked,
}

impl View for CoreError {
    type V = ErrorView;

    open spec fn view(&self) -> ErrorView {
        match self {
            CoreError::Message(m) => ErrorView::Message(m@),
            CoreError::Http(m) => ErrorView::Http(m@),
            CoreError::Io(m) => ErrorView::Io(m@),
            CoreError::Json(m) => ErrorView::Json(m@),
        }
    }
}

impl View for InferError {
    type V = ErrorView;

    open spec fn view(&self) -> ErrorView {
        match self {
            InferError::Message(m) => ErrorView::Message(m@),
            InferError::Io(m) => ErrorView::Io(m@),
            InferError::Json(m) => ErrorView::Json(m@),
            InferError::NativeNotLinked => ErrorView::NativeNotLinked,
        }
    }
}

/// The text a core error is shown with.
pub open spec fn core_error_text(e: ErrorView) -> Seq<char> {
    match e {
        ErrorView::Message(m) => m,
        ErrorView::Http(m) => "HTTP error: "@ + m,
        ErrorView::Io(m) => "IO error: "@ + m,
        ErrorView::Json(m) => "JSON error: "@ + m,
        ErrorView::NativeNotLinked => Seq::empty(),
    }
}

/// The text an inference error is shown with.
pub open spec fn infer_error_text(e: ErrorView) -> Seq<char> {
    match e {
        ErrorView::Message(m) => m,
        ErrorView::Http(m) => m,
        ErrorView::Io(m) => "IO: "@ + m,
        ErrorView::Json(m) => "JSON: "@ + m,
        ErrorView::NativeNotLinked =>
            "native backend not linked — run scripts/build_s2_native.ps1 and rebuild with S2_CPP_LIB + --features cpp-engine"@,
    }
}

/// An error message made of the given text.
pub open spec fn message(text: Seq<char>) -> ErrorView {
    ErrorView::Message(text)
}

/// What reading past the end of a file reports.
pub open spec fn end_of_file() -> ErrorView {
    ErrorView::Io("failed to fill whole buffer"@)
}

impl CoreError {
    /// The text that the error is shown with.
    pub fn message(&self) -> (r: String)
        ensures
            r@ == core_error_text(self@),
    {
        match self {
            CoreError::Message(m) => m.clone(),
            CoreError::Http(m) => String::from_str("HTTP error: ").concat(m.as_str()),
            CoreError::Io(m) => String::from_str("IO error: ").concat(m.as_str()),
            CoreError::Json(m) => String::from_str("JSON error: ").concat(m.as_str()),
        }
    }

    /// The error of reading past the end of a file.
    pub fn end_of_file() -> (r: CoreError)
        ensures
            r@ == end_of_file(),
    {
        CoreError::Io(String::from_str("failed to fill whole buffer"))
    }

    /// An error that says just the given text.
    pub fn text(text: &str) -> (r: CoreError)
        ensures
            r@ == message(text@),
    {
        CoreError::Message(String::from_str(text))
    }
}

impl InferError {
    /// The text that the error is shown with.
    pub fn message(&self) -> (r: String)
        ensures
            r@ == infer_error_text(self@),
    {
        match self {
            InferError::Message(m) => m.clone(),
            InferError::Io(m) => String::from_str("IO: ").concat(m.as_str()),
            InferError::Json(m) => String::from_str("JSON: ").concat(m.as_str()),
            InferError::NativeNotLinked => String::from_str(
                "native backend not linked — run scripts/build_s2_native.ps1 and rebuild with S2_CPP_LIB + --features cpp-engine",
            ),
        }
    }

    /// An error that says just the given text.
    pub fn text(text: &str) -> (r: InferError)
        ensures
            r@ == message(text@),
    {
        InferError::Message(String::from_str(text))
    }

    /// The inference error that carries a core error's text.
    pub fn from_core(e: &CoreError) -> (r: InferError)
        ensures
            r@ == message(core_error_text(e@)),
    {
        InferError::Message(e.message())
    }
}

/// The error of a size that is not the expected one.
pub open spec fn mismatch(what: Seq<char>, expected: nat, found: nat) -> ErrorView {
    message(what + " mismatch: expected "@ + dec(expected) + ", got "@ + dec(found))
}

/// Reports a size that is not the expected one.
pub fn size_mismatch(what: &str, expected: usize, found: usize) -> (r: InferError)
    ensures
        r@ == mismatch(what@, expected as nat, found as nat),
{
    let a = dec_usize(expected);
    let b = dec_usize(found);
    InferError::Message(
        String::from_str(what).concat(" mismatch: expected ").concat(a.as_str()).concat(
            ", got ",
        ).concat(b.as_str()),
    )
}

/// Whether an executable result is the given mathematical one.
pub open spec fn core_outcome<T>(r: Result<T, CoreError>, s: Result<T, ErrorView>) -> bool {
    match r {
        Ok(v) => s == Ok::<T, ErrorView>(v),
        Err(e) => s == Err::<T, ErrorView>(e@),
    }
}

/// Whether an executable result is the given mathematical one.
pub open spec fn infer_outcome<T>(r: Result<T, InferError>, s: Result<T, ErrorView>) -> bool {
    match r {
        Ok(v) => s == Ok::<T, ErrorView>(v),
        Err(e) => s == Err::<T, ErrorView>(e@),
    }
}

} // verus!
