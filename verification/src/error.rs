//! The failures of a decode.

use vstd::prelude::*;
use vstd::string::StringExecFns;
use crate::event::Event;
use crate::event::EventView;
use crate::event::Name;
use crate::event::NameView;
use crate::scalar::ScalarKind;

verus! {

/// What a position of the stream had to hold for the decode to go on.
#[derive(Clone, Debug, PartialEq, Eq)]
pub enum Expected {
    /// Any event of the document's content; the stream had ended.
    Content,
    /// A start tag.
    StartElement,
    /// The start tag of the child that holds the field of this name.
    Field(String),
    /// An end tag, whatever its name.
    EndElement,
    /// The end tag that closes the element of this name.
    EndOf(Name),
    /// Character data.
    Characters,
}

/// The mathematical value of an [`Expected`].
pub enum ExpectedView {
    Content,
    StartElement,
    Field(Seq<char>),
    EndElement,
    EndOf(NameView),
    Characters,
}

impl View for Expected {
    type V = ExpectedView;

    open spec fn view(&self) -> ExpectedView {
        match self {
            Expected::Content => ExpectedView::Content,
            Expected::StartElement => ExpectedView::StartElement,
            Expected::Field(name) => ExpectedView::Field(name@),
            Expected::EndElement => ExpectedView::EndElement,
            Expected::EndOf(name) => ExpectedView::EndOf(name@),
            Expected::Characters => ExpectedView::Characters,
        }
    }
}

/// Why a decode stopped. Every failure ends the decode: none is retried.
#[derive(Debug, PartialEq, Eq)]
pub enum Error {
    /// The tokenizer found the markup malformed; its message.
    Syntax(String),
    /// The stream held `found` where `expected` had to stand.
    Mismatch { expected: Expected, found: Event },
    /// A tag that names none of the variants asked for.
    UnknownVariant(String),
    /// Text that is no value of the scalar kind asked for.
    Conversion { kind: ScalarKind, text: String },
    /// A sequence of `size` items met another number of them. `items` is the
    /// number decoded when that showed: fewer than `size` where the run ended
    /// early, `size` where the run went on behind them.
    LengthMismatch { size: usize, items: usize },
    /// Any other structural failure, in words.
    Custom(String),
}

/// The mathematical value of an [`Error`].
pub enum ErrorView {
    Syntax(Seq<char>),
    Mismatch { expected: ExpectedView, found: EventView },
    UnknownVariant(Seq<char>),
    Conversion { kind: ScalarKind, text: Seq<char> },
    LengthMismatch { size: nat, items: nat },
    Custom(Seq<char>),
}

impl View for Error {
    type V = ErrorView;

    open spec fn view(&self) -> ErrorView {
        match self {
            Error::Syntax(failure) => ErrorView::Syntax(failure@),
            Error::Mismatch { expected, found } => ErrorView::Mismatch {
                expected: expected@,
                found: found@,
            },
            Error::UnknownVariant(tag) => ErrorView::UnknownVariant(tag@),
            Error::Conversion { kind, text } => ErrorView::Conversion { kind: *kind, text: text@ },
            Error::LengthMismatch { size, items } => ErrorView::LengthMismatch {
                size: *size as nat,
                items: *items as nat,
            },
            Error::Custom(message) => ErrorView::Custom(message@),
        }
    }
}

/// The words of the failure raised when elements nest deeper than the depth
/// counter can count.
pub open spec fn nesting_limit_message() -> Seq<char> {
    "elements nest deeper than the decoder can count"@
}

impl ErrorView {
    /// The failure of reading on after the end of the document.
    pub open spec fn end_of_stream() -> ErrorView {
        ErrorView::Mismatch { expected: ExpectedView::Content, found: EventView::EndDocument }
    }

    /// The failure raised when elements nest deeper than the depth counter
    /// can count.
    pub open spec fn nesting_limit() -> ErrorView {
        ErrorView::Custom(nesting_limit_message())
    }
}

impl Error {
    /// The failure of reading on after the end of the document.
    pub fn end_of_stream() -> (error: Error)
        ensures
            error@ == ErrorView::end_of_stream(),
    {
        Error::Mismatch { expected: Expected::Content, found: Event::EndDocument }
    }

    /// The failure raised when elements nest deeper than the depth counter
    /// can count.
    pub fn nesting_limit() -> (error: Error)
        ensures
            error@ == ErrorView::nesting_limit(),
    {
        Error::Custom(String::from_str("elements nest deeper than the decoder can count"))
    }
}

} // verus!
