//! The errors of the catalog and the texts they carry.

use crate::text::{decimal, decimal_string};
use vstd::prelude::*;
use vstd::string::*;

verus! {

/// Why an operation on the catalog was refused.
#[derive(Clone, Debug, PartialEq, Eq)]
pub enum Error {
    /// No book has the id that was asked for.
    NotFound { msg: String },
    /// The book is not in the state that the operation starts from.
    InvalidOperation { msg: String },
    /// The payload names no title or no author.
    InvalidInput { msg: String },
    /// The counter or the store could not take the change.
    InternalError { msg: String },
}

/// What an `Error` is to the contracts.
pub enum ErrorView {
    NotFound { msg: Seq<char> },
    InvalidOperation { msg: Seq<char> },
    InvalidInput { msg: Seq<char> },
    InternalError { msg: Seq<char> },
}

impl View for Error {
    type V = ErrorView;

    open spec fn view(&self) -> ErrorView {
        match *self {
            Error::NotFound { msg } => ErrorView::NotFound { msg: msg@ },
            Error::InvalidOperation { msg } => ErrorView::InvalidOperation { msg: msg@ },
            Error::InvalidInput { msg } => ErrorView::InvalidInput { msg: msg@ },
            Error::InternalError { msg } => ErrorView::InternalError { msg: msg@ },
        }
    }
}

/// The message for a book that is not there.
pub open spec fn not_found_text(id: u64) -> Seq<char> {
    "Book with id="@ + decimal(id as nat) + " not found"@
}

impl ErrorView {
    /// No book has this id.
    pub open spec fn not_found(id: u64) -> ErrorView {
        ErrorView::NotFound { msg: not_found_text(id) }
    }

    /// The book is borrowed already.
    pub open spec fn not_available() -> ErrorView {
        ErrorView::InvalidOperation { msg: "Book is not available for borrowing"@ }
    }

    /// The book is not borrowed.
    pub open spec fn already_available() -> ErrorView {
        ErrorView::InvalidOperation { msg: "Book is already available"@ }
    }

    /// The payload has a blank title.
    pub open spec fn empty_title() -> ErrorView {
        ErrorView::InvalidInput { msg: "Book title cannot be empty"@ }
    }

    /// The payload has a blank author.
    pub open spec fn empty_author() -> ErrorView {
        ErrorView::InvalidInput { msg: "Book author cannot be empty"@ }
    }

    /// The counter cannot be attached to.
    pub open spec fn counter_unavailable() -> ErrorView {
        ErrorView::InternalError { msg: "Cannot create a counter"@ }
    }

    /// The counter cannot take the next id.
    pub open spec fn counter_failed() -> ErrorView {
        ErrorView::InternalError { msg: "Failed to set new ID in counter"@ }
    }

    /// The book is over the size bound of the store.
    pub open spec fn too_large() -> ErrorView {
        ErrorView::InternalError { msg: "Book exceeds the maximum record size"@ }
    }

    /// A region of the catalog has been handed out already.
    pub open spec fn region_taken() -> ErrorView {
        ErrorView::InternalError { msg: "Region is already in use"@ }
    }

    /// The stored state cannot be read back.
    pub open spec fn corrupt_state() -> ErrorView {
        ErrorView::InternalError { msg: "Stored state is corrupt"@ }
    }
}

/// The error for a book that is not there.
pub fn not_found(id: u64) -> (error: Error)
    ensures
        error@ == ErrorView::not_found(id),
{
    let mut msg: String = "Book with id=".to_owned();
    msg.append(decimal_string(id).as_str());
    msg.append(" not found");
    Error::NotFound { msg }
}

/// The error for borrowing a book that is borrowed already.
pub fn not_available() -> (error: Error)
    ensures
        error@ == ErrorView::not_available(),
{
    Error::InvalidOperation { msg: "Book is not available for borrowing".to_owned() }
}

/// The error for returning a book that is not borrowed.
pub fn already_available() -> (error: Error)
    ensures
        error@ == ErrorView::already_available(),
{
    Error::InvalidOperation { msg: "Book is already available".to_owned() }
}

/// The error for a payload with a blank title.
pub fn empty_title() -> (error: Error)
    ensures
        error@ == ErrorView::empty_title(),
{
    Error::InvalidInput { msg: "Book title cannot be empty".to_owned() }
}

/// The error for a payload with a blank author.
pub fn empty_author() -> (error: Error)
    ensures
        error@ == ErrorView::empty_author(),
{
    Error::InvalidInput { msg: "Book author cannot be empty".to_owned() }
}

/// The error for a counter that cannot be attached to.
pub fn counter_unavailable() -> (error: Error)
    ensures
        error@ == ErrorView::counter_unavailable(),
{
    Error::InternalError { msg: "Cannot create a counter".to_owned() }
}

/// The error for a counter that cannot take the next id.
pub fn counter_failed() -> (error: Error)
    ensures
        error@ == ErrorView::counter_failed(),
{
    Error::InternalError { msg: "Failed to set new ID in counter".to_owned() }
}

/// The error for a book that is over the size bound of the store.
pub fn too_large() -> (error: Error)
    ensures
        error@ == ErrorView::too_large(),
{
    Error::InternalError { msg: "Book exceeds the maximum record size".to_owned() }
}

/// The error for a region of the catalog that has been handed out already.
pub fn region_taken() -> (error: Error)
    ensures
        error@ == ErrorView::region_taken(),
{
    Error::InternalError { msg: "Region is already in use".to_owned() }
}

/// The error for stored state that cannot be read back.
pub fn corrupt_state() -> (error: Error)
    ensures
        error@ == ErrorView::corrupt_state(),
{
    Error::InternalError { msg: "Stored state is corrupt".to_owned() }
}

} // verus!
