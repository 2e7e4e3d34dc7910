//! The catalog's data: books, and the payload a book is made from.

use vstd::prelude::*;

verus! {

/// The closed set of categories a book can be filed under.
#[derive(Clone, Copy, Debug, PartialEq, Eq, Structural)]
pub enum Genre {
    Fiction,
    NonFiction,
    Science,
    Technology,
}

impl Default for Genre {
    /// A book whose genre is not given is fiction.
    fn default() -> (genre: Genre)
        ensures
            genre == Genre::Fiction,
    {
        Genre::Fiction
    }
}

/// One book of the catalog.
#[derive(Clone, Debug, PartialEq, Eq)]
pub struct Book {
    /// Assigned once, when the book is added, and never reused.
    pub id: u64,
    pub title: String,
    pub author: String,
    pub genre: Genre,
    /// Whether the book can be borrowed.
    pub is_available: bool,
    /// Who holds the book while it is not available.
    pub borrower: Option<String>,
}

/// What a `Book` is to the contracts: its strings as sequences of characters.
pub struct BookView {
    pub id: u64,
    pub title: Seq<char>,
    pub author: Seq<char>,
    pub genre: Genre,
    pub is_available: bool,
    pub borrower: Option<Seq<char>>,
}

impl BookView {
    /// A book has a borrower exactly while it is not available.
    pub open spec fn coherent(self) -> bool {
        self.borrower is Some <==> !self.is_available
    }
}

/// The view of an optional string.
pub open spec fn text_view(text: Option<String>) -> Option<Seq<char>> {
    match text {
        Some(t) => Some(t@),
        None => None,
    }
}

impl View for Book {
    type V = BookView;

    open spec fn view(&self) -> BookView {
        BookView {
            id: self.id,
            title: self.title@,
            author: self.author@,
            genre: self.genre,
            is_available: self.is_available,
            borrower: text_view(self.borrower),
        }
    }
}

impl Book {
    /// Whether the book has a borrower exactly while it is not available.
    pub fn is_coherent(&self) -> (coherent: bool)
        ensures
            coherent == self@.coherent(),
    {
        self.borrower.is_some() != self.is_available
    }
}

/// What a caller hands in to have a book added.
#[derive(Clone, Debug, PartialEq, Eq)]
pub struct BookPayload {
    pub title: String,
    pub author: String,
    pub genre: Genre,
}

/// What a `BookPayload` is to the contracts.
pub struct BookPayloadView {
    pub title: Seq<char>,
    pub author: Seq<char>,
    pub genre: Genre,
}

impl View for BookPayload {
    type V = BookPayloadView;

    open spec fn view(&self) -> BookPayloadView {
        BookPayloadView { title: self.title@, author: self.author@, genre: self.genre }
    }
}

} // verus!
