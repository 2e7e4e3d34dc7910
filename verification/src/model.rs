//! The catalog as a mathematical object: what each request answers and what
//! it leaves behind.

use crate::book::{BookPayloadView, BookView};
use crate::codec::{fits, well_formed};
use crate::error::ErrorView;
use crate::text::is_blank;
use vstd::prelude::*;

verus! {

/// The state of a catalog: the id handed out last, and the books by id.
pub struct CatalogView {
    pub last_id: u64,
    pub books: Map<u64, BookView>,
}

impl CatalogView {
    /// What holds of a catalog at all times: every book is found under its own
    /// id, is well formed, and has an id that the counter has already passed.
    pub open spec fn sound(self) -> bool {
        forall|id: u64| #[trigger]
            self.books.contains_key(id) ==> {
                &&& self.books[id].id == id
                &&& well_formed(self.books[id])
                &&& id <= self.last_id
            }
    }
}

/// What is wrong with a payload, if anything: a blank title, or else a blank
/// author.
pub open spec fn payload_error(payload: BookPayloadView) -> Option<ErrorView> {
    if is_blank(payload.title) {
        Some(ErrorView::empty_title())
    } else if is_blank(payload.author) {
        Some(ErrorView::empty_author())
    } else {
        None
    }
}

/// The book that a payload becomes under the given id: available, with no
/// borrower.
pub open spec fn new_book(id: u64, payload: BookPayloadView) -> BookView {
    BookView {
        id,
        title: payload.title,
        author: payload.author,
        genre: payload.genre,
        is_available: true,
        borrower: None,
    }
}

/// Whether the book that a payload becomes is within the size bound of the
/// store. The id has no part in the size.
pub open spec fn payload_fits(payload: BookPayloadView) -> bool {
    fits(new_book(0, payload))
}

/// A book once `caller` has borrowed it.
pub open spec fn borrowed(book: BookView, caller: Seq<char>) -> BookView {
    BookView { is_available: false, borrower: Some(caller), ..book }
}

/// A book once it has been returned.
pub open spec fn returned(book: BookView) -> BookView {
    BookView { is_available: true, borrower: None, ..book }
}

/// The answer to looking up a book.
pub open spec fn get_reply(catalog: CatalogView, id: u64) -> Result<BookView, ErrorView> {
    if catalog.books.contains_key(id) {
        Ok(catalog.books[id])
    } else {
        Err(ErrorView::not_found(id))
    }
}

/// The answer to adding a book, where the counter can be written.
pub open spec fn add_reply(catalog: CatalogView, payload: BookPayloadView) -> Result<
    BookView,
    ErrorView,
> {
    if let Some(error) = payload_error(payload) {
        Err(error)
    } else if !payload_fits(payload) {
        Err(ErrorView::too_large())
    } else if catalog.last_id == u64::MAX {
        Err(ErrorView::counter_failed())
    } else {
        Ok(new_book((catalog.last_id + 1) as u64, payload))
    }
}

/// The catalog after adding a book, where the counter can be written.
pub open spec fn after_add(catalog: CatalogView, payload: BookPayloadView) -> CatalogView {
    match add_reply(catalog, payload) {
        Ok(book) => CatalogView { last_id: book.id, books: catalog.books.insert(book.id, book) },
        Err(_) => catalog,
    }
}

/// The answer to borrowing a book.
pub open spec fn borrow_reply(catalog: CatalogView, id: u64, caller: Seq<char>) -> Result<
    BookView,
    ErrorView,
> {
    if !catalog.books.contains_key(id) {
        Err(ErrorView::not_found(id))
    } else if !catalog.books[id].is_available {
        Err(ErrorView::not_available())
    } else if !fits(borrowed(catalog.books[id], caller)) {
        Err(ErrorView::too_large())
    } else {
        Ok(borrowed(catalog.books[id], caller))
    }
}

/// The catalog after borrowing a book.
pub open spec fn after_borrow(catalog: CatalogView, id: u64, caller: Seq<char>) -> CatalogView {
    match borrow_reply(catalog, id, caller) {
        Ok(book) => CatalogView { books: catalog.books.insert(id, book), ..catalog },
        Err(_) => catalog,
    }
}

/// The answer to returning a book.
pub open spec fn return_reply(catalog: CatalogView, id: u64) -> Result<BookView, ErrorView> {
    if !catalog.books.contains_key(id) {
        Err(ErrorView::not_found(id))
    } else if catalog.books[id].is_available {
        Err(ErrorView::already_available())
    } else {
        Ok(returned(catalog.books[id]))
    }
}

/// The catalog after returning a book.
pub open spec fn after_return(catalog: CatalogView, id: u64) -> CatalogView {
    match return_reply(catalog, id) {
        Ok(book) => CatalogView { books: catalog.books.insert(id, book), ..catalog },
        Err(_) => catalog,
    }
}

/// The answer to deleting a book.
pub open spec fn delete_reply(catalog: CatalogView, id: u64) -> Result<(), ErrorView> {
    if catalog.books.contains_key(id) {
        Ok(())
    } else {
        Err(ErrorView::not_found(id))
    }
}

/// The catalog after deleting a book.
pub open spec fn after_delete(catalog: CatalogView, id: u64) -> CatalogView {
    CatalogView { books: catalog.books.remove(id), ..catalog }
}

} // verus!
