//! The catalog: adding, finding, listing, lending and deleting books.
//!
//! Every request runs to its end before the next one starts. A request that is
//! refused leaves the catalog as it was.

use crate::allocator::{generate_unique_id, IdAllocator};
use crate::book::{Book, BookPayload, BookView, Genre};
use crate::codec::{fits_bound, stored_len};
use crate::error::{
    already_available, corrupt_state, empty_author, empty_title, not_available, not_found,
    region_taken, too_large, Error, ErrorView,
};
use crate::model::{
    add_reply, after_add, after_borrow, after_delete, after_return, borrow_reply, delete_reply,
    get_reply, payload_error, return_reply, CatalogView,
};
use crate::regions::RegionManager;
use crate::stable::Region;
use crate::store::{_get_book, do_insert_book, is_listing, views, BookStore, Filter};
use crate::text::blank;
use vstd::prelude::*;

verus! {

/// The tag of the region that holds the id counter.
pub const COUNTER_REGION: u8 = 0;

/// The tag of the region that holds the books.
pub const BOOKS_REGION: u8 = 1;

/// What an answer that carries a book is to the contracts.
pub open spec fn reply_view(reply: Result<Book, Error>) -> Result<BookView, ErrorView> {
    match reply {
        Ok(book) => Ok(book@),
        Err(error) => Err(error@),
    }
}

/// What an answer that carries nothing is to the contracts.
pub open spec fn outcome_view(outcome: Result<(), Error>) -> Result<(), ErrorView> {
    match outcome {
        Ok(()) => Ok(()),
        Err(error) => Err(error@),
    }
}

/// The catalog: the id counter and the book store, each in its own region.
pub struct Catalog {
    ids: IdAllocator,
    store: BookStore,
}

impl View for Catalog {
    type V = CatalogView;

    closed spec fn view(&self) -> CatalogView {
        CatalogView { last_id: self.ids.last_id(), books: self.store@ }
    }
}

impl Catalog {
    /// The counter lives in the region `COUNTER_REGION` and the books in the
    /// region `BOOKS_REGION`, the store can be read back, and the catalog is
    /// sound.
    pub closed spec fn wf(&self) -> bool {
        &&& self.ids.region() == COUNTER_REGION
        &&& self.store.region() == BOOKS_REGION
        &&& self.store.wf()
        &&& self@.sound()
    }

    /// The tag of the region that the counter lives in.
    pub closed spec fn counter_region(&self) -> u8 {
        self.ids.region()
    }

    /// The tag of the region that the books live in.
    pub closed spec fn books_region(&self) -> u8 {
        self.store.region()
    }

    /// A catalog that is well formed keeps its counter in the region
    /// `COUNTER_REGION` and its books in the region `BOOKS_REGION`.
    pub proof fn lemma_regions(&self)
        requires
            self.wf(),
        ensures
            self.counter_region() == COUNTER_REGION,
            self.books_region() == BOOKS_REGION,
    {
    }

    /// A catalog that is well formed is sound.
    pub proof fn lemma_sound(&self)
        requires
            self.wf(),
        ensures
            self@.sound(),
    {
    }

    /// The id that was handed out last, or 0 where none has been yet.
    pub fn last_id(&self) -> (id: u64)
        ensures
            id == self@.last_id,
    {
        self.ids.current()
    }

    /// Makes a catalog of a counter in the region `COUNTER_REGION` and a store
    /// in the region `BOOKS_REGION`, unless the store holds a book with an id
    /// that the counter has not reached yet.
    pub fn from_parts(ids: IdAllocator, store: BookStore) -> (catalog: Result<Catalog, Error>)
        requires
            ids.region() == COUNTER_REGION,
            store.region() == BOOKS_REGION,
            store.wf(),
        ensures
            catalog is Ok <==> forall|id: u64| #[trigger]
                store@.contains_key(id) ==> id <= ids.last_id(),
            catalog matches Ok(c) ==> c.wf() && c@ == (CatalogView {
                last_id: ids.last_id(),
                books: store@,
            }),
            catalog matches Err(e) ==> e@ == ErrorView::corrupt_state(),
    {
        let in_order: bool = match store.largest_id() {
            Some(top) => top <= ids.current(),
            None => true,
        };
        if in_order {
            proof {
                store.lemma_books_well_formed();
            }
            Ok(Catalog { ids, store })
        } else {
            Err(corrupt_state())
        }
    }

    /// Attaches to the catalog that two regions hold: the counter in `counter`,
    /// which is the region `COUNTER_REGION`, and the books in `books`, which is
    /// the region `BOOKS_REGION`. Regions that hold nothing yet give an empty
    /// catalog.
    pub fn attach(counter: Region, books: Region) -> (catalog: Result<Catalog, Error>)
        requires
            counter.tag() == COUNTER_REGION,
            books.tag() == BOOKS_REGION,
        ensures
            catalog matches Ok(c) ==> c.wf(),
            catalog matches Err(e) ==> e@ == ErrorView::counter_unavailable() || e@
                == ErrorView::corrupt_state(),
    {
        let ids: IdAllocator = match IdAllocator::init(counter) {
            Ok(ids) => ids,
            Err(error) => { return Err(error); },
        };
        let store: BookStore = match BookStore::init(books) {
            Ok(store) => store,
            Err(error) => { return Err(error); },
        };
        Catalog::from_parts(ids, store)
    }

    /// Claims the regions `COUNTER_REGION` and `BOOKS_REGION` and attaches to
    /// the catalog that they hold. Where one of the two has been handed out
    /// already, nothing is claimed and the catalog is refused.
    pub fn init(regions: &mut RegionManager) -> (catalog: Result<Catalog, Error>)
        ensures
            old(regions).claimed().contains(COUNTER_REGION) || old(regions).claimed().contains(
                BOOKS_REGION,
            ) ==> final(regions).claimed() == old(regions).claimed() && catalog is Err
                && catalog->Err_0@ == ErrorView::region_taken(),
            !old(regions).claimed().contains(COUNTER_REGION) && !old(regions).claimed().contains(
                BOOKS_REGION,
            ) ==> final(regions).claimed() == old(regions).claimed().insert(
                COUNTER_REGION,
            ).insert(BOOKS_REGION) && (catalog is Err ==> catalog->Err_0@
                == ErrorView::counter_unavailable() || catalog->Err_0@
                == ErrorView::corrupt_state()),
            catalog matches Ok(c) ==> c.wf(),
    {
        if regions.is_claimed(COUNTER_REGION) || regions.is_claimed(BOOKS_REGION) {
            return Err(region_taken());
        }
        match regions.claim(COUNTER_REGION) {
            Some(counter) => match regions.claim(BOOKS_REGION) {
                Some(books) => Catalog::attach(counter, books),
                None => Err(region_taken()),
            },
            None => Err(region_taken()),
        }
    }

    /// Lets go of the catalog and gives back its two regions, the counter's
    /// first. What the catalog holds stays in the regions.
    pub fn detach(self) -> (regions: (Region, Region))
        requires
            self.wf(),
        ensures
            regions.0.tag() == COUNTER_REGION,
            regions.1.tag() == BOOKS_REGION,
    {
        (self.ids.detach(), self.store.detach())
    }
}

/// Checks that a payload names a title and an author: neither may be blank.
pub fn validate_book_payload(payload: &BookPayload) -> (outcome: Result<(), Error>)
    ensures
        outcome matches Err(e) ==> payload_error(payload@) == Some(e@),
        outcome is Ok ==> payload_error(payload@) is None,
{
    if blank(payload.title.as_str()) {
        return Err(empty_title());
    }
    if blank(payload.author.as_str()) {
        return Err(empty_author());
    }
    Ok(())
}

/// The book with this id.
pub fn get_book(catalog: &Catalog, id: u64) -> (reply: Result<Book, Error>)
    requires
        catalog.wf(),
    ensures
        reply_view(reply) == get_reply(catalog@, id),
{
    match _get_book(&catalog.store, &id) {
        Some(book) => Ok(book),
        None => Err(not_found(id)),
    }
}

/// The books that can be borrowed, in ascending order of their ids.
pub fn get_available_books(catalog: &Catalog) -> (listing: Vec<Book>)
    requires
        catalog.wf(),
    ensures
        is_listing(views(listing@), catalog@.books, Filter::Available),
{
    catalog.store.select(Filter::Available)
}

/// Every book, in ascending order of the ids.
pub fn list_all_books(catalog: &Catalog) -> (listing: Vec<Book>)
    requires
        catalog.wf(),
    ensures
        is_listing(views(listing@), catalog@.books, Filter::All),
{
    catalog.store.select(Filter::All)
}

/// The books of one genre, in ascending order of their ids.
pub fn search_books_by_genre(catalog: &Catalog, genre: Genre) -> (listing: Vec<Book>)
    requires
        catalog.wf(),
    ensures
        is_listing(views(listing@), catalog@.books, Filter::OfGenre(genre)),
{
    catalog.store.select(Filter::OfGenre(genre))
}

/// Adds a book: it gets the next id, is available and has no borrower. A
/// payload with a blank title or author is refused, and so is one that would
/// not fit the store; the counter may refuse too. A refusal leaves the catalog
/// as it was.
pub fn add_book(catalog: &mut Catalog, payload: BookPayload) -> (reply: Result<Book, Error>)
    requires
        old(catalog).wf(),
    ensures
        final(catalog).wf(),
        ({
            &&& reply_view(reply) == add_reply(old(catalog)@, payload@)
            &&& final(catalog)@ == after_add(old(catalog)@, payload@)
        }) || ({
            &&& add_reply(old(catalog)@, payload@) is Ok
            &&& reply_view(reply) == Err::<BookView, ErrorView>(ErrorView::counter_failed())
            &&& final(catalog)@ == old(catalog)@
        }),
{
    match validate_book_payload(&payload) {
        Ok(()) => {},
        Err(error) => { return Err(error); },
    }
    if stored_len(payload.title.as_str(), payload.author.as_str(), None).is_none() {
        return Err(too_large());
    }
    let id: u64 = match generate_unique_id(&mut catalog.ids) {
        Ok(id) => id,
        Err(error) => { return Err(error); },
    };
    let book = Book {
        id,
        title: payload.title,
        author: payload.author,
        genre: payload.genre,
        is_available: true,
        borrower: None,
    };
    do_insert_book(&mut catalog.store, &book);
    Ok(book)
}

/// Lends a book to `caller`: the book is no longer available and `caller` is
/// its borrower. A book that is not there, or is borrowed already, or would
/// no longer fit the store with this borrower, is refused, and the catalog
/// stays as it was.
pub fn borrow_book(catalog: &mut Catalog, book_id: u64, caller: String) -> (reply: Result<
    Book,
    Error,
>)
    requires
        old(catalog).wf(),
    ensures
        final(catalog).wf(),
        reply_view(reply) == borrow_reply(old(catalog)@, book_id, caller@),
        final(catalog)@ == after_borrow(old(catalog)@, book_id, caller@),
{
    let mut book: Book = match _get_book(&catalog.store, &book_id) {
        Some(book) => book,
        None => { return Err(not_found(book_id)); },
    };
    if !book.is_available {
        return Err(not_available());
    }
    book.is_available = false;
    book.borrower = Some(caller);
    if !fits_bound(&book) {
        return Err(too_large());
    }
    do_insert_book(&mut catalog.store, &book);
    Ok(book)
}

/// Takes a book back: it is available again and has no borrower. A book that
/// is not there, or is not borrowed, is refused, and the catalog stays as it
/// was.
pub fn return_book(catalog: &mut Catalog, book_id: u64) -> (reply: Result<Book, Error>)
    requires
        old(catalog).wf(),
    ensures
        final(catalog).wf(),
        reply_view(reply) == return_reply(old(catalog)@, book_id),
        final(catalog)@ == after_return(old(catalog)@, book_id),
{
    let mut book: Book = match _get_book(&catalog.store, &book_id) {
        Some(book) => book,
        None => { return Err(not_found(book_id)); },
    };
    if book.is_available {
        return Err(already_available());
    }
    book.is_available = true;
    book.borrower = None;
    do_insert_book(&mut catalog.store, &book);
    Ok(book)
}

/// Deletes a book, whether it is borrowed or not. A book that is not there is
/// refused.
pub fn delete_book(catalog: &mut Catalog, id: u64) -> (outcome: Result<(), Error>)
    requires
        old(catalog).wf(),
    ensures
        final(catalog).wf(),
        outcome_view(outcome) == delete_reply(old(catalog)@, id),
        final(catalog)@ == after_delete(old(catalog)@, id),
{
    if catalog.store.remove(id) {
        Ok(())
    } else {
        assert(catalog@.books =~= old(catalog)@.books);
        Err(not_found(id))
    }
}

} // verus!
