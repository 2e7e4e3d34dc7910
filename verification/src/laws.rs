//! What holds of the catalog whatever is asked of it, and in whatever order.

use crate::book::{BookPayloadView, BookView};
use crate::codec::well_formed;
use crate::error::ErrorView;
use crate::model::{
    add_reply, after_add, after_borrow, after_delete, after_return, borrow_reply, delete_reply,
    return_reply, CatalogView,
};
use vstd::prelude::*;

verus! {

/// A request that can change the catalog.
pub enum Request {
    Add { payload: BookPayloadView },
    Borrow { id: u64, caller: Seq<char> },
    Return { id: u64 },
    Delete { id: u64 },
}

/// The catalog after a request. A request to add that the counter's memory
/// refuses leaves the catalog as it was, as if it had not been made.
pub open spec fn after(catalog: CatalogView, request: Request) -> CatalogView {
    match request {
        Request::Add { payload } => after_add(catalog, payload),
        Request::Borrow { id, caller } => after_borrow(catalog, id, caller),
        Request::Return { id } => after_return(catalog, id),
        Request::Delete { id } => after_delete(catalog, id),
    }
}

/// The id that a request gives to a new book, where it adds one.
pub open spec fn issued(catalog: CatalogView, request: Request) -> Option<u64> {
    match request {
        Request::Add { payload } => match add_reply(catalog, payload) {
            Ok(book) => Some(book.id),
            Err(_) => None,
        },
        _ => None,
    }
}

/// The catalog after a sequence of requests, one after the other.
pub open spec fn run(catalog: CatalogView, requests: Seq<Request>) -> CatalogView
    decreases requests.len(),
{
    if requests.len() == 0 {
        catalog
    } else {
        after(run(catalog, requests.drop_last()), requests.last())
    }
}

/// No request lowers the counter, and an id that a request issues is what the
/// counter holds afterwards.
pub proof fn lemma_counter_grows(catalog: CatalogView, request: Request)
    ensures
        catalog.last_id <= after(catalog, request).last_id,
        issued(catalog, request) matches Some(id) ==> catalog.last_id < id && id == after(
            catalog,
            request,
        ).last_id,
{
}

/// The counter after a sequence of requests is at least what it was after any
/// part of the sequence.
pub proof fn lemma_counter_grows_along(catalog: CatalogView, requests: Seq<Request>, i: int)
    requires
        0 <= i <= requests.len(),
    ensures
        run(catalog, requests.take(i)).last_id <= run(catalog, requests).last_id,
    decreases requests.len(),
{
    if i == requests.len() {
        assert(requests.take(i) =~= requests);
    } else {
        let shorter = requests.drop_last();
        assert(shorter.take(i) =~= requests.take(i));
        lemma_counter_grows_along(catalog, shorter, i);
        lemma_counter_grows(run(catalog, shorter), requests.last());
    }
}

/// Ids are unique and grow: of two requests in a sequence that each add a
/// book, the later one issues the larger id, whatever was asked in between,
/// deletions included.
pub proof fn lemma_ids_strictly_increase(
    catalog: CatalogView,
    requests: Seq<Request>,
    i: int,
    j: int,
)
    requires
        0 <= i < j < requests.len(),
        issued(run(catalog, requests.take(i)), requests[i]) is Some,
        issued(run(catalog, requests.take(j)), requests[j]) is Some,
    ensures
        issued(run(catalog, requests.take(i)), requests[i])->0 < issued(
            run(catalog, requests.take(j)),
            requests[j],
        )->0,
{
    let before_j = requests.take(j);
    let through_i = before_j.take(i + 1);
    assert(through_i =~= requests.take(i + 1));
    assert(through_i.drop_last() =~= requests.take(i));
    assert(through_i.last() == requests[i]);
    lemma_counter_grows(run(catalog, requests.take(i)), requests[i]);
    lemma_counter_grows_along(catalog, before_j, i + 1);
    lemma_counter_grows(run(catalog, before_j), requests[j]);
}

/// The id that a new book gets is not the id of any book in the catalog.
pub proof fn lemma_new_id_is_fresh(catalog: CatalogView, payload: BookPayloadView)
    requires
        catalog.sound(),
        add_reply(catalog, payload) is Ok,
    ensures
        !catalog.books.contains_key(add_reply(catalog, payload)->Ok_0.id),
{
}

/// In a sound catalog every book has a borrower exactly while it is not
/// available.
pub proof fn lemma_books_coherent(catalog: CatalogView, id: u64)
    requires
        catalog.sound(),
        catalog.books.contains_key(id),
    ensures
        catalog.books[id].coherent(),
        catalog.books[id].borrower is Some <==> !catalog.books[id].is_available,
{
}

/// A sound catalog is sound after any request.
pub proof fn lemma_sound_is_kept(catalog: CatalogView, request: Request)
    requires
        catalog.sound(),
    ensures
        after(catalog, request).sound(),
{
}

/// A sound catalog is sound after any sequence of requests: at every moment
/// every book has a borrower exactly while it is not available.
pub proof fn lemma_sound_throughout(catalog: CatalogView, requests: Seq<Request>)
    requires
        catalog.sound(),
    ensures
        run(catalog, requests).sound(),
    decreases requests.len(),
{
    if requests.len() > 0 {
        lemma_sound_throughout(catalog, requests.drop_last());
        lemma_sound_is_kept(run(catalog, requests.drop_last()), requests.last());
    }
}

/// A book that a request answers with is well formed: it has a borrower
/// exactly while it is not available.
pub proof fn lemma_answers_well_formed(
    catalog: CatalogView,
    payload: BookPayloadView,
    id: u64,
    caller: Seq<char>,
)
    requires
        catalog.sound(),
    ensures
        add_reply(catalog, payload) matches Ok(book) ==> well_formed(book),
        borrow_reply(catalog, id, caller) matches Ok(book) ==> well_formed(book),
        return_reply(catalog, id) matches Ok(book) ==> well_formed(book),
{
}

/// Deleting a book that is not there is refused and changes nothing.
pub proof fn lemma_delete_missing(catalog: CatalogView, id: u64)
    requires
        !catalog.books.contains_key(id),
    ensures
        delete_reply(catalog, id) == Err::<(), ErrorView>(ErrorView::not_found(id)),
        after_delete(catalog, id) == catalog,
{
    assert(catalog.books.remove(id) =~= catalog.books);
}

/// Deleting a book a second time is refused: whatever the first deletion
/// answered, the book is gone after it.
pub proof fn lemma_delete_twice(catalog: CatalogView, id: u64)
    ensures
        delete_reply(after_delete(catalog, id), id) == Err::<(), ErrorView>(ErrorView::not_found(id)),
        after_delete(after_delete(catalog, id), id) == after_delete(catalog, id),
{
    assert(catalog.books.remove(id).remove(id) =~= catalog.books.remove(id));
}

/// Borrowing a book that is borrowed already is refused and changes nothing.
pub proof fn lemma_borrow_borrowed(catalog: CatalogView, id: u64, caller: Seq<char>)
    requires
        catalog.books.contains_key(id),
        !catalog.books[id].is_available,
    ensures
        borrow_reply(catalog, id, caller) == Err::<BookView, ErrorView>(ErrorView::not_available()),
        after_borrow(catalog, id, caller) == catalog,
{
}

/// Returning a book that is available is refused and changes nothing.
pub proof fn lemma_return_available(catalog: CatalogView, id: u64)
    requires
        catalog.books.contains_key(id),
        catalog.books[id].is_available,
    ensures
        return_reply(catalog, id) == Err::<BookView, ErrorView>(ErrorView::already_available()),
        after_return(catalog, id) == catalog,
{
}

/// A book that was borrowed cannot be borrowed again before it is returned,
/// and a book that was returned cannot be returned again before it is
/// borrowed.
pub proof fn lemma_no_second_step(catalog: CatalogView, id: u64, caller: Seq<char>, next: Seq<char>)
    ensures
        borrow_reply(catalog, id, caller) is Ok ==> borrow_reply(
            after_borrow(catalog, id, caller),
            id,
            next,
        ) == Err::<BookView, ErrorView>(ErrorView::not_available()),
        return_reply(catalog, id) is Ok ==> return_reply(after_return(catalog, id), id) == Err::<
            BookView,
            ErrorView,
        >(ErrorView::already_available()),
{
}

} // verus!
