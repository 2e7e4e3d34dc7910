//! The book store: an ordered map from id to book, kept in a region.

use crate::book::{Book, BookView, Genre};
use crate::codec::{decode, decoding, encode, lemma_decode_inverts_encode, well_formed};
use crate::error::{corrupt_state, Error, ErrorView};
use crate::stable::{
    map_entries, map_get, map_init, map_insert, map_into_region, map_items, map_region,
    map_remove, BytesMap, Region,
};
use vstd::prelude::*;

verus! {

/// Whether a stored value stands for a book with this id.
pub open spec fn holds_book(bytes: Seq<u8>, id: u64) -> bool {
    decoding(bytes) matches Some(book) && book.id == id
}

/// Whether every stored value stands for a book, and that book has the key it
/// is stored under as its id.
pub open spec fn readable(entries: Map<u64, Seq<u8>>) -> bool {
    forall|id: u64| #[trigger] entries.contains_key(id) ==> holds_book(entries[id], id)
}

/// The books that readable entries stand for.
pub open spec fn books_of(entries: Map<u64, Seq<u8>>) -> Map<u64, BookView> {
    Map::new(|id: u64| entries.contains_key(id), |id: u64| decoding(entries[id])->0)
}

/// The views of a sequence of books.
pub open spec fn views(books: Seq<Book>) -> Seq<BookView> {
    books.map_values(|book: Book| book@)
}

/// Which books a listing is to hold.
#[derive(Clone, Copy, Debug, PartialEq, Eq, Structural)]
pub enum Filter {
    /// Every book.
    All,
    /// The books that can be borrowed.
    Available,
    /// The books of one genre.
    OfGenre(Genre),
}

impl Filter {
    /// Whether a listing with this filter holds the book.
    pub open spec fn keeps(self, book: BookView) -> bool {
        match self {
            Filter::All => true,
            Filter::Available => book.is_available,
            Filter::OfGenre(genre) => book.genre == genre,
        }
    }

    /// Whether a listing with this filter holds the book.
    pub fn accepts(self, book: &Book) -> (kept: bool)
        ensures
            kept == self.keeps(book@),
    {
        match self {
            Filter::All => true,
            Filter::Available => book.is_available,
            Filter::OfGenre(genre) => book.genre == genre,
        }
    }
}

/// Whether `listing` is the listing of `books` under `filter`: the books that
/// the filter keeps, each once, in ascending order of their ids.
pub open spec fn is_listing(
    listing: Seq<BookView>,
    books: Map<u64, BookView>,
    filter: Filter,
) -> bool {
    &&& forall|i: int, j: int| 0 <= i < j < listing.len() ==> listing[i].id < listing[j].id
    &&& forall|i: int|
        0 <= i < listing.len() ==> books.contains_key((#[trigger] listing[i]).id)
            && books[listing[i].id] == listing[i] && filter.keeps(listing[i])
    &&& forall|id: u64| #[trigger]
        books.contains_key(id) && filter.keeps(books[id]) ==> exists|i: int|
            0 <= i < listing.len() && (#[trigger] listing[i]).id == id
}

/// An ordered map from id to book, kept in a region.
pub struct BookStore {
    map: BytesMap,
}

impl View for BookStore {
    type V = Map<u64, BookView>;

    /// The books in the store, by id.
    closed spec fn view(&self) -> Map<u64, BookView> {
        books_of(map_entries(self.map))
    }
}

impl BookStore {
    /// Every stored value can be read back as a book, and that book has the key
    /// it is stored under as its id.
    pub closed spec fn wf(&self) -> bool {
        readable(map_entries(self.map))
    }

    /// The tag of the region that the store lives in.
    pub closed spec fn region(&self) -> u8 {
        map_region(self.map)
    }

    /// In a store that can be read back, every book is well formed and is
    /// found under its own id.
    pub proof fn lemma_books_well_formed(&self)
        requires
            self.wf(),
        ensures
            forall|id: u64| #[trigger]
                self@.contains_key(id) ==> self@[id].id == id && well_formed(self@[id]),
    {
    }

    /// Takes a map as a store where every value in it can be read back as a
    /// book with its key as id, and refuses it otherwise.
    pub fn from_map(map: BytesMap) -> (store: Result<BookStore, Error>)
        ensures
            store is Ok <==> readable(map_entries(map)),
            store matches Ok(s) ==> s.wf() && s@ == books_of(map_entries(map)) && s.region()
                == map_region(map),
            store matches Err(e) ==> e@ == ErrorView::corrupt_state(),
    {
        let items: Vec<(u64, Vec<u8>)> = map_items(&map);
        let mut i: usize = 0;
        while i < items.len()
            invariant
                0 <= i <= items@.len(),
                forall|j: int|
                    0 <= j < items@.len() ==> map_entries(map).contains_key(
                        #[trigger] items@[j].0,
                    ) && map_entries(map)[items@[j].0] == items@[j].1@,
                forall|j: int|
                    0 <= j < i ==> holds_book((#[trigger] items@[j]).1@, items@[j].0),
            decreases items@.len() - i,
        {
            let readable_item: bool = match decode(items[i].1.as_slice()) {
                Some(book) => book.id == items[i].0,
                None => false,
            };
            if !readable_item {
                assert(map_entries(map).contains_key(items@[i as int].0));
                return Err(corrupt_state());
            }
            i = i + 1;
        }
        assert forall|id: u64| #[trigger] map_entries(map).contains_key(id) implies holds_book(
            map_entries(map)[id],
            id,
        ) by {
            let j = choose|j: int| 0 <= j < items@.len() && (#[trigger] items@[j]).0 == id;
            assert(map_entries(map)[items@[j].0] == items@[j].1@);
        }
        Ok(BookStore { map })
    }

    /// Attaches to the store in `region`, or starts an empty one where the
    /// region holds none. A store that cannot be read back is refused.
    pub fn init(region: Region) -> (store: Result<BookStore, Error>)
        ensures
            store matches Ok(s) ==> s.wf() && s.region() == region.tag(),
            store matches Err(e) ==> e@ == ErrorView::corrupt_state(),
    {
        BookStore::from_map(map_init(region))
    }

    /// Lets go of the store and gives back the region it lives in. The books
    /// stay in the region.
    pub fn detach(self) -> (region: Region)
        ensures
            region.tag() == self.region(),
    {
        map_into_region(self.map)
    }

    /// Removes the book with this id, and says whether there was one.
    pub fn remove(&mut self, id: u64) -> (removed: bool)
        requires
            old(self).wf(),
        ensures
            final(self).wf(),
            removed == old(self)@.contains_key(id),
            final(self)@ == old(self)@.remove(id),
            final(self).region() == old(self).region(),
    {
        let removed: bool = map_remove(&mut self.map, id);
        assert(self@ =~= old(self)@.remove(id));
        removed
    }

    /// The books that `filter` keeps, in ascending order of their ids.
    pub fn select(&self, filter: Filter) -> (listing: Vec<Book>)
        requires
            self.wf(),
        ensures
            is_listing(views(listing@), self@, filter),
    {
        let items: Vec<(u64, Vec<u8>)> = map_items(&self.map);
        let ghost entries = map_entries(self.map);
        let mut listing: Vec<Book> = Vec::new();
        let mut i: usize = 0;
        while i < items.len()
            invariant
                0 <= i <= items@.len(),
                entries == map_entries(self.map),
                readable(entries),
                forall|a: int, b: int| 0 <= a < b < items@.len() ==> items@[a].0 < items@[b].0,
                forall|j: int|
                    0 <= j < items@.len() ==> entries.contains_key(#[trigger] items@[j].0)
                        && entries[items@[j].0] == items@[j].1@,
                forall|a: int, b: int|
                    0 <= a < b < listing@.len() ==> listing@[a].id < listing@[b].id,
                forall|a: int|
                    0 <= a < listing@.len() ==> exists|j: int|
                        0 <= j < i && (#[trigger] items@[j]).0 == (#[trigger] listing@[a]).id,
                forall|a: int|
                    0 <= a < listing@.len() ==> entries.contains_key((#[trigger] listing@[a]).id)
                        && decoding(entries[listing@[a].id]) == Some(listing@[a]@)
                        && filter.keeps(listing@[a]@),
                forall|j: int|
                    0 <= j < i && filter.keeps(decoding((#[trigger] items@[j]).1@)->0)
                        ==> exists|a: int|
                        0 <= a < listing@.len() && (#[trigger] listing@[a]).id == items@[j].0,
            decreases items@.len() - i,
        {
            assert(entries.contains_key(items@[i as int].0));
            match decode(items[i].1.as_slice()) {
                Some(book) => {
                    if filter.accepts(&book) {
                        let ghost before = listing@;
                        listing.push(book);
                        assert(forall|a: int|
                            0 <= a < before.len() ==> listing@[a] == before[a]);
                        assert(listing@[before.len() as int].id == items@[i as int].0);
                    }
                },
                None => {},
            }
            i = i + 1;
        }
        proof {
            let found = views(listing@);
            assert forall|id: u64| #[trigger]
                self@.contains_key(id) && filter.keeps(self@[id]) implies exists|a: int|
                0 <= a < found.len() && (#[trigger] found[a]).id == id by {
                let j = choose|j: int| 0 <= j < items@.len() && (#[trigger] items@[j]).0 == id;
                assert(entries[items@[j].0] == items@[j].1@);
                let a = choose|a: int|
                    0 <= a < listing@.len() && (#[trigger] listing@[a]).id == items@[j].0;
                assert(found[a].id == id);
            }
        }
        listing
    }

    /// The largest id in the store, if the store holds a book.
    pub fn largest_id(&self) -> (largest: Option<u64>)
        requires
            self.wf(),
        ensures
            largest matches Some(top) ==> self@.contains_key(top) && forall|id: u64| #[trigger]
                self@.contains_key(id) ==> id <= top,
            largest is None ==> self@ == Map::<u64, BookView>::empty(),
    {
        let items: Vec<(u64, Vec<u8>)> = map_items(&self.map);
        if items.len() == 0 {
            assert(self@ =~= Map::<u64, BookView>::empty());
            None
        } else {
            let top: u64 = items[items.len() - 1].0;
            assert(map_entries(self.map).contains_key(items@[items@.len() - 1].0));
            Some(top)
        }
    }
}

/// The book with this id, if the store holds one.
pub fn _get_book(store: &BookStore, id: &u64) -> (book: Option<Book>)
    requires
        store.wf(),
    ensures
        book is Some <==> store@.contains_key(*id),
        book matches Some(b) ==> b@ == store@[*id],
{
    match map_get(&store.map, *id) {
        Some(bytes) => decode(bytes.as_slice()),
        None => None,
    }
}

/// Stores the book under its id, in place of the book that was there if there
/// was one.
pub fn do_insert_book(store: &mut BookStore, book: &Book)
    requires
        old(store).wf(),
        well_formed(book@),
    ensures
        final(store).wf(),
        final(store)@ == old(store)@.insert(book.id, book@),
        final(store).region() == old(store).region(),
{
    let bytes: Vec<u8> = encode(book);
    proof {
        lemma_decode_inverts_encode(book@);
    }
    map_insert(&mut store.map, book.id, &bytes);
    assert(store@ =~= old(store)@.insert(book.id, book@));
}

} // verus!
