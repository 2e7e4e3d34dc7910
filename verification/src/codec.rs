//! The byte format in which a book is stored.
//!
//! A stored book is, in this order: the id as eight bytes, least significant
//! first; one byte for the genre; one byte that is 0 for a book that is
//! available and 1 for one that is borrowed; the title; the author; and, for a
//! borrowed book only, the borrower. Each text is its length in bytes as two
//! bytes, least significant first, followed by its UTF-8 bytes. Nothing may
//! follow, and the whole takes at most `MAX_BOOK_SIZE` bytes.

use crate::book::{Book, BookView, Genre};
use crate::stable::MAX_VALUE_SIZE;
use vstd::bytes::*;
use vstd::prelude::*;
use vstd::slice::*;
use vstd::string::*;
use vstd::utf8::*;

verus! {

/// The largest number of bytes that a stored book may take.
pub const MAX_BOOK_SIZE: usize = MAX_VALUE_SIZE;

/// The number of bytes before the title: id, genre and state.
pub const HEADER_SIZE: usize = 10;

/// The byte that stands for a genre.
pub open spec fn genre_code(genre: Genre) -> u8 {
    match genre {
        Genre::Fiction => 0,
        Genre::NonFiction => 1,
        Genre::Science => 2,
        Genre::Technology => 3,
    }
}

/// The byte that says whether a book is available.
pub open spec fn state_code(is_available: bool) -> u8 {
    if is_available {
        0
    } else {
        1
    }
}

/// A text as it is stored: the length of its UTF-8 bytes, then the bytes.
pub open spec fn text_encoding(text: Seq<char>) -> Seq<u8> {
    spec_u16_to_le_bytes(encode_utf8(text).len() as u16) + encode_utf8(text)
}

/// The borrower as it is stored: a text, or nothing where there is none.
pub open spec fn borrower_encoding(borrower: Option<Seq<char>>) -> Seq<u8> {
    match borrower {
        Some(who) => text_encoding(who),
        None => Seq::empty(),
    }
}

/// A book as it is stored.
pub open spec fn encoding(book: BookView) -> Seq<u8> {
    spec_u64_to_le_bytes(book.id) + seq![genre_code(book.genre), state_code(book.is_available)]
        + text_encoding(book.title) + text_encoding(book.author) + borrower_encoding(
        book.borrower,
    )
}

/// The number of bytes that a book takes when stored.
pub open spec fn encoded_len(book: BookView) -> int {
    HEADER_SIZE + 2 + encode_utf8(book.title).len() + 2 + encode_utf8(book.author).len() + (
    match book.borrower {
        Some(who) => 2 + encode_utf8(who).len(),
        None => 0,
    })
}

/// Whether a book is within the size bound of the store.
pub open spec fn fits(book: BookView) -> bool {
    encoded_len(book) <= MAX_BOOK_SIZE
}

/// What the store takes: a book that has a borrower exactly while it is not
/// available, and that is within the size bound.
pub open spec fn well_formed(book: BookView) -> bool {
    book.coherent() && fits(book)
}

/// The book that a byte string stands for: the well-formed book that is stored
/// as exactly these bytes, if there is one.
pub open spec fn decoding(bytes: Seq<u8>) -> Option<BookView> {
    if exists|book: BookView| well_formed(book) && encoding(book) == bytes {
        Some(choose|book: BookView| well_formed(book) && encoding(book) == bytes)
    } else {
        None
    }
}

/// The genre that a byte stands for.
spec fn genre_of_code(code: u8) -> Option<Genre> {
    if code == 0 {
        Some(Genre::Fiction)
    } else if code == 1 {
        Some(Genre::NonFiction)
    } else if code == 2 {
        Some(Genre::Science)
    } else if code == 3 {
        Some(Genre::Technology)
    } else {
        None
    }
}

/// The text that starts at `at`, and where it ends.
spec fn text_at(bytes: Seq<u8>, at: int) -> Option<(Seq<char>, int)> {
    if 0 <= at && at + 2 <= bytes.len() {
        let end = at + 2 + spec_u16_from_le_bytes(bytes.subrange(at, at + 2));
        if end <= bytes.len() && valid_utf8(bytes.subrange(at + 2, end)) {
            Some((decode_utf8(bytes.subrange(at + 2, end)), end))
        } else {
            None
        }
    } else {
        None
    }
}

/// The book that is read off a byte string, field by field.
spec fn parsed(bytes: Seq<u8>) -> Option<BookView> {
    if bytes.len() < HEADER_SIZE || bytes.len() > MAX_BOOK_SIZE {
        None
    } else if let (Some(genre), Some((title, after_title))) = (
        genre_of_code(bytes[8]),
        text_at(bytes, HEADER_SIZE as int),
    ) {
        if let Some((author, after_author)) = text_at(bytes, after_title) {
            let id = spec_u64_from_le_bytes(bytes.subrange(0, 8));
            if bytes[9] == 0 && after_author == bytes.len() {
                Some(BookView { id, title, author, genre, is_available: true, borrower: None })
            } else if bytes[9] == 1 {
                if let Some((who, after_borrower)) = text_at(bytes, after_author) {
                    if after_borrower == bytes.len() {
                        Some(
                            BookView {
                                id,
                                title,
                                author,
                                genre,
                                is_available: false,
                                borrower: Some(who),
                            },
                        )
                    } else {
                        None
                    }
                } else {
                    None
                }
            } else {
                None
            }
        } else {
            None
        }
    } else {
        None
    }
}

/// A stored text takes two bytes more than its UTF-8 bytes.
proof fn lemma_text_encoding_len(text: Seq<char>)
    ensures
        text_encoding(text).len() == 2 + encode_utf8(text).len(),
{
    lemma_auto_spec_u16_to_from_le_bytes();
}

/// A stored book takes `encoded_len` bytes.
pub proof fn lemma_encoding_len(book: BookView)
    ensures
        encoding(book).len() == encoded_len(book),
{
    lemma_auto_spec_u64_to_from_le_bytes();
    lemma_text_encoding_len(book.title);
    lemma_text_encoding_len(book.author);
    if let Some(who) = book.borrower {
        lemma_text_encoding_len(who);
    }
}

/// A stored text is read back as it was, wherever it stands.
proof fn lemma_text_at_encoding(before: Seq<u8>, text: Seq<char>, after: Seq<u8>)
    requires
        encode_utf8(text).len() <= 0xffff,
    ensures
        text_at(before + text_encoding(text) + after, before.len() as int) == Some(
            (text, (before.len() + 2 + encode_utf8(text).len()) as int),
        ),
{
    let raw = encode_utf8(text);
    let all = before + text_encoding(text) + after;
    let at = before.len() as int;
    lemma_auto_spec_u16_to_from_le_bytes();
    assert(all.subrange(at, at + 2) =~= spec_u16_to_le_bytes(raw.len() as u16));
    assert(all.subrange(at + 2, at + 2 + raw.len()) =~= raw);
    encode_utf8_valid_utf8(text);
    encode_utf8_decode_utf8(text);
}

/// Where a text is read at `at`, the bytes from there to its end are that text
/// as it is stored.
proof fn lemma_text_at_sound(bytes: Seq<u8>, at: int)
    requires
        text_at(bytes, at) is Some,
    ensures
        ({
            let (text, end) = text_at(bytes, at)->0;
            &&& at + 2 <= end <= bytes.len()
            &&& encode_utf8(text).len() == end - at - 2
            &&& bytes.subrange(at, end) == text_encoding(text)
        }),
{
    let (text, end) = text_at(bytes, at)->0;
    let prefix = bytes.subrange(at, at + 2);
    let raw = bytes.subrange(at + 2, end);
    lemma_auto_spec_u16_to_from_le_bytes();
    decode_utf8_encode_utf8(raw);
    assert(spec_u16_to_le_bytes(spec_u16_from_le_bytes(prefix)) == prefix);
    assert(bytes.subrange(at, end) =~= prefix + raw);
}

/// Reading a stored book field by field gives the book back.
proof fn lemma_parsed_encoding(book: BookView)
    requires
        well_formed(book),
    ensures
        parsed(encoding(book)) == Some(book),
{
    let head = spec_u64_to_le_bytes(book.id) + seq![
        genre_code(book.genre),
        state_code(book.is_available),
    ];
    let title = text_encoding(book.title);
    let author = text_encoding(book.author);
    let tail = borrower_encoding(book.borrower);
    let bytes = encoding(book);
    lemma_auto_spec_u64_to_from_le_bytes();
    lemma_encoding_len(book);
    lemma_text_encoding_len(book.title);
    lemma_text_encoding_len(book.author);
    assert(head.len() == HEADER_SIZE);
    assert(bytes.subrange(0, 8) =~= spec_u64_to_le_bytes(book.id));
    assert(bytes[8] == genre_code(book.genre));
    assert(bytes[9] == state_code(book.is_available));
    assert(bytes =~= head + title + (author + tail));
    lemma_text_at_encoding(head, book.title, author + tail);
    assert(bytes =~= (head + title) + author + tail);
    lemma_text_at_encoding(head + title, book.author, tail);
    match book.borrower {
        Some(who) => {
            lemma_text_encoding_len(who);
            assert(bytes =~= (head + title + author) + text_encoding(who) + Seq::<u8>::empty());
            lemma_text_at_encoding(head + title + author, who, Seq::<u8>::empty());
        },
        None => {},
    }
}

/// What is read off a byte string field by field is a well-formed book that is
/// stored as exactly those bytes.
proof fn lemma_parsed_sound(bytes: Seq<u8>)
    requires
        parsed(bytes) is Some,
    ensures
        well_formed(parsed(bytes)->0),
        encoding(parsed(bytes)->0) == bytes,
{
    let book = parsed(bytes)->0;
    let (_, after_title) = text_at(bytes, HEADER_SIZE as int)->0;
    let (_, after_author) = text_at(bytes, after_title)->0;
    lemma_auto_spec_u64_to_from_le_bytes();
    lemma_text_at_sound(bytes, HEADER_SIZE as int);
    lemma_text_at_sound(bytes, after_title);
    let head = spec_u64_to_le_bytes(book.id) + seq![
        genre_code(book.genre),
        state_code(book.is_available),
    ];
    assert(spec_u64_to_le_bytes(spec_u64_from_le_bytes(bytes.subrange(0, 8))) == bytes.subrange(
        0,
        8,
    ));
    assert(bytes.subrange(0, HEADER_SIZE as int) =~= head);
    if bytes[9] == 1 {
        lemma_text_at_sound(bytes, after_author);
        assert(bytes =~= bytes.subrange(0, HEADER_SIZE as int) + bytes.subrange(
            HEADER_SIZE as int,
            after_title,
        ) + bytes.subrange(after_title, after_author) + bytes.subrange(
            after_author,
            bytes.len() as int,
        ));
    } else {
        assert(bytes =~= bytes.subrange(0, HEADER_SIZE as int) + bytes.subrange(
            HEADER_SIZE as int,
            after_title,
        ) + bytes.subrange(after_title, after_author) + Seq::<u8>::empty());
    }
    lemma_encoding_len(book);
}

/// Reading field by field computes `decoding`.
proof fn lemma_parsed_is_decoding(bytes: Seq<u8>)
    ensures
        parsed(bytes) == decoding(bytes),
{
    if parsed(bytes) is Some {
        lemma_parsed_sound(bytes);
        let found = decoding(bytes)->0;
        lemma_parsed_encoding(found);
    } else if decoding(bytes) is Some {
        lemma_parsed_encoding(decoding(bytes)->0);
    }
}

/// Decoding inverts encoding: the bytes that a well-formed book is stored as
/// stand for that book and no other.
pub proof fn lemma_decode_inverts_encode(book: BookView)
    requires
        well_formed(book),
    ensures
        decoding(encoding(book)) == Some(book),
{
    lemma_parsed_encoding(book);
    lemma_parsed_is_decoding(encoding(book));
}

/// What a byte string stands for is a well-formed book, and encoding that book
/// gives the same bytes again.
pub proof fn lemma_encode_inverts_decode(bytes: Seq<u8>)
    requires
        decoding(bytes) is Some,
    ensures
        well_formed(decoding(bytes)->0),
        encoding(decoding(bytes)->0) == bytes,
{
}

/// Two well-formed books that are stored as the same bytes are the same book.
pub proof fn lemma_encoding_injective(a: BookView, b: BookView)
    requires
        well_formed(a),
        well_formed(b),
        encoding(a) == encoding(b),
    ensures
        a == b,
{
    lemma_decode_inverts_encode(a);
    lemma_decode_inverts_encode(b);
}

/// `String::from_utf8`: the string whose UTF-8 bytes are `bytes`, where they
/// are valid UTF-8, and nothing where they are not. Taken on trust.
#[verifier::external_body]
fn text_from_utf8(bytes: Vec<u8>) -> (text: Option<String>)
    ensures
        text is Some <==> valid_utf8(bytes@),
        text matches Some(t) ==> encode_utf8(t@) == bytes@,
{
    String::from_utf8(bytes).ok()
}

/// The byte that stands for a genre.
fn code_of_genre(genre: Genre) -> (code: u8)
    ensures
        code == genre_code(genre),
{
    match genre {
        Genre::Fiction => 0,
        Genre::NonFiction => 1,
        Genre::Science => 2,
        Genre::Technology => 3,
    }
}

/// The genre that a byte stands for.
fn genre_from_code(code: u8) -> (genre: Option<Genre>)
    ensures
        genre == genre_of_code(code),
{
    if code == 0 {
        Some(Genre::Fiction)
    } else if code == 1 {
        Some(Genre::NonFiction)
    } else if code == 2 {
        Some(Genre::Science)
    } else if code == 3 {
        Some(Genre::Technology)
    } else {
        None
    }
}

/// The number of bytes that a text takes when stored, or nothing where that
/// is over the size bound of a whole book.
fn stored_text_len(text: &str) -> (len: Option<usize>)
    ensures
        len matches Some(n) ==> n == 2 + encode_utf8(text@).len() && n <= MAX_BOOK_SIZE,
        len is None ==> 2 + encode_utf8(text@).len() > MAX_BOOK_SIZE,
{
    let raw_len: usize = text.as_bytes().len();
    if raw_len > MAX_BOOK_SIZE - 2 {
        None
    } else {
        Some(raw_len + 2)
    }
}

/// The number of bytes that a book with this title, this author and this
/// borrower takes when stored, or nothing where that is over the size bound.
pub fn stored_len(title: &str, author: &str, borrower: Option<&str>) -> (len: Option<usize>)
    ensures
        len matches Some(n) ==> n <= MAX_BOOK_SIZE && n == HEADER_SIZE + 2 + encode_utf8(
            title@,
        ).len() + 2 + encode_utf8(author@).len() + (match borrower {
            Some(who) => 2 + encode_utf8(who@).len(),
            None => 0,
        }),
        len is None ==> HEADER_SIZE + 2 + encode_utf8(title@).len() + 2 + encode_utf8(
            author@,
        ).len() + (match borrower {
            Some(who) => 2 + encode_utf8(who@).len(),
            None => 0,
        }) > MAX_BOOK_SIZE,
{
    let title_len: usize = match stored_text_len(title) {
        Some(n) => n,
        None => { return None; },
    };
    let author_len: usize = match stored_text_len(author) {
        Some(n) => n,
        None => { return None; },
    };
    let borrower_len: usize = match borrower {
        Some(who) => match stored_text_len(who) {
            Some(n) => n,
            None => { return None; },
        },
        None => 0,
    };
    let total: usize = HEADER_SIZE + title_len + author_len + borrower_len;
    if total <= MAX_BOOK_SIZE {
        Some(total)
    } else {
        None
    }
}

/// Whether a book is within the size bound of the store.
pub fn fits_bound(book: &Book) -> (within: bool)
    ensures
        within == fits(book@),
{
    let borrower: Option<&str> = match &book.borrower {
        Some(who) => Some(who.as_str()),
        None => None,
    };
    stored_len(book.title.as_str(), book.author.as_str(), borrower).is_some()
}

/// Whether the store takes a book: it has a borrower exactly while it is not
/// available, and it is within the size bound.
pub fn is_well_formed(book: &Book) -> (ok: bool)
    ensures
        ok == well_formed(book@),
{
    book.is_coherent() && fits_bound(book)
}

/// Appends a text as it is stored.
fn put_text(out: &mut Vec<u8>, text: &str)
    requires
        encode_utf8(text@).len() <= 0xffff,
    ensures
        final(out)@ == old(out)@ + text_encoding(text@),
{
    let raw: &[u8] = text.as_bytes();
    let len: u16 = raw.len() as u16;
    let mut prefix: Vec<u8> = u16_to_le_bytes(len);
    let mut body: Vec<u8> = slice_to_vec(raw);
    out.append(&mut prefix);
    out.append(&mut body);
    assert(out@ =~= old(out)@ + text_encoding(text@));
}

/// The bytes that a book is stored as.
pub fn encode(book: &Book) -> (bytes: Vec<u8>)
    requires
        well_formed(book@),
    ensures
        bytes@ == encoding(book@),
        bytes@.len() <= MAX_BOOK_SIZE,
{
    let mut out: Vec<u8> = u64_to_le_bytes(book.id);
    out.push(code_of_genre(book.genre));
    out.push(if book.is_available { 0u8 } else { 1u8 });
    assert(out@ =~= spec_u64_to_le_bytes(book.id) + seq![
        genre_code(book.genre),
        state_code(book.is_available),
    ]);
    put_text(&mut out, book.title.as_str());
    put_text(&mut out, book.author.as_str());
    match &book.borrower {
        Some(who) => {
            put_text(&mut out, who.as_str());
        },
        None => {
            assert(out@ =~= out@ + Seq::<u8>::empty());
        },
    }
    proof {
        lemma_encoding_len(book@);
    }
    out
}

/// Reads the text that starts at `at`, and says where it ends.
fn read_text(bytes: &[u8], at: usize) -> (found: Option<(String, usize)>)
    requires
        at <= bytes@.len() <= MAX_BOOK_SIZE,
    ensures
        found matches Some((text, end)) ==> text_at(bytes@, at as int) == Some(
            (text@, end as int),
        ),
        found is None ==> text_at(bytes@, at as int) is None,
{
    if bytes.len() - at < 2 {
        return None;
    }
    let len: usize = u16_from_le_bytes(slice_subrange(bytes, at, at + 2)) as usize;
    if bytes.len() - at - 2 < len {
        return None;
    }
    let end: usize = at + 2 + len;
    let raw: Vec<u8> = slice_to_vec(slice_subrange(bytes, at + 2, end));
    match text_from_utf8(raw) {
        Some(text) => {
            proof {
                encode_utf8_decode_utf8(text@);
            }
            Some((text, end))
        },
        None => None,
    }
}

/// The book that a byte string stands for, if it stands for one.
pub fn decode(bytes: &[u8]) -> (book: Option<Book>)
    ensures
        book matches Some(b) ==> decoding(bytes@) == Some(b@),
        book is None ==> decoding(bytes@) is None,
{
    proof {
        lemma_parsed_is_decoding(bytes@);
    }
    if bytes.len() < HEADER_SIZE || bytes.len() > MAX_BOOK_SIZE {
        return None;
    }
    let id: u64 = u64_from_le_bytes(slice_subrange(bytes, 0, 8));
    let genre: Genre = match genre_from_code(bytes[8]) {
        Some(genre) => genre,
        None => { return None; },
    };
    let state: u8 = bytes[9];
    let (title, after_title) = match read_text(bytes, HEADER_SIZE) {
        Some(found) => found,
        None => { return None; },
    };
    proof {
        lemma_text_at_sound(bytes@, HEADER_SIZE as int);
    }
    let (author, after_author) = match read_text(bytes, after_title) {
        Some(found) => found,
        None => { return None; },
    };
    proof {
        lemma_text_at_sound(bytes@, after_title as int);
    }
    if state == 0 {
        if after_author == bytes.len() {
            Some(Book { id, title, author, genre, is_available: true, borrower: None })
        } else {
            None
        }
    } else if state == 1 {
        match read_text(bytes, after_author) {
            Some((who, after_borrower)) => {
                if after_borrower == bytes.len() {
                    Some(
                        Book {
                            id,
                            title,
                            author,
                            genre,
                            is_available: false,
                            borrower: Some(who),
                        },
                    )
                } else {
                    None
                }
            },
            None => None,
        }
    } else {
        None
    }
}

} // verus!
