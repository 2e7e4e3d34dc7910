use lending_catalog::book::{Book, Genre};
use lending_catalog::codec::{
    decode, encode, fits_bound, is_well_formed, stored_len, HEADER_SIZE, MAX_BOOK_SIZE,
};

fn dune() -> Book {
    Book {
        id: 1,
        title: "Dune".to_string(),
        author: "Herbert".to_string(),
        genre: Genre::Science,
        is_available: true,
        borrower: None,
    }
}

fn dune_lent() -> Book {
    Book { is_available: false, borrower: Some("alice".to_string()), ..dune() }
}

#[test]
fn encode_available_book_byte_for_byte() {
    let bytes = encode(&dune());
    let mut expected: Vec<u8> = vec![1, 0, 0, 0, 0, 0, 0, 0, 2, 0];
    expected.extend_from_slice(&[4, 0]);
    expected.extend_from_slice(b"Dune");
    expected.extend_from_slice(&[7, 0]);
    expected.extend_from_slice(b"Herbert");
    assert_eq!(bytes, expected);
    assert_eq!(bytes.len(), 25);
}

#[test]
fn encode_borrowed_book_byte_for_byte() {
    let bytes = encode(&dune_lent());
    let mut expected: Vec<u8> = vec![1, 0, 0, 0, 0, 0, 0, 0, 2, 1];
    expected.extend_from_slice(&[4, 0]);
    expected.extend_from_slice(b"Dune");
    expected.extend_from_slice(&[7, 0]);
    expected.extend_from_slice(b"Herbert");
    expected.extend_from_slice(&[5, 0]);
    expected.extend_from_slice(b"alice");
    assert_eq!(bytes, expected);
}

#[test]
fn encode_writes_id_least_significant_byte_first() {
    let book = Book { id: 0x0102_0304_0506_0708, ..dune() };
    let bytes = encode(&book);
    assert_eq!(&bytes[0..8], &[8, 7, 6, 5, 4, 3, 2, 1]);
}

#[test]
fn encode_writes_each_genre_code() {
    let genres = [Genre::Fiction, Genre::NonFiction, Genre::Science, Genre::Technology];
    for (code, genre) in genres.iter().enumerate() {
        let book = Book { genre: *genre, ..dune() };
        assert_eq!(encode(&book)[8], code as u8);
    }
}

#[test]
fn encode_writes_long_text_length_in_two_bytes() {
    let book = Book { title: "x".repeat(300), ..dune() };
    let bytes = encode(&book);
    assert_eq!(&bytes[10..12], &[44, 1]);
    assert_eq!(decode(&bytes), Some(book));
}

#[test]
fn decode_gives_back_what_was_encoded() {
    let books = vec![
        dune(),
        dune_lent(),
        Book { id: 0, title: String::new(), author: String::new(), ..dune() },
        Book { id: u64::MAX, genre: Genre::Technology, ..dune_lent() },
        Book {
            title: "Les Mis\u{e9}rables \u{4e2d}\u{6587} \u{1f4da}".to_string(),
            author: "Victor Hugo".to_string(),
            genre: Genre::Fiction,
            ..dune()
        },
        Book { borrower: Some(String::new()), ..dune_lent() },
        Book { genre: Genre::NonFiction, ..dune() },
    ];
    for book in books {
        assert!(is_well_formed(&book));
        assert_eq!(decode(&encode(&book)), Some(book));
    }
}

#[test]
fn decode_text_is_not_the_raw_bytes() {
    let decoded = decode(&encode(&dune_lent())).unwrap();
    assert_eq!(decoded.title, "Dune");
    assert_eq!(decoded.author, "Herbert");
    assert_eq!(decoded.borrower.as_deref(), Some("alice"));
}

#[test]
fn decode_refuses_short_input() {
    assert_eq!(decode(&[]), None);
    assert_eq!(decode(&[0; 9]), None);
    assert_eq!(decode(&[0; 10]), None);
    assert_eq!(decode(&[0; 13]), None);
}

#[test]
fn decode_takes_the_smallest_book() {
    let book = decode(&[0; 14]).unwrap();
    assert_eq!(
        book,
        Book {
            id: 0,
            title: String::new(),
            author: String::new(),
            genre: Genre::Fiction,
            is_available: true,
            borrower: None,
        }
    );
}

#[test]
fn decode_refuses_unknown_genre() {
    let mut bytes = encode(&dune());
    bytes[8] = 4;
    assert_eq!(decode(&bytes), None);
    bytes[8] = 255;
    assert_eq!(decode(&bytes), None);
}

#[test]
fn decode_refuses_unknown_state() {
    let mut bytes = encode(&dune());
    bytes[9] = 2;
    assert_eq!(decode(&bytes), None);
}

#[test]
fn decode_refuses_available_book_with_borrower() {
    let mut bytes = encode(&dune_lent());
    bytes[9] = 0;
    assert_eq!(decode(&bytes), None);
}

#[test]
fn decode_refuses_borrowed_book_without_borrower() {
    let mut bytes = encode(&dune());
    bytes[9] = 1;
    assert_eq!(decode(&bytes), None);
}

#[test]
fn decode_refuses_trailing_bytes() {
    let mut bytes = encode(&dune());
    bytes.push(0);
    assert_eq!(decode(&bytes), None);
    let mut bytes = encode(&dune_lent());
    bytes.push(0);
    assert_eq!(decode(&bytes), None);
}

#[test]
fn decode_refuses_truncated_text() {
    let bytes = encode(&dune());
    for len in 0..bytes.len() {
        assert_eq!(decode(&bytes[..len]), None, "prefix of {len} bytes");
    }
}

#[test]
fn decode_refuses_text_longer_than_input() {
    let mut bytes = encode(&dune());
    bytes[10] = 200;
    assert_eq!(decode(&bytes), None);
}

#[test]
fn decode_refuses_invalid_utf8() {
    let mut bytes = encode(&dune());
    bytes[12] = 0xff;
    assert_eq!(decode(&bytes), None);
    let mut bytes = encode(&dune_lent());
    let last = bytes.len() - 1;
    bytes[last] = 0xc3;
    assert_eq!(decode(&bytes), None);
}

#[test]
fn decode_refuses_input_over_the_bound() {
    let mut bytes: Vec<u8> = vec![0; 10];
    bytes.extend_from_slice(&[0xf3, 0x03]);
    bytes.extend_from_slice(&[b'a'; 1011]);
    bytes.extend_from_slice(&[0, 0]);
    assert_eq!(bytes.len(), 1025);
    assert_eq!(decode(&bytes), None);
}

#[test]
fn stored_len_counts_header_lengths_and_bytes() {
    assert_eq!(stored_len("", "", None), Some(14));
    assert_eq!(stored_len("Dune", "Herbert", None), Some(25));
    assert_eq!(stored_len("Dune", "Herbert", Some("alice")), Some(32));
    assert_eq!(stored_len("Dune", "Herbert", Some("")), Some(27));
    assert_eq!(stored_len("\u{e9}", "\u{1f4da}", None), Some(14 + 2 + 4));
    assert_eq!(HEADER_SIZE, 10);
}

#[test]
fn stored_len_stops_at_the_bound() {
    assert_eq!(MAX_BOOK_SIZE, 1024);
    let longest = "a".repeat(1010);
    assert_eq!(stored_len(&longest, "", None), Some(1024));
    let too_long = "a".repeat(1011);
    assert_eq!(stored_len(&too_long, "", None), None);
    assert_eq!(stored_len("", &too_long, None), None);
    assert_eq!(stored_len("", "", Some(&too_long)), None);
    assert_eq!(stored_len(&"a".repeat(1008), "", Some("")), Some(1024));
    assert_eq!(stored_len(&"a".repeat(1009), "", Some("")), None);
    assert_eq!(stored_len(&"a".repeat(100_000), &"b".repeat(100_000), None), None);
}

#[test]
fn encode_fills_the_bound_exactly() {
    let book = Book { title: "a".repeat(1003), ..dune() };
    assert!(fits_bound(&book));
    let bytes = encode(&book);
    assert_eq!(bytes.len(), 1024);
    assert_eq!(decode(&bytes), Some(book));
}

#[test]
fn fits_bound_follows_stored_len() {
    assert!(fits_bound(&dune()));
    assert!(fits_bound(&dune_lent()));
    assert!(!fits_bound(&Book { title: "a".repeat(1004), ..dune() }));
    assert!(!fits_bound(&Book { borrower: Some("b".repeat(1000)), ..dune_lent() }));
}

#[test]
fn is_well_formed_wants_borrower_exactly_when_lent() {
    assert!(is_well_formed(&dune()));
    assert!(is_well_formed(&dune_lent()));
    assert!(dune().is_coherent());
    assert!(dune_lent().is_coherent());
    let held_but_available = Book { is_available: true, ..dune_lent() };
    assert!(!held_but_available.is_coherent());
    assert!(!is_well_formed(&held_but_available));
    let lent_to_nobody = Book { is_available: false, ..dune() };
    assert!(!lent_to_nobody.is_coherent());
    assert!(!is_well_formed(&lent_to_nobody));
    assert!(!is_well_formed(&Book { title: "a".repeat(2000), ..dune() }));
}
