use lending_catalog::book::{BookPayload, Genre};
use lending_catalog::catalog::{
    add_book, borrow_book, delete_book, get_available_books, get_book, return_book, Catalog,
};
use lending_catalog::error::Error;
use lending_catalog::regions::RegionManager;

fn fresh_catalog() -> Catalog {
    Catalog::init(&mut RegionManager::init()).expect("a fresh memory gives a catalog")
}

#[test]
fn loan_life_cycle() {
    let mut catalog = fresh_catalog();
    let payload = BookPayload {
        title: "Dune".to_string(),
        author: "Herbert".to_string(),
        genre: Genre::Science,
    };
    let added = add_book(&mut catalog, payload).unwrap();
    assert_eq!(added.id, 1);
    assert!(added.is_available);
    assert_eq!(added.borrower, None);

    let lent = borrow_book(&mut catalog, 1, "alice".to_string()).unwrap();
    assert!(!lent.is_available);
    assert_eq!(lent.borrower, Some("alice".to_string()));

    let refused = borrow_book(&mut catalog, 1, "bob".to_string());
    assert_eq!(
        refused,
        Err(Error::InvalidOperation { msg: "Book is not available for borrowing".to_string() })
    );
    assert_eq!(get_book(&catalog, 1).unwrap(), lent);

    let back = return_book(&mut catalog, 1).unwrap();
    assert!(back.is_available);
    assert_eq!(back.borrower, None);

    let available = get_available_books(&catalog);
    assert!(available.iter().any(|book| book.id == 1));

    assert_eq!(delete_book(&mut catalog, 1), Ok(()));
    assert_eq!(
        get_book(&catalog, 1),
        Err(Error::NotFound { msg: "Book with id=1 not found".to_string() })
    );
}
