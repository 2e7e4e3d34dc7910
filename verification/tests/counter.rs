use ic_stable_structures::cell::{InitError, ValueError};
use lending_catalog::allocator::{generate_unique_id, id_after, issue, IdAllocator};
use lending_catalog::error::Error;
use lending_catalog::regions::RegionManager;

#[test]
fn id_after_adds_one() {
    assert_eq!(id_after(0), Some(1));
    assert_eq!(id_after(1), Some(2));
    assert_eq!(id_after(41), Some(42));
    assert_eq!(id_after(u64::MAX - 1), Some(u64::MAX));
}

#[test]
fn id_after_stops_at_the_largest_number() {
    assert_eq!(id_after(u64::MAX), None);
}

#[test]
fn issue_gives_the_id_that_was_written() {
    assert_eq!(issue(5, Ok(4)), Ok(5));
    assert_eq!(issue(1, Ok(0)), Ok(1));
    assert_eq!(issue(u64::MAX, Ok(7)), Ok(u64::MAX));
}

#[test]
fn issue_refuses_where_the_write_failed() {
    assert_eq!(
        issue(5, Err(ValueError::ValueTooLarge { value_size: 8 })),
        Err(Error::InternalError { msg: "Failed to set new ID in counter".to_string() })
    );
}

#[test]
fn from_cell_reports_a_counter_that_cannot_be_attached() {
    let failures = [
        InitError::ValueTooLarge { value_size: 8 },
        InitError::IncompatibleVersion { last_supported_version: 1, decoded_version: 2 },
    ];
    for failure in failures {
        match IdAllocator::from_cell(Err(failure)) {
            Err(error) => assert_eq!(
                error,
                Error::InternalError { msg: "Cannot create a counter".to_string() }
            ),
            Ok(_) => panic!("a failure to attach gave a counter"),
        }
    }
}

#[test]
fn generate_unique_id_is_strictly_increasing() {
    let mut regions = RegionManager::init();
    let mut counter = IdAllocator::init(regions.claim(0).unwrap()).unwrap();
    let mut last = counter.current();
    for _ in 0..100 {
        let before = counter.current();
        let id = generate_unique_id(&mut counter).unwrap();
        assert_eq!(id, before + 1);
        assert!(id > last);
        assert_eq!(counter.current(), id);
        last = id;
    }
    assert_eq!(last, 100);
}
