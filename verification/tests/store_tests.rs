use todo_store::error::StoreError;
use todo_store::load_todos_wasm;
use todo_store::store::TodoStore;

#[test]
fn test_todo_canister() {
    let mut store = TodoStore::new();
    // 'add' a new todo and check the id returned as 1.
    let res = store.create("Content First Todo".to_owned());
    assert_eq!(res, Ok(1));

    // 'read' it back.
    let res = store.read(1);
    assert_eq!(res, Ok("Content First Todo".to_owned()));
}

#[test]
fn create_ids_start_at_one_and_strictly_increase() {
    let mut store = TodoStore::new();
    let a = store.create("first".to_owned()).unwrap();
    let b = store.create("second".to_owned()).unwrap();
    let c = store.create("third".to_owned()).unwrap();
    assert_eq!(a, 1);
    assert_eq!(b, 2);
    assert_eq!(c, 3);
    assert!(a < b && b < c);
}

#[test]
fn deleted_identifier_is_never_reused() {
    let mut store = TodoStore::new();
    assert_eq!(store.create("one".to_owned()), Ok(1));
    assert_eq!(store.create("two".to_owned()), Ok(2));
    assert_eq!(store.delete(2), Ok(()));
    assert_eq!(store.create("three".to_owned()), Ok(3));
}

#[test]
fn read_after_write_returns_content_exactly() {
    let mut store = TodoStore::new();
    let id = store.create("buy milk".to_owned()).unwrap();
    assert_eq!(store.read(id), Ok("buy milk".to_owned()));
}

#[test]
fn read_missing_fails_not_found() {
    let store = TodoStore::new();
    assert_eq!(store.read(5), Err(StoreError::NotFound(5)));
}

#[test]
fn update_changes_subsequent_read() {
    let mut store = TodoStore::new();
    let id = store.create("old text".to_owned()).unwrap();
    assert_eq!(store.update(id, "new text".to_owned()), Ok(()));
    assert_eq!(store.read(id), Ok("new text".to_owned()));
}

#[test]
fn update_missing_fails_and_leaves_store_unchanged() {
    let mut store = TodoStore::new();
    let id = store.create("kept".to_owned()).unwrap();
    assert_eq!(store.update(9, "x".to_owned()), Err(StoreError::NotFound(9)));
    assert_eq!(store.read(id), Ok("kept".to_owned()));
    assert_eq!(store.read(9), Err(StoreError::NotFound(9)));
    let (items, next) = store.list(1).unwrap();
    assert_eq!(items, vec!["kept".to_owned()]);
    assert_eq!(next, None);
}

#[test]
fn delete_makes_read_delete_update_fail_not_found() {
    let mut store = TodoStore::new();
    let id = store.create("gone soon".to_owned()).unwrap();
    assert_eq!(store.delete(id), Ok(()));
    assert_eq!(store.read(id), Err(StoreError::NotFound(id)));
    assert_eq!(store.delete(id), Err(StoreError::NotFound(id)));
    assert_eq!(
        store.update(id, "resurrect".to_owned()),
        Err(StoreError::NotFound(id))
    );
}

#[test]
fn pagination_collects_all_records_in_order() {
    let mut store = TodoStore::new();
    let n: u16 = 25;
    for k in 1..=n {
        let id = store.create(format!("item-{}", k)).unwrap();
        assert_eq!(id, k);
    }
    let mut collected: Vec<String> = Vec::new();
    let mut page: u16 = 1;
    loop {
        let (items, next) = store.list(page).unwrap();
        collected.extend(items);
        match next {
            Some(p) => page = p,
            None => break,
        }
    }
    assert_eq!(collected.len(), n as usize);
    for k in 1..=n {
        assert_eq!(collected[(k - 1) as usize], format!("item-{}", k));
    }
}

#[test]
fn pagination_boundary_exactly_ten_records() {
    let mut store = TodoStore::new();
    for k in 1..=10u16 {
        store.create(format!("item-{}", k)).unwrap();
    }
    let (items, next) = store.list(1).unwrap();
    assert_eq!(items.len(), 10);
    assert_eq!(next, None);
    assert_eq!(store.list(2), Err(StoreError::InvalidPage(2)));
}

#[test]
fn pagination_boundary_eleven_records() {
    let mut store = TodoStore::new();
    for k in 1..=11u16 {
        store.create(format!("item-{}", k)).unwrap();
    }
    let (items, next) = store.list(1).unwrap();
    assert_eq!(items.len(), 10);
    assert_eq!(items[0], "item-1".to_owned());
    assert_eq!(items[9], "item-10".to_owned());
    assert_eq!(next, Some(2));
    let (items, next) = store.list(2).unwrap();
    assert_eq!(items, vec!["item-11".to_owned()]);
    assert_eq!(next, None);
}

#[test]
fn empty_store_list_fails_invalid_page_one() {
    let store = TodoStore::new();
    assert_eq!(store.list(1), Err(StoreError::InvalidPage(1)));
}

#[test]
fn page_zero_behaves_like_page_one() {
    let empty = TodoStore::new();
    assert_eq!(empty.list(0), empty.list(1));
    assert_eq!(empty.list(0), Err(StoreError::InvalidPage(1)));

    let mut store = TodoStore::new();
    for k in 1..=12u16 {
        store.create(format!("item-{}", k)).unwrap();
    }
    assert_eq!(store.list(0), store.list(1));
    let (items, next) = store.list(0).unwrap();
    assert_eq!(items.len(), 10);
    assert_eq!(next, Some(2));
}

#[test]
fn page_beyond_last_record_fails_with_that_page() {
    let mut store = TodoStore::new();
    for k in 1..=5u16 {
        store.create(format!("item-{}", k)).unwrap();
    }
    assert_eq!(store.list(3), Err(StoreError::InvalidPage(3)));
}

#[test]
fn deletion_shifts_pagination() {
    let mut store = TodoStore::new();
    for k in 1..=11u16 {
        store.create(format!("item-{}", k)).unwrap();
    }
    // Record 11 sits alone on page 2 until an earlier record is deleted.
    assert!(store.list(2).is_ok());
    store.delete(4).unwrap();
    let (items, next) = store.list(1).unwrap();
    assert_eq!(items.len(), 10);
    assert_eq!(items[3], "item-5".to_owned());
    assert_eq!(items[9], "item-11".to_owned());
    assert_eq!(next, None);
    assert_eq!(store.list(2), Err(StoreError::InvalidPage(2)));
}

#[test]
fn identifier_space_exhaustion() {
    let mut store = TodoStore::new();
    for _ in 0..u16::MAX {
        store.create("x".to_owned()).unwrap();
    }
    assert_eq!(store.create("one too many".to_owned()), Err(StoreError::Exhausted));
    // Deleting does not free identifier space.
    assert_eq!(store.delete(1), Ok(()));
    assert_eq!(store.create("still none".to_owned()), Err(StoreError::Exhausted));
}

#[test]
fn load_todos_wasm_is_empty() {
    assert!(load_todos_wasm().is_empty());
}

#[test]
fn generator_increments_then_returns() {
    let mut gen = todo_store::generator::IdGenerator::new();
    assert_eq!(gen.next(), Ok(1));
    assert_eq!(gen.next(), Ok(2));
    assert_eq!(gen.next(), Ok(3));
}
