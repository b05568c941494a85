use book_store::{
    add_or_update_book, filter, find_by_id, find_position, get_book_by_id, get_book_with_query,
    is_allowed_origin, upsert, Book, BookQuery, StoreError,
};

fn book(id: u32, title: &str, tags: &[&str]) -> Book {
    Book {
        id,
        title: title.to_string(),
        content: format!("content of {}", title),
        tags: tags.iter().map(|t| t.to_string()).collect(),
    }
}

fn sample_catalog() -> Vec<Book> {
    vec![
        book(1, "Rust Basics", &["rust", "beginner"]),
        book(2, "Async in Rust", &["rust", "async"]),
        book(50, "Parallelism", &["rust", "parallel"]),
    ]
}

fn no_query() -> BookQuery {
    BookQuery { id: None, tag: None }
}

fn titles(books: &[Book]) -> Vec<String> {
    books.iter().map(|b| b.title.clone()).collect()
}

#[test]
fn test_get_books() {
    let books = get_book_with_query(Ok(sample_catalog()), &no_query()).unwrap();
    let body = titles(&books).join(",");
    assert!(body.contains("Rust Basics"));
    assert!(body.contains("Async in Rust"));
    assert!(body.contains("Parallelism"));
}

#[test]
fn test_get_book_by_id() {
    let found = get_book_by_id(Ok(sample_catalog()), 1).unwrap().unwrap();
    assert!(found.title.contains("Rust Basics"));
    let found = get_book_by_id(Ok(sample_catalog()), 50).unwrap().unwrap();
    assert!(found.title.contains("Parallelism"));
}

#[test]
fn test_get_book_not_found() {
    let found = get_book_by_id(Ok(sample_catalog()), 999);
    assert_eq!(found, Ok(None));
}

#[test]
fn test_get_book_with_query() {
    let query = BookQuery { id: Some(1), tag: None };
    let found = get_book_with_query(Ok(sample_catalog()), &query).unwrap();
    assert_eq!(found.len(), 1);
    assert!(found[0].title.contains("Rust Basics"));
}

#[test]
fn upsert_twice_equals_once() {
    let new = book(7, "Traits", &["rust"]);
    let mut once = sample_catalog();
    upsert(&mut once, new.clone());
    let mut twice = once.clone();
    upsert(&mut twice, new.clone());
    assert_eq!(once, twice);

    let changed = book(2, "Async in Rust, 2nd ed.", &["async"]);
    let mut once = sample_catalog();
    upsert(&mut once, changed.clone());
    let mut twice = once.clone();
    upsert(&mut twice, changed);
    assert_eq!(once, twice);
}

#[test]
fn upserts_leave_one_record_per_id() {
    let mut books: Vec<Book> = Vec::new();
    for (id, title) in [(3, "a"), (1, "b"), (3, "c"), (1, "d"), (2, "e"), (3, "f")] {
        upsert(&mut books, book(id, title, &[]));
    }
    let ids: Vec<u32> = books.iter().map(|b| b.id).collect();
    assert_eq!(ids, vec![3, 1, 2]);
    assert_eq!(titles(&books), vec!["f", "d", "e"]);
}

#[test]
fn upsert_keeps_position_of_updated_record() {
    let mut books = sample_catalog();
    upsert(&mut books, book(2, "Async in Rust v2", &["async"]));
    assert_eq!(titles(&books), vec!["Rust Basics", "Async in Rust v2", "Parallelism"]);
    assert_eq!(books[1].tags, vec!["async".to_string()]);
}

#[test]
fn upsert_appends_new_id_at_end() {
    let mut books = sample_catalog();
    upsert(&mut books, book(4, "Macros", &[]));
    assert_eq!(books.len(), 4);
    assert_eq!(books[3].id, 4);
    assert_eq!(find_position(&books, 4), Some(3));
}

#[test]
fn upsert_into_empty_catalog() {
    let mut books: Vec<Book> = Vec::new();
    upsert(&mut books, book(1, "Rust Basics", &[]));
    assert_eq!(titles(&books), vec!["Rust Basics"]);
}

#[test]
fn upsert_replaces_only_first_of_duplicate_ids() {
    let mut books = vec![book(1, "x", &[]), book(1, "y", &[])];
    upsert(&mut books, book(1, "z", &[]));
    assert_eq!(titles(&books), vec!["z", "y"]);
}

#[test]
fn filter_by_id_returns_the_record() {
    let found = filter(&sample_catalog(), &BookQuery { id: Some(2), tag: None });
    assert_eq!(titles(&found), vec!["Async in Rust"]);
    let none = filter(&sample_catalog(), &BookQuery { id: Some(3), tag: None });
    assert!(none.is_empty());
}

#[test]
fn filter_by_tag_returns_records_holding_it() {
    let found = filter(&sample_catalog(), &BookQuery { id: None, tag: Some("rust".to_string()) });
    assert_eq!(found, sample_catalog());
    let found = filter(&sample_catalog(), &BookQuery { id: None, tag: Some("async".to_string()) });
    assert_eq!(titles(&found), vec!["Async in Rust"]);
}

#[test]
fn filter_without_predicates_returns_everything() {
    assert_eq!(filter(&sample_catalog(), &no_query()), sample_catalog());
    assert!(filter(&Vec::new(), &no_query()).is_empty());
}

#[test]
fn filter_combines_id_and_tag() {
    let both = BookQuery { id: Some(50), tag: Some("parallel".to_string()) };
    assert_eq!(titles(&filter(&sample_catalog(), &both)), vec!["Parallelism"]);
    let mismatch = BookQuery { id: Some(50), tag: Some("async".to_string()) };
    assert!(filter(&sample_catalog(), &mismatch).is_empty());
}

#[test]
fn filter_tag_is_exact_match() {
    let query = BookQuery { id: None, tag: Some("rus".to_string()) };
    assert!(filter(&sample_catalog(), &query).is_empty());
}

#[test]
fn missing_id_is_not_an_error() {
    assert_eq!(find_by_id(&sample_catalog(), 999), None);
    assert_eq!(get_book_by_id(Ok(Vec::new()), 1), Ok(None));
}

#[test]
fn load_failures_are_passed_on() {
    assert_eq!(get_book_by_id(Err(StoreError::StorageRead), 1), Err(StoreError::StorageRead));
    assert_eq!(
        get_book_with_query(Err(StoreError::StorageFormat), &no_query()),
        Err(StoreError::StorageFormat)
    );
    assert_eq!(
        add_or_update_book(Err(StoreError::StorageRead), book(1, "x", &[])),
        Err(StoreError::StorageRead)
    );
}

#[test]
fn scenario_update_title_of_existing_record() {
    let catalog = vec![book(1, "Rust Basics", &["rust"])];
    let updated = add_or_update_book(Ok(catalog), book(1, "Rust Basics v2", &["rust"])).unwrap();
    assert_eq!(updated.len(), 1);
    assert_eq!(updated[0].id, 1);
    assert_eq!(updated[0].title, "Rust Basics v2");
}

#[test]
fn scenario_find_by_id_present_and_absent() {
    let catalog = vec![book(1, "one", &[]), book(2, "two", &[])];
    assert_eq!(find_by_id(&catalog, 2), Some(book(2, "two", &[])));
    assert_eq!(find_by_id(&catalog, 999), None);
}

#[test]
fn scenario_filter_by_shared_and_single_tag() {
    let catalog = vec![book(1, "first", &["rust", "async"]), book(2, "second", &["rust", "parallel"])];
    let rust = BookQuery { id: None, tag: Some("rust".to_string()) };
    assert_eq!(filter(&catalog, &rust), catalog);
    let parallel = BookQuery { id: None, tag: Some("parallel".to_string()) };
    assert_eq!(filter(&catalog, &parallel), vec![catalog[1].clone()]);
}

#[test]
fn duplicate_keeps_every_field() {
    let original = book(9, "Copy", &["a", "b"]);
    assert_eq!(original.duplicate(), original);
}

#[test]
fn matches_checks_each_predicate() {
    let b = book(5, "five", &["x"]);
    assert!(b.matches(&no_query()));
    assert!(b.matches(&BookQuery { id: Some(5), tag: Some("x".to_string()) }));
    assert!(!b.matches(&BookQuery { id: Some(6), tag: None }));
    assert!(!b.matches(&BookQuery { id: None, tag: Some("y".to_string()) }));
}

#[test]
fn error_messages() {
    assert_eq!(StoreError::StorageRead.message(), "Failed to read JSON");
    assert_eq!(StoreError::StorageFormat.message(), "Failed to parse JSON");
    assert_eq!(StoreError::StorageWrite.message(), "Failed to write JSON");
    assert_eq!(StoreError::HashDerivation.message(), "Failed to hash password");
}

#[test]
fn allowed_origins() {
    assert!(is_allowed_origin("http://localhost:3000"));
    assert!(is_allowed_origin("http://localhost:5173"));
    assert!(!is_allowed_origin("http://localhost:8080"));
    assert!(!is_allowed_origin(""));
}
