use vstd::prelude::*;

use crate::book::{Book, BookQuery, StoreError};
use crate::catalog::{
    catalog_view, filter, filter_spec, find_by_id, first_position, has_id, upsert, upsert_spec,
};

verus! {

// Each operation takes what loading the catalog file gave: the records, or
// the kind of failure. A failure is passed on as it came; it is never
// replaced by an empty catalog.

/// The record with `id` from the loaded catalog. A missing record is
/// `Ok(None)`, which is told apart from a failure to load.
pub fn get_book_by_id(loaded: Result<Vec<Book>, StoreError>, id: u32) -> (r: Result<
    Option<Book>,
    StoreError,
>)
    ensures
        match loaded {
            Err(e) => r == Err::<Option<Book>, StoreError>(e),
            Ok(books) => match r {
                Ok(Some(b)) => has_id(catalog_view(books@), id) && b@ == catalog_view(
                    books@,
                )[first_position(catalog_view(books@), id)],
                Ok(None) => !has_id(catalog_view(books@), id),
                Err(_) => false,
            },
        },
{
    match loaded {
        Err(e) => Err(e),
        Ok(books) => Ok(find_by_id(&books, id)),
    }
}

/// The records of the loaded catalog that meet `query`, in order.
pub fn get_book_with_query(loaded: Result<Vec<Book>, StoreError>, query: &BookQuery) -> (r:
    Result<Vec<Book>, StoreError>)
    ensures
        match loaded {
            Err(e) => r == Err::<Vec<Book>, StoreError>(e),
            Ok(books) => match r {
                Ok(found) => catalog_view(found@) == filter_spec(catalog_view(books@), query@),
                Err(_) => false,
            },
        },
{
    match loaded {
        Err(e) => Err(e),
        Ok(books) => Ok(filter(&books, query)),
    }
}

/// The loaded catalog with `book` upserted: the whole catalog that is to be
/// written back.
pub fn add_or_update_book(loaded: Result<Vec<Book>, StoreError>, book: Book) -> (r: Result<
    Vec<Book>,
    StoreError,
>)
    ensures
        match loaded {
            Err(e) => r == Err::<Vec<Book>, StoreError>(e),
            Ok(books) => match r {
                Ok(updated) => catalog_view(updated@) == upsert_spec(
                    catalog_view(books@),
                    book@,
                ),
                Err(_) => false,
            },
        },
{
    match loaded {
        Err(e) => Err(e),
        Ok(books) => {
            let mut books = books;
            upsert(&mut books, book);
            Ok(books)
        },
    }
}

} // verus!
