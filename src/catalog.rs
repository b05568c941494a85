use vstd::prelude::*;

use crate::book::{query_matches, Book, BookQuery, BookView, QueryView};

verus! {

/// The value of a catalog: the value of each record, in order.
pub open spec fn catalog_view(books: Seq<Book>) -> Seq<BookView> {
    books.map_values(|b: Book| b@)
}

/// `i` is the first position of `s` that holds a record with `id`.
pub open spec fn is_first_with_id(s: Seq<BookView>, id: u32, i: int) -> bool {
    &&& 0 <= i < s.len()
    &&& s[i].id == id
    &&& forall|j: int| 0 <= j < i ==> s[j].id != id
}

/// Some record of `s` has `id`.
pub open spec fn has_id(s: Seq<BookView>, id: u32) -> bool {
    exists|i: int| 0 <= i < s.len() && s[i].id == id
}

/// The position at which a record with `id` sits first; -1 when there is none.
pub open spec fn first_position(s: Seq<BookView>, id: u32) -> int {
    if exists|i: int| is_first_with_id(s, id, i) {
        choose|i: int| is_first_with_id(s, id, i)
    } else {
        -1
    }
}

/// Update-if-present-else-insert, keyed by `id`: the first record with
/// `b.id` is replaced in place; without one, `b` goes to the end.
pub open spec fn upsert_spec(s: Seq<BookView>, b: BookView) -> Seq<BookView> {
    if has_id(s, b.id) {
        s.update(first_position(s, b.id), b)
    } else {
        s.push(b)
    }
}

/// The records of `s` that meet `q`, in their order.
pub open spec fn filter_spec(s: Seq<BookView>, q: QueryView) -> Seq<BookView> {
    s.filter(|b: BookView| query_matches(b, q))
}

/// No two records of `s` share an id.
pub open spec fn ids_unique(s: Seq<BookView>) -> bool {
    forall|i: int, j: int| 0 <= i < s.len() && 0 <= j < s.len() && i != j ==> s[i].id != s[j].id
}

/// A record with `id` sits at the first position `i` of `s` that holds one.
pub proof fn lemma_first_position(s: Seq<BookView>, id: u32, i: int)
    requires
        is_first_with_id(s, id, i),
    ensures
        first_position(s, id) == i,
        has_id(s, id),
{
    let k = first_position(s, id);
    assert(is_first_with_id(s, id, k));
    if k < i {
        assert(s[k].id != id);
    } else if i < k {
        assert(s[i].id != id);
    }
}

/// Where `has_id` holds, some position is the first one.
pub proof fn lemma_has_first(s: Seq<BookView>, id: u32)
    requires
        has_id(s, id),
    ensures
        is_first_with_id(s, id, first_position(s, id)),
    decreases s.len(),
{
    if s[s.len() - 1].id == id && !has_id(s.drop_last(), id) {
        let i = s.len() - 1;
        assert forall|j: int| 0 <= j < i implies s[j].id != id by {
            if s[j].id == id {
                assert(s.drop_last()[j].id == id);
            }
        }
        assert(is_first_with_id(s, id, i));
    } else {
        let t = s.drop_last();
        if !has_id(t, id) {
            let w = choose|w: int| 0 <= w < s.len() && s[w].id == id;
            if w < s.len() - 1 {
                assert(t[w].id == id);
            }
        }
        lemma_has_first(t, id);
        let i = first_position(t, id);
        assert(t[i] == s[i]);
        assert forall|j: int| 0 <= j < i implies s[j].id != id by {
            assert(t[j] == s[j]);
        }
        assert(is_first_with_id(s, id, i));
    }
}

/// The first position of a record with `id` in `books`, if one holds it.
pub fn find_position(books: &Vec<Book>, id: u32) -> (r: Option<usize>)
    ensures
        match r {
            Some(i) => is_first_with_id(catalog_view(books@), id, i as int),
            None => !has_id(catalog_view(books@), id),
        },
{
    let ghost s = catalog_view(books@);
    let mut i: usize = 0;
    while i < books.len()
        invariant
            i <= books.len(),
            s == catalog_view(books@),
            forall|j: int| 0 <= j < i ==> s[j].id != id,
        decreases books.len() - i,
    {
        if books[i].id == id {
            return Some(i);
        }
        i += 1;
    }
    None
}

/// The record with `id`, or `None` when the catalog holds none.
pub fn find_by_id(books: &Vec<Book>, id: u32) -> (r: Option<Book>)
    ensures
        match r {
            Some(b) => has_id(catalog_view(books@), id) && b@ == catalog_view(books@)[first_position(
                catalog_view(books@),
                id,
            )],
            None => !has_id(catalog_view(books@), id),
        },
{
    match find_position(books, id) {
        Some(i) => {
            proof {
                lemma_first_position(catalog_view(books@), id, i as int);
            }
            Some(books[i].duplicate())
        },
        None => None,
    }
}

/// The records that meet every predicate of `query`, in catalog order.
pub fn filter(books: &Vec<Book>, query: &BookQuery) -> (r: Vec<Book>)
    ensures
        catalog_view(r@) == filter_spec(catalog_view(books@), query@),
{
    let ghost s = catalog_view(books@);
    let mut r: Vec<Book> = Vec::new();
    let mut i: usize = 0;
    while i < books.len()
        invariant
            i <= books.len(),
            s == catalog_view(books@),
            catalog_view(r@) == filter_spec(s.take(i as int), query@),
        decreases books.len() - i,
    {
        let ghost before = r@;
        let keep = books[i].matches(query);
        proof {
            assert(s.take(i + 1).drop_last() =~= s.take(i as int));
            reveal_with_fuel(Seq::filter, 1);
        }
        if keep {
            r.push(books[i].duplicate());
            assert(catalog_view(r@) =~= catalog_view(before).push(s[i as int]));
        }
        i += 1;
    }
    assert(s.take(books.len() as int) =~= s);
    r
}

/// Replaces the record that has `book.id` in place, or appends `book`.
pub fn upsert(books: &mut Vec<Book>, book: Book)
    ensures
        catalog_view(final(books)@) == upsert_spec(catalog_view(old(books)@), book@),
{
    let ghost s = catalog_view(books@);
    let ghost b = book@;
    match find_position(books, book.id) {
        Some(i) => {
            proof {
                lemma_first_position(s, b.id, i as int);
            }
            books.set(i, book);
            assert(catalog_view(books@) =~= s.update(i as int, b));
        },
        None => {
            books.push(book);
            assert(catalog_view(books@) =~= s.push(b));
        },
    }
}

} // verus!
