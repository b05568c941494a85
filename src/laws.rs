use vstd::prelude::*;

use crate::book::{BookView, QueryView};
use crate::catalog::{
    filter_spec, first_position, has_id, ids_unique, is_first_with_id, lemma_first_position,
    lemma_has_first, upsert_spec,
};

verus! {

/// The catalog after upserting each record of `bs` in turn, starting from `s`.
pub open spec fn upsert_all(s: Seq<BookView>, bs: Seq<BookView>) -> Seq<BookView>
    decreases bs.len(),
{
    if bs.len() == 0 {
        s
    } else {
        upsert_spec(upsert_all(s, bs.drop_last()), bs.last())
    }
}

/// After an upsert, the record upserted sits at the first position of its id.
proof fn lemma_upserted_first(s: Seq<BookView>, b: BookView) -> (i: int)
    ensures
        is_first_with_id(upsert_spec(s, b), b.id, i),
        upsert_spec(s, b)[i] == b,
{
    let r = upsert_spec(s, b);
    if has_id(s, b.id) {
        lemma_has_first(s, b.id);
        let i = first_position(s, b.id);
        assert(is_first_with_id(r, b.id, i));
        i
    } else {
        let i = s.len() as int;
        assert forall|j: int| 0 <= j < i implies r[j].id != b.id by {
            assert(r[j] == s[j]);
        }
        i
    }
}

/// Upserting the same record twice leaves the catalog as upserting it once.
pub proof fn lemma_upsert_idempotent(s: Seq<BookView>, b: BookView)
    ensures
        upsert_spec(upsert_spec(s, b), b) == upsert_spec(s, b),
{
    let r = upsert_spec(s, b);
    let i = lemma_upserted_first(s, b);
    lemma_first_position(r, b.id, i);
    assert(upsert_spec(r, b) =~= r);
}

/// An upsert keeps the ids of a catalog unique.
pub proof fn lemma_upsert_keeps_ids_unique(s: Seq<BookView>, b: BookView)
    requires
        ids_unique(s),
    ensures
        ids_unique(upsert_spec(s, b)),
{
    let r = upsert_spec(s, b);
    if has_id(s, b.id) {
        lemma_has_first(s, b.id);
        let p = first_position(s, b.id);
        assert forall|i: int, j: int|
            0 <= i < r.len() && 0 <= j < r.len() && i != j implies r[i].id != r[j].id by {
            if i == p {
                assert(s[j].id != s[p].id);
            } else if j == p {
                assert(s[i].id != s[p].id);
            }
        }
    } else {
        assert forall|i: int, j: int|
            0 <= i < r.len() && 0 <= j < r.len() && i != j implies r[i].id != r[j].id by {
            if i < s.len() && j < s.len() {
                assert(s[i].id != s[j].id);
            } else if i < s.len() {
                assert(s[i].id != b.id);
            } else {
                assert(s[j].id != b.id);
            }
        }
    }
}

/// Any sequence of upserts on a catalog whose ids are unique, the empty one
/// included, leaves at most one record per id.
pub proof fn lemma_upserts_keep_ids_unique(s: Seq<BookView>, bs: Seq<BookView>)
    requires
        ids_unique(s),
    ensures
        ids_unique(upsert_all(s, bs)),
    decreases bs.len(),
{
    if bs.len() > 0 {
        lemma_upserts_keep_ids_unique(s, bs.drop_last());
        lemma_upsert_keeps_ids_unique(upsert_all(s, bs.drop_last()), bs.last());
    }
}

/// Upserting an id that the catalog holds replaces that record where it
/// stands: the length is kept and every record with another id keeps its
/// position.
pub proof fn lemma_upsert_keeps_positions(s: Seq<BookView>, b: BookView)
    requires
        has_id(s, b.id),
    ensures
        upsert_spec(s, b).len() == s.len(),
        upsert_spec(s, b)[first_position(s, b.id)] == b,
        forall|j: int| 0 <= j < s.len() && s[j].id != b.id ==> upsert_spec(s, b)[j] == s[j],
{
    lemma_has_first(s, b.id);
}

/// A query with no predicate returns the whole catalog.
pub proof fn lemma_filter_all(s: Seq<BookView>)
    ensures
        filter_spec(s, QueryView { id: None, tag: None }) == s,
    decreases s.len(),
{
    reveal_with_fuel(Seq::filter, 1);
    if s.len() > 0 {
        lemma_filter_all(s.drop_last());
        assert(s.drop_last().push(s.last()) =~= s);
    }
}

/// A query by id alone returns exactly the records with that id.
pub proof fn lemma_filter_by_id(s: Seq<BookView>, x: u32)
    ensures
        filter_spec(s, QueryView { id: Some(x), tag: None }) == s.filter(|b: BookView| b.id == x),
{
    let q = QueryView { id: Some(x), tag: None };
    assert((|b: BookView| crate::book::query_matches(b, q)) =~= (|b: BookView| b.id == x));
}

/// A query by tag alone returns exactly the records whose tags hold it.
pub proof fn lemma_filter_by_tag(s: Seq<BookView>, t: Seq<char>)
    ensures
        filter_spec(s, QueryView { id: None, tag: Some(t) }) == s.filter(
            |b: BookView| b.tags.contains(t),
        ),
{
    let q = QueryView { id: None, tag: Some(t) };
    assert((|b: BookView| crate::book::query_matches(b, q)) =~= (|b: BookView| b.tags.contains(t)));
}

/// In a catalog with unique ids a query by id returns at most one record,
/// and none when no record has that id.
pub proof fn lemma_filter_by_id_at_most_one(s: Seq<BookView>, x: u32)
    requires
        ids_unique(s),
    ensures
        filter_spec(s, QueryView { id: Some(x), tag: None }).len() <= 1,
        !has_id(s, x) ==> filter_spec(s, QueryView { id: Some(x), tag: None }).len() == 0,
    decreases s.len(),
{
    reveal_with_fuel(Seq::filter, 1);
    if s.len() > 0 {
        let t = s.drop_last();
        assert(ids_unique(t)) by {
            assert forall|i: int, j: int|
                0 <= i < t.len() && 0 <= j < t.len() && i != j implies t[i].id != t[j].id by {
                assert(s[i].id != s[j].id);
            }
        }
        lemma_filter_by_id_at_most_one(t, x);
        if s.last().id == x {
            assert(!has_id(t, x)) by {
                if has_id(t, x) {
                    let w = choose|w: int| 0 <= w < t.len() && t[w].id == x;
                    assert(s[w].id != s[s.len() - 1].id);
                }
            }
        } else if !has_id(s, x) {
            assert(!has_id(t, x)) by {
                if has_id(t, x) {
                    let w = choose|w: int| 0 <= w < t.len() && t[w].id == x;
                    assert(s[w].id == x);
                }
            }
        }
    }
}

} // verus!
