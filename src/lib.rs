//! A book catalog and a credential set kept as whole sequences of records.
//!
//! The catalog logic (lookup by id, filtering by id and tag, upsert keyed by
//! id) and the registration of salted password hashes are verified against
//! sequence-level specifications. Reading and writing the backing files is
//! left to the caller, which hands in what it loaded and persists what comes
//! back.

mod book;
mod catalog;
mod credential;
mod laws;
mod origin;
mod store;

pub use book::{contains_tag, query_matches, tags_view, Book, BookQuery, BookView, QueryView, StoreError};
pub use catalog::{
    catalog_view, filter, filter_spec, find_by_id, find_position, first_position, has_id, ids_unique,
    is_first_with_id, lemma_first_position, lemma_has_first, upsert, upsert_spec,
};
pub use credential::{
    append_credential, argon2_phc, derive_hash, has_phc_layout, hash_password, is_b64_char,
    is_generated_salt, load_all, password_fits, phc_prefix, register, Credential, CredentialView,
};
pub use laws::{
    lemma_filter_all, lemma_filter_by_id, lemma_filter_by_id_at_most_one, lemma_filter_by_tag,
    lemma_upsert_idempotent, lemma_upsert_keeps_ids_unique, lemma_upsert_keeps_positions,
    lemma_upserts_keep_ids_unique, upsert_all,
};
pub use origin::{allowed_origin, is_allowed_origin};
pub use store::{add_or_update_book, get_book_by_id, get_book_with_query};
