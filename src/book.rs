use vstd::prelude::*;

verus! {

/// One record of the catalog; `id` is its identity key.
#[derive(Clone, Debug, PartialEq, Eq)]
pub struct Book {
    pub id: u32,
    pub title: String,
    pub content: String,
    pub tags: Vec<String>,
}

/// The mathematical value of a [`Book`].
pub struct BookView {
    pub id: u32,
    pub title: Seq<char>,
    pub content: Seq<char>,
    pub tags: Seq<Seq<char>>,
}

/// The text of each tag, in order.
pub open spec fn tags_view(tags: Seq<String>) -> Seq<Seq<char>> {
    tags.map_values(|t: String| t@)
}

impl View for Book {
    type V = BookView;

    open spec fn view(&self) -> BookView {
        BookView {
            id: self.id,
            title: self.title@,
            content: self.content@,
            tags: tags_view(self.tags@),
        }
    }
}

/// Optional predicates of a catalog query; an absent one matches every record.
#[derive(Clone, Debug, PartialEq, Eq)]
pub struct BookQuery {
    pub id: Option<u32>,
    pub tag: Option<String>,
}

/// The mathematical value of a [`BookQuery`].
pub struct QueryView {
    pub id: Option<u32>,
    pub tag: Option<Seq<char>>,
}

impl View for BookQuery {
    type V = QueryView;

    open spec fn view(&self) -> QueryView {
        QueryView {
            id: self.id,
            tag: match &self.tag {
                Some(t) => Some(t@),
                None => None,
            },
        }
    }
}

/// The kinds of failure that the stores distinguish.
#[derive(Clone, Copy, Debug, PartialEq, Eq, Structural)]
pub enum StoreError {
    /// The backing file is missing or could not be read.
    StorageRead,
    /// The backing file does not hold a sequence of records.
    StorageFormat,
    /// The backing file could not be overwritten.
    StorageWrite,
    /// The password hash could not be derived.
    HashDerivation,
}

impl StoreError {
    /// The text that a caller reports for this kind of failure.
    pub fn message(&self) -> (r: &'static str)
        ensures
            r@ == match self {
                StoreError::StorageRead => "Failed to read JSON"@,
                StoreError::StorageFormat => "Failed to parse JSON"@,
                StoreError::StorageWrite => "Failed to write JSON"@,
                StoreError::HashDerivation => "Failed to hash password"@,
            },
    {
        match self {
            StoreError::StorageRead => "Failed to read JSON",
            StoreError::StorageFormat => "Failed to parse JSON",
            StoreError::StorageWrite => "Failed to write JSON",
            StoreError::HashDerivation => "Failed to hash password",
        }
    }
}

/// Whether `tag` is one of `tags`.
pub fn contains_tag(tags: &Vec<String>, tag: &String) -> (r: bool)
    ensures
        r == tags_view(tags@).contains(tag@),
{
    let mut i: usize = 0;
    while i < tags.len()
        invariant
            i <= tags.len(),
            forall|j: int| 0 <= j < i ==> tags@[j]@ != tag@,
        decreases tags.len() - i,
    {
        if tags[i] == *tag {
            assert(tags_view(tags@)[i as int] == tag@);
            return true;
        }
        i += 1;
    }
    proof {
        assert forall|j: int| 0 <= j < tags_view(tags@).len() implies tags_view(tags@)[j] != tag@ by {
            assert(tags@[j]@ != tag@);
        }
    }
    false
}

/// A copy of `tags`, element by element.
fn copy_tags(tags: &Vec<String>) -> (r: Vec<String>)
    ensures
        r@ == tags@,
{
    let mut r: Vec<String> = Vec::new();
    let mut i: usize = 0;
    while i < tags.len()
        invariant
            i <= tags.len(),
            r@ == tags@.subrange(0, i as int),
        decreases tags.len() - i,
    {
        r.push(tags[i].clone());
        i += 1;
        assert(r@ =~= tags@.subrange(0, i as int));
    }
    assert(r@ =~= tags@);
    r
}

impl Book {
    /// A copy of this record with the same value.
    pub fn duplicate(&self) -> (r: Book)
        ensures
            r@ == self@,
    {
        Book {
            id: self.id,
            title: self.title.clone(),
            content: self.content.clone(),
            tags: copy_tags(&self.tags),
        }
    }

    /// Whether this record meets every predicate that `query` sets.
    pub fn matches(&self, query: &BookQuery) -> (r: bool)
        ensures
            r == query_matches(self@, query@),
    {
        let id_ok = match query.id {
            Some(id) => self.id == id,
            None => true,
        };
        let tag_ok = match &query.tag {
            Some(t) => contains_tag(&self.tags, t),
            None => true,
        };
        id_ok && tag_ok
    }
}

/// A record meets a query when each predicate is absent or holds of it.
pub open spec fn query_matches(b: BookView, q: QueryView) -> bool {
    &&& (q.id is None || q.id == Some(b.id))
    &&& (q.tag is None || b.tags.contains(q.tag->0))
}

} // verus!
