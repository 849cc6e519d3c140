use vstd::prelude::*;

use crate::headers::str_chars;

verus! {

/// Identifier of a namespace.
#[derive(Clone, Copy, Debug, PartialEq, Eq, Structural)]
pub struct NamespaceId {
    pub id: i64,
}

impl NamespaceId {
    pub fn new(id: i64) -> (r: NamespaceId)
        ensures
            r.id == id,
    {
        NamespaceId { id }
    }

    pub fn get(&self) -> (r: i64)
        ensures
            r == self.id,
    {
        self.id
    }
}

/// What is known of a namespace.
#[derive(Clone, Copy, Debug, PartialEq, Eq, Structural)]
pub struct NamespaceSchema {
    pub id: NamespaceId,
    pub max_tables: i32,
    pub max_columns_per_table: i32,
    pub retention_period_ns: Option<i64>,
}

/// Schemas under names; a later entry for a name hides earlier ones.
pub type SchemaEntries = Vec<(Vec<char>, NamespaceSchema)>;

/// The schema of the first entry from `i` on named `name`.
pub open spec fn find_schema(
    entries: Seq<(Vec<char>, NamespaceSchema)>,
    name: Seq<char>,
    i: int,
) -> Option<NamespaceSchema>
    decreases entries.len() - i,
{
    if i < 0 || i >= entries.len() {
        None
    } else if entries[i].0@ == name {
        Some(entries[i].1)
    } else {
        find_schema(entries, name, i + 1)
    }
}

fn same_chars(a: &Vec<char>, b: &Vec<char>) -> (r: bool)
    ensures
        r == (a@ == b@),
{
    if a.len() != b.len() {
        return false;
    }
    let mut i: usize = 0;
    while i < a.len()
        invariant
            a.len() == b.len(),
            i <= a.len(),
            forall|k: int| 0 <= k < i ==> a@[k] == b@[k],
        decreases a.len() - i,
    {
        if a[i] != b[i] {
            return false;
        }
        i += 1;
    }
    assert(a@ =~= b@);
    true
}

fn find_entry(entries: &SchemaEntries, name: &str) -> (r: Option<NamespaceSchema>)
    ensures
        r == find_schema(entries@, name@, 0),
{
    let key = str_chars(name);
    let mut i: usize = 0;
    while i < entries.len()
        invariant
            i <= entries.len(),
            key@ == name@,
            find_schema(entries@, name@, 0) == find_schema(entries@, name@, i as int),
        decreases entries.len() - i,
    {
        if same_chars(&entries[i].0, &key) {
            return Some(entries[i].1);
        }
        i += 1;
    }
    None
}

proof fn lemma_find_shift(
    before: Seq<(Vec<char>, NamespaceSchema)>,
    after: Seq<(Vec<char>, NamespaceSchema)>,
    n: Seq<char>,
    i: int,
)
    requires
        after.len() == before.len() + 1,
        forall|k: int| 0 <= k < before.len() ==> after[k + 1] == before[k],
        0 <= i <= before.len(),
    ensures
        find_schema(after, n, i + 1) == find_schema(before, n, i),
    decreases before.len() - i,
{
    if i < before.len() {
        lemma_find_shift(before, after, n, i + 1);
    }
}

fn put_entry(entries: &mut SchemaEntries, name: &str, schema: NamespaceSchema)
    ensures
        forall|n: Seq<char>| #[trigger]
            find_schema(final(entries)@, n, 0) == if n == name@ {
                Some(schema)
            } else {
                find_schema(old(entries)@, n, 0)
            },
{
    let ghost before = entries@;
    entries.insert(0, (str_chars(name), schema));
    assert forall|n: Seq<char>| n != name@ implies #[trigger] find_schema(entries@, n, 0)
        == find_schema(before, n, 0) by {
        lemma_find_shift(before, entries@, n, 0);
        assert(find_schema(entries@, n, 0) == find_schema(entries@, n, 1));
    }
}

/// A cache of namespace schemas by name.
pub trait NamespaceCache {
    /// The schema cached under `name`.
    spec fn cached(&self, name: Seq<char>) -> Option<NamespaceSchema>;

    fn get_schema(&self, namespace: &str) -> (r: Option<NamespaceSchema>)
        ensures
            r == self.cached(namespace@),
    ;

    fn put_schema(&mut self, namespace: &str, schema: NamespaceSchema)
        ensures
            forall|n: Seq<char>| #[trigger]
                final(self).cached(n) == if n == namespace@ {
                    Some(schema)
                } else {
                    old(self).cached(n)
                },
    ;
}

/// A namespace cache held in memory.
#[derive(Debug)]
pub struct MemoryNamespaceCache {
    entries: SchemaEntries,
}

impl MemoryNamespaceCache {
    pub fn new() -> (r: MemoryNamespaceCache)
        ensures
            forall|n: Seq<char>| #[trigger] r.cached(n) is None,
    {
        MemoryNamespaceCache { entries: Vec::new() }
    }
}

impl NamespaceCache for MemoryNamespaceCache {
    closed spec fn cached(&self, name: Seq<char>) -> Option<NamespaceSchema> {
        find_schema(self.entries@, name, 0)
    }

    fn get_schema(&self, namespace: &str) -> (r: Option<NamespaceSchema>) {
        find_entry(&self.entries, namespace)
    }

    fn put_schema(&mut self, namespace: &str, schema: NamespaceSchema) {
        put_entry(&mut self.entries, namespace, schema);
    }
}

/// Why the catalog gave no schema.
#[derive(Clone, Copy, Debug, PartialEq, Eq, Structural)]
pub enum LookupError {
    /// No namespace of that name exists.
    NamespaceNotFound,
    /// The catalog could not be reached.
    Unavailable,
}

/// The authoritative store of namespaces.
pub trait Catalog {
    /// The namespace named `name`, if it exists.
    spec fn namespace(&self, name: Seq<char>) -> Option<NamespaceSchema>;

    /// Every lookup is sure to reach the catalog. A catalog that promises
    /// nothing leaves this false.
    spec fn available(&self) -> bool;

    fn get_schema_by_name(&self, name: &str) -> (r: Result<NamespaceSchema, LookupError>)
        ensures
            r matches Ok(s) ==> self.namespace(name@) == Some(s),
            r == Err::<NamespaceSchema, LookupError>(LookupError::NamespaceNotFound) ==> self.namespace(
                name@,
            ) is None,
            self.available() ==> r == match self.namespace(name@) {
                Some(s) => Ok::<NamespaceSchema, LookupError>(s),
                None => Err(LookupError::NamespaceNotFound),
            },
    ;
}

/// A catalog held in memory.
#[derive(Debug)]
pub struct MemCatalog {
    namespaces: SchemaEntries,
}

impl MemCatalog {
    pub fn new() -> (r: MemCatalog)
        ensures
            forall|n: Seq<char>| #[trigger] r.namespace(n) is None,
    {
        MemCatalog { namespaces: Vec::new() }
    }

    /// Registers namespace `name` with `schema`.
    pub fn create(&mut self, name: &str, schema: NamespaceSchema)
        ensures
            forall|n: Seq<char>| #[trigger]
                final(self).namespace(n) == if n == name@ {
                    Some(schema)
                } else {
                    old(self).namespace(n)
                },
    {
        put_entry(&mut self.namespaces, name, schema);
    }
}

impl Catalog for MemCatalog {
    closed spec fn namespace(&self, name: Seq<char>) -> Option<NamespaceSchema> {
        find_schema(self.namespaces@, name, 0)
    }

    /// A catalog in memory is always reached.
    open spec fn available(&self) -> bool {
        true
    }

    fn get_schema_by_name(&self, name: &str) -> (r: Result<NamespaceSchema, LookupError>) {
        match find_entry(&self.namespaces, name) {
            Some(s) => Ok(s),
            None => Err(LookupError::NamespaceNotFound),
        }
    }
}

/// Why a namespace could not be resolved.
#[derive(Clone, Copy, Debug, PartialEq, Eq, Structural)]
pub enum Error {
    /// The catalog lookup failed.
    Lookup(LookupError),
}

/// Resolves namespace names to identifiers from a cache, falling back to the
/// catalog and caching what it finds.
#[derive(Debug)]
pub struct NamespaceSchemaResolver<K: Catalog, C: NamespaceCache> {
    catalog: K,
    cache: C,
}

impl<K: Catalog, C: NamespaceCache> NamespaceSchemaResolver<K, C> {
    pub closed spec fn catalog_view(&self) -> K {
        self.catalog
    }

    pub closed spec fn cache_view(&self) -> C {
        self.cache
    }

    pub fn new(catalog: K, cache: C) -> (r: NamespaceSchemaResolver<K, C>)
        ensures
            r.catalog_view() == catalog,
            r.cache_view() == cache,
    {
        NamespaceSchemaResolver { catalog, cache }
    }

    pub fn catalog(&self) -> (r: &K)
        ensures
            *r == self.catalog_view(),
    {
        &self.catalog
    }

    pub fn cache(&self) -> (r: &C)
        ensures
            *r == self.cache_view(),
    {
        &self.cache
    }

    /// The identifier of `namespace`: from the cache where it holds the name,
    /// otherwise from the catalog, whose schema is then cached. A failed
    /// catalog lookup leaves the cache as it was. Where the catalog is
    /// available, the lookup fails exactly when it holds no such namespace.
    pub fn get_namespace_id(&mut self, namespace: &str) -> (r: Result<NamespaceId, Error>)
        ensures
            final(self).catalog_view() == old(self).catalog_view(),
            old(self).cache_view().cached(namespace@) matches Some(s) ==> r == Ok::<
                NamespaceId,
                Error,
            >(s.id) && final(self).cache_view() == old(self).cache_view(),
            old(self).cache_view().cached(namespace@) is None ==> match r {
                Ok(id) => exists|s: NamespaceSchema|
                    old(self).catalog_view().namespace(namespace@) == Some(s) && s.id == id
                        && forall|n: Seq<char>| #[trigger]
                        final(self).cache_view().cached(n) == if n == namespace@ {
                            Some(s)
                        } else {
                            old(self).cache_view().cached(n)
                        },
                Err(Error::Lookup(e)) => {
                    &&& final(self).cache_view() == old(self).cache_view()
                    &&& (old(self).catalog_view().available() ==> e
                        == LookupError::NamespaceNotFound && old(self).catalog_view().namespace(
                        namespace@,
                    ) is None)
                    &&& (e == LookupError::NamespaceNotFound ==> old(
                        self,
                    ).catalog_view().namespace(namespace@) is None)
                },
            },
    {
        match self.cache.get_schema(namespace) {
            Some(s) => Ok(s.id),
            None => {
                let schema = match self.catalog.get_schema_by_name(namespace) {
                    Ok(s) => s,
                    Err(e) => {
                        return Err(Error::Lookup(e));
                    },
                };
                self.cache.put_schema(namespace, schema);
                Ok(schema.id)
            },
        }
    }
}

} // verus!
