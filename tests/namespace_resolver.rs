use compactor::{
    Catalog, Error, LookupError, MemCatalog, MemoryNamespaceCache, NamespaceCache, NamespaceId,
    NamespaceSchema, NamespaceSchemaResolver,
};

fn schema(id: i64) -> NamespaceSchema {
    NamespaceSchema {
        id: NamespaceId::new(id),
        max_tables: 500,
        max_columns_per_table: 4,
        retention_period_ns: None,
    }
}

#[test]
fn test_cache_hit() {
    let ns = "bananas";

    // Prep the cache before the test to cause a hit
    let mut cache = MemoryNamespaceCache::new();
    cache.put_schema(ns, schema(42));

    let catalog = MemCatalog::new();

    let mut resolver = NamespaceSchemaResolver::new(catalog, cache);

    // Drive the code under test
    let id = resolver.get_namespace_id(ns).expect("lookup should succeed");
    assert_eq!(id.get(), 42);

    assert!(resolver.cache().get_schema(ns).is_some());

    // The cache hit should mean the catalog SHOULD NOT see a create request
    // for the namespace.
    assert!(
        resolver.catalog().get_schema_by_name(ns).is_err(),
        "expected no request to the catalog"
    );
}

#[test]
fn test_cache_miss() {
    let ns = "bananas";

    let cache = MemoryNamespaceCache::new();
    let mut catalog = MemCatalog::new();

    // Create the namespace in the catalog
    catalog.create(ns, schema(7));

    let mut resolver = NamespaceSchemaResolver::new(catalog, cache);

    let id = resolver.get_namespace_id(ns).expect("lookup should succeed");
    assert_eq!(id, NamespaceId::new(7));

    // The cache should be populated as a result of the lookup.
    assert!(resolver.cache().get_schema(ns).is_some());
    assert!(resolver.cache().get_schema("platanos").is_none());
}

#[test]
fn test_cache_miss_does_not_exist() {
    let ns = "bananas";

    let cache = MemoryNamespaceCache::new();
    let catalog = MemCatalog::new();

    let mut resolver = NamespaceSchemaResolver::new(catalog, cache);

    let err = resolver.get_namespace_id(ns).expect_err("lookup should error");

    assert!(matches!(err, Error::Lookup(_)));
    assert_eq!(err, Error::Lookup(LookupError::NamespaceNotFound));
    assert!(resolver.cache().get_schema(ns).is_none());
}

#[test]
fn cache_put_replaces_earlier_schema() {
    let mut cache = MemoryNamespaceCache::new();
    cache.put_schema("a", schema(1));
    cache.put_schema("b", schema(2));
    cache.put_schema("a", schema(3));
    assert_eq!(cache.get_schema("a"), Some(schema(3)));
    assert_eq!(cache.get_schema("b"), Some(schema(2)));
    assert_eq!(cache.get_schema("A"), None);
}
