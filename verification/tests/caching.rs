use embucket::caching::{
    CachingCatalog, CachingSchema, DeregisterSchema, DeregisterTable, ExistCheck, NameCache, Properties,
    RegisterTarget, TableLookup, TableNamesSource,
};
use embucket::caching::{fetch_concurrency, fetched_tables};
use embucket::catalog::{CatalogListConfig, CatalogType};
use embucket::catalog_list::{database_catalog, CatalogError, EmbucketCatalogList, DEFAULT_CATALOG};
use embucket::metastore_config::{AwsCredentials, VolumeType};
use embucket::information_schema::TableType;

fn names(xs: &[&str]) -> Vec<String> {
    xs.iter().map(|x| x.to_string()).collect()
}

#[test]
fn name_cache_insert_replace_remove_retain() {
    let mut c: NameCache<u32> = NameCache::new();
    assert!(!c.contains_key("a"));
    c.insert("a".to_string(), 1);
    c.insert("b".to_string(), 2);
    c.insert("a".to_string(), 3);
    assert_eq!(c.get("a"), Some(&3));
    assert_eq!(c.get("b"), Some(&2));
    assert_eq!(c.remove("b"), Some(2));
    assert_eq!(c.remove("b"), None);
    c.insert("c".to_string(), 4);
    c.retain_names(&names(&["c", "z"]));
    assert!(!c.contains_key("a"));
    assert_eq!(c.get("c"), Some(&4));
}

#[test]
fn table_lookup_caches_what_the_provider_finds() {
    let mut s: CachingSchema<u64> = CachingSchema::new("public".to_string(), false);
    assert!(matches!(s.table_lookup("t"), TableLookup::AskProvider));
    assert_eq!(s.on_provider_table("t", None), None);
    assert!(matches!(s.table_lookup("t"), TableLookup::AskProvider));
    assert_eq!(s.on_provider_table("t", Some((7, TableType::Base))), Some(7));
    assert!(matches!(s.table_lookup("t"), TableLookup::Cached(7)));
    assert_eq!(s.exist_check("t"), ExistCheck::Cached);
    assert_eq!(s.exist_check("u"), ExistCheck::AskProvider);
    assert!(matches!(s.table_names_source(), TableNamesSource::Provider));
}

#[test]
fn registering_and_deregistering_tables() {
    let mut s: CachingSchema<u64> = CachingSchema::new("sales".to_string(), true);
    assert_eq!(s.register_target(true, TableType::Base), RegisterTarget::BuildInIceberg);
    assert_eq!(s.register_target(false, TableType::View), RegisterTarget::KeepAsGiven);
    assert_eq!(s.register_target(false, TableType::Base), RegisterTarget::RegisterWithProvider);
    let plain: CachingSchema<u64> = CachingSchema::new("p".to_string(), false);
    assert_eq!(plain.register_target(true, TableType::Base), RegisterTarget::RegisterWithProvider);

    assert_eq!(s.on_registered("orders".to_string(), Ok::<(u64, TableType), String>((1, TableType::Base))), Ok(1));
    assert_eq!(s.on_registered("v".to_string(), Ok::<(u64, TableType), String>((2, TableType::View))), Ok(2));
    assert_eq!(s.on_registered("bad".to_string(), Err::<(u64, TableType), String>("boom".to_string())), Err("boom".to_string()));
    assert!(matches!(s.table_lookup("bad"), TableLookup::AskProvider));
    assert!(matches!(s.table_lookup("orders"), TableLookup::Cached(1)));

    assert!(matches!(s.deregister_table("v"), DeregisterTable::Dropped(2)));
    assert!(matches!(s.deregister_table("orders"), DeregisterTable::DropInIceberg(1)));
    assert!(matches!(s.deregister_table("orders"), DeregisterTable::NotCached));
    assert_eq!(s.exist_check("orders"), ExistCheck::AskIceberg);
    assert!(matches!(s.table_names_source(), TableNamesSource::IcebergNamespace(n) if n == "sales"));

    let mut p: CachingSchema<u64> = CachingSchema::new("p".to_string(), false);
    let _ = p.on_registered("t".to_string(), Ok::<(u64, TableType), ()>((5, TableType::Base)));
    assert!(matches!(p.deregister_table("t"), DeregisterTable::DeregisterWithProvider));
}

#[test]
fn iceberg_answers_and_listings() {
    assert!(CachingSchema::<u64>::exists_in_iceberg(Ok::<bool, ()>(true)));
    assert!(!CachingSchema::<u64>::exists_in_iceberg(Ok::<bool, ()>(false)));
    assert!(!CachingSchema::<u64>::exists_in_iceberg(Err::<bool, ()>(())));
    assert_eq!(CachingSchema::<u64>::listed_table_names(Ok::<Vec<String>, ()>(names(&["a", "b"]))), names(&["a", "b"]));
    assert!(CachingSchema::<u64>::listed_table_names(Err::<Vec<String>, ()>(())).is_empty());
}

#[test]
fn catalog_builders_and_defaults() {
    let c: CachingCatalog<u64> = CachingCatalog::new("embucket".to_string(), false);
    assert!(!c.should_refresh);
    assert!(c.enable_information_schema);
    assert_eq!(c.catalog_type, CatalogType::Embucket);
    assert!(c.properties.is_none());
    let props = Properties::default();
    assert_eq!(props.created_at, props.updated_at);
    let c = c.with_refresh(true).with_information_schema(false).with_catalog_type(CatalogType::S3tables).with_properties(props);
    assert!(c.should_refresh);
    assert!(!c.enable_information_schema);
    assert_eq!(c.catalog_type, CatalogType::S3tables);
    assert_eq!(c.properties.map(|p| p.created_at), Some(props.created_at));
    assert_eq!(c.name, "embucket");
}

#[test]
fn catalog_schema_cache_follows_the_provider() {
    let mut c: CachingCatalog<u64> = CachingCatalog::new("db".to_string(), true);
    c.register_schema("a");
    c.on_provider_schema("b", true);
    c.on_provider_schema("x", false);
    assert!(c.cached_schema("a").is_some());
    assert!(c.cached_schema("b").is_some());
    assert!(c.cached_schema("x").is_none());
    assert!(c.cached_schema("b").unwrap().has_iceberg_catalog);

    let missing = c.schemas_to_fetch(&names(&["b", "c", "d"]));
    assert_eq!(missing, names(&["c", "d"]));
    assert!(c.cached_schema("a").is_none());
    assert!(c.cached_schema("b").is_some());

    assert_eq!(c.deregister_schema("b"), DeregisterSchema::DropNamespaceThenProvider);
    assert!(c.cached_schema("b").is_none());
    let mut m: CachingCatalog<u64> = CachingCatalog::new("mem".to_string(), false);
    assert_eq!(m.deregister_schema("none"), DeregisterSchema::Provider);
}

#[test]
fn registering_a_schema_again_forgets_its_tables() {
    let mut c: CachingCatalog<u64> = CachingCatalog::new("db".to_string(), false);
    c.register_schema("s");
    let mut s = c.schemas_cache.remove("s").unwrap();
    let _ = s.on_provider_table("t", Some((3, TableType::Base)));
    c.schemas_cache.insert("s".to_string(), s);
    assert!(matches!(c.cached_schema("s").unwrap().table_lookup("t"), TableLookup::Cached(3)));
    c.register_schema("s");
    assert!(matches!(c.cached_schema("s").unwrap().table_lookup("t"), TableLookup::AskProvider));
}

#[test]
fn fetched_tables_skip_failures_and_keep_order() {
    let results = vec![Some(("b".to_string(), 2u64)), None, Some(("a".to_string(), 1u64)), None];
    assert_eq!(fetched_tables(results), vec![("b".to_string(), 2), ("a".to_string(), 1)]);
    assert!(fetched_tables::<u64>(vec![]).is_empty());
    assert_eq!(fetch_concurrency(0), 1);
    assert_eq!(fetch_concurrency(8), 8);
}

#[test]
fn refresh_rebuilds_schemas_with_fetched_tables() {
    let mut c: CachingCatalog<u64> = CachingCatalog::new("db".to_string(), true).with_refresh(true);
    c.register_schema("old");
    c.register_schema("kept");
    let tables = vec![
        ("t1".to_string(), 1u64, TableType::Base),
        ("v".to_string(), 2u64, TableType::View),
        ("t1".to_string(), 3u64, TableType::Base),
    ];
    c.cache_refreshed_schema("kept", &tables);
    c.retain_schemas(&names(&["kept", "new"]));
    assert!(c.cached_schema("old").is_none());
    let s = c.cached_schema("kept").unwrap();
    assert!(matches!(s.table_lookup("t1"), TableLookup::Cached(3)));
    assert!(matches!(s.table_lookup("v"), TableLookup::Cached(2)));
    assert!(matches!(s.table_lookup("t2"), TableLookup::AskProvider));
    assert!(s.has_iceberg_catalog);
}

fn created() -> chrono::NaiveDateTime {
    chrono::NaiveDate::from_ymd_opt(2024, 5, 1).unwrap().and_hms_opt(12, 0, 0).unwrap()
}

#[test]
fn database_catalogs_by_volume() {
    let tables_bucket = VolumeType::S3Tables {
        arn: "arn:aws:s3tables:us-east-1:123456789012:bucket/b".to_string(),
        region: "us-east-1".to_string(),
        credentials: AwsCredentials::Token("tok".to_string()),
    };
    let c: CachingCatalog<u64> = database_catalog("d".to_string(), &tables_bucket, true, created(), true);
    assert_eq!(c.catalog_type, CatalogType::S3tables);
    assert!(c.properties.is_none());
    assert!(c.should_refresh);
    let m: CachingCatalog<u64> = database_catalog("m".to_string(), &VolumeType::Memory, false, created(), true);
    assert_eq!(m.catalog_type, CatalogType::Memory);
    let p = m.properties.unwrap();
    assert_eq!((p.created_at, p.updated_at), (created(), created()));
    let listed: CachingCatalog<u64> = database_catalog("m".to_string(), &VolumeType::Memory, false, created(), false);
    assert_eq!(listed.catalog_type, CatalogType::Embucket);
    let f: CachingCatalog<u64> = database_catalog("f".to_string(), &VolumeType::File, false, created(), true);
    assert_eq!(f.catalog_type, CatalogType::Embucket);
    assert!(f.has_iceberg_catalog);
}

#[test]
fn catalog_list_registers_lists_and_drops() {
    let mut l: EmbucketCatalogList<u64, &str> = EmbucketCatalogList::new(CatalogListConfig::default(), "local");
    assert_eq!(l.table_object_store.get_store("file:///tmp/data.parquet"), Ok(&"local"));
    assert!(l.register_catalog(DEFAULT_CATALOG.to_string()).is_none());
    assert!(l.register_catalog(DEFAULT_CATALOG.to_string()).is_some());
    l.add_catalog(database_catalog("sales".to_string(), &VolumeType::File, true, created(), true));
    l.add_catalog(database_catalog(
        "lake".to_string(),
        &VolumeType::S3Tables {
            arn: "arn:aws:s3tables:us-east-1:1:bucket/b".to_string(),
            region: "us-east-1".to_string(),
            credentials: AwsCredentials::Token("t".to_string()),
        },
        false,
        created(),
        false,
    ));
    let mut names = l.catalog_names();
    names.sort();
    assert_eq!(names, vec!["embucket".to_string(), "lake".to_string(), "sales".to_string()]);
    assert_eq!(l.catalogs_to_refresh(), vec!["sales".to_string()]);
    assert!(l.catalog("sales").is_some());

    assert_eq!(l.drop_catalog("sales"), Ok(()));
    assert!(l.catalog("sales").is_none());
    assert_eq!(
        l.drop_catalog("sales"),
        Err(CatalogError::InvalidCache { entity: "catalog".to_string(), name: "sales".to_string() })
    );
    assert_eq!(
        l.drop_catalog("lake"),
        Err(CatalogError::NotImplemented { details: "Dropping S3 tables catalogs is not supported".to_string() })
    );
    assert!(l.catalog("lake").is_none());
}

#[test]
fn refresh_keeps_current_schemas_with_their_fetched_tables() {
    let mut c: CachingCatalog<u64> = CachingCatalog::new("db".to_string(), false);
    c.register_schema("gone");
    c.register_schema("stale");
    let current = names(&["stale", "fresh", "missing"]);
    let fetched = vec![None, Some(vec![("t".to_string(), 9u64, TableType::Base)]), None];
    c.refresh_from(&current, &fetched);
    assert!(c.cached_schema("gone").is_none());
    assert!(c.cached_schema("missing").is_none());
    assert!(matches!(c.cached_schema("stale").unwrap().table_lookup("t"), TableLookup::AskProvider));
    assert!(matches!(c.cached_schema("fresh").unwrap().table_lookup("t"), TableLookup::Cached(9)));
}
