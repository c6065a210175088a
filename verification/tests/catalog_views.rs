use embucket::catalog::{CatalogListConfig, CatalogType};
use embucket::catalog_list::{
    catalog_type_for_listed_database, catalog_type_for_new_database, drop_catalog_action, get_url_key,
    s3tables_base_path, CatalogError, ObjectStoreRegistry, StoreError,
};
use embucket::information_schema::{DatabasesView, InformationSchemaProvider, InformationSchemaTables, InformationSchemaView, TableType};
use embucket::metastore_config::{AwsCredentials, VolumeType};
use embucket::types::{ColumnData, DataType};
use std::collections::HashSet;
use embucket::caching::CachingCatalog;

fn texts(c: &ColumnData) -> Vec<String> {
    match c {
        ColumnData::Texts(v) => v.iter().map(|o| o.clone().unwrap()).collect(),
        other => panic!("expected text, got {other:?}"),
    }
}

#[test]
fn information_schema_tables_rows() {
    let schema = InformationSchemaTables::schema();
    let names: Vec<&str> = schema.iter().map(|f| f.name.as_str()).collect();
    assert_eq!(names, vec!["table_catalog", "table_schema", "table_name", "table_type", "is_iceberg"]);
    assert!(schema.iter().all(|f| f.data_type == DataType::Utf8));
    assert_eq!(schema.iter().map(|f| f.nullable).collect::<Vec<_>>(), vec![false, false, false, false, true]);

    let view = InformationSchemaTables::new();
    let mut b = view.builder();
    b.add_table("db", "public", "t1", TableType::Base);
    b.add_table("db", "public", "v1", TableType::View);
    b.add_table("db", "tmp", "x", TableType::Temporary);
    let batch = b.finish().unwrap();
    assert_eq!(batch.columns.len(), 5);
    assert_eq!(texts(&batch.columns[2].data), vec!["t1", "v1", "x"]);
    assert_eq!(texts(&batch.columns[3].data), vec!["TABLE", "VIEW", "TEMPORARY"]);
    assert_eq!(texts(&batch.columns[4].data), vec!["Y", "N", "N"]);
    // the builder is empty again
    let again = b.finish().unwrap();
    assert_eq!(again.columns[0].data.num_rows(), 0);
}

#[test]
fn databases_view_rows() {
    let view = DatabasesView::new();
    let mut b = view.builder();
    b.add_database("embucket", "local", "2024-01-01", "2024-01-02");
    let batch = b.finish().unwrap();
    let names: Vec<&str> = batch.schema.iter().map(|f| f.name.as_str()).collect();
    assert_eq!(names, vec!["database_name", "volume_name", "created_at", "updated_at"]);
    assert_eq!(texts(&batch.columns[0].data), vec!["embucket"]);
    assert_eq!(texts(&batch.columns[3].data), vec!["2024-01-02"]);
}

#[test]
fn information_schema_views_by_name() {
    let p = InformationSchemaProvider::new("embucket".to_string());
    let names: HashSet<String> = p.table_names().into_iter().collect();
    assert_eq!(names.len(), 9);
    assert!(names.contains("navigation_tree"));
    assert_eq!(p.table("TABLES"), Some(InformationSchemaView::Tables));
    assert_eq!(p.table("Df_Settings"), Some(InformationSchemaView::DfSettings));
    assert_eq!(p.table("nope"), None);
    assert!(p.table_exist("COLUMNS"));
    assert!(!p.table_exist("column"));
}

#[test]
fn catalog_kinds() {
    assert_eq!(CatalogType::Embucket.to_string(), "embucket");
    assert_eq!(CatalogType::Memory.to_string(), "memory");
    assert_eq!(CatalogType::S3tables.to_string(), "s3_tables");
    assert_eq!(CatalogListConfig::default().max_concurrent_table_fetches, 0);
    let tables = VolumeType::S3Tables {
        arn: "arn:aws:s3tables:us-east-1:1:bucket/b".to_string(),
        region: "us-east-1".to_string(),
        credentials: AwsCredentials::Token("t".to_string()),
    };
    assert_eq!(catalog_type_for_new_database(&VolumeType::Memory), CatalogType::Memory);
    assert_eq!(catalog_type_for_new_database(&VolumeType::File), CatalogType::Embucket);
    assert_eq!(catalog_type_for_new_database(&tables), CatalogType::S3tables);
    assert_eq!(catalog_type_for_listed_database(&VolumeType::Memory), CatalogType::Embucket);
    assert_eq!(catalog_type_for_listed_database(&tables), CatalogType::S3tables);
}

#[test]
fn dropping_catalogs() {
    assert_eq!(drop_catalog_action("db", Some(CatalogType::Embucket)), Ok(()));
    assert_eq!(drop_catalog_action("db", Some(CatalogType::Memory)), Ok(()));
    assert!(matches!(drop_catalog_action("db", Some(CatalogType::S3tables)), Err(CatalogError::NotImplemented { .. })));
    assert_eq!(
        drop_catalog_action("db", None),
        Err(CatalogError::InvalidCache { entity: "catalog".to_string(), name: "db".to_string() })
    );
}

#[test]
fn s3tables_endpoint() {
    assert_eq!(s3tables_base_path(&None, "eu-west-1"), "https://s3tables.eu-west-1.amazonaws.com/iceberg");
    assert_eq!(s3tables_base_path(&Some("http://localhost:9000".to_string()), "eu-west-1"), "http://localhost:9000");
}

#[test]
fn refreshed_schema_cache() {
    let mut c: CachingCatalog<u64> = CachingCatalog::new("db".to_string(), false);
    c.register_schema("a");
    c.register_schema("gone");
    let current = vec!["a".to_string(), "b".to_string(), "c".to_string()];
    let missing = c.schemas_to_fetch(&current);
    assert_eq!(missing, vec!["b".to_string(), "c".to_string()]);
    c.on_provider_schema("b", true);
    c.on_provider_schema("c", false);
    let r: HashSet<String> = c.schemas_cache.names().into_iter().collect();
    let expected: HashSet<String> = ["a", "b"].iter().map(|s| s.to_string()).collect();
    assert_eq!(r, expected);
}

#[test]
fn url_keys_drop_credentials_and_paths() {
    assert_eq!(get_url_key("s3://user:pw@bucket/path/x.parquet"), Ok("s3://bucket".to_string()));
    assert_eq!(get_url_key("http://host:8080/a"), Ok("http://host:8080".to_string()));
    assert_eq!(get_url_key("file:///tmp/x"), Ok("file://".to_string()));
    assert!(get_url_key("not a url").is_err());
}

#[test]
fn object_store_registry_gives_back_what_was_registered() {
    let mut reg: ObjectStoreRegistry<u32> = ObjectStoreRegistry::new();
    assert_eq!(reg.register_store("s3://bucket/a", 1), Ok(None));
    assert_eq!(reg.get_store("s3://bucket/other/path"), Ok(&1));
    assert_eq!(reg.register_store("s3://bucket", 2), Ok(Some(1)));
    assert_eq!(reg.get_store("s3://bucket/a"), Ok(&2));
    assert_eq!(reg.get_store("s3://elsewhere"), Err(StoreError::ObjectStoreNotFound { url: "s3://elsewhere".to_string() }));
    assert!(matches!(reg.get_store("::"), Err(StoreError::InvalidUrl(_))));
}
