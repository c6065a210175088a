use embucket::metastore_config::{
    apply_table_start, apply_table_step, bootstrap_plan, metadata_store, patch_missing_operation, s3tables_catalogs,
    AwsCredentials, BootstrapOp, ConfigError, DatabaseEntry, Json, MetastoreBootstrapConfig, SchemaEntry, TableAction,
    TableEntry, TableEvent, TableStage, Volume, VolumeEntry, VolumeType, DEFAULT_SCHEMA_NAME,
    MetastoreConfig,
};

fn s(x: &str) -> String {
    x.to_string()
}

fn table() -> TableEntry {
    TableEntry { database: s("db"), schema: s("sc"), table: s("t"), metadata_location: s("s3://bucket/warehouse/t/metadata/v1.json") }
}

fn s3_volume(region: Option<&str>) -> Volume {
    Volume { ident: s("vol"), volume: VolumeType::S3 { region: region.map(s), credentials: None } }
}

fn kind(op: &BootstrapOp) -> (u8, String) {
    match op {
        BootstrapOp::EnsureVolume(v) => (0, v.ident.clone()),
        BootstrapOp::EnsureDatabase { ident, .. } => (1, ident.clone()),
        BootstrapOp::EnsureSchema { database, schema } => (2, format!("{database}.{schema}")),
        BootstrapOp::ApplyTable(t) => (3, t.table.clone()),
    }
}

#[test]
fn bootstrap_applies_volumes_databases_schemas_then_tables() {
    let config = MetastoreBootstrapConfig {
        volumes: vec![VolumeEntry { volume: s3_volume(None), database: Some(s("vdb")), should_refresh: false }],
        databases: vec![DatabaseEntry { ident: s("db"), volume: s("vol"), should_refresh: true }],
        schemas: vec![SchemaEntry { database: s("db"), schema: s("sc") }],
        tables: vec![table()],
    };
    let steps: Vec<(u8, String)> = bootstrap_plan(&config).iter().map(kind).collect();
    let public = DEFAULT_SCHEMA_NAME;
    assert_eq!(
        steps,
        vec![
            (0, s("vol")),
            (1, s("vdb")),
            (2, format!("vdb.{public}")),
            (1, s("db")),
            (2, format!("db.{public}")),
            (2, s("db.sc")),
            (3, s("t")),
        ]
    );
}

#[test]
fn metadata_is_read_from_the_location_bucket() {
    let (store, path) = metadata_store(&table(), &s3_volume(Some("eu-west-1"))).unwrap();
    assert_eq!(store.bucket, "bucket");
    assert_eq!(store.region, "eu-west-1");
    assert_eq!(path, "warehouse/t/metadata/v1.json");
    let (store, _) = metadata_store(&table(), &s3_volume(None)).unwrap();
    assert_eq!(store.region, "us-east-2");
    let memory = Volume { ident: s("m"), volume: VolumeType::Memory };
    assert!(matches!(metadata_store(&table(), &memory), Err(ConfigError::InvalidMetadataLocation { .. })));
}

fn summary(members: Vec<(String, Json)>) -> Json {
    Json::Object(vec![(s("snapshot-id"), Json::Number(s("1"))), (s("summary"), Json::Object(members))])
}

#[test]
fn snapshot_summaries_get_an_operation() {
    let doc = Json::Object(vec![(
        s("snapshots"),
        Json::Array(vec![summary(vec![]), summary(vec![(s("operation"), Json::Str(s("overwrite")))])]),
    )]);
    let patched = patch_missing_operation(doc).unwrap();
    let Json::Object(m) = patched else { panic!("object expected") };
    let Json::Array(snaps) = &m[0].1 else { panic!("array expected") };
    let ops: Vec<String> = snaps
        .iter()
        .map(|snap| {
            let Json::Object(sm) = snap else { panic!() };
            let Json::Object(summary) = &sm[1].1 else { panic!() };
            let (k, Json::Str(v)) = summary.last().unwrap() else { panic!() };
            format!("{k}={v}")
        })
        .collect();
    assert_eq!(ops, vec![s("operation=append"), s("operation=overwrite")]);
    let bad = Json::Object(vec![(s("snapshots"), Json::Array(vec![Json::Object(vec![(s("summary"), Json::Null)])]))]);
    assert!(matches!(patch_missing_operation(bad), Err(ConfigError::InvalidMetadata)));
    assert!(matches!(patch_missing_operation(Json::Null), Ok(Json::Null)));
}

#[test]
fn registering_a_table_walks_the_metastore() {
    let entry = table();
    let (stage, action) = apply_table_start();
    assert!(matches!(action, TableAction::CheckTableExists));
    let (stage, action) = apply_table_step(&entry, stage, TableEvent::Exists(false));
    assert!(matches!(&action, TableAction::GetDatabase(d) if d == "db"));
    let (stage, action) = apply_table_step(&entry, stage, TableEvent::Database(Some(s("vol"))));
    assert!(matches!(&action, TableAction::EnsureSchema { database, schema } if database == "db" && schema == "sc"));
    let (stage, action) = apply_table_step(&entry, stage, TableEvent::SchemaEnsured);
    assert!(matches!(&action, TableAction::GetVolume(v) if v == "vol"));
    let (_, action) = apply_table_step(&entry, stage, TableEvent::Volume(None));
    assert!(matches!(action, TableAction::Finish(Err(ConfigError::TableVolumeMissing { .. }))));

    let (stage, _) = apply_table_start();
    let (stage, action) = apply_table_step(&entry, stage, TableEvent::Exists(true));
    assert!(matches!(stage, TableStage::Done));
    assert!(matches!(action, TableAction::Finish(Ok(()))));
}

#[test]
fn s3_table_buckets_become_catalogs() {
    let volumes = vec![
        s3_volume(None),
        Volume {
            ident: s("tables"),
            volume: VolumeType::S3Tables {
                arn: s("arn:aws:s3tables:us-east-1:1:bucket/b"),
                region: s("us-east-1"),
                credentials: AwsCredentials::AccessKey { aws_access_key_id: s("AK"), aws_secret_access_key: s("SK") },
            },
        },
        Volume {
            ident: s("tok"),
            volume: VolumeType::S3Tables { arn: s("arn2"), region: s("us-west-2"), credentials: AwsCredentials::Token(s("T")) },
        },
    ];
    let catalogs = s3tables_catalogs(&volumes);
    assert_eq!(catalogs.len(), 2);
    assert_eq!((catalogs[0].name.as_str(), catalogs[0].access_key_id.as_str(), catalogs[0].session_token.clone()), ("tables", "AK", None));
    assert_eq!((catalogs[1].access_key_id.as_str(), catalogs[1].secret_access_key.as_str()), ("", ""));
    assert_eq!(catalogs[1].session_token.as_deref(), Some("T"));
    assert_eq!(catalogs[1].region, "us-west-2");
}

#[test]
fn server_bootstrap_choices() {
    let loaded = MetastoreBootstrapConfig {
        volumes: vec![VolumeEntry { volume: s3_volume(Some("us-east-1")), database: None, should_refresh: false }],
        databases: vec![],
        schemas: vec![],
        tables: vec![table()],
    };
    let from_file = MetastoreConfig::ConfigPath(s("config/metastore.yaml")).bootstrap_config(Some(loaded));
    let c = from_file.expect("the file's configuration");
    assert_eq!(c.volumes.len(), 1);
    assert_eq!(c.tables.len(), 1);

    let d = MetastoreConfig::DefaultConfig.bootstrap_config(None).expect("the default configuration");
    assert!(d.volumes.is_empty() && d.databases.is_empty() && d.schemas.is_empty() && d.tables.is_empty());

    assert!(MetastoreConfig::Disabled.bootstrap_config(None).is_none());
    let empty = MetastoreBootstrapConfig::default();
    assert!(MetastoreConfig::Disabled.bootstrap_config(Some(empty)).is_none());
}

#[test]
fn patch_keeps_other_members() {
    let doc = Json::Object(vec![
        (s("format-version"), Json::Number(s("2"))),
        (
            s("snapshots"),
            Json::Array(vec![
                Json::Object(vec![(s("summary"), Json::Object(vec![]))]),
                Json::Object(vec![(s("summary"), Json::Object(vec![(s("operation"), Json::Str(s("overwrite")))]))]),
                Json::Object(vec![(s("id"), Json::Number(s("3")))]),
            ]),
        ),
        (s("x"), Json::Number(s("1"))),
    ]);
    let Json::Object(m) = patch_missing_operation(doc).unwrap() else { panic!("object expected") };
    let keys: Vec<&str> = m.iter().map(|(k, _)| k.as_str()).collect();
    assert_eq!(keys, vec!["format-version", "snapshots", "x"]);
    assert!(matches!(&m[0].1, Json::Number(n) if n == "2"));
    assert!(matches!(&m[2].1, Json::Number(n) if n == "1"));
    let Json::Array(snaps) = &m[1].1 else { panic!("array expected") };
    assert_eq!(snaps.len(), 3);
    let Json::Object(first) = &snaps[0] else { panic!() };
    let Json::Object(sum0) = &first[0].1 else { panic!() };
    assert!(matches!(&sum0[..], [(k, Json::Str(v))] if k == "operation" && v == "append"));
    let Json::Object(second) = &snaps[1] else { panic!() };
    let Json::Object(sum1) = &second[0].1 else { panic!() };
    assert!(matches!(&sum1[..], [(k, Json::Str(v))] if k == "operation" && v == "overwrite"));
    let Json::Object(third) = &snaps[2] else { panic!() };
    assert!(matches!(&third[..], [(k, Json::Number(n))] if k == "id" && n == "3"));
}
