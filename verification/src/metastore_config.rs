//! Bootstrapping a metastore from a configuration: the order of the steps, and the
//! decisions of registering a table from its Iceberg metadata location.
use vstd::prelude::*;
use crate::text::str_eq;
use crate::location::{url_parse_view, parse_url, trim_leading_slashes, trim_start_slashes};

verus! {

/// The schema every configured database gets.
pub const DEFAULT_SCHEMA_NAME: &'static str = "public";

/// The region of an S3 volume that does not name one.
pub const DEFAULT_S3_REGION: &'static str = "us-east-2";

/// AWS credentials of a volume.
#[derive(Debug, Clone)]
pub enum AwsCredentials {
    AccessKey { aws_access_key_id: String, aws_secret_access_key: String },
    Token(String),
}

/// The storage of a volume, as far as table registration reads it.
#[derive(Debug, Clone)]
#[allow(inconsistent_fields)]
pub enum VolumeType {
    S3 { region: Option<String>, credentials: Option<AwsCredentials> },
    /// An S3 table bucket: its ARN and the region the ARN names.
    S3Tables { arn: String, region: String, credentials: AwsCredentials },
    File,
    Memory,
}

/// A volume of the metastore.
#[derive(Debug, Clone)]
pub struct Volume {
    pub ident: String,
    pub volume: VolumeType,
}

/// A volume of the configuration, with the database to create on it.
#[derive(Debug, Clone)]
pub struct VolumeEntry {
    pub volume: Volume,
    pub database: Option<String>,
    pub should_refresh: bool,
}

/// A database of the configuration.
#[derive(Debug, Clone)]
pub struct DatabaseEntry {
    pub ident: String,
    pub volume: String,
    pub should_refresh: bool,
}

/// A schema of the configuration.
#[derive(Debug, Clone)]
pub struct SchemaEntry {
    pub database: String,
    pub schema: String,
}

/// A table of the configuration, registered from its Iceberg metadata file.
#[derive(Debug, Clone)]
pub struct TableEntry {
    pub database: String,
    pub schema: String,
    pub table: String,
    pub metadata_location: String,
}

/// What a metastore is bootstrapped with.
#[derive(Debug, Clone)]
pub struct MetastoreBootstrapConfig {
    pub volumes: Vec<VolumeEntry>,
    pub databases: Vec<DatabaseEntry>,
    pub schemas: Vec<SchemaEntry>,
    pub tables: Vec<TableEntry>,
}

/// Failures of bootstrapping that the configuration itself causes.
#[derive(Debug, Clone, PartialEq, Eq)]
pub enum ConfigError {
    TableDatabaseMissing { table: String, database: String },
    TableVolumeMissing { table: String, volume: String },
    InvalidMetadataLocation { table: String, reason: String },
    InvalidMetadata,
}

/// One step of bootstrapping, each done only when its object is missing.
#[derive(Debug, Clone)]
pub enum BootstrapOp {
    /// Create the volume when the metastore has none of that name.
    EnsureVolume(Volume),
    /// Create the database on the volume when it is missing.
    EnsureDatabase { ident: String, volume: String, should_refresh: bool },
    /// Create the schema when it is missing.
    EnsureSchema { database: String, schema: String },
    /// Register the table from its metadata file when it is missing.
    ApplyTable(TableEntry),
}

/// The texts a step names: its kind and the names it carries.
pub open spec fn op_view(op: BootstrapOp) -> (int, Seq<char>, Seq<char>) {
    match op {
        BootstrapOp::EnsureVolume(v) => (0, v.ident@, Seq::empty()),
        BootstrapOp::EnsureDatabase { ident, volume, .. } => (1, ident@, volume@),
        BootstrapOp::EnsureSchema { database, schema } => (2, database@, schema@),
        BootstrapOp::ApplyTable(t) => (3, t.database@, t.table@),
    }
}

/// The steps a database takes: the database, then its default schema.
pub open spec fn database_steps(ident: Seq<char>, volume: Seq<char>) -> Seq<(int, Seq<char>, Seq<char>)> {
    seq![(1, ident, volume), (2, ident, DEFAULT_SCHEMA_NAME@)]
}

/// The steps of the configured volumes, in order.
pub open spec fn volume_steps(v: Seq<VolumeEntry>) -> Seq<(int, Seq<char>, Seq<char>)>
    decreases v.len(),
{
    if v.len() == 0 {
        Seq::empty()
    } else {
        let e = v.last();
        volume_steps(v.drop_last()) + seq![(0, e.volume.ident@, Seq::<char>::empty())] + match e.database {
            Some(d) => database_steps(d@, e.volume.ident@),
            None => Seq::empty(),
        }
    }
}

/// The steps of the configured databases, in order.
pub open spec fn db_steps(d: Seq<DatabaseEntry>) -> Seq<(int, Seq<char>, Seq<char>)>
    decreases d.len(),
{
    if d.len() == 0 {
        Seq::empty()
    } else {
        db_steps(d.drop_last()) + database_steps(d.last().ident@, d.last().volume@)
    }
}

/// The order in which a configuration is applied: volumes (each followed by its database
/// and that database's default schema), databases (each followed by its default schema),
/// schemas, then tables.
pub open spec fn bootstrap_steps(c: MetastoreBootstrapConfig) -> Seq<(int, Seq<char>, Seq<char>)> {
    volume_steps(c.volumes@) + db_steps(c.databases@) + c.schemas@.map_values(
        |s: SchemaEntry| (2int, s.database@, s.schema@),
    ) + c.tables@.map_values(|t: TableEntry| (3int, t.database@, t.table@))
}

/// The entity a step ensures: a volume, a database, a schema of a database, or a table of
/// a schema.
pub open spec fn op_entity(op: BootstrapOp) -> (int, Seq<char>, Seq<char>, Seq<char>) {
    match op {
        BootstrapOp::EnsureVolume(v) => (0, v.ident@, Seq::empty(), Seq::empty()),
        BootstrapOp::EnsureDatabase { ident, .. } => (1, ident@, Seq::empty(), Seq::empty()),
        BootstrapOp::EnsureSchema { database, schema } => (2, database@, schema@, Seq::empty()),
        BootstrapOp::ApplyTable(t) => (3, t.database@, t.schema@, t.table@),
    }
}

/// A successful run of the steps against the entities a metastore holds: each step creates
/// its entity when it is missing and leaves it alone when it exists. Gives the entities
/// held afterwards and the steps that created something, in order.
pub open spec fn run_steps(existing: Set<(int, Seq<char>, Seq<char>, Seq<char>)>, ops: Seq<BootstrapOp>) -> (
    Set<(int, Seq<char>, Seq<char>, Seq<char>)>,
    Seq<BootstrapOp>,
)
    decreases ops.len(),
{
    if ops.len() == 0 {
        (existing, Seq::empty())
    } else {
        let prev = run_steps(existing, ops.drop_last());
        let e = op_entity(ops.last());
        if prev.0.contains(e) {
            prev
        } else {
            (prev.0.insert(e), prev.1.push(ops.last()))
        }
    }
}

/// After a run, the metastore holds what it held before and every step's entity.
proof fn lemma_run_holds(existing: Set<(int, Seq<char>, Seq<char>, Seq<char>)>, ops: Seq<BootstrapOp>)
    ensures
        existing.subset_of(run_steps(existing, ops).0),
        forall|i: int| 0 <= i < ops.len() ==> run_steps(existing, ops).0.contains(#[trigger] op_entity(ops[i])),
    decreases ops.len(),
{
    if ops.len() > 0 {
        let init = ops.drop_last();
        lemma_run_holds(existing, init);
        assert forall|i: int| 0 <= i < ops.len() implies run_steps(existing, ops).0.contains(#[trigger] op_entity(ops[i])) by {
            if i < ops.len() - 1 {
                assert(ops[i] == init[i]);
            }
        }
    }
}

/// A run against a metastore that already holds every step's entity creates nothing.
proof fn lemma_run_held(existing: Set<(int, Seq<char>, Seq<char>, Seq<char>)>, ops: Seq<BootstrapOp>)
    requires
        forall|i: int| 0 <= i < ops.len() ==> existing.contains(#[trigger] op_entity(ops[i])),
    ensures
        run_steps(existing, ops) == (existing, Seq::<BootstrapOp>::empty()),
    decreases ops.len(),
{
    if ops.len() > 0 {
        let init = ops.drop_last();
        assert forall|i: int| 0 <= i < init.len() implies existing.contains(#[trigger] op_entity(init[i])) by {
            assert(init[i] == ops[i]);
        }
        lemma_run_held(existing, init);
        assert(existing.contains(op_entity(ops[ops.len() - 1])));
    }
}

/// Applying a configuration a second time, after a first run succeeded, creates nothing:
/// every entity the steps ensure already exists, and the metastore stays as it was.
pub proof fn law_bootstrap_twice_creates_nothing(
    config: MetastoreBootstrapConfig,
    ops: Seq<BootstrapOp>,
    existing: Set<(int, Seq<char>, Seq<char>, Seq<char>)>,
)
    requires
        ops.map_values(|o: BootstrapOp| op_view(o)) == bootstrap_steps(config),
    ensures
        run_steps(run_steps(existing, ops).0, ops).1.len() == 0,
        run_steps(run_steps(existing, ops).0, ops).0 == run_steps(existing, ops).0,
{
    lemma_run_holds(existing, ops);
    lemma_run_held(run_steps(existing, ops).0, ops);
}

fn push_database_steps(ops: &mut Vec<BootstrapOp>, ident: &String, volume: &String, should_refresh: bool)
    ensures
        final(ops)@.map_values(|o: BootstrapOp| op_view(o)) == old(ops)@.map_values(|o: BootstrapOp| op_view(o))
            + database_steps(ident@, volume@),
{
    let ghost before = ops@.map_values(|o: BootstrapOp| op_view(o));
    ops.push(BootstrapOp::EnsureDatabase { ident: ident.clone(), volume: volume.clone(), should_refresh });
    ops.push(BootstrapOp::EnsureSchema { database: ident.clone(), schema: DEFAULT_SCHEMA_NAME.to_string() });
    assert(ops@.map_values(|o: BootstrapOp| op_view(o)) =~= before + database_steps(ident@, volume@));
}

/// The steps that apply a configuration, in order.
pub fn bootstrap_plan(config: &MetastoreBootstrapConfig) -> (r: Vec<BootstrapOp>)
    ensures
        r@.map_values(|o: BootstrapOp| op_view(o)) == bootstrap_steps(*config),
{
    let mut ops: Vec<BootstrapOp> = Vec::new();
    let mut i: usize = 0;
    while i < config.volumes.len()
        invariant
            i <= config.volumes@.len(),
            ops@.map_values(|o: BootstrapOp| op_view(o)) == volume_steps(config.volumes@.take(i as int)),
        decreases config.volumes@.len() - i,
    {
        let e = &config.volumes[i];
        let ghost t = config.volumes@.take(i as int + 1);
        assert(t.drop_last() =~= config.volumes@.take(i as int));
        let ghost before = ops@.map_values(|o: BootstrapOp| op_view(o));
        ops.push(BootstrapOp::EnsureVolume(e.volume.clone_volume()));
        assert(ops@.map_values(|o: BootstrapOp| op_view(o)) =~= before + seq![(0int, e.volume.ident@, Seq::<char>::empty())]);
        match &e.database {
            Some(d) => {
                push_database_steps(&mut ops, d, &e.volume.ident, e.should_refresh);
            },
            None => {},
        }
        assert(ops@.map_values(|o: BootstrapOp| op_view(o)) =~= volume_steps(t));
        i = i + 1;
    }
    assert(config.volumes@.take(config.volumes@.len() as int) =~= config.volumes@);
    let ghost vs = ops@.map_values(|o: BootstrapOp| op_view(o));
    let mut j: usize = 0;
    while j < config.databases.len()
        invariant
            j <= config.databases@.len(),
            ops@.map_values(|o: BootstrapOp| op_view(o)) == vs + db_steps(config.databases@.take(j as int)),
        decreases config.databases@.len() - j,
    {
        let d = &config.databases[j];
        let ghost t = config.databases@.take(j as int + 1);
        assert(t.drop_last() =~= config.databases@.take(j as int));
        push_database_steps(&mut ops, &d.ident, &d.volume, d.should_refresh);
        assert(ops@.map_values(|o: BootstrapOp| op_view(o)) =~= vs + db_steps(t));
        j = j + 1;
    }
    assert(config.databases@.take(config.databases@.len() as int) =~= config.databases@);
    let ghost ds = ops@.map_values(|o: BootstrapOp| op_view(o));
    let mut k: usize = 0;
    while k < config.schemas.len()
        invariant
            k <= config.schemas@.len(),
            ops@.map_values(|o: BootstrapOp| op_view(o)) == ds + config.schemas@.take(k as int).map_values(
                |s: SchemaEntry| (2int, s.database@, s.schema@),
            ),
        decreases config.schemas@.len() - k,
    {
        let s = &config.schemas[k];
        let ghost prev = ops@;
        let op = BootstrapOp::EnsureSchema { database: s.database.clone(), schema: s.schema.clone() };
        ops.push(op);
        assert(ops@ == prev.push(op));
        assert(config.schemas@.take(k as int + 1) =~= config.schemas@.take(k as int).push(config.schemas@[k as int]));
        assert(ops@.map_values(|o: BootstrapOp| op_view(o)) =~= prev.map_values(|o: BootstrapOp| op_view(o)).push(op_view(op)));
        assert(ops@.map_values(|o: BootstrapOp| op_view(o)) =~= ds + config.schemas@.take(k as int + 1).map_values(
            |s: SchemaEntry| (2int, s.database@, s.schema@),
        ));
        k = k + 1;
    }
    assert(config.schemas@.take(config.schemas@.len() as int) =~= config.schemas@);
    let ghost ss = ops@.map_values(|o: BootstrapOp| op_view(o));
    let mut m: usize = 0;
    while m < config.tables.len()
        invariant
            m <= config.tables@.len(),
            ops@.map_values(|o: BootstrapOp| op_view(o)) == ss + config.tables@.take(m as int).map_values(
                |t: TableEntry| (3int, t.database@, t.table@),
            ),
        decreases config.tables@.len() - m,
    {
        let t = &config.tables[m];
        let ghost prev = ops@;
        let op = BootstrapOp::ApplyTable(t.clone_entry());
        ops.push(op);
        assert(ops@ == prev.push(op));
        assert(config.tables@.take(m as int + 1) =~= config.tables@.take(m as int).push(config.tables@[m as int]));
        assert(ops@.map_values(|o: BootstrapOp| op_view(o)) =~= prev.map_values(|o: BootstrapOp| op_view(o)).push(op_view(op)));
        assert(ops@.map_values(|o: BootstrapOp| op_view(o)) =~= ss + config.tables@.take(m as int + 1).map_values(
            |t: TableEntry| (3int, t.database@, t.table@),
        ));
        m = m + 1;
    }
    assert(config.tables@.take(config.tables@.len() as int) =~= config.tables@);
    assert(ops@.map_values(|o: BootstrapOp| op_view(o)) =~= bootstrap_steps(*config));
    ops
}

impl TableEntry {
    /// A copy of this entry, equal to it.
    pub fn clone_entry(&self) -> (r: TableEntry)
        ensures
            r == *self,
    {
        TableEntry {
            database: self.database.clone(),
            schema: self.schema.clone(),
            table: self.table.clone(),
            metadata_location: self.metadata_location.clone(),
        }
    }
}

impl Volume {
    /// A copy of this volume with the same identifier.
    pub fn clone_volume(&self) -> (r: Volume)
        ensures
            r.ident == self.ident,
    {
        Volume { ident: self.ident.clone(), volume: self.volume.clone() }
    }
}


/// Where the metadata file of a table is read: the bucket of its location, with the
/// region and credentials of the table's volume.
#[derive(Debug, Clone)]
pub struct ObjectStoreConfig {
    pub bucket: String,
    pub region: String,
    pub credentials: Option<AwsCredentials>,
}

/// The region an S3 volume is read in: its own, else the default.
pub open spec fn volume_region(v: VolumeType) -> Option<Seq<char>> {
    match v {
        VolumeType::S3 { region, .. } => Some(match region {
            Some(r) => r@,
            None => DEFAULT_S3_REGION@,
        }),
        VolumeType::S3Tables { region, .. } => Some(region@),
        _ => None,
    }
}

/// Reads the metadata location of a table against its volume: the store to read from and
/// the path of the metadata file, or why the location cannot be read.
pub open spec fn metadata_source(location: Seq<char>, v: VolumeType) -> Result<(Seq<char>, Seq<char>, Seq<char>), Seq<char>> {
    match url_parse_view(location) {
        Err(e) => Err("Failed to parse metadata location URL: "@ + e),
        Ok(p) => match p.0 {
            None => Err("Metadata location URL missing bucket name"@),
            Some(bucket) => match volume_region(v) {
                None => Err("Only S3 and S3Tables volumes are supported for metadata locations"@),
                Some(region) => Ok((bucket, region, trim_leading_slashes(p.1))),
            },
        },
    }
}

/// The store config and metadata path of a table, or why its location cannot be read.
pub fn metadata_store(entry: &TableEntry, volume: &Volume) -> (r: Result<(ObjectStoreConfig, String), ConfigError>)
    ensures
        match metadata_source(entry.metadata_location@, volume.volume) {
            Ok(t) => r matches Ok(x) && x.0.bucket@ == t.0 && x.0.region@ == t.1 && x.1@ == t.2
                && x.0.credentials == match volume.volume {
                VolumeType::S3 { credentials, .. } => credentials,
                VolumeType::S3Tables { credentials, .. } => Some(credentials),
                _ => None,
            },
            Err(reason) => r matches Err(ConfigError::InvalidMetadataLocation { table, reason: rs }) && table@
                == entry.table@ && rs@ == reason,
        },
{
    let (host, path, _scheme, _port) = match parse_url(entry.metadata_location.as_str()) {
        Ok(p) => p,
        Err(e) => {
            let mut reason = "Failed to parse metadata location URL: ".to_string();
            reason.append(e.as_str());
            return Err(ConfigError::InvalidMetadataLocation { table: entry.table.clone(), reason });
        },
    };
    let bucket = match host {
        Some(h) => h,
        None => {
            return Err(ConfigError::InvalidMetadataLocation {
                table: entry.table.clone(),
                reason: "Metadata location URL missing bucket name".to_string(),
            });
        },
    };
    let metadata_path = trim_start_slashes(path.as_str());
    match &volume.volume {
        VolumeType::S3 { region, credentials } => {
            let region = match region {
                Some(r) => r.clone(),
                None => DEFAULT_S3_REGION.to_string(),
            };
            Ok((ObjectStoreConfig { bucket, region, credentials: clone_credentials_opt(credentials) }, metadata_path))
        },
        VolumeType::S3Tables { region, credentials, .. } => Ok((
            ObjectStoreConfig { bucket, region: region.clone(), credentials: Some(clone_credentials(credentials)) },
            metadata_path,
        )),
        _ => Err(ConfigError::InvalidMetadataLocation {
            table: entry.table.clone(),
            reason: "Only S3 and S3Tables volumes are supported for metadata locations".to_string(),
        }),
    }
}

fn clone_credentials(c: &AwsCredentials) -> (r: AwsCredentials)
    ensures
        r == *c,
{
    match c {
        AwsCredentials::AccessKey { aws_access_key_id, aws_secret_access_key } => AwsCredentials::AccessKey {
            aws_access_key_id: aws_access_key_id.clone(),
            aws_secret_access_key: aws_secret_access_key.clone(),
        },
        AwsCredentials::Token(t) => AwsCredentials::Token(t.clone()),
    }
}

fn clone_credentials_opt(c: &Option<AwsCredentials>) -> (r: Option<AwsCredentials>)
    ensures
        r == *c,
{
    match c {
        Some(x) => Some(clone_credentials(x)),
        None => None,
    }
}

/// A JSON document.
#[derive(Debug)]
pub enum Json {
    Null,
    Bool(bool),
    /// A number, as its text.
    Number(String),
    Str(String),
    Array(Vec<Json>),
    Object(Vec<(String, Json)>),
}

/// The position of the first member with the given key.
pub open spec fn member_pos(m: Seq<(String, Json)>, k: Seq<char>) -> Option<int>
    decreases m.len(),
{
    if m.len() == 0 {
        None
    } else {
        match member_pos(m.drop_last(), k) {
            Some(i) => Some(i),
            None => if m.last().0@ == k {
                Some(m.len() - 1)
            } else {
                None
            },
        }
    }
}

/// The value of a key in an object (nothing in anything else).
pub open spec fn get_member(v: Json, k: Seq<char>) -> Option<Json> {
    match v {
        Json::Object(m) => match member_pos(m@, k) {
            Some(i) => Some(m@[i].1),
            None => None,
        },
        _ => None,
    }
}

/// A snapshot whose summary is not an object, which cannot be patched.
pub open spec fn summary_invalid(snapshot: Json) -> bool {
    get_member(snapshot, "summary"@) matches Some(s) && !(s is Object)
}

/// A snapshot whose summary is an object without an operation.
pub open spec fn summary_needs_operation(snapshot: Json) -> bool {
    get_member(snapshot, "summary"@) matches Some(s) && s is Object && get_member(s, "operation"@) is None
}

/// `new` is the snapshot with `"operation": "append"` added at the end of its summary.
pub open spec fn operation_added(old: Json, new: Json) -> bool {
    old matches Json::Object(om) && new matches Json::Object(nm) && nm@.len() == om@.len() && ({
        let i = member_pos(om@, "summary"@)->0;
        &&& forall|j: int| 0 <= j < om@.len() && j != i ==> #[trigger] nm@[j] == om@[j]
        &&& nm@[i].0 == om@[i].0
        &&& om@[i].1 matches Json::Object(os) && (nm@[i].1 matches Json::Object(ns) && ns@.len() == os@.len() + 1
            && ns@.take(os@.len() as int) == os@ && ns@.last().0@ == "operation"@ && (ns@.last().1 matches Json::Str(v)
            && v@ == "append"@))
    })
}

/// `new` is the document `old` with only the value of its `snapshots` member replaced:
/// every other member stays, in its place, and each snapshot whose summary has no
/// operation gets `"operation": "append"`, the others staying as they are.
pub open spec fn snapshots_patched(old: Json, new: Json) -> bool {
    match (old, new) {
        (Json::Object(om), Json::Object(nm)) => match member_pos(om@, "snapshots"@) {
            Some(i) => {
                &&& nm@.len() == om@.len()
                &&& forall|j: int| 0 <= j < om@.len() && j != i ==> #[trigger] nm@[j] == om@[j]
                &&& nm@[i].0 == om@[i].0
                &&& match (om@[i].1, nm@[i].1) {
                    (Json::Array(os), Json::Array(ns)) => {
                        &&& ns@.len() == os@.len()
                        &&& forall|k: int|
                            0 <= k < os@.len() ==> if summary_needs_operation(#[trigger] os@[k]) {
                                operation_added(os@[k], ns@[k])
                            } else {
                                ns@[k] == os@[k]
                            }
                    },
                    _ => false,
                }
            },
            None => false,
        },
        _ => false,
    }
}

/// The snapshots of a table metadata document.
pub open spec fn snapshots_of(v: Json) -> Option<Seq<Json>> {
    match get_member(v, "snapshots"@) {
        Some(Json::Array(a)) => Some(a@),
        _ => None,
    }
}

fn find_member(m: &Vec<(String, Json)>, k: &str) -> (r: Option<usize>)
    ensures
        r matches Some(i) ==> member_pos(m@, k@) == Some(i as int),
        r is None ==> member_pos(m@, k@) is None,
        r matches Some(i) ==> i < m@.len() && m@[i as int].0@ == k@,
{
    proof {
        lemma_member_pos_range(m@, k@);
    }
    let mut i: usize = 0;
    while i < m.len()
        invariant
            i <= m@.len(),
            member_pos(m@.take(i as int), k@) is None,
        decreases m@.len() - i,
    {
        let ghost t = m@.take(i as int + 1);
        assert(t.drop_last() =~= m@.take(i as int));
        if str_eq(m[i].0.as_str(), k) {
            proof {
                lemma_member_pos_prefix(m@, i as int + 1, k@);
            }
            return Some(i);
        }
        i = i + 1;
    }
    assert(m@.take(m@.len() as int) =~= m@);
    None
}

/// The position a key names is a member with that key.
proof fn lemma_member_pos_range(m: Seq<(String, Json)>, k: Seq<char>)
    ensures
        member_pos(m, k) matches Some(i) ==> 0 <= i < m.len() && m[i].0@ == k,
    decreases m.len(),
{
    if m.len() > 0 {
        lemma_member_pos_range(m.drop_last(), k);
    }
}

/// A key found in a prefix is found at the same place in the whole.
proof fn lemma_member_pos_prefix(m: Seq<(String, Json)>, n: int, k: Seq<char>)
    requires
        0 <= n <= m.len(),
        member_pos(m.take(n), k) is Some,
    ensures
        member_pos(m, k) == member_pos(m.take(n), k),
    decreases m.len() - n,
{
    if n < m.len() {
        let t = m.take(n + 1);
        assert(t.drop_last() =~= m.take(n));
        lemma_member_pos_prefix(m, n + 1, k);
    } else {
        assert(m.take(n) =~= m);
    }
}

/// Whether a snapshot's summary is not an object.
fn is_summary_invalid(snapshot: &Json) -> (r: bool)
    ensures
        r == summary_invalid(*snapshot),
{
    match snapshot {
        Json::Object(members) => match find_member(members, "summary") {
            Some(i) => match &members[i].1 {
                Json::Object(_) => false,
                _ => true,
            },
            None => false,
        },
        _ => false,
    }
}

/// Whether a snapshot's summary is an object without an operation.
fn needs_operation(snapshot: &Json) -> (r: bool)
    ensures
        r == summary_needs_operation(*snapshot),
{
    match snapshot {
        Json::Object(members) => match find_member(members, "summary") {
            Some(i) => match &members[i].1 {
                Json::Object(sm) => find_member(sm, "operation").is_none(),
                _ => false,
            },
            None => false,
        },
        _ => false,
    }
}

/// Adds `"operation": "append"` at the end of the summary of a snapshot that needs it.
fn add_operation(snapshot: Json) -> (r: Json)
    requires
        summary_needs_operation(snapshot),
    ensures
        operation_added(snapshot, r),
{
    let ghost old = snapshot;
    match snapshot {
        Json::Object(mut members) => {
            let ghost om = members@;
            match find_member(&members, "summary") {
                Some(i) => {
                    let (key, summary) = members.remove(i);
                    match summary {
                        Json::Object(mut sm) => {
                            let ghost os = sm@;
                            sm.push(("operation".to_string(), Json::Str("append".to_string())));
                            assert(sm@.take(os.len() as int) =~= os);
                            members.insert(i, (key, Json::Object(sm)));
                            let r = Json::Object(members);
                            assert forall|j: int| 0 <= j < om.len() && j != i as int implies #[trigger] members@[j] == om[j] by {
                                if j < i as int {
                                    assert(members@[j] == om[j]);
                                } else {
                                    assert(members@[j] == om[j]);
                                }
                            }
                            r
                        },
                        other => {
                            assert(false);
                            Json::Null
                        },
                    }
                },
                None => {
                    assert(false);
                    Json::Null
                },
            }
        },
        other => {
            assert(false);
            other
        },
    }
}

/// Gives every snapshot summary of a table metadata document an `"operation": "append"`
/// when it has no operation; a summary that is not an object makes the document invalid.
/// Documents without a snapshot list are kept as they are.
pub fn patch_missing_operation(value: Json) -> (r: Result<Json, ConfigError>)
    ensures
        match snapshots_of(value) {
            None => r == Ok::<Json, ConfigError>(value),
            Some(snaps) => if exists|i: int| 0 <= i < snaps.len() && summary_invalid(#[trigger] snaps[i]) {
                r == Err::<Json, ConfigError>(ConfigError::InvalidMetadata)
            } else {
                r matches Ok(n) && snapshots_of(n) matches Some(ns) && ns.len() == snaps.len() && (forall|i: int|
                    0 <= i < snaps.len() ==> if summary_needs_operation(#[trigger] snaps[i]) {
                        operation_added(snaps[i], ns[i])
                    } else {
                        ns[i] == snaps[i]
                    }) && snapshots_patched(value, n)
            },
        },
{
    let pos = match &value {
        Json::Object(m) => find_member(m, "snapshots"),
        _ => None,
    };
    let i = match pos {
        Some(i) => i,
        None => {
            return Ok(value);
        },
    };
    let is_array = match &value {
        Json::Object(m) => match &m[i].1 {
            Json::Array(items) => {
                assert(snapshots_of(value) == Some(items@));
                let mut j: usize = 0;
                while j < items.len()
                    invariant
                        snapshots_of(value) == Some(items@),
                        j <= items@.len(),
                        forall|q: int| 0 <= q < j ==> !summary_invalid(#[trigger] items@[q]),
                    decreases items@.len() - j,
                {
                    if is_summary_invalid(&items[j]) {
                        proof {
                            let snaps = snapshots_of(value)->0;
                            assert(snaps == items@);
                            assert(summary_invalid(snaps[j as int]));
                        }
                        return Err(ConfigError::InvalidMetadata);
                    }
                    j = j + 1;
                }
                true
            },
            _ => false,
        },
        _ => false,
    };
    if !is_array {
        return Ok(value);
    }
    let ghost old = value;
    match value {
        Json::Object(mut members) => {
            let ghost om = members@;
            let (key, snaps) = members.remove(i);
            match snaps {
                Json::Array(items) => {
                    let ghost orig = items@;
                    let mut items = items;
                    let mut out: Vec<Json> = Vec::new();
                    while items.len() > 0
                        invariant
                            out@.len() <= orig.len(),
                            items@ == orig.subrange(out@.len() as int, orig.len() as int),
                            forall|j: int|
                                0 <= j < out@.len() ==> if summary_needs_operation(#[trigger] orig[j]) {
                                    operation_added(orig[j], out@[j])
                                } else {
                                    out@[j] == orig[j]
                                },
                        decreases items@.len(),
                    {
                        let item = items.remove(0);
                        assert(item == orig[out@.len() as int]);
                        if needs_operation(&item) {
                            out.push(add_operation(item));
                        } else {
                            out.push(item);
                        }
                        assert(items@ =~= orig.subrange(out@.len() as int, orig.len() as int));
                    }
                    members.insert(i, (key, Json::Array(out)));
                    proof {
                        assert forall|j: int| 0 <= j < om.len() && j != i as int implies #[trigger] members@[j] == om[j] by {
                            assert(members@[j] == om[j]);
                        }
                        lemma_member_pos_replaced(om, members@, i as int, "snapshots"@);
                    }
                    Ok(Json::Object(members))
                },
                _ => {
                    assert(false);
                    Err(ConfigError::InvalidMetadata)
                },
            }
        },
        _ => {
            assert(false);
            Err(ConfigError::InvalidMetadata)
        },
    }
}

/// Replacing the value of the member a key first names keeps the key's position.
proof fn lemma_member_pos_replaced(a: Seq<(String, Json)>, b: Seq<(String, Json)>, i: int, k: Seq<char>)
    requires
        member_pos(a, k) == Some(i),
        0 <= i < a.len(),
        a.len() == b.len(),
        b[i].0 == a[i].0,
        forall|j: int| 0 <= j < a.len() && j != i ==> #[trigger] b[j] == a[j],
    ensures
        member_pos(b, k) == Some(i),
    decreases a.len(),
{
    lemma_member_pos_range(a, k);
    lemma_member_pos_range(a.drop_last(), k);
    if i < a.len() - 1 {
        assert(member_pos(a.drop_last(), k) == Some(i));
        lemma_member_pos_replaced(a.drop_last(), b.drop_last(), i, k);
    } else {
        assert(member_pos(a.drop_last(), k) is None);
        assert(a.drop_last() =~= b.drop_last());
    }
}

/// The steps of registering a configured table.
#[derive(Debug, Clone)]
pub enum TableStage {
    /// Waiting to learn whether the table exists.
    AwaitExists,
    /// Waiting for the table's database.
    AwaitDatabase,
    /// Waiting for the table's schema to be ensured; the database's volume is known.
    AwaitSchema { volume: String },
    /// Waiting for the volume.
    AwaitVolume { volume: String },
    /// Waiting for the metadata document of the table.
    AwaitMetadata { volume: String },
    /// Waiting for the registration to finish.
    AwaitRegister,
    Done,
}

/// What the metastore answered.
#[derive(Debug)]
pub enum TableEvent {
    /// Whether the table exists.
    Exists(bool),
    /// The table's database: the volume it is on, or nothing when it is missing.
    Database(Option<String>),
    SchemaEnsured,
    Volume(Option<Volume>),
    Metadata(Json),
    Registered,
}

/// What to ask of the metastore next.
#[derive(Debug)]
pub enum TableAction {
    CheckTableExists,
    GetDatabase(String),
    EnsureSchema { database: String, schema: String },
    GetVolume(String),
    FetchMetadata { store: ObjectStoreConfig, path: String },
    RegisterTable { metadata: Json, volume: String },
    Finish(Result<(), ConfigError>),
}

/// The first step of registering a configured table: ask whether it exists.
pub fn apply_table_start() -> (r: (TableStage, TableAction))
    ensures
        r.0 is AwaitExists,
        r.1 is CheckTableExists,
{
    (TableStage::AwaitExists, TableAction::CheckTableExists)
}

/// Whether an answer is the one a step waits for.
pub open spec fn event_fits(stage: TableStage, event: TableEvent) -> bool {
    match stage {
        TableStage::AwaitExists => event is Exists,
        TableStage::AwaitDatabase => event is Database,
        TableStage::AwaitSchema { .. } => event is SchemaEnsured,
        TableStage::AwaitVolume { .. } => event is Volume,
        TableStage::AwaitMetadata { .. } => event is Metadata,
        TableStage::AwaitRegister => event is Registered,
        TableStage::Done => false,
    }
}

/// One step of registering a configured table: a table that exists is left alone; its
/// database must exist (its schema is ensured), the database's volume must exist, and the
/// metadata file is read through that volume's credentials from the bucket of the table's
/// metadata location; the metadata is patched and the table registered.
pub fn apply_table_step(entry: &TableEntry, stage: TableStage, event: TableEvent) -> (r: (TableStage, TableAction))
    requires
        event_fits(stage, event),
    ensures
        match (stage, event) {
            (TableStage::AwaitExists, TableEvent::Exists(true)) => r.0 is Done && r.1 matches TableAction::Finish(Ok(_)),
            (TableStage::AwaitExists, TableEvent::Exists(false)) => r.0 is AwaitDatabase && (r.1 matches TableAction::GetDatabase(d)
                && d@ == entry.database@),
            (TableStage::AwaitDatabase, TableEvent::Database(None)) => r.0 is Done && (r.1 matches TableAction::Finish(
                Err(ConfigError::TableDatabaseMissing { table, database }),
            ) && table@ == entry.table@ && database@ == entry.database@),
            (TableStage::AwaitDatabase, TableEvent::Database(Some(v))) => (r.0 matches TableStage::AwaitSchema { volume }
                && volume@ == v@) && (r.1 matches TableAction::EnsureSchema { database, schema } && database@
                == entry.database@ && schema@ == entry.schema@),
            (TableStage::AwaitSchema { volume }, TableEvent::SchemaEnsured) => (r.0 matches TableStage::AwaitVolume {
                volume: v,
            } && v@ == volume@) && (r.1 matches TableAction::GetVolume(g) && g@ == volume@),
            (TableStage::AwaitVolume { volume }, TableEvent::Volume(None)) => r.0 is Done && (r.1 matches TableAction::Finish(
                Err(ConfigError::TableVolumeMissing { table, volume: v }),
            ) && table@ == entry.table@ && v@ == volume@),
            (TableStage::AwaitVolume { .. }, TableEvent::Volume(Some(vol))) => match metadata_source(
                entry.metadata_location@,
                vol.volume,
            ) {
                Ok(t) => (r.0 matches TableStage::AwaitMetadata { volume } && volume@ == vol.ident@) && (r.1 matches TableAction::FetchMetadata {
                    store,
                    path,
                } && store.bucket@ == t.0 && store.region@ == t.1 && path@ == t.2 && store.credentials == match vol.volume {
                    VolumeType::S3 { credentials, .. } => credentials,
                    VolumeType::S3Tables { credentials, .. } => Some(credentials),
                    _ => None,
                }),
                Err(reason) => r.0 is Done && (r.1 matches TableAction::Finish(
                    Err(ConfigError::InvalidMetadataLocation { table, reason: rs }),
                ) && table@ == entry.table@ && rs@ == reason),
            },
            (TableStage::AwaitMetadata { volume }, TableEvent::Metadata(doc)) => match snapshots_of(doc) {
                Some(snaps) => if exists|i: int| 0 <= i < snaps.len() && summary_invalid(#[trigger] snaps[i]) {
                    r.0 is Done && r.1 matches TableAction::Finish(Err(ConfigError::InvalidMetadata))
                } else {
                    r.0 is AwaitRegister && (r.1 matches TableAction::RegisterTable { metadata, volume: v }
                        && snapshots_patched(doc, metadata) && v@ == volume@)
                },
                None => r.0 is AwaitRegister && (r.1 matches TableAction::RegisterTable { metadata, volume: v } && metadata
                    == doc && v@ == volume@),
            },
            (TableStage::AwaitRegister, TableEvent::Registered) => r.0 is Done && r.1 matches TableAction::Finish(Ok(_)),
            _ => false,
        },
{
    match (stage, event) {
        (TableStage::AwaitExists, TableEvent::Exists(exists)) => {
            if exists {
                (TableStage::Done, TableAction::Finish(Ok(())))
            } else {
                (TableStage::AwaitDatabase, TableAction::GetDatabase(entry.database.clone()))
            }
        },
        (TableStage::AwaitDatabase, TableEvent::Database(db)) => match db {
            None => (
                TableStage::Done,
                TableAction::Finish(
                    Err(ConfigError::TableDatabaseMissing { table: entry.table.clone(), database: entry.database.clone() }),
                ),
            ),
            Some(volume) => (
                TableStage::AwaitSchema { volume },
                TableAction::EnsureSchema { database: entry.database.clone(), schema: entry.schema.clone() },
            ),
        },
        (TableStage::AwaitSchema { volume }, TableEvent::SchemaEnsured) => {
            let g = volume.clone();
            (TableStage::AwaitVolume { volume }, TableAction::GetVolume(g))
        },
        (TableStage::AwaitVolume { volume }, TableEvent::Volume(v)) => match v {
            None => (
                TableStage::Done,
                TableAction::Finish(Err(ConfigError::TableVolumeMissing { table: entry.table.clone(), volume })),
            ),
            Some(vol) => match metadata_store(entry, &vol) {
                Ok((store, path)) => (TableStage::AwaitMetadata { volume: vol.ident }, TableAction::FetchMetadata {
                    store,
                    path,
                }),
                Err(e) => (TableStage::Done, TableAction::Finish(Err(e))),
            },
        },
        (TableStage::AwaitMetadata { volume }, TableEvent::Metadata(doc)) => match patch_missing_operation(doc) {
            Ok(metadata) => (TableStage::AwaitRegister, TableAction::RegisterTable { metadata, volume }),
            Err(e) => (TableStage::Done, TableAction::Finish(Err(e))),
        },
        (TableStage::AwaitRegister, TableEvent::Registered) => (TableStage::Done, TableAction::Finish(Ok(()))),
        (stage, _) => {
            assert(false);
            (stage, TableAction::Finish(Ok(())))
        },
    }
}

/// How a session reaches the Iceberg catalog of an S3 table bucket.
#[derive(Debug)]
pub struct S3TablesCatalogConfig {
    /// The catalog's name: the volume's.
    pub name: String,
    pub arn: String,
    pub region: String,
    pub access_key_id: String,
    pub secret_access_key: String,
    pub session_token: Option<String>,
}

/// The S3 table buckets among volumes, in order, with their credentials: an access key
/// with no token, or a token with empty keys.
pub open spec fn s3tables_catalogs_spec(volumes: Seq<Volume>) -> Seq<(Seq<char>, Seq<char>, Seq<char>, Seq<char>, Seq<char>, Option<Seq<char>>)>
    decreases volumes.len(),
{
    if volumes.len() == 0 {
        Seq::empty()
    } else {
        let prev = s3tables_catalogs_spec(volumes.drop_last());
        let v = volumes.last();
        match v.volume {
            VolumeType::S3Tables { arn, region, credentials } => prev.push(
                match credentials {
                    AwsCredentials::AccessKey { aws_access_key_id, aws_secret_access_key } => (
                        v.ident@,
                        arn@,
                        region@,
                        aws_access_key_id@,
                        aws_secret_access_key@,
                        None,
                    ),
                    AwsCredentials::Token(t) => (v.ident@, arn@, region@, Seq::empty(), Seq::empty(), Some(t@)),
                },
            ),
            _ => prev,
        }
    }
}

/// The view of a catalog configuration.
pub open spec fn catalog_config_view(c: S3TablesCatalogConfig) -> (Seq<char>, Seq<char>, Seq<char>, Seq<char>, Seq<char>, Option<Seq<char>>) {
    (
        c.name@,
        c.arn@,
        c.region@,
        c.access_key_id@,
        c.secret_access_key@,
        match c.session_token {
            Some(t) => Some(t@),
            None => None,
        },
    )
}

/// The catalogs a session registers for the S3 table buckets among the volumes.
pub fn s3tables_catalogs(volumes: &Vec<Volume>) -> (r: Vec<S3TablesCatalogConfig>)
    ensures
        r@.map_values(|c: S3TablesCatalogConfig| catalog_config_view(c)) == s3tables_catalogs_spec(volumes@),
{
    let mut r: Vec<S3TablesCatalogConfig> = Vec::new();
    let mut i: usize = 0;
    proof {
        assert(volumes@.take(0) =~= Seq::<Volume>::empty());
        assert(r@.map_values(|c: S3TablesCatalogConfig| catalog_config_view(c)) =~= Seq::empty());
    }
    while i < volumes.len()
        invariant
            i <= volumes@.len(),
            r@.map_values(|c: S3TablesCatalogConfig| catalog_config_view(c)) == s3tables_catalogs_spec(volumes@.take(i as int)),
        decreases volumes@.len() - i,
    {
        proof {
            assert(volumes@.take(i as int + 1).drop_last() =~= volumes@.take(i as int));
        }
        let ghost prev = r@;
        let v = &volumes[i];
        match &v.volume {
            VolumeType::S3Tables { arn, region, credentials } => {
                let (k, s, t) = match credentials {
                    AwsCredentials::AccessKey { aws_access_key_id, aws_secret_access_key } => (
                        aws_access_key_id.clone(),
                        aws_secret_access_key.clone(),
                        None,
                    ),
                    AwsCredentials::Token(tok) => (String::new(), String::new(), Some(tok.clone())),
                };
                r.push(S3TablesCatalogConfig {
                    name: v.ident.clone(),
                    arn: arn.clone(),
                    region: region.clone(),
                    access_key_id: k,
                    secret_access_key: s,
                    session_token: t,
                });
                proof {
                    assert(r@.map_values(|c: S3TablesCatalogConfig| catalog_config_view(c)) =~= prev.map_values(
                        |c: S3TablesCatalogConfig| catalog_config_view(c),
                    ).push(catalog_config_view(r@.last())));
                }
            },
            _ => {},
        }
        i = i + 1;
    }
    proof {
        assert(volumes@.take(volumes@.len() as int) =~= volumes@);
    }
    r
}

impl Default for MetastoreBootstrapConfig {
    /// The configuration with nothing to create.
    fn default() -> (r: Self)
        ensures
            r.volumes@.len() == 0 && r.databases@.len() == 0 && r.schemas@.len() == 0 && r.tables@.len() == 0,
    {
        MetastoreBootstrapConfig { volumes: Vec::new(), databases: Vec::new(), schemas: Vec::new(), tables: Vec::new() }
    }
}

/// Where a server's metastore is bootstrapped from.
#[derive(Debug, Clone)]
pub enum MetastoreConfig {
    /// The configuration file at this path.
    ConfigPath(String),
    /// The default configuration, which creates nothing.
    DefaultConfig,
    /// No bootstrapping.
    Disabled,
}

impl MetastoreConfig {
    /// The configuration a metastore is bootstrapped with, given the configuration read from
    /// the file where there is one: the file's for a path, the default one, or none.
    pub fn bootstrap_config(&self, loaded: Option<MetastoreBootstrapConfig>) -> (r: Option<MetastoreBootstrapConfig>)
        ensures
            self is ConfigPath ==> r == loaded,
            self is DefaultConfig ==> (r matches Some(c) && c.volumes@.len() == 0 && c.databases@.len() == 0
                && c.schemas@.len() == 0 && c.tables@.len() == 0),
            self is Disabled ==> r is None,
    {
        match self {
            MetastoreConfig::ConfigPath(_) => loaded,
            MetastoreConfig::DefaultConfig => Some(MetastoreBootstrapConfig::default()),
            MetastoreConfig::Disabled => None,
        }
    }
}

} // verus!
