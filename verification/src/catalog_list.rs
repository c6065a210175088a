//! The list of catalogs of a session: the catalog a database's volume gives, how catalogs
//! are registered, listed, dropped and picked for a refresh, and the registry of object
//! stores by URL.
use vstd::prelude::*;
use crate::catalog::CatalogType;
use crate::metastore_config::VolumeType;
use crate::location::{url_parse_view, parse_url};
use crate::numtext::{nat_text, push_nat_text};
use crate::text::{push_char, str_eq};
use crate::assoc::{items_distinct, set_view, contains_item, insert_item};
use crate::caching::{CachingCatalog, NameCache, Properties};
use crate::catalog::CatalogListConfig;

verus! {

/// The kind of catalog a database created on a volume gets: an S3 table bucket gives an
/// S3 tables catalog, a memory volume a memory catalog, and S3 or file volumes an Embucket
/// catalog.
pub open spec fn created_catalog_type(v: VolumeType) -> CatalogType {
    match v {
        VolumeType::S3Tables { .. } => CatalogType::S3tables,
        VolumeType::Memory => CatalogType::Memory,
        _ => CatalogType::Embucket,
    }
}

/// The kind of catalog a new database gets from its volume.
pub fn catalog_type_for_new_database(v: &VolumeType) -> (r: CatalogType)
    ensures
        r == created_catalog_type(*v),
{
    match v {
        VolumeType::S3Tables { .. } => CatalogType::S3tables,
        VolumeType::Memory => CatalogType::Memory,
        _ => CatalogType::Embucket,
    }
}

/// The kind of catalog a database listed from the metastore gets: an S3 tables catalog on
/// an S3 table bucket, an Embucket catalog on any other volume.
pub fn catalog_type_for_listed_database(v: &VolumeType) -> (r: CatalogType)
    ensures
        r == (if v is S3Tables {
            CatalogType::S3tables
        } else {
            CatalogType::Embucket
        }),
{
    match v {
        VolumeType::S3Tables { .. } => CatalogType::S3tables,
        _ => CatalogType::Embucket,
    }
}

/// Why a catalog operation is refused.
#[derive(Debug, PartialEq, Eq)]
pub enum CatalogError {
    /// No cached catalog has the name.
    InvalidCache { entity: String, name: String },
    /// Dropping the catalog of an S3 table bucket is not supported.
    NotImplemented { details: String },
}

/// What dropping a catalog does: the database behind an Embucket or memory catalog is
/// deleted from the metastore; an unknown catalog, or that of an S3 table bucket, is
/// refused.
pub fn drop_catalog_action(name: &str, catalog_type: Option<CatalogType>) -> (r: Result<(), CatalogError>)
    ensures
        catalog_type is None ==> (r matches Err(CatalogError::InvalidCache { entity, name: n }) && entity@
            == "catalog"@ && n@ == name@),
        catalog_type == Some(CatalogType::S3tables) ==> (r matches Err(CatalogError::NotImplemented { details })
            && details@ == "Dropping S3 tables catalogs is not supported"@),
        (catalog_type == Some(CatalogType::Embucket) || catalog_type == Some(CatalogType::Memory)) ==> r is Ok,
{
    match catalog_type {
        None => Err(CatalogError::InvalidCache { entity: "catalog".to_string(), name: name.to_string() }),
        Some(CatalogType::S3tables) => Err(
            CatalogError::NotImplemented { details: "Dropping S3 tables catalogs is not supported".to_string() },
        ),
        Some(_) => Ok(()),
    }
}

/// The endpoint of the Iceberg REST catalog of an S3 table bucket: the volume's own
/// endpoint, or AWS's for the bucket's region.
pub open spec fn s3tables_base_path_spec(endpoint: Option<Seq<char>>, region: Seq<char>) -> Seq<char> {
    match endpoint {
        Some(e) => e,
        None => "https://s3tables."@ + region + ".amazonaws.com/iceberg"@,
    }
}

/// The endpoint of the Iceberg REST catalog of an S3 table bucket.
pub fn s3tables_base_path(endpoint: &Option<String>, region: &str) -> (r: String)
    ensures
        r@ == s3tables_base_path_spec(
            match endpoint {
                Some(e) => Some(e@),
                None => None,
            },
            region@,
        ),
{
    match endpoint {
        Some(e) => e.clone(),
        None => {
            let mut s = "https://s3tables.".to_string();
            s.append(region);
            s.append(".amazonaws.com/iceberg");
            s
        },
    }
}

/// The key an object store is registered under for a URL: its scheme, `://`, its host and
/// its port where it has one, without credentials or path.
pub open spec fn url_key_text(scheme: Seq<char>, host: Option<Seq<char>>, port: Option<u16>) -> Seq<char> {
    scheme + "://"@ + match host {
        Some(h) => h,
        None => Seq::empty(),
    } + match port {
        Some(p) => seq![':'] + nat_text(p as nat),
        None => Seq::empty(),
    }
}

/// The key an object store is registered under for a URL, or the URL's parse error.
pub fn get_url_key(url: &str) -> (r: Result<String, String>)
    ensures
        match url_parse_view(url@) {
            Ok(p) => r matches Ok(k) && k@ == url_key_text(p.2, p.0, p.3),
            Err(e) => r matches Err(t) && t@ == e,
        },
{
    match parse_url(url) {
        Ok((host, _path, scheme, port)) => {
            let mut k = scheme;
            k.append("://");
            match &host {
                Some(h) => k.append(h.as_str()),
                None => {},
            }
            match port {
                Some(p) => {
                    push_char(&mut k, ':');
                    push_nat_text(&mut k, p as u64);
                },
                None => {},
            }
            proof {
                reveal_strlit("://");
                assert(k@ =~= url_key_text(scheme@, match host {
                    Some(h) => Some(h@),
                    None => None,
                }, port));
            }
            Ok(k)
        },
        Err(e) => Err(e),
    }
}

/// Why a store cannot be found.
#[derive(Debug, PartialEq, Eq)]
pub enum StoreError {
    /// The URL does not parse.
    InvalidUrl(String),
    /// No store is registered for the URL's key.
    ObjectStoreNotFound { url: String },
}

/// Object stores registered by the key of their URL.
pub struct ObjectStoreRegistry<V> {
    entries: NameCache<V>,
}

impl<V> ObjectStoreRegistry<V> {
    /// The stores by key.
    pub closed spec fn stores(&self) -> Map<Seq<char>, V> {
        self.entries@
    }

    /// No key is registered twice.
    pub closed spec fn wf(&self) -> bool {
        self.entries.wf()
    }

    /// An empty registry.
    pub fn new() -> (r: ObjectStoreRegistry<V>)
        ensures
            r.wf(),
            r.stores() == Map::<Seq<char>, V>::empty(),
    {
        ObjectStoreRegistry { entries: NameCache::new() }
    }

    /// A registry holding one store, under the key given as it is.
    pub fn with_store(key: String, store: V) -> (r: ObjectStoreRegistry<V>)
        ensures
            r.wf(),
            r.stores() == Map::<Seq<char>, V>::empty().insert(key@, store),
    {
        let mut entries = NameCache::new();
        entries.insert(key, store);
        ObjectStoreRegistry { entries }
    }

    /// Registers a store under the key of a URL, giving back the store it replaces.
    pub fn register_store(&mut self, url: &str, store: V) -> (r: Result<Option<V>, StoreError>)
        requires
            old(self).wf(),
        ensures
            final(self).wf(),
            match url_parse_view(url@) {
                Ok(p) => {
                    let k = url_key_text(p.2, p.0, p.3);
                    &&& r matches Ok(prev) && (prev is Some <==> old(self).stores().contains_key(k))
                    &&& (r matches Ok(Some(v)) ==> v == old(self).stores()[k])
                    &&& final(self).stores() == old(self).stores().insert(k, store)
                },
                Err(e) => r matches Err(StoreError::InvalidUrl(t)) && t@ == e && final(self).stores() == old(
                    self,
                ).stores(),
            },
    {
        let key = match get_url_key(url) {
            Ok(k) => k,
            Err(e) => {
                return Err(StoreError::InvalidUrl(e));
            },
        };
        let ghost k = key@;
        let prev = self.entries.remove(key.as_str());
        self.entries.insert(key, store);
        assert(self.entries@ =~= old(self).entries@.insert(k, store));
        Ok(prev)
    }

    /// The store registered under the key of a URL.
    pub fn get_store(&self, url: &str) -> (r: Result<&V, StoreError>)
        requires
            self.wf(),
        ensures
            match url_parse_view(url@) {
                Ok(p) => {
                    let k = url_key_text(p.2, p.0, p.3);
                    &&& (r is Ok <==> self.stores().contains_key(k))
                    &&& (r matches Ok(v) ==> *v == self.stores()[k])
                    &&& (r matches Err(e) ==> e matches StoreError::ObjectStoreNotFound { url: u } && u@ == k)
                },
                Err(e) => r matches Err(StoreError::InvalidUrl(t)) && t@ == e,
            },
    {
        let key = match get_url_key(url) {
            Ok(k) => k,
            Err(e) => {
                return Err(StoreError::InvalidUrl(e));
            },
        };
        match self.entries.get(key.as_str()) {
            Some(v) => Ok(v),
            None => Err(StoreError::ObjectStoreNotFound { url: key }),
        }
    }
}

/// What a registry gives back of a registration: the store last registered under a
/// key is the one found under it, and the stores of other keys are untouched.
pub proof fn law_get_after_register<V>(before: Map<Seq<char>, V>, after: Map<Seq<char>, V>, key: Seq<char>, store: V, other: Seq<char>)
    requires
        after == before.insert(key, store),
    ensures
        after.contains_key(key),
        after[key] == store,
        other != key ==> (after.contains_key(other) == before.contains_key(other)),
        (other != key && before.contains_key(other)) ==> after[other] == before[other],
{
}


/// The name of the catalog a session starts in.
pub const DEFAULT_CATALOG: &'static str = "embucket";

/// The key the local file system's store is registered under.
pub const LOCAL_FILES_KEY: &'static str = "file://";

/// The catalog of a database of the metastore, given the volume it is on: an S3 tables
/// catalog for an S3 table bucket; otherwise an Embucket catalog, created and updated when
/// the database was created, and of the memory kind where a new database is made on a
/// memory volume. Either is backed by an Iceberg catalog and refreshed as the database says.
pub fn database_catalog<T: Copy>(
    name: String,
    volume: &VolumeType,
    should_refresh: bool,
    created_at: chrono::NaiveDateTime,
    newly_created: bool,
) -> (r: CachingCatalog<T>)
    ensures
        r.wf(),
        r.name == name,
        r.has_iceberg_catalog,
        r.should_refresh == should_refresh,
        r.enable_information_schema,
        r.schemas_cache@ == Map::<Seq<char>, crate::caching::CachingSchema<T>>::empty(),
        r.catalog_type == (if newly_created {
            created_catalog_type(*volume)
        } else if volume is S3Tables {
            CatalogType::S3tables
        } else {
            CatalogType::Embucket
        }),
        volume is S3Tables ==> r.properties is None,
        !(volume is S3Tables) ==> (r.properties matches Some(p) && p.created_at == created_at && p.updated_at
            == created_at),
{
    match volume {
        VolumeType::S3Tables { .. } => CachingCatalog::new(name, true).with_refresh(should_refresh).with_catalog_type(
            CatalogType::S3tables,
        ),
        _ => {
            let c = CachingCatalog::new(name, true).with_refresh(should_refresh).with_properties(
                Properties { created_at, updated_at: created_at },
            );
            if newly_created && matches!(volume, VolumeType::Memory) {
                c.with_catalog_type(CatalogType::Memory)
            } else {
                c
            }
        },
    }
}

/// The catalogs of a session by name, and the object stores its tables are read through.
pub struct EmbucketCatalogList<T, S> {
    pub table_object_store: ObjectStoreRegistry<S>,
    pub catalogs: NameCache<CachingCatalog<T>>,
    pub config: CatalogListConfig,
}

impl<T: Copy, S> EmbucketCatalogList<T, S> {
    /// The stores and catalogs are well formed, and each catalog is listed under its name.
    pub open spec fn wf(&self) -> bool {
        &&& self.table_object_store.wf()
        &&& self.catalogs.wf()
        &&& forall|k: Seq<char>| #[trigger] self.catalogs@.contains_key(k) ==> {
            &&& self.catalogs@[k].wf()
            &&& self.catalogs@[k].name@ == k
        }
    }

    /// A list with no catalog, whose only store is the local file system's.
    pub fn new(config: CatalogListConfig, local_files: S) -> (r: Self)
        ensures
            r.wf(),
            r.config == config,
            r.table_object_store.stores() == Map::<Seq<char>, S>::empty().insert(LOCAL_FILES_KEY@, local_files),
            r.catalogs@ == Map::<Seq<char>, CachingCatalog<T>>::empty(),
    {
        EmbucketCatalogList {
            table_object_store: ObjectStoreRegistry::with_store(LOCAL_FILES_KEY.to_string(), local_files),
            catalogs: NameCache::new(),
            config,
        }
    }

    /// Adds a catalog under its name, in place of one listed there.
    pub fn add_catalog(&mut self, catalog: CachingCatalog<T>)
        requires
            old(self).wf(),
            catalog.wf(),
        ensures
            final(self).wf(),
            final(self).catalogs@ == old(self).catalogs@.insert(catalog.name@, catalog),
            final(self).table_object_store == old(self).table_object_store,
            final(self).config == old(self).config,
    {
        let name = catalog.name.clone();
        self.catalogs.insert(name, catalog);
    }

    /// Registers a catalog that has no Iceberg catalog behind it under the name, giving
    /// back the catalog it replaces.
    pub fn register_catalog(&mut self, name: String) -> (r: Option<CachingCatalog<T>>)
        requires
            old(self).wf(),
        ensures
            final(self).wf(),
            r is Some <==> old(self).catalogs@.contains_key(name@),
            r matches Some(c) ==> c == old(self).catalogs@[name@],
            final(self).catalogs@.contains_key(name@),
            ({
                let c = final(self).catalogs@[name@];
                &&& c.name == name
                &&& !c.has_iceberg_catalog
                &&& c.catalog_type == CatalogType::Embucket
                &&& c.schemas_cache@ == Map::<Seq<char>, crate::caching::CachingSchema<T>>::empty()
            }),
            final(self).catalogs@.remove(name@) == old(self).catalogs@.remove(name@),
            final(self).table_object_store == old(self).table_object_store,
    {
        let prev = self.catalogs.remove(name.as_str());
        let ghost k = name@;
        let catalog = CachingCatalog::new(name.clone(), false);
        self.catalogs.insert(name, catalog);
        assert(self.catalogs@.remove(k) =~= old(self).catalogs@.remove(k));
        prev
    }

    /// The names of the catalogs, each once.
    pub fn catalog_names(&self) -> (r: Vec<String>)
        requires
            self.wf(),
        ensures
            items_distinct(r@),
            set_view(r@) == self.catalogs@.dom(),
    {
        self.catalogs.names()
    }

    /// The catalog listed under the name.
    pub fn catalog(&self, name: &str) -> (r: Option<&CachingCatalog<T>>)
        requires
            self.wf(),
        ensures
            r is Some <==> self.catalogs@.contains_key(name@),
            r matches Some(c) ==> *c == self.catalogs@[name@],
    {
        self.catalogs.get(name)
    }

    /// Drops the catalog of the name from the list and says whether its database is then
    /// deleted from the metastore: an unknown catalog, or that of an S3 table bucket, is
    /// refused (the latter after it left the list).
    pub fn drop_catalog(&mut self, name: &str) -> (r: Result<(), CatalogError>)
        requires
            old(self).wf(),
        ensures
            final(self).wf(),
            final(self).catalogs@ == old(self).catalogs@.remove(name@),
            !old(self).catalogs@.contains_key(name@) ==> (r matches Err(CatalogError::InvalidCache { entity, name: n })
                && entity@ == "catalog"@ && n@ == name@),
            old(self).catalogs@.contains_key(name@) && old(self).catalogs@[name@].catalog_type == CatalogType::S3tables
                ==> (r matches Err(CatalogError::NotImplemented { details }) && details@
                == "Dropping S3 tables catalogs is not supported"@),
            old(self).catalogs@.contains_key(name@) && old(self).catalogs@[name@].catalog_type != CatalogType::S3tables
                ==> r is Ok,
    {
        let removed = self.catalogs.remove(name);
        let kind = match &removed {
            Some(c) => Some(c.catalog_type),
            None => None,
        };
        drop_catalog_action(name, kind)
    }

    /// The names of the catalogs a refresh goes through: those marked to be refreshed.
    pub fn catalogs_to_refresh(&self) -> (r: Vec<String>)
        requires
            self.wf(),
        ensures
            items_distinct(r@),
            forall|k: Seq<char>| #[trigger] set_view(r@).contains(k) <==> self.catalogs@.contains_key(k)
                && self.catalogs@[k].should_refresh,
    {
        let names = self.catalogs.names();
        let mut r: Vec<String> = Vec::new();
        let mut i: usize = 0;
        while i < names.len()
            invariant
                i <= names@.len(),
                self.wf(),
                items_distinct(names@),
                set_view(names@) == self.catalogs@.dom(),
                items_distinct(r@),
                forall|k: Seq<char>| #[trigger] set_view(r@).contains(k) <==> (exists|j: int|
                    0 <= j < i && (#[trigger] names@[j])@ == k) && self.catalogs@.contains_key(k)
                    && self.catalogs@[k].should_refresh,
            decreases names@.len() - i,
        {
            let ghost before = r@;
            match self.catalogs.get(names[i].as_str()) {
                Some(c) => {
                    if c.should_refresh {
                        r.push(names[i].clone());
                        proof {
                            assert forall|a: int, b: int| 0 <= a < b < r@.len() implies (#[trigger] r@[a])@
                                != (#[trigger] r@[b])@ by {
                                if b == r@.len() - 1 {
                                    assert(r@[a] == before[a]);
                                    assert(set_view(before).contains(r@[a]@));
                                    let j = choose|j: int| 0 <= j < i && (#[trigger] names@[j])@ == r@[a]@;
                                    assert(names@[j]@ != names@[i as int]@);
                                } else {
                                    assert(r@[a] == before[a] && r@[b] == before[b]);
                                }
                            }
                        }
                    }
                },
                None => {},
            }
            proof {
                assert forall|k: Seq<char>| #[trigger] set_view(r@).contains(k) <==> (exists|j: int|
                    0 <= j < i + 1 && (#[trigger] names@[j])@ == k) && self.catalogs@.contains_key(k)
                    && self.catalogs@[k].should_refresh by {
                    if set_view(r@).contains(k) {
                        let a = choose|a: int| 0 <= a < r@.len() && (#[trigger] r@[a])@ == k;
                        if a < before.len() {
                            assert(before[a] == r@[a]);
                            assert(set_view(before).contains(k));
                        } else {
                            assert(names@[i as int]@ == k);
                        }
                    }
                    if (exists|j: int| 0 <= j < i + 1 && (#[trigger] names@[j])@ == k) && self.catalogs@.contains_key(k)
                        && self.catalogs@[k].should_refresh {
                        let j = choose|j: int| 0 <= j < i + 1 && (#[trigger] names@[j])@ == k;
                        if j == i {
                            assert(r@[r@.len() - 1]@ == k);
                        } else {
                            assert(set_view(before).contains(k));
                            let a = choose|a: int| 0 <= a < before.len() && (#[trigger] before[a])@ == k;
                            assert(r@[a] == before[a]);
                        }
                    }
                }
            }
            i = i + 1;
        }
        proof {
            assert forall|k: Seq<char>| #[trigger] set_view(r@).contains(k) <==> self.catalogs@.contains_key(k)
                && self.catalogs@[k].should_refresh by {
                if self.catalogs@.contains_key(k) {
                    assert(set_view(names@).contains(k));
                }
            }
        }
        r
    }
}

} // verus!
