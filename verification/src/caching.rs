//! The caches of schemas and tables that stand in front of a catalog's providers, and the
//! decisions of each catalog and schema operation: what is answered from the cache, what
//! the provider or the Iceberg catalog is asked, and how the cache changes.
use vstd::prelude::*;
use crate::assoc::{items_distinct, set_view};
use crate::catalog::CatalogType;
use crate::information_schema::TableType;
use crate::text::str_eq;

verus! {

/// No two entries have the same name.
pub open spec fn names_distinct<V>(v: Seq<(String, V)>) -> bool {
    forall|i: int, j: int| 0 <= i < j < v.len() ==> (#[trigger] v[i]).0@ != (#[trigger] v[j]).0@
}

/// Whether some entry has the given name.
pub open spec fn has_name<V>(v: Seq<(String, V)>, k: Seq<char>) -> bool {
    exists|i: int| 0 <= i < v.len() && (#[trigger] v[i]).0@ == k
}

/// The map from name to value that a list of entries stands for.
pub open spec fn entries_map<V>(v: Seq<(String, V)>) -> Map<Seq<char>, V> {
    Map::new(
        |k: Seq<char>| has_name(v, k),
        |k: Seq<char>| v[choose|i: int| 0 <= i < v.len() && (#[trigger] v[i]).0@ == k].1,
    )
}

/// In a list without repeated names, each entry is what the map gives for its name.
pub proof fn lemma_entries_map_at<V>(v: Seq<(String, V)>, i: int)
    requires
        names_distinct(v),
        0 <= i < v.len(),
    ensures
        entries_map(v).contains_key(v[i].0@),
        entries_map(v)[v[i].0@] == v[i].1,
{
    let k = v[i].0@;
    assert(has_name(v, k));
    let j = choose|j: int| 0 <= j < v.len() && (#[trigger] v[j]).0@ == k;
    if j != i {
        if j < i {
            assert(v[j].0@ != v[i].0@);
        } else {
            assert(v[i].0@ != v[j].0@);
        }
    }
}

/// Appending an entry with a new name adds that name to the map.
pub proof fn lemma_entries_map_push<V>(v: Seq<(String, V)>, e: (String, V))
    requires
        names_distinct(v),
        !has_name(v, e.0@),
    ensures
        names_distinct(v.push(e)),
        entries_map(v.push(e)) == entries_map(v).insert(e.0@, e.1),
{
    let w = v.push(e);
    assert forall|i: int, j: int| 0 <= i < j < w.len() implies (#[trigger] w[i]).0@ != (#[trigger] w[j]).0@ by {
        if j == v.len() {
            assert(w[i] == v[i]);
        } else {
            assert(w[i] == v[i] && w[j] == v[j]);
        }
    }
    assert forall|k: Seq<char>| #[trigger] entries_map(w).contains_key(k) == entries_map(v).insert(e.0@, e.1).contains_key(k) by {
        if has_name(v, k) {
            let i = choose|i: int| 0 <= i < v.len() && (#[trigger] v[i]).0@ == k;
            assert(w[i] == v[i]);
        }
        if k == e.0@ {
            assert(w[v.len() as int] == e);
        }
        if has_name(w, k) {
            let i = choose|i: int| 0 <= i < w.len() && (#[trigger] w[i]).0@ == k;
            if i < v.len() {
                assert(w[i] == v[i]);
            }
        }
    }
    assert forall|k: Seq<char>| #[trigger] entries_map(w).contains_key(k) implies entries_map(w)[k] == entries_map(v).insert(e.0@, e.1)[k] by {
        let i = choose|i: int| 0 <= i < w.len() && (#[trigger] w[i]).0@ == k;
        lemma_entries_map_at(w, i);
        if i < v.len() {
            assert(w[i] == v[i]);
            lemma_entries_map_at(v, i);
        }
    }
    assert(entries_map(w) =~= entries_map(v).insert(e.0@, e.1));
}

/// Removing an entry removes its name from the map.
pub proof fn lemma_entries_map_remove<V>(v: Seq<(String, V)>, i: int)
    requires
        names_distinct(v),
        0 <= i < v.len(),
    ensures
        names_distinct(v.remove(i)),
        entries_map(v.remove(i)) == entries_map(v).remove(v[i].0@),
{
    let w = v.remove(i);
    let k0 = v[i].0@;
    assert forall|a: int, b: int| 0 <= a < b < w.len() implies (#[trigger] w[a]).0@ != (#[trigger] w[b]).0@ by {
        let a2 = if a < i { a } else { a + 1 };
        let b2 = if b < i { b } else { b + 1 };
        assert(w[a] == v[a2] && w[b] == v[b2]);
        assert(v[a2].0@ != v[b2].0@);
    }
    assert forall|k: Seq<char>| #[trigger] entries_map(w).contains_key(k) == entries_map(v).remove(k0).contains_key(k) by {
        if has_name(v, k) && k != k0 {
            let j = choose|j: int| 0 <= j < v.len() && (#[trigger] v[j]).0@ == k;
            if j < i {
                assert(w[j] == v[j]);
            } else {
                assert(j != i);
                assert(w[j - 1] == v[j]);
            }
        }
        if has_name(w, k) {
            let j = choose|j: int| 0 <= j < w.len() && (#[trigger] w[j]).0@ == k;
            let j2 = if j < i { j } else { j + 1 };
            assert(w[j] == v[j2]);
            assert(v[j2].0@ != v[i].0@);
        }
    }
    assert forall|k: Seq<char>| #[trigger] entries_map(w).contains_key(k) implies entries_map(w)[k] == entries_map(v).remove(k0)[k] by {
        let j = choose|j: int| 0 <= j < w.len() && (#[trigger] w[j]).0@ == k;
        let j2 = if j < i { j } else { j + 1 };
        assert(w[j] == v[j2]);
        lemma_entries_map_at(w, j);
        lemma_entries_map_at(v, j2);
    }
    assert(entries_map(w) =~= entries_map(v).remove(k0));
}

/// Values cached by name, at most one per name.
pub struct NameCache<V> {
    entries: Vec<(String, V)>,
}

impl<V> View for NameCache<V> {
    type V = Map<Seq<char>, V>;

    closed spec fn view(&self) -> Map<Seq<char>, V> {
        entries_map(self.entries@)
    }
}

impl<V> NameCache<V> {
    /// The cache holds at most one entry per name, and finitely many.
    pub closed spec fn wf(&self) -> bool {
        names_distinct(self.entries@)
    }

    /// An empty cache.
    pub fn new() -> (r: Self)
        ensures
            r.wf(),
            r@ == Map::<Seq<char>, V>::empty(),
    {
        let r = NameCache { entries: Vec::new() };
        assert(r@ =~= Map::<Seq<char>, V>::empty());
        r
    }

    fn position(&self, name: &str) -> (r: Option<usize>)
        ensures
            match r {
                Some(i) => i < self.entries@.len() && self.entries@[i as int].0@ == name@,
                None => !has_name(self.entries@, name@),
            },
    {
        let mut i: usize = 0;
        while i < self.entries.len()
            invariant
                i <= self.entries@.len(),
                forall|j: int| 0 <= j < i ==> (#[trigger] self.entries@[j]).0@ != name@,
            decreases self.entries@.len() - i,
        {
            if str_eq(self.entries[i].0.as_str(), name) {
                return Some(i);
            }
            i = i + 1;
        }
        None
    }

    /// Whether a value is cached under the name.
    pub fn contains_key(&self, name: &str) -> (r: bool)
        ensures
            r == self@.contains_key(name@),
    {
        self.position(name).is_some()
    }

    /// The value cached under the name.
    pub fn get(&self, name: &str) -> (r: Option<&V>)
        requires
            self.wf(),
        ensures
            r is Some <==> self@.contains_key(name@),
            r matches Some(v) ==> *v == self@[name@],
    {
        match self.position(name) {
            Some(i) => {
                proof {
                    lemma_entries_map_at(self.entries@, i as int);
                }
                Some(&self.entries[i].1)
            },
            None => None,
        }
    }

    /// Caches the value under the name, in place of what was cached there.
    pub fn insert(&mut self, name: String, value: V)
        requires
            old(self).wf(),
        ensures
            final(self).wf(),
            final(self)@ == old(self)@.insert(name@, value),
    {
        match self.position(name.as_str()) {
            Some(i) => {
                proof {
                    lemma_entries_map_remove(self.entries@, i as int);
                }
                let _ = self.entries.remove(i);
                assert(!has_name(self.entries@, name@));
                proof {
                    lemma_entries_map_push(self.entries@, (name, value));
                }
                self.entries.push((name, value));
            },
            None => {
                proof {
                    lemma_entries_map_push(self.entries@, (name, value));
                }
                self.entries.push((name, value));
            },
        }
    }

    /// Removes what is cached under the name and gives it back.
    pub fn remove(&mut self, name: &str) -> (r: Option<V>)
        requires
            old(self).wf(),
        ensures
            final(self).wf(),
            final(self)@ == old(self)@.remove(name@),
            r is Some <==> old(self)@.contains_key(name@),
            r matches Some(v) ==> v == old(self)@[name@],
    {
        match self.position(name) {
            Some(i) => {
                proof {
                    lemma_entries_map_at(self.entries@, i as int);
                    lemma_entries_map_remove(self.entries@, i as int);
                }
                let (_n, v) = self.entries.remove(i);
                Some(v)
            },
            None => {
                assert(self@ =~= self@.remove(name@));
                None
            },
        }
    }

    /// The names something is cached under, each once.
    pub fn names(&self) -> (r: Vec<String>)
        requires
            self.wf(),
        ensures
            items_distinct(r@),
            set_view(r@) == self@.dom(),
    {
        let mut r: Vec<String> = Vec::new();
        let mut i: usize = 0;
        while i < self.entries.len()
            invariant
                i <= self.entries@.len(),
                self.wf(),
                r@.len() == i,
                forall|j: int| 0 <= j < i ==> (#[trigger] r@[j])@ == self.entries@[j].0@,
            decreases self.entries@.len() - i,
        {
            r.push(self.entries[i].0.clone());
            i = i + 1;
        }
        assert forall|a: int, b: int| 0 <= a < b < r@.len() implies (#[trigger] r@[a])@ != (#[trigger] r@[b])@ by {
            assert(self.entries@[a].0@ != self.entries@[b].0@);
        }
        assert forall|s: Seq<char>| set_view(r@).contains(s) <==> self@.dom().contains(s) by {
            if set_view(r@).contains(s) {
                let j = choose|j: int| 0 <= j < r@.len() && (#[trigger] r@[j])@ == s;
                assert(self.entries@[j].0@ == s);
            }
            if self@.dom().contains(s) {
                let j = choose|j: int| 0 <= j < self.entries@.len() && (#[trigger] self.entries@[j]).0@ == s;
                assert(r@[j]@ == s);
            }
        }
        assert(set_view(r@) =~= self@.dom());
        r
    }

    /// Keeps only what is cached under the given names.
    pub fn retain_names(&mut self, keep: &Vec<String>)
        requires
            old(self).wf(),
        ensures
            final(self).wf(),
            final(self)@ == old(self)@.restrict(set_view(keep@)),
    {
        let ghost start = self@;
        let mut drop: Vec<String> = Vec::new();
        let mut i: usize = 0;
        while i < self.entries.len()
            invariant
                i <= self.entries@.len(),
                self.wf(),
                self@ == start,
                forall|s: Seq<char>|
                    set_view(drop@).contains(s) <==> (exists|j: int|
                        0 <= j < i && (#[trigger] self.entries@[j]).0@ == s) && !set_view(keep@).contains(s),
            decreases self.entries@.len() - i,
        {
            let name = &self.entries[i].0;
            if !crate::assoc::contains_item(keep, name.as_str()) {
                let ghost before = drop@;
                drop.push(name.clone());
                proof {
                    assert forall|s: Seq<char>| set_view(drop@).contains(s) <==> (exists|j: int|
                        0 <= j < i + 1 && (#[trigger] self.entries@[j]).0@ == s) && !set_view(keep@).contains(s) by {
                        if set_view(drop@).contains(s) {
                            let k = choose|k: int| 0 <= k < drop@.len() && (#[trigger] drop@[k])@ == s;
                            if k < before.len() {
                                assert(before[k] == drop@[k]);
                                assert(set_view(before).contains(s));
                            } else {
                                assert(self.entries@[i as int].0@ == s);
                            }
                        }
                        if (exists|j: int| 0 <= j < i + 1 && (#[trigger] self.entries@[j]).0@ == s)
                            && !set_view(keep@).contains(s) {
                            let j = choose|j: int| 0 <= j < i + 1 && (#[trigger] self.entries@[j]).0@ == s;
                            if j == i {
                                assert(drop@[before.len() as int]@ == s);
                            } else {
                                assert(set_view(before).contains(s));
                                let k = choose|k: int| 0 <= k < before.len() && (#[trigger] before[k])@ == s;
                                assert(drop@[k] == before[k]);
                            }
                        }
                    }
                }
            } else {
                proof {
                    assert forall|s: Seq<char>| set_view(drop@).contains(s) <==> (exists|j: int|
                        0 <= j < i + 1 && (#[trigger] self.entries@[j]).0@ == s) && !set_view(keep@).contains(s) by {
                        if (exists|j: int| 0 <= j < i + 1 && (#[trigger] self.entries@[j]).0@ == s)
                            && !set_view(keep@).contains(s) {
                            let j = choose|j: int| 0 <= j < i + 1 && (#[trigger] self.entries@[j]).0@ == s;
                            assert(j != i);
                        }
                    }
                }
            }
            i = i + 1;
        }
        proof {
            assert forall|s: Seq<char>|
                set_view(drop@).contains(s) <==> start.contains_key(s) && !set_view(keep@).contains(s) by {
                if start.contains_key(s) {
                    assert(has_name(self.entries@, s));
                }
            }
            assert forall|s: Seq<char>| #[trigger]
                self@.contains_key(s) <==> start.contains_key(s) && !(exists|j: int|
                    0 <= j < 0 && (#[trigger] drop@[j])@ == s) by {}
        }
        let mut k: usize = 0;
        while k < drop.len()
            invariant
                k <= drop@.len(),
                self.wf(),
                forall|s: Seq<char>|
                    set_view(drop@).contains(s) <==> start.contains_key(s) && !set_view(keep@).contains(s),
                forall|s: Seq<char>| #[trigger]
                    self@.contains_key(s) <==> start.contains_key(s) && !(exists|j: int|
                        0 <= j < k && (#[trigger] drop@[j])@ == s),
                forall|s: Seq<char>| #[trigger] self@.contains_key(s) ==> self@[s] == start[s],
            decreases drop@.len() - k,
        {
            let _ = self.remove(drop[k].as_str());
            proof {
                assert forall|s: Seq<char>| #[trigger]
                    self@.contains_key(s) <==> start.contains_key(s) && !(exists|j: int|
                        0 <= j < k + 1 && (#[trigger] drop@[j])@ == s) by {
                    if exists|j: int| 0 <= j < k + 1 && (#[trigger] drop@[j])@ == s {
                        let j = choose|j: int| 0 <= j < k + 1 && (#[trigger] drop@[j])@ == s;
                        if j < k {
                            assert(exists|j2: int| 0 <= j2 < k && (#[trigger] drop@[j2])@ == s);
                        }
                    }
                    if s == drop@[k as int]@ {
                        assert(exists|j: int| 0 <= j < k + 1 && (#[trigger] drop@[j])@ == s);
                    }
                }
            }
            k = k + 1;
        }
        proof {
            let target = start.restrict(set_view(keep@));
            assert forall|s: Seq<char>| #[trigger] self@.contains_key(s) <==> target.contains_key(s) by {
                if exists|j: int| 0 <= j < drop@.len() && (#[trigger] drop@[j])@ == s {
                    assert(set_view(drop@).contains(s));
                }
                if start.contains_key(s) && !set_view(keep@).contains(s) {
                    assert(set_view(drop@).contains(s));
                    let j = choose|j: int| 0 <= j < drop@.len() && (#[trigger] drop@[j])@ == s;
                    assert(exists|j2: int| 0 <= j2 < drop@.len() && (#[trigger] drop@[j2])@ == s);
                }
            }
            assert(self@ =~= target);
        }
    }
}


/// A table as a schema's cache holds it: its name, the provider's table, and the type the
/// provider reports for it.
pub struct CachingTable<T> {
    pub name: String,
    pub table: T,
    pub table_type: TableType,
}

impl<T: Copy> CachingTable<T> {
    /// The cached form of a provider's table.
    pub fn new(name: String, table: T, table_type: TableType) -> (r: Self)
        ensures
            r.name == name,
            r.table == table,
            r.table_type == table_type,
    {
        CachingTable { name, table, table_type }
    }
}

/// Whether the cache holds, under the name, the table with that name, handle and type.
pub open spec fn holds_table<T>(cache: Map<Seq<char>, CachingTable<T>>, name: Seq<char>, table: T, table_type: TableType) -> bool {
    &&& cache.contains_key(name)
    &&& cache[name].name@ == name
    &&& cache[name].table == table
    &&& cache[name].table_type == table_type
}

/// The table cached under a name, if any.
pub open spec fn cached_table_of<T>(cache: Map<Seq<char>, CachingTable<T>>, name: Seq<char>) -> Option<T> {
    if cache.contains_key(name) {
        Some(cache[name].table)
    } else {
        None
    }
}

/// Where the names of a schema's tables come from.
#[derive(Debug)]
pub enum TableNamesSource {
    /// The tables the Iceberg catalog lists in the namespace of this name.
    IcebergNamespace(String),
    /// The names the schema's provider gives.
    Provider,
}

/// How a table is looked up.
#[derive(Debug)]
pub enum TableLookup<T> {
    /// The cache holds it.
    Cached(T),
    /// The schema's provider is asked; a table it finds is cached.
    AskProvider,
}

/// Where a registered table goes.
#[derive(Debug, PartialEq, Eq)]
pub enum RegisterTarget {
    /// An Iceberg table builder builds the table in the schema's Iceberg namespace.
    BuildInIceberg,
    /// A view is cached as given.
    KeepAsGiven,
    /// The schema's provider registers the table.
    RegisterWithProvider,
}

/// What deregistering a table takes, once it is out of the cache.
#[derive(Debug)]
pub enum DeregisterTable<T> {
    /// Nothing was cached under the name: nothing is deregistered.
    NotCached,
    /// A view was cached: dropping it from the cache is all.
    Dropped(T),
    /// The table is dropped from the Iceberg namespace, then given back.
    DropInIceberg(T),
    /// The schema's provider deregisters the table.
    DeregisterWithProvider,
}

/// How a table's existence is decided.
#[derive(Debug, PartialEq, Eq)]
pub enum ExistCheck {
    /// The cache holds it: it exists.
    Cached,
    /// The Iceberg catalog is asked.
    AskIceberg,
    /// The schema's provider is asked.
    AskProvider,
}

/// A schema whose tables are cached in front of its provider.
pub struct CachingSchema<T> {
    pub name: String,
    /// The schema's catalog is an Iceberg catalog.
    pub has_iceberg_catalog: bool,
    pub tables_cache: NameCache<CachingTable<T>>,
}

impl<T: Copy> CachingSchema<T> {
    /// The cache is well formed and each table is cached under its own name.
    pub open spec fn wf(&self) -> bool {
        &&& self.tables_cache.wf()
        &&& forall|k: Seq<char>| #[trigger] self.tables_cache@.contains_key(k) ==> self.tables_cache@[k].name@ == k
    }

    /// A schema with nothing cached yet.
    pub fn new(name: String, has_iceberg_catalog: bool) -> (r: Self)
        ensures
            r.wf(),
            r.name == name,
            r.has_iceberg_catalog == has_iceberg_catalog,
            r.tables_cache@ == Map::<Seq<char>, CachingTable<T>>::empty(),
    {
        CachingSchema { name, has_iceberg_catalog, tables_cache: NameCache::new() }
    }

    /// A schema whose cache holds the given tables, the last of a name winning, as a
    /// refresh that fetched them from the provider makes it.
    pub fn with_tables(name: String, has_iceberg_catalog: bool, tables: &Vec<(String, T, TableType)>) -> (r: Self)
        ensures
            r.wf(),
            r.name == name,
            r.has_iceberg_catalog == has_iceberg_catalog,
            caches_tables(r.tables_cache@, tables@),
    {
        let mut r = CachingSchema::new(name, has_iceberg_catalog);
        let mut i: usize = 0;
        while i < tables.len()
            invariant
                i <= tables@.len(),
                r.wf(),
                r.name == name,
                r.has_iceberg_catalog == has_iceberg_catalog,
                caches_tables(r.tables_cache@, tables@.take(i as int)),
            decreases tables@.len() - i,
        {
            let n = tables[i].0.clone();
            let t = tables[i].1;
            let ty = tables[i].2;
            let ghost before = r.tables_cache@;
            r.tables_cache.insert(n.clone(), CachingTable::new(n, t, ty));
            proof {
                let ts = tables@.take(i + 1);
                assert(ts.drop_last() =~= tables@.take(i as int));
                assert(ts.last() == tables@[i as int]);
            }
            i = i + 1;
        }
        assert(tables@.take(tables@.len() as int) =~= tables@);
        r
    }

    /// Where the names of the schema's tables come from: the Iceberg namespace of the
    /// schema's name where the catalog is an Iceberg catalog, else the provider.
    pub fn table_names_source(&self) -> (r: TableNamesSource)
        ensures
            self.has_iceberg_catalog ==> (r matches TableNamesSource::IcebergNamespace(n) && n@ == self.name@),
            !self.has_iceberg_catalog ==> r is Provider,
    {
        if self.has_iceberg_catalog {
            TableNamesSource::IcebergNamespace(self.name.clone())
        } else {
            TableNamesSource::Provider
        }
    }

    /// The table names from an Iceberg listing: none where the listing failed.
    pub fn listed_table_names<E>(listing: Result<Vec<String>, E>) -> (r: Vec<String>)
        ensures
            match listing {
                Ok(names) => r@ == names@,
                Err(_) => r@.len() == 0,
            },
    {
        match listing {
            Ok(names) => names,
            Err(_) => Vec::new(),
        }
    }

    /// How the table of a name is looked up: from the cache where it holds one.
    pub fn table_lookup(&self, name: &str) -> (r: TableLookup<T>)
        requires
            self.wf(),
        ensures
            match cached_table_of(self.tables_cache@, name@) {
                Some(t) => r matches TableLookup::Cached(c) && c == t,
                None => r is AskProvider,
            },
    {
        match self.tables_cache.get(name) {
            Some(c) => TableLookup::Cached(c.table),
            None => TableLookup::AskProvider,
        }
    }

    /// Takes the provider's answer to a lookup: a table it found is cached under the name
    /// and given back; nothing changes where it found none.
    pub fn on_provider_table(&mut self, name: &str, found: Option<(T, TableType)>) -> (r: Option<T>)
        requires
            old(self).wf(),
        ensures
            final(self).wf(),
            final(self).name == old(self).name,
            final(self).has_iceberg_catalog == old(self).has_iceberg_catalog,
            match found {
                Some((t, ty)) => r == Some(t) && holds_table(final(self).tables_cache@, name@, t, ty)
                    && final(self).tables_cache@.remove(name@) == old(self).tables_cache@.remove(name@),
                None => r is None && final(self).tables_cache@ == old(self).tables_cache@,
            },
    {
        match found {
            Some((t, ty)) => {
                let n = name.to_string();
                self.tables_cache.insert(n.clone(), CachingTable::new(n, t, ty));
                assert(self.tables_cache@.remove(name@) =~= old(self).tables_cache@.remove(name@));
                Some(t)
            },
            None => None,
        }
    }

    /// Where a table being registered goes: an Iceberg table builder builds it in the
    /// Iceberg namespace where the catalog is an Iceberg catalog; else a view is kept as
    /// given; else the provider registers it.
    pub fn register_target(&self, is_iceberg_builder: bool, table_type: TableType) -> (r: RegisterTarget)
        ensures
            r == (if self.has_iceberg_catalog && is_iceberg_builder {
                RegisterTarget::BuildInIceberg
            } else if table_type == TableType::View {
                RegisterTarget::KeepAsGiven
            } else {
                RegisterTarget::RegisterWithProvider
            }),
    {
        if self.has_iceberg_catalog && is_iceberg_builder {
            RegisterTarget::BuildInIceberg
        } else if matches!(table_type, TableType::View) {
            RegisterTarget::KeepAsGiven
        } else {
            RegisterTarget::RegisterWithProvider
        }
    }

    /// Takes the outcome of registering a table: the table is cached under its name and
    /// given back; a failure leaves the cache as it was and is given back.
    pub fn on_registered<E>(&mut self, name: String, outcome: Result<(T, TableType), E>) -> (r: Result<T, E>)
        requires
            old(self).wf(),
        ensures
            final(self).wf(),
            final(self).name == old(self).name,
            final(self).has_iceberg_catalog == old(self).has_iceberg_catalog,
            match outcome {
                Ok((t, ty)) => r == Ok::<T, E>(t) && holds_table(final(self).tables_cache@, name@, t, ty)
                    && final(self).tables_cache@.remove(name@) == old(self).tables_cache@.remove(name@),
                Err(e) => r == Err::<T, E>(e) && final(self).tables_cache@ == old(self).tables_cache@,
            },
    {
        match outcome {
            Ok((t, ty)) => {
                let ghost key = name@;
                self.tables_cache.insert(name.clone(), CachingTable::new(name, t, ty));
                assert(self.tables_cache@.remove(key) =~= old(self).tables_cache@.remove(key));
                Ok(t)
            },
            Err(e) => Err(e),
        }
    }

    /// Drops a table from the cache and says what deregistering it takes: nothing where
    /// nothing was cached, nothing more for a view, else dropping it from the Iceberg
    /// namespace where the catalog is an Iceberg catalog, or the provider's deregistering.
    pub fn deregister_table(&mut self, name: &str) -> (r: DeregisterTable<T>)
        requires
            old(self).wf(),
        ensures
            final(self).wf(),
            final(self).name == old(self).name,
            final(self).has_iceberg_catalog == old(self).has_iceberg_catalog,
            final(self).tables_cache@ == old(self).tables_cache@.remove(name@),
            !old(self).tables_cache@.contains_key(name@) ==> r is NotCached,
            old(self).tables_cache@.contains_key(name@) ==> ({
                let c = old(self).tables_cache@[name@];
                if c.table_type == TableType::View {
                    r matches DeregisterTable::Dropped(t) && t == c.table
                } else if old(self).has_iceberg_catalog {
                    r matches DeregisterTable::DropInIceberg(t) && t == c.table
                } else {
                    r is DeregisterWithProvider
                }
            }),
    {
        match self.tables_cache.remove(name) {
            None => DeregisterTable::NotCached,
            Some(c) => {
                if matches!(c.table_type, TableType::View) {
                    DeregisterTable::Dropped(c.table)
                } else if self.has_iceberg_catalog {
                    DeregisterTable::DropInIceberg(c.table)
                } else {
                    DeregisterTable::DeregisterWithProvider
                }
            },
        }
    }

    /// How a table's existence is decided: a cached table exists; else the Iceberg
    /// catalog is asked where there is one, and the provider otherwise.
    pub fn exist_check(&self, name: &str) -> (r: ExistCheck)
        ensures
            r == (if self.tables_cache@.contains_key(name@) {
                ExistCheck::Cached
            } else if self.has_iceberg_catalog {
                ExistCheck::AskIceberg
            } else {
                ExistCheck::AskProvider
            }),
    {
        if self.tables_cache.contains_key(name) {
            ExistCheck::Cached
        } else if self.has_iceberg_catalog {
            ExistCheck::AskIceberg
        } else {
            ExistCheck::AskProvider
        }
    }

    /// The Iceberg catalog's answer to whether a table exists: a failure counts as missing.
    pub fn exists_in_iceberg<E>(answer: Result<bool, E>) -> (r: bool)
        ensures
            r == (answer matches Ok(b) && b),
    {
        match answer {
            Ok(b) => b,
            Err(_) => false,
        }
    }
}


/// The date and time of chrono, without a time zone.
#[verifier::external_type_specification]
#[verifier::external_body]
pub struct ExNaiveDateTime(chrono::NaiveDateTime);

/// The current UTC date and time: chrono's `Utc::now().naive_utc()`. Nothing is stated of
/// the value, which is the system clock's.
#[verifier::external_body]
fn utc_now_naive() -> chrono::NaiveDateTime {
    chrono::Utc::now().naive_utc()
}

/// When a catalog was created and last updated.
#[derive(Clone, Copy, Debug)]
pub struct Properties {
    pub created_at: chrono::NaiveDateTime,
    pub updated_at: chrono::NaiveDateTime,
}

impl Default for Properties {
    /// Created and updated now.
    fn default() -> (r: Self)
        ensures
            r.created_at == r.updated_at,
    {
        let now = utc_now_naive();
        Properties { created_at: now, updated_at: now }
    }
}

/// What deregistering a schema takes, once it is out of the cache.
#[derive(Debug, PartialEq, Eq)]
pub enum DeregisterSchema {
    /// The namespace of the schema's name is dropped from the Iceberg catalog; where that
    /// succeeds, the provider deregisters the schema.
    DropNamespaceThenProvider,
    /// The provider deregisters the schema.
    Provider,
}

/// The names, in order, that a set does not hold.
pub open spec fn names_missing(dom: Set<Seq<char>>, names: Seq<Seq<char>>) -> Seq<Seq<char>>
    decreases names.len(),
{
    if names.len() == 0 {
        Seq::empty()
    } else {
        let rest = names_missing(dom, names.drop_last());
        if dom.contains(names.last()) {
            rest
        } else {
            rest.push(names.last())
        }
    }
}

/// Whether a cached schema is one just made for the catalog: under its own name, with the
/// catalog's Iceberg catalog, and no table cached.
pub open spec fn fresh_schema<T>(s: CachingSchema<T>, name: Seq<char>, has_iceberg_catalog: bool) -> bool {
    &&& s.name@ == name
    &&& s.has_iceberg_catalog == has_iceberg_catalog
    &&& s.tables_cache@ == Map::<Seq<char>, CachingTable<T>>::empty()
}

/// A catalog whose schemas are cached in front of its provider.
pub struct CachingCatalog<T> {
    /// The catalog is backed by an Iceberg catalog.
    pub has_iceberg_catalog: bool,
    pub catalog_type: CatalogType,
    pub schemas_cache: NameCache<CachingSchema<T>>,
    pub should_refresh: bool,
    pub name: String,
    pub enable_information_schema: bool,
    pub properties: Option<Properties>,
}

impl<T: Copy> CachingCatalog<T> {
    /// The cache is well formed, and each cached schema is well formed, cached under its
    /// own name, and shares the catalog's Iceberg catalog.
    pub open spec fn wf(&self) -> bool {
        &&& self.schemas_cache.wf()
        &&& forall|k: Seq<char>| #[trigger] self.schemas_cache@.contains_key(k) ==> {
            &&& self.schemas_cache@[k].wf()
            &&& self.schemas_cache@[k].name@ == k
            &&& self.schemas_cache@[k].has_iceberg_catalog == self.has_iceberg_catalog
        }
    }

    /// A catalog of the embucket kind with nothing cached, not refreshed, with an
    /// information schema and no properties.
    pub fn new(name: String, has_iceberg_catalog: bool) -> (r: Self)
        ensures
            r.wf(),
            r.name == name,
            r.has_iceberg_catalog == has_iceberg_catalog,
            r.catalog_type == CatalogType::Embucket,
            r.schemas_cache@ == Map::<Seq<char>, CachingSchema<T>>::empty(),
            !r.should_refresh,
            r.enable_information_schema,
            r.properties is None,
    {
        CachingCatalog {
            has_iceberg_catalog,
            catalog_type: CatalogType::Embucket,
            schemas_cache: NameCache::new(),
            should_refresh: false,
            name,
            enable_information_schema: true,
            properties: None,
        }
    }

    /// The same catalog, refreshed or not.
    pub fn with_refresh(self, refresh: bool) -> (r: Self)
        ensures
            r == (CachingCatalog { should_refresh: refresh, ..self }),
    {
        CachingCatalog { should_refresh: refresh, ..self }
    }

    /// The same catalog, with an information schema or not.
    pub fn with_information_schema(self, enable_information_schema: bool) -> (r: Self)
        ensures
            r == (CachingCatalog { enable_information_schema, ..self }),
    {
        CachingCatalog { enable_information_schema, ..self }
    }

    /// The same catalog, of another kind.
    pub fn with_catalog_type(self, catalog_type: CatalogType) -> (r: Self)
        ensures
            r == (CachingCatalog { catalog_type, ..self }),
    {
        CachingCatalog { catalog_type, ..self }
    }

    /// The same catalog, with these properties.
    pub fn with_properties(self, properties: Properties) -> (r: Self)
        ensures
            r == (CachingCatalog { properties: Some(properties), ..self }),
    {
        CachingCatalog { properties: Some(properties), ..self }
    }

    /// The schema cached under a name.
    pub fn cached_schema(&self, name: &str) -> (r: Option<&CachingSchema<T>>)
        requires
            self.wf(),
        ensures
            r is Some <==> self.schemas_cache@.contains_key(name@),
            r matches Some(s) ==> *s == self.schemas_cache@[name@],
    {
        self.schemas_cache.get(name)
    }

    /// Caches a fresh schema under the name, in place of one cached there.
    fn cache_fresh_schema(&mut self, name: &str)
        requires
            old(self).wf(),
        ensures
            final(self).wf(),
            final(self).has_iceberg_catalog == old(self).has_iceberg_catalog,
            final(self).name == old(self).name,
            final(self).schemas_cache@.contains_key(name@),
            fresh_schema(final(self).schemas_cache@[name@], name@, old(self).has_iceberg_catalog),
            final(self).schemas_cache@.remove(name@) == old(self).schemas_cache@.remove(name@),
    {
        let n = name.to_string();
        let schema = CachingSchema::new(n.clone(), self.has_iceberg_catalog);
        self.schemas_cache.insert(n, schema);
        assert(self.schemas_cache@.remove(name@) =~= old(self).schemas_cache@.remove(name@));
    }

    /// Takes the provider's answer to a schema lookup that missed the cache: a schema it
    /// found is cached fresh under the name; nothing changes where it found none.
    pub fn on_provider_schema(&mut self, name: &str, found: bool)
        requires
            old(self).wf(),
        ensures
            final(self).wf(),
            final(self).has_iceberg_catalog == old(self).has_iceberg_catalog,
            final(self).name == old(self).name,
            found ==> final(self).schemas_cache@.contains_key(name@) && fresh_schema(
                final(self).schemas_cache@[name@],
                name@,
                old(self).has_iceberg_catalog,
            ) && final(self).schemas_cache@.remove(name@) == old(self).schemas_cache@.remove(name@),
            !found ==> final(self).schemas_cache@ == old(self).schemas_cache@,
    {
        if found {
            self.cache_fresh_schema(name);
        }
    }

    /// Registers a schema: a fresh schema is cached under the name, in place of one cached
    /// there, before the provider registers it.
    pub fn register_schema(&mut self, name: &str)
        requires
            old(self).wf(),
        ensures
            final(self).wf(),
            final(self).has_iceberg_catalog == old(self).has_iceberg_catalog,
            final(self).name == old(self).name,
            final(self).schemas_cache@.contains_key(name@),
            fresh_schema(final(self).schemas_cache@[name@], name@, old(self).has_iceberg_catalog),
            final(self).schemas_cache@.remove(name@) == old(self).schemas_cache@.remove(name@),
    {
        self.cache_fresh_schema(name);
    }

    /// Caches, under the name, a schema holding the tables a refresh fetched for it, in
    /// place of the schema cached there.
    pub fn cache_refreshed_schema(&mut self, name: &str, tables: &Vec<(String, T, TableType)>)
        requires
            old(self).wf(),
        ensures
            final(self).wf(),
            final(self).has_iceberg_catalog == old(self).has_iceberg_catalog,
            final(self).name == old(self).name,
            final(self).should_refresh == old(self).should_refresh,
            final(self).schemas_cache@.contains_key(name@),
            final(self).schemas_cache@[name@].name@ == name@,
            final(self).schemas_cache@[name@].has_iceberg_catalog == old(self).has_iceberg_catalog,
            caches_tables(final(self).schemas_cache@[name@].tables_cache@, tables@),
            final(self).schemas_cache@.remove(name@) == old(self).schemas_cache@.remove(name@),
    {
        let n = name.to_string();
        let schema = CachingSchema::with_tables(n.clone(), self.has_iceberg_catalog, tables);
        self.schemas_cache.insert(n, schema);
        assert(self.schemas_cache@.remove(name@) =~= old(self).schemas_cache@.remove(name@));
    }

    /// Refreshes the cache from the provider: given the provider's current schema names and,
    /// for each, the tables fetched from its schema (nothing where the provider has no such
    /// schema), the cache keeps only currently named schemas, and each schema the provider
    /// has is cached anew holding its fetched tables; a cached schema the provider no longer
    /// has, though it still names it, stays as it was.
    pub fn refresh_from(&mut self, current: &Vec<String>, fetched: &Vec<Option<Vec<(String, T, TableType)>>>)
        requires
            old(self).wf(),
            fetched@.len() == current@.len(),
        ensures
            final(self).wf(),
            final(self).has_iceberg_catalog == old(self).has_iceberg_catalog,
            final(self).name == old(self).name,
            final(self).should_refresh == old(self).should_refresh,
            forall|k: Seq<char>| #[trigger] final(self).schemas_cache@.contains_key(k) <==> set_view(current@).contains(k)
                && (old(self).schemas_cache@.contains_key(k) || last_fetched(current@, fetched@, k) is Some),
            forall|k: Seq<char>| #[trigger] final(self).schemas_cache@.contains_key(k) ==> match last_fetched(
                current@,
                fetched@,
                k,
            ) {
                Some(ts) => caches_tables(final(self).schemas_cache@[k].tables_cache@, ts@),
                None => final(self).schemas_cache@[k] == old(self).schemas_cache@[k],
            },
    {
        let ghost start = self.schemas_cache@;
        self.retain_schemas(current);
        let ghost kept = self.schemas_cache@;
        let mut i: usize = 0;
        while i < current.len()
            invariant
                i <= current@.len(),
                fetched@.len() == current@.len(),
                self.wf(),
                self.has_iceberg_catalog == old(self).has_iceberg_catalog,
                self.name == old(self).name,
                self.should_refresh == old(self).should_refresh,
                kept == start.restrict(set_view(current@)),
                forall|k: Seq<char>| #[trigger] self.schemas_cache@.contains_key(k) <==> kept.contains_key(k)
                    || last_fetched(current@.take(i as int), fetched@.take(i as int), k) is Some,
                forall|k: Seq<char>| #[trigger] self.schemas_cache@.contains_key(k) ==> match last_fetched(
                    current@.take(i as int),
                    fetched@.take(i as int),
                    k,
                ) {
                    Some(ts) => caches_tables(self.schemas_cache@[k].tables_cache@, ts@),
                    None => self.schemas_cache@[k] == kept[k],
                },
            decreases current@.len() - i,
        {
            let ghost c1 = current@.take(i + 1);
            let ghost f1 = fetched@.take(i + 1);
            proof {
                assert(c1.drop_last() =~= current@.take(i as int));
                assert(f1.drop_last() =~= fetched@.take(i as int));
                assert(c1.last() == current@[i as int]);
                assert(f1.last() == fetched@[i as int]);
            }
            let ghost before = self.schemas_cache@;
            let ghost name = current@[i as int]@;
            match &fetched[i] {
                Some(ts) => {
                    self.cache_refreshed_schema(current[i].as_str(), ts);
                },
                None => {},
            }
            proof {
                assert(self.schemas_cache@.remove(name) == before.remove(name));
                assert forall|k: Seq<char>| #![trigger self.schemas_cache@.contains_key(k)] k != name implies
                    self.schemas_cache@.contains_key(k) == before.contains_key(k) && (self.schemas_cache@.contains_key(k)
                    ==> self.schemas_cache@[k] == before[k]) by {
                    assert(self.schemas_cache@.remove(name).contains_key(k) == self.schemas_cache@.contains_key(k));
                    assert(before.remove(name).contains_key(k) == before.contains_key(k));
                    if self.schemas_cache@.contains_key(k) {
                        assert(self.schemas_cache@.remove(name)[k] == self.schemas_cache@[k]);
                        assert(before.remove(name)[k] == before[k]);
                    }
                }
                assert forall|k: Seq<char>| #[trigger] self.schemas_cache@.contains_key(k) <==> kept.contains_key(k)
                    || last_fetched(c1, f1, k) is Some by {
                    if !(k == name && fetched@[i as int] is Some) {
                        assert(last_fetched(c1, f1, k) == last_fetched(current@.take(i as int), fetched@.take(i as int), k));
                        if k != name {
                            assert(self.schemas_cache@.contains_key(k) == before.contains_key(k));
                        }
                    }
                }
                assert forall|k: Seq<char>| #[trigger] self.schemas_cache@.contains_key(k) implies match last_fetched(
                    c1,
                    f1,
                    k,
                ) {
                    Some(ts) => caches_tables(self.schemas_cache@[k].tables_cache@, ts@),
                    None => self.schemas_cache@[k] == kept[k],
                } by {
                    if !(k == name && fetched@[i as int] is Some) {
                        assert(last_fetched(c1, f1, k) == last_fetched(current@.take(i as int), fetched@.take(i as int), k));
                        if k != name {
                            assert(self.schemas_cache@[k] == before[k]);
                        }
                    }
                }
            }
            i = i + 1;
        }
        proof {
            assert(current@.take(current@.len() as int) =~= current@);
            assert(fetched@.take(fetched@.len() as int) =~= fetched@);
            assert forall|k: Seq<char>| #[trigger] last_fetched(current@, fetched@, k) is Some implies set_view(
                current@,
            ).contains(k) by {
                lemma_last_fetched_named(current@, fetched@, k);
            }
        }
    }

    /// Drops from the cache the schemas the provider no longer names.
    pub fn retain_schemas(&mut self, current: &Vec<String>)
        requires
            old(self).wf(),
        ensures
            final(self).wf(),
            final(self).has_iceberg_catalog == old(self).has_iceberg_catalog,
            final(self).name == old(self).name,
            final(self).should_refresh == old(self).should_refresh,
            final(self).schemas_cache@ == old(self).schemas_cache@.restrict(set_view(current@)),
    {
        self.schemas_cache.retain_names(current);
    }

    /// Drops a schema from the cache and says what deregistering it takes: the Iceberg
    /// namespace is dropped first where the catalog is an Iceberg catalog.
    pub fn deregister_schema(&mut self, name: &str) -> (r: DeregisterSchema)
        requires
            old(self).wf(),
        ensures
            final(self).wf(),
            final(self).has_iceberg_catalog == old(self).has_iceberg_catalog,
            final(self).name == old(self).name,
            final(self).schemas_cache@ == old(self).schemas_cache@.remove(name@),
            r == (if old(self).has_iceberg_catalog {
                DeregisterSchema::DropNamespaceThenProvider
            } else {
                DeregisterSchema::Provider
            }),
    {
        let _ = self.schemas_cache.remove(name);
        if self.has_iceberg_catalog {
            DeregisterSchema::DropNamespaceThenProvider
        } else {
            DeregisterSchema::Provider
        }
    }

    /// Brings the cache in line with the provider's current schema names: schemas no
    /// longer named are dropped, and the names not cached are given, in order, for the
    /// provider to be asked about.
    pub fn schemas_to_fetch(&mut self, current: &Vec<String>) -> (r: Vec<String>)
        requires
            old(self).wf(),
        ensures
            final(self).wf(),
            final(self).has_iceberg_catalog == old(self).has_iceberg_catalog,
            final(self).name == old(self).name,
            final(self).schemas_cache@ == old(self).schemas_cache@.restrict(set_view(current@)),
            r@.map_values(|s: String| s@) == names_missing(
                final(self).schemas_cache@.dom(),
                current@.map_values(|s: String| s@),
            ),
    {
        self.schemas_cache.retain_names(current);
        let ghost dom = self.schemas_cache@.dom();
        let ghost names = current@.map_values(|s: String| s@);
        let mut r: Vec<String> = Vec::new();
        let mut i: usize = 0;
        while i < current.len()
            invariant
                i <= current@.len(),
                self.wf(),
                dom == self.schemas_cache@.dom(),
                names == current@.map_values(|s: String| s@),
                r@.map_values(|s: String| s@) == names_missing(dom, names.take(i as int)),
            decreases current@.len() - i,
        {
            assert(names.take(i + 1).drop_last() =~= names.take(i as int));
            assert(names.take(i + 1).last() == current@[i as int]@);
            if !self.schemas_cache.contains_key(current[i].as_str()) {
                r.push(current[i].clone());
                assert(r@.map_values(|s: String| s@) =~= names_missing(dom, names.take(i as int)).push(current@[i as int]@));
            }
            i = i + 1;
        }
        assert(names.take(current@.len() as int) =~= names);
        r
    }
}


/// The handle and type of the last table of the list with the given name.
pub open spec fn last_table_of<T>(ts: Seq<(String, T, TableType)>, name: Seq<char>) -> Option<(T, TableType)>
    decreases ts.len(),
{
    if ts.len() == 0 {
        None
    } else if ts.last().0@ == name {
        Some((ts.last().1, ts.last().2))
    } else {
        last_table_of(ts.drop_last(), name)
    }
}

/// Whether a table cache holds exactly the tables of a list, each name with its last table.
pub open spec fn caches_tables<T>(cache: Map<Seq<char>, CachingTable<T>>, ts: Seq<(String, T, TableType)>) -> bool {
    forall|k: Seq<char>| {
        &&& #[trigger] cache.contains_key(k) <==> last_table_of(ts, k) is Some
        &&& cache.contains_key(k) ==> cache[k].name@ == k && last_table_of(ts, k) == Some(
            (cache[k].table, cache[k].table_type),
        )
    }
}

/// The tables a fetch found, in the order they came: those whose fetch gave nothing, or
/// failed, are left out.
pub open spec fn found_tables<T>(results: Seq<Option<(String, T)>>) -> Seq<(String, T)>
    decreases results.len(),
{
    if results.len() == 0 {
        Seq::empty()
    } else {
        let rest = found_tables(results.drop_last());
        match results.last() {
            Some(t) => rest.push(t),
            None => rest,
        }
    }
}

/// How many table fetches run at once: the configured number, and at least one.
pub fn fetch_concurrency(max_concurrent_fetches: usize) -> (r: usize)
    ensures
        r == if max_concurrent_fetches == 0 { 1 } else { max_concurrent_fetches },
{
    if max_concurrent_fetches == 0 {
        1
    } else {
        max_concurrent_fetches
    }
}

/// The tables found by fetching each table of a schema from its provider, in the order the
/// fetches completed: a fetch that found nothing or failed is skipped.
pub fn fetched_tables<T>(results: Vec<Option<(String, T)>>) -> (r: Vec<(String, T)>)
    ensures
        r@ == found_tables(results@),
{
    let ghost all = results@;
    let total: usize = results.len();
    let mut results = results;
    let mut reversed: Vec<Option<(String, T)>> = Vec::new();
    while results.len() > 0
        invariant
            all == results@ + reversed@.reverse(),
        decreases results@.len(),
    {
        let x = results.pop().unwrap();
        reversed.push(x);
        assert(all =~= results@ + reversed@.reverse());
    }
    assert(reversed@.reverse() =~= all);
    let mut r: Vec<(String, T)> = Vec::new();
    let ghost n = total as int;
    let mut i: usize = 0;
    while reversed.len() > 0
        invariant
            0 <= i <= n,
            n == all.len(),
            n == total as int,
            i + reversed@.len() == n,
            all.subrange(i as int, n) == reversed@.reverse(),
            r@ == found_tables(all.take(i as int)),
        decreases reversed@.len(),
    {
        let ghost before = reversed@;
        let x = reversed.pop().unwrap();
        proof {
            assert(before.reverse()[0] == x);
            assert(all.subrange(i as int, n)[0] == all[i as int]);
            assert(all.take(i + 1).drop_last() =~= all.take(i as int));
            assert(all.take(i + 1).last() == all[i as int]);
            assert forall|j: int| 0 <= j < reversed@.len() implies all.subrange(i + 1, n)[j] == reversed@.reverse()[j] by {
                assert(before.reverse()[j + 1] == all.subrange(i as int, n)[j + 1]);
                assert(reversed@[reversed@.len() - 1 - j] == before[before.len() - 1 - (j + 1)]);
            }
            assert(all.subrange(i + 1, n) =~= reversed@.reverse());
        }
        match x {
            Some(t) => r.push(t),
            None => {},
        }
        i = i + 1;
    }
    assert(all.take(n) =~= all);
    r
}

/// The tables fetched for the last schema of the list with the given name that the
/// provider has.
pub open spec fn last_fetched<T>(
    names: Seq<String>,
    fetched: Seq<Option<Vec<(String, T, TableType)>>>,
    k: Seq<char>,
) -> Option<Vec<(String, T, TableType)>>
    decreases names.len(),
{
    if names.len() == 0 || fetched.len() != names.len() {
        None
    } else if names.last()@ == k && fetched.last() is Some {
        fetched.last()
    } else {
        last_fetched(names.drop_last(), fetched.drop_last(), k)
    }
}

/// Tables are fetched only for schemas the list names.
pub proof fn lemma_last_fetched_named<T>(
    names: Seq<String>,
    fetched: Seq<Option<Vec<(String, T, TableType)>>>,
    k: Seq<char>,
)
    requires
        last_fetched(names, fetched, k) is Some,
    ensures
        set_view(names).contains(k),
    decreases names.len(),
{
    if names.len() > 0 && fetched.len() == names.len() {
        if names.last()@ == k && fetched.last() is Some {
            assert(names[names.len() - 1]@ == k);
        } else {
            lemma_last_fetched_named(names.drop_last(), fetched.drop_last(), k);
            let j = choose|j: int| 0 <= j < names.drop_last().len() && (#[trigger] names.drop_last()[j])@ == k;
            assert(names[j] == names.drop_last()[j]);
        }
    }
}

/// A table cached under a name by a lookup or a registration is what a later lookup of that
/// name gives, and the tables cached under other names are as they were.
pub proof fn law_table_read_after_cache<T>(
    before: Map<Seq<char>, CachingTable<T>>,
    after: Map<Seq<char>, CachingTable<T>>,
    name: Seq<char>,
    table: T,
    table_type: TableType,
    other: Seq<char>,
)
    requires
        holds_table(after, name, table, table_type),
        after.remove(name) == before.remove(name),
        other != name,
    ensures
        cached_table_of(after, name) == Some(table),
        cached_table_of(after, other) == cached_table_of(before, other),
{
    assert(after.remove(name).contains_key(other) == after.contains_key(other));
    assert(before.remove(name).contains_key(other) == before.contains_key(other));
    if after.contains_key(other) {
        assert(after.remove(name)[other] == after[other]);
        assert(before.remove(name)[other] == before[other]);
    }
}

/// A deregistered table is no longer cached, and the tables cached under other names are
/// as they were.
pub proof fn law_deregistered_table_uncached<T>(before: Map<Seq<char>, CachingTable<T>>, name: Seq<char>, other: Seq<char>)
    requires
        other != name,
    ensures
        cached_table_of(before.remove(name), name) is None,
        cached_table_of(before.remove(name), other) == cached_table_of(before, other),
{
}

/// What a sequence with an item appended contains.
pub proof fn lemma_push_contains<A>(s: Seq<A>, x: A, y: A)
    ensures
        s.push(x).contains(y) <==> s.contains(y) || y == x,
{
    let w = s.push(x);
    if w.contains(y) {
        let i = choose|i: int| 0 <= i < w.len() && w[i] == y;
        if i < s.len() {
            assert(s[i] == y);
        }
    }
    if s.contains(y) {
        let i = choose|i: int| 0 <= i < s.len() && s[i] == y;
        assert(w[i] == y);
    }
    if y == x {
        assert(w[s.len() as int] == y);
    }
}

/// The names missing from a set are exactly those of the list that it does not hold.
pub proof fn lemma_names_missing(dom: Set<Seq<char>>, names: Seq<Seq<char>>)
    ensures
        forall|s: Seq<char>| #[trigger] names_missing(dom, names).contains(s) <==> names.contains(s) && !dom.contains(s),
    decreases names.len(),
{
    if names.len() > 0 {
        let init = names.drop_last();
        let last = names.last();
        lemma_names_missing(dom, init);
        assert(names == init.push(last));
        let m0 = names_missing(dom, init);
        assert forall|s: Seq<char>| #[trigger] names_missing(dom, names).contains(s) <==> names.contains(s) && !dom.contains(s) by {
            lemma_push_contains(init, last, s);
            lemma_push_contains(m0, last, s);
        }
    }
}

/// After a refresh, the cache holds only schemas the provider currently names, and each
/// currently named schema is either still cached or among the names the provider is asked
/// about.
pub proof fn law_refresh_covers_current_names<T>(before: Map<Seq<char>, CachingSchema<T>>, current: Seq<String>)
    ensures
        forall|s: Seq<char>| #[trigger] before.restrict(set_view(current)).contains_key(s) ==> set_view(current).contains(s),
        forall|s: Seq<char>| #[trigger] set_view(current).contains(s) ==> before.restrict(set_view(current)).contains_key(s)
            || names_missing(before.restrict(set_view(current)).dom(), current.map_values(|c: String| c@)).contains(s),
{
    let names = current.map_values(|c: String| c@);
    let dom = before.restrict(set_view(current)).dom();
    lemma_names_missing(dom, names);
    assert forall|s: Seq<char>| #[trigger] set_view(current).contains(s) implies before.restrict(set_view(current)).contains_key(s)
        || names_missing(dom, names).contains(s) by {
        let i = choose|i: int| 0 <= i < current.len() && (#[trigger] current[i])@ == s;
        assert(names[i] == s);
    }
}

} // verus!
