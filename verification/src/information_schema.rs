//! The rows of the `information_schema.tables` view and of the metastore's databases view,
//! built one entry at a time and finished into a batch.
use vstd::prelude::*;
use crate::types::{BatchError, Column, ColumnData, DataType, Field, RecordBatch};
use crate::text::{lower_seq, to_ascii_lowercase, str_eq};

verus! {

/// How a table is stored.
#[derive(Clone, Copy, Debug, PartialEq, Eq, Structural)]
pub enum TableType {
    Base,
    View,
    Temporary,
}

/// The `table_type` text of a table type.
pub open spec fn table_type_text(t: TableType) -> Seq<char> {
    match t {
        TableType::Base => "TABLE"@,
        TableType::View => "VIEW"@,
        TableType::Temporary => "TEMPORARY"@,
    }
}

/// The `is_iceberg` text of a table type: only base tables are Iceberg tables.
pub open spec fn iceberg_flag_text(t: TableType) -> Seq<char> {
    match t {
        TableType::Base => "Y"@,
        _ => "N"@,
    }
}

fn table_type_name(t: TableType) -> (r: String)
    ensures
        r@ == table_type_text(t),
{
    match t {
        TableType::Base => "TABLE".to_string(),
        TableType::View => "VIEW".to_string(),
        TableType::Temporary => "TEMPORARY".to_string(),
    }
}

fn iceberg_flag(t: TableType) -> (r: String)
    ensures
        r@ == iceberg_flag_text(t),
{
    match t {
        TableType::Base => "Y".to_string(),
        _ => "N".to_string(),
    }
}

/// A UTF-8 field of the given name.
pub open spec fn text_field(name: Seq<char>, nullable: bool) -> (Seq<char>, DataType, bool) {
    (name, DataType::Utf8, nullable)
}

/// A field by its name, type and nullability (its metadata aside).
pub open spec fn field_parts(f: Field) -> (Seq<char>, DataType, bool) {
    (f.name@, f.data_type, f.nullable)
}

/// The schema of `information_schema.tables`.
pub open spec fn tables_schema_parts() -> Seq<(Seq<char>, DataType, bool)> {
    seq![
        text_field("table_catalog"@, false),
        text_field("table_schema"@, false),
        text_field("table_name"@, false),
        text_field("table_type"@, false),
        text_field("is_iceberg"@, true),
    ]
}

/// The schema of the databases view.
pub open spec fn databases_schema_parts() -> Seq<(Seq<char>, DataType, bool)> {
    seq![
        text_field("database_name"@, false),
        text_field("volume_name"@, false),
        text_field("created_at"@, false),
        text_field("updated_at"@, false),
    ]
}

/// A schema, field by field, without metadata, is the given list.
pub open spec fn schema_is(schema: Seq<Field>, parts: Seq<(Seq<char>, DataType, bool)>) -> bool {
    &&& schema.len() == parts.len()
    &&& forall|i: int|
        0 <= i < schema.len() ==> field_parts(#[trigger] schema[i]) == parts[i]
            && schema[i].metadata@.len() == 0
}

fn text_field_of(name: &str, nullable: bool) -> (f: Field)
    ensures
        field_parts(f) == text_field(name@, nullable),
        f.metadata@.len() == 0,
{
    Field::new(name.to_string(), DataType::Utf8, nullable)
}

/// The texts of strings.
pub open spec fn texts_of(v: Seq<String>) -> Seq<Seq<char>> {
    Seq::new(v.len(), |i: int| v[i]@)
}

/// A text column that holds exactly the given texts, none of them null.
pub open spec fn column_holds(c: Column, texts: Seq<Seq<char>>) -> bool {
    &&& c.data_type == DataType::Utf8
    &&& match c.data {
        ColumnData::Texts(v) => v@.len() == texts.len() && forall|i: int|
            0 <= i < texts.len() ==> (#[trigger] v@[i]) is Some && v@[i]->0@ == texts[i],
        _ => false,
    }
}

/// A batch Arrow accepts, of the given schema, whose columns hold the given texts.
pub open spec fn batch_holds(
    b: RecordBatch,
    schema: Seq<(Seq<char>, DataType, bool)>,
    columns: Seq<Seq<Seq<char>>>,
) -> bool {
    &&& b.wf()
    &&& schema_is(b.schema@, schema)
    &&& b.columns@.len() == columns.len()
    &&& forall|k: int| 0 <= k < columns.len() ==> column_holds(#[trigger] b.columns@[k], columns[k])
}

/// A UTF-8 column holding every text of `texts`, none of them null.
fn text_column(texts: &Vec<String>) -> (c: Column)
    ensures
        c.data_type == DataType::Utf8,
        column_holds(c, texts_of(texts@)),
        !c.data.has_nulls(),
        c.wf(),
{
    let mut out: Vec<Option<String>> = Vec::new();
    let mut i: usize = 0;
    while i < texts.len()
        invariant
            i <= texts@.len(),
            out@.len() == i,
            forall|j: int| 0 <= j < i ==> #[trigger] out@[j] == Some(texts@[j]),
        decreases texts@.len() - i,
    {
        out.push(Some(texts[i].clone()));
        i = i + 1;
    }
    proof {
        assert forall|i: int| 0 <= i < out@.len() implies (#[trigger] out@[i]) is Some by {}
    }
    Column { data_type: DataType::Utf8, data: ColumnData::Texts(out) }
}

/// The `information_schema.tables` view: one row per table of the catalogs.
pub struct InformationSchemaTables {
    schema: Vec<Field>,
}

/// Collects the rows of `information_schema.tables`, one column of texts per field.
pub struct InformationSchemaTablesBuilder {
    schema: Vec<Field>,
    catalog_names: Vec<String>,
    schema_names: Vec<String>,
    table_names: Vec<String>,
    table_types: Vec<String>,
    is_iceberg: Vec<String>,
}

/// One row of `information_schema.tables`: catalog, schema, table, table type, Iceberg flag.
pub type TableRow = (Seq<char>, Seq<char>, Seq<char>, Seq<char>, Seq<char>);

impl InformationSchemaTables {
    /// The view's schema.
    pub closed spec fn schema_view(&self) -> Seq<Field> {
        self.schema@
    }

    /// The schema of the view: catalog, schema, table name and table type, none of them
    /// null, and a nullable Iceberg flag, all text.
    pub fn schema() -> (r: Vec<Field>)
        ensures
            schema_is(r@, tables_schema_parts()),
    {
        let mut v: Vec<Field> = Vec::new();
        v.push(text_field_of("table_catalog", false));
        v.push(text_field_of("table_schema", false));
        v.push(text_field_of("table_name", false));
        v.push(text_field_of("table_type", false));
        v.push(text_field_of("is_iceberg", true));
        v
    }

    /// The view, with its schema.
    pub fn new() -> (r: InformationSchemaTables)
        ensures
            schema_is(r.schema_view(), tables_schema_parts()),
    {
        InformationSchemaTables { schema: Self::schema() }
    }

    /// An empty builder for the view's rows.
    pub fn builder(&self) -> (b: InformationSchemaTablesBuilder)
        ensures
            b.wf(),
            b.rows().len() == 0,
    {
        InformationSchemaTablesBuilder {
            schema: Self::schema(),
            catalog_names: Vec::new(),
            schema_names: Vec::new(),
            table_names: Vec::new(),
            table_types: Vec::new(),
            is_iceberg: Vec::new(),
        }
    }
}

impl InformationSchemaTablesBuilder {
    /// Its schema is the view's and its columns have one length.
    pub closed spec fn wf(&self) -> bool {
        &&& schema_is(self.schema@, tables_schema_parts())
        &&& self.schema_names@.len() == self.catalog_names@.len()
        &&& self.table_names@.len() == self.catalog_names@.len()
        &&& self.table_types@.len() == self.catalog_names@.len()
        &&& self.is_iceberg@.len() == self.catalog_names@.len()
    }

    /// The rows added since the builder was made or last finished.
    pub closed spec fn rows(&self) -> Seq<TableRow> {
        Seq::new(
            self.catalog_names@.len(),
            |i: int|
                (
                    self.catalog_names@[i]@,
                    self.schema_names@[i]@,
                    self.table_names@[i]@,
                    self.table_types@[i]@,
                    self.is_iceberg@[i]@,
                ),
        )
    }

    /// Adds the row of one table: its names, its type as text (`TABLE`, `VIEW` or
    /// `TEMPORARY`) and whether it is an Iceberg table (`Y` for base tables, else `N`).
    pub fn add_table(&mut self, catalog_name: &str, schema_name: &str, table_name: &str, table_type: TableType)
        requires
            old(self).wf(),
        ensures
            final(self).wf(),
            final(self).rows() == old(self).rows().push(
                (catalog_name@, schema_name@, table_name@, table_type_text(table_type), iceberg_flag_text(table_type)),
            ),
    {
        self.catalog_names.push(catalog_name.to_string());
        self.schema_names.push(schema_name.to_string());
        self.table_names.push(table_name.to_string());
        self.table_types.push(table_type_name(table_type));
        self.is_iceberg.push(iceberg_flag(table_type));
        proof {
            let r = self.rows();
            let o = old(self).rows();
            assert(r.len() == o.len() + 1);
            assert forall|i: int| 0 <= i < o.len() implies r[i] == o[i] by {}
        }
    }

    /// Turns the rows added so far into a batch of the view's schema and empties the
    /// builder. The batch always builds: every column is text and none is null.
    pub fn finish(&mut self) -> (r: Result<RecordBatch, BatchError>)
        requires
            old(self).wf(),
        ensures
            final(self).wf(),
            final(self).rows().len() == 0,
            r is Ok,
            r matches Ok(b) ==> batch_holds(b, tables_schema_parts(), table_columns(old(self).rows())),
    {
        let ghost rows = self.rows();
        let catalog_names = self.catalog_names.split_off(0);
        let schema_names = self.schema_names.split_off(0);
        let table_names = self.table_names.split_off(0);
        let table_types = self.table_types.split_off(0);
        let is_iceberg = self.is_iceberg.split_off(0);
        let mut columns: Vec<Column> = Vec::new();
        columns.push(text_column(&catalog_names));
        columns.push(text_column(&schema_names));
        columns.push(text_column(&table_names));
        columns.push(text_column(&table_types));
        columns.push(text_column(&is_iceberg));
        let schema = InformationSchemaTables::schema();
        let ghost cols = table_columns(rows);
        proof {
            assert(texts_of(catalog_names@) == cols[0]);
            assert(texts_of(schema_names@) == cols[1]);
            assert(texts_of(table_names@) == cols[2]);
            assert(texts_of(table_types@) == cols[3]);
            assert(texts_of(is_iceberg@) == cols[4]);
            assert(columns@.len() == 5);
            assert forall|i: int| 0 <= i < 5 implies (#[trigger] columns@[i]).len() == rows.len()
                && column_holds(columns@[i], cols[i]) && columns@[i].wf() && !columns@[i].data.has_nulls() by {}
            assert(RecordBatch::valid_parts(schema@, columns@));
        }
        let r = RecordBatch::try_new(schema, columns);
        r
    }
}

/// The columns of `information_schema.tables` for the given rows.
pub open spec fn table_columns(rows: Seq<TableRow>) -> Seq<Seq<Seq<char>>> {
    Seq::new(5, |k: int| Seq::new(rows.len(), |i: int| row_field(rows[i], k)))
}

/// The `k`-th text of a row of `information_schema.tables`.
pub open spec fn row_field(row: TableRow, k: int) -> Seq<char> {
    if k == 0 {
        row.0
    } else if k == 1 {
        row.1
    } else if k == 2 {
        row.2
    } else if k == 3 {
        row.3
    } else {
        row.4
    }
}

/// The metastore's databases view: one row per database.
pub struct DatabasesView {
    schema: Vec<Field>,
}

/// Collects the rows of the databases view, one column of texts per field.
pub struct DatabasesViewBuilder {
    schema: Vec<Field>,
    database_names: Vec<String>,
    volume_names: Vec<String>,
    created_at_timestamps: Vec<String>,
    updated_at_timestamps: Vec<String>,
}

/// One row of the databases view: database, volume, creation and update times.
pub type DatabaseRow = (Seq<char>, Seq<char>, Seq<char>, Seq<char>);

/// The `k`-th text of a row of the databases view.
pub open spec fn database_field(row: DatabaseRow, k: int) -> Seq<char> {
    if k == 0 {
        row.0
    } else if k == 1 {
        row.1
    } else if k == 2 {
        row.2
    } else {
        row.3
    }
}

/// The columns of the databases view for the given rows.
pub open spec fn database_columns(rows: Seq<DatabaseRow>) -> Seq<Seq<Seq<char>>> {
    Seq::new(4, |k: int| Seq::new(rows.len(), |i: int| database_field(rows[i], k)))
}

fn databases_schema() -> (r: Vec<Field>)
    ensures
        schema_is(r@, databases_schema_parts()),
{
    let mut v: Vec<Field> = Vec::new();
    v.push(text_field_of("database_name", false));
    v.push(text_field_of("volume_name", false));
    v.push(text_field_of("created_at", false));
    v.push(text_field_of("updated_at", false));
    v
}

impl DatabasesView {
    /// The view's schema.
    pub closed spec fn schema_view(&self) -> Seq<Field> {
        self.schema@
    }

    /// The view, whose schema is database, volume, creation and update time, all text
    /// and none of them null.
    pub fn new() -> (r: DatabasesView)
        ensures
            schema_is(r.schema_view(), databases_schema_parts()),
    {
        DatabasesView { schema: databases_schema() }
    }

    /// An empty builder for the view's rows.
    pub fn builder(&self) -> (b: DatabasesViewBuilder)
        ensures
            b.wf(),
            b.rows().len() == 0,
    {
        DatabasesViewBuilder {
            schema: databases_schema(),
            database_names: Vec::new(),
            volume_names: Vec::new(),
            created_at_timestamps: Vec::new(),
            updated_at_timestamps: Vec::new(),
        }
    }
}

impl DatabasesViewBuilder {
    /// Its schema is the view's and its columns have one length.
    pub closed spec fn wf(&self) -> bool {
        &&& schema_is(self.schema@, databases_schema_parts())
        &&& self.volume_names@.len() == self.database_names@.len()
        &&& self.created_at_timestamps@.len() == self.database_names@.len()
        &&& self.updated_at_timestamps@.len() == self.database_names@.len()
    }

    /// The rows added since the builder was made or last finished.
    pub closed spec fn rows(&self) -> Seq<DatabaseRow> {
        Seq::new(
            self.database_names@.len(),
            |i: int|
                (
                    self.database_names@[i]@,
                    self.volume_names@[i]@,
                    self.created_at_timestamps@[i]@,
                    self.updated_at_timestamps@[i]@,
                ),
        )
    }

    /// Adds the row of one database.
    pub fn add_database(&mut self, database_name: &str, volume_name: &str, created_at: &str, updated_at: &str)
        requires
            old(self).wf(),
        ensures
            final(self).wf(),
            final(self).rows() == old(self).rows().push((database_name@, volume_name@, created_at@, updated_at@)),
    {
        self.database_names.push(database_name.to_string());
        self.volume_names.push(volume_name.to_string());
        self.created_at_timestamps.push(created_at.to_string());
        self.updated_at_timestamps.push(updated_at.to_string());
        proof {
            let r = self.rows();
            let o = old(self).rows();
            assert(r.len() == o.len() + 1);
            assert forall|i: int| 0 <= i < o.len() implies r[i] == o[i] by {}
        }
    }

    /// Turns the rows added so far into a batch of the view's schema and empties the
    /// builder. The batch always builds: every column is text and none is null.
    pub fn finish(&mut self) -> (r: Result<RecordBatch, BatchError>)
        requires
            old(self).wf(),
        ensures
            final(self).wf(),
            final(self).rows().len() == 0,
            r is Ok,
            r matches Ok(b) ==> batch_holds(b, databases_schema_parts(), database_columns(old(self).rows())),
    {
        let ghost rows = self.rows();
        let database_names = self.database_names.split_off(0);
        let volume_names = self.volume_names.split_off(0);
        let created = self.created_at_timestamps.split_off(0);
        let updated = self.updated_at_timestamps.split_off(0);
        let mut columns: Vec<Column> = Vec::new();
        columns.push(text_column(&database_names));
        columns.push(text_column(&volume_names));
        columns.push(text_column(&created));
        columns.push(text_column(&updated));
        let schema = databases_schema();
        let ghost cols = database_columns(rows);
        proof {
            assert(texts_of(database_names@) == cols[0]);
            assert(texts_of(volume_names@) == cols[1]);
            assert(texts_of(created@) == cols[2]);
            assert(texts_of(updated@) == cols[3]);
            assert(columns@.len() == 4);
            assert forall|i: int| 0 <= i < 4 implies (#[trigger] columns@[i]).len() == rows.len()
                && column_holds(columns@[i], cols[i]) && columns@[i].wf() && !columns@[i].data.has_nulls() by {}
            assert(RecordBatch::valid_parts(schema@, columns@));
        }
        RecordBatch::try_new(schema, columns)
    }
}

/// The name of the information schema.
pub const INFORMATION_SCHEMA: &'static str = "information_schema";
/// The names of the views.
pub const TABLES: &'static str = "tables";
pub const VIEWS: &'static str = "views";
pub const COLUMNS: &'static str = "columns";
pub const SCHEMATA: &'static str = "schemata";
pub const DATABASES: &'static str = "databases";
pub const DF_SETTINGS: &'static str = "df_settings";
pub const ROUTINES: &'static str = "routines";
pub const PARAMETERS: &'static str = "parameters";
pub const NAVIGATION_TREE: &'static str = "navigation_tree";

/// A view of the information schema.
#[derive(Clone, Copy, Debug, PartialEq, Eq, Structural)]
pub enum InformationSchemaView {
    Tables,
    Views,
    Columns,
    Schemata,
    Databases,
    DfSettings,
    Routines,
    Parameters,
    NavigationTree,
}

/// The view of a lower-case name.
pub open spec fn view_named(n: Seq<char>) -> Option<InformationSchemaView> {
    if n == "tables"@ {
        Some(InformationSchemaView::Tables)
    } else if n == "views"@ {
        Some(InformationSchemaView::Views)
    } else if n == "columns"@ {
        Some(InformationSchemaView::Columns)
    } else if n == "schemata"@ {
        Some(InformationSchemaView::Schemata)
    } else if n == "databases"@ {
        Some(InformationSchemaView::Databases)
    } else if n == "df_settings"@ {
        Some(InformationSchemaView::DfSettings)
    } else if n == "routines"@ {
        Some(InformationSchemaView::Routines)
    } else if n == "parameters"@ {
        Some(InformationSchemaView::Parameters)
    } else if n == "navigation_tree"@ {
        Some(InformationSchemaView::NavigationTree)
    } else {
        None
    }
}

/// The names of the views.
pub open spec fn view_names() -> Seq<Seq<char>> {
    seq![
        "tables"@,
        "views"@,
        "columns"@,
        "schemata"@,
        "databases"@,
        "df_settings"@,
        "routines"@,
        "parameters"@,
        "navigation_tree"@,
    ]
}

/// The `information_schema` of a catalog: its views, built when they are read.
#[derive(Debug)]
pub struct InformationSchemaProvider {
    catalog_name: String,
    view_names: Vec<String>,
}

impl InformationSchemaProvider {
    /// The catalog the schema belongs to.
    pub closed spec fn catalog(&self) -> Seq<char> {
        self.catalog_name@
    }

    /// The names of the views the schema holds.
    pub closed spec fn names(&self) -> Seq<Seq<char>> {
        crate::sql::texts(self.view_names@)
    }

    /// The information schema of a catalog.
    pub fn new(catalog_name: String) -> (r: InformationSchemaProvider)
        ensures
            r.catalog() == catalog_name@,
            r.names() == view_names(),
    {
        let mut v: Vec<String> = Vec::new();
        v.push(TABLES.to_string());
        v.push(VIEWS.to_string());
        v.push(COLUMNS.to_string());
        v.push(SCHEMATA.to_string());
        v.push(DATABASES.to_string());
        v.push(DF_SETTINGS.to_string());
        v.push(ROUTINES.to_string());
        v.push(PARAMETERS.to_string());
        v.push(NAVIGATION_TREE.to_string());
        let r = InformationSchemaProvider { catalog_name, view_names: v };
        proof {
            assert(r.names() =~= view_names());
        }
        r
    }

    /// The names of the views.
    pub fn table_names(&self) -> (r: Vec<String>)
        ensures
            crate::sql::texts(r@) == self.names(),
    {
        let mut r: Vec<String> = Vec::new();
        let mut i: usize = 0;
        while i < self.view_names.len()
            invariant
                i <= self.view_names@.len(),
                r@.len() == i,
                forall|j: int| 0 <= j < i ==> #[trigger] r@[j] == self.view_names@[j],
            decreases self.view_names@.len() - i,
        {
            r.push(self.view_names[i].clone());
            i = i + 1;
        }
        proof {
            assert(crate::sql::texts(r@) =~= self.names());
        }
        r
    }

    /// The view a table name names, ignoring ASCII case.
    pub fn table(&self, name: &str) -> (r: Option<InformationSchemaView>)
        ensures
            r == view_named(lower_seq(name@)),
    {
        let n = to_ascii_lowercase(name);
        let s = n.as_str();
        if str_eq(s, TABLES) {
            Some(InformationSchemaView::Tables)
        } else if str_eq(s, VIEWS) {
            Some(InformationSchemaView::Views)
        } else if str_eq(s, COLUMNS) {
            Some(InformationSchemaView::Columns)
        } else if str_eq(s, SCHEMATA) {
            Some(InformationSchemaView::Schemata)
        } else if str_eq(s, DATABASES) {
            Some(InformationSchemaView::Databases)
        } else if str_eq(s, DF_SETTINGS) {
            Some(InformationSchemaView::DfSettings)
        } else if str_eq(s, ROUTINES) {
            Some(InformationSchemaView::Routines)
        } else if str_eq(s, PARAMETERS) {
            Some(InformationSchemaView::Parameters)
        } else if str_eq(s, NAVIGATION_TREE) {
            Some(InformationSchemaView::NavigationTree)
        } else {
            None
        }
    }

    /// Whether a table name, ignoring ASCII case, is one of the views.
    pub fn table_exist(&self, name: &str) -> (r: bool)
        ensures
            r == view_named(lower_seq(name@)) is Some,
    {
        self.table(name).is_some()
    }
}

} // verus!
