//! Name resolution and SQL text that the executor builds for the statements it handles
//! itself.
use vstd::prelude::*;
use crate::text::{lower_seq, to_ascii_lowercase, concat, str_eq, eq_ignore_ascii_case, str_eq_ignore_ascii_case, unicode_lower, str_to_lowercase, has_prefix, starts_with};
use crate::types::{DataType, Field};
use crate::location::{url_parse_view, parse_url};
use crate::merge::opt_view;
use crate::qualify::{Query, update_qualify_in_query, qualify_rewritten};
use crate::types::copy_opt_string;
use crate::assoc::{keys_distinct, map_view, has_key, insert_entry, remove_entry, lemma_map_view_push};
use vstd::utf8::encode_utf8;

verus! {

/// Failures of statement handling.
#[derive(Debug, Clone, PartialEq, Eq)]
pub enum QueryError {
    UnsupportedShowStatement { statement: String },
    InvalidTableIdentifier { ident: String },
    InvalidSchemaIdentifier { ident: String },
    NoTableNamesForTruncateTable,
    FromObjectRequiredForCopyIntoStatements,
    OnlyUseWithVariables,
    OnlyTableSchemaCreateStatements,
    OnlyPrimitiveStatements,
    OnlySimpleSchemaNames,
    OnlyDropStatements,
    ObjectAlreadyExists { object_type: String, name: String },
    InvalidFilePath { path: String },
}

/// An identifier of a SQL name: its value, its quote character when quoted, and its SQL
/// text (the value, quoted and escaped when it is quoted).
#[derive(Debug, Clone)]
pub struct Ident {
    pub value: String,
    pub quote_style: Option<char>,
    pub rendered: String,
}

impl Ident {
    /// An unquoted identifier.
    pub fn new(value: String) -> (r: Ident)
        ensures
            r.value@ == value@,
            r.quote_style is None,
            r.rendered@ == value@,
    {
        let rendered = value.clone();
        Ident { value, quote_style: None, rendered }
    }
}

/// Where a value is looked up first: the query's context, then the session's variables,
/// then the default.
pub open spec fn context_value(
    from_context: Option<String>,
    session_vars: Seq<(String, String)>,
    key: Seq<char>,
    default: Seq<char>,
) -> Seq<char> {
    match from_context {
        Some(v) => v@,
        None => match session_lookup(session_vars, key) {
            Some(v) => v,
            None => default,
        },
    }
}

/// The value of the last session variable with the given name.
pub open spec fn session_lookup(vars: Seq<(String, String)>, key: Seq<char>) -> Option<Seq<char>>
    decreases vars.len(),
{
    if vars.len() == 0 {
        None
    } else if vars.last().0@ == key {
        Some(vars.last().1@)
    } else {
        session_lookup(vars.drop_last(), key)
    }
}

/// The value of a session variable.
pub fn get_session_variable(vars: &Vec<(String, String)>, variable: &str) -> (r: Option<String>)
    ensures
        match session_lookup(vars@, variable@) {
            Some(v) => r matches Some(s) && s@ == v,
            None => r is None,
        },
{
    let mut i: usize = vars.len();
    assert(vars@.take(i as int) =~= vars@);
    while i > 0
        invariant
            i <= vars@.len(),
            session_lookup(vars@, variable@) == session_lookup(vars@.take(i as int), variable@),
        decreases i,
    {
        let ghost t = vars@.take(i as int);
        assert(t.drop_last() =~= vars@.take(i as int - 1));
        if str_eq(vars[i - 1].0.as_str(), variable) {
            return Some(vars[i - 1].1.clone());
        }
        i = i - 1;
    }
    None
}

/// The database a statement runs in: the query context's, else the session's `database`
/// variable, else "embucket".
pub fn current_database(context_database: &Option<String>, session_vars: &Vec<(String, String)>) -> (r: String)
    ensures
        r@ == context_value(*context_database, session_vars@, "database"@, "embucket"@),
{
    match context_database {
        Some(d) => d.clone(),
        None => match get_session_variable(session_vars, "database") {
            Some(v) => v,
            None => "embucket".to_string(),
        },
    }
}

/// The schema a statement runs in: the query context's, else the session's `schema`
/// variable, else "public".
pub fn current_schema(context_schema: &Option<String>, session_vars: &Vec<(String, String)>) -> (r: String)
    ensures
        r@ == context_value(*context_schema, session_vars@, "schema"@, "public"@),
{
    match context_schema {
        Some(s) => s.clone(),
        None => match get_session_variable(session_vars, "schema") {
            Some(v) => v,
            None => "public".to_string(),
        },
    }
}

/// The value an identifier is stored under: a quoted identifier keeps its value, an
/// unquoted one is lower-cased when normalization is on.
pub open spec fn normalized_value(i: Ident, normalize: bool) -> Seq<char> {
    if i.quote_style is Some || !normalize {
        i.value@
    } else {
        lower_seq(i.value@)
    }
}

/// Normalizes an identifier.
pub fn normalize_ident(ident: &Ident, normalize: bool) -> (r: Ident)
    ensures
        r.value@ == normalized_value(*ident, normalize),
        r.quote_style == ident.quote_style,
{
    match ident.quote_style {
        Some(q) => Ident { value: ident.value.clone(), quote_style: Some(q), rendered: ident.rendered.clone() },
        None => {
            if normalize {
                Ident::new(to_ascii_lowercase(ident.value.as_str()))
            } else {
                Ident::new(ident.value.clone())
            }
        },
    }
}

/// The SQL texts of the parts of a name, joined with ".".
pub open spec fn rendered_join(parts: Seq<Ident>) -> Seq<char>
    decreases parts.len(),
{
    if parts.len() == 0 {
        Seq::empty()
    } else if parts.len() == 1 {
        parts[0].rendered@
    } else {
        rendered_join(parts.drop_last()) + "."@ + parts.last().rendered@
    }
}

/// The values of the parts of a name, joined with "." (how a resolved name is written).
pub open spec fn value_join(parts: Seq<Ident>) -> Seq<char>
    decreases parts.len(),
{
    if parts.len() == 0 {
        Seq::empty()
    } else if parts.len() == 1 {
        parts[0].value@
    } else {
        value_join(parts.drop_last()) + "."@ + parts.last().value@
    }
}

fn join_parts(parts: &Vec<Ident>, rendered: bool) -> (r: String)
    ensures
        rendered ==> r@ == rendered_join(parts@),
        !rendered ==> r@ == value_join(parts@),
{
    let mut s = String::new();
    let mut i: usize = 0;
    while i < parts.len()
        invariant
            i <= parts@.len(),
            rendered ==> s@ == rendered_join(parts@.take(i as int)),
            !rendered ==> s@ == value_join(parts@.take(i as int)),
        decreases parts@.len() - i,
    {
        let ghost t = parts@.take(i as int + 1);
        assert(t.drop_last() =~= parts@.take(i as int));
        if i > 0 {
            s.append(".");
        }
        if rendered {
            s.append(parts[i].rendered.as_str());
        } else {
            s.append(parts[i].value.as_str());
        }
        proof {
            reveal_strlit(".");
        }
        assert(rendered ==> s@ =~= rendered_join(t));
        assert(!rendered ==> s@ =~= value_join(t));
        i = i + 1;
    }
    assert(parts@.take(parts@.len() as int) =~= parts@);
    s
}

/// How a resolved name is written in SQL: its values joined with ".".
pub fn normalized_ident_text(parts: &Vec<Ident>) -> (r: String)
    ensures
        r@ == value_join(parts@),
        r@ == join_texts(parts@.map_values(|i: Ident| i.value@), "."@),
{
    proof {
        lemma_value_join(parts@);
    }
    join_parts(parts, false)
}

/// Joining the values of a name is joining the texts of its values.
pub proof fn lemma_value_join(parts: Seq<Ident>)
    ensures
        value_join(parts) == join_texts(parts.map_values(|i: Ident| i.value@), "."@),
    decreases parts.len(),
{
    if parts.len() > 1 {
        lemma_value_join(parts.drop_last());
        assert(parts.drop_last().map_values(|i: Ident| i.value@) =~= parts.map_values(|i: Ident| i.value@).drop_last());
    }
}

/// The value of an identifier and whether it is quoted.
pub open spec fn ident_views(parts: Seq<Ident>) -> Seq<(Seq<char>, bool)> {
    parts.map_values(|i: Ident| (i.value@, i.quote_style is Some))
}

/// The stored value of an identifier given as (value, quoted).
pub open spec fn stored_value(p: (Seq<char>, bool), normalize: bool) -> Seq<char> {
    if p.1 || !normalize {
        p.0
    } else {
        lower_seq(p.0)
    }
}

/// The values of a table name completed to database.schema.table and normalized.
pub open spec fn resolved_table_values(
    parts: Seq<(Seq<char>, bool)>,
    db: Seq<char>,
    schema: Seq<char>,
    normalize: bool,
) -> Seq<Seq<char>> {
    let full = if parts.len() == 1 {
        seq![(db, false), (schema, false)] + parts
    } else if parts.len() == 2 {
        seq![(db, false)] + parts
    } else {
        parts
    };
    full.map_values(|p: (Seq<char>, bool)| stored_value(p, normalize))
}

/// The values of a schema name completed to database.schema and normalized.
pub open spec fn resolved_schema_values(parts: Seq<(Seq<char>, bool)>, db: Seq<char>, normalize: bool) -> Seq<
    Seq<char>,
> {
    let full = if parts.len() == 1 {
        seq![(db, false)] + parts
    } else {
        parts
    };
    full.map_values(|p: (Seq<char>, bool)| stored_value(p, normalize))
}

/// The parts of a table name after filling in the current database and schema.
pub open spec fn completed_table_name(parts: Seq<Ident>, db: Ident, schema: Ident) -> Seq<Ident> {
    if parts.len() == 1 {
        seq![db, schema] + parts
    } else if parts.len() == 2 {
        seq![db] + parts
    } else {
        parts
    }
}

/// The name parts normalized one by one.
pub open spec fn normalized_values(parts: Seq<Ident>, normalize: bool) -> Seq<Seq<char>> {
    parts.map_values(|i: Ident| normalized_value(i, normalize))
}

fn normalize_all(parts: Vec<Ident>, normalize: bool) -> (r: Vec<Ident>)
    ensures
        r@.map_values(|i: Ident| i.value@) == normalized_values(parts@, normalize),
        r@.len() == parts@.len(),
{
    let mut out: Vec<Ident> = Vec::new();
    let mut i: usize = 0;
    while i < parts.len()
        invariant
            i <= parts@.len(),
            out@.map_values(|x: Ident| x.value@) == normalized_values(parts@.take(i as int), normalize),
            out@.len() == i,
        decreases parts@.len() - i,
    {
        let ghost prev = out@;
        let x = normalize_ident(&parts[i], normalize);
        out.push(x);
        assert(out@ == prev.push(x));
        assert(parts@.take(i as int + 1) =~= parts@.take(i as int).push(parts@[i as int]));
        assert(out@.map_values(|y: Ident| y.value@) =~= prev.map_values(|y: Ident| y.value@).push(x.value@));
        assert(normalized_values(parts@.take(i as int + 1), normalize) =~= normalized_values(parts@.take(i as int), normalize).push(normalized_value(parts@[i as int], normalize)));
        i = i + 1;
    }
    assert(parts@.take(parts@.len() as int) =~= parts@);
    out
}

/// Completes a table name to database.schema.table from the current database and schema,
/// and normalizes each part; a name of more than three parts (or none) is refused.
pub fn resolve_table_object_name(
    table_ident: Vec<Ident>,
    current_db: &String,
    current_sch: &String,
    normalize: bool,
) -> (r: Result<Vec<Ident>, QueryError>)
    ensures
        1 <= table_ident@.len() <= 3 ==> (r matches Ok(v) && v@.len() == 3
            && v@.map_values(|i: Ident| i.value@) == normalized_values(
            completed_table_name(
                table_ident@,
                Ident { value: *current_db, quote_style: None, rendered: *current_db },
                Ident { value: *current_sch, quote_style: None, rendered: *current_sch },
            ),
            normalize,
        )),
        !(1 <= table_ident@.len() <= 3) ==> (r matches Err(QueryError::InvalidTableIdentifier { ident })
            && ident@ == rendered_join(table_ident@)),
        r matches Ok(v) ==> v@.map_values(|i: Ident| i.value@) == resolved_table_values(
            ident_views(table_ident@),
            current_db@,
            current_sch@,
            normalize,
        ),
{
    let n = table_ident.len();
    if n == 0 || n > 3 {
        let text = join_parts(&table_ident, true);
        return Err(QueryError::InvalidTableIdentifier { ident: text });
    }
    let db = Ident { value: current_db.clone(), quote_style: None, rendered: current_db.clone() };
    let sch = Ident { value: current_sch.clone(), quote_style: None, rendered: current_sch.clone() };
    let ghost dbg = Ident { value: *current_db, quote_style: None, rendered: *current_db };
    let ghost schg = Ident { value: *current_sch, quote_style: None, rendered: *current_sch };
    let ghost full = completed_table_name(table_ident@, dbg, schg);
    let mut parts = table_ident;
    if n == 1 {
        parts.insert(0, db);
        parts.insert(1, sch);
    } else if n == 2 {
        parts.insert(0, db);
    }
    assert(parts@ =~= full);
    let r = normalize_all(parts, normalize);
    assert(normalized_values(full, normalize) =~= resolved_table_values(
        ident_views(table_ident@),
        current_db@,
        current_sch@,
        normalize,
    ));
    Ok(r)
}

/// The parts of a schema name after filling in the current database.
pub open spec fn completed_schema_name(parts: Seq<Ident>, db: Ident) -> Seq<Ident> {
    if parts.len() == 1 {
        seq![db] + parts
    } else {
        parts
    }
}

/// Completes a schema name to database.schema from the current database and normalizes
/// each part; a name of more than two parts (or none) is refused.
pub fn resolve_schema_object_name(
    schema_ident: Vec<Ident>,
    current_db: &String,
    normalize: bool,
) -> (r: Result<Vec<Ident>, QueryError>)
    ensures
        1 <= schema_ident@.len() <= 2 ==> (r matches Ok(v) && v@.len() == 2
            && v@.map_values(|i: Ident| i.value@) == normalized_values(
            completed_schema_name(
                schema_ident@,
                Ident { value: *current_db, quote_style: None, rendered: *current_db },
            ),
            normalize,
        )),
        !(1 <= schema_ident@.len() <= 2) ==> (r matches Err(QueryError::InvalidSchemaIdentifier { ident })
            && ident@ == rendered_join(schema_ident@)),
        r matches Ok(v) ==> v@.map_values(|i: Ident| i.value@) == resolved_schema_values(
            ident_views(schema_ident@),
            current_db@,
            normalize,
        ),
{
    let n = schema_ident.len();
    if n == 0 || n > 2 {
        let text = join_parts(&schema_ident, true);
        return Err(QueryError::InvalidSchemaIdentifier { ident: text });
    }
    let db = Ident { value: current_db.clone(), quote_style: None, rendered: current_db.clone() };
    let ghost dbg = Ident { value: *current_db, quote_style: None, rendered: *current_db };
    let ghost full = completed_schema_name(schema_ident@, dbg);
    let mut parts = schema_ident;
    if n == 1 {
        parts.insert(0, db);
    }
    assert(parts@ =~= full);
    let r = normalize_all(parts, normalize);
    assert(normalized_values(full, normalize) =~= resolved_schema_values(
        ident_views(schema_ident@),
        current_db@,
        normalize,
    ));
    Ok(r)
}


/// Head of the SHOW DATABASES query, up to the catalog.
pub const DB_LIT: &'static str = "SELECT\n                        NULL as created_on,\n                        database_name as name,\n                        'STANDARD' as kind,\n                        NULL as database_name,\n                        NULL as schema_name\n                    FROM ";
/// Head of the SHOW SCHEMAS query, up to the catalog.
pub const SCH_LIT: &'static str = "SELECT\n                        NULL as created_on,\n                        schema_name as name,\n                        NULL as kind,\n                        catalog_name as database_name,\n                        NULL as schema_name\n                    FROM ";
/// Head of the SHOW TABLES query, up to the catalog.
pub const TAB_LIT: &'static str = "SELECT\n                        NULL as created_on,\n                        table_name as name,\n                        table_type as kind,\n                        table_catalog as database_name,\n                        table_schema as schema_name\n                    FROM ";
/// Head of the SHOW VIEWS query, up to the catalog.
pub const VIEW_LIT: &'static str = "SELECT\n                        NULL as created_on,\n                        view_name as name,\n                        view_type as kind,\n                        view_catalog as database_name,\n                        view_schema as schema_name\n                    FROM ";
/// Head of the SHOW OBJECTS query, up to the catalog.
pub const OBJ_LIT: &'static str = "SELECT\n                        NULL as created_on,\n                        upper(table_name) as name,\n                        table_type as kind,\n                        upper(table_catalog) as database_name,\n                        upper(table_schema) as schema_name,\n                        is_iceberg,\n                        'N' as is_dynamic\n                    FROM ";
/// Head of the SHOW COLUMNS query, up to the catalog.
pub const COL_LIT: &'static str = "SELECT\n                        table_name as table_name,\n                        table_schema as schema_name,\n                        column_name as column_name,\n                        data_type as data_type,\n                        column_default as default,\n                        is_nullable as 'null?',\n                        column_type as kind,\n                        NULL as expression,\n                        table_catalog as database_name,\n                        NULL as autoincrement\n                    FROM ";
/// Head of the SHOW <variable> query, up to the catalog.
pub const VAR_LIT: &'static str = "SELECT\n                        NULL as created_on,\n                        NULL as updated_on,\n                        name,\n                        value,\n                        NULL as type,\n                        description as comment\n                    FROM ";
/// Middle of the SHOW <variable> query, from the catalog to the variable's name.
pub const VAR2_LIT: &'static str = ".information_schema.df_settings\n                    WHERE name = '";
/// Head of the SHOW VARIABLES query, up to the catalog.
pub const VARS_LIT: &'static str = "SELECT\n                        session_id,\n                        name AS name,\n                        value,\n                        type,\n                        description as comment,\n                        created_on,\n                        updated_on,\n                    FROM ";

/// The parts of a name as the `IN` clause of a SHOW statement gives them.
#[derive(Debug, Clone)]
pub struct ShowIn {
    /// The SQL text of each part of the parent name, when the clause names one.
    pub parent_name: Option<Vec<String>>,
}

/// A literal value of a SHOW option.
#[derive(Debug, Clone)]
pub enum SqlValue {
    SingleQuotedString(String),
    Other,
}

/// The SHOW statements, with what the executor reads of them.
#[derive(Debug, Clone)]
pub enum ShowStatement {
    Databases,
    Schemas { show_in: Option<ShowIn>, starts_with: Option<SqlValue> },
    Tables { show_in: Option<ShowIn>, starts_with: Option<SqlValue> },
    Views { show_in: Option<ShowIn>, starts_with: Option<SqlValue> },
    Objects { show_in: Option<ShowIn>, starts_with: Option<SqlValue> },
    Columns { show_in: Option<ShowIn>, starts_with: Option<SqlValue> },
    /// `SHOW <variable>`, with the variable's name as written in the settings table.
    Variable { variable: String },
    /// `SHOW VARIABLES [LIKE '<pattern>']`.
    Variables { like: Option<String> },
    /// Any other SHOW statement, with its SQL text.
    Other { text: String },
}

/// The texts of a list of strings.
pub open spec fn texts(v: Seq<String>) -> Seq<Seq<char>> {
    v.map_values(|s: String| s@)
}

/// The name parts an `IN` clause gives (none when there is no clause or no name).
pub open spec fn show_in_parts(si: Option<ShowIn>) -> Seq<Seq<char>> {
    match si {
        Some(c) => match c.parent_name {
            Some(p) => texts(p@),
            None => Seq::empty(),
        },
        None => Seq::empty(),
    }
}

/// The catalog, schema and table an `IN` clause names, filled in from the current
/// database and schema.
pub open spec fn show_in_reference(parts: Seq<Seq<char>>, table: bool, db: Seq<char>, schema: Seq<char>) -> (
    Seq<char>,
    Seq<char>,
    Seq<char>,
) {
    if parts.len() == 1 && table {
        (db, schema, parts[0])
    } else if parts.len() == 1 {
        (db, parts[0], Seq::empty())
    } else if parts.len() == 2 && table {
        (db, parts[0], parts[1])
    } else if parts.len() == 2 {
        (parts[0], parts[1], Seq::empty())
    } else if parts.len() == 3 {
        (parts[0], parts[1], parts[2])
    } else {
        (db, Seq::empty(), Seq::empty())
    }
}

/// Resolves the name of a SHOW statement's `IN` clause to (catalog, schema, table).
pub fn resolve_show_in_name(show_in: &Option<ShowIn>, table: bool, db: &String, schema: &String) -> (r: (
    String,
    String,
    String,
))
    ensures
        (r.0@, r.1@, r.2@) == show_in_reference(show_in_parts(*show_in), table, db@, schema@),
{
    let empty: Vec<String> = Vec::new();
    let parts: &Vec<String> = match show_in {
        Some(c) => match &c.parent_name {
            Some(p) => p,
            None => &empty,
        },
        None => &empty,
    };
    assert(texts(parts@) == show_in_parts(*show_in)) by {
        if show_in is None || show_in->0.parent_name is None {
            assert(texts(parts@) =~= Seq::<Seq<char>>::empty());
        }
    }
    let n = parts.len();
    if n == 1 && table {
        (db.clone(), schema.clone(), parts[0].clone())
    } else if n == 1 {
        (db.clone(), parts[0].clone(), String::new())
    } else if n == 2 && table {
        (db.clone(), parts[0].clone(), parts[1].clone())
    } else if n == 2 {
        (parts[0].clone(), parts[1].clone(), String::new())
    } else if n == 3 {
        (parts[0].clone(), parts[1].clone(), parts[2].clone())
    } else {
        (db.clone(), String::new(), String::new())
    }
}

/// A text with each single quote doubled.
pub open spec fn escape_quotes(s: Seq<char>) -> Seq<char>
    decreases s.len(),
{
    if s.len() == 0 {
        Seq::empty()
    } else {
        escape_quotes(s.drop_last()) + if s.last() == '\'' {
            seq!['\'', '\'']
        } else {
            seq![s.last()]
        }
    }
}

/// Doubles the single quotes of a text.
pub fn escape_single_quotes(s: &str) -> (r: String)
    ensures
        r@ == escape_quotes(s@),
{
    let cs = crate::text::chars_of(s);
    let mut out = String::new();
    let mut i: usize = 0;
    while i < cs.len()
        invariant
            cs@ == s@,
            i <= cs@.len(),
            out@ == escape_quotes(cs@.take(i as int)),
        decreases cs@.len() - i,
    {
        let ghost t = cs@.take(i as int + 1);
        assert(t.drop_last() =~= cs@.take(i as int));
        let c = cs[i];
        crate::text::push_char(&mut out, c);
        if c == '\'' {
            crate::text::push_char(&mut out, '\'');
        }
        assert(out@ =~= escape_quotes(t));
        i = i + 1;
    }
    assert(cs@.take(cs@.len() as int) =~= cs@);
    out
}

/// The prefix filter of a SHOW ... STARTS WITH '<prefix>' clause.
pub open spec fn starts_with_filter(sw: Option<SqlValue>, column: Seq<char>) -> Option<Seq<char>> {
    match sw {
        Some(SqlValue::SingleQuotedString(prefix)) => Some(column + " LIKE '"@ + escape_quotes(prefix@) + "%'"@),
        _ => None,
    }
}

/// Builds the LIKE filter for a STARTS WITH prefix (quotes in the prefix are doubled).
pub fn build_starts_with_filter(starts_with: &Option<SqlValue>, column_name: &str) -> (r: Option<String>)
    ensures
        match starts_with_filter(*starts_with, column_name@) {
            Some(f) => r matches Some(s) && s@ == f,
            None => r is None,
        },
{
    match starts_with {
        Some(SqlValue::SingleQuotedString(prefix)) => {
            let escaped = escape_single_quotes(prefix.as_str());
            let mut s = column_name.to_string();
            s.append(" LIKE '");
            s.append(escaped.as_str());
            s.append("%'");
            Some(s)
        },
        _ => None,
    }
}

/// Texts joined with a separator.
pub open spec fn join_texts(parts: Seq<Seq<char>>, sep: Seq<char>) -> Seq<char>
    decreases parts.len(),
{
    if parts.len() == 0 {
        Seq::empty()
    } else if parts.len() == 1 {
        parts[0]
    } else {
        join_texts(parts.drop_last(), sep) + sep + parts.last()
    }
}

/// Joins strings with a separator.
pub fn join_strings(parts: &Vec<String>, sep: &str) -> (r: String)
    ensures
        r@ == join_texts(texts(parts@), sep@),
{
    let mut s = String::new();
    let mut i: usize = 0;
    while i < parts.len()
        invariant
            i <= parts@.len(),
            s@ == join_texts(texts(parts@.take(i as int)), sep@),
        decreases parts@.len() - i,
    {
        let ghost t = texts(parts@.take(i as int + 1));
        assert(t.drop_last() =~= texts(parts@.take(i as int)));
        if i > 0 {
            s.append(sep);
        }
        s.append(parts[i].as_str());
        assert(s@ =~= join_texts(t, sep@));
        i = i + 1;
    }
    assert(parts@.take(parts@.len() as int) =~= parts@);
    s
}

/// A query with its filters: " WHERE " and the filters joined with " AND ", when there are
/// any.
pub open spec fn filtered_sql(sql: Seq<char>, filters: Seq<Seq<char>>) -> Seq<char> {
    if filters.len() == 0 {
        sql
    } else {
        sql + " WHERE "@ + join_texts(filters, " AND "@)
    }
}

/// Adds the filters of a SHOW statement to its query.
pub fn apply_show_filters(sql: String, filters: &Vec<String>) -> (r: String)
    ensures
        r@ == filtered_sql(sql@, texts(filters@)),
{
    if filters.len() == 0 {
        sql
    } else {
        let mut s = sql;
        s.append(" WHERE ");
        let j = join_strings(filters, " AND ");
        s.append(j.as_str());
        s
    }
}

/// The filter list an optional filter gives.
pub open spec fn opt_filter(f: Option<Seq<char>>) -> Seq<Seq<char>> {
    match f {
        Some(x) => seq![x],
        None => Seq::empty(),
    }
}

/// The filter on a schema column, when the reference names a non-empty schema.
pub open spec fn schema_filter(column: Seq<char>, schema: Seq<char>) -> Seq<Seq<char>> {
    if schema.len() > 0 {
        seq![column + " = '"@ + schema + "'"@]
    } else {
        Seq::empty()
    }
}

/// The query text a SHOW statement runs, or `None` when the statement is not supported.
pub open spec fn show_sql(stmt: ShowStatement, db: Seq<char>, schema: Seq<char>) -> Option<Seq<char>> {
    match stmt {
        ShowStatement::Databases => Some(DB_LIT@ + db + ".information_schema.databases"@),
        ShowStatement::Schemas { show_in, starts_with } => {
            let r = show_in_reference(show_in_parts(show_in), false, db, schema);
            Some(filtered_sql(
                SCH_LIT@ + r.0 + ".information_schema.schemata"@,
                opt_filter(starts_with_filter(starts_with, "schema_name"@)),
            ))
        },
        ShowStatement::Tables { show_in, starts_with } => {
            let r = show_in_reference(show_in_parts(show_in), false, db, schema);
            Some(filtered_sql(
                TAB_LIT@ + r.0 + ".information_schema.tables"@,
                seq!["table_type = 'TABLE'"@] + opt_filter(starts_with_filter(starts_with, "table_name"@))
                    + schema_filter("table_schema"@, r.1),
            ))
        },
        ShowStatement::Views { show_in, starts_with } => {
            let r = show_in_reference(show_in_parts(show_in), false, db, schema);
            Some(filtered_sql(
                VIEW_LIT@ + r.0 + ".information_schema.views"@,
                opt_filter(starts_with_filter(starts_with, "view_name"@)) + schema_filter("view_schema"@, r.1),
            ))
        },
        ShowStatement::Objects { show_in, starts_with } => {
            let r = show_in_reference(show_in_parts(show_in), false, db, schema);
            Some(filtered_sql(
                OBJ_LIT@ + r.0 + ".information_schema.tables"@,
                opt_filter(starts_with_filter(starts_with, "table_name"@)) + schema_filter("table_schema"@, r.1),
            ))
        },
        ShowStatement::Columns { show_in, starts_with } => {
            let r = show_in_reference(show_in_parts(show_in), true, db, schema);
            Some(filtered_sql(
                COL_LIT@ + r.0 + ".information_schema.columns"@,
                opt_filter(starts_with_filter(starts_with, "column_name"@)) + schema_filter("table_schema"@, r.1)
                    + if show_in is Some {
                    seq!["table_name = '"@ + r.2 + "'"@]
                } else {
                    Seq::empty()
                },
            ))
        },
        ShowStatement::Variable { variable } => Some(VAR_LIT@ + db + VAR2_LIT@ + variable@ + "'"@),
        ShowStatement::Variables { like } => Some(filtered_sql(
            VARS_LIT@ + db + ".information_schema.df_settings"@,
            seq!["session_id is NOT NULL"@] + match like {
                Some(p) => seq!["name LIKE '"@ + p@ + "'"@],
                None => Seq::empty(),
            },
        )),
        ShowStatement::Other { .. } => None,
    }
}

fn push_opt(filters: &mut Vec<String>, f: Option<String>)
    ensures
        texts(final(filters)@) == texts(old(filters)@) + opt_filter(match f {
            Some(s) => Some(s@),
            None => None,
        }),
{
    match f {
        Some(s) => {
            filters.push(s);
            assert(texts(filters@) =~= texts(old(filters)@) + seq![s@]);
        },
        None => {
            assert(texts(filters@) =~= texts(old(filters)@) + Seq::<Seq<char>>::empty());
        },
    }
}

fn push_schema_filter(filters: &mut Vec<String>, column: &str, schema: &String)
    ensures
        texts(final(filters)@) == texts(old(filters)@) + schema_filter(column@, schema@),
{
    if schema.as_str().unicode_len() > 0 {
        let mut f = column.to_string();
        f.append(" = '");
        f.append(schema.as_str());
        f.append("'");
        filters.push(f);
        assert(texts(filters@) =~= texts(old(filters)@) + schema_filter(column@, schema@));
    } else {
        assert(texts(filters@) =~= texts(old(filters)@) + schema_filter(column@, schema@));
    }
}

fn cat3(a: &str, b: &str, c: &str) -> (r: String)
    ensures
        r@ == a@ + b@ + c@,
{
    let mut s = a.to_string();
    s.append(b);
    s.append(c);
    s
}

/// The query that answers a SHOW statement, with names resolved against the current
/// database and schema; an unsupported SHOW statement is refused.
pub fn show_query_sql(stmt: &ShowStatement, db: &String, schema: &String) -> (r: Result<String, QueryError>)
    ensures
        match show_sql(*stmt, db@, schema@) {
            Some(q) => r matches Ok(s) && s@ == q,
            None => r matches Err(QueryError::UnsupportedShowStatement { statement }) && statement@
                == stmt->Other_text@,
        },
{
    match stmt {
        ShowStatement::Databases => Ok(cat3(DB_LIT, db.as_str(), ".information_schema.databases")),
        ShowStatement::Schemas { show_in, starts_with } => {
            let r = resolve_show_in_name(show_in, false, db, schema);
            let sql = cat3(SCH_LIT, r.0.as_str(), ".information_schema.schemata");
            let mut filters: Vec<String> = Vec::new();
            push_opt(&mut filters, build_starts_with_filter(starts_with, "schema_name"));
            assert(texts(filters@) =~= opt_filter(starts_with_filter(*starts_with, "schema_name"@)));
            Ok(apply_show_filters(sql, &filters))
        },
        ShowStatement::Tables { show_in, starts_with } => {
            let r = resolve_show_in_name(show_in, false, db, schema);
            let sql = cat3(TAB_LIT, r.0.as_str(), ".information_schema.tables");
            let mut filters: Vec<String> = Vec::new();
            filters.push("table_type = 'TABLE'".to_string());
            push_opt(&mut filters, build_starts_with_filter(starts_with, "table_name"));
            push_schema_filter(&mut filters, "table_schema", &r.1);
            assert(texts(filters@) =~= seq!["table_type = 'TABLE'"@] + opt_filter(starts_with_filter(*starts_with, "table_name"@))
                + schema_filter("table_schema"@, r.1@));
            Ok(apply_show_filters(sql, &filters))
        },
        ShowStatement::Views { show_in, starts_with } => {
            let r = resolve_show_in_name(show_in, false, db, schema);
            let sql = cat3(VIEW_LIT, r.0.as_str(), ".information_schema.views");
            let mut filters: Vec<String> = Vec::new();
            push_opt(&mut filters, build_starts_with_filter(starts_with, "view_name"));
            push_schema_filter(&mut filters, "view_schema", &r.1);
            assert(texts(filters@) =~= opt_filter(starts_with_filter(*starts_with, "view_name"@)) + schema_filter("view_schema"@, r.1@));
            Ok(apply_show_filters(sql, &filters))
        },
        ShowStatement::Objects { show_in, starts_with } => {
            let r = resolve_show_in_name(show_in, false, db, schema);
            let sql = cat3(OBJ_LIT, r.0.as_str(), ".information_schema.tables");
            let mut filters: Vec<String> = Vec::new();
            push_opt(&mut filters, build_starts_with_filter(starts_with, "table_name"));
            push_schema_filter(&mut filters, "table_schema", &r.1);
            assert(texts(filters@) =~= opt_filter(starts_with_filter(*starts_with, "table_name"@)) + schema_filter("table_schema"@, r.1@));
            Ok(apply_show_filters(sql, &filters))
        },
        ShowStatement::Columns { show_in, starts_with } => {
            let r = resolve_show_in_name(show_in, true, db, schema);
            let sql = cat3(COL_LIT, r.0.as_str(), ".information_schema.columns");
            let mut filters: Vec<String> = Vec::new();
            push_opt(&mut filters, build_starts_with_filter(starts_with, "column_name"));
            push_schema_filter(&mut filters, "table_schema", &r.1);
            let ghost before = texts(filters@);
            if show_in.is_some() {
                filters.push(cat3("table_name = '", r.2.as_str(), "'"));
                assert(texts(filters@) =~= before + seq!["table_name = '"@ + r.2@ + "'"@]);
            } else {
                assert(texts(filters@) =~= before + Seq::<Seq<char>>::empty());
            }
            Ok(apply_show_filters(sql, &filters))
        },
        ShowStatement::Variable { variable } => {
            let mut s = cat3(VAR_LIT, db.as_str(), VAR2_LIT);
            s.append(variable.as_str());
            s.append("'");
            Ok(s)
        },
        ShowStatement::Variables { like } => {
            let sql = cat3(VARS_LIT, db.as_str(), ".information_schema.df_settings");
            let mut filters: Vec<String> = Vec::new();
            filters.push("session_id is NOT NULL".to_string());
            match like {
                Some(p) => {
                    filters.push(cat3("name LIKE '", p.as_str(), "'"));
                },
                None => {},
            }
            assert(texts(filters@) =~= seq!["session_id is NOT NULL"@] + match *like {
                Some(p) => seq!["name LIKE '"@ + p@ + "'"@],
                None => Seq::<Seq<char>>::empty(),
            });
            Ok(apply_show_filters(sql, &filters))
        },
        ShowStatement::Other { text } => Err(QueryError::UnsupportedShowStatement { statement: text.clone() }),
    }
}


/// The SQL that empties a table: it is replaced by an empty copy of itself.
pub open spec fn truncate_sql(table: Seq<char>) -> Seq<char> {
    "CREATE OR REPLACE TABLE "@ + table + " as (SELECT * FROM "@ + table + " WHERE FALSE)"@
}

/// The statement TRUNCATE runs: the first named table, resolved, replaced by an empty copy
/// of itself. A TRUNCATE without tables, or with a bad table name, is refused.
pub fn truncate_table_sql(
    table_names: Vec<Vec<Ident>>,
    db: &String,
    schema: &String,
    normalize: bool,
) -> (r: Result<String, QueryError>)
    ensures
        table_names@.len() == 0 ==> r == Err::<String, QueryError>(QueryError::NoTableNamesForTruncateTable),
        table_names@.len() > 0 && 1 <= table_names@[0]@.len() <= 3 ==> (r matches Ok(s) && s@ == truncate_sql(
            join_texts(resolved_table_values(ident_views(table_names@[0]@), db@, schema@, normalize), "."@),
        )),
        table_names@.len() > 0 && !(1 <= table_names@[0]@.len() <= 3) ==> r is Err,
{
    let ghost old_names = table_names;
    let mut table_names = table_names;
    if table_names.len() == 0 {
        return Err(QueryError::NoTableNamesForTruncateTable);
    }
    let first = table_names.remove(0);
    assert(first@ == old_names@[0]@);
    let resolved = match resolve_table_object_name(first, db, schema, normalize) {
        Ok(v) => v,
        Err(e) => {
            return Err(e);
        },
    };
    let name = normalized_ident_text(&resolved);
    let mut s = "CREATE OR REPLACE TABLE ".to_string();
    s.append(name.as_str());
    s.append(" as (SELECT * FROM ");
    s.append(name.as_str());
    s.append(" WHERE FALSE)");
    Ok(s)
}

/// Text with every '@' removed.
pub open spec fn without_at(s: Seq<char>) -> Seq<char>
    decreases s.len(),
{
    if s.len() == 0 {
        Seq::empty()
    } else {
        without_at(s.drop_last()) + if s.last() == '@' {
            Seq::empty()
        } else {
            seq![s.last()]
        }
    }
}

fn remove_at_signs(s: &str) -> (r: String)
    ensures
        r@ == without_at(s@),
{
    let cs = crate::text::chars_of(s);
    let mut out = String::new();
    let mut i: usize = 0;
    while i < cs.len()
        invariant
            cs@ == s@,
            i <= cs@.len(),
            out@ == without_at(cs@.take(i as int)),
        decreases cs@.len() - i,
    {
        let ghost t = cs@.take(i as int + 1);
        assert(t.drop_last() =~= cs@.take(i as int));
        if cs[i] != '@' {
            crate::text::push_char(&mut out, cs[i]);
        }
        assert(out@ =~= without_at(t));
        i = i + 1;
    }
    assert(cs@.take(cs@.len() as int) =~= cs@);
    out
}

/// The INSERT that COPY INTO runs: the rows of the stage (its name without '@') are
/// inserted into the target table, both names resolved. COPY INTO without a source is
/// refused.
pub fn copy_into_sql(
    into: Vec<Ident>,
    from_obj: Option<Vec<String>>,
    db: &String,
    schema: &String,
    normalize: bool,
) -> (r: Result<String, QueryError>)
    ensures
        from_obj is None ==> r == Err::<String, QueryError>(QueryError::FromObjectRequiredForCopyIntoStatements),
        from_obj is Some && !(1 <= into@.len() <= 3) ==> r is Err,
        from_obj is Some && 1 <= into@.len() <= 3 && 1 <= from_obj->0@.len() <= 3 ==> (r matches Ok(s) && s@
            == "INSERT INTO "@ + join_texts(resolved_table_values(ident_views(into@), db@, schema@, normalize), "."@)
            + " SELECT * FROM "@ + join_texts(
            resolved_table_values(
                texts(from_obj->0@).map_values(|t: Seq<char>| (without_at(t), false)),
                db@,
                schema@,
                normalize,
            ),
            "."@,
        )),
        from_obj is Some && !(1 <= from_obj->0@.len() <= 3) ==> r is Err,
{
    match from_obj {
        Some(parts) => {
            let mut from_stage: Vec<Ident> = Vec::new();
            let mut i: usize = 0;
            while i < parts.len()
                invariant
                    i <= parts@.len(),
                    from_stage@.len() == i,
                    forall|j: int| 0 <= j < i ==> (#[trigger] from_stage@[j]).value@ == without_at(parts@[j]@)
                        && from_stage@[j].quote_style is None,
                decreases parts@.len() - i,
            {
                from_stage.push(Ident::new(remove_at_signs(parts[i].as_str())));
                i = i + 1;
            }
            assert(ident_views(from_stage@) =~= texts(parts@).map_values(|t: Seq<char>| (without_at(t), false)));
            let insert_into = match resolve_table_object_name(into, db, schema, normalize) {
                Ok(v) => v,
                Err(e) => {
                    return Err(e);
                },
            };
            let insert_from = match resolve_table_object_name(from_stage, db, schema, normalize) {
                Ok(v) => v,
                Err(e) => {
                    return Err(e);
                },
            };
            let a = normalized_ident_text(&insert_into);
            let b = normalized_ident_text(&insert_from);
            let mut s = "INSERT INTO ".to_string();
            s.append(a.as_str());
            s.append(" SELECT * FROM ");
            s.append(b.as_str());
            Ok(s)
        },
        None => Err(QueryError::FromObjectRequiredForCopyIntoStatements),
    }
}

/// An expression of a MERGE's ON condition, as far as the filter of unmatched rows reads
/// it.
#[derive(Debug)]
pub enum MergeExpr {
    /// `a.b...`: the values of the parts.
    CompoundIdentifier(Vec<String>),
    /// A binary operation.
    BinaryOp(Box<MergeExpr>, Box<MergeExpr>),
    /// Anything else.
    Other,
}

/// The target columns an ON condition compares: every compound identifier of more than one
/// part that starts with the target's alias, left to right.
pub open spec fn where_columns(e: MergeExpr, alias: Seq<char>) -> Seq<Seq<char>>
    decreases e,
{
    match e {
        MergeExpr::CompoundIdentifier(parts) => if parts@.len() > 1 && parts@[0]@ == alias {
            seq![join_texts(texts(parts@), "."@)]
        } else {
            Seq::empty()
        },
        MergeExpr::BinaryOp(l, r) => where_columns(*l, alias) + where_columns(*r, alias),
        MergeExpr::Other => Seq::empty(),
    }
}

/// Collects the target columns an ON condition compares.
pub fn get_expr_where_clause(expr: &MergeExpr, target_alias: &str) -> (r: Vec<String>)
    ensures
        texts(r@) == where_columns(*expr, target_alias@),
    decreases expr,
{
    match expr {
        MergeExpr::CompoundIdentifier(parts) => {
            if parts.len() > 1 && str_eq(parts[0].as_str(), target_alias) {
                let mut v: Vec<String> = Vec::new();
                v.push(join_strings(parts, "."));
                assert(texts(v@) =~= where_columns(*expr, target_alias@));
                v
            } else {
                let v: Vec<String> = Vec::new();
                assert(texts(v@) =~= where_columns(*expr, target_alias@));
                v
            }
        },
        MergeExpr::BinaryOp(l, r) => {
            let mut left = get_expr_where_clause(l, target_alias);
            let right = get_expr_where_clause(r, target_alias);
            let ghost lv = texts(left@);
            let mut i: usize = 0;
            while i < right.len()
                invariant
                    i <= right@.len(),
                    texts(left@) == lv + texts(right@).take(i as int),
                decreases right@.len() - i,
            {
                let ghost prev = left@;
                let x = right[i].clone();
                left.push(x);
                assert(left@ == prev.push(x));
                assert(texts(left@) =~= texts(prev).push(x@));
                assert(texts(right@).take(i as int + 1) =~= texts(right@).take(i as int).push(texts(right@)[i as int]));
                assert(texts(left@) =~= lv + texts(right@).take(i as int + 1));
                i = i + 1;
            }
            assert(texts(right@).take(right@.len() as int) =~= texts(right@));
            left
        },
        MergeExpr::Other => {
            let v: Vec<String> = Vec::new();
            assert(texts(v@) =~= where_columns(*expr, target_alias@));
            v
        },
    }
}

/// A table reference of a MERGE, as far as the executor reads it.
#[derive(Debug, Clone)]
pub enum TableFactor {
    /// A named table, with its alias as SQL text.
    Table { name: Vec<Ident>, alias: Option<String> },
    /// A subquery, with its alias as SQL text.
    Derived { alias: Option<String> },
    Other,
}

/// The name and alias of a table reference (a subquery has no name).
pub open spec fn table_with_alias(f: TableFactor) -> (Seq<Ident>, Seq<char>) {
    match f {
        TableFactor::Table { name, alias } => (name@, match alias {
            Some(a) => a@,
            None => Seq::empty(),
        }),
        TableFactor::Derived { alias } => (Seq::empty(), match alias {
            Some(a) => a@,
            None => Seq::empty(),
        }),
        TableFactor::Other => (Seq::empty(), Seq::empty()),
    }
}

fn opt_text(o: &Option<String>) -> (r: String)
    ensures
        r@ == match *o {
            Some(a) => a@,
            None => Seq::<char>::empty(),
        },
{
    match o {
        Some(a) => a.clone(),
        None => String::new(),
    }
}

/// The name and alias of a table reference.
pub fn get_table_with_alias(factor: &TableFactor) -> (r: (Vec<Ident>, String))
    ensures
        r.0@ == table_with_alias(*factor).0,
        r.1@ == table_with_alias(*factor).1,
{
    match factor {
        TableFactor::Table { name, alias } => {
            let mut n: Vec<Ident> = Vec::new();
            let mut i: usize = 0;
            while i < name.len()
                invariant
                    i <= name@.len(),
                    n@ == name@.take(i as int),
                decreases name@.len() - i,
            {
                n.push(name[i].clone_ident());
                assert(n@ =~= name@.take(i as int + 1));
                i = i + 1;
            }
            assert(name@.take(name@.len() as int) =~= name@);
            (n, opt_text(alias))
        },
        TableFactor::Derived { alias } => (Vec::new(), opt_text(alias)),
        TableFactor::Other => (Vec::new(), String::new()),
    }
}

impl Ident {
    /// A copy of this identifier, equal to it.
    pub fn clone_ident(&self) -> (r: Ident)
        ensures
            r == *self,
    {
        Ident { value: self.value.clone(), quote_style: self.quote_style, rendered: self.rendered.clone() }
    }
}

/// An insert of a MERGE's WHEN NOT MATCHED clause: its columns and, for a VALUES insert,
/// the values of its rows, as SQL text.
#[derive(Debug, Clone)]
pub struct MergeInsert {
    pub columns: Vec<String>,
    pub values: Option<Vec<String>>,
}

/// A clause of a MERGE.
#[derive(Debug, Clone)]
pub struct MergeClause {
    pub not_matched: bool,
    pub insert: Option<MergeInsert>,
}

/// A MERGE statement, as far as the executor reads it.
#[derive(Debug)]
pub struct MergeStatement {
    pub table: TableFactor,
    pub source: TableFactor,
    /// The source as SQL text (for a subquery, without its alias).
    pub source_text: String,
    pub on: MergeExpr,
    /// The ON condition as SQL text.
    pub on_text: String,
    pub clauses: Vec<MergeClause>,
}

/// The columns and values the last WHEN NOT MATCHED ... INSERT clauses give: the columns
/// of the last such clause, and the values of the last one that lists values.
pub open spec fn merge_insert_parts(clauses: Seq<MergeClause>, source_alias: Seq<char>) -> (Seq<char>, Seq<char>)
    decreases clauses.len(),
{
    if clauses.len() == 0 {
        (Seq::empty(), Seq::empty())
    } else {
        let prev = merge_insert_parts(clauses.drop_last(), source_alias);
        let c = clauses.last();
        if c.not_matched && c.insert is Some {
            let ins = c.insert->0;
            (join_texts(texts(ins.columns@), ", "@), match ins.values {
                Some(v) => join_texts(texts(v@).map_values(|x: Seq<char>| source_alias + "."@ + x), ", "@),
                None => prev.1,
            })
        } else {
            prev
        }
    }
}

/// The source of the INSERT a MERGE runs: a subquery gets its alias back after it.
pub open spec fn merge_source_query(source: TableFactor, source_text: Seq<char>) -> Seq<char> {
    match source {
        TableFactor::Derived { alias } => match alias {
            Some(a) => source_text + " "@ + a@,
            None => source_text,
        },
        _ => source_text,
    }
}

/// The filter that keeps the source rows no target row matched.
pub open spec fn merge_where(cols: Seq<Seq<char>>) -> Seq<char> {
    if cols.len() == 0 {
        Seq::empty()
    } else {
        " WHERE "@ + join_texts(cols.map_values(|c: Seq<char>| c + " IS NULL"@), " AND "@)
    }
}

/// The INSERT a MERGE runs for its target (written `target`).
pub open spec fn merge_sql(m: MergeStatement, target: Seq<char>) -> Seq<char> {
    let talias = table_with_alias(m.table).1;
    let salias = table_with_alias(m.source).1;
    let parts = merge_insert_parts(m.clauses@, salias);
    "INSERT INTO "@ + target + " ("@ + parts.0 + ") "@ + "SELECT "@ + parts.1 + " FROM "@ + merge_source_query(
        m.source,
        m.source_text@,
    ) + " LEFT JOIN "@ + target + " "@ + talias + " ON "@ + m.on_text@ + merge_where(
        where_columns(m.on, talias),
    )
}

fn prefixed_values(values: &Vec<String>, alias: &String) -> (r: Vec<String>)
    ensures
        texts(r@) == texts(values@).map_values(|x: Seq<char>| alias@ + "."@ + x),
{
    let mut out: Vec<String> = Vec::new();
    let mut i: usize = 0;
    while i < values.len()
        invariant
            i <= values@.len(),
            texts(out@) == texts(values@.take(i as int)).map_values(|x: Seq<char>| alias@ + "."@ + x),
        decreases values@.len() - i,
    {
        let ghost prev = out@;
        let x = cat3(alias.as_str(), ".", values[i].as_str());
        out.push(x);
        assert(out@ == prev.push(x));
        assert(texts(out@) =~= texts(prev).push(x@));
        assert(values@.take(i as int + 1) =~= values@.take(i as int).push(values@[i as int]));
        assert(texts(values@.take(i as int + 1)) =~= texts(values@.take(i as int)).push(values@[i as int]@));
        assert(texts(out@) =~= texts(values@.take(i as int + 1)).map_values(|x: Seq<char>| alias@ + "."@ + x));
        i = i + 1;
    }
    assert(values@.take(values@.len() as int) =~= values@);
    out
}

/// The INSERT ... SELECT that a MERGE runs: the source rows that no target row matched
/// (the target columns of the ON condition are null after a LEFT JOIN) are inserted with
/// the columns and values of the WHEN NOT MATCHED clause. The target name is resolved; a
/// bad one is refused.
pub fn merge_query_sql(m: &MergeStatement, db: &String, schema: &String, normalize: bool) -> (r: Result<
    String,
    QueryError,
>)
    ensures
        1 <= table_with_alias(m.table).0.len() <= 3 ==> (r matches Ok(s) && s@ == merge_sql(
            *m,
            join_texts(resolved_table_values(ident_views(table_with_alias(m.table).0), db@, schema@, normalize), "."@),
        )),
        !(1 <= table_with_alias(m.table).0.len() <= 3) ==> r is Err,
{
    let (target_name, target_alias) = get_table_with_alias(&m.table);
    let (_source_name, source_alias) = get_table_with_alias(&m.source);
    let resolved = match resolve_table_object_name(target_name, db, schema, normalize) {
        Ok(v) => v,
        Err(e) => {
            return Err(e);
        },
    };
    let target = normalized_ident_text(&resolved);
    let source_query = match &m.source {
        TableFactor::Derived { alias } => match alias {
            Some(a) => cat3(m.source_text.as_str(), " ", a.as_str()),
            None => m.source_text.clone(),
        },
        _ => m.source_text.clone(),
    };
    let cols = get_expr_where_clause(&m.on, target_alias.as_str());
    let mut nulls: Vec<String> = Vec::new();
    let mut i: usize = 0;
    while i < cols.len()
        invariant
            i <= cols@.len(),
            texts(nulls@) == texts(cols@.take(i as int)).map_values(|c: Seq<char>| c + " IS NULL"@),
        decreases cols@.len() - i,
    {
        let ghost prev = nulls@;
        let x = concat(cols[i].as_str(), " IS NULL");
        nulls.push(x);
        assert(nulls@ == prev.push(x));
        assert(texts(nulls@) =~= texts(prev).push(x@));
        assert(cols@.take(i as int + 1) =~= cols@.take(i as int).push(cols@[i as int]));
        assert(texts(cols@.take(i as int + 1)) =~= texts(cols@.take(i as int)).push(cols@[i as int]@));
        assert(texts(nulls@) =~= texts(cols@.take(i as int + 1)).map_values(|c: Seq<char>| c + " IS NULL"@));
        i = i + 1;
    }
    assert(cols@.take(cols@.len() as int) =~= cols@);
    let where_str = if nulls.len() == 0 {
        String::new()
    } else {
        concat(" WHERE ", join_strings(&nulls, " AND ").as_str())
    };
    let mut columns = String::new();
    let mut values = String::new();
    let mut k: usize = 0;
    while k < m.clauses.len()
        invariant
            k <= m.clauses@.len(),
            (columns@, values@) == merge_insert_parts(m.clauses@.take(k as int), source_alias@),
        decreases m.clauses@.len() - k,
    {
        let ghost t = m.clauses@.take(k as int + 1);
        assert(t.drop_last() =~= m.clauses@.take(k as int));
        let c = &m.clauses[k];
        if c.not_matched {
            match &c.insert {
                Some(ins) => {
                    columns = join_strings(&ins.columns, ", ");
                    match &ins.values {
                        Some(v) => {
                            values = join_strings(&prefixed_values(v, &source_alias), ", ");
                        },
                        None => {},
                    }
                },
                None => {},
            }
        }
        k = k + 1;
    }
    assert(m.clauses@.take(m.clauses@.len() as int) =~= m.clauses@);
    let mut s = "INSERT INTO ".to_string();
    s.append(target.as_str());
    s.append(" (");
    s.append(columns.as_str());
    s.append(") ");
    s.append("SELECT ");
    s.append(values.as_str());
    s.append(" FROM ");
    s.append(source_query.as_str());
    s.append(" LEFT JOIN ");
    s.append(target.as_str());
    s.append(" ");
    s.append(target_alias.as_str());
    s.append(" ON ");
    s.append(m.on_text.as_str());
    s.append(where_str.as_str());
    assert(s@ =~= merge_sql(*m, target@));
    Ok(s)
}


/// An option of a stage's FILE_FORMAT.
#[derive(Debug, Clone)]
pub struct FormatOption {
    pub option_name: String,
    pub value: String,
}

/// Whether the file format skips a header line (SKIP_HEADER = 1, any case).
pub open spec fn stage_skip_header(opts: Seq<FormatOption>) -> bool {
    exists|i: int|
        0 <= i < opts.len() && eq_ignore_ascii_case((#[trigger] opts[i]).option_name@, "skip_header"@)
            && eq_ignore_ascii_case(opts[i].value@, "1"@)
}

/// The first FIELD_OPTIONALLY_ENCLOSED_BY option among those from `k` on.
pub open spec fn quote_option_from(opts: Seq<FormatOption>, k: int) -> Option<int>
    decreases opts.len() - k,
{
    if k < 0 || k >= opts.len() {
        None
    } else if eq_ignore_ascii_case(opts[k].option_name@, "field_optionally_enclosed_by"@) {
        Some(k)
    } else {
        quote_option_from(opts, k + 1)
    }
}

/// The quote byte of a stage's CSV: the first byte of the first FIELD_OPTIONALLY_ENCLOSED_BY
/// value, '"' when there is none or that value is empty.
pub open spec fn stage_quote(opts: Seq<FormatOption>) -> u8 {
    match quote_option_from(opts, 0) {
        Some(i) => if opts[i].value@.len() > 0 {
            encode_utf8(opts[i].value@)[0]
        } else {
            34
        },
        None => 34,
    }
}

/// The CSV reading options of a stage: whether a header is skipped and the quote byte.
pub fn stage_csv_options(opts: &Vec<FormatOption>) -> (r: (bool, u8))
    ensures
        r.0 == stage_skip_header(opts@),
        r.1 == stage_quote(opts@),
{
    let mut skip = false;
    let mut i: usize = 0;
    while i < opts.len()
        invariant
            i <= opts@.len(),
            skip == exists|j: int|
                0 <= j < i && eq_ignore_ascii_case((#[trigger] opts@[j]).option_name@, "skip_header"@)
                    && eq_ignore_ascii_case(opts@[j].value@, "1"@),
        decreases opts@.len() - i,
    {
        if str_eq_ignore_ascii_case(opts[i].option_name.as_str(), "skip_header")
            && str_eq_ignore_ascii_case(opts[i].value.as_str(), "1") {
            skip = true;
        }
        i = i + 1;
    }
    assert(skip == stage_skip_header(opts@));
    let mut quote: u8 = 34;
    let mut k: usize = 0;
    while k < opts.len()
        invariant
            skip == stage_skip_header(opts@),
            quote == 34,
            k <= opts@.len(),
            quote_option_from(opts@, 0) == quote_option_from(opts@, k as int),
        decreases opts@.len() - k,
    {
        if str_eq_ignore_ascii_case(opts[k].option_name.as_str(), "field_optionally_enclosed_by") {
            assert(quote_option_from(opts@, k as int) == Some(k as int));
            if opts[k].value.as_str().unicode_len() == 0 {
                return (skip, quote);
            }
            let bytes = opts[k].value.as_str().as_bytes();
            assert(encode_utf8(opts@[k as int].value@).len() > 0) by {
                reveal_with_fuel(encode_utf8, 1);
            }
            quote = bytes[0];
            assert(quote_option_from(opts@, k as int) == Some(k as int));
            return (skip, quote);
        }
        k = k + 1;
    }
    assert(quote_option_from(opts@, k as int) is None);
    (skip, quote)
}

/// The table a stage is registered as: the value of the last part of its name. A stage
/// without a name is refused.
pub fn stage_table_name(name: &Vec<Ident>) -> (r: Result<String, QueryError>)
    ensures
        name@.len() > 0 ==> (r matches Ok(t) && t@ == name@.last().value@),
        name@.len() == 0 ==> (r matches Err(QueryError::InvalidTableIdentifier { ident }) && ident@ == rendered_join(name@)),
{
    if name.len() == 0 {
        return Err(QueryError::InvalidTableIdentifier { ident: join_parts(name, true) });
    }
    Ok(name[name.len() - 1].value.clone())
}

/// The bucket a stage's files are read from: the host of its URL ("" when it has none). A
/// URL that does not parse is refused.
pub fn stage_bucket(file_path: &String) -> (r: Result<String, QueryError>)
    ensures
        match url_parse_view(file_path@) {
            Ok(p) => r matches Ok(b) && b@ == match p.0 {
                Some(h) => h,
                None => Seq::<char>::empty(),
            },
            Err(_) => r matches Err(QueryError::InvalidFilePath { path }) && path@ == file_path@,
        },
{
    match parse_url(file_path.as_str()) {
        Ok((host, _path, _scheme, _port)) => match host {
            Some(h) => Ok(h),
            None => Ok(String::new()),
        },
        Err(_) => Err(QueryError::InvalidFilePath { path: file_path.clone() }),
    }
}

/// The fields a staged CSV is registered with: its inferred fields, with text for the
/// columns whose type could not be inferred.
pub fn csv_fields_with_defaults(fields: &Vec<Field>) -> (r: Vec<Field>)
    ensures
        r@.len() == fields@.len(),
        forall|i: int|
            0 <= i < r@.len() ==> {
                &&& (#[trigger] r@[i]).name == fields@[i].name
                &&& r@[i].nullable == fields@[i].nullable
                &&& r@[i].metadata@.len() == 0
                &&& r@[i].data_type == if fields@[i].data_type == DataType::Null {
                    DataType::Utf8
                } else {
                    fields@[i].data_type
                }
            },
{
    let mut out: Vec<Field> = Vec::new();
    let mut i: usize = 0;
    while i < fields.len()
        invariant
            i <= fields@.len(),
            out@.len() == i,
            forall|j: int|
                0 <= j < i ==> {
                    &&& (#[trigger] out@[j]).name == fields@[j].name
                    &&& out@[j].nullable == fields@[j].nullable
                    &&& out@[j].metadata@.len() == 0
                    &&& out@[j].data_type == if fields@[j].data_type == DataType::Null {
                        DataType::Utf8
                    } else {
                        fields@[j].data_type
                    }
                },
        decreases fields@.len() - i,
    {
        let f = &fields[i];
        let t = match &f.data_type {
            DataType::Null => DataType::Utf8,
            other => other.copy(),
        };
        out.push(Field::new(f.name.clone(), t, f.nullable));
        i = i + 1;
    }
    out
}

/// What creating an object that may exist comes to.
#[derive(Debug, Clone, Copy, PartialEq, Eq, Structural)]
pub enum CreateOutcome {
    /// The object exists and IF NOT EXISTS was given: nothing to do.
    AlreadyExists,
    /// The object exists and OR REPLACE was given: drop it, then create it.
    Replace,
    /// The object does not exist: create it.
    Create,
}

/// The outcome of CREATE TABLE for a table that may exist.
pub fn create_table_outcome(table_exists: bool, if_not_exists: bool, or_replace: bool, name: &String) -> (r: Result<
    CreateOutcome,
    QueryError,
>)
    ensures
        !table_exists ==> r == Ok::<CreateOutcome, QueryError>(CreateOutcome::Create),
        table_exists && if_not_exists ==> r == Ok::<CreateOutcome, QueryError>(CreateOutcome::AlreadyExists),
        table_exists && !if_not_exists && or_replace ==> r == Ok::<CreateOutcome, QueryError>(CreateOutcome::Replace),
        table_exists && !if_not_exists && !or_replace ==> (r matches Err(QueryError::ObjectAlreadyExists { object_type, name: n })
            && object_type@ == "table"@ && n@ == name@),
{
    if table_exists {
        if if_not_exists {
            return Ok(CreateOutcome::AlreadyExists);
        }
        if or_replace {
            return Ok(CreateOutcome::Replace);
        }
        return Err(QueryError::ObjectAlreadyExists { object_type: "table".to_string(), name: name.clone() });
    }
    Ok(CreateOutcome::Create)
}

/// A CREATE TABLE statement, as far as preparing it reads and changes it.
#[derive(Debug)]
pub struct CreateTableStmt {
    pub name: Vec<Ident>,
    pub location: Option<String>,
    pub base_location: Option<String>,
    pub transient: bool,
    pub iceberg: bool,
    pub external_volume: Option<String>,
    pub catalog: Option<String>,
    pub catalog_sync: Option<String>,
    pub storage_serialization_policy: Option<String>,
    pub cluster_by: Option<Vec<String>>,
    /// The query of a CREATE TABLE ... AS SELECT.
    pub query: Option<Query>,
}

/// Prepares a CREATE TABLE statement for planning: the table's location is its LOCATION,
/// else its BASE_LOCATION; its name is completed to database.schema.table and normalized;
/// transient and Iceberg options (base location, external volume, catalog, catalog sync,
/// storage serialization policy, clustering) are cleared; and the QUALIFY clauses of its
/// query are rewritten. A name of more than three parts (or none) is refused.
pub fn prepare_create_table(stmt: CreateTableStmt, db: &String, schema: &String, normalize: bool) -> (r: Result<
    (CreateTableStmt, Option<String>),
    QueryError,
>)
    ensures
        !(1 <= stmt.name@.len() <= 3) ==> (r matches Err(QueryError::InvalidTableIdentifier { ident }) && ident@
            == rendered_join(stmt.name@)),
        1 <= stmt.name@.len() <= 3 ==> (r matches Ok((t, loc)) && loc == (if stmt.location is Some {
            stmt.location
        } else {
            stmt.base_location
        }) && t.name@.len() == 3 && t.name@.map_values(|i: Ident| i.value@) == resolved_table_values(
            ident_views(stmt.name@),
            db@,
            schema@,
            normalize,
        ) && t.location == stmt.location && !t.transient && !t.iceberg && t.base_location is None
            && t.external_volume is None && t.catalog is None && t.catalog_sync is None
            && t.storage_serialization_policy is None && t.cluster_by is None && match stmt.query {
            None => t.query is None,
            Some(q) => t.query matches Some(nq) && qualify_rewritten(q, nq),
        }),
{
    let location = if stmt.location.is_some() {
        copy_opt_string(&stmt.location)
    } else {
        copy_opt_string(&stmt.base_location)
    };
    let CreateTableStmt { name, location: own_location, query, .. } = stmt;
    let ghost n0 = name@;
    let resolved = match resolve_table_object_name(name, db, schema, normalize) {
        Ok(v) => v,
        Err(e) => {
            return Err(e);
        },
    };
    let query = match query {
        Some(q) => {
            let mut q = q;
            update_qualify_in_query(&mut q);
            Some(q)
        },
        None => None,
    };
    Ok((
        CreateTableStmt {
            name: resolved,
            location: own_location,
            base_location: None,
            transient: false,
            iceberg: false,
            external_volume: None,
            catalog: None,
            catalog_sync: None,
            storage_serialization_policy: None,
            cluster_by: None,
            query,
        },
        location,
    ))
}

/// What a CREATE TABLE does once the table is created.
#[derive(Debug, Clone, Copy, PartialEq, Eq, Structural)]
pub enum CtasAction {
    /// Answer that the table was created.
    Created,
    /// Insert the rows of the statement's query into the new table.
    InsertInput,
}

/// After creating a table: a CREATE TABLE ... AS SELECT whose query is not effectively
/// empty inserts its rows; anything else answers that the table was created.
pub fn ctas_action(is_create_memory_table: bool, input_empty: bool) -> (r: CtasAction)
    ensures
        r == (if is_create_memory_table && !input_empty {
            CtasAction::InsertInput
        } else {
            CtasAction::Created
        }),
{
    if is_create_memory_table && !input_empty {
        CtasAction::InsertInput
    } else {
        CtasAction::Created
    }
}

/// Whether one of the namespaces, joined with ".", is the schema.
pub open spec fn spec_schema_exists(namespaces: Seq<Vec<String>>, schema: Seq<char>) -> bool {
    exists|i: int| 0 <= i < namespaces.len() && join_texts(texts((#[trigger] namespaces[i])@), "."@) == schema
}

/// Whether a catalog's namespaces include the schema.
pub fn schema_exists(namespaces: &Vec<Vec<String>>, schema: &str) -> (r: bool)
    ensures
        r == spec_schema_exists(namespaces@, schema@),
{
    let mut i: usize = 0;
    while i < namespaces.len()
        invariant
            i <= namespaces@.len(),
            forall|j: int| 0 <= j < i ==> join_texts(texts((#[trigger] namespaces@[j])@), "."@) != schema@,
        decreases namespaces@.len() - i,
    {
        let joined = join_strings(&namespaces[i], ".");
        if str_eq(joined.as_str(), schema) {
            return true;
        }
        i = i + 1;
    }
    false
}

/// The outcome of CREATE SCHEMA for a schema that may exist.
pub fn create_schema_outcome(schema_exists: bool, if_not_exists: bool, schema: &String) -> (r: Result<
    CreateOutcome,
    QueryError,
>)
    ensures
        !schema_exists ==> r == Ok::<CreateOutcome, QueryError>(CreateOutcome::Create),
        schema_exists && if_not_exists ==> r == Ok::<CreateOutcome, QueryError>(CreateOutcome::AlreadyExists),
        schema_exists && !if_not_exists ==> (r matches Err(QueryError::ObjectAlreadyExists { object_type, name })
            && object_type@ == "schema"@ && name@ == schema@),
{
    if schema_exists {
        if if_not_exists {
            return Ok(CreateOutcome::AlreadyExists);
        }
        return Err(QueryError::ObjectAlreadyExists { object_type: "schema".to_string(), name: schema.clone() });
    }
    Ok(CreateOutcome::Create)
}

/// The kinds of object a DROP statement names.
#[derive(Debug, Clone, Copy, PartialEq, Eq, Structural)]
pub enum ObjectType {
    Table,
    View,
    Schema,
    Other,
}

/// What a DROP removes from an Iceberg catalog.
#[derive(Debug, Clone, Copy, PartialEq, Eq, Structural)]
pub enum DropTarget {
    Table,
    Namespace,
}

/// Tables and views are dropped as tables, schemas as namespaces; other objects are refused.
pub fn drop_target(object_type: ObjectType) -> (r: Result<DropTarget, QueryError>)
    ensures
        (object_type == ObjectType::Table || object_type == ObjectType::View) ==> r == Ok::<DropTarget, QueryError>(DropTarget::Table),
        object_type == ObjectType::Schema ==> r == Ok::<DropTarget, QueryError>(DropTarget::Namespace),
        object_type == ObjectType::Other ==> r == Err::<DropTarget, QueryError>(QueryError::OnlyDropStatements),
{
    match object_type {
        ObjectType::Table | ObjectType::View => Ok(DropTarget::Table),
        ObjectType::Schema => Ok(DropTarget::Namespace),
        ObjectType::Other => Err(QueryError::OnlyDropStatements),
    }
}

/// The entity a USE statement names, with its SQL text.
#[derive(Debug, Clone)]
pub enum UseEntity {
    Catalog(String),
    Schema(String),
    Database(String),
    Warehouse(String),
    Role(String),
    Object(String),
    SecondaryRoles(String),
    Default,
}

/// The session variable a USE statement sets, and its value.
pub open spec fn use_pair(e: UseEntity) -> (Seq<char>, Seq<char>) {
    match e {
        UseEntity::Catalog(n) => ("catalog"@, n@),
        UseEntity::Schema(n) => ("schema"@, n@),
        UseEntity::Database(n) => ("database"@, n@),
        UseEntity::Warehouse(n) => ("warehouse"@, n@),
        UseEntity::Role(n) => ("role"@, n@),
        UseEntity::Object(n) => ("object"@, n@),
        UseEntity::SecondaryRoles(n) => ("secondary_roles"@, n@),
        UseEntity::Default => (Seq::empty(), Seq::empty()),
    }
}

/// The session variable and value a USE statement sets; a USE without both is refused.
pub fn use_variable(entity: &UseEntity) -> (r: Result<(String, String), QueryError>)
    ensures
        ({
            let p = use_pair(*entity);
            if p.0.len() == 0 || p.1.len() == 0 {
                r == Err::<(String, String), QueryError>(QueryError::OnlyUseWithVariables)
            } else {
                r matches Ok(v) && v.0@ == p.0 && v.1@ == p.1
            }
        }),
{
    let (variable, value): (&str, String) = match entity {
        UseEntity::Catalog(n) => ("catalog", n.clone()),
        UseEntity::Schema(n) => ("schema", n.clone()),
        UseEntity::Database(n) => ("database", n.clone()),
        UseEntity::Warehouse(n) => ("warehouse", n.clone()),
        UseEntity::Role(n) => ("role", n.clone()),
        UseEntity::Object(n) => ("object", n.clone()),
        UseEntity::SecondaryRoles(n) => ("secondary_roles", n.clone()),
        UseEntity::Default => ("", String::new()),
    };
    proof {
        reveal_strlit("");
        reveal_strlit("catalog");
        reveal_strlit("schema");
        reveal_strlit("database");
        reveal_strlit("warehouse");
        reveal_strlit("role");
        reveal_strlit("object");
        reveal_strlit("secondary_roles");
    }
    if variable.unicode_len() == 0 || value.as_str().unicode_len() == 0 {
        return Err(QueryError::OnlyUseWithVariables);
    }
    Ok((variable.to_string(), value))
}

/// The names and values a SET statement assigns, in order; a value that is not a literal
/// (written `None`) refuses the statement.
pub fn set_variable_params(variables: &Vec<String>, values: &Vec<Option<String>>) -> (r: Result<
    Vec<(String, String)>,
    QueryError,
>)
    ensures
        (exists|i: int| 0 <= i < values@.len() && (#[trigger] values@[i]) is None) ==> r
            == Err::<Vec<(String, String)>, QueryError>(QueryError::OnlyPrimitiveStatements),
        (forall|i: int| 0 <= i < values@.len() ==> (#[trigger] values@[i]) is Some) ==> (r matches Ok(v)
            && v@.len() == if variables@.len() < values@.len() {
            variables@.len()
        } else {
            values@.len()
        } && forall|i: int|
            0 <= i < v@.len() ==> (#[trigger] v@[i]).0@ == variables@[i]@ && v@[i].1@ == values@[i]->0@),
{
    let mut i: usize = 0;
    while i < values.len()
        invariant
            i <= values@.len(),
            forall|j: int| 0 <= j < i ==> (#[trigger] values@[j]) is Some,
        decreases values@.len() - i,
    {
        if values[i].is_none() {
            return Err(QueryError::OnlyPrimitiveStatements);
        }
        i = i + 1;
    }
    let n = if variables.len() < values.len() {
        variables.len()
    } else {
        values.len()
    };
    let mut out: Vec<(String, String)> = Vec::new();
    let mut k: usize = 0;
    while k < n
        invariant
            n <= variables@.len(),
            n <= values@.len(),
            k <= n,
            out@.len() == k,
            forall|j: int| 0 <= j < values@.len() ==> (#[trigger] values@[j]) is Some,
            forall|j: int| 0 <= j < k ==> (#[trigger] out@[j]).0@ == variables@[j]@ && out@[j].1@ == values@[j]->0@,
        decreases n - k,
    {
        let v = match &values[k] {
            Some(v) => v.clone(),
            None => String::new(),
        };
        out.push((variables[k].clone(), v));
        k = k + 1;
    }
    Ok(out)
}

/// Whether a session setting belongs to the query engine's own options: its name, lower
/// case, starts with "datafusion.".
pub open spec fn is_engine_setting(key: Seq<char>) -> bool {
    has_prefix(unicode_lower(key), "datafusion."@)
}

/// The settings of a session change split into engine options and session variables, each
/// kept in order.
pub open spec fn engine_settings(params: Seq<(String, String)>) -> Seq<(String, String)> {
    params.filter(|p: (String, String)| is_engine_setting(p.0@))
}

/// The settings of a session change that are session variables, in order.
pub open spec fn session_settings(params: Seq<(String, String)>) -> Seq<(String, String)> {
    params.filter(|p: (String, String)| !is_engine_setting(p.0@))
}

/// Splits a session change into engine options and session variables.
pub fn partition_session_params(params: Vec<(String, String)>) -> (r: (Vec<(String, String)>, Vec<(String, String)>))
    ensures
        r.0@ == engine_settings(params@),
        r.1@ == session_settings(params@),
{
    let ghost orig = params@;
    let n: usize = params.len();
    let mut engine: Vec<(String, String)> = Vec::new();
    let mut session: Vec<(String, String)> = Vec::new();
    let mut rest = params;
    let mut i: usize = 0;
    while rest.len() > 0
        invariant
            n == orig.len(),
            i <= orig.len(),
            rest@ == orig.subrange(i as int, orig.len() as int),
            engine@ == engine_settings(orig.take(i as int)),
            session@ == session_settings(orig.take(i as int)),
        decreases rest@.len(),
    {
        let p = rest.remove(0);
        assert(p == orig[i as int]);
        let lowered = str_to_lowercase(p.0.as_str());
        let is_engine = starts_with(lowered.as_str(), "datafusion.");
        proof {
            assert(orig.take(i as int + 1) =~= orig.take(i as int).push(p));
            assert(orig.take(i as int + 1).drop_last() =~= orig.take(i as int));
            reveal(Seq::filter);
        }
        if is_engine {
            engine.push(p);
        } else {
            session.push(p);
        }
        i = i + 1;
        proof {
            assert(rest@ =~= orig.subrange(i as int, orig.len() as int));
        }
    }
    assert(orig.take(i as int) =~= orig);
    (engine, session)
}


/// The settings, in order, that are engine options.
pub open spec fn engine_pairs(ps: Seq<(Seq<char>, Seq<char>)>) -> Seq<(Seq<char>, Seq<char>)>
    decreases ps.len(),
{
    if ps.len() == 0 {
        Seq::empty()
    } else if is_engine_setting(ps.last().0) {
        engine_pairs(ps.drop_last()).push(ps.last())
    } else {
        engine_pairs(ps.drop_last())
    }
}

/// A session's variables after a change of settings: each setting that is not an engine
/// option is set to its value in turn, or removed when unsetting.
pub open spec fn vars_after(vars: Map<Seq<char>, Seq<char>>, set: bool, ps: Seq<(Seq<char>, Seq<char>)>) -> Map<
    Seq<char>,
    Seq<char>,
>
    decreases ps.len(),
{
    if ps.len() == 0 {
        vars
    } else {
        let prev = vars_after(vars, set, ps.drop_last());
        if is_engine_setting(ps.last().0) {
            prev
        } else if set {
            prev.insert(ps.last().0, ps.last().1)
        } else {
            prev.remove(ps.last().0)
        }
    }
}

/// Pairs of strings as pairs of texts.
pub open spec fn pairs_view(ps: Seq<(String, String)>) -> Seq<(Seq<char>, Seq<char>)> {
    ps.map_values(|p: (String, String)| (p.0@, p.1@))
}

/// In a list of variables without repeated names, the value looked up for a name is the
/// one the map of the list holds.
pub proof fn lemma_lookup_distinct(vars: Seq<(String, String)>, key: Seq<char>)
    requires
        keys_distinct(vars),
    ensures
        session_lookup(vars, key) == (if map_view(vars).contains_key(key) {
            Some(map_view(vars)[key])
        } else {
            None::<Seq<char>>
        }),
    decreases vars.len(),
{
    if vars.len() > 0 {
        let init = vars.drop_last();
        let last = vars.last();
        assert(keys_distinct(init)) by {
            assert forall|i: int, j: int| 0 <= i < j < init.len() implies (#[trigger] init[i]).0@ != (#[trigger] init[j]).0@ by {
                assert(init[i] == vars[i] && init[j] == vars[j]);
            }
        }
        lemma_lookup_distinct(init, key);
        assert(!has_key(init, last.0@)) by {
            if has_key(init, last.0@) {
                let i = choose|i: int| 0 <= i < init.len() && (#[trigger] init[i]).0@ == last.0@;
                assert(vars[i] == init[i]);
                assert(vars[i].0@ != vars[vars.len() - 1].0@);
            }
        }
        lemma_map_view_push(init, last);
        assert(init.push(last) == vars);
    }
}

/// Applies a change of session settings: the settings whose name, lower case, starts with
/// "datafusion." are engine options and are given back, in order, for the query engine;
/// the others are set among the session's variables, or removed when unsetting.
pub fn set_session_variable(vars: &mut Vec<(String, String)>, set: bool, params: &Vec<(String, String)>) -> (r: Vec<
    (String, String),
>)
    requires
        keys_distinct(old(vars)@),
    ensures
        keys_distinct(final(vars)@),
        pairs_view(r@) == engine_pairs(pairs_view(params@)),
        map_view(final(vars)@) == vars_after(map_view(old(vars)@), set, pairs_view(params@)),
{
    let ghost pv = pairs_view(params@);
    let ghost v0 = map_view(vars@);
    let mut engine: Vec<(String, String)> = Vec::new();
    let mut i: usize = 0;
    while i < params.len()
        invariant
            i <= params@.len(),
            pv == pairs_view(params@),
            keys_distinct(vars@),
            pairs_view(engine@) == engine_pairs(pv.take(i as int)),
            map_view(vars@) == vars_after(v0, set, pv.take(i as int)),
        decreases params@.len() - i,
    {
        proof {
            assert(pv.take(i + 1).drop_last() =~= pv.take(i as int));
            assert(pv.take(i + 1).last() == pv[i as int]);
        }
        let key = &params[i].0;
        let lowered = str_to_lowercase(key.as_str());
        if starts_with(lowered.as_str(), "datafusion.") {
            let ghost before = engine@;
            engine.push((key.clone(), params[i].1.clone()));
            assert(pairs_view(engine@) =~= pairs_view(before).push(pv[i as int]));
        } else if set {
            insert_entry(vars, key.clone(), params[i].1.clone());
        } else {
            let _ = remove_entry(vars, key.as_str());
        }
        i = i + 1;
    }
    assert(pv.take(pv.len() as int) =~= pv);
    engine
}

/// A session variable set by SET or ALTER SESSION is what a later lookup of it gives, and
/// one unset by ALTER SESSION is no longer found, whatever the session held before.
pub proof fn law_session_setting_is_seen(
    before: Seq<(String, String)>,
    after: Seq<(String, String)>,
    set: bool,
    key: Seq<char>,
    value: Seq<char>,
)
    requires
        keys_distinct(after),
        !is_engine_setting(key),
        map_view(after) == vars_after(map_view(before), set, seq![(key, value)]),
    ensures
        set ==> session_lookup(after, key) == Some(value),
        !set ==> session_lookup(after, key) is None,
{
    let ps = seq![(key, value)];
    assert(ps.drop_last() =~= Seq::<(Seq<char>, Seq<char>)>::empty());
    lemma_lookup_distinct(after, key);
}

/// Executes a USE statement on a session's variables: the variable it names (none of
/// which is an engine option) is set to its value; a USE without both is refused and
/// changes nothing.
pub fn use_statement(vars: &mut Vec<(String, String)>, entity: &UseEntity) -> (r: Result<(), QueryError>)
    requires
        keys_distinct(old(vars)@),
    ensures
        keys_distinct(final(vars)@),
        ({
            let p = use_pair(*entity);
            if p.0.len() == 0 || p.1.len() == 0 {
                &&& r == Err::<(), QueryError>(QueryError::OnlyUseWithVariables)
                &&& final(vars)@ == old(vars)@
            } else {
                &&& r is Ok
                &&& map_view(final(vars)@) == map_view(old(vars)@).insert(p.0, p.1)
                &&& session_lookup(final(vars)@, p.0) == Some(p.1)
            }
        }),
{
    match use_variable(entity) {
        Ok((variable, value)) => {
            let ghost k = variable@;
            let ghost v = value@;
            insert_entry(vars, variable, value);
            proof {
                lemma_lookup_distinct(vars@, k);
            }
            Ok(())
        },
        Err(e) => Err(e),
    }
}

/// The names and values a SET statement assigns: each variable with the value at its
/// position, as far as both lists go.
pub open spec fn assigned(variables: Seq<String>, values: Seq<Option<String>>) -> Seq<(Seq<char>, Seq<char>)> {
    Seq::new(
        if variables.len() < values.len() { variables.len() } else { values.len() },
        |i: int| (variables[i]@, values[i]->0@),
    )
}

/// Executes a SET statement on a session's variables: a value that is not a literal
/// refuses the statement and changes nothing; otherwise each variable is set, and those
/// that are engine options are given back for the query engine.
pub fn set_statement(vars: &mut Vec<(String, String)>, variables: &Vec<String>, values: &Vec<Option<String>>) -> (r:
    Result<Vec<(String, String)>, QueryError>)
    requires
        keys_distinct(old(vars)@),
    ensures
        keys_distinct(final(vars)@),
        (exists|i: int| 0 <= i < values@.len() && (#[trigger] values@[i]) is None) ==> r
            == Err::<Vec<(String, String)>, QueryError>(QueryError::OnlyPrimitiveStatements) && final(vars)@ == old(
            vars,
        )@,
        (forall|i: int| 0 <= i < values@.len() ==> (#[trigger] values@[i]) is Some) ==> (r matches Ok(engine)
            && pairs_view(engine@) == engine_pairs(assigned(variables@, values@)) && map_view(final(vars)@)
            == vars_after(map_view(old(vars)@), true, assigned(variables@, values@))),
{
    let params = match set_variable_params(variables, values) {
        Ok(p) => p,
        Err(e) => {
            return Err(e);
        },
    };
    assert(pairs_view(params@) =~= assigned(variables@, values@));
    Ok(set_session_variable(vars, true, &params))
}

/// Executes an ALTER SESSION statement on a session's variables: its options are set, or
/// removed when it unsets them, and those that are engine options are given back.
pub fn alter_session_statement(vars: &mut Vec<(String, String)>, set: bool, options: &Vec<(String, String)>) -> (r: Vec<
    (String, String),
>)
    requires
        keys_distinct(old(vars)@),
    ensures
        keys_distinct(final(vars)@),
        pairs_view(r@) == engine_pairs(pairs_view(options@)),
        map_view(final(vars)@) == vars_after(map_view(old(vars)@), set, pairs_view(options@)),
{
    set_session_variable(vars, set, options)
}

/// The kinds of statement the executor tells apart.
#[derive(Debug, Clone, Copy, PartialEq, Eq, Structural)]
pub enum StatementKind {
    AlterSession,
    Use,
    SetVariable,
    CreateTable,
    CreateDatabase,
    CreateSchema,
    CreateStage,
    CopyIntoSnowflake,
    AlterTable,
    StartTransaction,
    Commit,
    Insert,
    Update,
    ShowDatabases,
    ShowSchemas,
    ShowTables,
    ShowColumns,
    ShowViews,
    ShowFunctions,
    ShowObjects,
    ShowVariables,
    ShowVariable,
    Truncate,
    Query,
    Drop,
    Merge,
    CreateExternalTable,
    Other,
}

/// How the executor handles a statement.
#[derive(Debug, Clone, PartialEq, Eq)]
pub enum ExecutePlan {
    /// Set or unset session parameters (ALTER SESSION).
    AlterSession,
    /// Set the session variable a USE names.
    UseVariable,
    /// Set session variables (SET).
    SetVariables,
    CreateTable,
    CreateSchema,
    CreateStage,
    CopyInto,
    /// Plan the statement with the executor's own planner.
    CustomPlan,
    Show,
    Truncate,
    /// Rewrite the query (QUALIFY, pivot subqueries), then plan it with the own planner.
    RewriteQuery,
    Drop,
    Merge,
    CreateExternalTable,
    /// Run the statement as SQL on the query engine.
    Sql,
    /// Refuse the statement.
    Refuse(QueryError),
}

/// The plan for each kind of statement.
pub open spec fn spec_plan(kind: StatementKind) -> ExecutePlan {
    match kind {
        StatementKind::AlterSession => ExecutePlan::AlterSession,
        StatementKind::Use => ExecutePlan::UseVariable,
        StatementKind::SetVariable => ExecutePlan::SetVariables,
        StatementKind::CreateTable => ExecutePlan::CreateTable,
        StatementKind::CreateDatabase => ExecutePlan::Refuse(QueryError::OnlyTableSchemaCreateStatements),
        StatementKind::CreateSchema => ExecutePlan::CreateSchema,
        StatementKind::CreateStage => ExecutePlan::CreateStage,
        StatementKind::CopyIntoSnowflake => ExecutePlan::CopyInto,
        StatementKind::AlterTable | StatementKind::StartTransaction | StatementKind::Commit
        | StatementKind::Insert | StatementKind::Update => ExecutePlan::CustomPlan,
        StatementKind::ShowDatabases | StatementKind::ShowSchemas | StatementKind::ShowTables
        | StatementKind::ShowColumns | StatementKind::ShowViews | StatementKind::ShowFunctions
        | StatementKind::ShowObjects | StatementKind::ShowVariables | StatementKind::ShowVariable => ExecutePlan::Show,
        StatementKind::Truncate => ExecutePlan::Truncate,
        StatementKind::Query => ExecutePlan::RewriteQuery,
        StatementKind::Drop => ExecutePlan::Drop,
        StatementKind::Merge => ExecutePlan::Merge,
        StatementKind::CreateExternalTable => ExecutePlan::CreateExternalTable,
        StatementKind::Other => ExecutePlan::Sql,
    }
}

/// Chooses how a parsed statement is executed.
pub fn plan_statement(kind: StatementKind) -> (r: ExecutePlan)
    ensures
        r == spec_plan(kind),
{
    match kind {
        StatementKind::AlterSession => ExecutePlan::AlterSession,
        StatementKind::Use => ExecutePlan::UseVariable,
        StatementKind::SetVariable => ExecutePlan::SetVariables,
        StatementKind::CreateTable => ExecutePlan::CreateTable,
        StatementKind::CreateDatabase => ExecutePlan::Refuse(QueryError::OnlyTableSchemaCreateStatements),
        StatementKind::CreateSchema => ExecutePlan::CreateSchema,
        StatementKind::CreateStage => ExecutePlan::CreateStage,
        StatementKind::CopyIntoSnowflake => ExecutePlan::CopyInto,
        StatementKind::AlterTable | StatementKind::StartTransaction | StatementKind::Commit
        | StatementKind::Insert | StatementKind::Update => ExecutePlan::CustomPlan,
        StatementKind::ShowDatabases | StatementKind::ShowSchemas | StatementKind::ShowTables
        | StatementKind::ShowColumns | StatementKind::ShowViews | StatementKind::ShowFunctions
        | StatementKind::ShowObjects | StatementKind::ShowVariables | StatementKind::ShowVariable => ExecutePlan::Show,
        StatementKind::Truncate => ExecutePlan::Truncate,
        StatementKind::Query => ExecutePlan::RewriteQuery,
        StatementKind::Drop => ExecutePlan::Drop,
        StatementKind::Merge => ExecutePlan::Merge,
        StatementKind::CreateExternalTable => ExecutePlan::CreateExternalTable,
        StatementKind::Other => ExecutePlan::Sql,
    }
}

/// Whether the catalogs are refreshed after the statement, because it changes them.
pub fn refreshes_catalog(kind: StatementKind) -> (r: bool)
    ensures
        r == (kind == StatementKind::CreateSchema || kind == StatementKind::CreateStage
            || kind == StatementKind::Truncate || kind == StatementKind::Drop),
{
    match kind {
        StatementKind::CreateSchema | StatementKind::CreateStage | StatementKind::Truncate
        | StatementKind::Drop => true,
        _ => false,
    }
}

/// An ORDER BY item of a PIVOT's `ANY ORDER BY` clause: its expression's SQL text and its
/// options.
#[derive(Debug, Clone)]
pub struct OrderByItem {
    pub expr: String,
    pub asc: Option<bool>,
    pub nulls_first: Option<bool>,
}

/// The SQL text of an ORDER BY item.
pub open spec fn order_item_text(e: OrderByItem) -> Seq<char> {
    e.expr@ + match e.asc {
        Some(true) => " ASC"@,
        Some(false) => " DESC"@,
        None => Seq::empty(),
    } + match e.nulls_first {
        Some(true) => " NULLS FIRST"@,
        Some(false) => " NULLS LAST"@,
        None => Seq::empty(),
    }
}

/// The query that lists the values of a PIVOT over `ANY`: the distinct values of the value
/// column in the source table, in the order asked for.
pub open spec fn pivot_values_sql(column: Seq<Ident>, table: Seq<char>, order: Seq<OrderByItem>) -> Seq<char> {
    "SELECT DISTINCT "@ + rendered_join(column) + " FROM "@ + table + " "@ + if order.len() == 0 {
        Seq::empty()
    } else {
        "ORDER BY "@ + join_texts(order.map_values(|e: OrderByItem| order_item_text(e)), ", "@)
    }
}

fn order_item_sql(e: &OrderByItem) -> (r: String)
    ensures
        r@ == order_item_text(*e),
{
    let mut s = e.expr.clone();
    match e.asc {
        Some(true) => s.append(" ASC"),
        Some(false) => s.append(" DESC"),
        None => {},
    }
    match e.nulls_first {
        Some(true) => s.append(" NULLS FIRST"),
        Some(false) => s.append(" NULLS LAST"),
        None => {},
    }
    proof {
        assert(s@ =~= order_item_text(*e));
    }
    s
}

/// The query that lists the values of a PIVOT over `ANY`, from the value column's name,
/// the SQL text of the source table and the `ORDER BY` items.
pub fn pivot_values_query(value_column: &Vec<Ident>, table: &str, order_by: &Vec<OrderByItem>) -> (r: String)
    ensures
        r@ == pivot_values_sql(value_column@, table@, order_by@),
{
    let mut q = "SELECT DISTINCT ".to_string();
    let col = join_parts(value_column, true);
    q.append(col.as_str());
    q.append(" FROM ");
    q.append(table);
    q.append(" ");
    if order_by.len() > 0 {
        let mut items: Vec<String> = Vec::new();
        let mut i: usize = 0;
        while i < order_by.len()
            invariant
                i <= order_by@.len(),
                texts(items@) == order_by@.take(i as int).map_values(|e: OrderByItem| order_item_text(e)),
            decreases order_by@.len() - i,
        {
            let t = order_item_sql(&order_by[i]);
            let ghost before = items@;
            items.push(t);
            proof {
                assert(texts(items@) =~= texts(before).push(t@));
                assert(order_by@.take(i as int + 1).map_values(|e: OrderByItem| order_item_text(e)) =~= order_by@.take(
                    i as int,
                ).map_values(|e: OrderByItem| order_item_text(e)).push(order_item_text(order_by@[i as int])));
            }
            i = i + 1;
        }
        proof {
            assert(order_by@.take(order_by@.len() as int) =~= order_by@);
        }
        q.append("ORDER BY ");
        let joined = join_strings(&items, ", ");
        q.append(joined.as_str());
    }
    proof {
        assert(q@ =~= pivot_values_sql(value_column@, table@, order_by@));
    }
    q
}


/// `q` ends in the filter `f`, as the first (` WHERE `) or a later (` AND `) conjunct of the
/// query's condition.
pub open spec fn ends_with_conjunct(q: Seq<char>, f: Seq<char>) -> bool {
    exists|pre: Seq<char>| q == pre + " WHERE "@ + f || q == pre + " AND "@ + f
}

/// Joining a list that ends in `x`: `x` alone, or the rest joined, the separator and `x`.
proof fn lemma_join_last(fs: Seq<Seq<char>>, x: Seq<char>, sep: Seq<char>)
    ensures
        fs.len() == 0 ==> join_texts(fs.push(x), sep) == x,
        fs.len() > 0 ==> join_texts(fs.push(x), sep) == join_texts(fs, sep) + sep + x,
{
    assert(fs.push(x).drop_last() =~= fs);
    if fs.len() == 0 {
        assert(fs.push(x)[0] == x);
    }
}

/// A filtered query whose last filter is `x` ends in that conjunct.
proof fn lemma_filtered_ends_with(sql: Seq<char>, fs: Seq<Seq<char>>, x: Seq<char>)
    ensures
        ends_with_conjunct(filtered_sql(sql, fs.push(x)), x),
        has_prefix(filtered_sql(sql, fs.push(x)), sql),
{
    lemma_join_last(fs, x, " AND "@);
    let q = filtered_sql(sql, fs.push(x));
    if fs.len() == 0 {
        assert(q == sql + " WHERE "@ + x);
    } else {
        let pre = sql + " WHERE "@ + join_texts(fs, " AND "@);
        assert(q =~= pre + " AND "@ + x);
    }
    assert(q.take(sql.len() as int) =~= sql);
}

/// The schema an `IN` clause of one or two parts names (its last part), and the database
/// (the first of two parts, else the current one).
pub open spec fn in_clause_database(parts: Seq<Seq<char>>, db: Seq<char>) -> Seq<char> {
    if parts.len() == 2 { parts[0] } else { db }
}

/// SHOW TABLES, SHOW VIEWS and SHOW OBJECTS `IN [<database>.]<schema>` read the
/// information schema of that database and keep only the rows of that schema: the query's
/// condition ends in `<schema column> = '<schema>'`.
pub proof fn law_show_in_schema_restricts_rows(
    show_in: Option<ShowIn>,
    starts_with: Option<SqlValue>,
    db: Seq<char>,
    schema: Seq<char>,
)
    requires
        show_in_parts(show_in).len() == 1 || show_in_parts(show_in).len() == 2,
        show_in_parts(show_in).last().len() > 0,
    ensures
        ({
            let parts = show_in_parts(show_in);
            let s = parts.last();
            let d = in_clause_database(parts, db);
            &&& show_sql(ShowStatement::Views { show_in, starts_with }, db, schema) matches Some(q)
                && has_prefix(q, VIEW_LIT@ + d + ".information_schema.views"@)
                && ends_with_conjunct(q, "view_schema = '"@ + s + "'"@)
            &&& show_sql(ShowStatement::Tables { show_in, starts_with }, db, schema) matches Some(q)
                && has_prefix(q, TAB_LIT@ + d + ".information_schema.tables"@)
                && ends_with_conjunct(q, "table_schema = '"@ + s + "'"@)
            &&& show_sql(ShowStatement::Objects { show_in, starts_with }, db, schema) matches Some(q)
                && has_prefix(q, OBJ_LIT@ + d + ".information_schema.tables"@)
                && ends_with_conjunct(q, "table_schema = '"@ + s + "'"@)
        }),
{
    let parts = show_in_parts(show_in);
    let r = show_in_reference(parts, false, db, schema);
    assert(r.0 == in_clause_database(parts, db) && r.1 == parts.last());
    reveal_strlit("view_schema");
    reveal_strlit("table_schema");
    reveal_strlit(" = '");
    reveal_strlit("view_schema = '");
    reveal_strlit("table_schema = '");
    assert("view_schema"@ + " = '"@ =~= "view_schema = '"@);
    assert("table_schema"@ + " = '"@ =~= "table_schema = '"@);
    let v = "view_schema = '"@ + r.1 + "'"@;
    let t = "table_schema = '"@ + r.1 + "'"@;
    let fv = opt_filter(starts_with_filter(starts_with, "view_name"@));
    assert(fv + schema_filter("view_schema"@, r.1) =~= fv.push(v));
    lemma_filtered_ends_with(VIEW_LIT@ + r.0 + ".information_schema.views"@, fv, v);
    let ft = seq!["table_type = 'TABLE'"@] + opt_filter(starts_with_filter(starts_with, "table_name"@));
    assert(ft + schema_filter("table_schema"@, r.1) =~= ft.push(t));
    lemma_filtered_ends_with(TAB_LIT@ + r.0 + ".information_schema.tables"@, ft, t);
    let fo = opt_filter(starts_with_filter(starts_with, "table_name"@));
    assert(fo + schema_filter("table_schema"@, r.1) =~= fo.push(t));
    lemma_filtered_ends_with(OBJ_LIT@ + r.0 + ".information_schema.tables"@, fo, t);
}

/// SHOW COLUMNS `IN [<schema>.]<table>` keeps only the columns of that table in that schema
/// (the current schema where none is named): the query's condition ends in
/// `table_schema = '<schema>' AND table_name = '<table>'`.
pub proof fn law_show_columns_in_table_restricts_rows(
    show_in: Option<ShowIn>,
    starts_with: Option<SqlValue>,
    db: Seq<char>,
    schema: Seq<char>,
)
    requires
        show_in_parts(show_in).len() == 1 || show_in_parts(show_in).len() == 2,
        show_in_parts(show_in).len() == 2 ==> show_in_parts(show_in)[0].len() > 0,
        show_in_parts(show_in).len() == 1 ==> schema.len() > 0,
    ensures
        ({
            let parts = show_in_parts(show_in);
            let s = if parts.len() == 2 { parts[0] } else { schema };
            show_sql(ShowStatement::Columns { show_in, starts_with }, db, schema) matches Some(q)
                && has_prefix(q, COL_LIT@ + db + ".information_schema.columns"@)
                && ends_with_conjunct(
                q,
                "table_schema = '"@ + s + "'"@ + " AND "@ + "table_name = '"@ + parts.last() + "'"@,
            )
        }),
{
    let parts = show_in_parts(show_in);
    let r = show_in_reference(parts, true, db, schema);
    let s = if parts.len() == 2 { parts[0] } else { schema };
    assert(r.0 == db && r.1 == s && r.2 == parts.last());
    reveal_strlit("table_schema");
    reveal_strlit(" = '");
    reveal_strlit("table_schema = '");
    assert("table_schema"@ + " = '"@ =~= "table_schema = '"@);
    let sf = "table_schema = '"@ + s + "'"@;
    let tf = "table_name = '"@ + r.2 + "'"@;
    let fc = opt_filter(starts_with_filter(starts_with, "column_name"@));
    let sql = COL_LIT@ + r.0 + ".information_schema.columns"@;
    let fs = fc + schema_filter("table_schema"@, r.1) + seq![tf];
    assert(fs =~= fc.push(sf).push(tf));
    lemma_join_last(fc.push(sf), tf, " AND "@);
    lemma_join_last(fc, sf, " AND "@);
    assert(show_in is Some);
    let q = filtered_sql(sql, fs);
    let f = "table_schema = '"@ + s + "'"@ + " AND "@ + "table_name = '"@ + parts.last() + "'"@;
    assert(f =~= sf + " AND "@ + tf);
    if fc.len() == 0 {
        assert(q =~= sql + " WHERE "@ + f);
    } else {
        let pre = sql + " WHERE "@ + join_texts(fc, " AND "@);
        assert(q =~= pre + " AND "@ + f);
    }
    assert(ends_with_conjunct(q, f));
    assert(q.take(sql.len() as int) =~= sql);
    assert(show_sql(ShowStatement::Columns { show_in, starts_with }, db, schema) == Some(q));
}

/// The INSERT a MERGE runs inserts only the source rows that no target row matched: it is
/// a LEFT JOIN of the target on the MERGE's ON condition, followed by a condition that is
/// the conjunction of `<column> IS NULL` over each target column the ON condition compares
/// (nothing follows the ON condition where it compares none).
pub proof fn law_merge_inserts_only_unmatched_rows(m: MergeStatement, target: Seq<char>)
    ensures
        ({
            let q = merge_sql(m, target);
            let cols = where_columns(m.on, table_with_alias(m.table).1);
            &&& has_prefix(q, "INSERT INTO "@ + target + " ("@)
            &&& cols.len() > 0 ==> exists|pre: Seq<char>| q == pre + " LEFT JOIN "@ + target + " "@
                + table_with_alias(m.table).1 + " ON "@ + m.on_text@ + " WHERE "@ + join_texts(
                Seq::new(cols.len(), |i: int| cols[i] + " IS NULL"@),
                " AND "@,
            )
            &&& cols.len() == 0 ==> exists|pre: Seq<char>| q == pre + " LEFT JOIN "@ + target + " "@
                + table_with_alias(m.table).1 + " ON "@ + m.on_text@
        }),
{
    let q = merge_sql(m, target);
    let talias = table_with_alias(m.table).1;
    let salias = table_with_alias(m.source).1;
    let parts = merge_insert_parts(m.clauses@, salias);
    let cols = where_columns(m.on, talias);
    let head = "INSERT INTO "@ + target + " ("@;
    let pre = head + parts.0 + ") "@ + "SELECT "@ + parts.1 + " FROM "@ + merge_source_query(m.source, m.source_text@);
    let tail = " LEFT JOIN "@ + target + " "@ + talias + " ON "@ + m.on_text@;
    assert(cols.map_values(|c: Seq<char>| c + " IS NULL"@) =~= Seq::new(cols.len(), |i: int| cols[i] + " IS NULL"@));
    assert(q =~= pre + tail + merge_where(cols));
    if cols.len() > 0 {
        assert(q =~= pre + " LEFT JOIN "@ + target + " "@ + talias + " ON "@ + m.on_text@ + " WHERE "@ + join_texts(
            Seq::new(cols.len(), |i: int| cols[i] + " IS NULL"@),
            " AND "@,
        ));
    } else {
        assert(q =~= pre + " LEFT JOIN "@ + target + " "@ + talias + " ON "@ + m.on_text@);
    }
    assert(q.take(head.len() as int) =~= head);
}

/// TRUNCATE replaces the table by a copy of itself that selects no rows: the statement is
/// `CREATE OR REPLACE TABLE <t> as (<select>)` where `<select>` reads `<t>` under the
/// condition `FALSE`, and nothing follows.
pub proof fn law_truncate_selects_no_rows(table: Seq<char>)
    ensures
        exists|select: Seq<char>| truncate_sql(table) == "CREATE OR REPLACE TABLE "@ + table + " as ("@ + select + ")"@
            && select == "SELECT * FROM "@ + table + " WHERE FALSE"@,
{
    let select = "SELECT * FROM "@ + table + " WHERE FALSE"@;
    reveal_strlit(" WHERE FALSE)");
    reveal_strlit(" WHERE FALSE");
    reveal_strlit(")");
    reveal_strlit(" as (SELECT * FROM ");
    reveal_strlit(" as (");
    reveal_strlit("SELECT * FROM ");
    assert(" WHERE FALSE)"@ =~= " WHERE FALSE"@ + ")"@);
    assert(" as (SELECT * FROM "@ =~= " as ("@ + "SELECT * FROM "@);
    assert(truncate_sql(table) =~= "CREATE OR REPLACE TABLE "@ + table + " as ("@ + select + ")"@);
}

/// Escaping a text doubles each single quote and keeps every other character: it escapes a
/// concatenation part by part, leaves a character other than a quote as it is, and turns a
/// quote into two.
pub proof fn law_escape_quotes_doubles_quotes(a: Seq<char>, b: Seq<char>, c: char)
    ensures
        escape_quotes(a + b) == escape_quotes(a) + escape_quotes(b),
        c != '\'' ==> escape_quotes(seq![c]) == seq![c],
        escape_quotes(seq!['\'']) == seq!['\'', '\''],
    decreases b.len(),
{
    assert(seq![c].drop_last() =~= Seq::<char>::empty());
    assert(seq!['\''].drop_last() =~= Seq::<char>::empty());
    assert(escape_quotes(Seq::<char>::empty()) == Seq::<char>::empty());
    assert(escape_quotes(seq![c]) =~= Seq::<char>::empty() + if c == '\'' {
        seq!['\'', '\'']
    } else {
        seq![c]
    });
    assert(escape_quotes(seq!['\'']) =~= Seq::<char>::empty() + seq!['\'', '\'']);
    if b.len() == 0 {
        assert(a + b =~= a);
        assert(escape_quotes(a) + escape_quotes(b) =~= escape_quotes(a));
    } else {
        law_escape_quotes_doubles_quotes(a, b.drop_last(), c);
        assert((a + b).drop_last() =~= a + b.drop_last());
        assert((a + b).last() == b.last());
    }
}

/// SHOW ... STARTS WITH '<prefix>' keeps the rows whose name column is LIKE the prefix, its
/// quotes escaped, followed by `%`: the query's condition ends in that filter where the
/// statement names no schema.
pub proof fn law_show_starts_with_filters_names(prefix: String, db: Seq<char>, schema: Seq<char>)
    ensures
        ({
            let sw = Some(SqlValue::SingleQuotedString(prefix));
            let like = " LIKE '"@ + escape_quotes(prefix@) + "%'"@;
            &&& show_sql(ShowStatement::Schemas { show_in: None, starts_with: sw }, db, schema) matches Some(q)
                && ends_with_conjunct(q, "schema_name"@ + like)
            &&& show_sql(ShowStatement::Tables { show_in: None, starts_with: sw }, db, schema) matches Some(q)
                && ends_with_conjunct(q, "table_name"@ + like)
            &&& show_sql(ShowStatement::Views { show_in: None, starts_with: sw }, db, schema) matches Some(q)
                && ends_with_conjunct(q, "view_name"@ + like)
            &&& show_sql(ShowStatement::Objects { show_in: None, starts_with: sw }, db, schema) matches Some(q)
                && ends_with_conjunct(q, "table_name"@ + like)
            &&& show_sql(ShowStatement::Columns { show_in: None, starts_with: sw }, db, schema) matches Some(q)
                && ends_with_conjunct(q, "column_name"@ + like)
        }),
{
    let sw = Some(SqlValue::SingleQuotedString(prefix));
    let like = " LIKE '"@ + escape_quotes(prefix@) + "%'"@;
    let r = show_in_reference(Seq::empty(), false, db, schema);
    assert(r.1.len() == 0);
    let e = Seq::<Seq<char>>::empty();
    let esc = escape_quotes(prefix@);
    assert forall|col: Seq<char>| #[trigger] starts_with_filter(sw, col) == Some(col + like) by {
        assert(col + " LIKE '"@ + esc + "%'"@ =~= col + like);
    }
    assert(opt_filter(starts_with_filter(sw, "schema_name"@)) =~= e.push("schema_name"@ + like));
    lemma_filtered_ends_with(SCH_LIT@ + r.0 + ".information_schema.schemata"@, e, "schema_name"@ + like);
    let t = "table_name"@ + like;
    let ft = seq!["table_type = 'TABLE'"@];
    assert(ft + opt_filter(starts_with_filter(sw, "table_name"@)) + schema_filter("table_schema"@, r.1) =~= ft.push(t));
    lemma_filtered_ends_with(TAB_LIT@ + r.0 + ".information_schema.tables"@, ft, t);
    assert(opt_filter(starts_with_filter(sw, "view_name"@)) + schema_filter("view_schema"@, r.1) =~= e.push(
        "view_name"@ + like,
    ));
    lemma_filtered_ends_with(VIEW_LIT@ + r.0 + ".information_schema.views"@, e, "view_name"@ + like);
    assert(opt_filter(starts_with_filter(sw, "table_name"@)) + schema_filter("table_schema"@, r.1) =~= e.push(t));
    lemma_filtered_ends_with(OBJ_LIT@ + r.0 + ".information_schema.tables"@, e, t);
    let rc = show_in_reference(Seq::empty(), true, db, schema);
    assert(rc.1.len() == 0);
    let c = "column_name"@ + like;
    assert(opt_filter(starts_with_filter(sw, "column_name"@)) + schema_filter("table_schema"@, rc.1) + Seq::<
        Seq<char>,
    >::empty() =~= e.push(c));
    lemma_filtered_ends_with(COL_LIT@ + rc.0 + ".information_schema.columns"@, e, c);
}

/// SHOW TABLES lists tables only: whatever its clauses, the query reads a database's
/// `information_schema.tables` under a condition whose first conjunct is
/// `table_type = 'TABLE'`.
pub proof fn law_show_tables_lists_only_tables(
    show_in: Option<ShowIn>,
    starts_with: Option<SqlValue>,
    db: Seq<char>,
    schema: Seq<char>,
)
    ensures
        show_sql(ShowStatement::Tables { show_in, starts_with }, db, schema) matches Some(q) && exists|d: Seq<char>|
            has_prefix(q, TAB_LIT@ + d + ".information_schema.tables"@ + " WHERE "@ + "table_type = 'TABLE'"@),
{
    let r = show_in_reference(show_in_parts(show_in), false, db, schema);
    let x = "table_type = 'TABLE'"@;
    let rest = opt_filter(starts_with_filter(starts_with, "table_name"@)) + schema_filter("table_schema"@, r.1);
    let fs = seq![x] + rest;
    assert(fs =~= seq![x] + opt_filter(starts_with_filter(starts_with, "table_name"@)) + schema_filter(
        "table_schema"@,
        r.1,
    ));
    let sql = TAB_LIT@ + r.0 + ".information_schema.tables"@;
    let q = filtered_sql(sql, fs);
    let p = sql + " WHERE "@ + x;
    lemma_join_first(x, rest, " AND "@);
    assert(q == p + join_texts(fs, " AND "@).skip(x.len() as int)) by {
        assert(join_texts(fs, " AND "@) =~= x + join_texts(fs, " AND "@).skip(x.len() as int));
    }
    assert(q.take(p.len() as int) =~= p);
    assert(has_prefix(q, TAB_LIT@ + r.0 + ".information_schema.tables"@ + " WHERE "@ + x));
    assert(show_sql(ShowStatement::Tables { show_in, starts_with }, db, schema) == Some(q));
}

/// A joined list begins with its first element.
proof fn lemma_join_first(x: Seq<char>, rest: Seq<Seq<char>>, sep: Seq<char>)
    ensures
        has_prefix(join_texts(seq![x] + rest, sep), x),
    decreases rest.len(),
{
    let l = seq![x] + rest;
    if rest.len() == 0 {
        assert(l =~= seq![x]);
        assert(join_texts(l, sep).take(x.len() as int) =~= x);
    } else {
        lemma_join_first(x, rest.drop_last(), sep);
        assert(l.drop_last() =~= seq![x] + rest.drop_last());
        let j = join_texts(seq![x] + rest.drop_last(), sep);
        assert(join_texts(l, sep) == j + sep + l.last());
        assert((j + sep + l.last()).take(x.len() as int) =~= j.take(x.len() as int));
    }
}

} // verus!
