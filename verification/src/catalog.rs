//! Catalog-side logic: case handling of table schemas, the information-schema tables the
//! engine builds, and the kinds of catalogs.
use vstd::prelude::*;
use crate::types::{BatchError, Column, ColumnData, DataType, Field, RecordBatch};
use crate::text::{lower_seq, upper_seq, to_ascii_lowercase, to_ascii_uppercase, str_eq, eq_ignore_ascii_case, str_eq_ignore_ascii_case};
use crate::column_info::metadata_view;
use crate::sql::texts;

verus! {

/// The fields of a schema with their names in ASCII lower case.
pub fn normalize_schema_case(schema: &Vec<Field>) -> (r: Vec<Field>)
    ensures
        r@.len() == schema@.len(),
        forall|i: int|
            0 <= i < r@.len() ==> {
                &&& (#[trigger] r@[i]).name@ == lower_seq(schema@[i].name@)
                &&& r@[i].data_type == schema@[i].data_type
                &&& r@[i].nullable == schema@[i].nullable
                &&& r@[i].metadata@ == schema@[i].metadata@
            },
{
    let mut out: Vec<Field> = Vec::new();
    let mut i: usize = 0;
    while i < schema.len()
        invariant
            i <= schema@.len(),
            out@.len() == i,
            forall|j: int|
                0 <= j < i ==> {
                    &&& (#[trigger] out@[j]).name@ == lower_seq(schema@[j].name@)
                    &&& out@[j].data_type == schema@[j].data_type
                    &&& out@[j].nullable == schema@[j].nullable
                    &&& out@[j].metadata@ == schema@[j].metadata@
                },
        decreases schema@.len() - i,
    {
        let mut f = schema[i].copy();
        f.name = to_ascii_lowercase(schema[i].name.as_str());
        out.push(f);
        i = i + 1;
    }
    out
}

/// Whether some field's name is already in upper case (stored the Snowflake way).
pub open spec fn spec_case_sensitive(schema: Seq<Field>) -> bool {
    exists|i: int| 0 <= i < schema.len() && (#[trigger] schema[i]).name@ == upper_seq(schema[i].name@)
}

/// Whether the schema has a field whose name equals its upper-case form.
pub fn case_sensitive_schema(schema: &Vec<Field>) -> (r: bool)
    ensures
        r == spec_case_sensitive(schema@),
{
    let mut i: usize = 0;
    while i < schema.len()
        invariant
            i <= schema@.len(),
            forall|j: int| 0 <= j < i ==> (#[trigger] schema@[j]).name@ != upper_seq(schema@[j].name@),
        decreases schema@.len() - i,
    {
        let up = to_ascii_uppercase(schema[i].name.as_str());
        if str_eq(schema[i].name.as_str(), up.as_str()) {
            return true;
        }
        i = i + 1;
    }
    false
}

/// A table seen with lower-case column names: the stored schema, its lower-cased form, and
/// whether names must be rewritten between the two.
pub struct CaseInsensitiveTable {
    pub original_schema: Vec<Field>,
    pub normalized_schema: Vec<Field>,
    pub requires_case_rewrite: bool,
}

impl CaseInsensitiveTable {
    /// Wraps a table with the given schema.
    pub fn new(original_schema: Vec<Field>) -> (r: CaseInsensitiveTable)
        ensures
            r.original_schema == original_schema,
            r.requires_case_rewrite == spec_case_sensitive(original_schema@),
            r.normalized_schema@.len() == original_schema@.len(),
            forall|i: int|
                0 <= i < original_schema@.len() ==> (#[trigger] r.normalized_schema@[i]).name@ == lower_seq(
                    original_schema@[i].name@,
                ) && r.normalized_schema@[i].data_type == original_schema@[i].data_type
                    && r.normalized_schema@[i].nullable == original_schema@[i].nullable
                    && r.normalized_schema@[i].metadata@ == original_schema@[i].metadata@,
    {
        let requires_case_rewrite = case_sensitive_schema(&original_schema);
        let normalized_schema = normalize_schema_case(&original_schema);
        CaseInsensitiveTable { original_schema, normalized_schema, requires_case_rewrite }
    }

    /// The position of the first stored field whose name matches, ignoring ASCII case.
    pub open spec fn spec_lookup(&self, name: Seq<char>) -> Option<int> {
        first_case_match(self.original_schema@, name, 0)
    }

    /// The name a column reference is rewritten to: the stored name of the first field
    /// matching it up to ASCII case, or the name itself.
    pub fn rewrite_column_name(&self, name: &String) -> (r: String)
        ensures
            match self.spec_lookup(name@) {
                Some(i) => r@ == self.original_schema@[i].name@,
                None => r@ == name@,
            },
    {
        let mut i: usize = 0;
        while i < self.original_schema.len()
            invariant
                i <= self.original_schema@.len(),
                first_case_match(self.original_schema@, name@, 0) == first_case_match(
                    self.original_schema@,
                    name@,
                    i as int,
                ),
            decreases self.original_schema@.len() - i,
        {
            if str_eq_ignore_ascii_case(self.original_schema[i].name.as_str(), name.as_str()) {
                return self.original_schema[i].name.clone();
            }
            i = i + 1;
        }
        name.clone()
    }

    /// The names a scan's output columns are given: the lower-cased names of the projected
    /// fields (all fields when there is no projection).
    pub fn scan_output_names(&self, projection: &Option<Vec<usize>>) -> (r: Vec<String>)
        requires
            projection matches Some(p) ==> forall|k: int| 0 <= k < p@.len() ==> #[trigger] p@[k] < self.normalized_schema@.len(),
        ensures
            match *projection {
                Some(p) => r@.len() == p@.len() && forall|k: int|
                    0 <= k < p@.len() ==> (#[trigger] r@[k])@ == self.normalized_schema@[p@[k] as int].name@,
                None => r@.len() == self.normalized_schema@.len() && forall|k: int|
                    0 <= k < r@.len() ==> (#[trigger] r@[k])@ == self.normalized_schema@[k].name@,
            },
    {
        let mut r: Vec<String> = Vec::new();
        match projection {
            Some(p) => {
                let mut k: usize = 0;
                while k < p.len()
                    invariant
                        k <= p@.len(),
                        r@.len() == k,
                        forall|q: int| 0 <= q < p@.len() ==> #[trigger] p@[q] < self.normalized_schema@.len(),
                        forall|q: int| 0 <= q < k ==> (#[trigger] r@[q])@ == self.normalized_schema@[p@[q] as int].name@,
                    decreases p@.len() - k,
                {
                    r.push(self.normalized_schema[p[k]].name.clone());
                    k = k + 1;
                }
            },
            None => {
                let mut k: usize = 0;
                while k < self.normalized_schema.len()
                    invariant
                        k <= self.normalized_schema@.len(),
                        r@.len() == k,
                        forall|q: int| 0 <= q < k ==> (#[trigger] r@[q])@ == self.normalized_schema@[q].name@,
                    decreases self.normalized_schema@.len() - k,
                {
                    r.push(self.normalized_schema[k].name.clone());
                    k = k + 1;
                }
            },
        }
        r
    }
}

/// The first field from position `k` on whose name matches up to ASCII case.
pub open spec fn first_case_match(schema: Seq<Field>, name: Seq<char>, k: int) -> Option<int>
    decreases schema.len() - k,
{
    if k < 0 || k >= schema.len() {
        None
    } else if eq_ignore_ascii_case(schema[k].name@, name) {
        Some(k)
    } else {
        first_case_match(schema, name, k + 1)
    }
}

proof fn lemma_lower_idempotent(s: Seq<char>)
    ensures
        lower_seq(lower_seq(s)) == lower_seq(s),
{
    assert forall|i: int| 0 <= i < s.len() implies #[trigger] lower_seq(lower_seq(s))[i] == lower_seq(s)[i] by {
        let c = s[i];
        if 'A' <= c && c <= 'Z' {
            assert(((c as u32) + 32) as char >= 'a');
        }
    }
    assert(lower_seq(lower_seq(s)) =~= lower_seq(s));
}

proof fn lemma_first_case_match_found(schema: Seq<Field>, name: Seq<char>, k: int, i: int)
    requires
        0 <= k <= i < schema.len(),
        eq_ignore_ascii_case(schema[i].name@, name),
    ensures
        first_case_match(schema, name, k) matches Some(j) && k <= j <= i && eq_ignore_ascii_case(schema[j].name@, name),
    decreases i - k,
{
    if !eq_ignore_ascii_case(schema[k].name@, name) {
        lemma_first_case_match_found(schema, name, k + 1, i);
    }
}

/// A column read through its lower-cased name is found again: the name is mapped back to
/// a column of the stored schema whose name equals it ignoring ASCII case, the first such
/// column, which comes no later than the column itself.
pub proof fn law_lower_cased_names_map_back(schema: Seq<Field>, i: int)
    requires
        0 <= i < schema.len(),
    ensures
        first_case_match(schema, lower_seq(schema[i].name@), 0) matches Some(j) && 0 <= j <= i
            && eq_ignore_ascii_case(schema[j].name@, schema[i].name@),
{
    lemma_lower_idempotent(schema[i].name@);
    lemma_first_case_match_found(schema, lower_seq(schema[i].name@), 0, i);
}

/// The columns a batch keeps: the positions of the fields not named in `excluded`.
pub open spec fn kept_columns(schema: Seq<Field>, excluded: Seq<Seq<char>>, k: int) -> Seq<int>
    decreases k,
{
    if k <= 0 {
        Seq::empty()
    } else {
        let prev = kept_columns(schema, excluded, k - 1);
        if excluded.contains(schema[k - 1].name@) {
            prev
        } else {
            prev.push(k - 1)
        }
    }
}

fn is_excluded(excluded: &Vec<String>, name: &String) -> (r: bool)
    ensures
        r == texts(excluded@).contains(name@),
{
    let ghost ex = texts(excluded@);
    let mut j: usize = 0;
    while j < excluded.len()
        invariant
            j <= excluded@.len(),
            ex == texts(excluded@),
            forall|q: int| 0 <= q < j ==> ex[q] != name@,
        decreases excluded@.len() - j,
    {
        if str_eq(excluded[j].as_str(), name.as_str()) {
            assert(ex[j as int] == name@);
            return true;
        }
        j = j + 1;
    }
    false
}

/// The kept positions are increasing and below the bound.
proof fn lemma_kept_columns_bounds(schema: Seq<Field>, ex: Seq<Seq<char>>, k: int)
    ensures
        forall|q: int| 0 <= q < kept_columns(schema, ex, k).len() ==> 0 <= #[trigger] kept_columns(schema, ex, k)[q] < k,
    decreases k,
{
    if k > 0 {
        lemma_kept_columns_bounds(schema, ex, k - 1);
        let prev = kept_columns(schema, ex, k - 1);
        let cur = kept_columns(schema, ex, k);
        assert forall|q: int| 0 <= q < cur.len() implies 0 <= #[trigger] cur[q] < k by {
            if q < prev.len() {
                assert(cur[q] == prev[q]);
            }
        }
    }
}

/// `nf` and `nc` are the fields and columns at the positions `keep`.
pub open spec fn kept_parts(nf: Seq<Field>, nc: Seq<Column>, schema: Seq<Field>, cols: Seq<Column>, keep: Seq<int>) -> bool {
    &&& nc.len() == keep.len()
    &&& nf.len() == keep.len()
    &&& forall|k: int|
        0 <= k < keep.len() ==> (#[trigger] nf[k]).name == schema[keep[k]].name
            && nf[k].data_type == schema[keep[k]].data_type
            && nf[k].nullable == schema[keep[k]].nullable
            && nf[k].metadata@ == schema[keep[k]].metadata@
            && nc[k] == cols[keep[k]]
}

/// `nb` is batch `ob` without the excluded columns: the kept fields and columns, in order.
pub open spec fn batch_kept(nb: RecordBatch, ob: RecordBatch, ex: Seq<Seq<char>>) -> bool {
    kept_parts(nb.schema@, nb.columns@, ob.schema@, ob.columns@, kept_columns(ob.schema@, ex, ob.schema@.len() as int))
}

/// Removes the named columns from each batch, keeping the others in order.
pub fn remove_columns_from_batches(batches: Vec<RecordBatch>, excluded_columns: &Vec<String>) -> (r: Vec<RecordBatch>)
    requires
        forall|b: int| 0 <= b < batches@.len() ==> (#[trigger] batches@[b]).wf(),
        forall|b: int|
            0 <= b < batches@.len() ==> kept_columns(
                (#[trigger] batches@[b]).schema@,
                texts(excluded_columns@),
                batches@[b].schema@.len() as int,
            ).len() > 0,
    ensures
        r@.len() == batches@.len(),
        forall|b: int|
            0 <= b < r@.len() ==> #[trigger] batch_kept(r@[b], batches@[b], texts(excluded_columns@)),
{
    let ghost orig = batches@;
    let ghost ex = texts(excluded_columns@);
    let mut rest = batches;
    let mut out: Vec<RecordBatch> = Vec::new();
    while rest.len() > 0
        invariant
            out@.len() <= orig.len(),
            rest@ == orig.subrange(out@.len() as int, orig.len() as int),
            ex == texts(excluded_columns@),
            forall|b: int| 0 <= b < out@.len() ==> #[trigger] batch_kept(out@[b], orig[b], ex),
            forall|b: int| 0 <= b < orig.len() ==> (#[trigger] orig[b]).wf(),
        decreases rest@.len(),
    {
        let batch = rest.remove(0);
        let ghost bi = out@.len() as int;
        assert(batch == orig[bi]);
        let RecordBatch { schema, columns } = batch;
        let ghost ocols = columns@;
        let n = schema.len();
        let mut columns = columns;
        let mut new_fields: Vec<Field> = Vec::new();
        let mut new_cols: Vec<Column> = Vec::new();
        let mut i: usize = 0;
        while i < n
            invariant
                n == schema@.len(),
                schema == orig[bi].schema,
                ocols == orig[bi].columns@,
                orig[bi].wf(),
                ex == texts(excluded_columns@),
                i <= n,
                columns@ == ocols.subrange(i as int, ocols.len() as int),
                kept_parts(new_fields@, new_cols@, schema@, ocols, kept_columns(schema@, ex, i as int)),
            decreases n - i,
        {
            let c = columns.remove(0);
            assert(c == ocols[i as int]);
            let ghost prevk = kept_columns(schema@, ex, i as int);
            let ghost pf = new_fields@;
            let ghost pc = new_cols@;
            let excl = is_excluded(excluded_columns, &schema[i].name);
            if !excl {
                let f = schema[i].copy();
                new_fields.push(f);
                new_cols.push(c);
                let ghost nk = kept_columns(schema@, ex, i as int + 1);
                assert(nk == prevk.push(i as int));
                assert forall|q: int| 0 <= q < nk.len() implies (#[trigger] new_fields@[q]).name == schema@[nk[q]].name
                    && new_fields@[q].data_type == schema@[nk[q]].data_type
                    && new_fields@[q].nullable == schema@[nk[q]].nullable
                    && new_fields@[q].metadata@ == schema@[nk[q]].metadata@
                    && new_cols@[q] == ocols[nk[q]] by {
                    if q < pc.len() {
                        assert(new_cols@[q] == pc[q]);
                        assert(new_fields@[q] == pf[q]);
                        assert(nk[q] == prevk[q]);
                        assert(pf[q].name == schema@[prevk[q]].name);
                    }
                }
            } else {
                assert(kept_columns(schema@, ex, i as int + 1) == prevk);
            }
            i = i + 1;
            assert(columns@ =~= ocols.subrange(i as int, ocols.len() as int));
        }
        proof {
            lemma_kept_columns_bounds(schema@, ex, n as int);
        }
        let ghost prev_out = out@;
        out.push(RecordBatch { schema: new_fields, columns: new_cols });
        assert forall|b: int| 0 <= b < prev_out.len() implies #[trigger] out@[b] == prev_out[b] by {}
        proof {
            let nb = out@[bi];
            assert(batch_kept(nb, orig[bi], ex));
        }
        assert(rest@ =~= orig.subrange(out@.len() as int, orig.len() as int));
    }
    out
}

/// The positions of the fields a batch is sorted by: every field whose type is not `Null`,
/// in order.
pub open spec fn sortable_positions(schema: Seq<Field>, k: int) -> Seq<usize>
    decreases k,
{
    if k <= 0 || k > schema.len() {
        Seq::empty()
    } else if schema[k - 1].data_type == DataType::Null {
        sortable_positions(schema, k - 1)
    } else {
        sortable_positions(schema, k - 1).push((k - 1) as usize)
    }
}

/// The columns a batch is sorted by, in order: all but those of the `Null` type.
pub fn sortable_columns(schema: &Vec<Field>) -> (r: Vec<usize>)
    ensures
        r@ == sortable_positions(schema@, schema@.len() as int),
{
    let mut r: Vec<usize> = Vec::new();
    let mut i: usize = 0;
    while i < schema.len()
        invariant
            i <= schema@.len(),
            r@ == sortable_positions(schema@, i as int),
        decreases schema@.len() - i,
    {
        let is_null = match schema[i].data_type {
            DataType::Null => true,
            _ => false,
        };
        if !is_null {
            r.push(i);
        }
        i = i + 1;
    }
    r
}

/// The kind of a catalog.
#[derive(Clone, Copy, Debug, PartialEq, Eq, Structural)]
pub enum CatalogType {
    Embucket,
    Memory,
    S3tables,
}

impl CatalogType {
    /// The name a catalog kind is shown by.
    pub open spec fn spec_name(self) -> Seq<char> {
        match self {
            CatalogType::Embucket => "embucket"@,
            CatalogType::Memory => "memory"@,
            CatalogType::S3tables => "s3_tables"@,
        }
    }

    /// The name a catalog kind is shown by: `embucket`, `memory` or `s3_tables`.
    pub fn to_string(&self) -> (r: String)
        ensures
            r@ == self.spec_name(),
    {
        match self {
            CatalogType::Embucket => "embucket".to_string(),
            CatalogType::Memory => "memory".to_string(),
            CatalogType::S3tables => "s3_tables".to_string(),
        }
    }
}

/// Settings of the list of catalogs.
#[derive(Clone, Copy, Debug, PartialEq, Eq, Structural)]
pub struct CatalogListConfig {
    pub max_concurrent_table_fetches: usize,
}

impl Default for CatalogListConfig {
    fn default() -> (r: Self)
        ensures
            r.max_concurrent_table_fetches == 0,
    {
        CatalogListConfig { max_concurrent_table_fetches: 0 }
    }
}

} // verus!
