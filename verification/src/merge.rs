//! Copy-on-write MERGE: which data files a merge rewrites, and which rows it keeps.
use vstd::prelude::*;
use lru::LruCache;
use std::num::NonZeroUsize;
use crate::text::str_eq;
use crate::types::Field;
use crate::assoc::remove_entry;
use crate::assoc::{
    keys_distinct, map_view, key_set, entries_view, assoc_insert_view, view_has_key, key_pos,
    insert_entry, contains_key, items_distinct, set_view, insert_item, contains_item,
    lemma_map_view_at,
};

verus! {

/// Column marking rows whose target row exists.
pub const TARGET_EXISTS_COLUMN: &'static str = "__target_exists";
/// Column marking rows that a source row matched.
pub const SOURCE_EXISTS_COLUMN: &'static str = "__source_exists";
/// Column holding the data file a target row was read from.
pub const DATA_FILE_PATH_COLUMN: &'static str = "__data_file_path";
/// Column holding the manifest file that lists a row's data file.
pub const MANIFEST_FILE_PATH_COLUMN: &'static str = "__manifest_file_path";
/// Number of data files whose batches are held back while waiting for a match.
pub const BUFFER_SIZE: usize = 2;

/// Failures of the merge filter.
#[derive(Debug, Clone, PartialEq, Eq)]
pub enum MergeError {
    /// A file that was waiting for a match has no entry or no buffered batches.
    FilterStreamNotMatching { file: String },
    /// No predicate could be built for the matching files.
    MissingFilterPredicates,
    /// The matched files were taken by an earlier commit.
    MatchingFilesAlreadyConsumed,
}

/// The text of an optional string.
pub open spec fn opt_view(o: Option<String>) -> Option<Seq<char>> {
    match o {
        Some(s) => Some(s@),
        None => None,
    }
}

/// The texts of a column of optional strings.
pub open spec fn paths_view(v: Seq<Option<String>>) -> Seq<Option<Seq<char>>> {
    v.map_values(|o: Option<String>| opt_view(o))
}

/// The value Arrow reads at a slot of a string array: the text, or "" for a null slot.
pub open spec fn value_text(o: Option<Seq<char>>) -> Seq<char> {
    match o {
        Some(s) => s,
        None => Seq::empty(),
    }
}

/// The rows of `vals` whose mask entry is true (a null or false entry drops the row).
pub open spec fn filter_seq<T>(vals: Seq<T>, mask: Seq<Option<bool>>) -> Seq<T>
    decreases vals.len(),
{
    if vals.len() == 0 {
        Seq::empty()
    } else {
        let n = vals.len() - 1;
        let rest = filter_seq(vals.take(n), mask);
        if mask[n] == Some(true) {
            rest.push(vals[n])
        } else {
            rest
        }
    }
}

fn clone_opt(o: &Option<String>) -> (r: Option<String>)
    ensures
        r == *o,
{
    match o {
        Some(s) => Some(s.clone()),
        None => None,
    }
}

/// Whether two optional strings are equal.
pub fn opt_eq(a: &Option<String>, b: &Option<String>) -> (r: bool)
    ensures
        r == (opt_view(*a) == opt_view(*b)),
{
    match (a, b) {
        (Some(x), Some(y)) => str_eq(x.as_str(), y.as_str()),
        (None, None) => true,
        _ => false,
    }
}

/// Keeps the rows of a string column whose mask entry is true.
pub fn filter_strings(values: &Vec<Option<String>>, mask: &Vec<Option<bool>>) -> (r: Vec<Option<String>>)
    requires
        mask@.len() == values@.len(),
    ensures
        paths_view(r@) == filter_seq(paths_view(values@), mask@),
{
    let ghost pv = paths_view(values@);
    let mut out: Vec<Option<String>> = Vec::new();
    let mut i: usize = 0;
    while i < values.len()
        invariant
            mask@.len() == values@.len(),
            pv == paths_view(values@),
            i <= values@.len(),
            paths_view(out@) == filter_seq(pv.take(i as int), mask@),
        decreases values@.len() - i,
    {
        assert(pv.take(i as int + 1).take(i as int) =~= pv.take(i as int));
        if mask[i] == Some(true) {
            out.push(clone_opt(&values[i]));
            assert(paths_view(out@) =~= filter_seq(pv.take(i as int), mask@).push(pv[i as int]));
        }
        i = i + 1;
    }
    assert(pv.take(values@.len() as int) =~= pv);
    out
}

/// The distinct values a sorted string column holds, as the merge reads them: the first
/// slot (even when empty, if it is the only one), then each non-empty value that differs
/// from the slot before it.
pub open spec fn unique_values_set(a: Seq<Option<Seq<char>>>) -> Set<Seq<char>> {
    if a.len() == 0 {
        Set::empty()
    } else if a.len() == 1 {
        set![value_text(a[0])]
    } else {
        let first = value_text(a[0]);
        let init = if first.len() == 0 {
            Set::empty()
        } else {
            set![first]
        };
        init.union(
            Set::new(
                |s: Seq<char>|
                    s.len() > 0 && exists|j: int|
                        1 <= j < a.len() && a[j] != a[j - 1] && #[trigger] a[j] == Some(s),
            ),
        )
    }
}

/// The values that `unique_values` collects among the slots before `k`.
pub open spec fn changed_values_before(a: Seq<Option<Seq<char>>>, k: int) -> Set<Seq<char>> {
    Set::new(
        |s: Seq<char>|
            s.len() > 0 && exists|j: int| 1 <= j < k && a[j] != a[j - 1] && #[trigger] a[j] == Some(s),
    )
}

/// Extracts the distinct values of a sorted string column by comparing neighbours.
pub fn unique_values(array: &Vec<Option<String>>) -> (r: Result<Vec<String>, MergeError>)
    ensures
        r matches Ok(v) && items_distinct(v@) && set_view(v@) == unique_values_set(paths_view(array@)),
{
    let ghost a = paths_view(array@);
    let mut out: Vec<String> = Vec::new();
    if array.len() == 0 {
        assert(set_view(out@) =~= unique_values_set(a));
        return Ok(out);
    }
    let first: String = match &array[0] {
        Some(s) => s.clone(),
        None => String::new(),
    };
    assert(first@ == value_text(a[0]));
    if array.len() == 1 {
        insert_item(&mut out, first);
        assert(set_view(out@) =~= unique_values_set(a));
        return Ok(out);
    }
    if first.as_str().unicode_len() > 0 {
        insert_item(&mut out, first);
    }
    let ghost init = if value_text(a[0]).len() == 0 {
        Set::<Seq<char>>::empty()
    } else {
        set![value_text(a[0])]
    };
    assert(set_view(out@) =~= init.union(changed_values_before(a, 1)));
    let mut j: usize = 1;
    while j < array.len()
        invariant
            a == paths_view(array@),
            1 <= j <= array@.len(),
            items_distinct(out@),
            set_view(out@) == init.union(changed_values_before(a, j as int)),
        decreases array@.len() - j,
    {
        let differs = !opt_eq(&array[j], &array[j - 1]);
        assert(differs == (a[j as int] != a[j as int - 1]));
        let ghost before = set_view(out@);
        match &array[j] {
            Some(s) => {
                if differs && s.as_str().unicode_len() > 0 {
                    insert_item(&mut out, s.clone());
                    assert(changed_values_before(a, j as int + 1) =~= changed_values_before(a, j as int).insert(s@));
                } else {
                    assert(changed_values_before(a, j as int + 1) =~= changed_values_before(a, j as int));
                }
            },
            None => {
                assert(changed_values_before(a, j as int + 1) =~= changed_values_before(a, j as int));
            },
        }
        j = j + 1;
        assert(set_view(out@) =~= init.union(changed_values_before(a, j as int)));
    }
    assert(set_view(out@) =~= unique_values_set(a));
    Ok(out)
}

/// The file-to-manifest pairs collected from the slots before `k` of two sorted columns.
pub open spec fn files_and_manifests_upto(
    files: Seq<Option<Seq<char>>>,
    manifests: Seq<Option<Seq<char>>>,
    k: int,
) -> Seq<(Seq<char>, Seq<char>)>
    decreases k,
{
    if k <= 1 {
        let first = value_text(files[0]);
        if first.len() == 0 {
            Seq::empty()
        } else {
            seq![(first, value_text(manifests[0]))]
        }
    } else {
        let prev = files_and_manifests_upto(files, manifests, k - 1);
        let j = k - 1;
        if files[j] != files[j - 1] && files[j] is Some && manifests[j] is Some && files[j]->0.len()
            > 0 {
            assoc_insert_view(prev, files[j]->0, manifests[j]->0)
        } else {
            prev
        }
    }
}

/// The file-to-manifest pairs of two sorted columns: the first pair, then each pair whose
/// file differs from the row before, the later pair winning for a repeated file.
pub open spec fn files_and_manifests(files: Seq<Option<Seq<char>>>, manifests: Seq<Option<Seq<char>>>) -> Seq<
    (Seq<char>, Seq<char>),
> {
    if files.len() == 0 {
        Seq::empty()
    } else if files.len() == 1 {
        seq![(value_text(files[0]), value_text(manifests[0]))]
    } else {
        files_and_manifests_upto(files, manifests, files.len() as int)
    }
}

/// Maps each distinct data file of sorted file and manifest columns to its manifest.
pub fn unique_files_and_manifests(files: &Vec<Option<String>>, manifests: &Vec<Option<String>>) -> (r: Result<
    Vec<(String, String)>,
    MergeError,
>)
    requires
        files@.len() <= manifests@.len(),
    ensures
        r matches Ok(v) && keys_distinct(v@) && entries_view(v@) == files_and_manifests(
            paths_view(files@),
            paths_view(manifests@),
        ),
{
    let ghost fv = paths_view(files@);
    let ghost mv = paths_view(manifests@);
    let mut out: Vec<(String, String)> = Vec::new();
    if files.len() == 0 {
        assert(entries_view(out@) =~= files_and_manifests(fv, mv));
        return Ok(out);
    }
    let first_file: String = match &files[0] {
        Some(s) => s.clone(),
        None => String::new(),
    };
    let first_manifest: String = match &manifests[0] {
        Some(s) => s.clone(),
        None => String::new(),
    };
    if files.len() == 1 {
        out.push((first_file, first_manifest));
        assert(entries_view(out@) =~= files_and_manifests(fv, mv));
        return Ok(out);
    }
    if first_file.as_str().unicode_len() > 0 {
        out.push((first_file, first_manifest));
    }
    assert(entries_view(out@) =~= files_and_manifests_upto(fv, mv, 1));
    let mut j: usize = 1;
    while j < files.len()
        invariant
            fv == paths_view(files@),
            mv == paths_view(manifests@),
            files@.len() <= manifests@.len(),
            1 <= j <= files@.len(),
            keys_distinct(out@),
            entries_view(out@) == files_and_manifests_upto(fv, mv, j as int),
        decreases files@.len() - j,
    {
        let differs = !opt_eq(&files[j], &files[j - 1]);
        match (&files[j], &manifests[j]) {
            (Some(f), Some(m)) => {
                if differs && f.as_str().unicode_len() > 0 {
                    insert_entry(&mut out, f.clone(), m.clone());
                }
            },
            _ => {},
        }
        j = j + 1;
    }
    Ok(out)
}

/// The data files a batch rewrites: those with a matching source row in this batch, and
/// those matched in earlier batches that appear again in this one.
pub open spec fn matching_data_files_set(
    previously_matched: Seq<(String, String)>,
    filtered: Seq<Option<String>>,
    all: Seq<(String, String)>,
) -> Set<Seq<char>> {
    unique_values_set(paths_view(filtered)).union(key_set(previously_matched).intersect(key_set(all)))
}

/// Combines the files with a matching row in this batch and the earlier matched files
/// present in this batch.
pub fn create_matching_data_files(
    project_matching_files: &Vec<(String, String)>,
    filtered_data_file_path: &Vec<Option<String>>,
    all_data_and_manifest_files: &Vec<(String, String)>,
) -> (r: Result<Vec<String>, MergeError>)
    ensures
        r matches Ok(v) && items_distinct(v@) && set_view(v@) == matching_data_files_set(
            project_matching_files@,
            filtered_data_file_path@,
            all_data_and_manifest_files@,
        ),
{
    let mut matching = match unique_values(filtered_data_file_path) {
        Ok(v) => v,
        Err(e) => {
            return Err(e);
        },
    };
    let ghost base = set_view(matching@);
    let mut i: usize = 0;
    while i < project_matching_files.len()
        invariant
            i <= project_matching_files@.len(),
            items_distinct(matching@),
            set_view(matching@) == base.union(
                Set::new(
                    |k: Seq<char>|
                        (exists|j: int| 0 <= j < i && (#[trigger] project_matching_files@[j]).0@ == k)
                            && key_set(all_data_and_manifest_files@).contains(k),
                ),
            ),
        decreases project_matching_files@.len() - i,
    {
        let k = &project_matching_files[i].0;
        let ghost before = set_view(matching@);
        if contains_key(all_data_and_manifest_files, k.as_str()) {
            insert_item(&mut matching, k.clone());
        }
        i = i + 1;
        assert(set_view(matching@) =~= base.union(
            Set::new(
                |kk: Seq<char>|
                    (exists|j: int| 0 <= j < i && (#[trigger] project_matching_files@[j]).0@ == kk)
                        && key_set(all_data_and_manifest_files@).contains(kk),
            ),
        ));
    }
    assert(set_view(matching@) =~= matching_data_files_set(
        project_matching_files@,
        filtered_data_file_path@,
        all_data_and_manifest_files@,
    ));
    Ok(matching)
}


/// The LRU cache of the `lru` crate, which holds the batches waiting for their file to match.
#[verifier::external_type_specification]
#[verifier::external_body]
#[verifier::reject_recursive_types(K)]
#[verifier::reject_recursive_types(V)]
#[verifier::reject_recursive_types(S)]
pub struct ExLruCache<K, V, S>(LruCache<K, V, S>);

/// The hasher the `lru` crate builds its caches with by default.
#[verifier::external_type_specification]
#[verifier::external_body]
pub struct ExLruDefaultHasher(lru::DefaultHasher);

/// What an LRU buffer of batch ids holds: (file, ids of its buffered batches), most
/// recently used first.
pub uninterp spec fn buffer_entries(c: LruCache<String, Vec<u64>>) -> Seq<(Seq<char>, Seq<u64>)>;

/// The capacity an LRU buffer was made with.
pub uninterp spec fn buffer_capacity(c: LruCache<String, Vec<u64>>) -> nat;

/// Whether an entry of the buffer has the given key.
pub open spec fn lru_has(e: Seq<(Seq<char>, Seq<u64>)>, k: Seq<char>) -> bool {
    exists|i: int| 0 <= i < e.len() && (#[trigger] e[i]).0 == k
}

/// The position of the entry with the given key.
pub open spec fn lru_pos(e: Seq<(Seq<char>, Seq<u64>)>, k: Seq<char>) -> int {
    choose|i: int| 0 <= i < e.len() && (#[trigger] e[i]).0 == k
}

/// No two entries of the buffer have the same key.
pub open spec fn lru_keys_distinct(e: Seq<(Seq<char>, Seq<u64>)>) -> bool {
    forall|i: int, j: int| 0 <= i < j < e.len() ==> (#[trigger] e[i]).0 != (#[trigger] e[j]).0
}

/// `LruCache::new`: an empty cache of the given capacity (which `NonZeroUsize::new`
/// requires to be positive).
#[verifier::external_body]
fn lru_new(cap: usize) -> (c: LruCache<String, Vec<u64>>)
    requires
        cap > 0,
    ensures
        buffer_entries(c) == Seq::<(Seq<char>, Seq<u64>)>::empty(),
        buffer_capacity(c) == cap,
{
    LruCache::new(NonZeroUsize::new(cap).unwrap())
}

/// `LruCache::put`: a key already present gets the new value and becomes most recently
/// used, and the old value is returned; otherwise the entry is added as most recently used,
/// first evicting the least recently used entry when the cache is full.
#[verifier::external_body]
fn lru_put(c: &mut LruCache<String, Vec<u64>>, k: String, v: Vec<u64>) -> (r: Option<Vec<u64>>)
    ensures
        buffer_capacity(*final(c)) == buffer_capacity(*old(c)),
        lru_keys_distinct(buffer_entries(*final(c))),
        buffer_entries(*final(c)).len() <= buffer_capacity(*final(c)),
        ({
            let e = buffer_entries(*old(c));
            if lru_has(e, k@) {
                &&& buffer_entries(*final(c)) == seq![(k@, v@)] + e.remove(lru_pos(e, k@))
                &&& r matches Some(o) && o@ == e[lru_pos(e, k@)].1
            } else if e.len() >= buffer_capacity(*old(c)) {
                &&& buffer_entries(*final(c)) == seq![(k@, v@)] + e.drop_last()
                &&& r is None
            } else {
                &&& buffer_entries(*final(c)) == seq![(k@, v@)] + e
                &&& r is None
            }
        }),
{
    c.put(k, v)
}

/// `LruCache::pop`: removes the entry with the key and returns its value.
#[verifier::external_body]
fn lru_pop(c: &mut LruCache<String, Vec<u64>>, k: &String) -> (r: Option<Vec<u64>>)
    ensures
        buffer_capacity(*final(c)) == buffer_capacity(*old(c)),
        lru_keys_distinct(buffer_entries(*final(c))),
        buffer_entries(*final(c)).len() <= buffer_capacity(*final(c)),
        ({
            let e = buffer_entries(*old(c));
            if lru_has(e, k@) {
                &&& buffer_entries(*final(c)) == e.remove(lru_pos(e, k@))
                &&& r matches Some(o) && o@ == e[lru_pos(e, k@)].1
            } else {
                &&& buffer_entries(*final(c)) == e
                &&& r is None
            }
        }),
{
    c.pop(k)
}

/// Holding batch `b` back for file `f`: its id joins the file's buffered ids and the file
/// becomes most recently used; a new file evicts the least recently used one when full.
pub open spec fn buffer_batch(e: Seq<(Seq<char>, Seq<u64>)>, f: Seq<char>, b: u64, cap: nat) -> Seq<
    (Seq<char>, Seq<u64>),
> {
    if lru_has(e, f) {
        seq![(f, e[lru_pos(e, f)].1.push(b))] + e.remove(lru_pos(e, f))
    } else if e.len() >= cap {
        seq![(f, seq![b])] + e.drop_last()
    } else {
        seq![(f, seq![b])] + e
    }
}

/// Splitting the first `k` file/manifest pairs of a batch: pairs of matching files are
/// kept, and the batch is held back for every other file.
pub open spec fn collect_upto(
    all: Seq<(Seq<char>, Seq<char>)>,
    matching: Set<Seq<char>>,
    b: u64,
    e0: Seq<(Seq<char>, Seq<u64>)>,
    cap: nat,
    k: int,
) -> (Seq<(Seq<char>, Seq<char>)>, Seq<(Seq<char>, Seq<u64>)>)
    decreases k,
{
    if k <= 0 {
        (Seq::empty(), e0)
    } else {
        let prev = collect_upto(all, matching, b, e0, cap, k - 1);
        let f = all[k - 1].0;
        if matching.contains(f) {
            (assoc_insert_view(prev.0, f, all[k - 1].1), prev.1)
        } else {
            (prev.0, buffer_batch(prev.1, f, b, cap))
        }
    }
}

/// Keeps the data files that match (with their manifests) and holds the batch back in the
/// buffer for each data file that does not match yet.
pub fn collect_matching_data_and_manifest_files(
    batch_id: u64,
    all_data_and_manifest_files: Vec<(String, String)>,
    matching_data_files: &Vec<String>,
    not_matched_buffer: &mut LruCache<String, Vec<u64>>,
) -> (r: Vec<(String, String)>)
    requires
        lru_keys_distinct(buffer_entries(*old(not_matched_buffer))),
        buffer_entries(*old(not_matched_buffer)).len() <= buffer_capacity(*old(not_matched_buffer)),
    ensures
        keys_distinct(r@),
        lru_keys_distinct(buffer_entries(*final(not_matched_buffer))),
        buffer_entries(*final(not_matched_buffer)).len() <= buffer_capacity(*final(not_matched_buffer)),
        buffer_capacity(*final(not_matched_buffer)) == buffer_capacity(*old(not_matched_buffer)),
        ({
            let all = entries_view(all_data_and_manifest_files@);
            let res = collect_upto(
                all,
                set_view(matching_data_files@),
                batch_id,
                buffer_entries(*old(not_matched_buffer)),
                buffer_capacity(*old(not_matched_buffer)),
                all.len() as int,
            );
            &&& entries_view(r@) == res.0
            &&& buffer_entries(*final(not_matched_buffer)) == res.1
        }),
{
    let ghost all = entries_view(all_data_and_manifest_files@);
    let ghost e0 = buffer_entries(*not_matched_buffer);
    let ghost cap = buffer_capacity(*not_matched_buffer);
    let ghost mset = set_view(matching_data_files@);
    let mut out: Vec<(String, String)> = Vec::new();
    let mut i: usize = 0;
    while i < all_data_and_manifest_files.len()
        invariant
            all == entries_view(all_data_and_manifest_files@),
            mset == set_view(matching_data_files@),
            i <= all_data_and_manifest_files@.len(),
            keys_distinct(out@),
            lru_keys_distinct(buffer_entries(*not_matched_buffer)),
            buffer_entries(*not_matched_buffer).len() <= buffer_capacity(*not_matched_buffer),
            buffer_capacity(*not_matched_buffer) == cap,
            entries_view(out@) == collect_upto(all, mset, batch_id, e0, cap, i as int).0,
            buffer_entries(*not_matched_buffer) == collect_upto(all, mset, batch_id, e0, cap, i as int).1,
        decreases all_data_and_manifest_files@.len() - i,
    {
        let file = &all_data_and_manifest_files[i].0;
        let manifest = &all_data_and_manifest_files[i].1;
        assert(all[i as int] == (file@, manifest@));
        if contains_item(matching_data_files, file.as_str()) {
            insert_entry(&mut out, file.clone(), manifest.clone());
        } else {
            let ghost e = buffer_entries(*not_matched_buffer);
            match lru_pop(not_matched_buffer, file) {
                Some(mut batches) => {
                    let ghost e1 = buffer_entries(*not_matched_buffer);
                    batches.push(batch_id);
                    proof {
                        let p = lru_pos(e, file@);
                        assert(!lru_has(e1, file@)) by {
                            if lru_has(e1, file@) {
                                let q = choose|q: int| 0 <= q < e1.len() && (#[trigger] e1[q]).0 == file@;
                                if q < p {
                                    assert(e1[q] == e[q]);
                                    assert(e[q].0 != e[p].0);
                                } else {
                                    assert(e1[q] == e[q + 1]);
                                    assert(e[p].0 != e[q + 1].0);
                                }
                            }
                        }
                    }
                    lru_put(not_matched_buffer, file.clone(), batches);
                },
                None => {
                    let mut batches: Vec<u64> = Vec::new();
                    batches.push(batch_id);
                    assert(batches@ =~= seq![batch_id]);
                    lru_put(not_matched_buffer, file.clone(), batches);
                },
            }
        }
        i = i + 1;
    }
    out
}


/// The keys of a list of pairs.
pub open spec fn view_keys(a: Seq<(Seq<char>, Seq<char>)>) -> Set<Seq<char>> {
    Set::new(|k: Seq<char>| view_has_key(a, k))
}

/// Setting each pair of `r` in turn.
pub open spec fn assoc_extend(ev: Seq<(Seq<char>, Seq<char>)>, r: Seq<(Seq<char>, Seq<char>)>) -> Seq<
    (Seq<char>, Seq<char>),
>
    decreases r.len(),
{
    if r.len() == 0 {
        ev
    } else {
        assoc_insert_view(assoc_extend(ev, r.drop_last()), r.last().0, r.last().1)
    }
}

/// Whether a row stays in the merge's output: its data file is being rewritten, or a
/// source row matched it.
pub open spec fn row_kept(path: Option<Seq<char>>, source_exists: Option<bool>, m: Set<Seq<char>>) -> bool {
    (path matches Some(p) && m.contains(p)) || source_exists == Some(true)
}

/// What to do with a batch that reaches the merge filter.
#[derive(Debug, Clone, PartialEq, Eq)]
pub enum BatchDecision {
    /// Emit the batch as it is.
    PassThrough,
    /// Emit the rows whose mask entry is true.
    Keep(Vec<bool>),
    /// Emit nothing for this batch.
    Skip,
}

/// Whether every batch id held in the buffer is below `n`.
pub open spec fn ids_below(e: Seq<(Seq<char>, Seq<u64>)>, n: nat) -> bool {
    forall|i: int, j: int| 0 <= i < e.len() && 0 <= j < e[i].1.len() ==> #[trigger] e[i].1[j] < n
}

/// The rows of a batch whose data file is `f`.
pub open spec fn file_mask(paths: Seq<Option<Seq<char>>>, f: Seq<char>) -> Seq<bool> {
    Seq::new(paths.len(), |i: int| paths[i] == Some(f))
}

/// The waiting files (with their manifests), in order, that the matching set now holds.
pub open spec fn newly_matched(waiting: Seq<(Seq<char>, Seq<char>)>, m: Set<Seq<char>>) -> Seq<(Seq<char>, Seq<char>)>
    decreases waiting.len(),
{
    if waiting.len() == 0 {
        Seq::empty()
    } else {
        let prev = newly_matched(waiting.drop_last(), m);
        if m.contains(waiting.last().0) {
            prev.push(waiting.last())
        } else {
            prev
        }
    }
}

/// The waiting files after a batch: each file of the batch that does not match is
/// recorded with its manifest.
pub open spec fn record_unmatched(
    waiting: Map<Seq<char>, Seq<char>>,
    all: Seq<(Seq<char>, Seq<char>)>,
    m: Set<Seq<char>>,
) -> Map<Seq<char>, Seq<char>>
    decreases all.len(),
{
    if all.len() == 0 {
        waiting
    } else {
        let prev = record_unmatched(waiting, all.drop_last(), m);
        if m.contains(all.last().0) {
            prev
        } else {
            prev.insert(all.last().0, all.last().1)
        }
    }
}

/// The waiting files left once the given files have matched.
pub open spec fn remove_files(waiting: Map<Seq<char>, Seq<char>>, files: Seq<(Seq<char>, Seq<char>)>) -> Map<
    Seq<char>,
    Seq<char>,
>
    decreases files.len(),
{
    if files.len() == 0 {
        waiting
    } else {
        remove_files(waiting, files.drop_last()).remove(files.last().0)
    }
}

/// Releasing the held batches of files that have just matched, file by file: each file's
/// batch ids leave the buffer, and each of those batches becomes ready with the mask of its
/// rows of that file. Nothing, where a file's batches are no longer in the buffer.
pub open spec fn release(
    e: Seq<(Seq<char>, Seq<u64>)>,
    files: Seq<(Seq<char>, Seq<char>)>,
    held: Seq<Seq<Option<Seq<char>>>>,
) -> Option<(Seq<(Seq<char>, Seq<u64>)>, Seq<(u64, Seq<bool>)>)>
    decreases files.len(),
{
    if files.len() == 0 {
        Some((e, Seq::empty()))
    } else {
        match release(e, files.drop_last(), held) {
            None => None,
            Some(prev) => {
                let f = files.last().0;
                if !lru_has(prev.0, f) {
                    None
                } else {
                    let ids = prev.0[lru_pos(prev.0, f)].1;
                    Some(
                        (
                            prev.0.remove(lru_pos(prev.0, f)),
                            prev.1 + ids.map_values(|id: u64| (id, file_mask(held[id as int], f))),
                        ),
                    )
                }
            },
        }
    }
}

/// The ready batches, as ids and masks.
pub open spec fn ready_view(v: Seq<(u64, Vec<bool>)>) -> Seq<(u64, Seq<bool>)> {
    v.map_values(|p: (u64, Vec<bool>)| (p.0, p.1@))
}

/// The data file column of each batch seen, by batch id.
pub open spec fn held_view(v: Seq<Vec<Option<String>>>) -> Seq<Seq<Option<Seq<char>>>> {
    v.map_values(|p: Vec<Option<String>>| paths_view(p@))
}

/// Adding a batch to the buffer keeps every held id below a bound the batch is below.
proof fn lemma_buffer_batch_ids(e: Seq<(Seq<char>, Seq<u64>)>, f: Seq<char>, b: u64, cap: nat, n: nat)
    requires
        cap > 0,
        ids_below(e, n),
        b < n,
    ensures
        ids_below(buffer_batch(e, f, b, cap), n),
{
    let r = buffer_batch(e, f, b, cap);
    if lru_has(e, f) {
        let p = lru_pos(e, f);
        assert forall|i: int, j: int| 0 <= i < r.len() && 0 <= j < r[i].1.len() implies #[trigger] r[i].1[j] < n by {
            if i == 0 {
                if j < e[p].1.len() {
                    assert(r[0].1[j] == e[p].1[j]);
                }
            } else {
                let q = if i - 1 < p { i - 1 } else { i };
                assert(r[i] == e[q]);
            }
        }
    } else if e.len() >= cap {
        assert forall|i: int, j: int| 0 <= i < r.len() && 0 <= j < r[i].1.len() implies #[trigger] r[i].1[j] < n by {
            if i > 0 {
                assert(r[i] == e.drop_last()[i - 1]);
                assert(e.drop_last()[i - 1] == e[i - 1]);
            }
        }
    } else {
        assert forall|i: int, j: int| 0 <= i < r.len() && 0 <= j < r[i].1.len() implies #[trigger] r[i].1[j] < n by {
            if i > 0 {
                assert(r[i] == e[i - 1]);
            }
        }
    }
}

/// Holding a batch back keeps every held id below a bound the batch is below.
proof fn lemma_collect_ids(
    all: Seq<(Seq<char>, Seq<char>)>,
    m: Set<Seq<char>>,
    b: u64,
    e0: Seq<(Seq<char>, Seq<u64>)>,
    cap: nat,
    k: int,
    n: nat,
)
    requires
        cap > 0,
        ids_below(e0, n),
        b < n,
    ensures
        ids_below(collect_upto(all, m, b, e0, cap, k).1, n),
    decreases k,
{
    if k > 0 {
        lemma_collect_ids(all, m, b, e0, cap, k - 1, n);
        let prev = collect_upto(all, m, b, e0, cap, k - 1);
        if !m.contains(all[k - 1].0) {
            lemma_buffer_batch_ids(prev.1, all[k - 1].0, b, cap, n);
        }
    }
}

/// Removing an entry keeps every held id below the bound.
proof fn lemma_remove_ids(e: Seq<(Seq<char>, Seq<u64>)>, p: int, n: nat)
    requires
        ids_below(e, n),
        0 <= p < e.len(),
    ensures
        ids_below(e.remove(p), n),
{
    let r = e.remove(p);
    assert forall|i: int, j: int| 0 <= i < r.len() && 0 <= j < r[i].1.len() implies #[trigger] r[i].1[j] < n by {
        let q = if i < p { i } else { i + 1 };
        assert(r[i] == e[q]);
    }
}

/// A copy of a column of optional strings.
fn copy_paths(v: &Vec<Option<String>>) -> (r: Vec<Option<String>>)
    ensures
        r@ == v@,
{
    let mut r: Vec<Option<String>> = Vec::new();
    let mut i: usize = 0;
    while i < v.len()
        invariant
            i <= v@.len(),
            r@ == v@.take(i as int),
        decreases v@.len() - i,
    {
        r.push(crate::types::copy_opt_string(&v[i]));
        assert(r@ =~= v@.take(i + 1));
        i = i + 1;
    }
    assert(v@.take(v@.len() as int) =~= v@);
    r
}

/// State of the filter between the target scan and the copy-on-write writer: the data
/// files known to be rewritten, with their manifests, the files still waiting for a match,
/// the batches held back for them, and the held batches released for output.
pub struct MergeCOWFilterStream {
    /// Files which already had a row with `__source_exists` set, with their manifests.
    pub matching_files: Vec<(String, String)>,
    /// Files waiting for a match, with their manifests.
    pub not_matching_files: Vec<(String, String)>,
    /// Ids of batches held back per waiting file.
    pub not_matched_buffer: LruCache<String, Vec<u64>>,
    /// The data file column of each batch seen; a batch's id is its position here.
    pub buffered_paths: Vec<Vec<Option<String>>>,
    /// Held-back batches released for output, with the masks of their rows to emit.
    pub ready_batches: Vec<(u64, Vec<bool>)>,
}

impl MergeCOWFilterStream {
    /// The filter's state is consistent: no file is listed twice, the buffer is within its
    /// capacity, and every held batch id names a batch seen.
    pub open spec fn wf(&self) -> bool {
        &&& keys_distinct(self.matching_files@)
        &&& keys_distinct(self.not_matching_files@)
        &&& lru_keys_distinct(buffer_entries(self.not_matched_buffer))
        &&& buffer_entries(self.not_matched_buffer).len() <= buffer_capacity(self.not_matched_buffer)
        &&& buffer_capacity(self.not_matched_buffer) == BUFFER_SIZE
        &&& ids_below(buffer_entries(self.not_matched_buffer), self.buffered_paths@.len())
    }

    /// A filter that has seen no batch.
    pub fn new() -> (s: MergeCOWFilterStream)
        ensures
            s.wf(),
            s.matching_files@.len() == 0,
            s.not_matching_files@.len() == 0,
            buffer_entries(s.not_matched_buffer).len() == 0,
            s.buffered_paths@.len() == 0,
            s.ready_batches@.len() == 0,
    {
        MergeCOWFilterStream {
            matching_files: Vec::new(),
            not_matching_files: Vec::new(),
            not_matched_buffer: lru_new(BUFFER_SIZE),
            buffered_paths: Vec::new(),
            ready_batches: Vec::new(),
        }
    }

    /// The next held-back batch that is ready for output, with the mask of its rows to
    /// emit: the one released last.
    pub fn next_ready(&mut self) -> (r: Option<(u64, Vec<bool>)>)
        requires
            old(self).wf(),
        ensures
            final(self).wf(),
            old(self).ready_batches@.len() == 0 ==> r is None && final(self).ready_batches@.len() == 0,
            old(self).ready_batches@.len() > 0 ==> r == Some(old(self).ready_batches@.last())
                && final(self).ready_batches@ == old(self).ready_batches@.drop_last(),
            final(self).matching_files == old(self).matching_files,
            final(self).not_matching_files == old(self).not_matching_files,
            final(self).buffered_paths == old(self).buffered_paths,
            buffer_entries(final(self).not_matched_buffer) == buffer_entries(old(self).not_matched_buffer),
    {
        self.ready_batches.pop()
    }

    /// Decides what to emit for the next batch of the merge's target scan, given the
    /// batch's `__source_exists`, `__data_file_path` and `__manifest_file_path` columns;
    /// the batch's id is the number of batches seen before it. Rows are kept when their
    /// data file is rewritten (it has a matching source row in this batch, or had one in an
    /// earlier batch and appears here) or when a source row matched them; the batch is held
    /// back for the files that do not match, which are recorded as waiting. Where a waiting
    /// file matches, the batches held back for it are released, each with the mask of its
    /// rows of that file, and the file joins the matched files.
    #[verifier::loop_isolation(false)]
    pub fn on_batch(
        &mut self,
        source_exists: &Vec<Option<bool>>,
        data_file_path: &Vec<Option<String>>,
        manifest_file_path: &Vec<Option<String>>,
    ) -> (r: Result<BatchDecision, MergeError>)
        requires
            old(self).wf(),
            source_exists@.len() == data_file_path@.len(),
            manifest_file_path@.len() == data_file_path@.len(),
        ensures
            final(self).wf(),
            held_view(final(self).buffered_paths@) == held_view(old(self).buffered_paths@).push(paths_view(data_file_path@)),
            ({
                let b = old(self).buffered_paths@.len() as u64;
                let held = held_view(final(self).buffered_paths@);
                let paths = paths_view(data_file_path@);
                let filtered = filter_seq(paths, source_exists@);
                let all = files_and_manifests(paths, paths_view(manifest_file_path@));
                let m = unique_values_set(filtered).union(
                    key_set(old(self).matching_files@).intersect(view_keys(all)),
                );
                let res = collect_upto(
                    all,
                    m,
                    b,
                    buffer_entries(old(self).not_matched_buffer),
                    buffer_capacity(old(self).not_matched_buffer),
                    all.len() as int,
                );
                let newly = newly_matched(entries_view(old(self).not_matching_files@), m);
                let waiting = record_unmatched(map_view(old(self).not_matching_files@), all, m);
                let rel = release(res.1, newly, held);
                if res.0.len() == 0 {
                    &&& buffer_entries(final(self).not_matched_buffer) == res.1
                    &&& map_view(final(self).not_matching_files@) == waiting
                    &&& final(self).ready_batches == old(self).ready_batches
                    &&& entries_view(final(self).matching_files@) == entries_view(old(self).matching_files@)
                    &&& if filtered.len() > 0 {
                        r == Ok::<BatchDecision, MergeError>(BatchDecision::PassThrough)
                    } else {
                        r == Ok::<BatchDecision, MergeError>(BatchDecision::Skip)
                    }
                } else if rel is None {
                    r matches Err(MergeError::FilterStreamNotMatching { .. })
                } else {
                    let p = rel.unwrap();
                    &&& buffer_entries(final(self).not_matched_buffer) == p.0
                    &&& map_view(final(self).not_matching_files@) == remove_files(waiting, newly)
                    &&& ready_view(final(self).ready_batches@) == ready_view(old(self).ready_batches@) + p.1
                    &&& entries_view(final(self).matching_files@) == assoc_extend(
                        assoc_extend(entries_view(old(self).matching_files@), newly),
                        res.0,
                    )
                    &&& r matches Ok(BatchDecision::Keep(mask)) && mask@.len() == paths.len()
                        && forall|i: int|
                        0 <= i < mask@.len() ==> #[trigger] mask@[i] == row_kept(
                            paths[i],
                            source_exists@[i],
                            m,
                        )
                }
            }),
    {
        let batch_id: u64 = self.buffered_paths.len() as u64;
        let ghost hp0 = self.buffered_paths@;
        self.buffered_paths.push(copy_paths(data_file_path));
        assert(held_view(self.buffered_paths@) =~= held_view(hp0).push(paths_view(data_file_path@)));
        proof {
            let e = buffer_entries(self.not_matched_buffer);
            assert forall|i: int, j: int| 0 <= i < e.len() && 0 <= j < e[i].1.len() implies #[trigger] e[i].1[j]
                < self.buffered_paths@.len() by {
                assert(e[i].1[j] < hp0.len());
            }
        }
        let ghost pre = *self;
        let ghost held = held_view(self.buffered_paths@);
        let ghost paths = paths_view(data_file_path@);
        let filtered = filter_strings(data_file_path, source_exists);
        let all = match unique_files_and_manifests(data_file_path, manifest_file_path) {
            Ok(a) => a,
            Err(e) => {
                return Err(e);
            },
        };
        let ghost av = entries_view(all@);
        proof {
            assert forall|k: Seq<char>| #[trigger] key_set(all@).contains(k) == view_keys(av).contains(k) by {
                if has_key_of(all@, k) {
                    let i = choose|i: int| 0 <= i < all@.len() && (#[trigger] all@[i]).0@ == k;
                    assert(av[i].0 == k);
                }
                if view_has_key(av, k) {
                    let i = choose|i: int| 0 <= i < av.len() && (#[trigger] av[i]).0 == k;
                    assert(all@[i].0@ == k);
                }
            }
            assert(key_set(all@) =~= view_keys(av));
        }
        let matching = match create_matching_data_files(&self.matching_files, &filtered, &all) {
            Ok(m) => m,
            Err(e) => {
                return Err(e);
            },
        };
        let ghost mset = set_view(matching@);
        // The waiting files that match now.
        let ghost nmv = entries_view(self.not_matching_files@);
        let mut newly: Vec<(String, String)> = Vec::new();
        let mut i: usize = 0;
        while i < self.not_matching_files.len()
            invariant
                i <= self.not_matching_files@.len(),
                nmv == entries_view(self.not_matching_files@),
                mset == set_view(matching@),
                entries_view(newly@) == newly_matched(nmv.take(i as int), mset),
            decreases self.not_matching_files@.len() - i,
        {
            proof {
                assert(nmv.take(i + 1).drop_last() =~= nmv.take(i as int));
                assert(nmv.take(i + 1).last() == nmv[i as int]);
            }
            if contains_item(&matching, self.not_matching_files[i].0.as_str()) {
                newly.push((self.not_matching_files[i].0.clone(), self.not_matching_files[i].1.clone()));
                assert(entries_view(newly@) =~= newly_matched(nmv.take(i as int), mset).push(nmv[i as int]));
            }
            i = i + 1;
        }
        assert(nmv.take(nmv.len() as int) =~= nmv);
        // The files of this batch that do not match start (or keep) waiting.
        let ghost w0 = map_view(self.not_matching_files@);
        let mut j: usize = 0;
        while j < all.len()
            invariant
                j <= all@.len(),
                av == entries_view(all@),
                mset == set_view(matching@),
                keys_distinct(self.not_matching_files@),
                map_view(self.not_matching_files@) == record_unmatched(w0, av.take(j as int), mset),
                self.not_matched_buffer == pre.not_matched_buffer,
                self.buffered_paths == pre.buffered_paths,
                self.matching_files == pre.matching_files,
                self.ready_batches == pre.ready_batches,
            decreases all@.len() - j,
        {
            proof {
                assert(av.take(j + 1).drop_last() =~= av.take(j as int));
                assert(av.take(j + 1).last() == av[j as int]);
            }
            if !contains_item(&matching, all[j].0.as_str()) {
                insert_entry(&mut self.not_matching_files, all[j].0.clone(), all[j].1.clone());
            }
            j = j + 1;
        }
        assert(av.take(av.len() as int) =~= av);
        let n_all = all.len();
        let ghost e0 = buffer_entries(self.not_matched_buffer);
        let m = collect_matching_data_and_manifest_files(batch_id, all, &matching, &mut self.not_matched_buffer);
        proof {
            lemma_collect_ids(av, mset, batch_id, e0, BUFFER_SIZE as nat, av.len() as int, self.buffered_paths@.len());
        }
        if m.len() == 0 {
            if filtered.len() > 0 {
                return Ok(BatchDecision::PassThrough);
            }
            return Ok(BatchDecision::Skip);
        }
        // Release the batches held back for the files that match now.
        let ghost e1 = buffer_entries(self.not_matched_buffer);
        let ghost w1 = map_view(self.not_matching_files@);
        let ghost r0 = ready_view(self.ready_batches@);
        let ghost mf0 = entries_view(self.matching_files@);
        let nv = newly.len();
        let mut k: usize = 0;
        while k < nv
            invariant
                nv == newly@.len(),
                k <= nv,
                self.wf(),
                held == held_view(self.buffered_paths@),
                release(e1, entries_view(newly@).take(k as int), held) matches Some(p) && buffer_entries(
                    self.not_matched_buffer,
                ) == p.0 && ready_view(self.ready_batches@) == r0 + p.1,
                map_view(self.not_matching_files@) == remove_files(w1, entries_view(newly@).take(k as int)),
                entries_view(self.matching_files@) == assoc_extend(mf0, entries_view(newly@).take(k as int)),
            decreases nv - k,
        {
            let ghost nvw = entries_view(newly@);
            proof {
                assert(nvw.take(k + 1).drop_last() =~= nvw.take(k as int));
                assert(nvw.take(k + 1).last() == nvw[k as int]);
            }
            let file = &newly[k].0;
            let manifest = &newly[k].1;
            let _ = remove_entry(&mut self.not_matching_files, file.as_str());
            let ghost eb = buffer_entries(self.not_matched_buffer);
            let ghost rb = ready_view(self.ready_batches@);
            let batches = match lru_pop(&mut self.not_matched_buffer, file) {
                Some(b) => b,
                None => {
                    proof {
                        assert(release(e1, nvw.take(k + 1), held) is None);
                        assert(release(e1, nvw, held) is None) by {
                            lemma_release_none_extends(e1, nvw, held, k + 1);
                        }
                    }
                    return Err(MergeError::FilterStreamNotMatching { file: file.clone() });
                },
            };
            proof {
                lemma_remove_ids(eb, lru_pos(eb, file@), self.buffered_paths@.len());
            }
            let ghost ids = eb[lru_pos(eb, file@)].1;
            let ghost sk = *self;
            let mut bi: usize = 0;
            while bi < batches.len()
                invariant
                    bi <= batches@.len(),
                    batches@ == ids,
                    held == held_view(self.buffered_paths@),
                    self.matching_files == sk.matching_files,
                    self.not_matching_files == sk.not_matching_files,
                    self.not_matched_buffer == sk.not_matched_buffer,
                    self.buffered_paths == sk.buffered_paths,
                    forall|q: int| 0 <= q < ids.len() ==> #[trigger] ids[q] < self.buffered_paths@.len(),
                    ready_view(self.ready_batches@) == rb + ids.take(bi as int).map_values(
                        |id: u64| (id, file_mask(held[id as int], file@)),
                    ),
                decreases batches@.len() - bi,
            {
                let id = batches[bi];
                assert(ids[bi as int] == id);
                let mask = eq_mask(&self.buffered_paths[id as usize], file.as_str());
                proof {
                    assert(held[id as int] == paths_view(self.buffered_paths@[id as int]@));
                    assert(mask@ =~= file_mask(held[id as int], file@));
                }
                let ghost before = self.ready_batches@;
                self.ready_batches.push((id, mask));
                proof {
                    assert(ids.take(bi + 1) =~= ids.take(bi as int).push(id));
                    assert(ready_view(self.ready_batches@) =~= ready_view(before).push((id, mask@)));
                    assert(ids.take(bi + 1).map_values(|id: u64| (id, file_mask(held[id as int], file@)))
                        =~= ids.take(bi as int).map_values(|id: u64| (id, file_mask(held[id as int], file@))).push(
                        (id, file_mask(held[id as int], file@)),
                    ));
                }
                bi = bi + 1;
            }
            proof {
                assert(ids.take(ids.len() as int) =~= ids);
            }
            insert_entry(&mut self.matching_files, file.clone(), manifest.clone());
            k = k + 1;
        }
        proof {
            assert(entries_view(newly@).take(nv as int) =~= entries_view(newly@));
            lemma_collect_keys_matching(av, mset, batch_id, e0, BUFFER_SIZE as nat, av.len() as int);
            let k0 = entries_view(m@)[0].0;
            assert(mset.contains(k0));
            if matching@.len() == 0 {
                assert(!set_view(matching@).contains(k0));
            }
        }
        if matching.len() == 0 {
            return Err(MergeError::MissingFilterPredicates);
        }
        let ghost snapshot = *self;
        let mut mask: Vec<bool> = Vec::new();
        let mut j: usize = 0;
        while j < data_file_path.len()
            invariant
                paths == paths_view(data_file_path@),
                mset == set_view(matching@),
                source_exists@.len() == data_file_path@.len(),
                j <= data_file_path@.len(),
                mask@.len() == j,
                forall|q: int| 0 <= q < j ==> #[trigger] mask@[q] == row_kept(paths[q], source_exists@[q], mset),
                *self == snapshot,
            decreases data_file_path@.len() - j,
        {
            let in_file = match &data_file_path[j] {
                Some(p) => contains_item(&matching, p.as_str()),
                None => false,
            };
            let se = source_exists[j] == Some(true);
            mask.push(in_file || se);
            j = j + 1;
        }
        let ghost before = entries_view(self.matching_files@);
        let mut q: usize = 0;
        while q < m.len()
            invariant
                q <= m@.len(),
                keys_distinct(self.matching_files@),
                entries_view(self.matching_files@) == assoc_extend(before, entries_view(m@).take(q as int)),
                self.not_matched_buffer == snapshot.not_matched_buffer,
                self.not_matching_files == snapshot.not_matching_files,
                self.ready_batches == snapshot.ready_batches,
                self.buffered_paths == snapshot.buffered_paths,
            decreases m@.len() - q,
        {
            insert_entry(&mut self.matching_files, m[q].0.clone(), m[q].1.clone());
            proof {
                let t = entries_view(m@).take(q as int + 1);
                assert(t.drop_last() =~= entries_view(m@).take(q as int));
            }
            q = q + 1;
        }
        assert(entries_view(m@).take(m@.len() as int) =~= entries_view(m@));
        Ok(BatchDecision::Keep(mask))
    }

    /// The end of the scan: the matched data files grouped by their manifest, in the order
    /// the files were matched.
    pub fn finish(&mut self) -> (r: Vec<(String, Vec<String>)>)
        requires
            old(self).wf(),
        ensures
            final(self).wf(),
            final(self).matching_files@.len() == 0,
            groups_match(r@, entries_view(old(self).matching_files@)),
    {
        let mut matching: Vec<(String, String)> = Vec::new();
        std::mem::swap(&mut matching, &mut self.matching_files);
        group_by_manifest(&matching)
    }
}

/// How the written files of a merge are committed to the target table.
#[derive(Debug)]
pub enum MergeCommit {
    /// Nothing was written: nothing is committed.
    Nothing,
    /// No existing file was rewritten: the written files are appended.
    Append,
    /// The written files replace the matched data files, grouped by manifest.
    Overwrite(Vec<(String, Vec<String>)>),
}

/// The commit of a merge, given whether it wrote any data file and the matched files the
/// filter left, which a commit takes once.
pub fn merge_commit(wrote_files: bool, matching: Option<Vec<(String, Vec<String>)>>) -> (r: Result<MergeCommit, MergeError>)
    ensures
        match matching {
            None => r == Err::<MergeCommit, MergeError>(MergeError::MatchingFilesAlreadyConsumed),
            Some(m) => if !wrote_files {
                r matches Ok(MergeCommit::Nothing)
            } else if m@.len() == 0 {
                r matches Ok(MergeCommit::Append)
            } else {
                r matches Ok(MergeCommit::Overwrite(g)) && g == m
            },
        },
{
    match matching {
        None => Err(MergeError::MatchingFilesAlreadyConsumed),
        Some(m) => {
            if !wrote_files {
                Ok(MergeCommit::Nothing)
            } else if m.len() == 0 {
                Ok(MergeCommit::Append)
            } else {
                Ok(MergeCommit::Overwrite(m))
            }
        },
    }
}

/// Once releasing a prefix of the files fails, releasing all of them fails.
proof fn lemma_release_none_extends(
    e: Seq<(Seq<char>, Seq<u64>)>,
    files: Seq<(Seq<char>, Seq<char>)>,
    held: Seq<Seq<Option<Seq<char>>>>,
    k: int,
)
    requires
        0 <= k <= files.len(),
        release(e, files.take(k), held) is None,
    ensures
        release(e, files, held) is None,
    decreases files.len() - k,
{
    if k < files.len() {
        assert(files.take(k + 1).drop_last() =~= files.take(k));
        lemma_release_none_extends(e, files, held, k + 1);
    } else {
        assert(files.take(k) =~= files);
    }
}

/// Every file a batch keeps as matching is in the matching set.
proof fn lemma_collect_keys_matching(
    all: Seq<(Seq<char>, Seq<char>)>,
    m: Set<Seq<char>>,
    b: u64,
    e0: Seq<(Seq<char>, Seq<u64>)>,
    cap: nat,
    k: int,
)
    ensures
        forall|i: int|
            0 <= i < collect_upto(all, m, b, e0, cap, k).0.len() ==> m.contains(
                (#[trigger] collect_upto(all, m, b, e0, cap, k).0[i]).0,
            ),
    decreases k,
{
    if k > 0 {
        lemma_collect_keys_matching(all, m, b, e0, cap, k - 1);
        let prev = collect_upto(all, m, b, e0, cap, k - 1);
        let f = all[k - 1].0;
        if m.contains(f) {
            let r = assoc_insert_view(prev.0, f, all[k - 1].1);
            assert forall|i: int| 0 <= i < r.len() implies m.contains((#[trigger] r[i]).0) by {
                if view_has_key(prev.0, f) {
                    if i != key_pos(prev.0, f) {
                        assert(r[i] == prev.0[i]);
                    }
                } else {
                    if i < prev.0.len() {
                        assert(r[i] == prev.0[i]);
                    }
                }
            }
        }
    }
}

/// Whether the entry list has an entry with the given key (same as `has_key`).
pub open spec fn has_key_of(v: Seq<(String, String)>, k: Seq<char>) -> bool {
    crate::assoc::has_key(v, k)
}

/// Row mask of a string column equal to the given text (null rows are not kept).
fn eq_mask(values: &Vec<Option<String>>, s: &str) -> (r: Vec<bool>)
    ensures
        r@.len() == values@.len(),
        forall|i: int| 0 <= i < r@.len() ==> #[trigger] r@[i] == (opt_view(values@[i]) == Some(s@)),
{
    let mut r: Vec<bool> = Vec::new();
    let mut i: usize = 0;
    while i < values.len()
        invariant
            i <= values@.len(),
            r@.len() == i,
            forall|q: int| 0 <= q < i ==> #[trigger] r@[q] == (opt_view(values@[q]) == Some(s@)),
        decreases values@.len() - i,
    {
        let b = match &values[i] {
            Some(v) => str_eq(v.as_str(), s),
            None => false,
        };
        r.push(b);
        i = i + 1;
    }
    r
}

/// The files of the entries whose manifest is `m`, in order.
pub open spec fn files_of(entries: Seq<(Seq<char>, Seq<char>)>, m: Seq<char>) -> Seq<Seq<char>>
    decreases entries.len(),
{
    if entries.len() == 0 {
        Seq::empty()
    } else {
        let prev = files_of(entries.drop_last(), m);
        if entries.last().1 == m {
            prev.push(entries.last().0)
        } else {
            prev
        }
    }
}

/// The texts of a list of strings.
pub open spec fn strings_view(v: Seq<String>) -> Seq<Seq<char>> {
    v.map_values(|s: String| s@)
}

/// `groups` has one group per manifest of `entries` (no other, none twice), each listing
/// the files of that manifest in order.
pub open spec fn groups_match(groups: Seq<(String, Vec<String>)>, entries: Seq<(Seq<char>, Seq<char>)>) -> bool {
    &&& forall|a: int, b: int| 0 <= a < b < groups.len() ==> (#[trigger] groups[a]).0@ != (#[trigger] groups[b]).0@
    &&& forall|a: int| 0 <= a < groups.len() ==> strings_view((#[trigger] groups[a]).1@) == files_of(entries, groups[a].0@)
    &&& forall|a: int| 0 <= a < groups.len() ==> files_of(entries, (#[trigger] groups[a]).0@).len() > 0
    &&& forall|m: Seq<char>| files_of(entries, m).len() > 0 ==> exists|a: int| 0 <= a < groups.len() && (#[trigger] groups[a]).0@ == m
}

fn find_group(groups: &Vec<(String, Vec<String>)>, m: &String) -> (r: Option<usize>)
    ensures
        match r {
            Some(p) => p < groups@.len() && groups@[p as int].0@ == m@,
            None => forall|a: int| 0 <= a < groups@.len() ==> (#[trigger] groups@[a]).0@ != m@,
        },
{
    let mut p: usize = 0;
    while p < groups.len()
        invariant
            p <= groups@.len(),
            forall|a: int| 0 <= a < p ==> (#[trigger] groups@[a]).0@ != m@,
        decreases groups@.len() - p,
    {
        if str_eq(groups[p].0.as_str(), m.as_str()) {
            return Some(p);
        }
        p = p + 1;
    }
    None
}

/// Groups data files by manifest.
pub fn group_by_manifest(entries: &Vec<(String, String)>) -> (r: Vec<(String, Vec<String>)>)
    ensures
        groups_match(r@, entries_view(entries@)),
{
    let ghost ev = entries_view(entries@);
    let mut groups: Vec<(String, Vec<String>)> = Vec::new();
    let mut i: usize = 0;
    while i < entries.len()
        invariant
            ev == entries_view(entries@),
            i <= entries@.len(),
            groups_match(groups@, ev.take(i as int)),
        decreases entries@.len() - i,
    {
        let file = &entries[i].0;
        let manifest = &entries[i].1;
        let ghost pre = ev.take(i as int);
        let ghost post = ev.take(i as int + 1);
        assert(post.drop_last() =~= pre);
        assert(post.last() == (file@, manifest@));
        assert forall|x: Seq<char>| #[trigger] files_of(post, x) == if x == manifest@ {
            files_of(pre, x).push(file@)
        } else {
            files_of(pre, x)
        } by {}
        let ghost old_groups = groups@;
        match find_group(&groups, manifest) {
            Some(p) => {
                let (g, mut files) = groups.remove(p);
                files.push(file.clone());
                groups.insert(p, (g, files));
                proof {
                    assert(groups@ =~= old_groups.update(p as int, groups@[p as int]));
                    assert(strings_view(groups@[p as int].1@) =~= strings_view(old_groups[p as int].1@).push(file@));
                    assert forall|a: int, b: int| 0 <= a < b < groups@.len() implies (#[trigger] groups@[a]).0@ != (#[trigger] groups@[b]).0@ by {
                        assert(groups@[a].0@ == old_groups[a].0@ && groups@[b].0@ == old_groups[b].0@);
                    }
                    assert forall|a: int| 0 <= a < groups@.len() implies strings_view((#[trigger] groups@[a]).1@) == files_of(post, groups@[a].0@) by {
                        if a != p as int {
                            assert(groups@[a] == old_groups[a]);
                        }
                    }
                    assert forall|m: Seq<char>| files_of(post, m).len() > 0 implies exists|a: int| 0 <= a < groups@.len() && (#[trigger] groups@[a]).0@ == m by {
                        if m == manifest@ {
                            assert(groups@[p as int].0@ == m);
                        } else {
                            let a = choose|a: int| 0 <= a < old_groups.len() && (#[trigger] old_groups[a]).0@ == m;
                            assert(groups@[a].0@ == old_groups[a].0@);
                        }
                    }
                }
            },
            None => {
                let mut files: Vec<String> = Vec::new();
                files.push(file.clone());
                groups.push((manifest.clone(), files));
                proof {
                    assert(files_of(pre, manifest@).len() == 0) by {
                        if files_of(pre, manifest@).len() > 0 {
                            let a = choose|a: int| 0 <= a < old_groups.len() && (#[trigger] old_groups[a]).0@ == manifest@;
                            assert(old_groups[a].0@ != manifest@);
                        }
                    }
                    let last = groups@.len() - 1;
                    assert(strings_view(groups@[last].1@) =~= files_of(pre, manifest@).push(file@));
                    assert forall|a: int, b: int| 0 <= a < b < groups@.len() implies (#[trigger] groups@[a]).0@ != (#[trigger] groups@[b]).0@ by {
                        assert(groups@[a] == old_groups[a]);
                        if b < last {
                            assert(groups@[b] == old_groups[b]);
                        }
                    }
                    assert forall|a: int| 0 <= a < groups@.len() implies strings_view((#[trigger] groups@[a]).1@) == files_of(post, groups@[a].0@) by {
                        if a < last {
                            assert(groups@[a] == old_groups[a]);
                        }
                    }
                    assert forall|a: int| 0 <= a < groups@.len() implies files_of(post, (#[trigger] groups@[a]).0@).len() > 0 by {
                        if a < last {
                            assert(groups@[a] == old_groups[a]);
                        }
                    }
                    assert forall|m: Seq<char>| files_of(post, m).len() > 0 implies exists|a: int| 0 <= a < groups@.len() && (#[trigger] groups@[a]).0@ == m by {
                        if m == manifest@ {
                            assert(groups@[last].0@ == m);
                        } else {
                            let a = choose|a: int| 0 <= a < old_groups.len() && (#[trigger] old_groups[a]).0@ == m;
                            assert(groups@[a] == old_groups[a]);
                        }
                    }
                }
            },
        }
        i = i + 1;
    }
    assert(ev.take(entries@.len() as int) =~= ev);
    groups
}

/// The columns a merge writes: every column of its input but the auxiliary ones, each
/// given with its position.
pub open spec fn is_auxiliary(name: Seq<char>) -> bool {
    name == SOURCE_EXISTS_COLUMN@ || name == DATA_FILE_PATH_COLUMN@ || name == MANIFEST_FILE_PATH_COLUMN@
}

/// Positions and names of the fields among the first `k` that are not auxiliary.
pub open spec fn projection_upto(schema: Seq<Field>, k: int) -> Seq<(int, Seq<char>)>
    decreases k,
{
    if k <= 0 {
        Seq::empty()
    } else {
        let prev = projection_upto(schema, k - 1);
        if is_auxiliary(schema[k - 1].name@) {
            prev
        } else {
            prev.push((k - 1, schema[k - 1].name@))
        }
    }
}

/// The projection that removes the merge's auxiliary columns: position and name of every
/// other field, in order.
pub fn schema_projection(schema: &Vec<Field>) -> (r: Vec<(usize, String)>)
    ensures
        r@.map_values(|p: (usize, String)| (p.0 as int, p.1@)) == projection_upto(schema@, schema@.len() as int),
{
    let mut r: Vec<(usize, String)> = Vec::new();
    let mut i: usize = 0;
    while i < schema.len()
        invariant
            i <= schema@.len(),
            r@.map_values(|p: (usize, String)| (p.0 as int, p.1@)) == projection_upto(schema@, i as int),
        decreases schema@.len() - i,
    {
        let name = &schema[i].name;
        let aux = str_eq(name.as_str(), SOURCE_EXISTS_COLUMN) || str_eq(name.as_str(), DATA_FILE_PATH_COLUMN)
            || str_eq(name.as_str(), MANIFEST_FILE_PATH_COLUMN);
        if !aux {
            r.push((i, name.clone()));
        }
        proof {
            let v = r@.map_values(|p: (usize, String)| (p.0 as int, p.1@));
            assert(v =~= projection_upto(schema@, i as int + 1));
        }
        i = i + 1;
    }
    r
}

/// A data file already known to have a matching row stays known: setting further files
/// into the matched files keeps every file that was there.
pub proof fn law_matched_files_persist(
    matched: Seq<(Seq<char>, Seq<char>)>,
    added: Seq<(Seq<char>, Seq<char>)>,
    file: Seq<char>,
)
    requires
        view_has_key(matched, file),
    ensures
        view_has_key(assoc_extend(matched, added), file),
    decreases added.len(),
{
    if added.len() > 0 {
        law_matched_files_persist(matched, added.drop_last(), file);
        let vs = assoc_extend(matched, added.drop_last());
        let k2 = added.last().0;
        let j = choose|j: int| 0 <= j < vs.len() && (#[trigger] vs[j]).0 == file;
        let r = assoc_insert_view(vs, k2, added.last().1);
        if view_has_key(vs, k2) {
            let p = key_pos(vs, k2);
            assert(r[j].0 == file);
        } else {
            assert(r[j] == vs[j]);
        }
    }
}

proof fn lemma_filter_nonempty<T>(vals: Seq<T>, mask: Seq<Option<bool>>, i: int)
    requires
        0 <= i < vals.len(),
        mask[i] == Some(true),
    ensures
        filter_seq(vals, mask).len() > 0,
    decreases vals.len(),
{
    let n = vals.len() - 1;
    if i < n {
        lemma_filter_nonempty(vals.take(n), mask, i);
    }
}

/// No row whose `__source_exists` is true is dropped: such a row makes the batch's
/// filtered paths non-empty, so the batch is never skipped, and the row is kept by every
/// mask.
pub proof fn law_source_rows_kept(
    paths: Seq<Option<Seq<char>>>,
    source_exists: Seq<Option<bool>>,
    matched: Set<Seq<char>>,
    i: int,
)
    requires
        paths.len() == source_exists.len(),
        0 <= i < source_exists.len(),
        source_exists[i] == Some(true),
    ensures
        filter_seq(paths, source_exists).len() > 0,
        row_kept(paths[i], source_exists[i], matched),
{
    lemma_filter_nonempty(paths, source_exists, i);
}

proof fn lemma_present_value_collected(a: Seq<Option<Seq<char>>>, s: Seq<char>, j: int)
    requires
        a.len() >= 2,
        0 <= j < a.len(),
        a[j] == Some(s),
        s.len() > 0,
    ensures
        unique_values_set(a).contains(s),
    decreases j,
{
    if j == 0 {
        assert(value_text(a[0]) == s);
    } else if a[j] != a[j - 1] {
        assert(1 <= j < a.len() && a[j] != a[j - 1] && a[j] == Some(s));
    } else {
        lemma_present_value_collected(a, s, j - 1);
    }
}

/// The values `unique_values` collects are exactly the non-empty values of the array,
/// whether or not the array is sorted (except for an array of one null or empty slot,
/// whose empty text is collected as it is).
pub proof fn law_unique_values_are_present_values(a: Seq<Option<Seq<char>>>, s: Seq<char>)
    requires
        a.len() == 1 ==> (a[0] matches Some(t) && t.len() > 0),
    ensures
        unique_values_set(a).contains(s) <==> (s.len() > 0 && exists|j: int| 0 <= j < a.len() && a[j] == Some(s)),
{
    if a.len() == 1 {
        if exists|j: int| 0 <= j < a.len() && a[j] == Some(s) {
            assert(a[0] == Some(s));
        }
        if unique_values_set(a).contains(s) {
            assert(a[0] == Some(s));
        }
    }
    if a.len() >= 2 {
        if s.len() > 0 && exists|j: int| 0 <= j < a.len() && a[j] == Some(s) {
            let j = choose|j: int| 0 <= j < a.len() && a[j] == Some(s);
            lemma_present_value_collected(a, s, j);
        }
        if unique_values_set(a).contains(s) {
            if s == value_text(a[0]) && s.len() > 0 {
                assert(a[0] == Some(s));
            }
        }
    }
}


/// No two pairs of a list have the same key.
pub open spec fn view_keys_distinct(vs: Seq<(Seq<char>, Seq<char>)>) -> bool {
    forall|i: int, j: int| 0 <= i < j < vs.len() ==> (#[trigger] vs[i]).0 != (#[trigger] vs[j]).0
}

/// In a list without repeated keys, a key's position is the pair that has it.
proof fn lemma_key_pos_unique(vs: Seq<(Seq<char>, Seq<char>)>, i: int)
    requires
        view_keys_distinct(vs),
        0 <= i < vs.len(),
    ensures
        view_has_key(vs, vs[i].0),
        key_pos(vs, vs[i].0) == i,
{
    assert(view_has_key(vs, vs[i].0));
    let p = key_pos(vs, vs[i].0);
    if p != i {
        if p < i {
            assert(vs[p].0 != vs[i].0);
        } else {
            assert(vs[i].0 != vs[p].0);
        }
    }
}

/// Setting a key in a list without repeated keys: the key is there with its new value, and
/// every other key keeps its value.
proof fn lemma_assoc_insert(vs: Seq<(Seq<char>, Seq<char>)>, k: Seq<char>, v: Seq<char>)
    requires
        view_keys_distinct(vs),
    ensures
        view_keys_distinct(assoc_insert_view(vs, k, v)),
        forall|x: Seq<char>| #[trigger] view_has_key(assoc_insert_view(vs, k, v), x) <==> (view_has_key(vs, x) || x == k),
        view_has_key(assoc_insert_view(vs, k, v), k),
        assoc_insert_view(vs, k, v)[key_pos(assoc_insert_view(vs, k, v), k)].1 == v,
        forall|x: Seq<char>|
            x != k && view_has_key(vs, x) ==> assoc_insert_view(vs, k, v)[key_pos(assoc_insert_view(vs, k, v), x)].1
                == #[trigger] vs[key_pos(vs, x)].1,
{
    let r = assoc_insert_view(vs, k, v);
    if view_has_key(vs, k) {
        let p = key_pos(vs, k);
        assert(r == vs.update(p, (k, v)));
        assert forall|i: int, j: int| 0 <= i < j < r.len() implies (#[trigger] r[i]).0 != (#[trigger] r[j]).0 by {
            assert(r[i].0 == vs[i].0 && r[j].0 == vs[j].0);
        }
        assert forall|x: Seq<char>| #[trigger] view_has_key(r, x) <==> (view_has_key(vs, x) || x == k) by {
            if view_has_key(vs, x) {
                let q = key_pos(vs, x);
                assert(r[q].0 == x);
            }
            if view_has_key(r, x) {
                let q = choose|q: int| 0 <= q < r.len() && (#[trigger] r[q]).0 == x;
                assert(vs[q].0 == x);
            }
            if x == k {
                assert(r[p].0 == k);
            }
        }
        lemma_key_pos_unique(r, p);
        assert forall|x: Seq<char>| x != k && view_has_key(vs, x) implies r[key_pos(r, x)].1 == #[trigger] vs[key_pos(
            vs,
            x,
        )].1 by {
            let q = key_pos(vs, x);
            lemma_key_pos_unique(vs, q);
            assert(q != p);
            assert(r[q] == vs[q]);
            lemma_key_pos_unique(r, q);
        }
    } else {
        assert(r == vs.push((k, v)));
        assert forall|i: int, j: int| 0 <= i < j < r.len() implies (#[trigger] r[i]).0 != (#[trigger] r[j]).0 by {
            if j == vs.len() {
                assert(r[i] == vs[i]);
                assert(!view_has_key(vs, k));
                if vs[i].0 == k {
                    assert(view_has_key(vs, k));
                }
            } else {
                assert(r[i] == vs[i] && r[j] == vs[j]);
            }
        }
        assert forall|x: Seq<char>| #[trigger] view_has_key(r, x) <==> (view_has_key(vs, x) || x == k) by {
            if view_has_key(vs, x) {
                let q = key_pos(vs, x);
                assert(r[q] == vs[q]);
            }
            if view_has_key(r, x) {
                let q = choose|q: int| 0 <= q < r.len() && (#[trigger] r[q]).0 == x;
                if q < vs.len() {
                    assert(vs[q] == r[q]);
                }
            }
            if x == k {
                assert(r[vs.len() as int].0 == k);
            }
        }
        lemma_key_pos_unique(r, vs.len() as int);
        assert forall|x: Seq<char>| x != k && view_has_key(vs, x) implies r[key_pos(r, x)].1 == #[trigger] vs[key_pos(
            vs,
            x,
        )].1 by {
            let q = key_pos(vs, x);
            lemma_key_pos_unique(vs, q);
            assert(r[q] == vs[q]);
            lemma_key_pos_unique(r, q);
        }
    }
}

/// What the pairs collected from the first `k` slots hold, for columns where each file has
/// a single manifest and no manifest is null.
proof fn lemma_files_and_manifests_upto(files: Seq<Option<Seq<char>>>, manifests: Seq<Option<Seq<char>>>, k: int)
    requires
        1 <= k <= files.len(),
        files.len() == manifests.len(),
        forall|i: int| 0 <= i < manifests.len() ==> (#[trigger] manifests[i]) is Some,
        forall|i: int, j: int|
            0 <= i < files.len() && 0 <= j < files.len() && files[i] is Some && #[trigger] files[i] == #[trigger] files[j]
                ==> manifests[i] == manifests[j],
    ensures
        view_keys_distinct(files_and_manifests_upto(files, manifests, k)),
        forall|x: Seq<char>| #[trigger] view_has_key(files_and_manifests_upto(files, manifests, k), x) <==> (x.len() > 0
            && exists|j: int| 0 <= j < k && files[j] == Some(x)),
        forall|j: int|
            0 <= j < k && (#[trigger] files[j] matches Some(x) && x.len() > 0) ==> files_and_manifests_upto(
                files,
                manifests,
                k,
            )[key_pos(files_and_manifests_upto(files, manifests, k), files[j]->0)].1 == manifests[j]->0,
    decreases k,
{
    let r = files_and_manifests_upto(files, manifests, k);
    if k <= 1 {
        let first = value_text(files[0]);
        if first.len() > 0 {
            assert(files[0] == Some(first));
            assert(r == seq![(first, value_text(manifests[0]))]);
            lemma_key_pos_unique(r, 0);
            assert forall|x: Seq<char>| #[trigger] view_has_key(r, x) <==> (x.len() > 0 && exists|j: int|
                0 <= j < k && files[j] == Some(x)) by {
                if view_has_key(r, x) {
                    let q = choose|q: int| 0 <= q < r.len() && (#[trigger] r[q]).0 == x;
                    assert(q == 0);
                }
            }
        } else {
            assert forall|x: Seq<char>| #[trigger] view_has_key(r, x) <==> (x.len() > 0 && exists|j: int|
                0 <= j < k && files[j] == Some(x)) by {
                if exists|j: int| 0 <= j < k && files[j] == Some(x) {
                    let j = choose|j: int| 0 <= j < k && files[j] == Some(x);
                    assert(j == 0);
                }
            }
        }
    } else {
        lemma_files_and_manifests_upto(files, manifests, k - 1);
        let prev = files_and_manifests_upto(files, manifests, k - 1);
        let j = k - 1;
        if files[j] != files[j - 1] && files[j] is Some && manifests[j] is Some && files[j]->0.len() > 0 {
            lemma_assoc_insert(prev, files[j]->0, manifests[j]->0);
            assert forall|x: Seq<char>| #[trigger] view_has_key(r, x) <==> (x.len() > 0 && exists|q: int|
                0 <= q < k && files[q] == Some(x)) by {
                if exists|q: int| 0 <= q < k && files[q] == Some(x) {
                    let q = choose|q: int| 0 <= q < k && files[q] == Some(x);
                    if q < k - 1 && x.len() > 0 {
                        assert(view_has_key(prev, x));
                    }
                }
                if view_has_key(prev, x) {
                    let q = choose|q: int| 0 <= q < k - 1 && files[q] == Some(x);
                }
            }
            assert forall|q: int|
                0 <= q < k && (#[trigger] files[q] matches Some(x) && x.len() > 0) implies r[key_pos(r, files[q]->0)].1
                == manifests[q]->0 by {
                let x = files[q]->0;
                if x == files[j]->0 {
                    assert(files[q] == files[j]);
                    assert(manifests[q] == manifests[j]);
                } else {
                    assert(q < k - 1);
                    assert(view_has_key(prev, x));
                    assert(prev[key_pos(prev, x)].1 == manifests[q]->0);
                }
            }
        } else {
            assert forall|x: Seq<char>| #[trigger] view_has_key(r, x) <==> (x.len() > 0 && exists|q: int|
                0 <= q < k && files[q] == Some(x)) by {
                if x.len() > 0 && exists|q: int| 0 <= q < k && files[q] == Some(x) {
                    let q = choose|q: int| 0 <= q < k && files[q] == Some(x);
                    if q == j {
                        assert(files[j] == files[j - 1]);
                        assert(files[j - 1] == Some(x));
                    }
                    assert(view_has_key(prev, x));
                }
            }
            assert forall|q: int|
                0 <= q < k && (#[trigger] files[q] matches Some(x) && x.len() > 0) implies r[key_pos(r, files[q]->0)].1
                == manifests[q]->0 by {
                if q == j {
                    assert(files[j] == files[j - 1]);
                    assert(manifests[j] == manifests[j - 1]);
                    assert(files[j - 1] matches Some(x) && x.len() > 0);
                }
            }
        }
    }
}

/// The pairs collected from a file and a manifest column hold exactly the files of the
/// non-empty slots, each with its manifest, when each file has a single manifest and no
/// manifest is null (except for a column of one null or empty slot, whose empty text is
/// collected as it is).
pub proof fn law_files_and_manifests_are_present_pairs(files: Seq<Option<Seq<char>>>, manifests: Seq<Option<Seq<char>>>)
    requires
        files.len() == manifests.len(),
        forall|i: int| 0 <= i < manifests.len() ==> (#[trigger] manifests[i]) is Some,
        forall|i: int, j: int|
            0 <= i < files.len() && 0 <= j < files.len() && files[i] is Some && #[trigger] files[i] == #[trigger] files[j]
                ==> manifests[i] == manifests[j],
        files.len() == 1 ==> (files[0] matches Some(t) && t.len() > 0),
    ensures
        forall|x: Seq<char>| #[trigger] view_has_key(files_and_manifests(files, manifests), x) <==> (x.len() > 0
            && exists|j: int| 0 <= j < files.len() && files[j] == Some(x)),
        forall|j: int|
            0 <= j < files.len() && (#[trigger] files[j] matches Some(x) && x.len() > 0) ==> files_and_manifests(
                files,
                manifests,
            )[key_pos(files_and_manifests(files, manifests), files[j]->0)].1 == manifests[j]->0,
{
    let r = files_and_manifests(files, manifests);
    if files.len() == 1 {
        let f = files[0]->0;
        assert(r == seq![(f, manifests[0]->0)]);
        lemma_key_pos_unique(r, 0);
        assert forall|x: Seq<char>| #[trigger] view_has_key(r, x) <==> (x.len() > 0 && exists|j: int|
            0 <= j < files.len() && files[j] == Some(x)) by {
            if view_has_key(r, x) {
                let q = choose|q: int| 0 <= q < r.len() && (#[trigger] r[q]).0 == x;
                assert(q == 0);
                assert(files[0] == Some(x));
            }
        }
    } else if files.len() >= 2 {
        lemma_files_and_manifests_upto(files, manifests, files.len() as int);
    }
}


/// In a buffer without repeated keys, a key's position is the entry that has it.
proof fn lemma_lru_pos_unique(e: Seq<(Seq<char>, Seq<u64>)>, i: int)
    requires
        lru_keys_distinct(e),
        0 <= i < e.len(),
    ensures
        lru_has(e, e[i].0),
        lru_pos(e, e[i].0) == i,
{
    assert(lru_has(e, e[i].0));
    let p = lru_pos(e, e[i].0);
    if p != i {
        if p < i {
            assert(e[p].0 != e[i].0);
        } else {
            assert(e[i].0 != e[p].0);
        }
    }
}

/// Removing the entry of one key from a buffer without repeated keys keeps every other
/// key's entry as it was.
proof fn lemma_lru_remove_keeps(e: Seq<(Seq<char>, Seq<u64>)>, p: int, f: Seq<char>)
    requires
        lru_keys_distinct(e),
        0 <= p < e.len(),
        f != e[p].0,
    ensures
        lru_keys_distinct(e.remove(p)),
        lru_has(e.remove(p), f) == lru_has(e, f),
        lru_has(e, f) ==> e.remove(p)[lru_pos(e.remove(p), f)] == e[lru_pos(e, f)],
{
    let r = e.remove(p);
    assert forall|a: int, b: int| 0 <= a < b < r.len() implies (#[trigger] r[a]).0 != (#[trigger] r[b]).0 by {
        let a2 = if a < p { a } else { a + 1 };
        let b2 = if b < p { b } else { b + 1 };
        assert(r[a] == e[a2] && r[b] == e[b2]);
    }
    if lru_has(e, f) {
        let q = lru_pos(e, f);
        assert(q != p);
        let q2 = if q < p { q } else { q - 1 };
        assert(r[q2] == e[q]);
        lemma_lru_pos_unique(r, q2);
    }
    if lru_has(r, f) {
        let q = choose|q: int| 0 <= q < r.len() && (#[trigger] r[q]).0 == f;
        let q2 = if q < p { q } else { q + 1 };
        assert(r[q] == e[q2]);
    }
}

/// Releasing files keeps the buffer entries of the other keys as they were.
proof fn lemma_release_keeps(
    e: Seq<(Seq<char>, Seq<u64>)>,
    files: Seq<(Seq<char>, Seq<char>)>,
    held: Seq<Seq<Option<Seq<char>>>>,
    f: Seq<char>,
)
    requires
        lru_keys_distinct(e),
        release(e, files, held) is Some,
        forall|j: int| 0 <= j < files.len() ==> (#[trigger] files[j]).0 != f,
    ensures
        lru_keys_distinct(release(e, files, held).unwrap().0),
        lru_has(release(e, files, held).unwrap().0, f) == lru_has(e, f),
        lru_has(e, f) ==> release(e, files, held).unwrap().0[lru_pos(release(e, files, held).unwrap().0, f)] == e[lru_pos(e, f)],
    decreases files.len(),
{
    if files.len() > 0 {
        let init = files.drop_last();
        assert forall|j: int| 0 <= j < init.len() implies (#[trigger] init[j]).0 != f by {
            assert(init[j] == files[j]);
        }
        lemma_release_keeps(e, init, held, f);
        let prev = release(e, init, held)->0;
        let g = files.last().0;
        assert(g == files[files.len() - 1].0);
        lemma_lru_remove_keeps(prev.0, lru_pos(prev.0, g), f);
    }
}

/// When the waiting files that match are released, every batch held back for each of them
/// becomes ready, with the mask of its rows of that file: no held row of a file that
/// matches is lost.
pub proof fn law_release_covers_held_batches(
    e: Seq<(Seq<char>, Seq<u64>)>,
    files: Seq<(Seq<char>, Seq<char>)>,
    held: Seq<Seq<Option<Seq<char>>>>,
)
    requires
        lru_keys_distinct(e),
        view_keys_distinct(files),
        release(e, files, held) is Some,
    ensures
        forall|j: int|
            0 <= j < files.len() ==> lru_has(e, (#[trigger] files[j]).0) && forall|q: int|
                0 <= q < e[lru_pos(e, files[j].0)].1.len() ==> release(e, files, held).unwrap().1.contains(
                    (
                        e[lru_pos(e, files[j].0)].1[q],
                        file_mask(held[e[lru_pos(e, files[j].0)].1[q] as int], files[j].0),
                    ),
                ),
    decreases files.len(),
{
    if files.len() > 0 {
        let init = files.drop_last();
        let last = files.len() - 1;
        let f = files[last].0;
        assert(view_keys_distinct(init)) by {
            assert forall|a: int, b: int| 0 <= a < b < init.len() implies (#[trigger] init[a]).0 != (#[trigger] init[b]).0 by {
                assert(init[a] == files[a] && init[b] == files[b]);
            }
        }
        assert(release(e, init, held) is Some);
        law_release_covers_held_batches(e, init, held);
        let prev = release(e, init, held)->0;
        let p = release(e, files, held)->0;
        assert(files.last().0 == f);
        assert forall|j: int| 0 <= j < init.len() implies (#[trigger] init[j]).0 != f by {
            assert(init[j] == files[j]);
            assert(files[j].0 != files[last].0);
        }
        lemma_release_keeps(e, init, held, f);
        let ids = prev.0[lru_pos(prev.0, f)].1;
        assert(p.1 == prev.1 + ids.map_values(|id: u64| (id, file_mask(held[id as int], f))));
        assert forall|j: int|
            0 <= j < files.len() implies lru_has(e, (#[trigger] files[j]).0) && forall|q: int|
                0 <= q < e[lru_pos(e, files[j].0)].1.len() ==> p.1.contains(
                    (
                        e[lru_pos(e, files[j].0)].1[q],
                        file_mask(held[e[lru_pos(e, files[j].0)].1[q] as int], files[j].0),
                    ),
                ) by {
            if j < last {
                assert(files[j] == init[j]);
                assert forall|q: int| 0 <= q < e[lru_pos(e, files[j].0)].1.len() implies p.1.contains(
                    (
                        e[lru_pos(e, files[j].0)].1[q],
                        file_mask(held[e[lru_pos(e, files[j].0)].1[q] as int], files[j].0),
                    ),
                ) by {
                    let x = (
                        e[lru_pos(e, files[j].0)].1[q],
                        file_mask(held[e[lru_pos(e, files[j].0)].1[q] as int], files[j].0),
                    );
                    assert(prev.1.contains(x));
                    let w = choose|w: int| 0 <= w < prev.1.len() && prev.1[w] == x;
                    assert(p.1[w] == x);
                }
            } else {
                assert(ids == e[lru_pos(e, f)].1);
                assert forall|q: int| 0 <= q < ids.len() implies p.1.contains(
                    (ids[q], file_mask(held[ids[q] as int], f)),
                ) by {
                    assert(p.1[prev.1.len() + q] == (ids[q], file_mask(held[ids[q] as int], f)));
                }
            }
        }
    }
}

} // verus!
