//! Sets and maps of strings held as vectors without repeated keys.
use vstd::prelude::*;
use crate::text::str_eq;

verus! {

/// No two entries of the list have the same key text.
pub open spec fn keys_distinct(v: Seq<(String, String)>) -> bool {
    forall|i: int, j: int| 0 <= i < j < v.len() ==> (#[trigger] v[i]).0@ != (#[trigger] v[j]).0@
}

/// Whether some entry has the given key text.
pub open spec fn has_key(v: Seq<(String, String)>, k: Seq<char>) -> bool {
    exists|i: int| 0 <= i < v.len() && (#[trigger] v[i]).0@ == k
}

/// The map from key text to value text that a list of entries stands for.
pub open spec fn map_view(v: Seq<(String, String)>) -> Map<Seq<char>, Seq<char>> {
    Map::new(
        |k: Seq<char>| has_key(v, k),
        |k: Seq<char>| v[choose|i: int| 0 <= i < v.len() && (#[trigger] v[i]).0@ == k].1@,
    )
}

/// The keys of a list of entries.
pub open spec fn key_set(v: Seq<(String, String)>) -> Set<Seq<char>> {
    map_view(v).dom()
}

/// In a list without repeated keys, each entry is what the map gives for its key.
pub proof fn lemma_map_view_at(v: Seq<(String, String)>, i: int)
    requires
        keys_distinct(v),
        0 <= i < v.len(),
    ensures
        map_view(v).contains_key(v[i].0@),
        map_view(v)[v[i].0@] == v[i].1@,
{
    let k = v[i].0@;
    assert(has_key(v, k));
    let j = choose|j: int| 0 <= j < v.len() && (#[trigger] v[j]).0@ == k;
    if j != i {
        if j < i {
            assert(v[j].0@ != v[i].0@);
        } else {
            assert(v[i].0@ != v[j].0@);
        }
    }
}

/// Appending an entry with a new key adds that key to the map.
pub proof fn lemma_map_view_push(v: Seq<(String, String)>, e: (String, String))
    requires
        keys_distinct(v),
        !has_key(v, e.0@),
    ensures
        keys_distinct(v.push(e)),
        map_view(v.push(e)) == map_view(v).insert(e.0@, e.1@),
{
    let w = v.push(e);
    assert forall|i: int, j: int| 0 <= i < j < w.len() implies (#[trigger] w[i]).0@ != (#[trigger] w[j]).0@ by {
        if j == v.len() {
            assert(w[i] == v[i]);
        } else {
            assert(w[i] == v[i] && w[j] == v[j]);
        }
    }
    assert forall|k: Seq<char>| #[trigger] map_view(w).contains_key(k) == map_view(v).insert(e.0@, e.1@).contains_key(k) by {
        if has_key(v, k) {
            let i = choose|i: int| 0 <= i < v.len() && (#[trigger] v[i]).0@ == k;
            assert(w[i] == v[i]);
        }
        if k == e.0@ {
            assert(w[v.len() as int] == e);
        }
        if has_key(w, k) {
            let i = choose|i: int| 0 <= i < w.len() && (#[trigger] w[i]).0@ == k;
            if i < v.len() {
                assert(w[i] == v[i]);
            }
        }
    }
    assert forall|k: Seq<char>| #[trigger] map_view(w).contains_key(k) implies map_view(w)[k] == map_view(v).insert(e.0@, e.1@)[k] by {
        let i = choose|i: int| 0 <= i < w.len() && (#[trigger] w[i]).0@ == k;
        lemma_map_view_at(w, i);
        if i < v.len() {
            assert(w[i] == v[i]);
            lemma_map_view_at(v, i);
        }
    }
    assert(map_view(w) =~= map_view(v).insert(e.0@, e.1@));
}

/// Replacing the value of an existing entry updates that key in the map.
pub proof fn lemma_map_view_update(v: Seq<(String, String)>, i: int, e: (String, String))
    requires
        keys_distinct(v),
        0 <= i < v.len(),
        v[i].0@ == e.0@,
    ensures
        keys_distinct(v.update(i, e)),
        map_view(v.update(i, e)) == map_view(v).insert(e.0@, e.1@),
{
    let w = v.update(i, e);
    assert forall|a: int, b: int| 0 <= a < b < w.len() implies (#[trigger] w[a]).0@ != (#[trigger] w[b]).0@ by {
        assert(w[a].0@ == v[a].0@ && w[b].0@ == v[b].0@);
        assert(v[a].0@ != v[b].0@);
    }
    assert forall|k: Seq<char>| #[trigger] map_view(w).contains_key(k) == map_view(v).insert(e.0@, e.1@).contains_key(k) by {
        if has_key(v, k) {
            let j = choose|j: int| 0 <= j < v.len() && (#[trigger] v[j]).0@ == k;
            assert(w[j].0@ == v[j].0@);
        }
        if has_key(w, k) {
            let j = choose|j: int| 0 <= j < w.len() && (#[trigger] w[j]).0@ == k;
            assert(w[j].0@ == v[j].0@);
        }
    }
    assert forall|k: Seq<char>| #[trigger] map_view(w).contains_key(k) implies map_view(w)[k] == map_view(v).insert(e.0@, e.1@)[k] by {
        let j = choose|j: int| 0 <= j < w.len() && (#[trigger] w[j]).0@ == k;
        lemma_map_view_at(w, j);
        if j != i {
            assert(w[j] == v[j]);
            lemma_map_view_at(v, j);
        }
    }
    assert(map_view(w) =~= map_view(v).insert(e.0@, e.1@));
}

/// Removing an entry removes its key from the map.
pub proof fn lemma_map_view_remove(v: Seq<(String, String)>, i: int)
    requires
        keys_distinct(v),
        0 <= i < v.len(),
    ensures
        keys_distinct(v.remove(i)),
        map_view(v.remove(i)) == map_view(v).remove(v[i].0@),
{
    let w = v.remove(i);
    let k0 = v[i].0@;
    assert forall|a: int, b: int| 0 <= a < b < w.len() implies (#[trigger] w[a]).0@ != (#[trigger] w[b]).0@ by {
        let a2 = if a < i { a } else { a + 1 };
        let b2 = if b < i { b } else { b + 1 };
        assert(w[a] == v[a2] && w[b] == v[b2]);
        assert(v[a2].0@ != v[b2].0@);
    }
    assert forall|k: Seq<char>| #[trigger] map_view(w).contains_key(k) == map_view(v).remove(k0).contains_key(k) by {
        if has_key(v, k) && k != k0 {
            let j = choose|j: int| 0 <= j < v.len() && (#[trigger] v[j]).0@ == k;
            if j < i {
                assert(w[j] == v[j]);
            } else {
                assert(j != i);
                assert(w[j - 1] == v[j]);
            }
        }
        if has_key(w, k) {
            let j = choose|j: int| 0 <= j < w.len() && (#[trigger] w[j]).0@ == k;
            let j2 = if j < i { j } else { j + 1 };
            assert(w[j] == v[j2]);
            assert(v[j2].0@ != v[i].0@);
        }
    }
    assert forall|k: Seq<char>| #[trigger] map_view(w).contains_key(k) implies map_view(w)[k] == map_view(v).remove(k0)[k] by {
        let j = choose|j: int| 0 <= j < w.len() && (#[trigger] w[j]).0@ == k;
        let j2 = if j < i { j } else { j + 1 };
        assert(w[j] == v[j2]);
        lemma_map_view_at(w, j);
        lemma_map_view_at(v, j2);
    }
    assert(map_view(w) =~= map_view(v).remove(k0));
}

/// The entries of a list, as pairs of texts.
pub open spec fn entries_view(v: Seq<(String, String)>) -> Seq<(Seq<char>, Seq<char>)> {
    v.map_values(|e: (String, String)| (e.0@, e.1@))
}

/// Whether some pair has the given key.
pub open spec fn view_has_key(vs: Seq<(Seq<char>, Seq<char>)>, k: Seq<char>) -> bool {
    exists|i: int| 0 <= i < vs.len() && (#[trigger] vs[i]).0 == k
}

/// The position of the pair with the given key.
pub open spec fn key_pos(vs: Seq<(Seq<char>, Seq<char>)>, k: Seq<char>) -> int {
    choose|i: int| 0 <= i < vs.len() && (#[trigger] vs[i]).0 == k
}

/// Setting a key in a list of pairs: the pair keeps its place when the key is there, and
/// is appended otherwise.
pub open spec fn assoc_insert_view(vs: Seq<(Seq<char>, Seq<char>)>, k: Seq<char>, val: Seq<char>) -> Seq<
    (Seq<char>, Seq<char>),
> {
    if view_has_key(vs, k) {
        vs.update(key_pos(vs, k), (k, val))
    } else {
        vs.push((k, val))
    }
}

/// Position of the entry with the given key.
pub fn find_key(v: &Vec<(String, String)>, k: &str) -> (r: Option<usize>)
    ensures
        match r {
            Some(i) => i < v@.len() && v@[i as int].0@ == k@,
            None => !has_key(v@, k@),
        },
{
    let mut i: usize = 0;
    while i < v.len()
        invariant
            i <= v@.len(),
            forall|j: int| 0 <= j < i ==> (#[trigger] v@[j]).0@ != k@,
        decreases v@.len() - i,
    {
        if str_eq(v[i].0.as_str(), k) {
            return Some(i);
        }
        i = i + 1;
    }
    None
}

/// Whether the map has the key.
pub fn contains_key(v: &Vec<(String, String)>, k: &str) -> (r: bool)
    ensures
        r == map_view(v@).contains_key(k@),
{
    find_key(v, k).is_some()
}

/// The value stored under a key.
pub fn get_value<'a>(v: &'a Vec<(String, String)>, k: &str) -> (r: Option<&'a String>)
    requires
        keys_distinct(v@),
    ensures
        r is Some <==> map_view(v@).contains_key(k@),
        r matches Some(s) ==> s@ == map_view(v@)[k@],
{
    match find_key(v, k) {
        Some(i) => {
            proof {
                lemma_map_view_at(v@, i as int);
            }
            Some(&v[i].1)
        },
        None => None,
    }
}

/// Sets the value under a key: the entry keeps its place when the key is there, and is
/// appended otherwise.
pub fn insert_entry(v: &mut Vec<(String, String)>, k: String, val: String)
    requires
        keys_distinct(old(v)@),
    ensures
        keys_distinct(final(v)@),
        map_view(final(v)@) == map_view(old(v)@).insert(k@, val@),
        has_key(old(v)@, k@) ==> final(v)@.len() == old(v)@.len(),
        !has_key(old(v)@, k@) ==> final(v)@ == old(v)@.push((k, val)),
        forall|j: int| 0 <= j < old(v)@.len() && old(v)@[j].0@ != k@ ==> final(v)@[j] == old(v)@[j],
        entries_view(final(v)@) == assoc_insert_view(entries_view(old(v)@), k@, val@),
{
    let ghost ev = entries_view(v@);
    match find_key(v, k.as_str()) {
        Some(i) => {
            proof {
                lemma_map_view_update(v@, i as int, (k, val));
                assert(ev[i as int].0 == k@);
                assert(view_has_key(ev, k@));
                let j = key_pos(ev, k@);
                if j != i as int {
                    if j < i as int {
                        assert(v@[j].0@ != v@[i as int].0@);
                    } else {
                        assert(v@[i as int].0@ != v@[j].0@);
                    }
                }
            }
            v.set(i, (k, val));
            assert(entries_view(v@) =~= assoc_insert_view(ev, k@, val@));
        },
        None => {
            proof {
                lemma_map_view_push(v@, (k, val));
                if view_has_key(ev, k@) {
                    let j = choose|j: int| 0 <= j < ev.len() && (#[trigger] ev[j]).0 == k@;
                    assert(v@[j].0@ == k@);
                }
            }
            v.push((k, val));
            assert(entries_view(v@) =~= assoc_insert_view(ev, k@, val@));
        },
    }
}

/// Removes the entry with the given key and gives its value.
pub fn remove_entry(v: &mut Vec<(String, String)>, k: &str) -> (r: Option<String>)
    requires
        keys_distinct(old(v)@),
    ensures
        keys_distinct(final(v)@),
        r is Some <==> map_view(old(v)@).contains_key(k@),
        r matches Some(s) ==> s@ == map_view(old(v)@)[k@],
        map_view(final(v)@) == map_view(old(v)@).remove(k@),
{
    match find_key(v, k) {
        Some(i) => {
            proof {
                lemma_map_view_at(v@, i as int);
                lemma_map_view_remove(v@, i as int);
            }
            let (_key, val) = v.remove(i);
            Some(val)
        },
        None => {
            assert(map_view(v@) =~= map_view(v@).remove(k@));
            None
        },
    }
}

/// No two items of the list have the same text.
pub open spec fn items_distinct(v: Seq<String>) -> bool {
    forall|i: int, j: int| 0 <= i < j < v.len() ==> (#[trigger] v[i])@ != (#[trigger] v[j])@
}

/// The set of texts a list of strings holds.
pub open spec fn set_view(v: Seq<String>) -> Set<Seq<char>> {
    Set::new(|s: Seq<char>| exists|i: int| 0 <= i < v.len() && (#[trigger] v[i])@ == s)
}

/// Whether the list holds the text.
pub fn contains_item(v: &Vec<String>, s: &str) -> (r: bool)
    ensures
        r == set_view(v@).contains(s@),
{
    let mut i: usize = 0;
    while i < v.len()
        invariant
            i <= v@.len(),
            forall|j: int| 0 <= j < i ==> (#[trigger] v@[j])@ != s@,
        decreases v@.len() - i,
    {
        if str_eq(v[i].as_str(), s) {
            assert(v@[i as int]@ == s@);
            return true;
        }
        i = i + 1;
    }
    false
}

/// Adds a text to the set (appended when it is not there yet).
pub fn insert_item(v: &mut Vec<String>, s: String)
    requires
        items_distinct(old(v)@),
    ensures
        items_distinct(final(v)@),
        set_view(final(v)@) == set_view(old(v)@).insert(s@),
{
    if !contains_item(v, s.as_str()) {
        let ghost old_v = v@;
        v.push(s);
        assert forall|i: int, j: int| 0 <= i < j < v@.len() implies (#[trigger] v@[i])@ != (#[trigger] v@[j])@ by {
            if j == old_v.len() {
                assert(v@[i] == old_v[i]);
            } else {
                assert(v@[i] == old_v[i] && v@[j] == old_v[j]);
            }
        }
        assert forall|t: Seq<char>| #[trigger] set_view(v@).contains(t) == set_view(old_v).insert(s@).contains(t) by {
            if set_view(old_v).contains(t) {
                let i = choose|i: int| 0 <= i < old_v.len() && (#[trigger] old_v[i])@ == t;
                assert(v@[i] == old_v[i]);
            }
            if set_view(v@).contains(t) {
                let i = choose|i: int| 0 <= i < v@.len() && (#[trigger] v@[i])@ == t;
                if i < old_v.len() {
                    assert(v@[i] == old_v[i]);
                }
            }
            if t == s@ {
                assert(v@[old_v.len() as int]@ == s@);
            }
        }
        assert(set_view(v@) =~= set_view(old_v).insert(s@));
    } else {
        assert(set_view(v@) =~= set_view(v@).insert(s@));
    }
}

} // verus!
