//! String-to-string maps kept as key/value lists, first occurrence of a key
//! winning, and updated in place so that a key occurs at most once.
use vstd::prelude::*;

use crate::text::str_eq;

verus! {

/// Index of the first entry whose key is `k`, or -1.
pub open spec fn key_index(s: Seq<(Seq<char>, Seq<char>)>, k: Seq<char>) -> int
    decreases s.len(),
{
    if s.len() == 0 {
        -1
    } else if s[0].0 == k {
        0
    } else {
        let r = key_index(s.drop_first(), k);
        if r < 0 {
            -1
        } else {
            r + 1
        }
    }
}

/// The map that the entries stand for.
pub open spec fn pairs_map(s: Seq<(Seq<char>, Seq<char>)>) -> Map<Seq<char>, Seq<char>> {
    Map::new(|k: Seq<char>| key_index(s, k) >= 0, |k: Seq<char>| s[key_index(s, k)].1)
}

/// No key occurs twice.
pub open spec fn keys_unique(s: Seq<(Seq<char>, Seq<char>)>) -> bool {
    forall|i: int, j: int| 0 <= i < j < s.len() ==> #[trigger] s[i].0 != #[trigger] s[j].0
}

/// What `key_index` returns.
pub proof fn lemma_key_index(s: Seq<(Seq<char>, Seq<char>)>, k: Seq<char>)
    ensures
        -1 <= key_index(s, k) < s.len(),
        key_index(s, k) >= 0 ==> s[key_index(s, k)].0 == k,
        forall|j: int| 0 <= j < s.len() && (key_index(s, k) < 0 || j < key_index(s, k)) ==> s[j].0 != k,
    decreases s.len(),
{
    if s.len() > 0 && s[0].0 != k {
        lemma_key_index(s.drop_first(), k);
        assert forall|j: int| 0 <= j < s.len() && (key_index(s, k) < 0 || j < key_index(s, k)) implies s[j].0 != k by {
            if j > 0 {
                assert(s[j] == s.drop_first()[j - 1]);
            }
        }
    }
}

/// `key_index` is determined by the first entry with the key.
pub proof fn lemma_key_index_at(s: Seq<(Seq<char>, Seq<char>)>, k: Seq<char>, i: int)
    requires
        0 <= i <= s.len(),
        forall|j: int| 0 <= j < i ==> s[j].0 != k,
        i < s.len() ==> s[i].0 == k,
    ensures
        key_index(s, k) == if i < s.len() { i } else { -1 },
    decreases s.len(),
{
    if s.len() > 0 && i > 0 {
        assert forall|j: int| 0 <= j < i - 1 implies s.drop_first()[j].0 != k by {
            assert(s.drop_first()[j] == s[j + 1]);
        }
        lemma_key_index_at(s.drop_first(), k, i - 1);
    }
}

/// The map of an empty list is empty.
pub proof fn lemma_pairs_map_empty(s: Seq<(Seq<char>, Seq<char>)>)
    requires
        s.len() == 0,
    ensures
        pairs_map(s) == Map::<Seq<char>, Seq<char>>::empty(),
{
    assert(pairs_map(s) =~= Map::<Seq<char>, Seq<char>>::empty());
}

/// Appending an entry with a new key inserts it into the map.
pub proof fn lemma_pairs_map_push(s: Seq<(Seq<char>, Seq<char>)>, k: Seq<char>, v: Seq<char>)
    requires
        key_index(s, k) < 0,
    ensures
        pairs_map(s.push((k, v))) == pairs_map(s).insert(k, v),
        keys_unique(s) ==> keys_unique(s.push((k, v))),
{
    let t = s.push((k, v));
    assert forall|q: Seq<char>| #![trigger key_index(t, q)]
        key_index(t, q) == if key_index(s, q) >= 0 { key_index(s, q) } else if q == k {
            s.len() as int
        } else {
            -1
        } by {
        lemma_key_index(s, q);
        lemma_key_index(s, k);
        if key_index(s, q) >= 0 {
            lemma_key_index_at(t, q, key_index(s, q));
        } else if q == k {
            lemma_key_index_at(t, q, s.len() as int);
        } else {
            lemma_key_index_at(t, q, t.len() as int);
        }
    }
    assert forall|q: Seq<char>| #[trigger] pairs_map(t).contains_key(q) implies pairs_map(t)[q]
        == pairs_map(s).insert(k, v)[q] by {
        lemma_key_index(s, q);
        assert(key_index(t, q) >= 0);
    }
    assert(pairs_map(t) =~= pairs_map(s).insert(k, v));
    lemma_key_index(s, k);
}

/// Replacing the value of an existing key updates it in the map.
pub proof fn lemma_pairs_map_update(s: Seq<(Seq<char>, Seq<char>)>, i: int, v: Seq<char>)
    requires
        0 <= i < s.len(),
        key_index(s, s[i].0) == i,
    ensures
        pairs_map(s.update(i, (s[i].0, v))) == pairs_map(s).insert(s[i].0, v),
        keys_unique(s) ==> keys_unique(s.update(i, (s[i].0, v))),
{
    let k = s[i].0;
    let t = s.update(i, (k, v));
    assert forall|q: Seq<char>| #![trigger key_index(t, q)] key_index(t, q) == key_index(s, q) by {
        lemma_key_index(s, q);
        let r = key_index(s, q);
        if r >= 0 {
            lemma_key_index_at(t, q, r);
        } else {
            lemma_key_index_at(t, q, t.len() as int);
        }
    }
    assert forall|q: Seq<char>| #[trigger] pairs_map(t).contains_key(q) implies pairs_map(t)[q]
        == pairs_map(s).insert(k, v)[q] by {
        lemma_key_index(s, q);
        assert(key_index(t, q) >= 0);
    }
    assert(pairs_map(t) =~= pairs_map(s).insert(k, v));
}

/// The map that a key/value list stands for.
pub open spec fn map_of(v: Seq<(String, String)>) -> Map<Seq<char>, Seq<char>> {
    pairs_map(v.map_values(|p: (String, String)| (p.0@, p.1@)))
}

/// The entries of a key/value list, as character sequences.
pub open spec fn entries_of(v: Seq<(String, String)>) -> Seq<(Seq<char>, Seq<char>)> {
    v.map_values(|p: (String, String)| (p.0@, p.1@))
}

/// Position of the entry with key `k`, if any.
pub fn find_key(m: &Vec<(String, String)>, k: &str) -> (r: Option<usize>)
    ensures
        match r {
            Some(i) => i < m@.len() && key_index(entries_of(m@), k@) == i,
            None => key_index(entries_of(m@), k@) == -1,
        },
{
    let ghost s = entries_of(m@);
    let mut i: usize = 0;
    while i < m.len()
        invariant
            i <= m@.len(),
            s == entries_of(m@),
            forall|j: int| 0 <= j < i ==> s[j].0 != k@,
        decreases m.len() - i,
    {
        if str_eq(m[i].0.as_str(), k) {
            proof {
                lemma_key_index_at(s, k@, i as int);
            }
            return Some(i);
        }
        i = i + 1;
    }
    proof {
        lemma_key_index_at(s, k@, s.len() as int);
    }
    None
}

/// The value stored under `k`.
pub fn map_get(m: &Vec<(String, String)>, k: &str) -> (r: Option<String>)
    ensures
        match r {
            Some(v) => map_of(m@).contains_key(k@) && map_of(m@)[k@] == v@,
            None => !map_of(m@).contains_key(k@),
        },
{
    match find_key(m, k) {
        Some(i) => Some(m[i].1.clone()),
        None => None,
    }
}

/// Whether `k` has a value.
pub fn map_contains(m: &Vec<(String, String)>, k: &str) -> (r: bool)
    ensures
        r == map_of(m@).contains_key(k@),
{
    find_key(m, k).is_some()
}

/// Stores `v` under `k`, replacing an earlier value.
pub fn map_insert(m: &mut Vec<(String, String)>, k: String, v: String)
    ensures
        map_of(final(m)@) == map_of(old(m)@).insert(k@, v@),
        keys_unique(entries_of(old(m)@)) ==> keys_unique(entries_of(final(m)@)),
{
    let ghost s = entries_of(m@);
    match find_key(m, k.as_str()) {
        Some(i) => {
            proof {
                lemma_key_index(s, k@);
                lemma_pairs_map_update(s, i as int, v@);
            }
            let ghost kv = k@;
            let ghost vv = v@;
            m.set(i, (k, v));
            assert(entries_of(m@) =~= s.update(i as int, (s[i as int].0, vv)));
        },
        None => {
            proof {
                lemma_pairs_map_push(s, k@, v@);
            }
            let ghost kv = k@;
            let ghost vv = v@;
            m.push((k, v));
            assert(entries_of(m@) =~= s.push((kv, vv)));
        },
    }
}

/// A copy of the entries.
pub fn map_clone(m: &Vec<(String, String)>) -> (r: Vec<(String, String)>)
    ensures
        entries_of(r@) == entries_of(m@),
{
    let mut r: Vec<(String, String)> = Vec::new();
    let mut i: usize = 0;
    while i < m.len()
        invariant
            i <= m@.len(),
            entries_of(r@) =~= entries_of(m@).take(i as int),
        decreases m.len() - i,
    {
        let k = m[i].0.clone();
        let v = m[i].1.clone();
        let ghost before = entries_of(r@);
        r.push((k, v));
        assert(entries_of(r@) =~= before.push((m@[i as int].0@, m@[i as int].1@)));
        assert(entries_of(m@).take(i + 1) =~= entries_of(m@).take(i as int).push((m@[i as int].0@, m@[i as int].1@)));
        i = i + 1;
    }
    assert(entries_of(m@).take(m@.len() as int) =~= entries_of(m@));
    r
}

} // verus!
