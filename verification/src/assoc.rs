//! Association lists keyed by strings: the maps of this library, kept in insertion
//! order with each key at most once.
use vstd::prelude::*;
use crate::text::str_eq;

verus! {

/// The index of the entry of `m` whose key is `k`, or -1.
pub open spec fn key_index<T>(m: Seq<(Seq<char>, T)>, k: Seq<char>) -> int
    decreases m.len(),
{
    if m.len() == 0 {
        -1
    } else if m[0].0 == k {
        0
    } else {
        let i = key_index(m.drop_first(), k);
        if i < 0 { -1 } else { i + 1 }
    }
}

/// `m` with `k` bound to `v`: the entry of `k` is replaced in place, or a new entry
/// is added at the end.
pub open spec fn assoc_put<T>(m: Seq<(Seq<char>, T)>, k: Seq<char>, v: T) -> Seq<(Seq<char>, T)> {
    let i = key_index(m, k);
    if i >= 0 { m.update(i, (k, v)) } else { m.push((k, v)) }
}

/// The value bound to `k` in `m`.
pub open spec fn assoc_get<T>(m: Seq<(Seq<char>, T)>, k: Seq<char>) -> Option<T> {
    let i = key_index(m, k);
    if i >= 0 { Some(m[i].1) } else { None }
}

/// No key occurs twice in `m`.
pub open spec fn keys_unique<T>(m: Seq<(Seq<char>, T)>) -> bool {
    forall|i: int, j: int| 0 <= i < j < m.len() ==> m[i].0 != m[j].0
}

/// `key_index` finds the first entry whose key is `k`.
pub proof fn lemma_key_index<T>(m: Seq<(Seq<char>, T)>, k: Seq<char>)
    ensures
        -1 <= key_index(m, k) < m.len(),
        key_index(m, k) >= 0 ==> m[key_index(m, k)].0 == k,
        key_index(m, k) >= 0 ==> forall|j: int| 0 <= j < key_index(m, k) ==> m[j].0 != k,
        key_index(m, k) < 0 ==> forall|j: int| 0 <= j < m.len() ==> m[j].0 != k,
    decreases m.len(),
{
    if m.len() > 0 && m[0].0 != k {
        lemma_key_index(m.drop_first(), k);
        assert forall|j: int| 1 <= j < m.len() implies m[j] == m.drop_first()[j - 1] by {}
    }
}

/// The value bound to `k` is that of the entry at `i`, when that entry has key `k` and
/// no entry before it does.
pub proof fn lemma_assoc_get_at<T>(m: Seq<(Seq<char>, T)>, k: Seq<char>, i: int)
    requires
        0 <= i < m.len(),
        m[i].0 == k,
        forall|j: int| 0 <= j < i ==> m[j].0 != k,
    ensures
        assoc_get(m, k) == Some(m[i].1),
{
    lemma_key_index(m, k);
    let t = key_index(m, k);
    if t < 0 {
        assert(m[i].0 != k);
    } else if t < i {
        assert(m[t].0 != k);
    } else if t > i {
        assert(m[i].0 != k);
    }
}

/// Nothing is bound to a key that no entry has.
pub proof fn lemma_assoc_get_absent<T>(m: Seq<(Seq<char>, T)>, k: Seq<char>)
    requires
        forall|j: int| 0 <= j < m.len() ==> m[j].0 != k,
    ensures
        assoc_get(m, k) is None,
{
    lemma_key_index(m, k);
    if key_index(m, k) >= 0 {
        assert(m[key_index(m, k)].0 == k);
    }
}

/// The index of the first entry of `m` with key `k`, computed on the keys' views.
pub fn find_key<T>(m: &Vec<(String, T)>, k: &str) -> (r: Option<usize>)
    ensures
        r matches Some(i) ==> i < m@.len() && m@[i as int].0@ == k@
            && forall|j: int| 0 <= j < i ==> m@[j].0@ != k@,
        r is None ==> forall|j: int| 0 <= j < m@.len() ==> m@[j].0@ != k@,
{
    let mut i: usize = 0;
    while i < m.len()
        invariant
            0 <= i <= m@.len(),
            forall|j: int| 0 <= j < i ==> m@[j].0@ != k@,
        decreases m@.len() - i,
    {
        if str_eq(m[i].0.as_str(), k) {
            return Some(i);
        }
        i += 1;
    }
    None
}

/// The view of a string-keyed byte map: keys and contents as sequences.
pub open spec fn bytes_map_view(m: Seq<(String, Vec<u8>)>) -> Seq<(Seq<char>, Seq<u8>)> {
    m.map_values(|p: (String, Vec<u8>)| (p.0@, p.1@))
}

/// The index that `find_key` reports is the one `key_index` names on the view.
pub proof fn lemma_find_key_view<T, U>(m: Seq<(String, T)>, v: Seq<(Seq<char>, U)>, k: Seq<char>, r: Option<usize>)
    requires
        v.len() == m.len(),
        forall|j: int| 0 <= j < m.len() ==> #[trigger] v[j].0 == m[j].0@,
        r matches Some(i) ==> i < m.len() && m[i as int].0@ == k
            && forall|j: int| 0 <= j < i ==> m[j].0@ != k,
        r is None ==> forall|j: int| 0 <= j < m.len() ==> m[j].0@ != k,
    ensures
        r matches Some(i) ==> key_index(v, k) == i,
        r is None ==> key_index(v, k) == -1,
{
    lemma_key_index(v, k);
    if key_index(v, k) >= 0 {
        let t = key_index(v, k);
        assert(v[t].0 == m[t].0@);
    }
    if let Some(i) = r {
        assert(v[i as int].0 == m[i as int].0@);
    }
}

/// Binds `k` to `v` in the byte map `m`, replacing the entry of an equal key in place.
pub fn put_bytes(m: &mut Vec<(String, Vec<u8>)>, k: String, v: Vec<u8>)
    ensures
        bytes_map_view(final(m)@) == assoc_put(bytes_map_view(old(m)@), k@, v@),
{
    let r = find_key(m, k.as_str());
    proof {
        lemma_find_key_view(m@, bytes_map_view(m@), k@, r);
    }
    let ghost kv = k@;
    let ghost vv = v@;
    let ghost before = m@;
    match r {
        Some(i) => {
            m.set(i, (k, v));
            assert(bytes_map_view(m@) =~= bytes_map_view(before).update(i as int, (kv, vv)));
        },
        None => {
            m.push((k, v));
            assert(bytes_map_view(m@) =~= bytes_map_view(before).push((kv, vv)));
        },
    }
}

} // verus!
