//! Keyed entries held in a `Vec` with unique keys, read as a map.

use vstd::prelude::*;

verus! {

/// The map that a list of keyed entries stands for. A later entry with a key
/// overrides an earlier one, so a list with unique keys gives each key its
/// only value.
pub open spec fn entries_map<V: View>(s: Seq<(String, V)>) -> Map<Seq<char>, V::V>
    decreases s.len(),
{
    if s.len() == 0 {
        Map::empty()
    } else {
        entries_map(s.drop_last()).insert(s.last().0@, s.last().1@)
    }
}

/// No two entries share a key.
pub open spec fn keys_unique<V>(s: Seq<(String, V)>) -> bool {
    forall|i: int, j: int| 0 <= i < j < s.len() ==> s[i].0@ != s[j].0@
}

/// With unique keys, each entry is in the map, and the map holds nothing else.
pub proof fn lemma_entries_map<V: View>(s: Seq<(String, V)>)
    requires
        keys_unique(s),
    ensures
        forall|i: int|
            0 <= i < s.len() ==> entries_map(s).contains_key(#[trigger] s[i].0@)
                && entries_map(s)[s[i].0@] == s[i].1@,
        forall|k: Seq<char>| #[trigger]
            entries_map(s).contains_key(k) ==> exists|i: int| 0 <= i < s.len() && s[i].0@ == k,
    decreases s.len(),
{
    if s.len() > 0 {
        let t = s.drop_last();
        lemma_entries_map(t);
        assert forall|i: int| 0 <= i < s.len() implies entries_map(s).contains_key(
            #[trigger] s[i].0@,
        ) && entries_map(s)[s[i].0@] == s[i].1@ by {
            if i < s.len() - 1 {
                assert(s[i] == t[i]);
            }
        }
        assert forall|k: Seq<char>| #[trigger]
            entries_map(s).contains_key(k) implies exists|i: int|
            0 <= i < s.len() && s[i].0@ == k by {
            if k == s.last().0@ {
                assert(s[s.len() - 1].0@ == k);
            } else {
                assert(entries_map(t).contains_key(k));
                let i = choose|i: int| 0 <= i < t.len() && t[i].0@ == k;
                assert(s[i] == t[i]);
            }
        }
    }
}

/// Replacing an entry by one with the same key sets that key's value.
proof fn lemma_replace_entry<V: View>(s: Seq<(String, V)>, i: int, e: (String, V))
    requires
        keys_unique(s),
        0 <= i < s.len(),
        s[i].0@ == e.0@,
    ensures
        keys_unique(s.update(i, e)),
        entries_map(s.update(i, e)) == entries_map(s).insert(e.0@, e.1@),
{
    let u = s.update(i, e);
    assert(keys_unique(u)) by {
        assert forall|a: int, b: int| 0 <= a < b < u.len() implies u[a].0@ != u[b].0@ by {
            assert(s[a].0@ != s[b].0@);
        }
    }
    lemma_entries_map(s);
    lemma_entries_map(u);
    let m = entries_map(s).insert(e.0@, e.1@);
    assert forall|k: Seq<char>| #[trigger] entries_map(u).contains_key(k) implies m.contains_key(k)
        && entries_map(u)[k] == m[k] by {
        let j = choose|j: int| 0 <= j < u.len() && u[j].0@ == k;
        assert(u[j].0@ == k);
        if j != i {
            assert(s[j] == u[j]);
            assert(s[j].0@ == k);
        }
    }
    assert forall|k: Seq<char>| #[trigger] m.contains_key(k) implies entries_map(u).contains_key(k) by {
        if k != e.0@ {
            let j = choose|j: int| 0 <= j < s.len() && s[j].0@ == k;
            assert(u[j] == s[j]);
            assert(u[j].0@ == k);
        } else {
            assert(u[i].0@ == k);
        }
    }
    assert(entries_map(u) =~= m);
}

/// Taking out the entry at `i` takes its key out of the map.
proof fn lemma_remove_entry<V: View>(s: Seq<(String, V)>, i: int)
    requires
        keys_unique(s),
        0 <= i < s.len(),
    ensures
        keys_unique(s.remove(i)),
        entries_map(s.remove(i)) == entries_map(s).remove(s[i].0@),
{
    let u = s.remove(i);
    let k0 = s[i].0@;
    assert(keys_unique(u)) by {
        assert forall|a: int, b: int| 0 <= a < b < u.len() implies u[a].0@ != u[b].0@ by {
            let sa = if a < i { a } else { a + 1 };
            let sb = if b < i { b } else { b + 1 };
            assert(u[a] == s[sa]);
            assert(u[b] == s[sb]);
        }
    }
    lemma_entries_map(s);
    lemma_entries_map(u);
    let m = entries_map(s).remove(k0);
    assert forall|k: Seq<char>| #[trigger] entries_map(u).contains_key(k) implies m.contains_key(k)
        && entries_map(u)[k] == m[k] by {
        let j = choose|j: int| 0 <= j < u.len() && u[j].0@ == k;
        let sj = if j < i { j } else { j + 1 };
        assert(u[j] == s[sj]);
        assert(s[sj].0@ == k);
    }
    assert forall|k: Seq<char>| #[trigger] m.contains_key(k) implies entries_map(u).contains_key(k) by {
        let j = choose|j: int| 0 <= j < s.len() && s[j].0@ == k;
        assert(j != i);
        let uj = if j < i { j } else { j - 1 };
        assert(u[uj] == s[j]);
        assert(u[uj].0@ == k);
    }
    assert(entries_map(u) =~= m);
}

/// The position of the entry with key `key`, if there is one.
pub fn find_key<V: View>(v: &Vec<(String, V)>, key: &String) -> (r: Option<usize>)
    ensures
        match r {
            Some(i) => i < v@.len() && v@[i as int].0@ == key@,
            None => forall|i: int| 0 <= i < v@.len() ==> v@[i].0@ != key@,
        },
{
    let mut i: usize = 0;
    while i < v.len()
        invariant
            i <= v@.len(),
            forall|j: int| 0 <= j < i ==> v@[j].0@ != key@,
        decreases v@.len() - i,
    {
        if v[i].0 == *key {
            return Some(i);
        }
        i = i + 1;
    }
    None
}

/// Sets `key` to `value`: the entry with that key is overwritten, or a new
/// one is added at the end.
pub fn upsert<V: View>(v: &mut Vec<(String, V)>, key: String, value: V)
    requires
        keys_unique(old(v)@),
    ensures
        keys_unique(final(v)@),
        entries_map(final(v)@) == entries_map(old(v)@).insert(key@, value@),
{
    let ghost s = v@;
    match find_key(v, &key) {
        Some(i) => {
            proof {
                lemma_replace_entry(s, i as int, (key, value));
            }
            v.set(i, (key, value));
        },
        None => {
            v.push((key, value));
            assert(v@.drop_last() =~= s);
        },
    }
}

/// Takes out the entry with key `key`; with no such entry, nothing changes.
pub fn remove_key<V: View>(v: &mut Vec<(String, V)>, key: &String)
    requires
        keys_unique(old(v)@),
    ensures
        keys_unique(final(v)@),
        entries_map(final(v)@) == entries_map(old(v)@).remove(key@),
{
    let ghost s = v@;
    match find_key(v, key) {
        Some(i) => {
            proof {
                lemma_remove_entry(s, i as int);
            }
            let _ = v.remove(i);
        },
        None => {
            proof {
                lemma_entries_map(s);
            }
            assert(entries_map(s).remove(key@) =~= entries_map(s));
        },
    }
}

} // verus!
