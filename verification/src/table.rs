use vstd::prelude::*;
use crate::text::str_same;

verus! {

/// The position of the first entry, at or after `from`, whose key is `key`.
pub open spec fn position<T>(entries: Seq<(String, T)>, key: Seq<char>, from: int) -> Option<int>
    decreases entries.len() - from,
{
    if from < 0 || from >= entries.len() {
        None
    } else if entries[from].0@ == key {
        Some(from)
    } else {
        position(entries, key, from + 1)
    }
}

/// The value of the first entry whose key is `key`.
pub open spec fn lookup<T>(entries: Seq<(String, T)>, key: Seq<char>) -> Option<T> {
    match position(entries, key, 0) {
        Some(i) => Some(entries[i].1),
        None => None,
    }
}

/// No key stands in the table twice.
pub open spec fn keys_unique<T>(entries: Seq<(String, T)>) -> bool {
    forall|i: int, j: int|
        0 <= i < j < entries.len() ==> (#[trigger] entries[i]).0@ != (#[trigger] entries[j]).0@
}

/// The position found is that of the first entry with the key, and
/// none is found just where no entry has it.
pub proof fn lemma_position<T>(entries: Seq<(String, T)>, key: Seq<char>, from: int)
    requires
        0 <= from,
    ensures
        match position(entries, key, from) {
            Some(i) => {
                &&& from <= i < entries.len()
                &&& entries[i].0@ == key
                &&& forall|k: int| from <= k < i ==> (#[trigger] entries[k]).0@ != key
            },
            None => forall|k: int| from <= k < entries.len() ==> (#[trigger] entries[k]).0@ != key,
        },
    decreases entries.len() - from,
{
    if from < entries.len() && entries[from].0@ != key {
        lemma_position(entries, key, from + 1);
    }
}

/// The position of the first entry whose key is `key`.
pub fn find_position<T>(entries: &Vec<(String, T)>, key: &str) -> (r: Option<usize>)
    ensures
        match r {
            Some(i) => position(entries@, key@, 0) == Some(i as int) && i < entries.len(),
            None => position(entries@, key@, 0) is None,
        },
{
    let mut i: usize = 0;
    while i < entries.len()
        invariant
            i <= entries.len(),
            position(entries@, key@, 0) == position(entries@, key@, i as int),
        decreases entries.len() - i,
    {
        if str_same(entries[i].0.as_str(), key) {
            return Some(i);
        }
        i += 1;
    }
    None
}

/// The value of the first entry whose key is `key`.
pub fn find_entry<'a, T>(entries: &'a Vec<(String, T)>, key: &str) -> (r: Option<&'a T>)
    ensures
        match r {
            Some(v) => lookup(entries@, key@) == Some(*v),
            None => lookup(entries@, key@) is None,
        },
{
    match find_position(entries, key) {
        Some(i) => Some(&entries[i].1),
        None => None,
    }
}

/// Two tables with the same keys give each key the same position.
pub proof fn lemma_same_keys<T>(a: Seq<(String, T)>, b: Seq<(String, T)>, key: Seq<char>, from: int)
    requires
        0 <= from,
        a.len() == b.len(),
        forall|i: int| 0 <= i < a.len() ==> (#[trigger] a[i]).0@ == (#[trigger] b[i]).0@,
    ensures
        position(a, key, from) == position(b, key, from),
    decreases a.len() - from,
{
    if from < a.len() {
        if a[from].0@ != key {
            lemma_same_keys(a, b, key, from + 1);
        }
    }
}

/// A table with one more entry at its end gives each key the position it
/// had, and a key it did not hold the new entry where that has the key.
pub proof fn lemma_pushed<T>(a: Seq<(String, T)>, b: Seq<(String, T)>, key: Seq<char>, from: int)
    requires
        0 <= from <= a.len(),
        b.len() == a.len() + 1,
        forall|i: int| 0 <= i < a.len() ==> #[trigger] a[i] == b[i],
    ensures
        position(b, key, from) == (match position(a, key, from) {
            Some(i) => Some(i),
            None => if b[a.len() as int].0@ == key {
                Some(a.len() as int)
            } else {
                None
            },
        }),
    decreases a.len() - from,
{
    if from < a.len() {
        if a[from].0@ != key {
            lemma_pushed(a, b, key, from + 1);
        }
    } else {
        assert(position(b, key, from + 1) is None);
    }
}

/// Stores `value` under `key`, in place of what stood there.
pub fn put<T>(map: &mut Vec<(String, T)>, key: String, value: T)
    requires
        keys_unique(old(map)@),
    ensures
        keys_unique(final(map)@),
        forall|k: Seq<char>|
            lookup(final(map)@, k) == (if k == key@ {
                Some(value)
            } else {
                lookup(old(map)@, k)
            }),
{
    let ghost before = map@;
    let ghost key_text = key@;
    match find_position(map, key.as_str()) {
        Some(i) => {
            map.set(i, (key, value));
            proof {
                lemma_position(before, key_text, 0);
                assert forall|a: int, b: int| 0 <= a < b < map@.len() implies (#[trigger] map@[a]).0@
                    != (#[trigger] map@[b]).0@ by {
                    assert(map@[a].0@ == before[a].0@);
                    assert(map@[b].0@ == before[b].0@);
                }
                assert forall|n: int| 0 <= n < before.len() implies (#[trigger] before[n]).0@ == (
                #[trigger] map@[n]).0@ by {}
                assert forall|k: Seq<char>|
                    lookup(map@, k) == (if k == key_text {
                        Some(value)
                    } else {
                        lookup(before, k)
                    }) by {
                    lemma_same_keys(before, map@, k, 0);
                    lemma_position(before, k, 0);
                    if let Some(n) = position(before, k, 0) {
                        if n != i {
                            assert(map@[n] == before[n]);
                        }
                    }
                }
            }
        },
        None => {
            map.push((key, value));
            proof {
                lemma_position(before, key_text, 0);
                assert forall|a: int, b: int| 0 <= a < b < map@.len() implies (#[trigger] map@[a]).0@
                    != (#[trigger] map@[b]).0@ by {
                    if b < before.len() {
                        assert(map@[a] == before[a]);
                        assert(map@[b] == before[b]);
                    } else {
                        assert(map@[a] == before[a]);
                    }
                }
                assert forall|k: Seq<char>|
                    lookup(map@, k) == (if k == key_text {
                        Some(value)
                    } else {
                        lookup(before, k)
                    }) by {
                    lemma_pushed(before, map@, k, 0);
                    lemma_position(before, k, 0);
                    if let Some(n) = position(before, k, 0) {
                        assert(map@[n] == before[n]);
                    }
                }
            }
        },
    }
}

/// In a table without a key twice, each entry is found under its key.
pub proof fn lemma_unique_lookup<T>(table: Seq<(String, T)>, j: int)
    requires
        keys_unique(table),
        0 <= j < table.len(),
    ensures
        position(table, table[j].0@, 0) == Some(j),
        lookup(table, table[j].0@) == Some(table[j].1),
{
    lemma_position(table, table[j].0@, 0);
    let p = position(table, table[j].0@, 0)->0;
    if p < j {
        assert(table[p].0@ != table[j].0@);
    }
}

/// Puts an entry with a key that the table does not hold at position
/// `at`: what the table holds under each key stays, and under the new
/// key stands the new value.
pub fn insert_fresh<T>(map: &mut Vec<(String, T)>, at: usize, key: String, value: T)
    requires
        keys_unique(old(map)@),
        at <= old(map)@.len(),
        lookup(old(map)@, key@) is None,
    ensures
        keys_unique(final(map)@),
        final(map)@ == old(map)@.insert(at as int, (key, value)),
        forall|k: Seq<char>|
            lookup(final(map)@, k) == (if k == key@ {
                Some(value)
            } else {
                lookup(old(map)@, k)
            }),
{
    let ghost before = map@;
    let ghost key_text = key@;
    map.insert(at, (key, value));
    proof {
        let now = map@;
        lemma_position(before, key_text, 0);
        assert forall|a: int, b: int| 0 <= a < b < now.len() implies (#[trigger] now[a]).0@ != (
        #[trigger] now[b]).0@ by {
            let ia = if a < at {
                a
            } else {
                a - 1
            };
            let ib = if b < at {
                b
            } else {
                b - 1
            };
            if a != at && b != at {
                assert(now[a] == before[ia] && now[b] == before[ib]);
            } else if a == at {
                assert(now[b] == before[ib]);
            } else {
                assert(now[a] == before[ia]);
            }
        }
        assert forall|k: Seq<char>|
            lookup(now, k) == (if k == key_text {
                Some(value)
            } else {
                lookup(before, k)
            }) by {
            if k == key_text {
                lemma_unique_lookup(now, at as int);
            } else {
                lemma_position(before, k, 0);
                lemma_position(now, k, 0);
                match position(before, k, 0) {
                    Some(i) => {
                        let j = if i < at {
                            i
                        } else {
                            i + 1
                        };
                        lemma_unique_lookup(now, j);
                    },
                    None => {
                        if let Some(j) = position(now, k, 0) {
                            let i = if j < at {
                                j
                            } else {
                                j - 1
                            };
                        }
                    },
                }
            }
        }
    }
}

/// Whether no key stands in the table twice.
pub fn has_unique_keys<T>(entries: &Vec<(String, T)>) -> (r: bool)
    ensures
        r == keys_unique(entries@),
{
    let mut j: usize = 0;
    while j < entries.len()
        invariant
            j <= entries.len(),
            forall|a: int, b: int|
                0 <= a < b < j ==> (#[trigger] entries@[a]).0@ != (#[trigger] entries@[b]).0@,
        decreases entries.len() - j,
    {
        let mut i: usize = 0;
        while i < j
            invariant
                i <= j < entries.len(),
                forall|a: int| 0 <= a < i ==> (#[trigger] entries@[a]).0@ != entries@[j as int].0@,
            decreases j - i,
        {
            if str_same(entries[i].0.as_str(), entries[j].0.as_str()) {
                return false;
            }
            i += 1;
        }
        j += 1;
    }
    true
}

} // verus!
