//! String-keyed association lists.
//!
//! The engine's tables are small and keyed by strings, so they are held as
//! vectors of `(key, value)` pairs with pairwise-distinct keys; lookup takes
//! the first (and only) entry whose key matches.

use vstd::prelude::*;

verus! {

/// No two entries share a key.
pub open spec fn assoc_has_unique_keys<V>(entries: Seq<(String, V)>) -> bool {
    forall|i: int, j: int|
        0 <= i < j < entries.len() ==> entries[i].0@ != entries[j].0@
}

/// The value stored under `key`: the first entry whose key matches.
pub open spec fn assoc_lookup<V>(entries: Seq<(String, V)>, key: Seq<char>) -> Option<V>
    decreases entries.len(),
{
    if entries.len() == 0 {
        None
    } else if entries[0].0@ == key {
        Some(entries[0].1)
    } else {
        assoc_lookup(entries.drop_first(), key)
    }
}

/// A key that no lookup finds appears in no entry.
proof fn lemma_assoc_lookup_none<V>(entries: Seq<(String, V)>, key: Seq<char>)
    requires
        assoc_lookup(entries, key) is None,
    ensures
        forall|i: int| 0 <= i < entries.len() ==> entries[i].0@ != key,
    decreases entries.len(),
{
    if entries.len() > 0 {
        lemma_assoc_lookup_none(entries.drop_first(), key);
        assert forall|i: int| 0 <= i < entries.len() implies entries[i].0@ != key by {
            if i > 0 {
                assert(entries.drop_first()[i - 1] == entries[i]);
            }
        }
    }
}

/// Appending an entry under a fresh key leaves every other key's lookup
/// unchanged and makes the new value the one found under the new key.
proof fn lemma_assoc_lookup_push<V>(entries: Seq<(String, V)>, entry: (String, V), key: Seq<char>)
    requires
        assoc_lookup(entries, entry.0@) is None,
    ensures
        assoc_lookup(entries.push(entry), key) == if key == entry.0@ {
            Some(entry.1)
        } else {
            assoc_lookup(entries, key)
        },
    decreases entries.len(),
{
    if entries.len() == 0 {
        assert(entries.push(entry)[0] == entry);
        assert(entries.push(entry).drop_first() =~= Seq::<(String, V)>::empty());
        assert(assoc_lookup(Seq::<(String, V)>::empty(), key) is None);
    } else {
        assert(entries.push(entry)[0] == entries[0]);
        assert(entries.push(entry).drop_first() =~= entries.drop_first().push(entry));
        lemma_assoc_lookup_push(entries.drop_first(), entry, key);
    }
}

/// Replacing the entry at `i` with one under the same key rewrites that key's
/// lookup and leaves every other key's lookup unchanged, provided keys are
/// unique.
proof fn lemma_assoc_lookup_update<V>(
    entries: Seq<(String, V)>,
    i: int,
    entry: (String, V),
    key: Seq<char>,
)
    requires
        assoc_has_unique_keys(entries),
        0 <= i < entries.len(),
        entries[i].0@ == entry.0@,
    ensures
        assoc_lookup(entries.update(i, entry), key) == if key == entry.0@ {
            Some(entry.1)
        } else {
            assoc_lookup(entries, key)
        },
    decreases entries.len(),
{
    let updated = entries.update(i, entry);
    if i == 0 {
        assert(updated[0] == entry);
        assert(updated.drop_first() =~= entries.drop_first());
    } else {
        assert(updated[0] == entries[0]);
        assert(updated.drop_first() =~= entries.drop_first().update(i - 1, entry));
        assert(assoc_has_unique_keys(entries.drop_first())) by {
            assert forall|a: int, b: int|
                0 <= a < b < entries.drop_first().len() implies entries.drop_first()[a].0@
                != entries.drop_first()[b].0@ by {
                assert(entries.drop_first()[a] == entries[a + 1]);
                assert(entries.drop_first()[b] == entries[b + 1]);
            }
        }
        assert(entries.drop_first()[i - 1] == entries[i]);
        lemma_assoc_lookup_update(entries.drop_first(), i - 1, entry, key);
        assert(entries[0].0@ != entries[i].0@);
    }
}

/// Index of the entry holding `key`, if any.
pub(crate) fn assoc_find<V>(entries: &Vec<(String, V)>, key: &String) -> (idx: Option<usize>)
    ensures
        match idx {
            Some(i) => i < entries@.len() && entries@[i as int].0@ == key@ && assoc_lookup(
                entries@,
                key@,
            ) == Some(entries@[i as int].1),
            None => assoc_lookup(entries@, key@) is None,
        },
{
    proof {
        assert(entries@.skip(0) =~= entries@);
    }
    let mut i: usize = 0;
    while i < entries.len()
        invariant
            i <= entries@.len(),
            assoc_lookup(entries@, key@) == assoc_lookup(entries@.skip(i as int), key@),
        decreases entries@.len() - i,
    {
        let matched = entries[i].0 == *key;
        proof {
            assert(entries@.skip(i as int)[0] == entries@[i as int]);
        }
        if matched {
            return Some(i);
        }
        proof {
            assert(entries@.skip(i as int).drop_first() =~= entries@.skip(i as int + 1));
        }
        i += 1;
    }
    proof {
        assert(entries@.skip(i as int) =~= Seq::<(String, V)>::empty());
    }
    None
}

/// Store `value` under `key`, replacing the entry that holds `key` if one
/// does.
pub(crate) fn assoc_put<V>(entries: &mut Vec<(String, V)>, key: String, value: V)
    requires
        assoc_has_unique_keys(old(entries)@),
    ensures
        assoc_has_unique_keys(final (entries)@),
        forall|k: Seq<char>| #![auto]
            assoc_lookup(final (entries)@, k) == if k == key@ {
                Some(value)
            } else {
                assoc_lookup(old(entries)@, k)
            },
{
    let found = assoc_find(entries, &key);
    match found {
        Some(i) => {
            let ghost pre = entries@;
            let entry = (key, value);
            entries[i] = entry;
            proof {
                assert forall|k: Seq<char>| #![auto]
                    assoc_lookup(entries@, k) == if k == entry.0@ {
                        Some(entry.1)
                    } else {
                        assoc_lookup(pre, k)
                    } by {
                    lemma_assoc_lookup_update(pre, i as int, entry, k);
                }
                assert forall|a: int, b: int|
                    0 <= a < b < entries@.len() implies entries@[a].0@ != entries@[b].0@ by {
                    assert(pre[a].0@ != pre[b].0@);
                }
            }
        },
        None => {
            let ghost pre = entries@;
            let entry = (key, value);
            proof {
                lemma_assoc_lookup_none(pre, entry.0@);
            }
            entries.push(entry);
            proof {
                assert forall|k: Seq<char>| #![auto]
                    assoc_lookup(entries@, k) == if k == entry.0@ {
                        Some(entry.1)
                    } else {
                        assoc_lookup(pre, k)
                    } by {
                    lemma_assoc_lookup_push(pre, entry, k);
                }
            }
        },
    }
}

} // verus!
