//! A table of entries, each found by its thirty-two byte key: the shape of
//! both halves of the ledger. No key occurs twice.

use vstd::prelude::*;
use crate::keys::keys_equal;

verus! {

/// One entry: the key it is found by, the lamports it holds and its data.
pub struct Entry {
    pub key: [u8; 32],
    pub lamports: u64,
    pub data: Vec<u8>,
}

/// What an entry holds besides its key.
pub struct EntryView {
    pub lamports: nat,
    pub data: Seq<u8>,
}

impl View for Entry {
    type V = EntryView;

    open spec fn view(&self) -> EntryView {
        EntryView { lamports: self.lamports as nat, data: self.data@ }
    }
}

/// The lamports that a sequence of entries holds in all.
pub open spec fn sum_lamports(entries: Seq<Entry>) -> nat
    decreases entries.len(),
{
    if entries.len() == 0 {
        0
    } else {
        sum_lamports(entries.drop_last()) + entries.last().lamports as nat
    }
}

/// Whether some entry has this key.
pub open spec fn has_key(entries: Seq<Entry>, key: Seq<u8>) -> bool {
    exists|i: int| 0 <= i < entries.len() && #[trigger] entries[i].key@ == key
}

/// The position of an entry with this key.
pub open spec fn position(entries: Seq<Entry>, key: Seq<u8>) -> int {
    choose|i: int| 0 <= i < entries.len() && #[trigger] entries[i].key@ == key
}

/// No key occurs twice.
pub open spec fn distinct_keys(entries: Seq<Entry>) -> bool {
    forall|i: int, j: int|
        0 <= i < entries.len() && 0 <= j < entries.len() && i != j
            ==> #[trigger] entries[i].key@ != #[trigger] entries[j].key@
}

/// The entries as a map from key to content.
pub open spec fn as_map(entries: Seq<Entry>) -> Map<Seq<u8>, EntryView> {
    Map::new(|key: Seq<u8>| has_key(entries, key), |key: Seq<u8>| entries[position(entries, key)]@)
}

/// A new entry adds what it holds to the sum.
pub proof fn lemma_sum_push(entries: Seq<Entry>, entry: Entry)
    ensures
        sum_lamports(entries.push(entry)) == sum_lamports(entries) + entry.lamports,
{
    assert(entries.push(entry).drop_last() =~= entries);
}

/// Replacing an entry changes the sum by the difference of what the two hold.
pub proof fn lemma_sum_update(entries: Seq<Entry>, i: int, entry: Entry)
    requires
        0 <= i < entries.len(),
    ensures
        sum_lamports(entries.update(i, entry)) + entries[i].lamports == sum_lamports(entries)
            + entry.lamports,
    decreases entries.len(),
{
    let updated = entries.update(i, entry);
    if i == entries.len() - 1 {
        assert(updated.drop_last() =~= entries.drop_last());
    } else {
        assert(updated.drop_last() =~= entries.drop_last().update(i, entry));
        lemma_sum_update(entries.drop_last(), i, entry);
    }
}

/// Removing an entry takes what it holds from the sum.
pub proof fn lemma_sum_remove(entries: Seq<Entry>, i: int)
    requires
        0 <= i < entries.len(),
    ensures
        sum_lamports(entries.remove(i)) + entries[i].lamports == sum_lamports(entries),
    decreases entries.len(),
{
    let removed = entries.remove(i);
    if i == entries.len() - 1 {
        assert(removed =~= entries.drop_last());
    } else {
        assert(removed.drop_last() =~= entries.drop_last().remove(i));
        assert(removed.last() == entries.last());
        lemma_sum_remove(entries.drop_last(), i);
    }
}

/// With distinct keys, the map holds at each entry's key what the entry holds.
pub proof fn lemma_map_at(entries: Seq<Entry>, i: int)
    requires
        distinct_keys(entries),
        0 <= i < entries.len(),
    ensures
        has_key(entries, entries[i].key@),
        position(entries, entries[i].key@) == i,
        as_map(entries).dom().contains(entries[i].key@),
        as_map(entries)[entries[i].key@] == entries[i]@,
{
    assert(entries[i].key@ == entries[i].key@);
}

/// An entry with a new key, put at the end, is an insertion into the map.
pub proof fn lemma_map_push(entries: Seq<Entry>, entry: Entry)
    requires
        distinct_keys(entries),
        !has_key(entries, entry.key@),
    ensures
        distinct_keys(entries.push(entry)),
        as_map(entries.push(entry)) == as_map(entries).insert(entry.key@, entry@),
{
    let pushed = entries.push(entry);
    assert(distinct_keys(pushed)) by {
        assert forall|i: int, j: int|
            0 <= i < pushed.len() && 0 <= j < pushed.len() && i != j implies #[trigger] pushed[i].key@
            != #[trigger] pushed[j].key@ by {
            if i < entries.len() && j < entries.len() {
                assert(entries[i].key@ != entries[j].key@);
            } else if i < entries.len() {
                assert(entries[i].key@ != entry.key@);
            } else {
                assert(entries[j].key@ != entry.key@);
            }
        }
    }
    assert forall|key: Seq<u8>| has_key(pushed, key) <==> (key == entry.key@ || has_key(
        entries,
        key,
    )) by {
        if has_key(pushed, key) {
            let i = position(pushed, key);
            if i < entries.len() {
                assert(entries[i].key@ == key);
            }
        }
        if key == entry.key@ {
            assert(pushed[entries.len() as int].key@ == key);
        }
        if has_key(entries, key) {
            let i = position(entries, key);
            assert(pushed[i].key@ == key);
        }
    }
    assert forall|key: Seq<u8>| has_key(pushed, key) implies #[trigger] as_map(pushed)[key]
        == as_map(entries).insert(entry.key@, entry@)[key] by {
        let i = position(pushed, key);
        lemma_map_at(pushed, i);
        if i < entries.len() {
            lemma_map_at(entries, i);
        }
    }
    assert(as_map(pushed) =~= as_map(entries).insert(entry.key@, entry@));
}

/// Replacing an entry by one with the same key is an insertion into the map.
pub proof fn lemma_map_update(entries: Seq<Entry>, i: int, entry: Entry)
    requires
        distinct_keys(entries),
        0 <= i < entries.len(),
        entry.key@ == entries[i].key@,
    ensures
        distinct_keys(entries.update(i, entry)),
        as_map(entries.update(i, entry)) == as_map(entries).insert(entry.key@, entry@),
{
    let updated = entries.update(i, entry);
    assert(distinct_keys(updated)) by {
        assert forall|a: int, b: int|
            0 <= a < updated.len() && 0 <= b < updated.len() && a != b implies #[trigger] updated[a].key@
            != #[trigger] updated[b].key@ by {
            assert(updated[a].key@ == entries[a].key@);
            assert(updated[b].key@ == entries[b].key@);
        }
    }
    assert forall|key: Seq<u8>| has_key(updated, key) <==> has_key(entries, key) by {
        if has_key(updated, key) {
            let a = position(updated, key);
            assert(entries[a].key@ == key);
        }
        if has_key(entries, key) {
            let a = position(entries, key);
            assert(updated[a].key@ == key);
        }
    }
    lemma_map_at(entries, i);
    assert forall|key: Seq<u8>| has_key(updated, key) implies #[trigger] as_map(updated)[key]
        == as_map(entries).insert(entry.key@, entry@)[key] by {
        let a = position(updated, key);
        lemma_map_at(updated, a);
        lemma_map_at(entries, a);
    }
    assert(as_map(updated) =~= as_map(entries).insert(entry.key@, entry@));
}

/// Removing an entry removes its key from the map.
pub proof fn lemma_map_remove(entries: Seq<Entry>, i: int)
    requires
        distinct_keys(entries),
        0 <= i < entries.len(),
    ensures
        distinct_keys(entries.remove(i)),
        as_map(entries.remove(i)) == as_map(entries).remove(entries[i].key@),
{
    let removed = entries.remove(i);
    assert(distinct_keys(removed)) by {
        assert forall|a: int, b: int|
            0 <= a < removed.len() && 0 <= b < removed.len() && a != b implies #[trigger] removed[a].key@
            != #[trigger] removed[b].key@ by {
            let a0 = if a < i { a } else { a + 1 };
            let b0 = if b < i { b } else { b + 1 };
            assert(removed[a] == entries[a0]);
            assert(removed[b] == entries[b0]);
            assert(entries[a0].key@ != entries[b0].key@);
        }
    }
    lemma_map_at(entries, i);
    assert forall|key: Seq<u8>| has_key(removed, key) <==> (has_key(entries, key) && key
        != entries[i].key@) by {
        if has_key(removed, key) {
            let a = position(removed, key);
            let a0 = if a < i { a } else { a + 1 };
            assert(removed[a] == entries[a0]);
            assert(entries[a0].key@ == key);
            assert(entries[a0].key@ != entries[i].key@);
        }
        if has_key(entries, key) && key != entries[i].key@ {
            let a0 = position(entries, key);
            let a = if a0 < i { a0 } else { a0 - 1 };
            assert(removed[a] == entries[a0]);
            assert(removed[a].key@ == key);
        }
    }
    assert forall|key: Seq<u8>| has_key(removed, key) implies #[trigger] as_map(removed)[key]
        == as_map(entries).remove(entries[i].key@)[key] by {
        let a = position(removed, key);
        let a0 = if a < i { a } else { a + 1 };
        assert(removed[a] == entries[a0]);
        lemma_map_at(removed, a);
        lemma_map_at(entries, a0);
    }
    assert(as_map(removed) =~= as_map(entries).remove(entries[i].key@));
}

/// Each entry holds no more than all of them together.
pub proof fn lemma_sum_bound(entries: Seq<Entry>, i: int)
    requires
        0 <= i < entries.len(),
    ensures
        entries[i].lamports <= sum_lamports(entries),
    decreases entries.len(),
{
    if i < entries.len() - 1 {
        lemma_sum_bound(entries.drop_last(), i);
    }
}

/// Finds the entry with this key.
pub fn find(entries: &Vec<Entry>, key: &[u8; 32]) -> (found: Option<usize>)
    ensures
        match found {
            Some(i) => i < entries@.len() && entries@[i as int].key@ == key@,
            None => !has_key(entries@, key@),
        },
{
    let mut i: usize = 0;
    while i < entries.len()
        invariant
            i <= entries@.len(),
            forall|j: int| 0 <= j < i ==> entries@[j].key@ != key@,
        decreases entries@.len() - i,
    {
        if keys_equal(&entries[i].key, key) {
            return Some(i);
        }
        i += 1;
    }
    None
}

} // verus!
