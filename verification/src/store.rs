//! A key-value store of byte strings.
use vstd::prelude::*;
use crate::bytes::{bytes_eq, copy_bytes};

verus! {

/// One stored entry.
#[derive(Debug, PartialEq, Eq)]
pub struct Entry {
    pub key: Vec<u8>,
    pub value: Vec<u8>,
}

/// The mapping that a list of entries stands for: an entry overrides every
/// entry before it that has the same key.
pub open spec fn entries_map(entries: Seq<Entry>) -> Map<Seq<u8>, Seq<u8>>
    decreases entries.len(),
{
    if entries.len() == 0 {
        Map::empty()
    } else {
        entries_map(entries.drop_last()).insert(entries.last().key@, entries.last().value@)
    }
}

/// A key-value store held in memory.
pub struct Store {
    entries: Vec<Entry>,
}

impl View for Store {
    type V = Map<Seq<u8>, Seq<u8>>;

    closed spec fn view(&self) -> Map<Seq<u8>, Seq<u8>> {
        entries_map(self.entries@)
    }
}

proof fn lemma_entries_map_absent(entries: Seq<Entry>, key: Seq<u8>)
    requires
        forall|i: int| 0 <= i < entries.len() ==> entries[i].key@ != key,
    ensures
        !entries_map(entries).contains_key(key),
    decreases entries.len(),
{
    if entries.len() > 0 {
        lemma_entries_map_absent(entries.drop_last(), key);
    }
}

/// A key that the mapping of a list has is the key of one of the entries.
pub proof fn lemma_entries_map_key(entries: Seq<Entry>, key: Seq<u8>)
    requires
        entries_map(entries).contains_key(key),
    ensures
        exists|i: int| 0 <= i < entries.len() && (#[trigger] entries[i]).key@ == key,
{
    if forall|i: int| 0 <= i < entries.len() ==> (#[trigger] entries[i]).key@ != key {
        lemma_entries_map_absent(entries, key);
    }
}

proof fn lemma_entries_map_push(entries: Seq<Entry>, entry: Entry)
    ensures
        entries_map(entries.push(entry)) == entries_map(entries).insert(entry.key@, entry.value@),
{
    assert(entries.push(entry).drop_last() =~= entries);
}

impl Store {
    /// An empty store.
    pub fn new() -> (store: Store)
        ensures
            store@ == Map::<Seq<u8>, Seq<u8>>::empty(),
    {
        Store { entries: Vec::new() }
    }

    /// Fetches the value stored under `key`.
    pub fn get(&self, key: &[u8]) -> (value: Option<Vec<u8>>)
        ensures
            value is Some <==> self@.contains_key(key@),
            value matches Some(v) ==> v@ == self@[key@],
    {
        let mut i: usize = self.entries.len();
        proof {
            assert(self.entries@.take(i as int) =~= self.entries@);
        }
        while i > 0
            invariant
                i <= self.entries.len(),
                entries_map(self.entries@).contains_key(key@) <==> entries_map(
                    self.entries@.take(i as int),
                ).contains_key(key@),
                entries_map(self.entries@).contains_key(key@) ==> entries_map(self.entries@)[key@]
                    == entries_map(self.entries@.take(i as int))[key@],
            decreases i,
        {
            proof {
                assert(self.entries@.take(i as int).drop_last() =~= self.entries@.take(i - 1));
            }
            i -= 1;
            if bytes_eq(self.entries[i].key.as_slice(), key) {
                return Some(copy_bytes(self.entries[i].value.as_slice()));
            }
        }
        proof {
            assert(self.entries@.take(0) =~= Seq::<Entry>::empty());
        }
        None
    }

    /// Removes `key` and what is stored under it.
    pub fn remove(&mut self, key: &[u8])
        ensures
            final(self)@ == old(self)@.remove(key@),
    {
        let mut kept: Vec<Entry> = Vec::new();
        let mut rest: Vec<Entry> = Vec::new();
        std::mem::swap(&mut self.entries, &mut rest);
        let ghost all = rest@;
        let n: usize = rest.len();
        let mut i: usize = 0;
        // Entries are moved out from the back, so `kept` holds them reversed.
        while i < n
            invariant
                i <= n,
                n == all.len(),
                rest@ == all.take(n - i),
                forall|j: int| 0 <= j < kept.len() ==> kept@[j].key@ != key@,
                entries_map(all).remove(key@) == entries_map(rest@).remove(key@).union_prefer_right(
                    entries_map(kept@.reverse()),
                ),
            decreases n - i,
        {
            let ghost before_rest = rest@;
            let ghost before_kept = kept@;
            let entry = rest.pop().unwrap();
            proof {
                assert(rest@ =~= all.take(n - i - 1));
                assert(before_rest.drop_last() =~= rest@);
                assert(before_rest.last() == entry);
            }
            if !bytes_eq(entry.key.as_slice(), key) {
                kept.push(entry);
                proof {
                    assert(kept@.reverse().drop_first() =~= before_kept.reverse());
                    lemma_entries_map_prepend(before_kept.reverse(), entry);
                    assert(kept@.reverse() =~= seq![entry] + before_kept.reverse());
                    lemma_entries_map_absent(kept@.reverse(), key@);
                    assert(entries_map(before_rest).remove(key@).union_prefer_right(
                        entries_map(before_kept.reverse()),
                    ) =~= entries_map(rest@).remove(key@).union_prefer_right(
                        entries_map(kept@.reverse()),
                    ));
                }
            } else {
                proof {
                    assert(entries_map(before_rest).remove(key@) =~= entries_map(rest@).remove(
                        key@,
                    ));
                }
            }
            i += 1;
        }
        proof {
            assert(rest@ =~= Seq::<Entry>::empty());
            lemma_entries_map_absent(kept@.reverse(), key@);
            assert(entries_map(all).remove(key@) =~= entries_map(kept@.reverse()));
        }
        // Put the kept entries back in their first order.
        let mut ordered: Vec<Entry> = Vec::new();
        let ghost stack = kept@;
        let m: usize = kept.len();
        let mut j: usize = 0;
        while j < m
            invariant
                j <= m,
                m == stack.len(),
                kept@ == stack.take(m - j),
                ordered@ == stack.reverse().take(j as int),
            decreases m - j,
        {
            let entry = kept.pop().unwrap();
            ordered.push(entry);
            j += 1;
            proof {
                assert(kept@ =~= stack.take(m - j));
                assert(ordered@ =~= stack.reverse().take(j as int));
            }
        }
        proof {
            assert(ordered@ =~= stack.reverse());
        }
        self.entries = ordered;
    }

    /// Stores `value` under `key`, in place of what was stored there.
    pub fn insert(&mut self, key: &[u8], value: &[u8])
        ensures
            final(self)@ == old(self)@.insert(key@, value@),
    {
        self.remove(key);
        let entry = Entry { key: copy_bytes(key), value: copy_bytes(value) };
        proof {
            lemma_entries_map_push(self.entries@, entry);
            assert(old(self)@.remove(key@).insert(key@, value@) =~= old(self)@.insert(
                key@,
                value@,
            ));
        }
        self.entries.push(entry);
    }

    /// The entries of the store, in an order in which setting them one
    /// after the other gives the store.
    pub fn entries(&self) -> (entries: Vec<Entry>)
        ensures
            entries_map(entries@) == self@,
    {
        self.duplicate().entries
    }

    /// A store with the same contents.
    pub fn duplicate(&self) -> (copy: Store)
        ensures
            copy@ == self@,
    {
        let mut entries: Vec<Entry> = Vec::new();
        let mut i: usize = 0;
        while i < self.entries.len()
            invariant
                i <= self.entries.len(),
                entries_map(entries@) == entries_map(self.entries@.take(i as int)),
            decreases self.entries.len() - i,
        {
            let entry = Entry {
                key: copy_bytes(self.entries[i].key.as_slice()),
                value: copy_bytes(self.entries[i].value.as_slice()),
            };
            proof {
                lemma_entries_map_push(entries@, entry);
                assert(self.entries@.take(i + 1).drop_last() =~= self.entries@.take(i as int));
            }
            entries.push(entry);
            i += 1;
        }
        proof {
            assert(self.entries@.take(self.entries.len() as int) =~= self.entries@);
        }
        Store { entries }
    }
}

proof fn lemma_entries_map_prepend(entries: Seq<Entry>, entry: Entry)
    ensures
        entries_map(seq![entry] + entries) == Map::<Seq<u8>, Seq<u8>>::empty().insert(
            entry.key@,
            entry.value@,
        ).union_prefer_right(entries_map(entries)),
    decreases entries.len(),
{
    let all = seq![entry] + entries;
    if entries.len() == 0 {
        assert(all.drop_last() =~= Seq::<Entry>::empty());
        assert(all.last() == entry);
        assert(entries_map(all.drop_last()) =~= Map::<Seq<u8>, Seq<u8>>::empty());
        assert(entries_map(all) =~= Map::<Seq<u8>, Seq<u8>>::empty().insert(
            entry.key@,
            entry.value@,
        ).union_prefer_right(entries_map(entries)));
    } else {
        assert(all.drop_last() =~= seq![entry] + entries.drop_last());
        lemma_entries_map_prepend(entries.drop_last(), entry);
        assert(entries_map(all) =~= Map::<Seq<u8>, Seq<u8>>::empty().insert(
            entry.key@,
            entry.value@,
        ).union_prefer_right(entries_map(entries)));
    }
}

} // verus!
