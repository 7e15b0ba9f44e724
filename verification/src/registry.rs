//! The keyed-wait registry: at most one pending wait slot per identifier.
//!
//! A slot is represented by a serial number that the caller attaches to its
//! completion signal. The registry itself holds only identifiers and serials;
//! the signalling object stays with the surrounding runtime. The registry's
//! mathematical content is a finite map from identifier (as a sequence of
//! characters) to the pending slot's serial.
use vstd::prelude::*;

verus! {

/// One pending wait: the identifier and the serial of its slot.
struct Entry {
    key: String,
    slot: u64,
}

/// What a caller learns from the atomic match-or-insert step: either a slot
/// was already pending (the caller is the second party and pairs with it), or
/// none was and the caller's own slot is now registered (the caller is the
/// first party and must wait).
#[derive(PartialEq, Eq, Structural, Clone, Copy, Debug)]
pub enum Decision {
    /// A slot with the given serial was pending; it has been removed and its
    /// owner is to be signalled.
    Matched { partner: u64 },
    /// No slot was pending; the caller's slot is now the pending one.
    Registered,
}

/// The decision the match-or-insert step takes on registry contents `m` for
/// identifier `k`.
pub open spec fn arrival_decision(m: Map<Seq<char>, u64>, k: Seq<char>) -> Decision {
    if m.contains_key(k) {
        Decision::Matched { partner: m[k] }
    } else {
        Decision::Registered
    }
}

/// The registry contents after the match-or-insert step on `m` for
/// identifier `k`, where `s` is the arriving caller's own slot serial.
pub open spec fn registry_after_arrival(m: Map<Seq<char>, u64>, k: Seq<char>, s: u64) -> Map<
    Seq<char>,
    u64,
> {
    if m.contains_key(k) {
        m.remove(k)
    } else {
        m.insert(k, s)
    }
}

/// The registry contents after the timeout-cleanup step on `m` for
/// identifier `k` by the waiter owning slot `s`: the entry leaves only if it
/// still is that waiter's own slot.
pub open spec fn registry_after_timeout(m: Map<Seq<char>, u64>, k: Seq<char>, s: u64) -> Map<
    Seq<char>,
    u64,
> {
    if m.contains_key(k) && m[k] == s {
        m.remove(k)
    } else {
        m
    }
}

spec fn distinct_keys(s: Seq<Entry>) -> bool {
    forall|i: int, j: int| 0 <= i < j < s.len() ==> s[i].key@ != s[j].key@
}

spec fn entries_map(s: Seq<Entry>) -> Map<Seq<char>, u64>
    decreases s.len(),
{
    if s.len() == 0 {
        Map::empty()
    } else {
        entries_map(s.drop_last()).insert(s.last().key@, s.last().slot)
    }
}

proof fn lemma_entries_map_contains(s: Seq<Entry>, k: Seq<char>)
    ensures
        entries_map(s).contains_key(k) <==> exists|i: int| 0 <= i < s.len() && s[i].key@ == k,
    decreases s.len(),
{
    if s.len() > 0 {
        lemma_entries_map_contains(s.drop_last(), k);
        if entries_map(s).contains_key(k) {
            if s.last().key@ != k {
                let i = choose|i: int| 0 <= i < s.drop_last().len() && s.drop_last()[i].key@ == k;
                assert(s[i].key@ == k);
            } else {
                assert(s[s.len() - 1].key@ == k);
            }
        }
        if exists|i: int| 0 <= i < s.len() && s[i].key@ == k {
            let i = choose|i: int| 0 <= i < s.len() && s[i].key@ == k;
            if i < s.len() - 1 {
                assert(s.drop_last()[i].key@ == k);
            }
        }
    }
}

proof fn lemma_entries_map_lookup(s: Seq<Entry>, i: int)
    requires
        distinct_keys(s),
        0 <= i < s.len(),
    ensures
        entries_map(s).contains_key(s[i].key@),
        entries_map(s)[s[i].key@] == s[i].slot,
    decreases s.len(),
{
    if i == s.len() - 1 {
    } else {
        assert(distinct_keys(s.drop_last()));
        assert(s.drop_last()[i] == s[i]);
        lemma_entries_map_lookup(s.drop_last(), i);
        assert(s[i].key@ != s.last().key@);
    }
}

proof fn lemma_entries_map_remove(s: Seq<Entry>, i: int)
    requires
        distinct_keys(s),
        0 <= i < s.len(),
    ensures
        entries_map(s.remove(i)) == entries_map(s).remove(s[i].key@),
    decreases s.len(),
{
    let k = s[i].key@;
    if i == s.len() - 1 {
        assert(s.remove(i) =~= s.drop_last());
        lemma_entries_map_contains(s.drop_last(), k);
        assert(forall|j: int|
            0 <= j < s.drop_last().len() ==> s.drop_last()[j].key@ != k) by {
            assert(forall|j: int| 0 <= j < s.len() - 1 ==> s[j].key@ != k);
        }
        assert(entries_map(s.drop_last()).insert(k, s[i].slot).remove(k) =~= entries_map(
            s.drop_last(),
        ));
    } else {
        let t = s.remove(i);
        assert(t.last() == s.last());
        assert(t.drop_last() =~= s.drop_last().remove(i));
        assert(distinct_keys(s.drop_last()));
        assert(s.drop_last()[i] == s[i]);
        lemma_entries_map_remove(s.drop_last(), i);
        assert(s[i].key@ != s.last().key@);
        assert(entries_map(s.drop_last()).remove(k).insert(s.last().key@, s.last().slot)
            =~= entries_map(s.drop_last()).insert(s.last().key@, s.last().slot).remove(k));
    }
}

proof fn lemma_distinct_keys_remove(s: Seq<Entry>, i: int)
    requires
        distinct_keys(s),
        0 <= i < s.len(),
    ensures
        distinct_keys(s.remove(i)),
{
    assert(forall|p: int|
        0 <= p < s.remove(i).len() ==> s.remove(i)[p] == (if p < i {
            s[p]
        } else {
            s[p + 1]
        }));
}

/// The registry. Its invariant — never two slots for one identifier — is the
/// distinctness of the stored keys; its view is the identifier-to-serial map.
pub struct Registry {
    entries: Vec<Entry>,
}

impl Registry {
    /// The registry's contents as a finite map.
    pub closed spec fn view(&self) -> Map<Seq<char>, u64> {
        entries_map(self.entries@)
    }

    /// Well-formedness: the registry never holds two slots for the same
    /// identifier. Established by `new` and preserved by every operation.
    pub closed spec fn wf(&self) -> bool {
        distinct_keys(self.entries@)
    }

    /// A registry starts empty.
    pub fn new() -> (r: Registry)
        ensures
            r.wf(),
            r@ == Map::<Seq<char>, u64>::empty(),
    {
        Registry { entries: Vec::new() }
    }

    /// Whether a slot is pending for `key`.
    pub fn contains(&self, key: &String) -> (r: bool)
        requires
            self.wf(),
        ensures
            r == self@.contains_key(key@),
    {
        proof {
            lemma_entries_map_contains(self.entries@, key@);
        }
        let n = self.entries.len();
        let mut i: usize = 0;
        while i < n
            invariant
                n == self.entries.len(),
                i <= n,
                forall|j: int| 0 <= j < i ==> self.entries@[j].key@ != key@,
                self@.contains_key(key@) <==> exists|j: int|
                    0 <= j < n && self.entries@[j].key@ == key@,
            decreases n - i,
        {
            if self.entries[i].key == *key {
                return true;
            }
            i += 1;
        }
        false
    }

    /// The atomic match-or-insert step. Under exclusion on the registry: if a
    /// slot is pending for `key`, remove it and report its serial, so that the
    /// caller — the second party — signals its owner and returns at once; if
    /// none is, register the caller's own slot `slot` as the pending one, and
    /// the caller — the first party — goes on to wait.
    pub fn match_or_insert(&mut self, key: String, slot: u64) -> (d: Decision)
        requires
            old(self).wf(),
        ensures
            final(self).wf(),
            d == arrival_decision(old(self)@, key@),
            final(self)@ == registry_after_arrival(old(self)@, key@, slot),
    {
        proof {
            lemma_entries_map_contains(self.entries@, key@);
        }
        let n = self.entries.len();
        let mut i: usize = 0;
        while i < n
            invariant
                n == self.entries.len(),
                i <= n,
                self == old(self),
                distinct_keys(self.entries@),
                forall|j: int| 0 <= j < i ==> self.entries@[j].key@ != key@,
                self@.contains_key(key@) <==> exists|j: int|
                    0 <= j < n && self.entries@[j].key@ == key@,
            decreases n - i,
        {
            if self.entries[i].key == key {
                proof {
                    lemma_entries_map_lookup(self.entries@, i as int);
                    lemma_entries_map_remove(self.entries@, i as int);
                    lemma_distinct_keys_remove(self.entries@, i as int);
                }
                let e = self.entries.remove(i);
                return Decision::Matched { partner: e.slot };
            }
            i += 1;
        }
        let ghost s0 = self.entries@;
        self.entries.push(Entry { key, slot });
        proof {
            assert(self.entries@.drop_last() =~= s0);
            assert(forall|p: int, q: int|
                0 <= p < q < self.entries@.len() ==> self.entries@[p].key@
                    != self.entries@[q].key@) by {
                assert(forall|p: int| 0 <= p < s0.len() ==> self.entries@[p] == s0[p]);
                assert(forall|p: int| 0 <= p < s0.len() ==> s0[p].key@ != self.entries@.last().key@);
            }
        }
        Decision::Registered
    }

    /// The timeout-cleanup step. Under exclusion on the registry: remove the
    /// entry for `key` only if it still refers to the caller's own slot
    /// `slot` — a matcher may already have removed it and a fresh arrival may
    /// already have registered a newer slot, which must be left alone.
    /// Reports whether an entry was removed.
    pub fn remove_if_same(&mut self, key: &String, slot: u64) -> (removed: bool)
        requires
            old(self).wf(),
        ensures
            final(self).wf(),
            removed == (old(self)@.contains_key(key@) && old(self)@[key@] == slot),
            final(self)@ == registry_after_timeout(old(self)@, key@, slot),
    {
        proof {
            lemma_entries_map_contains(self.entries@, key@);
        }
        let n = self.entries.len();
        let mut i: usize = 0;
        while i < n
            invariant
                n == self.entries.len(),
                i <= n,
                self == old(self),
                distinct_keys(self.entries@),
                forall|j: int| 0 <= j < i ==> self.entries@[j].key@ != key@,
                self@.contains_key(key@) <==> exists|j: int|
                    0 <= j < n && self.entries@[j].key@ == key@,
            decreases n - i,
        {
            if self.entries[i].key == *key {
                proof {
                    lemma_entries_map_lookup(self.entries@, i as int);
                }
                if self.entries[i].slot == slot {
                    proof {
                        lemma_entries_map_remove(self.entries@, i as int);
                        lemma_distinct_keys_remove(self.entries@, i as int);
                    }
                    let _ = self.entries.remove(i);
                    return true;
                } else {
                    return false;
                }
            }
            i += 1;
        }
        false
    }
}

} // verus!
