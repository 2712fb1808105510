use vstd::prelude::*;
use vstd::string::StringExecFns;

verus! {

/// Whether some entry of `s` carries the name `k`.
spec fn has_key<Output>(s: Seq<(String, Output)>, k: Seq<char>) -> bool {
    exists|i: int| 0 <= i < s.len() && s[i].0@ == k
}

/// The index of the entry of `s` that carries the name `k`.
spec fn index_of_key<Output>(s: Seq<(String, Output)>, k: Seq<char>) -> int {
    choose|i: int| 0 <= i < s.len() && s[i].0@ == k
}

/// Entry names are pairwise distinct.
spec fn keys_unique<Output>(s: Seq<(String, Output)>) -> bool {
    forall|i: int, j: int| 0 <= i < j < s.len() ==> s[i].0@ != s[j].0@
}

/// The mapping from names to outputs that an entry list denotes.
spec fn map_of<Output>(s: Seq<(String, Output)>) -> Map<Seq<char>, Output> {
    Map::new(|k: Seq<char>| has_key(s, k), |k: Seq<char>| s[index_of_key(s, k)].1)
}

/// An entry list and a mapping carry the same associations: names are
/// distinct, every entry is in the mapping, and every key of the mapping
/// names some entry.
pub open spec fn entries_match<Output>(
    s: Seq<(String, Output)>,
    m: Map<Seq<char>, Output>,
) -> bool {
    &&& forall|i: int, j: int| 0 <= i < j < s.len() ==> s[i].0@ != s[j].0@
    &&& forall|i: int| 0 <= i < s.len() ==> #[trigger] m.contains_key(s[i].0@)
    &&& forall|i: int| 0 <= i < s.len() ==> m[(#[trigger] s[i]).0@] == s[i].1
    &&& forall|k: Seq<char>| #[trigger] m.contains_key(k) ==> exists|i: int|
        0 <= i < s.len() && s[i].0@ == k
}

/// One tick's consolidated output: a timestamped mapping from task name to
/// the output that task produced for the tick's window. Entries are
/// unordered and names are unique; the mapping is the view `self@`.
#[derive(Clone, Debug)]
pub struct DataSet<Output> {
    /// The end of the time window the entries belong to.
    pub timestamp: u64,
    entries: Vec<(String, Output)>,
}

impl<Output> View for DataSet<Output> {
    type V = Map<Seq<char>, Output>;

    closed spec fn view(&self) -> Map<Seq<char>, Output> {
        map_of(self.entries@)
    }
}

impl<Output> DataSet<Output> {
    /// The end of the time window the entries belong to, as seen in contracts.
    pub closed spec fn spec_timestamp(&self) -> u64 {
        self.timestamp
    }

    /// Entry names are pairwise distinct, so the entry list and the view
    /// agree; constructors establish this and every method preserves it.
    pub closed spec fn wf(&self) -> bool {
        keys_unique(self.entries@)
    }

    pub fn new(timestamp: u64) -> (d: Self)
        ensures
            d.wf(),
            d.spec_timestamp() == timestamp,
            d@ == Map::<Seq<char>, Output>::empty(),
    {
        let d = DataSet { timestamp, entries: Vec::new() };
        proof {
            assert(d@ =~= Map::<Seq<char>, Output>::empty());
        }
        d
    }

    /// Adds `data` under `name`; an entry already carrying `name` is
    /// overwritten (last write wins).
    #[verifier::loop_isolation(false)]
    pub fn insert(&mut self, name: &str, data: Output)
        requires
            old(self).wf(),
        ensures
            final(self).wf(),
            final(self).spec_timestamp() == old(self).spec_timestamp(),
            final(self)@ == old(self)@.insert(name@, data),
    {
        let key = String::from_str(name);
        let ghost s0 = self.entries@;
        let n = self.entries.len();
        let mut i: usize = 0;
        while i < n
            invariant
                self.timestamp == old(self).timestamp,
                self.entries@ == s0,
                n == s0.len(),
                keys_unique(s0),
                0 <= i <= n,
                key@ == name@,
                forall|j: int| 0 <= j < i ==> s0[j].0@ != name@,
            decreases n - i,
        {
            if self.entries[i].0 == key {
                proof {
                    lemma_key_index_unique(s0, i as int, name@);
                }
                let entry = self.entries.remove(i);
                proof {
                    lemma_map_of_remove(s0, i as int);
                    assert(!has_key(s0.remove(i as int), name@)) by {
                        if has_key(s0.remove(i as int), name@) {
                            let j = index_of_key(s0.remove(i as int), name@);
                            let oj = if j < i { j } else { j + 1 };
                            assert(s0[oj].0@ == name@);
                            lemma_key_index_unique(s0, oj, name@);
                        }
                    };
                }
                self.entries.push((entry.0, data));
                proof {
                    let s2 = self.entries@;
                    assert(s2.drop_last() =~= s0.remove(i as int));
                    lemma_map_of_push(s2);
                    assert(self@ =~= old(self)@.insert(name@, data));
                }
                return;
            }
            i += 1;
        }
        proof {
            assert(!has_key(s0, name@));
        }
        self.entries.push((key, data));
        proof {
            let s2 = self.entries@;
            assert(s2.drop_last() =~= s0);
            lemma_map_of_push(s2);
            assert(self@ =~= old(self)@.insert(name@, data));
        }
    }

    /// The output recorded under `name`, if any.
    #[verifier::loop_isolation(false)]
    pub fn get(&self, name: &str) -> (r: Option<&Output>)
        requires
            self.wf(),
        ensures
            match r {
                Some(v) => self@.contains_key(name@) && *v == self@[name@],
                None => !self@.contains_key(name@),
            },
    {
        let key = String::from_str(name);
        let n = self.entries.len();
        let mut i: usize = 0;
        while i < n
            invariant
                n == self.entries@.len(),
                keys_unique(self.entries@),
                0 <= i <= n,
                key@ == name@,
                forall|j: int| 0 <= j < i ==> self.entries@[j].0@ != name@,
            decreases n - i,
        {
            if self.entries[i].0 == key {
                proof {
                    lemma_key_index_unique(self.entries@, i as int, name@);
                }
                return Some(&self.entries[i].1);
            }
            i += 1;
        }
        proof {
            assert(!has_key(self.entries@, name@));
        }
        None
    }

    /// Removes and returns the output recorded under `name`, if any.
    #[verifier::loop_isolation(false)]
    pub fn take(&mut self, name: &str) -> (r: Option<Output>)
        requires
            old(self).wf(),
        ensures
            final(self).wf(),
            final(self).spec_timestamp() == old(self).spec_timestamp(),
            match r {
                Some(v) => old(self)@.contains_key(name@) && v == old(self)@[name@]
                    && final(self)@ == old(self)@.remove(name@),
                None => !old(self)@.contains_key(name@) && final(self)@ == old(self)@,
            },
    {
        let key = String::from_str(name);
        let ghost s0 = self.entries@;
        let n = self.entries.len();
        let mut i: usize = 0;
        while i < n
            invariant
                self.timestamp == old(self).timestamp,
                self.entries@ == s0,
                n == s0.len(),
                keys_unique(s0),
                0 <= i <= n,
                key@ == name@,
                forall|j: int| 0 <= j < i ==> s0[j].0@ != name@,
            decreases n - i,
        {
            if self.entries[i].0 == key {
                proof {
                    lemma_key_index_unique(s0, i as int, name@);
                    lemma_map_of_remove(s0, i as int);
                }
                let entry = self.entries.remove(i);
                return Some(entry.1);
            }
            i += 1;
        }
        proof {
            assert(!has_key(s0, name@));
        }
        None
    }

    /// How many entries the dataset holds: one per recorded name.
    pub fn len(&self) -> (r: usize)
        requires
            self.wf(),
        ensures
            r == self@.dom().len(),
    {
        proof {
            lemma_map_of_dom_len(self.entries@);
        }
        self.entries.len()
    }

    pub fn is_empty(&self) -> (r: bool)
        requires
            self.wf(),
        ensures
            r <==> self@ == Map::<Seq<char>, Output>::empty(),
    {
        if self.entries.len() == 0 {
            proof {
                assert(self@ =~= Map::<Seq<char>, Output>::empty());
            }
            true
        } else {
            proof {
                lemma_key_index_unique(self.entries@, 0, self.entries@[0].0@);
                assert(!Map::<Seq<char>, Output>::empty().contains_key(self.entries@[0].0@));
            }
            false
        }
    }

    /// The entries as a borrowed list, in no significant order.
    pub fn iter(&self) -> (r: &Vec<(String, Output)>)
        requires
            self.wf(),
        ensures
            entries_match(r@, self@),
    {
        proof {
            lemma_entries_match(self.entries@);
        }
        &self.entries
    }

    /// The entries as an owned list, in no significant order.
    pub fn into_iter(self) -> (r: Vec<(String, Output)>)
        requires
            self.wf(),
        ensures
            entries_match(r@, self@),
    {
        proof {
            lemma_entries_match(self.entries@);
        }
        let DataSet { timestamp: _, entries } = self;
        entries
    }

    /// The underlying association list itself.
    pub fn into_inner(self) -> (r: Vec<(String, Output)>)
        requires
            self.wf(),
        ensures
            entries_match(r@, self@),
    {
        self.into_iter()
    }
}

/// The entry at a known index is the one the map returns for its name.
proof fn lemma_key_index_unique<Output>(s: Seq<(String, Output)>, i: int, k: Seq<char>)
    requires
        keys_unique(s),
        0 <= i < s.len(),
        s[i].0@ == k,
    ensures
        has_key(s, k),
        index_of_key(s, k) == i,
        map_of(s).contains_key(k),
        map_of(s)[k] == s[i].1,
{
    assert(has_key(s, k));
    let j = index_of_key(s, k);
    assert(0 <= j < s.len() && s[j].0@ == k);
    if j < i {
        assert(s[j].0@ != s[i].0@);
    } else if i < j {
        assert(s[i].0@ != s[j].0@);
    }
}

/// Removing the entry at `i` removes exactly its name from the map.
proof fn lemma_map_of_remove<Output>(s: Seq<(String, Output)>, i: int)
    requires
        keys_unique(s),
        0 <= i < s.len(),
    ensures
        keys_unique(s.remove(i)),
        map_of(s.remove(i)) == map_of(s).remove(s[i].0@),
{
    let s1 = s.remove(i);
    let k0 = s[i].0@;
    assert forall|a: int, b: int| 0 <= a < b < s1.len() implies s1[a].0@ != s1[b].0@ by {
        let oa = if a < i { a } else { a + 1 };
        let ob = if b < i { b } else { b + 1 };
        assert(s1[a] == s[oa]);
        assert(s1[b] == s[ob]);
    }
    assert forall|k: Seq<char>| has_key(s1, k) implies has_key(s, k) && k != k0 by {
        let j = index_of_key(s1, k);
        assert(0 <= j < s1.len() && s1[j].0@ == k);
        let oj = if j < i { j } else { j + 1 };
        assert(s1[j] == s[oj]);
        assert(has_key(s, k));
        lemma_key_index_unique(s, oj, k);
    }
    assert forall|k: Seq<char>| has_key(s, k) && k != k0 implies has_key(s1, k) by {
        let j = index_of_key(s, k);
        assert(0 <= j < s.len() && s[j].0@ == k);
        lemma_key_index_unique(s, j, k);
        if j < i {
            assert(s1[j] == s[j]);
        } else {
            assert(j > i);
            assert(s1[j - 1] == s[j]);
        }
        assert(has_key(s1, k));
    }
    assert forall|k: Seq<char>| #[trigger] map_of(s1).dom().contains(k) implies map_of(s1)[k]
        == map_of(s).remove(k0)[k] by {
        let j = index_of_key(s1, k);
        assert(0 <= j < s1.len() && s1[j].0@ == k);
        lemma_key_index_unique(s1, j, k);
        let oj = if j < i { j } else { j + 1 };
        assert(s1[j] == s[oj]);
        lemma_key_index_unique(s, oj, k);
    }
    assert(map_of(s1) =~= map_of(s).remove(k0));
}

/// Appending an entry with a fresh name inserts exactly that association.
proof fn lemma_map_of_push<Output>(s2: Seq<(String, Output)>)
    requires
        s2.len() > 0,
        keys_unique(s2.drop_last()),
        !has_key(s2.drop_last(), s2.last().0@),
    ensures
        keys_unique(s2),
        map_of(s2) == map_of(s2.drop_last()).insert(s2.last().0@, s2.last().1),
{
    let s = s2.drop_last();
    let kl = s2.last().0@;
    let last = s2.len() - 1;
    assert forall|a: int, b: int| 0 <= a < b < s2.len() implies s2[a].0@ != s2[b].0@ by {
        if b == last {
            assert(s2[a] == s[a]);
            if s2[a].0@ == kl {
                assert(has_key(s, kl));
            }
        } else {
            assert(s2[a] == s[a]);
            assert(s2[b] == s[b]);
        }
    }
    assert forall|k: Seq<char>| has_key(s2, k) implies has_key(s, k) || k == kl by {
        let j = index_of_key(s2, k);
        assert(0 <= j < s2.len() && s2[j].0@ == k);
        if j < last {
            assert(s2[j] == s[j]);
            assert(has_key(s, k));
        }
    }
    assert forall|k: Seq<char>| has_key(s, k) implies has_key(s2, k) by {
        let j = index_of_key(s, k);
        assert(0 <= j < s.len() && s[j].0@ == k);
        assert(s2[j] == s[j]);
        assert(has_key(s2, k));
    }
    assert(s2[last].0@ == kl);
    assert(has_key(s2, kl));
    assert forall|k: Seq<char>| #[trigger] map_of(s2).dom().contains(k) implies map_of(s2)[k]
        == map_of(s).insert(kl, s2.last().1)[k] by {
        let j = index_of_key(s2, k);
        assert(0 <= j < s2.len() && s2[j].0@ == k);
        lemma_key_index_unique(s2, j, k);
        if k != kl {
            assert(j != last);
            assert(s2[j] == s[j]);
            lemma_key_index_unique(s, j, k);
        }
    }
    assert(map_of(s2) =~= map_of(s).insert(kl, s2.last().1));
}

/// With distinct names, the map has exactly one key per entry.
proof fn lemma_map_of_dom_len<Output>(s: Seq<(String, Output)>)
    requires
        keys_unique(s),
    ensures
        map_of(s).dom().finite(),
        map_of(s).dom().len() == s.len(),
    decreases s.len(),
{
    if s.len() == 0 {
        assert(map_of(s).dom() =~= Set::<Seq<char>>::empty());
    } else {
        let s0 = s.drop_last();
        let kl = s.last().0@;
        let last = s.len() - 1;
        assert(keys_unique(s0)) by {
            assert forall|a: int, b: int| 0 <= a < b < s0.len() implies s0[a].0@ != s0[b].0@ by {
                assert(s0[a] == s[a]);
                assert(s0[b] == s[b]);
            }
        };
        lemma_map_of_dom_len(s0);
        assert(!has_key(s0, kl)) by {
            if has_key(s0, kl) {
                let j = index_of_key(s0, kl);
                assert(0 <= j < s0.len() && s0[j].0@ == kl);
                assert(s0[j] == s[j]);
                assert(s[j].0@ != s[last].0@);
            }
        };
        assert(map_of(s).dom() =~= map_of(s0).dom().insert(kl)) by {
            assert forall|k: Seq<char>| has_key(s, k) implies has_key(s0, k) || k == kl by {
                let j = index_of_key(s, k);
                assert(0 <= j < s.len() && s[j].0@ == k);
                if j < last {
                    assert(s0[j] == s[j]);
                    assert(has_key(s0, k));
                }
            }
            assert forall|k: Seq<char>| has_key(s0, k) implies has_key(s, k) by {
                let j = index_of_key(s0, k);
                assert(0 <= j < s0.len() && s0[j].0@ == k);
                assert(s[j] == s0[j]);
                assert(has_key(s, k));
            }
            assert(s[last].0@ == kl);
            assert(has_key(s, kl));
        };
        assert(!map_of(s0).dom().contains(kl));
    }
}

/// A well-formed entry list carries exactly the associations of its map.
proof fn lemma_entries_match<Output>(s: Seq<(String, Output)>)
    requires
        keys_unique(s),
    ensures
        entries_match(s, map_of(s)),
{
    assert forall|i: int| 0 <= i < s.len() implies #[trigger] map_of(s).contains_key(s[i].0@) by {
        lemma_key_index_unique(s, i, s[i].0@);
    }
    assert forall|i: int| 0 <= i < s.len() implies map_of(s)[(#[trigger] s[i]).0@] == s[i].1 by {
        lemma_key_index_unique(s, i, s[i].0@);
    }
    assert forall|k: Seq<char>| #[trigger] map_of(s).contains_key(k) implies exists|i: int|
        0 <= i < s.len() && s[i].0@ == k by {
        let j = index_of_key(s, k);
        assert(0 <= j < s.len() && s[j].0@ == k);
    }
}

} // verus!
