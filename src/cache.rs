use vstd::prelude::*;
use crate::time::Timestamp;

verus! {

/// The cutoff recorded for one location root.
pub struct CacheEntry {
    pub root: String,
    pub cutoff: Timestamp,
}

/// The timing cache: for each location root, the latest modification time
/// below which the location is known to be indexed. Where a root occurs twice,
/// the later entry counts.
pub struct TimingCache {
    pub entries: Vec<CacheEntry>,
}

/// The cutoff that a list of entries records for `root`.
pub open spec fn cutoff_in(s: Seq<CacheEntry>, root: Seq<char>) -> Option<Timestamp>
    decreases s.len(),
{
    if s.len() == 0 {
        None
    } else if s.last().root@ == root {
        Some(s.last().cutoff)
    } else {
        cutoff_in(s.drop_last(), root)
    }
}

impl View for TimingCache {
    type V = Map<Seq<char>, Timestamp>;

    open spec fn view(&self) -> Map<Seq<char>, Timestamp> {
        Map::new(
            |k: Seq<char>| cutoff_in(self.entries@, k) is Some,
            |k: Seq<char>| cutoff_in(self.entries@, k)->Some_0,
        )
    }
}

impl TimingCache {
    pub fn new() -> (r: TimingCache)
        ensures
            r@ == Map::<Seq<char>, Timestamp>::empty(),
    {
        let r = TimingCache { entries: Vec::new() };
        assert(r@ =~= Map::<Seq<char>, Timestamp>::empty());
        r
    }

    /// The cutoff recorded for `root`, if any.
    pub fn get(&self, root: &String) -> (r: Option<Timestamp>)
        ensures
            r == (if self@.contains_key(root@) {
                Some(self@[root@])
            } else {
                None::<Timestamp>
            }),
    {
        let ghost s = self.entries@;
        let mut j: usize = self.entries.len();
        assert(s.take(s.len() as int) =~= s);
        while j > 0
            invariant
                s == self.entries@,
                0 <= j <= s.len(),
                cutoff_in(s, root@) == cutoff_in(s.take(j as int), root@),
            decreases j,
        {
            proof {
                assert(s.take(j as int).drop_last() =~= s.take(j - 1));
            }
            if self.entries[j - 1].root == *root {
                return Some(self.entries[j - 1].cutoff);
            }
            j = j - 1;
        }
        assert(s.take(0) =~= Seq::<CacheEntry>::empty());
        None
    }

    /// A copy of the cache with `root` mapped to `cutoff`, every other root
    /// kept as it was.
    pub fn with_cutoff(&self, root: &String, cutoff: Timestamp) -> (r: TimingCache)
        ensures
            r@ == self@.insert(root@, cutoff),
    {
        let ghost s = self.entries@;
        let mut kept: Vec<CacheEntry> = Vec::new();
        let mut i: usize = 0;
        while i < self.entries.len()
            invariant
                s == self.entries@,
                0 <= i <= s.len(),
                cutoff_in(kept@, root@) is None,
                forall|k: Seq<char>|
                    k != root@ ==> #[trigger] cutoff_in(kept@, k) == cutoff_in(s.take(i as int), k),
            decreases s.len() - i,
        {
            let ghost k0 = kept@;
            proof {
                assert(s.take(i + 1).drop_last() =~= s.take(i as int));
            }
            if self.entries[i].root != *root {
                kept.push(
                    CacheEntry { root: self.entries[i].root.clone(), cutoff: self.entries[i].cutoff },
                );
                assert(kept@.drop_last() =~= k0);
            }
            assert forall|k: Seq<char>| k != root@ implies #[trigger] cutoff_in(kept@, k)
                == cutoff_in(s.take(i + 1), k) by {
                assert(s.take(i + 1).last() == s[i as int]);
                assert(cutoff_in(k0, k) == cutoff_in(s.take(i as int), k));
                if kept@.len() != k0.len() {
                    assert(kept@.last().root@ == s[i as int].root@);
                }
            }
            i = i + 1;
        }
        let ghost k1 = kept@;
        kept.push(CacheEntry { root: root.clone(), cutoff });
        assert(kept@.drop_last() =~= k1);
        assert(s.take(s.len() as int) =~= s);
        let r = TimingCache { entries: kept };
        assert forall|k: Seq<char>| k != root@ implies #[trigger] cutoff_in(r.entries@, k)
            == cutoff_in(s, k) by {
            assert(cutoff_in(k1, k) == cutoff_in(s.take(s.len() as int), k));
        }
        assert(r@ =~= self@.insert(root@, cutoff));
        r
    }

    /// A copy of the cache.
    pub fn duplicate(&self) -> (r: TimingCache)
        ensures
            r@ == self@,
    {
        let mut entries: Vec<CacheEntry> = Vec::new();
        let mut i: usize = 0;
        while i < self.entries.len()
            invariant
                0 <= i <= self.entries@.len(),
                entries@.len() == i,
                forall|k: int|
                    0 <= k < i ==> #[trigger] entries@[k].root@ == self.entries@[k].root@
                        && entries@[k].cutoff == self.entries@[k].cutoff,
            decreases self.entries@.len() - i,
        {
            entries.push(
                CacheEntry { root: self.entries[i].root.clone(), cutoff: self.entries[i].cutoff },
            );
            i = i + 1;
        }
        let r = TimingCache { entries };
        proof {
            lemma_same_cutoffs(r.entries@, self.entries@);
        }
        assert(r@ =~= self@);
        r
    }
}

proof fn lemma_same_cutoffs(a: Seq<CacheEntry>, b: Seq<CacheEntry>)
    requires
        a.len() == b.len(),
        forall|k: int|
            0 <= k < a.len() ==> #[trigger] a[k].root@ == b[k].root@ && a[k].cutoff == b[k].cutoff,
    ensures
        forall|r: Seq<char>| #[trigger] cutoff_in(a, r) == cutoff_in(b, r),
    decreases a.len(),
{
    if a.len() > 0 {
        assert(a[a.len() - 1].root@ == b[b.len() - 1].root@);
        lemma_same_cutoffs(a.drop_last(), b.drop_last());
        assert forall|r: Seq<char>| #[trigger] cutoff_in(a, r) == cutoff_in(b, r) by {
            assert(cutoff_in(a.drop_last(), r) == cutoff_in(b.drop_last(), r));
        }
    }
}

} // verus!
