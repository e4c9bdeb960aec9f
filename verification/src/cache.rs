//! Expander cache: maps an artifact identity (path + modification time) to
//! the handle of a loaded transformer plugin.
//!
//! A rebuild of an artifact changes its modification time, which is a new
//! identity, which is a new cache key: stale entries are never mutated or
//! evicted, a fresh load simply registers a fresh handle under the new key.
use vstd::prelude::*;

verus! {

/// Identity of an on-disk plugin artifact: its path together with the
/// modification time observed when the path was resolved, as nanoseconds.
/// Two identities are equal iff both fields match exactly.
pub struct ArtifactId {
    pub path: String,
    pub mtime: u128,
}

/// A cache key at the specification level: the path's character sequence
/// and the modification time.
pub type CacheKey = (Seq<char>, u128);

/// First-match lookup of a key in a sequence of (key, handle) entries.
/// Under `ExpanderCache::wf` the keys are pairwise distinct, so the first
/// match is the only one.
pub open spec fn spec_lookup(s: Seq<(CacheKey, u64)>, k: CacheKey) -> Option<u64>
    decreases s.len(),
{
    if s.len() == 0 {
        None
    } else if s[0].0 == k {
        Some(s[0].1)
    } else {
        spec_lookup(s.drop_first(), k)
    }
}

/// `spec_lookup` misses exactly when no entry carries the key.
pub proof fn lemma_lookup_none(s: Seq<(CacheKey, u64)>, k: CacheKey)
    ensures
        spec_lookup(s, k) is None <==> (forall|i: int| 0 <= i < s.len() ==> s[i].0 != k),
    decreases s.len(),
{
    if s.len() > 0 {
        lemma_lookup_none(s.drop_first(), k);
        if spec_lookup(s, k) is None {
            assert forall|i: int| 0 <= i < s.len() implies #[trigger] s[i].0 != k by {
                if i > 0 {
                    assert(s.drop_first()[i - 1] == s[i]);
                }
            }
        }
        if forall|i: int| 0 <= i < s.len() ==> #[trigger] s[i].0 != k {
            assert forall|i: int| 0 <= i < s.drop_first().len() implies #[trigger] s.drop_first()[i].0 != k by {
                assert(s.drop_first()[i] == s[i + 1]);
            }
        }
    }
}

/// A hit names a handle that some entry with the key carries.
pub proof fn lemma_lookup_some(s: Seq<(CacheKey, u64)>, k: CacheKey, h: u64)
    requires
        spec_lookup(s, k) == Some(h),
    ensures
        exists|i: int| 0 <= i < s.len() && s[i].0 == k && s[i].1 == h,
    decreases s.len(),
{
    if s.len() > 0 && s[0].0 != k {
        lemma_lookup_some(s.drop_first(), k, h);
        let i = choose|i: int|
            0 <= i < s.drop_first().len() && s.drop_first()[i].0 == k && s.drop_first()[i].1 == h;
        assert(s[i + 1] == s.drop_first()[i]);
    }
}

/// Cache identity: registering a handle under a key that was absent makes
/// every later lookup of that unchanged key yield exactly that handle, so
/// the artifact is loaded once and then reused.
pub proof fn lemma_lookup_after_register(s: Seq<(CacheKey, u64)>, k: CacheKey, h: u64)
    requires
        spec_lookup(s, k) is None,
    ensures
        spec_lookup(s.push((k, h)), k) == Some(h),
    decreases s.len(),
{
    if s.len() == 0 {
        assert(s.push((k, h))[0] == (k, h));
    } else {
        lemma_lookup_after_register(s.drop_first(), k, h);
        assert(s.push((k, h)).drop_first() =~= s.drop_first().push((k, h)));
    }
}

/// Cache invalidation on rebuild, seen from the other side: registering an
/// entry under one identity leaves the lookup of every distinct identity
/// (for example the same path with a changed modification time) untouched.
pub proof fn lemma_register_frame(s: Seq<(CacheKey, u64)>, k: CacheKey, h: u64, k2: CacheKey)
    requires
        k2 != k,
    ensures
        spec_lookup(s.push((k, h)), k2) == spec_lookup(s, k2),
    decreases s.len(),
{
    if s.len() == 0 {
        assert(s.push((k, h))[0] == (k, h));
        assert(s.push((k, h)).drop_first() =~= Seq::<(CacheKey, u64)>::empty());
        assert(spec_lookup(Seq::<(CacheKey, u64)>::empty(), k2) is None);
        assert(spec_lookup(s.push((k, h)), k2) is None);
    } else {
        lemma_register_frame(s.drop_first(), k, h, k2);
        assert(s.push((k, h))[0] == s[0]);
        assert(s.push((k, h)).drop_first() =~= s.drop_first().push((k, h)));
        if s[0].0 == k2 {
            assert(spec_lookup(s.push((k, h)), k2) == Some(s[0].1));
        } else {
            assert(spec_lookup(s.push((k, h)), k2) == spec_lookup(
                s.drop_first().push((k, h)),
                k2,
            ));
        }
    }
}

/// Cache invalidation on rebuild: a changed modification time is a new
/// identity, so registering a handle for the rebuilt artifact neither
/// finds nor disturbs the entry of the old one — the old entry stays and
/// the new identity resolves on its own.
pub proof fn lemma_rebuild_is_new_identity(
    s: Seq<(CacheKey, u64)>,
    p: Seq<char>,
    t1: u128,
    t2: u128,
    h: u64,
)
    requires
        t1 != t2,
    ensures
        spec_lookup(s.push(((p, t1), h)), (p, t2)) == spec_lookup(s, (p, t2)),
{
    lemma_register_frame(s, (p, t1), h, (p, t2));
}

/// Maps an artifact identity to the handle of the plugin loaded from it.
/// Guarantees at most one handle per distinct identity; entries are only
/// ever added, never removed or overwritten.
pub struct ExpanderCache {
    entries: Vec<(ArtifactId, u64)>,
    next_handle: u64,
}

impl View for ExpanderCache {
    type V = Seq<(CacheKey, u64)>;

    closed spec fn view(&self) -> Seq<(CacheKey, u64)> {
        self.entries@.map_values(|e: (ArtifactId, u64)| ((e.0.path@, e.0.mtime), e.1))
    }
}

impl ExpanderCache {
    /// Well-formedness: identities are pairwise distinct (at most one handle
    /// per identity), handles are pairwise distinct, and every handle is
    /// below the fresh-handle counter.
    pub closed spec fn wf(self) -> bool {
        &&& forall|i: int, j: int| 0 <= i < j < self@.len() ==> #[trigger] self@[i].0 != #[trigger] self@[j].0
        &&& forall|i: int, j: int| 0 <= i < j < self@.len() ==> #[trigger] self@[i].1 != #[trigger] self@[j].1
        &&& forall|i: int| 0 <= i < self@.len() ==> #[trigger] self@[i].1 < self.next_handle
    }

    /// The fresh-handle counter has not reached its machine limit.
    pub closed spec fn can_register(self) -> bool {
        self.next_handle < u64::MAX
    }

    pub fn new() -> (c: Self)
        ensures
            c.wf(),
            c@ == Seq::<(CacheKey, u64)>::empty(),
            c.can_register(),
    {
        ExpanderCache { entries: Vec::new(), next_handle: 0 }
    }

    /// Whether another handle can still be registered (a machine limit on
    /// the handle counter, never reached in practice).
    pub fn has_capacity(&self) -> (r: bool)
        ensures
            r == self.can_register(),
    {
        self.next_handle < u64::MAX
    }

    /// Looks the identity up without touching the cache: a hit returns the
    /// handle registered for exactly this (path, modification time) pair,
    /// a miss reports that a fresh load is needed. No entry is ever added,
    /// removed or changed by a lookup.
    pub fn lookup(&self, path: &String, mtime: u128) -> (r: Option<u64>)
        ensures
            r == spec_lookup(self@, (path@, mtime)),
    {
        let ghost k: CacheKey = (path@, mtime);
        proof {
            assert(self@.skip(0) =~= self@);
        }
        let n = self.entries.len();
        let mut i: usize = 0;
        while i < n
            invariant
                n == self.entries.len(),
                i <= n,
                self@.len() == n,
                spec_lookup(self@, k) == spec_lookup(self@.skip(i as int), k),
                k == (path@, mtime),
            decreases n - i,
        {
            let e = &self.entries[i];
            proof {
                assert(self@.skip(i as int)[0] == self@[i as int]);
            }
            if e.0.path == *path && e.0.mtime == mtime {
                return Some(e.1);
            }
            proof {
                assert(self@.skip(i as int).drop_first() =~= self@.skip(i as int + 1));
            }
            i = i + 1;
        }
        None
    }

    /// The cache invariant, stated for readers outside this module: a
    /// well-formed cache holds at most one handle per distinct artifact
    /// identity — no two entries share a key, and no two share a handle.
    pub proof fn lemma_at_most_one_handle_per_identity(&self, i: int, j: int)
        requires
            self.wf(),
            0 <= i < j < self@.len(),
        ensures
            self@[i].0 != self@[j].0,
            self@[i].1 != self@[j].1,
    {
    }

    /// Registers the handle of a freshly loaded plugin under an identity
    /// that has no entry yet. The handle is new (distinct from every handle
    /// already in the cache) and the cache grows by exactly this one entry;
    /// all other identities resolve as before.
    pub fn register(&mut self, path: &String, mtime: u128) -> (h: u64)
        requires
            old(self).wf(),
            spec_lookup(old(self)@, (path@, mtime)) is None,
            old(self).can_register(),
        ensures
            final(self).wf(),
            final(self)@ == old(self)@.push(((path@, mtime), h)),
            forall|i: int| 0 <= i < old(self)@.len() ==> #[trigger] old(self)@[i].1 != h,
            spec_lookup(final(self)@, (path@, mtime)) == Some(h),
    {
        let ghost k: CacheKey = (path@, mtime);
        let h = self.next_handle;
        let id = ArtifactId { path: path.clone(), mtime };
        self.entries.push((id, h));
        self.next_handle = self.next_handle + 1;
        proof {
            assert(self@ =~= old(self)@.push((k, h)));
            lemma_lookup_none(old(self)@, k);
            lemma_lookup_after_register(old(self)@, k, h);
            assert forall|i: int, j: int| 0 <= i < j < self@.len() implies #[trigger] self@[i].0
                != #[trigger] self@[j].0 by {
                if j == self@.len() - 1 {
                    assert(self@[i] == old(self)@[i]);
                }
            }
        }
        h
    }
}

} // verus!
