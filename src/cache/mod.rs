//! The metadata cache: a bounded, least-recently-used map from file
//! identity to cached entry. A hit counts only when the cached size and
//! modification time equal a fresh stat. The host holds one lock around
//! each call, so each operation runs whole.
use vstd::prelude::*;
use crate::error::Error;
use crate::fs::{entry_from, DirEntry, FileStat};
use crate::path::{starts_with, starts_with_of};

pub mod thumbnail;

verus! {

/// The smallest capacity, whatever the memory budget.
pub const DEFAULT_CACHE_SIZE: usize = 10000;

/// Estimated bytes that one cached entry occupies.
pub const ESTIMATED_ENTRY_BYTES: usize = 104;

/// A cached entry and the instant, in host ticks, at which it was stored.
#[derive(Clone, Debug)]
pub struct CachedMetadata {
    pub entry: DirEntry,
    pub cached_at: u64,
}

/// The slots of a cache, least recently used first.
pub type Slots = Seq<(u64, CachedMetadata)>;

/// Index of the first slot from `i` on whose key is `k`, or -1.
pub open spec fn find_from(s: Slots, k: u64, i: int) -> int
    decreases s.len() - i,
{
    if i < 0 || i >= s.len() {
        -1
    } else if s[i].0 == k {
        i
    } else {
        find_from(s, k, i + 1)
    }
}

/// Index of the slot whose key is `k`, or -1.
pub open spec fn key_index(s: Slots, k: u64) -> int {
    find_from(s, k, 0)
}

/// No two slots share a key.
pub open spec fn unique_keys(s: Slots) -> bool {
    forall|i: int, j: int| 0 <= i < s.len() && 0 <= j < s.len() && i != j ==> s[i].0 != s[j].0
}

/// The slots after storing `v` under `k` with room for `cap` slots: an
/// existing slot of `k` is replaced, else the least recently used slot makes
/// room when the cache is full; the new slot is the most recent.
pub open spec fn put_spec(s: Slots, cap: nat, k: u64, v: CachedMetadata) -> Slots {
    let i = key_index(s, k);
    if i >= 0 {
        s.remove(i).push((k, v))
    } else if s.len() < cap {
        s.push((k, v))
    } else {
        s.drop_first().push((k, v))
    }
}

/// The slots after a lookup of `k`: a found slot becomes the most recent.
pub open spec fn touch_spec(s: Slots, k: u64) -> Slots {
    let i = key_index(s, k);
    if i >= 0 {
        s.remove(i).push(s[i])
    } else {
        s
    }
}

/// The slots after removing the slot of `k`, if any.
pub open spec fn remove_spec(s: Slots, k: u64) -> Slots {
    let i = key_index(s, k);
    if i >= 0 {
        s.remove(i)
    } else {
        s
    }
}

/// Whether a cached snapshot still matches a fresh stat.
pub open spec fn is_fresh(e: DirEntry, stat: FileStat) -> bool {
    e.size == stat.size && e.modified == stat.modified
}

/// Whether a lookup with `stat` is a validated hit.
pub open spec fn hit_spec(s: Slots, stat: FileStat) -> bool {
    let i = key_index(s, stat.inode);
    i >= 0 && is_fresh(s[i].1.entry, stat)
}

/// Keeps the slots whose entry does not lie under `dir`.
pub open spec fn outside_of(dir: Seq<char>) -> spec_fn((u64, CachedMetadata)) -> bool {
    |p: (u64, CachedMetadata)| !starts_with_of(p.1.entry.path@, dir)
}

/// The capacity for a memory budget of `mb` mebibytes.
pub open spec fn capacity_for(mb: usize) -> usize {
    let budget: int = if mb > usize::MAX / 1048576 {
        usize::MAX as int
    } else {
        mb * 1048576
    };
    let n = budget / ESTIMATED_ENTRY_BYTES as int;
    if n < DEFAULT_CACHE_SIZE {
        DEFAULT_CACHE_SIZE
    } else {
        n as usize
    }
}

proof fn lemma_find_from(s: Slots, k: u64, i: int)
    requires
        0 <= i <= s.len(),
    ensures
        find_from(s, k, i) == -1 <==> forall|j: int| i <= j < s.len() ==> s[j].0 != k,
        find_from(s, k, i) != -1 ==> i <= find_from(s, k, i) < s.len() && s[find_from(
            s,
            k,
            i,
        )].0 == k,
    decreases s.len() - i,
{
    if i < s.len() && s[i].0 != k {
        lemma_find_from(s, k, i + 1);
    }
}

proof fn lemma_unique_index(s: Slots, k: u64, i: int)
    requires
        unique_keys(s),
        0 <= i < s.len(),
        s[i].0 == k,
    ensures
        key_index(s, k) == i,
{
    lemma_find_from(s, k, 0);
    let j = key_index(s, k);
    if j != i {
        assert(s[j].0 == s[i].0);
    }
}

proof fn lemma_unique_after_put(s: Slots, cap: nat, k: u64, v: CachedMetadata)
    requires
        unique_keys(s),
        s.len() <= cap,
        cap >= 1,
    ensures
        unique_keys(put_spec(s, cap, k, v)),
        put_spec(s, cap, k, v).len() <= cap,
        key_index(put_spec(s, cap, k, v), k) == put_spec(s, cap, k, v).len() - 1,
        put_spec(s, cap, k, v).last() == (k, v),
{
    lemma_find_from(s, k, 0);
    let i = key_index(s, k);
    let base = if i >= 0 {
        s.remove(i)
    } else if s.len() < cap {
        s
    } else {
        s.drop_first()
    };
    assert forall|j: int| 0 <= j < base.len() implies base[j].0 != k by {
        if i >= 0 {
            if j < i {
                assert(base[j] == s[j]);
            } else {
                assert(base[j] == s[j + 1]);
            }
        } else if s.len() >= cap {
            assert(base[j] == s[j + 1]);
        }
    }
    assert(unique_keys(base)) by {
        assert forall|a: int, b: int|
            0 <= a < base.len() && 0 <= b < base.len() && a != b implies base[a].0
            != base[b].0 by {
            if i >= 0 {
                let ia = if a < i {
                    a
                } else {
                    a + 1
                };
                let ib = if b < i {
                    b
                } else {
                    b + 1
                };
                assert(base[a] == s[ia]);
                assert(base[b] == s[ib]);
            } else if s.len() >= cap {
                assert(base[a] == s[a + 1]);
                assert(base[b] == s[b + 1]);
            }
        }
    }
    let r = base.push((k, v));
    assert(r == put_spec(s, cap, k, v));
    assert(unique_keys(r)) by {
        assert forall|a: int, b: int|
            0 <= a < r.len() && 0 <= b < r.len() && a != b implies r[a].0 != r[b].0 by {
            if a < base.len() && b < base.len() {
                assert(r[a] == base[a] && r[b] == base[b]);
            } else if a < base.len() {
                assert(r[a] == base[a]);
            } else if b < base.len() {
                assert(r[b] == base[b]);
            }
        }
    }
    lemma_unique_index(r, k, r.len() - 1);
}

proof fn lemma_unique_after_remove(s: Slots, i: int)
    requires
        unique_keys(s),
        0 <= i < s.len(),
    ensures
        unique_keys(s.remove(i)),
        unique_keys(s.remove(i).push(s[i])),
{
    let base = s.remove(i);
    assert(unique_keys(base)) by {
        assert forall|a: int, b: int|
            0 <= a < base.len() && 0 <= b < base.len() && a != b implies base[a].0
            != base[b].0 by {
            let ia = if a < i {
                a
            } else {
                a + 1
            };
            let ib = if b < i {
                b
            } else {
                b + 1
            };
            assert(base[a] == s[ia]);
            assert(base[b] == s[ib]);
        }
    }
    let r = base.push(s[i]);
    assert forall|a: int, b: int| 0 <= a < r.len() && 0 <= b < r.len() && a != b implies r[a].0
        != r[b].0 by {
        if a < base.len() && b < base.len() {
            assert(r[a] == base[a] && r[b] == base[b]);
        } else if a < base.len() {
            let ia = if a < i {
                a
            } else {
                a + 1
            };
            assert(r[a] == s[ia]);
        } else if b < base.len() {
            let ib = if b < i {
                b
            } else {
                b + 1
            };
            assert(r[b] == s[ib]);
        }
    }
}

proof fn lemma_unique_after_filter(s: Slots, pred: spec_fn((u64, CachedMetadata)) -> bool)
    requires
        unique_keys(s),
    ensures
        unique_keys(s.filter(pred)),
        forall|j: int| 0 <= j < s.filter(pred).len() ==> s.contains(#[trigger] s.filter(pred)[j]),
    decreases s.len(),
{
    reveal(Seq::filter);
    if s.len() > 0 {
        let d = s.drop_last();
        assert(unique_keys(d)) by {
            assert forall|a: int, b: int|
                0 <= a < d.len() && 0 <= b < d.len() && a != b implies d[a].0 != d[b].0 by {
                assert(d[a] == s[a] && d[b] == s[b]);
            }
        }
        lemma_unique_after_filter(d, pred);
        let f = d.filter(pred);
        assert forall|j: int| 0 <= j < f.len() implies s.contains(#[trigger] f[j]) by {
            let w = choose|w: int| 0 <= w < d.len() && d[w] == f[j];
            assert(s[w] == f[j]);
        }
        if pred(s.last()) {
            let r = f.push(s.last());
            assert forall|j: int| 0 <= j < f.len() implies f[j].0 != s.last().0 by {
                let w = choose|w: int| 0 <= w < d.len() && d[w] == f[j];
                assert(s[w] == f[j]);
                assert(w != s.len() - 1);
            }
            assert forall|a: int, b: int|
                0 <= a < r.len() && 0 <= b < r.len() && a != b implies r[a].0 != r[b].0 by {
                if a < f.len() && b < f.len() {
                    assert(r[a] == f[a] && r[b] == f[b]);
                } else if a < f.len() {
                    assert(r[a] == f[a]);
                } else if b < f.len() {
                    assert(r[b] == f[b]);
                }
            }
            assert forall|j: int| 0 <= j < r.len() implies s.contains(#[trigger] r[j]) by {
                if j < f.len() {
                    assert(r[j] == f[j]);
                } else {
                    assert(s[s.len() - 1] == r[j]);
                }
            }
        }
    }
}

/// A bounded least-recently-used cache of metadata snapshots, keyed by file
/// identity.
pub struct MetadataCache {
    slots: Vec<(u64, CachedMetadata)>,
    cap: usize,
}

impl View for MetadataCache {
    type V = Slots;

    closed spec fn view(&self) -> Slots {
        self.slots@
    }
}

impl MetadataCache {
    /// The number of slots the cache holds at most.
    pub closed spec fn spec_capacity(&self) -> usize {
        self.cap
    }

    /// Keys are unique, the slots fit the capacity, and the capacity is not
    /// zero.
    pub closed spec fn wf(&self) -> bool {
        &&& unique_keys(self.slots@)
        &&& self.slots@.len() <= self.cap
        &&& self.cap >= 1
    }

    /// A cache sized for a memory budget of `capacity_mb` mebibytes.
    pub fn new(capacity_mb: usize) -> (r: MetadataCache)
        ensures
            r.wf(),
            r@ == Seq::<(u64, CachedMetadata)>::empty(),
            r.spec_capacity() == capacity_for(capacity_mb),
    {
        let budget: usize = if capacity_mb > usize::MAX / 1048576 {
            usize::MAX
        } else {
            capacity_mb * 1048576
        };
        let n = budget / ESTIMATED_ENTRY_BYTES;
        let cap = if n < DEFAULT_CACHE_SIZE {
            DEFAULT_CACHE_SIZE
        } else {
            n
        };
        MetadataCache { slots: Vec::new(), cap }
    }

    fn find(&self, inode: u64) -> (r: Option<usize>)
        requires
            self.wf(),
        ensures
            r matches Some(i) ==> i == key_index(self@, inode) && i < self@.len(),
            r is None ==> key_index(self@, inode) == -1,
    {
        let mut i: usize = 0;
        proof {
            lemma_find_from(self.slots@, inode, 0);
        }
        while i < self.slots.len()
            invariant
                i <= self.slots@.len(),
                find_from(self.slots@, inode, 0) == find_from(self.slots@, inode, i as int),
            decreases self.slots@.len() - i,
        {
            if self.slots[i].0 == inode {
                return Some(i);
            }
            i = i + 1;
        }
        None
    }

    /// The entry cached under `inode`, which becomes the most recently used.
    pub fn get(&mut self, inode: u64) -> (r: Option<DirEntry>)
        requires
            old(self).wf(),
        ensures
            final(self).wf(),
            final(self).spec_capacity() == old(self).spec_capacity(),
            final(self)@ == touch_spec(old(self)@, inode),
            key_index(old(self)@, inode) >= 0 ==> r == Some(
                old(self)@[key_index(old(self)@, inode)].1.entry,
            ),
            key_index(old(self)@, inode) < 0 ==> r is None,
    {
        match self.find(inode) {
            Some(i) => {
                proof {
                    lemma_unique_after_remove(self.slots@, i as int);
                }
                let slot = self.slots.remove(i);
                let e = slot.1.entry.duplicate();
                self.slots.push(slot);
                Some(e)
            },
            None => None,
        }
    }

    /// Stores `entry` under `inode`, stamped with `now`, as the most recently
    /// used slot; when the cache is full the least recently used slot goes.
    pub fn insert(&mut self, inode: u64, entry: DirEntry, now: u64)
        requires
            old(self).wf(),
        ensures
            final(self).wf(),
            final(self).spec_capacity() == old(self).spec_capacity(),
            final(self)@ == put_spec(
                old(self)@,
                old(self).spec_capacity() as nat,
                inode,
                CachedMetadata { entry, cached_at: now },
            ),
    {
        let ghost v = CachedMetadata { entry, cached_at: now };
        proof {
            lemma_unique_after_put(self.slots@, self.cap as nat, inode, v);
        }
        match self.find(inode) {
            Some(i) => {
                self.slots.remove(i);
            },
            None => {
                if self.slots.len() >= self.cap {
                    self.slots.remove(0);
                }
            },
        }
        self.slots.push((inode, CachedMetadata { entry, cached_at: now }));
        assert(self.slots@ =~= put_spec(old(self)@, self.cap as nat, inode, v));
    }

    /// Drops the slot of `inode`, if any.
    pub fn remove(&mut self, inode: u64)
        requires
            old(self).wf(),
        ensures
            final(self).wf(),
            final(self).spec_capacity() == old(self).spec_capacity(),
            final(self)@ == remove_spec(old(self)@, inode),
    {
        match self.find(inode) {
            Some(i) => {
                proof {
                    lemma_unique_after_remove(self.slots@, i as int);
                }
                self.slots.remove(i);
            },
            None => {},
        }
    }

    /// Looks up the entry for a fresh stat. A cached entry whose size and
    /// modification time equal the stat is returned as it is; otherwise the
    /// snapshot of `path` built from the stat is stored and returned. The
    /// second component tells whether the lookup was a hit.
    pub fn get_or_fetch(&mut self, path: &str, stat: &FileStat, now: u64) -> (r: Result<
        (DirEntry, bool),
        Error,
    >)
        requires
            old(self).wf(),
        ensures
            final(self).wf(),
            final(self).spec_capacity() == old(self).spec_capacity(),
            hit_spec(old(self)@, *stat) ==> (r matches Ok((e, hit)) && hit && e == old(
                self,
            )@[key_index(old(self)@, stat.inode)].1.entry && final(self)@ == touch_spec(
                old(self)@,
                stat.inode,
            )),
            !hit_spec(old(self)@, *stat) ==> match r {
                Ok((e, hit)) => !hit && entry_from(e, path@, *stat) && final(self)@ == put_spec(
                    touch_spec(old(self)@, stat.inode),
                    old(self).spec_capacity() as nat,
                    stat.inode,
                    CachedMetadata { entry: e, cached_at: now },
                ),
                Err(err) => err is InvalidPath && final(self)@ == touch_spec(
                    old(self)@,
                    stat.inode,
                ),
            },
    {
        let cached = self.get(stat.inode);
        match cached {
            Some(e) => {
                if e.size == stat.size && e.modified == stat.modified {
                    return Ok((e, true));
                }
            },
            None => {},
        }
        let entry = DirEntry::from_stat(path, stat)?;
        let stored = entry.duplicate();
        self.insert(stat.inode, stored, now);
        Ok((entry, false))
    }

    /// Drops the slot of the file that `stat` freshly identifies.
    pub fn invalidate(&mut self, stat: &FileStat)
        requires
            old(self).wf(),
        ensures
            final(self).wf(),
            final(self).spec_capacity() == old(self).spec_capacity(),
            final(self)@ == remove_spec(old(self)@, stat.inode),
    {
        self.remove(stat.inode)
    }

    /// Drops every slot whose entry lies at or under `dir`.
    pub fn invalidate_directory(&mut self, dir: &str)
        requires
            old(self).wf(),
        ensures
            final(self).wf(),
            final(self).spec_capacity() == old(self).spec_capacity(),
            final(self)@ == old(self)@.filter(outside_of(dir@)),
    {
        let ghost pred = outside_of(dir@);
        let ghost s0 = self.slots@;
        let mut kept: Vec<(u64, CachedMetadata)> = Vec::new();
        let rest = &self.slots;
        let mut i: usize = 0;
        let n = rest.len();
        while i < n
            invariant
                n == s0.len(),
                i <= n,
                rest@ == s0,
                pred == outside_of(dir@),
                kept@ == s0.subrange(0, i as int).filter(pred),
            decreases n - i,
        {
            let slot_path_under = starts_with(rest[i].1.entry.path.as_str(), dir);
            proof {
                reveal(Seq::filter);
                assert(s0.subrange(0, i + 1).drop_last() =~= s0.subrange(0, i as int));
                assert(s0.subrange(0, i + 1).last() == s0[i as int]);
                assert(rest@[i as int] == s0[i as int]);
                assert(slot_path_under == starts_with_of(s0[i as int].1.entry.path@, dir@));
                assert(pred(s0[i as int]) == !slot_path_under);
            }
            if !slot_path_under {
                let slot = (rest[i].0, CachedMetadata {
                    entry: rest[i].1.entry.duplicate(),
                    cached_at: rest[i].1.cached_at,
                });
                assert(slot == s0[i as int]);
                kept.push(slot);
            }
            i = i + 1;
        }
        assert(s0.subrange(0, n as int) =~= s0);
        proof {
            lemma_unique_after_filter(s0, pred);
            lemma_filter_len(s0, pred);
        }
        self.slots = kept;
    }

    /// Drops every slot.
    pub fn clear(&mut self)
        requires
            old(self).wf(),
        ensures
            final(self).wf(),
            final(self).spec_capacity() == old(self).spec_capacity(),
            final(self)@ == Seq::<(u64, CachedMetadata)>::empty(),
    {
        self.slots = Vec::new();
    }

    pub fn len(&self) -> (r: usize)
        ensures
            r == self@.len(),
    {
        self.slots.len()
    }

    pub fn is_empty(&self) -> (r: bool)
        ensures
            r == (self@.len() == 0),
    {
        self.slots.len() == 0
    }

    pub fn capacity(&self) -> (r: usize)
        ensures
            r == self.spec_capacity(),
    {
        self.cap
    }
}

proof fn lemma_filter_len(s: Slots, pred: spec_fn((u64, CachedMetadata)) -> bool)
    ensures
        s.filter(pred).len() <= s.len(),
{
    s.lemma_filter_len(pred);
}

impl Default for MetadataCache {
    fn default() -> (r: MetadataCache)
        ensures
            r.wf(),
            r@ == Seq::<(u64, CachedMetadata)>::empty(),
            r.spec_capacity() == capacity_for(128),
    {
        MetadataCache::new(128)
    }
}

/// After a lookup that stored the snapshot of a fresh stat, the next lookup
/// with the same stat is a hit, answered from the cache with no further
/// read; once the file's size or modification time differs from that stat,
/// the next lookup is a miss.
pub proof fn lemma_fetch_then_hit(
    s: Slots,
    cap: nat,
    e: DirEntry,
    path: Seq<char>,
    stat: FileStat,
    later: FileStat,
    now: u64,
)
    requires
        unique_keys(s),
        s.len() <= cap,
        cap >= 1,
        entry_from(e, path, stat),
        later.inode == stat.inode,
    ensures
        hit_spec(put_spec(s, cap, stat.inode, CachedMetadata { entry: e, cached_at: now }), stat),
        (later.size != stat.size || later.modified != stat.modified) ==> !hit_spec(
            put_spec(s, cap, stat.inode, CachedMetadata { entry: e, cached_at: now }),
            later,
        ),
{
    lemma_unique_after_put(s, cap, stat.inode, CachedMetadata { entry: e, cached_at: now });
}

} // verus!
