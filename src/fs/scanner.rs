//! The directory scanner: filters the entries that the host lists, groups
//! them into batches of a fixed size and marks exactly one batch, the last,
//! complete. A recursive scan walks the tree depth first from an explicit
//! worklist, bounded by a maximum depth.
use vstd::prelude::*;
use crate::fs::{is_hidden_name, DirEntry};

verus! {

/// Entries per batch.
pub const BATCH_SIZE: usize = 100;

/// One batch of a scan.
#[derive(Clone, Debug)]
pub struct ScanResult {
    pub entries: Vec<DirEntry>,
    pub total_count: usize,
    pub is_complete: bool,
}

/// Options of a scan.
pub struct Scanner {
    follow_symlinks: bool,
    max_depth: usize,
    show_hidden: bool,
}

impl Scanner {
    pub closed spec fn spec_follow_symlinks(&self) -> bool {
        self.follow_symlinks
    }

    pub closed spec fn spec_max_depth(&self) -> usize {
        self.max_depth
    }

    pub closed spec fn spec_show_hidden(&self) -> bool {
        self.show_hidden
    }

    pub fn new(follow_symlinks: bool, max_depth: usize, show_hidden: bool) -> (r: Scanner)
        ensures
            r.spec_follow_symlinks() == follow_symlinks,
            r.spec_max_depth() == max_depth,
            r.spec_show_hidden() == show_hidden,
    {
        Scanner { follow_symlinks, max_depth, show_hidden }
    }

    /// Whether symbolic links at the root are resolved before listing.
    pub fn follow_symlinks(&self) -> (r: bool)
        ensures
            r == self.spec_follow_symlinks(),
    {
        self.follow_symlinks
    }

    /// The depth bound of a recursive scan; it also bounds the hops through
    /// a chain of symbolic links.
    pub fn max_depth(&self) -> (r: usize)
        ensures
            r == self.spec_max_depth(),
    {
        self.max_depth
    }

    pub fn show_hidden(&self) -> (r: bool)
        ensures
            r == self.spec_show_hidden(),
    {
        self.show_hidden
    }

    /// Whether a recursive scan with these options descends into `e`: a
    /// directory that is not a symbolic link and that the scan keeps.
    pub fn descends_into(&self, e: &DirEntry) -> (r: bool)
        ensures
            r == (e.is_dir && !e.is_symlink && (self.spec_show_hidden() || !is_hidden_name(
                e.name@,
            ))),
    {
        is_descendable(e) && (self.show_hidden || !e.is_hidden())
    }

    /// A batcher for one scan with these options; a shallow scan reports
    /// running totals.
    pub fn batcher(&self, recursive: bool) -> (r: ScanBatcher)
        ensures
            r.wf(),
            r.spec_show_hidden() == self.spec_show_hidden(),
            r.spec_with_totals() == !recursive,
            r.offered() == Seq::<DirEntry>::empty(),
            r.emitted() == Seq::<DirEntry>::empty(),
            !r.is_done(),
    {
        ScanBatcher::new(self.show_hidden, !recursive)
    }
}

impl Default for Scanner {
    fn default() -> (r: Scanner)
        ensures
            r.spec_follow_symlinks(),
            r.spec_max_depth() == 32,
            !r.spec_show_hidden(),
    {
        Scanner::new(true, 32, false)
    }
}

/// Whether an entry is kept by a scan.
pub open spec fn visible(show_hidden: bool) -> spec_fn(DirEntry) -> bool {
    |e: DirEntry| show_hidden || !is_hidden_name(e.name@)
}

/// The entries that a scan keeps, in listing order.
pub open spec fn visible_entries(offered: Seq<DirEntry>, show_hidden: bool) -> Seq<DirEntry> {
    offered.filter(visible(show_hidden))
}

/// `n`, held at the largest `usize`.
pub open spec fn clamp_count(n: nat) -> usize {
    if n > usize::MAX {
        usize::MAX
    } else {
        n as usize
    }
}

/// Groups the entries of one scan into batches.
pub struct ScanBatcher {
    pending: Vec<DirEntry>,
    count: usize,
    show_hidden: bool,
    with_totals: bool,
    done: bool,
    offered: Ghost<Seq<DirEntry>>,
    emitted: Ghost<Seq<DirEntry>>,
}

impl ScanBatcher {
    /// Every entry offered so far, in order.
    pub closed spec fn offered(&self) -> Seq<DirEntry> {
        self.offered@
    }

    /// The entries of every batch handed out so far, in order.
    pub closed spec fn emitted(&self) -> Seq<DirEntry> {
        self.emitted@
    }

    pub closed spec fn spec_show_hidden(&self) -> bool {
        self.show_hidden
    }

    pub closed spec fn spec_with_totals(&self) -> bool {
        self.with_totals
    }

    /// The visible entries gathered and not yet handed out.
    pub closed spec fn held(&self) -> Seq<DirEntry> {
        self.pending@
    }

    /// Whether the complete batch has been handed out.
    pub closed spec fn is_done(&self) -> bool {
        self.done
    }

    /// The entries handed out and those still held are exactly the visible
    /// entries offered; fewer than a batch are held.
    pub closed spec fn wf(&self) -> bool {
        &&& self.emitted@ + self.pending@ == visible_entries(self.offered@, self.show_hidden)
        &&& self.pending@.len() < BATCH_SIZE
        &&& self.count == clamp_count(visible_entries(self.offered@, self.show_hidden).len())
        &&& self.done ==> self.pending@.len() == 0
    }

    pub fn new(show_hidden: bool, with_totals: bool) -> (r: ScanBatcher)
        ensures
            r.wf(),
            r.spec_show_hidden() == show_hidden,
            r.spec_with_totals() == with_totals,
            r.offered() == Seq::<DirEntry>::empty(),
            r.emitted() == Seq::<DirEntry>::empty(),
            !r.is_done(),
    {
        let r = ScanBatcher {
            pending: Vec::new(),
            count: 0,
            show_hidden,
            with_totals,
            done: false,
            offered: Ghost(Seq::empty()),
            emitted: Ghost(Seq::empty()),
        };
        proof {
            reveal(Seq::filter);
            assert(r.emitted@ + r.pending@ =~= Seq::<DirEntry>::empty());
        }
        r
    }

    /// The running total reported in a batch.
    fn reported_total(&self) -> (r: usize)
        ensures
            r == (if self.with_totals {
                self.count
            } else {
                0
            }),
    {
        if self.with_totals {
            self.count
        } else {
            0
        }
    }

    /// Offers the next listed entry. A hidden entry is dropped unless hidden
    /// entries are shown; when a full batch has gathered it is handed out.
    pub fn offer(&mut self, entry: DirEntry) -> (r: Option<ScanResult>)
        requires
            old(self).wf(),
            !old(self).is_done(),
        ensures
            final(self).wf(),
            !final(self).is_done(),
            final(self).spec_show_hidden() == old(self).spec_show_hidden(),
            final(self).spec_with_totals() == old(self).spec_with_totals(),
            final(self).offered() == old(self).offered().push(entry),
            final(self).emitted() + final(self).held() == visible_entries(
                final(self).offered(),
                final(self).spec_show_hidden(),
            ),
            final(self).held().len() < BATCH_SIZE,
            r is Some <==> (visible(old(self).spec_show_hidden())(entry) && old(self).held().len()
                + 1 == BATCH_SIZE),
            r is None ==> final(self).emitted() == old(self).emitted(),
            r matches Some(b) ==> final(self).emitted() == old(self).emitted() + b.entries@
                && b.entries@.len() == BATCH_SIZE && !b.is_complete && b.total_count == (
            if old(self).spec_with_totals() {
                clamp_count(visible_entries(final(self).offered(), old(self).spec_show_hidden()).len())
            } else {
                0
            }),
    {
        let ghost pred = visible(self.show_hidden);
        proof {
            reveal(Seq::filter);
            assert(self.offered@.push(entry).drop_last() =~= self.offered@);
        }
        self.offered = Ghost(self.offered@.push(entry));
        if !self.show_hidden && entry.is_hidden() {
            assert(!pred(entry));
            return None;
        }
        assert(pred(entry));
        if self.count < usize::MAX {
            self.count = self.count + 1;
        }
        self.pending.push(entry);
        assert(self.emitted@ + self.pending@ =~= visible_entries(self.offered@, self.show_hidden));
        if self.pending.len() >= BATCH_SIZE {
            let mut batch: Vec<DirEntry> = Vec::new();
        std::mem::swap(&mut batch, &mut self.pending);
            self.emitted = Ghost(self.emitted@ + batch@);
            assert(self.emitted@ + self.pending@ =~= self.emitted@);
            let total = self.reported_total();
            return Some(ScanResult { entries: batch, total_count: total, is_complete: false });
        }
        None
    }

    /// Hands out what has gathered, if anything, as a batch that is not the
    /// last: a recursive scan flushes a directory's entries before it
    /// descends into its subdirectories.
    pub fn flush(&mut self) -> (r: Option<ScanResult>)
        requires
            old(self).wf(),
            !old(self).is_done(),
        ensures
            final(self).wf(),
            !final(self).is_done(),
            final(self).spec_show_hidden() == old(self).spec_show_hidden(),
            final(self).spec_with_totals() == old(self).spec_with_totals(),
            final(self).offered() == old(self).offered(),
            final(self).emitted() == visible_entries(old(self).offered(), old(self).spec_show_hidden()),
            final(self).held().len() == 0,
            r is Some <==> old(self).held().len() > 0,
            r is None ==> final(self).emitted() == old(self).emitted(),
            r matches Some(b) ==> final(self).emitted() == old(self).emitted() + b.entries@
                && b.entries@.len() > 0 && !b.is_complete,
    {
        if self.pending.len() == 0 {
            assert(self.emitted@ + self.pending@ =~= self.emitted@);
            return None;
        }
        let mut batch: Vec<DirEntry> = Vec::new();
        std::mem::swap(&mut batch, &mut self.pending);
        self.emitted = Ghost(self.emitted@ + batch@);
        assert(self.emitted@ + self.pending@ =~= self.emitted@);
        let total = self.reported_total();
        Some(ScanResult { entries: batch, total_count: total, is_complete: false })
    }

    /// Hands out the last batch, marked complete, with whatever has
    /// gathered (possibly nothing). After it every visible entry offered has
    /// been handed out exactly once, in order.
    pub fn finish(&mut self) -> (r: ScanResult)
        requires
            old(self).wf(),
            !old(self).is_done(),
        ensures
            final(self).wf(),
            final(self).is_done(),
            final(self).offered() == old(self).offered(),
            final(self).emitted() == old(self).emitted() + r.entries@,
            final(self).emitted() == visible_entries(old(self).offered(), old(self).spec_show_hidden()),
            r.is_complete,
            r.total_count == (if old(self).spec_with_totals() {
                clamp_count(visible_entries(old(self).offered(), old(self).spec_show_hidden()).len())
            } else {
                0
            }),
    {
        let mut batch: Vec<DirEntry> = Vec::new();
        std::mem::swap(&mut batch, &mut self.pending);
        self.emitted = Ghost(self.emitted@ + batch@);
        assert(self.emitted@ + self.pending@ =~= self.emitted@);
        self.done = true;
        let total = self.reported_total();
        ScanResult { entries: batch, total_count: total, is_complete: true }
    }
}

/// Whether a recursive scan descends into an entry: a directory that is not
/// a symbolic link.
pub fn is_descendable(e: &DirEntry) -> (r: bool)
    ensures
        r == (e.is_dir && !e.is_symlink),
{
    e.is_dir && !e.is_symlink
}

/// The worklist of a recursive scan: directories still to list, each with
/// its depth below the root.
pub struct ScanWalk {
    stack: Vec<(String, usize)>,
    max_depth: usize,
}

impl View for ScanWalk {
    type V = Seq<(Seq<char>, usize)>;

    closed spec fn view(&self) -> Seq<(Seq<char>, usize)> {
        self.stack@.map_values(|p: (String, usize)| (p.0@, p.1))
    }
}

impl ScanWalk {
    pub closed spec fn spec_max_depth(&self) -> usize {
        self.max_depth
    }

    /// A walk from `root`; a depth bound of zero lists nothing.
    pub fn new(root: &str, max_depth: usize) -> (r: ScanWalk)
        ensures
            r.spec_max_depth() == max_depth,
            max_depth == 0 ==> r@ == Seq::<(Seq<char>, usize)>::empty(),
            max_depth > 0 ==> r@ == seq![(root@, 0usize)],
    {
        let mut stack: Vec<(String, usize)> = Vec::new();
        if max_depth > 0 {
            stack.push((root.to_owned(), 0));
        }
        let r = ScanWalk { stack, max_depth };
        assert(max_depth > 0 ==> r@ =~= seq![(root@, 0usize)]);
        assert(max_depth == 0 ==> r@ =~= Seq::<(Seq<char>, usize)>::empty());
        r
    }

    /// The next directory to list, depth first.
    pub fn next_dir(&mut self) -> (r: Option<(String, usize)>)
        ensures
            final(self).spec_max_depth() == old(self).spec_max_depth(),
            old(self)@.len() == 0 ==> (r is None && final(self)@ == old(self)@),
            old(self)@.len() > 0 ==> (r matches Some(d) && (d.0@, d.1) == old(self)@.last()
                && final(self)@ == old(self)@.drop_last()),
    {
        let r = self.stack.pop();
        proof {
            if old(self).stack@.len() > 0 {
                assert(self@ =~= old(self)@.drop_last());
            }
        }
        r
    }

    /// Queues the subdirectories found in a directory at `depth`; those that
    /// would lie at or beyond the depth bound are pruned, without error.
    pub fn descend(&mut self, subdirs: Vec<String>, depth: usize)
        ensures
            final(self).spec_max_depth() == old(self).spec_max_depth(),
            depth + 1 >= old(self).spec_max_depth() ==> final(self)@ == old(self)@,
            depth + 1 < old(self).spec_max_depth() ==> {
                &&& final(self)@.len() == old(self)@.len() + subdirs@.len()
                &&& forall|j: int| 0 <= j < old(self)@.len() ==> final(self)@[j] == old(self)@[j]
                &&& forall|j: int|
                    0 <= j < subdirs@.len() ==> final(self)@[old(self)@.len() + j] == (
                        subdirs@[j]@,
                        (depth + 1) as usize,
                    )
            },
    {
        if depth >= self.max_depth || depth + 1 >= self.max_depth {
            return;
        }
        let ghost start = self@;
        let mut i: usize = 0;
        while i < subdirs.len()
            invariant
                i <= subdirs@.len(),
                depth + 1 < self.max_depth,
                self.max_depth == old(self).max_depth,
                start == old(self)@,
                self@.len() == start.len() + i,
                forall|j: int| 0 <= j < start.len() ==> self@[j] == start[j],
                forall|j: int|
                    0 <= j < i ==> self@[start.len() + j] == (subdirs@[j]@, (depth + 1) as usize),
            decreases subdirs@.len() - i,
        {
            let name = subdirs[i].clone();
            self.stack.push((name, depth + 1));
            i = i + 1;
        }
    }
}

proof fn lemma_filter_within<A>(s: Seq<A>, pred: spec_fn(A) -> bool)
    ensures
        forall|j: int| 0 <= j < s.filter(pred).len() ==> s.contains(#[trigger] s.filter(pred)[j]),
    decreases s.len(),
{
    reveal(Seq::filter);
    if s.len() > 0 {
        let d = s.drop_last();
        lemma_filter_within(d, pred);
        let f = d.filter(pred);
        assert forall|j: int| 0 <= j < s.filter(pred).len() implies s.contains(
            #[trigger] s.filter(pred)[j],
        ) by {
            if j < f.len() {
                assert(s.filter(pred)[j] == f[j]);
                let w = choose|w: int| 0 <= w < d.len() && d[w] == f[j];
                assert(s[w] == f[j]);
            } else {
                assert(s.filter(pred)[j] == s[s.len() - 1]);
            }
        }
    }
}

/// A scan that leaves hidden entries out hands out none whose name starts
/// with the hidden marker; and scanning the same directory again, whatever
/// order its listing comes in, yields the same set of entries.
pub proof fn lemma_scan_visibility(listing: Seq<DirEntry>, again: Seq<DirEntry>, show_hidden: bool)
    requires
        listing.to_set() == again.to_set(),
    ensures
        !show_hidden ==> forall|i: int|
            0 <= i < visible_entries(listing, show_hidden).len() ==> !is_hidden_name(
                #[trigger] visible_entries(listing, show_hidden)[i].name@,
            ),
        visible_entries(listing, show_hidden).to_set() == visible_entries(
            again,
            show_hidden,
        ).to_set(),
{
    let pred = visible(show_hidden);
    broadcast use vstd::seq_lib::group_filter_ensures;

    lemma_filter_within(listing, pred);
    lemma_filter_within(again, pred);
    let a = listing.filter(pred);
    let b = again.filter(pred);
    assert forall|x: DirEntry| a.to_set().contains(x) implies b.to_set().contains(x) by {
        let j = choose|j: int| 0 <= j < a.len() && a[j] == x;
        assert(listing.contains(a[j]));
        assert(again.to_set().contains(x));
        let w = choose|w: int| 0 <= w < again.len() && again[w] == x;
        assert(pred(a[j]));
        assert(b.contains(again[w]));
    }
    assert forall|x: DirEntry| b.to_set().contains(x) implies a.to_set().contains(x) by {
        let j = choose|j: int| 0 <= j < b.len() && b[j] == x;
        assert(again.contains(b[j]));
        assert(listing.to_set().contains(x));
        let w = choose|w: int| 0 <= w < listing.len() && listing[w] == x;
        assert(pred(b[j]));
        assert(a.contains(listing[w]));
    }
    assert(a.to_set() =~= b.to_set());
}

} // verus!
