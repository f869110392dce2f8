//! The change watcher's bookkeeping: a debounce table from path to the
//! instant of the last delivered event, a separate set of explicitly watched
//! paths, and the translation of raw notifications into typed events. The
//! host owns the OS-level handle and feeds each notification in.
use vstd::prelude::*;
use vstd::string::*;
use crate::error::Error;
use crate::text::str_eq;

verus! {

broadcast use vstd::seq_lib::lemma_seq_contains_after_push;

/// The default minimum interval, in milliseconds, between two events
/// delivered for one path.
pub const DEBOUNCE_MILLIS: u64 = 50;

/// A typed change event.
#[derive(Clone, Debug)]
pub enum WatchEvent {
    Created(String),
    Modified(String),
    Deleted(String),
    Renamed { from: String, to: String },
}

/// The kind of a raw OS notification.
#[derive(Clone, Copy, Debug, PartialEq, Eq, Structural)]
pub enum RawEventKind {
    Create,
    Modify,
    Remove,
    /// The old name of a renamed object.
    RenameFrom,
    /// The new name of a renamed object.
    RenameTo,
    /// Both names of a renamed object, old first.
    RenameBoth,
    Other,
}

/// A raw OS notification: its kind and the paths it names, primary first.
#[derive(Clone, Debug)]
pub struct RawEvent {
    pub kind: RawEventKind,
    pub paths: Vec<String>,
}

/// A debounce table as texts and instants.
pub type Table = Seq<(Seq<char>, u64)>;

pub open spec fn table_view(s: Seq<(String, u64)>) -> Table {
    s.map_values(|p: (String, u64)| (p.0@, p.1))
}

pub open spec fn names_view(s: Seq<String>) -> Seq<Seq<char>> {
    s.map_values(|p: String| p@)
}

/// Index of the first row from `i` on for path `p`, or -1.
pub open spec fn find_path(t: Table, p: Seq<char>, i: int) -> int
    decreases t.len() - i,
{
    if i < 0 || i >= t.len() {
        -1
    } else if t[i].0 == p {
        i
    } else {
        find_path(t, p, i + 1)
    }
}

pub open spec fn path_index(t: Table, p: Seq<char>) -> int {
    find_path(t, p, 0)
}

/// Time from `last` to `now`; zero if the clock went back.
pub open spec fn elapsed(now: u64, last: u64) -> u64 {
    if now >= last {
        (now - last) as u64
    } else {
        0
    }
}

/// Whether an event for `p` at `now` falls inside the window of the last
/// event delivered for `p`.
pub open spec fn is_debounced(t: Table, p: Seq<char>, now: u64, window: u64) -> bool {
    path_index(t, p) >= 0 && elapsed(now, t[path_index(t, p)].1) < window
}

/// The table after an event for `p` is delivered at `now`.
pub open spec fn record_spec(t: Table, p: Seq<char>, now: u64) -> Table {
    if path_index(t, p) >= 0 {
        t.update(path_index(t, p), (p, now))
    } else {
        t.push((p, now))
    }
}

/// Whether `r` is the typed event for a notification of `kind` on `paths`.
pub open spec fn translated(r: Option<WatchEvent>, kind: RawEventKind, paths: Seq<Seq<char>>) -> bool {
    match kind {
        RawEventKind::Create | RawEventKind::RenameTo => r matches Some(WatchEvent::Created(p))
            && p@ == paths[0],
        RawEventKind::Modify => r matches Some(WatchEvent::Modified(p)) && p@ == paths[0],
        RawEventKind::Remove | RawEventKind::RenameFrom => r matches Some(WatchEvent::Deleted(p))
            && p@ == paths[0],
        RawEventKind::RenameBoth => if paths.len() >= 2 {
            r matches Some(WatchEvent::Renamed { from, to }) && from@ == paths[0] && to@
                == paths[1]
        } else {
            r is None
        },
        RawEventKind::Other => r is None,
    }
}

proof fn lemma_find_path(t: Table, p: Seq<char>, i: int)
    requires
        0 <= i <= t.len(),
    ensures
        find_path(t, p, i) == -1 <==> forall|j: int| i <= j < t.len() ==> t[j].0 != p,
        find_path(t, p, i) != -1 ==> i <= find_path(t, p, i) < t.len() && t[find_path(
            t,
            p,
            i,
        )].0 == p,
        forall|j: int| i <= j < t.len() && j < find_path(t, p, i) ==> t[j].0 != p,
    decreases t.len() - i,
{
    if i < t.len() && t[i].0 != p {
        lemma_find_path(t, p, i + 1);
    }
}

/// Watcher state: started or not, the debounce table and the watched set.
pub struct Watcher {
    debounce_millis: u64,
    started: bool,
    last_event: Vec<(String, u64)>,
    watched: Vec<String>,
}

impl Watcher {
    pub closed spec fn spec_debounce(&self) -> u64 {
        self.debounce_millis
    }

    pub closed spec fn is_started(&self) -> bool {
        self.started
    }

    /// The debounce table: path and instant of the last delivered event.
    pub closed spec fn table(&self) -> Table {
        table_view(self.last_event@)
    }

    /// The explicitly watched paths.
    pub closed spec fn watched(&self) -> Seq<Seq<char>> {
        names_view(self.watched@)
    }

    pub fn new(debounce_millis: u64) -> (r: Watcher)
        ensures
            r.spec_debounce() == debounce_millis,
            !r.is_started(),
            r.table() == Seq::<(Seq<char>, u64)>::empty(),
            r.watched() == Seq::<Seq<char>>::empty(),
    {
        let r = Watcher {
            debounce_millis,
            started: false,
            last_event: Vec::new(),
            watched: Vec::new(),
        };
        assert(r.table() =~= Seq::<(Seq<char>, u64)>::empty());
        assert(r.watched() =~= Seq::<Seq<char>>::empty());
        r
    }

    /// Records that the host has set up the OS-level handle.
    pub fn start(&mut self)
        ensures
            final(self).is_started(),
            final(self).spec_debounce() == old(self).spec_debounce(),
            final(self).table() == old(self).table(),
            final(self).watched() == old(self).watched(),
    {
        self.started = true;
    }

    /// Tears the watcher down: both tables are cleared.
    pub fn stop(&mut self)
        ensures
            !final(self).is_started(),
            final(self).spec_debounce() == old(self).spec_debounce(),
            final(self).table() == Seq::<(Seq<char>, u64)>::empty(),
            final(self).watched() == Seq::<Seq<char>>::empty(),
    {
        self.started = false;
        self.last_event = Vec::new();
        self.watched = Vec::new();
        assert(self.table() =~= Seq::<(Seq<char>, u64)>::empty());
        assert(self.watched() =~= Seq::<Seq<char>>::empty());
    }

    fn watched_index(&self, path: &str) -> (r: Option<usize>)
        ensures
            r matches Some(i) ==> i < self.watched@.len() && self.watched@[i as int]@ == path@,
            r is None ==> !self.watched().contains(path@),
    {
        let mut i: usize = 0;
        while i < self.watched.len()
            invariant
                i <= self.watched@.len(),
                forall|j: int| 0 <= j < i ==> self.watched@[j]@ != path@,
            decreases self.watched@.len() - i,
        {
            if str_eq(self.watched[i].as_str(), path) {
                return Some(i);
            }
            i = i + 1;
        }
        assert forall|j: int| 0 <= j < self.watched().len() implies self.watched()[j]
            != path@ by {
            assert(self.watched@[j]@ != path@);
        }
        None
    }

    /// Adds `path` to the watched set once the host watches it; refused
    /// before the watcher is started.
    pub fn watch(&mut self, path: &str) -> (r: Result<(), Error>)
        ensures
            final(self).is_started() == old(self).is_started(),
            final(self).spec_debounce() == old(self).spec_debounce(),
            final(self).table() == old(self).table(),
            !old(self).is_started() ==> (r matches Err(Error::Watcher(_)) && final(self).watched()
                == old(self).watched()),
            old(self).is_started() ==> r is Ok && final(self).watched().contains(path@)
                && forall|q: Seq<char>|
                q != path@ ==> (final(self).watched().contains(q) == old(
                self,
            ).watched().contains(q)),
    {
        if !self.started {
            return Err(Error::Watcher(String::from_str("Watcher not started")));
        }
        match self.watched_index(path) {
            Some(i) => {
                assert(self.watched()[i as int] == path@);
            },
            None => {
                let ghost before = self.watched@;
                self.watched.push(path.to_owned());
                assert(self.watched() =~= names_view(before).push(path@));
                assert(self.watched()[before.len() as int] == path@);
            },
        }
        Ok(())
    }

    /// Takes `path` out of the watched set; refused before the watcher is
    /// started.
    pub fn unwatch(&mut self, path: &str) -> (r: Result<(), Error>)
        ensures
            final(self).is_started() == old(self).is_started(),
            final(self).spec_debounce() == old(self).spec_debounce(),
            final(self).table() == old(self).table(),
            !old(self).is_started() ==> (r matches Err(Error::Watcher(_)) && final(self).watched()
                == old(self).watched()),
            old(self).is_started() ==> r is Ok && !final(self).watched().contains(path@)
                && forall|q: Seq<char>|
                q != path@ ==> (final(self).watched().contains(q) == old(
                self,
            ).watched().contains(q)),
    {
        if !self.started {
            return Err(Error::Watcher(String::from_str("Watcher not started")));
        }
        let mut kept: Vec<String> = Vec::new();
        let mut i: usize = 0;
        while i < self.watched.len()
            invariant
                i <= self.watched@.len(),
                forall|j: int| 0 <= j < kept@.len() ==> kept@[j]@ != path@,
                forall|q: Seq<char>|
                    q != path@ ==> (names_view(kept@).contains(q) <==> names_view(
                        self.watched@.subrange(0, i as int),
                    ).contains(q)),
            decreases self.watched@.len() - i,
        {
            let ghost prev = kept@;
            let ghost pre = self.watched@.subrange(0, i as int);
            let ghost next = self.watched@.subrange(0, i + 1);
            assert(names_view(next) =~= names_view(pre).push(self.watched@[i as int]@));
            if !str_eq(self.watched[i].as_str(), path) {
                kept.push(self.watched[i].clone());
                assert(names_view(kept@) =~= names_view(prev).push(self.watched@[i as int]@));
            }
            i = i + 1;
        }
        assert(self.watched@.subrange(0, i as int) =~= self.watched@);
        self.watched = kept;
        assert forall|j: int| 0 <= j < self.watched().len() implies self.watched()[j]
            != path@ by {
            assert(self.watched@[j]@ != path@);
        }
        Ok(())
    }

    /// Whether `path` is explicitly watched.
    pub fn is_watching(&self, path: &str) -> (r: bool)
        ensures
            r == self.watched().contains(path@),
    {
        match self.watched_index(path) {
            Some(i) => {
                assert(self.watched()[i as int] == path@);
                true
            },
            None => false,
        }
    }

    pub fn watched_count(&self) -> (r: usize)
        ensures
            r == self.watched().len(),
    {
        self.watched.len()
    }

    fn table_index(&self, path: &str) -> (r: Option<usize>)
        ensures
            r matches Some(i) ==> i == path_index(self.table(), path@) && i < self.last_event@.len(),
            r is None ==> path_index(self.table(), path@) == -1,
    {
        let mut i: usize = 0;
        proof {
            lemma_find_path(self.table(), path@, 0);
        }
        while i < self.last_event.len()
            invariant
                i <= self.last_event@.len(),
                find_path(self.table(), path@, 0) == find_path(self.table(), path@, i as int),
            decreases self.last_event@.len() - i,
        {
            if str_eq(self.last_event[i].0.as_str(), path) {
                return Some(i);
            }
            i = i + 1;
        }
        None
    }

    /// Handles one raw notification at instant `now` (milliseconds of a
    /// monotonic clock). An event whose primary path saw a delivered event
    /// less than the debounce interval ago is dropped; otherwise the table
    /// records `now` for that path and the typed event, if the kind maps to
    /// one, is returned.
    pub fn convert_event(&mut self, event: &RawEvent, now: u64) -> (r: Option<WatchEvent>)
        ensures
            final(self).is_started() == old(self).is_started(),
            final(self).spec_debounce() == old(self).spec_debounce(),
            final(self).watched() == old(self).watched(),
            event.paths@.len() == 0 ==> (r is None && final(self).table() == old(self).table()),
            event.paths@.len() > 0 && is_debounced(
                old(self).table(),
                event.paths@[0]@,
                now,
                old(self).spec_debounce(),
            ) ==> (r is None && final(self).table() == old(self).table()),
            event.paths@.len() > 0 && !is_debounced(
                old(self).table(),
                event.paths@[0]@,
                now,
                old(self).spec_debounce(),
            ) ==> (final(self).table() == record_spec(old(self).table(), event.paths@[0]@, now)
                && translated(r, event.kind, names_view(event.paths@))),
    {
        if event.paths.len() == 0 {
            return None;
        }
        let path = &event.paths[0];
        match self.table_index(path.as_str()) {
            Some(i) => {
                let last = self.last_event[i].1;
                let gap = if now >= last {
                    now - last
                } else {
                    0
                };
                if gap < self.debounce_millis {
                    return None;
                }
                let ghost before = self.last_event@;
                self.last_event.set(i, (path.clone(), now));
                assert(self.table() =~= table_view(before).update(i as int, (path@, now)));
            },
            None => {
                let ghost before = self.last_event@;
                self.last_event.push((path.clone(), now));
                assert(self.table() =~= table_view(before).push((path@, now)));
            },
        }
        let ghost names = names_view(event.paths@);
        assert(names[0] == path@);
        match event.kind {
            RawEventKind::Create | RawEventKind::RenameTo => Some(WatchEvent::Created(path.clone())),
            RawEventKind::Modify => Some(WatchEvent::Modified(path.clone())),
            RawEventKind::Remove | RawEventKind::RenameFrom => Some(
                WatchEvent::Deleted(path.clone()),
            ),
            RawEventKind::RenameBoth => {
                if event.paths.len() >= 2 {
                    assert(names[1] == event.paths@[1]@);
                    Some(WatchEvent::Renamed { from: path.clone(), to: event.paths[1].clone() })
                } else {
                    None
                }
            },
            RawEventKind::Other => None,
        }
    }
}

impl Default for Watcher {
    fn default() -> (r: Watcher)
        ensures
            r.spec_debounce() == DEBOUNCE_MILLIS,
            !r.is_started(),
            r.table() == Seq::<(Seq<char>, u64)>::empty(),
            r.watched() == Seq::<Seq<char>>::empty(),
    {
        Watcher::new(DEBOUNCE_MILLIS)
    }
}

/// Two events for one path, the first at `t1` on a path with no delivered
/// event yet and the second at `t2`: the first is delivered; the second is
/// dropped when it comes within the debounce window and delivered when it
/// comes later than the window.
pub proof fn lemma_debounce_window(t: Table, p: Seq<char>, t1: u64, t2: u64, window: u64)
    requires
        path_index(t, p) < 0,
        t1 <= t2,
    ensures
        !is_debounced(t, p, t1, window),
        t2 - t1 < window ==> is_debounced(record_spec(t, p, t1), p, t2, window),
        t2 - t1 >= window ==> !is_debounced(record_spec(t, p, t1), p, t2, window),
{
    lemma_find_path(t, p, 0);
    let t_after = record_spec(t, p, t1);
    assert(t_after == t.push((p, t1)));
    lemma_find_path(t_after, p, 0);
    assert forall|j: int| 0 <= j < t.len() implies t_after[j].0 != p by {
        assert(t_after[j] == t[j]);
    }
    assert(t_after[t.len() as int].0 == p);
    let r = path_index(t_after, p);
    assert(r != -1);
    if r < t.len() {
        assert(t_after[r].0 != p);
    }
    assert(r == t.len());
}

} // verus!
