//! Watching files for changes: which files are watched, and which of the
//! events that the file system sends are passed on.

use vstd::prelude::*;
use vstd::string::*;
use crate::text::texts_of;

verus! {

/// The paths that are being watched, each once.
pub struct Watchers {
    paths: Vec<String>,
}

impl View for Watchers {
    type V = Set<Seq<char>>;

    closed spec fn view(&self) -> Set<Seq<char>> {
        texts_of(self.paths@).to_set()
    }
}

impl Watchers {
    /// No path stands twice.
    pub closed spec fn wf(&self) -> bool {
        texts_of(self.paths@).no_duplicates()
    }

    pub fn new() -> (w: Watchers)
        ensures
            w.wf(),
            w@ == Set::<Seq<char>>::empty(),
    {
        let w = Watchers { paths: Vec::new() };
        proof {
            assert(texts_of(w.paths@).to_set() =~= Set::<Seq<char>>::empty());
        }
        w
    }

    fn position(&self, path: &str) -> (at: Option<usize>)
        ensures
            match at {
                Some(i) => i < self.paths@.len() && self.paths@[i as int]@ == path@,
                None => !self@.contains(path@),
            },
    {
        let wanted = path.to_string();
        let mut i: usize = 0;
        while i < self.paths.len()
            invariant
                i <= self.paths.len(),
                wanted@ == path@,
                forall|k: int| 0 <= k < i ==> self.paths@[k]@ != path@,
            decreases self.paths.len() - i,
        {
            if self.paths[i] == wanted {
                return Some(i);
            }
            i = i + 1;
        }
        proof {
            let names = texts_of(self.paths@);
            if names.to_set().contains(path@) {
                let k = choose|k: int| 0 <= k < names.len() && names[k] == path@;
                assert(self.paths@[k]@ == path@);
            }
        }
        None
    }

    pub fn is_watching(&self, path: &str) -> (b: bool)
        ensures
            b == self@.contains(path@),
    {
        match self.position(path) {
            Some(i) => {
                proof {
                    assert(texts_of(self.paths@)[i as int] == path@);
                }
                true
            },
            None => false,
        }
    }

    /// Puts `path` under watch, unless it is watched already. Returns
    /// whether a watcher is to be started for it.
    pub fn start(&mut self, path: &str) -> (started: bool)
        requires
            old(self).wf(),
        ensures
            final(self).wf(),
            final(self)@ == old(self)@.insert(path@),
            started == !old(self)@.contains(path@),
    {
        if self.is_watching(path) {
            proof {
                assert(self@.insert(path@) =~= self@);
            }
            return false;
        }
        let ghost before = texts_of(self.paths@);
        self.paths.push(path.to_string());
        proof {
            let after = texts_of(self.paths@);
            assert(after =~= before.push(path@));
            assert forall|i: int, j: int| 0 <= i < after.len() && 0 <= j < after.len() && i != j
                implies after[i] != after[j] by {
                if i == before.len() {
                    assert(before.to_set().contains(before[j]));
                } else if j == before.len() {
                    assert(before.to_set().contains(before[i]));
                }
            }
            assert(after.to_set() =~= before.to_set().insert(path@)) by {
                assert forall|x: Seq<char>| after.to_set().contains(x) implies before.to_set().insert(
                    path@,
                ).contains(x) by {
                    let k = choose|k: int| 0 <= k < after.len() && after[k] == x;
                    if k < before.len() {
                        assert(before[k] == x);
                    }
                }
                assert forall|x: Seq<char>|
                    before.to_set().insert(path@).contains(x) implies after.to_set().contains(
                    x,
                ) by {
                    if x == path@ {
                        assert(after[before.len() as int] == x);
                    } else {
                        let k = choose|k: int| 0 <= k < before.len() && before[k] == x;
                        assert(after[k] == x);
                    }
                }
            }
        }
        true
    }

    /// Takes `path` from under watch. Returns whether it was watched, and so
    /// whether a watcher is to be stopped.
    pub fn stop(&mut self, path: &str) -> (stopped: bool)
        requires
            old(self).wf(),
        ensures
            final(self).wf(),
            final(self)@ == old(self)@.remove(path@),
            stopped == old(self)@.contains(path@),
    {
        match self.position(path) {
            None => {
                proof {
                    assert(self@.remove(path@) =~= self@);
                }
                false
            },
            Some(at) => {
                let ghost before = texts_of(self.paths@);
                self.paths.remove(at);
                proof {
                    let after = texts_of(self.paths@);
                    assert(before[at as int] == path@);
                    assert(after =~= before.remove(at as int));
                    assert forall|i: int, j: int|
                        0 <= i < after.len() && 0 <= j < after.len() && i != j implies after[i]
                        != after[j] by {
                        let p = if i < at { i } else { i + 1 };
                        let q = if j < at { j } else { j + 1 };
                        assert(after[i] == before[p] && after[j] == before[q]);
                    }
                    assert(after.to_set() =~= before.to_set().remove(path@)) by {
                        assert forall|x: Seq<char>| after.to_set().contains(x) implies before.to_set().remove(
                            path@,
                        ).contains(x) by {
                            let k = choose|k: int| 0 <= k < after.len() && after[k] == x;
                            let p = if k < at { k } else { k + 1 };
                            assert(before[p] == x);
                        }
                        assert forall|x: Seq<char>|
                            before.to_set().remove(path@).contains(x) implies after.to_set().contains(
                            x,
                        ) by {
                            let k = choose|k: int| 0 <= k < before.len() && before[k] == x;
                            let p = if k < at { k } else { k - 1 };
                            assert(after[p] == x);
                        }
                    }
                }
                true
            },
        }
    }
}

/// Events that follow the last handled one by less than this many
/// milliseconds are dropped.
pub const QUIET_MILLIS: u64 = 100;

/// The time from `last` to `now`, nothing where the clock went back.
pub open spec fn elapsed(last: u64, now: u64) -> int {
    if now >= last {
        now - last
    } else {
        0
    }
}

/// How many of `paths` are the text `watched`.
pub open spec fn hits(paths: Seq<Option<String>>, watched: Seq<char>) -> nat
    decreases paths.len(),
{
    if paths.len() == 0 {
        0
    } else if paths.last() matches Some(path) && path@ == watched {
        hits(paths.drop_last(), watched) + 1
    } else {
        hits(paths.drop_last(), watched)
    }
}

/// The watcher of one file.
pub struct FileWatch {
    path: String,
    last_event: u64,
}

/// The mathematical value of a `FileWatch`.
pub struct FileWatchView {
    pub path: Seq<char>,
    /// When the last event was handled, in milliseconds.
    pub last_event: u64,
}

impl View for FileWatch {
    type V = FileWatchView;

    closed spec fn view(&self) -> FileWatchView {
        FileWatchView { path: self.path@, last_event: self.last_event }
    }
}

impl FileWatch {
    /// A watcher of `path` that starts at `now`.
    pub fn new(path: &str, now: u64) -> (w: FileWatch)
        ensures
            w@ == (FileWatchView { path: path@, last_event: now }),
    {
        FileWatch { path: path.to_string(), last_event: now }
    }

    /// An event has arrived at `now`. `modified` says whether it reports a
    /// modification, `paths` which paths it concerns, `None` standing for a
    /// path that is not text. Returns how many times the file's content is to
    /// be read and reported: once for each of the paths that is the watched
    /// one, if the event is a modification and does not follow the last
    /// handled event too closely.
    pub fn on_event(&mut self, now: u64, modified: bool, paths: &Vec<Option<String>>) -> (reports:
        usize)
        ensures
            final(self)@.path == old(self)@.path,
            elapsed(old(self)@.last_event, now) < QUIET_MILLIS ==> reports == 0 && final(self)@
                == old(self)@,
            elapsed(old(self)@.last_event, now) >= QUIET_MILLIS ==> final(self)@.last_event == now
                && reports == if modified {
                hits(paths@, old(self)@.path)
            } else {
                0
            },
    {
        let since = if now >= self.last_event {
            now - self.last_event
        } else {
            0
        };
        if since < QUIET_MILLIS {
            return 0;
        }
        self.last_event = now;
        if !modified {
            return 0;
        }
        let mut reports: usize = 0;
        let mut i: usize = 0;
        while i < paths.len()
            invariant
                i <= paths.len(),
                reports == hits(paths@.take(i as int), self.path@),
                reports <= i,
            decreases paths.len() - i,
        {
            proof {
                assert(paths@.take(i + 1).drop_last() =~= paths@.take(i as int));
                assert(paths@.take(i + 1).last() == paths@[i as int]);
            }
            let hit = match &paths[i] {
                Some(path) => *path == self.path,
                None => false,
            };
            if hit {
                reports = reports + 1;
            }
            i = i + 1;
        }
        proof {
            assert(paths@.take(paths.len() as int) =~= paths@);
        }
        reports
    }
}

} // verus!
