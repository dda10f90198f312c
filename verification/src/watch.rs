//! The decisions of the file watcher: which changed paths are re-indexed,
//! and when a batch of them is processed. The watcher's loop receives file
//! events and timeouts, hands each to `WatchState::step`, and performs the
//! action that comes back.
use crate::parser::{language_for_ext, language_from_path};
use crate::paths::{file_name, is_absolute, path_extension, path_file_name, path_is_absolute, paths_equal, same_path};
use crate::text::{starts_with, starts_with_chars, to_chars};
use vstd::prelude::*;

verus! {

/// A changed path is re-indexed when it is absolute, is not the database
/// file or one of its companions (its file name does not start with the
/// database's), and a parser handles its extension.
pub open spec fn watched(path: Seq<char>, db_name: Seq<char>) -> bool {
    &&& path_is_absolute(path)
    &&& !(path_file_name(path) matches Some(n) && starts_with(n, db_name))
    &&& match path_extension(path) {
        Some(e) => language_for_ext(e) is Some,
        None => false,
    }
}

/// Whether a changed path is re-indexed.
pub fn should_watch(path: &str, db_name: &str) -> (r: bool)
    ensures
        r == watched(path@, db_name@),
{
    if !is_absolute(path) {
        return false;
    }
    match file_name(path) {
        Some(n) => {
            let nc = to_chars(n.as_str());
            let dc = to_chars(db_name);
            if starts_with_chars(nc.as_slice(), dc.as_slice()) {
                return false;
            }
        },
        None => {},
    }
    language_from_path(path).is_some()
}

/// What the watcher's loop received.
pub enum WatchEvent {
    /// A file event: the paths it names, and whether it is only an access.
    Changed { paths: Vec<String>, access: bool },
    /// The watcher reported an error.
    Failed(String),
    /// Nothing arrived before the wait ended (the poll interval, or the
    /// rest of the debounce period).
    Idle,
    /// The event channel is closed.
    Closed,
}

/// What the watcher's loop does next.
pub enum WatchAction {
    /// Keep receiving.
    Continue,
    /// Print a warning and keep receiving.
    Warn(String),
    /// Keep collecting events for the debounce period before processing.
    Debounce,
    /// Re-index these paths (and relink) as batch number `number`; the
    /// batch is the pending paths, in no promised order.
    Process { number: u64, paths: Vec<String> },
    /// Stop watching.
    Stop,
}

/// The watcher's state: the changed paths waiting to be processed (no two
/// naming the same path), whether it is waiting out the debounce period,
/// and how many batches it has processed.
pub struct WatchState {
    pub pending: Vec<String>,
    pub debouncing: bool,
    pub batches: u64,
}

/// The views of a list of paths.
pub open spec fn path_views(v: Seq<String>) -> Seq<Seq<char>> {
    v.map_values(|s: String| s@)
}

/// Some path of `pending` names the same path as `p` (std's `Path`
/// equality, as a set of paths decides membership).
pub open spec fn holds_path(pending: Seq<Seq<char>>, p: Seq<char>) -> bool {
    exists|j: int| 0 <= j < pending.len() && same_path(#[trigger] pending[j], p)
}

/// `pending` with each watched path of `paths[k..]` added when no pending
/// path names the same path.
pub open spec fn add_paths(pending: Seq<Seq<char>>, paths: Seq<Seq<char>>, db_name: Seq<char>, k: int) -> Seq<Seq<char>>
    decreases paths.len() - k,
{
    if k < 0 || k >= paths.len() {
        pending
    } else {
        let next = if watched(paths[k], db_name) && !holds_path(pending, paths[k]) {
            pending.push(paths[k])
        } else {
            pending
        };
        add_paths(next, paths, db_name, k + 1)
    }
}

impl WatchState {
    /// The state before any event.
    pub fn new() -> (r: WatchState)
        ensures
            r.pending@.len() == 0,
            !r.debouncing,
            r.batches == 0,
    {
        WatchState { pending: Vec::new(), debouncing: false, batches: 0 }
    }

    fn add_changed(&mut self, paths: &Vec<String>, db_name: &str)
        ensures
            path_views(final(self).pending@) == add_paths(path_views(old(self).pending@), path_views(paths@), db_name@, 0),
            final(self).debouncing == old(self).debouncing,
            final(self).batches == old(self).batches,
    {
        let ghost pv = path_views(paths@);
        let mut k: usize = 0;
        while k < paths.len()
            invariant
                k <= paths@.len(),
                pv == path_views(paths@),
                self.debouncing == old(self).debouncing,
                self.batches == old(self).batches,
                add_paths(path_views(self.pending@), pv, db_name@, k as int) == add_paths(
                    path_views(old(self).pending@),
                    pv,
                    db_name@,
                    0,
                ),
            decreases paths.len() - k,
        {
            proof {
                assert(pv[k as int] == paths@[k as int]@);
            }
            if should_watch(paths[k].as_str(), db_name) {
                let ghost before = path_views(self.pending@);
                let mut present = false;
                let mut m: usize = 0;
                while m < self.pending.len()
                    invariant
                        m <= self.pending@.len(),
                        before == path_views(self.pending@),
                        k < paths@.len(),
                        present <==> exists|j: int| 0 <= j < m && same_path(#[trigger] before[j], paths@[k as int]@),
                    decreases self.pending.len() - m,
                {
                    proof {
                        assert(before[m as int] == self.pending@[m as int]@);
                    }
                    if paths_equal(self.pending[m].as_str(), paths[k].as_str()) {
                        present = true;
                    }
                    m = m + 1;
                }
                proof {
                    assert(present == holds_path(before, paths@[k as int]@));
                }
                if !present {
                    self.pending.push(paths[k].clone());
                    proof {
                        assert(path_views(self.pending@) =~= before.push(paths@[k as int]@));
                    }
                }
            }
            k = k + 1;
        }
    }

    /// Handles one event. A file event that is not only an access adds its
    /// watched paths to the pending ones; a watcher error is reported. While
    /// collecting, an idle wait starts the debounce period when paths are
    /// pending, and a closed channel stops the watcher. While debouncing,
    /// an idle wait or a closed channel ends the period: the pending paths
    /// are processed as the next batch and the watcher collects anew.
    pub fn step(&mut self, event: WatchEvent, db_name: &str) -> (r: WatchAction)
        requires
            old(self).batches < u64::MAX,
        ensures
            match event {
                WatchEvent::Changed { paths, access } => {
                    &&& r is Continue
                    &&& final(self).debouncing == old(self).debouncing
                    &&& final(self).batches == old(self).batches
                    &&& path_views(final(self).pending@) == if access {
                        path_views(old(self).pending@)
                    } else {
                        add_paths(path_views(old(self).pending@), path_views(paths@), db_name@, 0)
                    }
                },
                WatchEvent::Failed(e) => {
                    &&& r matches WatchAction::Warn(m) && m@ == "Warning: File watcher error: "@ + e@
                    &&& final(self).pending@ == old(self).pending@
                    &&& final(self).debouncing == old(self).debouncing
                    &&& final(self).batches == old(self).batches
                },
                WatchEvent::Idle => if !old(self).debouncing {
                    &&& final(self).pending@ == old(self).pending@
                    &&& final(self).batches == old(self).batches
                    &&& if old(self).pending@.len() == 0 {
                        r is Continue && !final(self).debouncing
                    } else {
                        r is Debounce && final(self).debouncing
                    }
                } else {
                    &&& r matches WatchAction::Process { number, paths } && number == old(self).batches + 1
                        && path_views(paths@).to_multiset() == path_views(old(self).pending@).to_multiset()
                    &&& final(self).batches == old(self).batches + 1
                    &&& final(self).pending@.len() == 0
                    &&& !final(self).debouncing
                },
                WatchEvent::Closed => if !old(self).debouncing {
                    &&& r is Stop
                    &&& final(self).pending@ == old(self).pending@
                    &&& final(self).batches == old(self).batches
                    &&& final(self).debouncing == old(self).debouncing
                } else {
                    &&& r matches WatchAction::Process { number, paths } && number == old(self).batches + 1
                        && path_views(paths@).to_multiset() == path_views(old(self).pending@).to_multiset()
                    &&& final(self).batches == old(self).batches + 1
                    &&& final(self).pending@.len() == 0
                    &&& !final(self).debouncing
                },
            },
    {
        match event {
            WatchEvent::Changed { paths, access } => {
                if !access {
                    self.add_changed(&paths, db_name);
                }
                WatchAction::Continue
            },
            WatchEvent::Failed(e) => {
                let mut m = to_chars("Warning: File watcher error: ");
                crate::text::push_str(&mut m, e.as_str());
                WatchAction::Warn(crate::text::string_from_chars(m.as_slice()))
            },
            WatchEvent::Idle => {
                if self.debouncing {
                    self.finish_batch()
                } else if self.pending.len() == 0 {
                    WatchAction::Continue
                } else {
                    self.debouncing = true;
                    WatchAction::Debounce
                }
            },
            WatchEvent::Closed => {
                if self.debouncing {
                    self.finish_batch()
                } else {
                    WatchAction::Stop
                }
            },
        }
    }

    fn finish_batch(&mut self) -> (r: WatchAction)
        requires
            old(self).batches < u64::MAX,
        ensures
            r matches WatchAction::Process { number, paths } && number == old(self).batches + 1
                && path_views(paths@) == path_views(old(self).pending@),
            final(self).batches == old(self).batches + 1,
            final(self).pending@.len() == 0,
            !final(self).debouncing,
    {
        self.debouncing = false;
        let mut paths: Vec<String> = Vec::new();
        std::mem::swap(&mut paths, &mut self.pending);
        self.batches = self.batches + 1;
        WatchAction::Process { number: self.batches, paths }
    }
}

/// The pending paths are watched ones, no two naming the same path.
pub open spec fn pending_ok(pending: Seq<Seq<char>>, db_name: Seq<char>) -> bool {
    &&& forall|i: int, j: int| 0 <= i < j < pending.len() ==> !same_path(#[trigger] pending[i], #[trigger] pending[j])
    &&& forall|i: int| 0 <= i < pending.len() ==> watched(#[trigger] pending[i], db_name)
}

/// Adding the paths of a file event keeps the pending paths watched and
/// free of two naming the same path; every path pending before stays
/// pending, in place, and every watched path of the event is pending
/// afterwards, itself or as a path naming the same path.
pub proof fn lemma_add_paths_keeps_pending_ok(pending: Seq<Seq<char>>, paths: Seq<Seq<char>>, db_name: Seq<char>, k: int)
    requires
        0 <= k,
        pending_ok(pending, db_name),
    ensures
        pending_ok(add_paths(pending, paths, db_name, k), db_name),
        add_paths(pending, paths, db_name, k).len() >= pending.len(),
        add_paths(pending, paths, db_name, k).take(pending.len() as int) == pending,
        forall|i: int|
            k <= i < paths.len() && watched(#[trigger] paths[i], db_name) ==> add_paths(
                pending,
                paths,
                db_name,
                k,
            ).contains(paths[i]) || holds_path(add_paths(pending, paths, db_name, k), paths[i]),
    decreases paths.len() - k,
{
    if 0 <= k < paths.len() {
        let next = if watched(paths[k], db_name) && !holds_path(pending, paths[k]) {
            pending.push(paths[k])
        } else {
            pending
        };
        assert(pending_ok(next, db_name)) by {
            if watched(paths[k], db_name) && !holds_path(pending, paths[k]) {
                assert forall|i: int, j: int| 0 <= i < j < next.len() implies !same_path(
                    #[trigger] next[i],
                    #[trigger] next[j],
                ) by {
                    if j == pending.len() as int {
                        assert(next[i] == pending[i]);
                        assert(next[j] == paths[k]);
                    } else {
                        assert(next[i] == pending[i] && next[j] == pending[j]);
                    }
                }
                assert forall|i: int| 0 <= i < next.len() implies watched(#[trigger] next[i], db_name) by {
                    if i < pending.len() {
                        assert(next[i] == pending[i]);
                    }
                }
            }
        }
        lemma_add_paths_keeps_pending_ok(next, paths, db_name, k + 1);
        let out = add_paths(next, paths, db_name, k + 1);
        assert(add_paths(pending, paths, db_name, k) == out);
        assert(out.take(pending.len() as int) =~= pending) by {
            assert forall|i: int| 0 <= i < pending.len() implies out.take(pending.len() as int)[i] == pending[i] by {
                assert(out[i] == out.take(next.len() as int)[i]);
                assert(next[i] == pending[i]);
            }
        }
        if watched(paths[k], db_name) {
            if holds_path(pending, paths[k]) {
                let j = choose|j: int| 0 <= j < pending.len() && same_path(#[trigger] pending[j], paths[k]);
                assert(out[j] == out.take(pending.len() as int)[j]);
                assert(holds_path(out, paths[k]));
            } else {
                assert(out[pending.len() as int] == out.take(next.len() as int)[pending.len() as int]);
                assert(out.contains(paths[k]));
            }
        }
    } else {
        assert(add_paths(pending, paths, db_name, k) == pending);
        assert(pending.take(pending.len() as int) =~= pending);
    }
}

} // verus!
