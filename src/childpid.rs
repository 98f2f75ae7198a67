//! The bookkeeping of the child-pid watcher: which child pids are watched,
//! which callbacks wait for each of them, and when an entry can go. The
//! watcher's thread owns this table; it performs what each operation hands
//! back (stop watching a pid's pipe, run callbacks).

use std::collections::{HashMap, HashSet};
use vstd::prelude::*;

verus! {

broadcast use vstd::std_specs::hash::group_hash_axioms;

/// Identifies one registered callback; never zero.
pub type WatchHandle = u64;

/// What the watcher knows of one child pid.
pub struct PidData {
    /// Callbacks to run when the child exits.
    pub callbacks: HashSet<WatchHandle>,
    /// Whether the pipe that reports the child's exit is still watched.
    pub watched: bool,
    /// Whether the pid was unregistered; no callback can be added after.
    pub unregistered: bool,
}

/// An entry goes once its pid is unregistered and no callback waits.
pub open spec fn removable(d: PidData) -> bool {
    d.callbacks@.is_empty() && d.unregistered
}

/// What the watcher must do once a child has exited.
pub struct ExitActions {
    /// Stop watching and close the child's pipe.
    pub unwatch: bool,
    /// The callbacks to run now, each once.
    pub callbacks: HashSet<WatchHandle>,
}

/// The watcher's table of child pids.
pub struct PidTable {
    next_handle: WatchHandle,
    pids: HashMap<i32, PidData>,
}

impl PidTable {
    /// The entries, by pid.
    pub closed spec fn entries(&self) -> Map<i32, PidData> {
        self.pids@
    }

    /// The handle that the next callback gets.
    pub closed spec fn next(&self) -> nat {
        self.next_handle as nat
    }

    pub closed spec fn wf(&self) -> bool {
        self.next_handle >= 1
    }

    pub fn new() -> (r: Self)
        ensures
            r.wf(),
            r.entries() == Map::<i32, PidData>::empty(),
            r.next() == 1,
    {
        PidTable { next_handle: 1, pids: HashMap::new() }
    }

    /// Whether `pid` has an entry.
    pub fn contains(&self, pid: i32) -> (r: bool)
        ensures
            r == self.entries().contains_key(pid),
    {
        self.pids.contains_key(&pid)
    }

    /// Whether `pid` has an entry that still takes callbacks.
    pub fn accepts_callbacks(&self, pid: i32) -> (r: bool)
        ensures
            r == (self.entries().contains_key(pid) && !self.entries()[pid].unregistered),
    {
        match self.pids.get(&pid) {
            Some(d) => !d.unregistered,
            None => false,
        }
    }

    /// Starts watching `pid`; the caller watches its pipe.
    pub fn register_pid(&mut self, pid: i32)
        requires
            old(self).wf(),
            !old(self).entries().contains_key(pid),
        ensures
            final(self).wf(),
            final(self).next() == old(self).next(),
            final(self).entries().dom() == old(self).entries().dom().insert(pid),
            forall|p: i32| p != pid && old(self).entries().contains_key(p)
                ==> #[trigger] final(self).entries()[p] == old(self).entries()[p],
            final(self).entries()[pid].callbacks@ == Set::<WatchHandle>::empty(),
            final(self).entries()[pid].watched,
            !final(self).entries()[pid].unregistered,
    {
        let d = PidData { callbacks: HashSet::new(), watched: true, unregistered: false };
        self.pids.insert(pid, d);
    }

    /// Puts `d` back under `pid`, or drops it once it is removable. Returns
    /// whether it was dropped while its pipe was still watched.
    fn store_or_remove(&mut self, pid: i32, d: PidData) -> (r: Option<bool>)
        requires
            !old(self).entries().contains_key(pid),
        ensures
            final(self).next() == old(self).next(),
            final(self).wf() == old(self).wf(),
            removable(d) ==> r == Some(d.watched) && final(self).entries() == old(self).entries(),
            !removable(d) ==> r is None && final(self).entries() == old(self).entries().insert(
                pid,
                d,
            ),
    {
        if d.callbacks.is_empty() && d.unregistered {
            Some(d.watched)
        } else {
            self.pids.insert(pid, d);
            None
        }
    }

    /// Unregisters `pid`: no callback can be added after this, and the
    /// entry goes once no callback waits. `Some(unwatch)` when the entry
    /// went, `unwatch` telling whether its pipe still has to be closed.
    pub fn unregister_pid(&mut self, pid: i32) -> (r: Option<bool>)
        requires
            old(self).wf(),
        ensures
            final(self).wf(),
            final(self).next() == old(self).next(),
            !old(self).entries().contains_key(pid) ==> r is None && final(self).entries() == old(
                self,
            ).entries(),
            old(self).entries().contains_key(pid) ==> {
                let d = old(self).entries()[pid];
                if d.callbacks@.is_empty() {
                    &&& r == Some(d.watched)
                    &&& final(self).entries() == old(self).entries().remove(pid)
                } else {
                    &&& r is None
                    &&& final(self).entries().dom() == old(self).entries().dom()
                    &&& final(self).entries()[pid].unregistered
                    &&& final(self).entries()[pid].callbacks@ == d.callbacks@
                    &&& final(self).entries()[pid].watched == d.watched
                    &&& forall|p: i32| p != pid && old(self).entries().contains_key(p)
                        ==> #[trigger] final(self).entries()[p] == old(self).entries()[p]
                }
            },
    {
        match self.pids.remove(&pid) {
            None => None,
            Some(d) => {
                let d = PidData { callbacks: d.callbacks, watched: d.watched, unregistered: true };
                let r = self.store_or_remove(pid, d);
                proof {
                    if r is None {
                        assert(final(self).entries().dom() =~= old(self).entries().dom());
                    } else {
                        assert(final(self).entries() =~= old(self).entries().remove(pid));
                    }
                }
                r
            },
        }
    }

    /// Registers a callback for `pid` and returns its handle with whether
    /// the child is already dead, in which case the caller runs the
    /// callback at once and nothing is kept.
    pub fn register_callback(&mut self, pid: i32) -> (r: (WatchHandle, bool))
        requires
            old(self).wf(),
            old(self).entries().contains_key(pid),
            !old(self).entries()[pid].unregistered,
            old(self).next() < u64::MAX,
        ensures
            final(self).wf(),
            r.0 == old(self).next(),
            r.0 != 0,
            final(self).next() == old(self).next() + 1,
            r.1 == !old(self).entries()[pid].watched,
            r.1 ==> final(self).entries() == old(self).entries(),
            !r.1 ==> {
                &&& final(self).entries().dom() == old(self).entries().dom()
                &&& final(self).entries()[pid].callbacks@ == old(self).entries()[pid].callbacks@.insert(
                    r.0,
                )
                &&& final(self).entries()[pid].watched
                &&& !final(self).entries()[pid].unregistered
                &&& forall|p: i32| p != pid && old(self).entries().contains_key(p)
                    ==> #[trigger] final(self).entries()[p] == old(self).entries()[p]
            },
    {
        let handle = self.next_handle;
        self.next_handle = self.next_handle + 1;
        let d = self.pids.remove(&pid).unwrap();
        if !d.watched {
            // the child is already dead: the caller runs the callback now
            self.pids.insert(pid, d);
            proof {
                assert(final(self).entries() =~= old(self).entries());
            }
            (handle, true)
        } else {
            let mut callbacks = d.callbacks;
            callbacks.insert(handle);
            self.pids.insert(pid, PidData { callbacks, watched: true, unregistered: false });
            proof {
                assert(final(self).entries().dom() =~= old(self).entries().dom());
            }
            (handle, false)
        }
    }

    /// Drops the callback `handle` of `pid`, if it is still there; the
    /// entry goes when it becomes removable. `Some(unwatch)` when the entry
    /// went, as for `unregister_pid`.
    pub fn unregister_callback(&mut self, pid: i32, handle: WatchHandle) -> (r: Option<bool>)
        requires
            old(self).wf(),
        ensures
            final(self).wf(),
            final(self).next() == old(self).next(),
            !old(self).entries().contains_key(pid) ==> r is None && final(self).entries() == old(
                self,
            ).entries(),
            old(self).entries().contains_key(pid) ==> {
                let d = old(self).entries()[pid];
                if d.unregistered && d.callbacks@.remove(handle).is_empty() {
                    &&& r == Some(d.watched)
                    &&& final(self).entries() == old(self).entries().remove(pid)
                } else {
                    &&& r is None
                    &&& final(self).entries().dom() == old(self).entries().dom()
                    &&& final(self).entries()[pid].callbacks@ == d.callbacks@.remove(handle)
                    &&& final(self).entries()[pid].watched == d.watched
                    &&& final(self).entries()[pid].unregistered == d.unregistered
                    &&& forall|p: i32| p != pid && old(self).entries().contains_key(p)
                        ==> #[trigger] final(self).entries()[p] == old(self).entries()[p]
                }
            },
    {
        match self.pids.remove(&pid) {
            None => None,
            Some(d) => {
                let mut callbacks = d.callbacks;
                callbacks.remove(&handle);
                let d = PidData { callbacks, watched: d.watched, unregistered: d.unregistered };
                let r = self.store_or_remove(pid, d);
                proof {
                    if r is None {
                        assert(final(self).entries().dom() =~= old(self).entries().dom());
                    } else {
                        assert(final(self).entries() =~= old(self).entries().remove(pid));
                    }
                }
                r
            },
        }
    }

    /// Records that the child `pid` has exited: its pipe is no longer
    /// watched, and every waiting callback is handed back to run. The entry
    /// goes when the pid was already unregistered.
    pub fn pid_exited(&mut self, pid: i32) -> (r: ExitActions)
        requires
            old(self).wf(),
            old(self).entries().contains_key(pid),
        ensures
            final(self).wf(),
            final(self).next() == old(self).next(),
            r.unwatch == old(self).entries()[pid].watched,
            r.callbacks@ == old(self).entries()[pid].callbacks@,
            old(self).entries()[pid].unregistered ==> final(self).entries() == old(
                self,
            ).entries().remove(pid),
            !old(self).entries()[pid].unregistered ==> {
                &&& final(self).entries().dom() == old(self).entries().dom()
                &&& final(self).entries()[pid].callbacks@ == Set::<WatchHandle>::empty()
                &&& !final(self).entries()[pid].watched
                &&& !final(self).entries()[pid].unregistered
                &&& forall|p: i32| p != pid && old(self).entries().contains_key(p)
                    ==> #[trigger] final(self).entries()[p] == old(self).entries()[p]
            },
    {
        let d = self.pids.remove(&pid).unwrap();
        let rest = PidData { callbacks: HashSet::new(), watched: false, unregistered: d.unregistered };
        let r = self.store_or_remove(pid, rest);
        proof {
            if r is None {
                assert(final(self).entries().dom() =~= old(self).entries().dom());
            } else {
                assert(final(self).entries() =~= old(self).entries().remove(pid));
            }
        }
        ExitActions { unwatch: d.watched, callbacks: d.callbacks }
    }
}

} // verus!
