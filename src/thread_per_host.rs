//! The thread-per-host variant: every worker thread keeps exactly one host
//! in a slot of its own, and a task sees that host through a `HostIter`.

use crate::host::Host;
use vstd::prelude::*;

verus! {

/// The one host of a worker thread, while a task runs on that thread.
pub struct HostIter {
    host: Option<Box<Host>>,
}

impl HostIter {
    pub closed spec fn host(&self) -> Option<Box<Host>> {
        self.host
    }

    /// A cursor over the host taken out of this thread's slot.
    pub fn new(host: Option<Box<Host>>) -> (r: Self)
        ensures
            r.host() == host,
    {
        HostIter { host }
    }

    /// Hands this thread's host to `f`, and keeps the host that `f` gives
    /// back in its place.
    pub fn for_each<F>(&mut self, f: F)
        where
            F: FnOnce(Box<Host>) -> Box<Host>,
        requires
            old(self).host() is Some,
            f.requires((old(self).host()->0,)),
        ensures
            final(self).host() is Some,
            f.ensures((old(self).host()->0,), final(self).host()->0),
    {
        let host = self.host.take().unwrap();
        let host = f(host);
        self.host = Some(host);
    }

    /// Gives the host back for the thread's slot.
    pub fn into_host(self) -> (r: Option<Box<Host>>)
        ensures
            r == self.host(),
    {
        self.host
    }
}

} // verus!
