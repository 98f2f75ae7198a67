//! Bundles of the objects that are "current" while a syscall is handled: the
//! host, the process on it and the thread in that process. Fields are public
//! so that each one can be borrowed independently of the others.

use vstd::prelude::*;

verus! {

/// The current host.
pub struct HostContext<'a, H> {
    pub host: &'a mut H,
}

impl<'a, H> HostContext<'a, H> {
    pub fn new(host: &'a mut H) -> (r: Self)
        ensures
            *r.host == *old(host),
            *final(host) == *final(r.host),
    {
        HostContext { host }
    }

    /// Adds the given process to the context.
    pub fn with_process<P>(&'a mut self, process: &'a mut P) -> (r: ProcessContext<'a, H, P>)
        ensures
            *r.host == *old(self).host,
            *r.process == *old(process),
            *final(self).host == *final(r.host),
            *final(process) == *final(r.process),
    {
        ProcessContext::new(self.host, process)
    }
}

/// The current host and process.
pub struct ProcessContext<'a, H, P> {
    pub host: &'a mut H,
    pub process: &'a mut P,
}

impl<'a, H, P> ProcessContext<'a, H, P> {
    pub fn new(host: &'a mut H, process: &'a mut P) -> (r: Self)
        ensures
            *r.host == *old(host),
            *r.process == *old(process),
            *final(host) == *final(r.host),
            *final(process) == *final(r.process),
    {
        ProcessContext { host, process }
    }

    /// Adds the given thread to the context.
    pub fn with_thread<T>(&'a mut self, thread: &'a mut T) -> (r: ThreadContext<'a, H, P, T>)
        ensures
            *r.host == *old(self).host,
            *r.process == *old(self).process,
            *r.thread == *old(thread),
            *final(self).host == *final(r.host),
            *final(self).process == *final(r.process),
            *final(thread) == *final(r.thread),
    {
        ThreadContext::new(self.host, self.process, thread)
    }
}

/// The current host, process and thread.
pub struct ThreadContext<'a, H, P, T> {
    pub host: &'a mut H,
    pub process: &'a mut P,
    pub thread: &'a mut T,
}

impl<'a, H, P, T> ThreadContext<'a, H, P, T> {
    pub fn new(host: &'a mut H, process: &'a mut P, thread: &'a mut T) -> (r: Self)
        ensures
            *r.host == *old(host),
            *r.process == *old(process),
            *r.thread == *old(thread),
            *final(host) == *final(r.host),
            *final(process) == *final(r.process),
            *final(thread) == *final(r.thread),
    {
        ThreadContext { host, process, thread }
    }
}

/// Owned host, process and thread handles, from which a `ThreadContext` can
/// be borrowed.
pub struct ThreadContextObjs<H, P, T> {
    host: H,
    process: P,
    thread: T,
}

impl<H, P, T> ThreadContextObjs<H, P, T> {
    pub fn new(host: H, process: P, thread: T) -> (r: Self)
        ensures
            r.host() == host,
            r.process() == process,
            r.thread() == thread,
    {
        ThreadContextObjs { host, process, thread }
    }

    pub closed spec fn host(&self) -> H {
        self.host
    }

    pub closed spec fn process(&self) -> P {
        self.process
    }

    pub closed spec fn thread(&self) -> T {
        self.thread
    }

    /// Borrows all three objects at once.
    pub fn borrow(&mut self) -> (r: ThreadContext<'_, H, P, T>)
        ensures
            *r.host == old(self).host(),
            *r.process == old(self).process(),
            *r.thread == old(self).thread(),
            final(self).host() == *final(r.host),
            final(self).process() == *final(r.process),
            final(self).thread() == *final(r.thread),
    {
        ThreadContext::new(&mut self.host, &mut self.process, &mut self.thread)
    }

    /// Gives the three objects back.
    pub fn into_parts(self) -> (r: (H, P, T))
        ensures
            r == (self.host(), self.process(), self.thread()),
    {
        (self.host, self.process, self.thread)
    }
}

} // verus!
