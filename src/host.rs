//! The simulated host as the scheduler sees it, and the bounded host queues
//! that worker threads take hosts from and give them back to.

use crossbeam::queue::ArrayQueue;
use vstd::prelude::*;

verus! {

/// One simulated network node. It moves between queues and workers and is
/// never shared.
#[derive(Debug)]
pub struct Host {
    pub id: u32,
    pub name: String,
    pub default_ip: [u8; 4],
}

impl Host {
    pub fn new(id: u32, name: String, default_ip: [u8; 4]) -> (r: Host)
        ensures
            r.id == id,
            r.name == name,
            r.default_ip == default_ip,
    {
        Host { id, name, default_ip }
    }
}

/// The largest capacity that a host queue is made with here.
pub const MAX_QUEUE_CAPACITY: usize = 0x7fff_ffff;

#[verifier::external_type_specification]
#[verifier::external_body]
#[verifier::reject_recursive_types(T)]
pub struct ExArrayQueue<T>(ArrayQueue<T>);

/// The hosts that a queue holds, front first.
pub uninterp spec fn queued_hosts(q: ArrayQueue<Host>) -> Seq<Host>;

/// The capacity that a queue was made with.
pub uninterp spec fn queue_capacity(q: ArrayQueue<Host>) -> nat;

/// Relies on `ArrayQueue::new`: an empty queue with room for `cap` items; it
/// panics only on a zero capacity or one too large to index.
#[verifier::external_body]
pub(crate) fn new_host_queue(cap: usize) -> (q: ArrayQueue<Host>)
    requires
        0 < cap <= MAX_QUEUE_CAPACITY,
    ensures
        queued_hosts(q) == Seq::<Host>::empty(),
        queue_capacity(q) == cap,
{
    ArrayQueue::new(cap)
}

/// Relies on `ArrayQueue::push_mut`: appends at the back unless the queue is
/// full, in which case the host is handed back and the queue is unchanged.
#[verifier::external_body]
pub(crate) fn push_host(q: &mut ArrayQueue<Host>, host: Host) -> (r: Result<(), Host>)
    ensures
        queue_capacity(*final(q)) == queue_capacity(*old(q)),
        queued_hosts(*old(q)).len() < queue_capacity(*old(q)) ==> {
            &&& r is Ok
            &&& queued_hosts(*final(q)) == queued_hosts(*old(q)).push(host)
        },
        queued_hosts(*old(q)).len() >= queue_capacity(*old(q)) ==> {
            &&& r == Err::<(), Host>(host)
            &&& queued_hosts(*final(q)) == queued_hosts(*old(q))
        },
{
    q.push_mut(host)
}

/// Relies on `ArrayQueue::pop_mut`: removes the front host, or gives `None`
/// on an empty queue.
#[verifier::external_body]
pub(crate) fn pop_host(q: &mut ArrayQueue<Host>) -> (r: Option<Host>)
    ensures
        queue_capacity(*final(q)) == queue_capacity(*old(q)),
        queued_hosts(*old(q)).len() > 0 ==> {
            &&& r == Some(queued_hosts(*old(q))[0])
            &&& queued_hosts(*final(q)) == queued_hosts(*old(q)).drop_first()
        },
        queued_hosts(*old(q)).len() == 0 ==> {
            &&& r is None
            &&& queued_hosts(*final(q)) == queued_hosts(*old(q))
        },
{
    q.pop_mut()
}

/// Relies on `ArrayQueue::len`: the number of hosts in the queue.
#[verifier::external_body]
pub(crate) fn host_queue_len(q: &ArrayQueue<Host>) -> (r: usize)
    ensures
        r == queued_hosts(*q).len(),
{
    q.len()
}

} // verus!
