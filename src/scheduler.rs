//! The thread-per-core host partitioner. Hosts are dealt round-robin into
//! one bounded "from" queue per worker thread. During a round each worker
//! takes hosts from its own queue first and then, to balance the load, from
//! the queues after it in circular order; every host it is done with goes
//! into its own "to" queue. At the start of the next scope the two sides
//! swap roles.

use crate::host::{
    host_queue_len, new_host_queue, pop_host, push_host, queue_capacity, queued_hosts, Host,
    MAX_QUEUE_CAPACITY,
};
use crossbeam::queue::ArrayQueue;
use vstd::multiset::Multiset;
use vstd::prelude::*;

verus! {

broadcast use {
    vstd::seq_lib::group_to_multiset_ensures,
    vstd::multiset::group_multiset_axioms,
    vstd::multiset::group_multiset_properties,
};

/// The contents of each queue, in queue order.
pub open spec fn queue_views(qs: Seq<ArrayQueue<Host>>) -> Seq<Seq<Host>> {
    qs.map_values(|q: ArrayQueue<Host>| queued_hosts(q))
}

/// Every host held by a list of queues.
pub open spec fn all_hosts(qs: Seq<Seq<Host>>) -> Multiset<Host>
    decreases qs.len(),
{
    if qs.len() == 0 {
        Multiset::empty()
    } else {
        all_hosts(qs.drop_last()).add(qs.last().to_multiset())
    }
}

/// The hosts that queue `t` of `n` receives when `hosts` are dealt
/// round-robin: host `j` goes to queue `j % n`, in order.
pub open spec fn round_robin_share(hosts: Seq<Host>, n: nat, t: nat) -> Seq<Host>
    decreases hosts.len(),
{
    if hosts.len() == 0 {
        Seq::empty()
    } else {
        let prev = round_robin_share(hosts.drop_last(), n, t);
        if (hosts.len() - 1) as nat % n == t {
            prev.push(hosts.last())
        } else {
            prev
        }
    }
}

/// Replacing queue `i` changes the hosts held by exactly the two queues'
/// difference.
pub proof fn lemma_all_hosts_update(qs: Seq<Seq<Host>>, i: int, s: Seq<Host>)
    requires
        0 <= i < qs.len(),
    ensures
        all_hosts(qs.update(i, s)).add(qs[i].to_multiset()) == all_hosts(qs).add(s.to_multiset()),
    decreases qs.len(),
{
    let u = qs.update(i, s);
    assert(all_hosts(u) == all_hosts(u.drop_last()).add(u.last().to_multiset()));
    assert(all_hosts(qs) == all_hosts(qs.drop_last()).add(qs.last().to_multiset()));
    if i == qs.len() - 1 {
        assert(u.drop_last() =~= qs.drop_last());
        assert(u.last() == s);
    } else {
        assert(u.drop_last() =~= qs.drop_last().update(i, s));
        assert(u.last() == qs.last());
        lemma_all_hosts_update(qs.drop_last(), i, s);
    }
    assert forall|v: Host|
        #[trigger] all_hosts(u).add(qs[i].to_multiset()).count(v) == all_hosts(qs).add(
            s.to_multiset(),
        ).count(v) by {
        if i < qs.len() - 1 {
            assert(all_hosts(qs.drop_last().update(i, s)).add(qs[i].to_multiset()).count(v)
                == all_hosts(qs.drop_last()).add(s.to_multiset()).count(v));
        }
    }
    assert(all_hosts(u).add(qs[i].to_multiset()) =~= all_hosts(qs).add(s.to_multiset()));
}

/// A list of empty queues holds no host.
pub proof fn lemma_all_hosts_empty(qs: Seq<Seq<Host>>)
    requires
        forall|i: int| 0 <= i < qs.len() ==> qs[i].len() == 0,
    ensures
        all_hosts(qs) == Multiset::<Host>::empty(),
    decreases qs.len(),
{
    if qs.len() > 0 {
        lemma_all_hosts_empty(qs.drop_last());
        assert(qs.last().to_multiset() =~= Multiset::<Host>::empty()) by {
            assert(qs.last() =~= Seq::<Host>::empty());
        }
        assert(all_hosts(qs) =~= Multiset::<Host>::empty());
    }
}

/// Distributes hosts over worker threads and keeps them between rounds.
pub struct NewScheduler {
    num_threads: usize,
    /// The number of hosts that the scheduler was made with.
    host_count: usize,
    /// The number of hosts that workers have taken out and not yet given back.
    hosts_out: usize,
    /// Queues to take hosts from during the current round.
    thread_hosts: Vec<ArrayQueue<Host>>,
    /// Queues that hosts are put into once a worker is done with them.
    thread_hosts_processed: Vec<ArrayQueue<Host>>,
    hosts_need_swap: bool,
}

impl NewScheduler {
    pub closed spec fn threads(&self) -> nat {
        self.num_threads as nat
    }

    /// The "from" queues, one per thread.
    pub closed spec fn from_queues(&self) -> Seq<Seq<Host>> {
        queue_views(self.thread_hosts@)
    }

    /// The "to" queues, one per thread.
    pub closed spec fn to_queues(&self) -> Seq<Seq<Host>> {
        queue_views(self.thread_hosts_processed@)
    }

    pub closed spec fn host_total(&self) -> nat {
        self.host_count as nat
    }

    pub closed spec fn hosts_handed_out(&self) -> nat {
        self.hosts_out as nat
    }

    pub closed spec fn needs_swap(&self) -> bool {
        self.hosts_need_swap
    }

    /// Every host that sits in one of the scheduler's queues.
    pub open spec fn queued(&self) -> Multiset<Host> {
        all_hosts(self.from_queues()).add(all_hosts(self.to_queues()))
    }

    pub closed spec fn wf(&self) -> bool {
        &&& 0 < self.num_threads <= u32::MAX
        &&& self.thread_hosts@.len() == self.num_threads
        &&& self.thread_hosts_processed@.len() == self.num_threads
        &&& forall|i: int|
            0 <= i < self.num_threads ==> queue_capacity(#[trigger] self.thread_hosts@[i])
                >= self.host_count
        &&& forall|i: int|
            0 <= i < self.num_threads ==> queue_capacity(#[trigger] self.thread_hosts_processed@[i])
                >= self.host_count
        &&& self.queued().len() + self.hosts_out == self.host_count
    }

    /// Deals `hosts` round-robin into the "from" queues of `num_threads`
    /// worker threads; each queue has room for every host.
    pub fn new(num_threads: u32, hosts: Vec<Host>) -> (r: Self)
        requires
            num_threads > 0,
            hosts.len() <= MAX_QUEUE_CAPACITY,
        ensures
            r.wf(),
            r.threads() == num_threads,
            r.host_total() == hosts.len(),
            r.hosts_handed_out() == 0,
            !r.needs_swap(),
            forall|t: int|
                0 <= t < num_threads ==> #[trigger] r.from_queues()[t] == round_robin_share(
                    hosts@,
                    num_threads as nat,
                    t as nat,
                ),
            forall|t: int| 0 <= t < num_threads ==> #[trigger] r.to_queues()[t].len() == 0,
            r.queued() == hosts@.to_multiset(),
    {
        let n = num_threads as usize;
        let len = hosts.len();
        // a queue cannot be empty of room, even when there is no host
        let cap = if len == 0 { 1 } else { len };
        let mut thread_hosts: Vec<ArrayQueue<Host>> = Vec::new();
        let mut thread_hosts_processed: Vec<ArrayQueue<Host>> = Vec::new();
        let mut t: usize = 0;
        while t < n
            invariant
                t <= n,
                thread_hosts@.len() == t,
                thread_hosts_processed@.len() == t,
                0 < cap <= MAX_QUEUE_CAPACITY,
                cap >= len,
                forall|i: int|
                    0 <= i < t ==> queued_hosts(#[trigger] thread_hosts@[i]) == Seq::<Host>::empty()
                        && queue_capacity(thread_hosts@[i]) == cap,
                forall|i: int|
                    0 <= i < t ==> queued_hosts(#[trigger] thread_hosts_processed@[i])
                        == Seq::<Host>::empty() && queue_capacity(thread_hosts_processed@[i])
                        == cap,
            decreases n - t,
        {
            thread_hosts.push(new_host_queue(cap));
            thread_hosts_processed.push(new_host_queue(cap));
            t = t + 1;
        }

        // reverse the hosts so that they can be taken from the back in order
        let ghost all = hosts@;
        let mut rest = hosts;
        let mut reversed: Vec<Host> = Vec::new();
        while rest.len() > 0
            invariant
                rest@.len() + reversed@.len() == len,
                all.len() == len,
                forall|k: int| 0 <= k < rest@.len() ==> rest@[k] == all[k],
                forall|k: int| 0 <= k < reversed@.len() ==> reversed@[k] == all[len - 1 - k],
            decreases rest@.len(),
        {
            let h = rest.pop().unwrap();
            reversed.push(h);
        }

        let mut j: usize = 0;
        let mut t: usize = 0;
        while j < len
            invariant
                j <= len,
                t < n,
                cap >= len,
                t as nat == j as nat % n as nat,
                reversed@.len() == len - j,
                all.len() == len,
                forall|k: int| 0 <= k < reversed@.len() ==> reversed@[k] == all[len - 1 - k],
                thread_hosts@.len() == n,
                forall|i: int|
                    0 <= i < n ==> queue_capacity(#[trigger] thread_hosts@[i]) == cap,
                forall|i: int|
                    0 <= i < n ==> #[trigger] queued_hosts(thread_hosts@[i]) == round_robin_share(
                        all.take(j as int),
                        n as nat,
                        i as nat,
                    ),
            decreases len - j,
        {
            let h = reversed.pop().unwrap();
            proof {
                let s = all.take(j as int + 1);
                assert(s.drop_last() =~= all.take(j as int));
                assert(h == all[j as int]);
                assert forall|i: int| 0 <= i < n implies #[trigger] round_robin_share(s, n as nat, i as nat)
                    == if i == t {
                        round_robin_share(all.take(j as int), n as nat, i as nat).push(h)
                    } else {
                        round_robin_share(all.take(j as int), n as nat, i as nat)
                    } by {
                    assert(s.last() == h);
                }
                assert(queued_hosts(thread_hosts@[t as int]).len() <= j) by {
                    lemma_round_robin_share_len(all.take(j as int), n as nat, t as nat);
                }
            }
            assert(queue_capacity(thread_hosts@[t as int]) == cap);
            let ghost before = thread_hosts@;
            let mut q = thread_hosts.remove(t);
            let pushed = push_host(&mut q, h);
            thread_hosts.insert(t, q);
            proof {
                assert(pushed is Ok);
                assert(thread_hosts@ =~= before.update(t as int, q));
                assert((j + 1) as nat % n as nat == if t + 1 == n { 0 } else { t + 1 }) by {
                    vstd::arithmetic::div_mod::lemma_add_mod_noop(j as int, 1, n as int);
                    if n > 1 {
                        vstd::arithmetic::div_mod::lemma_small_mod(1, n as nat);
                    }
                    if t + 1 < n {
                        vstd::arithmetic::div_mod::lemma_small_mod((t + 1) as nat, n as nat);
                    }
                }
            }
            assert forall|i: int| 0 <= i < n implies #[trigger] queued_hosts(thread_hosts@[i])
                == round_robin_share(all.take(j as int + 1), n as nat, i as nat) by {}
            j = j + 1;
            t = if t + 1 == n { 0 } else { t + 1 };
        }
        proof {
            assert(all.take(len as int) =~= all);
        }
        let r = NewScheduler {
            num_threads: n,
            host_count: len,
            hosts_out: 0,
            thread_hosts,
            thread_hosts_processed,
            hosts_need_swap: false,
        };
        proof {
            lemma_all_hosts_empty(r.to_queues());
            lemma_round_robin_all_hosts(all, n as nat, r.from_queues());
        }
        r
    }

    /// The maximum number of threads that will ever run in parallel.
    pub fn parallelism(&self) -> (r: usize)
        ensures
            r == self.threads(),
    {
        self.num_threads
    }
}

/// A round-robin share never holds more hosts than were dealt.
pub proof fn lemma_round_robin_share_len(hosts: Seq<Host>, n: nat, t: nat)
    requires
        n > 0,
    ensures
        round_robin_share(hosts, n, t).len() <= hosts.len(),
    decreases hosts.len(),
{
    if hosts.len() > 0 {
        lemma_round_robin_share_len(hosts.drop_last(), n, t);
    }
}

/// Dealing round-robin loses and adds no host.
pub proof fn lemma_round_robin_all_hosts(hosts: Seq<Host>, n: nat, qs: Seq<Seq<Host>>)
    requires
        n > 0,
        qs.len() == n,
        forall|t: int| 0 <= t < n ==> #[trigger] qs[t] == round_robin_share(hosts, n, t as nat),
    ensures
        all_hosts(qs) == hosts.to_multiset(),
    decreases hosts.len(),
{
    if hosts.len() == 0 {
        lemma_all_hosts_empty(qs);
        assert(hosts.to_multiset() =~= Multiset::<Host>::empty()) by {
            assert(hosts =~= Seq::<Host>::empty());
        }
    } else {
        let prev = hosts.drop_last();
        let t = (hosts.len() - 1) as nat % n;
        let pqs = Seq::new(n, |i: int| round_robin_share(prev, n, i as nat));
        lemma_round_robin_all_hosts(prev, n, pqs);
        assert(qs =~= pqs.update(t as int, pqs[t as int].push(hosts.last())));
        lemma_all_hosts_update(pqs, t as int, pqs[t as int].push(hosts.last()));
        assert(hosts =~= prev.push(hosts.last()));
        assert(hosts.to_multiset() == prev.to_multiset().insert(hosts.last()));
        assert(pqs[t as int].push(hosts.last()).to_multiset() == pqs[t as int].to_multiset().insert(
            hosts.last(),
        ));
        let x = hosts.last();
        let upd = pqs.update(t as int, pqs[t as int].push(x));
        assert forall|v: Host| #[trigger] all_hosts(qs).count(v) == hosts.to_multiset().count(v) by {
            assert(all_hosts(upd).add(pqs[t as int].to_multiset()).count(v) == all_hosts(pqs).add(
                pqs[t as int].push(x).to_multiset(),
            ).count(v));
        }
        assert(all_hosts(qs) =~= hosts.to_multiset());
    }
}


/// Every queue from circular offset `lo` up to, not including, `hi`
/// (counted from queue `start`) is empty.
pub open spec fn empty_between(qs: Seq<Seq<Host>>, start: nat, lo: nat, hi: nat) -> bool {
    forall|o: nat| lo <= o < hi ==> #[trigger] qs[queue_at(qs.len(), start, o)].len() == 0
}

/// The queue that circular offset `offset` from queue `start` stands for,
/// among `n` queues (both below `n`).
pub open spec fn queue_at(n: nat, start: nat, offset: nat) -> int {
    if start + offset < n {
        (start + offset) as int
    } else {
        start + offset - n
    }
}

/// The "to" queues once `held` has been put back into queue `t`.
pub open spec fn put_back(qs: Seq<Seq<Host>>, t: int, held: Option<Host>) -> Seq<Seq<Host>> {
    match held {
        Some(h) => qs.update(t, qs[t].push(h)),
        None => qs,
    }
}

/// The hosts in an optional slot.
pub open spec fn held_hosts(h: Option<Host>) -> Multiset<Host> {
    match h {
        Some(h) => Multiset::singleton(h),
        None => Multiset::empty(),
    }
}

/// Putting a held host back adds exactly that host.
pub proof fn lemma_put_back(qs: Seq<Seq<Host>>, t: int, held: Option<Host>)
    requires
        0 <= t < qs.len(),
    ensures
        all_hosts(put_back(qs, t, held)) == all_hosts(qs).add(held_hosts(held)),
{
    match held {
        Some(h) => {
            lemma_all_hosts_update(qs, t, qs[t].push(h));
            assert(qs[t].push(h).to_multiset() == qs[t].to_multiset().insert(h));
            let u = put_back(qs, t, held);
            assert forall|v: Host| #[trigger] all_hosts(u).count(v) == all_hosts(qs).add(
                held_hosts(held),
            ).count(v) by {
                assert(all_hosts(u).add(qs[t].to_multiset()).count(v) == all_hosts(qs).add(
                    qs[t].push(h).to_multiset(),
                ).count(v));
            }
            assert(all_hosts(u) =~= all_hosts(qs).add(held_hosts(held)));
        },
        None => {
            assert(all_hosts(qs) =~= all_hosts(qs).add(held_hosts(held)));
        },
    }
}

/// Taking the front host of a queue removes exactly that host.
pub proof fn lemma_take_front(qs: Seq<Seq<Host>>, q: int)
    requires
        0 <= q < qs.len(),
        qs[q].len() > 0,
    ensures
        all_hosts(qs.update(q, qs[q].drop_first())).insert(qs[q][0]) == all_hosts(qs),
{
    let d = qs[q].drop_first();
    lemma_all_hosts_update(qs, q, d);
    assert(qs[q] =~= d.insert(0, qs[q][0]));
    assert(qs[q].to_multiset() == d.to_multiset().insert(qs[q][0])) by {
        assert(d.insert(0, qs[q][0]).remove(0) =~= d);
    }
    let u = qs.update(q, d);
    assert forall|v: Host| #[trigger] all_hosts(u).insert(qs[q][0]).count(v) == all_hosts(qs).count(
        v,
    ) by {
        assert(all_hosts(u).add(qs[q].to_multiset()).count(v) == all_hosts(qs).add(
            d.to_multiset(),
        ).count(v));
    }
    assert(all_hosts(u).insert(qs[q][0]) =~= all_hosts(qs));
}

/// One queue never holds more hosts than all of them together.
pub proof fn lemma_queue_len_le_all(qs: Seq<Seq<Host>>, i: int)
    requires
        0 <= i < qs.len(),
    ensures
        qs[i].len() <= all_hosts(qs).len(),
{
    let e = Seq::<Host>::empty();
    let u = qs.update(i, e);
    lemma_all_hosts_update(qs, i, e);
    assert(e.to_multiset().len() == 0);
    assert(all_hosts(u).add(qs[i].to_multiset()).len() == all_hosts(u).len()
        + qs[i].to_multiset().len());
    assert(all_hosts(qs).add(e.to_multiset()).len() == all_hosts(qs).len() + e.to_multiset().len());
}

impl NewScheduler {
    /// Puts `host` at the back of thread `t`'s "to" queue.
    fn give_back(&mut self, t: usize, host: Host)
        requires
            old(self).wf(),
            t < old(self).threads(),
            old(self).hosts_handed_out() > 0,
        ensures
            final(self).wf(),
            final(self).threads() == old(self).threads(),
            final(self).host_total() == old(self).host_total(),
            final(self).needs_swap() == old(self).needs_swap(),
            final(self).hosts_handed_out() == old(self).hosts_handed_out() - 1,
            final(self).from_queues() == old(self).from_queues(),
            final(self).to_queues() == put_back(old(self).to_queues(), t as int, Some(host)),
    {
        let ghost before = self.thread_hosts_processed@;
        proof {
            lemma_queue_len_le_all(self.to_queues(), t as int);
            assert(queue_capacity(self.thread_hosts_processed@[t as int]) >= self.host_count);
        }
        let mut q = self.thread_hosts_processed.remove(t);
        let pushed = push_host(&mut q, host);
        self.thread_hosts_processed.insert(t, q);
        self.hosts_out = self.hosts_out - 1;
        proof {
            assert(pushed is Ok);
            assert(self.thread_hosts_processed@ =~= before.update(t as int, q));
            let old_to = queue_views(before);
            assert(self.to_queues() =~= old_to.update(t as int, old_to[t as int].push(host)));
            lemma_all_hosts_update(old_to, t as int, old_to[t as int].push(host));
            let new_to = self.to_queues();
            let pushed_q = old_to[t as int].push(host);
            assert(pushed_q.to_multiset().len() == old_to[t as int].to_multiset().len() + 1);
            assert(all_hosts(new_to).add(old_to[t as int].to_multiset()).len() == all_hosts(
                new_to,
            ).len() + old_to[t as int].to_multiset().len());
            assert(all_hosts(old_to).add(pushed_q.to_multiset()).len() == all_hosts(old_to).len()
                + pushed_q.to_multiset().len());
            assert(all_hosts(new_to).len() == all_hosts(old_to).len() + 1);
            assert(self.queued().len() + self.hosts_out == self.host_count);
        }
    }
}

/// A worker's cursor over the hosts of one round. It holds at most one host
/// at a time: the one that `next` handed out last.
pub struct HostIter {
    /// The index of this thread; its "from" queue is the first one searched.
    this_thread_index: usize,
    /// How far the search has moved past this thread's own queue.
    thread_index_iter_offset: usize,
    /// The host that was last returned from `next`.
    current_host: Option<Host>,
}

impl HostIter {
    pub closed spec fn thread(&self) -> nat {
        self.this_thread_index as nat
    }

    pub closed spec fn offset(&self) -> nat {
        self.thread_index_iter_offset as nat
    }

    pub closed spec fn current(&self) -> Option<Host> {
        self.current_host
    }

    /// The hosts that this cursor holds.
    pub open spec fn held(&self) -> Multiset<Host> {
        held_hosts(self.current())
    }

    /// Whether this cursor may be used with `sched`.
    pub open spec fn fits(&self, sched: &NewScheduler) -> bool {
        &&& sched.wf()
        &&& self.thread() < sched.threads()
        &&& self.offset() <= sched.threads()
        &&& self.current() is Some ==> sched.hosts_handed_out() > 0
    }

    /// A fresh cursor for worker thread `thread_idx`.
    pub fn new(thread_idx: usize) -> (r: Self)
        ensures
            r.thread() == thread_idx,
            r.offset() == 0,
            r.current() is None,
    {
        HostIter { this_thread_index: thread_idx, thread_index_iter_offset: 0, current_host: None }
    }

    /// Whether this cursor holds a host.
    pub fn holds_host(&self) -> (r: bool)
        ensures
            r == self.current() is Some,
    {
        self.current_host.is_some()
    }

    /// Puts the held host, if any, into this thread's "to" queue.
    fn return_current_host(&mut self, sched: &mut NewScheduler)
        requires
            old(self).fits(old(sched)),
        ensures
            final(sched).wf(),
            final(sched).threads() == old(sched).threads(),
            final(sched).host_total() == old(sched).host_total(),
            final(sched).needs_swap() == old(sched).needs_swap(),
            final(sched).hosts_handed_out() == old(sched).hosts_handed_out() - old(self).held().len(),
            final(sched).from_queues() == old(sched).from_queues(),
            final(sched).to_queues() == put_back(
                old(sched).to_queues(),
                old(self).thread() as int,
                old(self).current(),
            ),
            final(self).thread() == old(self).thread(),
            final(self).offset() == old(self).offset(),
            final(self).current() is None,
    {
        if let Some(host) = self.current_host.take() {
            sched.give_back(self.this_thread_index, host);
        }
    }

    /// Hands out the next host of this round. The host held so far goes into
    /// this thread's "to" queue; the next one comes from this thread's "from"
    /// queue or, once that is empty, from the queues after it in circular
    /// order. `None` once every queue has been found empty.
    pub fn next<'b>(&'b mut self, sched: &mut NewScheduler) -> (r: Option<&'b mut Host>)
        requires
            old(self).fits(old(sched)),
        ensures
            final(sched).wf(),
            final(sched).threads() == old(sched).threads(),
            final(sched).host_total() == old(sched).host_total(),
            final(sched).needs_swap() == old(sched).needs_swap(),
            final(self).thread() == old(self).thread(),
            final(sched).to_queues() == put_back(
                old(sched).to_queues(),
                old(self).thread() as int,
                old(self).current(),
            ),
            final(sched).queued().add(
                match r {
                    Some(h) => Multiset::singleton(*h),
                    None => Multiset::empty(),
                },
            ) == old(sched).queued().add(old(self).held()),
            ({
                let from = old(sched).from_queues();
                let n = old(sched).threads();
                let start = old(self).thread();
                match r {
                    Some(h) => {
                        let k = final(self).offset();
                        let q = queue_at(n, start, k);
                        &&& old(self).offset() <= k < n
                        &&& empty_between(from, start, old(self).offset(), k)
                        &&& from[q].len() > 0
                        &&& *h == from[q][0]
                        &&& final(self).current() == Some(*final(h))
                        &&& final(sched).from_queues() == from.update(q, from[q].drop_first())
                        &&& final(sched).hosts_handed_out() == old(sched).hosts_handed_out()
                            - old(self).held().len() + 1
                    },
                    None => {
                        &&& empty_between(from, start, old(self).offset(), n)
                        &&& final(self).current() is None
                        &&& final(sched).from_queues() == from
                        &&& final(self).offset() == n
                        &&& final(sched).hosts_handed_out() == old(sched).hosts_handed_out()
                            - old(self).held().len()
                    },
                }
            }),
    {
        proof {
            lemma_put_back(
                old(sched).to_queues(),
                old(self).thread() as int,
                old(self).current(),
            );
        }
        self.return_current_host(sched);
        let n = sched.num_threads;
        let ghost start = self.this_thread_index as nat;
        let ghost offset0 = self.thread_index_iter_offset as nat;
        let ghost from = sched.from_queues();
        let ghost to = sched.to_queues();
        let ghost out = sched.hosts_handed_out();
        let ghost swap = sched.needs_swap();
        let ghost total = sched.host_total();
        while self.thread_index_iter_offset < n
            invariant
                old(sched).threads() == n,
                old(sched).host_total() == total,
                old(sched).needs_swap() == swap,
                old(sched).from_queues() == from,
                to == put_back(old(sched).to_queues(), start as int, old(self).current()),
                all_hosts(to) == all_hosts(old(sched).to_queues()).add(old(self).held()),
                out == old(sched).hosts_handed_out() - old(self).held().len(),
                old(self).offset() == offset0,
                old(self).thread() == start,
                from.len() == n,
                sched.wf(),
                sched.to_queues() == to,
                sched.hosts_handed_out() == out,
                sched.needs_swap() == swap,
                sched.host_total() == total,
                n == sched.threads(),
                n <= u32::MAX,
                self.this_thread_index == start,
                start < n,
                self.current() is None,
                offset0 <= self.offset() <= n,
                sched.from_queues() == from,
                empty_between(from, start, offset0, self.offset()),
            decreases n - self.offset(),
        {
            let idx = if self.thread_index_iter_offset < n - self.this_thread_index {
                self.this_thread_index + self.thread_index_iter_offset
            } else {
                self.thread_index_iter_offset - (n - self.this_thread_index)
            };
            assert(idx == queue_at(n as nat, start, self.offset()));
            proof {
                lemma_queue_len_le_all(sched.from_queues(), idx as int);
            }
            let ghost before = sched.thread_hosts@;
            let mut q = sched.thread_hosts.remove(idx);
            let popped = pop_host(&mut q);
            sched.thread_hosts.insert(idx, q);
            proof {
                assert(sched.thread_hosts@ =~= before.update(idx as int, q));
            }
            match popped {
                Some(host) => {
                    sched.hosts_out = sched.hosts_out + 1;
                    proof {
                        let old_from = queue_views(before);
                        assert(sched.from_queues() =~= old_from.update(
                            idx as int,
                            old_from[idx as int].drop_first(),
                        ));
                        lemma_all_hosts_update(
                            old_from,
                            idx as int,
                            old_from[idx as int].drop_first(),
                        );
                        assert(old_from[idx as int] =~= old_from[idx as int].drop_first().insert(
                            0,
                            host,
                        ));
                        let new_from = sched.from_queues();
                        let dq = old_from[idx as int].drop_first();
                        assert(dq.to_multiset().len() + 1 == old_from[idx as int].to_multiset().len());
                        assert(all_hosts(new_from).add(old_from[idx as int].to_multiset()).len()
                            == all_hosts(new_from).len() + old_from[idx as int].to_multiset().len());
                        assert(all_hosts(old_from).add(dq.to_multiset()).len() == all_hosts(
                            old_from,
                        ).len() + dq.to_multiset().len());
                        assert(all_hosts(new_from).len() + 1 == all_hosts(old_from).len());
                        assert(sched.queued().len() + sched.hosts_out == sched.host_count);
                        assert(old_from == from);
                        assert(from[queue_at(n as nat, start, self.offset())].len() > 0);
                        assert(host == from[idx as int][0]);
                        lemma_take_front(from, idx as int);
                        let held0 = old(self).held();
                        assert forall|v: Host| #[trigger] sched.queued().insert(host).count(v)
                            == old(sched).queued().add(held0).count(v) by {
                            assert(all_hosts(to).count(v) == all_hosts(old(sched).to_queues()).add(
                                held0,
                            ).count(v));
                            assert(all_hosts(new_from).insert(host).count(v) == all_hosts(
                                from,
                            ).count(v));
                        }
                        assert(sched.queued().add(Multiset::singleton(host)) =~= old(
                            sched,
                        ).queued().add(held0));
                    }
                    let h = Option::insert(&mut self.current_host, host);
                    return Some(h);
                },
                None => {
                    proof {
                        assert(queued_hosts(q) == queued_hosts(before[idx as int]));
                        assert(sched.from_queues() =~= from);
                        assert(from[idx as int].len() == 0);
                    }
                    self.thread_index_iter_offset = self.thread_index_iter_offset + 1;
                },
            }
        }
        proof {
            let held0 = old(self).held();
            assert forall|v: Host| #[trigger] sched.queued().count(v) == old(sched).queued().add(
                held0,
            ).count(v) by {
                assert(all_hosts(to).count(v) == all_hosts(old(sched).to_queues()).add(
                    held0,
                ).count(v));
            }
            assert(sched.queued().add(Multiset::empty()) =~= old(sched).queued().add(held0));
        }
        None
    }
}

impl HostIter {
    /// Ends this worker's part of the round: the held host, if any, goes
    /// back into this thread's "to" queue. Returns whether the cursor was
    /// used to the end, that is, holds no host and would find every queue
    /// still to be searched empty; a task that stops early gets `false`.
    pub fn finish(self, sched: &mut NewScheduler) -> (drained: bool)
        requires
            self.fits(old(sched)),
        ensures
            final(sched).wf(),
            final(sched).threads() == old(sched).threads(),
            final(sched).host_total() == old(sched).host_total(),
            final(sched).needs_swap() == old(sched).needs_swap(),
            final(sched).hosts_handed_out() == old(sched).hosts_handed_out() - self.held().len(),
            final(sched).from_queues() == old(sched).from_queues(),
            final(sched).to_queues() == put_back(
                old(sched).to_queues(),
                self.thread() as int,
                self.current(),
            ),
            final(sched).queued() == old(sched).queued().add(self.held()),
            drained == (self.current() is None && empty_between(
                old(sched).from_queues(),
                self.thread(),
                self.offset(),
                old(sched).threads(),
            )),
    {
        proof {
            lemma_put_back(old(sched).to_queues(), self.thread() as int, self.current());
        }
        let held = self.current_host.is_some();
        let mut iter = self;
        iter.return_current_host(sched);
        if held {
            return false;
        }
        queues_empty_from(sched, iter.this_thread_index, iter.thread_index_iter_offset)
    }
}

/// Whether every "from" queue at circular offset `offset` or later, counted
/// from queue `start`, is empty.
fn queues_empty_from(sched: &NewScheduler, start: usize, offset: usize) -> (r: bool)
    requires
        sched.wf(),
        start < sched.threads(),
        offset <= sched.threads(),
    ensures
        r == empty_between(sched.from_queues(), start as nat, offset as nat, sched.threads()),
{
    let n = sched.num_threads;
    let ghost from = sched.from_queues();
    let ghost offset0 = offset as nat;
    let mut o = offset;
    while o < n
        invariant
            start < n,
            n == sched.threads(),
            from.len() == n,
            from == sched.from_queues(),
            sched.thread_hosts@.len() == n,
            offset0 == offset as nat,
            offset0 <= o <= n,
            empty_between(from, start as nat, offset0, o as nat),
        decreases n - o,
    {
        let idx = if o < n - start {
            start + o
        } else {
            o - (n - start)
        };
        assert(idx == queue_at(n as nat, start as nat, o as nat));
        assert(from[idx as int] == queued_hosts(sched.thread_hosts@[idx as int]));
        if host_queue_len(&sched.thread_hosts[idx]) > 0 {
            assert(from[queue_at(from.len(), start as nat, o as nat)].len() > 0);
            assert(!empty_between(from, start as nat, offset0, n as nat));
            return false;
        }
        o = o + 1;
    }
    true
}

impl NewScheduler {
    /// Starts a scope: when the last round has run, the "to" queues it
    /// filled become the queues to take hosts from.
    pub fn begin_scope(&mut self)
        requires
            old(self).wf(),
        ensures
            final(self).wf(),
            final(self).threads() == old(self).threads(),
            final(self).host_total() == old(self).host_total(),
            final(self).hosts_handed_out() == old(self).hosts_handed_out(),
            !final(self).needs_swap(),
            old(self).needs_swap() ==> final(self).from_queues() == old(self).to_queues()
                && final(self).to_queues() == old(self).from_queues(),
            !old(self).needs_swap() ==> final(self).from_queues() == old(self).from_queues()
                && final(self).to_queues() == old(self).to_queues(),
            final(self).queued() == old(self).queued(),
    {
        if self.hosts_need_swap {
            std::mem::swap(&mut self.thread_hosts, &mut self.thread_hosts_processed);
            self.hosts_need_swap = false;
            proof {
                let a = all_hosts(self.from_queues());
                let b = all_hosts(self.to_queues());
                assert(a.add(b) =~= b.add(a));
            }
        }
    }

    /// Records that a round has run over the hosts, so that the next scope
    /// swaps the queues.
    pub fn set_hosts_need_swap(&mut self)
        requires
            old(self).wf(),
        ensures
            final(self).wf(),
            final(self).threads() == old(self).threads(),
            final(self).host_total() == old(self).host_total(),
            final(self).hosts_handed_out() == old(self).hosts_handed_out(),
            final(self).from_queues() == old(self).from_queues(),
            final(self).to_queues() == old(self).to_queues(),
            final(self).needs_swap(),
    {
        self.hosts_need_swap = true;
    }

    /// The queues that the next round takes hosts from.
    pub open spec fn pending_from(&self) -> Seq<Seq<Host>> {
        if self.needs_swap() {
            self.to_queues()
        } else {
            self.from_queues()
        }
    }

    /// The queues that the next round puts hosts into.
    pub open spec fn pending_to(&self) -> Seq<Seq<Host>> {
        if self.needs_swap() {
            self.from_queues()
        } else {
            self.to_queues()
        }
    }

    /// Takes every host back out of the scheduler, thread by thread: the
    /// hosts that the next round would take first, then those it would
    /// put back.
    pub fn join(self) -> (r: Vec<Vec<Host>>)
        requires
            self.wf(),
        ensures
            r@.len() == self.threads(),
            forall|t: int|
                0 <= t < self.threads() ==> #[trigger] r@[t]@ == self.pending_from()[t]
                    + self.pending_to()[t],
    {
        let mut s = self;
        s.begin_scope();
        let n = s.num_threads;
        assert forall|i: int| 0 <= i < n implies #[trigger] queued_hosts(s.thread_hosts@[i])
            == self.pending_from()[i] by {
            assert(queue_views(s.thread_hosts@)[i] == queued_hosts(s.thread_hosts@[i]));
        }
        assert forall|i: int| 0 <= i < n implies #[trigger] queued_hosts(
            s.thread_hosts_processed@[i],
        ) == self.pending_to()[i] by {
            assert(queue_views(s.thread_hosts_processed@)[i] == queued_hosts(
                s.thread_hosts_processed@[i],
            ));
        }
        let mut r: Vec<Vec<Host>> = Vec::new();
        let mut t: usize = 0;
        while t < n
            invariant
                t <= n,
                n == s.thread_hosts@.len(),
                n == s.thread_hosts_processed@.len(),
                n == self.threads(),
                r@.len() == t,
                self.pending_from().len() == n,
                self.pending_to().len() == n,
                forall|i: int|
                    t <= i < n ==> #[trigger] queued_hosts(s.thread_hosts@[i])
                        == self.pending_from()[i],
                forall|i: int|
                    t <= i < n ==> #[trigger] queued_hosts(s.thread_hosts_processed@[i])
                        == self.pending_to()[i],
                forall|i: int|
                    0 <= i < t ==> #[trigger] r@[i]@ == self.pending_from()[i]
                        + self.pending_to()[i],
            decreases n - t,
        {
            let mut hosts: Vec<Host> = Vec::new();
            let ghost qs = s.thread_hosts@;
            let ghost ps = s.thread_hosts_processed@;
            let mut q = s.thread_hosts.remove(t);
            drain_queue(&mut q, &mut hosts);
            s.thread_hosts.insert(t, q);
            let mut p = s.thread_hosts_processed.remove(t);
            drain_queue(&mut p, &mut hosts);
            s.thread_hosts_processed.insert(t, p);
            proof {
                assert(hosts@ =~= queued_hosts(qs[t as int]) + queued_hosts(ps[t as int]));
                assert(s.thread_hosts@ =~= qs.update(t as int, q));
                assert(s.thread_hosts_processed@ =~= ps.update(t as int, p));
            }
            r.push(hosts);
            t = t + 1;
        }
        r
    }
}

/// Moves every host of `q`, front first, to the back of `out`.
fn drain_queue(q: &mut ArrayQueue<Host>, out: &mut Vec<Host>)
    ensures
        final(out)@ == old(out)@ + queued_hosts(*old(q)),
        queued_hosts(*final(q)) == Seq::<Host>::empty(),
        queue_capacity(*final(q)) == queue_capacity(*old(q)),
{
    let ghost all = queued_hosts(*q);
    let ghost start = out@;
    loop
        invariant
            start + all == out@ + queued_hosts(*q),
            queue_capacity(*q) == queue_capacity(*old(q)),
            all == queued_hosts(*old(q)),
            start == old(out)@,
        ensures
            start + all == out@ + queued_hosts(*q),
            queued_hosts(*q) == Seq::<Host>::empty(),
            queue_capacity(*q) == queue_capacity(*old(q)),
        decreases queued_hosts(*q).len(),
    {
        let ghost before = queued_hosts(*q);
        match pop_host(q) {
            Some(h) => {
                proof {
                    assert(before =~= seq![h] + queued_hosts(*q));
                    assert(out@.push(h) + queued_hosts(*q) =~= out@ + before);
                }
                out.push(h);
            },
            None => {
                proof {
                    assert(queued_hosts(*q) =~= Seq::<Host>::empty());
                    assert(out@ + queued_hosts(*q) =~= out@);
                }
                break;
            },
        }
    }
}

/// Hosts are neither lost nor made up. Take the states that a scheduler
/// goes through over any series of calls (each `next`, `finish`,
/// `begin_scope` and `set_hosts_need_swap` keeps the queued hosts together
/// with those the workers hold), with `held` the hosts that workers hold in
/// each state. When no worker holds a host at the start and at the end, the
/// scheduler ends with exactly the hosts it started with.
pub proof fn lemma_hosts_conserved(states: Seq<NewScheduler>, held: Seq<Multiset<Host>>)
    requires
        states.len() == held.len(),
        states.len() > 0,
        forall|i: int|
            0 <= i < states.len() - 1 ==> #[trigger] states[i + 1].queued().add(held[i + 1])
                == states[i].queued().add(held[i]),
        held[0] == Multiset::<Host>::empty(),
        held.last() == Multiset::<Host>::empty(),
    ensures
        states.last().queued() == states[0].queued(),
    decreases states.len(),
{
    let n = states.len() as int;
    assert forall|k: int| 0 <= k < n implies #[trigger] states[k].queued().add(held[k])
        == states[0].queued().add(held[0]) by {
        lemma_hosts_conserved_prefix(states, held, k);
    }
    assert(states[n - 1].queued().add(held[n - 1]) == states[0].queued().add(held[0]));
    assert(states.last().queued() =~= states.last().queued().add(Multiset::empty()));
    assert(states[0].queued() =~= states[0].queued().add(Multiset::empty()));
}

proof fn lemma_hosts_conserved_prefix(states: Seq<NewScheduler>, held: Seq<Multiset<Host>>, k: int)
    requires
        states.len() == held.len(),
        0 <= k < states.len(),
        forall|i: int|
            0 <= i < states.len() - 1 ==> #[trigger] states[i + 1].queued().add(held[i + 1])
                == states[i].queued().add(held[i]),
    ensures
        states[k].queued().add(held[k]) == states[0].queued().add(held[0]),
    decreases k,
{
    if k > 0 {
        lemma_hosts_conserved_prefix(states, held, k - 1);
        assert(states[(k - 1) + 1].queued().add(held[(k - 1) + 1]) == states[k - 1].queued().add(
            held[k - 1],
        ));
    }
}

} // verus!
