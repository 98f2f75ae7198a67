//! The queue of log records between the threads that log and the writer,
//! and the writer's drain: it prints exactly the records that were queued
//! when it began, oldest first.

use crate::logger::{record_line, times_fit, ShadowLogRecord};
use crate::text::string_of;
use crossbeam::queue::SegQueue;
use vstd::prelude::*;

verus! {

#[verifier::external_type_specification]
#[verifier::external_body]
#[verifier::reject_recursive_types(T)]
pub struct ExSegQueue<T>(SegQueue<T>);

/// The records that a queue holds, oldest first.
pub uninterp spec fn queued_records(q: SegQueue<ShadowLogRecord>) -> Seq<ShadowLogRecord>;

/// Relies on `SegQueue::new`: an empty, unbounded queue.
#[verifier::external_body]
fn new_record_queue() -> (q: SegQueue<ShadowLogRecord>)
    ensures
        queued_records(q) == Seq::<ShadowLogRecord>::empty(),
{
    SegQueue::new()
}

/// Relies on `SegQueue::push_mut`: appends at the back.
#[verifier::external_body]
fn push_record(q: &mut SegQueue<ShadowLogRecord>, r: ShadowLogRecord)
    ensures
        queued_records(*final(q)) == queued_records(*old(q)).push(r),
{
    q.push_mut(r)
}

/// Relies on `SegQueue::pop_mut`: removes the oldest record, or gives
/// `None` on an empty queue.
#[verifier::external_body]
fn pop_record(q: &mut SegQueue<ShadowLogRecord>) -> (r: Option<ShadowLogRecord>)
    ensures
        queued_records(*old(q)).len() > 0 ==> {
            &&& r == Some(queued_records(*old(q))[0])
            &&& queued_records(*final(q)) == queued_records(*old(q)).drop_first()
        },
        queued_records(*old(q)).len() == 0 ==> {
            &&& r is None
            &&& queued_records(*final(q)) == queued_records(*old(q))
        },
{
    q.pop_mut()
}

/// Relies on `SegQueue::len`: the number of records in the queue.
#[verifier::external_body]
fn record_queue_len(q: &SegQueue<ShadowLogRecord>) -> (r: usize)
    ensures
        r == queued_records(*q).len(),
{
    q.len()
}

/// The lines that the writer prints for `rs`, in order.
pub open spec fn lines_of(rs: Seq<ShadowLogRecord>) -> Seq<char>
    decreases rs.len(),
{
    if rs.len() == 0 {
        Seq::empty()
    } else {
        lines_of(rs.drop_last()) + record_line(rs.last())
    }
}

/// Queued log records, oldest first.
pub struct LogQueue {
    records: SegQueue<ShadowLogRecord>,
}

impl View for LogQueue {
    type V = Seq<ShadowLogRecord>;

    closed spec fn view(&self) -> Seq<ShadowLogRecord> {
        queued_records(self.records)
    }
}

impl LogQueue {
    /// Every queued record can be printed.
    pub open spec fn wf(&self) -> bool {
        forall|i: int| 0 <= i < self@.len() ==> #[trigger] times_fit(self@[i])
    }

    pub fn new() -> (r: Self)
        ensures
            r@ == Seq::<ShadowLogRecord>::empty(),
            r.wf(),
    {
        LogQueue { records: new_record_queue() }
    }

    /// Queues a record behind all the others.
    pub fn push(&mut self, record: ShadowLogRecord)
        requires
            old(self).wf(),
            times_fit(record),
        ensures
            final(self).wf(),
            final(self)@ == old(self)@.push(record),
    {
        push_record(&mut self.records, record);
    }

    /// The number of queued records.
    pub fn len(&self) -> (r: usize)
        ensures
            r == self@.len(),
    {
        record_queue_len(&self.records)
    }

    /// Takes exactly the `n` oldest records out of the queue and returns
    /// their lines, oldest first. Records queued behind them stay.
    pub fn flush_records(&mut self, n: usize) -> (r: String)
        requires
            old(self).wf(),
            n <= old(self)@.len(),
        ensures
            final(self).wf(),
            r@ == lines_of(old(self)@.take(n as int)),
            final(self)@ == old(self)@.skip(n as int),
    {
        let mut out: Vec<char> = Vec::new();
        let mut toflush: usize = n;
        let ghost all = self@;
        while toflush > 0
            invariant
                toflush <= n,
                n <= all.len(),
                self@ == all.skip(n - toflush),
                out@ == lines_of(all.take(n - toflush)),
                forall|i: int| 0 <= i < all.len() ==> #[trigger] times_fit(all[i]),
            decreases toflush,
        {
            let ghost done = (n - toflush) as int;
            let record = pop_record(&mut self.records).unwrap();
            assert(record == all[done]);
            record.write_line(&mut out);
            toflush = toflush - 1;
            proof {
                assert(all.take(done + 1).drop_last() =~= all.take(done));
                assert(self@ =~= all.skip(done + 1));
            }
        }
        proof {
            assert forall|i: int| 0 <= i < self@.len() implies #[trigger] times_fit(self@[i]) by {
                assert(self@[i] == all[n + i]);
            }
        }
        string_of(&out)
    }

    /// Takes every queued record out and returns their lines, oldest first.
    /// The number of records is read once, at the start.
    pub fn drain(&mut self) -> (r: String)
        requires
            old(self).wf(),
        ensures
            final(self).wf(),
            r@ == lines_of(old(self)@),
            final(self)@ == Seq::<ShadowLogRecord>::empty(),
    {
        let n = self.len();
        let r = self.flush_records(n);
        assert(old(self)@.take(n as int) =~= old(self)@);
        assert(final(self)@ =~= Seq::<ShadowLogRecord>::empty());
        r
    }
}

/// The lines of two runs of records, one after the other, are the lines
/// of the first run followed by those of the second.
pub proof fn lemma_lines_concat(a: Seq<ShadowLogRecord>, b: Seq<ShadowLogRecord>)
    ensures
        lines_of(a + b) == lines_of(a) + lines_of(b),
    decreases b.len(),
{
    if b.len() == 0 {
        assert(a + b =~= a);
        assert(lines_of(a) + lines_of(b) =~= lines_of(a));
    } else {
        lemma_lines_concat(a, b.drop_last());
        assert((a + b).drop_last() =~= a + b.drop_last());
        assert(lines_of(a + b) =~= lines_of(a) + lines_of(b));
    }
}

/// A drain that begins while the queue holds `before` prints the lines of
/// exactly those records, even when `arrived` were queued behind them in the
/// meantime; those stay queued for the next drain.
pub proof fn lemma_drain_exact_n(before: Seq<ShadowLogRecord>, arrived: Seq<ShadowLogRecord>)
    ensures
        lines_of((before + arrived).take(before.len() as int)) == lines_of(before),
        (before + arrived).skip(before.len() as int) == arrived,
{
    assert((before + arrived).take(before.len() as int) =~= before);
    assert((before + arrived).skip(before.len() as int) =~= arrived);
}

/// Every record that is queued when a flush begins is printed by it: its
/// line stands between the lines of the records queued before it and those
/// of the records queued after it.
pub proof fn lemma_flushed_record_printed(rs: Seq<ShadowLogRecord>, i: int)
    requires
        0 <= i < rs.len(),
    ensures
        lines_of(rs) == lines_of(rs.take(i)) + record_line(rs[i]) + lines_of(rs.skip(i + 1)),
{
    lemma_lines_concat(rs.take(i + 1), rs.skip(i + 1));
    assert(rs.take(i + 1) + rs.skip(i + 1) =~= rs);
    assert(rs.take(i + 1).drop_last() =~= rs.take(i));
}

/// Records keep the order in which they were queued: when one record was
/// queued before another, its line is printed before the other's.
pub proof fn lemma_order_preserved(rs: Seq<ShadowLogRecord>, i: int, j: int)
    requires
        0 <= i < j < rs.len(),
    ensures
        lines_of(rs) == lines_of(rs.take(i)) + record_line(rs[i]) + lines_of(
            rs.subrange(i + 1, j),
        ) + record_line(rs[j]) + lines_of(rs.skip(j + 1)),
{
    lemma_flushed_record_printed(rs, j);
    let front = rs.take(j);
    lemma_flushed_record_printed(front, i);
    assert(front.take(i) =~= rs.take(i));
    assert(front.skip(i + 1) =~= rs.subrange(i + 1, j));
    assert(front[i] == rs[i]);
}

} // verus!
