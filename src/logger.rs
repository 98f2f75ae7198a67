//! Log records and the policy around them: the text of the line printed for
//! a record, the level filter, and when logging asks the writer to flush.

use crate::host::Host;
use crate::text::{
    basename, chars_of, decimal, push_basename, push_decimal, push_signed_decimal, push_str,
    push_zero_padded, signed_decimal, string_of, zero_padded,
};
use vstd::prelude::*;

verus! {

/// Number of nanoseconds in one second.
pub const NANOS_PER_SEC: u64 = 1_000_000_000;

/// A duration split into the parts printed in a log line.
#[derive(Debug, PartialEq, Eq, Structural)]
pub struct TimeParts {
    pub hours: u32,
    pub mins: u32,
    pub secs: u64,
    pub nanos: u64,
}

/// Whether the whole minutes in `total_nanos` fit in a `u32`.
pub open spec fn time_parts_fit(total_nanos: u128) -> bool {
    total_nanos / (NANOS_PER_SEC as u128) / 60 <= u32::MAX as u128
}

impl TimeParts {
    /// Splits `total_nanos` into whole hours, then minutes, seconds and
    /// nanoseconds that are each below one unit of the part above them.
    pub fn from_nanos(total_nanos: u128) -> (r: Self)
        requires
            time_parts_fit(total_nanos),
        ensures
            r.hours as int * 3600 * NANOS_PER_SEC + r.mins as int * 60 * NANOS_PER_SEC
                + r.secs as int * NANOS_PER_SEC + r.nanos as int == total_nanos as int,
            r.mins < 60,
            r.secs < 60,
            r.nanos < NANOS_PER_SEC,
            r.hours as int == total_nanos as int / (3600 * NANOS_PER_SEC as int),
            r.mins as int == total_nanos as int / (60 * NANOS_PER_SEC as int) % 60,
            r.secs as int == total_nanos as int / NANOS_PER_SEC as int % 60,
            r.nanos as int == total_nanos as int % NANOS_PER_SEC as int,
    {
        // Total number of whole seconds.
        let whole_secs: u64 = (total_nanos / 1_000_000_000) as u64;
        // Total number of whole minutes.
        let whole_mins: u32 = (whole_secs / 60) as u32;
        // Total number of whole hours, which is also the hours part.
        let whole_hours: u32 = whole_mins / 60;

        let mins_part: u32 = whole_mins - whole_hours * 60;
        let secs_part: u64 = whole_secs - (whole_mins as u64) * 60;
        let nanos_part: u64 = (total_nanos - (whole_secs as u128) * 1_000_000_000) as u64;
        proof {
            let n = total_nanos as int;
            assert(whole_secs as int == n / 1_000_000_000);
            assert(n / 1_000_000_000 / 60 / 60 == n / (3600 * 1_000_000_000int)) by {
                vstd::arithmetic::div_mod::lemma_div_denominator(n, 1_000_000_000, 60);
                vstd::arithmetic::div_mod::lemma_div_denominator(n, 60_000_000_000, 60);
            }
            assert(n / 1_000_000_000 / 60 == n / 60_000_000_000) by {
                vstd::arithmetic::div_mod::lemma_div_denominator(n, 1_000_000_000, 60);
            }
        }
        TimeParts { hours: whole_hours, mins: mins_part, secs: secs_part, nanos: nanos_part }
    }
}

/// The severity of a log record, most severe first.
#[derive(Clone, Copy, Debug, PartialEq, Eq, Structural)]
pub enum LogLevel {
    Error,
    Warn,
    Info,
    Debug,
    Trace,
}

impl LogLevel {
    /// The name printed between brackets in a log line.
    pub open spec fn spec_name(self) -> Seq<char> {
        match self {
            LogLevel::Error => "ERROR"@,
            LogLevel::Warn => "WARN"@,
            LogLevel::Info => "INFO"@,
            LogLevel::Debug => "DEBUG"@,
            LogLevel::Trace => "TRACE"@,
        }
    }

    /// 1 for the most severe level up to 5 for the least.
    pub open spec fn spec_rank(self) -> nat {
        match self {
            LogLevel::Error => 1,
            LogLevel::Warn => 2,
            LogLevel::Info => 3,
            LogLevel::Debug => 4,
            LogLevel::Trace => 5,
        }
    }

    pub fn name(&self) -> (r: &'static str)
        ensures
            r@ == self.spec_name(),
    {
        match self {
            LogLevel::Error => "ERROR",
            LogLevel::Warn => "WARN",
            LogLevel::Info => "INFO",
            LogLevel::Debug => "DEBUG",
            LogLevel::Trace => "TRACE",
        }
    }

    pub fn rank(&self) -> (r: u8)
        ensures
            r == self.spec_rank(),
    {
        match self {
            LogLevel::Error => 1,
            LogLevel::Warn => 2,
            LogLevel::Info => 3,
            LogLevel::Debug => 4,
            LogLevel::Trace => 5,
        }
    }
}

/// Relies on `log::max_level`: the process-wide level filter, as the
/// filter's number (0 when logging is off, 5 when everything passes).
#[verifier::external_body]
fn max_level_rank() -> (r: usize)
    ensures
        r <= 5,
{
    log::max_level() as usize
}

/// Whether a record of `level` passes a level filter of rank `max_rank`.
pub open spec fn passes_filter(level: LogLevel, max_rank: nat) -> bool {
    level.spec_rank() <= max_rank
}

/// Whether a record of `level` passes a filter of rank `max_rank`.
pub fn level_enabled(level: LogLevel, max_rank: usize) -> (r: bool)
    ensures
        r == passes_filter(level, max_rank as nat),
{
    (level.rank() as usize) <= max_rank
}

/// Whether a record of `level` passes the process-wide level filter. The
/// filter is whatever the process set last; it lets more levels through
/// the higher it is.
pub fn enabled(level: LogLevel) -> (r: bool)
    ensures
        exists|m: nat| m <= 5 && r == #[trigger] passes_filter(level, m),
{
    let m = max_level_rank();
    let r = level_enabled(level, m);
    assert(r == passes_filter(level, m as nat));
    r
}

/// One log record, built on the thread that logs it and written once by
/// the writer.
#[derive(Debug)]
pub struct ShadowLogRecord {
    pub level: LogLevel,
    pub file: Option<String>,
    pub module: Option<String>,
    pub line: Option<u32>,
    pub message: String,
    /// Microseconds since the logger started.
    pub wall_time_micros: u64,
    /// Simulated time, in nanoseconds.
    pub sim_time_nanos: Option<u64>,
    pub thread_id: Option<i32>,
    /// The active host, as `name~ip`.
    pub host_name: Option<String>,
}

/// Whether both times of a record can be split into printable parts.
pub open spec fn times_fit(r: ShadowLogRecord) -> bool {
    &&& time_parts_fit((r.wall_time_micros as u128 * 1000) as u128)
    &&& match r.sim_time_nanos {
        Some(t) => time_parts_fit(t as u128),
        None => true,
    }
}

/// `HH:MM:SS` followed by `.` and the fraction of a second in `digits` digits.
pub open spec fn clock_text(total_nanos: nat, frac: nat, digits: nat) -> Seq<char> {
    zero_padded(total_nanos / (3600 * NANOS_PER_SEC as nat), 2) + ":"@ + zero_padded(
        total_nanos / (60 * NANOS_PER_SEC as nat) % 60,
        2,
    ) + ":"@ + zero_padded(total_nanos / NANOS_PER_SEC as nat % 60, 2) + "."@ + zero_padded(
        frac,
        digits,
    )
}

/// The wall-clock part of a line, to the microsecond.
pub open spec fn wall_text(micros: u64) -> Seq<char> {
    let n = micros as nat * 1000;
    clock_text(n, n % NANOS_PER_SEC as nat / 1000, 6)
}

/// The thread part of a line.
pub open spec fn thread_text(id: Option<i32>) -> Seq<char> {
    match id {
        Some(id) => " [thread-"@ + signed_decimal(id as int) + "]"@,
        None => " [n/a]"@,
    }
}

/// The simulated-time part of a line, to the nanosecond.
pub open spec fn sim_text(t: Option<u64>) -> Seq<char> {
    match t {
        Some(t) => " "@ + clock_text(t as nat, t as nat % NANOS_PER_SEC as nat, 9),
        None => " n/a"@,
    }
}

/// The text of an optional field, `n/a` when it is absent.
pub open spec fn or_na(s: Option<String>) -> Seq<char> {
    match s {
        Some(s) => s@,
        None => "n/a"@,
    }
}

/// The file part of a line: the file's last path component.
pub open spec fn file_text(f: Option<String>) -> Seq<char> {
    match f {
        Some(f) => basename(f@),
        None => "n/a"@,
    }
}

/// The source line part of a line.
pub open spec fn line_text(l: Option<u32>) -> Seq<char> {
    match l {
        Some(l) => decimal(l as nat),
        None => "n/a"@,
    }
}

/// The line that the writer prints for a record:
/// `HH:MM:SS.uuuuuu [thread-ID] HH:MM:SS.nnnnnnnnn [LEVEL] [host] [file:line] [module] message`
/// and a newline, with `n/a` for what the record lacks.
pub open spec fn record_line(r: ShadowLogRecord) -> Seq<char> {
    wall_text(r.wall_time_micros) + thread_text(r.thread_id) + sim_text(r.sim_time_nanos)
        + " ["@ + r.level.spec_name() + "] ["@ + or_na(r.host_name) + "] ["@ + file_text(r.file)
        + ":"@ + line_text(r.line) + "] ["@ + or_na(r.module) + "] "@ + r.message@
        + "\n"@
}

/// Appends `HH:MM:SS.` and the fraction of a second.
fn push_clock(out: &mut Vec<char>, total_nanos: u128, frac: u64, digits: usize)
    requires
        time_parts_fit(total_nanos),
    ensures
        final(out)@ == old(out)@ + clock_text(total_nanos as nat, frac as nat, digits as nat),
{
    let parts = TimeParts::from_nanos(total_nanos);
    push_zero_padded(out, parts.hours as u64, 2);
    push_str(out, ":");
    push_zero_padded(out, parts.mins as u64, 2);
    push_str(out, ":");
    push_zero_padded(out, parts.secs, 2);
    push_str(out, ".");
    push_zero_padded(out, frac, digits);
    assert(final(out)@ =~= old(out)@ + clock_text(total_nanos as nat, frac as nat, digits as nat));
}

/// Appends an optional text field, or `n/a`.
fn push_or_na(out: &mut Vec<char>, s: &Option<String>)
    ensures
        final(out)@ == old(out)@ + or_na(*s),
{
    match s {
        Some(s) => push_str(out, s.as_str()),
        None => push_str(out, "n/a"),
    }
}

fn push_thread(out: &mut Vec<char>, id: Option<i32>)
    ensures
        final(out)@ == old(out)@ + thread_text(id),
{
    match id {
        Some(id) => {
            push_str(out, " [thread-");
            push_signed_decimal(out, id);
            push_str(out, "]");
        },
        None => push_str(out, " [n/a]"),
    }
    assert(final(out)@ =~= old(out)@ + thread_text(id));
}

fn push_sim(out: &mut Vec<char>, t: Option<u64>)
    requires
        match t {
            Some(t) => time_parts_fit(t as u128),
            None => true,
        },
    ensures
        final(out)@ == old(out)@ + sim_text(t),
{
    match t {
        Some(t) => {
            push_str(out, " ");
            push_clock(out, t as u128, t % 1_000_000_000, 9);
        },
        None => push_str(out, " n/a"),
    }
    assert(final(out)@ =~= old(out)@ + sim_text(t));
}

fn push_file(out: &mut Vec<char>, f: &Option<String>)
    ensures
        final(out)@ == old(out)@ + file_text(*f),
{
    match f {
        Some(f) => {
            let cs = chars_of(f.as_str());
            push_basename(out, &cs);
        },
        None => push_str(out, "n/a"),
    }
}

fn push_line_number(out: &mut Vec<char>, l: Option<u32>)
    ensures
        final(out)@ == old(out)@ + line_text(l),
{
    match l {
        Some(l) => push_decimal(out, l as u64),
        None => push_str(out, "n/a"),
    }
}

impl ShadowLogRecord {
    /// Whether both times of this record can be printed.
    pub fn times_fit(&self) -> (r: bool)
        ensures
            r == times_fit(*self),
    {
        let wall_ok = self.wall_time_micros as u128 * 1000 / 1_000_000_000 / 60 <= u32::MAX as u128;
        match self.sim_time_nanos {
            Some(t) => wall_ok && (t as u128) / 1_000_000_000 / 60 <= u32::MAX as u128,
            None => wall_ok,
        }
    }

    /// Appends the line that the writer prints for this record.
    pub fn write_line(&self, out: &mut Vec<char>)
        requires
            times_fit(*self),
        ensures
            final(out)@ == old(out)@ + record_line(*self),
    {
        let mut line: Vec<char> = Vec::new();
        let wall: u128 = self.wall_time_micros as u128 * 1000;
        push_clock(&mut line, wall, ((wall % 1_000_000_000) / 1000) as u64, 6);
        assert(line@ =~= wall_text(self.wall_time_micros));
        push_thread(&mut line, self.thread_id);
        push_sim(&mut line, self.sim_time_nanos);
        push_str(&mut line, " [");
        push_str(&mut line, self.level.name());
        push_str(&mut line, "] [");
        push_or_na(&mut line, &self.host_name);
        push_str(&mut line, "] [");
        push_file(&mut line, &self.file);
        push_str(&mut line, ":");
        push_line_number(&mut line, self.line);
        push_str(&mut line, "] [");
        push_or_na(&mut line, &self.module);
        push_str(&mut line, "] ");
        push_str(&mut line, self.message.as_str());
        push_str(&mut line, "\n");
        out.append(&mut line);
    }

    /// The line that the writer prints for this record.
    pub fn to_line(&self) -> (r: String)
        requires
            times_fit(*self),
        ensures
            r@ == record_line(*self),
    {
        let mut out: Vec<char> = Vec::new();
        self.write_line(&mut out);
        assert(out@ =~= record_line(*self));
        string_of(&out)
    }
}

/// Above this many queued records, logging asks the writer to flush
/// without waiting for it.
pub const ASYNC_FLUSH_QD_LINES_THRESHOLD: usize = 100_000;

/// Above this many queued records, logging waits for the writer to flush,
/// so that the queue cannot grow without bound.
pub const SYNC_FLUSH_QD_LINES_THRESHOLD: usize = 10 * ASYNC_FLUSH_QD_LINES_THRESHOLD;

/// The writer flushes at least this often, in seconds.
pub const MIN_FLUSH_FREQUENCY_SECS: u64 = 10;

/// What the logging thread asks of the writer after queueing a record.
#[derive(Clone, Copy, Debug, PartialEq, Eq, Structural)]
pub enum FlushRequest {
    /// Flush, and wait until the flush is done.
    Sync,
    /// Flush, without waiting.
    Async,
    /// Leave it to the writer's periodic flush.
    NoFlush,
}

/// The flush that follows queueing a record of `level` when `queued`
/// records are queued (the new one included).
pub open spec fn flush_rule(level: LogLevel, queued: nat, buffering_enabled: bool) -> FlushRequest {
    if level == LogLevel::Error || queued > SYNC_FLUSH_QD_LINES_THRESHOLD {
        FlushRequest::Sync
    } else if queued > ASYNC_FLUSH_QD_LINES_THRESHOLD || !buffering_enabled {
        FlushRequest::Async
    } else {
        FlushRequest::NoFlush
    }
}

/// Decides the flush that follows queueing a record: errors, and a queue
/// past the hard ceiling, wait for the writer; a long queue, or disabled
/// buffering, wake it without waiting.
pub fn flush_after_log(level: LogLevel, queued: usize, buffering_enabled: bool) -> (r:
    FlushRequest)
    ensures
        r == flush_rule(level, queued as nat, buffering_enabled),
        queued > SYNC_FLUSH_QD_LINES_THRESHOLD ==> r == FlushRequest::Sync,
{
    if level == LogLevel::Error || queued > SYNC_FLUSH_QD_LINES_THRESHOLD {
        FlushRequest::Sync
    } else if queued > ASYNC_FLUSH_QD_LINES_THRESHOLD || !buffering_enabled {
        FlushRequest::Async
    } else {
        FlushRequest::NoFlush
    }
}

/// What the writer thread has just been woken by.
#[derive(Clone, Copy, Debug, PartialEq, Eq, Structural)]
pub enum WriterEvent {
    /// A flush command; `notify` when its sender waits for it to finish.
    Flush { notify: bool },
    /// No command came within the flush period.
    Timeout,
    /// Every command sender is gone.
    Disconnected,
}

/// One turn of the writer thread: on a flush command or a timeout it drains
/// the queue and hands back the lines to print and whether to notify the
/// sender; on any other wake-up it gives `None`, which ends the writer.
pub fn writer_step(queue: &mut crate::log_queue::LogQueue, event: WriterEvent) -> (r: Option<
    (String, bool),
>)
    requires
        old(queue).wf(),
    ensures
        final(queue).wf(),
        match (event, r) {
            (WriterEvent::Flush { notify }, Some((lines, notify_sender))) => {
                &&& lines@ == crate::log_queue::lines_of(old(queue)@)
                &&& notify_sender == notify
                &&& final(queue)@ == Seq::<ShadowLogRecord>::empty()
            },
            (WriterEvent::Timeout, Some((lines, notify_sender))) => {
                &&& lines@ == crate::log_queue::lines_of(old(queue)@)
                &&& !notify_sender
                &&& final(queue)@ == Seq::<ShadowLogRecord>::empty()
            },
            (WriterEvent::Disconnected, None) => final(queue)@ == old(queue)@,
            _ => false,
        },
{
    match event {
        WriterEvent::Flush { notify } => Some((queue.drain(), notify)),
        WriterEvent::Timeout => Some((queue.drain(), false)),
        WriterEvent::Disconnected => None,
    }
}

/// An IPv4 address in dotted decimal.
pub open spec fn ipv4_text(ip: [u8; 4]) -> Seq<char> {
    decimal(ip[0] as nat) + "."@ + decimal(ip[1] as nat) + "."@ + decimal(ip[2] as nat) + "."@
        + decimal(ip[3] as nat)
}

/// How a host is named in a log line: `name~ip`.
pub open spec fn host_label(h: Host) -> Seq<char> {
    h.name@ + "~"@ + ipv4_text(h.default_ip)
}

/// The name that log records give `host`: its name, `~` and its address.
pub fn host_identity(host: &Host) -> (r: String)
    ensures
        r@ == host_label(*host),
{
    let mut out: Vec<char> = Vec::new();
    push_str(&mut out, host.name.as_str());
    assert(out@ =~= host.name@);
    push_str(&mut out, "~");
    push_decimal(&mut out, host.default_ip[0] as u64);
    push_str(&mut out, ".");
    push_decimal(&mut out, host.default_ip[1] as u64);
    push_str(&mut out, ".");
    push_decimal(&mut out, host.default_ip[2] as u64);
    push_str(&mut out, ".");
    push_decimal(&mut out, host.default_ip[3] as u64);
    string_of(&out)
}

} // verus!
