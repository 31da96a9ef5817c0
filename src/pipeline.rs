//! The deferred pipeline: the level filter, record creation, the pending
//! list, the time-ordered flush and the plan of deliveries to sinks.
use vstd::prelude::*;
use vstd::multiset::Multiset;
use crate::context::{effective_min, opt_view, Context, SinkId};
use crate::context_manager::{resolve_spec, ContextManager};
use crate::level::{rank, Level};
use crate::trace::{Hbacktrace, OneTrace};

verus! {

broadcast use vstd::seq_lib::group_to_multiset_ensures;

/// Relies on `time::OffsetDateTime::now_utc`, read as nanoseconds since the
/// Unix epoch with `unix_timestamp_nanos`. Nothing is promised of the value.
#[verifier::external_body]
fn now_nanos() -> (r: i128) {
    time::OffsetDateTime::now_utc().unix_timestamp_nanos()
}

/// Microseconds of a count of nanoseconds, clamped to `0..=i64::MAX`.
pub open spec fn micros_of(nanos: int) -> int {
    if nanos < 0 {
        0
    } else if nanos / 1000 > i64::MAX {
        i64::MAX as int
    } else {
        nanos / 1000
    }
}

fn micros_from(nanos: i128) -> (r: i64)
    ensures
        r as int == micros_of(nanos as int),
{
    if nanos < 0 {
        return 0;
    }
    let us = nanos / 1000;
    if us > i64::MAX as i128 {
        i64::MAX
    } else {
        us as i64
    }
}

/// A record of `level` passes a context whose effective minimum level is at
/// most `level`.
pub open spec fn passes(level: Level, c: crate::context::ContextView) -> bool {
    rank(level) >= rank(effective_min(c))
}

/// Whether a trace of `level` is kept under `context`.
pub fn passes_level(level: Level, context: &Context) -> (r: bool)
    ensures
        r == passes(level, context@),
{
    let min = match context.level_getMin() {
        Some(l) => l,
        None => Level::DEBUG,
    };
    level.tou8() >= min.tou8()
}

/// The record of a trace call under its resolved context, stamped with the
/// current time; `None` when the level filter drops the call.
pub fn make_trace(
    message: String,
    level: Level,
    context: Context,
    file: &str,
    line: u32,
    backtraces: Vec<Hbacktrace>,
) -> (r: Option<OneTrace>)
    requires
        context.wf(),
    ensures
        r is Some <==> passes(level, context@),
        r matches Some(t) ==> t.message == message && t.level == level && t.context == context
            && t.filename@ == file@ && t.fileline == line && t.backtraces == backtraces,
{
    if !passes_level(level, &context) {
        return None;
    }
    let date = micros_from(now_nanos());
    Some(OneTrace {
        message,
        date,
        level,
        context,
        filename: String::from_str(file),
        fileline: line,
        backtraces,
    })
}

/// A trace call from the thread named `threadName`: resolves the thread's
/// effective context, drops the call when its level is under that context's
/// minimum, and else gives the record to enqueue.
pub fn prepare_trace(
    manager: &ContextManager,
    threadName: &Option<String>,
    message: String,
    level: Level,
    file: &str,
    line: u32,
    backtraces: Vec<Hbacktrace>,
) -> (r: Option<OneTrace>)
    requires
        manager.wf(),
    ensures
        r is Some <==> passes(level, resolve_spec(manager@, opt_view(*threadName))),
        r matches Some(t) ==> t.context@ == resolve_spec(manager@, opt_view(*threadName)) && t.context.wf()
            && t.message == message && t.level == level && t.filename@ == file@ && t.fileline == line
            && t.backtraces == backtraces,
{
    let context = manager.resolve(threadName);
    make_trace(message, level, context, file, line, backtraces)
}

/// The dates of `s` never decrease.
pub open spec fn by_date(s: Seq<OneTrace>) -> bool {
    forall|a: int, b: int| 0 <= a < b < s.len() ==> s[a].date <= s[b].date
}

/// Every record of `s` has a well-formed context.
pub open spec fn all_wf(s: Seq<OneTrace>) -> bool {
    forall|i: int| 0 <= i < s.len() ==> (#[trigger] s[i]).context.wf()
}

/// The records of `v`, ordered by date.
pub fn sort_by_date(v: Vec<OneTrace>) -> (r: Vec<OneTrace>)
    requires
        all_wf(v@),
    ensures
        by_date(r@),
        r@.to_multiset() == v@.to_multiset(),
        all_wf(r@),
{
    let ghost orig = v@;
    let mut src = v;
    let mut out: Vec<OneTrace> = Vec::new();
    while src.len() > 0
        invariant
            by_date(out@),
            out@.to_multiset().add(src@.to_multiset()) == orig.to_multiset(),
            all_wf(out@),
            all_wf(src@),
        decreases src@.len(),
    {
        let ghost before = src@;
        let t = match src.pop() {
            Some(t) => t,
            None => {
                assert(false);
                return out;
            },
        };
        assert(before =~= src@.push(t));
        let mut p: usize = 0;
        while p < out.len() && out[p].date <= t.date
            invariant
                p <= out@.len(),
                forall|a: int| 0 <= a < p ==> out@[a].date <= t.date,
            decreases out@.len() - p,
        {
            p = p + 1;
        }
        let ghost prev = out@;
        out.insert(p, t);
        proof {
            assert(before.to_multiset() =~= src@.to_multiset().insert(t));
            assert(out@.to_multiset() =~= prev.to_multiset().insert(t));
            assert forall|a: int, b: int| 0 <= a < b < out@.len() implies out@[a].date <= out@[b].date by {
                if b < p {
                } else if b == p {
                } else if a < p {
                    assert(prev[b - 1].date >= t.date || p == prev.len());
                } else if a == p {
                    assert(p < prev.len() ==> prev[p as int].date > t.date);
                    assert(prev[p as int].date <= prev[b - 1].date || b - 1 == p);
                } else {
                }
            }
            assert forall|i: int| 0 <= i < out@.len() implies (#[trigger] out@[i]).context.wf() by {
                if i < p {
                    assert(out@[i] == prev[i]);
                } else if i > p {
                    assert(out@[i] == prev[i - 1]);
                }
            }
            assert(t.context.wf()) by {
                assert(before[before.len() - 1] == t);
            }
        }
    }
    assert(src@.to_multiset() =~= Multiset::empty());
    out
}

/// Records waiting for the next flush, with the account of every record
/// accepted and of every record handed out for dispatch.
pub struct DeferredTraces {
    pending: Vec<OneTrace>,
    accepted: Ghost<Seq<OneTrace>>,
    dispatched: Ghost<Seq<OneTrace>>,
}

impl DeferredTraces {
    pub closed spec fn pending_seq(&self) -> Seq<OneTrace> {
        self.pending@
    }

    /// Every record accepted so far, in order of acceptance.
    pub closed spec fn accepted(&self) -> Seq<OneTrace> {
        self.accepted@
    }

    /// Every record handed out by a flush so far, in order.
    pub closed spec fn dispatched(&self) -> Seq<OneTrace> {
        self.dispatched@
    }

    /// Nothing is lost or duplicated: what was accepted is exactly what was
    /// handed out plus what is pending.
    pub closed spec fn wf(&self) -> bool {
        &&& self.accepted@.to_multiset() == self.dispatched@.to_multiset().add(self.pending@.to_multiset())
        &&& all_wf(self.pending@)
    }

    pub fn new() -> (r: DeferredTraces)
        ensures
            r.wf(),
            r.pending_seq().len() == 0,
            r.accepted().len() == 0,
            r.dispatched().len() == 0,
    {
        let r = DeferredTraces { pending: Vec::new(), accepted: Ghost(Seq::empty()), dispatched: Ghost(Seq::empty()) };
        assert(r.accepted@.to_multiset() =~= r.dispatched@.to_multiset().add(r.pending@.to_multiset()));
        r
    }

    /// Number of pending records.
    pub fn len(&self) -> (r: usize)
        ensures
            r == self.pending_seq().len(),
    {
        self.pending.len()
    }

    /// Accepts a record for the next flush.
    pub fn push(&mut self, trace: OneTrace)
        requires
            old(self).wf(),
            trace.context.wf(),
        ensures
            final(self).wf(),
            final(self).pending_seq() == old(self).pending_seq().push(trace),
            final(self).accepted() == old(self).accepted().push(trace),
            final(self).dispatched() == old(self).dispatched(),
    {
        let ghost t = trace;
        self.pending.push(trace);
        self.accepted = Ghost(self.accepted@.push(t));
        proof {
            assert(self.accepted@.to_multiset() =~= self.dispatched@.to_multiset().add(self.pending@.to_multiset()));
            assert forall|i: int| 0 <= i < self.pending@.len() implies (#[trigger] self.pending@[i]).context.wf() by {
                if i < self.pending@.len() - 1 {
                    assert(self.pending@[i] == old(self).pending@[i]);
                }
            }
        }
    }

    /// One flush pass: takes every pending record and hands them out ordered
    /// by date.
    pub fn take_batch(&mut self) -> (r: Vec<OneTrace>)
        requires
            old(self).wf(),
        ensures
            final(self).wf(),
            final(self).pending_seq().len() == 0,
            by_date(r@),
            r@.to_multiset() == old(self).pending_seq().to_multiset(),
            all_wf(r@),
            final(self).accepted() == old(self).accepted(),
            final(self).dispatched() == old(self).dispatched() + r@,
    {
        let ghost before = self.pending@;
        let batch = self.pending.split_off(0);
        assert(batch@ =~= before);
        let sorted = sort_by_date(batch);
        let ghost s = sorted@;
        let ghost d0 = self.dispatched@;
        self.dispatched = Ghost(self.dispatched@ + s);
        proof {
            vstd::seq_lib::lemma_multiset_commutative(d0, s);
            assert(self.pending@.len() == 0);
            assert(self.pending@.to_multiset() =~= Multiset::empty());
            assert(self.accepted@.to_multiset() =~= self.dispatched@.to_multiset().add(self.pending@.to_multiset()));
        }
        sorted
    }

    /// The final flush at shutdown: hands out everything still pending, after
    /// which every accepted record has been handed out exactly once.
    pub fn shutdown(&mut self) -> (r: Vec<OneTrace>)
        requires
            old(self).wf(),
        ensures
            final(self).wf(),
            final(self).pending_seq().len() == 0,
            by_date(r@),
            final(self).accepted() == old(self).accepted(),
            final(self).dispatched() == old(self).dispatched() + r@,
            final(self).dispatched().to_multiset() == final(self).accepted().to_multiset(),
    {
        let r = self.take_batch();
        assert(self.pending@.to_multiset() =~= Multiset::empty());
        assert(self.dispatched@.to_multiset().add(Multiset::empty()) =~= self.dispatched@.to_multiset());
        r
    }
}

/// The deliveries of a batch: for each record in order, each live sink of its
/// context, as (record index, sink).
pub open spec fn plan_upto(batch: Seq<OneTrace>, n: int) -> Seq<(usize, SinkId)>
    decreases n,
{
    if n <= 0 {
        Seq::empty()
    } else {
        plan_upto(batch, n - 1) + batch[n - 1].context.live_sinks_seq().map_values(|s: SinkId| ((n - 1) as usize, s))
    }
}

/// Which sink gets which record of a batch, in dispatch order.
pub fn deliveries(batch: &Vec<OneTrace>) -> (r: Vec<(usize, SinkId)>)
    requires
        all_wf(batch@),
    ensures
        r@ == plan_upto(batch@, batch@.len() as int),
{
    let mut r: Vec<(usize, SinkId)> = Vec::new();
    let mut i: usize = 0;
    while i < batch.len()
        invariant
            all_wf(batch@),
            i <= batch@.len(),
            r@ == plan_upto(batch@, i as int),
        decreases batch@.len() - i,
    {
        assert(batch@[i as int].context.wf());
        let sinks = batch[i].context.live_sinks();
        let ghost head = r@;
        let mut j: usize = 0;
        while j < sinks.len()
            invariant
                j <= sinks@.len(),
                r@ == head + sinks@.subrange(0, j as int).map_values(|s: SinkId| (i, s)),
            decreases sinks@.len() - j,
        {
            r.push((i, sinks[j]));
            j = j + 1;
            assert(r@ =~= head + sinks@.subrange(0, j as int).map_values(|s: SinkId| (i, s)));
        }
        assert(sinks@.subrange(0, sinks@.len() as int) =~= sinks@);
        i = i + 1;
        assert(r@ =~= plan_upto(batch@, i as int));
    }
    r
}

proof fn lemma_plan_indices(batch: Seq<OneTrace>, n: int)
    requires
        0 <= n <= batch.len() <= usize::MAX,
    ensures
        forall|a: int| 0 <= a < plan_upto(batch, n).len() ==> (#[trigger] plan_upto(batch, n)[a]).0 < n,
        forall|a: int, b: int| 0 <= a < b < plan_upto(batch, n).len() ==>
            (#[trigger] plan_upto(batch, n)[a]).0 <= (#[trigger] plan_upto(batch, n)[b]).0,
    decreases n,
{
    if n > 0 {
        lemma_plan_indices(batch, n - 1);
        let p = plan_upto(batch, n - 1);
        let q = batch[n - 1].context.live_sinks_seq().map_values(|s: SinkId| ((n - 1) as usize, s));
        assert(plan_upto(batch, n) == p + q);
        assert forall|a: int| 0 <= a < (p + q).len() implies (#[trigger] (p + q)[a]).0 < n by {
            if a >= p.len() {
                assert(q[a - p.len()].0 == (n - 1) as usize);
            }
        }
        assert forall|a: int, b: int| 0 <= a < b < (p + q).len() implies
            (#[trigger] (p + q)[a]).0 <= (#[trigger] (p + q)[b]).0 by {
            if b >= p.len() {
                assert(q[b - p.len()].0 == (n - 1) as usize);
                if a >= p.len() {
                    assert(q[a - p.len()].0 == (n - 1) as usize);
                }
            }
        }
    }
}

/// Dispatch follows time: when a batch is ordered by date, the deliveries
/// of its plan come in non-decreasing date order, to every sink alike.
pub proof fn law_dispatch_in_time_order(batch: Seq<OneTrace>)
    requires
        by_date(batch),
        batch.len() <= usize::MAX,
    ensures
        ({
            let plan = plan_upto(batch, batch.len() as int);
            forall|a: int, b: int| 0 <= a < b < plan.len() ==>
                batch[(#[trigger] plan[a]).0 as int].date <= batch[(#[trigger] plan[b]).0 as int].date
        }),
{
    let plan = plan_upto(batch, batch.len() as int);
    lemma_plan_indices(batch, batch.len() as int);
    assert forall|a: int, b: int| 0 <= a < b < plan.len() implies
        batch[(#[trigger] plan[a]).0 as int].date <= batch[(#[trigger] plan[b]).0 as int].date by {
        if plan[a].0 < plan[b].0 {
        }
    }
}

} // verus!
