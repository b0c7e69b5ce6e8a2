//! The bounded-concurrency scheduler, as a state machine. The loop that runs
//! it asks `next_action`, then either pulls a message from the source and
//! `launch`es it, reports the source's end, or waits for an upload to finish
//! and hands its outcome to `complete`. At most `limit` uploads are ever in
//! flight, and every admitted upload is completed exactly once.

use vstd::prelude::*;

use crate::stats::Stats;
use crate::upload::{counted, finish_upload, UploadError, UploadResult};

verus! {

/// What the loop that drives a scheduler has to do next.
pub enum Action {
    /// A slot is free: take the next message from the source.
    Pull,
    /// Every slot is taken, or the source is closed: wait for an upload.
    AwaitCompletion,
    /// The source is closed and nothing is in flight.
    Finished,
}

/// The number of successes in a log of completions.
pub open spec fn count_ok(log: Seq<(u64, bool)>) -> nat
    decreases log.len(),
{
    if log.len() == 0 {
        0
    } else {
        counted(count_ok(log.drop_last()), log.last().1)
    }
}

/// Whether ticket `t` appears in a log of completions.
pub open spec fn logged(log: Seq<(u64, bool)>, t: u64) -> bool {
    exists|i: int| 0 <= i < log.len() && #[trigger] log[i].0 == t
}

proof fn lemma_count_ok_bounded(log: Seq<(u64, bool)>)
    ensures
        count_ok(log) <= log.len(),
    decreases log.len(),
{
    if log.len() > 0 {
        lemma_count_ok_bounded(log.drop_last());
    }
}

proof fn lemma_count_ok_push(log: Seq<(u64, bool)>, c: (u64, bool))
    ensures
        count_ok(log.push(c)) == counted(count_ok(log), c.1),
{
    assert(log.push(c).drop_last() =~= log);
}

/// Taking the one occurrence of `t` out of a sequence of distinct tickets
/// leaves every other ticket in it.
proof fn lemma_remove_distinct(s: Seq<u64>, i: int, t: u64)
    requires
        0 <= i < s.len(),
        s[i] == t,
        forall|a: int, b: int| 0 <= a < b < s.len() ==> s[a] != s[b],
    ensures
        forall|x: u64| s.remove(i).contains(x) <==> (s.contains(x) && x != t),
        forall|a: int, b: int|
            0 <= a < b < s.remove(i).len() ==> s.remove(i)[a] != s.remove(i)[b],
        s.remove(i).len() == s.len() - 1,
{
    s.remove_ensures(i);
    let r = s.remove(i);
    assert forall|x: u64| r.contains(x) <==> (s.contains(x) && x != t) by {
        if r.contains(x) {
            let k = choose|k: int| 0 <= k < r.len() && r[k] == x;
            if k < i {
                assert(s[k] == x);
            } else {
                assert(s[k + 1] == x);
            }
        }
        if s.contains(x) && x != t {
            let j = choose|j: int| 0 <= j < s.len() && s[j] == x;
            if j < i {
                assert(r[j] == x);
            } else {
                assert(r[j - 1] == x);
            }
        }
    }
    assert forall|a: int, b: int| 0 <= a < b < r.len() implies r[a] != r[b] by {
        let sa = if a < i { a } else { a + 1 };
        let sb = if b < i { b } else { b + 1 };
        assert(r[a] == s[sa]);
        assert(r[b] == s[sb]);
    }
}

fn position_of(v: &Vec<u64>, t: u64) -> (i: usize)
    requires
        v@.contains(t),
    ensures
        i < v@.len(),
        v@[i as int] == t,
{
    let mut i: usize = 0;
    while i < v.len() && v[i] != t
        invariant
            i <= v@.len(),
            v@.contains(t),
            forall|k: int| 0 <= k < i ==> v@[k] != t,
        decreases v@.len() - i,
    {
        i = i + 1;
    }
    if i == v.len() {
        proof {
            let k = choose|k: int| 0 <= k < v@.len() && v@[k] == t;
            assert(v@[k] != t);
        }
    }
    i
}

/// The outcome of one whole run, read once nothing is left in flight.
pub struct RunSummary {
    /// Blocks stored.
    pub processed: u64,
    /// Uploads that failed.
    pub failed: u64,
    /// Whether the run ended because the source failed.
    pub source_failed: bool,
}

/// The state of one pipeline run: the upload slots, the tickets of the
/// uploads in flight, what came of those that finished, and the run's counter.
pub struct Scheduler {
    limit: usize,
    in_flight: Vec<u64>,
    admitted: u64,
    succeeded: u64,
    failed: u64,
    source_closed: bool,
    source_error: bool,
    stats: Stats,
    /// Each finished upload, in order of completion: its ticket and whether it succeeded.
    log: Ghost<Seq<(u64, bool)>>,
}

impl Scheduler {
    /// The most uploads that may be in flight at once.
    pub closed spec fn limit_spec(&self) -> nat {
        self.limit as nat
    }

    /// The tickets of the uploads in flight.
    pub closed spec fn in_flight_spec(&self) -> Seq<u64> {
        self.in_flight@
    }

    /// How many messages have been admitted; the tickets are `0..admitted`.
    pub closed spec fn admitted_spec(&self) -> nat {
        self.admitted as nat
    }

    /// The finished uploads, in order of completion.
    pub closed spec fn log_spec(&self) -> Seq<(u64, bool)> {
        self.log@
    }

    /// How many uploads failed.
    pub closed spec fn failed_spec(&self) -> nat {
        self.failed as nat
    }

    pub closed spec fn source_closed_spec(&self) -> bool {
        self.source_closed
    }

    pub closed spec fn source_error_spec(&self) -> bool {
        self.source_error
    }

    /// The run's counter of stored blocks.
    pub closed spec fn count_spec(&self) -> nat {
        self.stats.count()
    }

    /// The next step, as `next_action` reports it.
    pub closed spec fn action_spec(&self) -> Action {
        if self.source_closed && self.in_flight@.len() == 0 {
            Action::Finished
        } else if !self.source_closed && self.in_flight@.len() < self.limit {
            Action::Pull
        } else {
            Action::AwaitCompletion
        }
    }

    pub closed spec fn finished_spec(&self) -> bool {
        self.source_closed && self.in_flight@.len() == 0
    }

    pub closed spec fn wf(&self) -> bool {
        &&& self.limit >= 1
        &&& self.in_flight@.len() <= self.limit
        &&& forall|i: int, j: int|
            0 <= i < j < self.in_flight@.len() ==> self.in_flight@[i] != self.in_flight@[j]
        &&& forall|i: int| 0 <= i < self.in_flight@.len() ==> self.in_flight@[i] < self.admitted
        &&& forall|i: int|
            0 <= i < self.log@.len() ==> (#[trigger] self.log@[i]).0 < self.admitted
                && !self.in_flight@.contains(self.log@[i].0)
        &&& forall|i: int, j: int|
            0 <= i < j < self.log@.len() ==> self.log@[i].0 != self.log@[j].0
        &&& forall|t: u64| t < self.admitted ==> self.in_flight@.contains(t) || logged(self.log@, t)
        &&& self.log@.len() == self.succeeded + self.failed
        &&& self.in_flight@.len() + self.log@.len() == self.admitted
        &&& self.succeeded == count_ok(self.log@)
        &&& self.stats.count() == self.succeeded
        &&& self.failed == self.log@.len() - count_ok(self.log@)
        &&& self.source_error ==> self.source_closed
    }

    /// A run with `limit` slots, before any message.
    pub fn new(limit: usize) -> (r: Scheduler)
        requires
            limit >= 1,
        ensures
            r.wf(),
            r.limit_spec() == limit,
            r.in_flight_spec().len() == 0,
            r.admitted_spec() == 0,
            r.log_spec().len() == 0,
            r.count_spec() == 0,
            r.failed_spec() == 0,
            !r.source_closed_spec(),
            !r.source_error_spec(),
    {
        Scheduler {
            limit,
            in_flight: Vec::new(),
            admitted: 0,
            succeeded: 0,
            failed: 0,
            source_closed: false,
            source_error: false,
            stats: Stats::new(),
            log: Ghost(Seq::empty()),
        }
    }

    /// What to do next: pull while a slot is free and the source is open,
    /// wait for an upload while one is in flight, stop when both are done.
    pub fn next_action(&self) -> (r: Action)
        ensures
            r == self.action_spec(),
            (r is Finished) == (self.source_closed_spec() && self.in_flight_spec().len() == 0),
            (r is Pull) == (!self.source_closed_spec() && self.in_flight_spec().len()
                < self.limit_spec()),
    {
        if self.source_closed && self.in_flight.len() == 0 {
            Action::Finished
        } else if !self.source_closed && self.in_flight.len() < self.limit {
            Action::Pull
        } else {
            Action::AwaitCompletion
        }
    }

    /// Whether one more message can be given a ticket.
    pub fn can_launch(&self) -> (r: bool)
        ensures
            r == (!self.source_closed_spec() && self.in_flight_spec().len() < self.limit_spec()
                && self.admitted_spec() < u64::MAX),
    {
        !self.source_closed && self.in_flight.len() < self.limit && self.admitted < u64::MAX
    }

    /// Launches the upload of one message into a free slot; returns the ticket that its
    /// upload's outcome must be handed back with.
    pub fn launch(&mut self) -> (ticket: u64)
        requires
            old(self).wf(),
            !old(self).source_closed_spec(),
            old(self).in_flight_spec().len() < old(self).limit_spec(),
            old(self).admitted_spec() < u64::MAX,
        ensures
            final(self).wf(),
            ticket == old(self).admitted_spec(),
            final(self).in_flight_spec() == old(self).in_flight_spec().push(ticket),
            final(self).in_flight_spec().contains(ticket),
            !old(self).in_flight_spec().contains(ticket),
            !logged(old(self).log_spec(), ticket),
            final(self).admitted_spec() == old(self).admitted_spec() + 1,
            final(self).limit_spec() == old(self).limit_spec(),
            final(self).log_spec() == old(self).log_spec(),
            final(self).count_spec() == old(self).count_spec(),
            final(self).failed_spec() == old(self).failed_spec(),
            final(self).source_closed_spec() == old(self).source_closed_spec(),
            final(self).source_error_spec() == old(self).source_error_spec(),
    {
        let ticket = self.admitted;
        self.in_flight.push(ticket);
        self.admitted = self.admitted + 1;
        proof {
            assert(self.in_flight@[self.in_flight@.len() - 1] == ticket);
            if logged(old(self).log@, ticket) {
                let k = choose|k: int| 0 <= k < old(self).log@.len() && old(self).log@[k].0 == ticket;
                assert(old(self).log@[k].0 < old(self).admitted);
            }
            assert forall|t: u64| t < self.admitted implies self.in_flight@.contains(t) || logged(
                self.log@,
                t,
            ) by {
                if t == ticket {
                    assert(self.in_flight@[self.in_flight@.len() - 1] == t);
                } else if old(self).in_flight@.contains(t) {
                    let k = choose|k: int| 0 <= k < old(self).in_flight@.len() && old(self).in_flight@[k] == t;
                    assert(self.in_flight@[k] == t);
                }
            }
        }
        ticket
    }

    /// The source has no more messages.
    pub fn source_exhausted(&mut self)
        requires
            old(self).wf(),
        ensures
            final(self).wf(),
            final(self).source_closed_spec(),
            final(self).source_error_spec() == old(self).source_error_spec(),
            final(self).in_flight_spec() == old(self).in_flight_spec(),
            final(self).admitted_spec() == old(self).admitted_spec(),
            final(self).limit_spec() == old(self).limit_spec(),
            final(self).log_spec() == old(self).log_spec(),
            final(self).count_spec() == old(self).count_spec(),
            final(self).failed_spec() == old(self).failed_spec(),
    {
        self.source_closed = true;
    }

    /// The source failed to produce a message: nothing more is admitted, and
    /// the uploads in flight are still awaited.
    pub fn source_failed(&mut self)
        requires
            old(self).wf(),
        ensures
            final(self).wf(),
            final(self).source_closed_spec(),
            final(self).source_error_spec(),
            final(self).in_flight_spec() == old(self).in_flight_spec(),
            final(self).admitted_spec() == old(self).admitted_spec(),
            final(self).limit_spec() == old(self).limit_spec(),
            final(self).log_spec() == old(self).log_spec(),
            final(self).count_spec() == old(self).count_spec(),
            final(self).failed_spec() == old(self).failed_spec(),
    {
        self.source_closed = true;
        self.source_error = true;
    }

    /// Hands back the outcome of the upload with `ticket`: `Ok` when the
    /// store took the object, else why it failed. Frees its slot, counts the
    /// block if it was stored, and returns the upload's result.
    pub fn complete(&mut self, ticket: u64, height: u64, outcome: Result<(), UploadError>) -> (r:
        UploadResult)
        requires
            old(self).wf(),
            old(self).in_flight_spec().contains(ticket),
        ensures
            final(self).wf(),
            !final(self).in_flight_spec().contains(ticket),
            forall|t: u64|
                t != ticket ==> (final(self).in_flight_spec().contains(t) <==> old(
                    self,
                ).in_flight_spec().contains(t)),
            final(self).in_flight_spec().len() == old(self).in_flight_spec().len() - 1,
            final(self).log_spec() == old(self).log_spec().push((ticket, outcome is Ok)),
            final(self).count_spec() == counted(old(self).count_spec(), outcome is Ok),
            final(self).failed_spec() == old(self).failed_spec() + if outcome is Ok {
                0int
            } else {
                1int
            },
            final(self).admitted_spec() == old(self).admitted_spec(),
            final(self).limit_spec() == old(self).limit_spec(),
            final(self).source_closed_spec() == old(self).source_closed_spec(),
            final(self).source_error_spec() == old(self).source_error_spec(),
            r.height_of() == height,
            (r is Success) == (outcome is Ok),
            outcome matches Err(e) ==> r == (UploadResult::Failure { height, error: e }),
    {
        let ghost ok = outcome is Ok;
        let idx = position_of(&self.in_flight, ticket);
        proof {
            lemma_remove_distinct(self.in_flight@, idx as int, ticket);
            lemma_count_ok_bounded(self.log@);
            lemma_count_ok_push(self.log@, (ticket, ok));
        }
        self.in_flight.remove(idx);
        let r = finish_upload(&mut self.stats, height, outcome);
        if r.is_success() {
            self.succeeded = self.succeeded + 1;
        } else {
            self.failed = self.failed + 1;
        }
        self.log = Ghost(self.log@.push((ticket, ok)));
        proof {
            let log = self.log@;
            let n = log.len() - 1;
            assert(log[n].0 == ticket);
            assert forall|i: int|
                0 <= i < log.len() implies (#[trigger] log[i]).0 < self.admitted
                && !self.in_flight@.contains(log[i].0) by {
                if i < n {
                    assert(log[i] == old(self).log@[i]);
                }
            }
            assert forall|i: int, j: int|
                0 <= i < j < log.len() implies log[i].0 != log[j].0 by {
                if j < n {
                    assert(log[i] == old(self).log@[i]);
                    assert(log[j] == old(self).log@[j]);
                } else {
                    assert(log[i] == old(self).log@[i]);
                }
            }
            assert forall|t: u64| t < self.admitted implies self.in_flight@.contains(t) || logged(
                log,
                t,
            ) by {
                if t == ticket {
                    assert(log[n].0 == t);
                } else if !self.in_flight@.contains(t) {
                    assert(logged(old(self).log@, t));
                    let k = choose|k: int| 0 <= k < old(self).log@.len() && old(self).log@[k].0 == t;
                    assert(log[k] == old(self).log@[k]);
                }
            }
        }
        r
    }

    /// Whether the upload with `ticket` is in flight.
    pub fn is_in_flight(&self, ticket: u64) -> (r: bool)
        ensures
            r == self.in_flight_spec().contains(ticket),
    {
        let mut i: usize = 0;
        while i < self.in_flight.len()
            invariant
                i <= self.in_flight@.len(),
                forall|k: int| 0 <= k < i ==> self.in_flight@[k] != ticket,
            decreases self.in_flight@.len() - i,
        {
            if self.in_flight[i] == ticket {
                return true;
            }
            i = i + 1;
        }
        false
    }

    /// The number of slots.
    pub fn limit(&self) -> (r: usize)
        ensures
            r == self.limit_spec(),
    {
        self.limit
    }

    /// The number of uploads in flight.
    pub fn in_flight_count(&self) -> (r: usize)
        ensures
            r == self.in_flight_spec().len(),
    {
        self.in_flight.len()
    }

    /// The number of messages admitted so far.
    pub fn admitted(&self) -> (r: u64)
        ensures
            r == self.admitted_spec(),
    {
        self.admitted
    }

    /// The run's counter.
    pub fn stats(&self) -> (r: &Stats)
        ensures
            r.count() == self.count_spec(),
    {
        &self.stats
    }

    /// Whether the source is closed and nothing is in flight.
    pub fn is_finished(&self) -> (r: bool)
        ensures
            r == self.finished_spec(),
    {
        self.source_closed && self.in_flight.len() == 0
    }

    /// The totals of the run so far.
    pub fn summary(&self) -> (r: RunSummary)
        requires
            self.wf(),
        ensures
            r.processed == self.count_spec(),
            r.failed == self.failed_spec(),
            r.source_failed == self.source_error_spec(),
    {
        RunSummary {
            processed: self.stats.snapshot(),
            failed: self.failed,
            source_failed: self.source_error,
        }
    }
}

/// However many slots a run has and in whatever order its uploads finish,
/// once it is finished with no failure the counter equals the number of
/// messages taken from the source, and each of them has a result.
pub proof fn lemma_all_stored_all_counted(s: &Scheduler)
    requires
        s.wf(),
        s.finished_spec(),
        s.failed_spec() == 0,
    ensures
        s.count_spec() == s.admitted_spec(),
        s.log_spec().len() == s.admitted_spec(),
{
}

/// In every state of a run, no more uploads are in flight than it has slots.
pub proof fn lemma_in_flight_within_limit(s: &Scheduler)
    requires
        s.wf(),
    ensures
        s.in_flight_spec().len() <= s.limit_spec(),
{
}

/// Once a run is finished, every message taken from the source has exactly
/// one result: the results name each ticket `0..admitted` once, the failed
/// ones number `failed`, the successful ones the rest, and the counter equals
/// the messages taken less the failures.
pub proof fn lemma_failures_accounted(s: &Scheduler)
    requires
        s.wf(),
        s.finished_spec(),
    ensures
        s.log_spec().len() == s.admitted_spec(),
        forall|t: u64| t < s.admitted_spec() ==> logged(s.log_spec(), t),
        forall|i: int, j: int|
            0 <= i < j < s.log_spec().len() ==> s.log_spec()[i].0 != s.log_spec()[j].0,
        count_ok(s.log_spec()) == s.count_spec(),
        s.log_spec().len() - count_ok(s.log_spec()) == s.failed_spec(),
        s.count_spec() == s.admitted_spec() - s.failed_spec(),
{
    assert forall|t: u64| t < s.admitted_spec() implies logged(s.log_spec(), t) by {
        assert(!s.in_flight_spec().contains(t));
    }
}

/// A finished run that took no message has counted nothing and produced no
/// result.
pub proof fn lemma_empty_source(s: &Scheduler)
    requires
        s.wf(),
        s.finished_spec(),
        s.admitted_spec() == 0,
    ensures
        s.count_spec() == 0,
        s.log_spec().len() == 0,
        s.failed_spec() == 0,
{
}

} // verus!
