//! The admission logic of the bounded concurrent request pump. The caller
//! runs the tasks and the timer; this state machine decides what to dispatch.

use crate::profile::BenchmarkResult;
use vstd::prelude::*;

verus! {

/// The outcome of one request: its metrics, or the message it failed with.
pub type RunRecord = Result<BenchmarkResult, String>;

/// The coordinator's state.
pub struct Pump {
    /// Requests to dispatch in all (N).
    pub total: u32,
    /// Most requests in flight at once (C).
    pub concurrency: u32,
    /// Index of the next request to dispatch.
    pub next_index: u32,
    /// Indices of dispatched requests that have not finished.
    pub in_flight: Vec<u32>,
    /// Indices of finished requests, in order of completion.
    pub finished: Vec<u32>,
    /// The record of each finished request, in the same order.
    pub records: Vec<RunRecord>,
    /// Whether the deadline has fired; no request is dispatched after it.
    pub deadline_tripped: bool,
}

impl Pump {
    /// Every dispatched request is either in flight or finished, exactly
    /// once, and no more than `concurrency` are in flight.
    pub open spec fn wf(&self) -> bool {
        &&& self.concurrency >= 1
        &&& self.next_index <= self.total
        &&& self.in_flight@.len() <= self.concurrency
        &&& self.in_flight@.no_duplicates()
        &&& self.finished@.no_duplicates()
        &&& self.records@.len() == self.finished@.len()
        &&& self.in_flight@.len() + self.finished@.len() == self.next_index
        &&& forall|i: u32|
            i < self.next_index ==> (#[trigger] self.in_flight@.contains(i) != self.finished@.contains(
                i,
            ))
        &&& forall|k: int|
            0 <= k < self.in_flight@.len() ==> #[trigger] self.in_flight@[k] < self.next_index
        &&& forall|k: int|
            0 <= k < self.finished@.len() ==> #[trigger] self.finished@[k] < self.next_index
    }

    /// No further request may be dispatched now.
    pub open spec fn saturated(&self) -> bool {
        self.next_index >= self.total || self.in_flight@.len() >= self.concurrency
            || self.deadline_tripped
    }

    /// The run is over: nothing in flight and nothing more to dispatch.
    pub open spec fn done(&self) -> bool {
        self.in_flight@.len() == 0 && (self.next_index == self.total || self.deadline_tripped)
    }

    /// A pump for `total` requests with at most `concurrency` in flight.
    pub fn new(total: u32, concurrency: u32) -> (r: Pump)
        requires
            concurrency >= 1,
        ensures
            r.wf(),
            r.total == total,
            r.concurrency == concurrency,
            r.next_index == 0,
            r.in_flight@.len() == 0,
            r.finished@.len() == 0,
            !r.deadline_tripped,
    {
        Pump {
            total,
            concurrency,
            next_index: 0,
            in_flight: Vec::new(),
            finished: Vec::new(),
            records: Vec::new(),
            deadline_tripped: false,
        }
    }

    /// Dispatches requests in index order while the top-up rule allows, and
    /// returns their indices.
    pub fn top_up(&mut self) -> (r: Vec<u32>)
        requires
            old(self).wf(),
        ensures
            final(self).wf(),
            final(self).saturated(),
            final(self).total == old(self).total,
            final(self).concurrency == old(self).concurrency,
            final(self).deadline_tripped == old(self).deadline_tripped,
            final(self).finished == old(self).finished,
            final(self).records == old(self).records,
            final(self).next_index == old(self).next_index + r@.len(),
            final(self).in_flight@ == old(self).in_flight@ + r@,
            forall|k: int| 0 <= k < r@.len() ==> #[trigger] r@[k] == old(self).next_index + k,
            old(self).saturated() ==> r@.len() == 0,
    {
        let mut out: Vec<u32> = Vec::new();
        let ghost start = self.next_index;
        let ghost before = self.in_flight@;
        while self.next_index < self.total && self.in_flight.len() < self.concurrency as usize
            && !self.deadline_tripped
            invariant
                self.wf(),
                self.total == old(self).total,
                self.concurrency == old(self).concurrency,
                self.deadline_tripped == old(self).deadline_tripped,
                self.finished == old(self).finished,
                self.records == old(self).records,
                start == old(self).next_index,
                before == old(self).in_flight@,
                self.next_index == start + out@.len(),
                self.in_flight@ == before + out@,
                forall|k: int| 0 <= k < out@.len() ==> #[trigger] out@[k] == start + k,
                out@.len() > 0 ==> !old(self).saturated(),
            decreases self.total - self.next_index,
        {
            let i = self.next_index;
            proof {
                assert(!self.in_flight@.contains(i));
                assert(!self.finished@.contains(i));
                if out@.len() == 0 {
                    assert(self.in_flight@ =~= before);
                }
            }
            let ghost prev = self.in_flight@;
            self.in_flight.push(i);
            out.push(i);
            self.next_index = i + 1;
            proof {
                assert forall|j: u32| j < self.next_index implies (#[trigger] self.in_flight@.contains(j)
                    != self.finished@.contains(j)) by {
                    if j == i {
                        assert(self.in_flight@.last() == i);
                        assert(!self.finished@.contains(i));
                    } else {
                        assert(self.in_flight@.drop_last() =~= prev);
                        old_contains(self.in_flight@, j, i);
                    }
                }
            }
        }
        out
    }

    /// Records that the deadline fired: nothing more is dispatched, and the
    /// requests in flight run on.
    pub fn trip_deadline(&mut self)
        requires
            old(self).wf(),
        ensures
            final(self).wf(),
            final(self).deadline_tripped,
            final(self).saturated(),
            final(self).total == old(self).total,
            final(self).concurrency == old(self).concurrency,
            final(self).next_index == old(self).next_index,
            final(self).in_flight == old(self).in_flight,
            final(self).finished == old(self).finished,
            final(self).records == old(self).records,
    {
        self.deadline_tripped = true;
    }

    /// Records that the request `index` finished with `record`, then applies
    /// the top-up rule; returns the indices dispatched.
    pub fn complete(&mut self, index: u32, record: RunRecord) -> (r: Vec<u32>)
        requires
            old(self).wf(),
            old(self).in_flight@.contains(index),
        ensures
            final(self).wf(),
            final(self).saturated(),
            final(self).total == old(self).total,
            final(self).concurrency == old(self).concurrency,
            final(self).deadline_tripped == old(self).deadline_tripped,
            final(self).finished@ == old(self).finished@.push(index),
            final(self).records@ == old(self).records@.push(record),
            final(self).next_index == old(self).next_index + r@.len(),
            forall|k: int| 0 <= k < r@.len() ==> #[trigger] r@[k] == old(self).next_index + k,
            final(self).in_flight@.len() == old(self).in_flight@.len() - 1 + r@.len(),
            old(self).deadline_tripped ==> r@.len() == 0,
    {
        let mut pos: usize = 0;
        while pos < self.in_flight.len() && self.in_flight[pos] != index
            invariant
                self.wf(),
                self.in_flight@.contains(index),
                0 <= pos <= self.in_flight@.len(),
                forall|k: int| 0 <= k < pos ==> self.in_flight@[k] != index,
            decreases self.in_flight@.len() - pos,
        {
            pos = pos + 1;
        }
        proof {
            if pos == self.in_flight@.len() {
                let k = choose|k: int| 0 <= k < self.in_flight@.len() && self.in_flight@[k] == index;
                assert(false);
            }
        }
        let ghost fl = self.in_flight@;
        proof {
            assert(fl[pos as int] == index);
        }
        self.in_flight.remove(pos);
        proof {
            assert(self.in_flight@ =~= fl.remove(pos as int));
            assert(!self.in_flight@.contains(index)) by {
                if self.in_flight@.contains(index) {
                    let k = choose|k: int| 0 <= k < self.in_flight@.len() && self.in_flight@[k] == index;
                    if k < pos {
                        assert(fl[k] == index);
                    } else {
                        assert(fl[k + 1] == index);
                    }
                }
            }
            assert(!self.finished@.contains(index));
        }
        self.finished.push(index);
        self.records.push(record);
        proof {
            assert forall|j: u32| j < self.next_index implies (#[trigger] self.in_flight@.contains(j)
                != self.finished@.contains(j)) by {
                if j != index {
                    if fl.contains(j) {
                        let k = choose|k: int| 0 <= k < fl.len() && fl[k] == j;
                        if k < pos {
                            assert(self.in_flight@[k] == j);
                        } else {
                            assert(self.in_flight@[k - 1] == j);
                        }
                    }
                    if self.in_flight@.contains(j) {
                        let k = choose|k: int| 0 <= k < self.in_flight@.len() && self.in_flight@[k] == j;
                        if k < pos {
                            assert(fl[k] == j);
                        } else {
                            assert(fl[k + 1] == j);
                        }
                    }
                    assert(self.finished@.contains(j) == old(self).finished@.contains(j)) by {
                        if self.finished@.contains(j) {
                            let k = choose|k: int| 0 <= k < self.finished@.len() && self.finished@[k] == j;
                            assert(old(self).finished@[k] == j);
                        }
                        if old(self).finished@.contains(j) {
                            let k = choose|k: int| 0 <= k < old(self).finished@.len() && old(self).finished@[k] == j;
                            assert(self.finished@[k] == j);
                        }
                    }
                } else {
                    assert(self.finished@.last() == index);
                }
            }
            assert(self.finished@.no_duplicates()) by {
                assert forall|a: int, b: int|
                    0 <= a < self.finished@.len() && 0 <= b < self.finished@.len() && a != b implies
                    self.finished@[a] != self.finished@[b] by {
                    if a == self.finished@.len() - 1 {
                        assert(old(self).finished@.contains(self.finished@[b]) || b == a);
                    } else if b == self.finished@.len() - 1 {
                        assert(old(self).finished@.contains(self.finished@[a]));
                    }
                }
            }
            assert(self.in_flight@.no_duplicates()) by {
                assert forall|a: int, b: int|
                    0 <= a < self.in_flight@.len() && 0 <= b < self.in_flight@.len() && a != b implies
                    self.in_flight@[a] != self.in_flight@[b] by {
                    let a2 = if a < pos { a } else { a + 1 };
                    let b2 = if b < pos { b } else { b + 1 };
                    assert(self.in_flight@[a] == fl[a2]);
                    assert(self.in_flight@[b] == fl[b2]);
                }
            }
            assert forall|k: int| 0 <= k < self.in_flight@.len() implies #[trigger] self.in_flight@[k]
                < self.next_index by {
                let k2 = if k < pos { k } else { k + 1 };
                assert(self.in_flight@[k] == fl[k2]);
            }
            assert(fl.contains(index));
        }
        self.top_up()
    }

    /// Where each request's record stands, by request index: for a finished
    /// run, `records[r[i]]` is the record of request `i`.
    pub fn dispatch_order(&self) -> (r: Vec<usize>)
        requires
            self.wf(),
            self.done(),
        ensures
            r@.len() == self.next_index,
            forall|i: int|
                0 <= i < r@.len() ==> #[trigger] r@[i] < self.finished@.len() && self.finished@[r@[i]
                    as int] == i,
    {
        proof {
            law_run_accounts(*self);
        }
        let mut out: Vec<usize> = Vec::new();
        let mut i: u32 = 0;
        while i < self.next_index
            invariant
                self.wf(),
                self.done(),
                forall|j: u32| j < self.next_index ==> #[trigger] self.finished@.contains(j),
                0 <= i <= self.next_index,
                out@.len() == i,
                forall|k: int|
                    0 <= k < i ==> #[trigger] out@[k] < self.finished@.len() && self.finished@[out@[k]
                        as int] == k,
            decreases self.next_index - i,
        {
            let mut pos: usize = 0;
            while pos < self.finished.len() && self.finished[pos] != i
                invariant
                    0 <= pos <= self.finished@.len(),
                    self.finished@.contains(i),
                    forall|k: int| 0 <= k < pos ==> self.finished@[k] != i,
                decreases self.finished@.len() - pos,
            {
                pos = pos + 1;
            }
            proof {
                if pos == self.finished@.len() {
                    let k = choose|k: int| 0 <= k < self.finished@.len() && self.finished@[k] == i;
                    assert(false);
                }
            }
            out.push(pos);
            i = i + 1;
        }
        out
    }

    /// Whether the run is over.
    pub fn is_done(&self) -> (r: bool)
        ensures
            r == self.done(),
    {
        self.in_flight.len() == 0 && (self.next_index == self.total || self.deadline_tripped)
    }
}

proof fn old_contains(s: Seq<u32>, j: u32, i: u32)
    requires
        s.len() > 0,
        s.last() == i,
        j != i,
    ensures
        s.contains(j) == s.drop_last().contains(j),
{
    if s.contains(j) {
        let k = choose|k: int| 0 <= k < s.len() && s[k] == j;
        assert(s.drop_last()[k] == j);
    }
    if s.drop_last().contains(j) {
        let k = choose|k: int| 0 <= k < s.drop_last().len() && s.drop_last()[k] == j;
        assert(s[k] == j);
    }
}

/// When the run is over, every dispatched request has exactly one record;
/// all `total` of them when the deadline never fired, and never more.
pub proof fn law_run_accounts(p: Pump)
    requires
        p.wf(),
        p.done(),
    ensures
        p.records@.len() == p.finished@.len() == p.next_index,
        p.records@.len() <= p.total,
        !p.deadline_tripped ==> p.records@.len() == p.total,
        p.finished@.no_duplicates(),
        forall|i: u32| i < p.next_index ==> #[trigger] p.finished@.contains(i),
{
    assert forall|i: u32| i < p.next_index implies #[trigger] p.finished@.contains(i) by {
        assert(!p.in_flight@.contains(i));
    }
}

/// In every reachable state no more than `concurrency` requests are in
/// flight.
pub proof fn law_concurrency_cap(p: Pump)
    requires
        p.wf(),
    ensures
        p.in_flight@.len() <= p.concurrency,
{
}

} // verus!
