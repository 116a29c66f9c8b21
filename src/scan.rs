//! The decisions of a scan. A worker walks its share of the ports and, after
//! each probe, says whether the port goes to the report and which port comes
//! next. The coordinator moves through its phases once: it dispatches the
//! workers, collects what they found once they have all finished, and hands
//! out the sorted report. The probes, threads and channel belong to the caller.
use vstd::prelude::*;
use crate::partition::{MAX_PORT, covered, ports_from, worker_ports_spec, next_port, first_port};
use crate::report::{OpenPortReport, sorted_report};

verus! {

/// One worker's walk over its ports.
pub struct Worker {
    port: u16,
    stride: u16,
    done: bool,
}

impl Worker {
    /// The ports this worker has yet to probe, in order.
    pub closed spec fn remaining(&self) -> Seq<int> {
        if self.done {
            Seq::empty()
        } else {
            ports_from(self.port as int, self.stride as int)
        }
    }

    pub closed spec fn wf(&self) -> bool {
        1 <= self.stride && 1 <= self.port
    }

    /// Worker `index` of `count`, before its first probe.
    pub fn new(index: u16, count: u16) -> (r: Worker)
        requires
            index < count,
        ensures
            r.wf(),
            r.remaining() == worker_ports_spec(index as int, count as int),
    {
        Worker { port: first_port(index, count), stride: count, done: false }
    }

    /// The port to probe next, or `None` once the worker is through.
    pub fn current(&self) -> (r: Option<u16>)
        requires
            self.wf(),
        ensures
            self.remaining().len() == 0 ==> r is None,
            self.remaining().len() > 0 ==> r == Some(self.remaining()[0] as u16),
            self.remaining().len() > 0 ==> 1 <= self.remaining()[0] <= MAX_PORT,
    {
        if self.done {
            None
        } else {
            Some(self.port)
        }
    }

    /// Takes the outcome of the probe of the current port: returns that port
    /// when it was open, and moves on to the next port.
    pub fn advance(&mut self, open: bool) -> (found: Option<u16>)
        requires
            old(self).wf(),
            old(self).remaining().len() > 0,
        ensures
            final(self).wf(),
            found == (if open { Some(old(self).remaining()[0] as u16) } else { None }),
            final(self).remaining() == old(self).remaining().drop_first(),
    {
        let found = if open {
            Some(self.port)
        } else {
            None
        };
        let ghost before = self.remaining();
        match next_port(self.port, self.stride) {
            None => {
                self.done = true;
                assert(before.drop_first() =~= Seq::<int>::empty());
            },
            Some(q) => {
                self.port = q;
                assert(before.drop_first() =~= self.remaining());
            },
        }
        found
    }
}

/// The phases of a scan, in the only order they come.
#[derive(Clone, Copy, Debug, PartialEq, Eq, Structural)]
pub enum Phase {
    Idle,
    Dispatched,
    Collecting,
    Reported,
    Done,
}

/// What runs a scan with a given number of workers.
pub struct Coordinator {
    worker_count: u16,
    phase: Phase,
    report: OpenPortReport,
}

impl Coordinator {
    pub closed spec fn worker_count_spec(&self) -> int {
        self.worker_count as int
    }

    pub closed spec fn phase_spec(&self) -> Phase {
        self.phase
    }

    /// The ports collected so far, in the order they arrived.
    pub closed spec fn found(&self) -> Seq<u16> {
        self.report@
    }

    /// A coordinator for `worker_count` workers, before any is dispatched.
    pub fn new(worker_count: u16) -> (r: Coordinator)
        requires
            1 <= worker_count,
        ensures
            r.worker_count_spec() == worker_count,
            r.phase_spec() == Phase::Idle,
            r.found() == Seq::<u16>::empty(),
    {
        Coordinator { worker_count, phase: Phase::Idle, report: OpenPortReport::new() }
    }

    pub fn phase(&self) -> (r: Phase)
        ensures
            r == self.phase_spec(),
    {
        self.phase
    }

    /// Starts the workers: one per index below the worker count, each made
    /// with `Worker::new(index, count)`.
    pub fn dispatch(&mut self) -> (r: Vec<Worker>)
        requires
            old(self).phase_spec() == Phase::Idle,
        ensures
            final(self).phase_spec() == Phase::Dispatched,
            final(self).worker_count_spec() == old(self).worker_count_spec(),
            final(self).found() == old(self).found(),
            r@.len() == old(self).worker_count_spec(),
            forall|i: int|
                0 <= i < r@.len() ==> (#[trigger] r@[i]).wf() && r@[i].remaining()
                    == worker_ports_spec(i, old(self).worker_count_spec()),
    {
        let mut workers: Vec<Worker> = Vec::new();
        let mut i: u16 = 0;
        while i < self.worker_count
            invariant
                i <= self.worker_count,
                workers@.len() == i,
                forall|k: int|
                    0 <= k < i ==> (#[trigger] workers@[k]).wf() && workers@[k].remaining()
                        == worker_ports_spec(k, self.worker_count as int),
            decreases self.worker_count - i,
        {
            workers.push(Worker::new(i, self.worker_count));
            i = i + 1;
        }
        self.phase = Phase::Dispatched;
        workers
    }

    /// Every worker has finished: what they sent may now be collected.
    pub fn workers_finished(&mut self)
        requires
            old(self).phase_spec() == Phase::Dispatched,
        ensures
            final(self).phase_spec() == Phase::Collecting,
            final(self).worker_count_spec() == old(self).worker_count_spec(),
            final(self).found() == old(self).found(),
    {
        self.phase = Phase::Collecting;
    }

    /// Collects one port that a worker sent.
    pub fn collect(&mut self, port: u16)
        requires
            old(self).phase_spec() == Phase::Collecting,
        ensures
            final(self).phase_spec() == Phase::Collecting,
            final(self).worker_count_spec() == old(self).worker_count_spec(),
            final(self).found() == old(self).found().push(port),
    {
        self.report.record(port);
    }

    /// The collected ports, distinct and ascending, as they are to be printed.
    pub fn report(&mut self) -> (r: Vec<u16>)
        requires
            old(self).phase_spec() == Phase::Collecting,
        ensures
            final(self).phase_spec() == Phase::Reported,
            final(self).worker_count_spec() == old(self).worker_count_spec(),
            final(self).found() == old(self).found(),
            r@ == sorted_report(old(self).found()),
    {
        self.phase = Phase::Reported;
        self.report.sorted()
    }

    /// The report has been printed; the scan is over.
    pub fn finish(&mut self)
        requires
            old(self).phase_spec() == Phase::Reported,
        ensures
            final(self).phase_spec() == Phase::Done,
            final(self).worker_count_spec() == old(self).worker_count_spec(),
            final(self).found() == old(self).found(),
    {
        self.phase = Phase::Done;
    }
}

/// Two runs of a scan with the same workers against the same listeners print
/// the same report, whatever order the ports arrived in: each run collects
/// exactly the listening ports that some worker probes.
pub proof fn lemma_same_listeners_same_report(
    first_run: Seq<u16>,
    second_run: Seq<u16>,
    n: int,
    listening: Set<u16>,
)
    requires
        forall|x: u16| #[trigger] first_run.contains(x) <==> covered(x as int, n) && listening.contains(x),
        forall|x: u16| #[trigger] second_run.contains(x) <==> covered(x as int, n) && listening.contains(x),
    ensures
        sorted_report(first_run) == sorted_report(second_run),
{
    assert(first_run.to_set() =~= second_run.to_set());
}

} // verus!
