//! Whether the worker has its connection, and whether reads are served.

use vstd::prelude::*;

verus! {

/// What is known of the readiness of a database, shared between the manager and
/// its worker.
#[derive(Clone, Copy)]
pub struct Readiness {
    worker: bool,
    reads: bool,
}

/// The contents of a readiness.
pub struct ReadinessView {
    /// The worker that was started last has its connection.
    pub worker: bool,
    /// Some worker has had its connection: reads are served from then on, also
    /// while no worker runs and while a new one is starting.
    pub reads: bool,
}

impl View for Readiness {
    type V = ReadinessView;

    closed spec fn view(&self) -> ReadinessView {
        ReadinessView { worker: self.worker, reads: self.reads }
    }
}

/// Nothing is ready before a worker has been started.
pub open spec fn never_ready() -> ReadinessView {
    ReadinessView { worker: false, reads: false }
}

/// A new worker is started: it has to announce itself, and reads go on as before.
pub open spec fn at_start(readiness: ReadinessView) -> ReadinessView {
    ReadinessView { worker: false, reads: readiness.reads }
}

/// The worker has announced itself.
pub open spec fn announced() -> ReadinessView {
    ReadinessView { worker: true, reads: true }
}

impl Readiness {
    /// The readiness of a database on which no worker has been started.
    pub fn new() -> (readiness: Self)
        ensures
            readiness@ == never_ready(),
            !readiness@.worker && !readiness@.reads,
    {
        Readiness { worker: false, reads: false }
    }

    /// Takes note that the worker has its connection.
    pub fn announce(&mut self)
        ensures
            final(self)@ == announced(),
            final(self)@.worker && final(self)@.reads,
    {
        self.worker = true;
        self.reads = true;
    }

    /// Takes note that a new worker is being started.
    pub(crate) fn restart(&mut self)
        ensures
            final(self)@ == at_start(old(self)@),
            !final(self)@.worker,
            final(self)@.reads == old(self)@.reads,
    {
        self.worker = false;
    }

    /// Whether the worker that was started last has its connection.
    pub fn worker_is_ready(&self) -> (yes: bool)
        ensures
            yes == self@.worker,
    {
        self.worker
    }

    /// Whether reads are served.
    pub fn serves_reads(&self) -> (yes: bool)
        ensures
            yes == self@.reads,
    {
        self.reads
    }
}

/// A start asks the worker to announce itself and never changes whether reads are
/// served; an announcement makes both ready; before both, neither is.
pub proof fn law_readiness(readiness: ReadinessView)
    ensures
        !never_ready().worker && !never_ready().reads,
        announced().worker && announced().reads,
        !at_start(readiness).worker,
        at_start(readiness).reads <==> readiness.reads,
{
}

} // verus!
