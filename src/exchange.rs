//! Sequencing of the report exchange on an open session: an optional write,
//! then one read or, in continuous mode, reads until one fails. The caller
//! performs each write and read and reports the outcome back.
use vstd::prelude::*;

verus! {

/// What the caller does next in the exchange.
#[derive(Debug, Clone, Copy, PartialEq, Eq, Structural)]
pub enum ExchangeStep {
    /// Send the output report.
    Write,
    /// Issue one blocking read of an input report.
    Read,
    /// The exchange is over.
    Done,
}

/// How the exchange is to run: whether a payload is sent first, and whether
/// reading goes on until a read fails.
#[derive(Debug, Clone, Copy, PartialEq, Eq, Structural)]
pub struct ExchangePlan {
    pub has_payload: bool,
    pub continuous: bool,
}

/// The first step of the exchange.
pub open spec fn first_step(p: ExchangePlan) -> ExchangeStep {
    if p.has_payload {
        ExchangeStep::Write
    } else {
        ExchangeStep::Read
    }
}

/// The step after a write: a failed write is reported and reading goes on.
pub open spec fn step_after_write(p: ExchangePlan, write_ok: bool) -> ExchangeStep {
    ExchangeStep::Read
}

/// The step after a read: only a successful read in continuous mode is
/// followed by another read.
pub open spec fn step_after_read(p: ExchangePlan, read_ok: bool) -> ExchangeStep {
    if read_ok && p.continuous {
        ExchangeStep::Read
    } else {
        ExchangeStep::Done
    }
}

impl ExchangePlan {
    pub fn new(has_payload: bool, continuous: bool) -> (r: ExchangePlan)
        ensures
            r == (ExchangePlan { has_payload, continuous }),
    {
        ExchangePlan { has_payload, continuous }
    }

    /// Writes first when there is a payload, else reads at once.
    pub fn start(&self) -> (r: ExchangeStep)
        ensures
            r == first_step(*self),
    {
        if self.has_payload {
            ExchangeStep::Write
        } else {
            ExchangeStep::Read
        }
    }

    /// After the write, successful or not, a read follows.
    pub fn after_write(&self, write_ok: bool) -> (r: ExchangeStep)
        ensures
            r == step_after_write(*self, write_ok),
    {
        ExchangeStep::Read
    }

    /// After a read: read again only in continuous mode and only when this
    /// read succeeded; a failed read ends the exchange.
    pub fn after_read(&self, read_ok: bool) -> (r: ExchangeStep)
        ensures
            r == step_after_read(*self, read_ok),
    {
        if read_ok && self.continuous {
            ExchangeStep::Read
        } else {
            ExchangeStep::Done
        }
    }
}

/// What an exchange did: writes issued, reads issued, and input reports
/// shown (one per successful read).
pub struct ExchangeTrace {
    pub writes: nat,
    pub reads: nat,
    pub reports: nat,
}

/// The reads that follow `step` when the reads from position `i` on have
/// the outcomes in `outcomes`; counting stops where the outcomes end.
pub open spec fn read_run(p: ExchangePlan, step: ExchangeStep, outcomes: Seq<bool>, i: int) -> ExchangeTrace
    decreases outcomes.len() - i,
{
    if step is Read && 0 <= i < outcomes.len() {
        let rest = read_run(p, step_after_read(p, outcomes[i]), outcomes, i + 1);
        ExchangeTrace {
            writes: rest.writes,
            reads: rest.reads + 1,
            reports: if outcomes[i] { rest.reports + 1 } else { rest.reports },
        }
    } else {
        ExchangeTrace { writes: 0, reads: 0, reports: 0 }
    }
}

/// The exchange that a caller runs by following the steps of `p`, when the
/// write succeeds exactly when `write_ok` and the reads have the outcomes
/// in `outcomes`, in order.
pub open spec fn exchange_run(p: ExchangePlan, write_ok: bool, outcomes: Seq<bool>) -> ExchangeTrace {
    match first_step(p) {
        ExchangeStep::Write => {
            let rest = read_run(p, step_after_write(p, write_ok), outcomes, 0);
            ExchangeTrace { writes: rest.writes + 1, reads: rest.reads, reports: rest.reports }
        },
        step => read_run(p, step, outcomes, 0),
    }
}

proof fn lemma_reads_until_failure(p: ExchangePlan, outcomes: Seq<bool>, n: nat, i: int)
    requires
        p.continuous,
        0 <= i <= n < outcomes.len(),
        forall|k: int| i <= k < n ==> #[trigger] outcomes[k],
        !outcomes[n as int],
    ensures
        read_run(p, ExchangeStep::Read, outcomes, i) == (ExchangeTrace { writes: 0, reads: (n + 1 - i) as nat, reports: (n - i) as nat }),
    decreases n - i,
{
    if i < n {
        lemma_reads_until_failure(p, outcomes, n, i + 1);
    }
    let next = step_after_read(p, outcomes[i]);
    assert(i == n ==> read_run(p, next, outcomes, i + 1) == (ExchangeTrace { writes: 0, reads: 0, reports: 0 }));
}

/// In continuous mode, `n` successful reads followed by a failing one end
/// the reading after exactly `n + 1` reads, with `n` reports shown: nothing
/// is read after the failure, whatever further outcomes would have been.
pub proof fn continuous_reading_stops_at_first_failure(p: ExchangePlan, outcomes: Seq<bool>, n: nat)
    requires
        p.continuous,
        n < outcomes.len(),
        forall|k: int| 0 <= k < n ==> #[trigger] outcomes[k],
        !outcomes[n as int],
    ensures
        read_run(p, ExchangeStep::Read, outcomes, 0) == (ExchangeTrace { writes: 0, reads: n + 1, reports: n }),
        exchange_run(p, true, outcomes).reads == n + 1,
        exchange_run(p, false, outcomes).reads == n + 1,
{
    lemma_reads_until_failure(p, outcomes, n, 0);
}

/// Without a payload and outside continuous mode, the exchange issues
/// exactly one read, shows its outcome once, and writes nothing.
pub proof fn single_read_without_payload(p: ExchangePlan, write_ok: bool, outcomes: Seq<bool>)
    requires
        !p.has_payload,
        !p.continuous,
        outcomes.len() > 0,
    ensures
        exchange_run(p, write_ok, outcomes) == (ExchangeTrace {
            writes: 0,
            reads: 1,
            reports: if outcomes[0] { 1 } else { 0 },
        }),
{
    let next = step_after_read(p, outcomes[0]);
    assert(read_run(p, next, outcomes, 1) == (ExchangeTrace { writes: 0, reads: 0, reports: 0 }));
}

} // verus!
