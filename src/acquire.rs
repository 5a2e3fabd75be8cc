//! Locating a device interface among enumerated candidates, and the
//! decisions of the open-with-retry protocol. Enumerating, opening and
//! sleeping are done by the caller, which feeds each outcome back in.
use vstd::prelude::*;

verus! {

/// Usage page of the vendor-defined control interface.
pub const VENDOR_USAGE_PAGE: u16 = 0xFF42;

/// Vendor and product identifiers of the wanted device.
#[derive(Debug, Clone, Copy, PartialEq, Eq, Structural)]
pub struct DeviceIdentifier {
    pub vendor_id: u16,
    pub product_id: u16,
}

/// What the logic reads of one enumerated interface. Its position in the
/// enumeration stands for the path it is opened by.
#[derive(Debug, Clone, Copy, PartialEq, Eq, Structural)]
pub struct Candidate {
    pub vendor_id: u16,
    pub product_id: u16,
    pub usage_page: u16,
}

/// The candidate belongs to the device and, when a usage page is asked for,
/// is the interface on that page.
pub open spec fn fits(c: Candidate, id: DeviceIdentifier, page: Option<u16>) -> bool {
    &&& c.vendor_id == id.vendor_id
    &&& c.product_id == id.product_id
    &&& (page matches Some(p) ==> c.usage_page == p)
}

/// Position of the first candidate at or after `start` that fits.
pub open spec fn first_fit_from(
    cands: Seq<Candidate>,
    id: DeviceIdentifier,
    page: Option<u16>,
    start: int,
) -> Option<int>
    decreases cands.len() - start,
{
    if start < 0 || start >= cands.len() {
        None
    } else if fits(cands[start], id, page) {
        Some(start)
    } else {
        first_fit_from(cands, id, page, start + 1)
    }
}

/// The candidate to open: the first on the preferred usage page, else the
/// first of the device on any page, else none.
pub open spec fn selection(cands: Seq<Candidate>, id: DeviceIdentifier, preferred: u16) -> Option<
    int,
> {
    match first_fit_from(cands, id, Some(preferred), 0) {
        Some(i) => Some(i),
        None => first_fit_from(cands, id, None, 0),
    }
}

/// `first_fit_from` finds a fitting candidate exactly when one exists at or
/// after `start`, and then the first such.
pub proof fn lemma_first_fit_from(cands: Seq<Candidate>, id: DeviceIdentifier, page: Option<u16>, start: int)
    requires
        0 <= start <= cands.len(),
    ensures
        match first_fit_from(cands, id, page, start) {
            Some(i) => start <= i < cands.len() && fits(cands[i], id, page) && forall|j: int|
                start <= j < i ==> !fits(#[trigger] cands[j], id, page),
            None => forall|j: int| start <= j < cands.len() ==> !fits(#[trigger] cands[j], id, page),
        },
    decreases cands.len() - start,
{
    if start < cands.len() {
        lemma_first_fit_from(cands, id, page, start + 1);
    }
}

fn first_fit(cands: &Vec<Candidate>, id: DeviceIdentifier, page: Option<u16>) -> (r: Option<usize>)
    ensures
        match first_fit_from(cands@, id, page, 0) {
            Some(i) => r == Some(i as usize),
            None => r is None,
        },
{
    let mut i: usize = 0;
    while i < cands.len()
        invariant
            i <= cands@.len(),
            first_fit_from(cands@, id, page, 0) == first_fit_from(cands@, id, page, i as int),
        decreases cands@.len() - i,
    {
        let c = cands[i];
        let wanted = match page {
            Some(p) => c.usage_page == p,
            None => true,
        };
        if c.vendor_id == id.vendor_id && c.product_id == id.product_id && wanted {
            return Some(i);
        }
        i = i + 1;
    }
    None
}

/// Picks the interface to open: the first candidate of the device on the
/// preferred usage page; failing that, the first candidate of the device on
/// any page; failing that, none.
pub fn select_candidate(cands: &Vec<Candidate>, id: DeviceIdentifier, preferred_usage_page: u16) -> (r: Option<usize>)
    ensures
        match selection(cands@, id, preferred_usage_page) {
            Some(i) => r == Some(i as usize),
            None => r is None,
        },
{
    match first_fit(cands, id, Some(preferred_usage_page)) {
        Some(i) => Some(i),
        None => first_fit(cands, id, None),
    }
}

/// What the caller does next while acquiring a session.
#[derive(Debug, Clone, Copy, PartialEq, Eq, Structural)]
pub enum AcquireStep {
    /// Open the candidate at this position of the enumeration.
    Open(usize),
    /// Wait this many milliseconds, then enumerate again.
    RetryAfter(u64),
    /// No candidate of the device is present: fail at once.
    DeviceNotFound,
    /// Every allowed open attempt failed: fail with the last open error.
    OpenFailed,
}

/// State of one acquisition: its settings and how many opens have failed.
#[derive(Debug, Clone, Copy, PartialEq, Eq, Structural)]
pub struct Acquirer {
    pub identifier: DeviceIdentifier,
    pub preferred_usage_page: u16,
    pub max_retries: u32,
    pub retry_delay_ms: u64,
    pub failed_opens: u32,
}

/// The step that follows an enumeration.
pub open spec fn enumerated_step(a: Acquirer, cands: Seq<Candidate>) -> AcquireStep {
    match selection(cands, a.identifier, a.preferred_usage_page) {
        Some(i) => AcquireStep::Open(i as usize),
        None => AcquireStep::DeviceNotFound,
    }
}

/// The state and step that follow a failed open.
pub open spec fn open_failed_step(a: Acquirer) -> (Acquirer, AcquireStep) {
    if a.failed_opens < a.max_retries {
        (Acquirer { failed_opens: (a.failed_opens + 1) as u32, ..a }, AcquireStep::RetryAfter(a.retry_delay_ms))
    } else {
        (a, AcquireStep::OpenFailed)
    }
}

impl Acquirer {
    pub open spec fn wf(self) -> bool {
        self.failed_opens <= self.max_retries
    }

    /// A fresh acquisition: up to `max_retries + 1` open attempts, with
    /// `retry_delay_ms` between two of them.
    pub fn new(identifier: DeviceIdentifier, preferred_usage_page: u16, max_retries: u32, retry_delay_ms: u64) -> (r: Acquirer)
        ensures
            r == (Acquirer { identifier, preferred_usage_page, max_retries, retry_delay_ms, failed_opens: 0 }),
            r.wf(),
    {
        Acquirer { identifier, preferred_usage_page, max_retries, retry_delay_ms, failed_opens: 0 }
    }

    /// Decides on the candidates of a fresh enumeration: open the selected
    /// one, or fail with `DeviceNotFound`, which is never retried.
    pub fn on_enumerated(&self, cands: &Vec<Candidate>) -> (r: AcquireStep)
        ensures
            r == enumerated_step(*self, cands@),
    {
        match select_candidate(cands, self.identifier, self.preferred_usage_page) {
            Some(i) => AcquireStep::Open(i),
            None => AcquireStep::DeviceNotFound,
        }
    }

    /// Decides after a failed open: wait and enumerate again while retries
    /// remain, else give up.
    pub fn on_open_failed(&mut self) -> (r: AcquireStep)
        ensures
            (*final(self), r) == open_failed_step(*old(self)),
            old(self).wf() ==> final(self).wf(),
    {
        if self.failed_opens < self.max_retries {
            self.failed_opens = self.failed_opens + 1;
            AcquireStep::RetryAfter(self.retry_delay_ms)
        } else {
            AcquireStep::OpenFailed
        }
    }

    /// Number of the attempt under way, counting from one.
    pub fn attempt(&self) -> (r: u64)
        ensures
            r == self.failed_opens + 1,
    {
        self.failed_opens as u64 + 1
    }
}

/// How an acquisition ends.
pub enum AcquireOutcome {
    /// A session was opened on the candidate at `index` of the enumeration
    /// made in attempt `attempt` (counting from zero).
    Opened { attempt: nat, index: int },
    DeviceNotFound,
    OpenFailed,
}

/// What a whole acquisition did: how it ended, how many opens it attempted,
/// and how long it waited in all.
pub struct AcquireSummary {
    pub outcome: AcquireOutcome,
    pub opens: nat,
    pub waited_ms: nat,
}

/// The acquisition that a caller runs by following the steps from state `a`,
/// when enumeration in attempt `k` shows `scans[k]` and the open in attempt
/// `k` succeeds exactly when `opens[k]`.
pub open spec fn acquire_run(a: Acquirer, scans: Seq<Seq<Candidate>>, opens: Seq<bool>) -> AcquireSummary
    decreases a.max_retries - a.failed_opens,
{
    let k = a.failed_opens as int;
    match enumerated_step(a, scans[k]) {
        AcquireStep::Open(i) => {
            if opens[k] {
                AcquireSummary { outcome: AcquireOutcome::Opened { attempt: k as nat, index: i as int }, opens: 1, waited_ms: 0 }
            } else {
                let (next, step) = open_failed_step(a);
                if step is RetryAfter {
                    let rest = acquire_run(next, scans, opens);
                    AcquireSummary {
                        outcome: rest.outcome,
                        opens: rest.opens + 1,
                        waited_ms: (rest.waited_ms + a.retry_delay_ms) as nat,
                    }
                } else {
                    AcquireSummary { outcome: AcquireOutcome::OpenFailed, opens: 1, waited_ms: 0 }
                }
            }
        },
        _ => AcquireSummary { outcome: AcquireOutcome::DeviceNotFound, opens: 0, waited_ms: 0 },
    }
}

/// Some enumerated candidate belongs to the device, on any usage page.
pub open spec fn device_present(cands: Seq<Candidate>, id: DeviceIdentifier) -> bool {
    exists|j: int| 0 <= j < cands.len() && fits(#[trigger] cands[j], id, None)
}

proof fn lemma_present_is_selected(cands: Seq<Candidate>, id: DeviceIdentifier, preferred: u16)
    requires
        device_present(cands, id),
    ensures
        selection(cands, id, preferred) is Some,
{
    lemma_first_fit_from(cands, id, None, 0);
}

proof fn lemma_retry_until_success(a: Acquirer, scans: Seq<Seq<Candidate>>, opens: Seq<bool>, n: nat)
    requires
        a.failed_opens <= n <= a.max_retries,
        scans.len() > n,
        opens.len() > n,
        forall|k: int| a.failed_opens <= k <= n ==> device_present(#[trigger] scans[k], a.identifier),
        forall|k: int| a.failed_opens <= k < n ==> !#[trigger] opens[k],
        opens[n as int],
    ensures
        acquire_run(a, scans, opens).outcome is Opened,
        acquire_run(a, scans, opens).opens == n + 1 - a.failed_opens,
        acquire_run(a, scans, opens).waited_ms == (n - a.failed_opens) * a.retry_delay_ms,
    decreases n - a.failed_opens,
{
    let k = a.failed_opens as int;
    lemma_present_is_selected(scans[k], a.identifier, a.preferred_usage_page);
    if k < n {
        let next = open_failed_step(a).0;
        lemma_retry_until_success(next, scans, opens, n);
        let d = a.retry_delay_ms as int;
        assert((n - k) * d == (n - (k + 1)) * d + d) by (nonlinear_arith);
    }
}

proof fn lemma_retry_until_exhausted(a: Acquirer, scans: Seq<Seq<Candidate>>, opens: Seq<bool>)
    requires
        a.wf(),
        scans.len() > a.max_retries,
        opens.len() > a.max_retries,
        forall|k: int| a.failed_opens <= k <= a.max_retries ==> device_present(#[trigger] scans[k], a.identifier),
        forall|k: int| a.failed_opens <= k <= a.max_retries ==> !#[trigger] opens[k],
    ensures
        acquire_run(a, scans, opens).outcome is OpenFailed,
        acquire_run(a, scans, opens).opens == a.max_retries + 1 - a.failed_opens,
        acquire_run(a, scans, opens).waited_ms == (a.max_retries - a.failed_opens) * a.retry_delay_ms,
    decreases a.max_retries - a.failed_opens,
{
    let k = a.failed_opens as int;
    lemma_present_is_selected(scans[k], a.identifier, a.preferred_usage_page);
    if k < a.max_retries {
        let next = open_failed_step(a).0;
        lemma_retry_until_exhausted(next, scans, opens);
        let d = a.retry_delay_ms as int;
        let m = a.max_retries as int;
        assert((m - k) * d == (m - (k + 1)) * d + d) by (nonlinear_arith);
    } else {
        let z = a.max_retries - k;
        assert(z * a.retry_delay_ms == 0) by (nonlinear_arith)
            requires
                z == 0,
        ;
    }
}

/// When the enumeration shows no candidate of the device, the acquisition
/// fails with `DeviceNotFound` at once: no open is attempted and no retry
/// delay is waited.
pub proof fn absent_device_fails_without_retry(a: Acquirer, scans: Seq<Seq<Candidate>>, opens: Seq<bool>)
    requires
        a.wf(),
        a.failed_opens == 0,
        scans.len() > 0,
        !device_present(scans[0], a.identifier),
    ensures
        acquire_run(a, scans, opens).outcome is DeviceNotFound,
        acquire_run(a, scans, opens).opens == 0,
        acquire_run(a, scans, opens).waited_ms == 0,
{
    let cands = scans[0];
    lemma_first_fit_from(cands, a.identifier, None, 0);
    lemma_first_fit_from(cands, a.identifier, Some(a.preferred_usage_page), 0);
    if let Some(i) = first_fit_from(cands, a.identifier, Some(a.preferred_usage_page), 0) {
        assert(fits(cands[i], a.identifier, None));
    }
}

/// A candidate of the device that is not on the preferred usage page is
/// opened, rather than the acquisition failing, when no candidate is on that
/// page and it is the first candidate of the device.
pub proof fn fallback_candidate_is_opened(a: Acquirer, cands: Seq<Candidate>, i: int)
    requires
        0 <= i < cands.len(),
        fits(cands[i], a.identifier, None),
        forall|j: int| 0 <= j < i ==> !fits(#[trigger] cands[j], a.identifier, None),
        forall|j: int| 0 <= j < cands.len() ==> !fits(#[trigger] cands[j], a.identifier, Some(a.preferred_usage_page)),
    ensures
        enumerated_step(a, cands) == AcquireStep::Open(i as usize),
{
    lemma_first_fit_from(cands, a.identifier, None, 0);
    lemma_first_fit_from(cands, a.identifier, Some(a.preferred_usage_page), 0);
}

/// When the device stays present and its open fails `n` times and then
/// succeeds, with `n` at most the number of retries, the acquisition opens a
/// session after `n + 1` opens, having waited `n` times the retry delay.
pub proof fn transient_failures_are_retried(a: Acquirer, scans: Seq<Seq<Candidate>>, opens: Seq<bool>, n: nat)
    requires
        a.wf(),
        a.failed_opens == 0,
        n <= a.max_retries,
        scans.len() > n,
        opens.len() > n,
        forall|k: int| 0 <= k <= n ==> device_present(#[trigger] scans[k], a.identifier),
        forall|k: int| 0 <= k < n ==> !#[trigger] opens[k],
        opens[n as int],
    ensures
        acquire_run(a, scans, opens).outcome is Opened,
        acquire_run(a, scans, opens).opens == n + 1,
        acquire_run(a, scans, opens).waited_ms == n * a.retry_delay_ms,
{
    lemma_retry_until_success(a, scans, opens, n);
}

/// When the device stays present and every open fails, the acquisition
/// attempts exactly `max_retries + 1` opens and fails with `OpenFailed`.
pub proof fn persistent_failure_exhausts_retries(a: Acquirer, scans: Seq<Seq<Candidate>>, opens: Seq<bool>)
    requires
        a.wf(),
        a.failed_opens == 0,
        scans.len() > a.max_retries,
        opens.len() > a.max_retries,
        forall|k: int| 0 <= k <= a.max_retries ==> device_present(#[trigger] scans[k], a.identifier),
        forall|k: int| 0 <= k <= a.max_retries ==> !#[trigger] opens[k],
    ensures
        acquire_run(a, scans, opens).outcome is OpenFailed,
        acquire_run(a, scans, opens).opens == a.max_retries + 1,
        acquire_run(a, scans, opens).waited_ms == a.max_retries * a.retry_delay_ms,
{
    lemma_retry_until_exhausted(a, scans, opens);
}

} // verus!
