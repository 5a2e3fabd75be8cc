use hidcomm::acquire::{
    select_candidate, AcquireStep, Acquirer, Candidate, DeviceIdentifier, VENDOR_USAGE_PAGE,
};

const ID: DeviceIdentifier = DeviceIdentifier { vendor_id: 0x1234, product_id: 0x5678 };

fn cand(vendor_id: u16, product_id: u16, usage_page: u16) -> Candidate {
    Candidate { vendor_id, product_id, usage_page }
}

/// How a scripted acquisition ended, how many opens it made, and the delays
/// it was asked to wait.
#[derive(Debug, PartialEq)]
enum Ending {
    Opened(usize),
    NotFound,
    Failed,
}

fn drive(
    acq: &mut Acquirer,
    scan: &dyn Fn(usize) -> Vec<Candidate>,
    open_ok: &dyn Fn(usize) -> bool,
) -> (Ending, usize, Vec<u64>) {
    let mut opens = 0;
    let mut waits = Vec::new();
    let mut attempt = 0;
    loop {
        match acq.on_enumerated(&scan(attempt)) {
            AcquireStep::Open(i) => {
                opens += 1;
                if open_ok(attempt) {
                    return (Ending::Opened(i), opens, waits);
                }
                match acq.on_open_failed() {
                    AcquireStep::RetryAfter(ms) => waits.push(ms),
                    AcquireStep::OpenFailed => return (Ending::Failed, opens, waits),
                    other => panic!("unexpected step {:?}", other),
                }
            }
            AcquireStep::DeviceNotFound => return (Ending::NotFound, opens, waits),
            other => panic!("unexpected step {:?}", other),
        }
        attempt += 1;
    }
}

#[test]
fn preferred_usage_page_wins() {
    let cands = vec![cand(0x1234, 0x5678, 1), cand(0x1234, 0x5678, VENDOR_USAGE_PAGE)];
    assert_eq!(select_candidate(&cands, ID, VENDOR_USAGE_PAGE), Some(1));
}

#[test]
fn first_preferred_candidate_is_chosen() {
    let cands = vec![
        cand(0x1111, 0x5678, VENDOR_USAGE_PAGE),
        cand(0x1234, 0x5678, VENDOR_USAGE_PAGE),
        cand(0x1234, 0x5678, VENDOR_USAGE_PAGE),
    ];
    assert_eq!(select_candidate(&cands, ID, VENDOR_USAGE_PAGE), Some(1));
}

#[test]
fn fallback_candidate_is_opened() {
    let cands = vec![cand(0x1234, 0x9999, VENDOR_USAGE_PAGE), cand(0x1234, 0x5678, 1), cand(0x1234, 0x5678, 2)];
    assert_eq!(select_candidate(&cands, ID, VENDOR_USAGE_PAGE), Some(1));
    let acq = Acquirer::new(ID, VENDOR_USAGE_PAGE, 3, 100);
    assert_eq!(acq.on_enumerated(&cands), AcquireStep::Open(1));
}

#[test]
fn no_candidate_means_not_found_without_retry() {
    let mut acq = Acquirer::new(ID, VENDOR_USAGE_PAGE, 3, 100);
    let (end, opens, waits) = drive(&mut acq, &|_| vec![cand(0x1, 0x2, VENDOR_USAGE_PAGE)], &|_| true);
    assert_eq!(end, Ending::NotFound);
    assert_eq!(opens, 0);
    assert!(waits.is_empty());
    assert_eq!(select_candidate(&vec![], ID, VENDOR_USAGE_PAGE), None);
}

#[test]
fn transient_open_failures_are_retried() {
    for n in 0..=3usize {
        let mut acq = Acquirer::new(ID, VENDOR_USAGE_PAGE, 3, 100);
        let (end, opens, waits) =
            drive(&mut acq, &|_| vec![cand(0x1234, 0x5678, VENDOR_USAGE_PAGE)], &|k| k >= n);
        assert_eq!(end, Ending::Opened(0));
        assert_eq!(opens, n + 1);
        assert_eq!(waits.iter().sum::<u64>(), 100 * n as u64);
    }
}

#[test]
fn persistent_open_failure_exhausts_retries() {
    for r in [0u32, 1, 3, 5] {
        let mut acq = Acquirer::new(ID, VENDOR_USAGE_PAGE, r, 25);
        let (end, opens, waits) =
            drive(&mut acq, &|_| vec![cand(0x1234, 0x5678, 7)], &|_| false);
        assert_eq!(end, Ending::Failed);
        assert_eq!(opens, r as usize + 1);
        assert_eq!(waits, vec![25u64; r as usize]);
    }
}

#[test]
fn device_vanishing_during_retries_is_not_found() {
    let mut acq = Acquirer::new(ID, VENDOR_USAGE_PAGE, 3, 10);
    let (end, opens, waits) = drive(
        &mut acq,
        &|k| if k == 0 { vec![cand(0x1234, 0x5678, 1)] } else { vec![] },
        &|_| false,
    );
    assert_eq!(end, Ending::NotFound);
    assert_eq!(opens, 1);
    assert_eq!(waits, vec![10]);
}

#[test]
fn attempt_counts_from_one() {
    let mut acq = Acquirer::new(ID, VENDOR_USAGE_PAGE, 2, 0);
    assert_eq!(acq.attempt(), 1);
    assert_eq!(acq.on_open_failed(), AcquireStep::RetryAfter(0));
    assert_eq!(acq.attempt(), 2);
    assert_eq!(acq.on_open_failed(), AcquireStep::RetryAfter(0));
    assert_eq!(acq.on_open_failed(), AcquireStep::OpenFailed);
    assert_eq!(acq.attempt(), 3);
}
