use std::sync::Arc;
use std::time::Duration;

use sync_point::registry::{Role, UniqueId, WaitingParties};
use sync_point::rendezvous::{arrive, conclude, Arrival, Outcome};
use tokio::runtime::{Builder, Runtime};
use tokio::sync::Mutex;
use tokio::task::JoinHandle;
use tokio::time::{sleep, timeout};

const INBOUND_MESSAGE: &str = "Hooray! Another party is connected!\n";
const OUTBOUND_MESSAGE: &str = "Yippee! We connected to another party!\n";
const TIMEOUT_MESSAGE: &str = "Oh no... we timed out waiting for another party\n";

fn runtime() -> Runtime {
    Builder::new_current_thread().enable_time().build().unwrap()
}

/// One attempt, run as a server task runs it: arrive under the lock, wait
/// without it, conclude under it again.
async fn attempt(parties: Arc<Mutex<WaitingParties>>, id: UniqueId, bound: Duration) -> Outcome {
    let arrival = {
        let mut guard = parties.lock().await;
        assert!(guard.contains(id) || guard.can_register());
        arrive(&mut guard, id)
    };
    match arrival {
        Arrival::Resolved(outcome) => outcome,
        Arrival::Waiting { ticket, handle } => {
            let _ = timeout(bound, handle.notified()).await;
            let mut guard = parties.lock().await;
            conclude(&mut guard, id, ticket)
        }
    }
}

/// Starts one attempt per identifier, in order, `gap_ms` apart.
fn run_attempts_apart(ids: &[UniqueId], bound_ms: u64, gap_ms: u64) -> (Vec<Outcome>, Arc<Mutex<WaitingParties>>) {
    let rt = runtime();
    let parties = Arc::new(Mutex::new(WaitingParties::new()));
    let outcomes = rt.block_on(async {
        let mut tasks: Vec<JoinHandle<Outcome>> = Vec::new();
        for id in ids {
            tasks.push(tokio::spawn(attempt(parties.clone(), *id, Duration::from_millis(bound_ms))));
            sleep(Duration::from_millis(gap_ms)).await;
        }
        let mut outcomes = Vec::new();
        for task in tasks {
            outcomes.push(task.await.unwrap());
        }
        outcomes
    });
    (outcomes, parties)
}

fn run_attempts(ids: &[UniqueId], bound_ms: u64) -> (Vec<Outcome>, Arc<Mutex<WaitingParties>>) {
    run_attempts_apart(ids, bound_ms, 10)
}

fn assert_reported(outcome: Outcome, status: u16, message: &str) {
    assert_eq!(outcome.status_code(), status);
    assert_eq!(outcome.message(), message);
}

fn waiting_ticket(arrival: Arrival) -> u64 {
    match arrival {
        Arrival::Waiting { ticket, .. } => ticket,
        Arrival::Resolved(o) => panic!("expected to wait, got {:?}", o),
    }
}

#[test]
fn two_parties_with_same_id_succeed() {
    let (outcomes, _) = run_attempts(&[1, 1], 200);
    assert_reported(outcomes[0], 200, INBOUND_MESSAGE);
    assert_reported(outcomes[1], 200, OUTBOUND_MESSAGE);
}

#[test]
fn second_party_arriving_later_within_bound() {
    let (outcomes, parties) = run_attempts_apart(&[1, 1], 200, 50);
    assert_eq!(outcomes, vec![Outcome::MatchedAsFirst, Outcome::MatchedAsSecond]);
    let rt = runtime();
    assert!(!rt.block_on(parties.lock()).contains(1));
}

#[test]
fn single_party_time_out() {
    let (outcomes, parties) = run_attempts(&[1], 100);
    assert_reported(outcomes[0], 408, TIMEOUT_MESSAGE);
    let rt = runtime();
    assert!(!rt.block_on(parties.lock()).contains(1));
}

#[test]
fn multiple_parties_with_multiple_ids_succeed() {
    let (outcomes, _) = run_attempts(&[1, 1, 2, 2], 200);
    assert_reported(outcomes[0], 200, INBOUND_MESSAGE);
    assert_reported(outcomes[1], 200, OUTBOUND_MESSAGE);
    assert_reported(outcomes[2], 200, INBOUND_MESSAGE);
    assert_reported(outcomes[3], 200, OUTBOUND_MESSAGE);
}

#[test]
fn multiple_parties_with_multiple_ids_some_succeed_some_timeout() {
    let (outcomes, parties) = run_attempts(&[1, 1, 2, 2, 2, 3], 200);
    assert_reported(outcomes[0], 200, INBOUND_MESSAGE);
    assert_reported(outcomes[1], 200, OUTBOUND_MESSAGE);
    assert_reported(outcomes[2], 200, INBOUND_MESSAGE);
    assert_reported(outcomes[3], 200, OUTBOUND_MESSAGE);
    assert_reported(outcomes[4], 408, TIMEOUT_MESSAGE);
    assert_reported(outcomes[5], 408, TIMEOUT_MESSAGE);
    let rt = runtime();
    let guard = rt.block_on(parties.lock());
    assert!(!guard.contains(1));
    assert!(!guard.contains(2));
    assert!(!guard.contains(3));
}

#[test]
fn fire_before_wait_is_not_lost() {
    let mut parties = WaitingParties::new();
    let first = arrive(&mut parties, 7);
    let (ticket, handle) = match first {
        Arrival::Waiting { ticket, handle } => (ticket, handle),
        Arrival::Resolved(o) => panic!("expected to wait, got {:?}", o),
    };
    assert!(matches!(arrive(&mut parties, 7), Arrival::Resolved(Outcome::MatchedAsSecond)));
    let rt = runtime();
    let woke = rt.block_on(async { timeout(Duration::from_millis(100), handle.notified()).await });
    assert!(woke.is_ok());
    assert_eq!(conclude(&mut parties, 7, ticket), Outcome::MatchedAsFirst);
}

#[test]
fn match_after_timer_still_counts_as_matched() {
    let mut parties = WaitingParties::new();
    let ticket = waiting_ticket(arrive(&mut parties, 1));
    // The waiter's bound has passed, but the matcher takes the entry before
    // the waiter concludes.
    assert!(matches!(arrive(&mut parties, 1), Arrival::Resolved(Outcome::MatchedAsSecond)));
    assert_eq!(conclude(&mut parties, 1, ticket), Outcome::MatchedAsFirst);
    assert!(!parties.contains(1));
}

#[test]
fn late_conclusion_keeps_a_newer_waiter() {
    let mut parties = WaitingParties::new();
    let old_ticket = waiting_ticket(arrive(&mut parties, 1));
    assert!(matches!(arrive(&mut parties, 1), Arrival::Resolved(Outcome::MatchedAsSecond)));
    let new_ticket = waiting_ticket(arrive(&mut parties, 1));
    assert_ne!(old_ticket, new_ticket);
    assert_eq!(conclude(&mut parties, 1, old_ticket), Outcome::MatchedAsFirst);
    assert!(parties.contains(1));
    assert_eq!(conclude(&mut parties, 1, new_ticket), Outcome::TimedOut);
    assert!(!parties.contains(1));
}

#[test]
fn timed_out_waiter_leaves_no_entry() {
    let mut parties = WaitingParties::new();
    let ticket = waiting_ticket(arrive(&mut parties, 1));
    assert!(parties.contains(1));
    assert_eq!(conclude(&mut parties, 1, ticket), Outcome::TimedOut);
    assert!(!parties.contains(1));
    // A later attempt on the same identifier starts afresh.
    let again = waiting_ticket(arrive(&mut parties, 1));
    assert_eq!(again, ticket + 1);
}

#[test]
fn distinct_ids_do_not_cross_match() {
    let mut parties = WaitingParties::new();
    let t1 = waiting_ticket(arrive(&mut parties, 1));
    let t2 = waiting_ticket(arrive(&mut parties, 2));
    assert_ne!(t1, t2);
    assert!(matches!(arrive(&mut parties, 2), Arrival::Resolved(Outcome::MatchedAsSecond)));
    assert!(parties.contains(1));
    assert!(!parties.contains(2));
    assert_eq!(conclude(&mut parties, 2, t2), Outcome::MatchedAsFirst);
    assert_eq!(conclude(&mut parties, 1, t1), Outcome::TimedOut);
}

#[test]
fn removing_an_absent_id_is_a_no_op() {
    let mut parties = WaitingParties::new();
    parties.remove(5);
    assert!(!parties.contains(5));
    let ticket = waiting_ticket(arrive(&mut parties, 6));
    parties.remove(5);
    assert!(parties.contains(6));
    parties.remove(6);
    parties.remove(6);
    assert!(!parties.contains(6));
    assert!(!parties.remove_if_owned(6, ticket));
}

#[test]
fn take_or_register_decides_the_role() {
    let mut parties = WaitingParties::new();
    assert!(parties.can_register());
    let handle = match parties.take_or_register(3) {
        Role::Waiter { ticket, handle } => {
            assert_eq!(ticket, 0);
            handle
        }
        Role::Matcher(_) => panic!("nobody was waiting"),
    };
    match parties.take_or_register(3) {
        Role::Matcher(h) => assert!(Arc::ptr_eq(&h, &handle)),
        Role::Waiter { .. } => panic!("a waiter was pending"),
    }
    assert!(!parties.contains(3));
}

#[test]
fn take_insert_and_remove() {
    let mut parties = WaitingParties::new();
    assert!(parties.take(4).is_none());
    let (ticket, handle) = parties.insert(4);
    assert_eq!(ticket, 0);
    let (second, newer) = parties.insert(4);
    assert_eq!(second, 1);
    assert!(!parties.remove_if_owned(4, ticket));
    let taken = parties.take(4).unwrap();
    assert!(Arc::ptr_eq(&taken, &newer));
    assert!(!Arc::ptr_eq(&taken, &handle));
    assert!(parties.take(4).is_none());
}

#[test]
fn outcome_reports() {
    assert_reported(Outcome::MatchedAsSecond, 200, OUTBOUND_MESSAGE);
    assert_reported(Outcome::MatchedAsFirst, 200, INBOUND_MESSAGE);
    assert_reported(Outcome::TimedOut, 408, TIMEOUT_MESSAGE);
}

#[test]
fn other_waiters_keep_their_handles() {
    let mut parties = WaitingParties::new();
    let (t1, h1) = match arrive(&mut parties, 1) {
        Arrival::Waiting { ticket, handle } => (ticket, handle),
        Arrival::Resolved(o) => panic!("expected to wait, got {:?}", o),
    };
    let t2 = waiting_ticket(arrive(&mut parties, 2));
    assert_eq!(conclude(&mut parties, 2, t2), Outcome::TimedOut);
    parties.remove(3);
    assert!(!parties.remove_if_owned(1, t1 + 100));
    match parties.take_or_register(1) {
        Role::Matcher(h) => assert!(Arc::ptr_eq(&h, &h1)),
        Role::Waiter { .. } => panic!("a waiter was pending"),
    }
}
