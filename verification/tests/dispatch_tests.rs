use snowbreak_gacha_export::dispatch::{Dispatcher, WorkerCheckout, WorkerPool};

#[test]
fn ids_increase_and_are_unique() {
    let mut d: Dispatcher<String> = Dispatcher::new();
    let mut ids = Vec::new();
    for k in 0..32 {
        ids.push(d.submit(format!("slot-{}", k)));
    }
    for k in 0..32 {
        assert_eq!(ids[k], k as u64);
    }
    assert_eq!(d.pending_count(), 32);
}

#[test]
fn every_id_gets_exactly_its_own_response() {
    // N concurrent submissions with distinct ids: each delivery reaches
    // the slot registered under exactly that id, once.
    let mut d: Dispatcher<String> = Dispatcher::new();
    let n: u64 = 16;
    for k in 0..n {
        d.submit(format!("slot-{}", k));
    }
    // Deliver out of order, as a reused worker pool would.
    let mut order: Vec<u64> = (0..n).rev().collect();
    order.swap(0, 7);
    for id in order {
        let slot = d.complete(id).unwrap();
        assert_eq!(slot, format!("slot-{}", id));
        // A second delivery for the same id reaches nothing.
        assert!(d.complete(id).is_none());
    }
    assert_eq!(d.pending_count(), 0);
}

#[test]
fn unknown_ids_are_never_delivered() {
    let mut d: Dispatcher<u32> = Dispatcher::new();
    assert!(d.complete(0).is_none());
    let id = d.submit(7);
    assert!(d.complete(id + 1).is_none());
    assert_eq!(d.pending_count(), 1);
    assert_eq!(d.complete(id), Some(7));
}

#[test]
fn pool_starts_workers_only_up_to_capacity() {
    let mut pool: WorkerPool<String> = WorkerPool::new(2);
    assert!(matches!(pool.checkout(), WorkerCheckout::StartNew));
    assert!(matches!(pool.checkout(), WorkerCheckout::StartNew));
    assert!(matches!(pool.checkout(), WorkerCheckout::Busy));
}

#[test]
fn pool_reuses_returned_workers() {
    let mut pool: WorkerPool<String> = WorkerPool::new(2);
    assert!(matches!(pool.checkout(), WorkerCheckout::StartNew));
    pool.checkin("first".to_string());
    match pool.checkout() {
        WorkerCheckout::Reuse(w) => assert_eq!(w, "first"),
        _ => panic!("an idle worker must be reused"),
    }
}

#[test]
fn pool_frees_the_slot_of_a_discarded_worker() {
    let mut pool: WorkerPool<String> = WorkerPool::new(1);
    assert!(matches!(pool.checkout(), WorkerCheckout::StartNew));
    assert!(matches!(pool.checkout(), WorkerCheckout::Busy));
    pool.discard();
    assert!(matches!(pool.checkout(), WorkerCheckout::StartNew));
}
