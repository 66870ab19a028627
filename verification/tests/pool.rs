use dirscan::file_system::pool::{PoolStep, ReaderPool};

#[test]
fn every_entry_is_started_once_and_in_order() {
    let mut pool = ReaderPool::new(3, None);
    assert_eq!(pool.next_step(), PoolStep::Start(0));
    assert_eq!(pool.next_step(), PoolStep::Start(1));
    assert_eq!(pool.next_step(), PoolStep::Start(2));
    assert_eq!(pool.active(), 3);
    assert_eq!(pool.next_step(), PoolStep::Wait);
    pool.worker_ended();
    pool.worker_ended();
    assert_eq!(pool.next_step(), PoolStep::Wait);
    pool.worker_ended();
    assert_eq!(pool.next_step(), PoolStep::Done);
    assert_eq!(pool.next_step(), PoolStep::Done);
    assert_eq!(pool.active(), 0);
}

#[test]
fn pool_without_entries_is_done_at_once() {
    let mut pool = ReaderPool::new(0, Some(4));
    assert_eq!(pool.next_step(), PoolStep::Done);
    let mut pool = ReaderPool::new(0, None);
    assert_eq!(pool.next_step(), PoolStep::Done);
}

#[test]
fn limit_of_two_against_twenty_entries() {
    let mut pool = ReaderPool::new(20, Some(2));
    let mut started = Vec::new();
    let mut ended = 0;
    let mut most = 0;
    loop {
        match pool.next_step() {
            PoolStep::Start(index) => started.push(index),
            PoolStep::Wait => {
                assert!(pool.active() > 0);
                pool.worker_ended();
                ended += 1;
            }
            PoolStep::Done => break,
        }
        assert!(pool.active() <= 2);
        if pool.active() > most {
            most = pool.active();
        }
    }
    assert_eq!(started, (0..20).collect::<Vec<usize>>());
    assert_eq!(ended, 20);
    assert_eq!(most, 2);
}

#[test]
fn a_freed_slot_is_taken_by_the_next_entry() {
    let mut pool = ReaderPool::new(3, Some(1));
    assert_eq!(pool.next_step(), PoolStep::Start(0));
    assert_eq!(pool.next_step(), PoolStep::Wait);
    pool.worker_ended();
    assert_eq!(pool.next_step(), PoolStep::Start(1));
    pool.worker_ended();
    assert_eq!(pool.next_step(), PoolStep::Start(2));
    assert_eq!(pool.next_step(), PoolStep::Wait);
    pool.worker_ended();
    assert_eq!(pool.next_step(), PoolStep::Done);
}

#[test]
fn pool_without_slots_starts_nothing() {
    let mut pool = ReaderPool::new(2, Some(0));
    assert_eq!(pool.next_step(), PoolStep::Wait);
    assert_eq!(pool.active(), 0);
}
