use dirscan::utils::sync::Semaphore;

#[test]
fn fresh_semaphore_is_empty() {
    let sem = Semaphore::new(3);
    assert_eq!(sem.active(), 0);
    assert_eq!(sem.limit(), 3);
}

#[test]
fn semaphore_admits_up_to_its_limit() {
    let mut sem = Semaphore::new(2);
    assert!(sem.lock());
    assert!(sem.lock());
    assert!(!sem.lock());
    assert_eq!(sem.active(), 2);
    sem.unlock();
    assert_eq!(sem.active(), 1);
    assert!(sem.lock());
    assert!(!sem.lock());
}

#[test]
fn semaphore_without_slots_admits_nobody() {
    let mut sem = Semaphore::new(0);
    assert!(!sem.lock());
    assert_eq!(sem.active(), 0);
}

#[test]
fn two_slots_for_twenty_walks() {
    let mut sem = Semaphore::new(2);
    let mut waiting = 20;
    let mut running = 0;
    let mut done = 0;
    let mut most = 0;
    while done < 20 {
        while waiting > 0 && sem.lock() {
            waiting -= 1;
            running += 1;
        }
        assert_eq!(sem.active(), running);
        if running > most {
            most = running;
        }
        assert!(sem.active() <= 2);
        sem.unlock();
        running -= 1;
        done += 1;
    }
    assert_eq!(most, 2);
    assert_eq!(sem.active(), 0);
}
