use simpleserve::pool::{Dequeued, ThreadPool};
use std::cell::Cell;
use std::rc::Rc;

/// Runs worker `worker` until it is told to wait or to end; tells how many jobs it ran.
fn drain<J: FnOnce()>(pool: &mut ThreadPool<J>, worker: usize) -> usize {
    let mut ran = 0;
    loop {
        match pool.next(worker) {
            Dequeued::Job(job) => {
                job();
                ran += 1;
            }
            Dequeued::Empty | Dequeued::Closed => return ran,
        }
    }
}

#[test]
fn test_thread_pool() {
    let mut pool = ThreadPool::new(4);

    for i in 0..20 {
        pool.execute(move || {
            println!("Job {}", i);
        });
    }
    assert_eq!(pool.size(), 4);
    assert_eq!(pool.pending(), 20);
}

#[test]
fn test_thread_pool_drop() {
    let mut pool = ThreadPool::new(4);

    for i in 0..20 {
        pool.execute(move || {
            println!("Job {}", i);
        });
    }

    drop(pool);
}

#[test]
fn twenty_jobs_on_four_workers_all_run_once() {
    let counter = Rc::new(Cell::new(0usize));
    let mut pool = ThreadPool::new(4);
    for _ in 0..20 {
        let counter = Rc::clone(&counter);
        pool.execute(move || counter.set(counter.get() + 1));
    }
    pool.stop();
    // The workers take turns: each runs one job, then the next worker asks.
    let mut ended = [false; 4];
    while !pool.is_terminated() {
        for worker in 0..4 {
            if ended[worker] {
                continue;
            }
            match pool.next(worker) {
                Dequeued::Job(job) => job(),
                Dequeued::Closed => ended[worker] = true,
                Dequeued::Empty => panic!("a closed pool tells no worker to wait"),
            }
        }
    }
    assert_eq!(counter.get(), 20);
    assert_eq!(pool.pending(), 0);
    assert!(!pool.is_open());
}

#[test]
fn jobs_leave_in_the_order_of_submission() {
    let mut pool: ThreadPool<u32> = ThreadPool::new(2);
    pool.execute(7);
    pool.execute(8);
    pool.execute(9);
    assert!(matches!(pool.next(1), Dequeued::Job(7)));
    assert!(matches!(pool.next(0), Dequeued::Job(8)));
    assert!(matches!(pool.next(1), Dequeued::Job(9)));
    assert!(matches!(pool.next(0), Dequeued::Empty));
    assert_eq!(pool.pending(), 0);
}

#[test]
fn open_pool_without_jobs_tells_workers_to_wait() {
    let mut pool: ThreadPool<u32> = ThreadPool::new(1);
    assert!(pool.is_open());
    assert!(matches!(pool.next(0), Dequeued::Empty));
    assert!(!pool.is_terminated());
    pool.execute(1);
    assert!(matches!(pool.next(0), Dequeued::Job(1)));
}

#[test]
fn stopped_pool_ends_its_workers_after_the_queue() {
    let mut pool: ThreadPool<u32> = ThreadPool::new(2);
    pool.execute(1);
    pool.stop();
    assert!(!pool.is_open());
    assert_eq!(pool.pending(), 1);
    assert!(matches!(pool.next(0), Dequeued::Job(1)));
    assert!(matches!(pool.next(1), Dequeued::Closed));
    assert!(!pool.is_terminated());
    assert!(matches!(pool.next(0), Dequeued::Closed));
    assert!(pool.is_terminated());
    // A worker that has ended is told so again.
    assert!(matches!(pool.next(0), Dequeued::Closed));
}

#[test]
fn single_worker_runs_every_job() {
    let counter = Rc::new(Cell::new(0usize));
    let mut pool = ThreadPool::new(1);
    for _ in 0..5 {
        let counter = Rc::clone(&counter);
        pool.execute(move || counter.set(counter.get() + 1));
    }
    pool.stop();
    assert_eq!(drain(&mut pool, 0), 5);
    assert_eq!(counter.get(), 5);
    assert!(pool.is_terminated());
}

#[test]
fn pool_without_jobs_terminates_when_stopped() {
    let mut pool: ThreadPool<u32> = ThreadPool::new(3);
    pool.stop();
    for worker in 0..3 {
        assert!(matches!(pool.next(worker), Dequeued::Closed));
    }
    assert!(pool.is_terminated());
}

#[test]
fn stopped_pool_refuses_a_job_and_never_runs_it() {
    let counter = Rc::new(Cell::new(0usize));
    let mut pool = ThreadPool::new(2);
    let first = Rc::clone(&counter);
    assert!(pool.try_execute(Box::new(move || first.set(first.get() + 1)) as Box<dyn FnOnce()>).is_ok());
    pool.stop();
    let late = Rc::clone(&counter);
    let refused = pool.try_execute(Box::new(move || late.set(late.get() + 100)));
    assert!(refused.is_err());
    assert_eq!(pool.pending(), 1);
    assert_eq!(drain(&mut pool, 0), 1);
    assert_eq!(drain(&mut pool, 1), 0);
    assert!(pool.is_terminated());
    assert_eq!(counter.get(), 1);
}
