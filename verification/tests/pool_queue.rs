use fileserver::pool::Message;
use fileserver::pool::WorkerPool;

#[test]
fn more_jobs_than_workers_none_lost_or_duplicated() {
    let mut pool = WorkerPool::new(4);
    for job in 1..=6u64 {
        pool.submit(job);
    }
    let mut seen: Vec<u64> = Vec::new();
    while let Some(m) = pool.dequeue() {
        match m {
            Message::Job(j) => seen.push(j),
            Message::Terminate => panic!("no shutdown was requested"),
        }
    }
    // Every submitted job came out exactly once, in submission order.
    assert_eq!(seen, vec![1, 2, 3, 4, 5, 6]);
}

#[test]
fn sentinels_queue_behind_pending_jobs() {
    let mut pool = WorkerPool::new(4);
    pool.submit(7);
    pool.submit(8);
    pool.begin_shutdown();
    let mut jobs: Vec<u64> = Vec::new();
    let mut sentinels = 0;
    while let Some(m) = pool.dequeue() {
        match m {
            Message::Job(j) => {
                // Jobs queued before the shutdown still come out first.
                assert_eq!(sentinels, 0);
                jobs.push(j);
            }
            Message::Terminate => sentinels += 1,
        }
    }
    assert_eq!(jobs, vec![7, 8]);
    assert_eq!(sentinels, 4);
    assert_eq!(pool.workers_exited, 4);
    assert_eq!(pool.worker_count, 4);
    assert!(pool.dequeue().is_none());
}

#[test]
fn shutdown_retires_every_worker() {
    let mut pool = WorkerPool::new(4);
    pool.submit(7);
    pool.submit(8);
    pool.shutdown();
    // Every worker has exited and nothing is left queued.
    assert_eq!(pool.workers_exited, 4);
    assert!(pool.dequeue().is_none());
}

#[test]
fn empty_queue_hands_out_nothing() {
    let mut pool = WorkerPool::new(2);
    assert!(pool.dequeue().is_none());
    pool.submit(1);
    assert_eq!(pool.dequeue(), Some(Message::Job(1)));
    assert!(pool.dequeue().is_none());
}
