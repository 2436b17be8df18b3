use netdout::scheduler::AdaptiveScheduler;

const MIB: u64 = 1024 * 1024;

#[test]
fn scheduler_keeps_its_ceiling() {
    assert_eq!(AdaptiveScheduler::new(8).max_parallel_chunks, 8);
}

#[test]
fn scheduler_by_size() {
    let scheduler = AdaptiveScheduler::new(8);
    assert_eq!(scheduler.choose_parallelism(Some(4 * MIB)), 1);
    assert_eq!(scheduler.choose_parallelism(Some(16 * MIB)), 4);
    assert_eq!(scheduler.choose_parallelism(Some(128 * MIB)), 8);
    assert_eq!(scheduler.choose_parallelism(None), 8);
}

#[test]
fn scheduler_at_the_limits() {
    let scheduler = AdaptiveScheduler::new(8);
    assert_eq!(scheduler.choose_parallelism(Some(0)), 1);
    assert_eq!(scheduler.choose_parallelism(Some(8 * MIB - 1)), 1);
    assert_eq!(scheduler.choose_parallelism(Some(8 * MIB)), 4);
    assert_eq!(scheduler.choose_parallelism(Some(64 * MIB - 1)), 4);
    assert_eq!(scheduler.choose_parallelism(Some(64 * MIB)), 8);
    assert_eq!(scheduler.choose_parallelism(Some(u64::MAX)), 8);
}

#[test]
fn scheduler_with_a_low_ceiling() {
    let scheduler = AdaptiveScheduler::new(2);
    assert_eq!(scheduler.choose_parallelism(Some(4 * MIB)), 1);
    assert_eq!(scheduler.choose_parallelism(Some(16 * MIB)), 2);
    assert_eq!(scheduler.choose_parallelism(Some(128 * MIB)), 2);
    assert_eq!(scheduler.choose_parallelism(None), 2);
}

#[test]
fn scheduler_stays_between_one_and_the_ceiling() {
    for max in [1usize, 2, 3, 4, 5, 8, 64] {
        let scheduler = AdaptiveScheduler::new(max);
        for size in [None, Some(0), Some(MIB), Some(8 * MIB), Some(63 * MIB), Some(64 * MIB), Some(u64::MAX)] {
            let degree = scheduler.choose_parallelism(size);
            assert!(1 <= degree && degree <= max);
        }
    }
}

#[test]
fn scheduler_without_workers() {
    let scheduler = AdaptiveScheduler::new(0);
    assert_eq!(scheduler.choose_parallelism(Some(4 * MIB)), 1);
    assert_eq!(scheduler.choose_parallelism(Some(16 * MIB)), 0);
    assert_eq!(scheduler.choose_parallelism(None), 0);
}
