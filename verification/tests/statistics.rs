use collete::statistics::{ProcessStatistics, StatisticsStore};

#[test]
fn first_sample_is_its_own_average() {
    let mut store = StatisticsStore::new();
    let averages = store.record(42, 1234, 567);
    assert_eq!(averages, (1234, 567));
    assert_eq!(store.sample_count(42), 1);
    assert_eq!(
        store.get(42),
        Some(ProcessStatistics { cpu_total: 1234, memory_total: 567, sample_count: 1 })
    );
}

#[test]
fn unseen_process_has_no_statistics() {
    let mut store = StatisticsStore::new();
    store.record(1, 10, 10);
    assert_eq!(store.get(2), None);
    assert_eq!(store.sample_count(2), 0);
}

#[test]
fn averages_after_each_of_three_samples() {
    let mut store = StatisticsStore::new();
    assert_eq!(store.record(7, 1000, 100).0, 1000);
    assert_eq!(store.record(7, 2000, 100).0, 1500);
    assert_eq!(store.record(7, 3000, 100).0, 2000);
    assert_eq!(store.sample_count(7), 3);
}

#[test]
fn average_is_the_mean_of_all_samples() {
    let samples: Vec<(u64, u64)> =
        vec![(0, 5), (9999, 17), (1, 0), (250, 1_000_000), (4321, 3), (77, 77), (10_000, 1)];
    let mut store = StatisticsStore::new();
    let mut cpu_sum: u128 = 0;
    let mut memory_sum: u128 = 0;
    let mut count: u128 = 0;
    for (cpu, memory) in samples.iter() {
        let averages = store.record(9, *cpu, *memory);
        cpu_sum += *cpu as u128;
        memory_sum += *memory as u128;
        count += 1;
        assert_eq!(averages.0 as u128, cpu_sum / count);
        assert_eq!(averages.1 as u128, memory_sum / count);
    }
    let statistics = store.get(9).unwrap();
    assert_eq!(statistics.cpu_total, 24_648);
    assert_eq!(statistics.memory_total, 1_000_103);
    assert_eq!(statistics.sample_count, 7);
    assert_eq!(statistics.average_cpu(), 3521);
    assert_eq!(statistics.average_memory(), 142_871);
}

#[test]
fn average_does_not_depend_on_the_order_of_samples() {
    let mut forward = StatisticsStore::new();
    let mut backward = StatisticsStore::new();
    let samples: Vec<(u64, u64)> = vec![(1, 2), (300, 4), (5, 600), (70, 8)];
    let mut last_forward = (0, 0);
    for (cpu, memory) in samples.iter() {
        last_forward = forward.record(3, *cpu, *memory);
    }
    let mut last_backward = (0, 0);
    for (cpu, memory) in samples.iter().rev() {
        last_backward = backward.record(3, *cpu, *memory);
    }
    assert_eq!(last_forward, last_backward);
    assert_eq!(last_forward, (94, 153));
    assert_eq!(forward.get(3), backward.get(3));
}

#[test]
fn average_rounds_down() {
    let mut store = StatisticsStore::new();
    store.record(1, 1, 0);
    let averages = store.record(1, 2, 1);
    assert_eq!(averages, (1, 0));
}

#[test]
fn processes_are_kept_apart() {
    let mut store = StatisticsStore::new();
    store.record(1, 100, 1);
    store.record(2, 900, 9);
    let averages = store.record(1, 300, 3);
    assert_eq!(averages, (200, 2));
    assert_eq!(store.sample_count(1), 2);
    assert_eq!(store.sample_count(2), 1);
    assert_eq!(store.get(2).unwrap().average_cpu(), 900);
}

#[test]
fn largest_samples_do_not_overflow() {
    let mut store = StatisticsStore::new();
    store.record(1, u64::MAX, u64::MAX);
    store.record(1, u64::MAX, u64::MAX);
    let averages = store.record(1, u64::MAX, 0);
    assert_eq!(averages.0, u64::MAX);
    assert_eq!(averages.1 as u128, (2 * (u64::MAX as u128)) / 3);
}
