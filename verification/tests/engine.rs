use collete::engine::{
    aggregate, cpu_values, has_headroom, record_all, resolve_users, tick, to_megabyte_hundredths,
    ProcessSnapshot, RankedRow,
};
use collete::statistics::StatisticsStore;

fn snapshot(process_id: u32, name: &str, cpu_hundredths: u64, bytes: u64) -> ProcessSnapshot {
    ProcessSnapshot {
        process_id,
        name: name.to_string(),
        cpu_hundredths,
        resident_memory_bytes: bytes,
        status: None,
    }
}

fn names(rows: &Vec<RankedRow>) -> Vec<String> {
    rows.iter().map(|row| row.name.clone()).collect()
}

#[test]
fn two_processes_are_shown_busiest_first() {
    let mut store = StatisticsStore::new();
    let snapshots = vec![snapshot(1, "one", 5000, 1048576), snapshot(2, "two", 9000, 2097152)];
    let rows = tick(&mut store, &snapshots, 10);
    assert_eq!(
        rows,
        vec![
            RankedRow {
                name: "two".to_string(),
                user_name: "Unknown".to_string(),
                cpu_hundredths: 9000,
                memory_hundredths: 200,
                average_cpu_hundredths: 9000,
            },
            RankedRow {
                name: "one".to_string(),
                user_name: "Unknown".to_string(),
                cpu_hundredths: 5000,
                memory_hundredths: 100,
                average_cpu_hundredths: 5000,
            },
        ]
    );
}

#[test]
fn averages_follow_a_process_over_three_ticks() {
    let mut store = StatisticsStore::new();
    let mut averages: Vec<u64> = Vec::new();
    for cpu in [1000, 2000, 3000] {
        let rows = tick(&mut store, &vec![snapshot(5, "same", cpu, 0)], 10);
        assert_eq!(rows.len(), 1);
        assert_eq!(rows[0].cpu_hundredths, cpu);
        averages.push(rows[0].average_cpu_hundredths);
    }
    assert_eq!(averages, vec![1000, 1500, 2000]);
    assert_eq!(store.sample_count(5), 3);
}

#[test]
fn one_snapshot_gives_one_row_whatever_the_limit() {
    let mut store = StatisticsStore::new();
    let rows = tick(&mut store, &vec![snapshot(1, "only", 10, 10)], 3);
    assert_eq!(rows.len(), 1);
    assert_eq!(rows[0].name, "only");
}

#[test]
fn no_snapshots_give_no_rows() {
    let mut store = StatisticsStore::new();
    let rows = tick(&mut store, &Vec::new(), 10);
    assert!(rows.is_empty());
}

#[test]
fn row_count_is_the_smaller_of_limit_and_snapshots() {
    let snapshots: Vec<ProcessSnapshot> =
        (0..7).map(|i| snapshot(i, "p", (i as u64) * 10, 0)).collect();
    for limit in 0..12 {
        let mut store = StatisticsStore::new();
        let rows = tick(&mut store, &snapshots, limit);
        assert_eq!(rows.len(), limit.min(7));
        assert!(rows.len() <= limit);
    }
}

#[test]
fn rows_are_in_falling_order_of_cpu() {
    let mut store = StatisticsStore::new();
    let snapshots = vec![
        snapshot(1, "a", 300, 0),
        snapshot(2, "b", 100, 0),
        snapshot(3, "c", 400, 0),
        snapshot(4, "d", 150, 0),
        snapshot(5, "e", 926, 0),
    ];
    let rows = tick(&mut store, &snapshots, 4);
    assert_eq!(names(&rows), vec!["e", "c", "a", "d"]);
    for pair in rows.windows(2) {
        assert!(pair[0].cpu_hundredths >= pair[1].cpu_hundredths);
    }
}

#[test]
fn rows_of_equal_cpu_keep_the_order_of_the_snapshots() {
    let mut store = StatisticsStore::new();
    let snapshots = vec![
        snapshot(10, "first", 0, 0),
        snapshot(11, "second", 500, 0),
        snapshot(12, "third", 0, 0),
        snapshot(13, "fourth", 500, 0),
        snapshot(14, "fifth", 0, 0),
    ];
    let rows = tick(&mut store, &snapshots, 10);
    assert_eq!(names(&rows), vec!["second", "fourth", "first", "third", "fifth"]);
    let mut reversed = snapshots.clone();
    reversed.reverse();
    let mut other = StatisticsStore::new();
    let rows = tick(&mut other, &reversed, 10);
    assert_eq!(names(&rows), vec!["fourth", "second", "fifth", "third", "first"]);
}

#[test]
fn every_snapshot_is_recorded_also_those_not_shown() {
    let mut store = StatisticsStore::new();
    let snapshots =
        vec![snapshot(1, "a", 100, 0), snapshot(2, "b", 900, 0), snapshot(3, "c", 500, 0)];
    let rows = tick(&mut store, &snapshots, 1);
    assert_eq!(names(&rows), vec!["b"]);
    assert_eq!(store.sample_count(1), 1);
    assert_eq!(store.sample_count(2), 1);
    assert_eq!(store.sample_count(3), 1);
    let snapshots =
        vec![snapshot(1, "a", 1100, 0), snapshot(2, "b", 900, 0), snapshot(3, "c", 500, 0)];
    let rows = tick(&mut store, &snapshots, 1);
    assert_eq!(names(&rows), vec!["a"]);
    assert_eq!(rows[0].average_cpu_hundredths, 600);
}

#[test]
fn unreadable_status_gives_the_unknown_user() {
    let mut store = StatisticsStore::new();
    let mut broken = snapshot(2, "broken", 1, 0);
    broken.status = Some("Name:\tbroken\nUid:\tnobody\n".to_string());
    let mut empty = snapshot(3, "empty", 0, 0);
    empty.status = Some(String::new());
    let snapshots = vec![snapshot(1, "missing", 2, 0), broken, empty];
    assert_eq!(resolve_users(&snapshots), vec!["Unknown", "Unknown", "Unknown"]);
    let rows = tick(&mut store, &snapshots, 10);
    assert_eq!(rows.len(), 3);
    for row in rows.iter() {
        assert_eq!(row.user_name, "Unknown");
    }
}

#[test]
fn given_users_are_shown_with_their_processes() {
    let mut store = StatisticsStore::new();
    let snapshots =
        vec![snapshot(1, "a", 100, 0), snapshot(2, "b", 900, 0), snapshot(3, "c", 500, 0)];
    let users = vec!["ann".to_string(), "bob".to_string(), "cy".to_string()];
    let rows = aggregate(&mut store, &snapshots, &users, 2);
    assert_eq!(names(&rows), vec!["b", "c"]);
    assert_eq!(rows[0].user_name, "bob");
    assert_eq!(rows[1].user_name, "cy");
}

#[test]
fn a_process_sampled_twice_in_one_tick_is_averaged_in_turn() {
    let mut store = StatisticsStore::new();
    let snapshots = vec![snapshot(1, "early", 100, 0), snapshot(1, "late", 300, 0)];
    let averages = record_all(&mut store, &snapshots);
    assert_eq!(averages, vec![100, 200]);
    let mut store = StatisticsStore::new();
    let rows = tick(&mut store, &snapshots, 10);
    assert_eq!(names(&rows), vec!["late", "early"]);
    assert_eq!(rows[0].average_cpu_hundredths, 200);
    assert_eq!(rows[1].average_cpu_hundredths, 100);
}

#[test]
fn memory_is_recorded_in_hundredths_of_a_megabyte() {
    let mut store = StatisticsStore::new();
    let snapshots = vec![snapshot(1, "a", 0, 3 * 1048576)];
    record_all(&mut store, &snapshots);
    let snapshots = vec![snapshot(1, "a", 0, 1048576)];
    record_all(&mut store, &snapshots);
    assert_eq!(store.get(1).unwrap().memory_total, 400);
    assert_eq!(store.get(1).unwrap().average_memory(), 200);
}

#[test]
fn megabytes_are_rounded_to_the_nearest_hundredth() {
    assert_eq!(to_megabyte_hundredths(0), 0);
    assert_eq!(to_megabyte_hundredths(1048576), 100);
    assert_eq!(to_megabyte_hundredths(2097152), 200);
    assert_eq!(to_megabyte_hundredths(5242), 0);
    assert_eq!(to_megabyte_hundredths(5243), 1);
    assert_eq!(to_megabyte_hundredths(1572864), 150);
    assert_eq!(to_megabyte_hundredths(u64::MAX), 1_759_218_604_441_600);
}

#[test]
fn cpu_values_are_read_in_order() {
    let snapshots = vec![snapshot(1, "a", 3, 0), snapshot(2, "b", 1, 0), snapshot(3, "c", 2, 0)];
    assert_eq!(cpu_values(&snapshots), vec![3, 1, 2]);
}

#[test]
fn a_fresh_store_has_room_for_a_tick() {
    let store = StatisticsStore::new();
    let snapshots = vec![snapshot(1, "a", 3, 0), snapshot(2, "b", 1, 0)];
    assert!(has_headroom(&store, &snapshots));
    assert!(has_headroom(&store, &Vec::new()));
}
