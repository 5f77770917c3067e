use bitcoin_statistics::fetch::collect_results;
use bitcoin_statistics::heap::BlockHeap;
use bitcoin_statistics::plan::{full_population_heights, get_random_heights};
use bitcoin_statistics::utils::display_mins;
use bitcoin_statistics::{
    BlockHeader, BlockSampleData, BlockStatistics, BlockTimeDriftTable, ClientConfig,
    StatisticsError,
};

fn header(time: i64, hash: &str) -> BlockHeader {
    BlockHeader {
        time,
        hash: String::from(hash),
    }
}

fn sample(times: &[i64]) -> BlockSampleData {
    let mut headers = Vec::new();
    for (i, t) in times.iter().enumerate() {
        headers.push(header(*t, &format!("hash{}", i)));
    }
    BlockSampleData(headers)
}

#[test]
fn test_get_random_heights() {
    let result = get_random_heights(10, 10, 2);
    assert_eq!(result.len(), 10);
}

#[test]
fn test_random_heights_are_windowed_runs() {
    let result = get_random_heights(9, 100, 3);
    // 9 / 3 == 3 runs of 3 consecutive heights each.
    assert_eq!(result.len(), 9);
    for run in result.chunks(3) {
        assert!(run[0] < 100);
        assert_eq!(run[1], run[0] + 1);
        assert_eq!(run[2], run[0] + 2);
    }
}

#[test]
fn test_random_heights_truncate_to_whole_windows() {
    // 7 / 2 == 3 windows: the plan is 6 heights, not 7.
    let result = get_random_heights(7, 50, 2);
    assert_eq!(result.len(), 6);
}

#[test]
fn test_random_heights_draws_below_tip() {
    // With a tip of 1 every draw must be height 0.
    let result = get_random_heights(2, 1, 2);
    assert_eq!(result, vec![0, 1]);
}

#[test]
fn test_full_population_heights() {
    let result = full_population_heights(4);
    assert_eq!(result, vec![0, 1, 2, 3, 4]);
}

#[test]
fn test_collect_results_tolerates_failures() {
    // Five tasks, two forced failures: exactly three headers, in order.
    let outcomes = vec![
        Some(header(10, "a")),
        None,
        Some(header(20, "b")),
        None,
        Some(header(30, "c")),
    ];
    let collected = collect_results(outcomes);
    assert_eq!(collected.len(), 3);
    assert_eq!(collected[0].hash, "a");
    assert_eq!(collected[1].hash, "b");
    assert_eq!(collected[2].hash, "c");
}

#[test]
fn test_collect_results_all_failed() {
    let outcomes: Vec<Option<BlockHeader>> = vec![None, None];
    assert_eq!(collect_results(outcomes).len(), 0);
}

#[test]
fn test_display_mins() {
    assert_eq!(display_mins(&5), "5 m");
    assert_eq!(display_mins(&0), "0 m");
    assert_eq!(display_mins(&-3), "-3 m");
    assert_eq!(display_mins(&1234), "1234 m");
}

#[test]
fn test_block_heap_pops_descending() {
    let mut heap = BlockHeap::new();
    for (drift, name) in [(5, "a"), (1, "b"), (9, "c"), (3, "d"), (9, "e")] {
        heap.push(BlockTimeDriftTable::new(
            drift,
            format!("p{}", name),
            format!("c{}", name),
        ));
    }
    assert_eq!(heap.len(), 5);
    let mut drifts = Vec::new();
    while let Some(record) = heap.pop() {
        drifts.push(record.drift);
    }
    assert_eq!(drifts, vec![9, 9, 5, 3, 1]);
}

#[test]
fn test_analyze_ranks_drifts_above_threshold() {
    // Window of 2: pairs are (0,1), (2,3), (4,5).
    // Drifts: 7200 s, 3600 s, 10800 s; threshold 7200 s == 120 min.
    let data = sample(&[0, 7200, 10000, 13600, 20000, 30800]);
    let result = data.fetch_block_time_drift(7200, 2, true).unwrap();
    assert_eq!(result.deltas_seconds, vec![7200, 3600, 10800]);
    assert_eq!(result.occurrences, 2);
    assert_eq!(result.ranked_sample.len(), 2);
    assert_eq!(result.ranked_sample[0].drift, 180);
    assert_eq!(result.ranked_sample[0].parent_hash, "hash4");
    assert_eq!(result.ranked_sample[0].child_hash, "hash5");
    assert_eq!(result.ranked_sample[1].drift, 120);
    assert_eq!(result.ranked_sample[1].parent_hash, "hash0");
    assert_eq!(result.ranked_sample[1].child_hash, "hash1");
    assert!(result.is_sample);
}

#[test]
fn test_analyze_matches_filter_and_sort() {
    // Brute-force check of the ranked sample: filter the per-pair drifts at
    // the threshold and sort them descending; the heap drain must agree.
    let times: Vec<i64> = vec![0, 600, 1300, 9000, 9100, 20000, 20060, 25000];
    let data = sample(&times);
    let threshold_seconds: i64 = 600;
    let result = data.fetch_block_time_drift(threshold_seconds, 2, false).unwrap();

    let mut expected: Vec<i64> = Vec::new();
    for pair in times.chunks(2) {
        let delta = pair[1] - pair[0];
        if delta / 60 >= threshold_seconds / 60 {
            expected.push(delta / 60);
        }
    }
    expected.sort();
    expected.reverse();
    let got: Vec<i64> = result.ranked_sample.iter().map(|r| r.drift).collect();
    assert_eq!(got, expected);
    assert_eq!(result.occurrences, expected.len());
}

#[test]
fn test_analyze_window_boundaries_and_tail() {
    // Window of 3 over 7 blocks: pairs inside chunks [0,1,2], [3,4,5], [6];
    // the pairs (2,3) and (5,6) cross a boundary and are not measured, and
    // the final chunk of one block has no pair.
    let data = sample(&[0, 60, 120, 1000, 1120, 1240, 5000]);
    let result = data.fetch_block_time_drift(60, 3, true).unwrap();
    assert_eq!(result.deltas_seconds, vec![60, 60, 120, 120]);
}

#[test]
fn test_analyze_partial_tail_chunk_is_measured() {
    // Window of 3 over 5 blocks: the tail chunk [3,4] is shorter than the
    // window but its pair is still measured.
    let data = sample(&[0, 60, 120, 1000, 1060]);
    let result = data.fetch_block_time_drift(60, 3, true).unwrap();
    assert_eq!(result.deltas_seconds, vec![60, 60, 60]);
}

#[test]
fn test_block_heap_empty_pop() {
    let mut heap = BlockHeap::new();
    assert_eq!(heap.len(), 0);
    assert!(heap.pop().is_none());
}

#[test]
fn test_analyze_negative_drift() {
    // Non-monotonic timestamps give a negative drift, truncated toward zero.
    let data = sample(&[500, 410, 410, 380]);
    let result = data.fetch_block_time_drift(0, 2, false).unwrap();
    assert_eq!(result.deltas_seconds, vec![-90, -30]);
    // Threshold 0: nothing non-negative is excluded; -90 s and -30 s both
    // truncate to minutes below zero... -90/60 == -1, -30/60 == 0.
    let drifts: Vec<i64> = result.ranked_sample.iter().map(|r| r.drift).collect();
    assert_eq!(drifts, vec![0]);
    assert_eq!(result.occurrences, 1);
}

#[test]
fn test_analyze_empty_sample_is_domain_error() {
    let data = sample(&[]);
    let result = data.fetch_block_time_drift(7200, 2, true);
    assert!(matches!(result, Err(StatisticsError::EmptySample)));

    // A single block has no pair either.
    let data = sample(&[12345]);
    let result = data.fetch_block_time_drift(7200, 2, true);
    assert!(matches!(result, Err(StatisticsError::EmptySample)));
}

#[test]
fn test_analyze_is_idempotent() {
    let times: Vec<i64> = vec![0, 7200, 10000, 13600, 20000, 30800, 31000, 31900];
    let first = sample(&times).fetch_block_time_drift(3600, 2, true).unwrap();
    let second = sample(&times).fetch_block_time_drift(3600, 2, true).unwrap();
    assert_eq!(first.ranked_sample, second.ranked_sample);
    assert_eq!(first.deltas_seconds, second.deltas_seconds);
    assert_eq!(first.occurrences, second.occurrences);
    assert_eq!(first.is_sample, second.is_sample);
}

#[test]
fn test_drift_table_new() {
    let record = BlockTimeDriftTable::new(42, String::from("parent"), String::from("child"));
    assert_eq!(record.drift, 42);
    assert_eq!(record.parent_hash, "parent");
    assert_eq!(record.child_hash, "child");
}

#[test]
fn test_client_config_new() {
    let config = ClientConfig::new(
        String::from("localhost:8332"),
        String::from("user"),
        String::from("pass"),
    );
    assert_eq!(config.host, "localhost:8332");
    assert_eq!(config.username, "user");
    assert_eq!(config.password, "pass");
}

#[test]
fn test_minutes_threshold_truncates() {
    // A threshold of 119 seconds truncates to 1 minute, so a 60-second
    // drift (1 minute) is still included.
    let data = sample(&[0, 60, 100, 160]);
    let result = data.fetch_block_time_drift(119, 2, false).unwrap();
    assert_eq!(result.occurrences, 2);
}
