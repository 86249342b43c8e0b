use stratum_ping::error::Error;
use stratum_ping::stats::{aggregate, ProbeResult, Stats};

#[test]
fn scenario_every_sample_answers() {
    let outcomes = vec![
        ProbeResult::Elapsed(1_000_000),
        ProbeResult::Elapsed(3_000_000),
        ProbeResult::Elapsed(2_000_000),
    ];
    let stats = aggregate(&outcomes);
    assert_eq!(stats.attempted, 3);
    assert_eq!(stats.succeeded, 3);
    let report = stats.finalize();
    assert_eq!(report.attempted, 3);
    assert_eq!(report.succeeded, 3);
    assert_eq!(report.loss_percent, 0);
    let timing = report.timing.unwrap();
    assert_eq!(timing.min_nanos, 1_000_000);
    assert_eq!(timing.avg_nanos, 2_000_000);
    assert_eq!(timing.max_nanos, 3_000_000);
}

#[test]
fn scenario_no_sample_answers() {
    let outcomes = vec![
        ProbeResult::Failed(Error::Io("timed out".to_string())),
        ProbeResult::Failed(Error::Io("timed out".to_string())),
        ProbeResult::Failed(Error::Io("timed out".to_string())),
    ];
    let stats = aggregate(&outcomes);
    assert_eq!(stats.attempted, 3);
    assert_eq!(stats.succeeded, 0);
    let report = stats.finalize();
    assert_eq!(report.loss_percent, 100);
    assert!(report.timing.is_none());
}

#[test]
fn scenario_handshake_failure_does_not_abort_the_run() {
    let outcomes = vec![
        ProbeResult::Failed(Error::HandshakeTLSOverTCP(
            "peer does not speak tls".to_string(),
        )),
        ProbeResult::Elapsed(5_000_000),
        ProbeResult::Elapsed(7_000_000),
    ];
    let stats = aggregate(&outcomes);
    assert_eq!(stats.attempted, 3);
    assert_eq!(stats.succeeded, 2);
    let report = stats.finalize();
    assert!(report.loss_percent > 0);
    assert_eq!(report.loss_percent, 33);
    let timing = report.timing.unwrap();
    assert_eq!(timing.min_nanos, 5_000_000);
    assert_eq!(timing.avg_nanos, 6_000_000);
    assert_eq!(timing.max_nanos, 7_000_000);
}

#[test]
fn loss_percent_truncates() {
    let outcomes = vec![
        ProbeResult::Elapsed(10),
        ProbeResult::Elapsed(10),
        ProbeResult::Failed(Error::Io("refused".to_string())),
    ];
    let report = aggregate(&outcomes).finalize();
    // 100 * 1 / 3 truncates to 33, never rounds to 34.
    assert_eq!(report.loss_percent, 33);

    let outcomes = vec![
        ProbeResult::Elapsed(10),
        ProbeResult::Failed(Error::Io("refused".to_string())),
        ProbeResult::Failed(Error::Io("refused".to_string())),
    ];
    let report = aggregate(&outcomes).finalize();
    assert_eq!(report.loss_percent, 66);
}

#[test]
fn empty_run_reports_only_counts() {
    let report = aggregate(&Vec::new()).finalize();
    assert_eq!(report.attempted, 0);
    assert_eq!(report.succeeded, 0);
    assert_eq!(report.loss_percent, 0);
    assert!(report.timing.is_none());
}

#[test]
fn min_avg_max_are_ordered_and_avg_truncates() {
    let outcomes = vec![
        ProbeResult::Elapsed(1),
        ProbeResult::Elapsed(2),
        ProbeResult::Elapsed(4),
    ];
    let timing = aggregate(&outcomes).finalize().timing.unwrap();
    // (1 + 2 + 4) / 3 truncates to 2.
    assert_eq!(timing.min_nanos, 1);
    assert_eq!(timing.avg_nanos, 2);
    assert_eq!(timing.max_nanos, 4);
    assert!(timing.min_nanos <= timing.avg_nanos && timing.avg_nanos <= timing.max_nanos);
}

#[test]
fn single_sample_statistics() {
    let outcomes = vec![ProbeResult::Elapsed(42)];
    let timing = aggregate(&outcomes).finalize().timing.unwrap();
    assert_eq!(timing.min_nanos, 42);
    assert_eq!(timing.avg_nanos, 42);
    assert_eq!(timing.max_nanos, 42);
}

#[test]
fn incremental_recording_matches_aggregate() {
    let mut stats = Stats::new();
    stats.record_success(10);
    stats.record(&ProbeResult::Failed(Error::TLS("bad cert".to_string())));
    stats.record(&ProbeResult::Elapsed(30));
    assert_eq!(stats.attempted, 3);
    assert_eq!(stats.succeeded, 2);
    assert_eq!(stats.min_nanos, 10);
    assert_eq!(stats.max_nanos, 30);
    assert_eq!(stats.total_nanos, 40);

    let outcomes = vec![
        ProbeResult::Elapsed(10),
        ProbeResult::Failed(Error::TLS("bad cert".to_string())),
        ProbeResult::Elapsed(30),
    ];
    let other = aggregate(&outcomes);
    assert_eq!(stats.attempted, other.attempted);
    assert_eq!(stats.succeeded, other.succeeded);
    assert_eq!(stats.min_nanos, other.min_nanos);
    assert_eq!(stats.max_nanos, other.max_nanos);
    assert_eq!(stats.total_nanos, other.total_nanos);
}

#[test]
fn rerunning_keeps_attempted_and_report_shape() {
    // Two runs of the same sample count against the same answering peer:
    // the values differ, the attempted count and the report shape do not.
    let first = vec![
        ProbeResult::Elapsed(900),
        ProbeResult::Elapsed(1_100),
        ProbeResult::Elapsed(1_000),
    ];
    let second = vec![
        ProbeResult::Elapsed(1_500),
        ProbeResult::Elapsed(800),
        ProbeResult::Elapsed(1_200),
    ];
    let r1 = aggregate(&first).finalize();
    let r2 = aggregate(&second).finalize();
    assert_eq!(r1.attempted, r2.attempted);
    assert_eq!(r1.succeeded, r2.succeeded);
    assert_eq!(r1.timing.is_some(), r2.timing.is_some());
}

#[test]
fn full_cap_run_aggregates() {
    let mut outcomes = Vec::new();
    for i in 0..2000u64 {
        if i % 2 == 0 {
            outcomes.push(ProbeResult::Elapsed(i + 1));
        } else {
            outcomes.push(ProbeResult::Failed(Error::Io("refused".to_string())));
        }
    }
    let report = aggregate(&outcomes).finalize();
    assert_eq!(report.attempted, 2000);
    assert_eq!(report.succeeded, 1000);
    assert_eq!(report.loss_percent, 50);
    let timing = report.timing.unwrap();
    assert_eq!(timing.min_nanos, 1);
    assert_eq!(timing.max_nanos, 1999);
    assert_eq!(timing.avg_nanos, 1000);
}
