use kat_datasource::hitrace::clocks::{SnapshotClock, TraceClock};
use kat_datasource::hitrace::long_term::{FtraceCaptureRecord, LongTermHitraceSink};
use kat_datasource::hitrace::validate::{
    ClockDetail, CpuDetail, CpuEventRecord, CpuStats, FtraceResult, HitraceError, PerCpuStats,
    SchedSwitch,
};

fn switch(timestamp: u64, previous: i32, next: i32) -> CpuEventRecord {
    CpuEventRecord {
        timestamp,
        switch: Some(SchedSwitch {
            prev_comm: format!("thread-{previous}"),
            prev_pid: previous,
            next_comm: format!("thread-{next}"),
            next_pid: next,
        }),
    }
}

fn stats(status: i32, clock: &str, cpus: &[u64]) -> CpuStats {
    CpuStats {
        status,
        per_cpu: cpus
            .iter()
            .map(|cpu| PerCpuStats { cpu: *cpu, overrun: 0, commit_overrun: 0, dropped_events: 0 })
            .collect(),
        trace_clock: clock.to_owned(),
    }
}

fn sink_with_switch(clock: &str, end_cpus: &[u64]) -> LongTermHitraceSink {
    let mut sink = LongTermHitraceSink::new();
    sink.push_capture_stats(&stats(1, clock, end_cpus));
    sink.push_capture(&FtraceCaptureRecord::CpuDetail { cpu: 0, overwrite: 0 }).unwrap();
    sink.push_ftrace(0, &switch(10, 1, 2)).unwrap();
    sink
}

#[test]
fn long_term_unknown_clock_is_reported_even_without_switches() {
    let mut sink = LongTermHitraceSink::new();
    sink.push_capture_stats(&stats(0, " bogus ", &[]));
    sink.push_capture_stats(&stats(0, "other", &[]));
    match sink.validate_ftrace_capture() {
        Err(HitraceError::UnsupportedTraceClock { clock }) => assert_eq!(clock, "bogus"),
        other => panic!("unexpected {other:?}"),
    }
}

#[test]
fn long_term_integrity_faults_count_only_with_switches() {
    let mut sink = LongTermHitraceSink::new();
    sink.push_capture_stats(&stats(7, "boot", &[]));
    assert!(matches!(sink.validate_ftrace_capture(), Ok(None)));

    let mut sink = sink_with_switch("boot", &[0]);
    sink.push_capture_stats(&stats(7, "boot", &[]));
    assert!(matches!(
        sink.validate_ftrace_capture(),
        Err(HitraceError::InvalidStatsStatus { status: 7 })
    ));
}

#[test]
fn long_term_first_integrity_fault_wins() {
    let mut sink = sink_with_switch("mono", &[0]);
    sink.push_capture_stats(&stats(1, "mono", &[0]));
    sink.push_capture_stats(&stats(9, "mono", &[]));
    assert!(matches!(sink.validate_ftrace_capture(), Err(HitraceError::DuplicateEndStats)));
}

#[test]
fn long_term_lost_events_reject_the_capture() {
    let mut sink = sink_with_switch("global", &[]);
    let mut lossy = stats(1, "global", &[]);
    lossy.per_cpu.push(PerCpuStats { cpu: 0, overrun: 0, commit_overrun: 3, dropped_events: 0 });
    // The first TRACE_END snapshot was already taken; a second one is the fault.
    sink.push_capture_stats(&lossy);
    assert!(matches!(sink.validate_ftrace_capture(), Err(HitraceError::DuplicateEndStats)));

    let mut sink = LongTermHitraceSink::new();
    sink.push_capture_stats(&lossy);
    sink.push_ftrace(0, &switch(10, 1, 2)).unwrap();
    assert!(matches!(
        sink.validate_ftrace_capture(),
        Err(HitraceError::LostEvents { cpu: 0, overrun: 0, commit_overrun: 3, dropped_events: 0 })
    ));
}

#[test]
fn long_term_earlier_of_overwrite_and_missing_cpu_is_reported() {
    // CPU 0 is not covered (detail 0); CPU 1 was overwritten (detail 1).
    let mut sink = LongTermHitraceSink::new();
    sink.push_capture_stats(&stats(1, "boot", &[1]));
    sink.push_capture(&FtraceCaptureRecord::CpuDetail { cpu: 0, overwrite: 0 }).unwrap();
    sink.push_capture(&FtraceCaptureRecord::CpuDetail { cpu: 1, overwrite: 5 }).unwrap();
    sink.push_ftrace(1, &switch(10, 1, 2)).unwrap();
    assert!(matches!(sink.validate_ftrace_capture(), Err(HitraceError::IncompleteEndStats { cpu: 0 })));

    let mut sink = LongTermHitraceSink::new();
    sink.push_capture_stats(&stats(1, "boot", &[1]));
    sink.push_capture(&FtraceCaptureRecord::CpuDetail { cpu: 1, overwrite: 5 }).unwrap();
    sink.push_capture(&FtraceCaptureRecord::CpuDetail { cpu: 0, overwrite: 0 }).unwrap();
    sink.push_ftrace(1, &switch(10, 1, 2)).unwrap();
    assert!(matches!(
        sink.validate_ftrace_capture(),
        Err(HitraceError::PageOverwrite { cpu: 1, overwrite: 5 })
    ));
}

#[test]
fn long_term_clock_snapshots_are_numbered_from_one() {
    let mut sink = LongTermHitraceSink::new();
    let rows = sink
        .push_capture(&FtraceCaptureRecord::ClockSnapshot(vec![
            ClockDetail { id: 1, time: Some((2, 3)) },
            ClockDetail { id: 4, time: Some((0, 999_999_999)) },
        ]))
        .unwrap();
    assert_eq!(rows.len(), 2);
    assert_eq!(rows[0].snapshot_id, 1);
    assert_eq!(rows[0].clock, SnapshotClock::Boottime);
    assert_eq!(rows[0].clock_value, 2_000_000_003);
    assert_eq!(rows[1].clock, SnapshotClock::Monotonic);
    assert_eq!(rows[1].clock_value, 999_999_999);
    let again = sink
        .push_capture(&FtraceCaptureRecord::ClockSnapshot(vec![ClockDetail { id: 2, time: Some((1, 0)) }]))
        .unwrap();
    assert_eq!(again[0].snapshot_id, 2);
    let failure = sink.push_capture(&FtraceCaptureRecord::ClockSnapshot(vec![
        ClockDetail { id: 1, time: Some((1, 0)) },
        ClockDetail { id: 1, time: Some((1, 0)) },
    ]));
    assert!(matches!(
        failure,
        Err(HitraceError::DuplicateSnapshotClock { snapshot_id: 3, clock: SnapshotClock::Boottime })
    ));
}

#[test]
fn long_term_switch_continuity_is_checked_per_cpu() {
    let mut sink = LongTermHitraceSink::new();
    let first = sink.push_ftrace(3, &switch(10, 1, 2)).unwrap().unwrap();
    assert_eq!(first.sequence, 0);
    let other = sink.push_ftrace(4, &switch(5, 7, 8)).unwrap().unwrap();
    assert_eq!(other.sequence, 0);
    let second = sink.push_ftrace(3, &switch(10, 2, 9)).unwrap().unwrap();
    assert_eq!(second.sequence, 1);
    assert_eq!(second.previous_thread_name, "thread-2");
    assert!(sink.push_ftrace(3, &CpuEventRecord { timestamp: 1, switch: None }).unwrap().is_none());
    assert!(matches!(
        sink.push_ftrace(3, &switch(9, 9, 1)),
        Err(HitraceError::ClockWentBackwards { cpu: 3, previous: 10, current: 9 })
    ));
    assert!(matches!(
        sink.push_ftrace(4, &switch(6, 1, 1)),
        Err(HitraceError::BrokenThreadContinuity {
            cpu: 4,
            expected_previous_thread_id: 8,
            actual_previous_thread_id: 1
        })
    ));
}

#[test]
fn long_term_plugin_result_yields_domains_of_the_local_clock() {
    let mut sink = LongTermHitraceSink::new();
    let result = FtraceResult {
        stats: vec![stats(0, "local", &[3, 4]), stats(1, "local", &[3, 4])],
        details: vec![
            CpuDetail { cpu: 4, events: vec![switch(20, 1, 2)], overwrite: 0 },
            CpuDetail { cpu: 3, events: vec![switch(10, 5, 6), switch(11, 6, 7)], overwrite: 0 },
        ],
        clocks: vec![ClockDetail { id: 6, time: Some((1, 1)) }],
    };
    let (snapshots, rows) = sink.push_plugin_result(&result).unwrap();
    assert_eq!(snapshots.len(), 1);
    assert_eq!(snapshots[0].clock, SnapshotClock::MonotonicRaw);
    assert_eq!(snapshots[0].clock_value, 1_000_000_001);
    let order: Vec<(u32, u64)> = rows.iter().map(|row| (row.cpu, row.sequence)).collect();
    assert_eq!(order, vec![(4, 0), (3, 0), (3, 1)]);
    let capture = sink.finish().unwrap();
    assert_eq!(capture.ftrace_clock, Some(TraceClock::Local));
    assert_eq!(
        capture.domain_names,
        vec![
            "boottime",
            "ftrace_local_cpu_3",
            "ftrace_local_cpu_4",
            "monotonic",
            "monotonic_coarse",
            "monotonic_raw",
            "realtime",
            "realtime_coarse",
        ]
    );
    assert_eq!(capture.domain_types[1], "ftrace_local");
}

#[test]
fn long_term_conflicting_clocks_fail() {
    let mut sink = LongTermHitraceSink::new();
    sink.push_capture_stats(&stats(0, "boot", &[]));
    sink.push_capture_stats(&stats(0, "mono", &[]));
    match sink.validate_ftrace_capture() {
        Err(HitraceError::ConflictingTraceClocks { clocks }) => {
            assert_eq!(clocks, vec![TraceClock::Boot, TraceClock::Mono])
        }
        other => panic!("unexpected {other:?}"),
    }
}

#[test]
fn long_term_switches_need_a_clock_and_end_stats() {
    let mut sink = LongTermHitraceSink::new();
    sink.push_ftrace(0, &switch(1, 1, 2)).unwrap();
    assert!(matches!(sink.validate_ftrace_capture(), Err(HitraceError::MissingTraceClock)));
    let mut sink = LongTermHitraceSink::new();
    sink.push_capture_stats(&stats(0, "boot", &[]));
    sink.push_ftrace(0, &switch(1, 1, 2)).unwrap();
    assert!(matches!(sink.validate_ftrace_capture(), Err(HitraceError::MissingEndStats)));
}
