use kat_datasource::hitrace::clocks::{SnapshotClock, TraceClock};
use kat_datasource::hitrace::container::{container_layout, ContainerError, ContainerItem};
use kat_datasource::hitrace::decoder::{DecodedHitrace, HitraceDecoder};
use kat_datasource::hitrace::report::EnvelopeAction;
use kat_datasource::hitrace::spool::{read_row, row_to_bytes, SpoolError};
use kat_datasource::hitrace::validate::{
    ClockDetail, CpuDetail, CpuEventRecord, CpuStats, FtraceResult, HitraceError, PerCpuStats,
    SchedSwitch, SwitchRow,
};

const HEADER_SIZE: usize = 1024;
const HEADER_MAGIC: u64 = 0x464F_5250_534F_484F;
const CLOCK_OFFSETS: [usize; 6] = [60, 68, 76, 84, 92, 100];

fn switch(timestamp: u64, previous: i32, next: i32) -> CpuEventRecord {
    CpuEventRecord {
        timestamp,
        switch: Some(SchedSwitch {
            prev_comm: format!("thread-{previous}"),
            prev_pid: previous,
            next_comm: format!("thread-{next}"),
            next_pid: next,
        }),
    }
}

fn stats(status: i32, clock: &str, cpus: &[u32]) -> CpuStats {
    CpuStats {
        status,
        per_cpu: cpus
            .iter()
            .map(|cpu| PerCpuStats { cpu: u64::from(*cpu), overrun: 0, commit_overrun: 0, dropped_events: 0 })
            .collect(),
        trace_clock: clock.to_owned(),
    }
}

fn detail(cpu: u32, events: Vec<CpuEventRecord>) -> CpuDetail {
    CpuDetail { cpu, events, overwrite: 0 }
}

fn result(clock: &str, details: Vec<CpuDetail>, clocks: Vec<ClockDetail>) -> FtraceResult {
    let mut cpus: Vec<u32> = details.iter().map(|d| d.cpu).collect();
    cpus.sort();
    cpus.dedup();
    FtraceResult {
        stats: vec![stats(0, clock, &cpus), stats(1, clock, &cpus)],
        details,
        clocks,
    }
}

fn section(data_type: u32, frames: &[Vec<u8>]) -> Vec<u8> {
    let mut body = Vec::new();
    for frame in frames {
        body.extend_from_slice(&(frame.len() as u32).to_le_bytes());
        body.extend_from_slice(frame);
    }
    let mut section = vec![0; HEADER_SIZE];
    section[0..8].copy_from_slice(&HEADER_MAGIC.to_le_bytes());
    section[8..16].copy_from_slice(&((HEADER_SIZE + body.len()) as u64).to_le_bytes());
    section[56..60].copy_from_slice(&data_type.to_le_bytes());
    for (index, offset) in CLOCK_OFFSETS.iter().enumerate() {
        section[*offset..*offset + 8].copy_from_slice(&(100 + index as u64).to_le_bytes());
    }
    section.extend_from_slice(&body);
    section
}

fn decode(result: FtraceResult) -> Result<(DecodedHitrace, Vec<SwitchRow>), HitraceError> {
    let header = section(0, &[]);
    let mut decoder = HitraceDecoder::new(&header).expect("header is complete");
    let rows = decoder.apply_result(&result)?;
    let decoded = decoder.finish()?;
    Ok((decoded, rows))
}

fn failure(result: FtraceResult) -> HitraceError {
    match decode(result) {
        Ok(_) => panic!("expected failure"),
        Err(error) => error,
    }
}

#[test]
fn imports_multi_cpu_source_order_same_clock_and_snapshot_evidence() {
    let clocks = vec![ClockDetail { id: 1, time: Some((2, 3)) }];
    let trace = result(
        "boot",
        vec![
            detail(1, vec![switch(10, 0, 11), switch(10, 11, 12)]),
            detail(0, vec![switch(7, 0, 21), switch(9, 21, 22)]),
            detail(1, vec![switch(12, 12, 13)]),
        ],
        clocks,
    );

    let (decoded, rows) = decode(trace).unwrap();

    assert!(decoded.unsupported_plugins.is_empty());
    assert_eq!(rows.len(), 5);
    assert!(decoded.ftrace_clock == Some(TraceClock::Boot));
    assert_eq!(rows.iter().map(|r| r.cpu).collect::<Vec<_>>(), [1, 1, 0, 0, 1]);
    assert_eq!(rows.iter().map(|r| r.sequence).collect::<Vec<_>>(), [0, 1, 0, 1, 2]);
    assert_eq!(decoded.snapshots.len(), 7);
    assert!(decoded.snapshots.iter().any(|s| s.clock_value == 2_000_000_003));
    assert!(decoded.domain_names.iter().all(|d| d != "ftrace_global"));
    assert!(decoded.domain_names.iter().any(|d| d == "boottime"));
}

#[test]
fn local_clock_creates_per_cpu_domains_and_batches_more_than_one_record_batch() {
    let mut events = Vec::new();
    let mut previous = 0;
    for sequence in 0..8193u64 {
        let next = i32::try_from(sequence + 1).unwrap();
        events.push(switch(sequence, previous, next));
        previous = next;
    }
    let trace = result("local", vec![detail(3, events), detail(4, vec![switch(1, 0, 9)])], Vec::new());

    let (decoded, rows) = decode(trace).unwrap();

    assert_eq!(rows.len(), 8194);
    assert!(decoded.domain_names.iter().any(|d| d == "ftrace_local_cpu_3"));
    assert!(decoded.domain_names.iter().any(|d| d == "ftrace_local_cpu_4"));
    let local = decoded.domain_names.iter().position(|d| d == "ftrace_local_cpu_3").unwrap();
    assert_eq!(decoded.domain_types[local], "ftrace_local");
    let mut sorted = decoded.domain_names.clone();
    sorted.sort();
    assert_eq!(sorted, decoded.domain_names);
}

#[test]
fn clock_and_thread_continuity_damage_fail_before_target_mutation() {
    let backwards = failure(result("mono", vec![detail(0, vec![switch(2, 0, 1), switch(1, 1, 2)])], Vec::new()));
    assert!(matches!(backwards, HitraceError::ClockWentBackwards { cpu: 0, previous: 2, current: 1 }));
    let broken = failure(result("mono", vec![detail(0, vec![switch(1, 0, 1), switch(2, 7, 2)])], Vec::new()));
    assert!(matches!(
        broken,
        HitraceError::BrokenThreadContinuity { cpu: 0, expected_previous_thread_id: 1, actual_previous_thread_id: 7 }
    ));
}

#[test]
fn each_loss_evidence_rejects_the_complete_import() {
    for counter in ["overrun", "commit_overrun", "dropped_events", "overwrite"] {
        let mut trace = result("global", vec![detail(0, vec![switch(1, 0, 1)])], Vec::new());
        match counter {
            "overrun" => trace.stats[1].per_cpu[0].overrun = 1,
            "commit_overrun" => trace.stats[1].per_cpu[0].commit_overrun = 1,
            "dropped_events" => trace.stats[1].per_cpu[0].dropped_events = 1,
            "overwrite" => trace.details[0].overwrite = 1,
            _ => unreachable!(),
        }
        let error = failure(trace);
        match counter {
            "overrun" => assert!(matches!(error, HitraceError::LostEvents { cpu: 0, overrun: 1, commit_overrun: 0, dropped_events: 0 })),
            "commit_overrun" => assert!(matches!(error, HitraceError::LostEvents { cpu: 0, overrun: 0, commit_overrun: 1, dropped_events: 0 })),
            "dropped_events" => assert!(matches!(error, HitraceError::LostEvents { cpu: 0, overrun: 0, commit_overrun: 0, dropped_events: 1 })),
            _ => assert!(matches!(error, HitraceError::PageOverwrite { cpu: 0, overwrite: 1 })),
        }
        assert!(error.message().contains(counter), "{counter}: {}", error.message());
    }
}

#[test]
fn evidence_errors_render_as_the_importer_reports_them() {
    assert_eq!(
        HitraceError::LostEvents { cpu: 2, overrun: 1, commit_overrun: 0, dropped_events: 3 }.message(),
        "ftrace capture lost events on CPU 2: overrun=1, commit_overrun=0, dropped_events=3"
    );
    assert_eq!(
        HitraceError::BrokenThreadContinuity { cpu: 1, expected_previous_thread_id: -1, actual_previous_thread_id: 7 }.message(),
        "sched_switch thread continuity is broken on CPU 1: expected previous_thread_id -1, got 7"
    );
    assert_eq!(
        HitraceError::ConflictingTraceClocks { clocks: vec![TraceClock::Boot, TraceClock::Mono] }.message(),
        "ftrace reports conflicting trace clocks: [\"boot\", \"mono\"]"
    );
    assert_eq!(
        HitraceError::UnsupportedTraceClock { clock: "x86-tsc".to_owned() }.message(),
        "unsupported ftrace trace_clock \"x86-tsc\""
    );
    assert_eq!(HitraceError::InvalidStatsStatus { status: -2 }.message(), "invalid FtraceCpuStatsMsg status -2");
}

#[test]
fn trace_start_counters_are_not_used_as_a_baseline() {
    let mut trace = result("boot", vec![detail(0, vec![switch(1, 0, 1)])], Vec::new());
    trace.stats[0].per_cpu[0].overrun = 100;
    trace.stats[0].per_cpu[0].commit_overrun = 100;
    trace.stats[0].per_cpu[0].dropped_events = 100;
    assert!(decode(trace).is_ok());
}

#[test]
fn capture_requires_one_complete_end_snapshot_and_one_clock() {
    let base = || result("boot", vec![detail(0, vec![switch(1, 0, 1)])], Vec::new());

    let mut missing_end = base();
    missing_end.stats.pop();
    assert!(matches!(failure(missing_end), HitraceError::MissingEndStats));

    let mut duplicate_end = base();
    duplicate_end.stats.push(stats(1, "boot", &[0]));
    assert!(matches!(failure(duplicate_end), HitraceError::DuplicateEndStats));

    let mut incomplete_end = base();
    incomplete_end.stats[1].per_cpu.clear();
    assert!(matches!(failure(incomplete_end), HitraceError::IncompleteEndStats { cpu: 0 }));

    let mut missing_clock = base();
    for stats in &mut missing_clock.stats {
        stats.trace_clock.clear();
    }
    assert!(matches!(failure(missing_clock), HitraceError::MissingTraceClock));

    let mut conflict = base();
    conflict.stats[1].trace_clock = "mono".to_owned();
    match failure(conflict) {
        HitraceError::ConflictingTraceClocks { clocks } => {
            assert!(clocks == vec![TraceClock::Boot, TraceClock::Mono]);
        }
        _ => panic!("expected conflicting clocks"),
    }
}

#[test]
fn duplicate_snapshot_domain_and_unknown_clock_fail() {
    let duplicate = vec![
        ClockDetail { id: 2, time: Some((1, 0)) },
        ClockDetail { id: 2, time: Some((2, 0)) },
    ];
    assert!(matches!(
        failure(result("boot", Vec::new(), duplicate)),
        HitraceError::DuplicateSnapshotClock { snapshot_id: 1, clock: SnapshotClock::Realtime }
    ));
    match failure(result(" unknown ", vec![detail(0, vec![switch(1, 0, 1)])], Vec::new())) {
        HitraceError::UnsupportedTraceClock { clock } => assert_eq!(clock, "unknown"),
        _ => panic!("expected an unsupported clock"),
    }
}

#[test]
fn truncated_frame_with_huge_declared_length_fails_without_eager_allocation() {
    let mut bytes = vec![0; HEADER_SIZE];
    bytes[0..8].copy_from_slice(&HEADER_MAGIC.to_le_bytes());
    let declared = HEADER_SIZE as u64 + 4 + u64::from(u32::MAX);
    bytes[8..16].copy_from_slice(&declared.to_le_bytes());
    bytes.extend_from_slice(&u32::MAX.to_le_bytes());

    let (items, failure) = container_layout(&bytes);

    assert!(items.is_empty());
    assert!(failure == Some(ContainerError::TruncatedFrame { offset: HEADER_SIZE + 4 }));
}

#[test]
fn unknown_plugins_and_sections_are_sorted_without_becoming_tables() {
    let names = ["z-plugin", "a-plugin", "z-plugin"];
    let frames: Vec<Vec<u8>> = names.iter().map(|name| name.as_bytes().to_vec()).collect();
    let mut bytes = section(0, &frames);
    bytes.extend(section(1000, &[]));
    bytes.extend(section(77, &[]));

    let (items, failure) = container_layout(&bytes);
    assert!(failure.is_none());
    assert_eq!(items.len(), 5);
    let mut decoder = HitraceDecoder::new(&bytes).unwrap();
    for item in &items {
        match *item {
            ContainerItem::Section { data_type, offset } => decoder.note_section(data_type, offset),
            ContainerItem::Frame { start, end } => {
                let name = std::str::from_utf8(&bytes[start..end]).unwrap();
                assert!(decoder.note_envelope(name, start) == EnvelopeAction::Skip);
            }
        }
    }
    let decoded = decoder.finish().unwrap();

    assert_eq!(decoded.unsupported_plugins, ["a-plugin", "z-plugin"]);
    assert_eq!(decoded.unsupported_section_types, [77, 1000]);
    assert_eq!(decoded.unsupported_content.len(), 5);
    assert_eq!(decoded.unsupported_content[3].kind(), "section_type");
    assert_eq!(decoded.unsupported_content[3].value(), "1000");
}

#[test]
fn ftrace_envelopes_are_dispatched_by_plugin_name() {
    let header = section(0, &[]);
    let mut decoder = HitraceDecoder::new(&header).unwrap();
    assert!(decoder.note_envelope("ftrace-plugin", 1028) == EnvelopeAction::FtraceResult);
    assert!(decoder.note_envelope("ftrace-plugin_config", 1040) == EnvelopeAction::Skip);
    assert!(decoder.note_envelope("memory-plugin_config", 1050) == EnvelopeAction::Skip);
    let decoded = decoder.finish().unwrap();
    assert_eq!(decoded.unsupported_plugins, ["memory-plugin"]);
    assert_eq!(decoded.unsupported_content[0].byte_offset(), 1050);
}

#[test]
fn header_snapshot_reads_the_six_clocks_in_field_order() {
    let header = section(0, &[]);
    let decoder = HitraceDecoder::new(&header).unwrap();
    let decoded = decoder.finish().unwrap();
    assert_eq!(decoded.snapshots.len(), 6);
    for (index, snapshot) in decoded.snapshots.iter().enumerate() {
        assert_eq!(snapshot.snapshot_id, 0);
        assert_eq!(snapshot.clock_value, 100 + index as u64);
    }
    assert!(decoded.snapshots[3].clock == SnapshotClock::Monotonic);
    assert_eq!(
        decoded.domain_names,
        ["boottime", "monotonic", "monotonic_coarse", "monotonic_raw", "realtime", "realtime_coarse"]
    );
    assert!(decoded.ftrace_clock.is_none());
    assert!(HitraceDecoder::new(&header[..1023]).is_none());
}

#[test]
fn container_errors_name_the_offending_byte() {
    let (_, empty) = container_layout(&[]);
    assert!(empty == Some(ContainerError::ShortHeader));
    let (_, short) = container_layout(&[1, 2, 3]);
    assert!(short == Some(ContainerError::TruncatedHeader { offset: 0 }));
    let mut bad_magic = section(0, &[]);
    bad_magic[0] = 0;
    let (_, magic) = container_layout(&bad_magic);
    assert!(magic == Some(ContainerError::BadMagic { offset: 0 }));
    let mut bad_length = section(0, &[]);
    bad_length[8..16].copy_from_slice(&10u64.to_le_bytes());
    let (_, length) = container_layout(&bad_length);
    assert!(length == Some(ContainerError::BadLength { length: 10, offset: 0 }));
    let mut cut = section(5, &[vec![1, 2, 3]]);
    cut.truncate(cut.len() - 1);
    let (items, body) = container_layout(&cut);
    assert_eq!(items.len(), 1);
    assert!(body == Some(ContainerError::TruncatedBody { offset: HEADER_SIZE }));
    let mut frame_length = section(0, &[]);
    frame_length[8..16].copy_from_slice(&((HEADER_SIZE + 2) as u64).to_le_bytes());
    frame_length.extend_from_slice(&[0, 0]);
    let (_, short_length) = container_layout(&frame_length);
    assert!(short_length == Some(ContainerError::TruncatedFrameLength { offset: HEADER_SIZE }));
}

#[test]
fn snapshot_values_are_seconds_and_nanoseconds() {
    let clocks = vec![
        ClockDetail { id: 4, time: Some((3, 999_999_999)) },
        ClockDetail { id: 1, time: Some((0, 5)) },
    ];
    let (decoded, _) = decode(result("boot", Vec::new(), clocks)).unwrap();
    assert_eq!(decoded.snapshots[6].clock_value, 3_999_999_999);
    assert_eq!(decoded.snapshots[6].snapshot_id, 1);
    assert_eq!(decoded.snapshots[7].clock_value, 5);
    let bad = vec![ClockDetail { id: 4, time: Some((3, 1_000_000_000)) }];
    assert!(matches!(
        failure(result("boot", Vec::new(), bad)),
        HitraceError::InvalidNanoseconds { snapshot_id: 1, clock: SnapshotClock::Monotonic, nanoseconds: 1_000_000_000 }
    ));
    let missing = vec![ClockDetail { id: 5, time: None }];
    assert!(matches!(failure(result("boot", Vec::new(), missing)), HitraceError::MissingSnapshotTime { .. }));
    let unknown = vec![ClockDetail { id: 0, time: Some((1, 1)) }];
    assert!(matches!(failure(result("boot", Vec::new(), unknown)), HitraceError::UnsupportedSnapshotClock { id: 0 }));
}

#[test]
fn invalid_status_and_cpu_are_rejected() {
    let mut trace = result("boot", Vec::new(), Vec::new());
    trace.stats[0].status = 2;
    assert!(matches!(failure(trace), HitraceError::InvalidStatsStatus { status: 2 }));
    let mut wide = result("boot", Vec::new(), Vec::new());
    wide.stats[1].per_cpu.push(PerCpuStats { cpu: 1 << 40, overrun: 0, commit_overrun: 0, dropped_events: 0 });
    assert!(matches!(failure(wide), HitraceError::CpuOutOfRange { cpu } if cpu == 1 << 40));
    let mut repeated = result("boot", Vec::new(), Vec::new());
    repeated.stats[1].per_cpu = vec![
        PerCpuStats { cpu: 2, overrun: 0, commit_overrun: 0, dropped_events: 0 },
        PerCpuStats { cpu: 2, overrun: 0, commit_overrun: 0, dropped_events: 0 },
    ];
    assert!(matches!(failure(repeated), HitraceError::DuplicateEndCpu { cpu: 2 }));
}

#[test]
fn continuity_spans_results() {
    let header = section(0, &[]);
    let mut decoder = HitraceDecoder::new(&header).unwrap();
    let first = FtraceResult { stats: vec![], details: vec![detail(2, vec![switch(5, 0, 3)])], clocks: vec![] };
    let second = result("mono", vec![detail(2, vec![switch(6, 3, 4)])], vec![]);
    let rows_a = decoder.apply_result(&first).unwrap();
    let rows_b = decoder.apply_result(&second).unwrap();
    assert_eq!(rows_a[0].sequence, 0);
    assert_eq!(rows_b[0].sequence, 1);
    assert_eq!(rows_b[0].previous_thread_name, "thread-3");
    let decoded = decoder.finish().unwrap();
    assert_eq!(decoded.switch_count, 2);
    assert!(decoded.ftrace_clock == Some(TraceClock::Mono));
}

#[test]
fn spool_records_read_back_as_written() {
    let row = SwitchRow {
        clock_value: 0x0102_0304_0506_0708,
        cpu: 7,
        sequence: 42,
        previous_thread_id: -3,
        previous_thread_name: "kworker/0:1".to_owned(),
        next_thread_id: 99,
        next_thread_name: "système".to_owned(),
    };
    let bytes = row_to_bytes(&row).unwrap();
    assert_eq!(&bytes[0..8], &0x0102_0304_0506_0708u64.to_le_bytes());
    assert_eq!(bytes.len(), 8 + 4 + 8 + 4 + 4 + 11 + 4 + 4 + 8);
    let mut spool = vec![9, 9];
    spool.extend_from_slice(&bytes);
    spool.extend_from_slice(&bytes);
    let (back, end) = read_row(&spool, 2).unwrap();
    assert_eq!(end, 2 + bytes.len());
    assert_eq!(back.clock_value, row.clock_value);
    assert_eq!(back.cpu, 7);
    assert_eq!(back.sequence, 42);
    assert_eq!(back.previous_thread_id, -3);
    assert_eq!(back.previous_thread_name, "kworker/0:1");
    assert_eq!(back.next_thread_id, 99);
    assert_eq!(back.next_thread_name, "système");
    let (_, end2) = read_row(&spool, end).unwrap();
    assert_eq!(end2, spool.len());
    assert!(matches!(read_row(&spool, end2), Err(SpoolError::Truncated)));
    let mut corrupt = bytes.clone();
    corrupt[28] = 0xff;
    assert!(matches!(read_row(&corrupt, 0), Err(SpoolError::InvalidUtf8)));
}

#[test]
fn container_items_lie_in_the_file_in_order() {
    let frames = vec![b"one".to_vec(), b"three".to_vec()];
    let mut bytes = section(0, &frames);
    bytes.extend(section(5, &[]));
    bytes.extend(section(0, &[b"x".to_vec()]));
    let (items, failure) = container_layout(&bytes);
    assert!(failure.is_none());
    let spans: Vec<(usize, usize)> = items
        .iter()
        .map(|item| match *item {
            ContainerItem::Frame { start, end } => (start, end),
            ContainerItem::Section { offset, .. } => (offset, offset + HEADER_SIZE),
        })
        .collect();
    assert_eq!(spans.len(), 4);
    assert_eq!(spans[0], (HEADER_SIZE + 4, HEADER_SIZE + 7));
    assert_eq!(spans[1], (HEADER_SIZE + 11, HEADER_SIZE + 16));
    for pair in spans.windows(2) {
        assert!(pair[0].1 <= pair[1].0);
    }
    assert!(spans.iter().all(|(start, end)| start <= end && *end <= bytes.len()));
}
