use kat_datasource::ftrace_text::relations::{OutputError, OutputTables, PayloadTable, TextFtraceEvent, TextFtracePayload};
use kat_datasource::ftrace_text::decode::{decode_reader, TextFtraceDecodeError};
use kat_datasource::ftrace_text::event::FtracePayload;
use kat_datasource::ftrace_text::imported::TextFtraceImportError;
use kat_datasource::ftrace_text::line::{parse_clock_value, parse_emitter, TextFtraceLineError};
use kat_datasource::ftrace_text::parsers::parse_cpu_idle;
use kat_datasource::ftrace_text::payload::PayloadError;
use kat_datasource::ftrace_text::summary::TextFtraceClock;

const SWITCH: &str = "          <idle>-0       (-------) [000] d..2  1234.567890: sched_switch: prev_comm=swapper/0 prev_pid=0 prev_prio=120 prev_state=R ==> next_comm=kworker/0:1 next_pid=42 next_prio=120";

fn chars(s: &str) -> Vec<char> {
    s.chars().collect()
}

#[test]
fn decodes_a_context_switch_with_its_common_fields() {
    let input = format!("# tracer: nop\n\n{SWITCH}\n");
    let (events, summary) = match decode_reader(input.as_bytes()) {
        Ok(decoded) => decoded,
        Err(_) => panic!("trace decodes"),
    };
    assert_eq!(events.len(), 1);
    assert_eq!(summary.seen_events(), 1);
    assert!(summary.unsupported_events().is_empty());
    let event = &events[0];
    assert_eq!(event.cpu, 0);
    assert_eq!(event.event.timestamp, 1_234_567_890_000);
    assert_eq!(event.event.comm, "<idle>");
    assert_eq!(event.event.pid, 0);
    assert_eq!(event.event.tgid, None);
    match &event.event.payload {
        FtracePayload::SchedSwitch { prev_comm, prev_pid, prev_state, next_comm, next_pid, next_prio, .. } => {
            assert_eq!(prev_comm, "swapper/0");
            assert_eq!(*prev_pid, 0);
            assert_eq!(*prev_state, 0);
            assert_eq!(next_comm, "kworker/0:1");
            assert_eq!(*next_pid, 42);
            assert_eq!(*next_prio, 120);
        }
        _ => panic!("expected a context switch"),
    }
}

#[test]
fn unsupported_events_are_counted_by_name_in_name_order() {
    let input = "a-1 (1) [001] .... 1.0: zzz_event: x\r\nb-2 (2) [002] .... 2.0: aaa_event: y\nc-3 (3) [003] .... 3.0: zzz_event: z";
    let (events, summary) = match decode_reader(input.as_bytes()) {
        Ok(decoded) => decoded,
        Err(_) => panic!("trace decodes"),
    };
    assert!(events.is_empty());
    assert_eq!(summary.seen_events(), 3);
    let unsupported = summary.unsupported_events();
    assert_eq!(unsupported.len(), 2);
    assert_eq!(unsupported[0].name(), "aaa_event");
    assert_eq!(unsupported[0].count(), 1);
    assert_eq!(unsupported[0].first_line(), 2);
    assert_eq!(unsupported[1].name(), "zzz_event");
    assert_eq!(unsupported[1].count(), 2);
    assert_eq!(unsupported[1].first_line(), 1);
}

#[test]
fn a_trace_without_records_is_rejected() {
    assert!(matches!(decode_reader(b"# only a comment\n\n   \n"), Err(TextFtraceDecodeError::NoEvents)));
    assert!(matches!(decode_reader(b""), Err(TextFtraceDecodeError::NoEvents)));
}

#[test]
fn invalid_utf8_and_long_lines_are_rejected_with_their_line() {
    let mut bad = SWITCH.as_bytes().to_vec();
    bad.push(b'\n');
    bad.extend_from_slice(&[0xff, 0xfe, b'\n']);
    assert!(matches!(decode_reader(&bad), Err(TextFtraceDecodeError::InvalidUtf8 { line: 2 })));
    let long = vec![b'#'; 1024 * 1024 + 1];
    assert!(matches!(decode_reader(&long), Err(TextFtraceDecodeError::LineTooLong { line: 1 })));
    let mut exact = vec![b'#'; 1024 * 1024 - 1];
    exact.push(b'\n');
    exact.extend_from_slice(SWITCH.as_bytes());
    assert!(decode_reader(&exact).is_ok());
}

#[test]
fn a_malformed_supported_payload_is_a_compatibility_error() {
    let line = "comm-7 (7) [001] .... 5.5: sched_wakeup: comm=foo pid=x prio=120 target_cpu=001";
    match decode_reader(line.as_bytes()) {
        Err(TextFtraceDecodeError::InvalidEvent { line: 1, error: TextFtraceLineError::Incompatible(e) }) => {
            assert_eq!(e.event(), "sched_wakeup");
            assert_eq!(e.field(), "pid");
            assert_eq!(e.line(), 1);
            assert_eq!(e.reason(), "invalid signed 32-bit integer");
        }
        _ => panic!("expected a compatibility error"),
    }
    let shape = "comm-7 (7) [001] .... 5.5: cpu_idle: state=1";
    match decode_reader(shape.as_bytes()) {
        Err(error) => {
            let import = TextFtraceImportError::from_decode_error("failed".to_owned(), error);
            let compatibility = import.compatibility().expect("compatibility error");
            assert_eq!(compatibility.field(), "payload");
            assert_eq!(compatibility.event(), "cpu_idle");
        }
        Ok(_) => panic!("expected a compatibility error"),
    }
}

#[test]
fn record_line_shape_errors() {
    let cases: [(&str, fn(&TextFtraceLineError) -> bool); 6] = [
        ("no separator at all", |e| matches!(e, TextFtraceLineError::MissingEventName)),
        ("x-1 (1) 000] .... 1.0: e: p", |e| matches!(e, TextFtraceLineError::MissingCpuField)),
        ("x-1 (1) [zz] .... 1.0: e: p", |e| matches!(e, TextFtraceLineError::InvalidCpu)),
        ("x-1 (1) [000] .... 1.0: e", |e| matches!(e, TextFtraceLineError::MissingEventPayload)),
        ("x-1 [000] .... 1.0: e: p", |e| matches!(e, TextFtraceLineError::MissingTgid)),
        ("x-1 (1) [000] 1.0: e: p", |e| matches!(e, TextFtraceLineError::MissingClockValue)),
    ];
    for (line, check) in cases {
        match decode_reader(line.as_bytes()) {
            Err(TextFtraceDecodeError::InvalidEvent { line: 1, error }) => assert!(check(&error), "{line}"),
            _ => panic!("expected a line error for {line}"),
        }
    }
}

#[test]
fn clock_values_are_nanoseconds() {
    assert_eq!(parse_clock_value(&chars("1234.567890")).ok(), Some(1_234_567_890_000));
    assert_eq!(parse_clock_value(&chars("7")).ok(), Some(7_000_000_000));
    assert_eq!(parse_clock_value(&chars("0.000000001")).ok(), Some(1));
    assert_eq!(parse_clock_value(&chars("1.1234567890000")).ok(), Some(1_123_456_789));
    assert!(matches!(parse_clock_value(&chars("1.1234567891")), Err(TextFtraceLineError::ExcessClockPrecision)));
    assert!(matches!(parse_clock_value(&chars("1.12a")), Err(TextFtraceLineError::InvalidFractionalClock)));
    assert!(matches!(parse_clock_value(&chars("x.1")), Err(TextFtraceLineError::InvalidIntegralClock)));
    assert!(matches!(parse_clock_value(&chars("18446744074.0")), Err(TextFtraceLineError::ClockOverflow)));
    assert_eq!(parse_clock_value(&chars("18446744073.709551615")).ok(), Some(u64::MAX));
    assert!(matches!(parse_clock_value(&chars("18446744073.709551616")), Err(TextFtraceLineError::ClockOverflow)));
    assert!(matches!(parse_clock_value(&chars("1.00000000é")), Err(TextFtraceLineError::ExcessClockPrecision)));
}

#[test]
fn emitters_with_and_without_a_thread_group() {
    let (name, tid, tgid) = match parse_emitter(&chars("my thread-12 (34)")) {
        Ok(e) => e,
        Err(_) => panic!("emitter parses"),
    };
    assert_eq!(name, "my thread");
    assert_eq!(tid, 12);
    assert_eq!(tgid, Some(34));
    let (_, _, none) = match parse_emitter(&chars("x-5 (-------)")) {
        Ok(e) => e,
        Err(_) => panic!("emitter parses"),
    };
    assert_eq!(none, None);
    assert!(matches!(parse_emitter(&chars("-5 (1)")), Err(TextFtraceLineError::EmptyThreadName)));
    assert!(matches!(parse_emitter(&chars("x5 (1)")), Err(TextFtraceLineError::MissingThreadId)));
    assert!(matches!(parse_emitter(&chars("x-5 (one)")), Err(TextFtraceLineError::InvalidTgid)));
    assert!(matches!(parse_emitter(&chars("x-z (1)")), Err(TextFtraceLineError::InvalidThreadId)));
}

#[test]
fn payload_parsers_name_the_field_at_fault() {
    match parse_cpu_idle(&chars("state=4294967295 cpu_id=3")) {
        Ok(FtracePayload::CpuIdle { state, cpu_id }) => {
            assert_eq!(state, u32::MAX);
            assert_eq!(cpu_id, 3);
        }
        _ => panic!("cpu_idle parses"),
    }
    match parse_cpu_idle(&chars("state=4294967296 cpu_id=3")) {
        Err(PayloadError::Field { field, reason }) => {
            assert_eq!(field, "state");
            assert_eq!(reason, "invalid unsigned 32-bit integer");
        }
        _ => panic!("cpu_idle state overflows"),
    }
}

#[test]
fn trace_clock_names() {
    assert_eq!(TextFtraceClock::Boottime.domain(), "boottime");
    assert_eq!(TextFtraceClock::FtraceGlobal.domain(), "ftrace_global");
    assert_eq!(TextFtraceClock::Monotonic.proto_clock(), "mono");
    assert_eq!(TextFtraceClock::FtraceGlobal.proto_clock(), "global");
}

#[test]
fn every_record_is_an_event_or_a_counted_skip() {
    let input = format!("{SWITCH}\na-1 (1) [001] .... 1.0: zzz_event: x\n{SWITCH}\nb-2 (2) [002] .... 2.0: aaa_event: y\nc-3 (3) [003] .... 3.0: zzz_event: z\n");
    let (events, summary) = match decode_reader(input.as_bytes()) {
        Ok(decoded) => decoded,
        Err(_) => panic!("trace decodes"),
    };
    let skipped: u64 = summary.unsupported_events().iter().map(|event| event.count()).sum();
    assert_eq!(events.len(), 2);
    assert_eq!(skipped, 3);
    assert_eq!(summary.seen_events(), events.len() as u64 + skipped);
}

#[test]
fn an_unknown_previous_state_is_reported_quoted() {
    let line = SWITCH.replace("prev_state=R", "prev_state=Q\"+");
    match decode_reader(line.as_bytes()) {
        Err(TextFtraceDecodeError::InvalidEvent { line: 1, error: TextFtraceLineError::Incompatible(e) }) => {
            assert_eq!(e.event(), "sched_switch");
            assert_eq!(e.field(), "payload");
            assert_eq!(e.reason(), "unsupported sched_switch prev_state \"Q\\\"+\"");
        }
        _ => panic!("expected a compatibility error"),
    }
}

#[test]
fn errors_render_as_the_importer_reports_them() {
    let bytes = b"# c\nsh-1 (1) [000] d..2 1.0: sched_switch: prev_comm=a prev_pid=x prev_prio=120 prev_state=S ==> next_comm=b next_pid=2 next_prio=120\n";
    match decode_reader(bytes) {
        Err(error @ TextFtraceDecodeError::InvalidEvent { .. }) => {
            assert_eq!(error.message(), "invalid ftrace event at line 2");
            match error {
                TextFtraceDecodeError::InvalidEvent { error: TextFtraceLineError::Incompatible(c), .. } => {
                    assert_eq!(c.field(), "prev_pid");
                    assert_eq!(c.event(), "sched_switch");
                    assert_eq!(c.message(), "incompatible sched_switch.prev_pid at line 2: invalid signed 32-bit integer");
                }
                other => panic!("unexpected {other:?}"),
            }
        }
        other => panic!("unexpected {other:?}"),
    }
    match decode_reader(b"  # only a comment\n\n") {
        Err(error @ TextFtraceDecodeError::NoEvents) => {
            assert_eq!(error.message(), "text ftrace contains no event records");
        }
        other => panic!("unexpected {other:?}"),
    }
    assert_eq!(
        TextFtraceDecodeError::LineTooLong { line: 3 }.message(),
        "line 3 exceeds the 1048576-byte limit"
    );
}

fn text_event(payload: Option<TextFtracePayload>) -> TextFtraceEvent {
    TextFtraceEvent {
        clock_domain: "boottime".to_owned(),
        clock_value: 7,
        cpu: 2,
        emitter_thread_name: "sh".to_owned(),
        emitter_thread_id: 11,
        emitter_process_id: Some(10),
        context_flags: "d..2".to_owned(),
        payload,
    }
}

#[test]
fn each_event_takes_a_root_id_and_an_id_of_its_payload_table() {
    let mut tables = OutputTables::new();
    let marker = || Some(TextFtracePayload::TracingMarkWrite { content: "B|1|x".to_owned() });
    let first = tables.push(5, text_event(marker())).unwrap();
    assert_eq!((first.occurrence.row_id, first.occurrence.source_event_sequence), (0, 5));
    assert_eq!((first.root.row_id, first.root.parent_row_id, first.root.cpu), (0, 0, 2));
    assert_eq!((first.payload.row_id, first.payload.parent_row_id), (0, 0));
    let print = Some(TextFtracePayload::Print { instruction_pointer: "0x1".to_owned(), content: "hi".to_owned() });
    let second = tables.push(6, text_event(print)).unwrap();
    assert_eq!((second.root.row_id, second.payload.row_id, second.payload.parent_row_id), (1, 0, 1));
    assert_eq!(PayloadTable::of(&second.payload.payload).name(), "text_ftrace_event_print");
    assert_eq!(tables.push(7, text_event(None)).unwrap_err(), OutputError::MissingPayload);
    let third = tables.push(8, text_event(marker())).unwrap();
    assert_eq!((third.root.row_id, third.payload.row_id, third.payload.parent_row_id), (3, 1, 3));
    assert_eq!(tables.finish().unwrap_err(), OutputError::MissingHeader);
    let mut tables = OutputTables::new();
    tables.set_header("nop".to_owned(), true);
    let header = tables.finish().unwrap();
    assert_eq!((header.tracer.as_str(), header.has_tgid_column), ("nop", true));
}
