use kat_datasource::protobuf_source::claim::{NativeHookCaptureError, NativeHookSourceCapture};
use kat_datasource::protobuf_source::native_hook::{ClockAdmissionError, EnvelopeKind, NativeHookClock, NativeHookRoot};
use kat_datasource::ftrace_text::decode::decode_reader;
use kat_datasource::ftrace_text::source_capture::{
    EventPlacement, NewCpuDetail, SourceIndexError, TextFtraceSourceCapture,
    TextFtraceSourceIndex,
};
use kat_datasource::protobuf_source::capture::{
    CaptureError, CaptureSetupError, EnumDefinition, PoisonCause, SourceTableCapture, SourceTableLayout,
};
use kat_datasource::protobuf_source::occurrence::{
    profiler_payload_occurrence_spec, protobuf_enum_symbol_spec, EnvelopeFacts, ProfilerPayloadCapture,
    ProfilerPayloadOccurrenceRow,
};
use kat_datasource::protobuf_source::spec::{
    validate_data_type, validate_specs, EnumOriginSpec, EnumSymbol, FieldSpec, FieldType, RelationSpec,
    SpecError, TypeError,
};
use kat_datasource::protobuf_source::spool::{
    add_estimated_bytes, fixed_width_bytes, spool_limit_reached, variable_width_bytes, BufferCounts, BufferError,
    EstimateError, FixedWidth, SpoolOptions, SpoolOptionsError, DEFAULT_MAX_BUFFERED_BYTES,
    DEFAULT_MAX_BUFFERED_ROWS,
};

fn field(name: &str, data_type: FieldType) -> FieldSpec {
    FieldSpec { name: name.to_owned(), data_type }
}

fn relation(name: &str, columns: Vec<FieldSpec>) -> RelationSpec {
    RelationSpec { name: name.to_owned(), columns }
}

fn symbols(pairs: &[(i32, &str)]) -> Vec<EnumSymbol> {
    pairs.iter().map(|(number, symbol)| EnumSymbol { number: *number, symbol: (*symbol).to_owned() }).collect()
}

fn origin(relation: usize, path: &str, name: &str, pairs: &[(i32, &str)]) -> EnumOriginSpec {
    EnumOriginSpec {
        relation,
        field_path: path.to_owned(),
        enum_name: name.to_owned(),
        symbols: symbols(pairs),
    }
}

#[test]
fn spool_limits_are_checked() {
    let default = SpoolOptions::default();
    assert_eq!(default.max_buffered_rows, DEFAULT_MAX_BUFFERED_ROWS);
    assert_eq!(default.max_buffered_bytes, DEFAULT_MAX_BUFFERED_BYTES);
    assert_eq!(DEFAULT_MAX_BUFFERED_BYTES, 64 * 1024 * 1024);
    assert_eq!(default.validate(), Ok(()));
    assert_eq!(SpoolOptions::new(0).validate(), Err(SpoolOptionsError::ZeroRowLimit));
    assert_eq!(SpoolOptions::with_limits(1, 0).validate(), Err(SpoolOptionsError::ZeroByteLimit));
    if usize::BITS == 64 {
        assert_eq!(
            SpoolOptions::with_limits(usize::MAX, 1).validate(),
            Err(SpoolOptionsError::RowLimitBeyondInt64)
        );
    }
    let options = SpoolOptions::with_limits(3, 100);
    assert!(!spool_limit_reached(2, 99, options));
    assert!(spool_limit_reached(3, 0, options));
    assert!(spool_limit_reached(0, 100, options));
}

#[test]
fn row_size_estimates() {
    assert_eq!(fixed_width_bytes(FixedWidth::Bool), 2);
    assert_eq!(fixed_width_bytes(FixedWidth::Int32), 5);
    assert_eq!(fixed_width_bytes(FixedWidth::UInt64), 9);
    assert_eq!(variable_width_bytes(3, false), Ok(8));
    assert_eq!(variable_width_bytes(usize::MAX, true), Err(EstimateError::BinaryOverflow));
    let mut total = usize::MAX - 1;
    assert_eq!(add_estimated_bytes(&mut total, 2), Err(EstimateError::TotalOverflow));
    assert_eq!(total, usize::MAX - 1);
    assert_eq!(add_estimated_bytes(&mut total, 1), Ok(()));
    assert_eq!(total, usize::MAX);

    let row = ProfilerPayloadOccurrenceRow {
        row_id: 0,
        envelope_name: "ab".to_owned(),
        status: 0,
        clock_id: 0,
        tv_sec: 0,
        tv_nsec: 0,
        version: "1".to_owned(),
        sample_interval: 0,
    };
    assert_eq!(row.estimated_bytes(), Ok(55));
    let definition = EnumDefinition {
        origin_table: "t".to_owned(),
        origin_field_path: "p".to_owned(),
        enum_name: "E".to_owned(),
        enum_number: 1,
        enum_symbol: "é".to_owned(),
    };
    assert_eq!(definition.estimated_bytes(), Ok(30));
}

#[test]
fn buffer_counts_flush_at_the_limits() {
    let options = SpoolOptions::with_limits(2, 1000);
    let mut counts = BufferCounts::new();
    assert_eq!(counts.append_row(10, options), Ok(false));
    assert_eq!(counts.append_row(10, options), Ok(true));
    assert_eq!(counts.buffered_bytes, 20);
    assert!(counts.flush());
    assert_eq!(counts, BufferCounts::new());
    assert!(!counts.flush());
    let mut big = BufferCounts { buffered_rows: 0, buffered_bytes: usize::MAX };
    assert_eq!(big.append_row(1, options), Err(BufferError::ByteCountOverflow));
    assert_eq!(big.buffered_rows, 0);
}

#[test]
fn column_types_outside_the_mapping_are_refused() {
    assert!(validate_data_type(&FieldType::Utf8).is_ok());
    let nested = FieldType::Struct(vec![
        field("a", FieldType::Int64),
        field("b", FieldType::Struct(vec![field("c", FieldType::Binary)])),
    ]);
    assert!(validate_data_type(&nested).is_ok());
    let repeated = FieldType::Struct(vec![field("a", FieldType::Int64), field("a", FieldType::Utf8)]);
    match validate_data_type(&repeated) {
        Err(TypeError::RepeatedChild { name }) => assert_eq!(name, "a"),
        other => panic!("unexpected {other:?}"),
    }
    let deep = FieldType::Struct(vec![field(
        "a",
        FieldType::Struct(vec![field("x", FieldType::Other { name: "Date32".to_owned() })]),
    )]);
    match validate_data_type(&deep) {
        Err(TypeError::Unsupported { name }) => assert_eq!(name, "Date32"),
        other => panic!("unexpected {other:?}"),
    }
}

#[test]
fn relation_and_origin_checks_report_the_first_fault() {
    let ok = vec![relation("alpha", vec![field("x", FieldType::Int32)])];
    assert!(validate_specs(&ok, &vec![origin(0, "x", "E", &[(0, "ZERO")])]).is_ok());

    match validate_specs(&vec![relation("Alpha", vec![])], &vec![]) {
        Err(SpecError::InvalidTableName { slot: 0, name }) => assert_eq!(name, "Alpha"),
        other => panic!("unexpected {other:?}"),
    }
    match validate_specs(&vec![relation("alpha", vec![]), relation("protobuf_enum_symbol", vec![])], &vec![]) {
        Err(SpecError::ReservedTableName { slot: 1, .. }) => {}
        other => panic!("unexpected {other:?}"),
    }
    match validate_specs(&vec![relation("alpha", vec![]), relation("alpha", vec![])], &vec![]) {
        Err(SpecError::DuplicateRelation { name }) => assert_eq!(name, "alpha"),
        other => panic!("unexpected {other:?}"),
    }
    let duplicate_column = vec![relation("alpha", vec![field("x", FieldType::Int32), field("x", FieldType::Utf8)])];
    assert!(matches!(validate_specs(&duplicate_column, &vec![]), Err(SpecError::DuplicateColumn { .. })));
    let bad_column = vec![relation("alpha", vec![field("x", FieldType::Other { name: "Decimal".to_owned() })])];
    match validate_specs(&bad_column, &vec![]) {
        Err(SpecError::UnsupportedColumn { relation, column, reason: TypeError::Unsupported { name } }) => {
            assert_eq!((relation.as_str(), column.as_str(), name.as_str()), ("alpha", "x", "Decimal"))
        }
        other => panic!("unexpected {other:?}"),
    }
    assert!(matches!(
        validate_specs(&ok, &vec![origin(1, "x", "E", &[(0, "A")])]),
        Err(SpecError::MissingRelationSlot { slot: 1 })
    ));
    assert!(matches!(validate_specs(&ok, &vec![origin(0, "", "E", &[(0, "A")])]), Err(SpecError::EmptyFieldPath { .. })));
    assert!(matches!(validate_specs(&ok, &vec![origin(0, "x", "", &[(0, "A")])]), Err(SpecError::EmptyEnumName { .. })));
    assert!(matches!(validate_specs(&ok, &vec![origin(0, "x", "E", &[])]), Err(SpecError::NoSymbols { .. })));
    assert!(matches!(
        validate_specs(&ok, &vec![origin(0, "x", "E", &[(0, "A")]), origin(0, "x", "F", &[(0, "A")])]),
        Err(SpecError::DuplicateOrigin { .. })
    ));
    assert!(matches!(
        validate_specs(&ok, &vec![origin(0, "x", "E", &[(0, "")])]),
        Err(SpecError::EmptySymbol { number: 0, .. })
    ));
    assert!(matches!(
        validate_specs(&ok, &vec![origin(0, "x", "E", &[(3, "A"), (3, "B")])]),
        Err(SpecError::RepeatedNumber { number: 3, .. })
    ));
}

#[test]
fn row_ids_count_per_relation_and_a_failure_stops_the_capture() {
    let relations = vec![relation("alpha", vec![]), relation("beta", vec![])];
    let mut capture = SourceTableCapture::new(relations, vec![], SpoolOptions::default()).unwrap();
    assert_eq!(capture.allocate_row_id(0).unwrap(), 0);
    assert_eq!(capture.allocate_row_id(0).unwrap(), 1);
    assert_eq!(capture.allocate_row_id(1).unwrap(), 0);
    assert_eq!(capture.append_row(1).unwrap(), true);
    assert_eq!(capture.append_row(1).unwrap(), false);
    assert!(matches!(capture.allocate_row_id(7), Err(CaptureError::MissingSlot { slot: 7 })));
    match capture.allocate_row_id(0) {
        Err(CaptureError::Poisoned { poison }) => {
            assert_eq!(poison.slot, 7);
            assert_eq!(poison.cause, PoisonCause::MissingSlot);
        }
        other => panic!("unexpected {other:?}"),
    }
    assert!(matches!(capture.finish(), Err(CaptureError::Poisoned { .. })));

    assert!(matches!(
        SourceTableCapture::new(vec![], vec![], SpoolOptions::new(0)),
        Err(CaptureSetupError::Options(SpoolOptionsError::ZeroRowLimit))
    ));
    assert!(matches!(
        SourceTableCapture::new(vec![relation("9x", vec![])], vec![], SpoolOptions::default()),
        Err(CaptureSetupError::Spec(SpecError::InvalidTableName { slot: 0, .. }))
    ));
}

#[test]
fn enum_symbols_of_relations_with_rows_are_sorted() {
    let relations = vec![relation("zeta", vec![]), relation("alpha", vec![]), relation("mid", vec![])];
    let origins = vec![
        origin(0, "kind", "Kind", &[(2, "TWO"), (1, "ONE")]),
        origin(1, "state", "State", &[(5, "FIVE")]),
        origin(1, "mode", "Mode", &[(-1, "NEG"), (0, "ZERO")]),
        origin(2, "skip", "Skip", &[(0, "X")]),
    ];
    let mut capture = SourceTableCapture::new(relations, origins, SpoolOptions::default()).unwrap();
    capture.append_row(0).unwrap();
    capture.append_row(1).unwrap();
    let definitions = capture.finish().unwrap();
    let rows: Vec<(String, String, i32, String)> = definitions
        .iter()
        .map(|d| (d.origin_table.clone(), d.origin_field_path.clone(), d.enum_number, d.enum_symbol.clone()))
        .collect();
    let expected = vec![
        ("alpha", "mode", -1, "NEG"),
        ("alpha", "mode", 0, "ZERO"),
        ("alpha", "state", 5, "FIVE"),
        ("zeta", "kind", 1, "ONE"),
        ("zeta", "kind", 2, "TWO"),
    ];
    let expected: Vec<(String, String, i32, String)> = expected
        .into_iter()
        .map(|(a, b, c, d)| (a.to_owned(), b.to_owned(), c, d.to_owned()))
        .collect();
    assert_eq!(rows, expected);
    assert_eq!(definitions[0].enum_name, "Mode");
}

#[test]
fn provenance_rows_number_the_payloads() {
    let occurrence = profiler_payload_occurrence_spec();
    assert_eq!(occurrence.name, "profiler_payload_occurrence");
    let names: Vec<&str> = occurrence.columns.iter().map(|c| c.name.as_str()).collect();
    assert_eq!(
        names,
        vec!["_kat_row_id", "envelope_name", "status", "clock_id", "tv_sec", "tv_nsec", "version", "sample_interval"]
    );
    let symbols_table = protobuf_enum_symbol_spec();
    assert_eq!(symbols_table.name, "protobuf_enum_symbol");
    assert_eq!(symbols_table.columns.len(), 5);

    let layout = SourceTableLayout::from_generated(vec![relation("native_hook", vec![])], vec![]);
    let mut capture = ProfilerPayloadCapture::build(
        layout,
        SpoolOptions::default(),
        "ClockId".to_owned(),
        symbols(&[(0, "CLOCK_REALTIME"), (1, "CLOCK_MONOTONIC")]),
    )
    .unwrap();
    assert_eq!(capture.occurrence, 1);
    let envelope = EnvelopeFacts {
        envelope_name: "nativehook".to_owned(),
        status: 1,
        clock_id: 1,
        tv_sec: 2,
        tv_nsec: 3,
        version: "1.0".to_owned(),
        sample_interval: 0,
    };
    let first = capture.append_bound_payload(&envelope).unwrap();
    let second = capture.append_bound_payload(&envelope).unwrap();
    assert_eq!((first.row_id, second.row_id), (0, 1));
    assert_eq!(second.envelope_name, "nativehook");
    assert_eq!(second.tv_nsec, 3);
    let definitions = capture.capture.finish().unwrap();
    let clock_rows: Vec<(&str, &str, i32)> = definitions
        .iter()
        .map(|d| (d.origin_table.as_str(), d.origin_field_path.as_str(), d.enum_number))
        .collect();
    assert_eq!(
        clock_rows,
        vec![("profiler_payload_occurrence", "clock_id", 0), ("profiler_payload_occurrence", "clock_id", 1)]
    );
}

#[test]
fn text_ftrace_source_rows_are_numbered_per_cpu() {
    let mut index = TextFtraceSourceIndex::new(42);
    assert_eq!(index.root_row_id(), 42);
    assert_eq!(index.cpu_repeated_index(3), Ok(Some(0)));
    index.record_cpu(3, 100);
    assert_eq!(index.cpu_repeated_index(3), Ok(None));
    assert_eq!(index.cpu_repeated_index(1), Ok(Some(1)));
    index.record_cpu(1, 101);
    assert_eq!(index.next_event_index(3), Ok((100, 0)));
    assert_eq!(index.next_event_index(3), Ok((100, 1)));
    assert_eq!(index.next_event_index(1), Ok((101, 0)));
    assert_ne!(SourceIndexError::CpuIndexOverflow, SourceIndexError::EventIndexOverflow);
}

fn native_hook_capture() -> NativeHookSourceCapture {
    let layout = SourceTableLayout::from_generated(vec![relation("native_hook_event", vec![])], vec![]);
    let capture = ProfilerPayloadCapture::build(
        layout,
        SpoolOptions::default(),
        "ClockId".to_owned(),
        symbols(&[(7, "CLOCK_BOOTTIME")]),
    )
    .unwrap();
    NativeHookSourceCapture::new(capture)
}

fn facts(name: &str, clock_id: i32) -> EnvelopeFacts {
    EnvelopeFacts {
        envelope_name: name.to_owned(),
        status: 0,
        clock_id,
        tv_sec: 0,
        tv_nsec: 0,
        version: "1".to_owned(),
        sample_interval: 0,
    }
}

#[test]
fn native_hook_capture_takes_its_envelopes_and_checks_clocks() {
    let mut capture = native_hook_capture();
    assert_eq!(capture.try_claim("nativehook", EnvelopeKind::Data).unwrap(), Some(NativeHookRoot::BatchData));
    assert_eq!(capture.try_claim("hookdaemon_config", EnvelopeKind::Config).unwrap(), Some(NativeHookRoot::Config));
    assert_eq!(capture.try_claim("ftrace-plugin", EnvelopeKind::Data).unwrap(), None);
    assert_eq!(capture.bind_payload(&facts("nativehook_config", 7)).unwrap().row_id, 0);
    capture.observe_config("boot");
    assert_eq!(capture.bind_payload(&facts("nativehook", 7)).unwrap().row_id, 1);
    capture.observe_batch(3, 7);
    let definitions = capture.finish().unwrap();
    assert_eq!(definitions.len(), 1);
    assert_eq!(definitions[0].enum_symbol, "CLOCK_BOOTTIME");

    let mut mismatched = native_hook_capture();
    mismatched.observe_config("boot");
    mismatched.observe_batch(1, 1);
    assert!(matches!(
        mismatched.finish(),
        Err(NativeHookCaptureError::Clock(ClockAdmissionError::EnvelopeClockMismatch {
            config: NativeHookClock::Boot,
            observed: 1,
        }))
    ));

    let mut failed = native_hook_capture();
    failed.record_failure("payload does not decode".to_owned());
    assert!(matches!(failed.try_claim("nativehook", EnvelopeKind::Data), Err(NativeHookCaptureError::Poisoned)));
    assert!(matches!(failed.finish(), Err(NativeHookCaptureError::Poisoned)));
}

fn text_ftrace_capture() -> TextFtraceSourceCapture {
    let relations = vec![
        relation("trace_plugin_result", vec![]),
        relation("trace_plugin_config", vec![]),
        relation("trace_plugin_result_ftrace_cpu_detail", vec![]),
        relation("trace_plugin_result_ftrace_cpu_detail_event", vec![]),
    ];
    let capture = SourceTableCapture::new(relations, vec![], SpoolOptions::default()).unwrap();
    TextFtraceSourceCapture::new(capture, 0, 1, 2, 3).unwrap()
}

#[test]
fn text_ftrace_events_hang_under_their_cpu_detail_rows() {
    let mut capture = text_ftrace_capture();
    assert_eq!(capture.root_row_id(), 0);
    assert_eq!(capture.config_row_id(), 0);
    assert_eq!(
        capture.append_event(3).unwrap(),
        EventPlacement {
            cpu: 3,
            new_detail: Some(NewCpuDetail { repeated_index: 0, row_id: 0 }),
            detail_row_id: 0,
            event_index: 0,
            event_row_id: 0,
        }
    );
    assert_eq!(
        capture.append_event(1).unwrap(),
        EventPlacement {
            cpu: 1,
            new_detail: Some(NewCpuDetail { repeated_index: 1, row_id: 1 }),
            detail_row_id: 1,
            event_index: 0,
            event_row_id: 1,
        }
    );
    assert_eq!(
        capture.append_event(3).unwrap(),
        EventPlacement { cpu: 3, new_detail: None, detail_row_id: 0, event_index: 1, event_row_id: 2 }
    );
    assert_eq!(
        capture.append_event(3).unwrap(),
        EventPlacement { cpu: 3, new_detail: None, detail_row_id: 0, event_index: 2, event_row_id: 3 }
    );
    assert_eq!(
        capture.append_event(1).unwrap(),
        EventPlacement { cpu: 1, new_detail: None, detail_row_id: 1, event_index: 1, event_row_id: 4 }
    );
    assert!(capture.finish().unwrap().is_empty());
}

#[test]
fn a_text_ftrace_capture_needs_its_root_relations() {
    let relations = vec![relation("detail", vec![]), relation("event", vec![])];
    let capture = SourceTableCapture::new(relations, vec![], SpoolOptions::default()).unwrap();
    assert!(matches!(
        TextFtraceSourceCapture::new(capture, 5, 0, 0, 1),
        Err(CaptureError::MissingSlot { slot: 5 })
    ));
}

#[test]
fn decoded_text_ftrace_events_are_captured_in_order() {
    let input = "a-1 (1) [002] .... 1.0: cpu_idle: state=1 cpu_id=2\n\
                 b-2 (2) [000] .... 2.0: cpu_idle: state=1 cpu_id=0\n\
                 c-3 (3) [002] .... 3.0: cpu_idle: state=4294967295 cpu_id=2\n";
    let (events, _) = decode_reader(input.as_bytes()).unwrap();
    assert_eq!(events.len(), 3);
    let mut capture = text_ftrace_capture();
    let placements = capture.capture_events(&events).unwrap();
    let rows: Vec<(u32, Option<u64>, u64, u64, u64)> = placements
        .iter()
        .map(|p| (p.cpu, p.new_detail.map(|d| d.repeated_index), p.detail_row_id, p.event_index, p.event_row_id))
        .collect();
    assert_eq!(rows, vec![(2, Some(0), 0, 0, 0), (0, Some(1), 1, 0, 1), (2, None, 0, 1, 2)]);
}
