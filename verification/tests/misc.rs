use kat_datasource::row_sources::{row_sources, ParentIndex, PayloadField, PayloadValue, RowSourceError};
use kat_datasource::plan::{expansion_plan_for_roots, ExpansionRule, FieldDescriptor, FieldLabel, FieldType, MessageDescriptor, PlanError};
use kat_datasource::protobuf_source::native_hook::{
    native_hook_root, parse_clock, remember_first_difference, ClockAdmissionError, EnvelopeKind,
    NativeHookClock, NativeHookClockAdmission, NativeHookRoot,
};
use kat_datasource::relational::{snake_to_upper_camel, table_name, upper_camel_to_snake};
use kat_datasource::trace_streamer::{
    cell_conversion, check_read_shape, exact_as_real, CellConversion, ReadShapeError, StorageClass,
    declared_type, quote_identifier, quote_string, relation_names, type_relation, ColumnType,
    RelationError, RelationListing,
};

fn strings(v: &[&str]) -> Vec<String> {
    v.iter().map(|s| s.to_string()).collect()
}

#[test]
fn sql_quoting_doubles_the_quote_character() {
    assert_eq!(quote_identifier("a\"b"), "\"a\"\"b\"");
    assert_eq!(quote_identifier(""), "\"\"");
    assert_eq!(quote_string("it's"), "'it''s'");
    assert_eq!(quote_string("plain"), "'plain'");
}

#[test]
fn relations_of_the_main_schema_in_name_order() {
    let listing = |schema: &str, name: &str, kind: &str| RelationListing {
        schema: schema.to_owned(),
        name: name.to_owned(),
        relation_type: kind.to_owned(),
    };
    let rows = vec![
        listing("main", "thread", "table"),
        listing("main", "sqlite_schema", "table"),
        listing("temp", "scratch", "table"),
        listing("main", "v_view", "view"),
        listing("main", "cpu", "table"),
    ];
    assert_eq!(relation_names(&rows), ["cpu", "thread"]);
}

#[test]
fn declared_types_and_relation_columns() {
    assert!(declared_type(" integer ") == Some(ColumnType::Integer));
    assert!(declared_type("Int") == Some(ColumnType::Integer));
    assert!(declared_type("REAL") == Some(ColumnType::Real));
    assert!(declared_type("text") == Some(ColumnType::Text));
    assert!(declared_type("BLOB").is_none());
    let types = match type_relation("thread", &strings(&["id", "name"]), &strings(&["INT", "TEXT"])) {
        Ok(t) => t,
        Err(_) => panic!("relation types"),
    };
    assert!(types == vec![ColumnType::Integer, ColumnType::Text]);
    assert!(matches!(
        type_relation("thread", &strings(&["id", "x", "id"]), &strings(&["INT", "BLOB", "INT"])),
        Err(RelationError::UnsupportedDeclaredType { column, .. }) if column == "x"
    ));
    assert!(matches!(
        type_relation("thread", &strings(&["id", "id", "x"]), &strings(&["INT", "INT", "BLOB"])),
        Err(RelationError::DuplicateColumn { column, .. }) if column == "id"
    ));
    assert!(matches!(type_relation("thread", &vec![], &vec![]), Err(RelationError::NoColumns { .. })));
    assert!(matches!(type_relation("Thread", &vec![], &vec![]), Err(RelationError::InvalidRelationName { .. })));
}

#[test]
fn field_name_spellings() {
    assert_eq!(snake_to_upper_camel("sched_switch_format"), "SchedSwitchFormat");
    assert_eq!(snake_to_upper_camel("__a__b_"), "AB");
    assert_eq!(upper_camel_to_snake("SchedSwitchFormat"), "sched_switch_format");
    assert_eq!(upper_camel_to_snake("already_snake"), "already_snake");
    assert_eq!(upper_camel_to_snake("aB"), "a_b");
}

#[test]
fn table_names_come_from_heck_snake_case() {
    let path = strings(&["EventData", "oneofGroup", "allocEvent"]);
    assert_eq!(table_name("BatchNativeHookData", &path, &vec![false, true, false]), "batch_native_hook_data_event_data_alloc_event");
    assert_eq!(table_name("HTTPServer", &vec![], &vec![]), "http_server");
}

#[test]
fn envelope_routes_and_config_clocks() {
    assert!(native_hook_root("nativehook", EnvelopeKind::Data) == Some(NativeHookRoot::BatchData));
    assert!(native_hook_root("hookdaemon_config", EnvelopeKind::Config) == Some(NativeHookRoot::Config));
    assert!(native_hook_root("nativehook", EnvelopeKind::Config).is_none());
    assert!(parse_clock("") == Some(NativeHookClock::Realtime));
    assert!(parse_clock("mono_raw") == Some(NativeHookClock::MonoRaw));
    assert!(parse_clock("tai").is_none());
    assert_eq!(NativeHookClock::Boot.config_name(), "boot");
    assert_eq!(NativeHookClock::Boot.envelope_clock(), 7);
}

#[test]
fn remembering_keeps_the_first_and_the_first_difference() {
    let mut first = None;
    let mut different = None;
    for observed in [5, 5, 6, 7, 5] {
        remember_first_difference(&mut first, &mut different, observed);
    }
    assert_eq!(first, Some(5));
    assert_eq!(different, Some(6));
}

#[test]
fn clock_admission() {
    let mut idle = NativeHookClockAdmission::new();
    idle.observe_batch(0, 3);
    assert!(idle.validate().is_ok());

    let mut ok = NativeHookClockAdmission::new();
    ok.observe_config("mono");
    ok.observe_batch(2, 1);
    assert!(ok.validate().is_ok());

    let mut missing = NativeHookClockAdmission::new();
    missing.observe_batch(1, 1);
    assert!(matches!(missing.validate(), Err(ClockAdmissionError::MissingConfigClock)));

    let mut unknown = NativeHookClockAdmission::new();
    unknown.observe_batch(1, 1);
    unknown.observe_config("tai");
    unknown.observe_config("other");
    assert!(matches!(unknown.validate(), Err(ClockAdmissionError::UnsupportedConfigClock { clock }) if clock == "tai"));

    let mut conflict = NativeHookClockAdmission::new();
    conflict.observe_batch(1, 1);
    conflict.observe_config("mono");
    conflict.observe_config("boot");
    assert!(matches!(
        conflict.validate(),
        Err(ClockAdmissionError::ConflictingConfigClocks { first: NativeHookClock::Mono, second: NativeHookClock::Boot })
    ));

    let mut mismatch = NativeHookClockAdmission::new();
    mismatch.observe_config("boot");
    mismatch.observe_batch(1, 7);
    mismatch.observe_batch(1, 1);
    assert!(matches!(
        mismatch.validate(),
        Err(ClockAdmissionError::EnvelopeClockMismatch { config: NativeHookClock::Boot, observed: 1 })
    ));
}

#[test]
fn field_names_survive_a_round_trip_through_upper_camel() {
    for name in ["pid", "cpu_detail_event", "tv_nsec", "x1_y2"] {
        let camel = snake_to_upper_camel(name);
        assert_eq!(upper_camel_to_snake(&camel), name);
    }
    assert_eq!(snake_to_upper_camel("cpu_detail_event"), "CpuDetailEvent");
}

#[test]
fn a_read_must_expose_the_declared_columns_in_order() {
    let declared = vec!["ts".to_owned(), "name".to_owned()];
    assert!(check_read_shape("thread", &declared, &declared.clone()).is_ok());
    match check_read_shape("thread", &declared, &vec!["ts".to_owned()]) {
        Err(ReadShapeError::ColumnCount { relation, declared, readable }) => {
            assert_eq!(relation, "thread");
            assert_eq!((declared, readable), (2, 1));
        }
        other => panic!("unexpected {other:?}"),
    }
    match check_read_shape("thread", &declared, &vec!["ts".to_owned(), "tid".to_owned()]) {
        Err(ReadShapeError::ColumnName { relation, index, declared, readable }) => {
            assert_eq!(relation, "thread");
            assert_eq!(index, 1);
            assert_eq!(declared, "name");
            assert_eq!(readable, "tid");
        }
        other => panic!("unexpected {other:?}"),
    }
}

fn field(name: &str, label: FieldLabel, field_type: FieldType, oneof: Option<&str>) -> FieldDescriptor {
    FieldDescriptor { name: name.to_owned(), label, field_type, oneof_name: oneof.map(str::to_owned) }
}

fn message(name: &str, fields: Vec<FieldDescriptor>) -> MessageDescriptor {
    MessageDescriptor { name: name.to_owned(), fields }
}

fn descriptors() -> Vec<MessageDescriptor> {
    vec![
        message(
            "TraceEvent",
            vec![
                field("tags", FieldLabel::Repeated, FieldType::Scalar, None),
                field("frames", FieldLabel::Repeated, FieldType::Message("Frame".to_owned()), None),
                field("sched", FieldLabel::Optional, FieldType::Message("Sched".to_owned()), Some("payload")),
                field("header", FieldLabel::Optional, FieldType::Message("Header".to_owned()), None),
            ],
        ),
        message("Frame", vec![field("pc", FieldLabel::Optional, FieldType::Scalar, None)]),
        message("Sched", vec![field("cpus", FieldLabel::Repeated, FieldType::Scalar, None)]),
        message("Header", vec![field("labels", FieldLabel::Repeated, FieldType::Scalar, None)]),
    ]
}

#[test]
fn the_plan_has_a_table_per_repeated_field_and_oneof_variant() {
    let plan = expansion_plan_for_roots(&descriptors(), &vec!["TraceEvent".to_owned()]).unwrap();
    let rows: Vec<(ExpansionRule, String, String, Option<String>, Vec<String>)> = plan
        .iter()
        .map(|i| (i.rule, i.source_message.clone(), i.output_table.clone(), i.parent_table.clone(), i.source_path.clone()))
        .collect();
    let s = |v: &str| v.to_owned();
    assert_eq!(
        rows,
        vec![
            (ExpansionRule::RootRecord, s("TraceEvent"), s("trace_event"), None, vec![]),
            (ExpansionRule::RepeatedScalar, s("TraceEvent"), s("trace_event_tags"), Some(s("trace_event")), vec![s("tags")]),
            (ExpansionRule::RepeatedMessage, s("Frame"), s("trace_event_frames"), Some(s("trace_event")), vec![s("frames")]),
            (
                ExpansionRule::OneofVariant,
                s("TraceEvent"),
                s("trace_event_sched"),
                Some(s("trace_event")),
                vec![s("payload"), s("sched")]
            ),
            (
                ExpansionRule::RepeatedScalar,
                s("Sched"),
                s("trace_event_sched_cpus"),
                Some(s("trace_event_sched")),
                vec![s("payload"), s("sched"), s("cpus")]
            ),
            (
                ExpansionRule::RepeatedScalar,
                s("Header"),
                s("trace_event_header_labels"),
                Some(s("trace_event")),
                vec![s("header"), s("labels")]
            ),
        ]
    );
    assert!(matches!(
        expansion_plan_for_roots(&descriptors(), &vec!["Missing".to_owned()]),
        Err(PlanError::MissingRoot { .. })
    ));
    let broken = vec![message("Root", vec![field("child", FieldLabel::Optional, FieldType::Message("Gone".to_owned()), None)])];
    match expansion_plan_for_roots(&broken, &vec!["Root".to_owned()]) {
        Err(PlanError::MissingDescriptor { message, referenced_by, field }) => {
            assert_eq!((message.as_str(), referenced_by.as_str(), field.as_str()), ("Gone", "Root", "child"));
        }
        other => panic!("unexpected {other:?}"),
    }
}

fn object(fields: Vec<(&str, PayloadValue)>) -> PayloadValue {
    PayloadValue::Object(fields.into_iter().map(|(n, v)| PayloadField { name: n.to_owned(), value: v }).collect())
}

#[test]
fn rows_come_from_each_repeated_value_with_their_parent_row() {
    let payload = object(vec![(
        "events",
        PayloadValue::Array(vec![
            object(vec![("Args", PayloadValue::Array(vec![PayloadValue::U64(1), PayloadValue::U64(2)]))]),
            object(vec![("args", PayloadValue::Null)]),
        ]),
    )]);
    let path = vec!["events".to_owned(), "args".to_owned()];
    let parents = vec![Some("root".to_owned()), Some("events_t".to_owned())];
    let indexes = vec![
        ParentIndex { table: "root".to_owned(), entries: vec![(vec![], 100)] },
        ParentIndex { table: "events_t".to_owned(), entries: vec![(vec![0], 7)] },
    ];
    let rows = row_sources(&path, &parents, &indexes, &payload).unwrap();
    let seen: Vec<(Option<u64>, Vec<usize>, bool)> = rows
        .iter()
        .map(|r| (r.parent_index, r.ordinals.clone(), matches!(r.value, PayloadValue::U64(_))))
        .collect();
    assert_eq!(seen, vec![(Some(7), vec![0, 0], true), (Some(7), vec![0, 1], true)]);
    let scalar = object(vec![("x", PayloadValue::U64(3))]);
    match row_sources(&vec!["x".to_owned(), "y".to_owned()], &vec![], &vec![], &scalar) {
        Err(RowSourceError::ScalarBeforePathEnd { segment }) => assert_eq!(segment, "x"),
        other => panic!("unexpected {other:?}"),
    }
    let whole = row_sources(&vec![], &vec![], &vec![], &scalar).unwrap();
    assert_eq!((whole.len(), whole[0].parent_index, whole[0].ordinals.len()), (1, None, 0));
}

#[test]
fn integers_convert_to_reals_only_when_exact() {
    assert!(exact_as_real(0));
    assert!(exact_as_real(1 << 53));
    assert!(exact_as_real(-(1 << 53)));
    assert!(!exact_as_real((1 << 53) + 1));
    assert!(exact_as_real(((1 << 53) - 1) << 10));
    assert!(!exact_as_real(i64::MAX));
    assert!(exact_as_real(i64::MIN));
    assert!(!exact_as_real(i64::MIN + 1));
    assert_eq!(((1i64 << 53) as f64) as i64, 1 << 53);
}

#[test]
fn cells_go_into_columns_of_their_storage_class() {
    assert_eq!(cell_conversion(ColumnType::Integer, StorageClass::Null), CellConversion::Null);
    assert_eq!(cell_conversion(ColumnType::Text, StorageClass::Null), CellConversion::Null);
    assert_eq!(cell_conversion(ColumnType::Integer, StorageClass::Integer), CellConversion::Integer);
    assert_eq!(cell_conversion(ColumnType::Real, StorageClass::Integer), CellConversion::IntegerAsReal);
    assert_eq!(cell_conversion(ColumnType::Real, StorageClass::Real), CellConversion::Real);
    assert_eq!(cell_conversion(ColumnType::Text, StorageClass::Text), CellConversion::Text);
    assert_eq!(cell_conversion(ColumnType::Integer, StorageClass::Real), CellConversion::Mismatch);
    assert_eq!(cell_conversion(ColumnType::Text, StorageClass::Blob), CellConversion::Mismatch);
    assert_eq!(StorageClass::Blob.name(), "BLOB");
    assert_eq!(StorageClass::Integer.name(), "INTEGER");
}
