use kat_datasource::cells::{project_cell, CellError, CellPart, ColumnProjection, ColumnSpec, ColumnType, EnumValue, Expected, OneofVariantName};
use kat_datasource::row_sources::{PayloadField, PayloadValue};

fn object(fields: Vec<(&str, PayloadValue)>) -> PayloadValue {
    PayloadValue::Object(fields.into_iter().map(|(n, v)| PayloadField { name: n.to_owned(), value: v }).collect())
}

fn column(name: &str, column_type: ColumnType, projection: ColumnProjection) -> ColumnSpec {
    ColumnSpec { name: name.to_owned(), source_name: name.to_owned(), column_type, projection }
}

fn part_text(p: &CellPart) -> String {
    match p {
        CellPart::StructValid => "valid".to_owned(),
        CellPart::StructNull => "struct-null".to_owned(),
        CellPart::Null => "null".to_owned(),
        CellPart::U32(x) => format!("u32 {x}"),
        CellPart::Text(t) => format!("text {t}"),
        other => format!("{other:?}"),
    }
}

#[test]
fn cells_project_enums_oneofs_nulls_and_structs() {
    let states = vec![
        EnumValue { name: "IDLE".to_owned(), number: 0 },
        EnumValue { name: "RUNNING".to_owned(), number: 1 },
    ];
    let task = column(
        "task",
        ColumnType::Struct(vec![
            column("cpu", ColumnType::U32, ColumnProjection::Direct),
            column("name", ColumnType::String, ColumnProjection::Direct),
            column("state", ColumnType::String, ColumnProjection::EnumName(states)),
        ]),
        ColumnProjection::Direct,
    );
    let value = object(vec![
        ("cpu", PayloadValue::U64(3)),
        ("name", PayloadValue::String("x".to_owned())),
        ("state", PayloadValue::I64(1)),
    ]);
    let (parts, bytes) = project_cell(&value, &task).unwrap();
    let shown: Vec<String> = parts.iter().map(part_text).collect();
    assert_eq!(shown, vec!["valid", "u32 3", "text x", "text RUNNING"]);
    assert_eq!(bytes, 32 + 36 + 33 + 39);
    let (parts, bytes) = project_cell(&PayloadValue::Null, &task).unwrap();
    let shown: Vec<String> = parts.iter().map(part_text).collect();
    assert_eq!(shown, vec!["struct-null", "null", "null", "null"]);
    assert_eq!(bytes, 32);
    let u32_column = column("cpu", ColumnType::U32, ColumnProjection::Direct);
    assert_eq!(
        project_cell(&PayloadValue::I64(-1), &u32_column).unwrap_err(),
        CellError::ExpectedValue { expected: Expected::U32 }
    );
    let misprojected = column("state", ColumnType::I32, ColumnProjection::EnumName(vec![]));
    assert_eq!(
        project_cell(&PayloadValue::I64(1), &misprojected).unwrap_err(),
        CellError::IncompatibleBuilder { column: "state".to_owned() }
    );
    let variants = vec![OneofVariantName { field_name: "sched_switch".to_owned(), serialized_name: "SchedSwitch".to_owned() }];
    let oneof = column("payload", ColumnType::String, ColumnProjection::OneofName(variants));
    let (parts, bytes) = project_cell(&object(vec![("SchedSwitch", PayloadValue::Null)]), &oneof).unwrap();
    assert_eq!(parts.iter().map(part_text).collect::<Vec<_>>(), vec!["text sched_switch"]);
    assert_eq!(bytes, 44);
}
