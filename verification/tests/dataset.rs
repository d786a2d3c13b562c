use std::path::PathBuf;

use kat_datasource::dataset::bindings::{validate_binding_records, validate_bindings, BindingRecord};
use kat_datasource::dataset::inspection::{ColumnInspection, DatasetBindingKind};
use kat_datasource::dataset::names::{
    is_windows_device_name, valid_pack_name, valid_table_name, validate_binding_identity,
    validate_materialized_table_names, BindingError,
};
use kat_datasource::dataset::resolved::{DatasetTargetInspection, ResolvedSource};
use kat_datasource::dataset::resolver::{valid_dataset_name, DatasetLocator, DatasetStore};
use kat_datasource::dataset::target::{
    find_resolved_binding, reject_collision, replace_binding, DatasetWriteTarget, ExistingContents,
    TableError, TableRegistry,
};
use kat_datasource::dataset::validated::{validated_source, inspect_existing_target, resolve_dataset, ValidatedSource, ValidatedTable};

fn chars(s: &str) -> Vec<char> {
    s.chars().collect()
}

fn names(v: &[&str]) -> Vec<String> {
    v.iter().map(|s| s.to_string()).collect()
}

fn record(kind: DatasetBindingKind, pack: &str, source: &str, tables: &[&str]) -> BindingRecord {
    BindingRecord {
        kind,
        pack: pack.to_owned(),
        source: source.to_owned(),
        arguments: vec!["--flag".to_owned()],
        working_directory: "/work".to_owned(),
        tables: names(tables),
    }
}

#[test]
fn table_and_pack_names() {
    assert!(valid_table_name(&chars("sched_switch")));
    assert!(valid_table_name(&chars("a1_b2")));
    assert!(!valid_table_name(&chars("")));
    assert!(!valid_table_name(&chars("_x")));
    assert!(!valid_table_name(&chars("x_")));
    assert!(!valid_table_name(&chars("a__b")));
    assert!(!valid_table_name(&chars("1abc")));
    assert!(!valid_table_name(&chars("Abc")));
    assert!(!valid_table_name(&chars("com1")));
    assert!(valid_table_name(&chars("com0")));
    assert!(valid_pack_name(&chars("my-pack2")));
    assert!(valid_pack_name(&chars("2pack")));
    assert!(!valid_pack_name(&chars("my_pack")));
    assert!(!valid_pack_name(&chars("nul")));
    assert!(is_windows_device_name(&chars("lpt9")));
    assert!(!is_windows_device_name(&chars("lpt10")));
}

#[test]
fn binding_identity_rules() {
    assert!(validate_binding_identity("pack", "source").is_ok());
    assert!(matches!(validate_binding_identity("Pack", "source"), Err(BindingError::InvalidPackName { name }) if name == "Pack"));
    assert!(matches!(validate_binding_identity("pack", "dataset"), Err(BindingError::InvalidSourceName { name }) if name == "dataset"));
    assert!(matches!(
        validate_binding_identity("pack", "information_schema"),
        Err(BindingError::InvalidSourceName { .. })
    ));
}

#[test]
fn materialized_table_names_are_sorted_and_checked_in_order() {
    let sorted = match validate_materialized_table_names(&names(&["zeta", "alpha", "mid"])) {
        Ok(v) => v,
        Err(_) => panic!("names are valid"),
    };
    assert_eq!(sorted, ["alpha", "mid", "zeta"]);
    assert!(matches!(validate_materialized_table_names(&Vec::new()), Err(BindingError::EmptyMaterializedTables)));
    assert!(matches!(
        validate_materialized_table_names(&names(&["b", "Z9", "a", "B"])),
        Err(BindingError::InvalidTableName { name }) if name == "B"
    ));
    assert!(matches!(
        validate_materialized_table_names(&names(&["x", "b", "x", "b"])),
        Err(BindingError::DuplicateTableName { name }) if name == "b"
    ));
}

#[test]
fn bindings_are_validated_in_file_order_and_sorted_by_identity() {
    let records = vec![
        record(DatasetBindingKind::Materialized, "zpack", "src", &["t2", "t1"]),
        record(DatasetBindingKind::External, "apack", "zsrc", &[]),
        record(DatasetBindingKind::External, "apack", "asrc", &[]),
    ];
    let sorted = match validate_binding_records(records, &vec![true, true, true]) {
        Ok(v) => v,
        Err(_) => panic!("bindings are valid"),
    };
    let identities: Vec<(String, String)> = sorted.iter().map(|b| (b.pack.clone(), b.source.clone())).collect();
    assert_eq!(
        identities,
        [("apack".to_owned(), "asrc".to_owned()), ("apack".to_owned(), "zsrc".to_owned()), ("zpack".to_owned(), "src".to_owned())]
    );
    assert_eq!(sorted[2].tables, ["t1", "t2"]);

    let duplicate = vec![
        record(DatasetBindingKind::External, "p", "s", &[]),
        record(DatasetBindingKind::External, "p", "s", &[]),
    ];
    assert!(matches!(
        validate_binding_records(duplicate, &vec![true, true]),
        Err(BindingError::DuplicateBinding { pack, source_name }) if pack == "p" && source_name == "s"
    ));
    let relative = vec![record(DatasetBindingKind::External, "p", "s", &[])];
    assert!(matches!(
        validate_binding_records(relative, &vec![false]),
        Err(BindingError::RelativeWorkingDirectory { path }) if path == "/work"
    ));
    let empty_tables = vec![
        record(DatasetBindingKind::External, "p", "bad name", &[]),
        record(DatasetBindingKind::Materialized, "p", "s", &[]),
    ];
    assert!(matches!(
        validate_binding_records(empty_tables, &vec![true, true]),
        Err(BindingError::InvalidSourceName { .. })
    ));
}

#[test]
fn replacing_a_binding_keeps_the_others_in_order() {
    let records = vec![
        record(DatasetBindingKind::External, "a", "one", &[]),
        record(DatasetBindingKind::External, "b", "two", &[]),
        record(DatasetBindingKind::External, "a", "three", &[]),
    ];
    let replaced = replace_binding(records, record(DatasetBindingKind::Materialized, "b", "two", &["t"]));
    let identities: Vec<String> = replaced.iter().map(|b| format!("{}/{}", b.pack, b.source)).collect();
    assert_eq!(identities, ["a/one", "a/three", "b/two"]);
    assert!(replaced[2].kind == DatasetBindingKind::Materialized);
}

#[test]
fn collisions_need_explicit_replacement() {
    assert!(reject_collision(None, "p", "s", false).is_ok());
    assert!(reject_collision(Some(DatasetBindingKind::External), "p", "s", true).is_ok());
    match reject_collision(Some(DatasetBindingKind::Materialized), "p", "s", false) {
        Err(e) => {
            assert_eq!(e.pack, "p");
            assert_eq!(e.source_name, "s");
            assert!(e.kind == DatasetBindingKind::Materialized);
        }
        Ok(()) => panic!("collision is rejected"),
    }
    assert_eq!(DatasetBindingKind::External.as_str(), "external");
    assert_eq!(DatasetBindingKind::Materialized.as_str(), "materialized");
}

#[test]
fn tables_are_registered_once_with_distinct_columns() {
    let mut registry = TableRegistry::new();
    assert!(registry.begin_table("clock_domain", &names(&["clock_domain", "clock_type"])).is_ok());
    assert!(registry.begin_table("a_table", &names(&["x"])).is_ok());
    assert_eq!(*registry.names(), ["a_table", "clock_domain"]);
    assert!(matches!(registry.begin_table("clock_domain", &names(&["x"])), Err(TableError::DuplicateTable { .. })));
    assert!(matches!(registry.begin_table("Bad", &names(&["x"])), Err(TableError::InvalidTableName { .. })));
    match registry.begin_table("t", &names(&["a", "b", "c", "b", "a"])) {
        Err(TableError::DuplicateColumn { table, column }) => {
            assert_eq!(table, "t");
            assert_eq!(column, "b");
        }
        _ => panic!("expected a duplicate column"),
    }
    assert_eq!(registry.names().len(), 2);
}

#[test]
fn write_targets_record_their_permission() {
    let target = DatasetWriteTarget::write_to_empty(PathBuf::from("/tmp/out"));
    assert!(target.existing_contents() == ExistingContents::Reject);
    let target = DatasetWriteTarget::permanently_replace_all_contents(PathBuf::from("/tmp/out"))
        .protect_path(PathBuf::from("/tmp/out/keep"));
    assert!(target.existing_contents() == ExistingContents::PermanentlyClear);
    assert_eq!(target.protected_paths().len(), 1);
    assert_eq!(target.path(), &PathBuf::from("/tmp/out"));
}

#[test]
fn dataset_names_and_locators() {
    assert!(valid_dataset_name("default"));
    assert!(!valid_dataset_name(""));
    assert!(!valid_dataset_name(".."));
    assert!(!valid_dataset_name("a/b"));
    assert!(!valid_dataset_name("a\\b"));
    let store = DatasetStore::from_datasets_dir(PathBuf::from("/data/datasets"));
    assert_eq!(store.datasets_dir(), &PathBuf::from("/data/datasets"));
    let named = store.resolve(&DatasetLocator::Name("mine".to_owned())).ok().unwrap();
    assert_eq!(named.name.as_deref(), Some("mine"));
    assert_eq!(named.path, PathBuf::from("/data/datasets").join("mine"));
    let default = store.resolve(&DatasetLocator::Default).ok().unwrap();
    assert_eq!(default.name.as_deref(), Some("default"));
    let explicit = store.resolve(&DatasetLocator::Path(PathBuf::from("/x"))).ok().unwrap();
    assert_eq!(explicit.path, PathBuf::from("/x"));
    assert!(explicit.name.is_none());
    assert!(store.resolve(&DatasetLocator::Name("..".to_owned())).is_err());
}

#[test]
fn resolution_projects_each_binding() {
    let sources = vec![
        ValidatedSource::External {
            pack: "p".to_owned(),
            source: "ext".to_owned(),
            arguments: vec!["a".to_owned()],
            working_directory: PathBuf::from("/w"),
        },
        ValidatedSource::Materialized {
            pack: "p".to_owned(),
            source: "mat".to_owned(),
            arguments: vec![],
            working_directory: PathBuf::from("/w2"),
            tables: vec![ValidatedTable {
                name: "t".to_owned(),
                path: PathBuf::from("/d/t.parquet"),
                columns: vec![ColumnInspection::new("c".to_owned(), "Int64".to_owned(), true)],
            }],
        },
    ];
    let resolved = resolve_dataset(PathBuf::from("/d"), sources);
    assert_eq!(resolved.sources().len(), 2);
    assert_eq!(resolved.sources()[0].source(), "ext");
    assert!(resolved.sources()[0].kind() == DatasetBindingKind::External);
    assert!(resolved.sources()[0].tables().is_none());
    assert_eq!(resolved.sources()[1].arguments().unwrap().len(), 0);
    let tables = resolved.sources()[1].tables().unwrap();
    assert_eq!(tables[0].name(), "t");
    assert_eq!(tables[0].path(), &PathBuf::from("/d/t.parquet"));
}

#[test]
fn target_inspection_finds_the_binding_of_an_identity() {
    let list = vec![
        ResolvedSource::External {
            pack: "p".to_owned(),
            source: "a".to_owned(),
            arguments: vec![],
            working_directory: PathBuf::from("/w"),
        },
        ResolvedSource::Materialized {
            pack: "p".to_owned(),
            source: "b".to_owned(),
            arguments: vec![],
            working_directory: PathBuf::from("/w"),
            tables: vec![],
        },
    ];
    assert_eq!(find_resolved_binding(&list, "p", "b"), Some(1));
    assert_eq!(find_resolved_binding(&list, "q", "b"), None);
    let mut list = list;
    let found = list.remove(1);
    let target = DatasetTargetInspection::existing(PathBuf::from("/d"), Some(found));
    assert!(target.target_exists());
    assert!(target.binding() == Some(DatasetBindingKind::Materialized));
    assert_eq!(target.resolved_binding().unwrap().source(), "b");
    let missing = DatasetTargetInspection::missing(PathBuf::from("/new"));
    assert!(!missing.target_exists());
    assert!(missing.binding().is_none());
}

#[test]
fn bindings_from_metadata_need_absolute_working_directories() {
    let mut relative = record(DatasetBindingKind::External, "pack", "alpha", &[]);
    relative.working_directory = "relative/dir".to_owned();
    match validate_bindings(vec![relative]) {
        Err(BindingError::RelativeWorkingDirectory { path }) => assert_eq!(path, "relative/dir"),
        other => panic!("unexpected {other:?}"),
    }
    let sorted = validate_bindings(vec![
        record(DatasetBindingKind::External, "pack", "beta", &[]),
        record(DatasetBindingKind::Materialized, "pack", "alpha", &["zeta", "eta"]),
    ])
    .unwrap();
    assert_eq!(sorted[0].source, "alpha");
    assert_eq!(sorted[0].tables, vec!["eta".to_owned(), "zeta".to_owned()]);
    assert_eq!(sorted[1].source, "beta");
}

fn external(pack: &str, source: &str, argument: &str) -> ValidatedSource {
    ValidatedSource::External {
        pack: pack.to_owned(),
        source: source.to_owned(),
        arguments: vec![argument.to_owned()],
        working_directory: PathBuf::from("/work"),
    }
}

#[test]
fn a_target_inspection_finds_the_resolved_binding_of_its_identity() {
    let sources = || vec![external("alpha", "one", "--a"), external("beta", "two", "--b")];
    let target = inspect_existing_target(PathBuf::from("/data"), sources(), "beta", "two");
    assert!(target.target_exists());
    assert_eq!(target.binding(), Some(DatasetBindingKind::External));
    let binding = target.resolved_binding().unwrap();
    assert_eq!((binding.pack(), binding.source()), ("beta", "two"));
    assert_eq!(binding.arguments().unwrap(), &["--b".to_owned()][..]);
    let resolved = resolve_dataset(PathBuf::from("/data"), sources());
    assert_eq!(resolved.sources()[1].arguments(), binding.arguments());
    let absent = inspect_existing_target(PathBuf::from("/data"), sources(), "beta", "three");
    assert!(absent.target_exists());
    assert_eq!(absent.binding(), None);
    assert!(absent.resolved_binding().is_none());
}

#[test]
fn a_validated_binding_resolves_with_its_recipe_and_tables() {
    let record = record(DatasetBindingKind::Materialized, "pack", "alpha", &["eta", "zeta"]);
    let tables = vec![
        ValidatedTable { name: "eta".to_owned(), path: PathBuf::from("/d/eta.parquet"), columns: vec![] },
        ValidatedTable { name: "zeta".to_owned(), path: PathBuf::from("/d/zeta.parquet"), columns: vec![] },
    ];
    let source = validated_source(record, PathBuf::from("/work"), tables);
    let resolved = resolve_dataset(PathBuf::from("/d"), vec![source]);
    let only = &resolved.sources()[0];
    assert_eq!(only.kind(), DatasetBindingKind::Materialized);
    let names: Vec<&str> = only.tables().unwrap().iter().map(|t| t.name()).collect();
    assert_eq!(names, vec!["eta", "zeta"]);
    assert_eq!(only.working_directory(), Some(&PathBuf::from("/work")));
}

#[test]
fn a_written_binding_resolves_with_its_arguments_and_the_others_stay() {
    let records = vec![
        record(DatasetBindingKind::External, "a", "one", &[]),
        record(DatasetBindingKind::External, "b", "two", &[]),
    ];
    let mut new = record(DatasetBindingKind::External, "a", "one", &[]);
    new.arguments = vec!["--rate".to_owned(), "10".to_owned()];
    let written = replace_binding(records, new);
    let validated = validate_binding_records(written, &vec![true, true]).unwrap();
    let sources: Vec<ValidatedSource> = validated
        .into_iter()
        .map(|r| validated_source(r, PathBuf::from("/work"), vec![]))
        .collect();
    let resolved = resolve_dataset(PathBuf::from("/d"), sources);
    let found: Vec<(String, String, Vec<String>)> = resolved
        .sources()
        .iter()
        .map(|s| (s.pack().to_owned(), s.source().to_owned(), s.arguments().unwrap().to_vec()))
        .collect();
    assert_eq!(
        found,
        vec![
            ("a".to_owned(), "one".to_owned(), vec!["--rate".to_owned(), "10".to_owned()]),
            ("b".to_owned(), "two".to_owned(), vec!["--flag".to_owned()]),
        ]
    );
}
