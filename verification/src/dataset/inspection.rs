//! What inspecting and resolving a dataset reports.
use vstd::prelude::*;
use std::path::PathBuf;

verus! {

/// Whether a source is bound to an external recipe or to tables stored in
/// the dataset.
#[derive(Debug, Clone, Copy, PartialEq, Eq, Structural)]
pub enum DatasetBindingKind {
    External,
    Materialized,
}

impl DatasetBindingKind {
    pub open spec fn spec_as_str(self) -> Seq<char> {
        match self {
            DatasetBindingKind::External => "external"@,
            DatasetBindingKind::Materialized => "materialized"@,
        }
    }

    pub fn as_str(self) -> (r: &'static str)
        ensures
            r@ == self.spec_as_str(),
    {
        match self {
            DatasetBindingKind::External => "external",
            DatasetBindingKind::Materialized => "materialized",
        }
    }
}

/// A top-level column of a stored table.
#[derive(Debug)]
pub struct ColumnInspection {
    name: String,
    data_type: String,
    nullable: bool,
}

impl ColumnInspection {
    pub closed spec fn spec_name(&self) -> Seq<char> {
        self.name@
    }

    pub closed spec fn spec_data_type(&self) -> Seq<char> {
        self.data_type@
    }

    pub closed spec fn spec_nullable(&self) -> bool {
        self.nullable
    }

    pub fn new(name: String, data_type: String, nullable: bool) -> (r: Self)
        ensures
            r.spec_name() == name@,
            r.spec_data_type() == data_type@,
            r.spec_nullable() == nullable,
    {
        ColumnInspection { name, data_type, nullable }
    }

    pub fn name(&self) -> (r: &str)
        ensures
            r@ == self.spec_name(),
    {
        self.name.as_str()
    }

    pub fn data_type(&self) -> (r: &str)
        ensures
            r@ == self.spec_data_type(),
    {
        self.data_type.as_str()
    }

    pub fn nullable(&self) -> (r: bool)
        ensures
            r == self.spec_nullable(),
    {
        self.nullable
    }
}

/// A stored table and its columns.
#[derive(Debug)]
pub struct TableInspection {
    name: String,
    columns: Vec<ColumnInspection>,
}

impl TableInspection {
    pub closed spec fn spec_name(&self) -> Seq<char> {
        self.name@
    }

    pub closed spec fn spec_columns(&self) -> Seq<ColumnInspection> {
        self.columns@
    }

    pub fn new(name: String, columns: Vec<ColumnInspection>) -> (r: Self)
        ensures
            r.spec_name() == name@,
            r.spec_columns() == columns@,
    {
        TableInspection { name, columns }
    }

    pub fn name(&self) -> (r: &str)
        ensures
            r@ == self.spec_name(),
    {
        self.name.as_str()
    }

    pub fn columns(&self) -> (r: &[ColumnInspection])
        ensures
            r@ == self.spec_columns(),
    {
        self.columns.as_slice()
    }
}

/// A binding as inspection shows it.
#[derive(Debug)]
pub enum SourceInspection {
    External { pack: String, source: String },
    Materialized { pack: String, source: String, tables: Vec<TableInspection> },
}

impl SourceInspection {
    pub open spec fn spec_pack(&self) -> Seq<char> {
        match self {
            SourceInspection::External { pack, .. } => pack@,
            SourceInspection::Materialized { pack, .. } => pack@,
        }
    }

    pub open spec fn spec_source(&self) -> Seq<char> {
        match self {
            SourceInspection::External { source, .. } => source@,
            SourceInspection::Materialized { source, .. } => source@,
        }
    }

    pub open spec fn spec_kind(&self) -> DatasetBindingKind {
        match self {
            SourceInspection::External { .. } => DatasetBindingKind::External,
            SourceInspection::Materialized { .. } => DatasetBindingKind::Materialized,
        }
    }

    pub fn pack(&self) -> (r: &str)
        ensures
            r@ == self.spec_pack(),
    {
        match self {
            SourceInspection::External { pack, .. } => pack.as_str(),
            SourceInspection::Materialized { pack, .. } => pack.as_str(),
        }
    }

    pub fn source(&self) -> (r: &str)
        ensures
            r@ == self.spec_source(),
    {
        match self {
            SourceInspection::External { source, .. } => source.as_str(),
            SourceInspection::Materialized { source, .. } => source.as_str(),
        }
    }

    pub fn kind(&self) -> (r: DatasetBindingKind)
        ensures
            r == self.spec_kind(),
    {
        match self {
            SourceInspection::External { .. } => DatasetBindingKind::External,
            SourceInspection::Materialized { .. } => DatasetBindingKind::Materialized,
        }
    }

    /// The stored tables of a materialized binding; `None` for an external one.
    pub fn tables(&self) -> (r: Option<&[TableInspection]>)
        ensures
            match self {
                SourceInspection::External { .. } => r is None,
                SourceInspection::Materialized { tables, .. } => r matches Some(t) && t@ == tables@,
            },
    {
        match self {
            SourceInspection::External { .. } => None,
            SourceInspection::Materialized { tables, .. } => Some(tables.as_slice()),
        }
    }
}

/// A dataset directory and its bindings, sorted by pack and source.
#[derive(Debug)]
pub struct DatasetInspection {
    path: PathBuf,
    sources: Vec<SourceInspection>,
}

impl DatasetInspection {
    pub closed spec fn spec_path(&self) -> PathBuf {
        self.path
    }

    pub closed spec fn spec_sources(&self) -> Seq<SourceInspection> {
        self.sources@
    }

    pub fn new(path: PathBuf, sources: Vec<SourceInspection>) -> (r: Self)
        ensures
            r.spec_path() == path,
            r.spec_sources() == sources@,
    {
        DatasetInspection { path, sources }
    }

    pub fn path(&self) -> (r: &PathBuf)
        ensures
            *r == self.spec_path(),
    {
        &self.path
    }

    pub fn sources(&self) -> (r: &[SourceInspection])
        ensures
            r@ == self.spec_sources(),
    {
        self.sources.as_slice()
    }
}

} // verus!
