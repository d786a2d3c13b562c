//! What resolving a dataset hands to the runtime: each binding's recipe
//! and its stored tables.
use vstd::prelude::*;
use std::path::PathBuf;
use super::inspection::DatasetBindingKind;

verus! {

/// A stored table and its file.
#[derive(Debug)]
pub struct ResolvedTable {
    name: String,
    path: PathBuf,
}

impl ResolvedTable {
    pub closed spec fn spec_name(&self) -> Seq<char> {
        self.name@
    }

    pub closed spec fn spec_path(&self) -> PathBuf {
        self.path
    }

    pub fn new(name: String, path: PathBuf) -> (r: Self)
        ensures
            r.spec_name() == name@,
            r.spec_path() == path,
    {
        ResolvedTable { name, path }
    }

    pub fn name(&self) -> (r: &str)
        ensures
            r@ == self.spec_name(),
    {
        self.name.as_str()
    }

    pub fn path(&self) -> (r: &PathBuf)
        ensures
            *r == self.spec_path(),
    {
        &self.path
    }
}

/// A binding with everything needed to replay its source.
#[derive(Debug)]
pub enum ResolvedSource {
    External { pack: String, source: String, arguments: Vec<String>, working_directory: PathBuf },
    Materialized {
        pack: String,
        source: String,
        arguments: Vec<String>,
        working_directory: PathBuf,
        tables: Vec<ResolvedTable>,
    },
}

impl ResolvedSource {
    pub open spec fn spec_pack(&self) -> Seq<char> {
        match self {
            ResolvedSource::External { pack, .. } => pack@,
            ResolvedSource::Materialized { pack, .. } => pack@,
        }
    }

    pub open spec fn spec_source(&self) -> Seq<char> {
        match self {
            ResolvedSource::External { source, .. } => source@,
            ResolvedSource::Materialized { source, .. } => source@,
        }
    }

    pub open spec fn spec_kind(&self) -> DatasetBindingKind {
        match self {
            ResolvedSource::External { .. } => DatasetBindingKind::External,
            ResolvedSource::Materialized { .. } => DatasetBindingKind::Materialized,
        }
    }

    pub open spec fn spec_arguments(&self) -> Seq<String> {
        match self {
            ResolvedSource::External { arguments, .. } => arguments@,
            ResolvedSource::Materialized { arguments, .. } => arguments@,
        }
    }

    pub open spec fn spec_working_directory(&self) -> PathBuf {
        match self {
            ResolvedSource::External { working_directory, .. } => *working_directory,
            ResolvedSource::Materialized { working_directory, .. } => *working_directory,
        }
    }

    pub fn pack(&self) -> (r: &str)
        ensures
            r@ == self.spec_pack(),
    {
        match self {
            ResolvedSource::External { pack, .. } => pack.as_str(),
            ResolvedSource::Materialized { pack, .. } => pack.as_str(),
        }
    }

    pub fn source(&self) -> (r: &str)
        ensures
            r@ == self.spec_source(),
    {
        match self {
            ResolvedSource::External { source, .. } => source.as_str(),
            ResolvedSource::Materialized { source, .. } => source.as_str(),
        }
    }

    pub fn kind(&self) -> (r: DatasetBindingKind)
        ensures
            r == self.spec_kind(),
    {
        match self {
            ResolvedSource::External { .. } => DatasetBindingKind::External,
            ResolvedSource::Materialized { .. } => DatasetBindingKind::Materialized,
        }
    }

    /// The recipe's arguments; every binding has them.
    pub fn arguments(&self) -> (r: Option<&[String]>)
        ensures
            r matches Some(a) && a@ == self.spec_arguments(),
    {
        match self {
            ResolvedSource::External { arguments, .. } => Some(arguments.as_slice()),
            ResolvedSource::Materialized { arguments, .. } => Some(arguments.as_slice()),
        }
    }

    /// The recipe's working directory; every binding has one.
    pub fn working_directory(&self) -> (r: Option<&PathBuf>)
        ensures
            r matches Some(w) && *w == self.spec_working_directory(),
    {
        match self {
            ResolvedSource::External { working_directory, .. } => Some(working_directory),
            ResolvedSource::Materialized { working_directory, .. } => Some(working_directory),
        }
    }

    /// The stored tables of a materialized binding; `None` for an external one.
    pub fn tables(&self) -> (r: Option<&[ResolvedTable]>)
        ensures
            match self {
                ResolvedSource::External { .. } => r is None,
                ResolvedSource::Materialized { tables, .. } => r matches Some(t) && t@ == tables@,
            },
    {
        match self {
            ResolvedSource::External { .. } => None,
            ResolvedSource::Materialized { tables, .. } => Some(tables.as_slice()),
        }
    }
}

/// A dataset directory and its resolved bindings, sorted by pack and source.
#[derive(Debug)]
pub struct ResolvedDataset {
    path: PathBuf,
    sources: Vec<ResolvedSource>,
}

impl ResolvedDataset {
    pub closed spec fn spec_path(&self) -> PathBuf {
        self.path
    }

    pub closed spec fn spec_sources(&self) -> Seq<ResolvedSource> {
        self.sources@
    }

    pub fn new(path: PathBuf, sources: Vec<ResolvedSource>) -> (r: Self)
        ensures
            r.spec_path() == path,
            r.spec_sources() == sources@,
    {
        ResolvedDataset { path, sources }
    }

    pub fn path(&self) -> (r: &PathBuf)
        ensures
            *r == self.spec_path(),
    {
        &self.path
    }

    pub fn sources(&self) -> (r: &[ResolvedSource])
        ensures
            r@ == self.spec_sources(),
    {
        self.sources.as_slice()
    }

    /// The resolved bindings, taken out of the dataset.
    pub fn into_sources(self) -> (r: Vec<ResolvedSource>)
        ensures
            r@ == self.spec_sources(),
    {
        self.sources
    }
}

/// A dataset path about to receive a binding: whether it exists, and the
/// binding that it already has for the same pack and source.
#[derive(Debug)]
pub struct DatasetTargetInspection {
    path: PathBuf,
    exists: bool,
    binding: Option<DatasetBindingKind>,
    resolved_binding: Option<ResolvedSource>,
}

impl DatasetTargetInspection {
    /// The binding kind is the kind of the resolved binding, and a missing
    /// target has none.
    #[verifier::type_invariant]
    spec fn consistent(self) -> bool {
        &&& self.binding == match self.resolved_binding {
            Some(s) => Some(s.spec_kind()),
            None => None::<DatasetBindingKind>,
        }
        &&& (!self.exists ==> self.resolved_binding is None)
    }

    pub closed spec fn spec_path(&self) -> PathBuf {
        self.path
    }

    pub closed spec fn spec_exists(&self) -> bool {
        self.exists
    }

    pub closed spec fn spec_binding(&self) -> Option<DatasetBindingKind> {
        self.binding
    }

    pub closed spec fn spec_resolved_binding(&self) -> Option<ResolvedSource> {
        self.resolved_binding
    }

    /// A target that does not exist yet.
    pub fn missing(path: PathBuf) -> (r: Self)
        ensures
            r.spec_path() == path,
            !r.spec_exists(),
            r.spec_binding() is None,
            r.spec_resolved_binding() is None,
    {
        DatasetTargetInspection { path, exists: false, binding: None, resolved_binding: None }
    }

    /// An existing dataset, with the binding for the pack and source if it
    /// has one; the binding kind is the kind of that binding.
    pub fn existing(path: PathBuf, resolved_binding: Option<ResolvedSource>) -> (r: Self)
        ensures
            r.spec_path() == path,
            r.spec_exists(),
            r.spec_resolved_binding() == resolved_binding,
            r.spec_binding() == (match resolved_binding {
                Some(s) => Some(s.spec_kind()),
                None => None,
            }),
    {
        let binding = match &resolved_binding {
            Some(s) => Some(s.kind()),
            None => None,
        };
        DatasetTargetInspection { path, exists: true, binding, resolved_binding }
    }

    pub fn path(&self) -> (r: &PathBuf)
        ensures
            *r == self.spec_path(),
    {
        &self.path
    }

    /// Whether the dataset path exists.
    pub fn target_exists(&self) -> (r: bool)
        ensures
            r == self.spec_exists(),
    {
        self.exists
    }

    /// The kind of the binding for the pack and source: always the kind of
    /// [`DatasetTargetInspection::resolved_binding`].
    pub fn binding(&self) -> (r: Option<DatasetBindingKind>)
        ensures
            r == self.spec_binding(),
            r == match self.spec_resolved_binding() {
                Some(s) => Some(s.spec_kind()),
                None => None::<DatasetBindingKind>,
            },
            !self.spec_exists() ==> r is None,
    {
        proof {
            use_type_invariant(self);
        }
        self.binding
    }

    pub fn resolved_binding(&self) -> (r: Option<&ResolvedSource>)
        ensures
            match self.spec_resolved_binding() {
                Some(s) => r matches Some(t) && *t == s,
                None => r is None,
            },
            !self.spec_exists() ==> r is None,
    {
        proof {
            use_type_invariant(self);
        }
        match &self.resolved_binding {
            Some(s) => Some(s),
            None => None,
        }
    }
}

} // verus!
