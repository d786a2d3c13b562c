//! A validated dataset and the two projections of it: inspection, for
//! people, and resolution, for the runtime.
use vstd::prelude::*;
use std::path::PathBuf;
use super::inspection::{ColumnInspection, DatasetInspection, SourceInspection, TableInspection};
use super::resolved::{DatasetTargetInspection, ResolvedDataset, ResolvedSource, ResolvedTable};
use super::target::{find_resolved_binding, lemma_written_binding_reads_back, spec_replace_binding};
use super::bindings::{BindingRecord, BindingView, accepted_recipe, recipe_kept, same_identity, same_recipe, binding_outcome, identity_less, lemma_validated_bindings, records_view, valid_table_list};
use super::inspection::DatasetBindingKind;
use crate::sorted::strings_view;

verus! {

/// A stored table that passed validation.
#[derive(Debug)]
pub struct ValidatedTable {
    pub name: String,
    pub path: PathBuf,
    pub columns: Vec<ColumnInspection>,
}

/// A binding that passed validation.
#[derive(Debug)]
pub enum ValidatedSource {
    External { pack: String, source: String, arguments: Vec<String>, working_directory: PathBuf },
    Materialized {
        pack: String,
        source: String,
        arguments: Vec<String>,
        working_directory: PathBuf,
        tables: Vec<ValidatedTable>,
    },
}

/// `r` resolves the table `t`: same name and path.
pub open spec fn resolves_table(t: ValidatedTable, r: ResolvedTable) -> bool {
    r.spec_name() == t.name@ && r.spec_path() == t.path
}

/// `r` inspects the table `t`: same name and columns.
pub open spec fn inspects_table(t: ValidatedTable, r: TableInspection) -> bool {
    r.spec_name() == t.name@ && r.spec_columns() == t.columns@
}

/// `r` is the runtime projection of `v`: the same recipe, and each table
/// with its path.
pub open spec fn resolves_source(v: ValidatedSource, r: ResolvedSource) -> bool {
    match (v, r) {
        (
            ValidatedSource::External { pack, source, arguments, working_directory },
            ResolvedSource::External { pack: p, source: s, arguments: a, working_directory: w },
        ) => p == pack && s == source && a == arguments && w == working_directory,
        (
            ValidatedSource::Materialized { pack, source, arguments, working_directory, tables },
            ResolvedSource::Materialized { pack: p, source: s, arguments: a, working_directory: w, tables: t },
        ) => p == pack && s == source && a == arguments && w == working_directory && t.len() == tables.len()
            && forall|i: int| 0 <= i < t.len() ==> resolves_table(#[trigger] tables@[i], t@[i]),
        _ => false,
    }
}

/// `r` is the inspection of `v`: the identity, and each table's columns.
pub open spec fn inspects_source(v: ValidatedSource, r: SourceInspection) -> bool {
    match (v, r) {
        (ValidatedSource::External { pack, source, .. }, SourceInspection::External { pack: p, source: s }) => p
            == pack && s == source,
        (
            ValidatedSource::Materialized { pack, source, tables, .. },
            SourceInspection::Materialized { pack: p, source: s, tables: t },
        ) => p == pack && s == source && t.len() == tables.len() && forall|i: int|
            0 <= i < t.len() ==> inspects_table(#[trigger] tables@[i], t@[i]),
        _ => false,
    }
}

impl ValidatedSource {
    /// The runtime projection of the binding.
    pub fn into_resolved(self) -> (r: ResolvedSource)
        ensures
            resolves_source(self, r),
    {
        match self {
            ValidatedSource::External { pack, source, arguments, working_directory } => ResolvedSource::External {
                pack,
                source,
                arguments,
                working_directory,
            },
            ValidatedSource::Materialized { pack, source, arguments, working_directory, tables } => {
                let ghost orig = tables@;
                let mut input = tables;
                let mut out: Vec<ResolvedTable> = Vec::new();
                let total = input.len();
                let mut i: usize = 0;
                assert(input@ =~= orig.skip(0));
                while i < total
                    invariant
                        0 <= i <= total,
                        total == orig.len(),
                        input@ == orig.skip(i as int),
                        out.len() == i,
                        forall|k: int| 0 <= k < i ==> resolves_table(#[trigger] orig[k], out@[k]),
                    decreases total - i,
                {
                    let ghost before = input@;
                    let t = input.remove(0);
                    assert(t == orig[i as int]) by {
                        assert(before[0] == orig.skip(i as int)[0]);
                    }
                    assert(input@ =~= orig.skip(i + 1));
                    let ValidatedTable { name, path, columns } = t;
                    out.push(ResolvedTable::new(name, path));
                    i = i + 1;
                }
                ResolvedSource::Materialized { pack, source, arguments, working_directory, tables: out }
            },
        }
    }

    /// The inspection of the binding.
    pub fn into_inspection(self) -> (r: SourceInspection)
        ensures
            inspects_source(self, r),
    {
        match self {
            ValidatedSource::External { pack, source, .. } => SourceInspection::External { pack, source },
            ValidatedSource::Materialized { pack, source, tables, .. } => {
                let ghost orig = tables@;
                let mut input = tables;
                let mut out: Vec<TableInspection> = Vec::new();
                let total = input.len();
                let mut i: usize = 0;
                assert(input@ =~= orig.skip(0));
                while i < total
                    invariant
                        0 <= i <= total,
                        total == orig.len(),
                        input@ == orig.skip(i as int),
                        out.len() == i,
                        forall|k: int| 0 <= k < i ==> inspects_table(#[trigger] orig[k], out@[k]),
                    decreases total - i,
                {
                    let ghost before = input@;
                    let t = input.remove(0);
                    assert(t == orig[i as int]) by {
                        assert(before[0] == orig.skip(i as int)[0]);
                    }
                    assert(input@ =~= orig.skip(i + 1));
                    let ValidatedTable { name, path, columns } = t;
                    out.push(TableInspection::new(name, columns));
                    i = i + 1;
                }
                SourceInspection::Materialized { pack, source, tables: out }
            },
        }
    }
}

/// The inspection of a validated dataset at `path`, binding by binding.
pub fn inspect_dataset(path: PathBuf, sources: Vec<ValidatedSource>) -> (r: DatasetInspection)
    ensures
        r.spec_path() == path,
        r.spec_sources().len() == sources.len(),
        forall|i: int| 0 <= i < sources.len() ==> inspects_source(#[trigger] sources@[i], r.spec_sources()[i]),
{
    let ghost orig = sources@;
    let mut input = sources;
    let mut out: Vec<SourceInspection> = Vec::new();
    let total = input.len();
    let mut i: usize = 0;
    assert(input@ =~= orig.skip(0));
    while i < total
        invariant
            0 <= i <= total,
            total == orig.len(),
            input@ == orig.skip(i as int),
            out.len() == i,
            forall|k: int| 0 <= k < i ==> inspects_source(#[trigger] orig[k], out@[k]),
        decreases total - i,
    {
        let ghost before = input@;
        let s = input.remove(0);
        assert(s == orig[i as int]) by {
            assert(before[0] == orig.skip(i as int)[0]);
        }
        assert(input@ =~= orig.skip(i + 1));
        out.push(s.into_inspection());
        i = i + 1;
    }
    DatasetInspection::new(path, out)
}

/// The runtime projection of a validated dataset at `path`, binding by
/// binding.
pub fn resolve_dataset(path: PathBuf, sources: Vec<ValidatedSource>) -> (r: ResolvedDataset)
    ensures
        r.spec_path() == path,
        r.spec_sources().len() == sources.len(),
        forall|i: int| 0 <= i < sources.len() ==> resolves_source(#[trigger] sources@[i], r.spec_sources()[i]),
{
    let ghost orig = sources@;
    let mut input = sources;
    let mut out: Vec<ResolvedSource> = Vec::new();
    let total = input.len();
    let mut i: usize = 0;
    assert(input@ =~= orig.skip(0));
    while i < total
        invariant
            0 <= i <= total,
            total == orig.len(),
            input@ == orig.skip(i as int),
            out.len() == i,
            forall|k: int| 0 <= k < i ==> resolves_source(#[trigger] orig[k], out@[k]),
        decreases total - i,
    {
        let ghost before = input@;
        let s = input.remove(0);
        assert(s == orig[i as int]) by {
            assert(before[0] == orig.skip(i as int)[0]);
        }
        assert(input@ =~= orig.skip(i + 1));
        out.push(s.into_resolved());
        i = i + 1;
    }
    ResolvedDataset::new(path, out)
}

impl ValidatedSource {
    pub open spec fn spec_pack(&self) -> Seq<char> {
        match self {
            ValidatedSource::External { pack, .. } => pack@,
            ValidatedSource::Materialized { pack, .. } => pack@,
        }
    }

    pub open spec fn spec_source(&self) -> Seq<char> {
        match self {
            ValidatedSource::External { source, .. } => source@,
            ValidatedSource::Materialized { source, .. } => source@,
        }
    }
}

/// `sources[k]` is the first binding of `sources` for `pack` and `source`.
pub open spec fn first_binding_for(sources: Seq<ValidatedSource>, pack: Seq<char>, source: Seq<char>, k: int) -> bool {
    &&& 0 <= k < sources.len()
    &&& sources[k].spec_pack() == pack
    &&& sources[k].spec_source() == source
    &&& forall|j: int| 0 <= j < k ==> !((#[trigger] sources[j]).spec_pack() == pack && sources[j].spec_source() == source)
}

/// `sources` has a binding for `pack` and `source`.
pub open spec fn binds(sources: Seq<ValidatedSource>, pack: Seq<char>, source: Seq<char>) -> bool {
    exists|k: int| 0 <= k < sources.len() && (#[trigger] sources[k]).spec_pack() == pack && sources[k].spec_source() == source
}

/// The inspection of an existing dataset at `path` as a target for the
/// binding of `pack` and `source`: the binding it has for them, resolved,
/// if it has one.
pub fn inspect_existing_target(path: PathBuf, sources: Vec<ValidatedSource>, pack: &str, source: &str) -> (r: DatasetTargetInspection)
    ensures
        r.spec_path() == path,
        r.spec_exists(),
        match r.spec_resolved_binding() {
            Some(b) => exists|k: int| first_binding_for(sources@, pack@, source@, k) && resolves_source(#[trigger] sources@[k], b),
            None => !binds(sources@, pack@, source@),
        },
{
    let ghost orig = sources@;
    let placeholder = path.clone();
    let mut all = resolve_dataset(placeholder, sources).into_sources();
    let ghost rv = all@;
    assert(forall|k: int| 0 <= k < orig.len() ==> resolves_source(#[trigger] orig[k], rv[k]));
    match find_resolved_binding(&all, pack, source) {
        Some(i) => {
            let b = all.remove(i);
            proof {
                assert(b == rv[i as int]);
                assert(resolves_source(orig[i as int], rv[i as int]));
                assert forall|j: int| 0 <= j < i implies !((#[trigger] orig[j]).spec_pack() == pack@ && orig[j].spec_source()
                    == source@) by {
                    assert(resolves_source(orig[j], rv[j]));
                    assert(!(rv[j].spec_pack() == pack@ && rv[j].spec_source() == source@));
                }
                assert(first_binding_for(orig, pack@, source@, i as int));
            }
            DatasetTargetInspection::existing(path, Some(b))
        },
        None => {
            proof {
                assert forall|k: int| 0 <= k < orig.len() implies !((#[trigger] orig[k]).spec_pack() == pack@ && orig[k].spec_source()
                    == source@) by {
                    assert(resolves_source(orig[k], rv[k]));
                    assert(!(rv[k].spec_pack() == pack@ && rv[k].spec_source() == source@));
                }
            }
            DatasetTargetInspection::existing(path, None)
        },
    }
}

/// `a` and `b` are the same resolved binding: the same recipe, and the
/// same tables with the same paths, in the same order.
pub open spec fn same_resolution(a: ResolvedSource, b: ResolvedSource) -> bool {
    match (a, b) {
        (
            ResolvedSource::External { pack, source, arguments, working_directory },
            ResolvedSource::External { pack: p, source: s, arguments: x, working_directory: w },
        ) => p == pack && s == source && x == arguments && w == working_directory,
        (
            ResolvedSource::Materialized { pack, source, arguments, working_directory, tables },
            ResolvedSource::Materialized { pack: p, source: s, arguments: x, working_directory: w, tables: t },
        ) => p == pack && s == source && x == arguments && w == working_directory && t.len() == tables.len()
            && forall|i: int|
            0 <= i < t.len() ==> (#[trigger] t@[i]).spec_name() == tables@[i].spec_name() && t@[i].spec_path()
                == tables@[i].spec_path(),
        _ => false,
    }
}

/// Inspecting a dataset as the target of a binding agrees with resolving
/// it: the target has a resolved binding exactly when the resolved dataset
/// binds the pack and source, and then it is the first such binding.
pub proof fn lemma_target_agrees_with_resolution(
    sources: Seq<ValidatedSource>,
    target: DatasetTargetInspection,
    dataset: ResolvedDataset,
    pack: Seq<char>,
    source: Seq<char>,
)
    requires
        match target.spec_resolved_binding() {
            Some(b) => exists|k: int| first_binding_for(sources, pack, source, k) && resolves_source(#[trigger] sources[k], b),
            None => !binds(sources, pack, source),
        },
        dataset.spec_sources().len() == sources.len(),
        forall|k: int| 0 <= k < sources.len() ==> resolves_source(#[trigger] sources[k], dataset.spec_sources()[k]),
    ensures
        target.spec_resolved_binding() is None <==> forall|k: int|
            0 <= k < dataset.spec_sources().len() ==> !((#[trigger] dataset.spec_sources()[k]).spec_pack() == pack
                && dataset.spec_sources()[k].spec_source() == source),
        target.spec_resolved_binding() matches Some(b) ==> exists|k: int| {
            &&& 0 <= k < dataset.spec_sources().len()
            &&& dataset.spec_sources()[k].spec_pack() == pack
            &&& dataset.spec_sources()[k].spec_source() == source
            &&& forall|j: int| 0 <= j < k ==> !((#[trigger] dataset.spec_sources()[j]).spec_pack() == pack
                && dataset.spec_sources()[j].spec_source() == source)
            &&& same_resolution(b, #[trigger] dataset.spec_sources()[k])
        },
{
    let d = dataset.spec_sources();
    assert forall|k: int| 0 <= k < sources.len() implies (#[trigger] d[k]).spec_pack() == sources[k].spec_pack()
        && d[k].spec_source() == sources[k].spec_source() by {
        assert(resolves_source(sources[k], d[k]));
    }
    match target.spec_resolved_binding() {
        Some(b) => {
            let k = choose|k: int| first_binding_for(sources, pack, source, k) && resolves_source(#[trigger] sources[k], b);
            assert(resolves_source(sources[k], d[k]));
            match (sources[k], b, d[k]) {
                (
                    ValidatedSource::Materialized { tables: v, .. },
                    ResolvedSource::Materialized { tables: t, .. },
                    ResolvedSource::Materialized { tables: u, .. },
                ) => {
                    assert forall|i: int| 0 <= i < u.len() implies (#[trigger] u@[i]).spec_name() == t@[i].spec_name()
                        && u@[i].spec_path() == t@[i].spec_path() by {
                        assert(resolves_table(v@[i], t@[i]));
                        assert(resolves_table(v@[i], u@[i]));
                    }
                },
                _ => {},
            }
            assert(same_resolution(b, d[k]));
            assert(d[k].spec_pack() == pack);
            assert forall|j: int| 0 <= j < k implies !((#[trigger] d[j]).spec_pack() == pack && d[j].spec_source() == source) by {
                assert(!(sources[j].spec_pack() == pack && sources[j].spec_source() == source));
            }
        },
        None => {
            assert forall|k: int| 0 <= k < d.len() implies !((#[trigger] d[k]).spec_pack() == pack && d[k].spec_source() == source) by {
                if d[k].spec_pack() == pack && d[k].spec_source() == source {
                    assert(sources[k].spec_pack() == pack);
                }
            }
        },
    }
}

/// Inspecting and resolving the same validated bindings agree binding by
/// binding: the same pack, source and kind, and for a materialized binding
/// the same table names in the same order.
pub proof fn lemma_inspection_agrees_with_resolution(
    sources: Seq<ValidatedSource>,
    inspection: DatasetInspection,
    dataset: ResolvedDataset,
)
    requires
        inspection.spec_sources().len() == sources.len(),
        forall|k: int| 0 <= k < sources.len() ==> inspects_source(#[trigger] sources[k], inspection.spec_sources()[k]),
        dataset.spec_sources().len() == sources.len(),
        forall|k: int| 0 <= k < sources.len() ==> resolves_source(#[trigger] sources[k], dataset.spec_sources()[k]),
    ensures
        inspection.spec_sources().len() == dataset.spec_sources().len(),
        forall|k: int| 0 <= k < sources.len() ==> {
            &&& (#[trigger] inspection.spec_sources()[k]).spec_pack() == dataset.spec_sources()[k].spec_pack()
            &&& inspection.spec_sources()[k].spec_source() == dataset.spec_sources()[k].spec_source()
            &&& inspection.spec_sources()[k].spec_kind() == dataset.spec_sources()[k].spec_kind()
            &&& same_table_names(inspection.spec_sources()[k], dataset.spec_sources()[k])
        },
{
    assert forall|k: int| 0 <= k < sources.len() implies {
        &&& (#[trigger] inspection.spec_sources()[k]).spec_pack() == dataset.spec_sources()[k].spec_pack()
        &&& inspection.spec_sources()[k].spec_source() == dataset.spec_sources()[k].spec_source()
        &&& inspection.spec_sources()[k].spec_kind() == dataset.spec_sources()[k].spec_kind()
        &&& same_table_names(inspection.spec_sources()[k], dataset.spec_sources()[k])
    } by {
        assert(inspects_source(sources[k], inspection.spec_sources()[k]));
        assert(resolves_source(sources[k], dataset.spec_sources()[k]));
        match (sources[k], inspection.spec_sources()[k], dataset.spec_sources()[k]) {
            (
                ValidatedSource::Materialized { tables: v, .. },
                SourceInspection::Materialized { tables: a, .. },
                ResolvedSource::Materialized { tables: b, .. },
            ) => {
                assert forall|j: int| 0 <= j < a.len() implies (#[trigger] a@[j]).spec_name() == b@[j].spec_name() by {
                    assert(inspects_table(v@[j], a@[j]));
                    assert(resolves_table(v@[j], b@[j]));
                }
            },
            _ => {},
        }
    }
}

/// A materialized inspection and resolution list tables with the same names
/// in the same order; external ones list none.
pub open spec fn same_table_names(i: SourceInspection, r: ResolvedSource) -> bool {
    match (i, r) {
        (SourceInspection::External { .. }, ResolvedSource::External { .. }) => true,
        (SourceInspection::Materialized { tables: a, .. }, ResolvedSource::Materialized { tables: b, .. }) => a.len()
            == b.len() && forall|j: int| 0 <= j < a.len() ==> (#[trigger] a@[j]).spec_name() == b@[j].spec_name(),
        _ => false,
    }
}

/// `v` is the validated form of the binding `b`: the same kind, identity
/// and arguments, and for a materialized binding one table per name, in
/// order.
pub open spec fn built_from(b: BindingView, v: ValidatedSource) -> bool {
    match v {
        ValidatedSource::External { pack, source, arguments, .. } => {
            &&& b.kind == DatasetBindingKind::External
            &&& pack@ == b.pack
            &&& source@ == b.source
            &&& strings_view(arguments@) == b.arguments
        },
        ValidatedSource::Materialized { pack, source, arguments, tables, .. } => {
            &&& b.kind == DatasetBindingKind::Materialized
            &&& pack@ == b.pack
            &&& source@ == b.source
            &&& strings_view(arguments@) == b.arguments
            &&& tables.len() == b.tables.len()
            &&& forall|j: int| 0 <= j < tables.len() ==> (#[trigger] tables@[j]).name@ == b.tables[j]
        },
    }
}

/// The names of `tables` are those of `names`, in order.
pub open spec fn tables_named(tables: Seq<ValidatedTable>, names: Seq<Seq<char>>) -> bool {
    tables.len() == names.len() && forall|j: int| 0 <= j < tables.len() ==> (#[trigger] tables[j]).name@ == names[j]
}

/// The validated form of a binding whose working directory is
/// `working_directory`; a materialized binding takes `tables`, one per
/// table name of the binding, in order, and an external one none.
pub fn validated_source(record: BindingRecord, working_directory: PathBuf, tables: Vec<ValidatedTable>) -> (r: ValidatedSource)
    requires
        record.kind == DatasetBindingKind::Materialized ==> tables_named(tables@, record@.tables),
    ensures
        built_from(record@, r),
        match r {
            ValidatedSource::External { working_directory: w, .. } => w == working_directory,
            ValidatedSource::Materialized { working_directory: w, tables: t, .. } => w == working_directory && t == tables,
        },
{
    let ghost view = record@;
    let BindingRecord { kind, pack, source, arguments, .. } = record;
    match kind {
        DatasetBindingKind::External => ValidatedSource::External { pack, source, arguments, working_directory },
        DatasetBindingKind::Materialized => ValidatedSource::Materialized { pack, source, arguments, working_directory, tables },
    }
}

/// The resolved bindings of a dataset are its validated bindings in their
/// order: each has the kind, identity and arguments its binding was
/// written with, identities strictly ascending, and a materialized one lists
/// a non-empty set of valid table names, ascending, each once, while an
/// external one lists none.
pub proof fn lemma_resolved_bindings(
    records: Seq<BindingView>,
    absolute: Seq<bool>,
    out: Vec<BindingRecord>,
    sources: Seq<ValidatedSource>,
    dataset: ResolvedDataset,
)
    requires
        absolute.len() == records.len(),
        binding_outcome(records, absolute, Ok(out)),
        sources.len() == out.len(),
        forall|k: int| 0 <= k < out.len() ==> built_from(records_view(out@)[k], #[trigger] sources[k]),
        dataset.spec_sources().len() == sources.len(),
        forall|k: int| 0 <= k < sources.len() ==> resolves_source(#[trigger] sources[k], dataset.spec_sources()[k]),
    ensures
        forall|k: int| 0 <= k < dataset.spec_sources().len() ==> #[trigger] accepted_recipe(records, absolute, records_view(out@)[k])
            && resolved_as(records_view(out@)[k], dataset.spec_sources()[k]),
        forall|a: int, b: int|
            0 <= a < b < dataset.spec_sources().len() ==> identity_less(
                resolved_identity(#[trigger] dataset.spec_sources()[a]),
                resolved_identity(#[trigger] dataset.spec_sources()[b]),
            ),
{
    lemma_validated_bindings(records, absolute, out);
    let ov = records_view(out@);
    let d = dataset.spec_sources();
    assert forall|k: int| 0 <= k < d.len() implies #[trigger] accepted_recipe(records, absolute, ov[k]) && resolved_as(ov[k], d[k]) by {
        assert(built_from(ov[k], sources[k]));
        assert(resolves_source(sources[k], d[k]));
        if ov[k].kind == DatasetBindingKind::Materialized {
            assert(valid_table_list(ov[k].tables));
            match (sources[k], d[k]) {
                (ValidatedSource::Materialized { tables: v, .. }, ResolvedSource::Materialized { tables: t, .. }) => {
                    assert forall|j: int| 0 <= j < t.len() implies (#[trigger] t@[j]).spec_name() == ov[k].tables[j] by {
                        assert(resolves_table(v@[j], t@[j]));
                    }
                    assert(table_names(t@) =~= ov[k].tables);
                },
                _ => {},
            }
        }
    }
    assert forall|a: int, b: int| 0 <= a < b < d.len() implies identity_less(
        resolved_identity(#[trigger] d[a]),
        resolved_identity(#[trigger] d[b]),
    ) by {
        assert(built_from(ov[a], sources[a]));
        assert(resolves_source(sources[a], d[a]));
        assert(built_from(ov[b], sources[b]));
        assert(resolves_source(sources[b], d[b]));
        assert(resolved_identity(d[a]).pack == ov[a].pack && resolved_identity(d[a]).source == ov[a].source);
        assert(resolved_identity(d[b]).pack == ov[b].pack && resolved_identity(d[b]).source == ov[b].source);
        assert(identity_less(ov[a], ov[b]));
    }
}

/// The names of resolved tables, in order.
pub open spec fn table_names(t: Seq<ResolvedTable>) -> Seq<Seq<char>> {
    t.map_values(|x: ResolvedTable| x.spec_name())
}

/// The identity of a resolved binding, as a binding view with nothing else.
pub open spec fn resolved_identity(r: ResolvedSource) -> BindingView {
    BindingView {
        kind: r.spec_kind(),
        pack: r.spec_pack(),
        source: r.spec_source(),
        arguments: strings_view(r.spec_arguments()),
        working_directory: Seq::empty(),
        tables: Seq::empty(),
    }
}

/// `r` resolves the validated binding `b`: the same kind, identity and
/// arguments; a materialized one lists valid table names, the binding's,
/// and an external one none.
pub open spec fn resolved_as(b: BindingView, r: ResolvedSource) -> bool {
    &&& r.spec_kind() == b.kind
    &&& r.spec_pack() == b.pack
    &&& r.spec_source() == b.source
    &&& strings_view(r.spec_arguments()) == b.arguments
    &&& match r {
        ResolvedSource::Materialized { tables, .. } => table_names(tables@) == b.tables && valid_table_list(b.tables),
        ResolvedSource::External { .. } => true,
    }
}

/// `r` resolves with the kind, identity and arguments of `b`.
pub open spec fn resolves_with_recipe(b: BindingView, r: ResolvedSource) -> bool {
    &&& r.spec_kind() == b.kind
    &&& r.spec_pack() == b.pack
    &&& r.spec_source() == b.source
    &&& strings_view(r.spec_arguments()) == b.arguments
}

/// `r` has the identity of `b`.
pub open spec fn resolves_identity(b: BindingView, r: ResolvedSource) -> bool {
    r.spec_pack() == b.pack && r.spec_source() == b.source
}

/// A binding written over the bindings of `records`, once the result is
/// validated and resolved, resolves as the one source of its identity, with
/// the kind and arguments it was written with; every other source resolves
/// as a binding of `records` of another identity, and every such binding
/// of `records` resolves as one of them.
pub proof fn lemma_written_binding_resolves(
    records: Seq<BindingView>,
    new: BindingView,
    absolute: Seq<bool>,
    out: Vec<BindingRecord>,
    sources: Seq<ValidatedSource>,
    dataset: ResolvedDataset,
)
    requires
        absolute.len() == spec_replace_binding(records, new).len(),
        binding_outcome(spec_replace_binding(records, new), absolute, Ok(out)),
        sources.len() == out.len(),
        forall|k: int| 0 <= k < out.len() ==> built_from(records_view(out@)[k], #[trigger] sources[k]),
        dataset.spec_sources().len() == sources.len(),
        forall|k: int| 0 <= k < sources.len() ==> resolves_source(#[trigger] sources[k], dataset.spec_sources()[k]),
    ensures
        exists|k: int| 0 <= k < dataset.spec_sources().len() && resolves_with_recipe(new, #[trigger] dataset.spec_sources()[k]),
        forall|k: int|
            0 <= k < dataset.spec_sources().len() && resolves_identity(new, #[trigger] dataset.spec_sources()[k])
                ==> resolves_with_recipe(new, dataset.spec_sources()[k]),
        forall|k: int|
            0 <= k < dataset.spec_sources().len() && !resolves_identity(new, #[trigger] dataset.spec_sources()[k])
                ==> exists|i: int|
                0 <= i < records.len() && !same_identity(records[i], new) && resolves_with_recipe(
                    #[trigger] records[i],
                    dataset.spec_sources()[k],
                ),
        forall|i: int|
            0 <= i < records.len() && !same_identity(#[trigger] records[i], new) ==> exists|k: int|
                0 <= k < dataset.spec_sources().len() && resolves_with_recipe(records[i], #[trigger] dataset.spec_sources()[k]),
        forall|a: int, b: int|
            0 <= a < b < dataset.spec_sources().len() ==> identity_less(
                resolved_identity(#[trigger] dataset.spec_sources()[a]),
                resolved_identity(#[trigger] dataset.spec_sources()[b]),
            ),
{
    let all = spec_replace_binding(records, new);
    lemma_written_binding_reads_back(records, new, absolute, out);
    lemma_resolved_bindings(all, absolute, out, sources, dataset);
    let ov = records_view(out@);
    let d = dataset.spec_sources();
    assert(ov.len() == d.len());
    let k0 = choose|k: int| 0 <= k < ov.len() && same_recipe(new, #[trigger] ov[k]);
    assert(accepted_recipe(all, absolute, ov[k0]));
    assert(resolved_as(ov[k0], d[k0]));
    assert(resolves_with_recipe(new, d[k0]));
    assert forall|k: int| 0 <= k < d.len() && resolves_identity(new, #[trigger] d[k]) implies resolves_with_recipe(new, d[k]) by {
        assert(accepted_recipe(all, absolute, ov[k]));
        assert(resolved_as(ov[k], d[k]));
        assert(same_identity(ov[k], new));
        assert(same_recipe(new, ov[k]));
    }
    assert forall|k: int| 0 <= k < d.len() && !resolves_identity(new, #[trigger] d[k]) implies exists|i: int|
        0 <= i < records.len() && !same_identity(records[i], new) && resolves_with_recipe(#[trigger] records[i], d[k]) by {
        assert(accepted_recipe(all, absolute, ov[k]));
        assert(resolved_as(ov[k], d[k]));
        assert(!same_identity(ov[k], new));
        let i = choose|i: int| 0 <= i < records.len() && !same_identity(records[i], new) && same_recipe(#[trigger] records[i], ov[k]);
        assert(resolves_with_recipe(records[i], d[k]));
    }
    assert forall|i: int| 0 <= i < records.len() && !same_identity(#[trigger] records[i], new) implies exists|k: int|
        0 <= k < d.len() && resolves_with_recipe(records[i], #[trigger] d[k]) by {
        let k = choose|k: int| 0 <= k < ov.len() && same_recipe(records[i], #[trigger] ov[k]);
        assert(accepted_recipe(all, absolute, ov[k]));
        assert(resolved_as(ov[k], d[k]));
        assert(resolves_with_recipe(records[i], d[k]));
    }
}

} // verus!
