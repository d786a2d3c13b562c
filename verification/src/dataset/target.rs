//! Write targets, the tables registered while writing, and the decisions
//! of binding a source into a dataset.
use vstd::prelude::*;
use std::path::PathBuf;
use crate::sorted::{find_name, insert_name, lemma_insert_name, lemma_name_position, sorted_names, strings_view};
use crate::text::{chars_of, slice_eq, string_of};
use super::inspection::DatasetBindingKind;
use super::names::{spec_valid_table_name, valid_table_name};
use super::resolved::ResolvedSource;
use super::bindings::{BindingRecord, BindingView, binding_outcome, identity_less, lemma_identity_order, lemma_validated_bindings, records_view, recipe_kept, same_identity, same_recipe};

verus! {

/// What may happen to the existing contents of a write target.
#[derive(Debug, Clone, Copy, PartialEq, Eq, Structural)]
pub enum ExistingContents {
    /// The target must be missing or empty.
    Reject,
    /// Everything in the target is permanently removed first.
    PermanentlyClear,
}

/// A dataset write target and how far the write may disturb what is there.
#[derive(Debug)]
pub struct DatasetWriteTarget {
    path: PathBuf,
    existing_contents: ExistingContents,
    protected_paths: Vec<PathBuf>,
}

impl DatasetWriteTarget {
    pub closed spec fn spec_path(&self) -> PathBuf {
        self.path
    }

    pub closed spec fn spec_existing_contents(&self) -> ExistingContents {
        self.existing_contents
    }

    pub closed spec fn spec_protected_paths(&self) -> Seq<PathBuf> {
        self.protected_paths@
    }

    /// Writes into a missing or empty directory; nothing may be removed.
    pub fn write_to_empty(path: PathBuf) -> (r: Self)
        ensures
            r.spec_path() == path,
            r.spec_existing_contents() == ExistingContents::Reject,
            r.spec_protected_paths() == Seq::<PathBuf>::empty(),
    {
        let r = DatasetWriteTarget { path, existing_contents: ExistingContents::Reject, protected_paths: Vec::new() };
        assert(r.protected_paths@ =~= Seq::<PathBuf>::empty());
        r
    }

    /// Permanently replaces all contents of the target, files unknown to
    /// the library included; there is no backup or rollback.
    pub fn permanently_replace_all_contents(path: PathBuf) -> (r: Self)
        ensures
            r.spec_path() == path,
            r.spec_existing_contents() == ExistingContents::PermanentlyClear,
            r.spec_protected_paths() == Seq::<PathBuf>::empty(),
    {
        let r = DatasetWriteTarget {
            path,
            existing_contents: ExistingContents::PermanentlyClear,
            protected_paths: Vec::new(),
        };
        assert(r.protected_paths@ =~= Seq::<PathBuf>::empty());
        r
    }

    /// Refuses the target if clearing it would remove `path`.
    pub fn protect_path(self, path: PathBuf) -> (r: Self)
        ensures
            r.spec_path() == self.spec_path(),
            r.spec_existing_contents() == self.spec_existing_contents(),
            r.spec_protected_paths() == self.spec_protected_paths().push(path),
    {
        let mut t = self;
        t.protected_paths.push(path);
        t
    }

    pub fn path(&self) -> (r: &PathBuf)
        ensures
            *r == self.spec_path(),
    {
        &self.path
    }

    pub fn existing_contents(&self) -> (r: ExistingContents)
        ensures
            r == self.spec_existing_contents(),
    {
        self.existing_contents
    }

    /// The paths that clearing must not remove; they matter only when the
    /// target may be cleared.
    pub fn protected_paths(&self) -> (r: &Vec<PathBuf>)
        ensures
            r@ == self.spec_protected_paths(),
    {
        &self.protected_paths
    }
}

/// Why a table cannot be added to the dataset being written.
#[derive(Debug)]
pub enum TableError {
    InvalidTableName { name: String },
    DuplicateTable { name: String },
    DuplicateColumn { table: String, column: String },
}

pub enum TableErrorView {
    InvalidTableName { name: Seq<char> },
    DuplicateTable { name: Seq<char> },
    DuplicateColumn { table: Seq<char>, column: Seq<char> },
}

impl View for TableError {
    type V = TableErrorView;

    open spec fn view(&self) -> TableErrorView {
        match self {
            TableError::InvalidTableName { name } => TableErrorView::InvalidTableName { name: name@ },
            TableError::DuplicateTable { name } => TableErrorView::DuplicateTable { name: name@ },
            TableError::DuplicateColumn { table, column } => TableErrorView::DuplicateColumn { table: table@, column: column@ },
        }
    }
}

/// Index of the first column that repeats an earlier one, if any.
pub open spec fn first_repeated_column(columns: Seq<Seq<char>>) -> Option<int> {
    if exists|j: int| 0 <= j < columns.len() && columns.take(j).contains(#[trigger] columns[j]) {
        Some(choose|j: int| 0 <= j < columns.len() && columns.take(j).contains(#[trigger] columns[j])
            && forall|k: int| 0 <= k < j ==> !columns.take(k).contains(#[trigger] columns[k]))
    } else {
        None
    }
}

/// The first column, in order, that repeats an earlier one.
pub fn first_repeated(columns: &Vec<String>) -> (r: Option<usize>)
    ensures
        match r {
            Some(j) => first_repeated_column(strings_view(columns@)) == Some(j as int) && j < columns.len(),
            None => first_repeated_column(strings_view(columns@)) is None,
        },
{
    let ghost cols = strings_view(columns@);
    let mut j: usize = 0;
    while j < columns.len()
        invariant
            0 <= j <= columns.len(),
            cols == strings_view(columns@),
            forall|k: int| 0 <= k < j ==> !cols.take(k).contains(#[trigger] cols[k]),
        decreases columns.len() - j,
    {
        let cj = chars_of(columns[j].as_str());
        let mut k: usize = 0;
        while k < j
            invariant
                0 <= k <= j,
                j < columns.len(),
                cols == strings_view(columns@),
                cj@ == cols[j as int],
                forall|m: int| 0 <= m < k ==> cols[m] != cols[j as int],
                forall|m: int| 0 <= m < j ==> !cols.take(m).contains(#[trigger] cols[m]),
            decreases j - k,
        {
            if slice_eq(chars_of(columns[k].as_str()).as_slice(), cj.as_slice()) {
                proof {
                    assert(cols.take(j as int)[k as int] == cols[j as int]);
                    assert(cols.take(j as int).contains(cols[j as int]));
                    let w = choose|w: int| 0 <= w < cols.len() && cols.take(w).contains(#[trigger] cols[w])
                        && forall|m: int| 0 <= m < w ==> !cols.take(m).contains(#[trigger] cols[m]);
                    if w < j {
                        assert(!cols.take(w).contains(cols[w]));
                    }
                    if w > j {
                        assert(!cols.take(j as int).contains(cols[j as int]));
                    }
                }
                return Some(j);
            }
            k = k + 1;
        }
        proof {
            assert(!cols.take(j as int).contains(cols[j as int])) by {
                if cols.take(j as int).contains(cols[j as int]) {
                    let m = choose|m: int| 0 <= m < j && cols.take(j as int)[m] == cols[j as int];
                    assert(cols[m] == cols[j as int]);
                }
            }
        }
        j = j + 1;
    }
    None
}

/// The tables of a dataset being written, sorted by name, each once.
#[derive(Debug)]
pub struct TableRegistry {
    names: Vec<String>,
}

impl TableRegistry {
    pub closed spec fn spec_names(&self) -> Seq<Seq<char>> {
        strings_view(self.names@)
    }

    pub open spec fn wf(&self) -> bool {
        sorted_names(self.spec_names())
    }

    pub fn new() -> (r: Self)
        ensures
            r.wf(),
            r.spec_names() == Seq::<Seq<char>>::empty(),
    {
        let r = TableRegistry { names: Vec::new() };
        assert(strings_view(r.names@) =~= Seq::<Seq<char>>::empty());
        r
    }

    /// The registered table names, sorted.
    pub fn names(&self) -> (r: &Vec<String>)
        ensures
            strings_view(r@) == self.spec_names(),
    {
        &self.names
    }

    /// Registers a table before it is written: its name must be a valid
    /// table name not registered yet, and no column name may repeat; the
    /// error names the first column, in schema order, that repeats one
    /// before it. On error nothing is registered.
    pub fn begin_table(&mut self, name: &str, columns: &Vec<String>) -> (r: Result<(), TableError>)
        requires
            old(self).wf(),
        ensures
            final(self).wf(),
            match r {
                Ok(()) => {
                    &&& spec_valid_table_name(name@)
                    &&& !old(self).spec_names().contains(name@)
                    &&& first_repeated_column(strings_view(columns@)) is None
                    &&& final(self).spec_names() == insert_name(old(self).spec_names(), name@)
                },
                Err(TableError::InvalidTableName { name: n }) => n@ == name@ && !spec_valid_table_name(name@)
                    && final(self).spec_names() == old(self).spec_names(),
                Err(TableError::DuplicateTable { name: n }) => n@ == name@ && spec_valid_table_name(name@)
                    && old(self).spec_names().contains(name@) && final(self).spec_names() == old(self).spec_names(),
                Err(TableError::DuplicateColumn { table, column }) => {
                    &&& table@ == name@
                    &&& spec_valid_table_name(name@)
                    &&& !old(self).spec_names().contains(name@)
                    &&& first_repeated_column(strings_view(columns@)) matches Some(j) && column@ == strings_view(columns@)[j]
                    &&& final(self).spec_names() == old(self).spec_names()
                },
            },
    {
        let n = chars_of(name);
        if !valid_table_name(n.as_slice()) {
            return Err(TableError::InvalidTableName { name: name.to_owned() });
        }
        let ghost names = strings_view(self.names@);
        proof {
            lemma_insert_name(names, name@);
            lemma_name_position(names, name@);
        }
        let (pos, found) = find_name(&self.names, n.as_slice());
        if found {
            return Err(TableError::DuplicateTable { name: name.to_owned() });
        }
        match first_repeated(columns) {
            Some(j) => return Err(TableError::DuplicateColumn { table: name.to_owned(), column: columns[j].clone() }),
            None => {},
        }
        self.names.insert(pos, string_of(n.as_slice()));
        assert(strings_view(self.names@) =~= names.insert(pos as int, name@));
        Ok(())
    }
}

/// Why a binding may not be written.
#[derive(Debug)]
pub struct BindingExists {
    pub pack: String,
    pub source_name: String,
    pub kind: DatasetBindingKind,
}

/// An existing binding for the same pack and source may only be replaced
/// when replacing was asked for.
pub fn reject_collision(binding: Option<DatasetBindingKind>, pack: &str, source: &str, replace: bool) -> (r:
    Result<(), BindingExists>)
    ensures
        match r {
            Ok(()) => binding is None || replace,
            Err(e) => binding == Some(e.kind) && !replace && e.pack@ == pack@ && e.source_name@ == source@,
        },
{
    match binding {
        Some(kind) => if !replace {
            return Err(BindingExists { pack: pack.to_owned(), source_name: source.to_owned(), kind });
        },
        None => {},
    }
    Ok(())
}

/// Index of the first resolved binding for `pack` and `source`, if any.
pub fn find_resolved_binding(sources: &Vec<ResolvedSource>, pack: &str, source: &str) -> (r: Option<usize>)
    ensures
        match r {
            Some(i) => i < sources.len() && sources@[i as int].spec_pack() == pack@
                && sources@[i as int].spec_source() == source@ && forall|k: int| 0 <= k < i ==> !(
                #[trigger] sources@[k].spec_pack() == pack@ && sources@[k].spec_source() == source@),
            None => forall|k: int| 0 <= k < sources.len() ==> !(#[trigger] sources@[k].spec_pack() == pack@
                && sources@[k].spec_source() == source@),
        },
{
    let p = chars_of(pack);
    let s = chars_of(source);
    let mut i: usize = 0;
    while i < sources.len()
        invariant
            0 <= i <= sources.len(),
            p@ == pack@,
            s@ == source@,
            forall|k: int| 0 <= k < i ==> !(#[trigger] sources@[k].spec_pack() == pack@ && sources@[k].spec_source() == source@),
        decreases sources.len() - i,
    {
        let b = &sources[i];
        if slice_eq(chars_of(b.pack()).as_slice(), p.as_slice()) && slice_eq(chars_of(b.source()).as_slice(), s.as_slice()) {
            return Some(i);
        }
        i = i + 1;
    }
    None
}

/// The bindings without any for the identity of `new`, then `new`.
pub open spec fn spec_replace_binding(records: Seq<BindingView>, new: BindingView) -> Seq<BindingView> {
    records.filter(|b: BindingView| !same_identity(b, new)).push(new)
}

/// Replaces the bindings for the identity of `new` by `new`, at the end.
pub fn replace_binding(records: Vec<BindingRecord>, new: BindingRecord) -> (r: Vec<BindingRecord>)
    ensures
        records_view(r@) == spec_replace_binding(records_view(records@), new@),
{
    let ghost rv = records_view(records@);
    let mut out: Vec<BindingRecord> = Vec::new();
    let mut input = records;
    let total = input.len();
    let mut i: usize = 0;
    proof {
        reveal(Seq::filter);
        assert(rv.take(0).filter(|b: BindingView| !same_identity(b, new@)) =~= Seq::<BindingView>::empty());
    }
    assert(records_view(input@) =~= rv.skip(0));
    while i < total
        invariant
            0 <= i <= total,
            total == rv.len(),
            records_view(input@) == rv.skip(i as int),
            records_view(out@) == rv.take(i as int).filter(|b: BindingView| !same_identity(b, new@)),
        decreases total - i,
    {
        let ghost before_input = input@;
        assert(records_view(input@).len() == input@.len());
        let rec = input.remove(0);
        assert(rec@ == rv[i as int]) by {
            assert(records_view(before_input)[0] == before_input[0]@);
            assert(records_view(before_input)[0] == rv.skip(i as int)[0]);
        }
        assert(records_view(input@) =~= rv.skip(i + 1)) by {
            assert(records_view(input@) =~= records_view(before_input).drop_first());
        }
        let ghost before_out = records_view(out@);
        assert(rv.take(i + 1) =~= rv.take(i as int).push(rv[i as int]));
        proof {
            reveal(Seq::filter);
            assert(rv.take(i + 1).drop_last() =~= rv.take(i as int));
            assert(rv.take(i + 1).last() == rv[i as int]);
        }
        let keep = !(slice_eq(chars_of(rec.pack.as_str()).as_slice(), chars_of(new.pack.as_str()).as_slice())
            && slice_eq(chars_of(rec.source.as_str()).as_slice(), chars_of(new.source.as_str()).as_slice()));
        if keep {
            out.push(rec);
            assert(records_view(out@) =~= before_out.push(rv[i as int]));
        }
        i = i + 1;
    }
    assert(rv.take(total as int) =~= rv);
    let ghost before_out = records_view(out@);
    let ghost nv = new@;
    out.push(new);
    assert(records_view(out@) =~= before_out.push(nv));
    out
}

/// A binding written by replacing the bindings of its identity reads back,
/// once the result is validated, as the one binding of that identity, with
/// the kind, arguments and working directory it was written with.
pub proof fn lemma_written_binding_reads_back(
    records: Seq<BindingView>,
    new: BindingView,
    absolute: Seq<bool>,
    out: Vec<BindingRecord>,
)
    requires
        absolute.len() == spec_replace_binding(records, new).len(),
        binding_outcome(spec_replace_binding(records, new), absolute, Ok(out)),
    ensures
        recipe_kept(new, records_view(out@)),
        forall|k: int|
            0 <= k < out.len() && same_identity(#[trigger] records_view(out@)[k], new) ==> same_recipe(
                new,
                records_view(out@)[k],
            ),
        forall|i: int| 0 <= i < records.len() && !same_identity(#[trigger] records[i], new) ==> recipe_kept(records[i], records_view(out@)),
        forall|k: int| 0 <= k < out.len() && !same_identity(#[trigger] records_view(out@)[k], new) ==> exists|i: int|
            0 <= i < records.len() && !same_identity(records[i], new) && same_recipe(#[trigger] records[i], records_view(out@)[k]),
{
    let all = spec_replace_binding(records, new);
    let ov = records_view(out@);
    lemma_validated_bindings(all, absolute, out);
    assert(all[all.len() - 1] == new);
    assert(recipe_kept(all[all.len() - 1], ov));
    let k0 = choose|k: int| 0 <= k < ov.len() && same_recipe(new, #[trigger] ov[k]);
    let kept = records.filter(|b: BindingView| !same_identity(b, new));
    assert(all == kept.push(new));
    assert forall|i: int| 0 <= i < records.len() && !same_identity(#[trigger] records[i], new) implies recipe_kept(records[i], ov) by {
        records.lemma_filter_contains(|b: BindingView| !same_identity(b, new), i);
        assert(kept.contains(records[i]));
        let j = choose|j: int| 0 <= j < kept.len() && kept[j] == records[i];
        assert(all[j] == records[i]);
        assert(recipe_kept(all[j], ov));
    }
    assert forall|k: int| 0 <= k < out.len() && !same_identity(#[trigger] ov[k], new) implies exists|i: int|
        0 <= i < records.len() && !same_identity(records[i], new) && same_recipe(#[trigger] records[i], ov[k]) by {
        assert(crate::dataset::bindings::accepted_recipe(all, absolute, ov[k]));
        let j = choose|j: int|
            0 <= j < all.len() && absolute[j] && crate::dataset::names::sp_binding_identity(all[j].pack, all[j].source) is Ok
                && same_recipe(#[trigger] all[j], ov[k]);
        if j == all.len() - 1 {
            assert(all[j] == new);
        } else {
            assert(all[j] == kept[j]);
            lemma_filter_from(records, new, j);
            let i = choose|i: int| 0 <= i < records.len() && records[i] == kept[j];
            assert(same_recipe(records[i], ov[k]));
        }
    }
    assert forall|k: int| 0 <= k < out.len() && same_identity(#[trigger] ov[k], new) implies same_recipe(new, ov[k]) by {
        if k != k0 {
            lemma_identity_order(ov[k], ov[k0], ov[k0]);
            lemma_identity_order(ov[k0], ov[k], ov[k]);
            if k < k0 {
                assert(identity_less(ov[k], ov[k0]));
            } else {
                assert(identity_less(ov[k0], ov[k]));
            }
            crate::text::lemma_name_less_irreflexive(new.pack);
            crate::text::lemma_name_less_irreflexive(new.source);
        }
    }
}

/// Each binding kept by the filter is a binding of `records`.
proof fn lemma_filter_from(records: Seq<BindingView>, new: BindingView, j: int)
    requires
        0 <= j < records.filter(|b: BindingView| !same_identity(b, new)).len(),
    ensures
        exists|i: int| 0 <= i < records.len() && records[i] == records.filter(|b: BindingView| !same_identity(b, new))[j],
    decreases records.len(),
{
    reveal(Seq::filter);
    let f = records.filter(|b: BindingView| !same_identity(b, new));
    let sub = records.drop_last().filter(|b: BindingView| !same_identity(b, new));
    if j < sub.len() {
        lemma_filter_from(records.drop_last(), new, j);
        let i = choose|i: int| 0 <= i < records.drop_last().len() && records.drop_last()[i] == sub[j];
        assert(records[i] == records.drop_last()[i]);
        assert(f[j] == sub[j]);
    } else {
        assert(records[records.len() - 1] == f[j]);
    }
}

} // verus!
