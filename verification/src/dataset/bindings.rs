//! The bindings of a dataset's metadata: each identified by pack and
//! source, validated in file order, then kept sorted by identity.
use vstd::prelude::*;
use crate::text::{chars_of, compare_names, lemma_name_less_irreflexive, lemma_name_less_total, lemma_name_less_transitive, name_less, slice_eq};
use crate::sorted::{sorted_names, strings_view};
use super::inspection::DatasetBindingKind;
use crate::paths::{certainly_relative, path_is_absolute};
use super::names::{spec_valid_table_name, BindingError, BindingErrorView, lemma_table_outcome, names_result_view, sp_binding_identity, sp_table_error, validate_binding_identity, validate_materialized_table_names};

verus! {

/// One binding as the metadata records it; `tables` is empty for an
/// external binding.
#[derive(Debug)]
pub struct BindingRecord {
    pub kind: DatasetBindingKind,
    pub pack: String,
    pub source: String,
    pub arguments: Vec<String>,
    pub working_directory: String,
    pub tables: Vec<String>,
}

/// The content of a [`BindingRecord`].
pub struct BindingView {
    pub kind: DatasetBindingKind,
    pub pack: Seq<char>,
    pub source: Seq<char>,
    pub arguments: Seq<Seq<char>>,
    pub working_directory: Seq<char>,
    pub tables: Seq<Seq<char>>,
}

impl View for BindingRecord {
    type V = BindingView;

    open spec fn view(&self) -> BindingView {
        BindingView {
            kind: self.kind,
            pack: self.pack@,
            source: self.source@,
            arguments: strings_view(self.arguments@),
            working_directory: self.working_directory@,
            tables: strings_view(self.tables@),
        }
    }
}

pub open spec fn records_view(v: Seq<BindingRecord>) -> Seq<BindingView> {
    v.map_values(|r: BindingRecord| r@)
}

/// Order of bindings: by pack, then by source.
pub open spec fn identity_less(a: BindingView, b: BindingView) -> bool {
    name_less(a.pack, b.pack) || (a.pack == b.pack && name_less(a.source, b.source))
}

pub open spec fn same_identity(a: BindingView, b: BindingView) -> bool {
    a.pack == b.pack && a.source == b.source
}

pub(crate) proof fn lemma_identity_order(a: BindingView, b: BindingView, c: BindingView)
    ensures
        same_identity(a, b) || identity_less(a, b) || identity_less(b, a),
        !(identity_less(a, b) && identity_less(b, a)),
        !identity_less(a, a),
        identity_less(a, b) && identity_less(b, c) ==> identity_less(a, c),
{
    lemma_name_less_total(a.pack, b.pack);
    lemma_name_less_total(a.source, b.source);
    lemma_name_less_irreflexive(a.pack);
    lemma_name_less_irreflexive(a.source);
    if identity_less(a, b) && identity_less(b, c) {
        if name_less(a.pack, b.pack) && name_less(b.pack, c.pack) {
            lemma_name_less_transitive(a.pack, b.pack, c.pack);
        }
        if a.pack == b.pack && name_less(a.source, b.source) && b.pack == c.pack && name_less(b.source, c.source) {
            lemma_name_less_transitive(a.source, b.source, c.source);
        }
    }
}

/// Strictly increasing by identity, so each identity occurs once.
pub open spec fn sorted_by_identity(s: Seq<BindingView>) -> bool {
    forall|i: int, j: int| 0 <= i < j < s.len() ==> identity_less(#[trigger] s[i], #[trigger] s[j])
}

/// The error of binding `i`, given the bindings before it; `absolute`
/// tells whether its working directory is absolute.
pub open spec fn sp_record_error(records: Seq<BindingView>, absolute: bool, i: int) -> Option<BindingErrorView> {
    let r = records[i];
    match sp_binding_identity(r.pack, r.source) {
        Err(e) => Some(e),
        Ok(()) => if exists|j: int| 0 <= j < i && same_identity(#[trigger] records[j], r) {
            Some(BindingErrorView::DuplicateBinding { pack: r.pack, source_name: r.source })
        } else if !absolute {
            Some(BindingErrorView::RelativeWorkingDirectory { path: r.working_directory })
        } else if r.kind == DatasetBindingKind::Materialized {
            sp_table_error(r.tables)
        } else {
            None
        },
    }
}

/// The first error among the bindings from `i` on, in file order.
pub open spec fn sp_first_error(records: Seq<BindingView>, absolute: Seq<bool>, i: int) -> Option<BindingErrorView>
    decreases records.len() - i,
{
    if i >= records.len() || i < 0 {
        None
    } else {
        match sp_record_error(records, absolute[i], i) {
            Some(e) => Some(e),
            None => sp_first_error(records, absolute, i + 1),
        }
    }
}

/// `b` is `a` with the table names of a materialized binding sorted.
pub open spec fn normalized(a: BindingView, b: BindingView) -> bool {
    &&& b.kind == a.kind
    &&& b.pack == a.pack
    &&& b.source == a.source
    &&& b.arguments == a.arguments
    &&& b.working_directory == a.working_directory
    &&& if a.kind == DatasetBindingKind::Materialized {
        sorted_names(b.tables) && forall|x: Seq<char>| #[trigger] b.tables.contains(x) <==> a.tables.contains(x)
    } else {
        b.tables == a.tables
    }
}

/// Some binding of `out` is `a` normalized.
pub open spec fn kept_in(a: BindingView, out: Seq<BindingView>) -> bool {
    exists|k: int| 0 <= k < out.len() && normalized(a, #[trigger] out[k])
}

/// `b` is some binding of `records` normalized.
pub open spec fn comes_from(records: Seq<BindingView>, b: BindingView) -> bool {
    exists|i: int| 0 <= i < records.len() && normalized(#[trigger] records[i], b)
}

/// What validating `records` gives, where `absolute[i]` says whether the
/// working directory of binding `i` is absolute: the first error in file
/// order, or the bindings sorted by identity, each with its table names
/// sorted.
pub open spec fn binding_outcome(records: Seq<BindingView>, absolute: Seq<bool>, r: Result<Vec<BindingRecord>, BindingError>) -> bool {
    match r {
        Err(e) => sp_first_error(records, absolute, 0) == Some(e@),
        Ok(out) => {
            &&& sp_first_error(records, absolute, 0) is None
            &&& out.len() == records.len()
            &&& sorted_by_identity(records_view(out@))
            &&& forall|i: int| 0 <= i < records.len() ==> #[trigger] kept_in(records[i], records_view(out@))
            &&& forall|k: int| 0 <= k < out.len() ==> #[trigger] comes_from(records, records_view(out@)[k])
        },
    }
}

fn same_identity_exec(a: &BindingRecord, b: &BindingRecord) -> (r: bool)
    ensures
        r == same_identity(a@, b@),
{
    slice_eq(chars_of(a.pack.as_str()).as_slice(), chars_of(b.pack.as_str()).as_slice())
        && slice_eq(chars_of(a.source.as_str()).as_slice(), chars_of(b.source.as_str()).as_slice())
}

fn identity_less_exec(a: &BindingRecord, b: &BindingRecord) -> (r: bool)
    ensures
        r == identity_less(a@, b@),
{
    let ap = chars_of(a.pack.as_str());
    let bp = chars_of(b.pack.as_str());
    compare_names(ap.as_slice(), bp.as_slice()) || (slice_eq(ap.as_slice(), bp.as_slice())
        && compare_names(chars_of(a.source.as_str()).as_slice(), chars_of(b.source.as_str()).as_slice()))
}

/// Validates the bindings in file order and sorts them by identity: each
/// must have a valid identity, not repeat an earlier one, have an absolute
/// working directory (`absolute[i]`), and, when materialized, valid table
/// names, which come out sorted.
proof fn lemma_each_record_kept(rv: Seq<BindingView>, cv: Seq<BindingView>, sv: Seq<BindingView>)
    requires
        cv.len() == rv.len(),
        forall|k: int| 0 <= k < rv.len() ==> normalized(rv[k], #[trigger] cv[k]),
        forall|k: int| 0 <= k < cv.len() ==> sv.contains(#[trigger] cv[k]),
    ensures
        forall|i: int| 0 <= i < rv.len() ==> #[trigger] kept_in(rv[i], sv),
{
    assert forall|i: int| 0 <= i < rv.len() implies #[trigger] kept_in(rv[i], sv) by {
        assert(sv.contains(cv[i]));
        let m = choose|m: int| 0 <= m < sv.len() && sv[m] == cv[i];
        assert(normalized(rv[i], sv[m]));
    }
}

proof fn lemma_each_output_from_record(rv: Seq<BindingView>, cv: Seq<BindingView>, sv: Seq<BindingView>)
    requires
        cv.len() == rv.len(),
        forall|k: int| 0 <= k < rv.len() ==> normalized(rv[k], #[trigger] cv[k]),
        forall|m: int| 0 <= m < sv.len() ==> cv.contains(#[trigger] sv[m]),
    ensures
        forall|k: int| 0 <= k < sv.len() ==> #[trigger] comes_from(rv, sv[k]),
{
    assert forall|k: int| 0 <= k < sv.len() implies #[trigger] comes_from(rv, sv[k]) by {
        assert(cv.contains(sv[k]));
        let m = choose|m: int| 0 <= m < cv.len() && cv[m] == sv[k];
        assert(normalized(rv[m], cv[m]));
    }
}

pub fn validate_binding_records(records: Vec<BindingRecord>, absolute: &Vec<bool>) -> (r: Result<
    Vec<BindingRecord>,
    BindingError,
>)
    requires
        absolute.len() == records.len(),
    ensures
        binding_outcome(records_view(records@), absolute@, r),
{
    let ghost rv = records_view(records@);
    let total = records.len();
    let mut checked: Vec<BindingRecord> = Vec::new();
    let mut input = records;
    let mut i: usize = 0;
    assert(records_view(input@).skip(0) =~= records_view(input@));
    while i < total
        invariant
            0 <= i <= rv.len(),
            rv == records_view(records@),
            total == rv.len(),
            absolute.len() == rv.len(),
            records_view(input@) == rv.skip(i as int),
            checked.len() == i,
            sp_first_error(rv, absolute@, 0) == sp_first_error(rv, absolute@, i as int),
            forall|k: int| 0 <= k < i ==> normalized(rv[k], #[trigger] records_view(checked@)[k]),
            forall|a: int, b: int| 0 <= a < b < i ==> !same_identity(#[trigger] records_view(checked@)[a], #[trigger] records_view(checked@)[b]),
        decreases rv.len() - i,
    {
        let ghost before_input = input@;
        assert(records_view(input@).len() == input@.len());
        let rec = input.remove(0);
        assert(rec@ == rv[i as int]) by {
            assert(records_view(before_input)[0] == before_input[0]@);
            assert(records_view(before_input)[0] == rv.skip(i as int)[0]);
        }
        assert(records_view(input@) =~= rv.skip(i + 1)) by {
            assert(records_view(input@) =~= records_view(before_input).drop_first());
        }
        match validate_binding_identity(rec.pack.as_str(), rec.source.as_str()) {
            Err(e) => return Err(e),
            Ok(()) => {},
        }
        let mut j: usize = 0;
        while j < checked.len()
            invariant
                0 <= j <= checked.len(),
                checked.len() == i,
                i < rv.len(),
                rv == records_view(records@),
                absolute.len() == rv.len(),
                sp_first_error(rv, absolute@, 0) == sp_first_error(rv, absolute@, i as int),
                sp_binding_identity(rv[i as int].pack, rv[i as int].source) == Ok::<(), BindingErrorView>(()),
                rec@ == rv[i as int],
                forall|k: int| 0 <= k < i ==> normalized(rv[k], #[trigger] records_view(checked@)[k]),
                forall|k: int| 0 <= k < j ==> !same_identity(#[trigger] rv[k], rv[i as int]),
            decreases checked.len() - j,
        {
            if same_identity_exec(&checked[j], &rec) {
                assert(records_view(checked@)[j as int] == checked@[j as int]@);
                assert(same_identity(rv[j as int], rv[i as int]));
                return Err(BindingError::DuplicateBinding { pack: rec.pack, source_name: rec.source });
            }
            assert(records_view(checked@)[j as int] == checked@[j as int]@);
            j = j + 1;
        }
        assert(!exists|k: int| 0 <= k < i && same_identity(#[trigger] rv[k], rv[i as int]));
        if !absolute[i] {
            return Err(BindingError::RelativeWorkingDirectory { path: rec.working_directory });
        }
        let BindingRecord { kind, pack, source, arguments, working_directory, tables } = rec;
        let tables = if kind == DatasetBindingKind::Materialized {
            let res = validate_materialized_table_names(&tables);
            proof {
                lemma_table_outcome(strings_view(tables@), names_result_view(res));
            }
            match res {
                Err(e) => return Err(e),
                Ok(sorted) => sorted,
            }
        } else {
            tables
        };
        let ghost before = records_view(checked@);
        let out = BindingRecord { kind, pack, source, arguments, working_directory, tables };
        assert(normalized(rv[i as int], out@));
        checked.push(out);
        assert(records_view(checked@) =~= before.push(out@));
        proof {
            let c = records_view(checked@);
            assert forall|a: int, b: int| 0 <= a < b < i + 1 implies !same_identity(#[trigger] c[a], #[trigger] c[b]) by {
                if b == i {
                    assert(normalized(rv[a], c[a]));
                    assert(!same_identity(rv[a], rv[i as int]));
                } else {
                    assert(c[a] == before[a] && c[b] == before[b]);
                }
            }
        }
        i = i + 1;
    }
    let mut sorted: Vec<BindingRecord> = Vec::new();
    let ghost cv = records_view(checked@);
    let count = checked.len();
    let mut rest = checked;
    let mut n: usize = 0;
    assert(records_view(rest@).skip(0) =~= records_view(rest@));
    assert(records_view(sorted@) =~= Seq::<BindingView>::empty());
    while n < count
        invariant
            0 <= n <= cv.len(),
            count == cv.len(),
            cv.len() == rv.len(),
            records_view(rest@) == cv.skip(n as int),
            sorted.len() == n,
            sorted_by_identity(records_view(sorted@)),
            forall|k: int| 0 <= k < rv.len() ==> normalized(rv[k], #[trigger] cv[k]),
            forall|k: int| 0 <= k < n ==> records_view(sorted@).contains(#[trigger] cv[k]),
            forall|m: int| 0 <= m < sorted.len() ==> cv.take(n as int).contains(#[trigger] records_view(sorted@)[m]),
            forall|a: int, b: int| 0 <= a < b < cv.len() ==> !same_identity(#[trigger] cv[a], #[trigger] cv[b]),
        decreases cv.len() - n,
    {
        let ghost before_rest = rest@;
        assert(records_view(rest@).len() == rest@.len());
        let rec = rest.remove(0);
        assert(rec@ == cv[n as int]) by {
            assert(records_view(before_rest)[0] == before_rest[0]@);
            assert(records_view(before_rest)[0] == cv.skip(n as int)[0]);
        }
        assert(records_view(rest@) =~= cv.skip(n + 1)) by {
            assert(records_view(rest@) =~= records_view(before_rest).drop_first());
        }
        let ghost sv = records_view(sorted@);
        let mut pos: usize = 0;
        while pos < sorted.len() && identity_less_exec(&sorted[pos], &rec)
            invariant
                0 <= pos <= sorted.len(),
                sv == records_view(sorted@),
                forall|k: int| 0 <= k < pos ==> identity_less(#[trigger] sv[k], rec@),
            decreases sorted.len() - pos,
        {
            assert(sv[pos as int] == sorted@[pos as int]@);
            pos = pos + 1;
        }
        proof {
            if pos < sorted.len() {
                assert(sv[pos as int] == sorted@[pos as int]@);
                assert(!identity_less(sv[pos as int], rec@));
                assert(cv.take(n as int).contains(sv[pos as int]));
                let k = choose|k: int| 0 <= k < n && cv.take(n as int)[k] == sv[pos as int];
                assert(cv.take(n as int)[k] == cv[k]);
                assert(!same_identity(cv[k], cv[n as int]));
                lemma_identity_order(sv[pos as int], rec@, rec@);
            }
        }
        sorted.insert(pos, rec);
        proof {
            let t = records_view(sorted@);
            assert(t =~= sv.insert(pos as int, cv[n as int]));
            assert forall|a: int, b: int| 0 <= a < b < t.len() implies identity_less(#[trigger] t[a], #[trigger] t[b]) by {
                if b < pos {
                    assert(t[a] == sv[a] && t[b] == sv[b]);
                } else if b == pos {
                    assert(t[a] == sv[a]);
                } else if a == pos {
                    assert(t[b] == sv[b - 1]);
                    if b - 1 > pos {
                        lemma_identity_order(cv[n as int], sv[pos as int], sv[b - 1]);
                    }
                } else if a < pos {
                    assert(t[a] == sv[a] && t[b] == sv[b - 1]);
                } else {
                    assert(t[a] == sv[a - 1] && t[b] == sv[b - 1]);
                }
            }
            assert forall|k: int| 0 <= k < n + 1 implies t.contains(#[trigger] cv[k]) by {
                if k == n {
                    assert(t[pos as int] == cv[k]);
                } else {
                    assert(sv.contains(cv[k]));
                    let m = choose|m: int| 0 <= m < sv.len() && sv[m] == cv[k];
                    if m < pos {
                        assert(t[m] == cv[k]);
                    } else {
                        assert(t[m + 1] == cv[k]);
                    }
                }
            }
            assert forall|m: int| 0 <= m < t.len() implies cv.take(n + 1).contains(#[trigger] t[m]) by {
                assert(cv.take(n + 1)[n as int] == cv[n as int]);
                if m == pos {
                    assert(t[m] == cv[n as int]);
                } else {
                    let mm = if m < pos { m } else { m - 1 };
                    assert(t[m] == sv[mm]);
                    assert(cv.take(n as int).contains(sv[mm]));
                    let k = choose|k: int| 0 <= k < n && cv.take(n as int)[k] == sv[mm];
                    assert(cv.take(n + 1)[k] == cv.take(n as int)[k]);
                }
            }
        }
        n = n + 1;
    }
    proof {
        assert(cv.take(count as int) =~= cv);
        lemma_each_record_kept(rv, cv, records_view(sorted@));
        lemma_each_output_from_record(rv, cv, records_view(sorted@));
    }
    Ok(sorted)
}

/// The flags count no working directory as absolute that is relative on
/// every platform.
pub open spec fn flags_respect_relative(records: Seq<BindingView>, absolute: Seq<bool>) -> bool {
    forall|i: int| 0 <= i < records.len() && certainly_relative(#[trigger] records[i].working_directory) ==> !absolute[i]
}

/// Validation never accepts a binding whose working directory is relative
/// on every platform: with flags that count no such directory as absolute,
/// an accepted set of bindings has none.
pub proof fn lemma_relative_working_directory_rejected(records: Seq<BindingView>, absolute: Seq<bool>, out: Vec<BindingRecord>)
    requires
        absolute.len() == records.len(),
        binding_outcome(records, absolute, Ok(out)),
        flags_respect_relative(records, absolute),
    ensures
        forall|i: int| 0 <= i < records.len() ==> !certainly_relative(#[trigger] records[i].working_directory),
        forall|k: int| 0 <= k < out.len() ==> !certainly_relative(#[trigger] records_view(out@)[k].working_directory),
{
    assert forall|i: int| 0 <= i < records.len() implies !certainly_relative(#[trigger] records[i].working_directory) by {
        lemma_no_first_error(records, absolute, 0, i);
    }
    lemma_validated_bindings(records, absolute, out);
    assert forall|k: int| 0 <= k < out.len() implies !certainly_relative(#[trigger] records_view(out@)[k].working_directory) by {
        assert(accepted_recipe(records, absolute, records_view(out@)[k]));
        let i = choose|i: int|
            0 <= i < records.len() && absolute[i] && sp_binding_identity(records[i].pack, records[i].source) is Ok
                && same_recipe(#[trigger] records[i], records_view(out@)[k]);
    }
}

/// Validates the bindings of a dataset's metadata as
/// [`validate_binding_records`] does, each working directory counting as
/// absolute as `Path::is_absolute` says on this platform.
pub fn validate_bindings(records: Vec<BindingRecord>) -> (r: Result<Vec<BindingRecord>, BindingError>)
    ensures
        exists|absolute: Seq<bool>|
            absolute.len() == records.len() && binding_outcome(records_view(records@), absolute, r) && flags_respect_relative(
                records_view(records@),
                absolute,
            ),
{
    let mut absolute: Vec<bool> = Vec::new();
    let mut i: usize = 0;
    while i < records.len()
        invariant
            0 <= i <= records.len(),
            absolute.len() == i,
            forall|j: int| 0 <= j < i && certainly_relative(#[trigger] records@[j].working_directory@) ==> !absolute@[j],
        decreases records.len() - i,
    {
        absolute.push(path_is_absolute(records[i].working_directory.as_str()));
        i = i + 1;
    }
    let ghost flags = absolute@;
    let ghost rv = records_view(records@);
    assert(flags_respect_relative(rv, flags)) by {
        assert forall|j: int| 0 <= j < rv.len() && certainly_relative(#[trigger] rv[j].working_directory) implies !flags[j] by {
            assert(rv[j].working_directory == records@[j].working_directory@);
        }
    }
    let r = validate_binding_records(records, &absolute);
    assert(flags.len() == rv.len() && binding_outcome(rv, flags, r) && flags_respect_relative(rv, flags));
    r
}

proof fn lemma_no_first_error(records: Seq<BindingView>, absolute: Seq<bool>, j: int, i: int)
    requires
        0 <= j <= i < records.len(),
        sp_first_error(records, absolute, j) is None,
    ensures
        sp_record_error(records, absolute[i], i) is None,
    decreases i - j,
{
    if j < i {
        lemma_no_first_error(records, absolute, j + 1, i);
    }
}

/// `b` has the kind, identity, arguments and working directory of `a`.
pub open spec fn same_recipe(a: BindingView, b: BindingView) -> bool {
    &&& b.kind == a.kind
    &&& b.pack == a.pack
    &&& b.source == a.source
    &&& b.arguments == a.arguments
    &&& b.working_directory == a.working_directory
}

/// `b` has the recipe of a binding of `records` with a valid identity
/// whose working directory was found absolute.
pub open spec fn accepted_recipe(records: Seq<BindingView>, absolute: Seq<bool>, b: BindingView) -> bool {
    exists|i: int|
        0 <= i < records.len() && absolute[i] && sp_binding_identity(records[i].pack, records[i].source) is Ok
            && same_recipe(#[trigger] records[i], b)
}

/// Some binding of `out` has the recipe of `a`.
pub open spec fn recipe_kept(a: BindingView, out: Seq<BindingView>) -> bool {
    exists|k: int| 0 <= k < out.len() && same_recipe(a, #[trigger] out[k])
}

/// A non-empty list of valid table names, sorted, each once.
pub open spec fn valid_table_list(t: Seq<Seq<char>>) -> bool {
    &&& t.len() > 0
    &&& sorted_names(t)
    &&& forall|j: int| 0 <= j < t.len() ==> spec_valid_table_name(#[trigger] t[j])
}

/// Every binding that validation accepts has a valid identity, a
/// working directory found absolute, and, when materialized, a non-empty
/// list of valid table names, sorted, each once; validation gives back each
/// binding's kind, identity, arguments and working directory unchanged.
pub proof fn lemma_validated_bindings(records: Seq<BindingView>, absolute: Seq<bool>, out: Vec<BindingRecord>)
    requires
        absolute.len() == records.len(),
        binding_outcome(records, absolute, Ok(out)),
    ensures
        forall|k: int| 0 <= k < out.len() ==> #[trigger] accepted_recipe(records, absolute, records_view(out@)[k]),
        forall|k: int|
            0 <= k < out.len() && (#[trigger] records_view(out@)[k]).kind == DatasetBindingKind::Materialized
                ==> valid_table_list(records_view(out@)[k].tables),
        forall|i: int| 0 <= i < records.len() ==> #[trigger] recipe_kept(records[i], records_view(out@)),
{
    let ov = records_view(out@);
    assert forall|k: int| 0 <= k < out.len() implies #[trigger] accepted_recipe(records, absolute, ov[k]) by {
        assert(comes_from(records, ov[k]));
        let i = choose|i: int| 0 <= i < records.len() && normalized(#[trigger] records[i], ov[k]);
        lemma_no_first_error(records, absolute, 0, i);
        assert(same_recipe(records[i], ov[k]));
    }
    assert forall|k: int| 0 <= k < out.len() && (#[trigger] ov[k]).kind == DatasetBindingKind::Materialized implies valid_table_list(
        ov[k].tables,
    ) by {
        assert(comes_from(records, ov[k]));
        let i = choose|i: int| 0 <= i < records.len() && normalized(#[trigger] records[i], ov[k]);
        lemma_no_first_error(records, absolute, 0, i);
        let t = records[i].tables;
        assert(sp_table_error(t) is None);
        assert(t.contains(t[0]));
        assert(ov[k].tables.contains(t[0]));
        assert forall|j: int| 0 <= j < ov[k].tables.len() implies spec_valid_table_name(#[trigger] ov[k].tables[j]) by {
            assert(ov[k].tables.contains(ov[k].tables[j]));
            assert(t.contains(ov[k].tables[j]));
        }
    }
    assert forall|i: int| 0 <= i < records.len() implies #[trigger] recipe_kept(records[i], ov) by {
        assert(kept_in(records[i], ov));
        let k = choose|k: int| 0 <= k < ov.len() && normalized(records[i], #[trigger] ov[k]);
        assert(same_recipe(records[i], ov[k]));
    }
}

} // verus!
