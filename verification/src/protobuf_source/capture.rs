//! The bookkeeping of a Source capture: row ids per relation, which
//! relations received rows, the first failure, which stops the capture,
//! and the enum symbols of the relations that received rows.
use vstd::prelude::*;
use crate::text::{chars_of, compare_names, lemma_name_less_total, lemma_name_less_transitive, name_less};
use super::spool::{EstimateError, SpoolOptions, SpoolOptionsError, add_estimated_bytes, spec_variable_width_bytes, text_bytes, utf8_len};
use super::spec::{EnumOriginSpec, RelationSpec, SpecError, sp_origins_error, sp_specs_error, validate_specs};

verus! {

/// What stopped a capture.
#[derive(Debug, Clone, PartialEq, Eq)]
pub enum PoisonCause {
    /// A row id was asked of a relation slot that does not exist.
    MissingSlot,
    /// The relation has handed out every `u64` row id.
    RowIdOverflow { relation: String },
    /// Writing a row failed.
    AppendFailed,
}

/// The failure that stopped a capture, with the relation slot it concerned.
#[derive(Debug, Clone, PartialEq, Eq)]
pub struct Poison {
    pub slot: usize,
    pub cause: PoisonCause,
}

impl Poison {
    /// A copy of the failure.
    pub fn duplicate(&self) -> (r: Self)
        ensures
            r == *self,
    {
        let cause = match &self.cause {
            PoisonCause::MissingSlot => PoisonCause::MissingSlot,
            PoisonCause::RowIdOverflow { relation } => PoisonCause::RowIdOverflow { relation: relation.clone() },
            PoisonCause::AppendFailed => PoisonCause::AppendFailed,
        };
        Poison { slot: self.slot, cause }
    }
}

/// Why a capture refuses a call.
#[derive(Debug)]
pub enum CaptureError {
    /// An earlier failure stopped the capture.
    Poisoned { poison: Poison },
    /// There is no relation at this slot.
    MissingSlot { slot: usize },
    /// The relation has handed out every `u64` row id.
    RowIdOverflow { relation: String },
}

/// Why a capture cannot be set up.
#[derive(Debug)]
pub enum CaptureSetupError {
    Options(SpoolOptionsError),
    Spec(SpecError),
}

/// One symbol of an enum field of a relation that received rows.
#[derive(Debug)]
pub struct EnumDefinition {
    pub origin_table: String,
    pub origin_field_path: String,
    pub enum_name: String,
    pub enum_number: i32,
    pub enum_symbol: String,
}

pub struct EnumDefinitionView {
    pub origin_table: Seq<char>,
    pub origin_field_path: Seq<char>,
    pub enum_name: Seq<char>,
    pub enum_number: i32,
    pub enum_symbol: Seq<char>,
}

impl View for EnumDefinition {
    type V = EnumDefinitionView;

    open spec fn view(&self) -> EnumDefinitionView {
        EnumDefinitionView {
            origin_table: self.origin_table@,
            origin_field_path: self.origin_field_path@,
            enum_name: self.enum_name@,
            enum_number: self.enum_number,
            enum_symbol: self.enum_symbol@,
        }
    }
}

pub open spec fn definitions_view(v: Seq<EnumDefinition>) -> Seq<EnumDefinitionView> {
    v.map_values(|d: EnumDefinition| d@)
}

/// The order of the enum symbol table: by table, then field path, then
/// number.
pub open spec fn definition_less(a: EnumDefinitionView, b: EnumDefinitionView) -> bool {
    ||| name_less(a.origin_table, b.origin_table)
    ||| (a.origin_table == b.origin_table && name_less(a.origin_field_path, b.origin_field_path))
    ||| (a.origin_table == b.origin_table && a.origin_field_path == b.origin_field_path && a.enum_number
        < b.enum_number)
}

/// Nondecreasing in [`definition_less`] order.
pub open spec fn definitions_sorted(s: Seq<EnumDefinitionView>) -> bool {
    forall|i: int, j: int| 0 <= i < j < s.len() ==> !definition_less(#[trigger] s[j], #[trigger] s[i])
}

/// The symbols of one enum origin, as rows of the enum symbol table.
pub open spec fn origin_definitions(table: Seq<char>, o: EnumOriginSpec) -> Seq<EnumDefinitionView> {
    o.symbols@.map_values(
        |s: super::spec::EnumSymbol| EnumDefinitionView {
            origin_table: table,
            origin_field_path: o.field_path@,
            enum_name: o.enum_name@,
            enum_number: s.number,
            enum_symbol: s.symbol@,
        },
    )
}

/// The symbols of the origins from `i` on whose relation received rows.
pub open spec fn active_definitions(names: Seq<Seq<char>>, active: Seq<bool>, origins: Seq<EnumOriginSpec>, i: int) -> Seq<
    EnumDefinitionView,
>
    decreases origins.len() - i,
{
    if i < 0 || i >= origins.len() {
        Seq::empty()
    } else {
        let o = origins[i];
        let rest = active_definitions(names, active, origins, i + 1);
        if active[o.relation as int] {
            origin_definitions(names[o.relation as int], o) + rest
        } else {
            rest
        }
    }
}

/// The estimate of an enum symbol row: three texts, a number, a text.
pub open spec fn spec_definition_bytes(d: EnumDefinition) -> int {
    spec_variable_width_bytes(utf8_len(d.origin_table@)) + spec_variable_width_bytes(
        utf8_len(d.origin_field_path@),
    ) + spec_variable_width_bytes(utf8_len(d.enum_name@)) + 5 + spec_variable_width_bytes(
        utf8_len(d.enum_symbol@),
    )
}

impl EnumDefinition {
    /// The logical size estimate of the row; a text whose estimate does not
    /// fit comes first, then a total that does not fit.
    pub fn estimated_bytes(&self) -> (r: Result<usize, EstimateError>)
        ensures
            match r {
                Ok(n) => n == spec_definition_bytes(*self),
                Err(e) => {
                    ||| (e == EstimateError::Utf8Overflow && (spec_variable_width_bytes(
                        utf8_len(self.origin_table@),
                    ) > usize::MAX || spec_variable_width_bytes(utf8_len(self.origin_field_path@))
                        > usize::MAX || spec_variable_width_bytes(utf8_len(self.enum_name@)) > usize::MAX
                        || spec_variable_width_bytes(utf8_len(self.enum_symbol@)) > usize::MAX))
                    ||| (e == EstimateError::TotalOverflow && spec_definition_bytes(*self) > usize::MAX)
                },
            },
    {
        let a = match text_bytes(self.origin_table.as_str()) {
            Err(e) => return Err(e),
            Ok(n) => n,
        };
        let b = match text_bytes(self.origin_field_path.as_str()) {
            Err(e) => return Err(e),
            Ok(n) => n,
        };
        let c = match text_bytes(self.enum_name.as_str()) {
            Err(e) => return Err(e),
            Ok(n) => n,
        };
        let d = match text_bytes(self.enum_symbol.as_str()) {
            Err(e) => return Err(e),
            Ok(n) => n,
        };
        let mut total: usize = 0;
        match add_estimated_bytes(&mut total, a) {
            Err(e) => return Err(e),
            Ok(()) => {},
        }
        match add_estimated_bytes(&mut total, b) {
            Err(e) => return Err(e),
            Ok(()) => {},
        }
        match add_estimated_bytes(&mut total, c) {
            Err(e) => return Err(e),
            Ok(()) => {},
        }
        match add_estimated_bytes(&mut total, 5) {
            Err(e) => return Err(e),
            Ok(()) => {},
        }
        match add_estimated_bytes(&mut total, d) {
            Err(e) => return Err(e),
            Ok(()) => {},
        }
        Ok(total)
    }
}

/// What a capture has recorded.
pub struct CaptureView {
    pub relation_names: Seq<Seq<char>>,
    /// The next row id of each relation; none once every id is handed out.
    pub next_row_ids: Seq<Option<u64>>,
    /// Whether each relation received a row.
    pub has_rows: Seq<bool>,
    pub origins: Seq<EnumOriginSpec>,
    pub options: SpoolOptions,
    pub poisoned: Option<Poison>,
}

/// The bookkeeping of a capture of Source tables.
#[derive(Debug)]
pub struct SourceTableCapture {
    relations: Vec<RelationSpec>,
    next_row_ids: Vec<Option<u64>>,
    has_rows: Vec<bool>,
    enum_origins: Vec<EnumOriginSpec>,
    options: SpoolOptions,
    poisoned: Option<Poison>,
}

/// Every origin names one of `n` relations.
pub open spec fn origins_in_range(origins: Seq<EnumOriginSpec>, n: nat) -> bool {
    forall|k: int| 0 <= k < origins.len() ==> (#[trigger] origins[k]).relation < n
}

pub open spec fn relation_names(rels: Seq<RelationSpec>) -> Seq<Seq<char>> {
    rels.map_values(|r: RelationSpec| r.name@)
}

/// Every origin refers to an existing relation.
proof fn lemma_origins_in_range(rels: Seq<RelationSpec>, origins: Seq<EnumOriginSpec>, i: int)
    requires
        0 <= i <= origins.len(),
        sp_origins_error(rels, origins, i) is None,
    ensures
        forall|k: int| i <= k < origins.len() ==> (#[trigger] origins[k]).relation < rels.len(),
    decreases origins.len() - i,
{
    if i < origins.len() {
        lemma_origins_in_range(rels, origins, i + 1);
    }
}

proof fn lemma_definition_order(a: EnumDefinitionView, b: EnumDefinitionView)
    ensures
        !(definition_less(a, b) && definition_less(b, a)),
        !definition_less(a, b) && !definition_less(b, a) ==> a.origin_table == b.origin_table
            && a.origin_field_path == b.origin_field_path && a.enum_number == b.enum_number,
{
    lemma_name_less_total(a.origin_table, b.origin_table);
    lemma_name_less_total(a.origin_field_path, b.origin_field_path);
    crate::text::lemma_name_less_irreflexive(a.origin_table);
    crate::text::lemma_name_less_irreflexive(a.origin_field_path);
}

proof fn lemma_definition_transitive(a: EnumDefinitionView, b: EnumDefinitionView, c: EnumDefinitionView)
    requires
        definition_less(a, b),
        !definition_less(c, b),
    ensures
        definition_less(a, c),
{
    lemma_definition_order(b, c);
    lemma_name_less_total(a.origin_table, b.origin_table);
    lemma_name_less_total(b.origin_table, c.origin_table);
    crate::text::lemma_name_less_irreflexive(a.origin_table);
    crate::text::lemma_name_less_irreflexive(b.origin_table);
    crate::text::lemma_name_less_irreflexive(a.origin_field_path);
    crate::text::lemma_name_less_irreflexive(b.origin_field_path);
    if name_less(a.origin_table, b.origin_table) && name_less(b.origin_table, c.origin_table) {
        lemma_name_less_transitive(a.origin_table, b.origin_table, c.origin_table);
    }
    if a.origin_table == b.origin_table && b.origin_table == c.origin_table {
        lemma_name_less_total(a.origin_field_path, b.origin_field_path);
        lemma_name_less_total(b.origin_field_path, c.origin_field_path);
        if name_less(a.origin_field_path, b.origin_field_path) && name_less(
            b.origin_field_path,
            c.origin_field_path,
        ) {
            lemma_name_less_transitive(a.origin_field_path, b.origin_field_path, c.origin_field_path);
        }
    }
}

/// A definition has table `table`, field path `path` and number `number`.
pub open spec fn has_key(table: Seq<char>, path: Seq<char>, number: i32) -> spec_fn(EnumDefinitionView) -> bool {
    |d: EnumDefinitionView| d.origin_table == table && d.origin_field_path == path && d.enum_number == number
}

/// The definitions of `s` with one key, in the order of `s`.
pub open spec fn definitions_with_key(s: Seq<EnumDefinitionView>, table: Seq<char>, path: Seq<char>, number: i32) -> Seq<
    EnumDefinitionView,
> {
    s.filter(has_key(table, path, number))
}

/// Definitions that share a key come in the same order in `out` as in
/// `input`, and are the same ones.
pub open spec fn keeps_key_order(out: Seq<EnumDefinitionView>, input: Seq<EnumDefinitionView>) -> bool {
    forall|t: Seq<char>, p: Seq<char>, n: i32|
        #[trigger] definitions_with_key(out, t, p, n) == definitions_with_key(input, t, p, n)
}

proof fn lemma_filter_none(s: Seq<EnumDefinitionView>, pred: spec_fn(EnumDefinitionView) -> bool)
    requires
        forall|i: int| 0 <= i < s.len() ==> !pred(#[trigger] s[i]),
    ensures
        s.filter(pred) == Seq::<EnumDefinitionView>::empty(),
    decreases s.len(),
{
    reveal(Seq::filter);
    if s.len() > 0 {
        lemma_filter_none(s.drop_last(), pred);
    }
}

proof fn lemma_filter_some(s: Seq<EnumDefinitionView>, pred: spec_fn(EnumDefinitionView) -> bool)
    requires
        s.filter(pred).len() > 0,
    ensures
        exists|i: int| 0 <= i < s.len() && pred(#[trigger] s[i]),
{
    if !(exists|i: int| 0 <= i < s.len() && pred(#[trigger] s[i])) {
        lemma_filter_none(s, pred);
    }
}

/// Inserting `x` before the first definition that follows it, into a
/// sequence that keeps the key order of `prev`, keeps that of `prev` with
/// `x` pushed.
proof fn lemma_insert_keeps_key_order(ov: Seq<EnumDefinitionView>, pos: int, x: EnumDefinitionView, prev: Seq<EnumDefinitionView>)
    requires
        0 <= pos <= ov.len(),
        forall|k: int| pos <= k < ov.len() ==> definition_less(x, #[trigger] ov[k]),
        keeps_key_order(ov, prev),
    ensures
        keeps_key_order(ov.insert(pos, x), prev.push(x)),
{
    broadcast use Seq::filter_distributes_over_add, Seq::lemma_filter_push;

    let head = ov.take(pos);
    let tail = ov.skip(pos);
    assert(ov =~= head + tail);
    assert(ov.insert(pos, x) =~= head.push(x) + tail);
    assert forall|t: Seq<char>, p: Seq<char>, n: i32|
        #[trigger] definitions_with_key(ov.insert(pos, x), t, p, n) == definitions_with_key(prev.push(x), t, p, n) by {
        let pred = has_key(t, p, n);
        assert(definitions_with_key(ov, t, p, n) == definitions_with_key(prev, t, p, n));
        assert((head + tail).filter(pred) == head.filter(pred) + tail.filter(pred));
        assert((head.push(x) + tail).filter(pred) == head.push(x).filter(pred) + tail.filter(pred));
        if pred(x) {
            crate::text::lemma_name_less_irreflexive(t);
            crate::text::lemma_name_less_irreflexive(p);
            assert forall|i: int| 0 <= i < tail.len() implies !pred(#[trigger] tail[i]) by {
                assert(tail[i] == ov[pos + i]);
            }
            lemma_filter_none(tail, pred);
            assert(head.filter(pred) + Seq::<EnumDefinitionView>::empty() =~= head.filter(pred));
            assert(head.filter(pred).push(x) + Seq::<EnumDefinitionView>::empty() =~= head.filter(pred).push(x));
        }
    }
}

/// Sorting by key, with definitions that share a key in their order, has
/// one outcome: two sorted sequences that hold the same definitions of
/// each key in the same order are equal.
pub proof fn lemma_key_order_determines(a: Seq<EnumDefinitionView>, b: Seq<EnumDefinitionView>)
    requires
        definitions_sorted(a),
        definitions_sorted(b),
        keeps_key_order(a, b),
    ensures
        a == b,
    decreases a.len() + b.len(),
{
    broadcast use Seq::lemma_filter_push;

    if a.len() == 0 && b.len() == 0 {
        assert(a =~= b);
    } else if a.len() == 0 || b.len() == 0 {
        let (e, other) = if a.len() > 0 { (a.last(), b) } else { (b.last(), a) };
        let (s, i) = if a.len() > 0 { (a, a.len() - 1) } else { (b, b.len() - 1) };
        let pred = has_key(e.origin_table, e.origin_field_path, e.enum_number);
        assert(s =~= s.drop_last().push(e));
        assert(s.filter(pred) == s.drop_last().filter(pred).push(e));
        assert(definitions_with_key(a, e.origin_table, e.origin_field_path, e.enum_number) == definitions_with_key(
            b,
            e.origin_table,
            e.origin_field_path,
            e.enum_number,
        ));
        lemma_filter_none(other, pred);
    } else {
        let la = a.last();
        let lb = b.last();
        let pa = has_key(la.origin_table, la.origin_field_path, la.enum_number);
        let pb = has_key(lb.origin_table, lb.origin_field_path, lb.enum_number);
        assert(a =~= a.drop_last().push(la));
        assert(b =~= b.drop_last().push(lb));
        assert(definitions_with_key(a, la.origin_table, la.origin_field_path, la.enum_number) == definitions_with_key(
            b,
            la.origin_table,
            la.origin_field_path,
            la.enum_number,
        ));
        assert(definitions_with_key(a, lb.origin_table, lb.origin_field_path, lb.enum_number) == definitions_with_key(
            b,
            lb.origin_table,
            lb.origin_field_path,
            lb.enum_number,
        ));
        assert(a.filter(pa) == a.drop_last().filter(pa).push(la));
        assert(b.filter(pb) == b.drop_last().filter(pb).push(lb));
        lemma_filter_some(b, pa);
        lemma_filter_some(a, pb);
        let i = choose|i: int| 0 <= i < b.len() && pa(#[trigger] b[i]);
        let j = choose|j: int| 0 <= j < a.len() && pb(#[trigger] a[j]);
        if i < b.len() - 1 {
            assert(!definition_less(b[b.len() - 1], b[i]));
        }
        if j < a.len() - 1 {
            assert(!definition_less(a[a.len() - 1], a[j]));
        }
        crate::text::lemma_name_less_irreflexive(la.origin_table);
        crate::text::lemma_name_less_irreflexive(la.origin_field_path);
        crate::text::lemma_name_less_irreflexive(lb.origin_table);
        crate::text::lemma_name_less_irreflexive(lb.origin_field_path);
        lemma_definition_order(la, lb);
        assert(pa == pb);
        assert(a.filter(pa).last() == la);
        assert(b.filter(pb).last() == lb);
        assert(a.filter(pa) == b.filter(pa));
        assert(la == lb);
        assert forall|t: Seq<char>, p: Seq<char>, n: i32|
            #[trigger] definitions_with_key(a.drop_last(), t, p, n) == definitions_with_key(b.drop_last(), t, p, n) by {
            let q = has_key(t, p, n);
            assert(definitions_with_key(a, t, p, n) == definitions_with_key(b, t, p, n));
            assert(a.filter(q) == a.drop_last().filter(q).push(la) || a.filter(q) == a.drop_last().filter(q));
            if q(la) {
                assert(a.drop_last().filter(q) =~= a.filter(q).drop_last());
                assert(b.drop_last().filter(q) =~= b.filter(q).drop_last());
            }
        }
        lemma_key_order_determines(a.drop_last(), b.drop_last());
        assert(a =~= b);
    }
}

fn definition_precedes(a: &EnumDefinition, b: &EnumDefinition) -> (r: bool)
    ensures
        r == definition_less(a@, b@),
{
    let at = chars_of(a.origin_table.as_str());
    let bt = chars_of(b.origin_table.as_str());
    if compare_names(at.as_slice(), bt.as_slice()) {
        return true;
    }
    if compare_names(bt.as_slice(), at.as_slice()) {
        proof {
            lemma_name_less_total(a@.origin_table, b@.origin_table);
        }
        return false;
    }
    proof {
        lemma_name_less_total(a@.origin_table, b@.origin_table);
    }
    let ap = chars_of(a.origin_field_path.as_str());
    let bp = chars_of(b.origin_field_path.as_str());
    if compare_names(ap.as_slice(), bp.as_slice()) {
        return true;
    }
    if compare_names(bp.as_slice(), ap.as_slice()) {
        proof {
            lemma_name_less_total(a@.origin_field_path, b@.origin_field_path);
        }
        return false;
    }
    proof {
        lemma_name_less_total(a@.origin_field_path, b@.origin_field_path);
    }
    a.enum_number < b.enum_number
}

/// Sorts the rows of the enum symbol table, keeping each row once; rows of
/// equal order keep their order.
fn sort_definitions(v: Vec<EnumDefinition>) -> (r: Vec<EnumDefinition>)
    ensures
        definitions_sorted(definitions_view(r@)),
        definitions_view(r@).to_multiset() == definitions_view(v@).to_multiset(),
        keeps_key_order(definitions_view(r@), definitions_view(v@)),
        r.len() == v.len(),
{
    broadcast use vstd::seq_lib::to_multiset_build, vstd::seq_lib::to_multiset_insert, vstd::seq_lib::to_multiset_len;

    let ghost input = definitions_view(v@);
    let mut rest = v;
    let mut out: Vec<EnumDefinition> = Vec::new();
    let mut taken: usize = 0;
    let total = rest.len();
    assert(definitions_view(out@) =~= Seq::<EnumDefinitionView>::empty());
    assert(input.take(0) =~= Seq::<EnumDefinitionView>::empty());
    assert(definitions_view(rest@) =~= input.skip(0));
    proof {
        reveal(Seq::filter);
    }
    while rest.len() > 0
        invariant
            total == input.len(),
            taken + rest.len() == total,
            definitions_view(rest@) == input.skip(taken as int),
            out.len() == taken,
            definitions_sorted(definitions_view(out@)),
            definitions_view(out@).to_multiset() == input.take(taken as int).to_multiset(),
            keeps_key_order(definitions_view(out@), input.take(taken as int)),
        decreases rest.len(),
    {
        let ghost rv = definitions_view(rest@);
        let ghost rest_before = rest@;
        let x = rest.remove(0);
        proof {
            assert(x == rest_before[0]);
            assert(x@ == rv[0]);
            assert(rv[0] == input[taken as int]);
            assert(rest@ == rest_before.remove(0));
            assert forall|k: int| 0 <= k < rest@.len() implies definitions_view(rest@)[k] == input.skip(taken + 1)[k] by {
                assert(rest@[k] == rest_before[k + 1]);
                assert(rv[k + 1] == input.skip(taken as int)[k + 1]);
            }
            assert(definitions_view(rest@) =~= input.skip(taken + 1));
        }
        let ghost ov = definitions_view(out@);
        let mut pos: usize = 0;
        while pos < out.len() && !definition_precedes(&x, &out[pos])
            invariant
                0 <= pos <= out.len(),
                ov == definitions_view(out@),
                forall|k: int| 0 <= k < pos ==> !definition_less(x@, #[trigger] ov[k]),
            decreases out.len() - pos,
        {
            pos = pos + 1;
        }
        proof {
            if pos < ov.len() {
                assert(definition_less(x@, ov[pos as int]));
                assert forall|k: int| pos <= k < ov.len() implies definition_less(x@, #[trigger] ov[k]) by {
                    if k > pos {
                        assert(!definition_less(ov[k], ov[pos as int]));
                        lemma_definition_transitive(x@, ov[pos as int], ov[k]);
                    }
                }
            }
        }
        out.insert(pos, x);
        proof {
            let t = definitions_view(out@);
            assert(t =~= ov.insert(pos as int, x@));
            assert(input.take(taken + 1) =~= input.take(taken as int).push(input[taken as int]));
            vstd::seq_lib::to_multiset_insert(ov, pos as int, x@);
            vstd::seq_lib::to_multiset_build(input.take(taken as int), input[taken as int]);
            lemma_insert_keeps_key_order(ov, pos as int, x@, input.take(taken as int));
            assert forall|a: int, b: int| 0 <= a < b < t.len() implies !definition_less(#[trigger] t[b], #[trigger] t[a]) by {
                if b < pos {
                    assert(t[a] == ov[a] && t[b] == ov[b]);
                } else if b == pos {
                    assert(t[a] == ov[a]);
                } else if a == pos {
                    assert(t[b] == ov[b - 1]);
                    lemma_definition_order(x@, ov[b - 1]);
                } else if a < pos {
                    assert(t[a] == ov[a] && t[b] == ov[b - 1]);
                    lemma_definition_order(x@, ov[b - 1]);
                    if definition_less(ov[b - 1], ov[a]) {
                        assert(!definition_less(x@, ov[a]));
                        lemma_definition_order(x@, ov[a]);
                        lemma_definition_transitive(ov[b - 1], ov[a], x@);
                    }
                } else {
                    assert(t[a] == ov[a - 1] && t[b] == ov[b - 1]);
                }
            }
        }
        taken = taken + 1;
    }
    assert(input.take(total as int) =~= input);
    out
}

impl View for SourceTableCapture {
    type V = CaptureView;

    closed spec fn view(&self) -> CaptureView {
        CaptureView {
            relation_names: relation_names(self.relations@),
            next_row_ids: self.next_row_ids@,
            has_rows: self.has_rows@,
            origins: self.enum_origins@,
            options: self.options,
            poisoned: self.poisoned,
        }
    }
}

impl SourceTableCapture {
    /// Each relation has a row id and a row flag, and each origin names one
    /// of the relations.
    pub open spec fn wf(&self) -> bool {
        &&& self@.next_row_ids.len() == self@.relation_names.len()
        &&& self@.has_rows.len() == self@.relation_names.len()
        &&& origins_in_range(self@.origins, self@.relation_names.len())
    }

    /// A capture of `relations`, after its limits and its relations and
    /// enum origins pass their checks; every relation starts at row id 0.
    pub fn new(relations: Vec<RelationSpec>, enum_origins: Vec<EnumOriginSpec>, options: SpoolOptions) -> (r: Result<
        Self,
        CaptureSetupError,
    >)
        ensures
            match r {
                Ok(c) => {
                    &&& c.wf()
                    &&& options.spec_validate() is Ok
                    &&& sp_specs_error(relations@, enum_origins@) is None
                    &&& c@.relation_names == relation_names(relations@)
                    &&& c@.next_row_ids == Seq::new(relations.len() as nat, |_i: int| Some(0u64))
                    &&& c@.has_rows == Seq::new(relations.len() as nat, |_i: int| false)
                    &&& c@.origins == enum_origins@
                    &&& c@.options == options
                    &&& c@.poisoned is None
                },
                Err(CaptureSetupError::Options(e)) => options.spec_validate() == Err::<(), SpoolOptionsError>(e),
                Err(CaptureSetupError::Spec(e)) => options.spec_validate() is Ok && sp_specs_error(
                    relations@,
                    enum_origins@,
                ) == Some(e@),
            },
    {
        match options.validate() {
            Err(e) => return Err(CaptureSetupError::Options(e)),
            Ok(()) => {},
        }
        match validate_specs(&relations, &enum_origins) {
            Err(e) => return Err(CaptureSetupError::Spec(e)),
            Ok(()) => {},
        }
        proof {
            lemma_origins_in_range(relations@, enum_origins@, 0);
        }
        let mut next_row_ids: Vec<Option<u64>> = Vec::new();
        let mut has_rows: Vec<bool> = Vec::new();
        let mut i: usize = 0;
        while i < relations.len()
            invariant
                0 <= i <= relations.len(),
                next_row_ids@ =~= Seq::new(i as nat, |_i: int| Some(0u64)),
                has_rows@ =~= Seq::new(i as nat, |_i: int| false),
            decreases relations.len() - i,
        {
            next_row_ids.push(Some(0));
            has_rows.push(false);
            i = i + 1;
        }
        Ok(SourceTableCapture { relations, next_row_ids, has_rows, enum_origins, options, poisoned: None })
    }

    /// The relation at `slot`.
    pub fn relation(&self, slot: usize) -> (r: Option<&RelationSpec>)
        ensures
            match r {
                Some(rel) => slot < self@.relation_names.len() && rel.name@ == self@.relation_names[slot as int],
                None => slot >= self@.relation_names.len(),
            },
    {
        if slot < self.relations.len() {
            Some(&self.relations[slot])
        } else {
            None
        }
    }

    /// The spool limits of the capture.
    pub fn options(&self) -> (r: SpoolOptions)
        ensures
            r == self@.options,
    {
        self.options
    }

    fn ensure_healthy(&self) -> (r: Result<(), CaptureError>)
        ensures
            match r {
                Ok(()) => self@.poisoned is None,
                Err(e) => self@.poisoned matches Some(p) && e == (CaptureError::Poisoned { poison: p }),
            },
    {
        match &self.poisoned {
            Some(p) => Err(CaptureError::Poisoned { poison: p.duplicate() }),
            None => Ok(()),
        }
    }

    /// The next row id of the relation at `slot`: ids count up from 0 within
    /// each relation, and the one after `u64::MAX` cannot be had. A missing
    /// slot or an exhausted relation stops the capture; a stopped capture
    /// refuses.
    pub fn allocate_row_id(&mut self, slot: usize) -> (r: Result<u64, CaptureError>)
        requires
            old(self).wf(),
        ensures
            final(self).wf(),
            final(self)@.relation_names == old(self)@.relation_names,
            final(self)@.has_rows == old(self)@.has_rows,
            final(self)@.origins == old(self)@.origins,
            final(self)@.options == old(self)@.options,
            match old(self)@.poisoned {
                Some(p) => r == Err::<u64, CaptureError>(CaptureError::Poisoned { poison: p }) && final(self)@
                    == old(self)@,
                None => if slot >= old(self)@.relation_names.len() {
                    &&& r == Err::<u64, CaptureError>(CaptureError::MissingSlot { slot })
                    &&& final(self)@.next_row_ids == old(self)@.next_row_ids
                    &&& final(self)@.poisoned == Some(Poison { slot, cause: PoisonCause::MissingSlot })
                } else {
                    match old(self)@.next_row_ids[slot as int] {
                        None => {
                            &&& r matches Err(CaptureError::RowIdOverflow { relation }) && relation@
                                == old(self)@.relation_names[slot as int]
                            &&& final(self)@.next_row_ids == old(self)@.next_row_ids
                            &&& final(self)@.poisoned matches Some(Poison { slot: s, cause: PoisonCause::RowIdOverflow { relation } })
                                && s == slot && relation@ == old(self)@.relation_names[slot as int]
                        },
                        Some(id) => {
                            &&& r == Ok::<u64, CaptureError>(id)
                            &&& final(self)@.next_row_ids == old(self)@.next_row_ids.update(
                                slot as int,
                                if id == u64::MAX {
                                    None
                                } else {
                                    Some((id + 1) as u64)
                                },
                            )
                            &&& final(self)@.poisoned is None
                        },
                    }
                },
            },
    {
        match self.ensure_healthy() {
            Err(e) => return Err(e),
            Ok(()) => {},
        }
        if slot >= self.relations.len() {
            self.poisoned = Some(Poison { slot, cause: PoisonCause::MissingSlot });
            return Err(CaptureError::MissingSlot { slot });
        }
        match self.next_row_ids[slot] {
            None => {
                let relation = self.relations[slot].name.clone();
                self.poisoned = Some(Poison { slot, cause: PoisonCause::RowIdOverflow { relation: relation.clone() } });
                Err(CaptureError::RowIdOverflow { relation })
            },
            Some(id) => {
                let next = if id == u64::MAX {
                    None
                } else {
                    Some(id + 1)
                };
                self.next_row_ids.set(slot, next);
                Ok(id)
            },
        }
    }

    /// Admits a row for the relation at `slot`, which from then on counts as
    /// having rows; says whether it is the relation's first row. A missing
    /// slot stops the capture; a stopped capture refuses.
    pub fn append_row(&mut self, slot: usize) -> (r: Result<bool, CaptureError>)
        requires
            old(self).wf(),
        ensures
            final(self).wf(),
            final(self)@.relation_names == old(self)@.relation_names,
            final(self)@.next_row_ids == old(self)@.next_row_ids,
            final(self)@.origins == old(self)@.origins,
            final(self)@.options == old(self)@.options,
            match old(self)@.poisoned {
                Some(p) => r == Err::<bool, CaptureError>(CaptureError::Poisoned { poison: p }) && final(self)@
                    == old(self)@,
                None => if slot >= old(self)@.relation_names.len() {
                    &&& r == Err::<bool, CaptureError>(CaptureError::MissingSlot { slot })
                    &&& final(self)@.has_rows == old(self)@.has_rows
                    &&& final(self)@.poisoned == Some(Poison { slot, cause: PoisonCause::MissingSlot })
                } else {
                    &&& r == Ok::<bool, CaptureError>(!old(self)@.has_rows[slot as int])
                    &&& final(self)@.has_rows == old(self)@.has_rows.update(slot as int, true)
                    &&& final(self)@.poisoned is None
                },
            },
    {
        match self.ensure_healthy() {
            Err(e) => return Err(e),
            Ok(()) => {},
        }
        if slot >= self.relations.len() {
            self.poisoned = Some(Poison { slot, cause: PoisonCause::MissingSlot });
            return Err(CaptureError::MissingSlot { slot });
        }
        let first = !self.has_rows[slot];
        self.has_rows.set(slot, true);
        Ok(first)
    }

    /// Records that writing a row of the relation at `slot` failed: the
    /// capture stops, unless it had stopped already.
    pub fn record_append_failure(&mut self, slot: usize)
        requires
            old(self).wf(),
        ensures
            final(self).wf(),
            final(self)@ == (CaptureView {
                poisoned: if old(self)@.poisoned is Some {
                    old(self)@.poisoned
                } else {
                    Some(Poison { slot, cause: PoisonCause::AppendFailed })
                },
                ..old(self)@
            }),
    {
        if self.poisoned.is_none() {
            self.poisoned = Some(Poison { slot, cause: PoisonCause::AppendFailed });
        }
    }

    /// Ends the capture: refuses if it was stopped, else gives the enum
    /// symbols of the origins whose relation received rows, sorted by
    /// table, field path and number.
    pub fn finish(self) -> (r: Result<Vec<EnumDefinition>, CaptureError>)
        requires
            self.wf(),
        ensures
            match self@.poisoned {
                Some(p) => r == Err::<Vec<EnumDefinition>, CaptureError>(CaptureError::Poisoned { poison: p }),
                None => r matches Ok(defs) && definitions_sorted(definitions_view(defs@)) && definitions_view(
                    defs@,
                ).to_multiset() == active_definitions(self@.relation_names, self@.has_rows, self@.origins, 0).to_multiset()
                    && keeps_key_order(
                    definitions_view(defs@),
                    active_definitions(self@.relation_names, self@.has_rows, self@.origins, 0),
                ),
            },
    {
        match self.ensure_healthy() {
            Err(e) => return Err(e),
            Ok(()) => {},
        }
        let defs = self.collect_enum_definitions();
        Ok(sort_definitions(defs))
    }

    /// The enum symbols of the origins whose relation received rows, in
    /// origin order.
    #[verifier::loop_isolation(false)]
    fn collect_enum_definitions(&self) -> (r: Vec<EnumDefinition>)
        requires
            self.wf(),
        ensures
            definitions_view(r@) == active_definitions(self@.relation_names, self@.has_rows, self@.origins, 0),
    {
        let mut out: Vec<EnumDefinition> = Vec::new();
        let n = self.enum_origins.len();
        let mut i: usize = n;
        let ghost names = relation_names(self.relations@);
        assert(definitions_view(out@) =~= Seq::<EnumDefinitionView>::empty());
        let mut chunks: Vec<Vec<EnumDefinition>> = Vec::new();
        let mut k: usize = 0;
        while k < n
            invariant
                0 <= k <= n,
                n == self.enum_origins.len(),
                self.wf(),
                names == relation_names(self.relations@),
                chunks.len() == k,
                forall|j: int| 0 <= j < k ==> definitions_view(#[trigger] chunks@[j]@) == (if self.has_rows@[self.enum_origins@[j].relation as int] {
                    origin_definitions(names[self.enum_origins@[j].relation as int], self.enum_origins@[j])
                } else {
                    Seq::empty()
                }),
            decreases n - k,
        {
            let o = &self.enum_origins[k];
            let mut chunk: Vec<EnumDefinition> = Vec::new();
            if self.has_rows[o.relation] {
                let table = &self.relations[o.relation].name;
                let mut s: usize = 0;
                while s < o.symbols.len()
                    invariant
                        0 <= s <= o.symbols.len(),
                        definitions_view(chunk@) =~= origin_definitions(names[o.relation as int], *o).take(s as int),
                        table@ == names[o.relation as int],
                    decreases o.symbols.len() - s,
                {
                    let sym = &o.symbols[s];
                    let ghost before = definitions_view(chunk@);
                    chunk.push(
                        EnumDefinition {
                            origin_table: table.clone(),
                            origin_field_path: o.field_path.clone(),
                            enum_name: o.enum_name.clone(),
                            enum_number: sym.number,
                            enum_symbol: sym.symbol.clone(),
                        },
                    );
                    assert(definitions_view(chunk@) =~= before.push(origin_definitions(names[o.relation as int], *o)[s as int]));
                    s = s + 1;
                }
                assert(origin_definitions(names[o.relation as int], *o).take(o.symbols.len() as int) =~= origin_definitions(
                    names[o.relation as int],
                    *o,
                ));
            } else {
                assert(definitions_view(chunk@) =~= Seq::<EnumDefinitionView>::empty());
            }
            chunks.push(chunk);
            k = k + 1;
        }
        while i > 0
            invariant
                0 <= i <= n,
                n == self.enum_origins.len(),
                chunks.len() == i,
                self.wf(),
                names == relation_names(self.relations@),
                definitions_view(out@) == active_definitions(names, self.has_rows@, self.enum_origins@, i as int),
                forall|j: int| 0 <= j < i ==> definitions_view(#[trigger] chunks@[j]@) == (if self.has_rows@[self.enum_origins@[j].relation as int] {
                    origin_definitions(names[self.enum_origins@[j].relation as int], self.enum_origins@[j])
                } else {
                    Seq::empty()
                }),
            decreases i,
        {
            i = i - 1;
            let mut front = chunks.pop().unwrap();
            let ghost fv = definitions_view(front@);
            let ghost ov = definitions_view(out@);
            front.append(&mut out);
            out = front;
            assert(definitions_view(out@) =~= fv + ov);
        }
        out
    }
}

/// The relations and enum origins a capture will be built from, before
/// they are checked.
#[derive(Debug)]
pub struct SourceTableLayout {
    relations: Vec<RelationSpec>,
    enum_origins: Vec<EnumOriginSpec>,
}

impl SourceTableLayout {
    pub closed spec fn spec_relations(&self) -> Seq<RelationSpec> {
        self.relations@
    }

    pub closed spec fn spec_origins(&self) -> Seq<EnumOriginSpec> {
        self.enum_origins@
    }

    pub fn from_generated(relations: Vec<RelationSpec>, enum_origins: Vec<EnumOriginSpec>) -> (r: Self)
        ensures
            r.spec_relations() == relations@,
            r.spec_origins() == enum_origins@,
    {
        SourceTableLayout { relations, enum_origins }
    }

    /// Adds a relation after the others; gives its slot.
    pub fn append_relation(&mut self, relation: RelationSpec) -> (slot: usize)
        ensures
            slot == old(self).spec_relations().len(),
            final(self).spec_relations() == old(self).spec_relations().push(relation),
            final(self).spec_origins() == old(self).spec_origins(),
    {
        let slot = self.relations.len();
        self.relations.push(relation);
        slot
    }

    /// Adds an enum origin after the others.
    pub fn append_enum_origin(&mut self, origin: EnumOriginSpec)
        ensures
            final(self).spec_relations() == old(self).spec_relations(),
            final(self).spec_origins() == old(self).spec_origins().push(origin),
    {
        self.enum_origins.push(origin);
    }

    /// The capture of the layout; see [`SourceTableCapture::new`].
    pub fn into_capture(self, options: SpoolOptions) -> (r: Result<SourceTableCapture, CaptureSetupError>)
        ensures
            match r {
                Ok(c) => {
                    &&& c.wf()
                    &&& sp_specs_error(self.spec_relations(), self.spec_origins()) is None
                    &&& c@.relation_names == relation_names(self.spec_relations())
                    &&& c@.next_row_ids == Seq::new(self.spec_relations().len() as nat, |_i: int| Some(0u64))
                    &&& c@.has_rows == Seq::new(self.spec_relations().len() as nat, |_i: int| false)
                    &&& c@.origins == self.spec_origins()
                    &&& c@.options == options
                    &&& c@.poisoned is None
                },
                Err(CaptureSetupError::Options(e)) => options.spec_validate() == Err::<(), SpoolOptionsError>(e),
                Err(CaptureSetupError::Spec(e)) => options.spec_validate() is Ok && sp_specs_error(
                    self.spec_relations(),
                    self.spec_origins(),
                ) == Some(e@),
            },
    {
        SourceTableCapture::new(self.relations, self.enum_origins, options)
    }
}

} // verus!
