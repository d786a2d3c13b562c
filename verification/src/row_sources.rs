//! Where the rows of a relational table come from in a decoded payload: the
//! values found by following the table's source path, each with the
//! positions of the repeated values it sits in and the row id of its
//! parent row.
use vstd::prelude::*;
use crate::relational::{snake_to_upper_camel, spec_snake, spec_upper_camel, upper_camel_to_snake};
use crate::text::{chars_of, slice_eq};

verus! {

/// A decoded payload as a tree of values; a float is held by its bits.
#[derive(Debug)]
pub enum PayloadValue {
    Null,
    Bool(bool),
    I64(i64),
    U64(u64),
    F64Bits(u64),
    String(String),
    Binary(Vec<u8>),
    Array(Vec<PayloadValue>),
    Object(Vec<PayloadField>),
}

/// A named member of an object.
#[derive(Debug)]
pub struct PayloadField {
    pub name: String,
    pub value: PayloadValue,
}

/// The first member of `fields` from position `i` on named `name`.
pub open spec fn member_from(fields: Seq<PayloadField>, name: Seq<char>, i: int) -> Option<PayloadValue>
    decreases fields.len() - i,
{
    if i < 0 || i >= fields.len() {
        None
    } else if fields[i].name@ == name {
        Some(fields[i].value)
    } else {
        member_from(fields, name, i + 1)
    }
}

/// The member of an object named `name`.
pub open spec fn payload_child(v: PayloadValue, name: Seq<char>) -> Option<PayloadValue> {
    match v {
        PayloadValue::Object(fields) => member_from(fields@, name, 0),
        _ => None,
    }
}

/// The member named `name`, else the one named by its snake case (when
/// that differs), else the one named by its upper camel case.
pub open spec fn json_child(v: PayloadValue, name: Seq<char>) -> Option<PayloadValue> {
    match payload_child(v, name) {
        Some(x) => Some(x),
        None => {
            let snake = spec_snake(name);
            if snake != name && payload_child(v, snake) is Some {
                payload_child(v, snake)
            } else {
                payload_child(v, spec_upper_camel(name))
            }
        },
    }
}

pub(crate) fn member<'a>(v: &'a PayloadValue, name: &str) -> (r: Option<&'a PayloadValue>)
    ensures
        match r {
            Some(x) => payload_child(*v, name@) == Some(*x),
            None => payload_child(*v, name@) is None,
        },
{
    match v {
        PayloadValue::Object(fields) => {
            let target = chars_of(name);
            let mut i: usize = 0;
            while i < fields.len()
                invariant
                    0 <= i <= fields.len(),
                    target@ == name@,
                    payload_child(*v, name@) == member_from(fields@, name@, 0),
                    member_from(fields@, name@, 0) == member_from(fields@, name@, i as int),
                decreases fields.len() - i,
            {
                if slice_eq(chars_of(fields[i].name.as_str()).as_slice(), target.as_slice()) {
                    assert(fields@[i as int].name@ == name@);
                    assert(member_from(fields@, name@, i as int) == Some(fields@[i as int].value));
                    return Some(&fields[i].value);
                }
                i = i + 1;
            }
            None
        },
        _ => None,
    }
}

/// The child of `v` named `name`, as [`json_child`] finds it.
pub fn child<'a>(v: &'a PayloadValue, name: &str) -> (r: Option<&'a PayloadValue>)
    ensures
        match r {
            Some(x) => json_child(*v, name@) == Some(*x),
            None => json_child(*v, name@) is None,
        },
{
    match member(v, name) {
        Some(x) => return Some(x),
        None => {},
    }
    let snake = upper_camel_to_snake(name);
    let same = slice_eq(chars_of(snake.as_str()).as_slice(), chars_of(name).as_slice());
    if !same {
        match member(v, snake.as_str()) {
            Some(x) => return Some(x),
            None => {},
        }
    }
    let camel = snake_to_upper_camel(name);
    member(v, camel.as_str())
}

/// The parent row ids of one parent table, by the positions of the
/// repeated values a parent row sits in.
#[derive(Debug)]
pub struct ParentIndex {
    pub table: String,
    pub entries: Vec<(Vec<usize>, u64)>,
}

/// The row id recorded for `key` among `entries` from position `i` on.
pub open spec fn entry_from(entries: Seq<(Vec<usize>, u64)>, key: Seq<usize>, i: int) -> Option<u64>
    decreases entries.len() - i,
{
    if i < 0 || i >= entries.len() {
        None
    } else if entries[i].0@ == key {
        Some(entries[i].1)
    } else {
        entry_from(entries, key, i + 1)
    }
}

/// The row id of the longest prefix of `ordinals`, up to `len` long, that
/// has one.
pub open spec fn prefix_entry(entries: Seq<(Vec<usize>, u64)>, ordinals: Seq<usize>, len: int) -> Option<u64>
    decreases len + 1,
{
    if len < 0 {
        None
    } else {
        match entry_from(entries, ordinals.take(len), 0) {
            Some(v) => Some(v),
            None => prefix_entry(entries, ordinals, len - 1),
        }
    }
}

/// The first index of the table named `table`.
pub open spec fn index_from(indexes: Seq<ParentIndex>, table: Seq<char>, i: int) -> Option<int>
    decreases indexes.len() - i,
{
    if i < 0 || i >= indexes.len() {
        None
    } else if indexes[i].table@ == table {
        Some(i)
    } else {
        index_from(indexes, table, i + 1)
    }
}

/// The parent row id for a value at `ordinals`, from the rows of the
/// parent table: the row at the longest prefix of the ordinals.
pub open spec fn parent_index_for_table(indexes: Seq<ParentIndex>, table: Option<Seq<char>>, ordinals: Seq<usize>) -> Option<u64> {
    match table {
        None => None,
        Some(t) => match index_from(indexes, t, 0) {
            None => None,
            Some(k) => prefix_entry(indexes[k].entries@, ordinals, ordinals.len() as int),
        },
    }
}

fn prefix_is(key: &Vec<usize>, ordinals: &Vec<usize>, len: usize) -> (r: bool)
    requires
        len <= ordinals.len(),
    ensures
        r == (key@ == ordinals@.take(len as int)),
{
    if key.len() != len {
        return false;
    }
    let mut i: usize = 0;
    while i < len
        invariant
            key.len() == len,
            len <= ordinals.len(),
            0 <= i <= len,
            forall|j: int| 0 <= j < i ==> key@[j] == ordinals@[j],
        decreases len - i,
    {
        if key[i] != ordinals[i] {
            assert(ordinals@.take(len as int)[i as int] == ordinals@[i as int]);
            return false;
        }
        i = i + 1;
    }
    assert(key@ =~= ordinals@.take(len as int));
    true
}

fn entry_for(entries: &Vec<(Vec<usize>, u64)>, ordinals: &Vec<usize>, len: usize) -> (r: Option<u64>)
    requires
        len <= ordinals.len(),
    ensures
        r == entry_from(entries@, ordinals@.take(len as int), 0),
{
    let mut i: usize = 0;
    while i < entries.len()
        invariant
            0 <= i <= entries.len(),
            len <= ordinals.len(),
            entry_from(entries@, ordinals@.take(len as int), 0) == entry_from(entries@, ordinals@.take(len as int), i as int),
        decreases entries.len() - i,
    {
        if prefix_is(&entries[i].0, ordinals, len) {
            return Some(entries[i].1);
        }
        i = i + 1;
    }
    None
}

proof fn lemma_index_range(indexes: Seq<ParentIndex>, t: Seq<char>, i: int)
    ensures
        index_from(indexes, t, i) matches Some(k) ==> i <= k < indexes.len() && 0 <= k,
    decreases indexes.len() - i,
{
    if 0 <= i < indexes.len() && indexes[i].table@ != t {
        lemma_index_range(indexes, t, i + 1);
    }
}

fn index_for(indexes: &Vec<ParentIndex>, t: &str) -> (r: Option<usize>)
    ensures
        r matches Some(k) ==> k < indexes.len(),
        r == match index_from(indexes@, t@, 0) {
            Some(k) => Some(k as usize),
            None => None::<usize>,
        },
{
    let target = chars_of(t);
    let mut k: usize = 0;
    while k < indexes.len()
        invariant
            0 <= k <= indexes.len(),
            target@ == t@,
            index_from(indexes@, t@, 0) == index_from(indexes@, t@, k as int),
        decreases indexes.len() - k,
    {
        if slice_eq(chars_of(indexes[k].table.as_str()).as_slice(), target.as_slice()) {
            return Some(k);
        }
        k = k + 1;
    }
    None
}

/// The parent row id for a value at `ordinals`, as
/// [`parent_index_for_table`] gives it.
pub fn parent_index(indexes: &Vec<ParentIndex>, table: Option<&str>, ordinals: &Vec<usize>) -> (r: Option<u64>)
    ensures
        r == parent_index_for_table(
            indexes@,
            match table {
                Some(t) => Some(t@),
                None => None::<Seq<char>>,
            },
            ordinals@,
        ),
{
    let t = match table {
        Some(t) => t,
        None => return None,
    };
    proof {
        lemma_index_range(indexes@, t@, 0);
    }
    let k = match index_for(indexes, t) {
        Some(k) => k,
        None => return None,
    };
    let entries = &indexes[k].entries;
    let ghost want = parent_index_for_table(indexes@, Some(t@), ordinals@);
    assert(want == prefix_entry(entries@, ordinals@, ordinals.len() as int));
    let mut len: usize = ordinals.len();
    loop
        invariant
            len <= ordinals.len(),
            want == parent_index_for_table(indexes@, Some(t@), ordinals@),
            table == Some(t),
            want == prefix_entry(entries@, ordinals@, ordinals.len() as int),
            prefix_entry(entries@, ordinals@, ordinals.len() as int) == prefix_entry(entries@, ordinals@, len as int),
        decreases len,
    {
        match entry_for(entries, ordinals, len) {
            Some(v) => return Some(v),
            None => {},
        }
        if len == 0 {
            assert(prefix_entry(entries@, ordinals@, -1) is None);
            return None;
        }
        len = len - 1;
    }
}

/// A value that a row comes from, with the positions of the repeated
/// values it sits in and the row id of its parent row.
#[derive(Debug)]
pub struct RowSource<'a> {
    pub value: &'a PayloadValue,
    pub parent_index: Option<u64>,
    pub ordinals: Vec<usize>,
}

pub struct RowView {
    pub value: PayloadValue,
    pub parent_index: Option<u64>,
    pub ordinals: Seq<usize>,
}

impl<'a> View for RowSource<'a> {
    type V = RowView;

    open spec fn view(&self) -> RowView {
        RowView { value: *self.value, parent_index: self.parent_index, ordinals: self.ordinals@ }
    }
}

pub open spec fn rows_view<'a>(v: Seq<RowSource<'a>>) -> Seq<RowView> {
    v.map_values(|r: RowSource<'a>| r@)
}

/// Why the rows of a table cannot be found.
#[derive(Debug)]
pub enum RowSourceError {
    /// A segment before the last one names a value that is neither an
    /// object nor an array.
    ScalarBeforePathEnd { segment: String },
}

pub enum RowSourceErrorView {
    ScalarBeforePathEnd { segment: Seq<char> },
}

impl View for RowSourceError {
    type V = RowSourceErrorView;

    open spec fn view(&self) -> RowSourceErrorView {
        match self {
            RowSourceError::ScalarBeforePathEnd { segment } => RowSourceErrorView::ScalarBeforePathEnd { segment: segment@ },
        }
    }
}

pub type RowsResult = Result<Seq<RowView>, RowSourceErrorView>;

pub open spec fn parents_view(v: Seq<Option<String>>) -> Seq<Option<Seq<char>>> {
    v.map_values(|p: Option<String>| match p {
        Some(s) => Some(s@),
        None => None::<Seq<char>>,
    })
}

/// The child named by a segment, unless it is missing or null.
pub open spec fn segment_value(current: PayloadValue, segment: Seq<char>) -> Option<PayloadValue> {
    match json_child(current, segment) {
        Some(PayloadValue::Null) => None,
        other => other,
    }
}

/// The parent table of the segment at `seg`, if it has one.
pub open spec fn parent_table_at(parents: Seq<Option<Seq<char>>>, seg: int) -> Option<Seq<char>> {
    if 0 <= seg < parents.len() {
        parents[seg]
    } else {
        None
    }
}

/// The parent row id at `ordinals`: that of the parent table, else the one
/// inherited.
pub open spec fn parent_at(indexes: Seq<ParentIndex>, table: Option<Seq<char>>, ordinals: Seq<usize>, inherited: Option<u64>) -> Option<u64> {
    match parent_index_for_table(indexes, table, ordinals) {
        Some(v) => Some(v),
        None => inherited,
    }
}

/// `a` before the rows of `r`, or the error of `r`.
pub open spec fn rows_before(a: Seq<RowView>, r: RowsResult) -> RowsResult {
    match r {
        Ok(b) => Ok(a + b),
        Err(e) => Err(e),
    }
}

/// The rows found from `current`, which segment `seg` of `path` starts
/// from: past the last segment, `current` itself; a missing or null child
/// gives none; an object or array is followed, each element of an array
/// one position deeper; a scalar ends the path only as its last segment.
pub open spec fn sp_visit(
    path: Seq<Seq<char>>,
    parents: Seq<Option<Seq<char>>>,
    indexes: Seq<ParentIndex>,
    current: PayloadValue,
    seg: int,
    ordinals: Seq<usize>,
    parent: Option<u64>,
) -> RowsResult
    decreases path.len() - seg, 1int, 0int,
{
    if seg < 0 || seg >= path.len() {
        Ok(seq![RowView { value: current, parent_index: parent, ordinals }])
    } else {
        let last = seg + 1 == path.len();
        let table = parent_table_at(parents, seg);
        match segment_value(current, path[seg]) {
            None => Ok(Seq::empty()),
            Some(PayloadValue::Array(values)) => sp_visit_array(path, parents, indexes, values@, 0, seg, ordinals, parent),
            Some(PayloadValue::Object(fields)) => {
                let next = parent_at(indexes, table, ordinals, parent);
                if last {
                    Ok(seq![RowView { value: PayloadValue::Object(fields), parent_index: next, ordinals }])
                } else {
                    sp_visit(path, parents, indexes, PayloadValue::Object(fields), seg + 1, ordinals, next)
                }
            },
            Some(v) => if last {
                Ok(seq![RowView { value: v, parent_index: parent_at(indexes, table, ordinals, parent), ordinals }])
            } else {
                Err(RowSourceErrorView::ScalarBeforePathEnd { segment: path[seg] })
            },
        }
    }
}

/// The rows found from the elements of an array from position `k` on.
pub open spec fn sp_visit_array(
    path: Seq<Seq<char>>,
    parents: Seq<Option<Seq<char>>>,
    indexes: Seq<ParentIndex>,
    values: Seq<PayloadValue>,
    k: int,
    seg: int,
    ordinals: Seq<usize>,
    parent: Option<u64>,
) -> RowsResult
    decreases path.len() - seg, 0int, values.len() - k,
{
    if k < 0 || k >= values.len() || seg < 0 || seg >= path.len() {
        Ok(Seq::empty())
    } else {
        let at = ordinals.push(k as usize);
        let next = parent_at(indexes, parent_table_at(parents, seg), at, parent);
        let here = if seg + 1 == path.len() {
            Ok(seq![RowView { value: values[k], parent_index: next, ordinals: at }])
        } else {
            sp_visit(path, parents, indexes, values[k], seg + 1, at, next)
        };
        match here {
            Err(e) => Err(e),
            Ok(a) => rows_before(a, sp_visit_array(path, parents, indexes, values, k + 1, seg, ordinals, parent)),
        }
    }
}

fn with_ordinal(ordinals: &Vec<usize>, k: usize) -> (r: Vec<usize>)
    ensures
        r@ == ordinals@.push(k),
{
    let mut r: Vec<usize> = Vec::new();
    let mut i: usize = 0;
    while i < ordinals.len()
        invariant
            0 <= i <= ordinals.len(),
            r@ == ordinals@.take(i as int),
        decreases ordinals.len() - i,
    {
        r.push(ordinals[i]);
        i = i + 1;
        assert(r@ =~= ordinals@.take(i as int));
    }
    r.push(k);
    assert(r@ =~= ordinals@.push(k));
    r
}

fn table_at(parents: &Vec<Option<String>>, seg: usize) -> (r: Option<&str>)
    ensures
        match r {
            Some(t) => parent_table_at(parents_view(parents@), seg as int) == Some(t@),
            None => parent_table_at(parents_view(parents@), seg as int) is None,
        },
{
    if seg < parents.len() {
        match &parents[seg] {
            Some(t) => Some(t.as_str()),
            None => None,
        }
    } else {
        None
    }
}

fn parent_for(indexes: &Vec<ParentIndex>, table: Option<&str>, ordinals: &Vec<usize>, inherited: Option<u64>) -> (r: Option<u64>)
    ensures
        r == parent_at(
            indexes@,
            match table {
                Some(t) => Some(t@),
                None => None::<Seq<char>>,
            },
            ordinals@,
            inherited,
        ),
{
    match parent_index(indexes, table, ordinals) {
        Some(v) => Some(v),
        None => inherited,
    }
}

fn visit<'a>(
    path: &Vec<String>,
    parents: &Vec<Option<String>>,
    indexes: &Vec<ParentIndex>,
    current: &'a PayloadValue,
    seg: usize,
    ordinals: &Vec<usize>,
    parent: Option<u64>,
    out: &mut Vec<RowSource<'a>>,
) -> (r: Result<(), RowSourceError>)
    requires
        seg <= path.len(),
    ensures
        match sp_visit(crate::sorted::strings_view(path@), parents_view(parents@), indexes@, *current, seg as int, ordinals@, parent) {
            Ok(rows) => r is Ok && rows_view(final(out)@) == rows_view(old(out)@) + rows,
            Err(e) => r matches Err(x) && x@ == e,
        },
    decreases path.len() - seg,
{
    let ghost pv = crate::sorted::strings_view(path@);
    let ghost qv = parents_view(parents@);
    let ghost before = rows_view(out@);
    if seg == path.len() {
        out.push(RowSource { value: current, parent_index: parent, ordinals: with_ordinals_copy(ordinals) });
        assert(rows_view(out@) =~= before + seq![RowView { value: *current, parent_index: parent, ordinals: ordinals@ }]);
        return Ok(());
    }
    let last = seg + 1 == path.len();
    let segment = path[seg].as_str();
    assert(pv[seg as int] == segment@);
    let table = table_at(parents, seg);
    let ghost tv = match table {
        Some(t) => Some(t@),
        None => None::<Seq<char>>,
    };
    let found = match child(current, segment) {
        None => None,
        Some(PayloadValue::Null) => None,
        Some(v) => Some(v),
    };
    match found {
        None => {
            assert(rows_view(out@) =~= before + Seq::<RowView>::empty());
            Ok(())
        },
        Some(v) => match v {
            PayloadValue::Array(values) => {
                let ghost vs = values@;
                let ghost whole = sp_visit_array(pv, qv, indexes@, vs, 0, seg as int, ordinals@, parent);
                assert(rows_before(Seq::<RowView>::empty(), whole) == whole) by {
                    match whole {
                        Ok(b) => {
                            assert(Seq::<RowView>::empty() + b =~= b);
                        },
                        Err(_) => {},
                    }
                }
                assert(segment_value(*current, pv[seg as int]) == Some(*v));
                assert(sp_visit(pv, qv, indexes@, *current, seg as int, ordinals@, parent) == whole);
                let mut k: usize = 0;
                while k < values.len()
                    invariant
                        0 <= k <= values.len(),
                        sp_visit(pv, qv, indexes@, *current, seg as int, ordinals@, parent) == whole,
                        seg < path.len(),
                        last == (seg + 1 == path.len()),
                        pv == crate::sorted::strings_view(path@),
                        qv == parents_view(parents@),
                        vs == values@,
                        tv == parent_table_at(qv, seg as int),
                        tv == match table {
                            Some(t) => Some(t@),
                            None => None::<Seq<char>>,
                        },
                        whole == sp_visit_array(pv, qv, indexes@, vs, 0, seg as int, ordinals@, parent),
                        rows_before(rows_view(out@).skip(before.len() as int), sp_visit_array(pv, qv, indexes@, vs, k as int, seg as int, ordinals@, parent)) == whole,
                        rows_view(out@).len() >= before.len(),
                        rows_view(out@).take(before.len() as int) == before,
                    decreases values.len() - k,
                {
                    let ghost added = rows_view(out@).skip(before.len() as int);
                    let ghost now = rows_view(out@);
                    let at = with_ordinal(ordinals, k);
                    let next = parent_for(indexes, table, &at, parent);
                    let element = &values[k];
                    if last {
                        out.push(RowSource { value: element, parent_index: next, ordinals: at });
                        proof {
                            let row = RowView { value: values@[k as int], parent_index: next, ordinals: ordinals@.push(k) };
                            assert(rows_view(out@) =~= now.push(row));
                            assert(rows_view(out@).skip(before.len() as int) =~= added.push(row));
                            assert(rows_view(out@).take(before.len() as int) =~= before) by {
                                assert forall|j: int| 0 <= j < before.len() implies rows_view(out@)[j] == before[j] by {
                                    assert(now.take(before.len() as int)[j] == now[j]);
                                }
                            }
                            let rest = sp_visit_array(pv, qv, indexes@, vs, k + 1, seg as int, ordinals@, parent);
                            match rest {
                                Ok(b) => {
                                    assert(added + (seq![row] + b) =~= added.push(row) + b);
                                },
                                Err(_) => {},
                            }
                        }
                    } else {
                        let res = visit(path, parents, indexes, element, seg + 1, &at, next, out);
                        let ghost here = sp_visit(pv, qv, indexes@, values@[k as int], seg + 1, ordinals@.push(k), next);
                        match res {
                            Err(e) => {
                                proof {
                                    assert(here == Err::<Seq<RowView>, RowSourceErrorView>(e@));
                                    assert(sp_visit_array(pv, qv, indexes@, vs, k as int, seg as int, ordinals@, parent) == Err::<
                                        Seq<RowView>,
                                        RowSourceErrorView,
                                    >(e@));
                                }
                                return Err(e);
                            },
                            Ok(()) => {
                                proof {
                                    let a = here->Ok_0;
                                    assert(rows_view(out@) == now + a);
                                    assert(rows_view(out@).skip(before.len() as int) =~= added + a) by {
                                        assert(now =~= before + added);
                                    }
                                    assert(rows_view(out@).take(before.len() as int) =~= before) by {
                                        assert forall|j: int| 0 <= j < before.len() implies rows_view(out@)[j] == before[j] by {
                                            assert(now.take(before.len() as int)[j] == now[j]);
                                        }
                                    }
                                    let rest = sp_visit_array(pv, qv, indexes@, vs, k + 1, seg as int, ordinals@, parent);
                                    match rest {
                                        Ok(b) => {
                                            assert(added + (a + b) =~= (added + a) + b);
                                        },
                                        Err(_) => {},
                                    }
                                }
                            },
                        }
                    }
                    k = k + 1;
                }
                proof {
                    let added = rows_view(out@).skip(before.len() as int);
                    assert(rows_view(out@) =~= before + added);
                }
                Ok(())
            },
            PayloadValue::Object(_) => {
                let next = parent_for(indexes, table, ordinals, parent);
                if last {
                    out.push(RowSource { value: v, parent_index: next, ordinals: with_ordinals_copy(ordinals) });
                    assert(rows_view(out@) =~= before + seq![RowView { value: *v, parent_index: next, ordinals: ordinals@ }]);
                    Ok(())
                } else {
                    visit(path, parents, indexes, v, seg + 1, ordinals, next, out)
                }
            },
            _ => {
                if last {
                    let next = parent_for(indexes, table, ordinals, parent);
                    out.push(RowSource { value: v, parent_index: next, ordinals: with_ordinals_copy(ordinals) });
                    assert(rows_view(out@) =~= before + seq![RowView { value: *v, parent_index: next, ordinals: ordinals@ }]);
                    Ok(())
                } else {
                    Err(RowSourceError::ScalarBeforePathEnd { segment: segment.to_owned() })
                }
            },
        },
    }
}

fn with_ordinals_copy(ordinals: &Vec<usize>) -> (r: Vec<usize>)
    ensures
        r@ == ordinals@,
{
    let mut r: Vec<usize> = Vec::new();
    let mut i: usize = 0;
    while i < ordinals.len()
        invariant
            0 <= i <= ordinals.len(),
            r@ == ordinals@.take(i as int),
        decreases ordinals.len() - i,
    {
        r.push(ordinals[i]);
        i = i + 1;
        assert(r@ =~= ordinals@.take(i as int));
    }
    assert(r@ =~= ordinals@);
    r
}

/// The rows of the table with `source_path` in `value`: `parents[i]` names
/// the parent table of segment `i`, whose rows `indexes` number by the
/// positions of the repeated values they sit in.
pub fn row_sources<'a>(
    source_path: &Vec<String>,
    parents: &Vec<Option<String>>,
    indexes: &Vec<ParentIndex>,
    value: &'a PayloadValue,
) -> (r: Result<Vec<RowSource<'a>>, RowSourceError>)
    ensures
        match sp_visit(
            crate::sorted::strings_view(source_path@),
            parents_view(parents@),
            indexes@,
            *value,
            0,
            Seq::empty(),
            None,
        ) {
            Ok(rows) => r matches Ok(v) && rows_view(v@) == rows,
            Err(e) => r matches Err(x) && x@ == e,
        },
{
    let mut out: Vec<RowSource<'a>> = Vec::new();
    let none: Vec<usize> = Vec::new();
    assert(none@ =~= Seq::<usize>::empty());
    assert(rows_view(out@) =~= Seq::<RowView>::empty());
    match visit(source_path, parents, indexes, value, 0, &none, None, &mut out) {
        Err(e) => Err(e),
        Ok(()) => {
            assert(Seq::<RowView>::empty() + rows_view(out@) =~= rows_view(out@));
            Ok(out)
        },
    }
}

} // verus!
