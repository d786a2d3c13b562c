//! The expansion plan of a relational root message: its root table, and a
//! table for each repeated field and each oneof variant reachable from it,
//! found by walking the message descriptors.
use vstd::prelude::*;
use crate::relational::{spec_table_name, table_name};
use crate::sorted::strings_view;
use crate::text::{chars_of, slice_eq};

verus! {

/// How a field repeats.
#[derive(Debug, Clone, Copy, PartialEq, Eq, Structural)]
pub enum FieldLabel {
    Optional,
    Repeated,
}

/// What a field holds: a message of the named type, or a scalar.
#[derive(Debug)]
pub enum FieldType {
    Message(String),
    Scalar,
}

/// A field of a message descriptor.
#[derive(Debug)]
pub struct FieldDescriptor {
    pub name: String,
    pub label: FieldLabel,
    pub field_type: FieldType,
    pub oneof_name: Option<String>,
}

/// A message descriptor: its name and fields.
#[derive(Debug)]
pub struct MessageDescriptor {
    pub name: String,
    pub fields: Vec<FieldDescriptor>,
}

/// How a table of the plan is filled.
#[derive(Debug, Clone, Copy, PartialEq, Eq, Structural)]
pub enum ExpansionRule {
    RootRecord,
    RepeatedScalar,
    RepeatedMessage,
    OneofVariant,
}

/// One table of an expansion plan.
#[derive(Debug)]
pub struct ExpansionPlanItem {
    pub rule: ExpansionRule,
    pub root_message: String,
    pub source_path: Vec<String>,
    pub source_message: String,
    pub output_table: String,
    pub parent_table: Option<String>,
}

/// The content of an [`ExpansionPlanItem`].
pub struct ItemView {
    pub rule: ExpansionRule,
    pub root_message: Seq<char>,
    pub source_path: Seq<Seq<char>>,
    pub source_message: Seq<char>,
    pub output_table: Seq<char>,
    pub parent_table: Option<Seq<char>>,
}

impl View for ExpansionPlanItem {
    type V = ItemView;

    open spec fn view(&self) -> ItemView {
        ItemView {
            rule: self.rule,
            root_message: self.root_message@,
            source_path: strings_view(self.source_path@),
            source_message: self.source_message@,
            output_table: self.output_table@,
            parent_table: match self.parent_table {
                Some(p) => Some(p@),
                None => None,
            },
        }
    }
}

pub open spec fn items_view(v: Seq<ExpansionPlanItem>) -> Seq<ItemView> {
    v.map_values(|i: ExpansionPlanItem| i@)
}

/// A message and path already walked.
#[derive(Debug)]
pub struct VisitKey {
    pub message: String,
    pub path: Vec<String>,
}

pub open spec fn keys_view(v: Seq<VisitKey>) -> Seq<(Seq<char>, Seq<Seq<char>>)> {
    v.map_values(|k: VisitKey| (k.message@, strings_view(k.path@)))
}

/// The first descriptor named `name`, from position `i` on.
pub open spec fn find_message_from(ds: Seq<MessageDescriptor>, name: Seq<char>, i: int) -> Option<int>
    decreases ds.len() - i,
{
    if i < 0 || i >= ds.len() {
        None
    } else if ds[i].name@ == name {
        Some(i)
    } else {
        find_message_from(ds, name, i + 1)
    }
}

/// The first descriptor named `name`.
pub open spec fn find_message(ds: Seq<MessageDescriptor>, name: Seq<char>) -> Option<int> {
    find_message_from(ds, name, 0)
}

/// The first field named `name`, from position `i` on.
pub open spec fn find_field_from(fields: Seq<FieldDescriptor>, name: Seq<char>, i: int) -> Option<int>
    decreases fields.len() - i,
{
    if i < 0 || i >= fields.len() {
        None
    } else if fields[i].name@ == name {
        Some(i)
    } else {
        find_field_from(fields, name, i + 1)
    }
}

/// The first field named `name`.
pub open spec fn find_field(fields: Seq<FieldDescriptor>, name: Seq<char>) -> Option<int> {
    find_field_from(fields, name, 0)
}

/// `segment` names a oneof group of the message.
pub open spec fn is_oneof_group(fields: Seq<FieldDescriptor>, segment: Seq<char>) -> bool {
    exists|i: int| 0 <= i < fields.len() && ((#[trigger] fields[i]).oneof_name matches Some(o) && o@ == segment)
}

/// Whether `segment` names a oneof group of the message at `m`.
pub open spec fn flag_of(ds: Seq<MessageDescriptor>, m: Option<int>, segment: Seq<char>) -> bool {
    m matches Some(k) && 0 <= k < ds.len() && is_oneof_group(ds[k].fields@, segment)
}

/// The message reached from the message at `m` through `segment`: the
/// same one for a oneof group, the message type of the field so named,
/// and none past a scalar, an unknown field or an unknown message.
pub open spec fn next_of(ds: Seq<MessageDescriptor>, m: Option<int>, segment: Seq<char>) -> Option<int> {
    match m {
        None => None,
        Some(k) => if flag_of(ds, m, segment) {
            m
        } else if 0 <= k < ds.len() {
            match find_field(ds[k].fields@, segment) {
                Some(f) => match ds[k].fields@[f].field_type {
                    FieldType::Message(c) => find_message(ds, c@),
                    FieldType::Scalar => None,
                },
                None => None,
            }
        } else {
            None
        },
    }
}

/// Which segments of `path` name a oneof group, walking the descriptors
/// from the message at `m`.
#[verifier::opaque]
pub open spec fn oneof_flags(ds: Seq<MessageDescriptor>, m: Option<int>, path: Seq<Seq<char>>) -> Seq<bool>
    decreases path.len(),
{
    if path.len() == 0 {
        Seq::empty()
    } else {
        seq![flag_of(ds, m, path[0])] + oneof_flags(ds, next_of(ds, m, path[0]), path.drop_first())
    }
}

/// The table name of `path` under the root message `root`.
pub open spec fn descriptor_table_name(ds: Seq<MessageDescriptor>, root: Seq<char>, path: Seq<Seq<char>>) -> Seq<char> {
    spec_table_name(root, path, oneof_flags(ds, find_message(ds, root), path))
}

fn str_eq(a: &str, b: &str) -> (r: bool)
    ensures
        r == (a@ == b@),
{
    slice_eq(chars_of(a).as_slice(), chars_of(b).as_slice())
}

proof fn lemma_find_message_range(ds: Seq<MessageDescriptor>, name: Seq<char>, i: int)
    ensures
        find_message_from(ds, name, i) matches Some(k) ==> i <= k < ds.len() && 0 <= k,
    decreases ds.len() - i,
{
    if 0 <= i < ds.len() && ds[i].name@ != name {
        lemma_find_message_range(ds, name, i + 1);
    }
}

proof fn lemma_find_field_range(fields: Seq<FieldDescriptor>, name: Seq<char>, i: int)
    ensures
        find_field_from(fields, name, i) matches Some(k) ==> i <= k < fields.len() && 0 <= k,
    decreases fields.len() - i,
{
    if 0 <= i < fields.len() && fields[i].name@ != name {
        lemma_find_field_range(fields, name, i + 1);
    }
}

/// The position of the first descriptor named `name`.
pub fn message_index(ds: &Vec<MessageDescriptor>, name: &str) -> (r: Option<usize>)
    ensures
        r == match find_message(ds@, name@) {
            Some(i) => Some(i as usize),
            None => None::<usize>,
        },
        r matches Some(i) ==> i < ds.len(),
{
    proof {
        lemma_find_message_range(ds@, name@, 0);
    }
    let mut i: usize = 0;
    while i < ds.len()
        invariant
            0 <= i <= ds.len(),
            find_message(ds@, name@) == find_message_from(ds@, name@, i as int),
        decreases ds.len() - i,
    {
        if str_eq(ds[i].name.as_str(), name) {
            return Some(i);
        }
        i = i + 1;
    }
    None
}

/// The position of the first field named `name`.
fn field_index(fields: &Vec<FieldDescriptor>, name: &str) -> (r: Option<usize>)
    ensures
        r == match find_field(fields@, name@) {
            Some(i) => Some(i as usize),
            None => None::<usize>,
        },
        r matches Some(i) ==> i < fields.len(),
{
    proof {
        lemma_find_field_range(fields@, name@, 0);
    }
    let mut i: usize = 0;
    while i < fields.len()
        invariant
            0 <= i <= fields.len(),
            find_field(fields@, name@) == find_field_from(fields@, name@, i as int),
        decreases fields.len() - i,
    {
        if str_eq(fields[i].name.as_str(), name) {
            return Some(i);
        }
        i = i + 1;
    }
    None
}

fn oneof_group(fields: &Vec<FieldDescriptor>, segment: &str) -> (r: bool)
    ensures
        r == is_oneof_group(fields@, segment@),
{
    let mut i: usize = 0;
    while i < fields.len()
        invariant
            0 <= i <= fields.len(),
            forall|j: int| 0 <= j < i ==> !((#[trigger] fields@[j]).oneof_name matches Some(o) && o@ == segment@),
        decreases fields.len() - i,
    {
        match &fields[i].oneof_name {
            Some(o) => if str_eq(o.as_str(), segment) {
                return true;
            },
            None => {},
        }
        i = i + 1;
    }
    false
}

proof fn lemma_flags_unfold(ds: Seq<MessageDescriptor>, m: Option<int>, path: Seq<Seq<char>>)
    ensures
        path.len() == 0 ==> oneof_flags(ds, m, path) == Seq::<bool>::empty(),
        path.len() > 0 ==> oneof_flags(ds, m, path) == seq![flag_of(ds, m, path[0])] + oneof_flags(
            ds,
            next_of(ds, m, path[0]),
            path.drop_first(),
        ),
{
    reveal(oneof_flags);
}

fn flag_and_next(ds: &Vec<MessageDescriptor>, m: Option<usize>, seg: &str) -> (r: (bool, Option<usize>))
    requires
        m matches Some(k) ==> k < ds.len(),
    ensures
        r.0 == flag_of(ds@, match m { Some(k) => Some(k as int), None => None::<int> }, seg@),
        r.1 == match next_of(ds@, match m { Some(k) => Some(k as int), None => None::<int> }, seg@) {
            Some(k) => Some(k as usize),
            None => None::<usize>,
        },
        r.1 matches Some(k) ==> k < ds.len(),
        next_of(ds@, match m { Some(k) => Some(k as int), None => None::<int> }, seg@) matches Some(k) ==> 0 <= k < ds.len(),
{
    match m {
        None => (false, None),
        Some(k) => {
            if oneof_group(&ds[k].fields, seg) {
                (true, Some(k))
            } else {
                proof {
                    lemma_find_field_range(ds@[k as int].fields@, seg@, 0);
                }
                let next = match field_index(&ds[k].fields, seg) {
                    Some(f) => match &ds[k].fields[f].field_type {
                        FieldType::Message(c) => {
                            proof {
                                lemma_find_message_range(ds@, c@, 0);
                            }
                            message_index(ds, c.as_str())
                        },
                        FieldType::Scalar => None,
                    },
                    None => None,
                };
                (false, next)
            }
        },
    }
}

/// The table name of `path` under the root message `root`: segments that
/// name a oneof group of the message reached so far add nothing.
pub fn plan_table_name(ds: &Vec<MessageDescriptor>, root: &str, path: &Vec<String>) -> (r: String)
    ensures
        r@ == descriptor_table_name(ds@, root@, strings_view(path@)),
{
    let ghost pv = strings_view(path@);
    let mut flags: Vec<bool> = Vec::new();
    let mut m = message_index(ds, root);
    let mut i: usize = 0;
    proof {
        lemma_find_message_range(ds@, root@, 0);
        assert(pv.skip(0) =~= pv);
        assert(flags@ + oneof_flags(ds@, find_message(ds@, root@), pv) =~= oneof_flags(ds@, find_message(ds@, root@), pv));
    }
    while i < path.len()
        invariant
            0 <= i <= path.len(),
            pv == strings_view(path@),
            flags.len() == i,
            m matches Some(k) ==> k < ds.len(),
            flags@ + oneof_flags(
                ds@,
                match m {
                    Some(k) => Some(k as int),
                    None => None::<int>,
                },
                pv.skip(i as int),
            ) == oneof_flags(ds@, find_message(ds@, root@), pv),
        decreases path.len() - i,
    {
        let ghost mi = match m {
            Some(k) => Some(k as int),
            None => None::<int>,
        };
        let ghost rest = pv.skip(i as int);
        assert(rest.drop_first() =~= pv.skip(i + 1));
        assert(rest[0] == path@[i as int]@);
        let seg = path[i].as_str();
        let (flag, next) = flag_and_next(ds, m, seg);
        flags.push(flag);
        m = next;
        proof {
            let ghost mi2 = match m {
                Some(k) => Some(k as int),
                None => None::<int>,
            };
            lemma_flags_unfold(ds@, mi, rest);
            assert(oneof_flags(ds@, mi, rest) == seq![flag] + oneof_flags(ds@, mi2, pv.skip(i + 1)));
            assert(flags@ + oneof_flags(ds@, mi2, pv.skip(i + 1)) =~= flags@.drop_last() + oneof_flags(ds@, mi, rest));
        }
        i = i + 1;
    }
    proof {
        assert(pv.skip(path.len() as int) =~= Seq::<Seq<char>>::empty());
        lemma_flags_unfold(ds@, match m { Some(k) => Some(k as int), None => None::<int> }, pv.skip(path.len() as int));
        assert(flags@ + Seq::<bool>::empty() =~= flags@);
    }
    table_name(root, path, &flags)
}

/// The descriptors reachable from the message at `m` lie at most `d`
/// levels deep: the walk from it ends.
pub open spec fn acyclic_from(ds: Seq<MessageDescriptor>, m: int, d: nat) -> bool
    decreases d,
{
    &&& 0 <= m < ds.len()
    &&& d > 0
    &&& forall|f: int|
        0 <= f < ds[m].fields.len() ==> match (#[trigger] ds[m].fields@[f]).field_type {
            FieldType::Message(c) => match find_message(ds, c@) {
                Some(k) => acyclic_from(ds, k, (d - 1) as nat),
                None => true,
            },
            FieldType::Scalar => true,
        }
}

/// A plan item.
pub open spec fn item(
    ds: Seq<MessageDescriptor>,
    rule: ExpansionRule,
    root: Seq<char>,
    path: Seq<Seq<char>>,
    source_message: Seq<char>,
    parent: Seq<char>,
) -> ItemView {
    ItemView {
        rule,
        root_message: root,
        source_path: path,
        source_message,
        output_table: descriptor_table_name(ds, root, path),
        parent_table: Some(parent),
    }
}

/// The walk of the message at `m`, reached by `path`, whose tables hang
/// under `parent`: nothing if it was walked before by the same path, else
/// its fields in order. Gives the items and the walked keys.
pub open spec fn sp_walk(
    ds: Seq<MessageDescriptor>,
    root: Seq<char>,
    m: int,
    path: Seq<Seq<char>>,
    parent: Seq<char>,
    visited: Seq<(Seq<char>, Seq<Seq<char>>)>,
    d: nat,
) -> (Seq<ItemView>, Seq<(Seq<char>, Seq<Seq<char>>)>)
    decreases d, 1int, 0int,
{
    if !(0 <= m < ds.len()) || visited.contains((ds[m].name@, path)) {
        (Seq::empty(), visited)
    } else {
        sp_fields(ds, root, m, path, parent, visited.push((ds[m].name@, path)), 0, d)
    }
}

/// The walk of a message-typed field into the message `c`, if it is known.
pub open spec fn sp_child(
    ds: Seq<MessageDescriptor>,
    root: Seq<char>,
    t: FieldType,
    path: Seq<Seq<char>>,
    parent: Seq<char>,
    visited: Seq<(Seq<char>, Seq<Seq<char>>)>,
    d: nat,
) -> (Seq<ItemView>, Seq<(Seq<char>, Seq<Seq<char>>)>)
    decreases d, 0int, 0int,
{
    match t {
        FieldType::Message(c) => match find_message(ds, c@) {
            Some(k) => if d > 0 {
                sp_walk(ds, root, k, path, parent, visited, (d - 1) as nat)
            } else {
                (Seq::empty(), visited)
            },
            None => (Seq::empty(), visited),
        },
        FieldType::Scalar => (Seq::empty(), visited),
    }
}

/// The items of field `f` of the message at `m` on its own, before the
/// walk into its message: a repeated field or a oneof variant has a table.
pub open spec fn field_item(ds: Seq<MessageDescriptor>, root: Seq<char>, m: int, f: int, path: Seq<Seq<char>>, parent: Seq<char>) -> Seq<ItemView> {
    let field = ds[m].fields@[f];
    if field.label == FieldLabel::Repeated {
        match field.field_type {
            FieldType::Scalar => seq![item(ds, ExpansionRule::RepeatedScalar, root, path.push(field.name@), ds[m].name@, parent)],
            FieldType::Message(c) => if find_message(ds, c@) is Some {
                seq![item(ds, ExpansionRule::RepeatedMessage, root, path.push(field.name@), c@, parent)]
            } else {
                Seq::empty()
            },
        }
    } else {
        match field.oneof_name {
            Some(o) => seq![item(ds, ExpansionRule::OneofVariant, root, path.push(o@).push(field.name@), ds[m].name@, parent)],
            None => Seq::empty(),
        }
    }
}

/// The path and parent table with which the walk enters field `f`'s message.
pub open spec fn field_path(ds: Seq<MessageDescriptor>, m: int, f: int, path: Seq<Seq<char>>) -> Seq<Seq<char>> {
    let field = ds[m].fields@[f];
    if field.label != FieldLabel::Repeated && field.oneof_name is Some {
        path.push(field.oneof_name->0@).push(field.name@)
    } else {
        path.push(field.name@)
    }
}

pub open spec fn field_parent(ds: Seq<MessageDescriptor>, root: Seq<char>, m: int, f: int, path: Seq<Seq<char>>, parent: Seq<char>) -> Seq<char> {
    let field = ds[m].fields@[f];
    if field.label == FieldLabel::Repeated || field.oneof_name is Some {
        descriptor_table_name(ds, root, field_path(ds, m, f, path))
    } else {
        parent
    }
}

/// The fields of the message at `m` from field `f` on: each gives its own
/// table, if any, then the walk into its message, if known.
pub open spec fn sp_fields(
    ds: Seq<MessageDescriptor>,
    root: Seq<char>,
    m: int,
    path: Seq<Seq<char>>,
    parent: Seq<char>,
    visited: Seq<(Seq<char>, Seq<Seq<char>>)>,
    f: int,
    d: nat,
) -> (Seq<ItemView>, Seq<(Seq<char>, Seq<Seq<char>>)>)
    decreases d, 0int, ds[m].fields.len() - f,
{
    if !(0 <= m < ds.len()) || f < 0 || f >= ds[m].fields.len() {
        (Seq::empty(), visited)
    } else {
        let field = ds[m].fields@[f];
        let sub = sp_child(ds, root, field.field_type, field_path(ds, m, f, path), field_parent(ds, root, m, f, path, parent), visited, d);
        let rest = sp_fields(ds, root, m, path, parent, sub.1, f + 1, d);
        (field_item(ds, root, m, f, path, parent) + sub.0 + rest.0, rest.1)
    }
}

fn extend_path(path: &Vec<String>, segment: &str) -> (r: Vec<String>)
    ensures
        strings_view(r@) == strings_view(path@).push(segment@),
{
    let mut r: Vec<String> = Vec::new();
    let mut i: usize = 0;
    while i < path.len()
        invariant
            0 <= i <= path.len(),
            r.len() == i,
            strings_view(r@) == strings_view(path@).take(i as int),
        decreases path.len() - i,
    {
        let ghost before = r@;
        let c = path[i].clone();
        assert(c@ == path@[i as int]@);
        r.push(c);
        assert(r@ == before.push(c));
        i = i + 1;
        assert forall|k: int| 0 <= k < i implies strings_view(r@)[k] == strings_view(path@).take(i as int)[k] by {
            if k < i - 1 {
                assert(r@[k] == before[k]);
                assert(strings_view(before)[k] == strings_view(path@).take(i - 1)[k]);
            }
        }
        assert(strings_view(r@) =~= strings_view(path@).take(i as int));
    }
    let ghost before = r@;
    let last = segment.to_owned();
    r.push(last);
    assert(strings_view(path@).take(path.len() as int) =~= strings_view(path@));
    assert forall|k: int| 0 <= k < r.len() implies strings_view(r@)[k] == strings_view(path@).push(segment@)[k] by {
        if k < path.len() {
            assert(r@[k] == before[k]);
            assert(strings_view(before)[k] == strings_view(path@).take(path.len() as int)[k]);
        }
    }
    assert(strings_view(r@) =~= strings_view(path@).push(segment@));
    r
}

fn paths_eq(a: &Vec<String>, b: &Vec<String>) -> (r: bool)
    ensures
        r == (strings_view(a@) == strings_view(b@)),
{
    if a.len() != b.len() {
        assert(strings_view(a@).len() != strings_view(b@).len());
        return false;
    }
    let mut i: usize = 0;
    while i < a.len()
        invariant
            a.len() == b.len(),
            0 <= i <= a.len(),
            forall|j: int| 0 <= j < i ==> strings_view(a@)[j] == strings_view(b@)[j],
        decreases a.len() - i,
    {
        if !str_eq(a[i].as_str(), b[i].as_str()) {
            assert(strings_view(a@)[i as int] != strings_view(b@)[i as int]);
            return false;
        }
        i = i + 1;
    }
    assert(strings_view(a@) =~= strings_view(b@));
    true
}

fn key_seen(visited: &Vec<VisitKey>, message: &str, path: &Vec<String>) -> (r: bool)
    ensures
        r == keys_view(visited@).contains((message@, strings_view(path@))),
{
    let ghost key = (message@, strings_view(path@));
    let mut i: usize = 0;
    while i < visited.len()
        invariant
            0 <= i <= visited.len(),
            key == (message@, strings_view(path@)),
            forall|j: int| 0 <= j < i ==> keys_view(visited@)[j] != key,
        decreases visited.len() - i,
    {
        if str_eq(visited[i].message.as_str(), message) && paths_eq(&visited[i].path, path) {
            assert(keys_view(visited@)[i as int] == key);
            return true;
        }
        i = i + 1;
    }
    false
}

fn make_item(
    ds: &Vec<MessageDescriptor>,
    rule: ExpansionRule,
    root: &str,
    path: Vec<String>,
    source_message: &str,
    parent: &str,
) -> (r: ExpansionPlanItem)
    ensures
        r@ == item(ds@, rule, root@, strings_view(path@), source_message@, parent@),
{
    let output_table = plan_table_name(ds, root, &path);
    ExpansionPlanItem {
        rule,
        root_message: root.to_owned(),
        source_path: path,
        source_message: source_message.to_owned(),
        output_table,
        parent_table: Some(parent.to_owned()),
    }
}

fn copy_path(path: &Vec<String>) -> (r: Vec<String>)
    ensures
        strings_view(r@) == strings_view(path@),
{
    let mut r: Vec<String> = Vec::new();
    let mut i: usize = 0;
    while i < path.len()
        invariant
            0 <= i <= path.len(),
            r.len() == i,
            strings_view(r@) == strings_view(path@).take(i as int),
        decreases path.len() - i,
    {
        let ghost before = r@;
        let c = path[i].clone();
        r.push(c);
        i = i + 1;
        assert forall|k: int| 0 <= k < i implies strings_view(r@)[k] == strings_view(path@).take(i as int)[k] by {
            if k < i - 1 {
                assert(r@[k] == before[k]);
                assert(strings_view(before)[k] == strings_view(path@).take(i - 1)[k]);
            }
        }
        assert(strings_view(r@) =~= strings_view(path@).take(i as int));
    }
    assert(strings_view(path@).take(path.len() as int) =~= strings_view(path@));
    r
}

/// Walks the message at `m`, reached by `path`, whose tables hang under
/// `parent`, adding the tables of its repeated fields and oneof variants,
/// and of the messages below, to `items`.
fn collect_nested_tables(
    ds: &Vec<MessageDescriptor>,
    items: &mut Vec<ExpansionPlanItem>,
    root: &str,
    m: usize,
    path: Vec<String>,
    parent: &str,
    visited: &mut Vec<VisitKey>,
    Ghost(d): Ghost<nat>,
)
    requires
        m < ds.len(),
        acyclic_from(ds@, m as int, d),
    ensures
        items_view(final(items)@) == items_view(old(items)@) + sp_walk(
            ds@,
            root@,
            m as int,
            strings_view(path@),
            parent@,
            keys_view(old(visited)@),
            d,
        ).0,
        keys_view(final(visited)@) == sp_walk(ds@, root@, m as int, strings_view(path@), parent@, keys_view(old(visited)@), d).1,
    decreases d,
{
    let ghost pv = strings_view(path@);
    if key_seen(visited, ds[m].name.as_str(), &path) {
        assert(items_view(items@) + Seq::<ItemView>::empty() =~= items_view(items@));
        return;
    }
    let key = VisitKey { message: ds[m].name.clone(), path: copy_path(&path) };
    let ghost vb = visited@;
    visited.push(key);
    assert(keys_view(visited@) =~= keys_view(vb).push((ds@[m as int].name@, pv)));
    let ghost v0 = keys_view(visited@);
    let ghost items0 = items_view(items@);
    let ghost whole = sp_fields(ds@, root@, m as int, pv, parent@, v0, 0, d);
    let n = ds[m].fields.len();
    let mut f: usize = 0;
    assert(items_view(items@) + whole.0 =~= items0 + whole.0);
    while f < n
        invariant
            m < ds.len(),
            n == ds@[m as int].fields.len(),
            0 <= f <= n,
            acyclic_from(ds@, m as int, d),
            pv == strings_view(path@),
            whole == sp_fields(ds@, root@, m as int, pv, parent@, v0, 0, d),
            items_view(items@) + sp_fields(ds@, root@, m as int, pv, parent@, keys_view(visited@), f as int, d).0 == items0
                + whole.0,
            sp_fields(ds@, root@, m as int, pv, parent@, keys_view(visited@), f as int, d).1 == whole.1,
        decreases n - f,
    {
        let ghost vc = keys_view(visited@);
        let ghost ic = items_view(items@);
        let field = &ds[m].fields[f];
        let fp = match (&field.oneof_name, field.label) {
            (Some(o), FieldLabel::Optional) => {
                let with_group = extend_path(&path, o.as_str());
                extend_path(&with_group, field.name.as_str())
            },
            _ => extend_path(&path, field.name.as_str()),
        };
        assert(strings_view(fp@) == field_path(ds@, m as int, f as int, pv));
        let table = plan_table_name(ds, root, &fp);
        let ghost own = field_item(ds@, root@, m as int, f as int, pv, parent@);
        if field.label == FieldLabel::Repeated {
            match &field.field_type {
                FieldType::Scalar => {
                    let it = make_item(ds, ExpansionRule::RepeatedScalar, root, copy_path(&fp), ds[m].name.as_str(), parent);
                    items.push(it);
                },
                FieldType::Message(c) => {
                    if message_index(ds, c.as_str()).is_some() {
                        let it = make_item(ds, ExpansionRule::RepeatedMessage, root, copy_path(&fp), c.as_str(), parent);
                        items.push(it);
                    }
                },
            }
        } else if field.oneof_name.is_some() {
            let it = make_item(ds, ExpansionRule::OneofVariant, root, copy_path(&fp), ds[m].name.as_str(), parent);
            items.push(it);
        }
        assert(items_view(items@) =~= ic + own);
        let ghost ia = items_view(items@);
        let child_parent = if field.label == FieldLabel::Repeated || field.oneof_name.is_some() {
            table
        } else {
            parent.to_owned()
        };
        assert(child_parent@ == field_parent(ds@, root@, m as int, f as int, pv, parent@));
        let ghost sub = sp_child(ds@, root@, field.field_type, field_path(ds@, m as int, f as int, pv), child_parent@, vc, d);
        match &field.field_type {
            FieldType::Message(c) => {
                proof {
                    lemma_find_message_range(ds@, c@, 0);
                }
                match message_index(ds, c.as_str()) {
                    Some(k) => {
                        assert(acyclic_from(ds@, k as int, (d - 1) as nat)) by {
                            assert(ds@[m as int].fields@[f as int] == *field);
                        }
                        collect_nested_tables(ds, items, root, k, fp, child_parent.as_str(), visited, Ghost((d - 1) as nat));
                    },
                    None => {
                        assert(ia + Seq::<ItemView>::empty() =~= ia);
                    },
                }
            },
            FieldType::Scalar => {
                assert(ia + Seq::<ItemView>::empty() =~= ia);
            },
        }
        assert(items_view(items@) == ic + own + sub.0);
        assert(keys_view(visited@) == sub.1);
        let ghost rest = sp_fields(ds@, root@, m as int, pv, parent@, sub.1, f + 1, d);
        assert(sp_fields(ds@, root@, m as int, pv, parent@, vc, f as int, d) == (own + sub.0 + rest.0, rest.1));
        assert(items_view(items@) + rest.0 =~= ic + (own + sub.0 + rest.0));
        f = f + 1;
    }
    assert(items_view(items@) + Seq::<ItemView>::empty() =~= items_view(items@));
}

/// Why a plan cannot be made.
#[derive(Debug)]
pub enum PlanError {
    /// No descriptor for a root message.
    MissingRoot { message: String },
    /// A field refers to a message that has no descriptor.
    MissingDescriptor { message: String, referenced_by: String, field: String },
}

pub enum PlanErrorView {
    MissingRoot { message: Seq<char> },
    MissingDescriptor { message: Seq<char>, referenced_by: Seq<char>, field: Seq<char> },
}

impl View for PlanError {
    type V = PlanErrorView;

    open spec fn view(&self) -> PlanErrorView {
        match self {
            PlanError::MissingRoot { message } => PlanErrorView::MissingRoot { message: message@ },
            PlanError::MissingDescriptor { message, referenced_by, field } => PlanErrorView::MissingDescriptor {
                message: message@,
                referenced_by: referenced_by@,
                field: field@,
            },
        }
    }
}

/// Checking the message at `m` and, depth first, the messages its fields
/// refer to: each must have a descriptor. Messages checked before are
/// skipped. Gives the checked names, or the first missing descriptor.
pub open spec fn sp_check(ds: Seq<MessageDescriptor>, m: int, checked: Seq<Seq<char>>, d: nat) -> Result<Seq<Seq<char>>, PlanErrorView>
    decreases d, 1int, 0int,
{
    if !(0 <= m < ds.len()) || checked.contains(ds[m].name@) {
        Ok(checked)
    } else {
        sp_check_fields(ds, m, checked.push(ds[m].name@), 0, d)
    }
}

pub open spec fn sp_check_fields(ds: Seq<MessageDescriptor>, m: int, checked: Seq<Seq<char>>, f: int, d: nat) -> Result<
    Seq<Seq<char>>,
    PlanErrorView,
>
    decreases d, 0int, ds[m].fields.len() - f,
{
    if !(0 <= m < ds.len()) || f < 0 || f >= ds[m].fields.len() {
        Ok(checked)
    } else {
        match ds[m].fields@[f].field_type {
            FieldType::Scalar => sp_check_fields(ds, m, checked, f + 1, d),
            FieldType::Message(c) => match find_message(ds, c@) {
                None => Err(PlanErrorView::MissingDescriptor {
                    message: c@,
                    referenced_by: ds[m].name@,
                    field: ds[m].fields@[f].name@,
                }),
                Some(k) => if d > 0 {
                    match sp_check(ds, k, checked, (d - 1) as nat) {
                        Err(e) => Err(e),
                        Ok(c2) => sp_check_fields(ds, m, c2, f + 1, d),
                    }
                } else {
                    Ok(checked)
                },
            },
        }
    }
}

fn name_checked(checked: &Vec<String>, name: &str) -> (r: bool)
    ensures
        r == strings_view(checked@).contains(name@),
{
    let mut i: usize = 0;
    while i < checked.len()
        invariant
            0 <= i <= checked.len(),
            forall|j: int| 0 <= j < i ==> strings_view(checked@)[j] != name@,
        decreases checked.len() - i,
    {
        if str_eq(checked[i].as_str(), name) {
            assert(strings_view(checked@)[i as int] == name@);
            return true;
        }
        i = i + 1;
    }
    false
}

fn check_descriptors(ds: &Vec<MessageDescriptor>, m: usize, checked: &mut Vec<String>, Ghost(d): Ghost<nat>) -> (r: Result<(), PlanError>)
    requires
        m < ds.len(),
        acyclic_from(ds@, m as int, d),
    ensures
        match sp_check(ds@, m as int, strings_view(old(checked)@), d) {
            Ok(c) => r is Ok && strings_view(final(checked)@) == c,
            Err(e) => r matches Err(x) && x@ == e,
        },
    decreases d,
{
    if name_checked(checked, ds[m].name.as_str()) {
        return Ok(());
    }
    let ghost before = checked@;
    checked.push(ds[m].name.clone());
    assert(strings_view(checked@) =~= strings_view(before).push(ds@[m as int].name@));
    let ghost c0 = strings_view(checked@);
    assert(sp_check(ds@, m as int, strings_view(before), d) == sp_check_fields(ds@, m as int, c0, 0, d));
    let n = ds[m].fields.len();
    let mut f: usize = 0;
    while f < n
        invariant
            m < ds.len(),
            n == ds@[m as int].fields.len(),
            0 <= f <= n,
            acyclic_from(ds@, m as int, d),
            sp_check_fields(ds@, m as int, c0, 0, d) == sp_check_fields(ds@, m as int, strings_view(checked@), f as int, d),
            sp_check(ds@, m as int, strings_view(old(checked)@), d) == sp_check_fields(ds@, m as int, c0, 0, d),
        decreases n - f,
    {
        let field = &ds[m].fields[f];
        let ghost cur = strings_view(checked@);
        assert(ds@[m as int].fields@[f as int] == *field);
        match &field.field_type {
            FieldType::Scalar => {},
            FieldType::Message(c) => {
                proof {
                    lemma_find_message_range(ds@, c@, 0);
                }
                match message_index(ds, c.as_str()) {
                    None => {
                        assert(sp_check_fields(ds@, m as int, cur, f as int, d) == Err::<Seq<Seq<char>>, PlanErrorView>(
                            PlanErrorView::MissingDescriptor { message: c@, referenced_by: ds@[m as int].name@, field: field.name@ },
                        ));
                        return Err(PlanError::MissingDescriptor {
                            message: c.clone(),
                            referenced_by: ds[m].name.clone(),
                            field: field.name.clone(),
                        });
                    },
                    Some(k) => {
                        assert(acyclic_from(ds@, k as int, (d - 1) as nat)) by {
                            assert(ds@[m as int].fields@[f as int] == *field);
                        }
                        match check_descriptors(ds, k, checked, Ghost((d - 1) as nat)) {
                            Err(e) => {
                                assert(sp_check_fields(ds@, m as int, cur, f as int, d) == Err::<Seq<Seq<char>>, PlanErrorView>(e@));
                                return Err(e);
                            },
                            Ok(()) => {},
                        }
                    },
                }
            },
        }
        f = f + 1;
    }
    Ok(())
}

/// How deep the walk from the message at `m` goes.
pub open spec fn walk_depth(ds: Seq<MessageDescriptor>, m: int) -> nat {
    choose|d: nat| acyclic_from(ds, m, d)
}

/// The walk from the message at `m` ends.
pub open spec fn walk_ends(ds: Seq<MessageDescriptor>, m: int) -> bool {
    exists|d: nat| acyclic_from(ds, m, d)
}

/// The plan of the roots from `i` on, after the items `acc`: for each root,
/// its descriptor is checked, then its root table and the tables below it
/// follow.
pub open spec fn sp_plan(ds: Seq<MessageDescriptor>, roots: Seq<Seq<char>>, i: int, acc: Seq<ItemView>) -> Result<
    Seq<ItemView>,
    PlanErrorView,
>
    decreases roots.len() - i,
{
    if i < 0 || i >= roots.len() {
        Ok(acc)
    } else {
        let r = roots[i];
        match find_message(ds, r) {
            None => Err(PlanErrorView::MissingRoot { message: r }),
            Some(m) => match sp_check(ds, m, Seq::empty(), walk_depth(ds, m)) {
                Err(e) => Err(e),
                Ok(_) => {
                    let table = descriptor_table_name(ds, r, Seq::empty());
                    let root_item = ItemView {
                        rule: ExpansionRule::RootRecord,
                        root_message: r,
                        source_path: Seq::empty(),
                        source_message: r,
                        output_table: table,
                        parent_table: None,
                    };
                    let walked = sp_walk(ds, r, m, Seq::empty(), table, Seq::empty(), walk_depth(ds, m));
                    sp_plan(ds, roots, i + 1, acc.push(root_item) + walked.0)
                },
            },
        }
    }
}

/// The expansion plan of the root messages, in order: each root's
/// descriptor and those it refers to must exist; then come its root table
/// and, walking its fields in order, a table for each repeated field and
/// each oneof variant, the walk entering every known message field.
pub fn expansion_plan_for_roots(ds: &Vec<MessageDescriptor>, roots: &Vec<String>) -> (r: Result<Vec<ExpansionPlanItem>, PlanError>)
    requires
        forall|i: int| 0 <= i < roots.len() ==> (find_message(ds@, (#[trigger] roots@[i])@) matches Some(m) ==> walk_ends(ds@, m)),
    ensures
        match sp_plan(ds@, strings_view(roots@), 0, Seq::empty()) {
            Ok(items) => r matches Ok(v) && items_view(v@) == items,
            Err(e) => r matches Err(x) && x@ == e,
        },
{
    let ghost rv = strings_view(roots@);
    let mut items: Vec<ExpansionPlanItem> = Vec::new();
    let mut i: usize = 0;
    assert(items_view(items@) =~= Seq::<ItemView>::empty());
    while i < roots.len()
        invariant
            0 <= i <= roots.len(),
            rv == strings_view(roots@),
            forall|j: int| 0 <= j < roots.len() ==> (find_message(ds@, (#[trigger] roots@[j])@) matches Some(m) ==> walk_ends(ds@, m)),
            sp_plan(ds@, rv, 0, Seq::empty()) == sp_plan(ds@, rv, i as int, items_view(items@)),
        decreases roots.len() - i,
    {
        let root = roots[i].as_str();
        assert(rv[i as int] == root@);
        proof {
            lemma_find_message_range(ds@, root@, 0);
        }
        let m = match message_index(ds, root) {
            None => return Err(PlanError::MissingRoot { message: root.to_owned() }),
            Some(m) => m,
        };
        assert(walk_ends(ds@, m as int));
        let ghost d = walk_depth(ds@, m as int);
        assert(acyclic_from(ds@, m as int, d));
        let mut checked: Vec<String> = Vec::new();
        assert(strings_view(checked@) =~= Seq::<Seq<char>>::empty());
        match check_descriptors(ds, m, &mut checked, Ghost(d)) {
            Err(e) => return Err(e),
            Ok(()) => {},
        }
        let empty: Vec<String> = Vec::new();
        assert(strings_view(empty@) =~= Seq::<Seq<char>>::empty());
        let table = plan_table_name(ds, root, &empty);
        let ghost before = items_view(items@);
        items.push(ExpansionPlanItem {
            rule: ExpansionRule::RootRecord,
            root_message: root.to_owned(),
            source_path: Vec::new(),
            source_message: root.to_owned(),
            output_table: table.clone(),
            parent_table: None,
        });
        let ghost pushed = items_view(items@);
        assert(pushed =~= before.push(ItemView {
            rule: ExpansionRule::RootRecord,
            root_message: root@,
            source_path: Seq::empty(),
            source_message: root@,
            output_table: descriptor_table_name(ds@, root@, Seq::empty()),
            parent_table: None,
        }));
        let no_path: Vec<String> = Vec::new();
        assert(strings_view(no_path@) =~= Seq::<Seq<char>>::empty());
        let mut visited: Vec<VisitKey> = Vec::new();
        assert(keys_view(visited@) =~= Seq::<(Seq<char>, Seq<Seq<char>>)>::empty());
        collect_nested_tables(ds, &mut items, root, m, no_path, table.as_str(), &mut visited, Ghost(d));
        assert(sp_plan(ds@, rv, i as int, before) == sp_plan(ds@, rv, i + 1, items_view(items@)));
        i = i + 1;
    }
    Ok(items)
}

/// `a` begins with `b`.
pub open spec fn extends(a: Seq<(Seq<char>, Seq<Seq<char>>)>, b: Seq<(Seq<char>, Seq<Seq<char>>)>) -> bool {
    a.len() >= b.len() && a.take(b.len() as int) == b
}

/// The walk never forgets a walked message: the keys it gives extend the
/// keys it was given and hold the key of the message it walks, so no
/// message is walked twice by the same path.
pub proof fn lemma_walk_remembers(
    ds: Seq<MessageDescriptor>,
    root: Seq<char>,
    m: int,
    path: Seq<Seq<char>>,
    parent: Seq<char>,
    visited: Seq<(Seq<char>, Seq<Seq<char>>)>,
    d: nat,
)
    ensures
        extends(sp_walk(ds, root, m, path, parent, visited, d).1, visited),
        0 <= m < ds.len() ==> sp_walk(ds, root, m, path, parent, visited, d).1.contains((ds[m].name@, path)),
    decreases d, 1int, 0int,
{
    if !(0 <= m < ds.len()) || visited.contains((ds[m].name@, path)) {
        assert(visited.take(visited.len() as int) =~= visited);
    } else {
        let v1 = visited.push((ds[m].name@, path));
        lemma_fields_remember(ds, root, m, path, parent, v1, 0, d);
        let out = sp_fields(ds, root, m, path, parent, v1, 0, d).1;
        assert(out.take(v1.len() as int) == v1);
        assert(out[visited.len() as int] == v1[visited.len() as int]);
        assert(out.take(visited.len() as int) =~= visited) by {
            assert forall|k: int| 0 <= k < visited.len() implies out.take(visited.len() as int)[k] == visited[k] by {
                assert(out[k] == out.take(v1.len() as int)[k]);
            }
        }
    }
}

proof fn lemma_child_remembers(
    ds: Seq<MessageDescriptor>,
    root: Seq<char>,
    t: FieldType,
    path: Seq<Seq<char>>,
    parent: Seq<char>,
    visited: Seq<(Seq<char>, Seq<Seq<char>>)>,
    d: nat,
)
    ensures
        extends(sp_child(ds, root, t, path, parent, visited, d).1, visited),
    decreases d, 0int, 0int,
{
    match t {
        FieldType::Message(c) => match find_message(ds, c@) {
            Some(k) => if d > 0 {
                lemma_walk_remembers(ds, root, k, path, parent, visited, (d - 1) as nat);
            } else {
                assert(visited.take(visited.len() as int) =~= visited);
            },
            None => {
                assert(visited.take(visited.len() as int) =~= visited);
            },
        },
        FieldType::Scalar => {
            assert(visited.take(visited.len() as int) =~= visited);
        },
    }
}

proof fn lemma_fields_remember(
    ds: Seq<MessageDescriptor>,
    root: Seq<char>,
    m: int,
    path: Seq<Seq<char>>,
    parent: Seq<char>,
    visited: Seq<(Seq<char>, Seq<Seq<char>>)>,
    f: int,
    d: nat,
)
    ensures
        extends(sp_fields(ds, root, m, path, parent, visited, f, d).1, visited),
    decreases d, 0int, ds[m].fields.len() - f,
{
    if !(0 <= m < ds.len()) || f < 0 || f >= ds[m].fields.len() {
        assert(visited.take(visited.len() as int) =~= visited);
    } else {
        let field = ds[m].fields@[f];
        let fp = field_path(ds, m, f, path);
        let pp = field_parent(ds, root, m, f, path, parent);
        lemma_child_remembers(ds, root, field.field_type, fp, pp, visited, d);
        let v1 = sp_child(ds, root, field.field_type, fp, pp, visited, d).1;
        lemma_fields_remember(ds, root, m, path, parent, v1, f + 1, d);
        let v2 = sp_fields(ds, root, m, path, parent, v1, f + 1, d).1;
        assert(v2.take(visited.len() as int) =~= visited) by {
            assert forall|k: int| 0 <= k < visited.len() implies v2.take(visited.len() as int)[k] == visited[k] by {
                assert(v2[k] == v2.take(v1.len() as int)[k]);
                assert(v1[k] == v1.take(visited.len() as int)[k]);
            }
        }
    }
}

} // verus!
