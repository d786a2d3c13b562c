//! Reading a Trace Streamer database: which relations are imported, how
//! their columns are typed, and how names are quoted in SQL.
use vstd::prelude::*;
use crate::relational::ascii_upper;
use std::path::PathBuf;
use crate::dataset::names::{spec_valid_table_name, valid_table_name};
use crate::sorted::{nondecreasing_names, sort_names, strings_view};
use crate::text::{chars_of, eq_str, slice_eq, push_char, spec_strip_prefix, spec_trim, strip_prefix, trim};
use crate::dataset::target::{first_repeated, first_repeated_column};

verus! {

/// A dataset that an import produced.
#[derive(Debug)]
pub struct ImportedDataset {
    path: PathBuf,
}

impl ImportedDataset {
    pub closed spec fn spec_path(&self) -> PathBuf {
        self.path
    }

    pub fn new(path: PathBuf) -> (r: Self)
        ensures
            r.spec_path() == path,
    {
        ImportedDataset { path }
    }

    pub fn path(&self) -> (r: &PathBuf)
        ensures
            *r == self.spec_path(),
    {
        &self.path
    }
}

/// `value` with every `q` doubled, between two `q`.
pub open spec fn quoted(value: Seq<char>, q: char) -> Seq<char> {
    seq![q] + doubled(value, q) + seq![q]
}

/// `value` with every `q` doubled.
pub open spec fn doubled(value: Seq<char>, q: char) -> Seq<char>
    decreases value.len(),
{
    if value.len() == 0 {
        Seq::empty()
    } else {
        let rest = doubled(value.drop_last(), q);
        if value.last() == q {
            rest + seq![q, q]
        } else {
            rest.push(value.last())
        }
    }
}

fn quote_with(value: &str, q: char) -> (r: String)
    ensures
        r@ == quoted(value@, q),
{
    let c = chars_of(value);
    let mut out = String::new();
    push_char(&mut out, q);
    let mut i: usize = 0;
    assert(c@.take(0) =~= Seq::<char>::empty());
    while i < c.len()
        invariant
            0 <= i <= c.len(),
            c@ == value@,
            out@ == seq![q] + doubled(c@.take(i as int), q),
        decreases c.len() - i,
    {
        let ch = c[i];
        assert(c@.take(i + 1).drop_last() =~= c@.take(i as int));
        if ch == q {
            push_char(&mut out, q);
            push_char(&mut out, q);
            assert(out@ =~= seq![q] + doubled(c@.take(i + 1), q));
        } else {
            push_char(&mut out, ch);
            assert(out@ =~= seq![q] + doubled(c@.take(i + 1), q));
        }
        i = i + 1;
    }
    assert(c@.take(c.len() as int) =~= c@);
    push_char(&mut out, q);
    out
}

/// A SQL identifier: in double quotes, inner double quotes doubled.
pub fn quote_identifier(value: &str) -> (r: String)
    ensures
        r@ == quoted(value@, '"'),
{
    quote_with(value, '"')
}

/// A SQL string literal: in single quotes, inner single quotes doubled.
pub fn quote_string(value: &str) -> (r: String)
    ensures
        r@ == quoted(value@, '\''),
{
    quote_with(value, '\'')
}

/// One row of `PRAGMA table_list`: schema, name and type.
#[derive(Debug)]
pub struct RelationListing {
    pub schema: String,
    pub name: String,
    pub relation_type: String,
}

/// The tables of the main schema that SQLite does not own, in listing order.
pub open spec fn listed_tables(rows: Seq<RelationListing>) -> Seq<Seq<char>>
    decreases rows.len(),
{
    if rows.len() == 0 {
        Seq::empty()
    } else {
        let prev = listed_tables(rows.drop_last());
        let r = rows.last();
        if r.schema@ == "main"@ && r.relation_type@ == "table"@ && spec_strip_prefix(r.name@, "sqlite_"@) is None {
            prev.push(r.name@)
        } else {
            prev
        }
    }
}

/// The relations to import, sorted by name.
pub fn relation_names(rows: &Vec<RelationListing>) -> (r: Vec<String>)
    ensures
        nondecreasing_names(strings_view(r@)),
        strings_view(r@).to_multiset() == listed_tables(rows@).to_multiset(),
{
    let mut names: Vec<String> = Vec::new();
    let mut i: usize = 0;
    let prefix = chars_of("sqlite_");
    assert(strings_view(names@) =~= Seq::<Seq<char>>::empty());
    assert(rows@.take(0) =~= Seq::<RelationListing>::empty());
    while i < rows.len()
        invariant
            0 <= i <= rows.len(),
            prefix@ == "sqlite_"@,
            strings_view(names@) == listed_tables(rows@.take(i as int)),
        decreases rows.len() - i,
    {
        let row = &rows[i];
        assert(rows@.take(i + 1).drop_last() =~= rows@.take(i as int));
        let ghost before = strings_view(names@);
        if eq_str(chars_of(row.schema.as_str()).as_slice(), "main") && eq_str(
            chars_of(row.relation_type.as_str()).as_slice(),
            "table",
        ) && strip_prefix(chars_of(row.name.as_str()).as_slice(), prefix.as_slice()).is_none() {
            names.push(row.name.clone());
            assert(strings_view(names@) =~= before.push(row.name@));
        }
        i = i + 1;
    }
    assert(rows@.take(rows.len() as int) =~= rows@);
    sort_names(&names)
}

/// How a column is stored in the dataset.
#[derive(Debug, Clone, Copy, PartialEq, Eq, Structural)]
pub enum ColumnType {
    Integer,
    Real,
    Text,
}

/// The column type that a declared SQLite type names, case aside and
/// surrounding whitespace aside: `INTEGER` or `INT`, `REAL`, `TEXT`.
#[verifier::opaque]
pub open spec fn spec_declared_type(declaration: Seq<char>) -> Option<ColumnType> {
    let u = spec_trim(declaration).map_values(|c: char| ascii_upper(c));
    if u == "INTEGER"@ || u == "INT"@ {
        Some(ColumnType::Integer)
    } else if u == "REAL"@ {
        Some(ColumnType::Real)
    } else if u == "TEXT"@ {
        Some(ColumnType::Text)
    } else {
        None
    }
}

pub fn declared_type(declaration: &str) -> (r: Option<ColumnType>)
    ensures
        r == spec_declared_type(declaration@),
{
    reveal(spec_declared_type);
    let c = chars_of(declaration);
    let t = trim(c.as_slice());
    let mut u: Vec<char> = Vec::new();
    let mut i: usize = 0;
    while i < t.len()
        invariant
            0 <= i <= t.len(),
            u@ == t@.take(i as int).map_values(|c: char| ascii_upper(c)),
        decreases t.len() - i,
    {
        let ch = t[i];
        let up = if 'a' <= ch && ch <= 'z' {
            ((ch as u8) - 32) as char
        } else {
            ch
        };
        assert(up == ascii_upper(ch));
        u.push(up);
        assert(t@.take(i + 1).map_values(|c: char| ascii_upper(c)) =~= t@.take(i as int).map_values(
            |c: char| ascii_upper(c),
        ).push(ascii_upper(ch)));
        i = i + 1;
    }
    assert(t@.take(t.len() as int) =~= t@);
    if eq_str(u.as_slice(), "INTEGER") || eq_str(u.as_slice(), "INT") {
        Some(ColumnType::Integer)
    } else if eq_str(u.as_slice(), "REAL") {
        Some(ColumnType::Real)
    } else if eq_str(u.as_slice(), "TEXT") {
        Some(ColumnType::Text)
    } else {
        None
    }
}

/// Why a relation cannot be imported.
#[derive(Debug)]
pub enum RelationError {
    InvalidRelationName { relation: String },
    DuplicateColumn { relation: String, column: String },
    UnsupportedDeclaredType { relation: String, column: String, declaration: String },
    NoColumns { relation: String },
}

/// The first column, in order, whose declared type is unsupported.
pub open spec fn first_unsupported(decls: Seq<String>) -> Option<int> {
    if exists|j: int| 0 <= j < decls.len() && spec_declared_type(#[trigger] decls[j]@) is None {
        Some(choose|j: int| 0 <= j < decls.len() && spec_declared_type(#[trigger] decls[j]@) is None
            && forall|k: int| 0 <= k < j ==> spec_declared_type(#[trigger] decls[k]@) is Some)
    } else {
        None
    }
}

/// Types the columns of a relation, given as names and declared types in
/// order. The relation's name must be a valid table name; then the
/// columns are checked in order, a repeated name or an unsupported type
/// failing at the first column that has either; a relation without
/// columns is refused.
pub fn type_relation(relation: &str, names: &Vec<String>, declarations: &Vec<String>) -> (r: Result<
    Vec<ColumnType>,
    RelationError,
>)
    requires
        names.len() == declarations.len(),
    ensures
        match r {
            Ok(types) => {
                &&& spec_valid_table_name(relation@)
                &&& first_repeated_column(strings_view(names@)) is None
                &&& first_unsupported(declarations@) is None
                &&& names.len() > 0
                &&& types.len() == names.len()
                &&& forall|j: int| 0 <= j < types.len() ==> Some(#[trigger] types@[j]) == spec_declared_type(declarations@[j]@)
            },
            Err(RelationError::InvalidRelationName { relation: n }) => n@ == relation@ && !spec_valid_table_name(relation@),
            Err(RelationError::DuplicateColumn { relation: n, column }) => {
                &&& n@ == relation@
                &&& spec_valid_table_name(relation@)
                &&& first_repeated_column(strings_view(names@)) matches Some(j)
                &&& column@ == names@[j]@
                &&& (first_unsupported(declarations@) matches Some(k) ==> j <= k)
            },
            Err(RelationError::UnsupportedDeclaredType { relation: n, column, declaration }) => {
                &&& n@ == relation@
                &&& spec_valid_table_name(relation@)
                &&& first_unsupported(declarations@) matches Some(k)
                &&& column@ == names@[k]@
                &&& declaration@ == declarations@[k]@
                &&& (first_repeated_column(strings_view(names@)) matches Some(j) ==> k < j)
            },
            Err(RelationError::NoColumns { relation: n }) => n@ == relation@ && spec_valid_table_name(relation@)
                && names.len() == 0,
        },
{
    if !valid_table_name(chars_of(relation).as_slice()) {
        return Err(RelationError::InvalidRelationName { relation: relation.to_owned() });
    }
    let repeated = first_repeated(names);
    let typed = type_columns(declarations);
    match (repeated, typed) {
        (Some(x), Err(k)) => if x <= k {
            Err(RelationError::DuplicateColumn { relation: relation.to_owned(), column: names[x].clone() })
        } else {
            Err(RelationError::UnsupportedDeclaredType {
                relation: relation.to_owned(),
                column: names[k].clone(),
                declaration: declarations[k].clone(),
            })
        },
        (Some(x), Ok(_)) => Err(RelationError::DuplicateColumn { relation: relation.to_owned(), column: names[x].clone() }),
        (None, Err(k)) => Err(RelationError::UnsupportedDeclaredType {
            relation: relation.to_owned(),
            column: names[k].clone(),
            declaration: declarations[k].clone(),
        }),
        (None, Ok(types)) => if names.len() == 0 {
            Err(RelationError::NoColumns { relation: relation.to_owned() })
        } else {
            Ok(types)
        },
    }
}

/// The column types of the declarations, or the index of the first one
/// that is unsupported.
pub fn type_columns(declarations: &Vec<String>) -> (r: Result<Vec<ColumnType>, usize>)
    ensures
        match r {
            Ok(types) => first_unsupported(declarations@) is None && types.len() == declarations.len()
                && forall|j: int| 0 <= j < types.len() ==> Some(#[trigger] types@[j]) == spec_declared_type(declarations@[j]@),
            Err(k) => first_unsupported(declarations@) == Some(k as int) && k < declarations.len(),
        },
{
    let mut types: Vec<ColumnType> = Vec::new();
    let mut j: usize = 0;
    while j < declarations.len()
        invariant
            0 <= j <= declarations.len(),
            types.len() == j,
            forall|k: int| 0 <= k < j ==> Some(#[trigger] types@[k]) == spec_declared_type(declarations@[k]@),
        decreases declarations.len() - j,
    {
        match declared_type(declarations[j].as_str()) {
            Some(t) => types.push(t),
            None => {
                proof {
                    assert(spec_declared_type(declarations@[j as int]@) is None);
                    assert forall|k: int| 0 <= k < j implies spec_declared_type(#[trigger] declarations@[k]@) is Some by {
                        assert(Some(types@[k]) == spec_declared_type(declarations@[k]@));
                    }
                    let w = choose|w: int| 0 <= w < declarations@.len() && spec_declared_type(#[trigger] declarations@[w]@) is None
                        && forall|k: int| 0 <= k < w ==> spec_declared_type(#[trigger] declarations@[k]@) is Some;
                    if w > j {
                        assert(spec_declared_type(declarations@[j as int]@) is Some);
                    }
                }
                return Err(j);
            },
        }
        j = j + 1;
    }
    assert(first_unsupported(declarations@) is None) by {
        if exists|w: int| 0 <= w < declarations@.len() && spec_declared_type(#[trigger] declarations@[w]@) is None {
            let w = choose|w: int| 0 <= w < declarations@.len() && spec_declared_type(#[trigger] declarations@[w]@) is None;
            assert(Some(types@[w]) == spec_declared_type(declarations@[w]@));
        }
    }
    Ok(types)
}

/// Why the columns a read of a relation exposes differ from the ones it
/// declares.
#[derive(Debug)]
pub enum ReadShapeError {
    ColumnCount { relation: String, declared: usize, readable: usize },
    ColumnName { relation: String, index: usize, declared: String, readable: String },
}

/// Checks that a read of `relation` exposes its declared columns: as many,
/// with the same names in the same order. A count that differs is reported
/// first; otherwise the first position whose names differ.
pub fn check_read_shape(relation: &str, declared: &Vec<String>, readable: &Vec<String>) -> (r: Result<(), ReadShapeError>)
    ensures
        match r {
            Ok(()) => declared.len() == readable.len() && forall|j: int|
                0 <= j < declared.len() ==> (#[trigger] declared@[j])@ == readable@[j]@,
            Err(ReadShapeError::ColumnCount { relation: n, declared: d, readable: k }) => {
                &&& n@ == relation@
                &&& declared.len() != readable.len()
                &&& d == declared.len()
                &&& k == readable.len()
            },
            Err(ReadShapeError::ColumnName { relation: n, index, declared: d, readable: k }) => {
                &&& n@ == relation@
                &&& declared.len() == readable.len()
                &&& index < declared.len()
                &&& d@ == declared@[index as int]@
                &&& k@ == readable@[index as int]@
                &&& d@ != k@
                &&& forall|j: int| 0 <= j < index ==> (#[trigger] declared@[j])@ == readable@[j]@
            },
        },
{
    if declared.len() != readable.len() {
        return Err(ReadShapeError::ColumnCount {
            relation: relation.to_owned(),
            declared: declared.len(),
            readable: readable.len(),
        });
    }
    let mut i: usize = 0;
    while i < declared.len()
        invariant
            declared.len() == readable.len(),
            0 <= i <= declared.len(),
            forall|j: int| 0 <= j < i ==> (#[trigger] declared@[j])@ == readable@[j]@,
        decreases declared.len() - i,
    {
        let d = chars_of(declared[i].as_str());
        let k = chars_of(readable[i].as_str());
        if !slice_eq(d.as_slice(), k.as_slice()) {
            return Err(ReadShapeError::ColumnName {
                relation: relation.to_owned(),
                index: i,
                declared: declared[i].clone(),
                readable: readable[i].clone(),
            });
        }
        i = i + 1;
    }
    Ok(())
}

/// The storage class of an SQLite value.
#[derive(Debug, Clone, Copy, PartialEq, Eq, Structural)]
pub enum StorageClass {
    Null,
    Integer,
    Real,
    Text,
    Blob,
}

/// The name SQLite gives a storage class.
pub open spec fn spec_storage_name(class: StorageClass) -> Seq<char> {
    match class {
        StorageClass::Null => "NULL"@,
        StorageClass::Integer => "INTEGER"@,
        StorageClass::Real => "REAL"@,
        StorageClass::Text => "TEXT"@,
        StorageClass::Blob => "BLOB"@,
    }
}

impl StorageClass {
    /// The name SQLite gives the class, as an error reports it.
    pub fn name(self) -> (r: &'static str)
        ensures
            r@ == spec_storage_name(self),
    {
        match self {
            StorageClass::Null => "NULL",
            StorageClass::Integer => "INTEGER",
            StorageClass::Real => "REAL",
            StorageClass::Text => "TEXT",
            StorageClass::Blob => "BLOB",
        }
    }
}

/// What a stored value becomes in a column of the dataset.
#[derive(Debug, Clone, Copy, PartialEq, Eq, Structural)]
pub enum CellConversion {
    /// A null cell, in a column of any type.
    Null,
    /// An integer in an integer column.
    Integer,
    /// A real in a real column, kept when it is finite.
    Real,
    /// An integer in a real column, kept when a real holds it exactly.
    IntegerAsReal,
    /// Text in a text column, kept when it is UTF-8.
    Text,
    /// A storage class that the column's type does not take.
    Mismatch,
}

pub open spec fn spec_cell_conversion(column: ColumnType, class: StorageClass) -> CellConversion {
    match (column, class) {
        (_, StorageClass::Null) => CellConversion::Null,
        (ColumnType::Integer, StorageClass::Integer) => CellConversion::Integer,
        (ColumnType::Real, StorageClass::Integer) => CellConversion::IntegerAsReal,
        (ColumnType::Real, StorageClass::Real) => CellConversion::Real,
        (ColumnType::Text, StorageClass::Text) => CellConversion::Text,
        _ => CellConversion::Mismatch,
    }
}

/// How a stored value of `class` goes into a column of type `column`.
pub fn cell_conversion(column: ColumnType, class: StorageClass) -> (r: CellConversion)
    ensures
        r == spec_cell_conversion(column, class),
{
    match (column, class) {
        (_, StorageClass::Null) => CellConversion::Null,
        (ColumnType::Integer, StorageClass::Integer) => CellConversion::Integer,
        (ColumnType::Real, StorageClass::Integer) => CellConversion::IntegerAsReal,
        (ColumnType::Real, StorageClass::Real) => CellConversion::Real,
        (ColumnType::Text, StorageClass::Text) => CellConversion::Text,
        _ => CellConversion::Mismatch,
    }
}

/// `n` without its factors of two.
pub open spec fn odd_part(n: nat) -> nat
    decreases n,
{
    if n == 0 || n % 2 == 1 {
        n
    } else {
        odd_part(n / 2)
    }
}

/// The magnitude of an integer.
pub open spec fn magnitude(value: i64) -> nat {
    if value < 0 {
        (-value) as nat
    } else {
        value as nat
    }
}

/// A 64-bit real has 53 significant bits.
pub const REAL_SIGNIFICAND_LIMIT: u64 = 9_007_199_254_740_992;

/// Whether a real holds `value` exactly: its magnitude, without its factors
/// of two, is below two to the 53rd.
pub open spec fn spec_exact_as_real(value: i64) -> bool {
    odd_part(magnitude(value)) < REAL_SIGNIFICAND_LIMIT
}

/// Whether a 64-bit real holds the integer `value` exactly.
pub fn exact_as_real(value: i64) -> (r: bool)
    ensures
        r == spec_exact_as_real(value),
{
    let mut m: u64 = if value == i64::MIN {
        9_223_372_036_854_775_808u64
    } else if value < 0 {
        (-value) as u64
    } else {
        value as u64
    };
    assert(m == magnitude(value));
    while m != 0 && m % 2 == 0
        invariant
            odd_part(m as nat) == odd_part(magnitude(value)),
        decreases m,
    {
        m = m / 2;
    }
    m < REAL_SIGNIFICAND_LIMIT
}

} // verus!
