//! The relations and enum origins that a Source capture is built from, and
//! the checks they must pass.
use vstd::prelude::*;
use crate::dataset::names::{spec_valid_table_name, valid_table_name};
use crate::text::{chars_of, eq_str};

verus! {

/// The column types that the fixed protobuf mapping produces, and any other.
#[derive(Debug)]
pub enum FieldType {
    Boolean,
    Int32,
    Int64,
    UInt32,
    UInt64,
    Float32,
    Float64,
    Utf8,
    Binary,
    Struct(Vec<FieldSpec>),
    /// A type outside the mapping, by its name.
    Other { name: String },
}

/// A column, or a child of a struct column.
#[derive(Debug)]
pub struct FieldSpec {
    pub name: String,
    pub data_type: FieldType,
}

/// A table of the capture.
#[derive(Debug)]
pub struct RelationSpec {
    pub name: String,
    pub columns: Vec<FieldSpec>,
}

/// A value of a protobuf enum and its name.
#[derive(Debug, Clone)]
pub struct EnumSymbol {
    pub number: i32,
    pub symbol: String,
}

/// An enum-typed field of a table, with the symbols of its enum.
#[derive(Debug)]
pub struct EnumOriginSpec {
    /// The index of the table among the capture's relations.
    pub relation: usize,
    pub field_path: String,
    pub enum_name: String,
    pub symbols: Vec<EnumSymbol>,
}

/// Why a column type is refused.
#[derive(Debug)]
pub enum TypeError {
    /// A struct names two children alike.
    RepeatedChild { name: String },
    /// The type is outside the mapping.
    Unsupported { name: String },
}

pub enum TypeErrorView {
    RepeatedChild { name: Seq<char> },
    Unsupported { name: Seq<char> },
}

impl View for TypeError {
    type V = TypeErrorView;

    open spec fn view(&self) -> TypeErrorView {
        match self {
            TypeError::RepeatedChild { name } => TypeErrorView::RepeatedChild { name: name@ },
            TypeError::Unsupported { name } => TypeErrorView::Unsupported { name: name@ },
        }
    }
}

/// One of the first `i` fields is named `name`.
pub open spec fn named_before(fields: Seq<FieldSpec>, i: int, name: Seq<char>) -> bool {
    exists|j: int| 0 <= j < i && (#[trigger] fields[j]).name@ == name
}

/// The first fault of a column type: a struct's children are checked in
/// order, each name new, then each type.
pub open spec fn sp_type_error(t: FieldType) -> Option<TypeErrorView>
    decreases t, 0int,
{
    match t {
        FieldType::Struct(fields) => sp_children_error(fields, 0),
        FieldType::Other { name } => Some(TypeErrorView::Unsupported { name: name@ }),
        _ => None,
    }
}

/// The first fault among the children of a struct from child `i` on.
pub open spec fn sp_children_error(fields: Vec<FieldSpec>, i: int) -> Option<TypeErrorView>
    decreases fields, fields.len() - i,
{
    if i < 0 || i >= fields.len() {
        None
    } else {
        let f = fields@[i];
        if named_before(fields@, i, f.name@) {
            Some(TypeErrorView::RepeatedChild { name: f.name@ })
        } else {
            proof {
                assert(decreases_to!(fields => fields@));
                assert(decreases_to!(fields@ => fields@[i]));
                assert(decreases_to!(fields@[i] => fields@[i].data_type));
            }
            match sp_type_error(f.data_type) {
                Some(e) => Some(e),
                None => sp_children_error(fields, i + 1),
            }
        }
    }
}

fn has_name_before(fields: &Vec<FieldSpec>, i: usize, name: &str) -> (r: bool)
    requires
        i <= fields.len(),
    ensures
        r == named_before(fields@, i as int, name@),
{
    let mut j: usize = 0;
    while j < i
        invariant
            0 <= j <= i <= fields.len(),
            forall|k: int| 0 <= k < j ==> (#[trigger] fields@[k]).name@ != name@,
        decreases i - j,
    {
        let n = chars_of(fields[j].name.as_str());
        if eq_str(n.as_slice(), name) {
            assert(fields@[j as int].name@ == name@);
            return true;
        }
        j = j + 1;
    }
    false
}

/// Checks a column type; see [`sp_type_error`].
#[verifier::loop_isolation(false)]
pub fn validate_data_type(t: &FieldType) -> (r: Result<(), TypeError>)
    ensures
        match r {
            Ok(()) => sp_type_error(*t) is None,
            Err(e) => sp_type_error(*t) == Some(e@),
        },
    decreases t,
{
    match t {
        FieldType::Struct(fields) => {
            let mut i: usize = 0;
            while i < fields.len()
                invariant
                    0 <= i <= fields.len(),
                    sp_type_error(*t) == sp_children_error(*fields, i as int),
                decreases fields.len() - i,
            {
                let f = &fields[i];
                if has_name_before(fields, i, f.name.as_str()) {
                    return Err(TypeError::RepeatedChild { name: f.name.clone() });
                }
                proof {
                    assert(decreases_to!(*t => *fields));
                    assert(decreases_to!(fields => fields@));
                    assert(decreases_to!(fields@ => fields@[i as int]));
                    assert(decreases_to!(fields@[i as int] => fields@[i as int].data_type));
                }
                match validate_data_type(&f.data_type) {
                    Err(e) => return Err(e),
                    Ok(()) => {},
                }
                i = i + 1;
            }
            Ok(())
        },
        FieldType::Other { name } => Err(TypeError::Unsupported { name: name.clone() }),
        _ => Ok(()),
    }
}

/// Why the relations or enum origins of a capture are refused.
#[derive(Debug)]
pub enum SpecError {
    InvalidTableName { slot: usize, name: String },
    ReservedTableName { slot: usize, name: String },
    DuplicateRelation { name: String },
    DuplicateColumn { relation: String, column: String },
    UnsupportedColumn { relation: String, column: String, reason: TypeError },
    MissingRelationSlot { slot: usize },
    EmptyFieldPath { relation: String },
    EmptyEnumName { relation: String, field_path: String },
    NoSymbols { relation: String, field_path: String },
    DuplicateOrigin { relation: String, field_path: String },
    EmptySymbol { relation: String, field_path: String, number: i32 },
    RepeatedNumber { relation: String, field_path: String, number: i32 },
}

pub enum SpecErrorView {
    InvalidTableName { slot: usize, name: Seq<char> },
    ReservedTableName { slot: usize, name: Seq<char> },
    DuplicateRelation { name: Seq<char> },
    DuplicateColumn { relation: Seq<char>, column: Seq<char> },
    UnsupportedColumn { relation: Seq<char>, column: Seq<char>, reason: TypeErrorView },
    MissingRelationSlot { slot: usize },
    EmptyFieldPath { relation: Seq<char> },
    EmptyEnumName { relation: Seq<char>, field_path: Seq<char> },
    NoSymbols { relation: Seq<char>, field_path: Seq<char> },
    DuplicateOrigin { relation: Seq<char>, field_path: Seq<char> },
    EmptySymbol { relation: Seq<char>, field_path: Seq<char>, number: i32 },
    RepeatedNumber { relation: Seq<char>, field_path: Seq<char>, number: i32 },
}

impl View for SpecError {
    type V = SpecErrorView;

    open spec fn view(&self) -> SpecErrorView {
        match self {
            SpecError::InvalidTableName { slot, name } => SpecErrorView::InvalidTableName { slot: *slot, name: name@ },
            SpecError::ReservedTableName { slot, name } => SpecErrorView::ReservedTableName { slot: *slot, name: name@ },
            SpecError::DuplicateRelation { name } => SpecErrorView::DuplicateRelation { name: name@ },
            SpecError::DuplicateColumn { relation, column } => SpecErrorView::DuplicateColumn {
                relation: relation@,
                column: column@,
            },
            SpecError::UnsupportedColumn { relation, column, reason } => SpecErrorView::UnsupportedColumn {
                relation: relation@,
                column: column@,
                reason: reason@,
            },
            SpecError::MissingRelationSlot { slot } => SpecErrorView::MissingRelationSlot { slot: *slot },
            SpecError::EmptyFieldPath { relation } => SpecErrorView::EmptyFieldPath { relation: relation@ },
            SpecError::EmptyEnumName { relation, field_path } => SpecErrorView::EmptyEnumName {
                relation: relation@,
                field_path: field_path@,
            },
            SpecError::NoSymbols { relation, field_path } => SpecErrorView::NoSymbols {
                relation: relation@,
                field_path: field_path@,
            },
            SpecError::DuplicateOrigin { relation, field_path } => SpecErrorView::DuplicateOrigin {
                relation: relation@,
                field_path: field_path@,
            },
            SpecError::EmptySymbol { relation, field_path, number } => SpecErrorView::EmptySymbol {
                relation: relation@,
                field_path: field_path@,
                number: *number,
            },
            SpecError::RepeatedNumber { relation, field_path, number } => SpecErrorView::RepeatedNumber {
                relation: relation@,
                field_path: field_path@,
                number: *number,
            },
        }
    }
}

/// The table name kept for the enum symbols of a capture.
pub open spec fn reserved_table_name() -> Seq<char> {
    "protobuf_enum_symbol"@
}

/// The first fault among the columns of `relation` from column `i` on:
/// each name new, each type supported.
pub open spec fn sp_columns_error(relation: Seq<char>, cols: Seq<FieldSpec>, i: int) -> Option<SpecErrorView>
    decreases cols.len() - i,
{
    if i < 0 || i >= cols.len() {
        None
    } else {
        let c = cols[i];
        if named_before(cols, i, c.name@) {
            Some(SpecErrorView::DuplicateColumn { relation, column: c.name@ })
        } else {
            match sp_type_error(c.data_type) {
                Some(e) => Some(SpecErrorView::UnsupportedColumn { relation, column: c.name@, reason: e }),
                None => sp_columns_error(relation, cols, i + 1),
            }
        }
    }
}

/// One of the first `i` relations is named `name`.
pub open spec fn relation_named_before(rels: Seq<RelationSpec>, i: int, name: Seq<char>) -> bool {
    exists|j: int| 0 <= j < i && (#[trigger] rels[j]).name@ == name
}

/// The first fault among the relations from slot `i` on: a valid Dataset
/// table name, not the reserved one, not taken before; then its columns.
pub open spec fn sp_relations_error(rels: Seq<RelationSpec>, i: int) -> Option<SpecErrorView>
    decreases rels.len() - i,
{
    if i < 0 || i >= rels.len() {
        None
    } else {
        let r = rels[i];
        if !spec_valid_table_name(r.name@) {
            Some(SpecErrorView::InvalidTableName { slot: i as usize, name: r.name@ })
        } else if r.name@ == reserved_table_name() {
            Some(SpecErrorView::ReservedTableName { slot: i as usize, name: r.name@ })
        } else if relation_named_before(rels, i, r.name@) {
            Some(SpecErrorView::DuplicateRelation { name: r.name@ })
        } else {
            match sp_columns_error(r.name@, r.columns@, 0) {
                Some(e) => Some(e),
                None => sp_relations_error(rels, i + 1),
            }
        }
    }
}

/// One of the first `i` symbols has `number`.
pub open spec fn number_before(symbols: Seq<EnumSymbol>, i: int, number: i32) -> bool {
    exists|j: int| 0 <= j < i && (#[trigger] symbols[j]).number == number
}

/// The first fault among the symbols from `i` on: each named, each number
/// new.
pub open spec fn sp_symbols_error(relation: Seq<char>, path: Seq<char>, symbols: Seq<EnumSymbol>, i: int) -> Option<
    SpecErrorView,
>
    decreases symbols.len() - i,
{
    if i < 0 || i >= symbols.len() {
        None
    } else {
        let s = symbols[i];
        if s.symbol@.len() == 0 {
            Some(SpecErrorView::EmptySymbol { relation, field_path: path, number: s.number })
        } else if number_before(symbols, i, s.number) {
            Some(SpecErrorView::RepeatedNumber { relation, field_path: path, number: s.number })
        } else {
            sp_symbols_error(relation, path, symbols, i + 1)
        }
    }
}

/// One of the first `i` origins is the field `path` of relation `relation`.
pub open spec fn origin_before(origins: Seq<EnumOriginSpec>, i: int, relation: usize, path: Seq<char>) -> bool {
    exists|j: int| 0 <= j < i && (#[trigger] origins[j]).relation == relation && origins[j].field_path@ == path
}

/// The first fault among the enum origins from `i` on: an existing
/// relation, a field path, an enum name, symbols, a field not described
/// before; then its symbols.
pub open spec fn sp_origins_error(rels: Seq<RelationSpec>, origins: Seq<EnumOriginSpec>, i: int) -> Option<SpecErrorView>
    decreases origins.len() - i,
{
    if i < 0 || i >= origins.len() {
        None
    } else {
        let o = origins[i];
        if o.relation >= rels.len() {
            Some(SpecErrorView::MissingRelationSlot { slot: o.relation })
        } else {
            let name = rels[o.relation as int].name@;
            if o.field_path@.len() == 0 {
                Some(SpecErrorView::EmptyFieldPath { relation: name })
            } else if o.enum_name@.len() == 0 {
                Some(SpecErrorView::EmptyEnumName { relation: name, field_path: o.field_path@ })
            } else if o.symbols.len() == 0 {
                Some(SpecErrorView::NoSymbols { relation: name, field_path: o.field_path@ })
            } else if origin_before(origins, i, o.relation, o.field_path@) {
                Some(SpecErrorView::DuplicateOrigin { relation: name, field_path: o.field_path@ })
            } else {
                match sp_symbols_error(name, o.field_path@, o.symbols@, 0) {
                    Some(e) => Some(e),
                    None => sp_origins_error(rels, origins, i + 1),
                }
            }
        }
    }
}

/// The first fault of a capture's relations, then of its enum origins.
pub open spec fn sp_specs_error(rels: Seq<RelationSpec>, origins: Seq<EnumOriginSpec>) -> Option<SpecErrorView> {
    match sp_relations_error(rels, 0) {
        Some(e) => Some(e),
        None => sp_origins_error(rels, origins, 0),
    }
}

fn columns_error(relation: &String, cols: &Vec<FieldSpec>) -> (r: Result<(), SpecError>)
    ensures
        match r {
            Ok(()) => sp_columns_error(relation@, cols@, 0) is None,
            Err(e) => sp_columns_error(relation@, cols@, 0) == Some(e@),
        },
{
    let mut i: usize = 0;
    while i < cols.len()
        invariant
            0 <= i <= cols.len(),
            sp_columns_error(relation@, cols@, 0) == sp_columns_error(relation@, cols@, i as int),
        decreases cols.len() - i,
    {
        let c = &cols[i];
        if has_name_before(cols, i, c.name.as_str()) {
            return Err(SpecError::DuplicateColumn { relation: relation.clone(), column: c.name.clone() });
        }
        match validate_data_type(&c.data_type) {
            Err(e) => {
                return Err(SpecError::UnsupportedColumn { relation: relation.clone(), column: c.name.clone(), reason: e });
            },
            Ok(()) => {},
        }
        i = i + 1;
    }
    Ok(())
}

#[verifier::loop_isolation(false)]
fn symbols_error(relation: &String, path: &String, symbols: &Vec<EnumSymbol>) -> (r: Result<(), SpecError>)
    ensures
        match r {
            Ok(()) => sp_symbols_error(relation@, path@, symbols@, 0) is None,
            Err(e) => sp_symbols_error(relation@, path@, symbols@, 0) == Some(e@),
        },
{
    let mut i: usize = 0;
    while i < symbols.len()
        invariant
            0 <= i <= symbols.len(),
            sp_symbols_error(relation@, path@, symbols@, 0) == sp_symbols_error(relation@, path@, symbols@, i as int),
        decreases symbols.len() - i,
    {
        let s = &symbols[i];
        if s.symbol.as_str().is_empty() {
            return Err(SpecError::EmptySymbol { relation: relation.clone(), field_path: path.clone(), number: s.number });
        }
        let mut j: usize = 0;
        while j < i
            invariant
                0 <= j <= i < symbols.len(),
                forall|k: int| 0 <= k < j ==> (#[trigger] symbols@[k]).number != s.number,
            decreases i - j,
        {
            if symbols[j].number == s.number {
                assert(number_before(symbols@, i as int, s.number));
                return Err(
                    SpecError::RepeatedNumber { relation: relation.clone(), field_path: path.clone(), number: s.number },
                );
            }
            j = j + 1;
        }
        i = i + 1;
    }
    Ok(())
}

fn relation_taken(rels: &Vec<RelationSpec>, i: usize, name: &str) -> (r: bool)
    requires
        i <= rels.len(),
    ensures
        r == relation_named_before(rels@, i as int, name@),
{
    let mut j: usize = 0;
    while j < i
        invariant
            0 <= j <= i <= rels.len(),
            forall|k: int| 0 <= k < j ==> (#[trigger] rels@[k]).name@ != name@,
        decreases i - j,
    {
        let n = chars_of(rels[j].name.as_str());
        if eq_str(n.as_slice(), name) {
            assert(rels@[j as int].name@ == name@);
            return true;
        }
        j = j + 1;
    }
    false
}

fn origin_taken(origins: &Vec<EnumOriginSpec>, i: usize, relation: usize, path: &str) -> (r: bool)
    requires
        i <= origins.len(),
    ensures
        r == origin_before(origins@, i as int, relation, path@),
{
    let mut j: usize = 0;
    while j < i
        invariant
            0 <= j <= i <= origins.len(),
            forall|k: int| 0 <= k < j ==> !((#[trigger] origins@[k]).relation == relation && origins@[k].field_path@ == path@),
        decreases i - j,
    {
        let n = chars_of(origins[j].field_path.as_str());
        if origins[j].relation == relation && eq_str(n.as_slice(), path) {
            assert(origins@[j as int].field_path@ == path@);
            return true;
        }
        j = j + 1;
    }
    false
}

/// Checks the relations and enum origins of a capture; see
/// [`sp_specs_error`].
pub fn validate_specs(relations: &Vec<RelationSpec>, enum_origins: &Vec<EnumOriginSpec>) -> (r: Result<(), SpecError>)
    ensures
        match r {
            Ok(()) => sp_specs_error(relations@, enum_origins@) is None,
            Err(e) => sp_specs_error(relations@, enum_origins@) == Some(e@),
        },
{
    let mut i: usize = 0;
    while i < relations.len()
        invariant
            0 <= i <= relations.len(),
            sp_relations_error(relations@, 0) == sp_relations_error(relations@, i as int),
        decreases relations.len() - i,
    {
        let r = &relations[i];
        let n = chars_of(r.name.as_str());
        if !valid_table_name(n.as_slice()) {
            return Err(SpecError::InvalidTableName { slot: i, name: r.name.clone() });
        }
        if eq_str(n.as_slice(), "protobuf_enum_symbol") {
            proof {
                reveal_strlit("protobuf_enum_symbol");
            }
            return Err(SpecError::ReservedTableName { slot: i, name: r.name.clone() });
        }
        proof {
            reveal_strlit("protobuf_enum_symbol");
        }
        if relation_taken(relations, i, r.name.as_str()) {
            return Err(SpecError::DuplicateRelation { name: r.name.clone() });
        }
        match columns_error(&r.name, &r.columns) {
            Err(e) => return Err(e),
            Ok(()) => {},
        }
        i = i + 1;
    }
    let mut k: usize = 0;
    while k < enum_origins.len()
        invariant
            0 <= k <= enum_origins.len(),
            sp_relations_error(relations@, 0) is None,
            sp_origins_error(relations@, enum_origins@, 0) == sp_origins_error(relations@, enum_origins@, k as int),
        decreases enum_origins.len() - k,
    {
        let o = &enum_origins[k];
        if o.relation >= relations.len() {
            return Err(SpecError::MissingRelationSlot { slot: o.relation });
        }
        let name = &relations[o.relation].name;
        if o.field_path.as_str().is_empty() {
            return Err(SpecError::EmptyFieldPath { relation: name.clone() });
        }
        if o.enum_name.as_str().is_empty() {
            return Err(SpecError::EmptyEnumName { relation: name.clone(), field_path: o.field_path.clone() });
        }
        if o.symbols.len() == 0 {
            return Err(SpecError::NoSymbols { relation: name.clone(), field_path: o.field_path.clone() });
        }
        if origin_taken(enum_origins, k, o.relation, o.field_path.as_str()) {
            return Err(SpecError::DuplicateOrigin { relation: name.clone(), field_path: o.field_path.clone() });
        }
        match symbols_error(name, &o.field_path, &o.symbols) {
            Err(e) => return Err(e),
            Ok(()) => {},
        }
        k = k + 1;
    }
    Ok(())
}

} // verus!
