//! What a payload value puts into a column of a relational table: the
//! cell parts, in the order a column builder takes them, and the estimate
//! of their size.
use vstd::prelude::*;
use crate::protobuf_source::spool::utf8_len;
use crate::row_sources::{PayloadValue, member, payload_child};
use crate::text::{chars_of, slice_eq};

verus! {

/// Fixed part of the size estimate of a cell.
pub const CELL_VALUE_FIXED_BYTES: usize = 32;

/// A named number of an enum.
#[derive(Debug)]
pub struct EnumValue {
    pub name: String,
    pub number: i32,
}

/// A variant of a oneof: its field name and the name it is serialized by.
#[derive(Debug)]
pub struct OneofVariantName {
    pub field_name: String,
    pub serialized_name: String,
}

/// How a column shows its value.
#[derive(Debug)]
pub enum ColumnProjection {
    Direct,
    EnumName(Vec<EnumValue>),
    OneofName(Vec<OneofVariantName>),
}

/// The type of a column.
#[derive(Debug)]
pub enum ColumnType {
    Binary,
    Bool,
    I32,
    I64,
    U32,
    U64,
    F32,
    F64,
    String,
    Struct(Vec<ColumnSpec>),
}

/// A column: its name, the member it reads, its type and projection.
#[derive(Debug)]
pub struct ColumnSpec {
    pub name: String,
    pub source_name: String,
    pub column_type: ColumnType,
    pub projection: ColumnProjection,
}

/// One part of a cell, in pre-order: a struct's validity comes before the
/// parts of its columns; a float is held by its bits, to be stored as the
/// column's width.
#[derive(Debug)]
pub enum CellPart {
    Null,
    Bool(bool),
    I32(i32),
    I64(i64),
    U32(u32),
    U64(u64),
    F32FromF64Bits(u64),
    F64Bits(u64),
    Text(String),
    Bytes(Vec<u8>),
    /// The UTF-8 bytes of a text, stored in a binary column.
    Utf8Bytes(String),
    StructValid,
    StructNull,
}

/// What kind of value a column expected.
#[derive(Debug, Clone, Copy, PartialEq, Eq, Structural)]
pub enum Expected {
    Binary,
    Bool,
    I32,
    I64,
    U32,
    U64,
    F32,
    F64,
    String,
    Enum,
}

/// Why a value cannot fill a column.
#[derive(Debug, PartialEq, Eq)]
pub enum CellError {
    /// The value is not of the column's kind.
    ExpectedValue { expected: Expected },
    /// A struct column received a value that is not an object.
    ExpectedMessage { column: String },
    /// A projected column is not a text column.
    IncompatibleBuilder { column: String },
    /// The size estimate does not fit in a `usize`.
    EstimateOverflow,
}

/// The content of a [`CellPart`].
pub enum CellPartView {
    Null,
    Bool(bool),
    I32(i32),
    I64(i64),
    U32(u32),
    U64(u64),
    F32FromF64Bits(u64),
    F64Bits(u64),
    Text(Seq<char>),
    Bytes(Seq<u8>),
    Utf8Bytes(Seq<char>),
    StructValid,
    StructNull,
}

impl View for CellPart {
    type V = CellPartView;

    open spec fn view(&self) -> CellPartView {
        match self {
            CellPart::Null => CellPartView::Null,
            CellPart::Bool(b) => CellPartView::Bool(*b),
            CellPart::I32(x) => CellPartView::I32(*x),
            CellPart::I64(x) => CellPartView::I64(*x),
            CellPart::U32(x) => CellPartView::U32(*x),
            CellPart::U64(x) => CellPartView::U64(*x),
            CellPart::F32FromF64Bits(x) => CellPartView::F32FromF64Bits(*x),
            CellPart::F64Bits(x) => CellPartView::F64Bits(*x),
            CellPart::Text(t) => CellPartView::Text(t@),
            CellPart::Bytes(b) => CellPartView::Bytes(b@),
            CellPart::Utf8Bytes(t) => CellPartView::Utf8Bytes(t@),
            CellPart::StructValid => CellPartView::StructValid,
            CellPart::StructNull => CellPartView::StructNull,
        }
    }
}

pub open spec fn parts_view(v: Seq<CellPart>) -> Seq<CellPartView> {
    v.map_values(|p: CellPart| p@)
}

/// The content of a [`CellError`].
pub enum CellErrorView {
    ExpectedValue { expected: Expected },
    ExpectedMessage { column: Seq<char> },
    IncompatibleBuilder { column: Seq<char> },
    EstimateOverflow,
}

impl View for CellError {
    type V = CellErrorView;

    open spec fn view(&self) -> CellErrorView {
        match self {
            CellError::ExpectedValue { expected } => CellErrorView::ExpectedValue { expected: *expected },
            CellError::ExpectedMessage { column } => CellErrorView::ExpectedMessage { column: column@ },
            CellError::IncompatibleBuilder { column } => CellErrorView::IncompatibleBuilder { column: column@ },
            CellError::EstimateOverflow => CellErrorView::EstimateOverflow,
        }
    }
}

/// The value as a signed 64-bit integer, if it is one or an unsigned one
/// that fits.
pub open spec fn as_i64(v: PayloadValue) -> Option<i64> {
    match v {
        PayloadValue::I64(x) => Some(x),
        PayloadValue::U64(x) => if x <= i64::MAX { Some(x as i64) } else { None },
        _ => None,
    }
}

/// The value as an unsigned 64-bit integer, if it is one or a signed one
/// that is not negative.
pub open spec fn as_u64(v: PayloadValue) -> Option<u64> {
    match v {
        PayloadValue::U64(x) => Some(x),
        PayloadValue::I64(x) => if x >= 0 { Some(x as u64) } else { None },
        _ => None,
    }
}

/// The first enum value numbered `n`, from position `i` on.
pub open spec fn enum_name_from(values: Seq<EnumValue>, n: i32, i: int) -> Option<String>
    decreases values.len() - i,
{
    if i < 0 || i >= values.len() {
        None
    } else if values[i].number == n {
        Some(values[i].name)
    } else {
        enum_name_from(values, n, i + 1)
    }
}

/// The first variant whose field name or serialized name is `selected`,
/// from position `i` on; gives its field name.
pub open spec fn variant_from(variants: Seq<OneofVariantName>, selected: Seq<char>, i: int) -> Option<String>
    decreases variants.len() - i,
{
    if i < 0 || i >= variants.len() {
        None
    } else if variants[i].field_name@ == selected || variants[i].serialized_name@ == selected {
        Some(variants[i].field_name)
    } else {
        variant_from(variants, selected, i + 1)
    }
}

/// A text cell's estimate: the fixed part and the text's UTF-8 length.
pub open spec fn text_estimate(s: Seq<char>) -> int {
    CELL_VALUE_FIXED_BYTES + utf8_len(s)
}

pub type CellResult = Result<(Seq<CellPartView>, nat), CellErrorView>;

/// A single-part cell with a fixed-width estimate.
pub open spec fn fixed(part: CellPartView, width: nat) -> CellResult {
    Ok((seq![part], (CELL_VALUE_FIXED_BYTES + width) as nat))
}

/// A text-sized cell, or the overflow of its estimate.
pub open spec fn sized(part: CellPartView, s: Seq<char>) -> CellResult {
    if text_estimate(s) > usize::MAX {
        Err(CellErrorView::EstimateOverflow)
    } else {
        Ok((seq![part], text_estimate(s) as nat))
    }
}

/// The parts of a null cell of a column: a null struct is followed by null
/// parts for each of its columns, by type.
pub open spec fn sp_null_parts(column: ColumnSpec) -> Seq<CellPartView>
    decreases column, 1int, 0int,
{
    match column.column_type {
        ColumnType::Struct(cols) => seq![CellPartView::StructNull] + sp_null_list(column, 0),
        _ => seq![CellPartView::Null],
    }
}

/// The null parts of the columns of a struct column from column `i` on.
pub open spec fn sp_null_list(parent: ColumnSpec, i: int) -> Seq<CellPartView>
    decreases parent, 0int, (match parent.column_type {
        ColumnType::Struct(cols) => cols.len() - i,
        _ => 0,
    }),
{
    match parent.column_type {
        ColumnType::Struct(cols) => if 0 <= i < cols.len() {
            proof {
                assert(decreases_to!(parent => parent.column_type));
                assert(decreases_to!(cols => cols@));
                assert(decreases_to!(cols@ => cols@[i]));
            }
            sp_null_parts(cols@[i]) + sp_null_list(parent, i + 1)
        } else {
            Seq::empty()
        },
        _ => Seq::empty(),
    }
}

/// The name of the first member of an object, if it has one.
pub open spec fn first_member(v: PayloadValue) -> Option<Seq<char>> {
    match v {
        PayloadValue::Object(fields) => if fields.len() > 0 {
            Some(fields@[0].name@)
        } else {
            None
        },
        _ => None,
    }
}

/// What `value` puts into `column`: its parts and size estimate. An enum
/// or oneof projection shows a name in a text column, or null; otherwise a
/// null value gives a null cell, a struct column takes an object member by
/// member, and a leaf column takes a value of its kind.
pub open spec fn sp_cell(value: PayloadValue, column: ColumnSpec) -> CellResult
    decreases column, 1int, 0int,
{
    match column.projection {
        ColumnProjection::EnumName(values) => if !(column.column_type is String) {
            Err(CellErrorView::IncompatibleBuilder { column: column.name@ })
        } else if value is Null {
            fixed(CellPartView::Null, 0)
        } else {
            match as_i64(value) {
                Some(x) => if i32::MIN <= x <= i32::MAX {
                    match enum_name_from(values@, x as i32, 0) {
                        Some(n) => sized(CellPartView::Text(n@), n@),
                        None => fixed(CellPartView::Null, 0),
                    }
                } else {
                    Err(CellErrorView::ExpectedValue { expected: Expected::Enum })
                },
                None => Err(CellErrorView::ExpectedValue { expected: Expected::Enum }),
            }
        },
        ColumnProjection::OneofName(variants) => if !(column.column_type is String) {
            Err(CellErrorView::IncompatibleBuilder { column: column.name@ })
        } else {
            match first_member(value) {
                Some(sel) => match variant_from(variants@, sel, 0) {
                    Some(n) => sized(CellPartView::Text(n@), n@),
                    None => fixed(CellPartView::Null, 0),
                },
                None => fixed(CellPartView::Null, 0),
            }
        },
        ColumnProjection::Direct => if value is Null {
            Ok((sp_null_parts(column), CELL_VALUE_FIXED_BYTES as nat))
        } else {
            match column.column_type {
                ColumnType::Binary => match value {
                    PayloadValue::Binary(b) => if CELL_VALUE_FIXED_BYTES + b.len() > usize::MAX {
                        Err(CellErrorView::EstimateOverflow)
                    } else {
                        Ok((seq![CellPartView::Bytes(b@)], (CELL_VALUE_FIXED_BYTES + b.len()) as nat))
                    },
                    PayloadValue::String(t) => sized(CellPartView::Utf8Bytes(t@), t@),
                    _ => Err(CellErrorView::ExpectedValue { expected: Expected::Binary }),
                },
                ColumnType::Bool => match value {
                    PayloadValue::Bool(b) => fixed(CellPartView::Bool(b), 1),
                    _ => Err(CellErrorView::ExpectedValue { expected: Expected::Bool }),
                },
                ColumnType::I32 => match as_i64(value) {
                    Some(x) => if i32::MIN <= x <= i32::MAX {
                        fixed(CellPartView::I32(x as i32), 4)
                    } else {
                        Err(CellErrorView::ExpectedValue { expected: Expected::I32 })
                    },
                    None => Err(CellErrorView::ExpectedValue { expected: Expected::I32 }),
                },
                ColumnType::I64 => match as_i64(value) {
                    Some(x) => fixed(CellPartView::I64(x), 8),
                    None => Err(CellErrorView::ExpectedValue { expected: Expected::I64 }),
                },
                ColumnType::U32 => match as_u64(value) {
                    Some(x) => if x <= u32::MAX {
                        fixed(CellPartView::U32(x as u32), 4)
                    } else {
                        Err(CellErrorView::ExpectedValue { expected: Expected::U32 })
                    },
                    None => Err(CellErrorView::ExpectedValue { expected: Expected::U32 }),
                },
                ColumnType::U64 => match as_u64(value) {
                    Some(x) => fixed(CellPartView::U64(x), 8),
                    None => Err(CellErrorView::ExpectedValue { expected: Expected::U64 }),
                },
                ColumnType::F32 => match value {
                    PayloadValue::F64Bits(b) => fixed(CellPartView::F32FromF64Bits(b), 4),
                    _ => Err(CellErrorView::ExpectedValue { expected: Expected::F32 }),
                },
                ColumnType::F64 => match value {
                    PayloadValue::F64Bits(b) => fixed(CellPartView::F64Bits(b), 8),
                    _ => Err(CellErrorView::ExpectedValue { expected: Expected::F64 }),
                },
                ColumnType::String => match value {
                    PayloadValue::String(t) => sized(CellPartView::Text(t@), t@),
                    _ => Err(CellErrorView::ExpectedValue { expected: Expected::String }),
                },
                ColumnType::Struct(_) => if value is Object {
                    sp_struct(value, column, 0, seq![CellPartView::StructValid], CELL_VALUE_FIXED_BYTES as nat)
                } else {
                    Err(CellErrorView::ExpectedMessage { column: column.name@ })
                },
            }
        },
    }
}

/// The columns of a struct column from column `i` on, after the parts and
/// estimate so far; each reads the member named by its source name, or
/// null.
pub open spec fn sp_struct(value: PayloadValue, parent: ColumnSpec, i: int, parts: Seq<CellPartView>, bytes: nat) -> CellResult
    decreases parent, 0int, (match parent.column_type {
        ColumnType::Struct(cols) => cols.len() - i,
        _ => 0,
    }),
{
    match parent.column_type {
        ColumnType::Struct(cols) => if 0 <= i < cols.len() {
            proof {
                assert(decreases_to!(parent => parent.column_type));
                assert(decreases_to!(cols => cols@));
                assert(decreases_to!(cols@ => cols@[i]));
            }
            let child = cols@[i];
            let member_value = match payload_child(value, child.source_name@) {
                Some(v) => v,
                None => PayloadValue::Null,
            };
            match sp_cell(member_value, child) {
                Err(e) => Err(e),
                Ok((p, n)) => if bytes + n > usize::MAX {
                    Err(CellErrorView::EstimateOverflow)
                } else {
                    sp_struct(value, parent, i + 1, parts + p, bytes + n)
                },
            }
        } else {
            Ok((parts, bytes))
        },
        _ => Ok((parts, bytes)),
    }
}

fn value_i64(v: &PayloadValue) -> (r: Option<i64>)
    ensures
        r == as_i64(*v),
{
    match v {
        PayloadValue::I64(x) => Some(*x),
        PayloadValue::U64(x) => if *x <= i64::MAX as u64 {
            Some(*x as i64)
        } else {
            None
        },
        _ => None,
    }
}

fn value_u64(v: &PayloadValue) -> (r: Option<u64>)
    ensures
        r == as_u64(*v),
{
    match v {
        PayloadValue::U64(x) => Some(*x),
        PayloadValue::I64(x) => if *x >= 0 {
            Some(*x as u64)
        } else {
            None
        },
        _ => None,
    }
}

fn enum_name(values: &Vec<EnumValue>, n: i32) -> (r: Option<&String>)
    ensures
        match r {
            Some(x) => enum_name_from(values@, n, 0) == Some(*x),
            None => enum_name_from(values@, n, 0) is None,
        },
{
    let mut i: usize = 0;
    while i < values.len()
        invariant
            0 <= i <= values.len(),
            enum_name_from(values@, n, 0) == enum_name_from(values@, n, i as int),
        decreases values.len() - i,
    {
        if values[i].number == n {
            return Some(&values[i].name);
        }
        i = i + 1;
    }
    None
}

fn variant_name<'a>(variants: &'a Vec<OneofVariantName>, selected: &str) -> (r: Option<&'a String>)
    ensures
        match r {
            Some(x) => variant_from(variants@, selected@, 0) == Some(*x),
            None => variant_from(variants@, selected@, 0) is None,
        },
{
    let sel = chars_of(selected);
    let mut i: usize = 0;
    while i < variants.len()
        invariant
            0 <= i <= variants.len(),
            sel@ == selected@,
            variant_from(variants@, selected@, 0) == variant_from(variants@, selected@, i as int),
        decreases variants.len() - i,
    {
        let v = &variants[i];
        if slice_eq(chars_of(v.field_name.as_str()).as_slice(), sel.as_slice())
            || slice_eq(chars_of(v.serialized_name.as_str()).as_slice(), sel.as_slice()) {
            return Some(&v.field_name);
        }
        i = i + 1;
    }
    None
}

fn push_part(out: &mut Vec<CellPart>, part: CellPart)
    ensures
        parts_view(final(out)@) == parts_view(old(out)@).push(part@),
{
    out.push(part);
    assert(parts_view(out@) =~= parts_view(old(out)@).push(part@));
}

fn push_sized(out: &mut Vec<CellPart>, part: CellPart, text: &str) -> (r: Result<usize, CellError>)
    ensures
        match sized(part@, text@) {
            Ok((p, n)) => r == Ok::<usize, CellError>(n as usize) && parts_view(final(out)@) == parts_view(old(out)@) + p,
            Err(e) => r matches Err(x) && x@ == e,
        },
{
    let n = text.len();
    if n > usize::MAX - CELL_VALUE_FIXED_BYTES {
        return Err(CellError::EstimateOverflow);
    }
    push_part(out, part);
    assert(parts_view(old(out)@).push(part@) =~= parts_view(old(out)@) + seq![part@]);
    Ok(CELL_VALUE_FIXED_BYTES + n)
}

fn push_fixed(out: &mut Vec<CellPart>, part: CellPart, width: usize) -> (r: Result<usize, CellError>)
    requires
        width <= 8,
    ensures
        match fixed(part@, width as nat) {
            Ok((p, n)) => r == Ok::<usize, CellError>(n as usize) && parts_view(final(out)@) == parts_view(old(out)@) + p,
            Err(e) => r matches Err(x) && x@ == e,
        },
{
    push_part(out, part);
    assert(parts_view(old(out)@).push(part@) =~= parts_view(old(out)@) + seq![part@]);
    Ok(CELL_VALUE_FIXED_BYTES + width)
}

/// Appends the null parts of a null cell of `column`.
fn null_parts(column: &ColumnSpec, out: &mut Vec<CellPart>)
    ensures
        parts_view(final(out)@) == parts_view(old(out)@) + sp_null_parts(*column),
    decreases column,
{
    match &column.column_type {
        ColumnType::Struct(cols) => {
            push_part(out, CellPart::StructNull);
            let ghost start = parts_view(out@);
            let mut i: usize = 0;
            assert(sp_null_list(*column, 0) == sp_null_list(*column, 0));
            while i < cols.len()
                invariant
                    0 <= i <= cols.len(),
                    column.column_type == ColumnType::Struct(*cols),
                    parts_view(out@) + sp_null_list(*column, i as int) == start + sp_null_list(*column, 0),
                decreases cols.len() - i,
            {
                let ghost before = parts_view(out@);
                proof {
                    assert(decreases_to!(*column => column.column_type));
                    assert(decreases_to!(*cols => cols@));
                    assert(decreases_to!(cols@ => cols@[i as int]));
                }
                null_parts(&cols[i], out);
                assert(sp_null_list(*column, i as int) == sp_null_parts(cols@[i as int]) + sp_null_list(*column, i + 1));
                assert(parts_view(out@) + sp_null_list(*column, i + 1) =~= before + sp_null_list(*column, i as int));
                i = i + 1;
            }
            assert(sp_null_list(*column, i as int) =~= Seq::<CellPartView>::empty());
            assert(parts_view(out@) =~= parts_view(out@) + Seq::<CellPartView>::empty());
            assert(start + sp_null_list(*column, 0) =~= parts_view(old(out)@) + sp_null_parts(*column));
        },
        _ => {
            push_part(out, CellPart::Null);
            assert(parts_view(old(out)@).push(CellPartView::Null) =~= parts_view(old(out)@) + sp_null_parts(*column));
        },
    }
}

/// Appends the parts that `value` puts into `column` and gives their size
/// estimate, as [`sp_cell`] says.
fn project_into(value: &PayloadValue, column: &ColumnSpec, out: &mut Vec<CellPart>) -> (r: Result<usize, CellError>)
    ensures
        match sp_cell(*value, *column) {
            Ok((p, n)) => r == Ok::<usize, CellError>(n as usize) && n <= usize::MAX && parts_view(final(out)@) == parts_view(
                old(out)@,
            ) + p,
            Err(e) => r matches Err(x) && x@ == e,
        },
    decreases column,
{
    let is_text = match &column.column_type {
        ColumnType::String => true,
        _ => false,
    };
    match &column.projection {
        ColumnProjection::EnumName(values) => {
            if !is_text {
                return Err(CellError::IncompatibleBuilder { column: column.name.clone() });
            }
            if let PayloadValue::Null = value {
                return push_fixed(out, CellPart::Null, 0);
            }
            match value_i64(value) {
                Some(x) => {
                    if x < i32::MIN as i64 || x > i32::MAX as i64 {
                        return Err(CellError::ExpectedValue { expected: Expected::Enum });
                    }
                    match enum_name(values, x as i32) {
                        Some(n) => push_sized(out, CellPart::Text(n.clone()), n.as_str()),
                        None => push_fixed(out, CellPart::Null, 0),
                    }
                },
                None => Err(CellError::ExpectedValue { expected: Expected::Enum }),
            }
        },
        ColumnProjection::OneofName(variants) => {
            if !is_text {
                return Err(CellError::IncompatibleBuilder { column: column.name.clone() });
            }
            let selected = match value {
                PayloadValue::Object(fields) => if fields.len() > 0 {
                    Some(fields[0].name.as_str())
                } else {
                    None
                },
                _ => None,
            };
            match selected {
                Some(sel) => match variant_name(variants, sel) {
                    Some(n) => push_sized(out, CellPart::Text(n.clone()), n.as_str()),
                    None => push_fixed(out, CellPart::Null, 0),
                },
                None => push_fixed(out, CellPart::Null, 0),
            }
        },
        ColumnProjection::Direct => {
            if let PayloadValue::Null = value {
                null_parts(column, out);
                return Ok(CELL_VALUE_FIXED_BYTES);
            }
            match &column.column_type {
                ColumnType::Binary => match value {
                    PayloadValue::Binary(b) => {
                        if b.len() > usize::MAX - CELL_VALUE_FIXED_BYTES {
                            return Err(CellError::EstimateOverflow);
                        }
                        let n = b.len();
                        push_part(out, CellPart::Bytes(b.clone()));
                        assert(parts_view(old(out)@).push(CellPartView::Bytes(b@)) =~= parts_view(old(out)@) + seq![
                            CellPartView::Bytes(b@),
                        ]);
                        Ok(CELL_VALUE_FIXED_BYTES + n)
                    },
                    PayloadValue::String(t) => push_sized(out, CellPart::Utf8Bytes(t.clone()), t.as_str()),
                    _ => Err(CellError::ExpectedValue { expected: Expected::Binary }),
                },
                ColumnType::Bool => match value {
                    PayloadValue::Bool(b) => push_fixed(out, CellPart::Bool(*b), 1),
                    _ => Err(CellError::ExpectedValue { expected: Expected::Bool }),
                },
                ColumnType::I32 => match value_i64(value) {
                    Some(x) => if x < i32::MIN as i64 || x > i32::MAX as i64 {
                        Err(CellError::ExpectedValue { expected: Expected::I32 })
                    } else {
                        push_fixed(out, CellPart::I32(x as i32), 4)
                    },
                    None => Err(CellError::ExpectedValue { expected: Expected::I32 }),
                },
                ColumnType::I64 => match value_i64(value) {
                    Some(x) => push_fixed(out, CellPart::I64(x), 8),
                    None => Err(CellError::ExpectedValue { expected: Expected::I64 }),
                },
                ColumnType::U32 => match value_u64(value) {
                    Some(x) => if x > u32::MAX as u64 {
                        Err(CellError::ExpectedValue { expected: Expected::U32 })
                    } else {
                        push_fixed(out, CellPart::U32(x as u32), 4)
                    },
                    None => Err(CellError::ExpectedValue { expected: Expected::U32 }),
                },
                ColumnType::U64 => match value_u64(value) {
                    Some(x) => push_fixed(out, CellPart::U64(x), 8),
                    None => Err(CellError::ExpectedValue { expected: Expected::U64 }),
                },
                ColumnType::F32 => match value {
                    PayloadValue::F64Bits(b) => push_fixed(out, CellPart::F32FromF64Bits(*b), 4),
                    _ => Err(CellError::ExpectedValue { expected: Expected::F32 }),
                },
                ColumnType::F64 => match value {
                    PayloadValue::F64Bits(b) => push_fixed(out, CellPart::F64Bits(*b), 8),
                    _ => Err(CellError::ExpectedValue { expected: Expected::F64 }),
                },
                ColumnType::String => match value {
                    PayloadValue::String(t) => push_sized(out, CellPart::Text(t.clone()), t.as_str()),
                    _ => Err(CellError::ExpectedValue { expected: Expected::String }),
                },
                ColumnType::Struct(cols) => {
                    match value {
                        PayloadValue::Object(_) => {},
                        _ => {
                            return Err(CellError::ExpectedMessage { column: column.name.clone() });
                        },
                    }
                    let ghost start = parts_view(old(out)@);
                    push_part(out, CellPart::StructValid);
                    let mut bytes: usize = CELL_VALUE_FIXED_BYTES;
                    let ghost whole = sp_struct(*value, *column, 0, seq![CellPartView::StructValid], CELL_VALUE_FIXED_BYTES as nat);
                    assert(parts_view(out@) =~= start + seq![CellPartView::StructValid]);
                    assert(parts_view(out@).skip(start.len() as int) =~= seq![CellPartView::StructValid]);
                    assert(parts_view(out@).take(start.len() as int) =~= start);
                    let mut i: usize = 0;
                    while i < cols.len()
                        invariant
                            0 <= i <= cols.len(),
                            column.column_type == ColumnType::Struct(*cols),
                            whole == sp_struct(*value, *column, 0, seq![CellPartView::StructValid], CELL_VALUE_FIXED_BYTES as nat),
                            parts_view(out@).len() >= start.len(),
                            parts_view(out@).take(start.len() as int) == start,
                            whole == sp_struct(*value, *column, i as int, parts_view(out@).skip(start.len() as int), bytes as nat),
                            sp_cell(*value, *column) == whole,
                        decreases cols.len() - i,
                    {
                        let ghost now = parts_view(out@);
                        let ghost acc = now.skip(start.len() as int);
                        let ghost b0 = bytes;
                        let child = &cols[i];
                        let null = PayloadValue::Null;
                        let member_value = match member(value, child.source_name.as_str()) {
                            Some(v) => v,
                            None => &null,
                        };
                        proof {
                            assert(decreases_to!(*column => column.column_type));
                            assert(decreases_to!(*cols => cols@));
                            assert(decreases_to!(cols@ => cols@[i as int]));
                        }
                        let res = project_into(member_value, child, out);
                        match res {
                            Err(e) => {
                                return Err(e);
                            },
                            Ok(n) => {
                                if bytes > usize::MAX - n {
                                    return Err(CellError::EstimateOverflow);
                                }
                                proof {
                                    let p = sp_cell(*member_value, *child)->Ok_0.0;
                                    assert(*child == cols@[i as int]);
                                    assert(*member_value == match payload_child(*value, child.source_name@) {
                                        Some(v) => v,
                                        None => PayloadValue::Null,
                                    });
                                    assert(sp_struct(*value, *column, i as int, acc, b0 as nat) == sp_struct(
                                        *value,
                                        *column,
                                        i + 1,
                                        acc + p,
                                        (b0 + n) as nat,
                                    ));
                                    assert(parts_view(out@) == now + p);
                                    assert(parts_view(out@).skip(start.len() as int) =~= now.skip(start.len() as int) + p);
                                    assert(parts_view(out@).take(start.len() as int) =~= start) by {
                                        assert forall|j: int| 0 <= j < start.len() implies parts_view(out@)[j] == start[j] by {
                                            assert(now.take(start.len() as int)[j] == now[j]);
                                        }
                                    }
                                }
                                bytes = bytes + n;
                            },
                        }
                        i = i + 1;
                    }
                    proof {
                        assert(parts_view(out@) =~= start + parts_view(out@).skip(start.len() as int));
                    }
                    Ok(bytes)
                },
            }
        },
    }
}

/// The parts of a cell, when it has some.
pub open spec fn cell_parts(r: CellResult) -> Option<Seq<CellPartView>> {
    match r {
        Ok((p, _)) => Some(p),
        Err(_) => None,
    }
}

proof fn lemma_enum_name_found(values: Seq<EnumValue>, n: i32, i: int, k: int)
    requires
        0 <= i <= k < values.len(),
        values[k].number == n,
        forall|j: int| i <= j < k ==> (#[trigger] values[j]).number != n,
    ensures
        enum_name_from(values, n, i) == Some(values[k].name),
    decreases k - i,
{
    if i < k {
        lemma_enum_name_found(values, n, i + 1, k);
    }
}

proof fn lemma_enum_name_missing(values: Seq<EnumValue>, n: i32, i: int)
    requires
        0 <= i,
        forall|j: int| i <= j < values.len() ==> (#[trigger] values[j]).number != n,
    ensures
        enum_name_from(values, n, i) is None,
    decreases values.len() - i,
{
    if i < values.len() {
        lemma_enum_name_missing(values, n, i + 1);
    }
}

/// An enum column shows the name of the value's number: the name of the
/// first listed value with that number (when its size estimate fits), or
/// null when no listed value has it.
pub proof fn lemma_enum_cells_name_numbers(column: ColumnSpec, n: i32, k: int)
    requires
        column.projection is EnumName,
        column.column_type is String,
    ensures
        ({
            let values = column.projection->EnumName_0@;
            0 <= k < values.len() && values[k].number == n && (forall|j: int| 0 <= j < k ==> (#[trigger] values[j]).number != n)
                && sp_cell(PayloadValue::I64(n as i64), column) is Ok ==> cell_parts(sp_cell(PayloadValue::I64(n as i64), column))
                == Some(seq![CellPartView::Text(values[k].name@)])
        }),
        ({
            let values = column.projection->EnumName_0@;
            (forall|j: int| 0 <= j < values.len() ==> (#[trigger] values[j]).number != n) ==> cell_parts(
                sp_cell(PayloadValue::I64(n as i64), column),
            ) == Some(seq![CellPartView::Null])
        }),
{
    let values = column.projection->EnumName_0@;
    if 0 <= k < values.len() && values[k].number == n && (forall|j: int| 0 <= j < k ==> (#[trigger] values[j]).number != n) {
        lemma_enum_name_found(values, n, 0, k);
    }
    if forall|j: int| 0 <= j < values.len() ==> (#[trigger] values[j]).number != n {
        lemma_enum_name_missing(values, n, 0);
    }
}

/// The size estimate of a cell, when it has one.
pub open spec fn cell_estimate(r: CellResult) -> Option<nat> {
    match r {
        Ok((_, n)) => Some(n),
        Err(_) => None,
    }
}

/// A leaf cell's size estimate is the fixed part of every cell plus what
/// its value takes: the stored width in bytes of a fixed-width value (1 for
/// a boolean, 4 for a 32-bit, 8 for a 64-bit value), the UTF-8 length of a
/// text, and nothing for a null.
pub proof fn lemma_leaf_cell_estimates(column: ColumnSpec, b: bool, x: i64, u: u64, bits: u64, t: String)
    requires
        column.projection is Direct,
    ensures
        column.column_type is Bool ==> cell_estimate(sp_cell(PayloadValue::Bool(b), column)) == Some(
            (CELL_VALUE_FIXED_BYTES + 1) as nat,
        ),
        column.column_type is I64 ==> cell_estimate(sp_cell(PayloadValue::I64(x), column)) == Some(
            (CELL_VALUE_FIXED_BYTES + 8) as nat,
        ),
        column.column_type is U64 ==> cell_estimate(sp_cell(PayloadValue::U64(u), column)) == Some(
            (CELL_VALUE_FIXED_BYTES + 8) as nat,
        ),
        column.column_type is I32 && i32::MIN <= x <= i32::MAX ==> cell_estimate(sp_cell(PayloadValue::I64(x), column))
            == Some((CELL_VALUE_FIXED_BYTES + 4) as nat),
        column.column_type is U32 && u <= u32::MAX ==> cell_estimate(sp_cell(PayloadValue::U64(u), column)) == Some(
            (CELL_VALUE_FIXED_BYTES + 4) as nat,
        ),
        column.column_type is F64 ==> cell_estimate(sp_cell(PayloadValue::F64Bits(bits), column)) == Some(
            (CELL_VALUE_FIXED_BYTES + 8) as nat,
        ),
        column.column_type is F32 ==> cell_estimate(sp_cell(PayloadValue::F64Bits(bits), column)) == Some(
            (CELL_VALUE_FIXED_BYTES + 4) as nat,
        ),
        column.column_type is String && sp_cell(PayloadValue::String(t), column) is Ok ==> cell_estimate(
            sp_cell(PayloadValue::String(t), column),
        ) == Some((CELL_VALUE_FIXED_BYTES + utf8_len(t@)) as nat),
        cell_estimate(sp_cell(PayloadValue::Null, column)) == Some(CELL_VALUE_FIXED_BYTES as nat),
{
}

/// A leaf column keeps the value it is given. Through a direct projection
/// a value of the column's own kind becomes the single part holding that
/// same value: a boolean, an integer (also in an integer column of another
/// width or signedness when it fits there), a float's bits, a text or
/// bytes (when the size estimate fits); a null value becomes a single null
/// part in a leaf column.
pub proof fn lemma_leaf_cells_keep_values(
    column: ColumnSpec,
    b: bool,
    x: i64,
    u: u64,
    bits: u64,
    t: String,
    bytes: Vec<u8>,
)
    requires
        column.projection is Direct,
    ensures
        column.column_type is Bool ==> cell_parts(sp_cell(PayloadValue::Bool(b), column)) == Some(
            seq![CellPartView::Bool(b)],
        ),
        column.column_type is I64 ==> cell_parts(sp_cell(PayloadValue::I64(x), column)) == Some(
            seq![CellPartView::I64(x)],
        ),
        column.column_type is U64 ==> cell_parts(sp_cell(PayloadValue::U64(u), column)) == Some(
            seq![CellPartView::U64(u)],
        ),
        column.column_type is I64 && u <= i64::MAX ==> cell_parts(sp_cell(PayloadValue::U64(u), column)) == Some(
            seq![CellPartView::I64(u as i64)],
        ) && u as i64 == u,
        column.column_type is U64 && x >= 0 ==> cell_parts(sp_cell(PayloadValue::I64(x), column)) == Some(
            seq![CellPartView::U64(x as u64)],
        ) && x as u64 == x,
        column.column_type is I32 && i32::MIN <= x <= i32::MAX ==> cell_parts(sp_cell(PayloadValue::I64(x), column)) == Some(
            seq![CellPartView::I32(x as i32)],
        ) && x as i32 == x,
        column.column_type is U32 && u <= u32::MAX ==> cell_parts(sp_cell(PayloadValue::U64(u), column)) == Some(
            seq![CellPartView::U32(u as u32)],
        ) && u as u32 == u,
        column.column_type is F64 ==> cell_parts(sp_cell(PayloadValue::F64Bits(bits), column)) == Some(
            seq![CellPartView::F64Bits(bits)],
        ),
        column.column_type is F32 ==> cell_parts(sp_cell(PayloadValue::F64Bits(bits), column)) == Some(
            seq![CellPartView::F32FromF64Bits(bits)],
        ),
        column.column_type is String && sp_cell(PayloadValue::String(t), column) is Ok ==> cell_parts(
            sp_cell(PayloadValue::String(t), column),
        ) == Some(seq![CellPartView::Text(t@)]),
        column.column_type is Binary && sp_cell(PayloadValue::Binary(bytes), column) is Ok ==> cell_parts(
            sp_cell(PayloadValue::Binary(bytes), column),
        ) == Some(seq![CellPartView::Bytes(bytes@)]),
        !(column.column_type is Struct) ==> cell_parts(sp_cell(PayloadValue::Null, column)) == Some(
            seq![CellPartView::Null],
        ),
        column.column_type is Bool ==> sp_cell(PayloadValue::I64(x), column) == Err::<(Seq<CellPartView>, nat), CellErrorView>(
            CellErrorView::ExpectedValue { expected: Expected::Bool },
        ),
        column.column_type is I32 && !(i32::MIN <= x <= i32::MAX) ==> sp_cell(PayloadValue::I64(x), column) == Err::<
            (Seq<CellPartView>, nat),
            CellErrorView,
        >(CellErrorView::ExpectedValue { expected: Expected::I32 }),
        column.column_type is U32 && u > u32::MAX ==> sp_cell(PayloadValue::U64(u), column) == Err::<
            (Seq<CellPartView>, nat),
            CellErrorView,
        >(CellErrorView::ExpectedValue { expected: Expected::U32 }),
        column.column_type is U64 && x < 0 ==> sp_cell(PayloadValue::I64(x), column) == Err::<
            (Seq<CellPartView>, nat),
            CellErrorView,
        >(CellErrorView::ExpectedValue { expected: Expected::U64 }),
{
}

/// The parts that `value` puts into `column`, in the order a column builder
/// takes them, and their size estimate.
pub fn project_cell(value: &PayloadValue, column: &ColumnSpec) -> (r: Result<(Vec<CellPart>, usize), CellError>)
    ensures
        match sp_cell(*value, *column) {
            Ok((p, n)) => r matches Ok((v, m)) && parts_view(v@) == p && m == n,
            Err(e) => r matches Err(x) && x@ == e,
        },
{
    let mut out: Vec<CellPart> = Vec::new();
    assert(parts_view(out@) =~= Seq::<CellPartView>::empty());
    match project_into(value, column, &mut out) {
        Err(e) => Err(e),
        Ok(n) => {
            assert(Seq::<CellPartView>::empty() + parts_view(out@) =~= parts_view(out@));
            Ok((out, n))
        },
    }
}

} // verus!
