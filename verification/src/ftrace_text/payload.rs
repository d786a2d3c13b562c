//! Payload grammars of the text ftrace events that the importer understands.
use vstd::prelude::*;
use crate::number::{parse_hex_u32, parse_hex_u64, parse_i32, parse_i64, parse_u32, parse_u64, spec_parse_hex_u32, spec_parse_hex_u64, spec_parse_i32, spec_parse_i64, spec_parse_u32, spec_parse_u64};
use crate::text::{chars_of, owned, spec_split_once, spec_strip_prefix, split_once, strip_prefix};

verus! {

/// Why an event payload could not be read.
#[derive(Debug)]
pub enum PayloadError {
    /// A named field is present but its value is malformed.
    Field { field: &'static str, reason: &'static str },
    /// The payload does not have the expected shape.
    Message(String),
}

/// The content of a [`PayloadError`].
pub enum PayloadErrorView {
    Field { field: Seq<char>, reason: Seq<char> },
    Message(Seq<char>),
}

impl View for PayloadError {
    type V = PayloadErrorView;

    open spec fn view(&self) -> PayloadErrorView {
        match self {
            PayloadError::Field { field, reason } => PayloadErrorView::Field {
                field: field@,
                reason: reason@,
            },
            PayloadError::Message(m) => PayloadErrorView::Message(m@),
        }
    }
}

/// The view of a parse result.
pub open spec fn rview<T, U: View<V = T>>(r: Result<U, PayloadError>) -> Result<T, PayloadErrorView> {
    match r {
        Ok(v) => Ok(v@),
        Err(e) => Err(e@),
    }
}

/// The view of a parse result whose value has no view.
pub open spec fn eview<T>(r: Result<T, PayloadError>) -> Result<T, PayloadErrorView> {
    match r {
        Ok(v) => Ok(v),
        Err(e) => Err(e@),
    }
}

pub open spec fn msg(m: Seq<char>) -> PayloadErrorView {
    PayloadErrorView::Message(m)
}

fn message(m: &str) -> (e: PayloadError)
    ensures
        e@ == msg(m@),
{
    PayloadError::Message(owned(m))
}

/// `take_between`: strips `prefix` and splits the rest at the first `separator`.
pub open spec fn sp_take_between(v: Seq<char>, prefix: Seq<char>, separator: Seq<char>) -> Result<
    (Seq<char>, Seq<char>),
    PayloadErrorView,
> {
    match spec_strip_prefix(v, prefix) {
        None => Err(msg("missing payload field"@)),
        Some(rest) => match spec_split_once(rest, separator) {
            None => Err(msg("missing payload separator"@)),
            Some(pair) => Ok(pair),
        },
    }
}

pub fn take_between<'a>(v: &'a [char], prefix: &str, separator: &str) -> (r: Result<
    (&'a [char], &'a [char]),
    PayloadError,
>)
    ensures
        match r {
            Ok((a, b)) => sp_take_between(v@, prefix@, separator@) == Ok::<
                (Seq<char>, Seq<char>),
                PayloadErrorView,
            >((a@, b@)),
            Err(e) => sp_take_between(v@, prefix@, separator@) == Err::<
                (Seq<char>, Seq<char>),
                PayloadErrorView,
            >(e@),
        },
{
    let p = chars_of(prefix);
    let rest = match strip_prefix(v, p.as_slice()) {
        Some(rest) => rest,
        None => return Err(message("missing payload field")),
    };
    let sep = chars_of(separator);
    match split_once(rest, sep.as_slice()) {
        Some(pair) => Ok(pair),
        None => Err(message("missing payload separator")),
    }
}

pub open spec fn sp_i32(v: Seq<char>, field: Seq<char>) -> Result<i32, PayloadErrorView> {
    match spec_parse_i32(v) {
        Some(x) => Ok(x),
        None => Err(
            PayloadErrorView::Field { field, reason: "invalid signed 32-bit integer"@ },
        ),
    }
}

pub open spec fn sp_u32(v: Seq<char>, field: Seq<char>) -> Result<u32, PayloadErrorView> {
    match spec_parse_u32(v) {
        Some(x) => Ok(x),
        None => Err(
            PayloadErrorView::Field { field, reason: "invalid unsigned 32-bit integer"@ },
        ),
    }
}

pub open spec fn sp_u64(v: Seq<char>, field: Seq<char>) -> Result<u64, PayloadErrorView> {
    match spec_parse_u64(v) {
        Some(x) => Ok(x),
        None => Err(
            PayloadErrorView::Field { field, reason: "invalid unsigned 64-bit integer"@ },
        ),
    }
}

pub open spec fn sp_i64(v: Seq<char>, field: Seq<char>) -> Result<i64, PayloadErrorView> {
    match spec_parse_i64(v) {
        Some(x) => Ok(x),
        None => Err(
            PayloadErrorView::Field { field, reason: "invalid signed 64-bit integer"@ },
        ),
    }
}

pub open spec fn sp_hex_u32(v: Seq<char>, field: Seq<char>) -> Result<u32, PayloadErrorView> {
    match spec_strip_prefix(v, "0x"@) {
        None => Err(PayloadErrorView::Field { field, reason: "missing hexadecimal prefix"@ }),
        Some(digits) => match spec_parse_hex_u32(digits) {
            Some(x) => Ok(x),
            None => Err(
                PayloadErrorView::Field {
                    field,
                    reason: "invalid unsigned 32-bit hexadecimal integer"@,
                },
            ),
        },
    }
}

pub open spec fn sp_hex_u64(v: Seq<char>, field: Seq<char>) -> Result<u64, PayloadErrorView> {
    let digits = match spec_strip_prefix(v, "0x"@) {
        Some(d) => d,
        None => v,
    };
    match spec_parse_hex_u64(digits) {
        Some(x) => Ok(x),
        None => Err(
            PayloadErrorView::Field {
                field,
                reason: "invalid unsigned 64-bit hexadecimal integer"@,
            },
        ),
    }
}

pub fn field_i32(v: &[char], field: &'static str) -> (r: Result<i32, PayloadError>)
    ensures
        eview(r) == sp_i32(v@, field@),
{
    match parse_i32(v) {
        Some(x) => Ok(x),
        None => Err(PayloadError::Field { field, reason: "invalid signed 32-bit integer" }),
    }
}

pub fn field_u32(v: &[char], field: &'static str) -> (r: Result<u32, PayloadError>)
    ensures
        eview(r) == sp_u32(v@, field@),
{
    match parse_u32(v) {
        Some(x) => Ok(x),
        None => Err(PayloadError::Field { field, reason: "invalid unsigned 32-bit integer" }),
    }
}

pub fn field_u64(v: &[char], field: &'static str) -> (r: Result<u64, PayloadError>)
    ensures
        eview(r) == sp_u64(v@, field@),
{
    match parse_u64(v) {
        Some(x) => Ok(x),
        None => Err(PayloadError::Field { field, reason: "invalid unsigned 64-bit integer" }),
    }
}

pub fn field_i64(v: &[char], field: &'static str) -> (r: Result<i64, PayloadError>)
    ensures
        eview(r) == sp_i64(v@, field@),
{
    match parse_i64(v) {
        Some(x) => Ok(x),
        None => Err(PayloadError::Field { field, reason: "invalid signed 64-bit integer" }),
    }
}

pub fn field_hex_u32(v: &[char], field: &'static str) -> (r: Result<u32, PayloadError>)
    ensures
        eview(r) == sp_hex_u32(v@, field@),
{
    let p = chars_of("0x");
    let digits = match strip_prefix(v, p.as_slice()) {
        Some(d) => d,
        None => {
            return Err(PayloadError::Field { field, reason: "missing hexadecimal prefix" });
        },
    };
    match parse_hex_u32(digits) {
        Some(x) => Ok(x),
        None => Err(
            PayloadError::Field { field, reason: "invalid unsigned 32-bit hexadecimal integer" },
        ),
    }
}

pub fn field_hex_u64(v: &[char], field: &'static str) -> (r: Result<u64, PayloadError>)
    ensures
        eview(r) == sp_hex_u64(v@, field@),
{
    let p = chars_of("0x");
    let digits = match strip_prefix(v, p.as_slice()) {
        Some(d) => d,
        None => v,
    };
    match parse_hex_u64(digits) {
        Some(x) => Ok(x),
        None => Err(
            PayloadError::Field { field, reason: "invalid unsigned 64-bit hexadecimal integer" },
        ),
    }
}

} // verus!
