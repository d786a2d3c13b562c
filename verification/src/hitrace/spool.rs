//! The spool record of a validated context switch: fixed-width
//! little-endian numbers and length-prefixed UTF-8 names.
use vstd::prelude::*;
use vstd::utf8::{decode_utf8, encode_utf8, valid_utf8};
use crate::text::utf8_text;
use super::container::{le_u32, le_u64, read_u32, read_u64};
use super::validate::{SwitchRow, SwitchRowView};

verus! {

/// The little-endian bytes of a `u32`.
#[verifier::opaque]
pub open spec fn u32_bytes(v: u32) -> Seq<u8> {
    seq![
        (v & 0xff) as u8,
        ((v >> 8u32) & 0xff) as u8,
        ((v >> 16u32) & 0xff) as u8,
        ((v >> 24u32) & 0xff) as u8,
    ]
}

/// The little-endian bytes of a `u64`.
#[verifier::opaque]
pub open spec fn u64_bytes(v: u64) -> Seq<u8> {
    seq![
        (v & 0xff) as u8,
        ((v >> 8u64) & 0xff) as u8,
        ((v >> 16u64) & 0xff) as u8,
        ((v >> 24u64) & 0xff) as u8,
        ((v >> 32u64) & 0xff) as u8,
        ((v >> 40u64) & 0xff) as u8,
        ((v >> 48u64) & 0xff) as u8,
        ((v >> 56u64) & 0xff) as u8,
    ]
}

/// A name as its UTF-8 length, then its UTF-8 bytes.
#[verifier::opaque]
pub open spec fn name_bytes(s: Seq<char>) -> Seq<u8> {
    u32_bytes(encode_utf8(s).len() as u32) + encode_utf8(s)
}

/// The spool record of a context switch.
#[verifier::opaque]
pub open spec fn row_bytes(r: SwitchRowView) -> Seq<u8> {
    u64_bytes(r.clock_value) + u32_bytes(r.cpu) + u64_bytes(r.sequence) + u32_bytes(
        r.previous_thread_id as u32,
    ) + name_bytes(r.previous_thread_name) + u32_bytes(r.next_thread_id as u32) + name_bytes(
        r.next_thread_name,
    )
}

/// Both names fit a 32-bit length.
pub open spec fn row_fits(r: SwitchRowView) -> bool {
    encode_utf8(r.previous_thread_name).len() <= u32::MAX && encode_utf8(r.next_thread_name).len()
        <= u32::MAX
}

/// Why a spool record cannot be read back.
#[derive(Debug, Clone, Copy, PartialEq, Eq, Structural)]
pub enum SpoolError {
    /// The spool ends inside the record.
    Truncated,
    /// A name is not valid UTF-8.
    InvalidUtf8,
}

/// The name at `p`, and the position after it.
pub open spec fn sp_read_name(b: Seq<u8>, p: int) -> Result<(Seq<char>, int), SpoolError> {
    if p < 0 || p + 4 > b.len() {
        Err(SpoolError::Truncated)
    } else {
        let n = le_u32(b, p) as int;
        if p + 4 + n > b.len() {
            Err(SpoolError::Truncated)
        } else if !valid_utf8(b.subrange(p + 4, p + 4 + n)) {
            Err(SpoolError::InvalidUtf8)
        } else {
            Ok((decode_utf8(b.subrange(p + 4, p + 4 + n)), p + 4 + n))
        }
    }
}

/// The record at `p`, and the position after it.
pub open spec fn sp_read_row(b: Seq<u8>, p: int) -> Result<(SwitchRowView, int), SpoolError> {
    if p < 0 || p + 24 > b.len() {
        Err(SpoolError::Truncated)
    } else {
        match sp_read_name(b, p + 24) {
            Err(e) => Err(e),
            Ok((previous_name, q)) => if q + 4 > b.len() {
                Err(SpoolError::Truncated)
            } else {
                match sp_read_name(b, q + 4) {
                    Err(e) => Err(e),
                    Ok((next_name, end)) => Ok((
                        SwitchRowView {
                            clock_value: le_u64(b, p),
                            cpu: le_u32(b, p + 8),
                            sequence: le_u64(b, p + 12),
                            previous_thread_id: le_u32(b, p + 20) as i32,
                            previous_thread_name: previous_name,
                            next_thread_id: le_u32(b, q) as i32,
                            next_thread_name: next_name,
                        },
                        end,
                    )),
                }
            },
        }
    }
}

fn push_u32(out: &mut Vec<u8>, v: u32)
    ensures
        final(out)@ == old(out)@ + u32_bytes(v),
{
    reveal(u32_bytes);
    out.push((v & 0xff) as u8);
    out.push(((v >> 8u32) & 0xff) as u8);
    out.push(((v >> 16u32) & 0xff) as u8);
    out.push(((v >> 24u32) & 0xff) as u8);
    assert(final(out)@ =~= old(out)@ + u32_bytes(v));
}

fn push_u64(out: &mut Vec<u8>, v: u64)
    ensures
        final(out)@ == old(out)@ + u64_bytes(v),
{
    reveal(u64_bytes);
    out.push((v & 0xff) as u8);
    out.push(((v >> 8u64) & 0xff) as u8);
    out.push(((v >> 16u64) & 0xff) as u8);
    out.push(((v >> 24u64) & 0xff) as u8);
    out.push(((v >> 32u64) & 0xff) as u8);
    out.push(((v >> 40u64) & 0xff) as u8);
    out.push(((v >> 48u64) & 0xff) as u8);
    out.push(((v >> 56u64) & 0xff) as u8);
    assert(final(out)@ =~= old(out)@ + u64_bytes(v));
}

fn push_name(out: &mut Vec<u8>, s: &String) -> (ok: bool)
    ensures
        ok == (encode_utf8(s@).len() <= u32::MAX),
        ok ==> final(out)@ == old(out)@ + name_bytes(s@),
{
    let bytes = s.as_str().as_bytes();
    if bytes.len() > u32::MAX as usize {
        return false;
    }
    push_u32(out, bytes.len() as u32);
    let ghost mid = out@;
    let mut i: usize = 0;
    while i < bytes.len()
        invariant
            0 <= i <= bytes.len(),
            out@ == mid + bytes@.take(i as int),
        decreases bytes.len() - i,
    {
        out.push(bytes[i]);
        assert(bytes@.take(i + 1) =~= bytes@.take(i as int).push(bytes@[i as int]));
        i = i + 1;
    }
    assert(bytes@.take(bytes.len() as int) =~= bytes@);
    reveal(name_bytes);
    assert(out@ =~= old(out)@ + name_bytes(s@));
    true
}

/// The spool record of `row`; `None` when a name is longer than a 32-bit
/// length holds.
pub fn row_to_bytes(row: &SwitchRow) -> (r: Option<Vec<u8>>)
    ensures
        r is Some == row_fits(row@),
        r matches Some(b) ==> b@ == row_bytes(row@),
{
    let mut out: Vec<u8> = Vec::new();
    push_u64(&mut out, row.clock_value);
    push_u32(&mut out, row.cpu);
    push_u64(&mut out, row.sequence);
    push_u32(&mut out, row.previous_thread_id as u32);
    if !push_name(&mut out, &row.previous_thread_name) {
        return None;
    }
    push_u32(&mut out, row.next_thread_id as u32);
    if !push_name(&mut out, &row.next_thread_name) {
        return None;
    }
    reveal(row_bytes);
    assert(out@ =~= row_bytes(row@));
    Some(out)
}

fn read_name(b: &[u8], p: usize) -> (r: Result<(String, usize), SpoolError>)
    ensures
        match r {
            Ok((s, q)) => sp_read_name(b@, p as int) == Ok::<(Seq<char>, int), SpoolError>((s@, q as int)),
            Err(e) => sp_read_name(b@, p as int) == Err::<(Seq<char>, int), SpoolError>(e),
        },
{
    if p > b.len() || b.len() - p < 4 {
        return Err(SpoolError::Truncated);
    }
    let n = read_u32(b, p) as usize;
    if n > b.len() - p - 4 {
        return Err(SpoolError::Truncated);
    }
    let start = p + 4;
    let raw = &b[start..start + n];
    match utf8_text(raw) {
        None => Err(SpoolError::InvalidUtf8),
        Some(s) => Ok((s, start + n)),
    }
}

/// Reads the spool record at `p`, giving the row and the position after it.
pub fn read_row(b: &[u8], p: usize) -> (r: Result<(SwitchRow, usize), SpoolError>)
    ensures
        match r {
            Ok((row, q)) => sp_read_row(b@, p as int) == Ok::<(SwitchRowView, int), SpoolError>((row@, q as int)),
            Err(e) => sp_read_row(b@, p as int) == Err::<(SwitchRowView, int), SpoolError>(e),
        },
{
    if p > b.len() || b.len() - p < 24 {
        return Err(SpoolError::Truncated);
    }
    let clock_value = read_u64(b, p);
    let cpu = read_u32(b, p + 8);
    let sequence = read_u64(b, p + 12);
    let previous_thread_id = read_u32(b, p + 20) as i32;
    let (previous_thread_name, q) = match read_name(b, p + 24) {
        Err(e) => return Err(e),
        Ok(x) => x,
    };
    if q > b.len() || b.len() - q < 4 {
        return Err(SpoolError::Truncated);
    }
    let next_thread_id = read_u32(b, q) as i32;
    let (next_thread_name, end) = match read_name(b, q + 4) {
        Err(e) => return Err(e),
        Ok(x) => x,
    };
    Ok((
        SwitchRow {
            clock_value,
            cpu,
            sequence,
            previous_thread_id,
            previous_thread_name,
            next_thread_id,
            next_thread_name,
        },
        end,
    ))
}

proof fn lemma_u32_bytes(v: u32)
    ensures
        ({
            let b = u32_bytes(v);
            (b[0] as u32) | ((b[1] as u32) << 8u32) | ((b[2] as u32) << 16u32) | ((b[3] as u32)
                << 24u32) == v
        }),
{
    reveal(u32_bytes);
    let b0 = (v & 0xff) as u8;
    let b1 = ((v >> 8u32) & 0xff) as u8;
    let b2 = ((v >> 16u32) & 0xff) as u8;
    let b3 = ((v >> 24u32) & 0xff) as u8;
    assert((b0 as u32) | ((b1 as u32) << 8u32) | ((b2 as u32) << 16u32) | ((b3 as u32) << 24u32)
        == v) by (bit_vector)
        requires
            b0 == (v & 0xff) as u8,
            b1 == ((v >> 8u32) & 0xff) as u8,
            b2 == ((v >> 16u32) & 0xff) as u8,
            b3 == ((v >> 24u32) & 0xff) as u8,
    ;
}

proof fn lemma_u64_bytes(v: u64)
    ensures
        ({
            let b = u64_bytes(v);
            (b[0] as u64) | ((b[1] as u64) << 8u64) | ((b[2] as u64) << 16u64) | ((b[3] as u64)
                << 24u64) | ((b[4] as u64) << 32u64) | ((b[5] as u64) << 40u64) | ((b[6] as u64)
                << 48u64) | ((b[7] as u64) << 56u64) == v
        }),
{
    reveal(u64_bytes);
    let b0 = (v & 0xff) as u8;
    let b1 = ((v >> 8u64) & 0xff) as u8;
    let b2 = ((v >> 16u64) & 0xff) as u8;
    let b3 = ((v >> 24u64) & 0xff) as u8;
    let b4 = ((v >> 32u64) & 0xff) as u8;
    let b5 = ((v >> 40u64) & 0xff) as u8;
    let b6 = ((v >> 48u64) & 0xff) as u8;
    let b7 = ((v >> 56u64) & 0xff) as u8;
    assert((b0 as u64) | ((b1 as u64) << 8u64) | ((b2 as u64) << 16u64) | ((b3 as u64) << 24u64)
        | ((b4 as u64) << 32u64) | ((b5 as u64) << 40u64) | ((b6 as u64) << 48u64) | ((b7 as u64)
        << 56u64) == v) by (bit_vector)
        requires
            b0 == (v & 0xff) as u8,
            b1 == ((v >> 8u64) & 0xff) as u8,
            b2 == ((v >> 16u64) & 0xff) as u8,
            b3 == ((v >> 24u64) & 0xff) as u8,
            b4 == ((v >> 32u64) & 0xff) as u8,
            b5 == ((v >> 40u64) & 0xff) as u8,
            b6 == ((v >> 48u64) & 0xff) as u8,
            b7 == ((v >> 56u64) & 0xff) as u8,
    ;
}

proof fn lemma_i32_roundtrip(v: i32)
    ensures
        (v as u32) as i32 == v,
{
    assert((v as u32) as i32 == v) by (bit_vector);
}

proof fn lemma_read_name(s: Seq<char>, pre: Seq<u8>, rest: Seq<u8>)
    requires
        encode_utf8(s).len() <= u32::MAX,
    ensures
        sp_read_name(pre + name_bytes(s) + rest, pre.len() as int) == Ok::<(Seq<char>, int), SpoolError>(
            (s, (pre.len() + name_bytes(s).len()) as int),
        ),
{
    reveal(name_bytes);
    reveal(u32_bytes);
    let e = encode_utf8(s);
    let b = pre + name_bytes(s) + rest;
    let p = pre.len() as int;
    let lb = u32_bytes(e.len() as u32);
    lemma_u32_bytes(e.len() as u32);
    assert(b[p] == lb[0] && b[p + 1] == lb[1] && b[p + 2] == lb[2] && b[p + 3] == lb[3]);
    assert(le_u32(b, p) == e.len());
    assert(b.subrange(p + 4, p + 4 + e.len()) =~= e);
    vstd::utf8::encode_utf8_valid_utf8(s);
    vstd::utf8::encode_utf8_decode_utf8(s);
}

proof fn lemma_bytes_len(v32: u32, v64: u64, s: Seq<char>)
    ensures
        u32_bytes(v32).len() == 4,
        u64_bytes(v64).len() == 8,
        name_bytes(s).len() == 4 + encode_utf8(s).len(),
{
    reveal(u32_bytes);
    reveal(u64_bytes);
    reveal(name_bytes);
}

proof fn lemma_le_u32_at(x: Seq<u8>, v: u32, z: Seq<u8>)
    ensures
        le_u32(x + u32_bytes(v) + z, x.len() as int) == v,
{
    reveal(u32_bytes);
    let b = x + u32_bytes(v) + z;
    let c = u32_bytes(v);
    let p = x.len() as int;
    assert(b[p] == c[0] && b[p + 1] == c[1] && b[p + 2] == c[2] && b[p + 3] == c[3]);
    lemma_u32_bytes(v);
}

proof fn lemma_le_u64_at(x: Seq<u8>, v: u64, z: Seq<u8>)
    ensures
        le_u64(x + u64_bytes(v) + z, x.len() as int) == v,
{
    reveal(u64_bytes);
    let b = x + u64_bytes(v) + z;
    let c = u64_bytes(v);
    let p = x.len() as int;
    assert(b[p] == c[0] && b[p + 1] == c[1] && b[p + 2] == c[2] && b[p + 3] == c[3] && b[p + 4]
        == c[4] && b[p + 5] == c[5] && b[p + 6] == c[6] && b[p + 7] == c[7]);
    lemma_u64_bytes(v);
}

#[verifier::spinoff_prover]
#[verifier::rlimit(100)]
proof fn lemma_row_fields(r: SwitchRowView, pre: Seq<u8>, rest: Seq<u8>)
    requires
        row_fits(r),
    ensures
        ({
            let b = pre + row_bytes(r) + rest;
            let p = pre.len() as int;
            let q = p + 24 + name_bytes(r.previous_thread_name).len();
            &&& p + 24 <= b.len()
            &&& le_u64(b, p) == r.clock_value
            &&& le_u32(b, p + 8) == r.cpu
            &&& le_u64(b, p + 12) == r.sequence
            &&& le_u32(b, p + 20) as i32 == r.previous_thread_id
            &&& sp_read_name(b, p + 24) == Ok::<(Seq<char>, int), SpoolError>((r.previous_thread_name, q))
            &&& q + 4 <= b.len()
            &&& le_u32(b, q) as i32 == r.next_thread_id
            &&& sp_read_name(b, q + 4) == Ok::<(Seq<char>, int), SpoolError>(
                (r.next_thread_name, p + row_bytes(r).len()),
            )
        }),
{
    reveal(row_bytes);
    let b = pre + row_bytes(r) + rest;
    let f0 = u64_bytes(r.clock_value);
    let f1 = u32_bytes(r.cpu);
    let f2 = u64_bytes(r.sequence);
    let f3 = u32_bytes(r.previous_thread_id as u32);
    let f4 = name_bytes(r.previous_thread_name);
    let f5 = u32_bytes(r.next_thread_id as u32);
    let f6 = name_bytes(r.next_thread_name);
    assert(row_bytes(r) == f0 + f1 + f2 + f3 + f4 + f5 + f6);
    lemma_bytes_len(r.cpu, r.clock_value, r.previous_thread_name);
    lemma_bytes_len(r.previous_thread_id as u32, r.sequence, r.next_thread_name);
    lemma_bytes_len(r.next_thread_id as u32, 0, r.next_thread_name);
    assert(b =~= pre + f0 + (f1 + f2 + f3 + f4 + f5 + f6 + rest));
    lemma_le_u64_at(pre, r.clock_value, f1 + f2 + f3 + f4 + f5 + f6 + rest);
    assert(b =~= (pre + f0) + f1 + (f2 + f3 + f4 + f5 + f6 + rest));
    lemma_le_u32_at(pre + f0, r.cpu, f2 + f3 + f4 + f5 + f6 + rest);
    assert(b =~= (pre + f0 + f1) + f2 + (f3 + f4 + f5 + f6 + rest));
    lemma_le_u64_at(pre + f0 + f1, r.sequence, f3 + f4 + f5 + f6 + rest);
    assert(b =~= (pre + f0 + f1 + f2) + f3 + (f4 + f5 + f6 + rest));
    lemma_le_u32_at(pre + f0 + f1 + f2, r.previous_thread_id as u32, f4 + f5 + f6 + rest);
    let mid = pre + f0 + f1 + f2 + f3;
    assert(b =~= mid + f4 + (f5 + f6 + rest));
    lemma_read_name(r.previous_thread_name, mid, f5 + f6 + rest);
    assert(b =~= (mid + f4) + f5 + (f6 + rest));
    lemma_le_u32_at(mid + f4, r.next_thread_id as u32, f6 + rest);
    let after = mid + f4 + f5;
    assert(b =~= after + f6 + rest);
    lemma_read_name(r.next_thread_name, after, rest);
    lemma_i32_roundtrip(r.previous_thread_id);
    lemma_i32_roundtrip(r.next_thread_id);
}

/// Reading a spool record back gives the row that was written, whatever
/// precedes and follows it.
pub proof fn lemma_row_roundtrip(r: SwitchRowView, pre: Seq<u8>, rest: Seq<u8>)
    requires
        row_fits(r),
    ensures
        sp_read_row(pre + row_bytes(r) + rest, pre.len() as int) == Ok::<(SwitchRowView, int), SpoolError>(
            (r, (pre.len() + row_bytes(r).len()) as int),
        ),
{
    lemma_row_fields(r, pre, rest);
}

} // verus!
