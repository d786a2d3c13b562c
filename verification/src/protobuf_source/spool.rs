//! The write buffer of a Source table: its limits, and the logical size
//! estimates of the rows it holds.
use vstd::prelude::*;
use vstd::utf8::encode_utf8;

verus! {

/// Rows a table buffers by default before it writes a batch.
pub const DEFAULT_MAX_BUFFERED_ROWS: usize = 8192;

/// Estimated bytes a table buffers by default before it writes a batch.
pub const DEFAULT_MAX_BUFFERED_BYTES: usize = 67108864;

/// When a table's buffer is written out: at this many rows or this many
/// estimated bytes, whichever comes first. A single row over the byte
/// limit is still written, as a batch of its own.
#[derive(Debug, Clone, Copy, PartialEq, Eq, Structural)]
pub struct SpoolOptions {
    pub max_buffered_rows: usize,
    pub max_buffered_bytes: usize,
}

/// Why spool limits are refused.
#[derive(Debug, Clone, Copy, PartialEq, Eq, Structural)]
pub enum SpoolOptionsError {
    /// The row limit is zero.
    ZeroRowLimit,
    /// The row limit does not fit the Int64 row counts of Parquet metadata.
    RowLimitBeyondInt64,
    /// The byte limit is zero.
    ZeroByteLimit,
}

impl SpoolOptions {
    /// A row limit, with the default byte limit.
    pub fn new(max_buffered_rows: usize) -> (r: Self)
        ensures
            r == (SpoolOptions { max_buffered_rows, max_buffered_bytes: DEFAULT_MAX_BUFFERED_BYTES }),
    {
        SpoolOptions { max_buffered_rows, max_buffered_bytes: DEFAULT_MAX_BUFFERED_BYTES }
    }

    pub fn with_limits(max_buffered_rows: usize, max_buffered_bytes: usize) -> (r: Self)
        ensures
            r == (SpoolOptions { max_buffered_rows, max_buffered_bytes }),
    {
        SpoolOptions { max_buffered_rows, max_buffered_bytes }
    }

    /// Both limits are positive, and the row limit fits in an `i64`.
    pub open spec fn spec_validate(self) -> Result<(), SpoolOptionsError> {
        if self.max_buffered_rows == 0 {
            Err(SpoolOptionsError::ZeroRowLimit)
        } else if self.max_buffered_rows > i64::MAX {
            Err(SpoolOptionsError::RowLimitBeyondInt64)
        } else if self.max_buffered_bytes == 0 {
            Err(SpoolOptionsError::ZeroByteLimit)
        } else {
            Ok(())
        }
    }

    /// Checks the limits; see [`SpoolOptions::spec_validate`].
    pub fn validate(self) -> (r: Result<(), SpoolOptionsError>)
        ensures
            r == self.spec_validate(),
    {
        if self.max_buffered_rows == 0 {
            return Err(SpoolOptionsError::ZeroRowLimit);
        }
        if self.max_buffered_rows as u64 > i64::MAX as u64 {
            return Err(SpoolOptionsError::RowLimitBeyondInt64);
        }
        if self.max_buffered_bytes == 0 {
            return Err(SpoolOptionsError::ZeroByteLimit);
        }
        Ok(())
    }
}

impl Default for SpoolOptions {
    fn default() -> (r: Self)
        ensures
            r == (SpoolOptions {
                max_buffered_rows: DEFAULT_MAX_BUFFERED_ROWS,
                max_buffered_bytes: DEFAULT_MAX_BUFFERED_BYTES,
            }),
    {
        SpoolOptions::new(DEFAULT_MAX_BUFFERED_ROWS)
    }
}

/// A buffer of `rows` rows and `bytes` estimated bytes is due to be written.
pub fn spool_limit_reached(buffered_rows: usize, buffered_bytes: usize, options: SpoolOptions) -> (r: bool)
    ensures
        r == (buffered_rows >= options.max_buffered_rows || buffered_bytes >= options.max_buffered_bytes),
{
    buffered_rows >= options.max_buffered_rows || buffered_bytes >= options.max_buffered_bytes
}

/// Why a size estimate cannot be made.
#[derive(Debug, Clone, Copy, PartialEq, Eq, Structural)]
pub enum EstimateError {
    /// A text value's estimate does not fit in a `usize`.
    Utf8Overflow,
    /// A binary value's estimate does not fit in a `usize`.
    BinaryOverflow,
    /// A row's or a buffer's total does not fit in a `usize`.
    TotalOverflow,
}

/// The fixed-width column types.
#[derive(Debug, Clone, Copy, PartialEq, Eq, Structural)]
pub enum FixedWidth {
    Bool,
    Int32,
    Int64,
    UInt32,
    UInt64,
    Float32,
    Float64,
}

/// The estimate of a fixed-width value, present or null: its width and a
/// validity byte.
pub open spec fn spec_fixed_width_bytes(kind: FixedWidth) -> int {
    match kind {
        FixedWidth::Bool => 2,
        FixedWidth::Int32 => 5,
        FixedWidth::Int64 => 9,
        FixedWidth::UInt32 => 5,
        FixedWidth::UInt64 => 9,
        FixedWidth::Float32 => 5,
        FixedWidth::Float64 => 9,
    }
}

pub fn fixed_width_bytes(kind: FixedWidth) -> (r: usize)
    ensures
        r == spec_fixed_width_bytes(kind),
{
    match kind {
        FixedWidth::Bool => 2,
        FixedWidth::Int32 => 5,
        FixedWidth::Int64 => 9,
        FixedWidth::UInt32 => 5,
        FixedWidth::UInt64 => 9,
        FixedWidth::Float32 => 5,
        FixedWidth::Float64 => 9,
    }
}

/// The estimate of a null text or binary value: an offset and a validity
/// byte.
pub const NULL_VARIABLE_WIDTH_BYTES: usize = 5;

/// The estimate of a text or binary value of `len` bytes: its bytes, an
/// offset and a validity byte.
pub open spec fn spec_variable_width_bytes(len: int) -> int {
    len + 5
}

/// The estimate of a text or binary value of `len` bytes; `binary` names
/// the kind of value in the error.
pub fn variable_width_bytes(len: usize, binary: bool) -> (r: Result<usize, EstimateError>)
    ensures
        match r {
            Ok(n) => n == spec_variable_width_bytes(len as int),
            Err(e) => spec_variable_width_bytes(len as int) > usize::MAX && e == (if binary {
                EstimateError::BinaryOverflow
            } else {
                EstimateError::Utf8Overflow
            }),
        },
{
    if len > usize::MAX - 5 {
        if binary {
            Err(EstimateError::BinaryOverflow)
        } else {
            Err(EstimateError::Utf8Overflow)
        }
    } else {
        Ok(len + 5)
    }
}

/// The length of a text in UTF-8 bytes, as `str::len` gives it.
pub open spec fn utf8_len(s: Seq<char>) -> int {
    encode_utf8(s).len() as usize as int
}

/// The estimate of a text value, by its length in UTF-8 bytes.
pub fn text_bytes(s: &str) -> (r: Result<usize, EstimateError>)
    ensures
        match r {
            Ok(n) => n == spec_variable_width_bytes(utf8_len(s@)),
            Err(e) => spec_variable_width_bytes(utf8_len(s@)) > usize::MAX && e == EstimateError::Utf8Overflow,
        },
{
    variable_width_bytes(s.len(), false)
}

/// Adds `bytes` to a running estimate; on overflow the estimate is left
/// as it was.
pub fn add_estimated_bytes(total: &mut usize, bytes: usize) -> (r: Result<(), EstimateError>)
    ensures
        match r {
            Ok(()) => *final(total) == *old(total) + bytes,
            Err(e) => *old(total) + bytes > usize::MAX && e == EstimateError::TotalOverflow && *final(total)
                == *old(total),
        },
{
    if *total > usize::MAX - bytes {
        return Err(EstimateError::TotalOverflow);
    }
    *total = *total + bytes;
    Ok(())
}

/// Why a row cannot be buffered.
#[derive(Debug, Clone, Copy, PartialEq, Eq, Structural)]
pub enum BufferError {
    /// The buffered row count would not fit in a `usize`.
    RowCountOverflow,
    /// The buffered byte estimate would not fit in a `usize`.
    ByteCountOverflow,
}

/// The counts of a table's write buffer.
#[derive(Debug, Clone, Copy, PartialEq, Eq, Structural)]
pub struct BufferCounts {
    pub buffered_rows: usize,
    pub buffered_bytes: usize,
}

impl BufferCounts {
    /// An empty buffer.
    pub fn new() -> (r: Self)
        ensures
            r == (BufferCounts { buffered_rows: 0, buffered_bytes: 0 }),
    {
        BufferCounts { buffered_rows: 0, buffered_bytes: 0 }
    }

    /// Counts one more row of `row_bytes` estimated bytes; says whether the
    /// buffer is then due to be written. The counts are unchanged on error.
    pub fn append_row(&mut self, row_bytes: usize, options: SpoolOptions) -> (r: Result<bool, BufferError>)
        ensures
            match r {
                Ok(due) => {
                    &&& old(self).buffered_rows + 1 <= usize::MAX
                    &&& old(self).buffered_bytes + row_bytes <= usize::MAX
                    &&& final(self).buffered_rows == old(self).buffered_rows + 1
                    &&& final(self).buffered_bytes == old(self).buffered_bytes + row_bytes
                    &&& due == (final(self).buffered_rows >= options.max_buffered_rows
                        || final(self).buffered_bytes >= options.max_buffered_bytes)
                },
                Err(e) => {
                    &&& *final(self) == *old(self)
                    &&& e == (if old(self).buffered_rows + 1 > usize::MAX {
                        BufferError::RowCountOverflow
                    } else {
                        BufferError::ByteCountOverflow
                    })
                    &&& (old(self).buffered_rows + 1 > usize::MAX || old(self).buffered_bytes + row_bytes > usize::MAX)
                },
            },
    {
        if self.buffered_rows == usize::MAX {
            return Err(BufferError::RowCountOverflow);
        }
        if self.buffered_bytes > usize::MAX - row_bytes {
            return Err(BufferError::ByteCountOverflow);
        }
        self.buffered_rows = self.buffered_rows + 1;
        self.buffered_bytes = self.buffered_bytes + row_bytes;
        Ok(spool_limit_reached(self.buffered_rows, self.buffered_bytes, options))
    }

    /// After a flush the buffer is empty; an empty buffer has nothing to
    /// write.
    pub fn flush(&mut self) -> (wrote: bool)
        ensures
            wrote == (old(self).buffered_rows != 0),
            wrote ==> *final(self) == (BufferCounts { buffered_rows: 0, buffered_bytes: 0 }),
            !wrote ==> *final(self) == *old(self),
    {
        if self.buffered_rows == 0 {
            return false;
        }
        self.buffered_rows = 0;
        self.buffered_bytes = 0;
        true
    }
}

} // verus!
