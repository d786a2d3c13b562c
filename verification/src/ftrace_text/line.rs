//! The common fields of one text ftrace record line:
//! `<comm>-<tid> (<tgid>) [<cpu>] <flags> <seconds>.<fraction>: <event>: <payload>`.
use vstd::prelude::*;
use vstd::utf8::encode_utf8;
use crate::number::{parse_i32, parse_u32, parse_u64, spec_parse_i32, spec_parse_u32, spec_parse_u64};
use crate::text::{chars_of, eq_str, find, rfind, rsplit_once_whitespace, spec_find, spec_rfind, spec_rsplit_once_whitespace, spec_split_once, spec_trim, spec_trim_end, split_once, string_of, trim, trim_end};
use super::summary::{CompatibilityView, TextFtraceCompatibilityError};

verus! {

/// Why a record line could not be read.
#[derive(Debug)]
pub enum TextFtraceLineError {
    /// No `: ` separates the header from the event name.
    MissingEventName,
    /// No ` [` opens the CPU field before the event name.
    MissingCpuField,
    /// The CPU field is not closed by `] `.
    InvalidCpuField,
    /// The CPU field is not an unsigned 32-bit integer.
    InvalidCpu,
    /// The context flags and the clock value are not separated by whitespace.
    MissingClockValue,
    /// The context flags are empty.
    EmptyContextFlags,
    /// No `: ` separates the event name from the payload.
    MissingEventPayload,
    /// The event name or the payload is empty.
    EmptyEventNameOrPayload,
    /// The emitter does not end with a parenthesized thread group id.
    MissingTgid,
    /// The thread group id is neither `-------` nor a signed 32-bit integer.
    InvalidTgid,
    /// The emitter thread has no `-` before its id.
    MissingThreadId,
    /// The emitter thread name is empty.
    EmptyThreadName,
    /// The emitter thread id is not a signed 32-bit integer.
    InvalidThreadId,
    /// The whole seconds of the clock value are not an unsigned 64-bit integer.
    InvalidIntegralClock,
    /// The clock value has nonzero digits beyond nanoseconds.
    ExcessClockPrecision,
    /// The fraction of the clock value is not decimal digits.
    InvalidFractionalClock,
    /// The clock value in nanoseconds does not fit in 64 bits.
    ClockOverflow,
    /// A supported event has a payload of the wrong shape.
    Incompatible(TextFtraceCompatibilityError),
    /// A skipped event occurs more often than a 64-bit count holds.
    UnsupportedCountOverflow,
    /// The trace has more records than a 64-bit count holds.
    EventCountOverflow,
}

/// The content of a [`TextFtraceLineError`].
pub enum LineErrorView {
    MissingEventName,
    MissingCpuField,
    InvalidCpuField,
    InvalidCpu,
    MissingClockValue,
    EmptyContextFlags,
    MissingEventPayload,
    EmptyEventNameOrPayload,
    MissingTgid,
    InvalidTgid,
    MissingThreadId,
    EmptyThreadName,
    InvalidThreadId,
    InvalidIntegralClock,
    ExcessClockPrecision,
    InvalidFractionalClock,
    ClockOverflow,
    Incompatible(CompatibilityView),
    UnsupportedCountOverflow,
    EventCountOverflow,
}

impl View for TextFtraceLineError {
    type V = LineErrorView;

    open spec fn view(&self) -> LineErrorView {
        match self {
            TextFtraceLineError::MissingEventName => LineErrorView::MissingEventName,
            TextFtraceLineError::MissingCpuField => LineErrorView::MissingCpuField,
            TextFtraceLineError::InvalidCpuField => LineErrorView::InvalidCpuField,
            TextFtraceLineError::InvalidCpu => LineErrorView::InvalidCpu,
            TextFtraceLineError::MissingClockValue => LineErrorView::MissingClockValue,
            TextFtraceLineError::EmptyContextFlags => LineErrorView::EmptyContextFlags,
            TextFtraceLineError::MissingEventPayload => LineErrorView::MissingEventPayload,
            TextFtraceLineError::EmptyEventNameOrPayload => LineErrorView::EmptyEventNameOrPayload,
            TextFtraceLineError::MissingTgid => LineErrorView::MissingTgid,
            TextFtraceLineError::InvalidTgid => LineErrorView::InvalidTgid,
            TextFtraceLineError::MissingThreadId => LineErrorView::MissingThreadId,
            TextFtraceLineError::EmptyThreadName => LineErrorView::EmptyThreadName,
            TextFtraceLineError::InvalidThreadId => LineErrorView::InvalidThreadId,
            TextFtraceLineError::InvalidIntegralClock => LineErrorView::InvalidIntegralClock,
            TextFtraceLineError::ExcessClockPrecision => LineErrorView::ExcessClockPrecision,
            TextFtraceLineError::InvalidFractionalClock => LineErrorView::InvalidFractionalClock,
            TextFtraceLineError::ClockOverflow => LineErrorView::ClockOverflow,
            TextFtraceLineError::Incompatible(e) => LineErrorView::Incompatible(e@),
            TextFtraceLineError::UnsupportedCountOverflow => LineErrorView::UnsupportedCountOverflow,
            TextFtraceLineError::EventCountOverflow => LineErrorView::EventCountOverflow,
        }
    }
}

/// Name, thread id and thread group id of the thread that emitted a record.
pub type EmitterView = (Seq<char>, i32, Option<i32>);

/// The emitter field `<comm>-<tid> (<tgid>)`, where `<tgid>` may be `-------`.
pub open spec fn sp_emitter(v: Seq<char>) -> Result<EmitterView, LineErrorView> {
    if !(v.len() > 0 && v.last() == ')') {
        Err(LineErrorView::MissingTgid)
    } else {
        match spec_rfind(v, " ("@) {
            None => Err(LineErrorView::MissingTgid),
            Some(open) => {
                let raw = spec_trim(v.subrange(open + 2, v.len() - 1));
                let process: Result<Option<i32>, LineErrorView> = if raw == "-------"@ {
                    Ok(None)
                } else {
                    match spec_parse_i32(raw) {
                        Some(x) => Ok(Some(x)),
                        None => Err(LineErrorView::InvalidTgid),
                    }
                };
                match process {
                    Err(e) => Err(e),
                    Ok(process) => {
                        let thread = spec_trim_end(v.take(open));
                        match spec_rfind(thread, "-"@) {
                            None => Err(LineErrorView::MissingThreadId),
                            Some(split) => {
                                let name = spec_trim(thread.take(split));
                                if name.len() == 0 {
                                    Err(LineErrorView::EmptyThreadName)
                                } else {
                                    match spec_parse_i32(thread.skip(split + 1)) {
                                        None => Err(LineErrorView::InvalidThreadId),
                                        Some(tid) => Ok((name, tid, process)),
                                    }
                                }
                            },
                        }
                    },
                }
            },
        }
    }
}

pub fn parse_emitter(v: &[char]) -> (r: Result<(String, i32, Option<i32>), TextFtraceLineError>)
    ensures
        match r {
            Ok((name, tid, process)) => sp_emitter(v@) == Ok::<EmitterView, LineErrorView>(
                (name@, tid, process),
            ),
            Err(e) => sp_emitter(v@) == Err::<EmitterView, LineErrorView>(e@),
        },
{
    if !(v.len() > 0 && v[v.len() - 1] == ')') {
        return Err(TextFtraceLineError::MissingTgid);
    }
    let open_pat = chars_of(" (");
    let open = match rfind(v, open_pat.as_slice()) {
        Some(open) => open,
        None => return Err(TextFtraceLineError::MissingTgid),
    };
    proof {
        reveal_strlit(" (");
        assert(v@.subrange(open as int, open + 2) == " ("@);
        assert(v@.subrange(open as int, open + 2)[1] == v@[open + 1]);
        assert(v@[open + 1] == '(');
    }
    let raw = trim(&v[open + 2..v.len() - 1]);
    let process = if eq_str(raw, "-------") {
        None
    } else {
        match parse_i32(raw) {
            Some(x) => Some(x),
            None => return Err(TextFtraceLineError::InvalidTgid),
        }
    };
    let thread = trim_end(&v[0..open]);
    assert(v@.subrange(0, open as int) == v@.take(open as int));
    let dash = chars_of("-");
    let split = match rfind(thread, dash.as_slice()) {
        Some(split) => split,
        None => return Err(TextFtraceLineError::MissingThreadId),
    };
    proof {
        reveal_strlit("-");
    }
    let name = trim(&thread[0..split]);
    assert(thread@.subrange(0, split as int) == thread@.take(split as int));
    if name.len() == 0 {
        return Err(TextFtraceLineError::EmptyThreadName);
    }
    let tid_text = &thread[split + 1..thread.len()];
    assert(tid_text@ == thread@.skip(split + 1));
    match parse_i32(tid_text) {
        Some(tid) => Ok((string_of(name), tid, process)),
        None => Err(TextFtraceLineError::InvalidThreadId),
    }
}

/// Every byte is an ASCII decimal digit.
pub open spec fn ascii_digits(b: Seq<u8>) -> bool {
    forall|i: int| 0 <= i < b.len() ==> 48 <= #[trigger] b[i] <= 57
}

/// The decimal value of ASCII digit bytes.
pub open spec fn byte_digits_value(b: Seq<u8>) -> nat
    decreases b.len(),
{
    if b.len() == 0 {
        0
    } else {
        byte_digits_value(b.drop_last()) * 10 + (b.last() - 48) as nat
    }
}

/// The first nine fraction digits, padded with zeros to nine.
pub open spec fn nanosecond_digits(sig: Seq<u8>) -> Seq<u8> {
    sig + Seq::new((9 - sig.len()) as nat, |i: int| 48u8)
}

/// Some byte from index nine on is not the digit zero.
pub open spec fn excess_precision(fb: Seq<u8>) -> bool {
    fb.len() > 9 && exists|i: int| 9 <= i < fb.len() && fb[i] != 48
}

/// The clock value `<seconds>[.<fraction>]` in nanoseconds. The fraction
/// is read byte by byte in its UTF-8 encoding: digits beyond the ninth
/// must be zeros, and the first nine must be decimal digits.
pub open spec fn sp_clock_value(v: Seq<char>) -> Result<u64, LineErrorView> {
    let parts: (Seq<char>, Seq<char>) = match spec_split_once(v, "."@) {
        Some(p) => p,
        None => (v, Seq::empty()),
    };
    match spec_parse_u64(parts.0) {
        None => Err(LineErrorView::InvalidIntegralClock),
        Some(seconds) => {
            let fb = encode_utf8(parts.1);
            if excess_precision(fb) {
                Err(LineErrorView::ExcessClockPrecision)
            } else {
                let sig = if fb.len() > 9 {
                    fb.take(9)
                } else {
                    fb
                };
                if !ascii_digits(sig) {
                    Err(LineErrorView::InvalidFractionalClock)
                } else {
                    let total = seconds * 1_000_000_000 + byte_digits_value(nanosecond_digits(sig));
                    if total > u64::MAX {
                        Err(LineErrorView::ClockOverflow)
                    } else {
                        Ok(total as u64)
                    }
                }
            }
        },
    }
}

proof fn lemma_digits_bound(b: Seq<u8>)
    requires
        ascii_digits(b),
    ensures
        byte_digits_value(b) < vstd::arithmetic::power::pow(10, b.len()),
    decreases b.len(),
{
    vstd::arithmetic::power::lemma_pow_positive(10, b.len());
    if b.len() > 0 {
        let p = b.drop_last();
        assert(ascii_digits(p)) by {
            assert forall|i: int| 0 <= i < p.len() implies 48 <= #[trigger] p[i] <= 57 by {
                assert(p[i] == b[i]);
            }
        }
        lemma_digits_bound(p);
        vstd::arithmetic::power::lemma_pow_adds(10, p.len(), 1);
        vstd::arithmetic::power::lemma_pow1(10);
        let x = byte_digits_value(p);
        let q = vstd::arithmetic::power::pow(10, p.len());
        let d = (b.last() - 48) as nat;
        assert(48 <= b[b.len() - 1] <= 57);
        assert(x * 10 + d < q * 10) by (nonlinear_arith)
            requires
                x < q,
                d < 10,
        ;
    }
}

#[verifier::loop_isolation(false)]
pub fn parse_clock_value(v: &[char]) -> (r: Result<u64, TextFtraceLineError>)
    ensures
        match r {
            Ok(x) => sp_clock_value(v@) == Ok::<u64, LineErrorView>(x),
            Err(e) => sp_clock_value(v@) == Err::<u64, LineErrorView>(e@),
        },
{
    let dot = chars_of(".");
    let (seconds_text, fraction) = match split_once(v, dot.as_slice()) {
        Some(p) => p,
        None => (v, &v[0..0]),
    };
    assert(v@.subrange(0, 0) == Seq::<char>::empty());
    let seconds = match parse_u64(seconds_text) {
        Some(s) => s,
        None => return Err(TextFtraceLineError::InvalidIntegralClock),
    };
    let fraction_text = string_of(fraction);
    let fb = fraction_text.as_str().as_bytes();
    assert(fb@ == encode_utf8(fraction@));
    if fb.len() > 9 {
        let mut i: usize = 9;
        while i < fb.len()
            invariant
                9 <= i <= fb.len(),
                forall|k: int| 9 <= k < i ==> fb@[k] == 48,
            decreases fb.len() - i,
        {
            if fb[i] != 48u8 {
                assert(fb@[i as int] != 48);
                assert(excess_precision(fb@));
                return Err(TextFtraceLineError::ExcessClockPrecision);
            }
            i = i + 1;
        }
    }
    assert(!excess_precision(fb@));
    let sig_len: usize = if fb.len() > 9 {
        9
    } else {
        fb.len()
    };
    let ghost sig = if fb.len() > 9 {
        fb@.take(9)
    } else {
        fb@
    };
    assert(sig =~= fb@.take(sig_len as int));
    let mut nanos: u64 = 0;
    let mut j: usize = 0;
    let ghost padded = nanosecond_digits(sig);
    proof {
        vstd::arithmetic::power::lemma_pow0(10);
        assert(padded.take(0) =~= Seq::<u8>::empty());
    }
    while j < 9
        invariant
            !excess_precision(fb@),
            fb@ == encode_utf8(fraction@),
            j <= 9,
            sig_len <= 9,
            sig_len <= fb.len(),
            sig == fb@.take(sig_len as int),
            padded == nanosecond_digits(sig),
            padded.len() == 9,
            forall|k: int| 0 <= k < j ==> 48 <= #[trigger] padded[k] <= 57,
            nanos == byte_digits_value(padded.take(j as int)),
            nanos < vstd::arithmetic::power::pow(10, j as nat),
        decreases 9 - j,
    {
        let byte: u8 = if j < sig_len {
            fb[j]
        } else {
            48u8
        };
        assert(byte == padded[j as int]);
        if !(48u8 <= byte && byte <= 57u8) {
            assert(!ascii_digits(sig)) by {
                assert(sig[j as int] == byte);
            }
            return Err(TextFtraceLineError::InvalidFractionalClock);
        }
        let ghost prev = nanos;
        proof {
            vstd::arithmetic::power::lemma_pow_adds(10, j as nat, 1);
            vstd::arithmetic::power::lemma_pow1(10);
            let q = vstd::arithmetic::power::pow(10, j as nat);
            let d = (byte - 48) as nat;
            assert(prev * 10 + d < q * 10) by (nonlinear_arith)
                requires
                    prev < q,
                    d < 10,
            ;
            assert(padded.take(j + 1).drop_last() =~= padded.take(j as int));
            vstd::arithmetic::power::lemma_pow_increases(10, (j + 1) as nat, 9);
            assert(vstd::arithmetic::power::pow(10, 9) == 1_000_000_000) by {
                reveal_with_fuel(vstd::arithmetic::power::pow, 10);
            }
        }
        nanos = nanos * 10 + (byte - 48u8) as u64;
        j = j + 1;
    }
    assert(padded.take(9) =~= padded);
    assert(ascii_digits(sig)) by {
        assert forall|k: int| 0 <= k < sig.len() implies 48 <= #[trigger] sig[k] <= 57 by {
            assert(padded[k] == sig[k]);
        }
    }
    match seconds.checked_mul(1_000_000_000) {
        None => Err(TextFtraceLineError::ClockOverflow),
        Some(whole) => match whole.checked_add(nanos) {
            None => Err(TextFtraceLineError::ClockOverflow),
            Some(total) => Ok(total),
        },
    }
}

/// The common fields of a record line, its event name and its payload.
pub struct LineFieldsView {
    pub cpu: u32,
    pub comm: Seq<char>,
    pub pid: i32,
    pub tgid: Option<i32>,
    pub clock: u64,
    pub name: Seq<char>,
    pub payload: Seq<char>,
}

/// Splits a record line (already trimmed at its start) into its fields.
pub open spec fn sp_line_fields(line: Seq<char>) -> Result<LineFieldsView, LineErrorView> {
    match spec_find(line, ": "@) {
        None => Err(LineErrorView::MissingEventName),
        Some(header_end) => match spec_rfind(line.take(header_end), " ["@) {
            None => Err(LineErrorView::MissingCpuField),
            Some(bracket) => {
                let cpu_start = bracket + 1;
                match spec_find(line.skip(cpu_start), "] "@) {
                    None => Err(LineErrorView::InvalidCpuField),
                    Some(offset) => {
                        let cpu_end = offset + cpu_start;
                        let emitter = spec_trim_end(line.take(cpu_start));
                        match spec_parse_u32(line.subrange(cpu_start + 1, cpu_end)) {
                            None => Err(LineErrorView::InvalidCpu),
                            Some(cpu) => match spec_split_once(line.skip(cpu_end + 2), ": "@) {
                                None => Err(LineErrorView::MissingEventName),
                                Some((flags_and_time, event_and_payload)) => match spec_rsplit_once_whitespace(
                                    flags_and_time,
                                ) {
                                    None => Err(LineErrorView::MissingClockValue),
                                    Some((flags, seconds)) => if flags.len() == 0 {
                                        Err(LineErrorView::EmptyContextFlags)
                                    } else {
                                        match spec_split_once(event_and_payload, ": "@) {
                                            None => Err(LineErrorView::MissingEventPayload),
                                            Some((name, payload)) => if name.len() == 0
                                                || payload.len() == 0 {
                                                Err(LineErrorView::EmptyEventNameOrPayload)
                                            } else {
                                                match sp_emitter(emitter) {
                                                    Err(e) => Err(e),
                                                    Ok((comm, pid, tgid)) => match sp_clock_value(
                                                        seconds,
                                                    ) {
                                                        Err(e) => Err(e),
                                                        Ok(clock) => Ok(
                                                            LineFieldsView {
                                                                cpu,
                                                                comm,
                                                                pid,
                                                                tgid,
                                                                clock,
                                                                name,
                                                                payload,
                                                            },
                                                        ),
                                                    },
                                                }
                                            },
                                        }
                                    },
                                },
                            },
                        }
                    },
                }
            },
        },
    }
}

/// The fields of one record line; name and payload borrow from the line.
#[derive(Debug)]
pub struct LineFields<'a> {
    pub cpu: u32,
    pub comm: String,
    pub pid: i32,
    pub tgid: Option<i32>,
    pub clock: u64,
    pub name: &'a [char],
    pub payload: &'a [char],
}

impl<'a> View for LineFields<'a> {
    type V = LineFieldsView;

    open spec fn view(&self) -> LineFieldsView {
        LineFieldsView {
            cpu: self.cpu,
            comm: self.comm@,
            pid: self.pid,
            tgid: self.tgid,
            clock: self.clock,
            name: self.name@,
            payload: self.payload@,
        }
    }
}

pub fn parse_line_fields<'a>(line: &'a [char]) -> (r: Result<LineFields<'a>, TextFtraceLineError>)
    ensures
        match r {
            Ok(f) => sp_line_fields(line@) == Ok::<LineFieldsView, LineErrorView>(f@),
            Err(e) => sp_line_fields(line@) == Err::<LineFieldsView, LineErrorView>(e@),
        },
{
    let colon = chars_of(": ");
    let header_end = match find(line, colon.as_slice()) {
        Some(i) => i,
        None => return Err(TextFtraceLineError::MissingEventName),
    };
    let header = &line[0..header_end];
    assert(header@ == line@.take(header_end as int));
    let open = chars_of(" [");
    let bracket = match rfind(header, open.as_slice()) {
        Some(i) => i,
        None => return Err(TextFtraceLineError::MissingCpuField),
    };
    proof {
        reveal_strlit(" [");
        reveal_strlit("] ");
        assert(header@.subrange(bracket as int, bracket + 2) == " ["@);
        assert(header@.subrange(bracket as int, bracket + 2)[1] == line@[bracket + 1]);
    }
    let cpu_start = bracket + 1;
    let rest = &line[cpu_start..line.len()];
    assert(rest@ == line@.skip(cpu_start as int));
    let close = chars_of("] ");
    let offset = match find(rest, close.as_slice()) {
        Some(i) => i,
        None => return Err(TextFtraceLineError::InvalidCpuField),
    };
    proof {
        assert(rest@.subrange(offset as int, offset + 2) == "] "@);
        assert(rest@.subrange(offset as int, offset + 2)[0] == rest@[offset as int]);
        assert(rest@[0] == '[');
    }
    let cpu_end = offset + cpu_start;
    let emitter = trim_end(&line[0..cpu_start]);
    assert(line@.subrange(0, cpu_start as int) == line@.take(cpu_start as int));
    let cpu = match parse_u32(&line[cpu_start + 1..cpu_end]) {
        Some(c) => c,
        None => return Err(TextFtraceLineError::InvalidCpu),
    };
    let suffix = &line[cpu_end + 2..line.len()];
    assert(suffix@ == line@.skip(cpu_end + 2));
    let (flags_and_time, event_and_payload) = match split_once(suffix, colon.as_slice()) {
        Some(p) => p,
        None => return Err(TextFtraceLineError::MissingEventName),
    };
    let (flags, seconds) = match rsplit_once_whitespace(flags_and_time) {
        Some(p) => p,
        None => return Err(TextFtraceLineError::MissingClockValue),
    };
    if flags.len() == 0 {
        return Err(TextFtraceLineError::EmptyContextFlags);
    }
    let (name, payload) = match split_once(event_and_payload, colon.as_slice()) {
        Some(p) => p,
        None => return Err(TextFtraceLineError::MissingEventPayload),
    };
    if name.len() == 0 || payload.len() == 0 {
        return Err(TextFtraceLineError::EmptyEventNameOrPayload);
    }
    let (comm, pid, tgid) = match parse_emitter(emitter) {
        Ok(e) => e,
        Err(e) => return Err(e),
    };
    let clock = match parse_clock_value(seconds) {
        Ok(c) => c,
        Err(e) => return Err(e),
    };
    Ok(LineFields { cpu, comm, pid, tgid, clock, name, payload })
}

} // verus!
