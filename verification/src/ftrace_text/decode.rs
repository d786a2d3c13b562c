//! Decoding of a whole text trace: line framing, UTF-8, comments, and the
//! record lines in order.
use vstd::prelude::*;
use vstd::utf8::{decode_utf8, valid_utf8};
use crate::number::{decimal_chars, decimal_string};
use crate::text::{append, owned, chars_of, spec_trim, spec_trim_start, trim, trim_start, utf8_text};
use super::line::{LineErrorView, TextFtraceLineError};
use super::record::{CpuEvent, DecodeView, cpu_events_view, parse_line, sp_known_event, sp_parse_line};
use super::line::sp_line_fields;
use super::summary::{SummaryView, TextFtraceSummary, lemma_record_counts_one, total_count};

verus! {

/// Longest accepted line in bytes, its line feed included.
pub const MAX_LINE_BYTES: usize = 1048576;

/// Why a text trace could not be decoded.
#[derive(Debug)]
pub enum TextFtraceDecodeError {
    /// The trace has more lines than a 64-bit line number holds.
    LineNumberOverflow,
    /// The line is longer than [`MAX_LINE_BYTES`].
    LineTooLong { line: u64 },
    /// The line is not valid UTF-8.
    InvalidUtf8 { line: u64 },
    /// The record on the line could not be read.
    InvalidEvent { line: u64, error: TextFtraceLineError },
    /// The trace holds no event record.
    NoEvents,
}

/// The content of a [`TextFtraceDecodeError`].
pub enum DecodeErrorView {
    LineNumberOverflow,
    LineTooLong { line: u64 },
    InvalidUtf8 { line: u64 },
    InvalidEvent { line: u64, error: LineErrorView },
    NoEvents,
}

impl View for TextFtraceDecodeError {
    type V = DecodeErrorView;

    open spec fn view(&self) -> DecodeErrorView {
        match self {
            TextFtraceDecodeError::LineNumberOverflow => DecodeErrorView::LineNumberOverflow,
            TextFtraceDecodeError::LineTooLong { line } => DecodeErrorView::LineTooLong { line: *line },
            TextFtraceDecodeError::InvalidUtf8 { line } => DecodeErrorView::InvalidUtf8 { line: *line },
            TextFtraceDecodeError::InvalidEvent { line, error } => DecodeErrorView::InvalidEvent {
                line: *line,
                error: error@,
            },
            TextFtraceDecodeError::NoEvents => DecodeErrorView::NoEvents,
        }
    }
}

/// The text of a decode error, as the importer reports it.
pub open spec fn decode_error_message(e: DecodeErrorView) -> Seq<char> {
    match e {
        DecodeErrorView::LineNumberOverflow => "source line number overflows"@,
        DecodeErrorView::LineTooLong { line } => "line "@ + decimal_chars(line as nat) + " exceeds the "@
            + decimal_chars(MAX_LINE_BYTES as nat) + "-byte limit"@,
        DecodeErrorView::InvalidUtf8 { line } => "line "@ + decimal_chars(line as nat) + " is not valid UTF-8"@,
        DecodeErrorView::InvalidEvent { line, .. } => "invalid ftrace event at line "@ + decimal_chars(line as nat),
        DecodeErrorView::NoEvents => "text ftrace contains no event records"@,
    }
}

impl TextFtraceDecodeError {
    /// The error as text; for an event that could not be read, the line it
    /// stands on (the reason is carried by the error itself).
    pub fn message(&self) -> (r: String)
        ensures
            r@ == decode_error_message(self@),
    {
        match self {
            TextFtraceDecodeError::LineNumberOverflow => owned("source line number overflows"),
            TextFtraceDecodeError::LineTooLong { line } => {
                let mut m = owned("line ");
                let n = decimal_string(*line);
                append(&mut m, n.as_str());
                append(&mut m, " exceeds the ");
                let limit = decimal_string(MAX_LINE_BYTES as u64);
                append(&mut m, limit.as_str());
                append(&mut m, "-byte limit");
                m
            },
            TextFtraceDecodeError::InvalidUtf8 { line } => {
                let mut m = owned("line ");
                let n = decimal_string(*line);
                append(&mut m, n.as_str());
                append(&mut m, " is not valid UTF-8");
                m
            },
            TextFtraceDecodeError::InvalidEvent { line, .. } => {
                let mut m = owned("invalid ftrace event at line ");
                let n = decimal_string(*line);
                append(&mut m, n.as_str());
                m
            },
            TextFtraceDecodeError::NoEvents => owned("text ftrace contains no event records"),
        }
    }
}

/// The index just past the line that starts at `pos`: past its line feed,
/// or the end of the input.
pub open spec fn line_end(input: Seq<u8>, pos: int) -> int
    decreases input.len() - pos,
{
    if pos >= input.len() {
        input.len() as int
    } else if input[pos] == 10 {
        pos + 1
    } else {
        line_end(input, pos + 1)
    }
}

pub proof fn lemma_line_end(input: Seq<u8>, pos: int)
    requires
        0 <= pos < input.len(),
    ensures
        pos < line_end(input, pos) <= input.len(),
        forall|k: int| pos <= k < line_end(input, pos) - 1 ==> input[k] != 10,
        line_end(input, pos) < input.len() ==> input[line_end(input, pos) - 1] == 10,
    decreases input.len() - pos,
{
    reveal_with_fuel(line_end, 2);
    if input[pos] != 10 && pos + 1 < input.len() {
        lemma_line_end(input, pos + 1);
    }
}

/// A raw line without its line feed and then without a carriage return.
pub open spec fn line_content(raw: Seq<u8>) -> Seq<u8> {
    let a = if raw.len() > 0 && raw.last() == 10 {
        raw.drop_last()
    } else {
        raw
    };
    if a.len() > 0 && a.last() == 13 {
        a.drop_last()
    } else {
        a
    }
}

/// Blank lines and `#` comment lines carry no record.
pub open spec fn is_skipped(text: Seq<char>) -> bool {
    spec_trim(text).len() == 0 || (spec_trim_start(text).len() > 0 && spec_trim_start(text)[0]
        == '#')
}

/// The state after all lines from `pos` on, the previous line being number
/// `line`.
pub open spec fn sp_decode_from(input: Seq<u8>, pos: int, line: u64, st: DecodeView) -> Result<
    DecodeView,
    DecodeErrorView,
>
    decreases input.len() - pos,
{
    if line == u64::MAX {
        Err(DecodeErrorView::LineNumberOverflow)
    } else if pos < 0 || pos >= input.len() {
        if st.summary.seen_events == 0 {
            Err(DecodeErrorView::NoEvents)
        } else {
            Ok(st)
        }
    } else {
        let end = line_end(input, pos);
        let n = (line + 1) as u64;
        proof {
            lemma_line_end(input, pos);
        }
        if end - pos > MAX_LINE_BYTES {
            Err(DecodeErrorView::LineTooLong { line: n })
        } else {
            let content = line_content(input.subrange(pos, end));
            if !valid_utf8(content) {
                Err(DecodeErrorView::InvalidUtf8 { line: n })
            } else {
                let text = decode_utf8(content);
                if is_skipped(text) {
                    sp_decode_from(input, end, n, st)
                } else {
                    match sp_parse_line(spec_trim_start(text), n, st) {
                        Err(e) => Err(DecodeErrorView::InvalidEvent { line: n, error: e }),
                        Ok(next) => sp_decode_from(input, end, n, next),
                    }
                }
            }
        }
    }
}

/// Nothing decoded yet.
pub open spec fn initial_decode() -> DecodeView {
    DecodeView {
        events: Seq::empty(),
        summary: SummaryView { unsupported: Seq::empty(), seen_events: 0 },
    }
}

/// The decoded events, with their CPUs, and the summary of a text trace.
pub open spec fn sp_decode(input: Seq<u8>) -> Result<DecodeView, DecodeErrorView> {
    sp_decode_from(input, 0, 0, initial_decode())
}

fn find_line_end(input: &[u8], pos: usize) -> (end: usize)
    requires
        pos < input.len(),
    ensures
        end == line_end(input@, pos as int),
{
    let mut i: usize = pos;
    while i < input.len() && input[i] != 10u8
        invariant
            pos <= i <= input.len(),
            line_end(input@, pos as int) == line_end(input@, i as int),
        decreases input.len() - i,
    {
        i = i + 1;
    }
    if i < input.len() {
        i + 1
    } else {
        i
    }
}

/// Decodes a whole text trace: each line up to its line feed, without a
/// trailing carriage return, must be UTF-8; blank and `#` lines are
/// skipped; every other line, trimmed at its start, is a record. Records
/// of supported events give events, in order; the others are counted by
/// name. A trace without records is an error.
pub fn decode_reader(input: &[u8]) -> (r: Result<(Vec<CpuEvent>, TextFtraceSummary), TextFtraceDecodeError>)
    ensures
        match r {
            Ok((events, summary)) => summary.wf() && sp_decode(input@) == Ok::<
                DecodeView,
                DecodeErrorView,
            >(DecodeView { events: cpu_events_view(events@), summary: summary@ }),
            Err(e) => sp_decode(input@) == Err::<DecodeView, DecodeErrorView>(e@),
        },
{
    let mut events: Vec<CpuEvent> = Vec::new();
    let mut summary = TextFtraceSummary::new();
    let mut pos: usize = 0;
    let mut line: u64 = 0;
    assert(cpu_events_view(events@) =~= Seq::<(u32, super::event::FtraceEventView)>::empty());
    loop
        invariant
            pos <= input.len(),
            summary.wf(),
            sp_decode_from(
                input@,
                pos as int,
                line,
                DecodeView { events: cpu_events_view(events@), summary: summary@ },
            ) == sp_decode(input@),
        decreases input.len() - pos,
    {
        if line == u64::MAX {
            return Err(TextFtraceDecodeError::LineNumberOverflow);
        }
        if pos == input.len() {
            if summary.seen_events() == 0 {
                return Err(TextFtraceDecodeError::NoEvents);
            }
            return Ok((events, summary));
        }
        let end = find_line_end(input, pos);
        proof {
            lemma_line_end(input@, pos as int);
        }
        let n = line + 1;
        if end - pos > MAX_LINE_BYTES {
            return Err(TextFtraceDecodeError::LineTooLong { line: n });
        }
        let mut stop = end;
        let ghost r = input@.subrange(pos as int, end as int);
        let ghost mut cur = r;
        if stop > pos && input[stop - 1] == 10u8 {
            stop = stop - 1;
            proof {
                cur = cur.drop_last();
            }
        }
        assert(cur =~= input@.subrange(pos as int, stop as int));
        if stop > pos && input[stop - 1] == 13u8 {
            stop = stop - 1;
            proof {
                cur = cur.drop_last();
            }
        }
        assert(cur =~= input@.subrange(pos as int, stop as int));
        let raw = &input[pos..stop];
        assert(raw@ =~= line_content(r));
        let text = match utf8_text(raw) {
            Some(t) => t,
            None => return Err(TextFtraceDecodeError::InvalidUtf8 { line: n }),
        };
        let chars = chars_of(text.as_str());
        let trimmed = trim(chars.as_slice());
        let start = trim_start(chars.as_slice());
        if trimmed.len() == 0 || (start.len() > 0 && start[0] == '#') {
            pos = end;
            line = n;
        } else {
            match parse_line(start, n, &mut events, &mut summary) {
                Err(e) => return Err(TextFtraceDecodeError::InvalidEvent { line: n, error: e }),
                Ok(()) => {},
            }
            pos = end;
            line = n;
        }
    }
}

/// Every record is accounted for: each one counted is either a decoded
/// event or an occurrence of a skipped event.
pub open spec fn accounts_for_records(v: DecodeView) -> bool {
    v.summary.seen_events == v.events.len() + total_count(v.summary.unsupported)
}

proof fn lemma_parse_line_accounts(line: Seq<char>, n: u64, st: DecodeView)
    requires
        accounts_for_records(st),
    ensures
        sp_parse_line(line, n, st) matches Ok(next) ==> accounts_for_records(next),
{
    reveal(sp_parse_line);
    match sp_line_fields(line) {
        Err(_) => {},
        Ok(f) => match sp_known_event(f.name, f.payload) {
            Some(_) => {},
            None => {
                lemma_record_counts_one(st.summary.unsupported, f.name, n);
            },
        },
    }
}

proof fn lemma_decode_from_accounts(input: Seq<u8>, pos: int, line: u64, st: DecodeView)
    requires
        accounts_for_records(st),
    ensures
        sp_decode_from(input, pos, line, st) matches Ok(v) ==> accounts_for_records(v),
    decreases input.len() - pos,
{
    if line != u64::MAX && 0 <= pos < input.len() {
        let end = line_end(input, pos);
        let n = (line + 1) as u64;
        lemma_line_end(input, pos);
        if end - pos <= MAX_LINE_BYTES {
            let content = line_content(input.subrange(pos, end));
            if valid_utf8(content) {
                let text = decode_utf8(content);
                if is_skipped(text) {
                    lemma_decode_from_accounts(input, end, n, st);
                } else {
                    lemma_parse_line_accounts(spec_trim_start(text), n, st);
                    match sp_parse_line(spec_trim_start(text), n, st) {
                        Err(_) => {},
                        Ok(next) => lemma_decode_from_accounts(input, end, n, next),
                    }
                }
            }
        }
    }
}

/// Decoding loses no record: the number of records counted is the number
/// of decoded events plus the occurrences of skipped events.
pub proof fn lemma_decode_accounts_for_every_record(input: Seq<u8>)
    ensures
        sp_decode(input) matches Ok(v) ==> accounts_for_records(v),
{
    assert(total_count(Seq::<super::summary::UnsupportedView>::empty()) == 0);
    lemma_decode_from_accounts(input, 0, 0, initial_decode());
}

} // verus!
