//! Validation of the ftrace evidence in a Hitrace capture: stats snapshots,
//! clock snapshots, and per-CPU sched_switch continuity.
use vstd::prelude::*;
use crate::sorted::{add_u32, insert_u32, sorted_u32};
use crate::text::{append, chars_of, debug_quoted, debug_string, owned, push_char, spec_trim};
use crate::number::{decimal_chars, decimal_string, signed_decimal_chars, signed_decimal_string};
use super::clocks::{
    ReportedClocks, SnapshotClock, TraceClock, normalize_trace_clock, snapshot_clock_domain,
    spec_snapshot_clock, sp_trace_clock,
};

verus! {

/// Loss counters of one CPU in a stats snapshot.
#[derive(Debug, Clone, Copy)]
pub struct PerCpuStats {
    pub cpu: u64,
    pub overrun: u64,
    pub commit_overrun: u64,
    pub dropped_events: u64,
}

/// A stats snapshot: `status` 0 at trace start, 1 at trace end.
#[derive(Debug)]
pub struct CpuStats {
    pub status: i32,
    pub per_cpu: Vec<PerCpuStats>,
    pub trace_clock: String,
}

/// One clock of a clock snapshot; `time` is seconds and nanoseconds.
#[derive(Debug, Clone, Copy)]
pub struct ClockDetail {
    pub id: i32,
    pub time: Option<(u32, u32)>,
}

/// A context switch recorded by ftrace.
#[derive(Debug)]
pub struct SchedSwitch {
    pub prev_comm: String,
    pub prev_pid: i32,
    pub next_comm: String,
    pub next_pid: i32,
}

/// An ftrace event; only context switches are read.
#[derive(Debug)]
pub struct CpuEventRecord {
    pub timestamp: u64,
    pub switch: Option<SchedSwitch>,
}

/// The events of one CPU.
#[derive(Debug)]
pub struct CpuDetail {
    pub cpu: u32,
    pub events: Vec<CpuEventRecord>,
    pub overwrite: u64,
}

/// The content of one ftrace-plugin result.
#[derive(Debug)]
pub struct FtraceResult {
    pub stats: Vec<CpuStats>,
    pub details: Vec<CpuDetail>,
    pub clocks: Vec<ClockDetail>,
}

/// The last context switch seen on a CPU.
#[derive(Debug, Clone, Copy, PartialEq, Eq, Structural)]
pub struct SwitchState {
    pub cpu: u32,
    pub clock: u64,
    pub next_thread: i32,
    pub sequence: u64,
}

/// One clock value of a clock snapshot.
#[derive(Debug, Clone, Copy, PartialEq, Eq, Structural)]
pub struct SnapshotRow {
    pub snapshot_id: u64,
    pub clock: SnapshotClock,
    pub clock_value: u64,
}

/// A validated context switch, numbered per CPU from zero.
#[derive(Debug)]
pub struct SwitchRow {
    pub clock_value: u64,
    pub cpu: u32,
    pub sequence: u64,
    pub previous_thread_id: i32,
    pub previous_thread_name: String,
    pub next_thread_id: i32,
    pub next_thread_name: String,
}

/// The content of a [`SwitchRow`].
pub struct SwitchRowView {
    pub clock_value: u64,
    pub cpu: u32,
    pub sequence: u64,
    pub previous_thread_id: i32,
    pub previous_thread_name: Seq<char>,
    pub next_thread_id: i32,
    pub next_thread_name: Seq<char>,
}

impl View for SwitchRow {
    type V = SwitchRowView;

    open spec fn view(&self) -> SwitchRowView {
        SwitchRowView {
            clock_value: self.clock_value,
            cpu: self.cpu,
            sequence: self.sequence,
            previous_thread_id: self.previous_thread_id,
            previous_thread_name: self.previous_thread_name@,
            next_thread_id: self.next_thread_id,
            next_thread_name: self.next_thread_name@,
        }
    }
}

pub open spec fn rows_view(v: Seq<SwitchRow>) -> Seq<SwitchRowView> {
    v.map_values(|r: SwitchRow| r@)
}

/// Why the ftrace evidence is rejected.
#[derive(Debug)]
pub enum HitraceError {
    UnsupportedTraceClock { clock: String },
    MissingTraceClock,
    ConflictingTraceClocks { clocks: Vec<TraceClock> },
    DuplicateEndStats,
    InvalidStatsStatus { status: i32 },
    DuplicateEndCpu { cpu: u32 },
    MissingEndStats,
    IncompleteEndStats { cpu: u32 },
    CpuOutOfRange { cpu: u64 },
    LostEvents { cpu: u32, overrun: u64, commit_overrun: u64, dropped_events: u64 },
    PageOverwrite { cpu: u32, overwrite: u64 },
    ClockWentBackwards { cpu: u32, previous: u64, current: u64 },
    BrokenThreadContinuity { cpu: u32, expected_previous_thread_id: i32, actual_previous_thread_id: i32 },
    SequenceOverflow { cpu: u32 },
    SwitchCountOverflow,
    SnapshotIdOverflow,
    UnsupportedSnapshotClock { id: i32 },
    DuplicateSnapshotClock { snapshot_id: u64, clock: SnapshotClock },
    MissingSnapshotTime { snapshot_id: u64, clock: SnapshotClock },
    InvalidNanoseconds { snapshot_id: u64, clock: SnapshotClock, nanoseconds: u32 },
    SnapshotClockOverflow { snapshot_id: u64, clock: SnapshotClock },
    DetailSequenceOverflow,
}

/// The content of a [`HitraceError`].
pub enum HitraceErrorView {
    UnsupportedTraceClock { clock: Seq<char> },
    MissingTraceClock,
    ConflictingTraceClocks { clocks: Seq<TraceClock> },
    DuplicateEndStats,
    InvalidStatsStatus { status: i32 },
    DuplicateEndCpu { cpu: u32 },
    MissingEndStats,
    IncompleteEndStats { cpu: u32 },
    CpuOutOfRange { cpu: u64 },
    LostEvents { cpu: u32, overrun: u64, commit_overrun: u64, dropped_events: u64 },
    PageOverwrite { cpu: u32, overwrite: u64 },
    ClockWentBackwards { cpu: u32, previous: u64, current: u64 },
    BrokenThreadContinuity { cpu: u32, expected_previous_thread_id: i32, actual_previous_thread_id: i32 },
    SequenceOverflow { cpu: u32 },
    SwitchCountOverflow,
    SnapshotIdOverflow,
    UnsupportedSnapshotClock { id: i32 },
    DuplicateSnapshotClock { snapshot_id: u64, clock: SnapshotClock },
    MissingSnapshotTime { snapshot_id: u64, clock: SnapshotClock },
    InvalidNanoseconds { snapshot_id: u64, clock: SnapshotClock, nanoseconds: u32 },
    SnapshotClockOverflow { snapshot_id: u64, clock: SnapshotClock },
    DetailSequenceOverflow,
}

impl View for HitraceError {
    type V = HitraceErrorView;

    open spec fn view(&self) -> HitraceErrorView {
        match self {
            HitraceError::UnsupportedTraceClock { clock } => HitraceErrorView::UnsupportedTraceClock { clock: clock@ },
            HitraceError::MissingTraceClock => HitraceErrorView::MissingTraceClock,
            HitraceError::ConflictingTraceClocks { clocks } => HitraceErrorView::ConflictingTraceClocks { clocks: clocks@ },
            HitraceError::DuplicateEndStats => HitraceErrorView::DuplicateEndStats,
            HitraceError::InvalidStatsStatus { status } => HitraceErrorView::InvalidStatsStatus { status: *status },
            HitraceError::DuplicateEndCpu { cpu } => HitraceErrorView::DuplicateEndCpu { cpu: *cpu },
            HitraceError::MissingEndStats => HitraceErrorView::MissingEndStats,
            HitraceError::IncompleteEndStats { cpu } => HitraceErrorView::IncompleteEndStats { cpu: *cpu },
            HitraceError::CpuOutOfRange { cpu } => HitraceErrorView::CpuOutOfRange { cpu: *cpu },
            HitraceError::LostEvents { cpu, overrun, commit_overrun, dropped_events } => HitraceErrorView::LostEvents {
                cpu: *cpu,
                overrun: *overrun,
                commit_overrun: *commit_overrun,
                dropped_events: *dropped_events,
            },
            HitraceError::PageOverwrite { cpu, overwrite } => HitraceErrorView::PageOverwrite { cpu: *cpu, overwrite: *overwrite },
            HitraceError::ClockWentBackwards { cpu, previous, current } => HitraceErrorView::ClockWentBackwards {
                cpu: *cpu,
                previous: *previous,
                current: *current,
            },
            HitraceError::BrokenThreadContinuity { cpu, expected_previous_thread_id, actual_previous_thread_id } => HitraceErrorView::BrokenThreadContinuity {
                cpu: *cpu,
                expected_previous_thread_id: *expected_previous_thread_id,
                actual_previous_thread_id: *actual_previous_thread_id,
            },
            HitraceError::SequenceOverflow { cpu } => HitraceErrorView::SequenceOverflow { cpu: *cpu },
            HitraceError::SwitchCountOverflow => HitraceErrorView::SwitchCountOverflow,
            HitraceError::SnapshotIdOverflow => HitraceErrorView::SnapshotIdOverflow,
            HitraceError::UnsupportedSnapshotClock { id } => HitraceErrorView::UnsupportedSnapshotClock { id: *id },
            HitraceError::DuplicateSnapshotClock { snapshot_id, clock } => HitraceErrorView::DuplicateSnapshotClock {
                snapshot_id: *snapshot_id,
                clock: *clock,
            },
            HitraceError::MissingSnapshotTime { snapshot_id, clock } => HitraceErrorView::MissingSnapshotTime {
                snapshot_id: *snapshot_id,
                clock: *clock,
            },
            HitraceError::InvalidNanoseconds { snapshot_id, clock, nanoseconds } => HitraceErrorView::InvalidNanoseconds {
                snapshot_id: *snapshot_id,
                clock: *clock,
                nanoseconds: *nanoseconds,
            },
            HitraceError::SnapshotClockOverflow { snapshot_id, clock } => HitraceErrorView::SnapshotClockOverflow {
                snapshot_id: *snapshot_id,
                clock: *clock,
            },
            HitraceError::DetailSequenceOverflow => HitraceErrorView::DetailSequenceOverflow,
        }
    }
}

/// A name as `{:?}` shows a plain ASCII name: in double quotes.
pub open spec fn quoted_name(name: Seq<char>) -> Seq<char> {
    seq!['"'] + name + seq!['"']
}

/// Trace clock names as `{:?}` shows a list of them: quoted, separated by
/// `, `, in brackets.
pub open spec fn clock_list_text(clocks: Seq<TraceClock>) -> Seq<char> {
    seq!['['] + clock_items_text(clocks) + seq![']']
}

pub open spec fn clock_items_text(clocks: Seq<TraceClock>) -> Seq<char>
    decreases clocks.len(),
{
    if clocks.len() == 0 {
        Seq::empty()
    } else if clocks.len() == 1 {
        quoted_name(clocks[0].spec_name())
    } else {
        clock_items_text(clocks.drop_last()) + ", "@ + quoted_name(clocks.last().spec_name())
    }
}

/// The text of an evidence error, as the importer reports it.
pub open spec fn error_message(e: HitraceErrorView) -> Seq<char> {
    match e {
        HitraceErrorView::UnsupportedTraceClock { clock } => "unsupported ftrace trace_clock "@ + debug_quoted(clock),
        HitraceErrorView::MissingTraceClock => "sched_switch events have no FtraceCpuStatsMsg.trace_clock evidence"@,
        HitraceErrorView::ConflictingTraceClocks { clocks } => "ftrace reports conflicting trace clocks: "@
            + clock_list_text(clocks),
        HitraceErrorView::DuplicateEndStats => "ftrace capture has more than one TRACE_END snapshot"@,
        HitraceErrorView::InvalidStatsStatus { status } => "invalid FtraceCpuStatsMsg status "@ + signed_decimal_chars(
            status as int,
        ),
        HitraceErrorView::DuplicateEndCpu { cpu } => "ftrace TRACE_END snapshot repeats CPU "@ + decimal_chars(cpu as nat),
        HitraceErrorView::MissingEndStats => "ftrace capture has sched_switch events but no TRACE_END snapshot"@,
        HitraceErrorView::IncompleteEndStats { cpu } => "ftrace TRACE_END snapshot does not cover event CPU "@
            + decimal_chars(cpu as nat),
        HitraceErrorView::CpuOutOfRange { cpu } => "ftrace CPU id "@ + decimal_chars(cpu as nat)
            + " cannot be represented as UInt32"@,
        HitraceErrorView::LostEvents { cpu, overrun, commit_overrun, dropped_events } => "ftrace capture lost events on CPU "@
            + decimal_chars(cpu as nat) + ": overrun="@ + decimal_chars(overrun as nat) + ", commit_overrun="@
            + decimal_chars(commit_overrun as nat) + ", dropped_events="@ + decimal_chars(dropped_events as nat),
        HitraceErrorView::PageOverwrite { cpu, overwrite } => "ftrace page overwrite is nonzero on CPU "@ + decimal_chars(
            cpu as nat,
        ) + ": "@ + decimal_chars(overwrite as nat),
        HitraceErrorView::ClockWentBackwards { cpu, previous, current } => "sched_switch clock went backwards on CPU "@
            + decimal_chars(cpu as nat) + ": "@ + decimal_chars(previous as nat) + " then "@ + decimal_chars(current as nat),
        HitraceErrorView::BrokenThreadContinuity { cpu, expected_previous_thread_id, actual_previous_thread_id } =>
            "sched_switch thread continuity is broken on CPU "@ + decimal_chars(cpu as nat)
            + ": expected previous_thread_id "@ + signed_decimal_chars(expected_previous_thread_id as int) + ", got "@
            + signed_decimal_chars(actual_previous_thread_id as int),
        HitraceErrorView::SequenceOverflow { cpu } => "sched_switch sequence overflow on CPU "@ + decimal_chars(cpu as nat),
        HitraceErrorView::SwitchCountOverflow => "sched_switch count overflow"@,
        HitraceErrorView::SnapshotIdOverflow => "clock snapshot id overflow"@,
        HitraceErrorView::UnsupportedSnapshotClock { id } => "unsupported clock snapshot id "@ + signed_decimal_chars(
            id as int,
        ),
        HitraceErrorView::DuplicateSnapshotClock { snapshot_id, clock } => "clock snapshot "@ + decimal_chars(
            snapshot_id as nat,
        ) + " repeats domain "@ + quoted_name(clock.spec_name()),
        HitraceErrorView::MissingSnapshotTime { snapshot_id, clock } => "clock snapshot "@ + decimal_chars(
            snapshot_id as nat,
        ) + " has no time for domain "@ + quoted_name(clock.spec_name()),
        HitraceErrorView::InvalidNanoseconds { snapshot_id, clock, nanoseconds } => "clock snapshot "@ + decimal_chars(
            snapshot_id as nat,
        ) + " has invalid nanoseconds "@ + decimal_chars(nanoseconds as nat) + " for domain "@ + quoted_name(
            clock.spec_name(),
        ),
        HitraceErrorView::SnapshotClockOverflow { snapshot_id, clock } => "clock snapshot "@ + decimal_chars(
            snapshot_id as nat,
        ) + " overflows UInt64 for domain "@ + quoted_name(clock.spec_name()),
        HitraceErrorView::DetailSequenceOverflow => "Hitrace CPU detail sequence overflows"@,
    }
}

fn push_quoted(m: &mut String, name: &str)
    ensures
        final(m)@ == old(m)@ + quoted_name(name@),
{
    push_char(m, '"');
    append(m, name);
    push_char(m, '"');
    assert(final(m)@ =~= old(m)@ + quoted_name(name@));
}

fn push_dec(m: &mut String, n: u64)
    ensures
        final(m)@ == old(m)@ + decimal_chars(n as nat),
{
    let d = decimal_string(n);
    append(m, d.as_str());
}

fn push_signed(m: &mut String, n: i64)
    ensures
        final(m)@ == old(m)@ + signed_decimal_chars(n as int),
{
    let d = signed_decimal_string(n);
    append(m, d.as_str());
}

fn push_clock_list(m: &mut String, clocks: &Vec<TraceClock>)
    ensures
        final(m)@ == old(m)@ + clock_list_text(clocks@),
{
    push_char(m, '[');
    let ghost start = m@;
    let mut i: usize = 0;
    while i < clocks.len()
        invariant
            0 <= i <= clocks.len(),
            m@ == start + clock_items_text(clocks@.take(i as int)),
        decreases clocks.len() - i,
    {
        let ghost before = m@;
        if i > 0 {
            append(m, ", ");
        }
        push_quoted(m, clocks[i].name());
        proof {
            let t = clocks@.take(i + 1);
            assert(t.drop_last() =~= clocks@.take(i as int));
            assert(t.last() == clocks@[i as int]);
            if i > 0 {
                assert(m@ =~= start + clock_items_text(t));
            } else {
                assert(clocks@.take(0) =~= Seq::<TraceClock>::empty());
                assert(m@ =~= start + clock_items_text(t));
            }
        }
        i = i + 1;
    }
    assert(clocks@.take(clocks.len() as int) =~= clocks@);
    push_char(m, ']');
    assert(final(m)@ =~= old(m)@ + clock_list_text(clocks@));
}

impl HitraceError {
    /// The error as text, as the importer reports it.
    pub fn message(&self) -> (r: String)
        ensures
            r@ == error_message(self@),
    {
        match self {
            HitraceError::UnsupportedTraceClock { clock } => {
                let mut m = owned("unsupported ftrace trace_clock ");
                let q = debug_string(chars_of(clock.as_str()).as_slice());
                append(&mut m, q.as_str());
                m
            },
            HitraceError::MissingTraceClock => owned("sched_switch events have no FtraceCpuStatsMsg.trace_clock evidence"),
            HitraceError::ConflictingTraceClocks { clocks } => {
                let mut m = owned("ftrace reports conflicting trace clocks: ");
                push_clock_list(&mut m, clocks);
                m
            },
            HitraceError::DuplicateEndStats => owned("ftrace capture has more than one TRACE_END snapshot"),
            HitraceError::InvalidStatsStatus { status } => {
                let mut m = owned("invalid FtraceCpuStatsMsg status ");
                push_signed(&mut m, *status as i64);
                m
            },
            HitraceError::DuplicateEndCpu { cpu } => {
                let mut m = owned("ftrace TRACE_END snapshot repeats CPU ");
                push_dec(&mut m, *cpu as u64);
                m
            },
            HitraceError::MissingEndStats => owned("ftrace capture has sched_switch events but no TRACE_END snapshot"),
            HitraceError::IncompleteEndStats { cpu } => {
                let mut m = owned("ftrace TRACE_END snapshot does not cover event CPU ");
                push_dec(&mut m, *cpu as u64);
                m
            },
            HitraceError::CpuOutOfRange { cpu } => {
                let mut m = owned("ftrace CPU id ");
                push_dec(&mut m, *cpu);
                append(&mut m, " cannot be represented as UInt32");
                m
            },
            HitraceError::LostEvents { cpu, overrun, commit_overrun, dropped_events } => {
                let mut m = owned("ftrace capture lost events on CPU ");
                push_dec(&mut m, *cpu as u64);
                append(&mut m, ": overrun=");
                push_dec(&mut m, *overrun);
                append(&mut m, ", commit_overrun=");
                push_dec(&mut m, *commit_overrun);
                append(&mut m, ", dropped_events=");
                push_dec(&mut m, *dropped_events);
                m
            },
            HitraceError::PageOverwrite { cpu, overwrite } => {
                let mut m = owned("ftrace page overwrite is nonzero on CPU ");
                push_dec(&mut m, *cpu as u64);
                append(&mut m, ": ");
                push_dec(&mut m, *overwrite);
                m
            },
            HitraceError::ClockWentBackwards { cpu, previous, current } => {
                let mut m = owned("sched_switch clock went backwards on CPU ");
                push_dec(&mut m, *cpu as u64);
                append(&mut m, ": ");
                push_dec(&mut m, *previous);
                append(&mut m, " then ");
                push_dec(&mut m, *current);
                m
            },
            HitraceError::BrokenThreadContinuity { cpu, expected_previous_thread_id, actual_previous_thread_id } => {
                let mut m = owned("sched_switch thread continuity is broken on CPU ");
                push_dec(&mut m, *cpu as u64);
                append(&mut m, ": expected previous_thread_id ");
                push_signed(&mut m, *expected_previous_thread_id as i64);
                append(&mut m, ", got ");
                push_signed(&mut m, *actual_previous_thread_id as i64);
                m
            },
            HitraceError::SequenceOverflow { cpu } => {
                let mut m = owned("sched_switch sequence overflow on CPU ");
                push_dec(&mut m, *cpu as u64);
                m
            },
            HitraceError::SwitchCountOverflow => owned("sched_switch count overflow"),
            HitraceError::SnapshotIdOverflow => owned("clock snapshot id overflow"),
            HitraceError::UnsupportedSnapshotClock { id } => {
                let mut m = owned("unsupported clock snapshot id ");
                push_signed(&mut m, *id as i64);
                m
            },
            HitraceError::DuplicateSnapshotClock { snapshot_id, clock } => {
                let mut m = owned("clock snapshot ");
                push_dec(&mut m, *snapshot_id);
                append(&mut m, " repeats domain ");
                push_quoted(&mut m, clock.name());
                m
            },
            HitraceError::MissingSnapshotTime { snapshot_id, clock } => {
                let mut m = owned("clock snapshot ");
                push_dec(&mut m, *snapshot_id);
                append(&mut m, " has no time for domain ");
                push_quoted(&mut m, clock.name());
                m
            },
            HitraceError::InvalidNanoseconds { snapshot_id, clock, nanoseconds } => {
                let mut m = owned("clock snapshot ");
                push_dec(&mut m, *snapshot_id);
                append(&mut m, " has invalid nanoseconds ");
                push_dec(&mut m, *nanoseconds as u64);
                append(&mut m, " for domain ");
                push_quoted(&mut m, clock.name());
                m
            },
            HitraceError::SnapshotClockOverflow { snapshot_id, clock } => {
                let mut m = owned("clock snapshot ");
                push_dec(&mut m, *snapshot_id);
                append(&mut m, " overflows UInt64 for domain ");
                push_quoted(&mut m, clock.name());
                m
            },
            HitraceError::DetailSequenceOverflow => owned("Hitrace CPU detail sequence overflows"),
        }
    }

    /// A copy of the error.
    pub fn clone_error(&self) -> (r: Self)
        ensures
            r@ == self@,
    {
        match self {
            HitraceError::UnsupportedTraceClock { clock } => HitraceError::UnsupportedTraceClock { clock: clock.clone() },
            HitraceError::MissingTraceClock => HitraceError::MissingTraceClock,
            HitraceError::ConflictingTraceClocks { clocks } => {
                let mut copy: Vec<TraceClock> = Vec::new();
                let mut i: usize = 0;
                while i < clocks.len()
                    invariant
                        0 <= i <= clocks.len(),
                        copy@ =~= clocks@.take(i as int),
                    decreases clocks.len() - i,
                {
                    copy.push(clocks[i]);
                    i = i + 1;
                }
                assert(clocks@.take(clocks.len() as int) =~= clocks@);
                HitraceError::ConflictingTraceClocks { clocks: copy }
            },
            HitraceError::DuplicateEndStats => HitraceError::DuplicateEndStats,
            HitraceError::InvalidStatsStatus { status } => HitraceError::InvalidStatsStatus { status: *status },
            HitraceError::DuplicateEndCpu { cpu } => HitraceError::DuplicateEndCpu { cpu: *cpu },
            HitraceError::MissingEndStats => HitraceError::MissingEndStats,
            HitraceError::IncompleteEndStats { cpu } => HitraceError::IncompleteEndStats { cpu: *cpu },
            HitraceError::CpuOutOfRange { cpu } => HitraceError::CpuOutOfRange { cpu: *cpu },
            HitraceError::LostEvents { cpu, overrun, commit_overrun, dropped_events } => HitraceError::LostEvents {
                cpu: *cpu,
                overrun: *overrun,
                commit_overrun: *commit_overrun,
                dropped_events: *dropped_events,
            },
            HitraceError::PageOverwrite { cpu, overwrite } => HitraceError::PageOverwrite { cpu: *cpu, overwrite: *overwrite },
            HitraceError::ClockWentBackwards { cpu, previous, current } => HitraceError::ClockWentBackwards {
                cpu: *cpu,
                previous: *previous,
                current: *current,
            },
            HitraceError::BrokenThreadContinuity { cpu, expected_previous_thread_id, actual_previous_thread_id } => HitraceError::BrokenThreadContinuity {
                cpu: *cpu,
                expected_previous_thread_id: *expected_previous_thread_id,
                actual_previous_thread_id: *actual_previous_thread_id,
            },
            HitraceError::SequenceOverflow { cpu } => HitraceError::SequenceOverflow { cpu: *cpu },
            HitraceError::SwitchCountOverflow => HitraceError::SwitchCountOverflow,
            HitraceError::SnapshotIdOverflow => HitraceError::SnapshotIdOverflow,
            HitraceError::UnsupportedSnapshotClock { id } => HitraceError::UnsupportedSnapshotClock { id: *id },
            HitraceError::DuplicateSnapshotClock { snapshot_id, clock } => HitraceError::DuplicateSnapshotClock {
                snapshot_id: *snapshot_id,
                clock: *clock,
            },
            HitraceError::MissingSnapshotTime { snapshot_id, clock } => HitraceError::MissingSnapshotTime {
                snapshot_id: *snapshot_id,
                clock: *clock,
            },
            HitraceError::InvalidNanoseconds { snapshot_id, clock, nanoseconds } => HitraceError::InvalidNanoseconds {
                snapshot_id: *snapshot_id,
                clock: *clock,
                nanoseconds: *nanoseconds,
            },
            HitraceError::SnapshotClockOverflow { snapshot_id, clock } => HitraceError::SnapshotClockOverflow {
                snapshot_id: *snapshot_id,
                clock: *clock,
            },
            HitraceError::DetailSequenceOverflow => HitraceError::DetailSequenceOverflow,
        }
    }
}

/// What validation has accumulated.
pub struct EvidenceView {
    pub reported: ReportedClocks,
    pub detail_cpus: Seq<u32>,
    pub end_stats: Option<Seq<u32>>,
    pub next_snapshot_id: u64,
    pub last_switch: Seq<SwitchState>,
    pub switch_count: u64,
    pub snapshots: Seq<SnapshotRow>,
}

pub type EvResult = Result<EvidenceView, HitraceErrorView>;

/// The CPUs of a TRACE_END snapshot, from entry `i` on: each must fit in
/// 32 bits, occur once, and have lost no event.
pub open spec fn sp_end_snapshot(p: Seq<PerCpuStats>, i: int, acc: Seq<u32>) -> Result<Seq<u32>, HitraceErrorView>
    decreases p.len() - i,
{
    if i >= p.len() || i < 0 {
        Ok(acc)
    } else {
        let s = p[i];
        if s.cpu > u32::MAX {
            Err(HitraceErrorView::CpuOutOfRange { cpu: s.cpu })
        } else if acc.contains(s.cpu as u32) {
            Err(HitraceErrorView::DuplicateEndCpu { cpu: s.cpu as u32 })
        } else if s.overrun != 0 || s.commit_overrun != 0 || s.dropped_events != 0 {
            Err(HitraceErrorView::LostEvents {
                cpu: s.cpu as u32,
                overrun: s.overrun,
                commit_overrun: s.commit_overrun,
                dropped_events: s.dropped_events,
            })
        } else {
            sp_end_snapshot(p, i + 1, acc.push(s.cpu as u32))
        }
    }
}

/// One stats snapshot: a known status, a known trace clock if any, and at
/// most one TRACE_END snapshot.
pub open spec fn sp_one_stats(st: EvidenceView, s: CpuStats) -> EvResult {
    if !(s.status == 0 || s.status == 1) {
        Err(HitraceErrorView::InvalidStatsStatus { status: s.status })
    } else {
        let reported: Result<ReportedClocks, HitraceErrorView> = if spec_trim(s.trace_clock@).len() == 0 {
            Ok(st.reported)
        } else {
            match sp_trace_clock(s.trace_clock@) {
                None => Err(HitraceErrorView::UnsupportedTraceClock { clock: spec_trim(s.trace_clock@) }),
                Some(c) => Ok(st.reported.spec_with(c)),
            }
        };
        match reported {
            Err(e) => Err(e),
            Ok(reported) => if s.status == 1 {
                if st.end_stats is Some {
                    Err(HitraceErrorView::DuplicateEndStats)
                } else {
                    match sp_end_snapshot(s.per_cpu@, 0, Seq::empty()) {
                        Err(e) => Err(e),
                        Ok(snapshot) => Ok(EvidenceView { reported, end_stats: Some(snapshot), ..st }),
                    }
                }
            } else {
                Ok(EvidenceView { reported, ..st })
            },
        }
    }
}

pub open spec fn sp_stats_from(st: EvidenceView, stats: Seq<CpuStats>, i: int) -> EvResult
    decreases stats.len() - i,
{
    if i >= stats.len() || i < 0 {
        Ok(st)
    } else {
        match sp_one_stats(st, stats[i]) {
            Err(e) => Err(e),
            Ok(next) => sp_stats_from(next, stats, i + 1),
        }
    }
}

/// The rows of clock snapshot `id` from clock `i` on: each clock known,
/// once, with a time whose nanoseconds are below a second.
pub open spec fn sp_snapshot_rows(
    id: u64,
    clocks: Seq<ClockDetail>,
    i: int,
    seen: Seq<SnapshotClock>,
    rows: Seq<SnapshotRow>,
) -> Result<Seq<SnapshotRow>, HitraceErrorView>
    decreases clocks.len() - i,
{
    if i >= clocks.len() || i < 0 {
        Ok(rows)
    } else {
        let c = clocks[i];
        match spec_snapshot_clock(c.id) {
            None => Err(HitraceErrorView::UnsupportedSnapshotClock { id: c.id }),
            Some(d) => if seen.contains(d) {
                Err(HitraceErrorView::DuplicateSnapshotClock { snapshot_id: id, clock: d })
            } else {
                match c.time {
                    None => Err(HitraceErrorView::MissingSnapshotTime { snapshot_id: id, clock: d }),
                    Some((sec, nsec)) => if nsec >= 1_000_000_000 {
                        Err(HitraceErrorView::InvalidNanoseconds { snapshot_id: id, clock: d, nanoseconds: nsec })
                    } else if sec * 1_000_000_000 + nsec > u64::MAX {
                        Err(HitraceErrorView::SnapshotClockOverflow { snapshot_id: id, clock: d })
                    } else {
                        sp_snapshot_rows(
                            id,
                            clocks,
                            i + 1,
                            seen.push(d),
                            rows.push(SnapshotRow { snapshot_id: id, clock: d, clock_value: (sec * 1_000_000_000 + nsec) as u64 }),
                        )
                    },
                }
            },
        }
    }
}

/// The clock snapshot of a result, if it has clocks: the next snapshot id.
pub open spec fn sp_clocks(st: EvidenceView, clocks: Seq<ClockDetail>) -> EvResult {
    if clocks.len() == 0 {
        Ok(st)
    } else if st.next_snapshot_id == u64::MAX {
        Err(HitraceErrorView::SnapshotIdOverflow)
    } else {
        match sp_snapshot_rows(st.next_snapshot_id, clocks, 0, Seq::empty(), Seq::empty()) {
            Err(e) => Err(e),
            Ok(rows) => Ok(EvidenceView {
                next_snapshot_id: (st.next_snapshot_id + 1) as u64,
                snapshots: st.snapshots + rows,
                ..st
            }),
        }
    }
}

/// Index of the entry of `cpu`, or the length when there is none.
pub open spec fn switch_index(s: Seq<SwitchState>, cpu: u32) -> nat
    decreases s.len(),
{
    if s.len() == 0 || s[0].cpu == cpu {
        0
    } else {
        1 + switch_index(s.drop_first(), cpu)
    }
}

pub type RowsResult = Result<(EvidenceView, Seq<SwitchRowView>), HitraceErrorView>;

/// One event on `cpu`: a context switch must not go back in time, must
/// switch away from the thread that the previous switch switched to, and
/// gets the next sequence number of its CPU.
pub open spec fn sp_event(st: EvidenceView, rows: Seq<SwitchRowView>, cpu: u32, e: CpuEventRecord) -> RowsResult {
    match e.switch {
        None => Ok((st, rows)),
        Some(sw) => {
            let idx = switch_index(st.last_switch, cpu) as int;
            let sequence: Result<u64, HitraceErrorView> = if idx >= st.last_switch.len() {
                Ok(0u64)
            } else {
                let p = st.last_switch[idx];
                if e.timestamp < p.clock {
                    Err(HitraceErrorView::ClockWentBackwards { cpu, previous: p.clock, current: e.timestamp })
                } else if sw.prev_pid != p.next_thread {
                    Err(HitraceErrorView::BrokenThreadContinuity {
                        cpu,
                        expected_previous_thread_id: p.next_thread,
                        actual_previous_thread_id: sw.prev_pid,
                    })
                } else if p.sequence == u64::MAX {
                    Err(HitraceErrorView::SequenceOverflow { cpu })
                } else {
                    Ok((p.sequence + 1) as u64)
                }
            };
            match sequence {
                Err(err) => Err(err),
                Ok(sequence) => {
                    let ns = SwitchState { cpu, clock: e.timestamp, next_thread: sw.next_pid, sequence };
                    let last = if idx < st.last_switch.len() {
                        st.last_switch.update(idx, ns)
                    } else {
                        st.last_switch.push(ns)
                    };
                    if st.switch_count == u64::MAX {
                        Err(HitraceErrorView::SwitchCountOverflow)
                    } else {
                        Ok((
                            EvidenceView { last_switch: last, switch_count: (st.switch_count + 1) as u64, ..st },
                            rows.push(SwitchRowView {
                                clock_value: e.timestamp,
                                cpu,
                                sequence,
                                previous_thread_id: sw.prev_pid,
                                previous_thread_name: sw.prev_comm@,
                                next_thread_id: sw.next_pid,
                                next_thread_name: sw.next_comm@,
                            }),
                        ))
                    }
                },
            }
        },
    }
}

pub open spec fn sp_events_from(
    st: EvidenceView,
    rows: Seq<SwitchRowView>,
    cpu: u32,
    events: Seq<CpuEventRecord>,
    i: int,
) -> RowsResult
    decreases events.len() - i,
{
    if i >= events.len() || i < 0 {
        Ok((st, rows))
    } else {
        match sp_event(st, rows, cpu, events[i]) {
            Err(e) => Err(e),
            Ok((st2, rows2)) => sp_events_from(st2, rows2, cpu, events, i + 1),
        }
    }
}

/// The events of one CPU; its pages must not have been overwritten.
pub open spec fn sp_detail(st: EvidenceView, rows: Seq<SwitchRowView>, d: CpuDetail) -> RowsResult {
    let st1 = EvidenceView { detail_cpus: insert_u32(st.detail_cpus, d.cpu), ..st };
    if d.overwrite != 0 {
        Err(HitraceErrorView::PageOverwrite { cpu: d.cpu, overwrite: d.overwrite })
    } else {
        sp_events_from(st1, rows, d.cpu, d.events@, 0)
    }
}

pub open spec fn sp_details_from(st: EvidenceView, rows: Seq<SwitchRowView>, details: Seq<CpuDetail>, i: int) -> RowsResult
    decreases details.len() - i,
{
    if i >= details.len() || i < 0 {
        Ok((st, rows))
    } else {
        match sp_detail(st, rows, details[i]) {
            Err(e) => Err(e),
            Ok((st2, rows2)) => sp_details_from(st2, rows2, details, i + 1),
        }
    }
}

/// One ftrace-plugin result: its stats snapshots, then its clock
/// snapshot, then its events CPU by CPU. Gives the new evidence and the
/// context switches to keep.
pub open spec fn sp_apply_result(st: EvidenceView, r: FtraceResult) -> RowsResult {
    match sp_stats_from(st, r.stats@, 0) {
        Err(e) => Err(e),
        Ok(st1) => match sp_clocks(st1, r.clocks@) {
            Err(e) => Err(e),
            Ok(st2) => sp_details_from(st2, Seq::empty(), r.details@, 0),
        },
    }
}


/// The first CPU, in order, that the TRACE_END snapshot does not cover.
pub open spec fn first_missing(detail: Seq<u32>, stats: Seq<u32>) -> Option<u32>
    decreases detail.len(),
{
    if detail.len() == 0 {
        None
    } else if !stats.contains(detail[0]) {
        Some(detail[0])
    } else {
        first_missing(detail.drop_first(), stats)
    }
}

/// The trace clock of the capture once every result is read. With context
/// switches there must be exactly one reported clock and a TRACE_END
/// snapshot covering every CPU with events; without, at most one clock.
pub open spec fn sp_finish(ev: EvidenceView) -> Result<Option<TraceClock>, HitraceErrorView> {
    let clocks = ev.reported.spec_list();
    if ev.switch_count > 0 {
        if clocks.len() == 0 {
            Err(HitraceErrorView::MissingTraceClock)
        } else if clocks.len() > 1 {
            Err(HitraceErrorView::ConflictingTraceClocks { clocks })
        } else {
            match ev.end_stats {
                None => Err(HitraceErrorView::MissingEndStats),
                Some(stats) => match first_missing(ev.detail_cpus, stats) {
                    Some(cpu) => Err(HitraceErrorView::IncompleteEndStats { cpu }),
                    None => Ok(Some(clocks[0])),
                },
            }
        }
    } else if clocks.len() > 1 {
        Err(HitraceErrorView::ConflictingTraceClocks { clocks })
    } else {
        Ok(None)
    }
}

/// `x` occurs in `v`.
pub fn contains_u32(v: &Vec<u32>, x: u32) -> (r: bool)
    ensures
        r == v@.contains(x),
{
    let mut i: usize = 0;
    while i < v.len()
        invariant
            0 <= i <= v.len(),
            forall|k: int| 0 <= k < i ==> v@[k] != x,
        decreases v.len() - i,
    {
        if v[i] == x {
            return true;
        }
        i = i + 1;
    }
    false
}

pub(crate) fn end_snapshot(p: &Vec<PerCpuStats>) -> (r: Result<Vec<u32>, HitraceError>)
    ensures
        match r {
            Ok(v) => sp_end_snapshot(p@, 0, Seq::empty()) == Ok::<Seq<u32>, HitraceErrorView>(v@),
            Err(e) => sp_end_snapshot(p@, 0, Seq::empty()) == Err::<Seq<u32>, HitraceErrorView>(e@),
        },
{
    let mut acc: Vec<u32> = Vec::new();
    let mut i: usize = 0;
    assert(acc@ =~= Seq::<u32>::empty());
    while i < p.len()
        invariant
            0 <= i <= p.len(),
            sp_end_snapshot(p@, 0, Seq::empty()) == sp_end_snapshot(p@, i as int, acc@),
        decreases p.len() - i,
    {
        let s = p[i];
        if s.cpu > u32::MAX as u64 {
            return Err(HitraceError::CpuOutOfRange { cpu: s.cpu });
        }
        let cpu = s.cpu as u32;
        if contains_u32(&acc, cpu) {
            return Err(HitraceError::DuplicateEndCpu { cpu });
        }
        if s.overrun != 0 || s.commit_overrun != 0 || s.dropped_events != 0 {
            return Err(
                HitraceError::LostEvents {
                    cpu,
                    overrun: s.overrun,
                    commit_overrun: s.commit_overrun,
                    dropped_events: s.dropped_events,
                },
            );
        }
        acc.push(cpu);
        i = i + 1;
    }
    Ok(acc)
}

/// The rows of clock snapshot `id`: each clock known, once, with a time
/// whose nanoseconds are below a second.
#[verifier::loop_isolation(false)]
pub(crate) fn snapshot_rows(id: u64, clocks: &Vec<ClockDetail>) -> (r: Result<Vec<SnapshotRow>, HitraceError>)
    ensures
        match r {
            Ok(v) => sp_snapshot_rows(id, clocks@, 0, Seq::empty(), Seq::empty()) == Ok::<Seq<SnapshotRow>, HitraceErrorView>(v@),
            Err(e) => sp_snapshot_rows(id, clocks@, 0, Seq::empty(), Seq::empty()) == Err::<Seq<SnapshotRow>, HitraceErrorView>(e@),
        },
{
        let mut seen: Vec<SnapshotClock> = Vec::new();
        let mut rows: Vec<SnapshotRow> = Vec::new();
        let mut i: usize = 0;
        assert(seen@ =~= Seq::<SnapshotClock>::empty());
        assert(rows@ =~= Seq::<SnapshotRow>::empty());
        while i < clocks.len()
            invariant
                0 <= i <= clocks.len(),
                sp_snapshot_rows(id, clocks@, 0, Seq::empty(), Seq::empty()) == sp_snapshot_rows(
                    id,
                    clocks@,
                    i as int,
                    seen@,
                    rows@,
                ),
            decreases clocks.len() - i,
        {
            let c = clocks[i];
            let d = match snapshot_clock_domain(c.id) {
                Some(d) => d,
                None => return Err(HitraceError::UnsupportedSnapshotClock { id: c.id }),
            };
            let mut j: usize = 0;
            while j < seen.len()
                invariant
                    0 <= j <= seen.len(),
                    forall|k: int| 0 <= k < j ==> seen@[k] != d,
                decreases seen.len() - j,
            {
                if seen[j] == d {
                    assert(seen@.contains(d));
                    return Err(HitraceError::DuplicateSnapshotClock { snapshot_id: id, clock: d });
                }
                j = j + 1;
            }
            assert(!seen@.contains(d));
            let (sec, nsec) = match c.time {
                Some(t) => t,
                None => return Err(HitraceError::MissingSnapshotTime { snapshot_id: id, clock: d }),
            };
            if nsec >= 1_000_000_000 {
                return Err(HitraceError::InvalidNanoseconds { snapshot_id: id, clock: d, nanoseconds: nsec });
            }
            assert(sec * 1_000_000_000 + nsec <= u64::MAX) by (nonlinear_arith)
                requires
                    sec <= u32::MAX,
                    nsec < 1_000_000_000,
            ;
            let value = (sec as u64) * 1_000_000_000 + (nsec as u64);
            seen.push(d);
            rows.push(SnapshotRow { snapshot_id: id, clock: d, clock_value: value });
            i = i + 1;
        }
    Ok(rows)
}

pub(crate) fn find_switch(v: &Vec<SwitchState>, cpu: u32) -> (r: usize)
    ensures
        r == switch_index(v@, cpu),
        r <= v.len(),
{
    let mut i: usize = 0;
    assert(v@.skip(0) =~= v@);
    while i < v.len() && v[i].cpu != cpu
        invariant
            0 <= i <= v.len(),
            switch_index(v@, cpu) == i + switch_index(v@.skip(i as int), cpu),
        decreases v.len() - i,
    {
        assert(v@.skip(i as int).drop_first() =~= v@.skip(i + 1));
        assert(v@.skip(i as int)[0] == v@[i as int]);
        i = i + 1;
    }
    if i < v.len() {
        assert(v@.skip(i as int)[0] == v@[i as int]);
    }
    i
}

/// The ftrace evidence gathered from the results read so far.
#[derive(Debug)]
pub struct HitraceEvidence {
    reported: ReportedClocks,
    detail_cpus: Vec<u32>,
    end_stats: Option<Vec<u32>>,
    next_snapshot_id: u64,
    last_switch: Vec<SwitchState>,
    switch_count: u64,
    snapshots: Vec<SnapshotRow>,
}

pub open spec fn opt_u32s_view(o: Option<Vec<u32>>) -> Option<Seq<u32>> {
    match o {
        Some(v) => Some(v@),
        None => None,
    }
}

impl View for HitraceEvidence {
    type V = EvidenceView;

    closed spec fn view(&self) -> EvidenceView {
        EvidenceView {
            reported: self.reported,
            detail_cpus: self.detail_cpus@,
            end_stats: opt_u32s_view(self.end_stats),
            next_snapshot_id: self.next_snapshot_id,
            last_switch: self.last_switch@,
            switch_count: self.switch_count,
            snapshots: self.snapshots@,
        }
    }
}

impl HitraceEvidence {
    /// The CPUs with events are kept sorted, each once.
    pub open spec fn wf(&self) -> bool {
        sorted_u32(self@.detail_cpus)
    }

    /// Evidence that starts from the header's clock snapshot, number zero.
    pub fn new(header_snapshot: Vec<SnapshotRow>) -> (r: Self)
        ensures
            r.wf(),
            r@ == (EvidenceView {
                reported: ReportedClocks { boot: false, global: false, local: false, mono: false },
                detail_cpus: Seq::empty(),
                end_stats: None,
                next_snapshot_id: 1,
                last_switch: Seq::empty(),
                switch_count: 0,
                snapshots: header_snapshot@,
            }),
    {
        let r = HitraceEvidence {
            reported: ReportedClocks::none(),
            detail_cpus: Vec::new(),
            end_stats: None,
            next_snapshot_id: 1,
            last_switch: Vec::new(),
            switch_count: 0,
            snapshots: header_snapshot,
        };
        assert(r@.detail_cpus =~= Seq::<u32>::empty());
        assert(r@.last_switch =~= Seq::<SwitchState>::empty());
        r
    }

    fn apply_stats(&mut self, s: &CpuStats) -> (r: Result<(), HitraceError>)
        requires
            old(self).wf(),
        ensures
            final(self).wf(),
            match r {
                Ok(()) => sp_one_stats(old(self)@, *s) == Ok::<EvidenceView, HitraceErrorView>(final(self)@),
                Err(e) => sp_one_stats(old(self)@, *s) == Err::<EvidenceView, HitraceErrorView>(e@),
            },
    {
        if !(s.status == 0 || s.status == 1) {
            return Err(HitraceError::InvalidStatsStatus { status: s.status });
        }
        let clock_text = crate::text::chars_of(s.trace_clock.as_str());
        let trimmed = crate::text::trim(clock_text.as_slice());
        let mut reported = self.reported;
        if trimmed.len() != 0 {
            match normalize_trace_clock(clock_text.as_slice()) {
                Ok(c) => {
                    reported = reported.with(c);
                },
                Err(clock) => return Err(HitraceError::UnsupportedTraceClock { clock }),
            }
        }
        if s.status == 1 {
            if self.end_stats.is_some() {
                return Err(HitraceError::DuplicateEndStats);
            }
            match end_snapshot(&s.per_cpu) {
                Err(e) => return Err(e),
                Ok(snapshot) => {
                    self.reported = reported;
                    self.end_stats = Some(snapshot);
                },
            }
        } else {
            self.reported = reported;
        }
        Ok(())
    }

    #[verifier::loop_isolation(false)]
    fn apply_clocks(&mut self, clocks: &Vec<ClockDetail>) -> (r: Result<(), HitraceError>)
        requires
            old(self).wf(),
        ensures
            final(self).wf(),
            match r {
                Ok(()) => sp_clocks(old(self)@, clocks@) == Ok::<EvidenceView, HitraceErrorView>(final(self)@),
                Err(e) => sp_clocks(old(self)@, clocks@) == Err::<EvidenceView, HitraceErrorView>(e@),
            },
    {
        if clocks.len() == 0 {
            return Ok(());
        }
        if self.next_snapshot_id == u64::MAX {
            return Err(HitraceError::SnapshotIdOverflow);
        }
        let id = self.next_snapshot_id;
        let mut rows = match snapshot_rows(id, clocks) {
            Err(e) => return Err(e),
            Ok(rows) => rows,
        };
        let ghost all_rows = rows@;
        self.snapshots.append(&mut rows);
        self.next_snapshot_id = id + 1;
        assert(self@.snapshots =~= old(self)@.snapshots + all_rows);
        Ok(())
    }
    fn apply_event(&mut self, rows: &mut Vec<SwitchRow>, cpu: u32, e: &CpuEventRecord) -> (r: Result<(), HitraceError>)
        requires
            old(self).wf(),
        ensures
            final(self).wf(),
            match r {
                Ok(()) => sp_event(old(self)@, rows_view(old(rows)@), cpu, *e) == Ok::<
                    (EvidenceView, Seq<SwitchRowView>),
                    HitraceErrorView,
                >((final(self)@, rows_view(final(rows)@))),
                Err(err) => sp_event(old(self)@, rows_view(old(rows)@), cpu, *e) == Err::<
                    (EvidenceView, Seq<SwitchRowView>),
                    HitraceErrorView,
                >(err@),
            },
    {
        match &e.switch {
            None => Ok(()),
            Some(sw) => {
                let idx = find_switch(&self.last_switch, cpu);
                let sequence: u64 = if idx >= self.last_switch.len() {
                    0
                } else {
                    let p = self.last_switch[idx];
                    if e.timestamp < p.clock {
                        return Err(
                            HitraceError::ClockWentBackwards {
                                cpu,
                                previous: p.clock,
                                current: e.timestamp,
                            },
                        );
                    }
                    if sw.prev_pid != p.next_thread {
                        return Err(
                            HitraceError::BrokenThreadContinuity {
                                cpu,
                                expected_previous_thread_id: p.next_thread,
                                actual_previous_thread_id: sw.prev_pid,
                            },
                        );
                    }
                    if p.sequence == u64::MAX {
                        return Err(HitraceError::SequenceOverflow { cpu });
                    }
                    p.sequence + 1
                };
                if self.switch_count == u64::MAX {
                    return Err(HitraceError::SwitchCountOverflow);
                }
                let ns = SwitchState { cpu, clock: e.timestamp, next_thread: sw.next_pid, sequence };
                if idx < self.last_switch.len() {
                    self.last_switch.set(idx, ns);
                } else {
                    self.last_switch.push(ns);
                }
                self.switch_count = self.switch_count + 1;
                let ghost before = rows_view(rows@);
                let row = SwitchRow {
                    clock_value: e.timestamp,
                    cpu,
                    sequence,
                    previous_thread_id: sw.prev_pid,
                    previous_thread_name: sw.prev_comm.clone(),
                    next_thread_id: sw.next_pid,
                    next_thread_name: sw.next_comm.clone(),
                };
                rows.push(row);
                assert(rows_view(rows@) =~= before.push(row@));
                Ok(())
            },
        }
    }

    #[verifier::loop_isolation(false)]
    fn apply_detail(&mut self, rows: &mut Vec<SwitchRow>, d: &CpuDetail) -> (r: Result<(), HitraceError>)
        requires
            old(self).wf(),
        ensures
            final(self).wf(),
            match r {
                Ok(()) => sp_detail(old(self)@, rows_view(old(rows)@), *d) == Ok::<
                    (EvidenceView, Seq<SwitchRowView>),
                    HitraceErrorView,
                >((final(self)@, rows_view(final(rows)@))),
                Err(err) => sp_detail(old(self)@, rows_view(old(rows)@), *d) == Err::<
                    (EvidenceView, Seq<SwitchRowView>),
                    HitraceErrorView,
                >(err@),
            },
    {
        add_u32(&mut self.detail_cpus, d.cpu);
        if d.overwrite != 0 {
            return Err(HitraceError::PageOverwrite { cpu: d.cpu, overwrite: d.overwrite });
        }
        let ghost first = sp_events_from(self@, rows_view(rows@), d.cpu, d.events@, 0);
        let mut i: usize = 0;
        while i < d.events.len()
            invariant
                0 <= i <= d.events.len(),
                self.wf(),
                first == sp_events_from(self@, rows_view(rows@), d.cpu, d.events@, i as int),
            decreases d.events.len() - i,
        {
            match self.apply_event(rows, d.cpu, &d.events[i]) {
                Err(e) => return Err(e),
                Ok(()) => {},
            }
            i = i + 1;
        }
        Ok(())
    }

    /// Validates one ftrace-plugin result against the evidence so far: its
    /// stats snapshots, then its clock snapshot, then its events CPU by
    /// CPU. Returns the context switches to keep, in order.
    #[verifier::loop_isolation(false)]
    pub fn apply_result(&mut self, result: &FtraceResult) -> (r: Result<Vec<SwitchRow>, HitraceError>)
        requires
            old(self).wf(),
        ensures
            final(self).wf(),
            match r {
                Ok(rows) => sp_apply_result(old(self)@, *result) == Ok::<
                    (EvidenceView, Seq<SwitchRowView>),
                    HitraceErrorView,
                >((final(self)@, rows_view(rows@))),
                Err(err) => sp_apply_result(old(self)@, *result) == Err::<
                    (EvidenceView, Seq<SwitchRowView>),
                    HitraceErrorView,
                >(err@),
            },
    {
        let ghost start = self@;
        let mut i: usize = 0;
        while i < result.stats.len()
            invariant
                0 <= i <= result.stats.len(),
                self.wf(),
                sp_stats_from(start, result.stats@, 0) == sp_stats_from(self@, result.stats@, i as int),
            decreases result.stats.len() - i,
        {
            match self.apply_stats(&result.stats[i]) {
                Err(e) => return Err(e),
                Ok(()) => {},
            }
            i = i + 1;
        }
        match self.apply_clocks(&result.clocks) {
            Err(e) => return Err(e),
            Ok(()) => {},
        }
        let mut rows: Vec<SwitchRow> = Vec::new();
        let ghost mid = self@;
        assert(rows_view(rows@) =~= Seq::<SwitchRowView>::empty());
        let mut j: usize = 0;
        while j < result.details.len()
            invariant
                0 <= j <= result.details.len(),
                self.wf(),
                sp_details_from(mid, Seq::empty(), result.details@, 0) == sp_details_from(
                    self@,
                    rows_view(rows@),
                    result.details@,
                    j as int,
                ),
            decreases result.details.len() - j,
        {
            match self.apply_detail(&mut rows, &result.details[j]) {
                Err(e) => return Err(e),
                Ok(()) => {},
            }
            j = j + 1;
        }
        Ok(rows)
    }
    /// The trace clock of the capture, once every result is read.
    #[verifier::loop_isolation(false)]
    pub fn finish_clock(&self) -> (r: Result<Option<TraceClock>, HitraceError>)
        ensures
            match r {
                Ok(c) => sp_finish(self@) == Ok::<Option<TraceClock>, HitraceErrorView>(c),
                Err(e) => sp_finish(self@) == Err::<Option<TraceClock>, HitraceErrorView>(e@),
            },
    {
        let clocks = self.reported.list();
        if self.switch_count > 0 {
            if clocks.len() == 0 {
                return Err(HitraceError::MissingTraceClock);
            }
            if clocks.len() > 1 {
                return Err(HitraceError::ConflictingTraceClocks { clocks });
            }
            let stats = match &self.end_stats {
                None => return Err(HitraceError::MissingEndStats),
                Some(stats) => stats,
            };
            let mut i: usize = 0;
            assert(self.detail_cpus@.skip(0) =~= self.detail_cpus@);
            while i < self.detail_cpus.len()
                invariant
                    0 <= i <= self.detail_cpus.len(),
                    first_missing(self.detail_cpus@, stats@) == first_missing(
                        self.detail_cpus@.skip(i as int),
                        stats@,
                    ),
                decreases self.detail_cpus.len() - i,
            {
                let cpu = self.detail_cpus[i];
                assert(self.detail_cpus@.skip(i as int)[0] == cpu);
                if !contains_u32(stats, cpu) {
                    return Err(HitraceError::IncompleteEndStats { cpu });
                }
                assert(self.detail_cpus@.skip(i as int).drop_first() =~= self.detail_cpus@.skip(i + 1));
                i = i + 1;
            }
            Ok(Some(clocks[0]))
        } else if clocks.len() > 1 {
            Err(HitraceError::ConflictingTraceClocks { clocks })
        } else {
            Ok(None)
        }
    }

    /// The last context switch of each CPU with switches, in the order of
    /// their first switch.
    pub fn switch_cpus(&self) -> (r: &Vec<SwitchState>)
        ensures
            r@ == self@.last_switch,
    {
        &self.last_switch
    }

    /// Number of context switches kept.
    pub fn switch_count(&self) -> (r: u64)
        ensures
            r == self@.switch_count,
    {
        self.switch_count
    }

    /// The clock snapshots, in order.
    pub fn into_snapshots(self) -> (r: Vec<SnapshotRow>)
        ensures
            r@ == self@.snapshots,
    {
        self.snapshots
    }
}

} // verus!
