//! The ftrace evidence of a Hitrace capture read record by record, as the
//! plugin decoder hands it out. Unlike [`super::validate::HitraceEvidence`],
//! an unknown trace clock and a damaged TRACE_END snapshot do not stop the
//! reading: the first of each is kept, and the capture is judged when it
//! ends, and only when it has context switches.
use vstd::prelude::*;
use crate::text::{chars_of, spec_trim, trim};
use super::clocks::{ReportedClocks, TraceClock, normalize_trace_clock, sp_trace_clock};
use super::decoder::{clock_domain_table, sp_domains};
use crate::sorted::{sorted_names, strings_view};
use super::validate::{
    ClockDetail, CpuDetail, CpuEventRecord, CpuStats, EvidenceView, FtraceResult, HitraceError, HitraceErrorView,
    sp_event, sp_events_from,
    SnapshotRow, SwitchRow, SwitchRowView, SwitchState, end_snapshot, find_switch, rows_view,
    snapshot_rows, sp_end_snapshot, sp_snapshot_rows, switch_index,
};

verus! {

/// A record of an ftrace capture that is not an event.
#[derive(Debug)]
pub enum FtraceCaptureRecord {
    /// A stats snapshot.
    CpuStats(CpuStats),
    /// The clocks of one clock snapshot.
    ClockSnapshot(Vec<ClockDetail>),
    /// The header of the events of one CPU.
    CpuDetail { cpu: u32, overwrite: u64 },
}

/// The first CPU detail of a CPU, numbered among all CPU details.
#[derive(Debug, Clone, Copy, PartialEq, Eq, Structural)]
pub struct DetailSeen {
    pub cpu: u32,
    pub sequence: u64,
}

/// The first CPU detail whose pages were overwritten.
#[derive(Debug, Clone, Copy, PartialEq, Eq, Structural)]
pub struct OverwriteSeen {
    pub sequence: u64,
    pub cpu: u32,
    pub overwrite: u64,
}

/// What the sink has gathered.
pub struct LongTermView {
    pub reported: ReportedClocks,
    /// The first unknown trace clock, trimmed.
    pub clock_error: Option<Seq<char>>,
    /// The first fault of the stats snapshots.
    pub integrity_error: Option<HitraceErrorView>,
    /// The CPUs of the TRACE_END snapshot.
    pub end_stats: Option<Seq<u32>>,
    /// The CPUs with a detail, in the order of their first detail.
    pub details: Seq<DetailSeen>,
    pub first_overwrite: Option<OverwriteSeen>,
    pub next_detail_sequence: u64,
    pub next_snapshot_id: u64,
    /// The last context switch of each CPU, in the order of their first.
    pub last_switch: Seq<SwitchState>,
    pub has_switches: bool,
}

pub type LtResult<T> = Result<T, HitraceErrorView>;

/// A reported trace clock: a known one joins the reported set, the first
/// unknown one is kept; a blank one is ignored.
pub open spec fn sp_note_clock(st: LongTermView, text: Seq<char>) -> LongTermView {
    if spec_trim(text).len() == 0 {
        st
    } else {
        match sp_trace_clock(text) {
            Some(c) => LongTermView { reported: st.reported.spec_with(c), ..st },
            None => if st.clock_error is Some {
                st
            } else {
                LongTermView { clock_error: Some(spec_trim(text)), ..st }
            },
        }
    }
}

/// A stats snapshot. Its trace clock is always noted; after the first
/// fault the snapshots are otherwise ignored. A snapshot must have status
/// 0 or 1, and only one may have status 1 (TRACE_END), whose CPUs must
/// fit in 32 bits, occur once and have lost no event.
pub open spec fn sp_capture_stats(st: LongTermView, s: CpuStats) -> LongTermView {
    let st1 = sp_note_clock(st, s.trace_clock@);
    if st1.integrity_error is Some {
        st1
    } else if !(s.status == 0 || s.status == 1) {
        LongTermView { integrity_error: Some(HitraceErrorView::InvalidStatsStatus { status: s.status }), ..st1 }
    } else if s.status != 1 {
        st1
    } else if st1.end_stats is Some {
        LongTermView { integrity_error: Some(HitraceErrorView::DuplicateEndStats), ..st1 }
    } else {
        match sp_end_snapshot(s.per_cpu@, 0, Seq::empty()) {
            Err(e) => LongTermView { integrity_error: Some(e), ..st1 },
            Ok(cpus) => LongTermView { end_stats: Some(cpus), ..st1 },
        }
    }
}

/// A clock snapshot takes the next snapshot number.
pub open spec fn sp_clock_snapshot(st: LongTermView, clocks: Seq<ClockDetail>) -> LtResult<(LongTermView, Seq<SnapshotRow>)> {
    if st.next_snapshot_id == u64::MAX {
        Err(HitraceErrorView::SnapshotIdOverflow)
    } else {
        match sp_snapshot_rows(st.next_snapshot_id, clocks, 0, Seq::empty(), Seq::empty()) {
            Err(e) => Err(e),
            Ok(rows) => Ok((LongTermView { next_snapshot_id: (st.next_snapshot_id + 1) as u64, ..st }, rows)),
        }
    }
}

/// `cpu` has had a detail.
pub open spec fn detail_seen(d: Seq<DetailSeen>, cpu: u32) -> bool {
    exists|i: int| 0 <= i < d.len() && (#[trigger] d[i]).cpu == cpu
}

/// A CPU detail takes the next detail number; the first of its CPU and the
/// first with overwritten pages are remembered.
pub open spec fn sp_cpu_detail(st: LongTermView, cpu: u32, overwrite: u64) -> LtResult<LongTermView> {
    if st.next_detail_sequence == u64::MAX {
        Err(HitraceErrorView::DetailSequenceOverflow)
    } else {
        let sequence = st.next_detail_sequence;
        Ok(
            LongTermView {
                details: if detail_seen(st.details, cpu) {
                    st.details
                } else {
                    st.details.push(DetailSeen { cpu, sequence })
                },
                first_overwrite: if overwrite != 0 && st.first_overwrite is None {
                    Some(OverwriteSeen { sequence, cpu, overwrite })
                } else {
                    st.first_overwrite
                },
                next_detail_sequence: (sequence + 1) as u64,
                ..st
            },
        )
    }
}

/// A capture record; a clock snapshot gives its rows.
pub open spec fn sp_push_capture(st: LongTermView, r: FtraceCaptureRecord) -> LtResult<(LongTermView, Seq<SnapshotRow>)> {
    match r {
        FtraceCaptureRecord::CpuStats(s) => Ok((sp_capture_stats(st, s), Seq::empty())),
        FtraceCaptureRecord::ClockSnapshot(clocks) => sp_clock_snapshot(st, clocks@),
        FtraceCaptureRecord::CpuDetail { cpu, overwrite } => match sp_cpu_detail(st, cpu, overwrite) {
            Err(e) => Err(e),
            Ok(next) => Ok((next, Seq::empty())),
        },
    }
}

/// An event on `cpu`: a context switch must not go back in time, must
/// switch away from the thread that the previous switch of its CPU switched
/// to, and gets the next sequence number of its CPU.
pub open spec fn sp_push_ftrace(st: LongTermView, cpu: u32, e: CpuEventRecord) -> LtResult<(LongTermView, Option<SwitchRowView>)> {
    match e.switch {
        None => Ok((st, None)),
        Some(sw) => {
            let idx = switch_index(st.last_switch, cpu) as int;
            let sequence: LtResult<u64> = if idx >= st.last_switch.len() {
                Ok(0u64)
            } else {
                let p = st.last_switch[idx];
                if e.timestamp < p.clock {
                    Err(HitraceErrorView::ClockWentBackwards { cpu, previous: p.clock, current: e.timestamp })
                } else if sw.prev_pid != p.next_thread {
                    Err(HitraceErrorView::BrokenThreadContinuity {
                        cpu,
                        expected_previous_thread_id: p.next_thread,
                        actual_previous_thread_id: sw.prev_pid,
                    })
                } else if p.sequence == u64::MAX {
                    Err(HitraceErrorView::SequenceOverflow { cpu })
                } else {
                    Ok((p.sequence + 1) as u64)
                }
            };
            match sequence {
                Err(err) => Err(err),
                Ok(sequence) => {
                    let ns = SwitchState { cpu, clock: e.timestamp, next_thread: sw.next_pid, sequence };
                    Ok((
                        LongTermView {
                            last_switch: if idx < st.last_switch.len() {
                                st.last_switch.update(idx, ns)
                            } else {
                                st.last_switch.push(ns)
                            },
                            has_switches: true,
                            ..st
                        },
                        Some(SwitchRowView {
                            clock_value: e.timestamp,
                            cpu,
                            sequence,
                            previous_thread_id: sw.prev_pid,
                            previous_thread_name: sw.prev_comm@,
                            next_thread_id: sw.next_pid,
                            next_thread_name: sw.next_comm@,
                        }),
                    ))
                },
            }
        },
    }
}

/// The stats snapshots from entry `i` on.
pub open spec fn sp_stats_fold(st: LongTermView, stats: Seq<CpuStats>, i: int) -> LongTermView
    decreases stats.len() - i,
{
    if i >= stats.len() || i < 0 {
        st
    } else {
        sp_stats_fold(sp_capture_stats(st, stats[i]), stats, i + 1)
    }
}

/// The events of `cpu` from entry `i` on, with the rows so far.
pub open spec fn sp_events_fold(
    st: LongTermView,
    rows: Seq<SwitchRowView>,
    cpu: u32,
    events: Seq<CpuEventRecord>,
    i: int,
) -> LtResult<(LongTermView, Seq<SwitchRowView>)>
    decreases events.len() - i,
{
    if i >= events.len() || i < 0 {
        Ok((st, rows))
    } else {
        match sp_push_ftrace(st, cpu, events[i]) {
            Err(e) => Err(e),
            Ok((next, row)) => sp_events_fold(
                next,
                match row {
                    Some(x) => rows.push(x),
                    None => rows,
                },
                cpu,
                events,
                i + 1,
            ),
        }
    }
}

/// The CPU details from entry `i` on: each detail's header, then its events.
pub open spec fn sp_details_fold(
    st: LongTermView,
    rows: Seq<SwitchRowView>,
    details: Seq<CpuDetail>,
    i: int,
) -> LtResult<(LongTermView, Seq<SwitchRowView>)>
    decreases details.len() - i,
{
    if i >= details.len() || i < 0 {
        Ok((st, rows))
    } else {
        let d = details[i];
        match sp_cpu_detail(st, d.cpu, d.overwrite) {
            Err(e) => Err(e),
            Ok(next) => match sp_events_fold(next, rows, d.cpu, d.events@, 0) {
                Err(e) => Err(e),
                Ok((after, rows2)) => sp_details_fold(after, rows2, details, i + 1),
            },
        }
    }
}

/// One ftrace-plugin result in the order the plugin decoder hands it out:
/// every stats snapshot, then the clock snapshot if there are clocks, then
/// each CPU detail followed by its events. Gives the snapshot rows and the
/// context switches.
pub open spec fn sp_push_plugin_result(st: LongTermView, r: FtraceResult) -> LtResult<
    (LongTermView, Seq<SnapshotRow>, Seq<SwitchRowView>),
> {
    let st1 = sp_stats_fold(st, r.stats@, 0);
    let snap: LtResult<(LongTermView, Seq<SnapshotRow>)> = if r.clocks.len() == 0 {
        Ok((st1, Seq::empty()))
    } else {
        sp_clock_snapshot(st1, r.clocks@)
    };
    match snap {
        Err(e) => Err(e),
        Ok((st2, snapshots)) => match sp_details_fold(st2, Seq::empty(), r.details@, 0) {
            Err(e) => Err(e),
            Ok((st3, rows)) => Ok((st3, snapshots, rows)),
        },
    }
}

/// The first CPU with a detail that the TRACE_END snapshot does not cover,
/// in the order of their first detail.
pub open spec fn first_missing_detail(d: Seq<DetailSeen>, stats: Seq<u32>) -> Option<DetailSeen>
    decreases d.len(),
{
    if d.len() == 0 {
        None
    } else if !stats.contains(d[0].cpu) {
        Some(d[0])
    } else {
        first_missing_detail(d.drop_first(), stats)
    }
}

/// The judgement of a capture once every record is read: no unknown trace
/// clock and at most one reported clock; with context switches, also a
/// clock, a sound set of stats snapshots with a TRACE_END snapshot, and no
/// overwritten pages or uncovered CPU, whichever came first among the CPU
/// details. Gives the trace clock of the context switches.
pub open spec fn sp_validate_capture(st: LongTermView) -> LtResult<Option<TraceClock>> {
    let clocks = st.reported.spec_list();
    if st.clock_error is Some {
        Err(HitraceErrorView::UnsupportedTraceClock { clock: st.clock_error->0 })
    } else if clocks.len() > 1 {
        Err(HitraceErrorView::ConflictingTraceClocks { clocks })
    } else if !st.has_switches {
        Ok(None)
    } else if clocks.len() == 0 {
        Err(HitraceErrorView::MissingTraceClock)
    } else if st.integrity_error is Some {
        Err(st.integrity_error->0)
    } else {
        match st.end_stats {
            None => Err(HitraceErrorView::MissingEndStats),
            Some(stats) => match (st.first_overwrite, first_missing_detail(st.details, stats)) {
                (Some(o), Some(m)) => if o.sequence <= m.sequence {
                    Err(HitraceErrorView::PageOverwrite { cpu: o.cpu, overwrite: o.overwrite })
                } else {
                    Err(HitraceErrorView::IncompleteEndStats { cpu: m.cpu })
                },
                (None, Some(m)) => Err(HitraceErrorView::IncompleteEndStats { cpu: m.cpu }),
                (Some(o), None) => Err(HitraceErrorView::PageOverwrite { cpu: o.cpu, overwrite: o.overwrite }),
                (None, None) => Ok(Some(clocks[0])),
            },
        }
    }
}

/// The details are numbered in the order they came, each CPU once, all
/// below the next number.
pub open spec fn lt_wf(v: LongTermView) -> bool {
    &&& forall|i: int, j: int|
        0 <= i < j < v.details.len() ==> (#[trigger] v.details[i]).sequence < (#[trigger] v.details[j]).sequence
    &&& forall|i: int, j: int|
        0 <= i < j < v.details.len() ==> (#[trigger] v.details[i]).cpu != (#[trigger] v.details[j]).cpu
    &&& forall|i: int| 0 <= i < v.details.len() ==> (#[trigger] v.details[i]).sequence < v.next_detail_sequence
    &&& (v.first_overwrite matches Some(o) ==> o.sequence < v.next_detail_sequence)
}

/// Of the CPUs with a detail that the TRACE_END snapshot does not cover,
/// the one chosen is the one whose first detail came first; there is none
/// exactly when every such CPU is covered.
pub proof fn lemma_first_missing_is_earliest(d: Seq<DetailSeen>, stats: Seq<u32>)
    requires
        forall|i: int, j: int| 0 <= i < j < d.len() ==> (#[trigger] d[i]).sequence < (#[trigger] d[j]).sequence,
    ensures
        match first_missing_detail(d, stats) {
            None => forall|k: int| 0 <= k < d.len() ==> stats.contains(#[trigger] d[k].cpu),
            Some(m) => {
                &&& exists|k: int| 0 <= k < d.len() && #[trigger] d[k] == m
                &&& !stats.contains(m.cpu)
                &&& forall|k: int|
                    0 <= k < d.len() && !stats.contains(#[trigger] d[k].cpu) ==> m.sequence <= d[k].sequence
            },
        },
    decreases d.len(),
{
    if d.len() > 0 {
        let t = d.drop_first();
        assert forall|i: int, j: int| 0 <= i < j < t.len() implies (#[trigger] t[i]).sequence < (#[trigger] t[j]).sequence by {
            assert(t[i] == d[i + 1]);
            assert(t[j] == d[j + 1]);
        }
        lemma_first_missing_is_earliest(t, stats);
        if stats.contains(d[0].cpu) {
            match first_missing_detail(t, stats) {
                None => {
                    assert forall|k: int| 0 <= k < d.len() implies stats.contains(#[trigger] d[k].cpu) by {
                        if k > 0 {
                            assert(d[k] == t[k - 1]);
                        }
                    }
                },
                Some(m) => {
                    let k0 = choose|k: int| 0 <= k < t.len() && #[trigger] t[k] == m;
                    assert(d[k0 + 1] == m);
                    assert forall|k: int| 0 <= k < d.len() && !stats.contains(#[trigger] d[k].cpu) implies m.sequence
                        <= d[k].sequence by {
                        assert(k > 0);
                        assert(d[k] == t[k - 1]);
                    }
                },
            }
        } else {
            assert(d[0] == d[0]);
            assert forall|k: int| 0 <= k < d.len() && !stats.contains(#[trigger] d[k].cpu) implies d[0].sequence
                <= d[k].sequence by {
                if k > 0 {
                    assert(d[0].sequence < d[k].sequence);
                }
            }
        }
    }
}

/// The record-by-record reading and the whole-result validation agree on
/// every run of events of a CPU: from the same last switch of each CPU,
/// both accept the same switches with the same sequence numbers and end
/// with the same last switches, or both fail with the same error. (The
/// whole-result validation also counts switches; the runs considered are
/// those whose count fits in 64 bits.)
pub proof fn lemma_readings_agree_on_switches(
    lt: LongTermView,
    ev: EvidenceView,
    rows: Seq<SwitchRowView>,
    cpu: u32,
    events: Seq<CpuEventRecord>,
    i: int,
)
    requires
        0 <= i <= events.len(),
        lt.last_switch == ev.last_switch,
        ev.switch_count + (events.len() - i) <= u64::MAX,
    ensures
        match (sp_events_fold(lt, rows, cpu, events, i), sp_events_from(ev, rows, cpu, events, i)) {
            (Ok((l, r1)), Ok((e, r2))) => r1 == r2 && l.last_switch == e.last_switch,
            (Err(a), Err(b)) => a == b,
            _ => false,
        },
    decreases events.len() - i,
{
    if i < events.len() {
        match (sp_push_ftrace(lt, cpu, events[i]), sp_event(ev, rows, cpu, events[i])) {
            (Ok((l2, row)), Ok((e2, rows2))) => {
                assert(rows2 == match row {
                    Some(x) => rows.push(x),
                    None => rows,
                });
                lemma_readings_agree_on_switches(l2, e2, rows2, cpu, events, i + 1);
            },
            _ => {},
        }
    }
}

/// Once a stats snapshot is read, what it settled stays: the first unknown
/// trace clock, the first fault of the snapshots and the TRACE_END CPUs are
/// never replaced by later snapshots, which never fail; and TRACE_END CPUs
/// appear only from a snapshot with status 1 whose CPUs are valid.
pub proof fn lemma_stats_keep_first_faults(st: LongTermView, stats: Seq<CpuStats>, i: int)
    requires
        0 <= i <= stats.len(),
    ensures
        st.clock_error is Some ==> sp_stats_fold(st, stats, i).clock_error == st.clock_error,
        st.integrity_error is Some ==> sp_stats_fold(st, stats, i).integrity_error == st.integrity_error,
        st.end_stats is Some ==> sp_stats_fold(st, stats, i).end_stats == st.end_stats,
        st.end_stats is None ==> (sp_stats_fold(st, stats, i).end_stats matches Some(c) ==> exists|j: int|
            i <= j < stats.len() && (#[trigger] stats[j]).status == 1 && sp_end_snapshot(stats[j].per_cpu@, 0, Seq::empty())
                == Ok::<Seq<u32>, HitraceErrorView>(c)),
        sp_stats_fold(st, stats, i).details == st.details,
        sp_stats_fold(st, stats, i).next_detail_sequence == st.next_detail_sequence,
        sp_stats_fold(st, stats, i).last_switch == st.last_switch,
    decreases stats.len() - i,
{
    if i < stats.len() {
        let next = sp_capture_stats(st, stats[i]);
        lemma_stats_keep_first_faults(next, stats, i + 1);
    }
}

/// The capture records from entry `i` on, read one by one.
pub open spec fn sp_capture_fold(st: LongTermView, records: Seq<FtraceCaptureRecord>, i: int) -> LtResult<LongTermView>
    decreases records.len() - i,
{
    if i >= records.len() || i < 0 {
        Ok(st)
    } else {
        match sp_push_capture(st, records[i]) {
            Err(e) => Err(e),
            Ok((next, _)) => sp_capture_fold(next, records, i + 1),
        }
    }
}

/// The CPU details among the records from entry `i` on, in order, as
/// (cpu, overwrite).
pub open spec fn details_from(records: Seq<FtraceCaptureRecord>, i: int) -> Seq<(u32, u64)>
    decreases records.len() - i,
{
    if i >= records.len() || i < 0 {
        Seq::empty()
    } else {
        match records[i] {
            FtraceCaptureRecord::CpuDetail { cpu, overwrite } => seq![(cpu, overwrite)] + details_from(records, i + 1),
            _ => details_from(records, i + 1),
        }
    }
}

/// The clock snapshots among the records from entry `i` on.
pub open spec fn snapshots_from(records: Seq<FtraceCaptureRecord>, i: int) -> nat
    decreases records.len() - i,
{
    if i >= records.len() || i < 0 {
        0
    } else {
        match records[i] {
            FtraceCaptureRecord::ClockSnapshot(_) => 1 + snapshots_from(records, i + 1),
            _ => snapshots_from(records, i + 1),
        }
    }
}

/// Over any run of capture records read without error: the CPU details
/// take consecutive numbers from the next one; the first detail with
/// overwritten pages is the earliest such one of the run, unless one was
/// already kept; every CPU of the run has a detail remembered, the details
/// already remembered stay, and each new one carries the number of the
/// earliest detail of its CPU; the clock snapshots take consecutive
/// numbers.
pub proof fn lemma_capture_details(st: LongTermView, records: Seq<FtraceCaptureRecord>, i: int)
    requires
        0 <= i <= records.len(),
    ensures
        sp_capture_fold(st, records, i) matches Ok(v) ==> {
            let ds = details_from(records, i);
            &&& v.next_detail_sequence == st.next_detail_sequence + ds.len()
            &&& v.next_snapshot_id == st.next_snapshot_id + snapshots_from(records, i)
            &&& (st.first_overwrite is Some ==> v.first_overwrite == st.first_overwrite)
            &&& (st.first_overwrite is None ==> match v.first_overwrite {
                Some(o) => exists|j: int| {
                    &&& 0 <= j < ds.len()
                    &&& (#[trigger] ds[j]).1 != 0
                    &&& o == OverwriteSeen { sequence: (st.next_detail_sequence + j) as u64, cpu: ds[j].0, overwrite: ds[j].1 }
                    &&& forall|k: int| 0 <= k < j ==> (#[trigger] ds[k]).1 == 0
                },
                None => forall|k: int| 0 <= k < ds.len() ==> (#[trigger] ds[k]).1 == 0,
            })
            &&& v.details.len() >= st.details.len()
            &&& v.details.take(st.details.len() as int) == st.details
            &&& forall|k: int| 0 <= k < ds.len() ==> detail_seen(v.details, (#[trigger] ds[k]).0)
            &&& forall|m: int| st.details.len() <= m < v.details.len() ==> exists|j: int| {
                &&& 0 <= j < ds.len()
                &&& (#[trigger] ds[j]).0 == (#[trigger] v.details[m]).cpu
                &&& v.details[m].sequence == st.next_detail_sequence + j
                &&& !detail_seen(st.details, ds[j].0)
                &&& forall|k: int| 0 <= k < j ==> (#[trigger] ds[k]).0 != ds[j].0
            }
        },
    decreases records.len() - i,
{
    if i < records.len() {
        match sp_push_capture(st, records[i]) {
            Err(_) => {},
            Ok((next, _)) => {
                lemma_capture_details(next, records, i + 1);
                match sp_capture_fold(next, records, i + 1) {
                    Err(_) => {},
                    Ok(v) => {
                        let ds = details_from(records, i);
                        let rest = details_from(records, i + 1);
                        match records[i] {
                            FtraceCaptureRecord::CpuDetail { cpu, overwrite } => {
                                assert(ds == seq![(cpu, overwrite)] + rest);
                                assert forall|k: int| 0 <= k < rest.len() implies ds[k + 1] == #[trigger] rest[k] by {}
                                assert(ds[0] == (cpu, overwrite));
                                if detail_seen(st.details, cpu) {
                                    let w = choose|w: int| 0 <= w < st.details.len() && (#[trigger] st.details[w]).cpu == cpu;
                                    assert(next.details[w].cpu == cpu);
                                } else {
                                    assert(next.details[st.details.len() as int].cpu == cpu);
                                }
                                assert(detail_seen(next.details, cpu));
                                // first overwrite
                                if st.first_overwrite is None {
                                    match v.first_overwrite {
                                        Some(o) => {
                                            if overwrite != 0 {
                                                assert(o == OverwriteSeen { sequence: st.next_detail_sequence, cpu, overwrite });
                                            } else {
                                                let j = choose|j: int| {
                                                    &&& 0 <= j < rest.len()
                                                    &&& (#[trigger] rest[j]).1 != 0
                                                    &&& o == OverwriteSeen {
                                                        sequence: (next.next_detail_sequence + j) as u64,
                                                        cpu: rest[j].0,
                                                        overwrite: rest[j].1,
                                                    }
                                                    &&& forall|k: int| 0 <= k < j ==> (#[trigger] rest[k]).1 == 0
                                                };
                                                assert(ds[j + 1] == rest[j]);
                                                assert forall|k: int| 0 <= k < j + 1 implies (#[trigger] ds[k]).1 == 0 by {
                                                    if k > 0 {
                                                        assert(ds[k] == rest[k - 1]);
                                                    }
                                                }
                                            }
                                        },
                                        None => {
                                            assert forall|k: int| 0 <= k < ds.len() implies (#[trigger] ds[k]).1 == 0 by {
                                                if k > 0 {
                                                    assert(ds[k] == rest[k - 1]);
                                                }
                                            }
                                        },
                                    }
                                }
                                // details
                                assert(next.details.take(st.details.len() as int) == st.details);
                                assert(v.details.take(st.details.len() as int) =~= st.details) by {
                                    assert forall|m: int| 0 <= m < st.details.len() implies v.details[m] == st.details[m] by {
                                        assert(v.details.take(next.details.len() as int)[m] == next.details[m]);
                                        assert(next.details.take(st.details.len() as int)[m] == st.details[m]);
                                    }
                                }
                                assert forall|k: int| 0 <= k < ds.len() implies detail_seen(v.details, (#[trigger] ds[k]).0) by {
                                    if k == 0 {
                                        assert(detail_seen(next.details, cpu));
                                        let w = choose|w: int| 0 <= w < next.details.len() && (#[trigger] next.details[w]).cpu == cpu;
                                        assert(v.details.take(next.details.len() as int)[w] == next.details[w]);
                                        assert(v.details[w] == next.details[w]);
                                    } else {
                                        assert(ds[k] == rest[k - 1]);
                                    }
                                }
                                assert forall|m: int| st.details.len() <= m < v.details.len() implies exists|j: int| {
                                    &&& 0 <= j < ds.len()
                                    &&& (#[trigger] ds[j]).0 == (#[trigger] v.details[m]).cpu
                                    &&& v.details[m].sequence == st.next_detail_sequence + j
                                    &&& !detail_seen(st.details, ds[j].0)
                                    &&& forall|k: int| 0 <= k < j ==> (#[trigger] ds[k]).0 != ds[j].0
                                } by {
                                    if m < next.details.len() {
                                        // the detail added by this record
                                        assert(v.details.take(next.details.len() as int)[m] == next.details[m]);
                                        assert(!detail_seen(st.details, cpu));
                                        assert(next.details == st.details.push(DetailSeen { cpu, sequence: st.next_detail_sequence }));
                                        assert(m == st.details.len());
                                        assert(v.details[m] == DetailSeen { cpu, sequence: st.next_detail_sequence });
                                        assert(ds[0].0 == v.details[m].cpu);
                                    } else {
                                        let j = choose|j: int| {
                                            &&& 0 <= j < rest.len()
                                            &&& (#[trigger] rest[j]).0 == (#[trigger] v.details[m]).cpu
                                            &&& v.details[m].sequence == next.next_detail_sequence + j
                                            &&& !detail_seen(next.details, rest[j].0)
                                            &&& forall|k: int| 0 <= k < j ==> (#[trigger] rest[k]).0 != rest[j].0
                                        };
                                        assert(ds[j + 1] == rest[j]);
                                        if detail_seen(st.details, rest[j].0) {
                                            let w = choose|w: int| 0 <= w < st.details.len() && (#[trigger] st.details[w]).cpu == rest[j].0;
                                            assert(next.details.take(st.details.len() as int)[w] == st.details[w]);
                                            assert(next.details[w] == st.details[w]);
                                        }
                                        if rest[j].0 == cpu {
                                            assert(detail_seen(next.details, cpu));
                                        }
                                        assert forall|k: int| 0 <= k < j + 1 implies (#[trigger] ds[k]).0 != ds[j + 1].0 by {
                                            if k > 0 {
                                                assert(ds[k] == rest[k - 1]);
                                            }
                                        }
                                    }
                                }
                            },
                            _ => {
                                assert(ds == rest);
                                assert(next.details == st.details);
                                assert(next.first_overwrite == st.first_overwrite);
                                assert(next.details.take(st.details.len() as int) =~= st.details);
                            },
                        }
                        assert(v.next_detail_sequence == st.next_detail_sequence + ds.len());
                        assert(v.next_snapshot_id == st.next_snapshot_id + snapshots_from(records, i));
                        assert(st.first_overwrite is Some ==> v.first_overwrite == st.first_overwrite);
                        assert(v.details.len() >= st.details.len());
                        assert(v.details.take(st.details.len() as int) == st.details);
                        assert(forall|k: int| 0 <= k < ds.len() ==> detail_seen(v.details, (#[trigger] ds[k]).0));
                    },
                }
            },
        }
    } else {
        assert(st.details.take(st.details.len() as int) =~= st.details);
    }
}

/// The ftrace evidence of a capture read so far.
#[derive(Debug)]
pub struct LongTermHitraceSink {
    reported: ReportedClocks,
    first_clock_error: Option<String>,
    capture_integrity_error: Option<HitraceError>,
    end_stats_cpus: Option<Vec<u32>>,
    detail_cpus: Vec<DetailSeen>,
    first_nonzero_overwrite: Option<OverwriteSeen>,
    next_detail_sequence: u64,
    next_snapshot_id: u64,
    last_switch: Vec<SwitchState>,
    has_switches: bool,
}

pub open spec fn opt_string_view(o: Option<String>) -> Option<Seq<char>> {
    match o {
        Some(s) => Some(s@),
        None => None,
    }
}

pub open spec fn opt_error_view(o: Option<HitraceError>) -> Option<HitraceErrorView> {
    match o {
        Some(e) => Some(e@),
        None => None,
    }
}

pub open spec fn opt_cpus_view(o: Option<Vec<u32>>) -> Option<Seq<u32>> {
    match o {
        Some(v) => Some(v@),
        None => None,
    }
}

impl View for LongTermHitraceSink {
    type V = LongTermView;

    closed spec fn view(&self) -> LongTermView {
        LongTermView {
            reported: self.reported,
            clock_error: opt_string_view(self.first_clock_error),
            integrity_error: opt_error_view(self.capture_integrity_error),
            end_stats: opt_cpus_view(self.end_stats_cpus),
            details: self.detail_cpus@,
            first_overwrite: self.first_nonzero_overwrite,
            next_detail_sequence: self.next_detail_sequence,
            next_snapshot_id: self.next_snapshot_id,
            last_switch: self.last_switch@,
            has_switches: self.has_switches,
        }
    }
}

/// What a capture yields once judged.
#[derive(Debug)]
pub struct LongTermCapture {
    /// The trace clock of the context switches, when there are any.
    pub ftrace_clock: Option<TraceClock>,
    /// Clock domains, sorted, each once.
    pub domain_names: Vec<String>,
    /// The clock type of each domain.
    pub domain_types: Vec<String>,
}

fn has_detail(v: &Vec<DetailSeen>, cpu: u32) -> (r: bool)
    ensures
        r == detail_seen(v@, cpu),
{
    let mut i: usize = 0;
    while i < v.len()
        invariant
            0 <= i <= v.len(),
            forall|k: int| 0 <= k < i ==> (#[trigger] v@[k]).cpu != cpu,
        decreases v.len() - i,
    {
        if v[i].cpu == cpu {
            assert(v@[i as int].cpu == cpu);
            return true;
        }
        i = i + 1;
    }
    false
}

impl LongTermHitraceSink {
    pub open spec fn wf(&self) -> bool {
        lt_wf(self@)
    }

    /// A sink with nothing read; clock snapshots are numbered from one.
    pub fn new() -> (r: Self)
        ensures
            r.wf(),
            r@ == (LongTermView {
                reported: ReportedClocks { boot: false, global: false, local: false, mono: false },
                clock_error: None,
                integrity_error: None,
                end_stats: None,
                details: Seq::empty(),
                first_overwrite: None,
                next_detail_sequence: 0,
                next_snapshot_id: 1,
                last_switch: Seq::empty(),
                has_switches: false,
            }),
    {
        let r = LongTermHitraceSink {
            reported: ReportedClocks::none(),
            first_clock_error: None,
            capture_integrity_error: None,
            end_stats_cpus: None,
            detail_cpus: Vec::new(),
            first_nonzero_overwrite: None,
            next_detail_sequence: 0,
            next_snapshot_id: 1,
            last_switch: Vec::new(),
            has_switches: false,
        };
        assert(r@.details =~= Seq::<DetailSeen>::empty());
        assert(r@.last_switch =~= Seq::<SwitchState>::empty());
        r
    }

    /// Reads a stats snapshot; see [`sp_capture_stats`]. Its faults are
    /// kept for the end.
    pub fn push_capture_stats(&mut self, stats: &CpuStats)
        requires
            old(self).wf(),
        ensures
            final(self).wf(),
            final(self)@ == sp_capture_stats(old(self)@, *stats),
    {
        let text = chars_of(stats.trace_clock.as_str());
        let trimmed = trim(text.as_slice());
        if trimmed.len() != 0 {
            match normalize_trace_clock(text.as_slice()) {
                Ok(c) => {
                    self.reported = self.reported.with(c);
                },
                Err(clock) => {
                    if self.first_clock_error.is_none() {
                        self.first_clock_error = Some(clock);
                    }
                },
            }
        }
        if self.capture_integrity_error.is_some() {
            return;
        }
        if !(stats.status == 0 || stats.status == 1) {
            self.capture_integrity_error = Some(HitraceError::InvalidStatsStatus { status: stats.status });
            return;
        }
        if stats.status != 1 {
            return;
        }
        if self.end_stats_cpus.is_some() {
            self.capture_integrity_error = Some(HitraceError::DuplicateEndStats);
            return;
        }
        match end_snapshot(&stats.per_cpu) {
            Err(e) => {
                self.capture_integrity_error = Some(e);
            },
            Ok(cpus) => {
                self.end_stats_cpus = Some(cpus);
            },
        }
    }

    fn push_clock_snapshot(&mut self, clocks: &Vec<ClockDetail>) -> (r: Result<Vec<SnapshotRow>, HitraceError>)
        requires
            old(self).wf(),
        ensures
            match r {
                Ok(rows) => {
                    &&& final(self).wf()
                    &&& sp_clock_snapshot(old(self)@, clocks@) == Ok::<(LongTermView, Seq<SnapshotRow>), HitraceErrorView>(
                        (final(self)@, rows@),
                    )
                },
                Err(e) => sp_clock_snapshot(old(self)@, clocks@) == Err::<(LongTermView, Seq<SnapshotRow>), HitraceErrorView>(e@),
            },
    {
        if self.next_snapshot_id == u64::MAX {
            return Err(HitraceError::SnapshotIdOverflow);
        }
        let rows = match snapshot_rows(self.next_snapshot_id, clocks) {
            Err(e) => return Err(e),
            Ok(rows) => rows,
        };
        self.next_snapshot_id = self.next_snapshot_id + 1;
        Ok(rows)
    }

    fn push_cpu_detail(&mut self, cpu: u32, overwrite: u64) -> (r: Result<(), HitraceError>)
        requires
            old(self).wf(),
        ensures
            match r {
                Ok(()) => {
                    &&& final(self).wf()
                    &&& sp_cpu_detail(old(self)@, cpu, overwrite) == Ok::<LongTermView, HitraceErrorView>(final(self)@)
                },
                Err(e) => sp_cpu_detail(old(self)@, cpu, overwrite) == Err::<LongTermView, HitraceErrorView>(e@),
            },
    {
        if self.next_detail_sequence == u64::MAX {
            return Err(HitraceError::DetailSequenceOverflow);
        }
        let sequence = self.next_detail_sequence;
        let ghost before = self@;
        if !has_detail(&self.detail_cpus, cpu) {
            self.detail_cpus.push(DetailSeen { cpu, sequence });
            proof {
                let d = self@.details;
                assert forall|i: int, j: int| 0 <= i < j < d.len() implies (#[trigger] d[i]).cpu != (#[trigger] d[j]).cpu by {
                    if j == d.len() - 1 {
                        assert(d[i] == before.details[i]);
                        if d[i].cpu == cpu {
                            assert(detail_seen(before.details, cpu));
                        }
                    }
                }
            }
        }
        if overwrite != 0 && self.first_nonzero_overwrite.is_none() {
            self.first_nonzero_overwrite = Some(OverwriteSeen { sequence, cpu, overwrite });
        }
        self.next_detail_sequence = sequence + 1;
        Ok(())
    }

    /// Reads a capture record; a clock snapshot gives its rows, in order.
    pub fn push_capture(&mut self, record: &FtraceCaptureRecord) -> (r: Result<Vec<SnapshotRow>, HitraceError>)
        requires
            old(self).wf(),
        ensures
            match r {
                Ok(rows) => {
                    &&& final(self).wf()
                    &&& sp_push_capture(old(self)@, *record) == Ok::<(LongTermView, Seq<SnapshotRow>), HitraceErrorView>(
                        (final(self)@, rows@),
                    )
                },
                Err(e) => sp_push_capture(old(self)@, *record) == Err::<(LongTermView, Seq<SnapshotRow>), HitraceErrorView>(
                    e@,
                ),
            },
    {
        match record {
            FtraceCaptureRecord::CpuStats(stats) => {
                self.push_capture_stats(stats);
                let rows: Vec<SnapshotRow> = Vec::new();
                assert(rows@ =~= Seq::<SnapshotRow>::empty());
                Ok(rows)
            },
            FtraceCaptureRecord::ClockSnapshot(clocks) => self.push_clock_snapshot(clocks),
            FtraceCaptureRecord::CpuDetail { cpu, overwrite } => {
                match self.push_cpu_detail(*cpu, *overwrite) {
                    Err(e) => Err(e),
                    Ok(()) => {
                        let rows: Vec<SnapshotRow> = Vec::new();
                        assert(rows@ =~= Seq::<SnapshotRow>::empty());
                        Ok(rows)
                    },
                }
            },
        }
    }

    /// Reads an event of `cpu`; a context switch gives its row.
    pub fn push_ftrace(&mut self, cpu: u32, event: &CpuEventRecord) -> (r: Result<Option<SwitchRow>, HitraceError>)
        requires
            old(self).wf(),
        ensures
            match r {
                Ok(row) => {
                    &&& final(self).wf()
                    &&& sp_push_ftrace(old(self)@, cpu, *event) == Ok::<(LongTermView, Option<SwitchRowView>), HitraceErrorView>(
                        (
                            final(self)@,
                            match row {
                                Some(x) => Some(x@),
                                None => None,
                            },
                        ),
                    )
                },
                Err(e) => sp_push_ftrace(old(self)@, cpu, *event) == Err::<
                    (LongTermView, Option<SwitchRowView>),
                    HitraceErrorView,
                >(e@),
            },
    {
        match &event.switch {
            None => Ok(None),
            Some(sw) => {
                let idx = find_switch(&self.last_switch, cpu);
                let sequence: u64 = if idx >= self.last_switch.len() {
                    0
                } else {
                    let p = self.last_switch[idx];
                    if event.timestamp < p.clock {
                        return Err(
                            HitraceError::ClockWentBackwards { cpu, previous: p.clock, current: event.timestamp },
                        );
                    }
                    if sw.prev_pid != p.next_thread {
                        return Err(
                            HitraceError::BrokenThreadContinuity {
                                cpu,
                                expected_previous_thread_id: p.next_thread,
                                actual_previous_thread_id: sw.prev_pid,
                            },
                        );
                    }
                    if p.sequence == u64::MAX {
                        return Err(HitraceError::SequenceOverflow { cpu });
                    }
                    p.sequence + 1
                };
                let ns = SwitchState { cpu, clock: event.timestamp, next_thread: sw.next_pid, sequence };
                if idx < self.last_switch.len() {
                    self.last_switch.set(idx, ns);
                } else {
                    self.last_switch.push(ns);
                }
                self.has_switches = true;
                Ok(
                    Some(
                        SwitchRow {
                            clock_value: event.timestamp,
                            cpu,
                            sequence,
                            previous_thread_id: sw.prev_pid,
                            previous_thread_name: sw.prev_comm.clone(),
                            next_thread_id: sw.next_pid,
                            next_thread_name: sw.next_comm.clone(),
                        },
                    ),
                )
            },
        }
    }

    /// Reads one ftrace-plugin result; see [`sp_push_plugin_result`].
    /// Gives the clock snapshot's rows and the context switches, in order.
    #[verifier::loop_isolation(false)]
    pub fn push_plugin_result(&mut self, result: &FtraceResult) -> (r: Result<(Vec<SnapshotRow>, Vec<SwitchRow>), HitraceError>)
        requires
            old(self).wf(),
        ensures
            match r {
                Ok((snapshots, rows)) => {
                    &&& final(self).wf()
                    &&& sp_push_plugin_result(old(self)@, *result) == Ok::<
                        (LongTermView, Seq<SnapshotRow>, Seq<SwitchRowView>),
                        HitraceErrorView,
                    >((final(self)@, snapshots@, rows_view(rows@)))
                },
                Err(e) => sp_push_plugin_result(old(self)@, *result) == Err::<
                    (LongTermView, Seq<SnapshotRow>, Seq<SwitchRowView>),
                    HitraceErrorView,
                >(e@),
            },
    {
        let ghost start = self@;
        let mut i: usize = 0;
        while i < result.stats.len()
            invariant
                0 <= i <= result.stats.len(),
                self.wf(),
                sp_stats_fold(start, result.stats@, 0) == sp_stats_fold(self@, result.stats@, i as int),
            decreases result.stats.len() - i,
        {
            self.push_capture_stats(&result.stats[i]);
            i = i + 1;
        }
        let snapshots: Vec<SnapshotRow> = if result.clocks.len() == 0 {
            let v: Vec<SnapshotRow> = Vec::new();
            assert(v@ =~= Seq::<SnapshotRow>::empty());
            v
        } else {
            match self.push_clock_snapshot(&result.clocks) {
                Err(e) => return Err(e),
                Ok(v) => v,
            }
        };
        let ghost mid = self@;
        let mut rows: Vec<SwitchRow> = Vec::new();
        assert(rows_view(rows@) =~= Seq::<SwitchRowView>::empty());
        let mut j: usize = 0;
        while j < result.details.len()
            invariant
                0 <= j <= result.details.len(),
                self.wf(),
                sp_details_fold(mid, Seq::empty(), result.details@, 0) == sp_details_fold(
                    self@,
                    rows_view(rows@),
                    result.details@,
                    j as int,
                ),
            decreases result.details.len() - j,
        {
            let d = &result.details[j];
            match self.push_cpu_detail(d.cpu, d.overwrite) {
                Err(e) => return Err(e),
                Ok(()) => {},
            }
            let ghost after_detail = self@;
            let ghost rows_before = rows_view(rows@);
            let mut k: usize = 0;
            while k < d.events.len()
                invariant
                    0 <= k <= d.events.len(),
                    self.wf(),
                    sp_events_fold(after_detail, rows_before, d.cpu, d.events@, 0) == sp_events_fold(
                        self@,
                        rows_view(rows@),
                        d.cpu,
                        d.events@,
                        k as int,
                    ),
                decreases d.events.len() - k,
            {
                let ghost rv = rows_view(rows@);
                match self.push_ftrace(d.cpu, &d.events[k]) {
                    Err(e) => return Err(e),
                    Ok(None) => {},
                    Ok(Some(row)) => {
                        rows.push(row);
                        assert(rows_view(rows@) =~= rv.push(row@));
                    },
                }
                k = k + 1;
            }
            j = j + 1;
        }
        Ok((snapshots, rows))
    }

    /// Judges the capture; see [`sp_validate_capture`].
    pub fn validate_ftrace_capture(&self) -> (r: Result<Option<TraceClock>, HitraceError>)
        ensures
            match r {
                Ok(c) => sp_validate_capture(self@) == Ok::<Option<TraceClock>, HitraceErrorView>(c),
                Err(e) => sp_validate_capture(self@) == Err::<Option<TraceClock>, HitraceErrorView>(e@),
            },
    {
        match &self.first_clock_error {
            Some(clock) => return Err(HitraceError::UnsupportedTraceClock { clock: clock.clone() }),
            None => {},
        }
        let clocks = self.reported.list();
        if clocks.len() > 1 {
            return Err(HitraceError::ConflictingTraceClocks { clocks });
        }
        if !self.has_switches {
            return Ok(None);
        }
        if clocks.len() == 0 {
            return Err(HitraceError::MissingTraceClock);
        }
        match &self.capture_integrity_error {
            Some(e) => return Err(e.clone_error()),
            None => {},
        }
        let stats = match &self.end_stats_cpus {
            None => return Err(HitraceError::MissingEndStats),
            Some(stats) => stats,
        };
        let missing = first_missing_of(&self.detail_cpus, stats);
        match (self.first_nonzero_overwrite, missing) {
            (Some(o), Some(m)) => {
                if o.sequence <= m.sequence {
                    Err(HitraceError::PageOverwrite { cpu: o.cpu, overwrite: o.overwrite })
                } else {
                    Err(HitraceError::IncompleteEndStats { cpu: m.cpu })
                }
            },
            (None, Some(m)) => Err(HitraceError::IncompleteEndStats { cpu: m.cpu }),
            (Some(o), None) => Err(HitraceError::PageOverwrite { cpu: o.cpu, overwrite: o.overwrite }),
            (None, None) => Ok(Some(clocks[0])),
        }
    }

    /// Ends the capture: judges it, and gives the clock domains of the
    /// header and of the CPUs with context switches.
    pub fn finish(self) -> (r: Result<LongTermCapture, HitraceError>)
        ensures
            match r {
                Err(e) => sp_validate_capture(self@) == Err::<Option<TraceClock>, HitraceErrorView>(e@),
                Ok(d) => {
                    &&& sp_validate_capture(self@) == Ok::<Option<TraceClock>, HitraceErrorView>(d.ftrace_clock)
                    &&& (strings_view(d.domain_names@), strings_view(d.domain_types@)) == sp_domains(
                        self@.last_switch,
                        d.ftrace_clock,
                    )
                    &&& sorted_names(strings_view(d.domain_names@))
                },
            },
    {
        let clock = match self.validate_ftrace_capture() {
            Err(e) => return Err(e),
            Ok(c) => c,
        };
        let (names, types) = clock_domain_table(&self.last_switch, clock);
        Ok(LongTermCapture { ftrace_clock: clock, domain_names: names, domain_types: types })
    }
}

fn first_missing_of(d: &Vec<DetailSeen>, stats: &Vec<u32>) -> (r: Option<DetailSeen>)
    ensures
        r == first_missing_detail(d@, stats@),
{
    let mut i: usize = 0;
    assert(d@.skip(0) =~= d@);
    while i < d.len()
        invariant
            0 <= i <= d.len(),
            first_missing_detail(d@, stats@) == first_missing_detail(d@.skip(i as int), stats@),
        decreases d.len() - i,
    {
        assert(d@.skip(i as int)[0] == d@[i as int]);
        assert(d@.skip(i as int).drop_first() =~= d@.skip(i + 1));
        if !super::validate::contains_u32(stats, d[i].cpu) {
            return Some(d[i]);
        }
        i = i + 1;
    }
    assert(d@.skip(i as int).len() == 0);
    None
}

} // verus!
