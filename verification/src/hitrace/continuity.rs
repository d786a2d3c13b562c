//! Per-CPU continuity of the context switches that validation keeps.
use vstd::prelude::*;
use super::validate::{CpuDetail, CpuEventRecord, EvidenceView, FtraceResult, SwitchRowView, SwitchState, sp_apply_result, sp_clocks, sp_detail, sp_details_from, sp_event, sp_events_from, sp_one_stats, sp_stats_from, switch_index};
use super::long_term::{FtraceCaptureRecord, LongTermView, sp_capture_stats, sp_clock_snapshot, sp_cpu_detail, sp_details_fold, sp_events_fold, sp_push_capture, sp_push_ftrace, sp_push_plugin_result, sp_stats_fold};

verus! {

/// The last row of `cpu` among `rows`, if any.
pub open spec fn last_row_of(rows: Seq<SwitchRowView>, cpu: u32) -> Option<SwitchRowView>
    decreases rows.len(),
{
    if rows.len() == 0 {
        None
    } else if rows.last().cpu == cpu {
        Some(rows.last())
    } else {
        last_row_of(rows.drop_last(), cpu)
    }
}

/// Each switch continues the one before it on its CPU: the first of a CPU
/// is number zero; a later one is numbered one more, is not stamped
/// earlier, and switches away from the thread that the one before
/// switched to.
pub open spec fn continues(rows: Seq<SwitchRowView>) -> bool {
    forall|i: int| 0 <= i < rows.len() ==> #[trigger] continues_at(rows, i)
}

pub open spec fn continues_at(rows: Seq<SwitchRowView>, i: int) -> bool {
    match last_row_of(rows.take(i), rows[i].cpu) {
        None => rows[i].sequence == 0,
        Some(p) => rows[i].sequence == p.sequence + 1 && p.clock_value <= rows[i].clock_value
            && rows[i].previous_thread_id == p.next_thread_id,
    }
}

/// The per-CPU state holds, for each CPU, its last row.
pub open spec fn tracks(ls: Seq<SwitchState>, rows: Seq<SwitchRowView>) -> bool {
    forall|cpu: u32| #[trigger] tracks_cpu(ls, rows, cpu)
}

pub open spec fn tracks_cpu(ls: Seq<SwitchState>, rows: Seq<SwitchRowView>, cpu: u32) -> bool {
    match last_row_of(rows, cpu) {
        None => switch_index(ls, cpu) == ls.len(),
        Some(p) => switch_index(ls, cpu) < ls.len() && ls[switch_index(ls, cpu) as int] == SwitchState {
            cpu,
            clock: p.clock_value,
            next_thread: p.next_thread_id,
            sequence: p.sequence,
        },
    }
}

proof fn lemma_switch_index(s: Seq<SwitchState>, c: u32)
    ensures
        switch_index(s, c) <= s.len(),
        switch_index(s, c) < s.len() ==> s[switch_index(s, c) as int].cpu == c,
        forall|k: int| 0 <= k < switch_index(s, c) ==> (#[trigger] s[k]).cpu != c,
    decreases s.len(),
{
    if s.len() > 0 && s[0].cpu != c {
        lemma_switch_index(s.drop_first(), c);
        assert forall|k: int| 0 <= k < switch_index(s, c) implies (#[trigger] s[k]).cpu != c by {
            if k > 0 {
                assert(s[k] == s.drop_first()[k - 1]);
            }
        }
    }
}

proof fn lemma_switch_index_unique(s: Seq<SwitchState>, c: u32, k: int)
    requires
        0 <= k <= s.len(),
        k < s.len() ==> s[k].cpu == c,
        forall|j: int| 0 <= j < k ==> (#[trigger] s[j]).cpu != c,
    ensures
        switch_index(s, c) == k,
    decreases s.len(),
{
    if s.len() > 0 && k > 0 {
        assert(s[0].cpu != c);
        assert forall|j: int| 0 <= j < k - 1 implies (#[trigger] s.drop_first()[j]).cpu != c by {
            assert(s.drop_first()[j] == s[j + 1]);
        }
        lemma_switch_index_unique(s.drop_first(), c, k - 1);
    }
}

proof fn lemma_last_row_push(rows: Seq<SwitchRowView>, r: SwitchRowView, c: u32)
    ensures
        last_row_of(rows.push(r), c) == (if r.cpu == c {
            Some(r)
        } else {
            last_row_of(rows, c)
        }),
{
    assert(rows.push(r).drop_last() =~= rows);
}

/// A context switch `r` that continues the last one of its CPU in `ls`, or
/// is the first of its CPU, keeps the rows continuous; recording it in the
/// state keeps the state tracking them.
proof fn lemma_switch_step(ls: Seq<SwitchState>, h: Seq<SwitchRowView>, r: SwitchRowView, ls2: Seq<SwitchState>)
    requires
        continues(h),
        tracks(ls, h),
        ({
            let idx = switch_index(ls, r.cpu) as int;
            let ns = SwitchState { cpu: r.cpu, clock: r.clock_value, next_thread: r.next_thread_id, sequence: r.sequence };
            if idx < ls.len() {
                &&& r.sequence == ls[idx].sequence + 1
                &&& ls[idx].clock <= r.clock_value
                &&& r.previous_thread_id == ls[idx].next_thread
                &&& ls2 == ls.update(idx, ns)
            } else {
                &&& r.sequence == 0
                &&& ls2 == ls.push(ns)
            }
        }),
    ensures
        continues(h.push(r)),
        tracks(ls2, h.push(r)),
{
    let cpu = r.cpu;
    let idx = switch_index(ls, cpu) as int;
    lemma_switch_index(ls, cpu);
    assert(tracks_cpu(ls, h, cpu));
    let h2 = h.push(r);
    assert forall|i: int| 0 <= i < h2.len() implies #[trigger] continues_at(h2, i) by {
        if i < h.len() {
            assert(h2.take(i) =~= h.take(i));
            assert(h2[i] == h[i]);
            assert(continues_at(h, i));
        } else {
            assert(h2.take(i) =~= h);
        }
    }
    assert forall|c: u32| #[trigger] tracks_cpu(ls2, h2, c) by {
        lemma_last_row_push(h, r, c);
        assert(tracks_cpu(ls, h, c));
        lemma_switch_index(ls, c);
        let ic = switch_index(ls, c) as int;
        if idx < ls.len() {
            assert forall|j: int| 0 <= j < ic implies (#[trigger] ls2[j]).cpu != c by {
                assert(ls2[j].cpu == ls[j].cpu);
            }
            if ic < ls.len() {
                assert(ls2[ic].cpu == ls[ic].cpu);
            }
            lemma_switch_index_unique(ls2, c, ic);
        } else {
            if c == cpu {
                assert forall|j: int| 0 <= j < ls.len() implies (#[trigger] ls2[j]).cpu != c by {
                    assert(ls2[j] == ls[j]);
                }
                lemma_switch_index_unique(ls2, c, ls.len() as int);
            } else if ic < ls.len() {
                assert forall|j: int| 0 <= j < ic implies (#[trigger] ls2[j]).cpu != c by {
                    assert(ls2[j] == ls[j]);
                }
                assert(ls2[ic] == ls[ic]);
                lemma_switch_index_unique(ls2, c, ic);
            } else {
                assert forall|j: int| 0 <= j < ls2.len() implies (#[trigger] ls2[j]).cpu != c by {
                    if j < ls.len() {
                        assert(ls2[j] == ls[j]);
                    }
                }
                lemma_switch_index_unique(ls2, c, ls2.len() as int);
            }
        }
    }
}

/// One event keeps the rows continuous and the state tracking them.
proof fn lemma_event(st: EvidenceView, before: Seq<SwitchRowView>, rows: Seq<SwitchRowView>, cpu: u32, e: CpuEventRecord)
    requires
        continues(before + rows),
        tracks(st.last_switch, before + rows),
    ensures
        sp_event(st, rows, cpu, e) matches Ok((st2, rows2)) ==> continues(before + rows2) && tracks(
            st2.last_switch,
            before + rows2,
        ),
{
    match sp_event(st, rows, cpu, e) {
        Ok((st2, rows2)) => {
            match e.switch {
                None => {},
                Some(sw) => {
                    let h = before + rows;
                    let r = rows2.last();
                    assert(rows2 == rows.push(r));
                    assert(before + rows2 =~= h.push(r));
                    lemma_switch_step(st.last_switch, h, r, st2.last_switch);
                },
            }
        },
        Err(_) => {},
    }
}

proof fn lemma_events_from(
    st: EvidenceView,
    before: Seq<SwitchRowView>,
    rows: Seq<SwitchRowView>,
    cpu: u32,
    events: Seq<CpuEventRecord>,
    i: int,
)
    requires
        continues(before + rows),
        tracks(st.last_switch, before + rows),
    ensures
        sp_events_from(st, rows, cpu, events, i) matches Ok((st2, rows2)) ==> continues(before + rows2)
            && tracks(st2.last_switch, before + rows2),
    decreases events.len() - i,
{
    if 0 <= i < events.len() {
        lemma_event(st, before, rows, cpu, events[i]);
        match sp_event(st, rows, cpu, events[i]) {
            Ok((st2, rows2)) => lemma_events_from(st2, before, rows2, cpu, events, i + 1),
            Err(_) => {},
        }
    }
}

proof fn lemma_details_from(st: EvidenceView, before: Seq<SwitchRowView>, rows: Seq<SwitchRowView>, details: Seq<CpuDetail>, i: int)
    requires
        continues(before + rows),
        tracks(st.last_switch, before + rows),
    ensures
        sp_details_from(st, rows, details, i) matches Ok((st2, rows2)) ==> continues(before + rows2)
            && tracks(st2.last_switch, before + rows2),
    decreases details.len() - i,
{
    if 0 <= i < details.len() {
        let d = details[i];
        let st1 = EvidenceView { detail_cpus: crate::sorted::insert_u32(st.detail_cpus, d.cpu), ..st };
        if d.overwrite == 0 {
            lemma_events_from(st1, before, rows, d.cpu, d.events@, 0);
        }
        match sp_detail(st, rows, d) {
            Ok((st2, rows2)) => lemma_details_from(st2, before, rows2, details, i + 1),
            Err(_) => {},
        }
    }
}

proof fn lemma_stats_keep_switches(st: EvidenceView, stats: Seq<super::validate::CpuStats>, i: int)
    ensures
        sp_stats_from(st, stats, i) matches Ok(st2) ==> st2.last_switch == st.last_switch,
    decreases stats.len() - i,
{
    if 0 <= i < stats.len() {
        match sp_one_stats(st, stats[i]) {
            Ok(next) => lemma_stats_keep_switches(next, stats, i + 1),
            Err(_) => {},
        }
    }
}

/// Validating a result keeps every CPU's context switches continuous: if
/// the switches kept before continue one another and the evidence tracks
/// them, then with the result's switches appended they still do, and the
/// new evidence tracks them.
pub proof fn lemma_apply_keeps_continuity(st: EvidenceView, r: FtraceResult, before: Seq<SwitchRowView>)
    requires
        continues(before),
        tracks(st.last_switch, before),
    ensures
        sp_apply_result(st, r) matches Ok((st2, rows)) ==> continues(before + rows) && tracks(
            st2.last_switch,
            before + rows,
        ),
{
    assert(before + Seq::<SwitchRowView>::empty() =~= before);
    lemma_stats_keep_switches(st, r.stats@, 0);
    match sp_stats_from(st, r.stats@, 0) {
        Ok(st1) => {
            match sp_clocks(st1, r.clocks@) {
                Ok(st2) => {
                    assert(st2.last_switch == st1.last_switch);
                    lemma_details_from(st2, before, Seq::empty(), r.details@, 0);
                },
                Err(_) => {},
            }
        },
        Err(_) => {},
    }
}

/// Before any result, no switch is kept and the evidence tracks none.
pub proof fn lemma_start_continuity()
    ensures
        continues(Seq::<SwitchRowView>::empty()),
        tracks(Seq::<SwitchState>::empty(), Seq::<SwitchRowView>::empty()),
{
    assert forall|c: u32| #[trigger] tracks_cpu(Seq::<SwitchState>::empty(), Seq::<SwitchRowView>::empty(), c) by {
    }
}

/// Reading an event record keeps every CPU's context switches continuous:
/// a context switch that is accepted continues the last one of its CPU,
/// and the sink then tracks it; any other event leaves the sink as it was.
pub proof fn lemma_push_ftrace_keeps_continuity(st: LongTermView, cpu: u32, e: CpuEventRecord, before: Seq<SwitchRowView>)
    requires
        continues(before),
        tracks(st.last_switch, before),
    ensures
        match sp_push_ftrace(st, cpu, e) {
            Ok((st2, Some(row))) => continues(before.push(row)) && tracks(st2.last_switch, before.push(row)),
            Ok((st2, None)) => st2 == st,
            Err(_) => true,
        },
{
    match sp_push_ftrace(st, cpu, e) {
        Ok((st2, Some(row))) => {
            lemma_switch_step(st.last_switch, before, row, st2.last_switch);
        },
        _ => {},
    }
}

/// Reading a capture record other than an event leaves the context
/// switches alone.
pub proof fn lemma_push_capture_keeps_switches(st: LongTermView, r: FtraceCaptureRecord)
    ensures
        sp_push_capture(st, r) matches Ok((st2, _)) ==> st2.last_switch == st.last_switch,
{
}

proof fn lemma_stats_fold_keeps_switches(st: LongTermView, stats: Seq<super::validate::CpuStats>, i: int)
    ensures
        sp_stats_fold(st, stats, i).last_switch == st.last_switch,
    decreases stats.len() - i,
{
    if 0 <= i < stats.len() {
        lemma_stats_fold_keeps_switches(sp_capture_stats(st, stats[i]), stats, i + 1);
    }
}

proof fn lemma_events_fold(
    st: LongTermView,
    before: Seq<SwitchRowView>,
    rows: Seq<SwitchRowView>,
    cpu: u32,
    events: Seq<CpuEventRecord>,
    i: int,
)
    requires
        continues(before + rows),
        tracks(st.last_switch, before + rows),
    ensures
        sp_events_fold(st, rows, cpu, events, i) matches Ok((st2, rows2)) ==> continues(before + rows2)
            && tracks(st2.last_switch, before + rows2),
    decreases events.len() - i,
{
    if 0 <= i < events.len() {
        lemma_push_ftrace_keeps_continuity(st, cpu, events[i], before + rows);
        match sp_push_ftrace(st, cpu, events[i]) {
            Ok((st2, Some(row))) => {
                assert((before + rows).push(row) =~= before + rows.push(row));
                lemma_events_fold(st2, before, rows.push(row), cpu, events, i + 1);
            },
            Ok((st2, None)) => {
                lemma_events_fold(st2, before, rows, cpu, events, i + 1);
            },
            Err(_) => {},
        }
    }
}

proof fn lemma_details_fold(
    st: LongTermView,
    before: Seq<SwitchRowView>,
    rows: Seq<SwitchRowView>,
    details: Seq<CpuDetail>,
    i: int,
)
    requires
        continues(before + rows),
        tracks(st.last_switch, before + rows),
    ensures
        sp_details_fold(st, rows, details, i) matches Ok((st2, rows2)) ==> continues(before + rows2)
            && tracks(st2.last_switch, before + rows2),
    decreases details.len() - i,
{
    if 0 <= i < details.len() {
        let d = details[i];
        match sp_cpu_detail(st, d.cpu, d.overwrite) {
            Ok(next) => {
                lemma_events_fold(next, before, rows, d.cpu, d.events@, 0);
                match sp_events_fold(next, rows, d.cpu, d.events@, 0) {
                    Ok((after, rows2)) => lemma_details_fold(after, before, rows2, details, i + 1),
                    Err(_) => {},
                }
            },
            Err(_) => {},
        }
    }
}

/// Reading an ftrace-plugin result record by record keeps every CPU's
/// context switches continuous: if the switches read before continue one
/// another and the sink tracks them, then with the result's switches
/// appended they still do, and the sink tracks them.
pub proof fn lemma_plugin_result_keeps_continuity(st: LongTermView, r: FtraceResult, before: Seq<SwitchRowView>)
    requires
        continues(before),
        tracks(st.last_switch, before),
    ensures
        sp_push_plugin_result(st, r) matches Ok((st2, _, rows)) ==> continues(before + rows) && tracks(
            st2.last_switch,
            before + rows,
        ),
{
    assert(before + Seq::<SwitchRowView>::empty() =~= before);
    lemma_stats_fold_keeps_switches(st, r.stats@, 0);
    let st1 = sp_stats_fold(st, r.stats@, 0);
    if r.clocks.len() == 0 {
        lemma_details_fold(st1, before, Seq::empty(), r.details@, 0);
    } else {
        match sp_clock_snapshot(st1, r.clocks@) {
            Ok((st2, _)) => lemma_details_fold(st2, before, Seq::empty(), r.details@, 0),
            Err(_) => {},
        }
    }
}

} // verus!
