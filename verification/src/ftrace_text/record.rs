//! One record line applied to the decoding state: a supported event is
//! decoded and kept, any other event is counted by name.
use vstd::prelude::*;
use crate::text::{eq_str, owned, string_of};
use super::event::{FtraceEvent, FtraceEventView, FtracePayload, PayloadView};
use super::line::{
    LineErrorView, LineFieldsView, TextFtraceLineError, parse_line_fields, sp_line_fields,
};
use super::parsers::{
    PR, SoftirqKind, parse_binder_received, parse_binder_transaction, parse_block_bio_remap,
    parse_block_complete, parse_block_request, parse_cpu_idle, parse_ipi_raise, parse_ipi_reason,
    parse_ipi_send_cpu, parse_irq_entry, parse_irq_exit, parse_kswapd_sleep, parse_kswapd_wake,
    parse_rss_stat, parse_softirq, parse_switch, parse_wakeup, parse_workqueue,
    sp_binder_received, sp_binder_transaction, sp_block_bio_remap, sp_block_complete,
    sp_block_request, sp_cpu_idle, sp_ipi_raise, sp_ipi_reason, sp_ipi_send_cpu, sp_irq_entry,
    sp_irq_exit, sp_kswapd_sleep, sp_kswapd_wake, sp_rss_stat, sp_softirq, sp_switch, sp_wakeup,
    sp_workqueue,
};
use super::payload::{PayloadError, PayloadErrorView, rview};
use super::summary::{
    CompatibilityView, SummaryView, TextFtraceCompatibilityError, TextFtraceSummary, spec_record,
};

verus! {

/// The grammar of each supported event, by event name; `None` for an
/// event that the importer does not support.
pub open spec fn sp_known_event(name: Seq<char>, payload: Seq<char>) -> Option<PR<PayloadView>> {
    if name == "sched_switch"@ {
        Some(sp_switch(payload))
    } else if name == "sched_wakeup"@ {
        Some(sp_wakeup(payload, false))
    } else if name == "sched_wakeup_new"@ {
        Some(sp_wakeup(payload, true))
    } else if name == "tracing_mark_write"@ {
        Some(Ok(PayloadView::Print { buf: payload }))
    } else if name == "binder_transaction"@ {
        Some(sp_binder_transaction(payload))
    } else if name == "binder_transaction_received"@ {
        Some(sp_binder_received(payload))
    } else if name == "block_bio_remap"@ {
        Some(sp_block_bio_remap(payload))
    } else if name == "block_rq_complete"@ {
        Some(sp_block_complete(payload))
    } else if name == "block_rq_insert"@ {
        Some(sp_block_request(payload, false))
    } else if name == "block_rq_issue"@ {
        Some(sp_block_request(payload, true))
    } else if name == "cpu_idle"@ {
        Some(sp_cpu_idle(payload))
    } else if name == "ipi_entry"@ {
        Some(sp_ipi_reason(payload, false))
    } else if name == "ipi_exit"@ {
        Some(sp_ipi_reason(payload, true))
    } else if name == "ipi_raise"@ {
        Some(sp_ipi_raise(payload))
    } else if name == "ipi_send_cpu"@ {
        Some(sp_ipi_send_cpu(payload))
    } else if name == "irq_handler_entry"@ {
        Some(sp_irq_entry(payload))
    } else if name == "irq_handler_exit"@ {
        Some(sp_irq_exit(payload))
    } else if name == "mm_vmscan_kswapd_sleep"@ {
        Some(sp_kswapd_sleep(payload))
    } else if name == "mm_vmscan_kswapd_wake"@ {
        Some(sp_kswapd_wake(payload))
    } else if name == "rss_stat"@ {
        Some(sp_rss_stat(payload))
    } else if name == "softirq_entry"@ {
        Some(sp_softirq(payload, SoftirqKind::Entry))
    } else if name == "softirq_exit"@ {
        Some(sp_softirq(payload, SoftirqKind::Exit))
    } else if name == "softirq_raise"@ {
        Some(sp_softirq(payload, SoftirqKind::Raise))
    } else if name == "workqueue_execute_end"@ {
        Some(sp_workqueue(payload, false))
    } else if name == "workqueue_execute_start"@ {
        Some(sp_workqueue(payload, true))
    } else {
        None
    }
}

pub fn parse_known_event(name: &[char], payload: &[char]) -> (r: Option<
    Result<FtracePayload, PayloadError>,
>)
    ensures
        match r {
            None => sp_known_event(name@, payload@) is None,
            Some(res) => sp_known_event(name@, payload@) == Some(rview(res)),
        },
{
    if eq_str(name, "sched_switch") {
        Some(parse_switch(payload))
    } else if eq_str(name, "sched_wakeup") {
        Some(parse_wakeup(payload, false))
    } else if eq_str(name, "sched_wakeup_new") {
        Some(parse_wakeup(payload, true))
    } else if eq_str(name, "tracing_mark_write") {
        Some(Ok(FtracePayload::Print { buf: string_of(payload) }))
    } else if eq_str(name, "binder_transaction") {
        Some(parse_binder_transaction(payload))
    } else if eq_str(name, "binder_transaction_received") {
        Some(parse_binder_received(payload))
    } else if eq_str(name, "block_bio_remap") {
        Some(parse_block_bio_remap(payload))
    } else if eq_str(name, "block_rq_complete") {
        Some(parse_block_complete(payload))
    } else if eq_str(name, "block_rq_insert") {
        Some(parse_block_request(payload, false))
    } else if eq_str(name, "block_rq_issue") {
        Some(parse_block_request(payload, true))
    } else if eq_str(name, "cpu_idle") {
        Some(parse_cpu_idle(payload))
    } else if eq_str(name, "ipi_entry") {
        Some(parse_ipi_reason(payload, false))
    } else if eq_str(name, "ipi_exit") {
        Some(parse_ipi_reason(payload, true))
    } else if eq_str(name, "ipi_raise") {
        Some(parse_ipi_raise(payload))
    } else if eq_str(name, "ipi_send_cpu") {
        Some(parse_ipi_send_cpu(payload))
    } else if eq_str(name, "irq_handler_entry") {
        Some(parse_irq_entry(payload))
    } else if eq_str(name, "irq_handler_exit") {
        Some(parse_irq_exit(payload))
    } else if eq_str(name, "mm_vmscan_kswapd_sleep") {
        Some(parse_kswapd_sleep(payload))
    } else if eq_str(name, "mm_vmscan_kswapd_wake") {
        Some(parse_kswapd_wake(payload))
    } else if eq_str(name, "rss_stat") {
        Some(parse_rss_stat(payload))
    } else if eq_str(name, "softirq_entry") {
        Some(parse_softirq(payload, SoftirqKind::Entry))
    } else if eq_str(name, "softirq_exit") {
        Some(parse_softirq(payload, SoftirqKind::Exit))
    } else if eq_str(name, "softirq_raise") {
        Some(parse_softirq(payload, SoftirqKind::Raise))
    } else if eq_str(name, "workqueue_execute_end") {
        Some(parse_workqueue(payload, false))
    } else if eq_str(name, "workqueue_execute_start") {
        Some(parse_workqueue(payload, true))
    } else {
        None
    }
}

/// The compatibility error for a rejected payload of event `name` at `line`:
/// a field error names its field, any other error names the whole payload.
pub open spec fn compat_view(name: Seq<char>, line: u64, e: PayloadErrorView) -> CompatibilityView {
    match e {
        PayloadErrorView::Field { field, reason } => CompatibilityView {
            event: name,
            field,
            line,
            reason,
        },
        PayloadErrorView::Message(m) => CompatibilityView {
            event: name,
            field: "payload"@,
            line,
            reason: m,
        },
    }
}

pub fn compatibility_error(name: &[char], line: u64, e: PayloadError) -> (r:
    TextFtraceCompatibilityError)
    ensures
        r@ == compat_view(name@, line, e@),
{
    match e {
        PayloadError::Field { field, reason } => TextFtraceCompatibilityError::new(
            string_of(name),
            owned(field),
            line,
            owned(reason),
        ),
        PayloadError::Message(m) => TextFtraceCompatibilityError::new(
            string_of(name),
            owned("payload"),
            line,
            m,
        ),
    }
}

/// A decoded event and the CPU that recorded it.
#[derive(Debug)]
pub struct CpuEvent {
    pub cpu: u32,
    pub event: FtraceEvent,
}

impl View for CpuEvent {
    type V = (u32, FtraceEventView);

    open spec fn view(&self) -> (u32, FtraceEventView) {
        (self.cpu, self.event@)
    }
}

pub open spec fn cpu_events_view(v: Seq<CpuEvent>) -> Seq<(u32, FtraceEventView)> {
    v.map_values(|e: CpuEvent| e@)
}

/// What decoding has produced so far.
pub struct DecodeView {
    pub events: Seq<(u32, FtraceEventView)>,
    pub summary: SummaryView,
}

/// The event of a record line with a decoded payload.
pub open spec fn event_view(f: LineFieldsView, payload: PayloadView) -> FtraceEventView {
    FtraceEventView { timestamp: f.clock, tgid: f.tgid, comm: f.comm, pid: f.pid, payload }
}

/// One more record counted.
pub open spec fn counted(st: DecodeView) -> Result<DecodeView, LineErrorView> {
    if st.summary.seen_events == u64::MAX {
        Err(LineErrorView::EventCountOverflow)
    } else {
        Ok(
            DecodeView {
                events: st.events,
                summary: SummaryView {
                    unsupported: st.summary.unsupported,
                    seen_events: (st.summary.seen_events + 1) as u64,
                },
            },
        )
    }
}

/// The state after the record line `line`, numbered `n`.
#[verifier::opaque]
pub open spec fn sp_parse_line(line: Seq<char>, n: u64, st: DecodeView) -> Result<
    DecodeView,
    LineErrorView,
> {
    match sp_line_fields(line) {
        Err(e) => Err(e),
        Ok(f) => match sp_known_event(f.name, f.payload) {
            Some(Err(pe)) => Err(LineErrorView::Incompatible(compat_view(f.name, n, pe))),
            Some(Ok(p)) => counted(
                DecodeView { events: st.events.push((f.cpu, event_view(f, p))), summary: st.summary },
            ),
            None => match spec_record(st.summary.unsupported, f.name, n) {
                None => Err(LineErrorView::UnsupportedCountOverflow),
                Some(u) => counted(
                    DecodeView {
                        events: st.events,
                        summary: SummaryView { unsupported: u, seen_events: st.summary.seen_events },
                    },
                ),
            },
        },
    }
}

/// Applies one record line to the decoding state.
pub fn parse_line(
    line: &[char],
    n: u64,
    events: &mut Vec<CpuEvent>,
    summary: &mut TextFtraceSummary,
) -> (r: Result<(), TextFtraceLineError>)
    requires
        old(summary).wf(),
    ensures
        final(summary).wf(),
        match r {
            Ok(()) => sp_parse_line(
                line@,
                n,
                DecodeView { events: cpu_events_view(old(events)@), summary: old(summary)@ },
            ) == Ok::<DecodeView, LineErrorView>(
                DecodeView { events: cpu_events_view(final(events)@), summary: final(summary)@ },
            ),
            Err(e) => sp_parse_line(
                line@,
                n,
                DecodeView { events: cpu_events_view(old(events)@), summary: old(summary)@ },
            ) == Err::<DecodeView, LineErrorView>(e@),
        },
{
    reveal(sp_parse_line);
    let f = match parse_line_fields(line) {
        Ok(f) => f,
        Err(e) => return Err(e),
    };
    match parse_known_event(f.name, f.payload) {
        Some(Err(pe)) => {
            return Err(TextFtraceLineError::Incompatible(compatibility_error(f.name, n, pe)));
        },
        Some(Ok(payload)) => {
            let ghost old_events = cpu_events_view(events@);
            let event = FtraceEvent {
                timestamp: f.clock,
                tgid: f.tgid,
                comm: f.comm,
                pid: f.pid,
                payload,
            };
            let cpu = f.cpu;
            events.push(CpuEvent { cpu, event });
            assert(cpu_events_view(events@) =~= old_events.push((cpu, event@)));
        },
        None => {
            if !summary.record_unsupported(f.name, n) {
                return Err(TextFtraceLineError::UnsupportedCountOverflow);
            }
        },
    }
    if !summary.count_event() {
        return Err(TextFtraceLineError::EventCountOverflow);
    }
    Ok(())
}

} // verus!
