//! Decoded ftrace event records.
use vstd::prelude::*;

verus! {

/// The typed payload of one ftrace event.
#[derive(Debug)]
pub enum FtracePayload {
    SchedSwitch {
        prev_comm: String,
        prev_pid: i32,
        prev_prio: i32,
        prev_state: u64,
        next_comm: String,
        next_pid: i32,
        next_prio: i32,
    },
    SchedWakeup { comm: String, pid: i32, prio: i32, target_cpu: i32 },
    SchedWakeupNew { comm: String, pid: i32, prio: i32, target_cpu: i32 },
    Print { buf: String },
    RssStat { mm_id: u32, curr: u32, member_name: String, signed_size: i64 },
    CpuIdle { state: u32, cpu_id: u32 },
    IrqHandlerEntry { irq: i32, name: String },
    IrqHandlerExit { irq: i32, ret_symbol: String },
    SoftirqEntry { vec: u32, action: String },
    SoftirqExit { vec: u32, action: String },
    SoftirqRaise { vec: u32, action: String },
    IpiEntry { reason: String },
    IpiExit { reason: String },
    IpiRaise { reason: String, target_mask: String },
    IpiSendCpu { target_cpu: u32, callsite: String, callback: String },
    WorkqueueExecuteStart { work: u64, function_symbol: String },
    WorkqueueExecuteEnd { work: u64, function_symbol: String },
    BinderTransaction {
        debug_id: i32,
        target_node: i32,
        to_proc: i32,
        to_thread: i32,
        reply: i32,
        flags: u32,
        code: u32,
    },
    BinderTransactionReceived { debug_id: i32 },
    BlockBioRemap {
        dev: u64,
        rwbs: String,
        sector: u64,
        nr_sector: u32,
        old_dev: u64,
        old_sector: u64,
    },
    BlockRqComplete { dev: u64, rwbs: String, cmd: String, sector: u64, nr_sector: u32, error: i32 },
    BlockRqInsert {
        dev: u64,
        sector: u64,
        nr_sector: u32,
        bytes: u32,
        rwbs: String,
        comm: String,
        cmd: String,
    },
    BlockRqIssue {
        dev: u64,
        sector: u64,
        nr_sector: u32,
        bytes: u32,
        rwbs: String,
        comm: String,
        cmd: String,
    },
    KswapdWake { nid: i32, order: i32 },
    KswapdSleep { nid: i32 },
}

/// The content of an [`FtracePayload`], with text as character sequences.
pub enum PayloadView {
    SchedSwitch {
        prev_comm: Seq<char>,
        prev_pid: i32,
        prev_prio: i32,
        prev_state: u64,
        next_comm: Seq<char>,
        next_pid: i32,
        next_prio: i32,
    },
    SchedWakeup { comm: Seq<char>, pid: i32, prio: i32, target_cpu: i32 },
    SchedWakeupNew { comm: Seq<char>, pid: i32, prio: i32, target_cpu: i32 },
    Print { buf: Seq<char> },
    RssStat { mm_id: u32, curr: u32, member_name: Seq<char>, signed_size: i64 },
    CpuIdle { state: u32, cpu_id: u32 },
    IrqHandlerEntry { irq: i32, name: Seq<char> },
    IrqHandlerExit { irq: i32, ret_symbol: Seq<char> },
    SoftirqEntry { vec: u32, action: Seq<char> },
    SoftirqExit { vec: u32, action: Seq<char> },
    SoftirqRaise { vec: u32, action: Seq<char> },
    IpiEntry { reason: Seq<char> },
    IpiExit { reason: Seq<char> },
    IpiRaise { reason: Seq<char>, target_mask: Seq<char> },
    IpiSendCpu { target_cpu: u32, callsite: Seq<char>, callback: Seq<char> },
    WorkqueueExecuteStart { work: u64, function_symbol: Seq<char> },
    WorkqueueExecuteEnd { work: u64, function_symbol: Seq<char> },
    BinderTransaction {
        debug_id: i32,
        target_node: i32,
        to_proc: i32,
        to_thread: i32,
        reply: i32,
        flags: u32,
        code: u32,
    },
    BinderTransactionReceived { debug_id: i32 },
    BlockBioRemap {
        dev: u64,
        rwbs: Seq<char>,
        sector: u64,
        nr_sector: u32,
        old_dev: u64,
        old_sector: u64,
    },
    BlockRqComplete {
        dev: u64,
        rwbs: Seq<char>,
        cmd: Seq<char>,
        sector: u64,
        nr_sector: u32,
        error: i32,
    },
    BlockRqInsert {
        dev: u64,
        sector: u64,
        nr_sector: u32,
        bytes: u32,
        rwbs: Seq<char>,
        comm: Seq<char>,
        cmd: Seq<char>,
    },
    BlockRqIssue {
        dev: u64,
        sector: u64,
        nr_sector: u32,
        bytes: u32,
        rwbs: Seq<char>,
        comm: Seq<char>,
        cmd: Seq<char>,
    },
    KswapdWake { nid: i32, order: i32 },
    KswapdSleep { nid: i32 },
}

impl View for FtracePayload {
    type V = PayloadView;

    open spec fn view(&self) -> PayloadView {
        match self {
            FtracePayload::SchedSwitch {
                prev_comm,
                prev_pid,
                prev_prio,
                prev_state,
                next_comm,
                next_pid,
                next_prio,
            } => PayloadView::SchedSwitch {
                prev_comm: prev_comm@,
                prev_pid: *prev_pid,
                prev_prio: *prev_prio,
                prev_state: *prev_state,
                next_comm: next_comm@,
                next_pid: *next_pid,
                next_prio: *next_prio,
            },
            FtracePayload::SchedWakeup { comm, pid, prio, target_cpu } => PayloadView::SchedWakeup {
                comm: comm@,
                pid: *pid,
                prio: *prio,
                target_cpu: *target_cpu,
            },
            FtracePayload::SchedWakeupNew {
                comm,
                pid,
                prio,
                target_cpu,
            } => PayloadView::SchedWakeupNew {
                comm: comm@,
                pid: *pid,
                prio: *prio,
                target_cpu: *target_cpu,
            },
            FtracePayload::Print { buf } => PayloadView::Print { buf: buf@ },
            FtracePayload::RssStat { mm_id, curr, member_name, signed_size } => PayloadView::RssStat {
                mm_id: *mm_id,
                curr: *curr,
                member_name: member_name@,
                signed_size: *signed_size,
            },
            FtracePayload::CpuIdle { state, cpu_id } => PayloadView::CpuIdle {
                state: *state,
                cpu_id: *cpu_id,
            },
            FtracePayload::IrqHandlerEntry { irq, name } => PayloadView::IrqHandlerEntry {
                irq: *irq,
                name: name@,
            },
            FtracePayload::IrqHandlerExit { irq, ret_symbol } => PayloadView::IrqHandlerExit {
                irq: *irq,
                ret_symbol: ret_symbol@,
            },
            FtracePayload::SoftirqEntry { vec, action } => PayloadView::SoftirqEntry {
                vec: *vec,
                action: action@,
            },
            FtracePayload::SoftirqExit { vec, action } => PayloadView::SoftirqExit {
                vec: *vec,
                action: action@,
            },
            FtracePayload::SoftirqRaise { vec, action } => PayloadView::SoftirqRaise {
                vec: *vec,
                action: action@,
            },
            FtracePayload::IpiEntry { reason } => PayloadView::IpiEntry { reason: reason@ },
            FtracePayload::IpiExit { reason } => PayloadView::IpiExit { reason: reason@ },
            FtracePayload::IpiRaise { reason, target_mask } => PayloadView::IpiRaise {
                reason: reason@,
                target_mask: target_mask@,
            },
            FtracePayload::IpiSendCpu { target_cpu, callsite, callback } => PayloadView::IpiSendCpu {
                target_cpu: *target_cpu,
                callsite: callsite@,
                callback: callback@,
            },
            FtracePayload::WorkqueueExecuteStart {
                work,
                function_symbol,
            } => PayloadView::WorkqueueExecuteStart {
                work: *work,
                function_symbol: function_symbol@,
            },
            FtracePayload::WorkqueueExecuteEnd {
                work,
                function_symbol,
            } => PayloadView::WorkqueueExecuteEnd {
                work: *work,
                function_symbol: function_symbol@,
            },
            FtracePayload::BinderTransaction {
                debug_id,
                target_node,
                to_proc,
                to_thread,
                reply,
                flags,
                code,
            } => PayloadView::BinderTransaction {
                debug_id: *debug_id,
                target_node: *target_node,
                to_proc: *to_proc,
                to_thread: *to_thread,
                reply: *reply,
                flags: *flags,
                code: *code,
            },
            FtracePayload::BinderTransactionReceived {
                debug_id,
            } => PayloadView::BinderTransactionReceived { debug_id: *debug_id },
            FtracePayload::BlockBioRemap {
                dev,
                rwbs,
                sector,
                nr_sector,
                old_dev,
                old_sector,
            } => PayloadView::BlockBioRemap {
                dev: *dev,
                rwbs: rwbs@,
                sector: *sector,
                nr_sector: *nr_sector,
                old_dev: *old_dev,
                old_sector: *old_sector,
            },
            FtracePayload::BlockRqComplete {
                dev,
                rwbs,
                cmd,
                sector,
                nr_sector,
                error,
            } => PayloadView::BlockRqComplete {
                dev: *dev,
                rwbs: rwbs@,
                cmd: cmd@,
                sector: *sector,
                nr_sector: *nr_sector,
                error: *error,
            },
            FtracePayload::BlockRqInsert {
                dev,
                sector,
                nr_sector,
                bytes,
                rwbs,
                comm,
                cmd,
            } => PayloadView::BlockRqInsert {
                dev: *dev,
                sector: *sector,
                nr_sector: *nr_sector,
                bytes: *bytes,
                rwbs: rwbs@,
                comm: comm@,
                cmd: cmd@,
            },
            FtracePayload::BlockRqIssue {
                dev,
                sector,
                nr_sector,
                bytes,
                rwbs,
                comm,
                cmd,
            } => PayloadView::BlockRqIssue {
                dev: *dev,
                sector: *sector,
                nr_sector: *nr_sector,
                bytes: *bytes,
                rwbs: rwbs@,
                comm: comm@,
                cmd: cmd@,
            },
            FtracePayload::KswapdWake { nid, order } => PayloadView::KswapdWake {
                nid: *nid,
                order: *order,
            },
            FtracePayload::KswapdSleep { nid } => PayloadView::KswapdSleep { nid: *nid },
        }
    }
}

/// One decoded ftrace event: the common header fields and the typed payload.
#[derive(Debug)]
pub struct FtraceEvent {
    /// Clock value in nanoseconds.
    pub timestamp: u64,
    /// Thread group of the emitting thread, when the trace shows it.
    pub tgid: Option<i32>,
    /// Name of the emitting thread.
    pub comm: String,
    /// Thread id of the emitting thread.
    pub pid: i32,
    pub payload: FtracePayload,
}

/// The content of an [`FtraceEvent`].
pub struct FtraceEventView {
    pub timestamp: u64,
    pub tgid: Option<i32>,
    pub comm: Seq<char>,
    pub pid: i32,
    pub payload: PayloadView,
}

impl View for FtraceEvent {
    type V = FtraceEventView;

    open spec fn view(&self) -> FtraceEventView {
        FtraceEventView {
            timestamp: self.timestamp,
            tgid: self.tgid,
            comm: self.comm@,
            pid: self.pid,
            payload: self.payload@,
        }
    }
}

} // verus!
