//! The relational rows of decoded text ftrace events: each event gives an
//! occurrence row and a root row under one root row id, and one row of the
//! table of its payload kind under that kind's own row id.
use vstd::prelude::*;
use crate::text::owned;

verus! {

/// The `mm_filemap_*_page_cache` payload.
#[derive(Debug)]
pub struct FilemapPageCache {
    pub device_major: u32,
    pub device_minor: u32,
    pub inode: u64,
    pub page_frame_number: u64,
    pub offset_bytes: u64,
    pub order: Option<u32>,
    pub page_address: Option<String>,
}

/// The `sched_wakeup` and `sched_wakeup_new` payload.
#[derive(Debug)]
pub struct Wakeup {
    pub thread_name: String,
    pub thread_id: i32,
    pub priority: i32,
    pub target_cpu: u32,
}

/// The payload of a supported text ftrace event.
#[derive(Debug)]
pub enum TextFtracePayload {
    SchedSwitch {
        previous_thread_name: String,
        previous_thread_id: i32,
        previous_priority: i32,
        previous_state: String,
        next_thread_name: String,
        next_thread_id: i32,
        next_priority: i32,
    },
    SchedWakeup(Wakeup),
    SchedWakeupNew(Wakeup),
    TracingMarkWrite { content: String },
    SchedBlockedReason { pid: i32, io_wait: u32, caller: String },
    MmFilemapAddToPageCache(FilemapPageCache),
    MmFilemapDeleteFromPageCache(FilemapPageCache),
    BlockRqIssue {
        device_major: u32,
        device_minor: u32,
        rwbs: String,
        bytes: u32,
        command: String,
        sector: u64,
        sector_count: u32,
        process_name: String,
    },
    BlockRqComplete {
        device_major: u32,
        device_minor: u32,
        rwbs: String,
        command: String,
        sector: u64,
        sector_count: u32,
        error: i32,
    },
    BinderTransaction {
        transaction_id: i32,
        destination_node_id: i32,
        destination_process_id: i32,
        destination_thread_id: i32,
        reply: i32,
        flags: u32,
        code: u32,
    },
    Print { instruction_pointer: String, content: String },
}

/// A decoded text ftrace event; a supported event carries a payload.
#[derive(Debug)]
pub struct TextFtraceEvent {
    pub clock_domain: String,
    pub clock_value: u64,
    pub cpu: u32,
    pub emitter_thread_name: String,
    pub emitter_thread_id: i32,
    pub emitter_process_id: Option<i32>,
    pub context_flags: String,
    pub payload: Option<TextFtracePayload>,
}

/// The payload tables, one per payload kind.
#[derive(Debug, Clone, Copy, PartialEq, Eq, Structural)]
pub enum PayloadTable {
    SchedSwitch,
    SchedWakeup,
    SchedWakeupNew,
    TracingMarkWrite,
    SchedBlockedReason,
    MmFilemapAddToPageCache,
    MmFilemapDeleteFromPageCache,
    BlockRqIssue,
    BlockRqComplete,
    BinderTransaction,
    Print,
}

/// Number of payload tables.
pub const PAYLOAD_TABLES: usize = 11;

/// The position of a payload table among the row id counters.
pub open spec fn table_index(t: PayloadTable) -> int {
    match t {
        PayloadTable::SchedSwitch => 0,
        PayloadTable::SchedWakeup => 1,
        PayloadTable::SchedWakeupNew => 2,
        PayloadTable::TracingMarkWrite => 3,
        PayloadTable::SchedBlockedReason => 4,
        PayloadTable::MmFilemapAddToPageCache => 5,
        PayloadTable::MmFilemapDeleteFromPageCache => 6,
        PayloadTable::BlockRqIssue => 7,
        PayloadTable::BlockRqComplete => 8,
        PayloadTable::BinderTransaction => 9,
        PayloadTable::Print => 10,
    }
}

/// The table that holds rows of payload `p`.
pub open spec fn payload_table(p: TextFtracePayload) -> PayloadTable {
    match p {
        TextFtracePayload::SchedSwitch { .. } => PayloadTable::SchedSwitch,
        TextFtracePayload::SchedWakeup(_) => PayloadTable::SchedWakeup,
        TextFtracePayload::SchedWakeupNew(_) => PayloadTable::SchedWakeupNew,
        TextFtracePayload::TracingMarkWrite { .. } => PayloadTable::TracingMarkWrite,
        TextFtracePayload::SchedBlockedReason { .. } => PayloadTable::SchedBlockedReason,
        TextFtracePayload::MmFilemapAddToPageCache(_) => PayloadTable::MmFilemapAddToPageCache,
        TextFtracePayload::MmFilemapDeleteFromPageCache(_) => PayloadTable::MmFilemapDeleteFromPageCache,
        TextFtracePayload::BlockRqIssue { .. } => PayloadTable::BlockRqIssue,
        TextFtracePayload::BlockRqComplete { .. } => PayloadTable::BlockRqComplete,
        TextFtracePayload::BinderTransaction { .. } => PayloadTable::BinderTransaction,
        TextFtracePayload::Print { .. } => PayloadTable::Print,
    }
}

/// The Dataset table name of a payload table.
pub open spec fn payload_table_name(t: PayloadTable) -> Seq<char> {
    match t {
        PayloadTable::SchedSwitch => "text_ftrace_event_sched_switch"@,
        PayloadTable::SchedWakeup => "text_ftrace_event_sched_wakeup"@,
        PayloadTable::SchedWakeupNew => "text_ftrace_event_sched_wakeup_new"@,
        PayloadTable::TracingMarkWrite => "text_ftrace_event_tracing_mark_write"@,
        PayloadTable::SchedBlockedReason => "text_ftrace_event_sched_blocked_reason"@,
        PayloadTable::MmFilemapAddToPageCache => "text_ftrace_event_mm_filemap_add_to_page_cache"@,
        PayloadTable::MmFilemapDeleteFromPageCache => "text_ftrace_event_mm_filemap_delete_from_page_cache"@,
        PayloadTable::BlockRqIssue => "text_ftrace_event_block_rq_issue"@,
        PayloadTable::BlockRqComplete => "text_ftrace_event_block_rq_complete"@,
        PayloadTable::BinderTransaction => "text_ftrace_event_binder_transaction"@,
        PayloadTable::Print => "text_ftrace_event_print"@,
    }
}

impl PayloadTable {
    /// The table that holds rows of `payload`.
    pub fn of(payload: &TextFtracePayload) -> (r: PayloadTable)
        ensures
            r == payload_table(*payload),
    {
        match payload {
            TextFtracePayload::SchedSwitch { .. } => PayloadTable::SchedSwitch,
            TextFtracePayload::SchedWakeup(_) => PayloadTable::SchedWakeup,
            TextFtracePayload::SchedWakeupNew(_) => PayloadTable::SchedWakeupNew,
            TextFtracePayload::TracingMarkWrite { .. } => PayloadTable::TracingMarkWrite,
            TextFtracePayload::SchedBlockedReason { .. } => PayloadTable::SchedBlockedReason,
            TextFtracePayload::MmFilemapAddToPageCache(_) => PayloadTable::MmFilemapAddToPageCache,
            TextFtracePayload::MmFilemapDeleteFromPageCache(_) => PayloadTable::MmFilemapDeleteFromPageCache,
            TextFtracePayload::BlockRqIssue { .. } => PayloadTable::BlockRqIssue,
            TextFtracePayload::BlockRqComplete { .. } => PayloadTable::BlockRqComplete,
            TextFtracePayload::BinderTransaction { .. } => PayloadTable::BinderTransaction,
            TextFtracePayload::Print { .. } => PayloadTable::Print,
        }
    }

    /// The position of the table among the row id counters.
    pub fn index(self) -> (r: usize)
        ensures
            r == table_index(self),
    {
        match self {
            PayloadTable::SchedSwitch => 0,
            PayloadTable::SchedWakeup => 1,
            PayloadTable::SchedWakeupNew => 2,
            PayloadTable::TracingMarkWrite => 3,
            PayloadTable::SchedBlockedReason => 4,
            PayloadTable::MmFilemapAddToPageCache => 5,
            PayloadTable::MmFilemapDeleteFromPageCache => 6,
            PayloadTable::BlockRqIssue => 7,
            PayloadTable::BlockRqComplete => 8,
            PayloadTable::BinderTransaction => 9,
            PayloadTable::Print => 10,
        }
    }

    /// The Dataset table name.
    pub fn name(self) -> (r: String)
        ensures
            r@ == payload_table_name(self),
    {
        match self {
            PayloadTable::SchedSwitch => owned("text_ftrace_event_sched_switch"),
            PayloadTable::SchedWakeup => owned("text_ftrace_event_sched_wakeup"),
            PayloadTable::SchedWakeupNew => owned("text_ftrace_event_sched_wakeup_new"),
            PayloadTable::TracingMarkWrite => owned("text_ftrace_event_tracing_mark_write"),
            PayloadTable::SchedBlockedReason => owned("text_ftrace_event_sched_blocked_reason"),
            PayloadTable::MmFilemapAddToPageCache => owned("text_ftrace_event_mm_filemap_add_to_page_cache"),
            PayloadTable::MmFilemapDeleteFromPageCache => owned("text_ftrace_event_mm_filemap_delete_from_page_cache"),
            PayloadTable::BlockRqIssue => owned("text_ftrace_event_block_rq_issue"),
            PayloadTable::BlockRqComplete => owned("text_ftrace_event_block_rq_complete"),
            PayloadTable::BinderTransaction => owned("text_ftrace_event_binder_transaction"),
            PayloadTable::Print => owned("text_ftrace_event_print"),
        }
    }
}

/// A row of `text_ftrace_event_occurrence`.
#[derive(Debug)]
pub struct OccurrenceRow {
    pub row_id: u64,
    pub source_event_sequence: u64,
}

/// A row of `text_ftrace_event`; its parent row id is its own row id.
#[derive(Debug)]
pub struct RootRow {
    pub row_id: u64,
    pub parent_row_id: u64,
    pub clock_domain: String,
    pub clock_value: u64,
    pub cpu: u32,
    pub emitter_thread_name: String,
    pub emitter_thread_id: i32,
    pub emitter_process_id: Option<i32>,
    pub context_flags: String,
}

/// A row of the table of its payload's kind, under the root row.
#[derive(Debug)]
pub struct PayloadRow {
    pub row_id: u64,
    pub parent_row_id: u64,
    pub payload: TextFtracePayload,
}

/// The rows of one event.
#[derive(Debug)]
pub struct EventRows {
    pub occurrence: OccurrenceRow,
    pub root: RootRow,
    pub payload: PayloadRow,
}

/// A row of `text_ftrace_header`.
#[derive(Debug)]
pub struct HeaderRow {
    pub tracer: String,
    pub has_tgid_column: bool,
}

/// Why the rows of an event or of the header cannot be given.
#[derive(Debug, PartialEq, Eq, Structural)]
pub enum OutputError {
    /// The root table has handed out every `u64` row id.
    RootRowIdOverflow,
    /// The payload table has handed out every `u64` row id.
    PayloadRowIdOverflow { table: PayloadTable },
    /// A supported event came without its payload.
    MissingPayload,
    /// The trace header was never validated.
    MissingHeader,
}

/// The next row id of each table, and the validated header.
#[derive(Debug)]
pub struct OutputTables {
    next_root: u64,
    next_payload: Vec<u64>,
    header: Option<HeaderRow>,
}

/// The content of [`OutputTables`]: the next root row id and the next row
/// id of each payload table, by [`table_index`].
pub struct OutputTablesView {
    pub next_root: u64,
    pub next_payload: Seq<u64>,
}

impl View for OutputTables {
    type V = OutputTablesView;

    closed spec fn view(&self) -> OutputTablesView {
        OutputTablesView { next_root: self.next_root, next_payload: self.next_payload@ }
    }
}

impl OutputTables {
    pub open spec fn wf(&self) -> bool {
        self@.next_payload.len() == PAYLOAD_TABLES
    }

    pub closed spec fn spec_header(&self) -> Option<HeaderRow> {
        self.header
    }

    /// Tables that have handed out no row.
    pub fn new() -> (r: Self)
        ensures
            r.wf(),
            r@.next_root == 0,
            r@.next_payload == Seq::new(PAYLOAD_TABLES as nat, |i: int| 0u64),
            r.spec_header() is None,
    {
        let mut next_payload: Vec<u64> = Vec::new();
        let mut i: usize = 0;
        while i < PAYLOAD_TABLES
            invariant
                0 <= i <= PAYLOAD_TABLES,
                next_payload@ == Seq::new(i as nat, |k: int| 0u64),
            decreases PAYLOAD_TABLES - i,
        {
            next_payload.push(0);
            i = i + 1;
            assert(next_payload@ =~= Seq::new(i as nat, |k: int| 0u64));
        }
        OutputTables { next_root: 0, next_payload, header: None }
    }

    /// Keeps the validated trace header for [`OutputTables::finish`].
    pub fn set_header(&mut self, tracer: String, has_tgid_column: bool)
        ensures
            final(self)@ == old(self)@,
            final(self).spec_header() == Some(HeaderRow { tracer, has_tgid_column }),
    {
        self.header = Some(HeaderRow { tracer, has_tgid_column });
    }

    /// The rows of the event found `source_event_sequence`-th in the
    /// source. The event takes the next root row id, for its occurrence
    /// row and its root row, whose parent is itself; then its payload
    /// takes the next row id of its table, with the root row as parent.
    /// A root id is taken before the payload is looked at; a row id
    /// counter that would pass `u64::MAX` fails and stays where it was.
    pub fn push(&mut self, source_event_sequence: u64, event: TextFtraceEvent) -> (r: Result<EventRows, OutputError>)
        requires
            old(self).wf(),
        ensures
            final(self).wf(),
            final(self).spec_header() == old(self).spec_header(),
            old(self)@.next_root == u64::MAX ==> {
                &&& r == Err::<EventRows, OutputError>(OutputError::RootRowIdOverflow)
                &&& final(self)@ == old(self)@
            },
            old(self)@.next_root < u64::MAX ==> {
                &&& final(self)@.next_root == old(self)@.next_root + 1
                &&& match event.payload {
                    None => {
                        &&& r == Err::<EventRows, OutputError>(OutputError::MissingPayload)
                        &&& final(self)@.next_payload == old(self)@.next_payload
                    },
                    Some(p) => {
                        let t = payload_table(p);
                        let id = old(self)@.next_payload[table_index(t)];
                        if id == u64::MAX {
                            &&& r == Err::<EventRows, OutputError>(OutputError::PayloadRowIdOverflow { table: t })
                            &&& final(self)@.next_payload == old(self)@.next_payload
                        } else {
                            &&& final(self)@.next_payload == old(self)@.next_payload.update(table_index(t), (id + 1) as u64)
                            &&& r == Ok::<EventRows, OutputError>(EventRows {
                                occurrence: OccurrenceRow { row_id: old(self)@.next_root, source_event_sequence },
                                root: RootRow {
                                    row_id: old(self)@.next_root,
                                    parent_row_id: old(self)@.next_root,
                                    clock_domain: event.clock_domain,
                                    clock_value: event.clock_value,
                                    cpu: event.cpu,
                                    emitter_thread_name: event.emitter_thread_name,
                                    emitter_thread_id: event.emitter_thread_id,
                                    emitter_process_id: event.emitter_process_id,
                                    context_flags: event.context_flags,
                                },
                                payload: PayloadRow { row_id: id, parent_row_id: old(self)@.next_root, payload: p },
                            })
                        }
                    },
                }
            },
    {
        if self.next_root == u64::MAX {
            return Err(OutputError::RootRowIdOverflow);
        }
        let root_id = self.next_root;
        self.next_root = root_id + 1;
        let TextFtraceEvent {
            clock_domain,
            clock_value,
            cpu,
            emitter_thread_name,
            emitter_thread_id,
            emitter_process_id,
            context_flags,
            payload,
        } = event;
        let payload = match payload {
            Some(p) => p,
            None => return Err(OutputError::MissingPayload),
        };
        let table = PayloadTable::of(&payload);
        let k = table.index();
        let id = self.next_payload[k];
        if id == u64::MAX {
            return Err(OutputError::PayloadRowIdOverflow { table });
        }
        self.next_payload.set(k, id + 1);
        Ok(EventRows {
            occurrence: OccurrenceRow { row_id: root_id, source_event_sequence },
            root: RootRow {
                row_id: root_id,
                parent_row_id: root_id,
                clock_domain,
                clock_value,
                cpu,
                emitter_thread_name,
                emitter_thread_id,
                emitter_process_id,
                context_flags,
            },
            payload: PayloadRow { row_id: id, parent_row_id: root_id, payload },
        })
    }

    /// The header row, once the header was validated.
    pub fn finish(self) -> (r: Result<HeaderRow, OutputError>)
        ensures
            match self.spec_header() {
                Some(h) => r == Ok::<HeaderRow, OutputError>(h),
                None => r == Err::<HeaderRow, OutputError>(OutputError::MissingHeader),
            },
    {
        match self.header {
            Some(h) => Ok(h),
            None => Err(OutputError::MissingHeader),
        }
    }
}

/// Each payload table has a row id counter of its own: the counters are
/// numbered apart, within the counter list, so a row taken from one table
/// leaves the next row id of every other table as it was.
pub proof fn lemma_payload_tables_count_apart(a: PayloadTable, b: PayloadTable, ids: Seq<u64>, id: u64)
    requires
        ids.len() == PAYLOAD_TABLES,
    ensures
        0 <= table_index(a) < PAYLOAD_TABLES,
        table_index(a) == table_index(b) ==> a == b,
        a != b ==> ids.update(table_index(a), id)[table_index(b)] == ids[table_index(b)],
{
}

/// Payloads go to the table of their own kind: two payloads share a table
/// only when they are of the same kind.
pub proof fn lemma_payloads_go_to_own_tables(p: TextFtracePayload, q: TextFtracePayload)
    ensures
        payload_table(p) == payload_table(q) ==> {
            &&& (p is SchedSwitch <==> q is SchedSwitch)
            &&& (p is SchedWakeup <==> q is SchedWakeup)
            &&& (p is SchedWakeupNew <==> q is SchedWakeupNew)
            &&& (p is TracingMarkWrite <==> q is TracingMarkWrite)
            &&& (p is SchedBlockedReason <==> q is SchedBlockedReason)
            &&& (p is MmFilemapAddToPageCache <==> q is MmFilemapAddToPageCache)
            &&& (p is MmFilemapDeleteFromPageCache <==> q is MmFilemapDeleteFromPageCache)
            &&& (p is BlockRqIssue <==> q is BlockRqIssue)
            &&& (p is BlockRqComplete <==> q is BlockRqComplete)
            &&& (p is BinderTransaction <==> q is BinderTransaction)
            &&& (p is Print <==> q is Print)
        },
{
}

} // verus!
