//! The numbering of the Source rows of a text ftrace import: under the one
//! result row, a CPU detail row per CPU, in the order the CPUs first occur,
//! and under each, the CPU's events in order.
use vstd::prelude::*;
use crate::protobuf_source::capture::{
    active_definitions, definitions_sorted, definitions_view, keeps_key_order, CaptureError, CaptureView, EnumDefinition,
    SourceTableCapture,
};
use crate::ftrace_text::record::CpuEvent;

verus! {

/// The CPU detail row of a CPU and the number of its next event.
#[derive(Debug, Clone, Copy, PartialEq, Eq, Structural)]
pub struct CpuSourceSlot {
    pub cpu: u32,
    pub row_id: u64,
    pub next_event_index: u64,
}

/// Why a row cannot be numbered.
#[derive(Debug, Clone, Copy, PartialEq, Eq, Structural)]
pub enum SourceIndexError {
    /// More CPUs than `u64` numbers.
    CpuIndexOverflow,
    /// More events on one CPU than `u64` numbers.
    EventIndexOverflow,
}

/// The index of the slot of `cpu`, or the length when there is none.
pub open spec fn slot_index(s: Seq<CpuSourceSlot>, cpu: u32) -> nat
    decreases s.len(),
{
    if s.len() == 0 || s[0].cpu == cpu {
        0
    } else {
        1 + slot_index(s.drop_first(), cpu)
    }
}

/// The numbering so far.
#[derive(Debug)]
pub struct TextFtraceSourceIndex {
    root_row_id: u64,
    cpus: Vec<CpuSourceSlot>,
    next_cpu_index: u64,
}

pub struct SourceIndexView {
    pub root_row_id: u64,
    /// One slot per CPU seen, in the order they were first seen.
    pub cpus: Seq<CpuSourceSlot>,
    pub next_cpu_index: u64,
}

impl View for TextFtraceSourceIndex {
    type V = SourceIndexView;

    closed spec fn view(&self) -> SourceIndexView {
        SourceIndexView { root_row_id: self.root_row_id, cpus: self.cpus@, next_cpu_index: self.next_cpu_index }
    }
}

fn find_slot(v: &Vec<CpuSourceSlot>, cpu: u32) -> (r: usize)
    ensures
        r == slot_index(v@, cpu),
        r <= v.len(),
        r < v.len() ==> v@[r as int].cpu == cpu,
{
    let mut i: usize = 0;
    assert(v@.skip(0) =~= v@);
    while i < v.len() && v[i].cpu != cpu
        invariant
            0 <= i <= v.len(),
            slot_index(v@, cpu) == i + slot_index(v@.skip(i as int), cpu),
        decreases v.len() - i,
    {
        assert(v@.skip(i as int).drop_first() =~= v@.skip(i + 1));
        assert(v@.skip(i as int)[0] == v@[i as int]);
        i = i + 1;
    }
    if i < v.len() {
        assert(v@.skip(i as int)[0] == v@[i as int]);
    }
    i
}

impl TextFtraceSourceIndex {
    /// A numbering under the result row `root_row_id`, with no CPU yet.
    pub fn new(root_row_id: u64) -> (r: Self)
        ensures
            r@.root_row_id == root_row_id,
            r@.cpus == Seq::<CpuSourceSlot>::empty(),
            r@.next_cpu_index == 0,
    {
        let r = TextFtraceSourceIndex { root_row_id, cpus: Vec::new(), next_cpu_index: 0 };
        assert(r@.cpus =~= Seq::<CpuSourceSlot>::empty());
        r
    }

    /// The result row that the CPU detail rows hang under.
    pub fn root_row_id(&self) -> (r: u64)
        ensures
            r == self@.root_row_id,
    {
        self.root_row_id
    }

    /// For a CPU not seen before, the number of its CPU detail row among
    /// the result's CPU details, which is then taken; `None` for a CPU
    /// seen before.
    pub fn cpu_repeated_index(&mut self, cpu: u32) -> (r: Result<Option<u64>, SourceIndexError>)
        ensures
            final(self)@.root_row_id == old(self)@.root_row_id,
            final(self)@.cpus == old(self)@.cpus,
            if slot_index(old(self)@.cpus, cpu) < old(self)@.cpus.len() {
                r == Ok::<Option<u64>, SourceIndexError>(None) && final(self)@ == old(self)@
            } else if old(self)@.next_cpu_index == u64::MAX {
                r == Err::<Option<u64>, SourceIndexError>(SourceIndexError::CpuIndexOverflow) && final(self)@
                    == old(self)@
            } else {
                &&& r == Ok::<Option<u64>, SourceIndexError>(Some(old(self)@.next_cpu_index))
                &&& final(self)@.next_cpu_index == old(self)@.next_cpu_index + 1
            },
    {
        let i = find_slot(&self.cpus, cpu);
        if i < self.cpus.len() {
            return Ok(None);
        }
        if self.next_cpu_index == u64::MAX {
            return Err(SourceIndexError::CpuIndexOverflow);
        }
        let index = self.next_cpu_index;
        self.next_cpu_index = index + 1;
        Ok(Some(index))
    }

    /// Records the CPU detail row of a CPU not seen before; its events are
    /// numbered from 0.
    pub fn record_cpu(&mut self, cpu: u32, row_id: u64)
        requires
            slot_index(old(self)@.cpus, cpu) == old(self)@.cpus.len(),
        ensures
            final(self)@ == (SourceIndexView {
                cpus: old(self)@.cpus.push(CpuSourceSlot { cpu, row_id, next_event_index: 0 }),
                ..old(self)@
            }),
    {
        self.cpus.push(CpuSourceSlot { cpu, row_id, next_event_index: 0 });
    }

    /// The CPU detail row of a seen CPU and the number of its next event,
    /// which is then taken.
    pub fn next_event_index(&mut self, cpu: u32) -> (r: Result<(u64, u64), SourceIndexError>)
        requires
            slot_index(old(self)@.cpus, cpu) < old(self)@.cpus.len(),
        ensures
            ({
                let i = slot_index(old(self)@.cpus, cpu) as int;
                let s = old(self)@.cpus[i];
                if s.next_event_index == u64::MAX {
                    r == Err::<(u64, u64), SourceIndexError>(SourceIndexError::EventIndexOverflow) && final(self)@
                        == old(self)@
                } else {
                    &&& r == Ok::<(u64, u64), SourceIndexError>((s.row_id, s.next_event_index))
                    &&& final(self)@ == (SourceIndexView {
                        cpus: old(self)@.cpus.update(
                            i,
                            CpuSourceSlot { next_event_index: (s.next_event_index + 1) as u64, ..s },
                        ),
                        ..old(self)@
                    })
                }
            }),
    {
        let i = find_slot(&self.cpus, cpu);
        let s = self.cpus[i];
        if s.next_event_index == u64::MAX {
            return Err(SourceIndexError::EventIndexOverflow);
        }
        self.cpus.set(i, CpuSourceSlot { next_event_index: s.next_event_index + 1, ..s });
        Ok((s.row_id, s.next_event_index))
    }
}

/// A slot that is not in `s` is not found in it; once pushed, it is found
/// at the end.
proof fn lemma_slot_index_push(s: Seq<CpuSourceSlot>, slot: CpuSourceSlot)
    ensures
        slot_index(s, slot.cpu) <= s.len(),
        slot_index(s, slot.cpu) == s.len() ==> slot_index(s.push(slot), slot.cpu) == s.len(),
    decreases s.len(),
{
    if s.len() > 0 {
        assert(s.push(slot).drop_first() =~= s.drop_first().push(slot));
        lemma_slot_index_push(s.drop_first(), slot);
    }
}

/// The CPU detail row made for the first event of a CPU.
#[derive(Debug, Clone, Copy, PartialEq, Eq, Structural)]
pub struct NewCpuDetail {
    /// Its number among the result's CPU details.
    pub repeated_index: u64,
    pub row_id: u64,
}

/// Where the Source rows of one event went.
#[derive(Debug, Clone, Copy, PartialEq, Eq, Structural)]
pub struct EventPlacement {
    pub cpu: u32,
    /// The CPU detail row made for this event, when it is the CPU's first.
    pub new_detail: Option<NewCpuDetail>,
    /// The CPU detail row the event row hangs under.
    pub detail_row_id: u64,
    /// The event's number among the events of its CPU.
    pub event_index: u64,
    pub event_row_id: u64,
}

/// Why an event cannot be captured.
#[derive(Debug)]
pub enum TextFtraceCaptureError {
    Index(SourceIndexError),
    Capture(CaptureError),
}

/// The Source rows of a text ftrace import: one result row and one config
/// row, then for each event its CPU's detail row (made at the CPU's first
/// event) and the event's own row.
#[derive(Debug)]
pub struct TextFtraceSourceCapture {
    capture: SourceTableCapture,
    index: TextFtraceSourceIndex,
    config_row_id: u64,
    detail_slot: usize,
    event_slot: usize,
}

pub struct SourceCaptureView {
    pub capture: CaptureView,
    pub index: SourceIndexView,
    pub config_row_id: u64,
    pub detail_slot: usize,
    pub event_slot: usize,
}

impl View for TextFtraceSourceCapture {
    type V = SourceCaptureView;

    closed spec fn view(&self) -> SourceCaptureView {
        SourceCaptureView {
            capture: self.capture@,
            index: self.index@,
            config_row_id: self.config_row_id,
            detail_slot: self.detail_slot,
            event_slot: self.event_slot,
        }
    }
}

/// The capture's bookkeeping is whole, and the CPU detail and event
/// relations are two distinct relations of it.
pub open spec fn source_capture_wf(v: SourceCaptureView) -> bool {
    &&& v.capture.next_row_ids.len() == v.capture.relation_names.len()
    &&& v.capture.has_rows.len() == v.capture.relation_names.len()
    &&& crate::protobuf_source::capture::origins_in_range(v.capture.origins, v.capture.relation_names.len())
    &&& v.detail_slot < v.capture.relation_names.len()
    &&& v.event_slot < v.capture.relation_names.len()
    &&& v.detail_slot != v.event_slot
}

/// Whether `cpu` already has its CPU detail row.
pub open spec fn cpu_seen(v: SourceCaptureView, cpu: u32) -> bool {
    slot_index(v.index.cpus, cpu) < v.index.cpus.len()
}

/// The slot of a seen CPU.
pub open spec fn seen_slot(v: SourceCaptureView, cpu: u32) -> CpuSourceSlot {
    v.index.cpus[slot_index(v.index.cpus, cpu) as int]
}

/// The id after `id` in a relation, none after `u64::MAX`.
pub open spec fn id_after(id: u64) -> Option<u64> {
    if id == u64::MAX {
        None
    } else {
        Some((id + 1) as u64)
    }
}

/// Where the next event of `cpu` goes, when it is accepted.
pub open spec fn placement_of(v: SourceCaptureView, cpu: u32) -> EventPlacement {
    let event_row_id = v.capture.next_row_ids[v.event_slot as int]->0;
    if cpu_seen(v, cpu) {
        EventPlacement {
            cpu,
            new_detail: None,
            detail_row_id: seen_slot(v, cpu).row_id,
            event_index: seen_slot(v, cpu).next_event_index,
            event_row_id,
        }
    } else {
        let row_id = v.capture.next_row_ids[v.detail_slot as int]->0;
        EventPlacement {
            cpu,
            new_detail: Some(NewCpuDetail { repeated_index: v.index.next_cpu_index, row_id }),
            detail_row_id: row_id,
            event_index: 0,
            event_row_id,
        }
    }
}

/// The state after the next event of `cpu` is accepted.
pub open spec fn after_event(v: SourceCaptureView, cpu: u32) -> SourceCaptureView {
    let p = placement_of(v, cpu);
    let ids = v.capture.next_row_ids;
    let rows = v.capture.has_rows;
    if cpu_seen(v, cpu) {
        let i = slot_index(v.index.cpus, cpu) as int;
        SourceCaptureView {
            capture: CaptureView {
                next_row_ids: ids.update(v.event_slot as int, id_after(p.event_row_id)),
                has_rows: rows.update(v.event_slot as int, true),
                ..v.capture
            },
            index: SourceIndexView {
                cpus: v.index.cpus.update(
                    i,
                    CpuSourceSlot { next_event_index: (p.event_index + 1) as u64, ..seen_slot(v, cpu) },
                ),
                ..v.index
            },
            ..v
        }
    } else {
        SourceCaptureView {
            capture: CaptureView {
                next_row_ids: ids.update(v.detail_slot as int, id_after(p.detail_row_id)).update(
                    v.event_slot as int,
                    id_after(p.event_row_id),
                ),
                has_rows: rows.update(v.detail_slot as int, true).update(v.event_slot as int, true),
                ..v.capture
            },
            index: SourceIndexView {
                cpus: v.index.cpus.push(CpuSourceSlot { cpu, row_id: p.detail_row_id, next_event_index: 1 }),
                next_cpu_index: (v.index.next_cpu_index + 1) as u64,
                ..v.index
            },
            ..v
        }
    }
}

impl TextFtraceSourceCapture {
    /// Starts the Source rows in `capture`: takes the result row and the
    /// config row, and numbers the CPU detail rows under the result row.
    pub fn new(mut capture: SourceTableCapture, result_slot: usize, config_slot: usize, detail_slot: usize, event_slot: usize) -> (r:
        Result<Self, CaptureError>)
        requires
            capture.wf(),
            detail_slot < capture@.relation_names.len(),
            event_slot < capture@.relation_names.len(),
            detail_slot != event_slot,
        ensures
            match r {
                Ok(c) => {
                    &&& source_capture_wf(c@)
                    &&& capture@.poisoned is None
                    &&& result_slot < capture@.relation_names.len()
                    &&& config_slot < capture@.relation_names.len()
                    &&& capture@.next_row_ids[result_slot as int] is Some
                    &&& capture@.next_row_ids.update(
                        result_slot as int,
                        id_after(capture@.next_row_ids[result_slot as int]->0),
                    )[config_slot as int] is Some
                    &&& c@.index.root_row_id == capture@.next_row_ids[result_slot as int]->0
                    &&& c@.index.cpus == Seq::<CpuSourceSlot>::empty()
                    &&& c@.index.next_cpu_index == 0
                    &&& c@.detail_slot == detail_slot
                    &&& c@.event_slot == event_slot
                    &&& c@.capture.relation_names == capture@.relation_names
                    &&& c@.capture.poisoned is None
                },
                Err(_) => capture@.poisoned is Some || result_slot >= capture@.relation_names.len()
                    || config_slot >= capture@.relation_names.len() || capture@.next_row_ids[result_slot as int] is None
                    || ({
                    let ids = capture@.next_row_ids.update(result_slot as int, id_after(capture@.next_row_ids[result_slot as int]->0));
                    ids[config_slot as int] is None
                }),
            },
    {
        let root_row_id = match capture.allocate_row_id(result_slot) {
            Err(e) => return Err(e),
            Ok(id) => id,
        };
        match capture.append_row(result_slot) {
            Err(e) => return Err(e),
            Ok(_) => {},
        }
        let config_row_id = match capture.allocate_row_id(config_slot) {
            Err(e) => return Err(e),
            Ok(id) => id,
        };
        match capture.append_row(config_slot) {
            Err(e) => return Err(e),
            Ok(_) => {},
        }
        Ok(TextFtraceSourceCapture {
            capture,
            index: TextFtraceSourceIndex::new(root_row_id),
            config_row_id,
            detail_slot,
            event_slot,
        })
    }

    /// The result row that the CPU detail rows hang under.
    pub fn root_row_id(&self) -> (r: u64)
        ensures
            r == self@.index.root_row_id,
    {
        self.index.root_row_id()
    }

    /// The config row.
    pub fn config_row_id(&self) -> (r: u64)
        ensures
            r == self@.config_row_id,
    {
        self.config_row_id
    }

    /// Captures the next event of `cpu`: at the CPU's first event its CPU
    /// detail row is made, numbered after the CPUs before it; the event row
    /// hangs under the CPU's detail row, numbered after the CPU's earlier
    /// events.
    pub fn append_event(&mut self, cpu: u32) -> (r: Result<EventPlacement, TextFtraceCaptureError>)
        requires
            source_capture_wf(old(self)@),
        ensures
            source_capture_wf(final(self)@),
            ({
                let o = old(self)@;
                let f = final(self)@;
                if !cpu_seen(o, cpu) && o.index.next_cpu_index == u64::MAX {
                    r matches Err(TextFtraceCaptureError::Index(SourceIndexError::CpuIndexOverflow)) && f == o
                } else if cpu_seen(o, cpu) && seen_slot(o, cpu).next_event_index == u64::MAX {
                    r matches Err(TextFtraceCaptureError::Index(SourceIndexError::EventIndexOverflow)) && f == o
                } else if o.capture.poisoned is Some {
                    r matches Err(TextFtraceCaptureError::Capture(CaptureError::Poisoned { poison })) && o.capture.poisoned
                        == Some(poison) && f.capture == o.capture
                } else if !cpu_seen(o, cpu) && o.capture.next_row_ids[o.detail_slot as int] is None {
                    &&& r matches Err(TextFtraceCaptureError::Capture(CaptureError::RowIdOverflow { relation }))
                        && relation@ == o.capture.relation_names[o.detail_slot as int]
                    &&& f.capture.poisoned is Some
                } else if o.capture.next_row_ids[o.event_slot as int] is None {
                    &&& r matches Err(TextFtraceCaptureError::Capture(CaptureError::RowIdOverflow { relation }))
                        && relation@ == o.capture.relation_names[o.event_slot as int]
                    &&& f.capture.poisoned is Some
                } else {
                    r == Ok::<EventPlacement, TextFtraceCaptureError>(placement_of(o, cpu)) && f == after_event(o, cpu)
                }
            }),
    {
        let ghost o = self@;
        let new_detail = match self.index.cpu_repeated_index(cpu) {
            Err(e) => return Err(TextFtraceCaptureError::Index(e)),
            Ok(None) => None,
            Ok(Some(repeated_index)) => {
                let row_id = match self.capture.allocate_row_id(self.detail_slot) {
                    Err(e) => return Err(TextFtraceCaptureError::Capture(e)),
                    Ok(id) => id,
                };
                match self.capture.append_row(self.detail_slot) {
                    Err(e) => return Err(TextFtraceCaptureError::Capture(e)),
                    Ok(_) => {},
                }
                proof {
                    lemma_slot_index_push(self.index@.cpus, CpuSourceSlot { cpu, row_id, next_event_index: 0 });
                }
                self.index.record_cpu(cpu, row_id);
                Some(NewCpuDetail { repeated_index, row_id })
            },
        };
        let (detail_row_id, event_index) = match self.index.next_event_index(cpu) {
            Err(e) => return Err(TextFtraceCaptureError::Index(e)),
            Ok(p) => p,
        };
        let event_row_id = match self.capture.allocate_row_id(self.event_slot) {
            Err(e) => return Err(TextFtraceCaptureError::Capture(e)),
            Ok(id) => id,
        };
        match self.capture.append_row(self.event_slot) {
            Err(e) => return Err(TextFtraceCaptureError::Capture(e)),
            Ok(_) => {},
        }
        let p = EventPlacement { cpu, new_detail, detail_row_id, event_index, event_row_id };
        proof {
            if !cpu_seen(o, cpu) {
                assert(self@.index.cpus =~= after_event(o, cpu).index.cpus);
            }
            assert(self@.capture.next_row_ids =~= after_event(o, cpu).capture.next_row_ids);
            assert(self@.capture.has_rows =~= after_event(o, cpu).capture.has_rows);
        }
        Ok(p)
    }

    /// Ends the capture and gives the enum symbols of what it received, as
    /// the capture's own finish does.
    pub fn finish(self) -> (r: Result<Vec<EnumDefinition>, CaptureError>)
        requires
            source_capture_wf(self@),
        ensures
            match self@.capture.poisoned {
                Some(p) => r == Err::<Vec<EnumDefinition>, CaptureError>(CaptureError::Poisoned { poison: p }),
                None => r matches Ok(defs) && definitions_sorted(definitions_view(defs@)) && definitions_view(
                    defs@,
                ).to_multiset() == active_definitions(
                    self@.capture.relation_names,
                    self@.capture.has_rows,
                    self@.capture.origins,
                    0,
                ).to_multiset() && keeps_key_order(
                    definitions_view(defs@),
                    active_definitions(self@.capture.relation_names, self@.capture.has_rows, self@.capture.origins, 0),
                ),
            },
    {
        self.capture.finish()
    }
}

/// How many times `cpu` occurs in `cpus`.
pub open spec fn occurrences(cpus: Seq<u32>, cpu: u32) -> nat
    decreases cpus.len(),
{
    if cpus.len() == 0 {
        0
    } else {
        occurrences(cpus.drop_last(), cpu) + if cpus.last() == cpu {
            1nat
        } else {
            0nat
        }
    }
}

/// How many distinct CPUs occur in `cpus`.
pub open spec fn distinct_cpus(cpus: Seq<u32>) -> nat
    decreases cpus.len(),
{
    if cpus.len() == 0 {
        0
    } else {
        distinct_cpus(cpus.drop_last()) + if occurrences(cpus.drop_last(), cpus.last()) == 0 {
            1nat
        } else {
            0nat
        }
    }
}

/// The state after the events of `cpus`, one after another, are accepted.
pub open spec fn after_events(v: SourceCaptureView, cpus: Seq<u32>) -> SourceCaptureView
    decreases cpus.len(),
{
    if cpus.len() == 0 {
        v
    } else {
        after_event(after_events(v, cpus.drop_last()), cpus.last())
    }
}

/// Two slot lists with the same CPUs in the same places find a CPU at the
/// same place.
proof fn lemma_slot_index_same_cpus(a: Seq<CpuSourceSlot>, b: Seq<CpuSourceSlot>, cpu: u32)
    requires
        a.len() == b.len(),
        forall|j: int| 0 <= j < a.len() ==> (#[trigger] a[j]).cpu == b[j].cpu,
    ensures
        slot_index(a, cpu) == slot_index(b, cpu),
    decreases a.len(),
{
    if a.len() > 0 {
        assert(a[0].cpu == b[0].cpu);
        assert forall|j: int| 0 <= j < a.drop_first().len() implies (#[trigger] a.drop_first()[j]).cpu
            == b.drop_first()[j].cpu by {
            assert(a[j + 1].cpu == b[j + 1].cpu);
        }
        lemma_slot_index_same_cpus(a.drop_first(), b.drop_first(), cpu);
    }
}

/// Where a CPU is found after a slot is pushed.
proof fn lemma_slot_index_after_push(s: Seq<CpuSourceSlot>, x: CpuSourceSlot, cpu: u32)
    ensures
        slot_index(s, cpu) <= s.len(),
        slot_index(s.push(x), cpu) == if slot_index(s, cpu) < s.len() {
            slot_index(s, cpu)
        } else if x.cpu == cpu {
            s.len()
        } else {
            s.len() + 1
        },
    decreases s.len(),
{
    if s.len() > 0 {
        assert(s.push(x)[0] == s[0]);
        assert(s.push(x).drop_first() =~= s.drop_first().push(x));
        lemma_slot_index_after_push(s.drop_first(), x, cpu);
    } else {
        assert(s.push(x)[0] == x);
        assert(s.push(x).drop_first() =~= Seq::<CpuSourceSlot>::empty());
        assert(slot_index(s.push(x).drop_first(), cpu) == 0);
    }
}

/// A CPU found in a slot list is the CPU of the slot it is found at.
proof fn lemma_slot_index_found(s: Seq<CpuSourceSlot>, cpu: u32)
    ensures
        slot_index(s, cpu) < s.len() ==> s[slot_index(s, cpu) as int].cpu == cpu,
    decreases s.len(),
{
    if s.len() > 0 && s[0].cpu != cpu {
        lemma_slot_index_found(s.drop_first(), cpu);
    }
}

/// Starting with no CPU, after the events of `cpus` a CPU has its detail
/// row exactly when it occurred, its next event is numbered by how many of
/// its events came before, and the CPU detail rows made so far are one per
/// distinct CPU. So the next event of a CPU gets a new CPU detail row
/// exactly at the CPU's first event, numbered by the distinct CPUs before
/// it, and each event is numbered by the earlier events of its own CPU.
pub proof fn lemma_event_numbering(v: SourceCaptureView, cpus: Seq<u32>, cpu: u32)
    requires
        v.index.cpus.len() == 0,
        v.index.next_cpu_index == 0,
        cpus.len() < u64::MAX,
    ensures
        cpu_seen(after_events(v, cpus), cpu) <==> occurrences(cpus, cpu) > 0,
        after_events(v, cpus).index.cpus.len() == distinct_cpus(cpus),
        after_events(v, cpus).index.next_cpu_index == distinct_cpus(cpus),
        placement_of(after_events(v, cpus), cpu).event_index == occurrences(cpus, cpu),
        placement_of(after_events(v, cpus), cpu).new_detail is Some <==> occurrences(cpus, cpu) == 0,
        occurrences(cpus, cpu) == 0 ==> placement_of(after_events(v, cpus), cpu).new_detail->0.repeated_index
            == distinct_cpus(cpus),
        occurrences(cpus, cpu) <= cpus.len(),
        distinct_cpus(cpus) <= cpus.len(),
    decreases cpus.len(),
{
    if cpus.len() > 0 {
        let s = cpus.drop_last();
        let x = cpus.last();
        lemma_event_numbering(v, s, cpu);
        lemma_event_numbering(v, s, x);
        let w = after_events(v, s);
        let f = after_event(w, x);
        assert(after_events(v, cpus) == f);
        if cpu_seen(w, x) {
            let i = slot_index(w.index.cpus, x) as int;
            let updated = f.index.cpus;
            assert forall|j: int| 0 <= j < updated.len() implies (#[trigger] updated[j]).cpu
                == w.index.cpus[j].cpu by {}
            lemma_slot_index_same_cpus(updated, w.index.cpus, cpu);
            if cpu != x && cpu_seen(w, cpu) {
                lemma_slot_index_found(w.index.cpus, cpu);
                lemma_slot_index_found(w.index.cpus, x);
                assert(slot_index(w.index.cpus, cpu) != i);
            }
        } else {
            let slot = CpuSourceSlot { cpu: x, row_id: placement_of(w, x).detail_row_id, next_event_index: 1 };
            lemma_slot_index_after_push(w.index.cpus, slot, cpu);
            lemma_slot_index_after_push(w.index.cpus, slot, x);
        }
    }
}

/// Whether the next event of `cpu` is accepted: its CPU and event numbers
/// and the row ids it needs can still be had, and the capture has not
/// stopped.
pub open spec fn event_accepted(v: SourceCaptureView, cpu: u32) -> bool {
    &&& !cpu_seen(v, cpu) ==> v.index.next_cpu_index != u64::MAX && v.capture.next_row_ids[v.detail_slot as int] is Some
    &&& cpu_seen(v, cpu) ==> seen_slot(v, cpu).next_event_index != u64::MAX
    &&& v.capture.poisoned is None
    &&& v.capture.next_row_ids[v.event_slot as int] is Some
}

/// The CPUs of decoded events, in order.
pub open spec fn event_cpus(events: Seq<CpuEvent>) -> Seq<u32> {
    events.map_values(|e: CpuEvent| e.cpu)
}

/// Whether every one of the events of `cpus` is accepted in turn.
pub open spec fn all_accepted(v: SourceCaptureView, cpus: Seq<u32>) -> bool {
    forall|k: int| 0 <= k < cpus.len() ==> #[trigger] event_accepted(after_events(v, cpus.take(k)), cpus[k])
}

impl TextFtraceSourceCapture {
    /// Captures decoded events in order, giving where each went; stops at
    /// the first event that is refused.
    pub fn capture_events(&mut self, events: &Vec<CpuEvent>) -> (r: Result<Vec<EventPlacement>, TextFtraceCaptureError>)
        requires
            source_capture_wf(old(self)@),
        ensures
            source_capture_wf(final(self)@),
            r is Ok <==> all_accepted(old(self)@, event_cpus(events@)),
            r matches Ok(placements) ==> {
                let cpus = event_cpus(events@);
                &&& placements@.len() == cpus.len()
                &&& forall|k: int|
                    0 <= k < cpus.len() ==> #[trigger] placements@[k] == placement_of(
                        after_events(old(self)@, cpus.take(k)),
                        cpus[k],
                    )
                &&& final(self)@ == after_events(old(self)@, cpus)
            },
    {
        let ghost o = self@;
        let ghost cpus = event_cpus(events@);
        let mut placements: Vec<EventPlacement> = Vec::new();
        let mut i: usize = 0;
        assert(cpus.take(0) =~= Seq::<u32>::empty());
        while i < events.len()
            invariant
                0 <= i <= events.len(),
                o == old(self)@,
                cpus == event_cpus(events@),
                cpus.len() == events.len(),
                source_capture_wf(self@),
                self@ == after_events(o, cpus.take(i as int)),
                placements@.len() == i,
                forall|k: int| 0 <= k < i ==> #[trigger] event_accepted(after_events(o, cpus.take(k)), cpus[k]),
                forall|k: int|
                    0 <= k < i ==> #[trigger] placements@[k] == placement_of(after_events(o, cpus.take(k)), cpus[k]),
            decreases events.len() - i,
        {
            let cpu = events[i].cpu;
            assert(cpu == cpus[i as int]);
            match self.append_event(cpu) {
                Err(e) => {
                    assert(!event_accepted(after_events(o, cpus.take(i as int)), cpus[i as int]));
                    assert(!all_accepted(o, cpus));
                    return Err(e);
                },
                Ok(p) => {
                    assert(cpus.take(i + 1).drop_last() =~= cpus.take(i as int));
                    assert(event_accepted(after_events(o, cpus.take(i as int)), cpus[i as int]));
                    placements.push(p);
                },
            }
            i = i + 1;
        }
        assert(cpus.take(events.len() as int) =~= cpus);
        Ok(placements)
    }
}

} // verus!
