//! Public result types of text ftrace decoding and the running summary of
//! events that the importer does not understand.
use vstd::prelude::*;
use crate::number::{decimal_chars, decimal_string};
use crate::text::{append, owned, chars_of, compare_names, lemma_name_less_total, lemma_name_less_transitive, name_less, slice_eq, string_of};

verus! {

/// A supported event whose payload does not have the expected shape.
#[derive(Debug)]
pub struct TextFtraceCompatibilityError {
    event: String,
    field: String,
    line: u64,
    reason: String,
}

/// The content of a [`TextFtraceCompatibilityError`].
pub struct CompatibilityView {
    pub event: Seq<char>,
    pub field: Seq<char>,
    pub line: u64,
    pub reason: Seq<char>,
}

impl View for TextFtraceCompatibilityError {
    type V = CompatibilityView;

    closed spec fn view(&self) -> CompatibilityView {
        CompatibilityView {
            event: self.event@,
            field: self.field@,
            line: self.line,
            reason: self.reason@,
        }
    }
}

impl TextFtraceCompatibilityError {
    pub fn new(event: String, field: String, line: u64, reason: String) -> (r: Self)
        ensures
            r@ == (CompatibilityView { event: event@, field: field@, line, reason: reason@ }),
    {
        TextFtraceCompatibilityError { event, field, line, reason }
    }

    /// Name of the event whose payload was rejected.
    pub fn event(&self) -> (r: &str)
        ensures
            r@ == self@.event,
    {
        self.event.as_str()
    }

    /// Payload field that was rejected, or `payload` for the payload as a whole.
    pub fn field(&self) -> (r: &str)
        ensures
            r@ == self@.field,
    {
        self.field.as_str()
    }

    /// One-based source line of the rejected event.
    pub fn line(&self) -> (r: u64)
        ensures
            r == self@.line,
    {
        self.line
    }

    /// Why the payload was rejected.
    pub fn reason(&self) -> (r: &str)
        ensures
            r@ == self@.reason,
    {
        self.reason.as_str()
    }

    /// The error as text: `incompatible EVENT.FIELD at line N: REASON`.
    pub fn message(&self) -> (r: String)
        ensures
            r@ == compatibility_message(self@),
    {
        let mut m = owned("incompatible ");
        append(&mut m, self.event.as_str());
        append(&mut m, ".");
        append(&mut m, self.field.as_str());
        append(&mut m, " at line ");
        let n = decimal_string(self.line);
        append(&mut m, n.as_str());
        append(&mut m, ": ");
        append(&mut m, self.reason.as_str());
        m
    }
}

/// The text of a compatibility error: `incompatible EVENT.FIELD at line N:
/// REASON`, the line number in decimal.
pub open spec fn compatibility_message(e: CompatibilityView) -> Seq<char> {
    "incompatible "@ + e.event + "."@ + e.field + " at line "@ + decimal_chars(e.line as nat) + ": "@ + e.reason
}

/// The clock that stamped the events of a text trace.
#[derive(Debug, Clone, Copy, PartialEq, Eq, Structural)]
pub enum TextFtraceClock {
    Boottime,
    Monotonic,
    FtraceGlobal,
}

impl TextFtraceClock {
    /// The clock domain recorded for the imported timestamps.
    pub open spec fn spec_domain(self) -> Seq<char> {
        match self {
            TextFtraceClock::Boottime => "boottime"@,
            TextFtraceClock::Monotonic => "monotonic"@,
            TextFtraceClock::FtraceGlobal => "ftrace_global"@,
        }
    }

    /// The trace-plugin name of the clock.
    pub open spec fn spec_proto_clock(self) -> Seq<char> {
        match self {
            TextFtraceClock::Boottime => "boot"@,
            TextFtraceClock::Monotonic => "mono"@,
            TextFtraceClock::FtraceGlobal => "global"@,
        }
    }

    pub fn domain(self) -> (r: &'static str)
        ensures
            r@ == self.spec_domain(),
    {
        match self {
            TextFtraceClock::Boottime => "boottime",
            TextFtraceClock::Monotonic => "monotonic",
            TextFtraceClock::FtraceGlobal => "ftrace_global",
        }
    }

    pub fn proto_clock(self) -> (r: &'static str)
        ensures
            r@ == self.spec_proto_clock(),
    {
        match self {
            TextFtraceClock::Boottime => "boot",
            TextFtraceClock::Monotonic => "mono",
            TextFtraceClock::FtraceGlobal => "global",
        }
    }
}

/// An event name that the importer skipped, how often, and where first.
#[derive(Debug)]
pub struct UnsupportedFtraceEvent {
    name: String,
    count: u64,
    first_line: u64,
}

/// Name, occurrence count and first line of a skipped event.
pub type UnsupportedView = (Seq<char>, u64, u64);

impl View for UnsupportedFtraceEvent {
    type V = UnsupportedView;

    closed spec fn view(&self) -> UnsupportedView {
        (self.name@, self.count, self.first_line)
    }
}

impl UnsupportedFtraceEvent {
    pub fn name(&self) -> (r: &str)
        ensures
            r@ == self@.0,
    {
        self.name.as_str()
    }

    pub fn count(&self) -> (r: u64)
        ensures
            r == self@.1,
    {
        self.count
    }

    pub fn first_line(&self) -> (r: u64)
        ensures
            r == self@.2,
    {
        self.first_line
    }
}

/// Strictly increasing by name, so each name occurs once.
pub open spec fn sorted_by_name(s: Seq<UnsupportedView>) -> bool {
    forall|i: int, j: int| 0 <= i < j < s.len() ==> name_less(#[trigger] s[i].0, #[trigger] s[j].0)
}

/// Number of leading entries whose name precedes `name`.
pub open spec fn lower_bound(s: Seq<UnsupportedView>, name: Seq<char>) -> nat
    decreases s.len(),
{
    if s.len() > 0 && name_less(s[0].0, name) {
        1 + lower_bound(s.drop_first(), name)
    } else {
        0
    }
}

/// The entries after one more occurrence of the skipped event `name` at
/// `line`: its count grows by one, or a new entry with count one and first
/// line `line` takes its place in name order. `None` when the count would
/// overflow.
pub open spec fn spec_record(s: Seq<UnsupportedView>, name: Seq<char>, line: u64) -> Option<
    Seq<UnsupportedView>,
> {
    let i = lower_bound(s, name) as int;
    if i < s.len() && s[i].0 == name {
        if s[i].1 == u64::MAX {
            None
        } else {
            Some(s.update(i, (name, (s[i].1 + 1) as u64, s[i].2)))
        }
    } else {
        Some(s.insert(i, (name, 1u64, line)))
    }
}

proof fn lemma_lower_bound(s: Seq<UnsupportedView>, name: Seq<char>)
    ensures
        lower_bound(s, name) <= s.len(),
        forall|k: int| 0 <= k < lower_bound(s, name) ==> name_less(#[trigger] s[k].0, name),
        lower_bound(s, name) < s.len() ==> !name_less(s[lower_bound(s, name) as int].0, name),
    decreases s.len(),
{
    if s.len() > 0 && name_less(s[0].0, name) {
        lemma_lower_bound(s.drop_first(), name);
        assert forall|k: int| 0 <= k < lower_bound(s, name) implies name_less(
            #[trigger] s[k].0,
            name,
        ) by {
            if k > 0 {
                assert(s[k] == s.drop_first()[k - 1]);
            }
        }
    }
}

/// Recording an occurrence keeps the entries sorted by name, each name once.
pub proof fn lemma_record_keeps_sorted(s: Seq<UnsupportedView>, name: Seq<char>, line: u64)
    requires
        sorted_by_name(s),
    ensures
        spec_record(s, name, line) matches Some(t) ==> sorted_by_name(t),
{
    lemma_lower_bound(s, name);
    let i = lower_bound(s, name) as int;
    if i < s.len() && s[i].0 == name {
    } else {
        let t = s.insert(i, (name, 1u64, line));
        if i < s.len() {
            lemma_name_less_total(s[i].0, name);
        }
        assert forall|a: int, b: int| 0 <= a < b < t.len() implies name_less(
            #[trigger] t[a].0,
            #[trigger] t[b].0,
        ) by {
            if b < i {
                assert(t[a] == s[a] && t[b] == s[b]);
            } else if b == i {
                assert(t[a] == s[a]);
            } else if a == i {
                assert(t[b] == s[b - 1]);
                if b - 1 > i {
                    assert(name_less(s[i].0, s[b - 1].0));
                    lemma_name_less_transitive(name, s[i].0, s[b - 1].0);
                }
            } else if a < i {
                assert(t[a] == s[a] && t[b] == s[b - 1]);
            } else {
                assert(t[a] == s[a - 1] && t[b] == s[b - 1]);
            }
        }
    }
}

/// What decoding has seen so far: the skipped events, kept sorted by name,
/// and the number of event records.
#[derive(Debug)]
pub struct TextFtraceSummary {
    unsupported: Vec<UnsupportedFtraceEvent>,
    seen_events: u64,
}

/// Content of a [`TextFtraceSummary`].
pub struct SummaryView {
    pub unsupported: Seq<UnsupportedView>,
    pub seen_events: u64,
}

pub open spec fn unsupported_view(v: Seq<UnsupportedFtraceEvent>) -> Seq<UnsupportedView> {
    v.map_values(|e: UnsupportedFtraceEvent| e@)
}

impl View for TextFtraceSummary {
    type V = SummaryView;

    closed spec fn view(&self) -> SummaryView {
        SummaryView { unsupported: unsupported_view(self.unsupported@), seen_events: self.seen_events }
    }
}

impl TextFtraceSummary {
    /// The entries are sorted by name, each name once.
    pub open spec fn wf(&self) -> bool {
        sorted_by_name(self@.unsupported)
    }

    /// A summary of nothing.
    pub fn new() -> (r: Self)
        ensures
            r@.unsupported == Seq::<UnsupportedView>::empty(),
            r@.seen_events == 0,
            r.wf(),
    {
        let r = TextFtraceSummary { unsupported: Vec::new(), seen_events: 0 };
        assert(r@.unsupported =~= Seq::<UnsupportedView>::empty());
        r
    }

    /// The skipped events in name order, each name once.
    pub fn unsupported_events(&self) -> (r: Vec<UnsupportedFtraceEvent>)
        requires
            self.wf(),
        ensures
            unsupported_view(r@) == self@.unsupported,
            sorted_by_name(unsupported_view(r@)),
    {
        let mut out: Vec<UnsupportedFtraceEvent> = Vec::new();
        let mut i: usize = 0;
        while i < self.unsupported.len()
            invariant
                0 <= i <= self.unsupported.len(),
                unsupported_view(out@) =~= unsupported_view(self.unsupported@).take(i as int),
            decreases self.unsupported.len() - i,
        {
            let e = &self.unsupported[i];
            let copy = UnsupportedFtraceEvent {
                name: e.name.clone(),
                count: e.count,
                first_line: e.first_line,
            };
            let ghost old_out = out@;
            out.push(copy);
            assert(unsupported_view(out@) =~= unsupported_view(old_out).push(copy@));
            assert(unsupported_view(self.unsupported@).take(i + 1) =~= unsupported_view(
                self.unsupported@,
            ).take(i as int).push(copy@));
            i = i + 1;
        }
        out
    }

    /// Number of event records counted so far.
    pub fn seen_events(&self) -> (r: u64)
        ensures
            r == self@.seen_events,
    {
        self.seen_events
    }

    /// Counts one more event record; `false`, with nothing changed, when the
    /// count would overflow.
    pub fn count_event(&mut self) -> (ok: bool)
        requires
            old(self).wf(),
        ensures
            final(self).wf(),
            final(self)@.unsupported == old(self)@.unsupported,
            ok == (old(self)@.seen_events < u64::MAX),
            final(self)@.seen_events == if ok {
                (old(self)@.seen_events + 1) as u64
            } else {
                old(self)@.seen_events
            },
    {
        if self.seen_events == u64::MAX {
            return false;
        }
        self.seen_events = self.seen_events + 1;
        true
    }

    /// Records one more occurrence of the skipped event `name` at `line`.
    /// Returns `false`, leaving the entries unchanged, when its count would
    /// overflow.
    pub fn record_unsupported(&mut self, name: &[char], line: u64) -> (ok: bool)
        requires
            old(self).wf(),
        ensures
            final(self).wf(),
            final(self)@.seen_events == old(self)@.seen_events,
            ok == spec_record(old(self)@.unsupported, name@, line) is Some,
            ok ==> Some(final(self)@.unsupported) == spec_record(
                old(self)@.unsupported,
                name@,
                line,
            ),
            !ok ==> final(self)@.unsupported == old(self)@.unsupported,
    {
        let ghost s = self@.unsupported;
        proof {
            lemma_lower_bound(s, name@);
            lemma_record_keeps_sorted(s, name@, line);
        }
        let mut i: usize = 0;
        assert(s.skip(0) =~= s);
        while i < self.unsupported.len() && compare_names(
            chars_of(self.unsupported[i].name.as_str()).as_slice(),
            name,
        )
            invariant
                0 <= i <= self.unsupported.len(),
                s == unsupported_view(self.unsupported@),
                lower_bound(s, name@) == i + lower_bound(s.skip(i as int), name@),
            decreases self.unsupported.len() - i,
        {
            assert(s.skip(i as int).drop_first() =~= s.skip(i + 1));
            assert(s.skip(i as int)[0] == s[i as int]);
            i = i + 1;
        }
        proof {
            if i < self.unsupported.len() {
                assert(s.skip(i as int)[0] == s[i as int]);
            }
        }
        assert(lower_bound(s, name@) == i);
        if i < self.unsupported.len() && slice_eq(
            chars_of(self.unsupported[i].name.as_str()).as_slice(),
            name,
        ) {
            if self.unsupported[i].count == u64::MAX {
                return false;
            }
            let count = self.unsupported[i].count + 1;
            let first_line = self.unsupported[i].first_line;
            let entry = UnsupportedFtraceEvent { name: string_of(name), count, first_line };
            self.unsupported.set(i, entry);
            assert(unsupported_view(self.unsupported@) =~= s.update(
                i as int,
                (name@, count, first_line),
            ));
        } else {
            let entry = UnsupportedFtraceEvent { name: string_of(name), count: 1, first_line: line };
            self.unsupported.insert(i, entry);
            assert(unsupported_view(self.unsupported@) =~= s.insert(
                i as int,
                (name@, 1u64, line),
            ));
        }
        true
    }
}

/// The number of skipped occurrences that the entries count.
pub open spec fn total_count(s: Seq<UnsupportedView>) -> int
    decreases s.len(),
{
    if s.len() == 0 {
        0
    } else {
        s[0].1 + total_count(s.drop_first())
    }
}

proof fn lemma_total_count_update(s: Seq<UnsupportedView>, i: int, x: UnsupportedView)
    requires
        0 <= i < s.len(),
    ensures
        total_count(s.update(i, x)) == total_count(s) - s[i].1 + x.1,
    decreases s.len(),
{
    if i > 0 {
        lemma_total_count_update(s.drop_first(), i - 1, x);
        assert(s.update(i, x).drop_first() =~= s.drop_first().update(i - 1, x));
    } else {
        assert(s.update(i, x).drop_first() =~= s.drop_first());
    }
}

proof fn lemma_total_count_insert(s: Seq<UnsupportedView>, i: int, x: UnsupportedView)
    requires
        0 <= i <= s.len(),
    ensures
        total_count(s.insert(i, x)) == total_count(s) + x.1,
    decreases s.len(),
{
    if i > 0 {
        lemma_total_count_insert(s.drop_first(), i - 1, x);
        assert(s.insert(i, x).drop_first() =~= s.drop_first().insert(i - 1, x));
    } else {
        assert(s.insert(i, x).drop_first() =~= s);
    }
}

/// Recording an occurrence counts exactly one more.
pub proof fn lemma_record_counts_one(s: Seq<UnsupportedView>, name: Seq<char>, line: u64)
    ensures
        spec_record(s, name, line) matches Some(t) ==> total_count(t) == total_count(s) + 1,
{
    lemma_lower_bound(s, name);
    let i = lower_bound(s, name) as int;
    if i < s.len() && s[i].0 == name {
        if s[i].1 != u64::MAX {
            lemma_total_count_update(s, i, (name, (s[i].1 + 1) as u64, s[i].2));
        }
    } else {
        lemma_total_count_insert(s, i, (name, 1u64, line));
    }
}

} // verus!
