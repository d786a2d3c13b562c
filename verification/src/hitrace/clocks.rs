//! The clocks that a Hitrace capture names: ftrace trace clocks and clock
//! snapshot domains.
use vstd::prelude::*;
use crate::number::{decimal_chars, decimal_string};
use crate::text::{append, eq_str, owned, spec_trim, string_of, trim};

verus! {

/// An ftrace trace clock, in the order of its name.
#[derive(Debug, Clone, Copy, PartialEq, Eq, Structural)]
pub enum TraceClock {
    Boot,
    Global,
    Local,
    Mono,
}

impl TraceClock {
    /// The name that ftrace reports.
    pub open spec fn spec_name(self) -> Seq<char> {
        match self {
            TraceClock::Boot => "boot"@,
            TraceClock::Global => "global"@,
            TraceClock::Local => "local"@,
            TraceClock::Mono => "mono"@,
        }
    }

    /// The clock type of the domains that the clock stamps.
    pub open spec fn spec_clock_type(self) -> Seq<char> {
        match self {
            TraceClock::Boot => "boottime"@,
            TraceClock::Global => "ftrace_global"@,
            TraceClock::Local => "ftrace_local"@,
            TraceClock::Mono => "monotonic"@,
        }
    }

    /// The clock domain of events recorded on `cpu`: one per CPU for the
    /// local clock, one for all CPUs otherwise.
    pub open spec fn spec_domain(self, cpu: u32) -> Seq<char> {
        match self {
            TraceClock::Boot => "boottime"@,
            TraceClock::Global => "ftrace_global"@,
            TraceClock::Local => "ftrace_local_cpu_"@ + decimal_chars(cpu as nat),
            TraceClock::Mono => "monotonic"@,
        }
    }

    pub fn name(self) -> (r: &'static str)
        ensures
            r@ == self.spec_name(),
    {
        match self {
            TraceClock::Boot => "boot",
            TraceClock::Global => "global",
            TraceClock::Local => "local",
            TraceClock::Mono => "mono",
        }
    }

    pub fn clock_type(self) -> (r: &'static str)
        ensures
            r@ == self.spec_clock_type(),
    {
        match self {
            TraceClock::Boot => "boottime",
            TraceClock::Global => "ftrace_global",
            TraceClock::Local => "ftrace_local",
            TraceClock::Mono => "monotonic",
        }
    }

    pub fn domain(self, cpu: u32) -> (r: String)
        ensures
            r@ == self.spec_domain(cpu),
    {
        match self {
            TraceClock::Boot => owned("boottime"),
            TraceClock::Global => owned("ftrace_global"),
            TraceClock::Local => {
                let mut s = owned("ftrace_local_cpu_");
                let digits = decimal_string(cpu as u64);
                append(&mut s, digits.as_str());
                s
            },
            TraceClock::Mono => owned("monotonic"),
        }
    }
}

/// The trace clock that a reported name denotes, surrounding whitespace
/// aside.
pub open spec fn sp_trace_clock(v: Seq<char>) -> Option<TraceClock> {
    let t = spec_trim(v);
    if t == "boot"@ {
        Some(TraceClock::Boot)
    } else if t == "mono"@ {
        Some(TraceClock::Mono)
    } else if t == "global"@ {
        Some(TraceClock::Global)
    } else if t == "local"@ {
        Some(TraceClock::Local)
    } else {
        None
    }
}

/// Reading the name that ftrace reports for a clock gives that clock back,
/// with or without surrounding spaces; distinct clocks have distinct names.
pub proof fn lemma_trace_clock_names_read_back(c: TraceClock, d: TraceClock)
    ensures
        sp_trace_clock(c.spec_name()) == Some(c),
        sp_trace_clock(seq![' '] + c.spec_name() + seq![' ']) == Some(c),
        c.spec_name() == d.spec_name() ==> c == d,
{
    reveal_strlit("boot");
    reveal_strlit("mono");
    reveal_strlit("global");
    reveal_strlit("local");
    let n = c.spec_name();
    assert(n.len() > 0);
    assert(!crate::text::spec_is_whitespace(n[0]) && !crate::text::spec_is_whitespace(n.last()));
    assert(crate::text::spec_trim_start(n) == n);
    assert(crate::text::spec_trim_end(n) == n);
    let padded = seq![' '] + n + seq![' '];
    assert(padded.drop_first() =~= n + seq![' ']);
    assert(crate::text::spec_trim_start(n + seq![' ']) == n + seq![' ']) by {
        assert((n + seq![' '])[0] == n[0]);
    }
    assert(crate::text::spec_trim_start(padded) == n + seq![' ']);
    assert((n + seq![' ']).drop_last() =~= n);
    assert(crate::text::spec_trim_end(n + seq![' ']) == n);
    assert("boot"@[0] == 'b' && "mono"@[0] == 'm' && "global"@[0] == 'g' && "local"@[0] == 'l');
}

/// Reads a reported trace clock; an unknown one is returned, trimmed, as
/// the error.
pub fn normalize_trace_clock(v: &[char]) -> (r: Result<TraceClock, String>)
    ensures
        match r {
            Ok(c) => sp_trace_clock(v@) == Some(c),
            Err(s) => sp_trace_clock(v@) is None && s@ == spec_trim(v@),
        },
{
    let t = trim(v);
    if eq_str(t, "boot") {
        Ok(TraceClock::Boot)
    } else if eq_str(t, "mono") {
        Ok(TraceClock::Mono)
    } else if eq_str(t, "global") {
        Ok(TraceClock::Global)
    } else if eq_str(t, "local") {
        Ok(TraceClock::Local)
    } else {
        Err(string_of(t))
    }
}

/// The set of trace clocks reported so far.
#[derive(Debug, Clone, Copy, PartialEq, Eq, Structural)]
pub struct ReportedClocks {
    pub boot: bool,
    pub global: bool,
    pub local: bool,
    pub mono: bool,
}

impl ReportedClocks {
    pub open spec fn spec_with(self, c: TraceClock) -> ReportedClocks {
        match c {
            TraceClock::Boot => ReportedClocks { boot: true, ..self },
            TraceClock::Global => ReportedClocks { global: true, ..self },
            TraceClock::Local => ReportedClocks { local: true, ..self },
            TraceClock::Mono => ReportedClocks { mono: true, ..self },
        }
    }

    /// The reported clocks in name order.
    pub open spec fn spec_list(self) -> Seq<TraceClock> {
        (if self.boot { seq![TraceClock::Boot] } else { Seq::empty() })
            + (if self.global { seq![TraceClock::Global] } else { Seq::empty() })
            + (if self.local { seq![TraceClock::Local] } else { Seq::empty() })
            + (if self.mono { seq![TraceClock::Mono] } else { Seq::empty() })
    }

    pub fn none() -> (r: Self)
        ensures
            r.spec_list() == Seq::<TraceClock>::empty(),
            r == (ReportedClocks { boot: false, global: false, local: false, mono: false }),
    {
        let r = ReportedClocks { boot: false, global: false, local: false, mono: false };
        assert(r.spec_list() =~= Seq::<TraceClock>::empty());
        r
    }

    pub fn with(self, c: TraceClock) -> (r: Self)
        ensures
            r == self.spec_with(c),
    {
        match c {
            TraceClock::Boot => ReportedClocks { boot: true, ..self },
            TraceClock::Global => ReportedClocks { global: true, ..self },
            TraceClock::Local => ReportedClocks { local: true, ..self },
            TraceClock::Mono => ReportedClocks { mono: true, ..self },
        }
    }

    pub fn list(self) -> (r: Vec<TraceClock>)
        ensures
            r@ == self.spec_list(),
    {
        let mut r: Vec<TraceClock> = Vec::new();
        if self.boot {
            r.push(TraceClock::Boot);
        }
        if self.global {
            r.push(TraceClock::Global);
        }
        if self.local {
            r.push(TraceClock::Local);
        }
        if self.mono {
            r.push(TraceClock::Mono);
        }
        assert(r@ =~= self.spec_list());
        r
    }
}

/// A clock of a clock snapshot, in the order of the header's clock fields.
#[derive(Debug, Clone, Copy, PartialEq, Eq, Structural)]
pub enum SnapshotClock {
    Boottime,
    Realtime,
    RealtimeCoarse,
    Monotonic,
    MonotonicCoarse,
    MonotonicRaw,
}

/// The snapshot clock of a clock id; ids one to six are defined.
pub open spec fn spec_snapshot_clock(id: i32) -> Option<SnapshotClock> {
    if id == 1 {
        Some(SnapshotClock::Boottime)
    } else if id == 2 {
        Some(SnapshotClock::Realtime)
    } else if id == 3 {
        Some(SnapshotClock::RealtimeCoarse)
    } else if id == 4 {
        Some(SnapshotClock::Monotonic)
    } else if id == 5 {
        Some(SnapshotClock::MonotonicCoarse)
    } else if id == 6 {
        Some(SnapshotClock::MonotonicRaw)
    } else {
        None
    }
}

pub fn snapshot_clock_domain(id: i32) -> (r: Option<SnapshotClock>)
    ensures
        r == spec_snapshot_clock(id),
{
    match id {
        1 => Some(SnapshotClock::Boottime),
        2 => Some(SnapshotClock::Realtime),
        3 => Some(SnapshotClock::RealtimeCoarse),
        4 => Some(SnapshotClock::Monotonic),
        5 => Some(SnapshotClock::MonotonicCoarse),
        6 => Some(SnapshotClock::MonotonicRaw),
        _ => None,
    }
}

impl SnapshotClock {
    /// The clock domain, which is also its clock type.
    pub open spec fn spec_name(self) -> Seq<char> {
        match self {
            SnapshotClock::Boottime => "boottime"@,
            SnapshotClock::Realtime => "realtime"@,
            SnapshotClock::RealtimeCoarse => "realtime_coarse"@,
            SnapshotClock::Monotonic => "monotonic"@,
            SnapshotClock::MonotonicCoarse => "monotonic_coarse"@,
            SnapshotClock::MonotonicRaw => "monotonic_raw"@,
        }
    }

    /// Where the section header holds the clock's value.
    pub open spec fn spec_header_offset(self) -> int {
        match self {
            SnapshotClock::Boottime => 60,
            SnapshotClock::Realtime => 68,
            SnapshotClock::RealtimeCoarse => 76,
            SnapshotClock::Monotonic => 84,
            SnapshotClock::MonotonicCoarse => 92,
            SnapshotClock::MonotonicRaw => 100,
        }
    }

    pub fn name(self) -> (r: &'static str)
        ensures
            r@ == self.spec_name(),
    {
        match self {
            SnapshotClock::Boottime => "boottime",
            SnapshotClock::Realtime => "realtime",
            SnapshotClock::RealtimeCoarse => "realtime_coarse",
            SnapshotClock::Monotonic => "monotonic",
            SnapshotClock::MonotonicCoarse => "monotonic_coarse",
            SnapshotClock::MonotonicRaw => "monotonic_raw",
        }
    }

    pub fn header_offset(self) -> (r: usize)
        ensures
            r == self.spec_header_offset(),
    {
        match self {
            SnapshotClock::Boottime => 60,
            SnapshotClock::Realtime => 68,
            SnapshotClock::RealtimeCoarse => 76,
            SnapshotClock::Monotonic => 84,
            SnapshotClock::MonotonicCoarse => 92,
            SnapshotClock::MonotonicRaw => 100,
        }
    }
}

/// The header's clocks, in the order of its fields.
pub open spec fn header_clocks() -> Seq<SnapshotClock> {
    seq![
        SnapshotClock::Boottime,
        SnapshotClock::Realtime,
        SnapshotClock::RealtimeCoarse,
        SnapshotClock::Monotonic,
        SnapshotClock::MonotonicCoarse,
        SnapshotClock::MonotonicRaw,
    ]
}

pub fn header_clock_list() -> (r: Vec<SnapshotClock>)
    ensures
        r@ == header_clocks(),
{
    let r = vec![
        SnapshotClock::Boottime,
        SnapshotClock::Realtime,
        SnapshotClock::RealtimeCoarse,
        SnapshotClock::Monotonic,
        SnapshotClock::MonotonicCoarse,
        SnapshotClock::MonotonicRaw,
    ];
    assert(r@ =~= header_clocks());
    r
}

/// A clock id names the clock of the header field at that position: ids
/// one to six name the header's clocks in their order, so the value of
/// the clock of id `k` sits at header offset `52 + 8k`; no other id names a
/// clock, and distinct ids name distinct clocks.
pub proof fn lemma_snapshot_clock_follows_header(id: i32, other: i32)
    ensures
        1 <= id <= 6 ==> spec_snapshot_clock(id) == Some(header_clocks()[id - 1]),
        1 <= id <= 6 ==> spec_snapshot_clock(id)->0.spec_header_offset() == 52 + 8 * id,
        !(1 <= id <= 6) ==> spec_snapshot_clock(id) is None,
        spec_snapshot_clock(id) is Some && spec_snapshot_clock(id) == spec_snapshot_clock(other) ==> id == other,
{
}

/// The snapshot clocks are named as the kernel names its clocks: the
/// coarse and raw clocks by their base clock's name with `_coarse` or
/// `_raw` appended, the boot and monotonic clocks by the same domain names
/// as the ftrace clocks that stamp events on them, and distinct clocks by
/// distinct names.
pub proof fn lemma_snapshot_clock_names(c: SnapshotClock, d: SnapshotClock)
    ensures
        SnapshotClock::RealtimeCoarse.spec_name() == SnapshotClock::Realtime.spec_name() + "_coarse"@,
        SnapshotClock::MonotonicCoarse.spec_name() == SnapshotClock::Monotonic.spec_name() + "_coarse"@,
        SnapshotClock::MonotonicRaw.spec_name() == SnapshotClock::Monotonic.spec_name() + "_raw"@,
        SnapshotClock::Boottime.spec_name() == TraceClock::Boot.spec_clock_type(),
        SnapshotClock::Monotonic.spec_name() == TraceClock::Mono.spec_clock_type(),
        c.spec_name() == d.spec_name() ==> c == d,
{
    reveal_strlit("boottime");
    reveal_strlit("realtime");
    reveal_strlit("realtime_coarse");
    reveal_strlit("monotonic");
    reveal_strlit("monotonic_coarse");
    reveal_strlit("monotonic_raw");
    reveal_strlit("_coarse");
    reveal_strlit("_raw");
    assert("realtime_coarse"@ =~= "realtime"@ + "_coarse"@);
    assert("monotonic_coarse"@ =~= "monotonic"@ + "_coarse"@);
    assert("monotonic_raw"@ =~= "monotonic"@ + "_raw"@);
    assert("boottime"@[0] == 'b' && "realtime"@[0] == 'r' && "monotonic"@[0] == 'm');
    assert("realtime"@.len() == 8 && "realtime_coarse"@.len() == 15 && "monotonic"@.len() == 9);
    assert("monotonic_coarse"@.len() == 16 && "monotonic_raw"@.len() == 13 && "boottime"@.len() == 8);
    assert("realtime_coarse"@[0] == 'r' && "monotonic_coarse"@[0] == 'm' && "monotonic_raw"@[0] == 'm');
}

} // verus!
