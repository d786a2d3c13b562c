//! A Hitrace capture read item by item: the header's clock snapshot, the
//! skipped sections and envelopes, and the validated ftrace results.
use vstd::prelude::*;
use crate::sorted::{find_name, has_name, insert_name, lemma_insert_name, lemma_name_position, name_position, sorted_names, strings_view};
use crate::text::chars_of;
use super::clocks::{SnapshotClock, TraceClock, header_clock_list, header_clocks};
use super::container::{HEADER_SIZE, le_u64, read_u64};
use super::report::{ContentView, EnvelopeAction, ReportView, UnsupportedHitraceContent, UnsupportedReport, contents_view};
use super::validate::{EvidenceView, FtraceResult, HitraceError, HitraceErrorView, HitraceEvidence, SnapshotRow, SwitchRow, SwitchRowView, SwitchState, rows_view, sp_apply_result, sp_finish};

verus! {

/// The clock snapshot number zero that a section header holds.
pub open spec fn header_snapshot(b: Seq<u8>) -> Seq<SnapshotRow> {
    header_clocks().map_values(
        |c: SnapshotClock| SnapshotRow {
            snapshot_id: 0,
            clock: c,
            clock_value: le_u64(b, c.spec_header_offset()),
        },
    )
}

/// Clock domains and their clock types, sorted by domain, each once.
pub type Domains = (Seq<Seq<char>>, Seq<Seq<char>>);

/// The domains with `name` of type `ty` added, unless it is there already.
pub open spec fn add_domain(d: Domains, name: Seq<char>, ty: Seq<char>) -> Domains {
    if has_name(d.0, name) {
        d
    } else {
        let i = name_position(d.0, name) as int;
        (d.0.insert(i, name), d.1.insert(i, ty))
    }
}

/// The header's snapshot clocks as domains of their own type.
pub open spec fn header_domains_from(i: int, d: Domains) -> Domains
    decreases 6 - i,
{
    if i >= 6 || i < 0 {
        d
    } else {
        let n = header_clocks()[i].spec_name();
        header_domains_from(i + 1, add_domain(d, n, n))
    }
}

/// The domains of the CPUs with context switches, from entry `i` on.
pub open spec fn switch_domains_from(d: Domains, clock: TraceClock, cpus: Seq<SwitchState>, i: int) -> Domains
    decreases cpus.len() - i,
{
    if i >= cpus.len() || i < 0 {
        d
    } else {
        switch_domains_from(
            add_domain(d, clock.spec_domain(cpus[i].cpu), clock.spec_clock_type()),
            clock,
            cpus,
            i + 1,
        )
    }
}

/// The clock domains of a capture: the header's, and those that the trace
/// clock gives the CPUs with context switches.
pub open spec fn sp_clock_domains(ev: EvidenceView, clock: Option<TraceClock>) -> Domains {
    sp_domains(ev.last_switch, clock)
}

/// The header's clock domains, and those that `clock` gives the CPUs of
/// `cpus`.
pub open spec fn sp_domains(cpus: Seq<SwitchState>, clock: Option<TraceClock>) -> Domains {
    let base = header_domains_from(0, (Seq::empty(), Seq::empty()));
    match clock {
        None => base,
        Some(c) => switch_domains_from(base, c, cpus, 0),
    }
}

fn add_domain_entry(names: &mut Vec<String>, types: &mut Vec<String>, name: &[char], ty: &[char])
    requires
        sorted_names(strings_view(old(names)@)),
        old(names).len() == old(types).len(),
    ensures
        sorted_names(strings_view(final(names)@)),
        final(names).len() == final(types).len(),
        (strings_view(final(names)@), strings_view(final(types)@)) == add_domain(
            (strings_view(old(names)@), strings_view(old(types)@)),
            name@,
            ty@,
        ),
{
    let ghost n = strings_view(names@);
    let ghost t = strings_view(types@);
    proof {
        lemma_insert_name(n, name@);
        lemma_name_position(n, name@);
    }
    let (pos, found) = find_name(names, name);
    if !found {
        names.insert(pos, crate::text::string_of(name));
        types.insert(pos, crate::text::string_of(ty));
        assert(strings_view(names@) =~= n.insert(pos as int, name@));
        assert(strings_view(types@) =~= t.insert(pos as int, ty@));
    }
}

/// The clock domains and their types, sorted by domain: the header's, and
/// those that `clock` gives the CPUs of `cpus`.
#[verifier::loop_isolation(false)]
pub fn clock_domain_table(cpus: &Vec<SwitchState>, clock: Option<TraceClock>) -> (r: (Vec<String>, Vec<String>))
    ensures
        (strings_view(r.0@), strings_view(r.1@)) == sp_domains(cpus@, clock),
        sorted_names(strings_view(r.0@)),
        r.0.len() == r.1.len(),
{
    let mut names: Vec<String> = Vec::new();
    let mut types: Vec<String> = Vec::new();
    let header = header_clock_list();
    let mut i: usize = 0;
    assert(strings_view(names@) =~= Seq::<Seq<char>>::empty());
    assert(strings_view(types@) =~= Seq::<Seq<char>>::empty());
    while i < header.len()
        invariant
            0 <= i <= header.len(),
            header@ == header_clocks(),
            names.len() == types.len(),
            sorted_names(strings_view(names@)),
            header_domains_from(0, (Seq::empty(), Seq::empty())) == header_domains_from(
                i as int,
                (strings_view(names@), strings_view(types@)),
            ),
        decreases header.len() - i,
    {
        let n = chars_of(header[i].name());
        add_domain_entry(&mut names, &mut types, n.as_slice(), n.as_slice());
        i = i + 1;
    }
    match clock {
        None => {},
        Some(c) => {
            let ty = chars_of(c.clock_type());
            let mut j: usize = 0;
            while j < cpus.len()
                invariant
                    0 <= j <= cpus.len(),
                    names.len() == types.len(),
                    sorted_names(strings_view(names@)),
                    ty@ == c.spec_clock_type(),
                    sp_domains(cpus@, clock) == switch_domains_from(
                        (strings_view(names@), strings_view(types@)),
                        c,
                        cpus@,
                        j as int,
                    ),
                decreases cpus.len() - j,
            {
                let domain = c.domain(cpus[j].cpu);
                let d = chars_of(domain.as_str());
                add_domain_entry(&mut names, &mut types, d.as_slice(), ty.as_slice());
                j = j + 1;
            }
        },
    }
    (names, types)
}

/// A capture being read.
#[derive(Debug)]
pub struct HitraceDecoder {
    evidence: HitraceEvidence,
    report: UnsupportedReport,
}

/// Everything a valid capture yields besides its context switches.
#[derive(Debug)]
pub struct DecodedHitrace {
    /// The trace clock of the context switches, when there are any.
    pub ftrace_clock: Option<TraceClock>,
    /// Clock domains, sorted, each once.
    pub domain_names: Vec<String>,
    /// The clock type of each domain.
    pub domain_types: Vec<String>,
    /// The clock snapshots, the header's first.
    pub snapshots: Vec<SnapshotRow>,
    /// Number of context switches.
    pub switch_count: u64,
    /// Skipped plugins, sorted, each once.
    pub unsupported_plugins: Vec<String>,
    /// Skipped section types, ascending, each once.
    pub unsupported_section_types: Vec<u32>,
    /// Every skipped section and envelope, in file order.
    pub unsupported_content: Vec<UnsupportedHitraceContent>,
}

impl HitraceDecoder {
    pub closed spec fn evidence(&self) -> EvidenceView {
        self.evidence@
    }

    pub closed spec fn report(&self) -> ReportView {
        self.report@
    }

    pub closed spec fn wf(&self) -> bool {
        self.evidence.wf() && self.report.wf()
    }

    /// Starts reading a capture whose first section header is at the start
    /// of `bytes`; `None` when `bytes` is shorter than a header.
    pub fn new(bytes: &[u8]) -> (r: Option<Self>)
        ensures
            match r {
                None => bytes.len() < HEADER_SIZE,
                Some(d) => {
                    &&& bytes.len() >= HEADER_SIZE
                    &&& d.wf()
                    &&& d.evidence() == (EvidenceView {
                        reported: super::clocks::ReportedClocks {
                            boot: false,
                            global: false,
                            local: false,
                            mono: false,
                        },
                        detail_cpus: Seq::empty(),
                        end_stats: None,
                        next_snapshot_id: 1,
                        last_switch: Seq::empty(),
                        switch_count: 0,
                        snapshots: header_snapshot(bytes@),
                    })
                    &&& d.report().plugins == Seq::<Seq<char>>::empty()
                    &&& d.report().section_types == Seq::<u32>::empty()
                    &&& d.report().content == Seq::<ContentView>::empty()
                },
            },
    {
        if bytes.len() < HEADER_SIZE {
            return None;
        }
        let clocks = header_clock_list();
        let mut rows: Vec<SnapshotRow> = Vec::new();
        let mut i: usize = 0;
        while i < clocks.len()
            invariant
                0 <= i <= clocks.len(),
                clocks@ == header_clocks(),
                bytes.len() >= HEADER_SIZE,
                rows@ =~= header_snapshot(bytes@).take(i as int),
            decreases clocks.len() - i,
        {
            let c = clocks[i];
            let value = read_u64(bytes, c.header_offset());
            rows.push(SnapshotRow { snapshot_id: 0, clock: c, clock_value: value });
            i = i + 1;
        }
        assert(header_snapshot(bytes@).take(6) =~= header_snapshot(bytes@));
        Some(HitraceDecoder { evidence: HitraceEvidence::new(rows), report: UnsupportedReport::new() })
    }

    /// Records a section of another type than protobuf.
    pub fn note_section(&mut self, data_type: u32, offset: usize)
        requires
            old(self).wf(),
        ensures
            final(self).wf(),
            final(self).evidence() == old(self).evidence(),
            final(self).report().plugins == old(self).report().plugins,
            final(self).report().section_types == crate::sorted::insert_u32(old(self).report().section_types, data_type),
            final(self).report().content == old(self).report().content.push(
                (super::report::ContentKind::SectionType, crate::number::decimal_chars(data_type as nat), offset),
            ),
    {
        self.report.note_section(data_type, offset);
    }

    /// Decides how to handle an envelope named `name` whose data starts at
    /// `offset`; see [`UnsupportedReport::note_envelope`].
    pub fn note_envelope(&mut self, name: &str, offset: usize) -> (r: EnvelopeAction)
        requires
            old(self).wf(),
        ensures
            final(self).wf(),
            final(self).evidence() == old(self).evidence(),
            final(self).report().section_types == old(self).report().section_types,
            ({
                let (plugin, is_config) = super::report::envelope_plugin(name@);
                if plugin == "ftrace-plugin"@ {
                    &&& r == (if is_config {
                        EnvelopeAction::Skip
                    } else {
                        EnvelopeAction::FtraceResult
                    })
                    &&& final(self).report().plugins == old(self).report().plugins
                    &&& final(self).report().content == old(self).report().content
                } else {
                    &&& r == EnvelopeAction::Skip
                    &&& final(self).report().plugins == insert_name(old(self).report().plugins, plugin)
                    &&& final(self).report().content == old(self).report().content.push(
                        (super::report::ContentKind::Plugin, plugin, offset),
                    )
                }
            }),
    {
        let chars = chars_of(name);
        self.report.note_envelope(chars.as_slice(), offset)
    }

    /// Validates one ftrace-plugin result; see [`HitraceEvidence::apply_result`].
    pub fn apply_result(&mut self, result: &FtraceResult) -> (r: Result<Vec<SwitchRow>, HitraceError>)
        requires
            old(self).wf(),
        ensures
            final(self).wf(),
            final(self).report() == old(self).report(),
            match r {
                Ok(rows) => sp_apply_result(old(self).evidence(), *result) == Ok::<
                    (EvidenceView, Seq<SwitchRowView>),
                    HitraceErrorView,
                >((final(self).evidence(), rows_view(rows@))),
                Err(err) => sp_apply_result(old(self).evidence(), *result) == Err::<
                    (EvidenceView, Seq<SwitchRowView>),
                    HitraceErrorView,
                >(err@),
            },
    {
        self.evidence.apply_result(result)
    }

    /// Ends the capture: checks the trace clock and the TRACE_END coverage,
    /// and gives the clock domains, the snapshots and the skipped content.
    pub fn finish(self) -> (r: Result<DecodedHitrace, HitraceError>)
        requires
            self.wf(),
        ensures
            match r {
                Err(e) => sp_finish(self.evidence()) == Err::<Option<TraceClock>, HitraceErrorView>(e@),
                Ok(d) => {
                    &&& sp_finish(self.evidence()) == Ok::<Option<TraceClock>, HitraceErrorView>(d.ftrace_clock)
                    &&& (strings_view(d.domain_names@), strings_view(d.domain_types@)) == sp_clock_domains(
                        self.evidence(),
                        d.ftrace_clock,
                    )
                    &&& sorted_names(strings_view(d.domain_names@))
                    &&& d.snapshots@ == self.evidence().snapshots
                    &&& d.switch_count == self.evidence().switch_count
                    &&& strings_view(d.unsupported_plugins@) == self.report().plugins
                    &&& sorted_names(strings_view(d.unsupported_plugins@))
                    &&& d.unsupported_section_types@ == self.report().section_types
                    &&& crate::sorted::sorted_u32(d.unsupported_section_types@)
                    &&& contents_view(d.unsupported_content@) == self.report().content
                },
            },
    {
        let clock = match self.evidence.finish_clock() {
            Err(e) => return Err(e),
            Ok(c) => c,
        };
        let (names, types) = clock_domain_table(self.evidence.switch_cpus(), clock);
        let switch_count = self.evidence.switch_count();
        let snapshots = self.evidence.into_snapshots();
        let (plugins, section_types, content) = self.report.into_parts();
        Ok(DecodedHitrace {
            ftrace_clock: clock,
            domain_names: names,
            domain_types: types,
            snapshots,
            switch_count,
            unsupported_plugins: plugins,
            unsupported_section_types: section_types,
            unsupported_content: content,
        })
    }
}

} // verus!
