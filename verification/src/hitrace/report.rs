//! What a Hitrace capture holds that the importer does not read: sections
//! of other types and envelopes of other plugins.
use vstd::prelude::*;
use crate::number::{decimal_chars, decimal_string};
use crate::sorted::{add_u32, find_name, insert_name, insert_u32, lemma_insert_name, lemma_name_position, sorted_names, sorted_u32, strings_view};
use crate::text::{chars_of, eq_str, spec_strip_suffix, string_of, strip_suffix};

verus! {

/// What kind of content was skipped.
#[derive(Debug, Clone, Copy, PartialEq, Eq, Structural)]
pub enum ContentKind {
    SectionType,
    Plugin,
}

impl ContentKind {
    pub open spec fn spec_name(self) -> Seq<char> {
        match self {
            ContentKind::SectionType => "section_type"@,
            ContentKind::Plugin => "plugin"@,
        }
    }
}

/// One skipped section or envelope and where it starts.
#[derive(Debug)]
pub struct UnsupportedHitraceContent {
    kind: ContentKind,
    value: String,
    byte_offset: usize,
}

/// Kind, value and byte offset of skipped content.
pub type ContentView = (ContentKind, Seq<char>, usize);

impl View for UnsupportedHitraceContent {
    type V = ContentView;

    closed spec fn view(&self) -> ContentView {
        (self.kind, self.value@, self.byte_offset)
    }
}

impl UnsupportedHitraceContent {
    /// `section_type` or `plugin`.
    pub fn kind(&self) -> (r: &str)
        ensures
            r@ == self@.0.spec_name(),
    {
        match self.kind {
            ContentKind::SectionType => "section_type",
            ContentKind::Plugin => "plugin",
        }
    }

    /// The section type in decimal, or the plugin name.
    pub fn value(&self) -> (r: &str)
        ensures
            r@ == self@.1,
    {
        self.value.as_str()
    }

    /// Offset of the section header, or of the envelope's frame data.
    pub fn byte_offset(&self) -> (r: usize)
        ensures
            r == self@.2,
    {
        self.byte_offset
    }
}

pub open spec fn contents_view(v: Seq<UnsupportedHitraceContent>) -> Seq<ContentView> {
    v.map_values(|c: UnsupportedHitraceContent| c@)
}

/// How an envelope is handled, by the plugin that it names.
#[derive(Debug, Clone, Copy, PartialEq, Eq, Structural)]
pub enum EnvelopeAction {
    /// An ftrace-plugin result: decode and validate it.
    FtraceResult,
    /// The ftrace-plugin configuration, or another plugin: skip it.
    Skip,
}

/// The plugin that an envelope name denotes, and whether it is the
/// plugin's configuration (`<plugin>_config`).
pub open spec fn envelope_plugin(name: Seq<char>) -> (Seq<char>, bool) {
    match spec_strip_suffix(name, "_config"@) {
        Some(plugin) => (plugin, true),
        None => (name, false),
    }
}

/// Skipped content so far: section types and plugins as sorted sets, and
/// every skipped item in file order.
#[derive(Debug)]
pub struct UnsupportedReport {
    plugins: Vec<String>,
    section_types: Vec<u32>,
    content: Vec<UnsupportedHitraceContent>,
}

pub struct ReportView {
    pub plugins: Seq<Seq<char>>,
    pub section_types: Seq<u32>,
    pub content: Seq<ContentView>,
}

impl View for UnsupportedReport {
    type V = ReportView;

    closed spec fn view(&self) -> ReportView {
        ReportView {
            plugins: strings_view(self.plugins@),
            section_types: self.section_types@,
            content: contents_view(self.content@),
        }
    }
}

impl UnsupportedReport {
    pub open spec fn wf(&self) -> bool {
        sorted_names(self@.plugins) && sorted_u32(self@.section_types)
    }

    pub fn new() -> (r: Self)
        ensures
            r.wf(),
            r@.plugins == Seq::<Seq<char>>::empty(),
            r@.section_types == Seq::<u32>::empty(),
            r@.content == Seq::<ContentView>::empty(),
    {
        let r = UnsupportedReport { plugins: Vec::new(), section_types: Vec::new(), content: Vec::new() };
        assert(r@.plugins =~= Seq::<Seq<char>>::empty());
        assert(r@.content =~= Seq::<ContentView>::empty());
        r
    }

    /// Records a section of type `data_type` whose header is at `offset`.
    pub fn note_section(&mut self, data_type: u32, offset: usize)
        requires
            old(self).wf(),
        ensures
            final(self).wf(),
            final(self)@.plugins == old(self)@.plugins,
            final(self)@.section_types == insert_u32(old(self)@.section_types, data_type),
            final(self)@.content == old(self)@.content.push(
                (ContentKind::SectionType, decimal_chars(data_type as nat), offset),
            ),
    {
        add_u32(&mut self.section_types, data_type);
        let ghost before = contents_view(self.content@);
        let item = UnsupportedHitraceContent {
            kind: ContentKind::SectionType,
            value: decimal_string(data_type as u64),
            byte_offset: offset,
        };
        self.content.push(item);
        assert(contents_view(self.content@) =~= before.push(item@));
    }

    /// Decides how to handle an envelope named `name` whose data starts at
    /// `offset`; the envelope of another plugin is recorded as skipped.
    pub fn note_envelope(&mut self, name: &[char], offset: usize) -> (r: EnvelopeAction)
        requires
            old(self).wf(),
        ensures
            final(self).wf(),
            final(self)@.section_types == old(self)@.section_types,
            ({
                let (plugin, is_config) = envelope_plugin(name@);
                if plugin == "ftrace-plugin"@ {
                    &&& r == (if is_config {
                        EnvelopeAction::Skip
                    } else {
                        EnvelopeAction::FtraceResult
                    })
                    &&& final(self)@.plugins == old(self)@.plugins
                    &&& final(self)@.content == old(self)@.content
                } else {
                    &&& r == EnvelopeAction::Skip
                    &&& final(self)@.plugins == insert_name(old(self)@.plugins, plugin)
                    &&& final(self)@.content == old(self)@.content.push(
                        (ContentKind::Plugin, plugin, offset),
                    )
                }
            }),
    {
        let suffix = chars_of("_config");
        let (plugin, is_config) = match strip_suffix(name, suffix.as_slice()) {
            Some(p) => (p, true),
            None => (name, false),
        };
        if eq_str(plugin, "ftrace-plugin") {
            return if is_config {
                EnvelopeAction::Skip
            } else {
                EnvelopeAction::FtraceResult
            };
        }
        let ghost names = strings_view(self.plugins@);
        proof {
            lemma_insert_name(names, plugin@);
            lemma_name_position(names, plugin@);
        }
        let (pos, found) = find_name(&self.plugins, plugin);
        if !found {
            self.plugins.insert(pos, string_of(plugin));
            assert(strings_view(self.plugins@) =~= names.insert(pos as int, plugin@));
        }
        let ghost before = contents_view(self.content@);
        let item = UnsupportedHitraceContent {
            kind: ContentKind::Plugin,
            value: string_of(plugin),
            byte_offset: offset,
        };
        self.content.push(item);
        assert(contents_view(self.content@) =~= before.push(item@));
        EnvelopeAction::Skip
    }

    /// The skipped plugins, sorted, each once.
    pub fn plugins(&self) -> (r: &Vec<String>)
        ensures
            strings_view(r@) == self@.plugins,
    {
        &self.plugins
    }

    /// The skipped section types, ascending, each once.
    pub fn section_types(&self) -> (r: &Vec<u32>)
        ensures
            r@ == self@.section_types,
    {
        &self.section_types
    }

    /// Every skipped section and envelope, in file order.
    pub fn into_parts(self) -> (r: (Vec<String>, Vec<u32>, Vec<UnsupportedHitraceContent>))
        ensures
            strings_view(r.0@) == self@.plugins,
            r.1@ == self@.section_types,
            contents_view(r.2@) == self@.content,
    {
        (self.plugins, self.section_types, self.content)
    }
}

} // verus!
