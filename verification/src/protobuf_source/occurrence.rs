//! The provenance table of profiler envelopes: one row per envelope whose
//! payload a capture took, with the row id that the payload's root rows
//! refer to.
use vstd::prelude::*;
use crate::text::owned;
use super::capture::{CaptureError, CaptureSetupError, SourceTableCapture, SourceTableLayout, relation_names};
use super::spec::{EnumOriginSpec, EnumSymbol, FieldSpec, FieldType, RelationSpec};
use super::spool::{EstimateError, SpoolOptions, SpoolOptionsError, add_estimated_bytes, spec_variable_width_bytes, text_bytes, utf8_len};

verus! {

fn column(name: &str, data_type: FieldType) -> (r: FieldSpec)
    ensures
        r.name@ == name@,
        r.data_type == data_type,
{
    FieldSpec { name: owned(name), data_type }
}

/// The columns of the provenance table, by name.
pub open spec fn occurrence_columns() -> Seq<Seq<char>> {
    seq![
        "_kat_row_id"@,
        "envelope_name"@,
        "status"@,
        "clock_id"@,
        "tv_sec"@,
        "tv_nsec"@,
        "version"@,
        "sample_interval"@,
    ]
}

/// The provenance table: `profiler_payload_occurrence`, with a row id, the
/// envelope's name, status, clock, time, version and sample interval.
pub fn profiler_payload_occurrence_spec() -> (r: RelationSpec)
    ensures
        r.name@ == "profiler_payload_occurrence"@,
        r.columns@.len() == 8,
        forall|i: int| 0 <= i < 8 ==> (#[trigger] r.columns@[i]).name@ == occurrence_columns()[i],
        r.columns@[0].data_type is UInt64,
        r.columns@[1].data_type is Utf8,
        r.columns@[2].data_type is UInt32,
        r.columns@[3].data_type is Int32,
        r.columns@[4].data_type is UInt64,
        r.columns@[5].data_type is UInt64,
        r.columns@[6].data_type is Utf8,
        r.columns@[7].data_type is UInt32,
{
    let mut columns: Vec<FieldSpec> = Vec::new();
    columns.push(column("_kat_row_id", FieldType::UInt64));
    columns.push(column("envelope_name", FieldType::Utf8));
    columns.push(column("status", FieldType::UInt32));
    columns.push(column("clock_id", FieldType::Int32));
    columns.push(column("tv_sec", FieldType::UInt64));
    columns.push(column("tv_nsec", FieldType::UInt64));
    columns.push(column("version", FieldType::Utf8));
    columns.push(column("sample_interval", FieldType::UInt32));
    RelationSpec { name: owned("profiler_payload_occurrence"), columns }
}

/// The enum symbol table: `protobuf_enum_symbol`, with the origin table and
/// field path, the enum's name, and each number with its symbol.
pub fn protobuf_enum_symbol_spec() -> (r: RelationSpec)
    ensures
        r.name@ == "protobuf_enum_symbol"@,
        r.columns@.len() == 5,
        r.columns@[0].name@ == "origin_table"@ && r.columns@[0].data_type is Utf8,
        r.columns@[1].name@ == "origin_field_path"@ && r.columns@[1].data_type is Utf8,
        r.columns@[2].name@ == "enum_type_name"@ && r.columns@[2].data_type is Utf8,
        r.columns@[3].name@ == "enum_number"@ && r.columns@[3].data_type is Int32,
        r.columns@[4].name@ == "enum_symbol"@ && r.columns@[4].data_type is Utf8,
{
    let mut columns: Vec<FieldSpec> = Vec::new();
    columns.push(column("origin_table", FieldType::Utf8));
    columns.push(column("origin_field_path", FieldType::Utf8));
    columns.push(column("enum_type_name", FieldType::Utf8));
    columns.push(column("enum_number", FieldType::Int32));
    columns.push(column("enum_symbol", FieldType::Utf8));
    RelationSpec { name: owned("protobuf_enum_symbol"), columns }
}

/// What a profiler envelope says of itself.
#[derive(Debug, Clone)]
pub struct EnvelopeFacts {
    pub envelope_name: String,
    pub status: u32,
    pub clock_id: i32,
    pub tv_sec: u64,
    pub tv_nsec: u64,
    pub version: String,
    pub sample_interval: u32,
}

/// A row of the provenance table.
#[derive(Debug)]
pub struct ProfilerPayloadOccurrenceRow {
    pub row_id: u64,
    pub envelope_name: String,
    pub status: u32,
    pub clock_id: i32,
    pub tv_sec: u64,
    pub tv_nsec: u64,
    pub version: String,
    pub sample_interval: u32,
}

/// The estimate of a provenance row: two texts and six fixed-width values.
pub open spec fn spec_occurrence_bytes(row: ProfilerPayloadOccurrenceRow) -> int {
    9 + spec_variable_width_bytes(utf8_len(row.envelope_name@)) + 5 + 5 + 9 + 9 + spec_variable_width_bytes(
        utf8_len(row.version@),
    ) + 5
}

impl ProfilerPayloadOccurrenceRow {
    /// The logical size estimate of the row; a text whose estimate does not
    /// fit comes first, then a total that does not fit.
    pub fn estimated_bytes(&self) -> (r: Result<usize, EstimateError>)
        ensures
            match r {
                Ok(n) => n == spec_occurrence_bytes(*self),
                Err(e) => {
                    ||| (e == EstimateError::Utf8Overflow && (spec_variable_width_bytes(utf8_len(self.envelope_name@))
                        > usize::MAX || spec_variable_width_bytes(utf8_len(self.version@)) > usize::MAX))
                    ||| (e == EstimateError::TotalOverflow && spec_occurrence_bytes(*self) > usize::MAX)
                },
            },
    {
        let name = match text_bytes(self.envelope_name.as_str()) {
            Err(e) => return Err(e),
            Ok(n) => n,
        };
        let version = match text_bytes(self.version.as_str()) {
            Err(e) => return Err(e),
            Ok(n) => n,
        };
        let mut total: usize = 0;
        match add_estimated_bytes(&mut total, 9) {
            Err(e) => return Err(e),
            Ok(()) => {},
        }
        match add_estimated_bytes(&mut total, name) {
            Err(e) => return Err(e),
            Ok(()) => {},
        }
        match add_estimated_bytes(&mut total, 5) {
            Err(e) => return Err(e),
            Ok(()) => {},
        }
        match add_estimated_bytes(&mut total, 5) {
            Err(e) => return Err(e),
            Ok(()) => {},
        }
        match add_estimated_bytes(&mut total, 9) {
            Err(e) => return Err(e),
            Ok(()) => {},
        }
        match add_estimated_bytes(&mut total, 9) {
            Err(e) => return Err(e),
            Ok(()) => {},
        }
        match add_estimated_bytes(&mut total, version) {
            Err(e) => return Err(e),
            Ok(()) => {},
        }
        match add_estimated_bytes(&mut total, 5) {
            Err(e) => return Err(e),
            Ok(()) => {},
        }
        Ok(total)
    }
}

/// A capture of profiler payloads with their provenance table.
#[derive(Debug)]
pub struct ProfilerPayloadCapture {
    /// The capture, for the payloads' own rows.
    pub capture: SourceTableCapture,
    /// The slot of the provenance table.
    pub occurrence: usize,
}

impl ProfilerPayloadCapture {
    pub open spec fn wf(&self) -> bool {
        self.capture.wf() && self.occurrence < self.capture@.relation_names.len()
    }

    /// The capture of `layout` with the provenance table after its
    /// relations, whose `clock_id` column has the enum `clock_enum_name`
    /// with `clock_symbols`.
    pub fn build(layout: SourceTableLayout, options: SpoolOptions, clock_enum_name: String, clock_symbols: Vec<EnumSymbol>) -> (r: Result<Self, CaptureSetupError>)
        ensures
            ({
                match r {
                    Ok(c) => {
                        &&& c.wf()
                        &&& c.occurrence == layout.spec_relations().len()
                        &&& c.capture@.relation_names == relation_names(layout.spec_relations()).push(
                            "profiler_payload_occurrence"@,
                        )
                        &&& c.capture@.origins.len() == layout.spec_origins().len() + 1
                        &&& c.capture@.origins.drop_last() == layout.spec_origins()
                        &&& c.capture@.origins.last().relation == layout.spec_relations().len()
                        &&& c.capture@.origins.last().field_path@ == "clock_id"@
                        &&& c.capture@.origins.last().enum_name == clock_enum_name
                        &&& c.capture@.origins.last().symbols == clock_symbols
                        &&& c.capture@.options == options
                        &&& c.capture@.poisoned is None
                        &&& forall|i: int|
                            0 <= i < c.capture@.next_row_ids.len() ==> c.capture@.next_row_ids[i]
                                == Some(0u64)
                    },
                    Err(CaptureSetupError::Options(e)) => options.spec_validate() == Err::<(), SpoolOptionsError>(e),
                    Err(CaptureSetupError::Spec(_)) => options.spec_validate() is Ok,
                }
            }),
    {
        let mut layout = layout;
        let occurrence = layout.append_relation(profiler_payload_occurrence_spec());
        layout.append_enum_origin(
            EnumOriginSpec { relation: occurrence, field_path: owned("clock_id"), enum_name: clock_enum_name, symbols: clock_symbols },
        );
        let ghost rels = layout.spec_relations();
        match layout.into_capture(options) {
            Err(e) => Err(e),
            Ok(capture) => {
                proof {
                    assert(relation_names(rels) =~= relation_names(rels.drop_last()).push(rels.last().name@));
                }
                Ok(ProfilerPayloadCapture { capture, occurrence })
            },
        }
    }

    /// Records a payload taken from `envelope`: allocates the provenance
    /// row's id and admits the row. Gives the row to write; its row id is
    /// the one the payload's root rows refer to.
    pub fn append_bound_payload(&mut self, envelope: &EnvelopeFacts) -> (r: Result<ProfilerPayloadOccurrenceRow, CaptureError>)
        requires
            old(self).wf(),
        ensures
            final(self).wf(),
            final(self).occurrence == old(self).occurrence,
            match r {
                Ok(row) => {
                    &&& old(self).capture@.poisoned is None
                    &&& old(self).capture@.next_row_ids[old(self).occurrence as int] == Some(row.row_id)
                    &&& row.envelope_name@ == envelope.envelope_name@
                    &&& row.status == envelope.status
                    &&& row.clock_id == envelope.clock_id
                    &&& row.tv_sec == envelope.tv_sec
                    &&& row.tv_nsec == envelope.tv_nsec
                    &&& row.version@ == envelope.version@
                    &&& row.sample_interval == envelope.sample_interval
                    &&& final(self).capture@.has_rows[old(self).occurrence as int]
                },
                Err(_) => {
                    ||| old(self).capture@.poisoned is Some
                    ||| old(self).capture@.next_row_ids[old(self).occurrence as int] is None
                },
            },
    {
        let row_id = match self.capture.allocate_row_id(self.occurrence) {
            Err(e) => return Err(e),
            Ok(id) => id,
        };
        match self.capture.append_row(self.occurrence) {
            Err(e) => return Err(e),
            Ok(_) => {},
        }
        Ok(
            ProfilerPayloadOccurrenceRow {
                row_id,
                envelope_name: envelope.envelope_name.clone(),
                status: envelope.status,
                clock_id: envelope.clock_id,
                tv_sec: envelope.tv_sec,
                tv_nsec: envelope.tv_nsec,
                version: envelope.version.clone(),
                sample_interval: envelope.sample_interval,
            },
        )
    }
}

} // verus!
