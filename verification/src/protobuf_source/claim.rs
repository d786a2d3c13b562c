//! The Native Hook Source capture: which profiler envelopes it takes, the
//! provenance row of each payload it takes, the clocks it admits, and the
//! first failure, after which it takes nothing more.
use vstd::prelude::*;
use super::capture::{CaptureError, EnumDefinition, definitions_sorted, definitions_view, active_definitions, keeps_key_order};
use super::native_hook::{
    ClockAdmissionError, EnvelopeKind, NativeHookClockAdmission, admission_verdict, NativeHookRoot, native_hook_root,
    spec_native_hook_root,
};
use super::occurrence::{EnvelopeFacts, ProfilerPayloadCapture, ProfilerPayloadOccurrenceRow};

verus! {

/// The failure that stopped a Native Hook capture.
#[derive(Debug)]
pub enum ClaimFailure {
    /// The provenance capture refused the payload.
    Capture(CaptureError),
    /// Decoding or emitting the payload failed, as described.
    Payload { message: String },
}

/// Why a Native Hook capture refuses a call.
#[derive(Debug)]
pub enum NativeHookCaptureError {
    /// An earlier failure stopped the capture.
    Poisoned,
    /// The provenance capture refused the payload.
    Capture(CaptureError),
    /// The configs and event envelopes disagree on the clock.
    Clock(ClockAdmissionError),
}

/// The configs and event envelopes agree on one known clock, or there are
/// no events.
pub open spec fn clocks_admitted(a: NativeHookClockAdmission) -> bool {
    !a.requires_config || {
        &&& a.unsupported_config_clock is None
        &&& a.different_config_clock is None
        &&& a.config_clock matches Some(c)
        &&& (a.first_event_envelope_clock matches Some(f) ==> f == c.spec_envelope_clock())
        &&& (a.different_event_envelope_clock matches Some(d) ==> d == c.spec_envelope_clock())
    }
}

/// The Native Hook Source capture.
#[derive(Debug)]
pub struct NativeHookSourceCapture {
    capture: ProfilerPayloadCapture,
    terminal_error: Option<ClaimFailure>,
    clock_admission: NativeHookClockAdmission,
}

impl NativeHookSourceCapture {
    pub closed spec fn spec_capture(&self) -> ProfilerPayloadCapture {
        self.capture
    }

    pub closed spec fn spec_stopped(&self) -> bool {
        self.terminal_error is Some
    }

    pub closed spec fn spec_admission(&self) -> NativeHookClockAdmission {
        self.clock_admission
    }

    pub open spec fn wf(&self) -> bool {
        self.spec_capture().wf()
    }

    /// A capture over `capture`, with nothing taken and no clock seen.
    pub fn new(capture: ProfilerPayloadCapture) -> (r: Self)
        ensures
            r.spec_capture() == capture,
            !r.spec_stopped(),
            !r.spec_admission().requires_config,
            r.spec_admission().config_clock is None,
            r.spec_admission().unsupported_config_clock is None,
            r.spec_admission().different_config_clock is None,
            r.spec_admission().first_event_envelope_clock is None,
            r.spec_admission().different_event_envelope_clock is None,
    {
        NativeHookSourceCapture { capture, terminal_error: None, clock_admission: NativeHookClockAdmission::new() }
    }

    /// Whether the capture takes an envelope named `name` of `kind`: only the
    /// Native Hook data and config envelopes, and nothing once stopped.
    pub fn try_claim(&self, name: &str, kind: EnvelopeKind) -> (r: Result<Option<NativeHookRoot>, NativeHookCaptureError>)
        ensures
            self.spec_stopped() ==> r matches Err(NativeHookCaptureError::Poisoned),
            !self.spec_stopped() ==> (r matches Ok(root) && root == spec_native_hook_root(name@, kind)),
    {
        if self.terminal_error.is_some() {
            return Err(NativeHookCaptureError::Poisoned);
        }
        Ok(native_hook_root(name, kind))
    }

    /// Records the provenance of a taken payload; gives the provenance row,
    /// whose row id the payload's root rows refer to. A refusal stops the
    /// capture.
    pub fn bind_payload(&mut self, envelope: &EnvelopeFacts) -> (r: Result<ProfilerPayloadOccurrenceRow, NativeHookCaptureError>)
        requires
            old(self).wf(),
        ensures
            final(self).wf(),
            final(self).spec_admission() == old(self).spec_admission(),
            old(self).spec_stopped() ==> (r matches Err(NativeHookCaptureError::Poisoned) && final(self).spec_capture()
                == old(self).spec_capture()),
            !old(self).spec_stopped() ==> match r {
                Ok(row) => {
                    &&& !final(self).spec_stopped()
                    &&& old(self).spec_capture().capture@.next_row_ids[old(self).spec_capture().occurrence as int]
                        == Some(row.row_id)
                    &&& row.envelope_name@ == envelope.envelope_name@
                    &&& row.clock_id == envelope.clock_id
                },
                Err(_) => final(self).spec_stopped(),
            },
    {
        if self.terminal_error.is_some() {
            return Err(NativeHookCaptureError::Poisoned);
        }
        match self.capture.append_bound_payload(envelope) {
            Ok(row) => Ok(row),
            Err(e) => {
                let reported = match &e {
                    CaptureError::Poisoned { poison } => CaptureError::Poisoned { poison: poison.duplicate() },
                    CaptureError::MissingSlot { slot } => CaptureError::MissingSlot { slot: *slot },
                    CaptureError::RowIdOverflow { relation } => CaptureError::RowIdOverflow { relation: relation.clone() },
                };
                self.terminal_error = Some(ClaimFailure::Capture(e));
                Err(NativeHookCaptureError::Capture(reported))
            },
        }
    }

    /// Records that decoding or emitting a taken payload failed: the capture
    /// stops, unless it had stopped already.
    pub fn record_failure(&mut self, message: String)
        ensures
            final(self).spec_stopped(),
            final(self).spec_capture() == old(self).spec_capture(),
            final(self).spec_admission() == old(self).spec_admission(),
    {
        if self.terminal_error.is_none() {
            self.terminal_error = Some(ClaimFailure::Payload { message });
        }
    }

    /// A taken batch of `event_count` events whose envelope carries
    /// `envelope_clock`; see [`NativeHookClockAdmission::observe_batch`].
    pub fn observe_batch(&mut self, event_count: usize, envelope_clock: i32)
        ensures
            final(self).spec_capture() == old(self).spec_capture(),
            final(self).spec_stopped() == old(self).spec_stopped(),
            event_count == 0 ==> final(self).spec_admission() == old(self).spec_admission(),
            event_count > 0 ==> {
                &&& final(self).spec_admission().requires_config
                &&& (final(self).spec_admission().first_event_envelope_clock, final(self).spec_admission().different_event_envelope_clock)
                    == super::native_hook::remembered(
                    old(self).spec_admission().first_event_envelope_clock,
                    old(self).spec_admission().different_event_envelope_clock,
                    envelope_clock,
                )
                &&& final(self).spec_admission().config_clock == old(self).spec_admission().config_clock
                &&& final(self).spec_admission().unsupported_config_clock == old(self).spec_admission().unsupported_config_clock
                &&& final(self).spec_admission().different_config_clock == old(self).spec_admission().different_config_clock
            },
    {
        self.clock_admission.observe_batch(event_count, envelope_clock);
    }

    /// A taken config naming `clock`; see
    /// [`NativeHookClockAdmission::observe_config`].
    pub fn observe_config(&mut self, clock: &str)
        ensures
            final(self).spec_capture() == old(self).spec_capture(),
            final(self).spec_stopped() == old(self).spec_stopped(),
            final(self).spec_admission().requires_config == old(self).spec_admission().requires_config,
            final(self).spec_admission().first_event_envelope_clock == old(self).spec_admission().first_event_envelope_clock,
            final(self).spec_admission().different_event_envelope_clock == old(self).spec_admission().different_event_envelope_clock,
            match super::native_hook::spec_parse_clock(clock@) {
                Some(c) => (final(self).spec_admission().config_clock, final(self).spec_admission().different_config_clock)
                    == super::native_hook::remembered(
                    old(self).spec_admission().config_clock,
                    old(self).spec_admission().different_config_clock,
                    c,
                ) && final(self).spec_admission().unsupported_config_clock == old(self).spec_admission().unsupported_config_clock,
                None => final(self).spec_admission().config_clock == old(self).spec_admission().config_clock
                    && final(self).spec_admission().different_config_clock == old(self).spec_admission().different_config_clock
                    && match old(self).spec_admission().unsupported_config_clock {
                    Some(u) => final(self).spec_admission().unsupported_config_clock == Some(u),
                    None => final(self).spec_admission().unsupported_config_clock matches Some(u) && u@ == clock@,
                },
            },
    {
        self.clock_admission.observe_config(clock);
    }

    /// Ends the capture: refuses if it was stopped, then checks the clocks,
    /// then gives the enum symbols of the relations that received rows,
    /// sorted.
    pub fn finish(self) -> (r: Result<Vec<EnumDefinition>, NativeHookCaptureError>)
        requires
            self.wf(),
        ensures
            self.spec_stopped() ==> r matches Err(NativeHookCaptureError::Poisoned),
            !self.spec_stopped() && !clocks_admitted(self.spec_admission()) ==> (r matches Err(
                NativeHookCaptureError::Clock(e),
            ) && admission_verdict(self.spec_admission(), Err(e))),
            !self.spec_stopped() && clocks_admitted(self.spec_admission()) ==> match self.spec_capture().capture@.poisoned {
                Some(p) => r == Err::<Vec<EnumDefinition>, NativeHookCaptureError>(
                    NativeHookCaptureError::Capture(CaptureError::Poisoned { poison: p }),
                ),
                None => r is Ok,
            },
            r matches Ok(defs) ==> {
                &&& !self.spec_stopped()
                &&& clocks_admitted(self.spec_admission())
                &&& self.spec_capture().capture@.poisoned is None
                &&& definitions_sorted(definitions_view(defs@))
                &&& definitions_view(defs@).to_multiset() == active_definitions(
                    self.spec_capture().capture@.relation_names,
                    self.spec_capture().capture@.has_rows,
                    self.spec_capture().capture@.origins,
                    0,
                ).to_multiset()
                &&& keeps_key_order(
                    definitions_view(defs@),
                    active_definitions(
                        self.spec_capture().capture@.relation_names,
                        self.spec_capture().capture@.has_rows,
                        self.spec_capture().capture@.origins,
                        0,
                    ),
                )
            },
    {
        if self.terminal_error.is_some() {
            return Err(NativeHookCaptureError::Poisoned);
        }
        match self.clock_admission.validate() {
            Err(e) => return Err(NativeHookCaptureError::Clock(e)),
            Ok(()) => {},
        }
        match self.capture.capture.finish() {
            Err(e) => Err(NativeHookCaptureError::Capture(e)),
            Ok(defs) => Ok(defs),
        }
    }
}

} // verus!
