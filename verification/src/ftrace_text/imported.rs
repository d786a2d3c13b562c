//! What importing a text trace reports.
use vstd::prelude::*;
use std::path::PathBuf;
use super::decode::TextFtraceDecodeError;
use super::line::TextFtraceLineError;
use super::summary::{CompatibilityView, TextFtraceCompatibilityError, UnsupportedFtraceEvent, UnsupportedView, unsupported_view};

verus! {

/// An imported text trace: the dataset it became, and the events that
/// were skipped, by name.
#[derive(Debug)]
pub struct ImportedTextFtrace {
    path: PathBuf,
    unsupported_events: Vec<UnsupportedFtraceEvent>,
}

impl ImportedTextFtrace {
    pub closed spec fn spec_path(&self) -> PathBuf {
        self.path
    }

    pub closed spec fn spec_unsupported_events(&self) -> Seq<UnsupportedView> {
        unsupported_view(self.unsupported_events@)
    }

    pub fn new(path: PathBuf, unsupported_events: Vec<UnsupportedFtraceEvent>) -> (r: Self)
        ensures
            r.spec_path() == path,
            r.spec_unsupported_events() == unsupported_view(unsupported_events@),
    {
        ImportedTextFtrace { path, unsupported_events }
    }

    pub fn path(&self) -> (r: &PathBuf)
        ensures
            *r == self.spec_path(),
    {
        &self.path
    }

    pub fn unsupported_events(&self) -> (r: &[UnsupportedFtraceEvent])
        ensures
            unsupported_view(r@) == self.spec_unsupported_events(),
    {
        self.unsupported_events.as_slice()
    }
}

/// Why importing a text trace failed: a message, and the compatibility
/// error when a supported event had a payload of the wrong shape.
#[derive(Debug)]
pub struct TextFtraceImportError {
    message: String,
    compatibility: Option<TextFtraceCompatibilityError>,
}

impl TextFtraceImportError {
    pub closed spec fn spec_message(&self) -> Seq<char> {
        self.message@
    }

    pub closed spec fn spec_compatibility(&self) -> Option<CompatibilityView> {
        match self.compatibility {
            Some(c) => Some(c@),
            None => None,
        }
    }

    /// A failure that is not a decoding error.
    pub fn new(message: String) -> (r: Self)
        ensures
            r.spec_message() == message@,
            r.spec_compatibility() is None,
    {
        TextFtraceImportError { message, compatibility: None }
    }

    /// A decoding failure; it carries the compatibility error, if that is
    /// what the decoding error is.
    pub fn from_decode_error(message: String, error: TextFtraceDecodeError) -> (r: Self)
        ensures
            r.spec_message() == message@,
            r.spec_compatibility() == (match error {
                TextFtraceDecodeError::InvalidEvent { error: TextFtraceLineError::Incompatible(c), .. } => Some(c@),
                _ => None,
            }),
    {
        let compatibility = match error {
            TextFtraceDecodeError::InvalidEvent { error: TextFtraceLineError::Incompatible(c), .. } => Some(c),
            _ => None,
        };
        TextFtraceImportError { message, compatibility }
    }

    pub fn message(&self) -> (r: &str)
        ensures
            r@ == self.spec_message(),
    {
        self.message.as_str()
    }

    /// The compatibility error behind the failure, if any.
    pub fn compatibility(&self) -> (r: Option<&TextFtraceCompatibilityError>)
        ensures
            match self.spec_compatibility() {
                Some(c) => r matches Some(e) && e@ == c,
                None => r is None,
            },
    {
        match &self.compatibility {
            Some(c) => Some(c),
            None => None,
        }
    }
}

} // verus!
