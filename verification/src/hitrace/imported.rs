//! What importing or decoding a Hitrace capture reports.
use vstd::prelude::*;
use std::path::PathBuf;
use crate::sorted::strings_view;
use super::report::{ContentView, UnsupportedHitraceContent, contents_view};

verus! {

/// An imported capture: the dataset it became, and what was skipped.
#[derive(Debug)]
pub struct ImportedHitrace {
    path: PathBuf,
    unsupported_plugins: Vec<String>,
    unsupported_section_types: Vec<u32>,
    unsupported_content: Vec<UnsupportedHitraceContent>,
}

impl ImportedHitrace {
    pub closed spec fn spec_path(&self) -> PathBuf {
        self.path
    }

    pub closed spec fn spec_unsupported_plugins(&self) -> Seq<Seq<char>> {
        strings_view(self.unsupported_plugins@)
    }

    pub closed spec fn spec_unsupported_section_types(&self) -> Seq<u32> {
        self.unsupported_section_types@
    }

    pub closed spec fn spec_unsupported_content(&self) -> Seq<ContentView> {
        contents_view(self.unsupported_content@)
    }

    pub fn new(
        path: PathBuf,
        unsupported_plugins: Vec<String>,
        unsupported_section_types: Vec<u32>,
        unsupported_content: Vec<UnsupportedHitraceContent>,
    ) -> (r: Self)
        ensures
            r.spec_path() == path,
            r.spec_unsupported_plugins() == strings_view(unsupported_plugins@),
            r.spec_unsupported_section_types() == unsupported_section_types@,
            r.spec_unsupported_content() == contents_view(unsupported_content@),
    {
        ImportedHitrace { path, unsupported_plugins, unsupported_section_types, unsupported_content }
    }

    pub fn path(&self) -> (r: &PathBuf)
        ensures
            *r == self.spec_path(),
    {
        &self.path
    }

    pub fn unsupported_plugins(&self) -> (r: &[String])
        ensures
            strings_view(r@) == self.spec_unsupported_plugins(),
    {
        self.unsupported_plugins.as_slice()
    }

    pub fn unsupported_section_types(&self) -> (r: &[u32])
        ensures
            r@ == self.spec_unsupported_section_types(),
    {
        self.unsupported_section_types.as_slice()
    }

    pub fn unsupported_content(&self) -> (r: &[UnsupportedHitraceContent])
        ensures
            contents_view(r@) == self.spec_unsupported_content(),
    {
        self.unsupported_content.as_slice()
    }
}

/// What decoding a capture skipped.
#[derive(Debug)]
pub struct HitraceDecodeReport {
    unsupported_plugins: Vec<String>,
    unsupported_section_types: Vec<u32>,
}

impl HitraceDecodeReport {
    pub closed spec fn spec_unsupported_plugins(&self) -> Seq<Seq<char>> {
        strings_view(self.unsupported_plugins@)
    }

    pub closed spec fn spec_unsupported_section_types(&self) -> Seq<u32> {
        self.unsupported_section_types@
    }

    pub fn new(unsupported_plugins: Vec<String>, unsupported_section_types: Vec<u32>) -> (r: Self)
        ensures
            r.spec_unsupported_plugins() == strings_view(unsupported_plugins@),
            r.spec_unsupported_section_types() == unsupported_section_types@,
    {
        HitraceDecodeReport { unsupported_plugins, unsupported_section_types }
    }

    pub fn unsupported_plugins(&self) -> (r: &[String])
        ensures
            strings_view(r@) == self.spec_unsupported_plugins(),
    {
        self.unsupported_plugins.as_slice()
    }

    pub fn unsupported_section_types(&self) -> (r: &[u32])
        ensures
            r@ == self.spec_unsupported_section_types(),
    {
        self.unsupported_section_types.as_slice()
    }
}

/// Why decoding a capture failed, as one message.
#[derive(Debug)]
pub struct HitraceDecodeError {
    message: String,
}

impl HitraceDecodeError {
    pub closed spec fn spec_message(&self) -> Seq<char> {
        self.message@
    }

    pub fn new(message: String) -> (r: Self)
        ensures
            r.spec_message() == message@,
    {
        HitraceDecodeError { message }
    }

    pub fn message(&self) -> (r: &str)
        ensures
            r@ == self.spec_message(),
    {
        self.message.as_str()
    }
}

} // verus!
