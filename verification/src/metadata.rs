//! The installation record and what is read out of it.

use crate::version::version_of;
use crate::version::Version;
use crate::version::VersionView;
use vstd::prelude::*;

verus! {

/// The record of what is installed. It is written anew, as a whole, after
/// every install.
#[derive(Debug)]
pub struct Metadata {
    pub current_version: Version,
    /// When the record was written, as the writer chose to put it.
    pub last_updated: String,
    /// The file name of the installed executable.
    pub executable_name: String,
}

/// The mathematical content of a record.
pub struct MetadataView {
    pub current_version: VersionView,
    pub last_updated: Seq<char>,
    pub executable_name: Seq<char>,
}

impl View for Metadata {
    type V = MetadataView;

    open spec fn view(&self) -> MetadataView {
        MetadataView {
            current_version: self.current_version@,
            last_updated: self.last_updated@,
            executable_name: self.executable_name@,
        }
    }
}

/// A record as the file holds it: three texts.
#[derive(Debug)]
pub struct RawRecord {
    pub current_version: String,
    pub last_updated: String,
    pub executable_name: String,
}

/// The record that three texts stand for, or `None` where the first is
/// not a semantic version.
pub open spec fn record_of(
    current_version: Seq<char>,
    last_updated: Seq<char>,
    executable_name: Seq<char>,
) -> Option<MetadataView> {
    match version_of(current_version) {
        Some(version) => Some(
            MetadataView { current_version: version, last_updated, executable_name },
        ),
        None => None,
    }
}

impl Metadata {
    /// The record written after `version` was installed as the file
    /// `executable_name`.
    pub fn new(version: Version, last_updated: String, executable_name: String) -> (m: Metadata)
        ensures
            m@ == (MetadataView {
                current_version: version@,
                last_updated: last_updated@,
                executable_name: executable_name@,
            }),
    {
        Metadata { current_version: version, last_updated, executable_name }
    }
}

/// What the record file amounts to. `None` stands for a file that is
/// absent, cannot be read or does not hold the three texts; a file whose
/// version is no semantic version is corrupt as well. All of these mean
/// that there is no prior installation: no record comes out, and no
/// failure.
pub fn read_metadata(raw: Option<RawRecord>) -> (r: Option<Metadata>)
    ensures
        match raw {
            Some(file) => match r {
                Some(record) => record_of(
                    file.current_version@,
                    file.last_updated@,
                    file.executable_name@,
                ) == Some(record@) && record@.current_version.wf(),
                None => record_of(
                    file.current_version@,
                    file.last_updated@,
                    file.executable_name@,
                ) is None,
            },
            None => r is None,
        },
{
    match raw {
        Some(file) => match Version::parse(file.current_version.as_str()) {
            Ok(version) => Some(
                Metadata {
                    current_version: version,
                    last_updated: file.last_updated,
                    executable_name: file.executable_name,
                },
            ),
            Err(_) => None,
        },
        None => None,
    }
}

/// The texts that are written to the file for a record.
pub fn write_metadata(record: &Metadata) -> (raw: RawRecord)
    ensures
        raw.current_version@ == record@.current_version.text(),
        raw.last_updated@ == record@.last_updated,
        raw.executable_name@ == record@.executable_name,
{
    RawRecord {
        current_version: record.current_version.to_string(),
        last_updated: record.last_updated.clone(),
        executable_name: record.executable_name.clone(),
    }
}

/// The installed version according to the record. With no record nothing
/// counts as installed, and that is no failure.
pub fn get_current_version(record: Option<Metadata>) -> (r: Option<Version>)
    ensures
        match record {
            Some(m) => r is Some && r->0@ == m@.current_version,
            None => r is None,
        },
{
    match record {
        Some(m) => Some(m.current_version),
        None => None,
    }
}

} // verus!
