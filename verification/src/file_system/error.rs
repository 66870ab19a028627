//! Failures that a scan records and goes on from.

use vstd::prelude::*;
use vstd::string::StringExecFns;

verus! {

/// Where a scan failed.
#[derive(Clone, Copy, Debug, PartialEq, Eq, Structural)]
pub enum ErrorKind {
    /// The name of an item is no UTF-8 and cannot be shown.
    Name,
    /// The metadata of an item could not be read.
    Metadata,
    /// A directory could not be listed.
    ReadDir,
    /// One item of a directory's listing could not be read.
    DirEntry,
    /// A file could not be opened or read to count its lines.
    Lines,
    /// The worker that scanned a top-level entry ended abnormally.
    Worker,
}

/// One failure: where it happened, at which item, and what the system said.
#[derive(Debug, PartialEq, Eq)]
pub struct ScanError {
    pub kind: ErrorKind,
    /// The raw name of the item; for `DirEntry`, of the directory listed.
    pub name: Vec<u8>,
    pub cause: String,
}

/// A `ScanError` as a mathematical value.
pub struct Failure {
    pub kind: ErrorKind,
    pub name: Seq<u8>,
    pub cause: Seq<char>,
}

impl View for ScanError {
    type V = Failure;

    open spec fn view(&self) -> Failure {
        Failure { kind: self.kind, name: self.name@, cause: self.cause@ }
    }
}

/// The failures in a list of errors, in order.
pub open spec fn failures(errors: Seq<ScanError>) -> Seq<Failure> {
    Seq::new(errors.len(), |i: int| errors[i]@)
}

/// Recording one more error adds its failure at the end.
pub proof fn lemma_failures_push(errors: Seq<ScanError>, error: ScanError)
    ensures
        failures(errors.push(error)) == failures(errors).push(error@),
{
    assert(failures(errors.push(error)) =~= failures(errors).push(error@));
}

/// The text that `String::from_utf8_lossy` makes of `bytes`: the text that
/// they encode, with a replacement character for what is no UTF-8.
pub uninterp spec fn lossy_text(bytes: Seq<u8>) -> Seq<char>;

/// Turns a raw name into text with `String::from_utf8_lossy`, which puts a
/// replacement character wherever the bytes are no UTF-8.
#[verifier::external_body]
fn lossy_name(name: &[u8]) -> (text: String)
    ensures
        text@ == lossy_text(name@),
{
    String::from_utf8_lossy(name).into_owned()
}

impl Failure {
    /// The line that reports the failure.
    pub open spec fn text(self) -> Seq<char> {
        let name = lossy_text(self.name);
        match self.kind {
            ErrorKind::Name => "name cannot be shown '"@ + name + "': "@ + self.cause,
            ErrorKind::Metadata => "error getting metadata for '"@ + name + "': "@ + self.cause,
            ErrorKind::ReadDir => "error reading dir '"@ + name + "': "@ + self.cause,
            ErrorKind::DirEntry => "error reading dir entry '"@ + name + "': "@ + self.cause,
            ErrorKind::Lines => "error counting lines of '"@ + name + "': "@ + self.cause,
            ErrorKind::Worker => "a reader thread panicked at '"@ + name + "': "@ + self.cause,
        }
    }
}

impl ScanError {
    /// The line that reports the error: what failed, at which item, and why.
    pub fn message(&self) -> (text: String)
        ensures
            text@ == self@.text(),
    {
        let lead = match self.kind {
            ErrorKind::Name => "name cannot be shown '",
            ErrorKind::Metadata => "error getting metadata for '",
            ErrorKind::ReadDir => "error reading dir '",
            ErrorKind::DirEntry => "error reading dir entry '",
            ErrorKind::Lines => "error counting lines of '",
            ErrorKind::Worker => "a reader thread panicked at '",
        };
        let mut text = String::from_str(lead);
        let name = lossy_name(self.name.as_slice());
        text.append(name.as_str());
        text.append("': ");
        text.append(self.cause.as_str());
        text
    }

    /// An error of the given kind at the item `name`.
    pub fn new(kind: ErrorKind, name: &Vec<u8>, cause: &String) -> (error: Self)
        ensures
            error@ == (Failure { kind, name: name@, cause: cause@ }),
    {
        ScanError { kind, name: vstd::slice::slice_to_vec(name.as_slice()), cause: cause.clone() }
    }
}

} // verus!
