//! Telling files from directories.

use vstd::prelude::*;
use crate::file_system::error::{ErrorKind, Failure, ScanError};

verus! {

/// What the metadata of an item says.
#[derive(Clone, Copy, Debug, PartialEq, Eq, Structural)]
pub struct Metadata {
    pub is_file: bool,
    pub is_dir: bool,
    /// The size in bytes.
    pub len: u64,
}

/// The kinds of item that a scan tells apart.
#[derive(Clone, Copy, Debug, PartialEq, Eq, Structural)]
pub enum EntryType {
    Dir,
    File,
}

impl EntryType {
    /// The kind that the metadata gives: a file, else a directory, else
    /// neither.
    pub open spec fn of(metadata: Metadata) -> Option<EntryType> {
        if metadata.is_file {
            Some(EntryType::File)
        } else if metadata.is_dir {
            Some(EntryType::Dir)
        } else {
            None
        }
    }

    /// The metadata is that of an item of this kind.
    pub open spec fn accepts(self, metadata: Metadata) -> bool {
        match self {
            EntryType::Dir => metadata.is_dir,
            EntryType::File => metadata.is_file,
        }
    }

    /// Tells the kind of an item from its metadata.
    pub fn classify(metadata: &Metadata) -> (kind: Option<EntryType>)
        ensures
            kind == EntryType::of(*metadata),
    {
        if metadata.is_file {
            Some(EntryType::File)
        } else if metadata.is_dir {
            Some(EntryType::Dir)
        } else {
            None
        }
    }

    /// Tells whether the item `name` is of this kind, from what reading its
    /// metadata gave. Where the metadata could not be read, the answer is the
    /// failure to record.
    pub fn try_match(&self, name: &Vec<u8>, metadata: &Result<Metadata, String>) -> (matched: Result<
        bool,
        ScanError,
    >)
        ensures
            match *metadata {
                Ok(metadata) => matched == Ok::<bool, ScanError>(self.accepts(metadata)),
                Err(cause) => matched is Err && matched->Err_0@ == (Failure {
                    kind: ErrorKind::Metadata,
                    name: name@,
                    cause: cause@,
                }),
            },
    {
        match metadata {
            Ok(metadata) => Ok(
                match self {
                    EntryType::Dir => metadata.is_dir,
                    EntryType::File => metadata.is_file,
                },
            ),
            Err(cause) => Err(ScanError::new(ErrorKind::Metadata, name, cause)),
        }
    }
}

} // verus!
