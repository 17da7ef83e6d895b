//! From what a scan of a directory found to the records of a listing.
//!
//! The scan itself is the caller's: it opens the directory, looks at each
//! entry and hands over what it learned as plain values. This module
//! decides what becomes of them: which failure ends the listing, which
//! entries become records, and how many were left out.

use crate::record::is_valid_name;
use crate::record::record_views;
use crate::record::valid_name;
use crate::record::PathKind;
use crate::record::PathRecord;
use crate::record::PathRecordView;
use crate::text::texts;
use vstd::prelude::*;

verus! {

/// Why a directory could not be listed, or an entry not be read.
#[derive(Clone, Copy, Debug, PartialEq, Eq, Structural)]
pub enum CollectError {
    /// Nothing exists at the path.
    NotFound,
    /// The path leads to something that is not a directory.
    NotADirectory,
    /// Access was refused.
    PermissionDenied,
    /// Any other failure to read.
    Unreadable,
}

/// How an operation on the file system failed, as the scan reports it.
#[derive(Clone, Copy, Debug, PartialEq, Eq, Structural)]
pub enum IoFailure {
    NotFound,
    NotADirectory,
    PermissionDenied,
    Other,
}

/// What the scan learned of one entry of the directory.
#[derive(Debug, PartialEq, Eq)]
pub enum EntryProbe {
    /// The entry and its metadata were read.
    Read { name: String, is_dir: bool, len: u64, modified: u64 },
    /// The entry, its name or its metadata could not be read.
    Failed(IoFailure),
}

/// The records of a directory, and how many of its entries were left out.
#[derive(Debug, PartialEq, Eq)]
pub struct Listing {
    pub records: Vec<PathRecord>,
    pub skipped: usize,
}

/// The error that a failure stands for.
pub open spec fn error_of(failure: IoFailure) -> CollectError {
    match failure {
        IoFailure::NotFound => CollectError::NotFound,
        IoFailure::NotADirectory => CollectError::NotADirectory,
        IoFailure::PermissionDenied => CollectError::PermissionDenied,
        IoFailure::Other => CollectError::Unreadable,
    }
}

/// The kind of an entry, going by its metadata alone.
pub open spec fn kind_of(is_dir: bool) -> PathKind {
    if is_dir {
        PathKind::Folder
    } else {
        PathKind::File
    }
}

/// The size that a record states: the length of a file, and 0 for a
/// folder, whose contents are not added up.
pub open spec fn stated_size(kind: PathKind, len: nat) -> nat {
    match kind {
        PathKind::File => len,
        PathKind::Folder => 0,
    }
}

/// What reading one entry comes to: its record, or the reason why it has
/// none. An entry that was read but has no valid name is unreadable.
pub open spec fn entry_outcome(probe: EntryProbe) -> Result<PathRecordView, CollectError> {
    match probe {
        EntryProbe::Read { name, is_dir, len, modified } => {
            if valid_name(name@) {
                Ok(
                    PathRecordView {
                        name: name@,
                        kind: kind_of(is_dir),
                        size_bytes: stated_size(kind_of(is_dir), len as nat),
                        modified: modified as nat,
                    },
                )
            } else {
                Err(CollectError::Unreadable)
            }
        },
        EntryProbe::Failed(failure) => Err(error_of(failure)),
    }
}

/// The records of the entries that have one, in the order of the entries.
pub open spec fn collected(entries: Seq<EntryProbe>) -> Seq<PathRecordView>
    decreases entries.len(),
{
    if entries.len() == 0 {
        Seq::<PathRecordView>::empty()
    } else {
        let before = collected(entries.drop_last());
        match entry_outcome(entries.last()) {
            Ok(record) => before.push(record),
            Err(_) => before,
        }
    }
}

/// The number of entries that have no record.
pub open spec fn skipped(entries: Seq<EntryProbe>) -> nat
    decreases entries.len(),
{
    if entries.len() == 0 {
        0
    } else {
        let before = skipped(entries.drop_last());
        match entry_outcome(entries.last()) {
            Ok(_) => before,
            Err(_) => before + 1,
        }
    }
}

/// The names of records, in their order.
pub open spec fn names_of(records: Seq<PathRecordView>) -> Seq<Seq<char>> {
    Seq::new(records.len(), |i: int| records[i].name)
}

/// Every entry is either collected or counted as skipped.
pub proof fn lemma_collected_or_skipped(entries: Seq<EntryProbe>)
    ensures
        collected(entries).len() + skipped(entries) == entries.len(),
    decreases entries.len(),
{
    if entries.len() > 0 {
        lemma_collected_or_skipped(entries.drop_last());
    }
}

/// The error that a failure stands for.
pub fn directory_error(failure: IoFailure) -> (error: CollectError)
    ensures
        error == error_of(failure),
{
    match failure {
        IoFailure::NotFound => CollectError::NotFound,
        IoFailure::NotADirectory => CollectError::NotADirectory,
        IoFailure::PermissionDenied => CollectError::PermissionDenied,
        IoFailure::Other => CollectError::Unreadable,
    }
}

/// The kind of an entry, going by its metadata alone: a folder if the
/// metadata say it is a directory, else a file.
pub fn detect_path_type(is_dir: bool) -> (kind: PathKind)
    ensures
        kind == kind_of(is_dir),
{
    if is_dir {
        PathKind::Folder
    } else {
        PathKind::File
    }
}

/// The size that a record states for an entry of a kind whose metadata
/// give a length.
pub fn get_path_size(kind: PathKind, len: u64) -> (size: u64)
    ensures
        size == stated_size(kind, len as nat),
{
    match kind {
        PathKind::File => len,
        PathKind::Folder => 0,
    }
}

/// Reads one entry: its record, or the reason why it has none.
pub fn read_entry(probe: &EntryProbe) -> (outcome: Result<PathRecord, CollectError>)
    ensures
        match outcome {
            Ok(record) => entry_outcome(*probe) == Ok::<PathRecordView, CollectError>(record@),
            Err(error) => entry_outcome(*probe) == Err::<PathRecordView, CollectError>(error),
        },
{
    match probe {
        EntryProbe::Read { name, is_dir, len, modified } => {
            let kind = detect_path_type(*is_dir);
            match PathRecord::new(name.clone(), kind, get_path_size(kind, *len), *modified) {
                Some(record) => Ok(record),
                None => Err(CollectError::Unreadable),
            }
        },
        EntryProbe::Failed(failure) => Err(directory_error(*failure)),
    }
}

/// Lists a directory from what its scan found. A failure to open the
/// directory ends the listing with its error. Otherwise every entry that
/// could be read becomes a record, in the order of the scan; an entry that
/// could not is left out and counted, and never ends the listing.
pub fn collect_path_outputs(opened: Result<Vec<EntryProbe>, IoFailure>) -> (listing: Result<
    Listing,
    CollectError,
>)
    ensures
        match opened {
            Ok(entries) => listing matches Ok(found) && record_views(
                found.records@,
            ) == collected(entries@) && found.skipped == skipped(entries@) && found.records.len()
                + found.skipped == entries.len(),
            Err(failure) => listing == Err::<Listing, CollectError>(error_of(failure)),
        },
{
    match opened {
        Err(failure) => Err(directory_error(failure)),
        Ok(entries) => {
            let mut records: Vec<PathRecord> = Vec::new();
            let mut left_out: usize = 0;
            let mut i: usize = 0;
            assert(entries@.take(0) =~= Seq::<EntryProbe>::empty());
            while i < entries.len()
                invariant
                    i <= entries.len(),
                    record_views(records@) =~= collected(entries@.take(i as int)),
                    left_out == skipped(entries@.take(i as int)),
                decreases entries.len() - i,
            {
                proof {
                    assert(entries@.take(i + 1).drop_last() =~= entries@.take(i as int));
                    lemma_collected_or_skipped(entries@.take(i as int));
                }
                match read_entry(&entries[i]) {
                    Ok(record) => {
                        records.push(record);
                    },
                    Err(_) => {
                        left_out = left_out + 1;
                    },
                }
                i = i + 1;
            }
            proof {
                assert(entries@.take(i as int) =~= entries@);
                lemma_collected_or_skipped(entries@);
                assert(record_views(records@).len() == records.len());
            }
            Ok(Listing { records, skipped: left_out })
        },
    }
}

/// The names of the entries that could be read, in the order of the scan.
pub fn get_paths(entries: &Vec<EntryProbe>) -> (names: Vec<String>)
    ensures
        texts(names@) == names_of(collected(entries@)),
{
    let mut names: Vec<String> = Vec::new();
    let mut i: usize = 0;
    assert(entries@.take(0) =~= Seq::<EntryProbe>::empty());
    while i < entries.len()
        invariant
            i <= entries.len(),
            texts(names@) =~= names_of(collected(entries@.take(i as int))),
        decreases entries.len() - i,
    {
        let ghost before = collected(entries@.take(i as int));
        let ghost names_before = names@;
        proof {
            assert(entries@.take(i + 1).drop_last() =~= entries@.take(i as int));
        }
        match &entries[i] {
            EntryProbe::Read { name, is_dir, len, modified } => {
                if is_valid_name(name.as_str()) {
                    names.push(name.clone());
                    proof {
                        let record = entry_outcome(entries@[i as int])->Ok_0;
                        assert(collected(entries@.take(i + 1)) == before.push(record));
                        assert(names_of(before.push(record)) =~= names_of(before).push(name@));
                        assert(texts(names@) =~= texts(
                            names_before,
                        ).push(name@));
                    }
                }
            },
            EntryProbe::Failed(_) => {},
        }
        i = i + 1;
    }
    assert(entries@.take(i as int) =~= entries@);
    names
}

} // verus!
