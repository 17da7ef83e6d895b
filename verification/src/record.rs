//! Path records: one entry of a directory listing.

use vstd::prelude::*;

verus! {

/// What an entry is.
#[derive(Clone, Copy, Debug, PartialEq, Eq, Structural)]
pub enum PathKind {
    File,
    Folder,
}

/// A name that an entry can have: not empty, and free of the separator
/// that joins the steps of a path.
pub open spec fn valid_name(name: Seq<char>) -> bool {
    name.len() > 0 && !name.contains('/')
}

/// What a path record holds.
pub ghost struct PathRecordView {
    pub name: Seq<char>,
    pub kind: PathKind,
    pub size_bytes: nat,
    pub modified: nat,
}

/// One entry of a directory listing: its name, what it is, its size in
/// bytes and when it was last modified, in seconds since the start of 1970.
/// A record cannot be changed once it is made, and its name is always a
/// valid one.
#[derive(Debug, PartialEq, Eq)]
pub struct PathRecord {
    name: String,
    kind: PathKind,
    size_bytes: u64,
    modified: u64,
}

impl View for PathRecord {
    type V = PathRecordView;

    closed spec fn view(&self) -> PathRecordView {
        PathRecordView {
            name: self.name@,
            kind: self.kind,
            size_bytes: self.size_bytes as nat,
            modified: self.modified as nat,
        }
    }
}

impl Clone for PathRecord {
    /// A record that holds the same.
    fn clone(&self) -> (copy: PathRecord)
        ensures
            copy@ == self@,
    {
        proof {
            use_type_invariant(self);
        }
        PathRecord {
            name: self.name.clone(),
            kind: self.kind,
            size_bytes: self.size_bytes,
            modified: self.modified,
        }
    }
}

/// Whether a name is one that an entry can have.
pub fn is_valid_name(name: &str) -> (ok: bool)
    ensures
        ok == valid_name(name@),
{
    if name.is_empty() {
        return false;
    }
    for c in it: name.chars()
        invariant
            it.seq() == name@,
            forall|k: int| 0 <= k < it.index() ==> name@[k] != '/',
    {
        if c == '/' {
            return false;
        }
    }
    true
}

impl PathRecord {
    #[verifier::type_invariant]
    spec fn named(self) -> bool {
        valid_name(self.name@)
    }

    /// Makes a record, unless the name is not a valid one.
    pub fn new(name: String, kind: PathKind, size_bytes: u64, modified: u64) -> (made: Option<
        PathRecord,
    >)
        ensures
            made is Some == valid_name(name@),
            made matches Some(rec) ==> rec@ == (PathRecordView {
                name: name@,
                kind: kind,
                size_bytes: size_bytes as nat,
                modified: modified as nat,
            }),
    {
        if is_valid_name(name.as_str()) {
            Some(PathRecord { name, kind, size_bytes, modified })
        } else {
            None
        }
    }

    /// The name, which is a valid one.
    pub fn name(&self) -> (name: &str)
        ensures
            name@ == self@.name,
            valid_name(name@),
    {
        proof {
            use_type_invariant(self);
        }
        self.name.as_str()
    }

    /// What the entry is.
    pub fn kind(&self) -> (kind: PathKind)
        ensures
            kind == self@.kind,
    {
        self.kind
    }

    /// The size in bytes.
    pub fn size_bytes(&self) -> (size: u64)
        ensures
            size == self@.size_bytes,
    {
        self.size_bytes
    }

    /// When the entry was last modified, in seconds since the start of
    /// 1970.
    pub fn modified(&self) -> (secs: u64)
        ensures
            secs == self@.modified,
    {
        self.modified
    }
}

/// What a sequence of records holds.
pub open spec fn record_views(records: Seq<PathRecord>) -> Seq<PathRecordView> {
    Seq::new(records.len(), |i: int| records[i]@)
}

} // verus!
