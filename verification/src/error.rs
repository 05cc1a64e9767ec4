//! The failures that catalog operations report.

use vstd::prelude::*;

verus! {

/// Why the tables refused an operation.
#[derive(Clone, Copy, Debug, PartialEq, Eq, Structural)]
pub enum StorageFault {
    /// An item with the same part number and version is already stored.
    DuplicateItem,
    /// A link names an item that is not stored.
    UnknownItem,
    /// The ordered pair of parent and child is already linked.
    DuplicateLink,
    /// No link joins the given parent and child.
    MissingLink,
    /// No further identifier can be assigned.
    Full,
    /// Rows handed over to be stored break a schema constraint.
    Inconsistent,
}

/// The failures that catalog operations report.
#[derive(Clone, Copy, Debug, PartialEq, Eq, Structural)]
pub enum Error {
    /// The tables refused the operation.
    StorageError(StorageFault),
    /// The guard that callers share the store behind could not be taken.
    LockUnavailable,
    /// The item is not a `Make` item in progress, or a descendant is not released.
    CantReleaseItem,
    /// The parent is not a `Make` item in progress.
    CantAddChild,
    /// The parent is not a `Make` item in progress.
    CantRemoveChild,
    /// The item is not a `Buy` item.
    CantMakeObsolete,
    /// A `Buy` item already carries the part number.
    DuplicatePartNumber,
    /// No item has the given identifier or part number.
    NotFound,
}

impl StorageFault {
    /// The name of the fault.
    pub open spec fn spec_name(self) -> Seq<char> {
        match self {
            StorageFault::DuplicateItem => "DuplicateItem"@,
            StorageFault::UnknownItem => "UnknownItem"@,
            StorageFault::DuplicateLink => "DuplicateLink"@,
            StorageFault::MissingLink => "MissingLink"@,
            StorageFault::Full => "Full"@,
            StorageFault::Inconsistent => "Inconsistent"@,
        }
    }

    /// The name of the fault.
    pub fn name(&self) -> (name: &'static str)
        ensures
            name@ == self.spec_name(),
    {
        match self {
            StorageFault::DuplicateItem => "DuplicateItem",
            StorageFault::UnknownItem => "UnknownItem",
            StorageFault::DuplicateLink => "DuplicateLink",
            StorageFault::MissingLink => "MissingLink",
            StorageFault::Full => "Full",
            StorageFault::Inconsistent => "Inconsistent",
        }
    }
}

impl Error {
    /// The words that show the failure to a user: its name, and for a
    /// refusal of the tables the name of the fault between brackets.
    pub open spec fn spec_describe(self) -> Seq<char> {
        match self {
            Error::StorageError(fault) => "StorageError("@ + fault.spec_name() + ")"@,
            Error::LockUnavailable => "LockUnavailable"@,
            Error::CantReleaseItem => "CantReleaseItem"@,
            Error::CantAddChild => "CantAddChild"@,
            Error::CantRemoveChild => "CantRemoveChild"@,
            Error::CantMakeObsolete => "CantMakeObsolete"@,
            Error::DuplicatePartNumber => "DuplicatePartNumber"@,
            Error::NotFound => "NotFound"@,
        }
    }

    /// The words that show the failure to a user.
    pub fn describe(&self) -> (words: String)
        ensures
            words@ == self.spec_describe(),
    {
        match self {
            Error::StorageError(fault) => {
                let mut words = String::new();
                words.append("StorageError(");
                words.append(fault.name());
                words.append(")");
                assert(words@ =~= self.spec_describe());
                words
            },
            Error::LockUnavailable => "LockUnavailable".to_owned(),
            Error::CantReleaseItem => "CantReleaseItem".to_owned(),
            Error::CantAddChild => "CantAddChild".to_owned(),
            Error::CantRemoveChild => "CantRemoveChild".to_owned(),
            Error::CantMakeObsolete => "CantMakeObsolete".to_owned(),
            Error::DuplicatePartNumber => "DuplicatePartNumber".to_owned(),
            Error::NotFound => "NotFound".to_owned(),
        }
    }
}

} // verus!
