//! What the object store tells about an object, as plain values.

use vstd::prelude::*;
use vstd::string::*;

use crate::naming::{manifest_key, manifest_key_str};
use crate::text::text_eq;

verus! {

/// A point in time: whole seconds since the Unix epoch, and the nanoseconds
/// into that second.
#[derive(Debug, Clone, Copy, PartialEq, Eq, Structural)]
pub struct Timestamp {
    pub secs: i64,
    pub nanos: u32,
}

impl Timestamp {
    /// Whether `self` is not later than `other`.
    pub open spec fn at_or_before(self, other: Timestamp) -> bool {
        self.secs < other.secs || (self.secs == other.secs && self.nanos <= other.nanos)
    }

    /// Whether `self` is earlier than `other`.
    pub open spec fn before(self, other: Timestamp) -> bool {
        self.at_or_before(other) && self != other
    }

    /// Whether `self` is not later than `other`.
    pub fn is_at_or_before(&self, other: &Timestamp) -> (r: bool)
        ensures
            r == self.at_or_before(*other),
    {
        self.secs < other.secs || (self.secs == other.secs && self.nanos <= other.nanos)
    }
}

/// One object of the store.
#[derive(Debug, PartialEq, Eq)]
pub struct StoredObject {
    /// Where the store holds the object.
    pub location: String,
    /// The key by which uploads, the listing and the manifest know the
    /// object; none where the location names no object.
    pub name: Option<String>,
    pub last_modified: Timestamp,
    /// The object's size in bytes.
    pub size: usize,
}

/// What a [`StoredObject`] holds, as mathematical values.
pub ghost struct StoredObjectView {
    pub location: Seq<char>,
    pub name: Option<Seq<char>>,
    pub last_modified: Timestamp,
    pub size: nat,
}

impl View for StoredObject {
    type V = StoredObjectView;

    open spec fn view(&self) -> StoredObjectView {
        StoredObjectView {
            location: self.location@,
            name: match self.name {
                Some(name) => Some(name@),
                None => None,
            },
            last_modified: self.last_modified,
            size: self.size as nat,
        }
    }
}

impl DeepView for StoredObject {
    type V = StoredObjectView;

    open spec fn deep_view(&self) -> StoredObjectView {
        self@
    }
}

/// Whether `object` is an archive: it has a name, and the name is not that of
/// the manifest. The listing and the manifest hold the archives and nothing
/// else.
pub open spec fn is_archive(object: StoredObjectView) -> bool {
    object.name matches Some(name) && name != manifest_key()
}

impl StoredObject {
    /// The object's name where it is an archive, none where it is not.
    pub fn archive_name(&self) -> (name: Option<&str>)
        ensures
            match name {
                Some(n) => is_archive(self@) && Some(n@) == self@.name,
                None => !is_archive(self@),
            },
    {
        match &self.name {
            Some(name) => if text_eq(name.as_str(), manifest_key_str()) {
                None
            } else {
                Some(name.as_str())
            },
            None => None,
        }
    }
}

} // verus!
