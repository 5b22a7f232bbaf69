//! The published manifest and its entries.

use vstd::prelude::*;
use vstd::string::*;

use crate::text::lex_le;

verus! {

/// One archived package.
#[derive(Debug, PartialEq, Eq)]
pub struct Mod {
    /// The name of the stored object without the archive suffix.
    pub ident: String,
    /// Where the object is stored.
    pub file: String,
    /// The object's size in bytes.
    pub bytes: usize,
    /// The content digest in lower-case hexadecimal.
    pub xxhsum: String,
}

/// The entries of a manifest, with their number.
#[derive(Debug, PartialEq, Eq)]
pub struct References {
    pub count: usize,
    pub mods: Vec<Mod>,
}

/// The published index document.
#[derive(Debug, PartialEq, Eq)]
pub struct Repository {
    /// The repository's stable id, as the 128-bit number of the UUID.
    pub uuid: u128,
    pub title: String,
    /// Reserved; always empty.
    pub downpath: String,
    pub references: References,
}

/// What a [`Mod`] holds, as mathematical values.
pub ghost struct ModView {
    pub ident: Seq<char>,
    pub file: Seq<char>,
    pub bytes: nat,
    pub xxhsum: Seq<char>,
}

/// What a [`Repository`] holds, as mathematical values.
pub ghost struct RepositoryView {
    pub uuid: u128,
    pub title: Seq<char>,
    pub downpath: Seq<char>,
    pub count: nat,
    pub mods: Seq<ModView>,
}

impl View for Mod {
    type V = ModView;

    open spec fn view(&self) -> ModView {
        ModView {
            ident: self.ident@,
            file: self.file@,
            bytes: self.bytes as nat,
            xxhsum: self.xxhsum@,
        }
    }
}

impl DeepView for Mod {
    type V = ModView;

    open spec fn deep_view(&self) -> ModView {
        self@
    }
}

impl Clone for Mod {
    fn clone(&self) -> (copy: Self)
        ensures
            copy@ == self@,
    {
        Mod {
            ident: self.ident.clone(),
            file: self.file.clone(),
            bytes: self.bytes,
            xxhsum: self.xxhsum.clone(),
        }
    }
}

impl View for Repository {
    type V = RepositoryView;

    open spec fn view(&self) -> RepositoryView {
        RepositoryView {
            uuid: self.uuid,
            title: self.title@,
            downpath: self.downpath@,
            count: self.references.count as nat,
            mods: self.references.mods.deep_view(),
        }
    }
}

/// Whether `mods` ascends by identifier; equal identifiers may follow each
/// other.
pub open spec fn ascending(mods: Seq<ModView>) -> bool {
    forall|i: int, j: int| 0 <= i < j < mods.len() ==> lex_le(mods[i].ident, mods[j].ident)
}

/// Whether `mods` ascends strictly by identifier, so that none occurs twice.
pub open spec fn strictly_ascending(mods: Seq<ModView>) -> bool {
    forall|i: int, j: int|
        0 <= i < j < mods.len() ==> lex_le(mods[i].ident, mods[j].ident) && mods[i].ident
            != mods[j].ident
}

/// Whether no two entries of `mods` share an identifier.
pub open spec fn distinct_idents(mods: Seq<ModView>) -> bool {
    forall|i: int, j: int| 0 <= i < j < mods.len() ==> mods[i].ident != mods[j].ident
}

impl RepositoryView {
    /// What holds of every manifest that is published: the count is the
    /// number of entries, the entries ascend by identifier, and the reserved
    /// path is empty.
    pub open spec fn well_formed(self) -> bool {
        &&& self.count == self.mods.len()
        &&& ascending(self.mods)
        &&& self.downpath == Seq::<char>::empty()
    }
}

} // verus!
