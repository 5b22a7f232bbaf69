//! Names of stored objects: the archive suffix, the key of the manifest
//! itself, and how an identifier and a storage key derive from a name.

use vstd::prelude::*;
use vstd::string::*;

verus! {

/// The extension that every archive key carries, as characters.
pub open spec fn archive_suffix() -> Seq<char> {
    seq!['.', 'o', 'z', 'p']
}

/// The key under which the manifest itself is stored, as characters.
pub open spec fn manifest_key() -> Seq<char> {
    seq!['d', 'e', 'f', 'a', 'u', 'l', 't', '.', 'o', 'm', 'x']
}

/// Whether `name` ends with the archive suffix.
pub open spec fn has_archive_suffix(name: Seq<char>) -> bool {
    name.len() >= 4 && name.subrange(name.len() - 4, name.len() as int) == archive_suffix()
}

/// The identifier that belongs to `name`: the name without one trailing
/// archive suffix, or the name itself where it carries none.
pub open spec fn ident_of(name: Seq<char>) -> Seq<char> {
    if has_archive_suffix(name) {
        name.subrange(0, name.len() - 4)
    } else {
        name
    }
}

/// The storage key that belongs to `name`: its identifier followed by the
/// archive suffix.
pub open spec fn key_of(name: Seq<char>) -> Seq<char> {
    ident_of(name) + archive_suffix()
}

/// The archive suffix as a string slice.
pub fn archive_suffix_str() -> (s: &'static str)
    ensures
        s@ == archive_suffix(),
{
    proof {
        reveal_strlit(".ozp");
    }
    let s = ".ozp";
    assert(s@ =~= archive_suffix());
    s
}

/// The manifest's own key as a string slice.
pub fn manifest_key_str() -> (s: &'static str)
    ensures
        s@ == manifest_key(),
{
    proof {
        reveal_strlit("default.omx");
    }
    let s = "default.omx";
    assert(s@ =~= manifest_key());
    s
}

/// Strips one trailing archive suffix from `name`, if there is one.
pub fn strip_archive_suffix(name: &str) -> (stem: &str)
    ensures
        stem@ == ident_of(name@),
{
    let n = name.unicode_len();
    if n >= 4 && name.get_char(n - 4) == '.' && name.get_char(n - 3) == 'o' && name.get_char(
        n - 2,
    ) == 'z' && name.get_char(n - 1) == 'p' {
        assert(name@.subrange(n - 4, n as int) =~= archive_suffix());
        name.substring_char(0, n - 4)
    } else {
        assert(!has_archive_suffix(name@)) by {
            if name@.len() >= 4 {
                let tail = name@.subrange(name@.len() - 4, name@.len() as int);
                assert(tail[0] == name@[n - 4]);
                assert(tail[1] == name@[n - 3]);
                assert(tail[2] == name@[n - 2]);
                assert(tail[3] == name@[n - 1]);
            }
        }
        let whole = name.substring_char(0, n);
        assert(whole@ =~= name@);
        whole
    }
}

/// The identifier under which an object named `name` is indexed.
pub fn ident_for(name: &str) -> (ident: String)
    ensures
        ident@ == ident_of(name@),
{
    String::from_str(strip_archive_suffix(name))
}

/// The key under which an upload named `name` is stored: the name with
/// exactly the one archive suffix that the identifier lacks.
pub fn archive_key(name: &str) -> (key: String)
    ensures
        key@ == key_of(name@),
{
    String::from_str(strip_archive_suffix(name)).concat(archive_suffix_str())
}

/// A storage key always ends with the archive suffix.
pub proof fn lemma_key_has_suffix(name: Seq<char>)
    ensures
        has_archive_suffix(key_of(name)),
{
    let k = key_of(name);
    assert(k.subrange(k.len() - 4, k.len() as int) =~= archive_suffix());
}

/// A name and the key derived from it are indexed under one identifier.
pub proof fn lemma_ident_of_key(name: Seq<char>)
    ensures
        ident_of(key_of(name)) == ident_of(name),
{
    lemma_key_has_suffix(name);
    let k = key_of(name);
    assert(k.subrange(0, k.len() - 4) =~= ident_of(name));
}

/// Deriving the key of a key changes nothing.
pub proof fn lemma_key_idempotent(name: Seq<char>)
    ensures
        key_of(key_of(name)) == key_of(name),
{
    lemma_ident_of_key(name);
}

/// A name with the suffix and the same name without it are stored under one
/// key and indexed under one identifier.
pub proof fn lemma_suffix_is_optional(stem: Seq<char>)
    requires
        !has_archive_suffix(stem),
    ensures
        key_of(stem + archive_suffix()) == key_of(stem),
        ident_of(stem + archive_suffix()) == stem,
        ident_of(stem) == stem,
        key_of(stem) == stem + archive_suffix(),
{
    let full = stem + archive_suffix();
    assert(full.subrange(full.len() - 4, full.len() as int) =~= archive_suffix());
    assert(full.subrange(0, full.len() - 4) =~= stem);
}

/// Two names are stored under one key exactly when they are indexed under
/// one identifier: an upload replaces the archive of its identifier, and no
/// other.
pub proof fn lemma_one_key_per_ident(a: Seq<char>, b: Seq<char>)
    ensures
        key_of(a) == key_of(b) <==> ident_of(a) == ident_of(b),
{
    if key_of(a) == key_of(b) {
        let k = key_of(a);
        assert(k.subrange(0, k.len() - 4) =~= ident_of(a));
        assert(k.subrange(0, k.len() - 4) =~= ident_of(b));
    }
}

/// Two names that both carry the archive suffix and differ are indexed under
/// different identifiers.
pub proof fn lemma_suffixed_names_have_their_own_ident(a: Seq<char>, b: Seq<char>)
    requires
        has_archive_suffix(a),
        has_archive_suffix(b),
        a != b,
    ensures
        ident_of(a) != ident_of(b),
{
    if ident_of(a) == ident_of(b) {
        assert(a =~= ident_of(a) + a.subrange(a.len() - 4, a.len() as int));
        assert(b =~= ident_of(b) + b.subrange(b.len() - 4, b.len() as int));
    }
}

} // verus!
