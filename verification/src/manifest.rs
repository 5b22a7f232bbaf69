//! Building the manifest: the order of its entries, its stable id, and the
//! document as a whole.

use vstd::prelude::*;
use vstd::seq_lib::*;
use vstd::string::*;

use crate::text::{
    lemma_lex_total, lemma_lex_transitive, lex_le, text_le,
};
use crate::types::{
    ascending, distinct_idents, strictly_ascending, Mod, ModView, References, Repository,
    RepositoryView,
};

verus! {

/// The version-5 UUID of `name` in the DNS namespace, as a 128-bit number.
pub uninterp spec fn uuid_v5_dns(name: Seq<u8>) -> u128;

/// Calls `uuid::Uuid::new_v5` with `uuid::Uuid::NAMESPACE_DNS` and `name`, and
/// reads the result with `as_u128`.
#[verifier::external_body]
fn new_v5_dns(name: &[u8]) -> (id: u128)
    ensures
        id == uuid_v5_dns(name@),
{
    uuid::Uuid::new_v5(&uuid::Uuid::NAMESPACE_DNS, name).as_u128()
}

/// The id of the repository that is served under `public_url`.
pub open spec fn repository_id(public_url: Seq<char>) -> u128 {
    uuid_v5_dns(vstd::utf8::encode_utf8(public_url))
}

/// The id of the repository that is served under `public_url`: it depends on
/// the URL's text and on nothing else.
pub fn repository_id_for(public_url: &str) -> (id: u128)
    ensures
        id == repository_id(public_url@),
{
    new_v5_dns(public_url.as_bytes())
}

/// The place of an entry with identifier `ident` among `sorted`: before the
/// first entry that is not below it, and so behind every entry that is.
pub open spec fn slot(ident: Seq<char>, sorted: Seq<ModView>) -> int
    decreases sorted.len(),
{
    if sorted.len() == 0 || lex_le(ident, sorted[0].ident) {
        0
    } else {
        1 + slot(ident, sorted.drop_first())
    }
}

/// `sorted` with `entry` put in its place.
pub open spec fn placed(entry: ModView, sorted: Seq<ModView>) -> Seq<ModView> {
    sorted.insert(slot(entry.ident, sorted), entry)
}

/// `entries` in ascending order of their identifiers; entries with one
/// identifier keep the order in which they came.
pub open spec fn sorted_by_ident(entries: Seq<ModView>) -> Seq<ModView>
    decreases entries.len(),
{
    if entries.len() == 0 {
        Seq::empty()
    } else {
        placed(entries[0], sorted_by_ident(entries.drop_first()))
    }
}

/// The manifest of the repository `public_url` with the title `title` and
/// the entries `entries`, in whatever order these were collected.
pub open spec fn manifest_of(public_url: Seq<char>, title: Seq<char>, entries: Seq<ModView>)
    -> RepositoryView {
    RepositoryView {
        uuid: repository_id(public_url),
        title,
        downpath: Seq::empty(),
        count: entries.len(),
        mods: sorted_by_ident(entries),
    }
}

/// The slot lies within the sequence, every entry before it is strictly
/// below the identifier, and the entry at it, if any, is not.
proof fn lemma_slot(ident: Seq<char>, sorted: Seq<ModView>)
    ensures
        0 <= slot(ident, sorted) <= sorted.len(),
        forall|k: int| 0 <= k < slot(ident, sorted) ==> !lex_le(ident, #[trigger] sorted[k].ident),
        slot(ident, sorted) < sorted.len() ==> lex_le(ident, sorted[slot(ident, sorted)].ident),
    decreases sorted.len(),
{
    if sorted.len() == 0 || lex_le(ident, sorted[0].ident) {
    } else {
        let rest = sorted.drop_first();
        lemma_slot(ident, rest);
        assert forall|k: int| 0 <= k < slot(ident, sorted) implies !lex_le(
            ident,
            #[trigger] sorted[k].ident,
        ) by {
            if k > 0 {
                assert(sorted[k] == rest[k - 1]);
            }
        }
        if slot(ident, sorted) < sorted.len() {
            assert(sorted[slot(ident, sorted)] == rest[slot(ident, rest)]);
        }
    }
}

/// The slot is the only position before which every entry is below the
/// identifier and at which none is.
proof fn lemma_slot_is(ident: Seq<char>, sorted: Seq<ModView>, j: int)
    requires
        0 <= j <= sorted.len(),
        forall|k: int| 0 <= k < j ==> !lex_le(ident, #[trigger] sorted[k].ident),
        j < sorted.len() ==> lex_le(ident, sorted[j].ident),
    ensures
        slot(ident, sorted) == j,
{
    lemma_slot(ident, sorted);
    let s = slot(ident, sorted);
    if s < j {
        assert(!lex_le(ident, sorted[s].ident));
    } else if j < s {
        assert(!lex_le(ident, sorted[j].ident));
    }
}

/// Putting an entry in its place keeps an ascending sequence ascending.
proof fn lemma_placed_ascending(entry: ModView, sorted: Seq<ModView>)
    requires
        ascending(sorted),
    ensures
        ascending(placed(entry, sorted)),
{
    lemma_slot(entry.ident, sorted);
    let p = slot(entry.ident, sorted);
    let t = placed(entry, sorted);
    assert forall|i: int, j: int| 0 <= i < j < t.len() implies lex_le(t[i].ident, t[j].ident) by {
        if i == p {
            assert(t[j] == sorted[j - 1]);
            if j - 1 > p {
                lemma_lex_transitive(entry.ident, sorted[p].ident, sorted[j - 1].ident);
            }
        } else if j == p {
            assert(t[i] == sorted[i]);
            lemma_lex_total(entry.ident, sorted[i].ident);
        } else {
            let a = if i < p { i } else { i - 1 };
            let b = if j < p { j } else { j - 1 };
            assert(t[i] == sorted[a] && t[j] == sorted[b]);
        }
    }
}

/// The sorted entries are the given entries, each as often as it was given,
/// and they ascend by identifier.
pub proof fn lemma_sorted_by_ident(entries: Seq<ModView>)
    ensures
        sorted_by_ident(entries).len() == entries.len(),
        sorted_by_ident(entries).to_multiset() == entries.to_multiset(),
        ascending(sorted_by_ident(entries)),
    decreases entries.len(),
{
    broadcast use {to_multiset_insert, to_multiset_len};

    if entries.len() == 0 {
        assert(entries =~= Seq::<ModView>::empty());
    } else {
        let rest = entries.drop_first();
        let sorted_rest = sorted_by_ident(rest);
        lemma_sorted_by_ident(rest);
        lemma_slot(entries[0].ident, sorted_rest);
        lemma_placed_ascending(entries[0], sorted_rest);
        assert(entries =~= rest.insert(0, entries[0]));
        assert(entries.to_multiset() == rest.to_multiset().insert(entries[0]));
    }
}

/// Every sorted entry is one of the given entries.
proof fn lemma_sorted_entries_are_given(entries: Seq<ModView>, k: int)
    requires
        0 <= k < entries.len(),
    ensures
        entries.contains(sorted_by_ident(entries)[k]),
{
    broadcast use to_multiset_contains;

    lemma_sorted_by_ident(entries);
    let sorted = sorted_by_ident(entries);
    assert(sorted.contains(sorted[k]));
    assert(sorted.to_multiset().contains(sorted[k]));
}

/// Where no two entries share an identifier, the sorted entries ascend
/// strictly: no identifier occurs twice in a manifest.
pub proof fn lemma_sorted_strictly(entries: Seq<ModView>)
    requires
        distinct_idents(entries),
    ensures
        strictly_ascending(sorted_by_ident(entries)),
    decreases entries.len(),
{
    if entries.len() > 0 {
        let rest = entries.drop_first();
        let sorted_rest = sorted_by_ident(rest);
        let first = entries[0];
        assert(distinct_idents(rest)) by {
            assert forall|i: int, j: int| 0 <= i < j < rest.len() implies rest[i].ident
                != rest[j].ident by {
                assert(rest[i] == entries[i + 1] && rest[j] == entries[j + 1]);
            }
        }
        lemma_sorted_strictly(rest);
        lemma_sorted_by_ident(rest);
        lemma_sorted_by_ident(entries);
        lemma_slot(first.ident, sorted_rest);
        let p = slot(first.ident, sorted_rest);
        let t = sorted_by_ident(entries);
        assert forall|k: int| 0 <= k < sorted_rest.len() implies sorted_rest[k].ident
            != first.ident by {
            lemma_sorted_entries_are_given(rest, k);
            let m = choose|m: int| 0 <= m < rest.len() && rest[m] == sorted_rest[k];
            assert(rest[m] == entries[m + 1]);
        }
        assert forall|i: int, j: int| 0 <= i < j < t.len() implies lex_le(t[i].ident, t[j].ident)
            && t[i].ident != t[j].ident by {
            assert(t == sorted_rest.insert(p, first));
            assert(ascending(t));
            if i == p {
                assert(t[i] == first);
                assert(t[j] == sorted_rest[j - 1]);
                assert(sorted_rest[j - 1].ident != first.ident);
            } else if j == p {
                assert(t[j] == first);
                assert(t[i] == sorted_rest[i]);
                assert(sorted_rest[i].ident != first.ident);
            } else {
                let a = if i < p { i } else { i - 1 };
                let b = if j < p { j } else { j - 1 };
                assert(t[i] == sorted_rest[a] && t[j] == sorted_rest[b]);
                assert(a < b);
                assert(lex_le(sorted_rest[a].ident, sorted_rest[b].ident) && sorted_rest[a].ident
                    != sorted_rest[b].ident);
            }
        }
    }
}

/// The id of a manifest depends on the public URL alone: whatever the title
/// and the archives, one URL gives one id over all rebuilds.
pub proof fn lemma_id_is_stable(
    public_url: Seq<char>,
    title_a: Seq<char>,
    entries_a: Seq<ModView>,
    title_b: Seq<char>,
    entries_b: Seq<ModView>,
)
    ensures
        manifest_of(public_url, title_a, entries_a).uuid == manifest_of(
            public_url,
            title_b,
            entries_b,
        ).uuid,
{
}

/// Sorts `mods` in ascending order of their identifiers; entries with one
/// identifier keep their order.
pub fn sort_by_ident(mods: Vec<Mod>) -> (sorted: Vec<Mod>)
    ensures
        sorted.deep_view() == sorted_by_ident(mods.deep_view()),
        sorted.len() == mods.len(),
        ascending(sorted.deep_view()),
        sorted.deep_view().to_multiset() == mods.deep_view().to_multiset(),
{
    let ghost all = mods.deep_view();
    let mut rest = mods;
    let mut sorted: Vec<Mod> = Vec::new();
    assert(all.skip(all.len() as int) =~= Seq::<ModView>::empty());
    loop
        invariant
            rest.len() <= all.len(),
            rest.deep_view() == all.take(rest.len() as int),
            sorted.deep_view() == sorted_by_ident(all.skip(rest.len() as int)),
        ensures
            rest.len() == 0,
            sorted.deep_view() == sorted_by_ident(all),
        decreases rest.len(),
    {
        let ghost before = rest.deep_view();
        let ghost done = sorted.deep_view();
        match rest.pop() {
            None => {
                assert(all.skip(0) =~= all);
                break;
            },
            Some(entry) => {
                let ghost n = rest.len() as int;
                assert(entry@ == all[n]) by {
                    assert(before[n] == entry@);
                }
                assert(rest.deep_view() =~= all.take(n));
                let mut j: usize = 0;
                while j < sorted.len() && !text_le(entry.ident.as_str(), sorted[j].ident.as_str())
                    invariant
                        j <= sorted.len(),
                        sorted.deep_view() == done,
                        forall|k: int| 0 <= k < j ==> !lex_le(entry@.ident, #[trigger] done[k].ident),
                    decreases sorted.len() - j,
                {
                    assert(done[j as int] == sorted[j as int]@);
                    j += 1;
                }
                proof {
                    if j < sorted.len() {
                        assert(done[j as int] == sorted[j as int]@);
                    }
                    lemma_slot_is(entry@.ident, done, j as int);
                    let tail = all.skip(n);
                    assert(tail[0] == all[n]);
                    assert(tail.drop_first() =~= all.skip(n + 1));
                }
                sorted.insert(j, entry);
                assert(sorted.deep_view() =~= done.insert(j as int, entry@));
            },
        }
    }
    proof {
        lemma_sorted_by_ident(all);
    }
    sorted
}

impl Repository {
    /// The manifest of the repository `public_url` with the title `title`
    /// and the entries `mods`, which may come in any order.
    pub fn build(public_url: &str, title: &str, mods: Vec<Mod>) -> (repository: Repository)
        ensures
            repository@ == manifest_of(public_url@, title@, mods.deep_view()),
            repository@.well_formed(),
            repository@.mods.to_multiset() == mods.deep_view().to_multiset(),
            distinct_idents(mods.deep_view()) ==> strictly_ascending(repository@.mods),
    {
        proof {
            lemma_sorted_by_ident(mods.deep_view());
            if distinct_idents(mods.deep_view()) {
                lemma_sorted_strictly(mods.deep_view());
            }
        }
        let sorted = sort_by_ident(mods);
        Repository {
            uuid: repository_id_for(public_url),
            title: String::from_str(title),
            downpath: String::new(),
            references: References { count: sorted.len(), mods: sorted },
        }
    }
}

} // verus!
