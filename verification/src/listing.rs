//! The listing of the archives: newest first.

use vstd::prelude::*;
use vstd::seq_lib::*;
use vstd::string::*;

use crate::error::{RespError, RespErrorView, INTERNAL_SERVER_ERROR};
use crate::naming::manifest_key;
use crate::store::{is_archive, StoredObject, StoredObjectView, Timestamp};

verus! {

/// One line of the listing.
#[derive(Debug, PartialEq, Eq)]
pub struct ModResp {
    /// The object's name, archive suffix included.
    pub name: String,
    pub last_modified: Timestamp,
    /// The object's size in bytes.
    pub size: usize,
}

/// What a [`ModResp`] holds, as mathematical values.
pub ghost struct ModRespView {
    pub name: Seq<char>,
    pub last_modified: Timestamp,
    pub size: nat,
}

impl View for ModResp {
    type V = ModRespView;

    open spec fn view(&self) -> ModRespView {
        ModRespView { name: self.name@, last_modified: self.last_modified, size: self.size as nat }
    }
}

impl DeepView for ModResp {
    type V = ModRespView;

    open spec fn deep_view(&self) -> ModRespView {
        self@
    }
}

/// The line that lists the archive `object`.
pub open spec fn listed(object: StoredObjectView) -> ModRespView {
    ModRespView {
        name: object.name->0,
        last_modified: object.last_modified,
        size: object.size,
    }
}

/// The place of a line of time `at` in `listing`: before the first line that
/// is not later, and so behind every line that is.
pub open spec fn rank(at: Timestamp, listing: Seq<ModRespView>) -> int
    decreases listing.len(),
{
    if listing.len() == 0 || listing[0].last_modified.at_or_before(at) {
        0
    } else {
        1 + rank(at, listing.drop_first())
    }
}

/// The listing of `objects`, which come in the order in which the store
/// names them: the archives among them, the latest first; of two archives
/// of one time, the one that the store named later comes first.
pub open spec fn listing_of(objects: Seq<StoredObjectView>) -> Seq<ModRespView>
    decreases objects.len(),
{
    if objects.len() == 0 {
        Seq::empty()
    } else {
        let earlier = listing_of(objects.drop_last());
        let object = objects.last();
        if is_archive(object) {
            earlier.insert(rank(object.last_modified, earlier), listed(object))
        } else {
            earlier
        }
    }
}

/// Whether no line of `listing` is later than a line before it.
pub open spec fn newest_first(listing: Seq<ModRespView>) -> bool {
    forall|i: int, j: int|
        0 <= i < j < listing.len() ==> listing[j].last_modified.at_or_before(
            listing[i].last_modified,
        )
}

/// The lines of the archives among `objects`, in the store's order.
pub open spec fn archive_lines(objects: Seq<StoredObjectView>) -> Seq<ModRespView> {
    objects.filter(|o: StoredObjectView| is_archive(o)).map_values(|o: StoredObjectView| listed(o))
}

/// The rank lies within the listing, every line before it is later than
/// `at`, and the line at it, if any, is not.
proof fn lemma_rank(at: Timestamp, listing: Seq<ModRespView>)
    ensures
        0 <= rank(at, listing) <= listing.len(),
        forall|k: int|
            0 <= k < rank(at, listing) ==> !(#[trigger] listing[k]).last_modified.at_or_before(at),
        rank(at, listing) < listing.len() ==> listing[rank(at, listing)].last_modified.at_or_before(
            at,
        ),
    decreases listing.len(),
{
    if listing.len() == 0 || listing[0].last_modified.at_or_before(at) {
    } else {
        let rest = listing.drop_first();
        lemma_rank(at, rest);
        assert forall|k: int| 0 <= k < rank(at, listing) implies !(
        #[trigger] listing[k]).last_modified.at_or_before(at) by {
            if k > 0 {
                assert(listing[k] == rest[k - 1]);
            }
        }
        if rank(at, listing) < listing.len() {
            assert(listing[rank(at, listing)] == rest[rank(at, rest)]);
        }
    }
}

/// The rank is the only position before which every line is later than `at`
/// and at which none is.
proof fn lemma_rank_is(at: Timestamp, listing: Seq<ModRespView>, j: int)
    requires
        0 <= j <= listing.len(),
        forall|k: int| 0 <= k < j ==> !(#[trigger] listing[k]).last_modified.at_or_before(at),
        j < listing.len() ==> listing[j].last_modified.at_or_before(at),
    ensures
        rank(at, listing) == j,
{
    lemma_rank(at, listing);
    let r = rank(at, listing);
    if r < j {
        assert(!listing[r].last_modified.at_or_before(at));
    } else if j < r {
        assert(!listing[j].last_modified.at_or_before(at));
    }
}

/// The listing holds the lines of the archives, each as often as the store
/// named it, and no other line; it never holds the manifest; and it runs
/// from the latest line to the earliest.
pub proof fn lemma_listing(objects: Seq<StoredObjectView>)
    ensures
        listing_of(objects).to_multiset() == archive_lines(objects).to_multiset(),
        listing_of(objects).len() == archive_lines(objects).len(),
        forall|k: int|
            0 <= k < listing_of(objects).len() ==> (#[trigger] listing_of(objects)[k]).name
                != manifest_key(),
        newest_first(listing_of(objects)),
    decreases objects.len(),
{
    broadcast use {to_multiset_insert, to_multiset_len, to_multiset_build};

    let is_arch = |o: StoredObjectView| is_archive(o);
    let line = |o: StoredObjectView| listed(o);
    if objects.len() == 0 {
        assert(objects.filter(is_arch) =~= Seq::<StoredObjectView>::empty()) by {
            reveal(Seq::filter);
        }
        assert(archive_lines(objects) =~= Seq::<ModRespView>::empty());
    } else {
        let front = objects.drop_last();
        let object = objects.last();
        let earlier = listing_of(front);
        lemma_listing(front);
        assert(objects.filter(is_arch) == if is_arch(object) {
            front.filter(is_arch).push(object)
        } else {
            front.filter(is_arch)
        }) by {
            reveal(Seq::filter);
        }
        if is_archive(object) {
            let at = object.last_modified;
            let r = rank(at, earlier);
            lemma_rank(at, earlier);
            let now = listing_of(objects);
            assert(now == earlier.insert(r, listed(object)));
            assert(archive_lines(objects) =~= archive_lines(front).push(listed(object)));
            assert(now.to_multiset() == archive_lines(objects).to_multiset());
            assert forall|k: int| 0 <= k < now.len() implies (#[trigger] now[k]).name
                != manifest_key() by {
                if k < r {
                    assert(now[k] == earlier[k]);
                } else if k > r {
                    assert(now[k] == earlier[k - 1]);
                }
            }
            assert forall|i: int, j: int| 0 <= i < j < now.len() implies now[j]
                .last_modified.at_or_before(now[i].last_modified) by {
                if i == r {
                    assert(now[j] == earlier[j - 1]);
                    if j - 1 > r {
                        assert(earlier[j - 1].last_modified.at_or_before(earlier[r].last_modified));
                    }
                } else if j == r {
                    assert(now[i] == earlier[i]);
                } else {
                    let a = if i < r { i } else { i - 1 };
                    let b = if j < r { j } else { j - 1 };
                    assert(now[i] == earlier[a] && now[j] == earlier[b]);
                }
            }
        }
    }
}

/// An archive that is later than every other archive heads the listing: a
/// fresh upload is the first line of the next listing.
pub proof fn lemma_latest_is_first(objects: Seq<StoredObjectView>, i: int)
    requires
        0 <= i < objects.len(),
        is_archive(objects[i]),
        forall|j: int|
            0 <= j < objects.len() && j != i && is_archive(#[trigger] objects[j]) ==> objects[j]
                .last_modified.before(objects[i].last_modified),
    ensures
        listing_of(objects).len() > 0,
        listing_of(objects)[0] == listed(objects[i]),
{
    broadcast use to_multiset_contains;

    lemma_listing(objects);
    let listing = listing_of(objects);
    let lines = archive_lines(objects);
    let is_arch = |o: StoredObjectView| is_archive(o);
    let archives = objects.filter(is_arch);
    objects.lemma_filter_contains(is_arch, i);
    let a = choose|a: int| 0 <= a < archives.len() && archives[a] == objects[i];
    assert(lines[a] == listed(objects[i]));
    assert(lines.contains(listed(objects[i])));
    assert(lines.to_multiset().contains(listed(objects[i])));
    assert(listing.contains(listed(objects[i])));
    let k = choose|k: int| 0 <= k < listing.len() && listing[k] == listed(objects[i]);
    if k > 0 {
        assert(listing.contains(listing[0]));
        assert(lines.to_multiset().contains(listing[0]));
        assert(lines.contains(listing[0]));
        let b = choose|b: int| 0 <= b < lines.len() && lines[b] == listing[0];
        assert(lines[b] == listed(archives[b]));
        assert(archives.contains(archives[b]));
        objects.lemma_filter_contains_rev(is_arch, archives[b]);
        let j = choose|j: int| 0 <= j < objects.len() && objects[j] == archives[b];
        assert(listing[k].last_modified.at_or_before(listing[0].last_modified));
        assert(j == i);
    }
}

impl ModResp {
    /// The line that lists `object` under `name`.
    fn of(object: &StoredObject, name: &str) -> (line: ModResp)
        requires
            is_archive(object@),
            object@.name == Some(name@),
        ensures
            line@ == listed(object@),
    {
        ModResp {
            name: String::from_str(name),
            last_modified: object.last_modified,
            size: object.size,
        }
    }
}

/// What the client is told when the store could not name its objects.
pub fn listing_failed() -> (e: RespError)
    ensures
        e@ == (RespErrorView {
            status: INTERNAL_SERVER_ERROR as int,
            message: "failed to read object store"@,
        }),
{
    RespError::new(INTERNAL_SERVER_ERROR, "failed to read object store")
}

/// Lists the archives among `objects`, which come in the store's order: the
/// manifest is left out, and the latest archive comes first.
pub fn list_mods(objects: &Vec<StoredObject>) -> (listing: Vec<ModResp>)
    ensures
        listing.deep_view() == listing_of(objects.deep_view()),
        newest_first(listing.deep_view()),
        listing.deep_view().to_multiset() == archive_lines(objects.deep_view()).to_multiset(),
        forall|k: int| 0 <= k < listing.len() ==> (#[trigger] listing.deep_view()[k]).name
            != manifest_key(),
{
    let ghost all = objects.deep_view();
    let mut listing: Vec<ModResp> = Vec::new();
    let mut i: usize = 0;
    assert(all.take(0) =~= Seq::<StoredObjectView>::empty());
    while i < objects.len()
        invariant
            i <= objects.len(),
            all == objects.deep_view(),
            listing.deep_view() == listing_of(all.take(i as int)),
        decreases objects.len() - i,
    {
        let ghost earlier = listing.deep_view();
        proof {
            let upto = all.take(i + 1);
            assert(upto.drop_last() =~= all.take(i as int));
            assert(upto.last() == objects[i as int]@);
        }
        if let Some(name) = objects[i].archive_name() {
            let line = ModResp::of(&objects[i], name);
            let mut j: usize = 0;
            while j < listing.len() && !listing[j].last_modified.is_at_or_before(
                &line.last_modified,
            )
                invariant
                    j <= listing.len(),
                    listing.deep_view() == earlier,
                    forall|k: int|
                        0 <= k < j ==> !(#[trigger] earlier[k]).last_modified.at_or_before(
                            line.last_modified,
                        ),
                decreases listing.len() - j,
            {
                assert(earlier[j as int] == listing[j as int]@);
                j += 1;
            }
            proof {
                if j < listing.len() {
                    assert(earlier[j as int] == listing[j as int]@);
                }
                lemma_rank_is(line.last_modified, earlier, j as int);
            }
            let ghost placed = line@;
            listing.insert(j, line);
            assert(listing.deep_view() =~= earlier.insert(j as int, placed));
        }
        i += 1;
    }
    proof {
        assert(all.take(objects.len() as int) =~= all);
        lemma_listing(all);
    }
    listing
}

} // verus!
