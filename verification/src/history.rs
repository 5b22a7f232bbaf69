//! What uploads leave behind: the store keeps one object under one key, the
//! later in place of the earlier, and the manifest follows the store.

use vstd::prelude::*;
use vstd::seq_lib::*;

use crate::hasher::{hex_of, xxh3_64};
use crate::manifest::{lemma_sorted_by_ident, manifest_of, sorted_by_ident};
use crate::naming::{
    archive_suffix, has_archive_suffix, ident_of, key_of, lemma_ident_of_key,
    lemma_key_has_suffix, manifest_key,
};
use crate::reindex::{
    archive_count, entry_of, filled_by_uploads, index_of, lemma_uploads_have_their_own_idents, Held,
};
use crate::store::is_archive;
use crate::types::strictly_ascending;

verus! {

/// Whether `store` holds an object named `name`.
pub open spec fn holds(store: Seq<Held>, name: Seq<char>) -> bool {
    exists|i: int| 0 <= i < store.len() && (#[trigger] store[i]).object.name == Some(name)
}

/// A place at which `store` holds an object named `name`.
pub open spec fn place_of(store: Seq<Held>, name: Seq<char>) -> int {
    choose|i: int| 0 <= i < store.len() && (#[trigger] store[i]).object.name == Some(name)
}

/// The store after `held` was put: in the place of the object of its name
/// where the store holds one, behind all objects where it holds none.
pub open spec fn after_put(store: Seq<Held>, held: Held) -> Seq<Held> {
    if holds(store, held.object.name->0) {
        store.update(place_of(store, held.object.name->0), held)
    } else {
        store.push(held)
    }
}

/// Whether `held` is what a completed upload of `body` under `key` leaves:
/// an object of that name and of the payload's size, whose content is the
/// payload, in whatever pieces the store hands it out.
pub open spec fn is_upload_of(held: Held, key: Seq<char>, body: Seq<u8>) -> bool {
    &&& held.object.name == Some(key)
    &&& held.object.size == body.len()
    &&& held.pieces.flatten() == body
}

/// A key that an upload writes names an archive: it carries the suffix, and
/// it is not the manifest's.
pub proof fn lemma_key_names_an_archive(name: Seq<char>)
    ensures
        has_archive_suffix(key_of(name)),
        key_of(name) != manifest_key(),
{
    lemma_key_has_suffix(name);
    let key = key_of(name);
    if key == manifest_key() {
        assert(key.subrange(key.len() - 4, key.len() as int)[3] == key[key.len() - 1]);
        assert(archive_suffix()[3] == 'p');
        assert(manifest_key()[10] == 'x');
    }
}

/// The index is as long as the store has archives.
proof fn lemma_index_len(store: Seq<Held>)
    ensures
        index_of(store).len() == archive_count(store),
    decreases store.len(),
{
    if store.len() > 0 {
        lemma_index_len(store.drop_last());
    }
}

/// The entry of every archive in the store is in the index.
proof fn lemma_archives_are_indexed(store: Seq<Held>, i: int)
    requires
        0 <= i < store.len(),
        is_archive(store[i].object),
    ensures
        index_of(store).contains(entry_of(store[i].object, xxh3_64(store[i].pieces.flatten()))),
    decreases store.len(),
{
    let front = store.drop_last();
    let entry = entry_of(store[i].object, xxh3_64(store[i].pieces.flatten()));
    if i == store.len() - 1 {
        assert(index_of(store)[index_of(front).len() as int] == entry);
    } else {
        assert(front[i] == store[i]);
        lemma_archives_are_indexed(front, i);
        let k = choose|k: int| 0 <= k < index_of(front).len() && index_of(front)[k] == entry;
        assert(index_of(store)[k] == entry);
    }
}

/// Putting an archive in the place of an archive leaves as many archives as
/// there were.
proof fn lemma_replacing_keeps_count(store: Seq<Held>, p: int, held: Held)
    requires
        0 <= p < store.len(),
        is_archive(store[p].object),
        is_archive(held.object),
    ensures
        archive_count(store.update(p, held)) == archive_count(store),
    decreases store.len(),
{
    let next = store.update(p, held);
    if p == store.len() - 1 {
        assert(next.drop_last() =~= store.drop_last());
    } else {
        assert(next.drop_last() =~= store.drop_last().update(p, held));
        assert(next.last() == store.last());
        lemma_replacing_keeps_count(store.drop_last(), p, held);
    }
}

/// A store that uploads have filled is one after another upload, too.
pub proof fn lemma_put_keeps_store_in_order(store: Seq<Held>, held: Held)
    requires
        filled_by_uploads(store),
        held.object.name is Some,
        has_archive_suffix(held.object.name->0),
        held.object.name->0 != manifest_key(),
    ensures
        filled_by_uploads(after_put(store, held)),
{
    let name = held.object.name->0;
    let next = after_put(store, held);
    if holds(store, name) {
        let p = place_of(store, name);
        assert forall|i: int|
            0 <= i < next.len() && is_archive((#[trigger] next[i]).object) implies has_archive_suffix(
            next[i].object.name->0,
        ) by {
            if i != p {
                assert(next[i] == store[i]);
            }
        }
        assert forall|i: int, j: int|
            0 <= i < j < next.len() && is_archive((#[trigger] next[i]).object) && is_archive(
                (#[trigger] next[j]).object,
            ) implies next[i].object.name != next[j].object.name by {
            assert(next[i].object.name == store[i].object.name);
            assert(next[j].object.name == store[j].object.name);
            assert(is_archive(store[i].object) && is_archive(store[j].object));
        }
    } else {
        assert forall|i: int|
            0 <= i < next.len() && is_archive((#[trigger] next[i]).object) implies has_archive_suffix(
            next[i].object.name->0,
        ) by {
            if i < store.len() {
                assert(next[i] == store[i]);
            }
        }
        assert forall|i: int, j: int|
            0 <= i < j < next.len() && is_archive((#[trigger] next[i]).object) && is_archive(
                (#[trigger] next[j]).object,
            ) implies next[i].object.name != next[j].object.name by {
            assert(next[i] == store[i]);
            if j < store.len() {
                assert(next[j] == store[j]);
            } else {
                assert(store[i].object.name != Some(name));
            }
        }
    }
}

/// Two uploads under names of one key, one after the other with no other
/// writer, leave one archive under that key: the manifest that is built
/// after the second has as many entries as the one built after the first,
/// names every identifier once, and its one entry for the identifier of the
/// key has the size and the digest of the second payload, and nothing of the
/// first.
pub proof fn lemma_second_upload_replaces_first(
    public_url: Seq<char>,
    title: Seq<char>,
    store: Seq<Held>,
    first_name: Seq<char>,
    first_body: Seq<u8>,
    first: Held,
    second_name: Seq<char>,
    second_body: Seq<u8>,
    second: Held,
)
    requires
        filled_by_uploads(store),
        key_of(first_name) == key_of(second_name),
        is_upload_of(first, key_of(first_name), first_body),
        is_upload_of(second, key_of(second_name), second_body),
    ensures
        ({
            let once = after_put(store, first);
            let twice = after_put(once, second);
            let before = manifest_of(public_url, title, index_of(once));
            let after = manifest_of(public_url, title, index_of(twice));
            let entry = entry_of(second.object, xxh3_64(second_body));
            &&& twice.len() == once.len()
            &&& holds(twice, key_of(second_name)) && twice[place_of(once, key_of(second_name))]
                == second
            &&& after.count == before.count
            &&& after.count == after.mods.len()
            &&& strictly_ascending(after.mods)
            &&& after.mods.contains(entry)
            &&& forall|k: int|
                0 <= k < after.mods.len() && (#[trigger] after.mods[k]).ident == ident_of(
                    second_name,
                ) ==> after.mods[k] == entry
            &&& entry.ident == ident_of(second_name)
            &&& entry.ident == ident_of(first_name)
            &&& entry.bytes == second_body.len()
            &&& entry.xxhsum == hex_of(xxh3_64(second_body) as nat)
        }),
{
    broadcast use to_multiset_contains;

    let key = key_of(second_name);
    let once = after_put(store, first);
    let twice = after_put(once, second);
    let entry = entry_of(second.object, xxh3_64(second_body));
    lemma_key_names_an_archive(first_name);
    lemma_key_names_an_archive(second_name);
    lemma_ident_of_key(first_name);
    lemma_ident_of_key(second_name);
    lemma_put_keeps_store_in_order(store, first);
    lemma_put_keeps_store_in_order(once, second);
    if holds(store, key) {
        let q = place_of(store, key);
        assert(once[q] == first);
    } else {
        assert(once[store.len() as int] == first);
    }
    assert(holds(once, key));
    let p = place_of(once, key);
    assert(twice == once.update(p, second));
    assert(twice[p] == second);
    assert(is_archive(once[p].object) && is_archive(second.object));
    lemma_replacing_keeps_count(once, p, second);
    lemma_index_len(once);
    lemma_index_len(twice);
    lemma_uploads_have_their_own_idents(public_url, title, twice);
    lemma_sorted_by_ident(index_of(twice));
    lemma_sorted_by_ident(index_of(once));
    lemma_archives_are_indexed(twice, p);
    let index = index_of(twice);
    let mods = sorted_by_ident(index);
    assert(index.to_multiset().contains(entry));
    assert(mods.contains(entry));
    assert forall|k: int| 0 <= k < mods.len() && (#[trigger] mods[k]).ident == ident_of(
        second_name,
    ) implies mods[k] == entry by {
        assert(mods.contains(mods[k]));
        assert(index.to_multiset().contains(mods[k]));
        assert(index.contains(mods[k]));
        let a = choose|a: int| 0 <= a < index.len() && index[a] == mods[k];
        let b = choose|b: int| 0 <= b < index.len() && index[b] == entry;
        if a != b {
            assert(index[a].ident != index[b].ident);
        }
    }
}

} // verus!
