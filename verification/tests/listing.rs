use modrepo::error::RespError;
use modrepo::listing::{list_mods, listing_failed, ModResp};
use modrepo::store::{StoredObject, Timestamp};

fn object(location: &str, secs: i64, nanos: u32, size: usize) -> StoredObject {
    StoredObject {
        location: location.to_string(),
        name: location.rsplit('/').next().filter(|_| !location.is_empty()).map(str::to_string),
        last_modified: Timestamp { secs, nanos },
        size,
    }
}

fn names(listing: &[ModResp]) -> Vec<&str> {
    listing.iter().map(|line| line.name.as_str()).collect()
}

#[test]
fn empty_store_lists_nothing() {
    assert_eq!(list_mods(&vec![]), vec![]);
}

#[test]
fn manifest_is_left_out() {
    let listing = list_mods(&vec![
        object("default.omx", 500, 0, 99),
        object("a.ozp", 100, 0, 1),
        object("nested/default.omx", 600, 0, 98),
    ]);
    assert_eq!(
        listing,
        vec![ModResp {
            name: "a.ozp".to_string(),
            last_modified: Timestamp { secs: 100, nanos: 0 },
            size: 1
        }]
    );
}

#[test]
fn object_without_a_name_is_left_out() {
    let listing = list_mods(&vec![object("", 1, 0, 0), object("b.ozp", 2, 0, 5)]);
    assert_eq!(names(&listing), ["b.ozp"]);
}

#[test]
fn latest_comes_first() {
    let listing = list_mods(&vec![
        object("old.ozp", 100, 0, 1),
        object("new.ozp", 300, 0, 2),
        object("mid.ozp", 200, 0, 3),
        object("ancient.ozp", -5, 0, 4),
    ]);
    assert_eq!(names(&listing), ["new.ozp", "mid.ozp", "old.ozp", "ancient.ozp"]);
    assert_eq!(listing[0].size, 2);
    assert_eq!(listing[3].last_modified, Timestamp { secs: -5, nanos: 0 });
}

#[test]
fn nanoseconds_break_ties_of_seconds() {
    let listing = list_mods(&vec![
        object("a.ozp", 100, 5, 1),
        object("b.ozp", 100, 7, 1),
        object("c.ozp", 100, 6, 1),
        object("d.ozp", 99, 999_999_999, 1),
    ]);
    assert_eq!(names(&listing), ["b.ozp", "c.ozp", "a.ozp", "d.ozp"]);
}

#[test]
fn of_one_time_the_later_named_comes_first() {
    let listing = list_mods(&vec![
        object("first.ozp", 100, 0, 1),
        object("second.ozp", 100, 0, 1),
        object("third.ozp", 100, 0, 1),
        object("late.ozp", 200, 0, 1),
    ]);
    assert_eq!(names(&listing), ["late.ozp", "third.ozp", "second.ozp", "first.ozp"]);
}

#[test]
fn order_is_a_stable_sort_reversed() {
    let times = [5i64, 3, 5, 1, 3, 9, 5, 0, 9];
    let objects: Vec<StoredObject> =
        times.iter().enumerate().map(|(i, t)| object(&format!("m{i}.ozp"), *t, 0, i)).collect();
    let mut expected: Vec<(i64, String)> =
        times.iter().enumerate().map(|(i, t)| (*t, format!("m{i}.ozp"))).collect();
    expected.sort_by_key(|line| line.0);
    expected.reverse();
    let listing = list_mods(&objects);
    let got: Vec<(i64, String)> =
        listing.iter().map(|line| (line.last_modified.secs, line.name.clone())).collect();
    assert_eq!(got, expected);
}

#[test]
fn fresh_upload_heads_the_next_listing() {
    let mut objects = vec![
        object("a.ozp", 100, 0, 1),
        object("default.omx", 150, 0, 10),
        object("b.ozp", 120, 0, 2),
    ];
    assert_eq!(names(&list_mods(&objects)), ["b.ozp", "a.ozp"]);
    objects.insert(0, object("c.ozp", 130, 0, 3));
    assert_eq!(names(&list_mods(&objects)), ["c.ozp", "b.ozp", "a.ozp"]);
}

#[test]
fn nested_objects_are_listed_by_their_last_segment() {
    let listing = list_mods(&vec![object("dir/sub/x.ozp", 1, 0, 7)]);
    assert_eq!(names(&listing), ["x.ozp"]);
}

#[test]
fn failed_listing_is_a_server_error() {
    assert_eq!(
        listing_failed(),
        RespError { status: 500, message: "failed to read object store".to_string() }
    );
}
