use modrepo::error::RespError;
use modrepo::reindex::{ReindexAction, ReindexEvent, ReindexFault, ReindexPhase, Reindexer};
use modrepo::store::{StoredObject, Timestamp};
use modrepo::types::{Mod, References, Repository};

const URL: &str = "https://mods.example.org/";

fn object(location: &str, size: usize) -> StoredObject {
    StoredObject {
        location: location.to_string(),
        name: location.rsplit('/').next().filter(|_| !location.is_empty()).map(str::to_string),
        last_modified: Timestamp { secs: 0, nanos: 0 },
        size,
    }
}

fn aborted(message: &str) -> ReindexAction {
    ReindexAction::Abort(RespError { status: 500, message: message.to_string() })
}

fn digest(content: &[u8]) -> String {
    format!("{:x}", twox_hash::XxHash3_64::oneshot(content))
}

#[test]
fn rebuild_of_an_empty_store_publishes_an_empty_manifest() {
    let (state, action) = Reindexer::begin(URL, "Mods");
    assert_eq!((state.phase(), action), (ReindexPhase::Listing, ReindexAction::ListNext));
    let (state, action) = state.step(ReindexEvent::EndOfListing);
    assert_eq!(state.phase(), ReindexPhase::Serializing);
    assert_eq!(
        action,
        ReindexAction::Serialize(Repository {
            uuid: 0x3f96_b30a_7abc_5ada_827f_b2af_3b6a_c849,
            title: "Mods".to_string(),
            downpath: String::new(),
            references: References { count: 0, mods: vec![] },
        })
    );
    let (state, action) = state.step(ReindexEvent::Serialized("<doc/>".to_string()));
    assert_eq!(state.phase(), ReindexPhase::Publishing);
    assert_eq!(
        action,
        ReindexAction::Publish { key: "default.omx".to_string(), document: "<doc/>".to_string() }
    );
    let (state, action) = state.step(ReindexEvent::Published);
    assert_eq!((state.phase(), action), (ReindexPhase::Done, ReindexAction::Finish));
}

#[test]
fn archive_is_fetched_hashed_and_entered() {
    let (state, _) = Reindexer::begin(URL, "Mods");
    let (state, action) = state.step(ReindexEvent::Object(object("demo.ozp", 10)));
    assert_eq!(state.phase(), ReindexPhase::Reading);
    assert_eq!(action, ReindexAction::Fetch { location: "demo.ozp".to_string() });
    let (state, action) = state.step(ReindexEvent::Content(b"01234".to_vec()));
    assert_eq!((state.phase(), action), (ReindexPhase::Reading, ReindexAction::ReadNext));
    let (state, action) = state.step(ReindexEvent::Content(b"56789".to_vec()));
    assert_eq!((state.phase(), action), (ReindexPhase::Reading, ReindexAction::ReadNext));
    let (state, action) = state.step(ReindexEvent::EndOfContent);
    assert_eq!((state.phase(), action), (ReindexPhase::Listing, ReindexAction::ListNext));
    let (_, action) = state.step(ReindexEvent::EndOfListing);
    let ReindexAction::Serialize(repository) = action else { panic!("no manifest") };
    assert_eq!(
        repository.references,
        References {
            count: 1,
            mods: vec![Mod {
                ident: "demo".to_string(),
                file: "demo.ozp".to_string(),
                bytes: 10,
                xxhsum: digest(b"0123456789"),
            }],
        }
    );
}

#[test]
fn manifest_and_nameless_objects_are_passed_over() {
    let (state, _) = Reindexer::begin(URL, "Mods");
    let (state, action) = state.step(ReindexEvent::Object(object("default.omx", 300)));
    assert_eq!((state.phase(), action), (ReindexPhase::Listing, ReindexAction::ListNext));
    let (state, action) = state.step(ReindexEvent::Object(object("", 0)));
    assert_eq!((state.phase(), action), (ReindexPhase::Listing, ReindexAction::ListNext));
    let (state, action) = state.step(ReindexEvent::Object(object("old/default.omx", 1)));
    assert_eq!((state.phase(), action), (ReindexPhase::Listing, ReindexAction::ListNext));
    let (_, action) = state.step(ReindexEvent::EndOfListing);
    let ReindexAction::Serialize(repository) = action else { panic!("no manifest") };
    assert_eq!(repository.references, References { count: 0, mods: vec![] });
}

#[test]
fn entry_takes_ident_from_the_name_and_file_from_the_location() {
    let (state, _) = Reindexer::begin(URL, "Mods");
    let (state, action) = state.step(ReindexEvent::Object(object("packs/Alpha.ozp", 3)));
    assert_eq!(action, ReindexAction::Fetch { location: "packs/Alpha.ozp".to_string() });
    let (state, _) = state.step(ReindexEvent::Content(b"abc".to_vec()));
    let (state, _) = state.step(ReindexEvent::EndOfContent);
    let (state, _) = state.step(ReindexEvent::Object(object("plain", 0)));
    let (state, _) = state.step(ReindexEvent::EndOfContent);
    let (_, action) = state.step(ReindexEvent::EndOfListing);
    let ReindexAction::Serialize(repository) = action else { panic!("no manifest") };
    assert_eq!(
        repository.references.mods,
        vec![
            Mod {
                ident: "Alpha".to_string(),
                file: "packs/Alpha.ozp".to_string(),
                bytes: 3,
                xxhsum: digest(b"abc"),
            },
            Mod {
                ident: "plain".to_string(),
                file: "plain".to_string(),
                bytes: 0,
                xxhsum: "2d06800538d394c2".to_string(),
            },
        ]
    );
}

#[test]
fn entries_are_sorted_whatever_the_order_of_the_listing() {
    let (mut state, _) = Reindexer::begin(URL, "Mods");
    for name in ["zeta.ozp", "default.omx", "alpha.ozp", "mid.ozp", "Beta.ozp"] {
        let (next, action) = state.step(ReindexEvent::Object(object(name, 1)));
        state = next;
        if action != ReindexAction::ListNext {
            state = state.step(ReindexEvent::Content(name.as_bytes().to_vec())).0;
            state = state.step(ReindexEvent::EndOfContent).0;
        }
    }
    let (_, action) = state.step(ReindexEvent::EndOfListing);
    let ReindexAction::Serialize(repository) = action else { panic!("no manifest") };
    let idents: Vec<&str> = repository.references.mods.iter().map(|m| m.ident.as_str()).collect();
    assert_eq!(idents, ["Beta", "alpha", "mid", "zeta"]);
    assert_eq!(repository.references.count, 4);
    assert_eq!(repository.references.mods[3].xxhsum, digest(b"zeta.ozp"));
}

#[test]
fn each_failure_gives_up_with_its_message() {
    let cases = [
        (ReindexFault::List, "failed to read object store"),
        (ReindexFault::Get, "failed to get object from object store"),
        (ReindexFault::ReadFile, "failed to read file"),
        (ReindexFault::ReadStream, "failed to read stream from object store"),
        (ReindexFault::Serialize, "failed to serialize repository index"),
        (ReindexFault::Put, "failed to put index to object store"),
    ];
    for (fault, message) in cases {
        let (state, _) = Reindexer::begin(URL, "Mods");
        let (state, action) = state.step(ReindexEvent::Failed(fault));
        assert_eq!((state.phase(), action), (ReindexPhase::Failed, aborted(message)));
    }
}

#[test]
fn failure_while_reading_publishes_nothing() {
    let (state, _) = Reindexer::begin(URL, "Mods");
    let (state, _) = state.step(ReindexEvent::Object(object("a.ozp", 1)));
    let (state, _) = state.step(ReindexEvent::Content(vec![1]));
    let (state, action) = state.step(ReindexEvent::Failed(ReindexFault::ReadStream));
    assert_eq!(
        (state.phase(), action),
        (ReindexPhase::Failed, aborted("failed to read stream from object store"))
    );
    for event in [
        ReindexEvent::EndOfListing,
        ReindexEvent::Serialized("<doc/>".to_string()),
        ReindexEvent::Published,
    ] {
        let (state, _) = Reindexer::begin(URL, "Mods");
        let (state, _) = state.step(ReindexEvent::Failed(ReindexFault::List));
        let (state, action) = state.step(event);
        assert_eq!(
            (state.phase(), action),
            (ReindexPhase::Failed, aborted("reply does not answer the pending request"))
        );
    }
}

#[test]
fn event_out_of_turn_gives_up() {
    let out_of_turn = || aborted("reply does not answer the pending request");
    let (state, _) = Reindexer::begin(URL, "Mods");
    assert_eq!(state.step(ReindexEvent::Content(vec![1])).1, out_of_turn());
    let (state, _) = Reindexer::begin(URL, "Mods");
    assert_eq!(state.step(ReindexEvent::EndOfContent).1, out_of_turn());
    let (state, _) = Reindexer::begin(URL, "Mods");
    assert_eq!(state.step(ReindexEvent::Serialized(String::new())).1, out_of_turn());
    let (state, _) = Reindexer::begin(URL, "Mods");
    assert_eq!(state.step(ReindexEvent::Published).1, out_of_turn());
    let (state, _) = Reindexer::begin(URL, "Mods");
    let (state, _) = state.step(ReindexEvent::Object(object("a.ozp", 1)));
    assert_eq!(state.step(ReindexEvent::Object(object("b.ozp", 1))).1, out_of_turn());
    let (state, _) = Reindexer::begin(URL, "Mods");
    let (state, _) = state.step(ReindexEvent::Object(object("a.ozp", 1)));
    assert_eq!(state.step(ReindexEvent::EndOfListing).1, out_of_turn());
    let (state, _) = Reindexer::begin(URL, "Mods");
    let (state, _) = state.step(ReindexEvent::EndOfListing);
    let (state, _) = state.step(ReindexEvent::Serialized(String::new()));
    let (state, _) = state.step(ReindexEvent::Published);
    let (state, action) = state.step(ReindexEvent::Failed(ReindexFault::Put));
    assert_eq!((state.phase(), action), (ReindexPhase::Failed, out_of_turn()));
}
