use std::collections::BTreeMap;

use modrepo::hasher::{to_hex, Hasher};
use modrepo::listing::{list_mods, ModResp};
use modrepo::reindex::{ReindexAction, ReindexEvent, Reindexer};
use modrepo::session::{guard, Admission, RouteClass, User};
use modrepo::store::{StoredObject, Timestamp};
use modrepo::types::{Mod, Repository};
use modrepo::upload::{UploadAction, UploadEvent, UploadFlow};
use serde::ser::{Serialize, SerializeStruct, Serializer};

const URL: &str = "https://mods.example.org/";
const SECRET: &[u8] = b"secret";

/// A store in memory: one object per key, a clock that ticks on every write.
struct Store {
    objects: BTreeMap<String, (Vec<u8>, i64)>,
    clock: i64,
}

impl Store {
    fn new() -> Store {
        Store { objects: BTreeMap::new(), clock: 0 }
    }

    fn put(&mut self, key: &str, content: Vec<u8>) {
        self.clock += 1;
        self.objects.insert(key.to_string(), (content, self.clock));
    }

    fn list(&self) -> Vec<StoredObject> {
        self.objects
            .iter()
            .map(|(key, (content, at))| StoredObject {
                location: key.clone(),
                name: key.rsplit('/').next().map(str::to_string),
                last_modified: Timestamp { secs: *at, nanos: 0 },
                size: content.len(),
            })
            .collect()
    }
}

struct ModDoc<'a>(&'a Mod);

impl Serialize for ModDoc<'_> {
    fn serialize<S: Serializer>(&self, serializer: S) -> Result<S::Ok, S::Error> {
        let mut entry = serializer.serialize_struct("Mod", 4)?;
        entry.serialize_field("@ident", &self.0.ident)?;
        entry.serialize_field("@file", &self.0.file)?;
        entry.serialize_field("@bytes", &self.0.bytes)?;
        entry.serialize_field("@xxhsum", &self.0.xxhsum)?;
        entry.end()
    }
}

struct ReferencesDoc<'a>(&'a Repository);

impl Serialize for ReferencesDoc<'_> {
    fn serialize<S: Serializer>(&self, serializer: S) -> Result<S::Ok, S::Error> {
        let mods: Vec<ModDoc> = self.0.references.mods.iter().map(ModDoc).collect();
        let mut references = serializer.serialize_struct("References", 2)?;
        references.serialize_field("@count", &self.0.references.count)?;
        references.serialize_field("mods", &mods)?;
        references.end()
    }
}

struct RepositoryDoc<'a>(&'a Repository);

impl Serialize for RepositoryDoc<'_> {
    fn serialize<S: Serializer>(&self, serializer: S) -> Result<S::Ok, S::Error> {
        let mut repository = serializer.serialize_struct("Open_Mod_Manager_Repository", 4)?;
        repository.serialize_field("uuid", &uuid::Uuid::from_u128(self.0.uuid))?;
        repository.serialize_field("title", &self.0.title)?;
        repository.serialize_field("downpath", &self.0.downpath)?;
        repository.serialize_field("references", &ReferencesDoc(self.0))?;
        repository.end()
    }
}

fn upload(store: &mut Store, token: &str, now: i64, name: &str, payload: &[u8]) -> Repository {
    let session = User::from_request(Some(token), SECRET, now);
    assert!(matches!(guard(RouteClass::Api, session), Admission::Proceed(_)));
    let (mut flow, mut action) = UploadFlow::begin(name);
    let mut key = String::new();
    let mut parts: Vec<u8> = Vec::new();
    let mut rest = payload;
    let mut published = None;
    loop {
        let event = match action {
            UploadAction::Open { key: k } => {
                key = k;
                UploadEvent::Opened
            }
            UploadAction::Read { at_most } => {
                let n = at_most.min(3).min(rest.len());
                let (data, tail) = rest.split_at(n);
                rest = tail;
                UploadEvent::Data(data.to_vec())
            }
            UploadAction::Put(part) => {
                parts.extend(part);
                UploadEvent::PartStored
            }
            UploadAction::Complete => {
                store.put(&key, parts.clone());
                UploadEvent::Completed
            }
            UploadAction::Reindex => {
                published = Some(reindex(store));
                UploadEvent::Reindexed(Ok(()))
            }
            UploadAction::Succeed => return published.unwrap(),
            UploadAction::Fail(e) => panic!("upload failed: {}", e.message),
        };
        (flow, action) = flow.step(event);
    }
}

fn reindex(store: &mut Store) -> Repository {
    let listing = store.list();
    let mut listing = listing.into_iter();
    let mut content: Vec<Vec<u8>> = Vec::new();
    let mut manifest = None;
    let (mut state, mut action) = Reindexer::begin(URL, "Mods");
    loop {
        let event = match action {
            ReindexAction::ListNext => match listing.next() {
                Some(object) => ReindexEvent::Object(object),
                None => ReindexEvent::EndOfListing,
            },
            ReindexAction::Fetch { location } => {
                content = store.objects[&location].0.chunks(4).rev().map(<[u8]>::to_vec).collect();
                match content.pop() {
                    Some(piece) => ReindexEvent::Content(piece),
                    None => ReindexEvent::EndOfContent,
                }
            }
            ReindexAction::ReadNext => match content.pop() {
                Some(piece) => ReindexEvent::Content(piece),
                None => ReindexEvent::EndOfContent,
            },
            ReindexAction::Serialize(repository) => {
                let document = quick_xml::se::to_string(&RepositoryDoc(&repository)).unwrap();
                manifest = Some(repository);
                ReindexEvent::Serialized(document)
            }
            ReindexAction::Publish { key, document } => {
                store.put(&key, document.into_bytes());
                ReindexEvent::Published
            }
            ReindexAction::Finish => return manifest.unwrap(),
            ReindexAction::Abort(e) => panic!("rebuild failed: {}", e.message),
        };
        (state, action) = state.step(event);
    }
}

fn direct_digest(content: &[u8]) -> String {
    let mut hasher = Hasher::new();
    hasher.update(content);
    to_hex(hasher.finalize())
}

fn token() -> String {
    User::starting_at("alice", 1_000).unwrap().sign(SECRET).unwrap()
}

#[test]
fn upload_is_listed_and_indexed() {
    let mut store = Store::new();
    let manifest = upload(&mut store, &token(), 2_000, "demo.ozp", b"0123456789");

    assert_eq!(
        list_mods(&store.list()),
        vec![ModResp {
            name: "demo.ozp".to_string(),
            last_modified: Timestamp { secs: 1, nanos: 0 },
            size: 10,
        }]
    );
    assert_eq!(manifest.references.count, 1);
    assert_eq!(
        manifest.references.mods,
        vec![Mod {
            ident: "demo".to_string(),
            file: "demo.ozp".to_string(),
            bytes: 10,
            xxhsum: direct_digest(b"0123456789"),
        }]
    );
    let document = String::from_utf8(store.objects["default.omx"].0.clone()).unwrap();
    assert_eq!(
        document,
        format!(
            "<Open_Mod_Manager_Repository><uuid>3f96b30a-7abc-5ada-827f-b2af3b6ac849</uuid>\
             <title>Mods</title><downpath/><references count=\"1\">\
             <mods ident=\"demo\" file=\"demo.ozp\" bytes=\"10\" xxhsum=\"{}\"/>\
             </references></Open_Mod_Manager_Repository>",
            direct_digest(b"0123456789")
        )
    );
}

#[test]
fn second_upload_of_one_ident_replaces_the_first() {
    let mut store = Store::new();
    upload(&mut store, &token(), 2_000, "demo", b"first content");
    let manifest = upload(&mut store, &token(), 2_001, "demo.ozp", b"second");

    assert_eq!(
        manifest.references.mods,
        vec![Mod {
            ident: "demo".to_string(),
            file: "demo.ozp".to_string(),
            bytes: 6,
            xxhsum: direct_digest(b"second"),
        }]
    );
    assert_eq!(manifest.references.count, 1);
    let listing = list_mods(&store.list());
    assert_eq!(listing.len(), 1);
    assert_eq!(listing[0].size, 6);
}

#[test]
fn manifest_never_lists_itself_and_new_uploads_head_the_listing() {
    let mut store = Store::new();
    upload(&mut store, &token(), 2_000, "b", b"bb");
    upload(&mut store, &token(), 2_000, "a", b"a");
    let manifest = upload(&mut store, &token(), 2_000, "c", b"ccc");

    let idents: Vec<&str> = manifest.references.mods.iter().map(|m| m.ident.as_str()).collect();
    assert_eq!(idents, ["a", "b", "c"]);
    assert_eq!(manifest.references.count, 3);
    let listing = list_mods(&store.list());
    let names: Vec<&str> = listing.iter().map(|line| line.name.as_str()).collect();
    assert_eq!(names, ["c.ozp", "a.ozp", "b.ozp"]);
    assert!(store.objects.contains_key("default.omx"));

    let again = reindex(&mut store);
    assert_eq!(again, manifest);
}
