use modrepo::manifest::{repository_id_for, sort_by_ident};
use modrepo::types::{Mod, References, Repository};

fn entry(ident: &str, file: &str, bytes: usize, xxhsum: &str) -> Mod {
    Mod {
        ident: ident.to_string(),
        file: file.to_string(),
        bytes,
        xxhsum: xxhsum.to_string(),
    }
}

#[test]
fn id_is_the_version_5_uuid_in_the_dns_namespace() {
    assert_eq!(repository_id_for("example.org"), 0xaad0_3681_8b63_5304_89e0_8ca8_f494_61b5);
    assert_eq!(
        repository_id_for("https://mods.example.org/"),
        uuid::Uuid::parse_str("3f96b30a-7abc-5ada-827f-b2af3b6ac849").unwrap().as_u128()
    );
    assert_eq!(
        repository_id_for("rust-lang.org"),
        uuid::Uuid::new_v5(&uuid::Uuid::NAMESPACE_DNS, b"rust-lang.org").as_u128()
    );
}

#[test]
fn id_is_stable_for_one_url_and_differs_between_urls() {
    let a = Repository::build("https://mods.example.org/", "One", vec![]);
    let b = Repository::build(
        "https://mods.example.org/",
        "Other",
        vec![entry("x", "x.ozp", 1, "1")],
    );
    let c = Repository::build("https://other.example.org/", "One", vec![]);
    assert_eq!(a.uuid, b.uuid);
    assert_ne!(a.uuid, c.uuid);
    assert_eq!(uuid::Uuid::from_u128(a.uuid).get_version_num(), 5);
}

#[test]
fn empty_manifest() {
    let repository = Repository::build("https://mods.example.org/", "Mods", vec![]);
    assert_eq!(
        repository,
        Repository {
            uuid: 0x3f96_b30a_7abc_5ada_827f_b2af_3b6a_c849,
            title: "Mods".to_string(),
            downpath: String::new(),
            references: References { count: 0, mods: vec![] },
        }
    );
}

#[test]
fn entries_are_sorted_by_ident_and_counted() {
    let repository = Repository::build(
        "https://mods.example.org/",
        "Mods",
        vec![
            entry("zeta", "zeta.ozp", 3, "c"),
            entry("alpha", "alpha.ozp", 1, "a"),
            entry("Beta", "Beta.ozp", 2, "b"),
            entry("alpha2", "alpha2.ozp", 4, "d"),
        ],
    );
    let idents: Vec<&str> = repository.references.mods.iter().map(|m| m.ident.as_str()).collect();
    assert_eq!(idents, ["Beta", "alpha", "alpha2", "zeta"]);
    assert_eq!(repository.references.count, 4);
    assert_eq!(repository.references.mods[1], entry("alpha", "alpha.ozp", 1, "a"));
    assert_eq!(repository.downpath, "");
    assert_eq!(repository.title, "Mods");
}

#[test]
fn entries_of_one_ident_keep_their_order() {
    let sorted = sort_by_ident(vec![
        entry("b", "dir/b.ozp", 1, "1"),
        entry("a", "x/a.ozp", 2, "2"),
        entry("b", "b", 3, "3"),
        entry("a", "y/a.ozp", 4, "4"),
    ]);
    let files: Vec<&str> = sorted.iter().map(|m| m.file.as_str()).collect();
    assert_eq!(files, ["x/a.ozp", "y/a.ozp", "dir/b.ozp", "b"]);
}

#[test]
fn order_is_that_of_the_standard_library() {
    let idents = ["b", "", "a", "ab", "B", "é", "z", "a.b", "a b", "日本", "aa", "~", "b"];
    let mods: Vec<Mod> = idents.iter().map(|i| entry(i, "f", 0, "0")).collect();
    let sorted: Vec<String> = sort_by_ident(mods).into_iter().map(|m| m.ident).collect();
    let mut expected: Vec<String> = idents.iter().map(|i| i.to_string()).collect();
    expected.sort();
    assert_eq!(sorted, expected);
}
