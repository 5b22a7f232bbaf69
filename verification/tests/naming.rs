use modrepo::naming::{
    archive_key, archive_suffix_str, ident_for, manifest_key_str, strip_archive_suffix,
};

#[test]
fn suffix_and_manifest_key_are_the_fixed_names() {
    assert_eq!(archive_suffix_str(), ".ozp");
    assert_eq!(manifest_key_str(), "default.omx");
}

#[test]
fn name_with_and_without_suffix_share_key_and_ident() {
    assert_eq!(archive_key("foo.ozp"), "foo.ozp");
    assert_eq!(archive_key("foo"), "foo.ozp");
    assert_eq!(ident_for("foo.ozp"), "foo");
    assert_eq!(ident_for("foo"), "foo");
}

#[test]
fn only_one_suffix_is_stripped() {
    assert_eq!(strip_archive_suffix("a.ozp.ozp"), "a.ozp");
    assert_eq!(archive_key("a.ozp.ozp"), "a.ozp.ozp");
    assert_eq!(ident_for("a.ozp.ozp"), "a.ozp");
}

#[test]
fn suffix_is_case_sensitive_and_must_be_at_the_end() {
    assert_eq!(strip_archive_suffix("foo.OZP"), "foo.OZP");
    assert_eq!(archive_key("foo.OZP"), "foo.OZP.ozp");
    assert_eq!(strip_archive_suffix("foo.ozp.bak"), "foo.ozp.bak");
    assert_eq!(strip_archive_suffix("ozp"), "ozp");
}

#[test]
fn short_and_empty_names() {
    assert_eq!(strip_archive_suffix(""), "");
    assert_eq!(archive_key(""), ".ozp");
    assert_eq!(strip_archive_suffix(".ozp"), "");
    assert_eq!(archive_key(".ozp"), ".ozp");
    assert_eq!(strip_archive_suffix("zp"), "zp");
}

#[test]
fn names_beyond_ascii_are_cut_at_characters() {
    assert_eq!(strip_archive_suffix("модуль.ozp"), "модуль");
    assert_eq!(archive_key("模组"), "模组.ozp");
    assert_eq!(ident_for("é.ozp"), "é");
}

#[test]
fn key_of_a_key_is_the_key() {
    for name in ["foo", "foo.ozp", "a.ozp.ozp", "", "x.y"] {
        let key = archive_key(name);
        assert_eq!(archive_key(&key), key);
        assert_eq!(ident_for(&key), ident_for(name));
        assert!(key.ends_with(".ozp"));
    }
}

#[test]
fn stripping_agrees_with_the_standard_library() {
    for name in ["foo", "foo.ozp", "a.ozp.ozp", "", ".ozp", "ozp", "b.ozpx", "ü.ozp"] {
        assert_eq!(strip_archive_suffix(name), name.strip_suffix(".ozp").unwrap_or(name));
    }
}
