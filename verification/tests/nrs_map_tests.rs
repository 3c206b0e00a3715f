use nrs_map::errors::Error;
use nrs_map::link::{validate_nrs_link, ContentLocator, ContentType, DataType};
use nrs_map::name::{parse_out_subnames, str_eq, sub_names_vec_to_str};
use nrs_map::nrs_map::NrsMap;

fn locator(url: &str, content_type: ContentType, data_type: DataType, anchored: bool) -> ContentLocator {
    ContentLocator {
        url: String::from(url),
        content_type,
        data_type,
        has_version_anchor: anchored,
    }
}

fn raw_locator(url: &str) -> ContentLocator {
    locator(url, ContentType::Raw, DataType::File, false)
}

#[test]
fn parse_out_subnames_drops_top_name() {
    assert_eq!(parse_out_subnames("sub.sub.topname"), "sub.sub");
    assert_eq!(parse_out_subnames("sub.cooltopname"), "sub");
    assert_eq!(parse_out_subnames("lonetopname"), "");
}

#[test]
fn parse_out_subnames_strips_scheme() {
    assert_eq!(parse_out_subnames("safe://sub.example"), "sub");
    assert_eq!(parse_out_subnames("safe://example"), "");
    assert_eq!(parse_out_subnames("safe://a.b.c"), "a.b");
}

#[test]
fn parse_out_subnames_keeps_empty_labels() {
    assert_eq!(parse_out_subnames("a..b"), "a.");
    assert_eq!(parse_out_subnames("a.b."), "a.b");
    assert_eq!(parse_out_subnames(".example"), "");
    assert_eq!(parse_out_subnames(""), "");
}

#[test]
fn sub_names_vec_to_str_joins_with_dots() {
    assert_eq!(sub_names_vec_to_str(&[]), "");
    assert_eq!(sub_names_vec_to_str(&[String::from("sub")]), "sub");
    assert_eq!(
        sub_names_vec_to_str(&[String::from("sub"), String::from("sub")]),
        "sub.sub"
    );
    assert_eq!(
        sub_names_vec_to_str(&[String::from("a"), String::from(""), String::from("b")]),
        "a..b"
    );
}

#[test]
fn str_eq_compares_contents() {
    assert!(str_eq("", ""));
    assert!(str_eq("sub.example", "sub.example"));
    assert!(!str_eq("sub", "sub."));
    assert!(!str_eq("sub", "bus"));
}

#[test]
fn validate_rejects_unanchored_versionable_content() {
    let files = locator("safe://files", ContentType::FilesContainer, DataType::File, false);
    let nrs = locator("safe://nrs", ContentType::NrsMapContainer, DataType::File, false);
    let register = locator("safe://reg", ContentType::Raw, DataType::Register, false);
    for bad in [files, nrs, register] {
        match validate_nrs_link(&bad) {
            Err(Error::ValidationError(_)) => {}
            other => panic!("expected a validation error, got {:?}", other),
        }
    }
}

#[test]
fn validate_accepts_anchored_or_immutable_content() {
    let anchored_files =
        locator("safe://files", ContentType::FilesContainer, DataType::File, true);
    let anchored_register = locator("safe://reg", ContentType::Raw, DataType::Register, true);
    let plain = locator("safe://blob", ContentType::Raw, DataType::File, false);
    let key = locator("safe://key", ContentType::Wallet, DataType::SafeKey, false);
    assert_eq!(validate_nrs_link(&anchored_files), Ok(()));
    assert_eq!(validate_nrs_link(&anchored_register), Ok(()));
    assert_eq!(validate_nrs_link(&plain), Ok(()));
    assert_eq!(validate_nrs_link(&key), Ok(()));
}

#[test]
fn validate_error_names_classification_and_locator() {
    let register = locator("safe://reg", ContentType::Raw, DataType::Register, false);
    match validate_nrs_link(&register) {
        Err(e) => assert_eq!(
            e.message().as_str(),
            "The linked content (Register) is versionable, therefore NRS requires the link to specify a hash: \"safe://reg\""
        ),
        Ok(()) => panic!("expected a validation error"),
    }
}

#[test]
fn update_then_resolve_round_trip() {
    let mut map = NrsMap::default();
    let stored = map.update("example", &raw_locator("safe://eg1")).expect("update");
    assert_eq!(stored, "safe://eg1");
    assert_eq!(map.resolve_for_full_name("example"), Ok(String::from("safe://eg1")));

    let stored = map.update("sub.example", &raw_locator("safe://eg2")).expect("update");
    assert_eq!(stored, "safe://eg2");
    assert_eq!(map.resolve_for_full_name("sub.example"), Ok(String::from("safe://eg2")));
}

#[test]
fn update_overwrites_prior_value() {
    let mut map = NrsMap::default();
    map.update("sub.example", &raw_locator("safe://old")).expect("update");
    map.update("sub.example", &raw_locator("safe://new")).expect("update");
    assert_eq!(map.get_link_for("sub"), Ok(String::from("safe://new")));
}

#[test]
fn failed_update_leaves_map_unmodified() {
    let mut map = NrsMap::default();
    map.update("example", &raw_locator("safe://good")).expect("update");
    let bad = locator("safe://bad", ContentType::FilesContainer, DataType::File, false);
    match map.update("example", &bad) {
        Err(Error::ValidationError(msg)) => assert_eq!(
            msg,
            "The linked content (FilesContainer) is versionable, therefore NRS requires the link to specify a hash: \"safe://bad\""
        ),
        other => panic!("expected a validation error, got {:?}", other),
    }
    assert_eq!(map.get_default_link(), Ok(String::from("safe://good")));
}

#[test]
fn remove_absent_path_is_not_found() {
    let mut map = NrsMap::default();
    match map.nrs_map_remove_subname("sub") {
        Err(Error::NotFound(_)) => {}
        other => panic!("expected not found, got {:?}", other),
    }
}

#[test]
fn remove_returns_prior_value_and_unresolves_path() {
    let mut map = NrsMap::default();
    map.update("sub.example", &raw_locator("safe://eg2")).expect("update");
    assert_eq!(map.nrs_map_remove_subname("sub"), Ok(String::from("safe://eg2")));
    match map.get_link_for("sub") {
        Err(Error::NotFound(_)) => {}
        other => panic!("expected not found, got {:?}", other),
    }
}

#[test]
fn default_entry_equivalence() {
    let mut map = NrsMap::default();
    for r in [
        map.get_default_link(),
        map.resolve_for_subnames(&[]),
        map.get_link_for(""),
    ] {
        match r {
            Err(Error::NotFound(_)) => {}
            other => panic!("expected not found, got {:?}", other),
        }
    }
    map.update("example", &raw_locator("safe://eg1")).expect("update");
    assert_eq!(map.get_default_link(), Ok(String::from("safe://eg1")));
    assert_eq!(map.resolve_for_subnames(&[]), Ok(String::from("safe://eg1")));
    assert_eq!(map.get_link_for(""), Ok(String::from("safe://eg1")));
}

#[test]
fn no_fallback_to_ancestor_paths() {
    let mut map = NrsMap::default();
    map.update("example", &raw_locator("safe://eg1")).expect("update");
    match map.get_link_for("sub") {
        Err(Error::NotFound(_)) => {}
        other => panic!("expected not found, got {:?}", other),
    }
}

#[test]
fn three_level_resolution_scenario() {
    let mut map = NrsMap::default();
    map.update("example", &raw_locator("safe://eg1")).expect("update");
    map.update("sub.example", &raw_locator("safe://eg2")).expect("update");
    map.update("sub.sub.example", &raw_locator("safe://eg3")).expect("update");

    assert_eq!(map.resolve_for_full_name("example"), Ok(String::from("safe://eg1")));
    assert_eq!(map.resolve_for_full_name("sub.example"), Ok(String::from("safe://eg2")));
    assert_eq!(map.resolve_for_full_name("sub.sub.example"), Ok(String::from("safe://eg3")));

    assert_eq!(map.get_link_for(""), Ok(String::from("safe://eg1")));
    assert_eq!(map.get_link_for("sub"), Ok(String::from("safe://eg2")));
    assert_eq!(map.get_link_for("sub.sub"), Ok(String::from("safe://eg3")));

    assert_eq!(
        map.resolve_for_subnames(&[String::from("sub"), String::from("sub")]),
        Ok(String::from("safe://eg3"))
    );
}

#[test]
fn register_link_needs_version_anchor_scenario() {
    let mut map = NrsMap::default();
    let unanchored = locator("safe://reg", ContentType::Raw, DataType::Register, false);
    match map.update("example", &unanchored) {
        Err(Error::ValidationError(_)) => {}
        other => panic!("expected a validation error, got {:?}", other),
    }
    let anchored = locator("safe://reg?v=h1", ContentType::Raw, DataType::Register, true);
    assert_eq!(map.update("example", &anchored), Ok(String::from("safe://reg?v=h1")));
    assert_eq!(map.resolve_for_full_name("example"), Ok(String::from("safe://reg?v=h1")));
}

#[test]
fn snapshot_entries_and_hydration() {
    let mut map = NrsMap::default();
    map.update("example", &raw_locator("safe://eg1")).expect("update");
    map.update("sub.example", &raw_locator("safe://eg2")).expect("update");

    let entries = map.entries().clone();
    assert_eq!(entries.len(), 2);
    assert!(entries.contains(&(String::from(""), String::from("safe://eg1"))));
    assert!(entries.contains(&(String::from("sub"), String::from("safe://eg2"))));

    let hydrated = NrsMap::from_entries(entries);
    assert_eq!(hydrated, map);
    assert_eq!(hydrated.resolve_for_full_name("sub.example"), Ok(String::from("safe://eg2")));
}

#[test]
fn hydration_later_entries_win() {
    let map = NrsMap::from_entries(vec![
        (String::from("sub"), String::from("safe://old")),
        (String::from("sub"), String::from("safe://new")),
    ]);
    assert_eq!(map.get_link_for("sub"), Ok(String::from("safe://new")));
}

#[test]
fn clone_keeps_the_association() {
    let mut map = NrsMap::default();
    map.update("sub.example", &raw_locator("safe://eg2")).expect("update");
    let copy = map.clone();
    assert_eq!(copy, map);
    assert_eq!(copy.get_link_for("sub"), Ok(String::from("safe://eg2")));
}

#[test]
fn not_found_message_names_the_path() {
    let map = NrsMap::default();
    match map.get_link_for("sub.sub") {
        Err(e) => assert_eq!(e.message().as_str(), "Link not found in NRS Map Container for: sub.sub"),
        Ok(url) => panic!("expected not found, got {:?}", url),
    }
}
