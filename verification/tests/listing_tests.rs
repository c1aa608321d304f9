use console2lce::convert::{import_kind, is_region_file_name, ImportKind};
use console2lce::dlc::{collect_response, listing_step, ListingStep};

const LISTING: &str = r#"[{"name":"maps","type":"dir"},{"name":"pack.pck","type":"file"},{"name":3,"type":"file"},{"type":"file"}]"#;

#[test]
fn listing_array_gives_its_entries() {
    match listing_step(true, 200, "200 OK", LISTING) {
        ListingStep::Done(entries) => {
            assert_eq!(entries.len(), 2);
            assert_eq!(entries[0].name, "maps");
            assert!(entries[0].is_dir);
            assert_eq!(entries[1].name, "pack.pck");
            assert!(!entries[1].is_dir);
        }
        _ => panic!("expected entries"),
    }
}

#[test]
fn listing_directory_object_is_followed() {
    match listing_step(true, 200, "200 OK", r#"{"type":"dir","path":"dlc/maps"}"#) {
        ListingStep::Follow(p) => assert_eq!(p, "dlc/maps"),
        _ => panic!("expected a path to follow"),
    }
    match listing_step(true, 200, "200 OK", r#"{"type":"dir"}"#) {
        ListingStep::Follow(p) => assert_eq!(p, ""),
        _ => panic!("expected a path to follow"),
    }
}

#[test]
fn listing_file_object_and_scalars_list_as_empty() {
    assert!(matches!(listing_step(true, 200, "200 OK", r#"{"type":"file","path":"a"}"#), ListingStep::Done(v) if v.is_empty()));
    assert!(matches!(listing_step(true, 200, "200 OK", "42"), ListingStep::Done(v) if v.is_empty()));
}

#[test]
fn listing_statuses() {
    assert!(matches!(listing_step(false, 404, "404 Not Found", ""), ListingStep::Done(v) if v.is_empty()));
    match listing_step(false, 500, "500 Internal Server Error", "") {
        ListingStep::Failed(m) => assert_eq!(m, "Git API returned 500 Internal Server Error"),
        _ => panic!("expected an error"),
    }
    match listing_step(true, 200, "200 OK", "not json") {
        ListingStep::Failed(m) => assert!(m.starts_with("Failed to parse response: ")),
        _ => panic!("expected an error"),
    }
}

#[test]
fn collecting_an_array_sorts_files_from_directories() {
    let mut files = vec!["old".to_string()];
    let mut pending = Vec::new();
    collect_response("dlc", true, "200 OK", LISTING, &mut files, &mut pending).unwrap();
    assert_eq!(files, vec!["old".to_string(), "dlc/pack.pck".to_string()]);
    assert_eq!(pending, vec!["dlc/maps".to_string()]);
    let mut root_files = Vec::new();
    let mut root_pending = Vec::new();
    collect_response("", true, "200 OK", LISTING, &mut root_files, &mut root_pending).unwrap();
    assert_eq!(root_files, vec!["pack.pck".to_string()]);
    assert_eq!(root_pending, vec!["maps".to_string()]);
}

#[test]
fn collecting_an_object_keeps_the_path() {
    let mut files = Vec::new();
    let mut pending = Vec::new();
    collect_response("dlc/a.pck", true, "200 OK", r#"{"type":"file"}"#, &mut files, &mut pending).unwrap();
    assert_eq!(files, vec!["dlc/a.pck".to_string()]);
    assert!(pending.is_empty());
}

#[test]
fn collecting_fails_on_status_or_bad_text() {
    let mut files = Vec::new();
    let mut pending = Vec::new();
    assert_eq!(
        collect_response("dlc", false, "403 Forbidden", "", &mut files, &mut pending),
        Err("Failed to list dlc: HTTP 403 Forbidden".to_string())
    );
    let r = collect_response("dlc", true, "200 OK", "{", &mut files, &mut pending);
    assert!(matches!(r, Err(m) if m.starts_with("Failed to parse: ")));
    assert!(files.is_empty() && pending.is_empty());
}

#[test]
fn import_kind_by_path() {
    assert_eq!(import_kind("saves/World.MS", false), ImportKind::CopyLce);
    assert_eq!(import_kind("saves/world.ms", true), ImportKind::CopyLce);
    assert_eq!(import_kind("saves/world", true), ImportKind::JavaWorld);
    assert_eq!(import_kind("saves/save.bin", false), ImportKind::Xbox360Save);
    assert!(is_region_file_name("r.0.0.mca"));
    assert!(is_region_file_name("r.0.0.mcr"));
    assert!(!is_region_file_name("r.0.0.mcx"));
}

#[test]
fn client_line_splits_on_unicode_white_space() {
    assert_eq!(console2lce::relay::parse_client_line("\tCLIENT\u{3000}abc\u{85}").unwrap(), "abc");
    assert_eq!(console2lce::relay::parse_client_line("CLIENT\u{200B}abc").unwrap_err(), "Expected CLIENT, got: CLIENT\u{200B}abc");
}
