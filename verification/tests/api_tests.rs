use memoriz::api::{get_exception_uri, EntriesFilter};
use memoriz::entities::entry::Entry;
use memoriz::entities::ident::Uuid;
use memoriz::search::IndexedEntry;

#[test]
fn archived_filter_parses_the_raw_parameter() {
    let on = EntriesFilter { archived: Some("true".to_string()) };
    assert_eq!(on.archived_filter(), Some(true));

    let off = EntriesFilter { archived: Some("false".to_string()) };
    assert_eq!(off.archived_filter(), Some(false));

    let junk = EntriesFilter { archived: Some("yes".to_string()) };
    assert_eq!(junk.archived_filter(), Some(false));

    let absent = EntriesFilter { archived: None };
    assert_eq!(absent.archived_filter(), None);
}

#[test]
fn exception_uris_cover_health_and_version() {
    assert_eq!(
        get_exception_uri(),
        vec!["/api/_".to_string(), "/api/version".to_string()]
    );
}

#[test]
fn index_projection_keeps_the_four_fields() {
    let entry = Entry::new(
        1,
        Some(Uuid::new(42)),
        "projected".to_string(),
        Some("body text".to_string()),
        Some("{\"k\":1}".to_string()),
        Some("red".to_string()),
        true,
        Some(5),
        Some(6),
        Some(Uuid::new(43)),
        None,
        Some(Uuid::new(44)),
    );
    let doc = IndexedEntry::from_entry(&entry);
    assert_eq!(doc.uuid, Uuid::new(42));
    assert_eq!(doc.title, "projected");
    assert_eq!(doc.content, "body text");
    assert_eq!(doc.owner_uuid, Uuid::new(43));
    assert_eq!(doc.get_uid(), Uuid::new(42));
}
